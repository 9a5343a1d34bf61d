//! The outside world the library reads and writes: the embedded key-value
//! store, the clock, calendar text and the home directory. Each item here is trusted: its
//! contract is not proved, and says no more than the outside code shows.

use vstd::prelude::*;

verus! {

/// The embedded key-value store (`sled::Db`), held opaque.
#[verifier::external_type_specification]
#[verifier::external_body]
pub struct ExDb(sled::Db);

/// The error of a store operation (`sled::Error`), held opaque.
#[verifier::external_type_specification]
#[verifier::external_body]
pub struct ExStoreError(sled::Error);

/// Reads `key` with `sled::Tree::get` (reached through `Db`'s `Deref`),
/// copying the stored value out.
/// What comes back depends on what is on disk and on other handles to the
/// same store, so nothing is stated of it.
#[verifier::external_body]
pub(crate) fn store_get(db: &sled::Db, key: &[u8]) -> (r: Result<Option<Vec<u8>>, sled::Error>) {
    match db.get(key) {
        Ok(Some(v)) => Ok(Some(v.to_vec())),
        Ok(None) => Ok(None),
        Err(e) => Err(e),
    }
}

/// A record that a write was handed to the store: the key and value that
/// `store_insert` passed to `sled::Tree::insert`. Only `store_insert` makes
/// one, so holding one shows that the write was made.
pub struct WriteReceipt {
    key: Vec<u8>,
    value: Vec<u8>,
}

impl WriteReceipt {
    /// The key written.
    pub closed spec fn key(&self) -> Seq<u8> {
        self.key@
    }

    /// The value written.
    pub closed spec fn value(&self) -> Seq<u8> {
        self.value@
    }
}

/// Writes `value` under `key` with `sled::Tree::insert`; the previous value
/// that `insert` hands back is dropped. Whether the write succeeds depends
/// on the disk, so nothing is stated of the result; the receipt holds the
/// key and value that were handed to `insert`.
#[verifier::external_body]
pub(crate) fn store_insert(db: &sled::Db, key: &[u8], value: &[u8]) -> (r: (Result<(), sled::Error>, WriteReceipt))
    ensures
        r.1.key() == key@,
        r.1.value() == value@,
{
    let result = match db.insert(key, value) {
        Ok(_) => Ok(()),
        Err(e) => Err(e),
    };
    (result, WriteReceipt { key: key.to_vec(), value: value.to_vec() })
}

/// Reads the system clock with `std::time::SystemTime::now` and measures it
/// from the Unix epoch with `SystemTime::duration_since`: `(false, s, n)`
/// for `s` seconds and `n` nanoseconds after the epoch, `(true, s, n)` for a
/// clock that far before it (the error's `duration`). The reading is not
/// stated; that the nanoseconds are below one second is what
/// `Duration::subsec_nanos` documents.
#[verifier::external_body]
pub(crate) fn system_clock() -> (r: (bool, u64, u32))
    ensures
        r.2 < 1_000_000_000,
{
    match std::time::SystemTime::now().duration_since(std::time::UNIX_EPOCH) {
        Ok(d) => (false, d.as_secs(), d.subsec_nanos()),
        Err(e) => (true, e.duration().as_secs(), e.duration().subsec_nanos()),
    }
}

/// The RFC 3339 text that chrono writes for a Unix timestamp, when chrono
/// can represent it: `None` where `DateTime::<Utc>::from_timestamp` gives
/// none.
pub uninterp spec fn rfc3339_text(secs: i64, nanos: u32) -> Option<Seq<char>>;

/// `chrono::DateTime::<chrono::Utc>::from_timestamp(secs, nanos)`, written
/// with `DateTime::to_rfc3339`. Both depend on the arguments alone, so the
/// result is named by `rfc3339_text`; neither panics (`from_timestamp`
/// returns `None` out of range, and writing to a `String` cannot fail).
#[verifier::external_body]
pub(crate) fn rfc3339_of_timestamp(secs: i64, nanos: u32) -> (r: Option<String>)
    ensures
        match r {
            Some(t) => rfc3339_text(secs, nanos) == Some(t@),
            None => rfc3339_text(secs, nanos) is None,
        },
{
    match chrono::DateTime::<chrono::Utc>::from_timestamp(secs, nanos) {
        Some(t) => Some(t.to_rfc3339()),
        None => None,
    }
}

/// The user's home directory by `dirs::home_dir`, as the bytes of its path
/// (`OsString::into_encoded_bytes`, which keeps every byte). It depends on
/// the environment, so nothing is stated of it.
#[verifier::external_body]
pub(crate) fn home_dir_bytes() -> (r: Option<Vec<u8>>) {
    match dirs::home_dir() {
        Some(p) => Some(p.into_os_string().into_encoded_bytes()),
        None => None,
    }
}

} // verus!
