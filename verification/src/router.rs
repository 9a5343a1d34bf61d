//! Provider selection for one request: slot resolution, cooldowns after a
//! rate limit, and the walk through a slot's providers until one answers.

use vstd::prelude::*;
use crate::codec::{add_wrapping, be_u64_bytes, counter_from_read, encode_u64_be, read_value, stored_u64, stored_u64_spec, wrapped_sum};
use crate::config::{effective_providers, effective_spec, lookup_key, lookup_slot, AppConfig, Secrets};
use crate::providers::{get_provider_meta, provider_meta_spec};
use crate::clock::unix_now_secs;
use crate::store::{store_get, store_insert, WriteReceipt};
use vstd::utf8::encode_utf8;
use crate::text::{join_str, decimal, decimal_spec, parse_u64, parse_u64_spec};

verus! {

/// Cooldown applied after a rate limit, and its floor.
pub const DEFAULT_COOLDOWN_SECS: u64 = 300;

/// Store key under which the end of `provider`'s cooldown is kept.
pub fn cooldown_key(provider: &str) -> (r: String)
    ensures
        r@ == "cooldown:"@ + provider@,
{
    join_str("cooldown:", provider)
}

/// A stored cooldown end is in force at `now`: eight bytes naming a second
/// later than `now`.
pub open spec fn cooldown_active_spec(stored: Option<Seq<u8>>, now: u64) -> bool {
    match stored_u64_spec(stored) {
        Some(until) => now < until,
        None => false,
    }
}

/// Decides whether the stored cooldown end `stored` is in force at `now`.
pub fn cooldown_active(stored: &Option<Vec<u8>>, now: u64) -> (r: bool)
    ensures
        r == cooldown_active_spec(
            match stored {
                Some(v) => Some(v@),
                None => None,
            },
            now,
        ),
{
    match stored_u64(stored) {
        Some(until) => now < until,
        None => false,
    }
}

/// Seconds left of a stored cooldown at `now`: what remains until the end
/// it names, when that end is later than `now`.
pub open spec fn cooldown_wait_spec(stored: Option<Seq<u8>>, now: u64) -> Option<u64> {
    match stored_u64_spec(stored) {
        Some(until) => if now < until {
            Some((until - now) as u64)
        } else {
            None
        },
        None => None,
    }
}

/// Whether the cooldown entry that a store read found is in force at `now`;
/// a missing entry or a failed read is no cooldown.
pub fn cooldown_from_read(read: &Result<Option<Vec<u8>>, sled::Error>, now: u64) -> (r: bool)
    ensures
        r == cooldown_active_spec(read_value(*read), now),
{
    match read {
        Ok(stored) => cooldown_active(stored, now),
        Err(_) => false,
    }
}

/// Seconds left, at `now`, of the cooldown entry that a store read found;
/// none when there is no cooldown in force.
pub fn cooldown_wait_from_read(read: &Result<Option<Vec<u8>>, sled::Error>, now: u64) -> (r: Option<u64>)
    ensures
        r == cooldown_wait_spec(read_value(*read), now),
        r matches Some(w) ==> w > 0,
{
    match counter_from_read(read) {
        Some(until) => if now < until {
            Some(until - now)
        } else {
            None
        },
        None => None,
    }
}

/// What a cooldown check found: whether the provider is in cooldown, the
/// end of its cooldown as stored (none when there is no readable eight-byte
/// entry), and the clock reading it was judged at.
pub struct CooldownCheck {
    pub in_cooldown: bool,
    pub until: Option<u64>,
    pub now: u64,
}

/// Whether `provider` is in cooldown now: its entry under `cooldown_key`,
/// as the store gives it, judged at the clock's reading. The provider is in
/// cooldown exactly when the stored end is later than that reading; a
/// missing entry, one that is not eight bytes, or a failed read, is no
/// cooldown.
pub fn is_in_cooldown(db: &sled::Db, provider: &str) -> (r: CooldownCheck)
    ensures
        r.in_cooldown == (r.until matches Some(u) && r.now < u),
{
    let key = cooldown_key(provider);
    let read = store_get(db, key.as_str().as_bytes());
    let now = unix_now_secs();
    let until = counter_from_read(&read);
    let in_cooldown = cooldown_from_read(&read, now);
    CooldownCheck { in_cooldown, until, now }
}

/// Seconds left of `provider`'s cooldown now, if it is in one: its entry
/// under `cooldown_key`, as the store gives it, judged at the clock's
/// reading.
pub fn cooldown_left(db: &sled::Db, provider: &str) -> (r: Option<u64>)
    ensures
        r matches Some(w) ==> w > 0,
{
    let key = cooldown_key(provider);
    let read = store_get(db, key.as_str().as_bytes());
    let now = unix_now_secs();
    cooldown_wait_from_read(&read, now)
}

/// End of a cooldown of `duration_secs` that starts at `now`, in 64-bit
/// unsigned arithmetic that wraps.
pub open spec fn cooldown_until_spec(now: u64, duration_secs: u64) -> u64 {
    wrapped_sum(now, duration_secs)
}

/// End of a cooldown of `duration_secs` that starts at `now`; the sum wraps
/// past `u64::MAX` as it does in a release build.
pub fn cooldown_until(now: u64, duration_secs: u64) -> (r: u64)
    ensures
        r == cooldown_until_spec(now, duration_secs),
{
    add_wrapping(now, duration_secs)
}

/// A cooldown put in the store: the clock reading it starts at, and the
/// receipt of its write.
pub struct CooldownSet {
    now: u64,
    receipt: WriteReceipt,
}

impl CooldownSet {
    /// The clock reading the cooldown starts at.
    pub closed spec fn start(&self) -> u64 {
        self.now
    }

    /// The key written.
    pub closed spec fn key(&self) -> Seq<u8> {
        self.receipt.key()
    }

    /// The value written.
    pub closed spec fn value(&self) -> Seq<u8> {
        self.receipt.value()
    }
}

/// Records in the store that `provider` is in cooldown for `duration_secs`
/// from the clock's reading: the end of the cooldown, as big-endian bytes,
/// under the provider's cooldown key. A failed write is ignored.
pub fn set_cooldown(db: &sled::Db, provider: &str, duration_secs: u64) -> (r: CooldownSet)
    ensures
        r.key() == encode_utf8("cooldown:"@ + provider@),
        r.value() == be_u64_bytes(cooldown_until_spec(r.start(), duration_secs)),
{
    let now = unix_now_secs();
    let (key, bytes) = cooldown_write(provider, now, duration_secs);
    let (_, receipt) = store_insert(db, key.as_str().as_bytes(), bytes.as_slice());
    CooldownSet { now, receipt }
}

/// The stored form of a cooldown of `duration_secs` that starts at `now`:
/// the big-endian bytes of its end.
pub fn cooldown_entry(now: u64, duration_secs: u64) -> (r: Vec<u8>)
    ensures
        r@ == be_u64_bytes(cooldown_until_spec(now, duration_secs)),
{
    encode_u64_be(cooldown_until(now, duration_secs))
}

/// The store write that puts `provider` in cooldown for `duration_secs`
/// from `now`: its cooldown key, and the bytes of the cooldown's end.
pub fn cooldown_write(provider: &str, now: u64, duration_secs: u64) -> (r: (String, Vec<u8>))
    ensures
        r.0@ == "cooldown:"@ + provider@,
        r.1@ == be_u64_bytes(cooldown_until_spec(now, duration_secs)),
{
    (cooldown_key(provider), cooldown_entry(now, duration_secs))
}

/// A cooldown set at `now` for `duration_secs` is in force exactly during
/// the seconds `now ..= now + duration_secs - 1`, when the end fits in 64
/// bits.
pub proof fn law_cooldown_window(now: u64, duration_secs: u64, later: u64)
    requires
        now + duration_secs <= u64::MAX,
    ensures
        cooldown_active_spec(Some(be_u64_bytes(cooldown_until_spec(now, duration_secs))), later)
            <==> later < now + duration_secs,
{
    crate::codec::law_be_decode_encode(cooldown_until_spec(now, duration_secs));
}

/// The cooldown after a rate limit: the `retry-after` value when it is a
/// number, else the default, and never less than the default.
pub open spec fn cooldown_for_spec(retry_after: Option<Seq<u8>>) -> u64 {
    let asked = match retry_after {
        Some(h) => match parse_u64_spec(h) {
            Some(v) => v,
            None => DEFAULT_COOLDOWN_SECS,
        },
        None => DEFAULT_COOLDOWN_SECS,
    };
    if asked > DEFAULT_COOLDOWN_SECS {
        asked
    } else {
        DEFAULT_COOLDOWN_SECS
    }
}

/// The cooldown after a rate limit, from the raw `retry-after` header.
pub fn cooldown_for_retry_after(retry_after: Option<&[u8]>) -> (r: u64)
    ensures
        r == cooldown_for_spec(
            match retry_after {
                Some(h) => Some(h@),
                None => None,
            },
        ),
        r >= DEFAULT_COOLDOWN_SECS,
{
    let asked = match retry_after {
        Some(h) => match parse_u64(h) {
            Some(v) => v,
            None => DEFAULT_COOLDOWN_SECS,
        },
        None => DEFAULT_COOLDOWN_SECS,
    };
    if asked > DEFAULT_COOLDOWN_SECS {
        asked
    } else {
        DEFAULT_COOLDOWN_SECS
    }
}

/// The text of `s` without its trailing slashes.
pub open spec fn trim_end_slashes(s: Seq<char>) -> Seq<char>
    decreases s.len(),
{
    if s.len() > 0 && s.last() == '/' {
        trim_end_slashes(s.drop_last())
    } else {
        s
    }
}

/// The chat-completions endpoint under `base_url`.
pub open spec fn upstream_url_spec(base_url: Seq<char>) -> Seq<char> {
    trim_end_slashes(base_url) + "/chat/completions"@
}

/// The chat-completions endpoint under `base_url`, whatever slashes it ends
/// with.
pub fn upstream_url(base_url: &str) -> (r: String)
    ensures
        r@ == upstream_url_spec(base_url@),
{
    let n = base_url.unicode_len();
    let mut k = n;
    assert(base_url@.take(n as int) =~= base_url@);
    while k > 0 && base_url.get_char(k - 1) == '/'
        invariant
            k <= n,
            n == base_url@.len(),
            trim_end_slashes(base_url@) == trim_end_slashes(base_url@.take(k as int)),
        decreases k,
    {
        assert(base_url@.take(k as int).drop_last() =~= base_url@.take(k - 1));
        k = k - 1;
    }
    assert(base_url@.take(n as int) =~= base_url@);
    let kept = base_url.substring_char(0, k);
    assert(kept@ =~= base_url@.take(k as int));
    join_str(kept, "/chat/completions")
}

} // verus!

verus! {

/// The error answered to a request that no provider served.
pub struct ErrorReply {
    pub status: u16,
    pub message: String,
    pub kind: String,
    pub retry_after: Option<u64>,
}

/// An error answer, by its texts.
pub struct ErrorReplyView {
    pub status: u16,
    pub message: Seq<char>,
    pub kind: Seq<char>,
    pub retry_after: Option<u64>,
}

impl View for ErrorReply {
    type V = ErrorReplyView;

    open spec fn view(&self) -> ErrorReplyView {
        ErrorReplyView {
            status: self.status,
            message: self.message@,
            kind: self.kind@,
            retry_after: self.retry_after,
        }
    }
}

/// The answer to a request for a slot that is not configured.
pub open spec fn unknown_slot_reply(slot: Seq<char>) -> ErrorReplyView {
    ErrorReplyView {
        status: 400,
        message: "Slot inconnu : "@ + slot,
        kind: "no_provider_available"@,
        retry_after: None,
    }
}

/// The answer to a request for a slot none of whose providers is active.
pub open spec fn no_active_provider_reply() -> ErrorReplyView {
    ErrorReplyView {
        status: 503,
        message: "Aucun provider actif pour ce slot."@,
        kind: "no_provider_available"@,
        retry_after: None,
    }
}

/// The answer once every provider of the slot failed or was skipped: with
/// an estimated wait, that wait in whole minutes and in seconds; without
/// one, a hint to check the keys.
pub open spec fn exhausted_reply_spec(wait: Option<u64>) -> ErrorReplyView {
    match wait {
        Some(secs) => ErrorReplyView {
            status: 503,
            message: "Tous les providers sont indisponibles ou en cooldown. Reessayez dans ~"@
                + decimal_spec((secs / 60) as nat) + "min."@,
            kind: "quota_exhausted"@,
            retry_after: Some(secs),
        },
        None => ErrorReplyView {
            status: 503,
            message: "Tous les providers sont indisponibles. Verifiez vos cles API."@,
            kind: "quota_exhausted"@,
            retry_after: None,
        },
    }
}

fn unknown_slot_reply_of(slot: &str) -> (r: ErrorReply)
    ensures
        r@ == unknown_slot_reply(slot@),
{
    ErrorReply {
        status: 400,
        message: join_str("Slot inconnu : ", slot),
        kind: String::from_str("no_provider_available"),
        retry_after: None,
    }
}

fn no_active_provider_reply_of() -> (r: ErrorReply)
    ensures
        r@ == no_active_provider_reply(),
{
    ErrorReply {
        status: 503,
        message: String::from_str("Aucun provider actif pour ce slot."),
        kind: String::from_str("no_provider_available"),
        retry_after: None,
    }
}

/// The answer once every provider of the slot failed or was skipped, with
/// the estimated wait `wait` if there is one.
pub fn exhausted_reply(wait: Option<u64>) -> (r: ErrorReply)
    ensures
        r@ == exhausted_reply_spec(wait),
{
    match wait {
        Some(secs) => {
            let minutes = decimal(secs / 60);
            let head = join_str(
                "Tous les providers sont indisponibles ou en cooldown. Reessayez dans ~",
                minutes.as_str(),
            );
            ErrorReply {
                status: 503,
                message: head.concat("min."),
                kind: String::from_str("quota_exhausted"),
                retry_after: Some(secs),
            }
        },
        None => ErrorReply {
            status: 503,
            message: String::from_str(
                "Tous les providers sont indisponibles. Verifiez vos cles API.",
            ),
            kind: String::from_str("quota_exhausted"),
            retry_after: None,
        },
    }
}

/// Why a provider was passed over.
#[derive(Clone, Copy, Debug, PartialEq, Eq, Structural)]
pub enum SkipReason {
    /// It is in cooldown after a rate limit.
    Cooldown,
    /// The library knows no endpoint for it.
    NoMeta,
    /// No key was loaded for it.
    NoKey,
}

/// Where and how to send the request upstream.
pub struct UpstreamTarget {
    pub provider: String,
    pub url: String,
    pub model: String,
    pub api_key: String,
}

/// An upstream target, by its texts.
pub struct UpstreamTargetView {
    pub provider: Seq<char>,
    pub url: Seq<char>,
    pub model: Seq<char>,
    pub api_key: Seq<char>,
}

impl View for UpstreamTarget {
    type V = UpstreamTargetView;

    open spec fn view(&self) -> UpstreamTargetView {
        UpstreamTargetView {
            provider: self.provider@,
            url: self.url@,
            model: self.model@,
            api_key: self.api_key@,
        }
    }
}

/// What to do next for a request.
pub enum RouteStep {
    /// Pass over this provider.
    Skip(String, SkipReason),
    /// Send the request to this target.
    Send(UpstreamTarget),
    /// Give up and answer this error.
    Exhausted(ErrorReply),
    /// The request has been answered: send nothing more.
    Answered,
}

/// A step, by its texts.
pub enum RouteStepView {
    Skip(Seq<char>, SkipReason),
    Send(UpstreamTargetView),
    Exhausted(ErrorReplyView),
    Answered,
}

impl View for RouteStep {
    type V = RouteStepView;

    open spec fn view(&self) -> RouteStepView {
        match self {
            RouteStep::Skip(p, why) => RouteStepView::Skip(p@, *why),
            RouteStep::Send(t) => RouteStepView::Send(t@),
            RouteStep::Exhausted(e) => RouteStepView::Exhausted(e@),
            RouteStep::Answered => RouteStepView::Answered,
        }
    }
}

/// The walk of one request through its slot's providers, in order.
pub struct Dispatch {
    /// The slot's usable providers, in order of preference.
    providers: Vec<String>,
    /// Position of the next provider to consider.
    next: usize,
    /// Cooldown set after the latest rate limit, if any.
    last_retry_after: Option<u64>,
    /// Shortest time left, in seconds, among the cooldowns of the providers
    /// passed over for one.
    shortest_wait: Option<u64>,
    /// Whether an upstream answer has been passed back.
    answered: bool,
    /// The cooldowns this walk put in the store, in order.
    cooldowns: Vec<CooldownSet>,
}

/// A walk, by its parts.
pub struct DispatchView {
    pub providers: Seq<String>,
    pub next: int,
    pub last_retry_after: Option<u64>,
    pub shortest_wait: Option<u64>,
    pub answered: bool,
    /// Each cooldown put in the store: its start, key and value written.
    pub cooldowns: Seq<(u64, Seq<u8>, Seq<u8>)>,
}

impl View for Dispatch {
    type V = DispatchView;

    closed spec fn view(&self) -> DispatchView {
        DispatchView {
            providers: self.providers@,
            next: self.next as int,
            last_retry_after: self.last_retry_after,
            shortest_wait: self.shortest_wait,
            answered: self.answered,
            cooldowns: self.cooldowns@.map_values(|c: CooldownSet| (c.start(), c.key(), c.value())),
        }
    }
}

/// The wait a walk that gives up estimates: the cooldown set after the
/// latest rate limit, else the shortest cooldown left among the providers
/// passed over for one.
pub open spec fn exhausted_wait_spec(d: DispatchView) -> Option<u64> {
    match d.last_retry_after {
        Some(c) => Some(c),
        None => d.shortest_wait,
    }
}

/// The smaller of a known shortest wait and `w`.
pub open spec fn shorter_wait(known: Option<u64>, w: u64) -> u64 {
    match known {
        Some(k) => if k < w {
            k
        } else {
            w
        },
        None => w,
    }
}

/// The step a walk takes, given the cooldown time left of the provider at
/// its position (`None` when it is not in cooldown): once answered, stop;
/// past the end, give up with the estimated wait; else pass over the
/// provider when it is in cooldown, has no known endpoint or no key, in
/// that order of checks; else send to its endpoint with its default model
/// and its key.
pub open spec fn step_spec(d: DispatchView, cooldown_wait: Option<u64>, secrets: Secrets) -> RouteStepView {
    if d.answered {
        RouteStepView::Answered
    } else if d.next >= d.providers.len() {
        RouteStepView::Exhausted(exhausted_reply_spec(exhausted_wait_spec(d)))
    } else {
        let p = d.providers[d.next]@;
        if cooldown_wait is Some {
            RouteStepView::Skip(p, SkipReason::Cooldown)
        } else {
            match provider_meta_spec(p) {
                None => RouteStepView::Skip(p, SkipReason::NoMeta),
                Some(m) => match lookup_key(secrets.api_keys@, p) {
                    None => RouteStepView::Skip(p, SkipReason::NoKey),
                    Some(k) => RouteStepView::Send(
                        UpstreamTargetView {
                            provider: p,
                            url: upstream_url_spec(m.base_url),
                            model: m.default_model,
                            api_key: k@,
                        },
                    ),
                },
            }
        }
    }
}

/// The walk after that step: past the provider it considered, keeping the
/// shorter cooldown time left; unchanged once answered or past the end.
pub open spec fn advance_spec(d: DispatchView, cooldown_wait: Option<u64>) -> DispatchView {
    if d.answered || d.next >= d.providers.len() {
        d
    } else {
        DispatchView {
            next: d.next + 1,
            shortest_wait: match cooldown_wait {
                Some(w) => Some(shorter_wait(d.shortest_wait, w)),
                None => d.shortest_wait,
            },
            ..d
        }
    }
}

/// The walk after a step for each cooldown time left in `waits`, in order.
pub open spec fn walk_spec(d: DispatchView, waits: Seq<Option<u64>>) -> DispatchView
    decreases waits.len(),
{
    if waits.len() == 0 {
        d
    } else {
        advance_spec(walk_spec(d, waits.drop_last()), waits.last())
    }
}

impl Dispatch {
    /// The position stays within the providers, a recorded cooldown is never
    /// below the default, and a recorded time left is never zero.
    #[verifier::type_invariant]
    spec fn wf(&self) -> bool {
        &&& self.next <= self.providers@.len()
        &&& self.last_retry_after matches Some(c) ==> c >= DEFAULT_COOLDOWN_SECS
        &&& self.shortest_wait matches Some(w) ==> w > 0
    }

    /// Starts the walk for a request to `slot`: an unknown slot is refused
    /// (400), as is a slot none of whose providers is active (503);
    /// otherwise the walk covers the slot's usable providers.
    pub fn begin(config: &AppConfig, slot: &str) -> (r: Result<Dispatch, ErrorReply>)
        ensures
            match r {
                Ok(d) => {
                    &&& lookup_slot(config.slots@, slot@) matches Some(s)
                    &&& d@.providers == effective_spec(s, config.secrets)
                    &&& d@.providers.len() > 0
                    &&& d@.next == 0
                    &&& d@.last_retry_after is None
                    &&& d@.shortest_wait is None
                    &&& !d@.answered
                    &&& d@.cooldowns.len() == 0
                },
                Err(e) => match lookup_slot(config.slots@, slot@) {
                    None => e@ == unknown_slot_reply(slot@),
                    Some(s) => effective_spec(s, config.secrets).len() == 0 && e@
                        == no_active_provider_reply(),
                },
            },
    {
        match config.slot(slot) {
            None => Err(unknown_slot_reply_of(slot)),
            Some(slot_config) => {
                let providers = effective_providers(slot_config, &config.secrets);
                if providers.len() == 0 {
                    Err(no_active_provider_reply_of())
                } else {
                    Ok(
                        Dispatch {
                            providers,
                            next: 0,
                            last_retry_after: None,
                            shortest_wait: None,
                            answered: false,
                            cooldowns: Vec::new(),
                        },
                    )
                }
            },
        }
    }

    /// The usable providers the walk goes through, in order.
    pub fn providers(&self) -> (r: &Vec<String>)
        ensures
            r@ == self@.providers,
    {
        &self.providers
    }

    /// Whether an upstream answer has been passed back.
    pub fn answered(&self) -> (r: bool)
        ensures
            r == self@.answered,
    {
        self.answered
    }

    /// The provider at the walk's position, while the walk is under way.
    pub fn current_provider(&self) -> (r: Option<&String>)
        ensures
            match r {
                Some(p) => !self@.answered && self@.next < self@.providers.len() && *p
                    == self@.providers[self@.next],
                None => self@.answered || self@.next >= self@.providers.len(),
            },
    {
        proof {
            use_type_invariant(self);
        }
        if self.answered || self.next >= self.providers.len() {
            None
        } else {
            Some(&self.providers[self.next])
        }
    }

    /// Takes the step at the current position, knowing the cooldown time
    /// left of that provider (`None` when it is not in cooldown), and moves
    /// past it.
    pub fn consider(&mut self, cooldown_wait: Option<u64>, secrets: &Secrets) -> (r: RouteStep)
        requires
            cooldown_wait matches Some(w) ==> w > 0,
        ensures
            final(self)@ == advance_spec(old(self)@, cooldown_wait),
            r@ == step_spec(old(self)@, cooldown_wait, *secrets),
    {
        proof {
            use_type_invariant(&*self);
        }
        if self.answered {
            return RouteStep::Answered;
        }
        if self.next >= self.providers.len() {
            let wait = match self.last_retry_after {
                Some(c) => Some(c),
                None => self.shortest_wait,
            };
            return RouteStep::Exhausted(exhausted_reply(wait));
        }
        let i = self.next;
        self.next = i + 1;
        if let Some(w) = cooldown_wait {
            let shortest = match self.shortest_wait {
                Some(k) => if k < w {
                    k
                } else {
                    w
                },
                None => w,
            };
            self.shortest_wait = Some(shortest);
            return RouteStep::Skip(self.providers[i].clone(), SkipReason::Cooldown);
        }
        let p = &self.providers[i];
        match get_provider_meta(p.as_str()) {
            None => RouteStep::Skip(p.clone(), SkipReason::NoMeta),
            Some(meta) => match secrets.get_key(p.as_str()) {
                None => RouteStep::Skip(p.clone(), SkipReason::NoKey),
                Some(key) => RouteStep::Send(
                    UpstreamTarget {
                        provider: p.clone(),
                        url: upstream_url(meta.base_url),
                        model: String::from_str(meta.default_model),
                        api_key: key.clone(),
                    },
                ),
            },
        }
    }

    /// Takes the step at the current position, reading that provider's
    /// cooldown from the store and the clock.
    pub fn next_step(&mut self, db: &sled::Db, secrets: &Secrets) -> (r: RouteStep)
        ensures
            exists|w: Option<u64>|
                {
                    &&& (w matches Some(x) ==> x > 0)
                    &&& final(self)@ == advance_spec(old(self)@, w)
                    &&& r@ == step_spec(old(self)@, w, *secrets)
                },
    {
        proof {
            use_type_invariant(&*self);
        }
        let wait = match self.current_provider() {
            Some(p) => cooldown_left(db, p.as_str()),
            None => None,
        };
        self.consider(wait, secrets)
    }

    /// Notes a rate limit answered with the raw `retry-after` header
    /// `retry_after`, and returns the cooldown it calls for.
    pub fn rate_limited(&mut self, retry_after: Option<&[u8]>) -> (r: u64)
        ensures
            r == cooldown_for_spec(
                match retry_after {
                    Some(h) => Some(h@),
                    None => None,
                },
            ),
            final(self)@ == (DispatchView { last_retry_after: Some(r), ..old(self)@ }),
    {
        proof {
            use_type_invariant(&*self);
        }
        let c = cooldown_for_retry_after(retry_after);
        self.last_retry_after = Some(c);
        c
    }

    /// Notes a rate limit from `provider`, answered with the raw
    /// `retry-after` header `retry_after`, and puts `provider` in cooldown
    /// in the store for the cooldown it calls for, which is returned.
    pub fn record_rate_limit(&mut self, db: &sled::Db, provider: &str, retry_after: Option<&[u8]>) -> (r: u64)
        ensures
            r == cooldown_for_spec(
                match retry_after {
                    Some(h) => Some(h@),
                    None => None,
                },
            ),
            final(self)@ == (DispatchView {
                last_retry_after: Some(r),
                cooldowns: final(self)@.cooldowns,
                ..old(self)@
            }),
            final(self)@.cooldowns.len() == old(self)@.cooldowns.len() + 1,
            final(self)@.cooldowns.drop_last() == old(self)@.cooldowns,
            final(self)@.cooldowns.last().1 == encode_utf8("cooldown:"@ + provider@),
            final(self)@.cooldowns.last().2 == be_u64_bytes(
                cooldown_until_spec(final(self)@.cooldowns.last().0, r),
            ),
    {
        proof {
            use_type_invariant(&*self);
        }
        let c = self.rate_limited(retry_after);
        let set = set_cooldown(db, provider, c);
        let mut cooldowns: Vec<CooldownSet> = Vec::new();
        std::mem::swap(&mut cooldowns, &mut self.cooldowns);
        let ghost before = cooldowns@;
        cooldowns.push(set);
        proof {
            let f = |x: CooldownSet| (x.start(), x.key(), x.value());
            assert(cooldowns@.map_values(f).drop_last() =~= before.map_values(f));
        }
        self.cooldowns = cooldowns;
        c
    }

    /// Notes a successful (2xx) upstream answer whose body did (`parsed`)
    /// or did not read as a completion. A readable answer is passed back
    /// and ends the walk; an unreadable one leaves the walk to go on.
    /// Returns whether the answer is passed back.
    pub fn on_answer(&mut self, parsed: bool) -> (r: bool)
        ensures
            r == parsed,
            final(self)@ == (DispatchView { answered: old(self)@.answered || parsed, ..old(self)@ }),
    {
        proof {
            use_type_invariant(&*self);
        }
        if parsed {
            self.answered = true;
        }
        parsed
    }
}

} // verus!

verus! {

/// With the keys loaded at startup from the known providers' variables,
/// every usable provider of a slot is sent the request unless it is in
/// cooldown: none is passed over for want of an endpoint or of a key.
pub proof fn law_loaded_provider_is_sent(
    values: Seq<Option<String>>,
    secrets: Secrets,
    slot: crate::config::SlotConfig,
    d: DispatchView,
)
    requires
        values.len() == crate::config::KNOWN_PROVIDER_COUNT,
        crate::config::name_views(secrets.active_providers@) == crate::config::loaded_names(
            values,
            crate::config::KNOWN_PROVIDER_COUNT as int,
        ),
        crate::config::entry_views(secrets.api_keys@) == crate::config::loaded_keys(
            values,
            crate::config::KNOWN_PROVIDER_COUNT as int,
        ),
        d.providers == effective_spec(slot, secrets),
        !d.answered,
        0 <= d.next < d.providers.len(),
    ensures
        step_spec(d, None, secrets) is Send,
{
    let n = crate::config::KNOWN_PROVIDER_COUNT as int;
    let next = d.next;
    let pred = |q: String| secrets.is_active(q@);
    let eff = slot.providers@.filter(pred);
    assert(eff == effective_spec(slot, secrets));
    slot.providers@.lemma_filter_pred(pred, next);
    let p = eff[next]@;
    assert(secrets.is_active(p));
    let j = choose|j: int| 0 <= j < secrets.active_providers@.len() && (#[trigger] secrets.active_providers@[j])@ == p;
    let names = crate::config::loaded_names(values, n);
    assert(crate::config::name_views(secrets.active_providers@)[j] == p);
    assert(names[j] == p);
    crate::config::lemma_loaded_pairs(values, n);
    let keys = crate::config::loaded_keys(values, n);
    assert(keys[j].0 == p);
    assert(crate::config::entry_views(secrets.api_keys@)[j] == keys[j]);
    assert(secrets.api_keys@[j].0@ == p);
    crate::config::lemma_lookup_key_found(secrets.api_keys@, p, j);
    let k = choose|k: int| 0 <= k < n && #[trigger] names[j] == crate::config::known_name(k);
    crate::providers::law_known_providers_have_meta(k);
}

/// Once every provider has been passed, a walk that met a rate limit gives
/// up with the wait it calls for: the latest cooldown in seconds, never
/// under the default, and the same wait in whole minutes in the message.
pub proof fn law_exhausted_after_rate_limit(d: DispatchView, secrets: Secrets)
    requires
        !d.answered,
        d.next == d.providers.len(),
        d.last_retry_after matches Some(c) && c >= DEFAULT_COOLDOWN_SECS,
    ensures
        ({
            let c = d.last_retry_after->0;
            &&& step_spec(d, None, secrets) == RouteStepView::Exhausted(exhausted_reply_spec(Some(c)))
            &&& exhausted_reply_spec(Some(c)).retry_after == Some(c)
            &&& exhausted_reply_spec(Some(c)).message
                == "Tous les providers sont indisponibles ou en cooldown. Reessayez dans ~"@
                + decimal_spec((c / 60) as nat) + "min."@
        }),
{
}

/// A walk whose providers are all in cooldown sends nothing: it passes
/// over each of them, then gives up with an estimated wait, the shortest
/// cooldown time left among them, in seconds and in whole minutes.
pub proof fn law_all_in_cooldown(d: DispatchView, waits: Seq<Option<u64>>, secrets: Secrets)
    requires
        d.next == 0,
        !d.answered,
        d.last_retry_after is None,
        d.shortest_wait is None,
        waits.len() == d.providers.len(),
        forall|i: int| 0 <= i < waits.len() ==> (#[trigger] waits[i] matches Some(w) && w > 0),
    ensures
        forall|k: int|
            0 <= k < waits.len() ==> step_spec(walk_spec(d, waits.take(k)), waits[k], secrets)
                == RouteStepView::Skip(d.providers[k]@, SkipReason::Cooldown),
        ({
            let end = walk_spec(d, waits);
            let w = end.shortest_wait;
            &&& end.next == d.providers.len()
            &&& (d.providers.len() > 0 ==> (w matches Some(x) && x > 0 && (forall|i: int|
                0 <= i < waits.len() ==> x <= #[trigger] waits[i]->0) && (exists|i: int|
                0 <= i < waits.len() && x == #[trigger] waits[i]->0)))
            &&& step_spec(end, None, secrets) == RouteStepView::Exhausted(exhausted_reply_spec(w))
        }),
{
    lemma_walk_in_cooldown(d, waits, waits.len() as int);
    assert(waits.take(waits.len() as int) =~= waits);
    assert forall|k: int| 0 <= k < waits.len() implies step_spec(
        walk_spec(d, waits.take(k)),
        waits[k],
        secrets,
    ) == RouteStepView::Skip(d.providers[k]@, SkipReason::Cooldown) by {
        lemma_walk_in_cooldown(d, waits, k);
    }
}

proof fn lemma_walk_in_cooldown(d: DispatchView, waits: Seq<Option<u64>>, k: int)
    requires
        d.next == 0,
        !d.answered,
        d.last_retry_after is None,
        d.shortest_wait is None,
        waits.len() == d.providers.len(),
        forall|i: int| 0 <= i < waits.len() ==> (#[trigger] waits[i] matches Some(w) && w > 0),
        0 <= k <= waits.len(),
    ensures
        ({
            let dk = walk_spec(d, waits.take(k));
            &&& dk.next == k
            &&& !dk.answered
            &&& dk.providers == d.providers
            &&& dk.last_retry_after is None
            &&& (k == 0 ==> dk.shortest_wait is None)
            &&& (k > 0 ==> (dk.shortest_wait matches Some(x) && x > 0 && (forall|i: int|
                0 <= i < k ==> x <= #[trigger] waits[i]->0) && (exists|i: int|
                0 <= i < k && x == #[trigger] waits[i]->0)))
        }),
    decreases k,
{
    if k == 0 {
        assert(waits.take(0) =~= Seq::<Option<u64>>::empty());
    } else {
        lemma_walk_in_cooldown(d, waits, k - 1);
        assert(waits.take(k).drop_last() =~= waits.take(k - 1));
        assert(waits.take(k).last() == waits[k - 1]);
        let prev = walk_spec(d, waits.take(k - 1));
        let dk = walk_spec(d, waits.take(k));
        assert(dk == advance_spec(prev, waits[k - 1]));
        let w = waits[k - 1]->0;
        assert(waits[k - 1] matches Some(x) && x > 0);
        if k - 1 > 0 {
            let x = prev.shortest_wait->0;
            let i0 = choose|i: int| 0 <= i < k - 1 && x == #[trigger] waits[i]->0;
            if x < w {
                assert(0 <= i0 < k && dk.shortest_wait->0 == waits[i0]->0);
            } else {
                assert(dk.shortest_wait->0 == waits[k - 1]->0);
            }
        } else {
            assert(dk.shortest_wait->0 == waits[k - 1]->0);
        }
    }
}

/// A walk that passes every provider without meeting a cooldown, and notes
/// no rate limit on the way, invents no wait: it gives up with a 503, no
/// `retry_after`, and the message that asks to check the API keys.
pub proof fn law_no_wait_without_limit(d: DispatchView, n: nat, cooldown_wait: Option<u64>, secrets: Secrets)
    requires
        d.next == 0,
        !d.answered,
        d.last_retry_after is None,
        d.shortest_wait is None,
        n == d.providers.len(),
    ensures
        step_spec(walk_spec(d, Seq::new(n, |i: int| None::<u64>)), cooldown_wait, secrets)
            == RouteStepView::Exhausted(
            ErrorReplyView {
                status: 503,
                message: "Tous les providers sont indisponibles. Verifiez vos cles API."@,
                kind: "quota_exhausted"@,
                retry_after: None,
            },
        ),
{
    let waits = Seq::new(n, |i: int| None::<u64>);
    lemma_walk_without_cooldown(d, waits, n as int);
    assert(waits.take(n as int) =~= waits);
}

proof fn lemma_walk_without_cooldown(d: DispatchView, waits: Seq<Option<u64>>, k: int)
    requires
        d.next == 0,
        !d.answered,
        d.last_retry_after is None,
        d.shortest_wait is None,
        waits.len() == d.providers.len(),
        forall|i: int| 0 <= i < waits.len() ==> #[trigger] waits[i] is None,
        0 <= k <= waits.len(),
    ensures
        ({
            let dk = walk_spec(d, waits.take(k));
            &&& dk.next == k
            &&& !dk.answered
            &&& dk.providers == d.providers
            &&& dk.last_retry_after is None
            &&& dk.shortest_wait is None
        }),
    decreases k,
{
    if k == 0 {
        assert(waits.take(0) =~= Seq::<Option<u64>>::empty());
    } else {
        lemma_walk_without_cooldown(d, waits, k - 1);
        assert(waits.take(k).drop_last() =~= waits.take(k - 1));
        assert(waits.take(k).last() == waits[k - 1]);
        assert(waits[k - 1] is None);
    }
}

/// A walk that has passed an answer back sends nothing more: every later
/// step stops it, and it stays as it is.
pub proof fn law_answer_ends_walk(d: DispatchView, cooldown_wait: Option<u64>, secrets: Secrets)
    requires
        d.answered,
    ensures
        step_spec(d, cooldown_wait, secrets) == RouteStepView::Answered,
        advance_spec(d, cooldown_wait) == d,
{
}

} // verus!

verus! {

/// How an upstream answer is taken.
#[derive(Clone, Copy, Debug, PartialEq, Eq, Structural)]
pub enum ResponseKind {
    /// 429: put the provider in cooldown and try the next one.
    RateLimited,
    /// Any other status outside 2xx: try the next provider.
    Failed,
    /// 2xx: the answer is passed back if its body reads as a completion.
    Succeeded,
}

/// How an upstream answer with HTTP status `status` is taken.
pub open spec fn classify_status_spec(status: u16) -> ResponseKind {
    if status == 429 {
        ResponseKind::RateLimited
    } else if 200 <= status <= 299 {
        ResponseKind::Succeeded
    } else {
        ResponseKind::Failed
    }
}

/// How an upstream answer with HTTP status `status` is taken.
pub fn classify_status(status: u16) -> (r: ResponseKind)
    ensures
        r == classify_status_spec(status),
{
    if status == 429 {
        ResponseKind::RateLimited
    } else if 200 <= status && status <= 299 {
        ResponseKind::Succeeded
    } else {
        ResponseKind::Failed
    }
}

} // verus!

verus! {

/// A walk gives up with a wait only when it met a rate limit or a provider
/// in cooldown: the cooldown of the latest rate limit, else the shortest
/// cooldown left among the providers passed over for one. Having met
/// neither, it answers 503 with no wait and asks to check the keys.
pub proof fn law_exhausted_wait_only_when_met(d: DispatchView, cooldown_wait: Option<u64>, secrets: Secrets)
    requires
        !d.answered,
        d.next >= d.providers.len(),
    ensures
        step_spec(d, cooldown_wait, secrets) matches RouteStepView::Exhausted(e) && e.status == 503
            && e.kind == "quota_exhausted"@ && e.retry_after == (match d.last_retry_after {
            Some(c) => Some(c),
            None => d.shortest_wait,
        }),
        d.last_retry_after is None && d.shortest_wait is None ==> step_spec(
            d,
            cooldown_wait,
            secrets,
        ) == RouteStepView::Exhausted(
            ErrorReplyView {
                status: 503,
                message: "Tous les providers sont indisponibles. Verifiez vos cles API."@,
                kind: "quota_exhausted"@,
                retry_after: None,
            },
        ),
{
}

/// The cooldown a rate limit calls for lasts the `retry-after` seconds
/// asked for, or 300 when none (or no number) is given, and never less
/// than 300; stored as the bytes of its end, it is in force at a later
/// clock reading `t` exactly when `t` is before its start plus that length.
pub proof fn law_rate_limit_cooldown_length(retry_after: Option<Seq<u8>>, start: u64, t: u64)
    ensures
        ({
            let asked: u64 = match retry_after {
                Some(h) => match parse_u64_spec(h) {
                    Some(v) => v,
                    None => 300,
                },
                None => 300,
            };
            cooldown_for_spec(retry_after) == if asked > 300 {
                asked
            } else {
                300
            }
        }),
        start + cooldown_for_spec(retry_after) <= u64::MAX ==> (cooldown_active_spec(
            Some(be_u64_bytes(cooldown_until_spec(start, cooldown_for_spec(retry_after)))),
            t,
        ) <==> t < start + cooldown_for_spec(retry_after)),
{
    if start + cooldown_for_spec(retry_after) <= u64::MAX {
        law_cooldown_window(start, cooldown_for_spec(retry_after), t);
    }
}

} // verus!
