//! Quota and savings bookkeeping: where things are kept, the store keys,
//! the reference prices and the routing summary.

use vstd::prelude::*;
use crate::codec::{add_wrapping, be_u64_bytes, counter_from_read, encode_u64_be, wrapped_sum};
use crate::clock::{now_rfc3339, reading_text_spec};
use vstd::string::StringSliceAdditionalSpecFns;
use crate::store::{home_dir_bytes, store_get, store_insert, WriteReceipt};
use vstd::utf8::encode_utf8;
use crate::text::{join_str, parse_u64, parse_u64_spec, str_eq};

verus! {

/// `base` joined with `segment`, both as path bytes, as `Path::join` joins
/// them on Unix: an absolute segment replaces the base; otherwise a `/` is
/// put between them unless the base is empty or already ends with one.
pub open spec fn path_join_spec(base: Seq<u8>, segment: Seq<u8>) -> Seq<u8> {
    if segment.len() > 0 && segment[0] == 47u8 {
        segment
    } else if base.len() > 0 && base.last() != 47u8 {
        base + seq![47u8] + segment
    } else {
        base + segment
    }
}

fn push_all(v: &mut Vec<u8>, s: &[u8])
    ensures
        final(v)@ == old(v)@ + s@,
{
    let ghost start = v@;
    let mut i: usize = 0;
    while i < s.len()
        invariant
            i <= s@.len(),
            v@ == start + s@.take(i as int),
        decreases s@.len() - i,
    {
        v.push(s[i]);
        assert(s@.take(i + 1) =~= s@.take(i as int).push(s@[i as int]));
        assert(v@ =~= start + s@.take(i + 1));
        i = i + 1;
    }
    assert(s@.take(s@.len() as int) =~= s@);
}

/// `base` joined with `segment`, as `Path::join` does on Unix.
pub fn path_join(base: &[u8], segment: &[u8]) -> (r: Vec<u8>)
    ensures
        r@ == path_join_spec(base@, segment@),
{
    let mut r: Vec<u8> = Vec::new();
    if segment.len() > 0 && segment[0] == 47u8 {
        push_all(&mut r, segment);
        assert(r@ =~= segment@);
        return r;
    }
    push_all(&mut r, base);
    let n = base.len();
    if n > 0 && base[n - 1] != 47u8 {
        r.push(47u8);
    }
    push_all(&mut r, segment);
    assert(r@ =~= path_join_spec(base@, segment@));
    r
}

/// The bytes of a path written in the library's text.
pub open spec fn path_text(s: &str) -> Seq<u8> {
    s.spec_bytes()
}

/// The data directory under the home directory `home` (path bytes), or
/// under the current directory when there is none.
pub open spec fn data_dir_spec(home: Option<Seq<u8>>) -> Seq<u8> {
    let base = match home {
        Some(h) => h,
        None => path_text("."),
    };
    path_join_spec(base, path_text(".shuntlited/data"))
}

/// The data directory under the home directory `home`, or under the
/// current directory when there is none.
pub fn data_dir_from_home(home: Option<Vec<u8>>) -> (r: Vec<u8>)
    ensures
        r@ == data_dir_spec(
            match home {
                Some(h) => Some(h@),
                None => None,
            },
        ),
{
    match home {
        Some(h) => path_join(h.as_slice(), ".shuntlited/data".as_bytes()),
        None => path_join(".".as_bytes(), ".shuntlited/data".as_bytes()),
    }
}

/// The data directory, under the user's home directory (path bytes).
pub fn data_dir() -> (r: Vec<u8>)
    ensures
        exists|home: Option<Seq<u8>>| r@ == data_dir_spec(home),
{
    let home = home_dir_bytes();
    let ghost h = match &home {
        Some(x) => Some(x@),
        None => None,
    };
    let r = data_dir_from_home(home);
    assert(r@ == data_dir_spec(h));
    r
}

/// The routing summary's file in the data directory `dir`.
pub open spec fn routing_json_in(dir: Seq<u8>) -> Seq<u8> {
    path_join_spec(dir, path_text("routing.json"))
}

/// The reference prices' file in the data directory `dir`.
pub open spec fn reference_pricing_in(dir: Seq<u8>) -> Seq<u8> {
    path_join_spec(dir, path_text("reference_pricing.json"))
}

/// Where the routing summary is written (path bytes).
pub fn routing_json_path() -> (r: Vec<u8>)
    ensures
        exists|home: Option<Seq<u8>>| r@ == routing_json_in(data_dir_spec(home)),
{
    let dir = data_dir();
    path_join(dir.as_slice(), "routing.json".as_bytes())
}

/// Where the reference prices are kept (path bytes).
pub fn reference_pricing_path() -> (r: Vec<u8>)
    ensures
        exists|home: Option<Seq<u8>>| r@ == reference_pricing_in(data_dir_spec(home)),
{
    let dir = data_dir();
    path_join(dir.as_slice(), "reference_pricing.json".as_bytes())
}

/// Store key of the requests left today for `provider`.
pub fn quota_rpd_key(provider: &str) -> (r: String)
    ensures
        r@ == "quota:rpd:"@ + provider@,
{
    join_str("quota:rpd:", provider)
}

/// Store key of the requests (or tokens) left this minute for `provider`.
pub fn quota_rpm_key(provider: &str) -> (r: String)
    ensures
        r@ == "quota:rpm:"@ + provider@,
{
    join_str("quota:rpm:", provider)
}

/// Store key of the tokens left today for `provider`.
pub fn quota_tpd_key(provider: &str) -> (r: String)
    ensures
        r@ == "quota:tpd:"@ + provider@,
{
    join_str("quota:tpd:", provider)
}

/// Store key of the cumulative savings, in micro-dollars.
pub fn savings_total_key() -> (r: &'static str)
    ensures
        r@ == "savings:total_usd_micro"@,
{
    "savings:total_usd_micro"
}

/// Store key of the cumulative number of tokens served.
pub fn savings_tokens_key() -> (r: &'static str)
    ensures
        r@ == "savings:total_tokens"@,
{
    "savings:total_tokens"
}

/// The store keeps each kind of entry under its own keys: keys of one kind
/// name their provider without ambiguity, and keys of two kinds never meet.
pub proof fn law_store_keys_distinct(p: Seq<char>, q: Seq<char>)
    ensures
        "cooldown:"@ + p == "cooldown:"@ + q ==> p == q,
        "quota:rpd:"@ + p == "quota:rpd:"@ + q ==> p == q,
        "quota:rpm:"@ + p == "quota:rpm:"@ + q ==> p == q,
        "quota:tpd:"@ + p == "quota:tpd:"@ + q ==> p == q,
        "cooldown:"@ + p != "quota:rpd:"@ + q,
        "cooldown:"@ + p != "quota:rpm:"@ + q,
        "cooldown:"@ + p != "quota:tpd:"@ + q,
        "quota:rpd:"@ + p != "quota:rpm:"@ + q,
        "quota:rpd:"@ + p != "quota:tpd:"@ + q,
        "quota:rpm:"@ + p != "quota:tpd:"@ + q,
        "cooldown:"@ + p != "savings:total_usd_micro"@,
        "cooldown:"@ + p != "savings:total_tokens"@,
        "quota:rpd:"@ + p != "savings:total_usd_micro"@,
        "quota:rpd:"@ + p != "savings:total_tokens"@,
        "quota:rpm:"@ + p != "savings:total_usd_micro"@,
        "quota:rpm:"@ + p != "savings:total_tokens"@,
        "quota:tpd:"@ + p != "savings:total_usd_micro"@,
        "quota:tpd:"@ + p != "savings:total_tokens"@,
        "savings:total_usd_micro"@ != "savings:total_tokens"@,
{
    reveal_strlit("cooldown:");
    reveal_strlit("quota:rpd:");
    reveal_strlit("quota:rpm:");
    reveal_strlit("quota:tpd:");
    reveal_strlit("savings:total_usd_micro");
    reveal_strlit("savings:total_tokens");
    let c = "cooldown:"@;
    let d = "quota:rpd:"@;
    let m = "quota:rpm:"@;
    let t = "quota:tpd:"@;
    let su = "savings:total_usd_micro"@;
    let st = "savings:total_tokens"@;
    if c + p == c + q {
        assert(p =~= (c + p).subrange(c.len() as int, (c + p).len() as int));
        assert(q =~= (c + q).subrange(c.len() as int, (c + q).len() as int));
    }
    if d + p == d + q {
        assert(p =~= (d + p).subrange(d.len() as int, (d + p).len() as int));
        assert(q =~= (d + q).subrange(d.len() as int, (d + q).len() as int));
    }
    if m + p == m + q {
        assert(p =~= (m + p).subrange(m.len() as int, (m + p).len() as int));
        assert(q =~= (m + q).subrange(m.len() as int, (m + q).len() as int));
    }
    if t + p == t + q {
        assert(p =~= (t + p).subrange(t.len() as int, (t + p).len() as int));
        assert(q =~= (t + q).subrange(t.len() as int, (t + q).len() as int));
    }
    assert((c + p)[0] != (d + q)[0]);
    assert((c + p)[0] != (m + q)[0]);
    assert((c + p)[0] != (t + q)[0]);
    assert((d + p)[8] != (m + q)[8]);
    assert((d + p)[6] != (t + q)[6]);
    assert((m + p)[6] != (t + q)[6]);
    assert((c + p)[0] != su[0]);
    assert((c + p)[0] != st[0]);
    assert((d + p)[0] != su[0]);
    assert((d + p)[0] != st[0]);
    assert((m + p)[0] != su[0]);
    assert((m + p)[0] != st[0]);
    assert((t + p)[0] != su[0]);
    assert((t + p)[0] != st[0]);
    assert(su.len() != st.len());
}

/// The texts and bytes of a list of store writes.
pub open spec fn writes_view(w: Seq<(String, Vec<u8>)>) -> Seq<(Seq<char>, Seq<u8>)> {
    w.map_values(|e: (String, Vec<u8>)| (e.0@, e.1@))
}

/// The write of counter `v` under `key`, if there is a value.
pub open spec fn counter_write(key: Seq<char>, v: Option<u64>) -> Seq<(Seq<char>, Seq<u8>)> {
    match v {
        Some(x) => seq![(key, be_u64_bytes(x))],
        None => Seq::empty(),
    }
}

/// The writes that record a provider's reported quotas: each reported
/// counter under its key, in the order requests per day, per minute, tokens
/// per day; an unreported counter is not written.
pub open spec fn quota_writes_spec(provider: Seq<char>, rpd: Option<u64>, rpm: Option<u64>, tpd: Option<u64>) -> Seq<(Seq<char>, Seq<u8>)> {
    counter_write("quota:rpd:"@ + provider, rpd) + counter_write("quota:rpm:"@ + provider, rpm)
        + counter_write("quota:tpd:"@ + provider, tpd)
}

fn push_counter_write(writes: &mut Vec<(String, Vec<u8>)>, key: String, v: Option<u64>)
    ensures
        writes_view(final(writes)@) == writes_view(old(writes)@) + counter_write(key@, v),
{
    let ghost before = writes@;
    if let Some(x) = v {
        writes.push((key, encode_u64_be(x)));
        assert(writes_view(writes@) =~= writes_view(before) + counter_write(key@, v));
    } else {
        assert(writes_view(writes@) =~= writes_view(before) + counter_write(key@, v));
    }
}

/// The writes that record the quotas `provider` reported.
pub fn quota_writes(provider: &str, rpd: Option<u64>, rpm: Option<u64>, tpd: Option<u64>) -> (r: Vec<(String, Vec<u8>)>)
    ensures
        writes_view(r@) == quota_writes_spec(provider@, rpd, rpm, tpd),
{
    let mut writes: Vec<(String, Vec<u8>)> = Vec::new();
    assert(writes_view(writes@) =~= Seq::empty());
    push_counter_write(&mut writes, quota_rpd_key(provider), rpd);
    push_counter_write(&mut writes, quota_rpm_key(provider), rpm);
    push_counter_write(&mut writes, quota_tpd_key(provider), tpd);
    assert(writes_view(writes@) =~= quota_writes_spec(provider@, rpd, rpm, tpd));
    writes
}

/// A quota counter as a provider reports it in a response header: the
/// header's value when it is a decimal number, none otherwise.
pub fn quota_from_header(header: Option<&[u8]>) -> (r: Option<u64>)
    ensures
        r == match header {
            Some(h) => parse_u64_spec(h@),
            None => None,
        },
{
    match header {
        Some(h) => parse_u64(h),
        None => None,
    }
}

/// A quota counter as read from an optional response header.
pub open spec fn header_quota(header: Option<Seq<u8>>) -> Option<u64> {
    match header {
        Some(h) => parse_u64_spec(h),
        None => None,
    }
}

/// The writes that record the quotas a served answer reports: the headers
/// holding requests left today, requests (or tokens) left this minute and
/// tokens left today, each read as a number, then written as
/// `quota_writes` writes them.
pub fn answer_quota_writes(
    provider: &str,
    rpd: Option<&[u8]>,
    rpm: Option<&[u8]>,
    tpd: Option<&[u8]>,
) -> (r: Vec<(String, Vec<u8>)>)
    ensures
        writes_view(r@) == quota_writes_spec(
            provider@,
            header_quota(
                match rpd {
                    Some(h) => Some(h@),
                    None => None,
                },
            ),
            header_quota(
                match rpm {
                    Some(h) => Some(h@),
                    None => None,
                },
            ),
            header_quota(
                match tpd {
                    Some(h) => Some(h@),
                    None => None,
                },
            ),
        ),
{
    quota_writes(provider, quota_from_header(rpd), quota_from_header(rpm), quota_from_header(tpd))
}

/// Records in the store the quotas a served answer from `provider`
/// reports in its headers: the writes that `answer_quota_writes` gives, in
/// order, each with the receipt of its write. Failed writes are ignored.
pub fn record_answer_quotas(
    db: &sled::Db,
    provider: &str,
    rpd: Option<&[u8]>,
    rpm: Option<&[u8]>,
    tpd: Option<&[u8]>,
) -> (r: Vec<WriteReceipt>)
    ensures
        receipts_view(r@) == writes_bytes(
            quota_writes_spec(
                provider@,
                header_quota(
                    match rpd {
                        Some(h) => Some(h@),
                        None => None,
                    },
                ),
                header_quota(
                    match rpm {
                        Some(h) => Some(h@),
                        None => None,
                    },
                ),
                header_quota(
                    match tpd {
                        Some(h) => Some(h@),
                        None => None,
                    },
                ),
            ),
        ),
{
    let writes = answer_quota_writes(provider, rpd, rpm, tpd);
    apply_writes(db, &writes)
}

/// The keys and values that store receipts show were written, in order.
pub open spec fn receipts_view(r: Seq<WriteReceipt>) -> Seq<(Seq<u8>, Seq<u8>)> {
    r.map_values(|x: WriteReceipt| (x.key(), x.value()))
}

/// Store writes with their keys as the bytes the store is given.
pub open spec fn writes_bytes(w: Seq<(Seq<char>, Seq<u8>)>) -> Seq<(Seq<u8>, Seq<u8>)> {
    w.map_values(|e: (Seq<char>, Seq<u8>)| (encode_utf8(e.0), e.1))
}

/// Performs store writes in order, and returns the receipt of each; failed
/// writes are ignored.
fn apply_writes(db: &sled::Db, writes: &Vec<(String, Vec<u8>)>) -> (r: Vec<WriteReceipt>)
    ensures
        receipts_view(r@) == writes_bytes(writes_view(writes@)),
{
    let mut receipts: Vec<WriteReceipt> = Vec::new();
    let mut i: usize = 0;
    while i < writes.len()
        invariant
            i <= writes@.len(),
            receipts_view(receipts@) == writes_bytes(writes_view(writes@)).take(i as int),
        decreases writes@.len() - i,
    {
        let (_, receipt) = store_insert(db, writes[i].0.as_str().as_bytes(), writes[i].1.as_slice());
        let ghost before = receipts@;
        receipts.push(receipt);
        assert(receipts_view(receipts@) =~= receipts_view(before).push(
            writes_bytes(writes_view(writes@))[i as int],
        ));
        assert(writes_bytes(writes_view(writes@)).take(i + 1) =~= writes_bytes(
            writes_view(writes@),
        ).take(i as int).push(writes_bytes(writes_view(writes@))[i as int]));
        i = i + 1;
    }
    assert(writes_bytes(writes_view(writes@)).take(writes@.len() as int) =~= writes_bytes(
        writes_view(writes@),
    ));
    receipts
}

/// Records the quota counters a provider reported: the writes that
/// `quota_writes` gives, in order, each with the receipt of its write; a
/// counter that is absent is not written, whatever the others are. Failed
/// writes are ignored.
pub fn write_quota(db: &sled::Db, provider: &str, rpd: Option<u64>, rpm: Option<u64>, tpd: Option<u64>) -> (r: Vec<WriteReceipt>)
    ensures
        receipts_view(r@) == writes_bytes(quota_writes_spec(provider@, rpd, rpm, tpd)),
{
    let writes = quota_writes(provider, rpd, rpm, tpd);
    apply_writes(db, &writes)
}

/// Reads the counter stored under `key`; a missing entry, one that is not
/// eight bytes long, or a failed read, gives none.
fn read_u64(db: &sled::Db, key: &str) -> (r: Option<u64>) {
    let read = store_get(db, key.as_bytes());
    counter_from_read(&read)
}

/// The cumulative savings and token count after a request that saved
/// `saving_micro` micro-dollars for `prompt_tokens + completion_tokens`
/// tokens; a counter that was never written counts as zero.
pub open spec fn savings_totals_spec(
    prev_micro: Option<u64>,
    prev_tokens: Option<u64>,
    saving_micro: u64,
    prompt_tokens: u32,
    completion_tokens: u32,
) -> (u64, u64) {
    let pm = match prev_micro {
        Some(v) => v,
        None => 0,
    };
    let pt = match prev_tokens {
        Some(v) => v,
        None => 0,
    };
    (wrapped_sum(pm, saving_micro), wrapped_sum(pt, (prompt_tokens + completion_tokens) as u64))
}

/// The cumulative savings and token count after one more request.
pub fn savings_totals(
    prev_micro: Option<u64>,
    prev_tokens: Option<u64>,
    saving_micro: u64,
    prompt_tokens: u32,
    completion_tokens: u32,
) -> (r: (u64, u64))
    requires
        prompt_tokens + completion_tokens <= u32::MAX,
    ensures
        r == savings_totals_spec(
            prev_micro,
            prev_tokens,
            saving_micro,
            prompt_tokens,
            completion_tokens,
        ),
{
    let pm = match prev_micro {
        Some(v) => v,
        None => 0,
    };
    let pt = match prev_tokens {
        Some(v) => v,
        None => 0,
    };
    let tokens = (prompt_tokens + completion_tokens) as u64;
    (add_wrapping(pm, saving_micro), add_wrapping(pt, tokens))
}

/// The writes that store cumulative savings `micro` and tokens `tokens`.
pub open spec fn savings_writes_spec(micro: u64, tokens: u64) -> Seq<(Seq<char>, Seq<u8>)> {
    seq![
        ("savings:total_usd_micro"@, be_u64_bytes(micro)),
        ("savings:total_tokens"@, be_u64_bytes(tokens)),
    ]
}

/// The writes that store cumulative savings `micro` and tokens `tokens`.
pub fn savings_writes(micro: u64, tokens: u64) -> (r: Vec<(String, Vec<u8>)>)
    ensures
        writes_view(r@) == savings_writes_spec(micro, tokens),
{
    let mut writes: Vec<(String, Vec<u8>)> = Vec::new();
    writes.push((String::from_str(savings_total_key()), encode_u64_be(micro)));
    writes.push((String::from_str(savings_tokens_key()), encode_u64_be(tokens)));
    assert(writes_view(writes@) =~= savings_writes_spec(micro, tokens));
    writes
}

/// Adds one request's savings and tokens to the cumulative counters in the
/// store: the counters read (none on a failed read) go through
/// `savings_totals`, and the writes are those of `savings_writes`. Failed
/// writes are ignored.
pub fn record_savings(db: &sled::Db, saving_micro: u64, prompt_tokens: u32, completion_tokens: u32) -> (r: Vec<WriteReceipt>)
    requires
        prompt_tokens + completion_tokens <= u32::MAX,
    ensures
        exists|prev_micro: Option<u64>, prev_tokens: Option<u64>|
            receipts_view(r@) == writes_bytes(
                savings_writes_spec(
                    savings_totals_spec(
                        prev_micro,
                        prev_tokens,
                        saving_micro,
                        prompt_tokens,
                        completion_tokens,
                    ).0,
                    savings_totals_spec(
                        prev_micro,
                        prev_tokens,
                        saving_micro,
                        prompt_tokens,
                        completion_tokens,
                    ).1,
                ),
            ),
{
    let prev_micro = read_u64(db, savings_total_key());
    let prev_tokens = read_u64(db, savings_tokens_key());
    let (micro, tokens) = savings_totals(
        prev_micro,
        prev_tokens,
        saving_micro,
        prompt_tokens,
        completion_tokens,
    );
    let writes = savings_writes(micro, tokens);
    apply_writes(db, &writes)
}

} // verus!

verus! {

/// Bits of `3.0_f64`, the input price per million tokens assumed for a
/// model without a reference.
pub const FALLBACK_INPUT_COST_BITS: u64 = 0x4008_0000_0000_0000;

/// Bits of `15.0_f64`, the output price per million tokens assumed for a
/// model without a reference.
pub const FALLBACK_OUTPUT_COST_BITS: u64 = 0x402e_0000_0000_0000;

/// Bits of `0.15_f64`.
pub const GPT_4O_MINI_INPUT_COST_BITS: u64 = 0x3fc3_3333_3333_3333;

/// Bits of `0.60_f64`.
pub const GPT_4O_MINI_OUTPUT_COST_BITS: u64 = 0x3fe3_3333_3333_3333;

/// The paid model a free model is compared with, and its prices in dollars
/// per million tokens. Each price is held as the bits of its `f64`
/// (`f64::to_bits`), which name it exactly.
pub struct PricingMapping {
    pub free_model: String,
    pub provider: String,
    pub reference_model: String,
    pub reference_provider: String,
    pub input_cost_per_1m_bits: u64,
    pub output_cost_per_1m_bits: u64,
    pub basis: String,
}

/// A price mapping, by its texts.
pub struct PricingMappingView {
    pub free_model: Seq<char>,
    pub provider: Seq<char>,
    pub reference_model: Seq<char>,
    pub reference_provider: Seq<char>,
    pub input_cost_per_1m_bits: u64,
    pub output_cost_per_1m_bits: u64,
    pub basis: Seq<char>,
}

impl View for PricingMapping {
    type V = PricingMappingView;

    open spec fn view(&self) -> PricingMappingView {
        PricingMappingView {
            free_model: self.free_model@,
            provider: self.provider@,
            reference_model: self.reference_model@,
            reference_provider: self.reference_provider@,
            input_cost_per_1m_bits: self.input_cost_per_1m_bits,
            output_cost_per_1m_bits: self.output_cost_per_1m_bits,
            basis: self.basis@,
        }
    }
}

/// The reference prices, with when they were written and how long they
/// hold.
pub struct ReferencePricing {
    pub updated_at: String,
    pub ttl_seconds: u64,
    pub mappings: Vec<PricingMapping>,
}

/// A default mapping: the free model `free_model` of `provider` compared
/// with gpt-4o-mini.
pub open spec fn default_mapping(free_model: Seq<char>, provider: Seq<char>) -> PricingMappingView {
    PricingMappingView {
        free_model,
        provider,
        reference_model: "gpt-4o-mini"@,
        reference_provider: "openai"@,
        input_cost_per_1m_bits: GPT_4O_MINI_INPUT_COST_BITS,
        output_cost_per_1m_bits: GPT_4O_MINI_OUTPUT_COST_BITS,
        basis: "quality-equivalent"@,
    }
}

/// The default mappings, one for the default model of each provider but
/// scaleway.
pub open spec fn default_mappings() -> Seq<PricingMappingView> {
    seq![
        default_mapping("llama-3.3-70b-versatile"@, "groq"@),
        default_mapping("llama3.1-8b"@, "cerebras"@),
        default_mapping("Meta-Llama-3.3-70B-Instruct"@, "sambanova"@),
        default_mapping("meta-llama/llama-3.3-70b-instruct:free"@, "openrouter"@),
        default_mapping("mistral-small-latest"@, "mistral"@),
    ]
}

fn default_mapping_of(free_model: &str, provider: &str) -> (r: PricingMapping)
    ensures
        r@ == default_mapping(free_model@, provider@),
{
    PricingMapping {
        free_model: String::from_str(free_model),
        provider: String::from_str(provider),
        reference_model: String::from_str("gpt-4o-mini"),
        reference_provider: String::from_str("openai"),
        input_cost_per_1m_bits: GPT_4O_MINI_INPUT_COST_BITS,
        output_cost_per_1m_bits: GPT_4O_MINI_OUTPUT_COST_BITS,
        basis: String::from_str("quality-equivalent"),
    }
}

/// The built-in reference prices, stamped with the current time and valid
/// for a week.
pub fn default_reference_pricing() -> (r: ReferencePricing)
    ensures
        r.ttl_seconds == 604800,
        r.mappings@.map_values(|m: PricingMapping| m@) == default_mappings(),
        r.mappings@.len() == 5,
        forall|i: int|
            0 <= i < r.mappings@.len() ==> (#[trigger] r.mappings@[i]).input_cost_per_1m_bits
                == 0x3fc3_3333_3333_3333u64 && r.mappings@[i].output_cost_per_1m_bits
                == 0x3fe3_3333_3333_3333u64 && r.mappings@[i].reference_model@ == "gpt-4o-mini"@,
        exists|reading: (bool, u64, u32)| r.updated_at@ == reading_text_spec(reading),
{
    let mut mappings: Vec<PricingMapping> = Vec::new();
    mappings.push(default_mapping_of("llama-3.3-70b-versatile", "groq"));
    mappings.push(default_mapping_of("llama3.1-8b", "cerebras"));
    mappings.push(default_mapping_of("Meta-Llama-3.3-70B-Instruct", "sambanova"));
    mappings.push(default_mapping_of("meta-llama/llama-3.3-70b-instruct:free", "openrouter"));
    mappings.push(default_mapping_of("mistral-small-latest", "mistral"));
    assert(mappings@.map_values(|m: PricingMapping| m@) =~= default_mappings());
    proof {
        law_default_pricing();
        assert forall|i: int| 0 <= i < mappings@.len() implies (#[trigger] mappings@[i]).input_cost_per_1m_bits
            == 0x3fc3_3333_3333_3333u64 && mappings@[i].output_cost_per_1m_bits
            == 0x3fe3_3333_3333_3333u64 && mappings@[i].reference_model@ == "gpt-4o-mini"@ by {
            assert(mappings@.map_values(|m: PricingMapping| m@)[i] == mappings@[i]@);
        }
    }
    ReferencePricing { updated_at: now_rfc3339(), ttl_seconds: 604800, mappings }
}

/// The prices (as `f64` bits) that apply to `model` of `provider`: those
/// of the first mapping for that pair, else the fallback prices.
pub open spec fn reference_costs_spec(mappings: Seq<PricingMapping>, provider: Seq<char>, model: Seq<char>) -> (u64, u64)
    decreases mappings.len(),
{
    if mappings.len() == 0 {
        (FALLBACK_INPUT_COST_BITS, FALLBACK_OUTPUT_COST_BITS)
    } else if mappings[0].provider@ == provider && mappings[0].free_model@ == model {
        (mappings[0].input_cost_per_1m_bits, mappings[0].output_cost_per_1m_bits)
    } else {
        reference_costs_spec(mappings.drop_first(), provider, model)
    }
}

impl ReferencePricing {
    /// The input and output prices per million tokens, as `f64` bits, that
    /// apply to `model` of `provider`.
    pub fn reference_costs(&self, provider: &str, model: &str) -> (r: (u64, u64))
        ensures
            r == reference_costs_spec(self.mappings@, provider@, model@),
    {
        let n = self.mappings.len();
        let mut i: usize = 0;
        assert(self.mappings@.subrange(0, n as int) =~= self.mappings@);
        while i < n
            invariant
                i <= n,
                n == self.mappings@.len(),
                reference_costs_spec(self.mappings@, provider@, model@) == reference_costs_spec(
                    self.mappings@.subrange(i as int, n as int),
                    provider@,
                    model@,
                ),
            decreases n - i,
        {
            let ghost rest = self.mappings@.subrange(i as int, n as int);
            assert(rest.drop_first() =~= self.mappings@.subrange(i + 1, n as int));
            let m = &self.mappings[i];
            if str_eq(m.provider.as_str(), provider) && str_eq(m.free_model.as_str(), model) {
                return (m.input_cost_per_1m_bits, m.output_cost_per_1m_bits);
            }
            i = i + 1;
        }
        (FALLBACK_INPUT_COST_BITS, FALLBACK_OUTPUT_COST_BITS)
    }
}

/// Quota and state of one provider, as the routing summary shows it.
pub struct ProviderStatus {
    pub name: String,
    pub status: String,
    pub quota_rpd_remaining: Option<u64>,
    pub quota_rpm_remaining: Option<u64>,
    pub quota_tpd_remaining: Option<u64>,
}

/// The cumulative savings: tokens served and the cost they would have had
/// on the reference model, in micro-dollars.
pub struct SavingsSummary {
    pub total_tokens: u64,
    pub total_usd_micro: u64,
    pub reference_model: String,
}

/// The routing summary: each active provider's quota and the savings.
pub struct RoutingJson {
    pub updated_at: String,
    pub providers: Vec<ProviderStatus>,
    pub savings: SavingsSummary,
}

/// A provider's state by the requests it has left today: none left is
/// saturated, fewer than a hundred is limited, otherwise (or unknown) it is
/// active.
pub open spec fn quota_status_spec(rpd: Option<u64>) -> Seq<char> {
    match rpd {
        Some(v) => if v == 0 {
            "saturated"@
        } else if v < 100 {
            "limited"@
        } else {
            "active"@
        },
        None => "active"@,
    }
}

/// A provider's state by the requests it has left today.
pub fn quota_status(rpd: Option<u64>) -> (r: String)
    ensures
        r@ == quota_status_spec(rpd),
{
    match rpd {
        Some(v) => if v == 0 {
            String::from_str("saturated")
        } else if v < 100 {
            String::from_str("limited")
        } else {
            String::from_str("active")
        },
        None => String::from_str("active"),
    }
}

/// The summary line of the provider `name` with the given counters.
pub fn provider_status(name: &String, rpd: Option<u64>, rpm: Option<u64>, tpd: Option<u64>) -> (r: ProviderStatus)
    ensures
        r.name == *name,
        r.status@ == quota_status_spec(rpd),
        r.quota_rpd_remaining == rpd,
        r.quota_rpm_remaining == rpm,
        r.quota_tpd_remaining == tpd,
{
    ProviderStatus {
        name: name.clone(),
        status: quota_status(rpd),
        quota_rpd_remaining: rpd,
        quota_rpm_remaining: rpm,
        quota_tpd_remaining: tpd,
    }
}

/// The savings summary of the cumulative counters read, a counter that is
/// not there counting as zero; compared with gpt-4o-mini.
pub fn savings_summary(total_micro: Option<u64>, total_tokens: Option<u64>) -> (r: SavingsSummary)
    ensures
        r.total_usd_micro == match total_micro {
            Some(v) => v,
            None => 0,
        },
        r.total_tokens == match total_tokens {
            Some(v) => v,
            None => 0,
        },
        r.reference_model@ == "gpt-4o-mini"@,
{
    SavingsSummary {
        total_tokens: match total_tokens {
            Some(v) => v,
            None => 0,
        },
        total_usd_micro: match total_micro {
            Some(v) => v,
            None => 0,
        },
        reference_model: String::from_str("gpt-4o-mini"),
    }
}

/// The routing summary of `active_providers`, from the counters in the
/// store: one line per provider, in the given order, whose state follows
/// from its requests left today; savings compared with gpt-4o-mini.
pub fn generate_routing_json(db: &sled::Db, active_providers: &[String]) -> (r: RoutingJson)
    ensures
        r.providers@.len() == active_providers@.len(),
        forall|i: int|
            0 <= i < active_providers@.len() ==> {
                &&& (#[trigger] r.providers@[i]).name == active_providers@[i]
                &&& r.providers@[i].status@ == quota_status_spec(r.providers@[i].quota_rpd_remaining)
            },
        r.savings.reference_model@ == "gpt-4o-mini"@,
        exists|reading: (bool, u64, u32)| r.updated_at@ == reading_text_spec(reading),
{
    let n = active_providers.len();
    let mut providers: Vec<ProviderStatus> = Vec::new();
    let mut i: usize = 0;
    while i < n
        invariant
            i <= n,
            n == active_providers@.len(),
            providers@.len() == i,
            forall|j: int|
                0 <= j < i ==> {
                    &&& (#[trigger] providers@[j]).name == active_providers@[j]
                    &&& providers@[j].status@ == quota_status_spec(providers@[j].quota_rpd_remaining)
                },
        decreases n - i,
    {
        let name = &active_providers[i];
        let rpd_key = quota_rpd_key(name.as_str());
        let rpm_key = quota_rpm_key(name.as_str());
        let tpd_key = quota_tpd_key(name.as_str());
        let rpd = read_u64(db, rpd_key.as_str());
        let rpm = read_u64(db, rpm_key.as_str());
        let tpd = read_u64(db, tpd_key.as_str());
        providers.push(provider_status(name, rpd, rpm, tpd));
        i = i + 1;
    }
    let total_micro = read_u64(db, savings_total_key());
    let total_tokens = read_u64(db, savings_tokens_key());
    RoutingJson {
        updated_at: now_rfc3339(),
        providers,
        savings: savings_summary(total_micro, total_tokens),
    }
}

/// The built-in reference prices compare each free model with
/// gpt-4o-mini (OpenAI) at its real prices, $0.15 in and $0.60 out per
/// million tokens, for these five (model, provider) pairs in this order.
pub proof fn law_default_pricing()
    ensures
        default_mappings().len() == 5,
        forall|i: int|
            0 <= i < 5 ==> {
                &&& (#[trigger] default_mappings()[i]).input_cost_per_1m_bits == 0x3fc3_3333_3333_3333u64
                &&& default_mappings()[i].output_cost_per_1m_bits == 0x3fe3_3333_3333_3333u64
                &&& default_mappings()[i].reference_model == "gpt-4o-mini"@
                &&& default_mappings()[i].reference_provider == "openai"@
                &&& default_mappings()[i].basis == "quality-equivalent"@
            },
        default_mappings()[0].free_model == "llama-3.3-70b-versatile"@ && default_mappings()[0].provider
            == "groq"@,
        default_mappings()[1].free_model == "llama3.1-8b"@ && default_mappings()[1].provider
            == "cerebras"@,
        default_mappings()[2].free_model == "Meta-Llama-3.3-70B-Instruct"@
            && default_mappings()[2].provider == "sambanova"@,
        default_mappings()[3].free_model == "meta-llama/llama-3.3-70b-instruct:free"@
            && default_mappings()[3].provider == "openrouter"@,
        default_mappings()[4].free_model == "mistral-small-latest"@ && default_mappings()[4].provider
            == "mistral"@,
{
}

/// Recording quotas writes each reported counter under its own key, as the
/// big-endian bytes of its value, whatever the other counters are; a
/// counter not reported is not written.
pub proof fn law_quota_writes_independent(provider: Seq<char>, rpd: Option<u64>, rpm: Option<u64>, tpd: Option<u64>)
    ensures
        rpd matches Some(v) ==> quota_writes_spec(provider, rpd, rpm, tpd).contains(
            ("quota:rpd:"@ + provider, be_u64_bytes(v)),
        ),
        rpm matches Some(v) ==> quota_writes_spec(provider, rpd, rpm, tpd).contains(
            ("quota:rpm:"@ + provider, be_u64_bytes(v)),
        ),
        tpd matches Some(v) ==> quota_writes_spec(provider, rpd, rpm, tpd).contains(
            ("quota:tpd:"@ + provider, be_u64_bytes(v)),
        ),
        rpd is None ==> forall|i: int|
            0 <= i < quota_writes_spec(provider, rpd, rpm, tpd).len() ==> (
            #[trigger] quota_writes_spec(provider, rpd, rpm, tpd)[i]).0 != "quota:rpd:"@ + provider,
        rpm is None ==> forall|i: int|
            0 <= i < quota_writes_spec(provider, rpd, rpm, tpd).len() ==> (
            #[trigger] quota_writes_spec(provider, rpd, rpm, tpd)[i]).0 != "quota:rpm:"@ + provider,
        tpd is None ==> forall|i: int|
            0 <= i < quota_writes_spec(provider, rpd, rpm, tpd).len() ==> (
            #[trigger] quota_writes_spec(provider, rpd, rpm, tpd)[i]).0 != "quota:tpd:"@ + provider,
{
    law_store_keys_distinct(provider, provider);
    let a = counter_write("quota:rpd:"@ + provider, rpd);
    let b = counter_write("quota:rpm:"@ + provider, rpm);
    let c = counter_write("quota:tpd:"@ + provider, tpd);
    let w = quota_writes_spec(provider, rpd, rpm, tpd);
    assert(w == a + b + c);
    if let Some(v) = rpd {
        assert(w[0] == ("quota:rpd:"@ + provider, be_u64_bytes(v)));
    }
    if let Some(v) = rpm {
        assert(w[a.len() as int] == ("quota:rpm:"@ + provider, be_u64_bytes(v)));
    }
    if let Some(v) = tpd {
        assert(w[(a.len() + b.len()) as int] == ("quota:tpd:"@ + provider, be_u64_bytes(v)));
    }
    assert forall|i: int| 0 <= i < w.len() implies {
        &&& (rpd is None ==> (#[trigger] w[i]).0 != "quota:rpd:"@ + provider)
        &&& (rpm is None ==> w[i].0 != "quota:rpm:"@ + provider)
        &&& (tpd is None ==> w[i].0 != "quota:tpd:"@ + provider)
    } by {
        if i < a.len() {
            assert(w[i] == a[i]);
        } else if i < a.len() + b.len() {
            assert(w[i] == b[i - a.len()]);
        } else {
            assert(w[i] == c[i - a.len() - b.len()]);
        }
    }
}

} // verus!
