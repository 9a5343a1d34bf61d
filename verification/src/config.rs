//! Routing configuration: slots, server address and the provider keys that
//! were found at startup.

use vstd::prelude::*;
use crate::text::str_eq;

verus! {

/// Address the proxy listens on.
pub struct ServerConfig {
    pub host: String,
    pub port: u16,
}

/// The providers a slot declares, in order of preference.
pub struct SlotConfig {
    pub providers: Vec<String>,
}

/// Provider keys present at startup: the providers that can be used and
/// the key of each.
pub struct Secrets {
    pub active_providers: Vec<String>,
    pub api_keys: Vec<(String, String)>,
}

/// The whole configuration: the server, each named slot, and the keys.
pub struct AppConfig {
    pub server: ServerConfig,
    pub slots: Vec<(String, SlotConfig)>,
    pub secrets: Secrets,
}

impl Default for Secrets {
    fn default() -> (r: Secrets)
        ensures
            r.active_providers@.len() == 0,
            r.api_keys@.len() == 0,
    {
        Secrets { active_providers: Vec::new(), api_keys: Vec::new() }
    }
}

/// The key stored for `p`: the first entry under that name.
pub open spec fn lookup_key(entries: Seq<(String, String)>, p: Seq<char>) -> Option<String>
    decreases entries.len(),
{
    if entries.len() == 0 {
        None
    } else if entries[0].0@ == p {
        Some(entries[0].1)
    } else {
        lookup_key(entries.drop_first(), p)
    }
}

/// `p` is among the names of `names`.
pub open spec fn has_name(names: Seq<String>, p: Seq<char>) -> bool {
    exists|i: int| 0 <= i < names.len() && (#[trigger] names[i])@ == p
}

impl Secrets {
    /// `p` is an active provider.
    pub open spec fn is_active(self, p: Seq<char>) -> bool {
        has_name(self.active_providers@, p)
    }

    /// The key of `provider`, if one was loaded.
    pub fn get_key(&self, provider: &str) -> (r: Option<&String>)
        ensures
            r matches Some(k) ==> lookup_key(self.api_keys@, provider@) == Some(*k),
            r is None <==> lookup_key(self.api_keys@, provider@) is None,
    {
        let n = self.api_keys.len();
        let mut i: usize = 0;
        assert(self.api_keys@.subrange(0, n as int) =~= self.api_keys@);
        while i < n
            invariant
                i <= n,
                n == self.api_keys@.len(),
                lookup_key(self.api_keys@, provider@) == lookup_key(
                    self.api_keys@.subrange(i as int, n as int),
                    provider@,
                ),
            decreases n - i,
        {
            let ghost rest = self.api_keys@.subrange(i as int, n as int);
            assert(rest.drop_first() =~= self.api_keys@.subrange(i + 1, n as int));
            if str_eq(self.api_keys[i].0.as_str(), provider) {
                return Some(&self.api_keys[i].1);
            }
            i = i + 1;
        }
        None
    }

    /// `true` exactly when `provider` is active.
    pub fn is_active_provider(&self, provider: &str) -> (r: bool)
        ensures
            r == self.is_active(provider@),
    {
        let n = self.active_providers.len();
        let mut i: usize = 0;
        while i < n
            invariant
                i <= n,
                n == self.active_providers@.len(),
                forall|j: int| 0 <= j < i ==> (#[trigger] self.active_providers@[j])@ != provider@,
            decreases n - i,
        {
            if str_eq(self.active_providers[i].as_str(), provider) {
                assert(self.active_providers@[i as int]@ == provider@);
                return true;
            }
            i = i + 1;
        }
        false
    }
}

/// A slot's usable providers: those it declares that are active, in the
/// declared order.
pub open spec fn effective_spec(slot_config: SlotConfig, secrets: Secrets) -> Seq<String> {
    slot_config.providers@.filter(|p: String| secrets.is_active(p@))
}

/// Returns the usable providers of a slot: the declared providers that have
/// a key, in the declared order.
pub fn effective_providers(slot_config: &SlotConfig, secrets: &Secrets) -> (r: Vec<String>)
    ensures
        r@ == effective_spec(*slot_config, *secrets),
{
    let ghost pred = |p: String| secrets.is_active(p@);
    let n = slot_config.providers.len();
    let mut r: Vec<String> = Vec::new();
    let mut i: usize = 0;
    while i < n
        invariant
            i <= n,
            n == slot_config.providers@.len(),
            pred == (|p: String| secrets.is_active(p@)),
            r@ == slot_config.providers@.take(i as int).filter(pred),
        decreases n - i,
    {
        proof {
            reveal(Seq::filter);
            assert(slot_config.providers@.take(i + 1).drop_last() =~= slot_config.providers@.take(
                i as int,
            ));
        }
        let p = &slot_config.providers[i];
        if secrets.is_active_provider(p.as_str()) {
            r.push(p.clone());
        }
        i = i + 1;
    }
    assert(slot_config.providers@.take(n as int) =~= slot_config.providers@);
    r
}

} // verus!

verus! {

/// How many providers the library knows a key variable for.
pub const KNOWN_PROVIDER_COUNT: usize = 6;

/// Name of the `i`-th known provider.
pub open spec fn known_name(i: int) -> Seq<char> {
    if i == 0 {
        "groq"@
    } else if i == 1 {
        "cerebras"@
    } else if i == 2 {
        "sambanova"@
    } else if i == 3 {
        "openrouter"@
    } else if i == 4 {
        "mistral"@
    } else {
        "scaleway"@
    }
}

/// Environment variable that holds the key of the `i`-th known provider.
pub open spec fn known_env_var(i: int) -> Seq<char> {
    if i == 0 {
        "GROQ_API_KEY"@
    } else if i == 1 {
        "CEREBRAS_API_KEY"@
    } else if i == 2 {
        "SAMBANOVA_API_KEY"@
    } else if i == 3 {
        "OPENROUTER_API_KEY"@
    } else if i == 4 {
        "MISTRAL_API_KEY"@
    } else {
        "SCALEWAY_API_KEY"@
    }
}

/// The `i`-th known provider: its name and the variable that holds its key.
pub fn known_provider(i: usize) -> (r: (&'static str, &'static str))
    requires
        i < KNOWN_PROVIDER_COUNT,
    ensures
        r.0@ == known_name(i as int),
        r.1@ == known_env_var(i as int),
{
    if i == 0 {
        ("groq", "GROQ_API_KEY")
    } else if i == 1 {
        ("cerebras", "CEREBRAS_API_KEY")
    } else if i == 2 {
        ("sambanova", "SAMBANOVA_API_KEY")
    } else if i == 3 {
        ("openrouter", "OPENROUTER_API_KEY")
    } else if i == 4 {
        ("mistral", "MISTRAL_API_KEY")
    } else {
        ("scaleway", "SCALEWAY_API_KEY")
    }
}

/// Unicode white space, as `char::is_whitespace` defines it.
pub open spec fn is_whitespace_char(c: char) -> bool {
    let u = c as u32;
    ||| 9 <= u <= 13
    ||| u == 32
    ||| u == 0x85
    ||| u == 0xa0
    ||| u == 0x1680
    ||| 0x2000 <= u <= 0x200a
    ||| u == 0x2028
    ||| u == 0x2029
    ||| u == 0x202f
    ||| u == 0x205f
    ||| u == 0x3000
}

/// Text that is not empty once white space is trimmed from both ends.
pub open spec fn has_content(s: Seq<char>) -> bool {
    exists|i: int| 0 <= i < s.len() && !is_whitespace_char(#[trigger] s[i])
}

fn is_whitespace(c: char) -> (r: bool)
    ensures
        r == is_whitespace_char(c),
{
    let u = c as u32;
    (9 <= u && u <= 13) || u == 32 || u == 0x85 || u == 0xa0 || u == 0x1680 || (0x2000 <= u && u
        <= 0x200a) || u == 0x2028 || u == 0x2029 || u == 0x202f || u == 0x205f || u == 0x3000
}

/// `true` exactly when `s.trim()` is not empty.
pub fn is_not_blank(s: &str) -> (r: bool)
    ensures
        r == has_content(s@),
{
    let n = s.unicode_len();
    let mut i: usize = 0;
    while i < n
        invariant
            i <= n,
            n == s@.len(),
            forall|j: int| 0 <= j < i ==> is_whitespace_char(#[trigger] s@[j]),
        decreases n - i,
    {
        let c = s.get_char(i);
        if !is_whitespace(c) {
            assert(!is_whitespace_char(s@[i as int]));
            return true;
        }
        i = i + 1;
    }
    false
}

/// A variable's value that makes its provider active.
pub open spec fn key_present(v: Option<String>) -> bool {
    v matches Some(k) && has_content(k@)
}

/// Names of the providers, among the first `n` known ones, whose key is
/// present in `values`.
pub open spec fn loaded_names(values: Seq<Option<String>>, n: int) -> Seq<Seq<char>>
    decreases n,
{
    if n <= 0 {
        Seq::empty()
    } else if key_present(values[n - 1]) {
        loaded_names(values, n - 1).push(known_name(n - 1))
    } else {
        loaded_names(values, n - 1)
    }
}

/// The (name, key) pairs of the providers, among the first `n` known ones,
/// whose key is present in `values`.
pub open spec fn loaded_keys(values: Seq<Option<String>>, n: int) -> Seq<(Seq<char>, Seq<char>)>
    decreases n,
{
    if n <= 0 {
        Seq::empty()
    } else if key_present(values[n - 1]) {
        loaded_keys(values, n - 1).push((known_name(n - 1), values[n - 1]->0@))
    } else {
        loaded_keys(values, n - 1)
    }
}

/// The names of a sequence of strings.
pub open spec fn name_views(v: Seq<String>) -> Seq<Seq<char>> {
    v.map_values(|s: String| s@)
}

/// The (name, key) texts of a sequence of key entries.
pub open spec fn entry_views(v: Seq<(String, String)>) -> Seq<(Seq<char>, Seq<char>)> {
    v.map_values(|e: (String, String)| (e.0@, e.1@))
}

/// Builds the keys from the values of the known providers' variables,
/// `values[i]` being that of the `i`-th known provider: a provider is active
/// when its variable is set to something other than white space, and its
/// key is the value as it was found.
pub fn secrets_from_env(values: &Vec<Option<String>>) -> (r: Secrets)
    requires
        values@.len() == KNOWN_PROVIDER_COUNT,
    ensures
        name_views(r.active_providers@) == loaded_names(values@, KNOWN_PROVIDER_COUNT as int),
        entry_views(r.api_keys@) == loaded_keys(values@, KNOWN_PROVIDER_COUNT as int),
        r.wf(),
{
    let mut active_providers: Vec<String> = Vec::new();
    let mut api_keys: Vec<(String, String)> = Vec::new();
    let mut i: usize = 0;
    while i < KNOWN_PROVIDER_COUNT
        invariant
            i <= KNOWN_PROVIDER_COUNT,
            values@.len() == KNOWN_PROVIDER_COUNT,
            name_views(active_providers@) == loaded_names(values@, i as int),
            entry_views(api_keys@) == loaded_keys(values@, i as int),
        decreases KNOWN_PROVIDER_COUNT - i,
    {
        let (provider, _env_var) = known_provider(i);
        match &values[i] {
            Some(key) => {
                if is_not_blank(key.as_str()) {
                    active_providers.push(String::from_str(provider));
                    api_keys.push((String::from_str(provider), key.clone()));
                    assert(name_views(active_providers@) =~= loaded_names(values@, i + 1));
                    assert(entry_views(api_keys@) =~= loaded_keys(values@, i + 1));
                }
            },
            None => {},
        }
        i = i + 1;
    }
    let r = Secrets { active_providers, api_keys };
    proof {
        law_loaded_secrets_wf(values@, r);
    }
    r
}

/// The configuration of the slot named `name`: the first entry with that
/// name.
pub open spec fn lookup_slot(slots: Seq<(String, SlotConfig)>, name: Seq<char>) -> Option<SlotConfig>
    decreases slots.len(),
{
    if slots.len() == 0 {
        None
    } else if slots[0].0@ == name {
        Some(slots[0].1)
    } else {
        lookup_slot(slots.drop_first(), name)
    }
}

impl AppConfig {
    /// The configuration of the slot named `name`, if there is one.
    pub fn slot(&self, name: &str) -> (r: Option<&SlotConfig>)
        ensures
            r matches Some(s) ==> lookup_slot(self.slots@, name@) == Some(*s),
            r is None <==> lookup_slot(self.slots@, name@) is None,
    {
        let n = self.slots.len();
        let mut i: usize = 0;
        assert(self.slots@.subrange(0, n as int) =~= self.slots@);
        while i < n
            invariant
                i <= n,
                n == self.slots@.len(),
                lookup_slot(self.slots@, name@) == lookup_slot(
                    self.slots@.subrange(i as int, n as int),
                    name@,
                ),
            decreases n - i,
        {
            let ghost rest = self.slots@.subrange(i as int, n as int);
            assert(rest.drop_first() =~= self.slots@.subrange(i + 1, n as int));
            if str_eq(self.slots[i].0.as_str(), name) {
                return Some(&self.slots[i].1);
            }
            i = i + 1;
        }
        None
    }
}

} // verus!

verus! {

/// What the startup report says, one line at a time.
pub enum StartupEvent {
    /// The providers that have a key.
    ActiveProviders(Vec<String>),
    /// An active provider without a free tier, left out of automatic routing.
    NoFreeTier(String),
    /// A slot none of whose providers is active.
    SlotWithoutProvider(String),
    /// A slot and the providers it will use.
    SlotProviders(String, Vec<String>),
}

/// A startup report line, by the texts it holds.
pub enum StartupEventView {
    ActiveProviders(Seq<Seq<char>>),
    NoFreeTier(Seq<char>),
    SlotWithoutProvider(Seq<char>),
    SlotProviders(Seq<char>, Seq<Seq<char>>),
}

impl View for StartupEvent {
    type V = StartupEventView;

    open spec fn view(&self) -> StartupEventView {
        match self {
            StartupEvent::ActiveProviders(v) => StartupEventView::ActiveProviders(name_views(v@)),
            StartupEvent::NoFreeTier(p) => StartupEventView::NoFreeTier(p@),
            StartupEvent::SlotWithoutProvider(s) => StartupEventView::SlotWithoutProvider(s@),
            StartupEvent::SlotProviders(s, v) => StartupEventView::SlotProviders(s@, name_views(v@)),
        }
    }
}

/// Providers known to have no free tier.
pub open spec fn no_free_tier(p: Seq<char>) -> bool {
    p == "anthropic"@ || p == "openai"@ || p == "cohere"@
}

fn is_no_free_tier(p: &str) -> (r: bool)
    ensures
        r == no_free_tier(p@),
{
    str_eq(p, "anthropic") || str_eq(p, "openai") || str_eq(p, "cohere")
}

/// The report line of one slot, given its usable providers.
pub open spec fn slot_event(name: Seq<char>, effective: Seq<Seq<char>>) -> StartupEventView {
    if effective.len() == 0 {
        StartupEventView::SlotWithoutProvider(name)
    } else {
        StartupEventView::SlotProviders(name, effective)
    }
}

/// The startup report: the active providers; a warning for each active one
/// without a free tier; then, slot by slot, its usable providers or that it
/// has none.
pub open spec fn startup_events(config: AppConfig, secrets: Secrets) -> Seq<StartupEventView> {
    let active = name_views(secrets.active_providers@);
    seq![StartupEventView::ActiveProviders(active)] + active.filter(|p: Seq<char>| no_free_tier(p)).map_values(
        |p: Seq<char>| StartupEventView::NoFreeTier(p),
    ) + config.slots@.map_values(
        |e: (String, SlotConfig)| slot_event(e.0@, name_views(effective_spec(e.1, secrets))),
    )
}

fn clone_names(v: &Vec<String>) -> (r: Vec<String>)
    ensures
        r@ == v@,
{
    let mut r: Vec<String> = Vec::new();
    let mut i: usize = 0;
    while i < v.len()
        invariant
            i <= v@.len(),
            r@ == v@.take(i as int),
        decreases v@.len() - i,
    {
        r.push(v[i].clone());
        assert(r@ =~= v@.take(i + 1));
        i = i + 1;
    }
    assert(v@.take(v@.len() as int) =~= v@);
    r
}

/// The startup report of `config` with the keys `secrets`, line by line,
/// for the caller to log.
pub fn log_startup(config: &AppConfig, secrets: &Secrets) -> (r: Vec<StartupEvent>)
    ensures
        r@.map_values(|e: StartupEvent| e@) == startup_events(*config, *secrets),
{
    let ghost views = |e: StartupEvent| e@;
    let ghost active = name_views(secrets.active_providers@);
    let ghost nf = |p: Seq<char>| no_free_tier(p);
    let ghost mk = |p: Seq<char>| StartupEventView::NoFreeTier(p);
    let ghost se = |e: (String, SlotConfig)| slot_event(e.0@, name_views(effective_spec(e.1, *secrets)));
    let mut r: Vec<StartupEvent> = Vec::new();
    r.push(StartupEvent::ActiveProviders(clone_names(&secrets.active_providers)));
    let ghost head = seq![StartupEventView::ActiveProviders(active)];
    assert(r@.map_values(views) =~= head);
    let n = secrets.active_providers.len();
    let mut i: usize = 0;
    while i < n
        invariant
            i <= n,
            n == secrets.active_providers@.len(),
            active == name_views(secrets.active_providers@),
            views == (|e: StartupEvent| e@),
            nf == (|p: Seq<char>| no_free_tier(p)),
            mk == (|p: Seq<char>| StartupEventView::NoFreeTier(p)),
            head == seq![StartupEventView::ActiveProviders(active)],
            r@.map_values(views) == head + active.take(i as int).filter(nf).map_values(mk),
        decreases n - i,
    {
        proof {
            reveal(Seq::filter);
            assert(active.take(i + 1).drop_last() =~= active.take(i as int));
        }
        let p = &secrets.active_providers[i];
        if is_no_free_tier(p.as_str()) {
            let ghost before = r@;
            r.push(StartupEvent::NoFreeTier(p.clone()));
            assert(r@.map_values(views) =~= before.map_values(views).push(mk(p@)));
            assert(active.take(i + 1).filter(nf) =~= active.take(i as int).filter(nf).push(p@));
            assert(r@.map_values(views) =~= head + active.take(i + 1).filter(nf).map_values(mk));
        } else {
            assert(active.take(i + 1).filter(nf) =~= active.take(i as int).filter(nf));
        }
        i = i + 1;
    }
    assert(active.take(n as int) =~= active);
    let ghost middle = r@.map_values(views);
    let m = config.slots.len();
    let mut j: usize = 0;
    while j < m
        invariant
            j <= m,
            m == config.slots@.len(),
            views == (|e: StartupEvent| e@),
            se == (|e: (String, SlotConfig)| slot_event(e.0@, name_views(effective_spec(e.1, *secrets)))),
            r@.map_values(views) == middle + config.slots@.take(j as int).map_values(se),
        decreases m - j,
    {
        let name = &config.slots[j].0;
        let effective = effective_providers(&config.slots[j].1, secrets);
        let ghost before = r@;
        if effective.len() == 0 {
            r.push(StartupEvent::SlotWithoutProvider(name.clone()));
        } else {
            r.push(StartupEvent::SlotProviders(name.clone(), effective));
        }
        assert(r@.map_values(views) =~= before.map_values(views).push(se(config.slots@[j as int])));
        assert(config.slots@.take(j + 1).map_values(se) =~= config.slots@.take(j as int).map_values(
            se,
        ).push(se(config.slots@[j as int])));
        assert(r@.map_values(views) =~= middle + config.slots@.take(j + 1).map_values(se));
        j = j + 1;
    }
    assert(config.slots@.take(m as int) =~= config.slots@);
    r
}

} // verus!

verus! {

/// A name that some entry carries has a key.
pub proof fn lemma_lookup_key_found(entries: Seq<(String, String)>, p: Seq<char>, j: int)
    requires
        0 <= j < entries.len(),
        entries[j].0@ == p,
    ensures
        lookup_key(entries, p) is Some,
    decreases entries.len(),
{
    if entries[0].0@ != p {
        lemma_lookup_key_found(entries.drop_first(), p, j - 1);
    }
}

/// The loaded names and the loaded keys come in the same order, one key
/// per name, and each name is that of a known provider.
pub proof fn lemma_loaded_pairs(values: Seq<Option<String>>, n: int)
    requires
        0 <= n <= values.len(),
    ensures
        loaded_keys(values, n).len() == loaded_names(values, n).len(),
        forall|j: int|
            0 <= j < loaded_names(values, n).len() ==> (#[trigger] loaded_keys(values, n)[j]).0
                == loaded_names(values, n)[j],
        forall|j: int|
            0 <= j < loaded_names(values, n).len() ==> exists|k: int|
                0 <= k < n && #[trigger] loaded_names(values, n)[j] == known_name(k),
    decreases n,
{
    if n > 0 {
        lemma_loaded_pairs(values, n - 1);
        if key_present(values[n - 1]) {
            let names = loaded_names(values, n);
            assert forall|j: int| 0 <= j < names.len() implies exists|k: int|
                0 <= k < n && #[trigger] names[j] == known_name(k) by {
                if j == names.len() - 1 {
                    assert(names[j] == known_name(n - 1));
                } else {
                    assert(names[j] == loaded_names(values, n - 1)[j]);
                }
            }
        }
    }
}

} // verus!

verus! {

/// No name occurs twice.
pub open spec fn distinct_names(names: Seq<Seq<char>>) -> bool {
    forall|i: int, j: int| 0 <= i < j < names.len() ==> names[i] != names[j]
}

/// The names of a sequence of key entries.
pub open spec fn key_names(v: Seq<(String, String)>) -> Seq<Seq<char>> {
    v.map_values(|e: (String, String)| e.0@)
}

/// The names of a sequence of slots.
pub open spec fn slot_names(v: Seq<(String, SlotConfig)>) -> Seq<Seq<char>> {
    v.map_values(|e: (String, SlotConfig)| e.0@)
}

impl Secrets {
    /// Each provider is active once and has exactly one key, the active
    /// providers and the keys coming in the same order.
    pub open spec fn wf(&self) -> bool {
        &&& distinct_names(name_views(self.active_providers@))
        &&& key_names(self.api_keys@) == name_views(self.active_providers@)
    }
}

proof fn lemma_known_names_distinct(i: int, j: int)
    requires
        0 <= i < j < KNOWN_PROVIDER_COUNT,
    ensures
        known_name(i) != known_name(j),
{
    reveal_strlit("groq");
    reveal_strlit("cerebras");
    reveal_strlit("sambanova");
    reveal_strlit("openrouter");
    reveal_strlit("mistral");
    reveal_strlit("scaleway");
    assert("groq"@.len() == 4);
    assert("cerebras"@.len() == 8);
    assert("sambanova"@.len() == 9);
    assert("openrouter"@.len() == 10);
    assert("mistral"@.len() == 7);
    assert("scaleway"@.len() == 8);
    assert("cerebras"@[0] != "scaleway"@[0]);
}

proof fn lemma_loaded_names_distinct(values: Seq<Option<String>>, n: int)
    requires
        0 <= n <= values.len(),
        n <= KNOWN_PROVIDER_COUNT,
    ensures
        distinct_names(loaded_names(values, n)),
    decreases n,
{
    if n > 0 {
        lemma_loaded_names_distinct(values, n - 1);
        lemma_loaded_pairs(values, n - 1);
        if key_present(values[n - 1]) {
            let prev = loaded_names(values, n - 1);
            let names = loaded_names(values, n);
            assert forall|i: int, j: int| 0 <= i < j < names.len() implies names[i] != names[j] by {
                if j == names.len() - 1 {
                    let k = choose|k: int| 0 <= k < n - 1 && #[trigger] prev[i] == known_name(k);
                    lemma_known_names_distinct(k, n - 1);
                    assert(names[i] == prev[i]);
                } else {
                    assert(names[i] == prev[i]);
                    assert(names[j] == prev[j]);
                }
            }
        }
    }
}

/// The keys built from the variables are well formed: each loaded
/// provider is active once and has exactly its own key.
pub proof fn law_loaded_secrets_wf(values: Seq<Option<String>>, secrets: Secrets)
    requires
        values.len() == KNOWN_PROVIDER_COUNT,
        name_views(secrets.active_providers@) == loaded_names(values, KNOWN_PROVIDER_COUNT as int),
        entry_views(secrets.api_keys@) == loaded_keys(values, KNOWN_PROVIDER_COUNT as int),
    ensures
        secrets.wf(),
{
    let n = KNOWN_PROVIDER_COUNT as int;
    lemma_loaded_names_distinct(values, n);
    lemma_loaded_pairs(values, n);
    let names = loaded_names(values, n);
    let keys = loaded_keys(values, n);
    assert(secrets.api_keys@.len() == keys.len());
    assert forall|j: int| 0 <= j < names.len() implies #[trigger] key_names(secrets.api_keys@)[j]
        == names[j] by {
        assert(entry_views(secrets.api_keys@)[j] == keys[j]);
        assert(keys[j].0 == names[j]);
    }
    assert(key_names(secrets.api_keys@) =~= name_views(secrets.active_providers@));
}

/// Where names are distinct, the key found for the name of an entry is
/// that entry's key, as a map from names to keys would give it.
pub proof fn law_lookup_key_unique(entries: Seq<(String, String)>, i: int)
    requires
        distinct_names(key_names(entries)),
        0 <= i < entries.len(),
    ensures
        lookup_key(entries, entries[i].0@) == Some(entries[i].1),
    decreases entries.len(),
{
    if i > 0 {
        assert(key_names(entries)[0] != key_names(entries)[i]);
        let rest = entries.drop_first();
        assert(key_names(rest) =~= key_names(entries).drop_first());
        assert(rest[i - 1] == entries[i]);
        law_lookup_key_unique(rest, i - 1);
    }
}

/// Where slot names are distinct, the slot found for the name of an entry
/// is that entry's slot, as a map from names to slots would give it.
pub proof fn law_lookup_slot_unique(slots: Seq<(String, SlotConfig)>, i: int)
    requires
        distinct_names(slot_names(slots)),
        0 <= i < slots.len(),
    ensures
        lookup_slot(slots, slots[i].0@) == Some(slots[i].1),
    decreases slots.len(),
{
    if i > 0 {
        assert(slot_names(slots)[0] != slot_names(slots)[i]);
        let rest = slots.drop_first();
        assert(slot_names(rest) =~= slot_names(slots).drop_first());
        assert(rest[i - 1] == slots[i]);
        law_lookup_slot_unique(rest, i - 1);
    }
}

proof fn lemma_filter_keeps_all(t: Seq<String>, pred: spec_fn(String) -> bool)
    requires
        forall|i: int| 0 <= i < t.len() ==> pred(#[trigger] t[i]),
    ensures
        t.filter(pred) == t,
    decreases t.len(),
{
    reveal(Seq::filter);
    if t.len() > 0 {
        lemma_filter_keeps_all(t.drop_last(), pred);
        assert(t.drop_last().push(t.last()) =~= t);
    }
}

/// Filtering a slot's usable providers again changes nothing.
pub proof fn law_effective_idempotent(slot: SlotConfig, again: SlotConfig, secrets: Secrets)
    requires
        again.providers@ == effective_spec(slot, secrets),
    ensures
        effective_spec(again, secrets) == effective_spec(slot, secrets),
{
    let pred = |p: String| secrets.is_active(p@);
    let eff = slot.providers@.filter(pred);
    assert forall|i: int| 0 <= i < eff.len() implies pred(#[trigger] eff[i]) by {
        slot.providers@.lemma_filter_pred(pred, i);
    }
    lemma_filter_keeps_all(eff, pred);
}

/// More active providers never take a usable provider away from a slot.
pub proof fn law_effective_monotone(slot: SlotConfig, fewer: Secrets, more: Secrets)
    requires
        forall|p: Seq<char>| fewer.is_active(p) ==> more.is_active(p),
    ensures
        forall|i: int|
            0 <= i < effective_spec(slot, fewer).len() ==> effective_spec(slot, more).contains(
                #[trigger] effective_spec(slot, fewer)[i],
            ),
{
    let s = slot.providers@;
    let p1 = |p: String| fewer.is_active(p@);
    let p2 = |p: String| more.is_active(p@);
    assert forall|i: int| 0 <= i < s.filter(p1).len() implies s.filter(p2).contains(
        #[trigger] s.filter(p1)[i],
    ) by {
        let x = s.filter(p1)[i];
        s.lemma_filter_pred(p1, i);
        assert(s.filter(p1).contains(x));
        s.lemma_filter_contains_rev(p1, x);
        let j = choose|j: int| 0 <= j < s.len() && s[j] == x;
        assert(p2(s[j]));
        s.lemma_filter_contains(p2, j);
    }
}

/// `m` places each element of `a` at a position of `b` holding it, the
/// positions rising: `a` is `b` with some elements left out.
pub open spec fn embeds(a: Seq<String>, b: Seq<String>, m: Seq<int>) -> bool {
    &&& m.len() == a.len()
    &&& forall|i: int| 0 <= i < m.len() ==> 0 <= #[trigger] m[i] < b.len() && b[m[i]] == a[i]
    &&& forall|i: int, j: int| 0 <= i < j < m.len() ==> m[i] < m[j]
}

/// `a` is `b` with some elements left out, the rest in the same order.
pub open spec fn is_subsequence(a: Seq<String>, b: Seq<String>) -> bool {
    exists|m: Seq<int>| embeds(a, b, m)
}

proof fn lemma_filter_embeds(
    s: Seq<String>,
    p1: spec_fn(String) -> bool,
    p2: spec_fn(String) -> bool,
) -> (m: Seq<int>)
    requires
        forall|x: String| #[trigger] p1(x) ==> p2(x),
    ensures
        embeds(s.filter(p1), s.filter(p2), m),
    decreases s.len(),
{
    reveal(Seq::filter);
    if s.len() == 0 {
        Seq::empty()
    } else {
        let m0 = lemma_filter_embeds(s.drop_last(), p1, p2);
        let f1 = s.drop_last().filter(p1);
        let f2 = s.drop_last().filter(p2);
        let x = s.last();
        if p1(x) {
            let m = m0.push(f2.len() as int);
            assert(s.filter(p1) == f1.push(x));
            assert(s.filter(p2) == f2.push(x));
            assert forall|i: int| 0 <= i < m.len() implies 0 <= #[trigger] m[i] < f2.push(x).len()
                && f2.push(x)[m[i]] == f1.push(x)[i] by {
                if i < m0.len() {
                    assert(m[i] == m0[i]);
                }
            }
            m
        } else {
            assert(s.filter(p1) == f1);
            if p2(x) {
                assert(s.filter(p2) == f2.push(x));
                assert forall|i: int| 0 <= i < m0.len() implies 0 <= #[trigger] m0[i] < f2.push(
                    x,
                ).len() && f2.push(x)[m0[i]] == f1[i] by {}
            }
            m0
        }
    }
}

/// More active providers keep a slot's usable providers and add to them:
/// those under fewer keys are those under more with some left out, in the
/// same order.
pub proof fn law_effective_subsequence(slot: SlotConfig, fewer: Secrets, more: Secrets)
    requires
        forall|p: Seq<char>| fewer.is_active(p) ==> more.is_active(p),
    ensures
        is_subsequence(effective_spec(slot, fewer), effective_spec(slot, more)),
{
    let p1 = |p: String| fewer.is_active(p@);
    let p2 = |p: String| more.is_active(p@);
    let m = lemma_filter_embeds(slot.providers@, p1, p2);
    assert(embeds(effective_spec(slot, fewer), effective_spec(slot, more), m));
}

/// Without any active provider, no slot has a usable provider.
pub proof fn law_effective_empty_without_keys(slot: SlotConfig, secrets: Secrets)
    requires
        secrets.active_providers@.len() == 0,
    ensures
        effective_spec(slot, secrets).len() == 0,
{
    let pred = |p: String| secrets.is_active(p@);
    if slot.providers@.filter(pred).len() > 0 {
        slot.providers@.lemma_filter_pred(pred, 0);
    }
}

} // verus!
