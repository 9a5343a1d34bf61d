use shuntlited::config::{
    effective_providers, known_provider, log_startup, secrets_from_env, AppConfig, Secrets,
    ServerConfig, SlotConfig, StartupEvent, KNOWN_PROVIDER_COUNT,
};

fn names(v: &[&str]) -> Vec<String> {
    v.iter().map(|s| s.to_string()).collect()
}

fn secrets_with(keys: &[(&str, &str)]) -> Secrets {
    Secrets {
        active_providers: keys.iter().map(|(p, _)| p.to_string()).collect(),
        api_keys: keys.iter().map(|(p, k)| (p.to_string(), k.to_string())).collect(),
    }
}

#[test]
fn get_key_finds_loaded_key() {
    let s = secrets_with(&[("groq", "gk"), ("mistral", "mk")]);
    assert_eq!(s.get_key("mistral").map(|k| k.as_str()), Some("mk"));
    assert_eq!(s.get_key("groq").map(|k| k.as_str()), Some("gk"));
    assert_eq!(s.get_key("cerebras"), None);
}

#[test]
fn effective_providers_keeps_declared_order_and_drops_missing_keys() {
    let s = secrets_with(&[("groq", "gk"), ("openrouter", "ok"), ("cerebras", "ck")]);
    let slot = SlotConfig { providers: names(&["cerebras", "groq", "sambanova", "openrouter"]) };
    assert_eq!(effective_providers(&slot, &s), names(&["cerebras", "groq", "openrouter"]));
}

#[test]
fn effective_providers_empty_when_no_key() {
    let s = secrets_with(&[]);
    let slot = SlotConfig { providers: names(&["mistral", "groq"]) };
    assert!(effective_providers(&slot, &s).is_empty());
}

#[test]
fn known_providers_table() {
    assert_eq!(KNOWN_PROVIDER_COUNT, 6);
    assert_eq!(known_provider(0), ("groq", "GROQ_API_KEY"));
    assert_eq!(known_provider(3), ("openrouter", "OPENROUTER_API_KEY"));
    assert_eq!(known_provider(5), ("scaleway", "SCALEWAY_API_KEY"));
}

#[test]
fn secrets_from_env_ignores_missing_and_blank_keys() {
    let values = vec![
        Some("gk".to_string()),
        None,
        Some("   \t".to_string()),
        Some(" ok ".to_string()),
        Some(String::new()),
        Some("\u{3000}".to_string()),
    ];
    let s = secrets_from_env(&values);
    assert_eq!(s.active_providers, names(&["groq", "openrouter"]));
    assert_eq!(
        s.api_keys,
        vec![("groq".to_string(), "gk".to_string()), ("openrouter".to_string(), " ok ".to_string())]
    );
    assert_eq!(s.get_key("openrouter").map(|k| k.as_str()), Some(" ok "));
}

#[test]
fn secrets_from_env_all_present() {
    let values: Vec<Option<String>> = (0..6).map(|i| Some(format!("key{i}"))).collect();
    let s = secrets_from_env(&values);
    assert_eq!(
        s.active_providers,
        names(&["groq", "cerebras", "sambanova", "openrouter", "mistral", "scaleway"])
    );
}

#[test]
fn default_secrets_are_empty() {
    let s = Secrets::default();
    assert!(s.active_providers.is_empty());
    assert!(s.api_keys.is_empty());
}

fn config_with(slots: Vec<(&str, Vec<String>)>, secrets: Secrets) -> AppConfig {
    AppConfig {
        server: ServerConfig { host: "127.0.0.1".to_string(), port: 8080 },
        slots: slots
            .into_iter()
            .map(|(n, p)| (n.to_string(), SlotConfig { providers: p }))
            .collect(),
        secrets,
    }
}

#[test]
fn slot_lookup_by_name() {
    let cfg = config_with(
        vec![("gpt-chat", names(&["groq"])), ("gpt-plan", names(&["mistral"]))],
        Secrets::default(),
    );
    assert_eq!(cfg.slot("gpt-plan").map(|s| s.providers.clone()), Some(names(&["mistral"])));
    assert!(cfg.slot("gpt-build").is_none());
}

#[test]
fn log_startup_reports_active_warnings_and_slots() {
    let s = secrets_with(&[("groq", "gk"), ("openai", "ok")]);
    let cfg = config_with(
        vec![("gpt-chat", names(&["openrouter", "groq"])), ("gpt-distill", names(&["mistral"]))],
        Secrets::default(),
    );
    let events = log_startup(&cfg, &s);
    assert_eq!(events.len(), 4);
    assert!(matches!(&events[0], StartupEvent::ActiveProviders(v) if *v == names(&["groq", "openai"])));
    assert!(matches!(&events[1], StartupEvent::NoFreeTier(p) if p == "openai"));
    assert!(matches!(&events[2], StartupEvent::SlotProviders(n, v) if n == "gpt-chat" && *v == names(&["groq"])));
    assert!(matches!(&events[3], StartupEvent::SlotWithoutProvider(n) if n == "gpt-distill"));
}

#[test]
fn more_keys_keep_usable_providers_in_order() {
    let slot = SlotConfig { providers: names(&["cerebras", "groq", "sambanova", "openrouter"]) };
    let fewer = secrets_with(&[("openrouter", "o"), ("cerebras", "c")]);
    let more = secrets_with(&[("openrouter", "o"), ("cerebras", "c"), ("groq", "g")]);
    assert_eq!(effective_providers(&slot, &fewer), names(&["cerebras", "openrouter"]));
    assert_eq!(effective_providers(&slot, &more), names(&["cerebras", "groq", "openrouter"]));
    assert!(effective_providers(&slot, &secrets_with(&[])).is_empty());
    let again = SlotConfig { providers: effective_providers(&slot, &more) };
    assert_eq!(effective_providers(&again, &more), effective_providers(&slot, &more));
}
