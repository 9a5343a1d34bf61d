use shuntlited::config::{effective_providers, secrets_from_env, AppConfig, ServerConfig, SlotConfig};
use shuntlited::router::{cooldown_key, Dispatch, RouteStep};
use shuntlited::savings::{quota_rpd_key, quota_rpm_key, quota_tpd_key, savings_tokens_key, savings_total_key};

fn names(v: &[&str]) -> Vec<String> {
    v.iter().map(|s| s.to_string()).collect()
}

fn readme_config(values: &[Option<&str>]) -> AppConfig {
    let values: Vec<Option<String>> = values.iter().map(|v| v.map(|s| s.to_string())).collect();
    AppConfig {
        server: ServerConfig { host: "127.0.0.1".to_string(), port: 8080 },
        slots: vec![
            ("gpt-build".to_string(), SlotConfig { providers: names(&["cerebras", "groq", "sambanova", "openrouter"]) }),
            ("gpt-plan".to_string(), SlotConfig { providers: names(&["groq", "sambanova", "openrouter", "scaleway"]) }),
            ("gpt-chat".to_string(), SlotConfig { providers: names(&["openrouter", "scaleway", "groq", "cerebras"]) }),
            ("gpt-distill".to_string(), SlotConfig { providers: names(&["mistral", "groq"]) }),
        ],
        secrets: secrets_from_env(&values),
    }
}

#[test]
fn readme_slots_filtered_by_present_keys() {
    // groq and scaleway keys only; cerebras key blank.
    let cfg = readme_config(&[Some("g"), Some("  "), None, None, None, Some("s")]);
    let eff = |slot: &str| effective_providers(cfg.slot(slot).unwrap(), &cfg.secrets);
    assert_eq!(eff("gpt-build"), names(&["groq"]));
    assert_eq!(eff("gpt-plan"), names(&["groq", "scaleway"]));
    assert_eq!(eff("gpt-chat"), names(&["scaleway", "groq"]));
    assert_eq!(eff("gpt-distill"), names(&["groq"]));
}

#[test]
fn loaded_providers_are_sent_unless_in_cooldown() {
    let cfg = readme_config(&[Some("g"), Some("c"), Some("sn"), Some("o"), Some("m"), Some("s")]);
    for slot in ["gpt-build", "gpt-plan", "gpt-chat", "gpt-distill"] {
        let mut d = Dispatch::begin(&cfg, slot).ok().unwrap();
        let n = d.providers().len();
        for _ in 0..n {
            assert!(matches!(d.consider(None, &cfg.secrets), RouteStep::Send(_)));
        }
        assert!(matches!(d.consider(None, &cfg.secrets), RouteStep::Exhausted(_)));
    }
}

#[test]
fn store_keys_never_collide() {
    let providers = ["groq", "cerebras", "sambanova", "openrouter", "mistral", "scaleway", ""];
    let mut all: Vec<String> = vec![savings_total_key().to_string(), savings_tokens_key().to_string()];
    for p in providers {
        all.push(cooldown_key(p));
        all.push(quota_rpd_key(p));
        all.push(quota_rpm_key(p));
        all.push(quota_tpd_key(p));
    }
    let mut sorted = all.clone();
    sorted.sort();
    sorted.dedup();
    assert_eq!(sorted.len(), all.len());
}
