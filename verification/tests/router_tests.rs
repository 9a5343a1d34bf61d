use shuntlited::router::{cooldown_from_read, cooldown_wait_from_read, cooldown_write};
use shuntlited::router::cooldown_left;
use shuntlited::config::{AppConfig, Secrets, ServerConfig, SlotConfig};
use shuntlited::router::{
    classify_status, cooldown_entry, ResponseKind,
    cooldown_active, cooldown_for_retry_after, cooldown_key, cooldown_until, exhausted_reply,
    is_in_cooldown, set_cooldown, upstream_url, Dispatch, RouteStep, SkipReason,
    DEFAULT_COOLDOWN_SECS,
};

fn temp_db() -> sled::Db {
    sled::Config::new().temporary(true).open().unwrap()
}

fn names(v: &[&str]) -> Vec<String> {
    v.iter().map(|s| s.to_string()).collect()
}

fn secrets_with(keys: &[(&str, &str)]) -> Secrets {
    Secrets {
        active_providers: keys.iter().map(|(p, _)| p.to_string()).collect(),
        api_keys: keys.iter().map(|(p, k)| (p.to_string(), k.to_string())).collect(),
    }
}

fn config(slots: &[(&str, &[&str])], secrets: Secrets) -> AppConfig {
    AppConfig {
        server: ServerConfig { host: "0.0.0.0".to_string(), port: 8080 },
        slots: slots
            .iter()
            .map(|(n, p)| (n.to_string(), SlotConfig { providers: names(p) }))
            .collect(),
        secrets,
    }
}

#[test]
fn cooldown_key_format() {
    assert_eq!(cooldown_key("groq"), "cooldown:groq");
}

#[test]
fn retry_after_floor_is_300() {
    assert_eq!(DEFAULT_COOLDOWN_SECS, 300);
    assert_eq!(cooldown_for_retry_after(None), 300);
    assert_eq!(cooldown_for_retry_after(Some(b"60")), 300);
    assert_eq!(cooldown_for_retry_after(Some(b"1200")), 1200);
    assert_eq!(cooldown_for_retry_after(Some(b"soon")), 300);
    assert_eq!(cooldown_for_retry_after(Some(b"+301")), 301);
}

#[test]
fn cooldown_window() {
    let until = cooldown_until(1000, 300);
    assert_eq!(until, 1300);
    let stored = Some(until.to_be_bytes().to_vec());
    assert!(cooldown_active(&stored, 1000));
    assert!(cooldown_active(&stored, 1299));
    assert!(!cooldown_active(&stored, 1300));
    assert!(!cooldown_active(&None, 0));
    assert!(!cooldown_active(&Some(vec![0, 1]), 0));
    assert_eq!(cooldown_until(u64::MAX, 2), 1);
}

#[test]
fn cooldown_through_store() {
    let db = temp_db();
    assert!(!is_in_cooldown(&db, "groq").in_cooldown);
    set_cooldown(&db, "groq", 300);
    assert!(is_in_cooldown(&db, "groq").in_cooldown);
    assert!(!is_in_cooldown(&db, "mistral").in_cooldown);
    set_cooldown(&db, "mistral", 0);
    assert!(!is_in_cooldown(&db, "mistral").in_cooldown);
}

#[test]
fn upstream_url_trims_trailing_slashes() {
    assert_eq!(upstream_url("https://api.groq.com/openai/v1"), "https://api.groq.com/openai/v1/chat/completions");
    assert_eq!(upstream_url("https://x.ai/v1//"), "https://x.ai/v1/chat/completions");
    assert_eq!(upstream_url(""), "/chat/completions");
}

#[test]
fn exhausted_replies() {
    let r = exhausted_reply(Some(600));
    assert_eq!(r.status, 503);
    assert_eq!(r.kind, "quota_exhausted");
    assert_eq!(r.retry_after, Some(600));
    assert_eq!(
        r.message,
        "Tous les providers sont indisponibles ou en cooldown. Reessayez dans ~10min."
    );
    let r = exhausted_reply(None);
    assert_eq!(r.message, "Tous les providers sont indisponibles. Verifiez vos cles API.");
    assert_eq!(r.retry_after, None);
}

#[test]
fn begin_unknown_slot() {
    let cfg = config(&[("gpt-chat", &["groq"])], secrets_with(&[("groq", "k")]));
    match Dispatch::begin(&cfg, "gpt-x") {
        Err(e) => {
            assert_eq!(e.status, 400);
            assert_eq!(e.message, "Slot inconnu : gpt-x");
            assert_eq!(e.kind, "no_provider_available");
        },
        Ok(_) => panic!("unknown slot accepted"),
    }
}

#[test]
fn begin_slot_without_active_provider() {
    let cfg = config(&[("gpt-distill", &["mistral"])], secrets_with(&[("groq", "k")]));
    match Dispatch::begin(&cfg, "gpt-distill") {
        Err(e) => {
            assert_eq!(e.status, 503);
            assert_eq!(e.message, "Aucun provider actif pour ce slot.");
        },
        Ok(_) => panic!("empty slot accepted"),
    }
}

#[test]
fn walk_in_order_until_exhausted() {
    let secrets = secrets_with(&[("groq", "gk"), ("cerebras", "ck"), ("acme", "ak")]);
    let cfg = config(&[("gpt-build", &["cerebras", "acme", "groq"])], secrets_with(&[("groq", "gk"), ("cerebras", "ck"), ("acme", "ak")]));
    let mut d = Dispatch::begin(&cfg, "gpt-build").ok().unwrap();
    assert_eq!(*d.providers(), names(&["cerebras", "acme", "groq"]));
    match d.consider(Some(120), &secrets) {
        RouteStep::Skip(p, why) => {
            assert_eq!(p, "cerebras");
            assert_eq!(why, SkipReason::Cooldown);
        },
        _ => panic!("expected a skip"),
    }
    match d.consider(None, &secrets) {
        RouteStep::Skip(p, why) => {
            assert_eq!(p, "acme");
            assert_eq!(why, SkipReason::NoMeta);
        },
        _ => panic!("expected a skip"),
    }
    match d.consider(None, &secrets) {
        RouteStep::Send(t) => {
            assert_eq!(t.provider, "groq");
            assert_eq!(t.url, "https://api.groq.com/openai/v1/chat/completions");
            assert_eq!(t.model, "llama-3.3-70b-versatile");
            assert_eq!(t.api_key, "gk");
        },
        _ => panic!("expected a send"),
    }
    assert_eq!(d.rate_limited(Some(b"900")), 900);
    match d.consider(None, &secrets) {
        RouteStep::Exhausted(e) => {
            assert_eq!(e.retry_after, Some(900));
            assert_eq!(e.message, "Tous les providers sont indisponibles ou en cooldown. Reessayez dans ~15min.");
        },
        _ => panic!("expected exhaustion"),
    }
}

#[test]
fn missing_key_is_skipped() {
    let active = secrets_with(&[("mistral", "mk")]);
    let cfg = config(&[("gpt-distill", &["mistral"])], active);
    let mut d = Dispatch::begin(&cfg, "gpt-distill").ok().unwrap();
    let no_keys = Secrets { active_providers: names(&["mistral"]), api_keys: vec![] };
    match d.consider(None, &no_keys) {
        RouteStep::Skip(p, why) => {
            assert_eq!(p, "mistral");
            assert_eq!(why, SkipReason::NoKey);
        },
        _ => panic!("expected a skip"),
    }
}

#[test]
fn rate_limit_sets_cooldown_in_store() {
    let db = temp_db();
    let secrets = secrets_with(&[("groq", "gk"), ("mistral", "mk")]);
    let cfg = config(&[("gpt-chat", &["groq", "mistral"])], secrets_with(&[("groq", "gk"), ("mistral", "mk")]));
    let mut d = Dispatch::begin(&cfg, "gpt-chat").ok().unwrap();
    match d.next_step(&db, &secrets) {
        RouteStep::Send(t) => assert_eq!(t.provider, "groq"),
        _ => panic!("expected a send"),
    }
    assert_eq!(d.record_rate_limit(&db, "groq", None), 300);
    assert!(is_in_cooldown(&db, "groq").in_cooldown);
    // A second request skips the provider in cooldown.
    let mut d2 = Dispatch::begin(&cfg, "gpt-chat").ok().unwrap();
    match d2.next_step(&db, &secrets) {
        RouteStep::Skip(p, why) => {
            assert_eq!(p, "groq");
            assert_eq!(why, SkipReason::Cooldown);
        },
        _ => panic!("expected a skip"),
    }
    match d2.next_step(&db, &secrets) {
        RouteStep::Send(t) => {
            assert_eq!(t.provider, "mistral");
            assert_eq!(t.url, "https://api.mistral.ai/v1/chat/completions");
        },
        _ => panic!("expected a send"),
    }
    match d2.next_step(&db, &secrets) {
        RouteStep::Exhausted(e) => {
            // The wait is what is left of groq's cooldown.
            let w = e.retry_after.unwrap();
            assert!(w > 0 && w <= 300);
        },
        _ => panic!("expected exhaustion"),
    }
}

#[test]
fn cooldown_entry_is_big_endian_end() {
    assert_eq!(cooldown_entry(1000, 300), 1300u64.to_be_bytes().to_vec());
    assert!(cooldown_active(&Some(cooldown_entry(1000, 300)), 1299));
}

#[test]
fn status_classification() {
    assert_eq!(classify_status(429), ResponseKind::RateLimited);
    assert_eq!(classify_status(200), ResponseKind::Succeeded);
    assert_eq!(classify_status(204), ResponseKind::Succeeded);
    assert_eq!(classify_status(300), ResponseKind::Failed);
    assert_eq!(classify_status(500), ResponseKind::Failed);
    assert_eq!(classify_status(199), ResponseKind::Failed);
}

#[test]
fn all_in_cooldown_gives_shortest_wait() {
    let secrets = secrets_with(&[("groq", "gk"), ("mistral", "mk")]);
    let cfg = config(&[("gpt-chat", &["groq", "mistral"])], secrets_with(&[("groq", "gk"), ("mistral", "mk")]));
    let mut d = Dispatch::begin(&cfg, "gpt-chat").ok().unwrap();
    assert!(matches!(d.consider(Some(900), &secrets), RouteStep::Skip(_, SkipReason::Cooldown)));
    assert!(matches!(d.consider(Some(240), &secrets), RouteStep::Skip(_, SkipReason::Cooldown)));
    match d.consider(None, &secrets) {
        RouteStep::Exhausted(e) => {
            assert_eq!(e.status, 503);
            assert_eq!(e.kind, "quota_exhausted");
            assert_eq!(e.retry_after, Some(240));
            assert_eq!(e.message, "Tous les providers sont indisponibles ou en cooldown. Reessayez dans ~4min.");
        },
        _ => panic!("expected exhaustion"),
    }
}

#[test]
fn all_in_cooldown_through_store() {
    let db = temp_db();
    let secrets = secrets_with(&[("groq", "gk")]);
    let cfg = config(&[("gpt-chat", &["groq"])], secrets_with(&[("groq", "gk")]));
    set_cooldown(&db, "groq", 600);
    let mut d = Dispatch::begin(&cfg, "gpt-chat").ok().unwrap();
    assert!(matches!(d.next_step(&db, &secrets), RouteStep::Skip(_, SkipReason::Cooldown)));
    match d.next_step(&db, &secrets) {
        RouteStep::Exhausted(e) => {
            let w = e.retry_after.unwrap();
            assert!(w > 0 && w <= 600);
        },
        _ => panic!("expected exhaustion"),
    }
}

#[test]
fn answer_ends_the_walk() {
    let secrets = secrets_with(&[("groq", "gk"), ("mistral", "mk")]);
    let cfg = config(&[("gpt-chat", &["groq", "mistral"])], secrets_with(&[("groq", "gk"), ("mistral", "mk")]));
    let mut d = Dispatch::begin(&cfg, "gpt-chat").ok().unwrap();
    assert!(matches!(d.consider(None, &secrets), RouteStep::Send(_)));
    assert!(!d.on_answer(false));
    assert!(matches!(d.consider(None, &secrets), RouteStep::Send(_)));
    assert!(d.on_answer(true));
    assert!(d.answered());
    assert!(matches!(d.consider(None, &secrets), RouteStep::Answered));
    assert!(d.current_provider().is_none());
}

#[test]
fn current_provider_follows_position() {
    let secrets = secrets_with(&[("groq", "gk"), ("mistral", "mk")]);
    let cfg = config(&[("gpt-chat", &["groq", "mistral"])], secrets_with(&[("groq", "gk"), ("mistral", "mk")]));
    let mut d = Dispatch::begin(&cfg, "gpt-chat").ok().unwrap();
    assert_eq!(d.current_provider().map(|p| p.as_str()), Some("groq"));
    let _ = d.consider(None, &secrets);
    assert_eq!(d.current_provider().map(|p| p.as_str()), Some("mistral"));
    let _ = d.consider(None, &secrets);
    assert!(d.current_provider().is_none());
}

#[test]
fn cooldown_decisions_from_reads() {
    let ok: Result<Option<Vec<u8>>, sled::Error> = Ok(Some(1300u64.to_be_bytes().to_vec()));
    assert!(cooldown_from_read(&ok, 1000));
    assert_eq!(cooldown_wait_from_read(&ok, 1000), Some(300));
    assert_eq!(cooldown_wait_from_read(&ok, 1300), None);
    let missing: Result<Option<Vec<u8>>, sled::Error> = Ok(None);
    assert!(!cooldown_from_read(&missing, 0));
    let failed: Result<Option<Vec<u8>>, sled::Error> = Err(sled::Error::Unsupported("x".to_string()));
    assert!(!cooldown_from_read(&failed, 0));
    assert_eq!(cooldown_wait_from_read(&failed, 0), None);
    let (key, bytes) = cooldown_write("groq", 1000, 300);
    assert_eq!(key, "cooldown:groq");
    assert_eq!(bytes, 1300u64.to_be_bytes().to_vec());
}

#[test]
fn cooldown_left_through_store() {
    let db = temp_db();
    assert_eq!(cooldown_left(&db, "groq"), None);
    set_cooldown(&db, "groq", 300);
    let w = cooldown_left(&db, "groq").unwrap();
    assert!(w > 0 && w <= 300);
}

#[test]
fn cooldown_check_reports_end_and_clock() {
    let db = temp_db();
    let c = is_in_cooldown(&db, "groq");
    assert!(!c.in_cooldown);
    assert_eq!(c.until, None);
    set_cooldown(&db, "groq", 300);
    let c = is_in_cooldown(&db, "groq");
    assert!(c.in_cooldown);
    let u = c.until.unwrap();
    assert!(c.now < u && u <= c.now + 300);
}
