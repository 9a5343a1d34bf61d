use shuntlited::config::known_provider;
use shuntlited::providers::get_provider_meta;

#[test]
fn known_provider_meta() {
    let m = get_provider_meta("cerebras").unwrap();
    assert_eq!(m.base_url, "https://api.cerebras.ai/v1");
    assert_eq!(m.default_model, "llama3.1-8b");
    assert_eq!(m.header_rpd, Some("x-ratelimit-remaining-requests-day"));
    assert_eq!(m.header_rpm, Some("x-ratelimit-remaining-tokens-minute"));
    assert_eq!(m.header_tpd, Some("x-ratelimit-remaining-tokens-day"));
    let m = get_provider_meta("scaleway").unwrap();
    assert_eq!(m.header_rpd, None);
    assert_eq!(get_provider_meta("mistral").unwrap().default_model, "mistral-small-latest");
}

#[test]
fn unknown_provider_has_no_meta() {
    assert!(get_provider_meta("anthropic").is_none());
    assert!(get_provider_meta("Groq").is_none());
    assert!(get_provider_meta("").is_none());
}

#[test]
fn every_known_provider_has_meta() {
    for i in 0..6 {
        assert!(get_provider_meta(known_provider(i).0).is_some());
    }
}
