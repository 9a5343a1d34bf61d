use shuntlited::savings::{answer_quota_writes, record_answer_quotas};
use shuntlited::savings::{quota_writes, savings_writes};
use shuntlited::savings::savings_summary;
use shuntlited::savings::quota_from_header;
use shuntlited::providers::get_provider_meta;
use shuntlited::savings::{
    data_dir_from_home, default_reference_pricing, generate_routing_json, path_join, quota_rpd_key,
    quota_rpm_key, quota_status, quota_tpd_key, record_savings, reference_pricing_path,
    routing_json_path, savings_tokens_key, savings_total_key, savings_totals, write_quota,
    FALLBACK_INPUT_COST_BITS, FALLBACK_OUTPUT_COST_BITS,
};

fn temp_db() -> sled::Db {
    sled::Config::new().temporary(true).open().unwrap()
}

#[test]
fn store_keys() {
    assert_eq!(quota_rpd_key("groq"), "quota:rpd:groq");
    assert_eq!(quota_rpm_key("groq"), "quota:rpm:groq");
    assert_eq!(quota_tpd_key("groq"), "quota:tpd:groq");
    assert_eq!(savings_total_key(), "savings:total_usd_micro");
    assert_eq!(savings_tokens_key(), "savings:total_tokens");
}

#[test]
fn paths_join_like_std() {
    for (base, seg) in [("/home/u", ".shuntlited/data"), ("/", "x"), ("", "x"), ("a/", "b"), ("a", "/abs"), ("a", "")] {
        let expected = std::path::Path::new(base).join(seg);
        assert_eq!(path_join(base.as_bytes(), seg.as_bytes()), expected.to_str().unwrap().as_bytes().to_vec(), "{base:?} {seg:?}");
    }
    assert_eq!(data_dir_from_home(Some(b"/home/u".to_vec())), b"/home/u/.shuntlited/data".to_vec());
    assert_eq!(data_dir_from_home(Some(b"/home/\xffu".to_vec())), b"/home/\xffu/.shuntlited/data".to_vec());
    assert_eq!(data_dir_from_home(None), b"./.shuntlited/data".to_vec());
    assert!(routing_json_path().ends_with(b".shuntlited/data/routing.json"));
    assert!(reference_pricing_path().ends_with(b".shuntlited/data/reference_pricing.json"));
}

#[test]
fn quota_status_thresholds() {
    assert_eq!(quota_status(Some(0)), "saturated");
    assert_eq!(quota_status(Some(1)), "limited");
    assert_eq!(quota_status(Some(99)), "limited");
    assert_eq!(quota_status(Some(100)), "active");
    assert_eq!(quota_status(None), "active");
}

#[test]
fn savings_totals_accumulate() {
    assert_eq!(savings_totals(None, None, 150, 1000, 200), (150, 1200));
    assert_eq!(savings_totals(Some(10), Some(5), 150, 1, 2), (160, 8));
}

#[test]
fn default_pricing_table() {
    let p = default_reference_pricing();
    assert_eq!(p.ttl_seconds, 604800);
    assert_eq!(p.mappings.len(), 5);
    assert_eq!(p.mappings[0].free_model, "llama-3.3-70b-versatile");
    assert_eq!(p.mappings[4].provider, "mistral");
    assert_eq!(f64::from_bits(p.mappings[2].input_cost_per_1m_bits), 0.15);
    assert_eq!(f64::from_bits(p.mappings[2].output_cost_per_1m_bits), 0.60);
    assert!(chrono::DateTime::parse_from_rfc3339(&p.updated_at).is_ok());
}

#[test]
fn reference_costs_lookup_and_fallback() {
    let p = default_reference_pricing();
    let (i, o) = p.reference_costs("groq", "llama-3.3-70b-versatile");
    assert_eq!((f64::from_bits(i), f64::from_bits(o)), (0.15, 0.60));
    let (i, o) = p.reference_costs("groq", "other-model");
    assert_eq!((i, o), (FALLBACK_INPUT_COST_BITS, FALLBACK_OUTPUT_COST_BITS));
    assert_eq!((f64::from_bits(i), f64::from_bits(o)), (3.0, 15.0));
}

#[test]
fn default_models_have_reference_prices_except_scaleway() {
    let p = default_reference_pricing();
    for name in ["groq", "cerebras", "sambanova", "openrouter", "mistral"] {
        let meta = get_provider_meta(name).unwrap();
        let (i, _) = p.reference_costs(name, meta.default_model);
        assert_eq!(f64::from_bits(i), 0.15, "{name}");
    }
    let meta = get_provider_meta("scaleway").unwrap();
    assert_eq!(p.reference_costs("scaleway", meta.default_model).0, FALLBACK_INPUT_COST_BITS);
}

#[test]
fn routing_summary_from_store() {
    let db = temp_db();
    write_quota(&db, "groq", Some(0), Some(10), None);
    write_quota(&db, "cerebras", Some(50), None, Some(7));
    record_savings(&db, 1500, 1000, 200);
    record_savings(&db, 500, 10, 20);
    let active = vec!["groq".to_string(), "cerebras".to_string(), "mistral".to_string()];
    let r = generate_routing_json(&db, &active);
    assert_eq!(r.providers.len(), 3);
    assert_eq!(r.providers[0].name, "groq");
    assert_eq!(r.providers[0].status, "saturated");
    assert_eq!(r.providers[0].quota_rpm_remaining, Some(10));
    assert_eq!(r.providers[1].status, "limited");
    assert_eq!(r.providers[1].quota_tpd_remaining, Some(7));
    assert_eq!(r.providers[2].status, "active");
    assert_eq!(r.providers[2].quota_rpd_remaining, None);
    assert_eq!(r.savings.total_usd_micro, 2000);
    assert_eq!(r.savings.total_tokens, 1230);
    assert_eq!(r.savings.reference_model, "gpt-4o-mini");
}

#[test]
fn quota_and_savings_writes() {
    let w = quota_writes("groq", Some(5), None, Some(7));
    assert_eq!(
        w,
        vec![
            ("quota:rpd:groq".to_string(), 5u64.to_be_bytes().to_vec()),
            ("quota:tpd:groq".to_string(), 7u64.to_be_bytes().to_vec()),
        ]
    );
    assert!(quota_writes("groq", None, None, None).is_empty());
    let s = savings_writes(10, 20);
    assert_eq!(
        s,
        vec![
            ("savings:total_usd_micro".to_string(), 10u64.to_be_bytes().to_vec()),
            ("savings:total_tokens".to_string(), 20u64.to_be_bytes().to_vec()),
        ]
    );
}

#[test]
fn savings_summary_defaults_to_zero() {
    let s = savings_summary(None, Some(12));
    assert_eq!(s.total_usd_micro, 0);
    assert_eq!(s.total_tokens, 12);
    assert_eq!(s.reference_model, "gpt-4o-mini");
    let db = temp_db();
    let r = generate_routing_json(&db, &[]);
    assert_eq!(r.savings.total_usd_micro, 0);
    assert_eq!(r.savings.total_tokens, 0);
    assert!(r.providers.is_empty());
}

#[test]
fn quota_header_values() {
    assert_eq!(quota_from_header(Some(b"14399")), Some(14399));
    assert_eq!(quota_from_header(Some(b"n/a")), None);
    assert_eq!(quota_from_header(None), None);
}

#[test]
fn served_answer_quotas_recorded() {
    let w = answer_quota_writes("cerebras", Some(b"14399"), Some(b"oops"), Some(b"+7"));
    assert_eq!(
        w,
        vec![
            ("quota:rpd:cerebras".to_string(), 14399u64.to_be_bytes().to_vec()),
            ("quota:tpd:cerebras".to_string(), 7u64.to_be_bytes().to_vec()),
        ]
    );
    let db = temp_db();
    record_answer_quotas(&db, "cerebras", Some(b"42"), None, Some(b"9"));
    let r = generate_routing_json(&db, &["cerebras".to_string()]);
    assert_eq!(r.providers[0].quota_rpd_remaining, Some(42));
    assert_eq!(r.providers[0].quota_rpm_remaining, None);
    assert_eq!(r.providers[0].quota_tpd_remaining, Some(9));
    assert_eq!(r.providers[0].status, "limited");
}
