use cachebench::{
    default_anthropic_pricing, default_bedrock_pricing, default_openai_pricing, encode_payload,
    fingerprint, misses_threshold, prefix_id, CacheTracker, CallHistory, CallMetrics, Pricing,
    Provider, Ratio, Usage,
};
use serde_json::Value;
use sha2::{Digest, Sha256};
use std::time::{Duration, SystemTime};

fn json(value: &Value) -> Vec<u8> {
    serde_json::to_vec(value).unwrap()
}

fn message(role: &str, content: &str) -> Value {
    let mut m = serde_json::Map::new();
    m.insert("role".to_string(), Value::String(role.to_string()));
    m.insert("content".to_string(), Value::String(content.to_string()));
    Value::Object(m)
}

fn text(s: &str) -> Vec<u8> {
    json(&Value::String(s.to_string()))
}

fn sha_hex16(bytes: &[u8]) -> String {
    let digest = Sha256::digest(bytes);
    digest[..8].iter().map(|b| format!("{:02x}", b)).collect()
}

fn usage(input: u64, read: u64, write: u64, output: u64) -> Usage {
    Usage {
        input_tokens: input,
        cache_read_tokens: read,
        cache_creation_tokens: write,
        output_tokens: output,
    }
}

fn call(id: &str, u: Usage) -> CallMetrics {
    CallMetrics {
        provider: Provider::Anthropic,
        prefix_id: id.to_string(),
        usage: u,
        elapsed: Duration::from_millis(1),
        timestamp: SystemTime::UNIX_EPOCH,
    }
}

#[test]
fn prefix_id_of_empty_blob_is_sha256_prefix() {
    assert_eq!(prefix_id(b""), "e3b0c44298fc1c14");
    assert_eq!(prefix_id(b"abc"), "ba7816bf8f01cfea");
}

#[test]
fn payload_is_compact_json_without_trailing_turn() {
    let msgs = vec![
        json(&message("system", "a")),
        json(&message("assistant", "b")),
        json(&message("user", "c")),
    ];
    let blob = encode_payload(&msgs, &text("sys"), &json(&Value::Null), Some("m"));
    let expected = br#"{"system":"sys","tools":null,"model":"m","prefix_messages":[{"content":"a","role":"system"},{"content":"b","role":"assistant"}]}"#;
    assert_eq!(blob, expected.to_vec());
    let none = encode_payload(&[], &json(&Value::Null), &json(&Value::Null), None);
    assert_eq!(none, br#"{"system":null,"tools":null,"model":null,"prefix_messages":[]}"#.to_vec());
}

#[test]
fn model_name_is_json_escaped() {
    let blob = encode_payload(&[], &text("s"), &json(&Value::Null), Some("a\"b\\c"));
    assert_eq!(blob, br#"{"system":"s","tools":null,"model":"a\"b\\c","prefix_messages":[]}"#.to_vec());
}

#[test]
fn fingerprint_is_sha256_of_payload() {
    let msgs = vec![json(&message("user", "hi"))];
    let id = fingerprint(&msgs, &text("sys"), &json(&Value::Null), Some("m"));
    let blob = br#"{"system":"sys","tools":null,"model":"m","prefix_messages":[]}"#;
    assert_eq!(id, sha_hex16(blob));
    assert_eq!(id, prefix_id(blob));
    assert!(id.chars().all(|c| c.is_ascii_hexdigit() && !c.is_ascii_uppercase()));
}

#[test]
fn fingerprint_same_prefix_same_id() {
    let prefix = vec![json(&message("system", "x")), json(&message("assistant", "y"))];
    let mut a = prefix.clone();
    a.push(json(&message("user", "first")));
    let mut b = prefix.clone();
    b.push(json(&message("user", "second")));
    let fa = fingerprint(&a, &text("s"), &json(&Value::Null), Some("m"));
    let fb = fingerprint(&b, &text("s"), &json(&Value::Null), Some("m"));
    assert_eq!(fa, fb);
    let fp = fingerprint(&prefix, &text("s"), &json(&Value::Null), Some("m"));
    assert_ne!(fa, fp);
}

#[test]
fn default_pricing_per_provider() {
    assert_eq!(Provider::Anthropic.default_pricing(), default_anthropic_pricing());
    assert_eq!(Provider::OpenAI.default_pricing(), default_openai_pricing());
    assert_eq!(Provider::Bedrock.default_pricing(), default_bedrock_pricing());
    let p = default_openai_pricing();
    assert_eq!(p.input_per_mtok, 2_500_000);
    assert_eq!(p.cache_read_per_mtok, 1_250_000);
    assert_eq!(p.output_per_mtok, 10_000_000);
    assert_eq!(default_anthropic_pricing().cache_write_5m_per_mtok, 3_750_000);
    assert_eq!(default_bedrock_pricing().cache_write_1h_per_mtok, 6_000_000);
}

#[test]
fn hit_ratio_is_read_over_cacheable() {
    let m = call("p", usage(5, 30, 10, 1));
    assert_eq!(m.hit_ratio(), Some(Ratio { numerator: 30, denominator: 40 }));
    assert_eq!(call("p", usage(5, 0, 0, 1)).hit_ratio(), None);
    let full = call("p", usage(0, 7, 0, 0)).hit_ratio().unwrap();
    assert_eq!(full.numerator, full.denominator);
}

#[test]
fn cost_is_exact_in_picodollars() {
    let m = call("p", usage(100, 800, 0, 50));
    let p = default_anthropic_pricing();
    assert_eq!(m.cost_usd(&p), 1_290_000_000);
    assert_eq!(m.cost_saved_usd(&p), 2_160_000_000);
}

#[test]
fn saving_is_negative_when_writes_dominate() {
    // 900 written at $3.75 instead of $3.00: 900 * (-0.75) = -675 micro-dollars.
    let m = call("p", usage(10, 0, 900, 5));
    assert_eq!(m.cost_saved_usd(&default_anthropic_pricing()), -675_000_000);
    // read discount plus write penalty: 100*(3-0.3) + 100*(3-3.75) = 195 micro-dollars
    let m = call("p", usage(0, 100, 100, 0));
    assert_eq!(m.cost_saved_usd(&default_anthropic_pricing()), 195_000_000);
}

#[test]
fn alert_boundary_is_strict() {
    let half = Ratio { numerator: 1, denominator: 2 };
    assert!(!misses_threshold(&usage(0, 450, 450, 0), &half));
    assert!(misses_threshold(&usage(0, 449, 451, 0), &half));
    assert!(!misses_threshold(&usage(0, 451, 449, 0), &half));
    assert!(!misses_threshold(&usage(100, 0, 0, 0), &half));
}

#[test]
fn alert_with_zero_denominator_threshold() {
    let above_all = Ratio { numerator: 1, denominator: 0 };
    let nothing = Ratio { numerator: 0, denominator: 0 };
    assert!(misses_threshold(&usage(0, 10, 0, 0), &above_all));
    assert!(!misses_threshold(&usage(0, 0, 0, 0), &above_all));
    assert!(!misses_threshold(&usage(0, 0, 10, 0), &nothing));
}

#[test]
fn default_threshold_is_three_fifths() {
    let t = CacheTracker::new(Provider::OpenAI);
    assert!(t.fires_miss_alert(&usage(0, 59, 41, 0)));
    assert!(!t.fires_miss_alert(&usage(0, 60, 40, 0)));
    assert_eq!(t.provider(), Provider::OpenAI);
}

#[test]
fn history_size_zero_keeps_nothing() {
    let mut t = CacheTracker::new(Provider::Anthropic).with_history_size(0);
    let m = t.record("x".into(), usage(1, 2, 3, 4), Duration::from_millis(5));
    assert_eq!(m.prefix_id, "x");
    assert!(t.calls().is_empty());
    assert_eq!(t.aggregate().calls, 0);
}

#[test]
fn window_keeps_newest_oldest_first() {
    let mut t = CacheTracker::new(Provider::Anthropic).with_history_size(2);
    for id in ["a", "b", "c"] {
        t.record(id.into(), Usage::default(), Duration::from_millis(1));
    }
    let ids: Vec<String> = t.calls().into_iter().map(|c| c.prefix_id).collect();
    assert_eq!(ids, vec!["b".to_string(), "c".to_string()]);
}

#[test]
fn record_at_keeps_given_timestamp() {
    let mut t = CacheTracker::new(Provider::Bedrock);
    let when = SystemTime::UNIX_EPOCH + Duration::from_secs(42);
    let m = t.record_at("p".into(), usage(1, 1, 1, 1), Duration::from_millis(3), when);
    assert_eq!(m.timestamp, when);
    assert_eq!(m.provider, Provider::Bedrock);
    assert_eq!(t.calls()[0].timestamp, when);
    assert_eq!(t.calls()[0].elapsed, Duration::from_millis(3));
}

#[test]
fn reset_empties_history() {
    let mut t = CacheTracker::new(Provider::Anthropic);
    t.record("a".into(), usage(1, 2, 3, 4), Duration::from_millis(1));
    t.reset();
    assert!(t.calls().is_empty());
    let agg = t.aggregate();
    assert_eq!(agg.calls, 0);
    assert_eq!(agg.hit_ratio, None);
    assert_eq!(agg.cost_usd, 0);
    assert_eq!(agg.cost_saved_usd, 0);
}

#[test]
fn aggregate_sums_per_call_values() {
    let p = default_anthropic_pricing();
    let mut t = CacheTracker::new(Provider::Anthropic);
    let a = t.record("a".into(), usage(100, 800, 0, 50), Duration::from_millis(1));
    let b = t.record("b".into(), usage(10, 0, 900, 5), Duration::from_millis(1));
    let agg = t.aggregate();
    assert_eq!(agg.calls, 2);
    assert_eq!(agg.tokens_read_from_cache, 800);
    assert_eq!(agg.tokens_written_to_cache, 900);
    assert_eq!(agg.hit_ratio, Some(Ratio { numerator: 800, denominator: 1700 }));
    assert_eq!(agg.cost_usd, a.cost_usd(&p) + b.cost_usd(&p));
    assert_eq!(agg.cost_saved_usd, a.cost_saved_usd(&p) + b.cost_saved_usd(&p));
}

#[test]
fn with_pricing_changes_costs() {
    let cheap = Pricing {
        input_per_mtok: 1,
        cache_read_per_mtok: 0,
        cache_write_5m_per_mtok: 2,
        cache_write_1h_per_mtok: 2,
        output_per_mtok: 3,
    };
    let mut t = CacheTracker::new(Provider::Anthropic).with_pricing(cheap);
    t.record("a".into(), usage(10, 20, 30, 40), Duration::from_millis(1));
    let agg = t.aggregate();
    assert_eq!(agg.cost_usd, 10 + 0 + 60 + 120);
    assert_eq!(agg.cost_saved_usd, 60 - (10 + 0 + 60));
}

#[test]
fn by_prefix_stats_per_group() {
    let mut t = CacheTracker::new(Provider::Anthropic);
    t.record("A".into(), usage(0, 30, 10, 0), Duration::from_millis(1));
    t.record("B".into(), usage(0, 0, 0, 0), Duration::from_millis(1));
    t.record("A".into(), usage(0, 10, 50, 0), Duration::from_millis(1));
    let by = t.by_prefix();
    assert_eq!(by.len(), 2);
    assert_eq!(by[0].0, "A");
    assert_eq!(by[0].1.calls, 2);
    assert_eq!(by[0].1.hit_ratio, Some(Ratio { numerator: 40, denominator: 100 }));
    assert_eq!(by[1].0, "B");
    assert_eq!(by[1].1.hit_ratio, None);
    let total: usize = by.iter().map(|(_, s)| s.calls).sum();
    assert_eq!(total, t.calls().len());
}

#[test]
fn overflowing_totals_are_refused() {
    let mut h = CallHistory::new();
    h.push_trimmed(call("a", usage(0, u64::MAX - 1, 0, 0)), 10);
    h.push_trimmed(call("b", usage(0, 2, 0, 0)), 10);
    let p = default_anthropic_pricing();
    assert!(h.try_aggregate(&p).is_none());
    // Each group on its own fits.
    assert!(h.try_by_prefix(&p).is_some());
    h.push_trimmed(call("a", usage(0, 5, 0, 0)), 10);
    assert!(h.try_by_prefix(&p).is_none());
    assert_eq!(h.len(), 3);
}

#[test]
fn overflowing_prompt_is_refused() {
    let mut h = CallHistory::new();
    h.push_trimmed(call("a", usage(u64::MAX, 1, 0, 0)), 10);
    let p = default_anthropic_pricing();
    assert!(h.try_aggregate(&p).is_none());
    assert!(h.try_by_prefix(&p).is_none());
    h.clear();
    assert!(h.try_aggregate(&p).is_some());
}

#[test]
fn breakdown_adds_up_to_aggregate() {
    let mut t = CacheTracker::new(Provider::Anthropic);
    t.record("A".into(), usage(10, 800, 0, 50), Duration::from_millis(1));
    t.record("B".into(), usage(10, 0, 900, 5), Duration::from_millis(1));
    t.record("A".into(), usage(0, 100, 100, 0), Duration::from_millis(1));
    let agg = t.aggregate();
    let by = t.by_prefix();
    let calls: usize = by.iter().map(|(_, s)| s.calls).sum();
    let saved: i128 = by.iter().map(|(_, s)| s.cost_saved_usd).sum();
    assert_eq!(calls, agg.calls);
    assert_eq!(saved, agg.cost_saved_usd);
}

#[test]
fn aggregate_grows_by_each_call() {
    let p = default_anthropic_pricing();
    let mut t = CacheTracker::new(Provider::Anthropic);
    let a = t.record("A".into(), usage(3, 4, 5, 6), Duration::from_millis(1));
    let before = t.aggregate();
    let b = t.record("B".into(), usage(7, 8, 9, 10), Duration::from_millis(1));
    let after = t.aggregate();
    assert_eq!(after.calls, before.calls + 1);
    assert_eq!(after.tokens_read_from_cache, before.tokens_read_from_cache + 8);
    assert_eq!(after.cost_usd, before.cost_usd + b.cost_usd(&p));
    assert_eq!(before.cost_usd, a.cost_usd(&p));
}
