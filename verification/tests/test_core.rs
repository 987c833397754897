use cachebench::{fingerprint, CacheTracker, PrefixStats, Provider, Ratio, Usage};
use serde_json::Value;
use std::time::Duration;

/// The JSON encoding of a value.
fn json(value: &Value) -> Vec<u8> {
    serde_json::to_vec(value).unwrap()
}

/// A chat message `{"role": role, "content": content}`.
fn message(role: &str, content: &str) -> Value {
    let mut m = serde_json::Map::new();
    m.insert("role".to_string(), Value::String(role.to_string()));
    m.insert("content".to_string(), Value::String(content.to_string()));
    Value::Object(m)
}

fn text(s: &str) -> Vec<u8> {
    json(&Value::String(s.to_string()))
}

fn stats<'a>(groups: &'a [(String, PrefixStats)], id: &str) -> Option<&'a PrefixStats> {
    groups.iter().find(|(g, _)| g == id).map(|(_, s)| s)
}

fn as_f64(ratio: Option<Ratio>) -> Option<f64> {
    ratio.map(|r| r.numerator as f64 / r.denominator as f64)
}

#[test]
fn fingerprint_is_stable() {
    let msgs = vec![json(&message("user", "hi"))];
    let a = fingerprint(&msgs, &text("sys"), &json(&Value::Null), Some("m"));
    let b = fingerprint(&msgs, &text("sys"), &json(&Value::Null), Some("m"));
    assert_eq!(a, b);
    assert_eq!(a.len(), 16);
}

#[test]
fn fingerprint_excludes_trailing_user_turn() {
    let a_msgs = vec![json(&message("user", "A"))];
    let b_msgs = vec![json(&message("user", "B"))];
    let a = fingerprint(&a_msgs, &text("sys"), &json(&Value::Null), None);
    let b = fingerprint(&b_msgs, &text("sys"), &json(&Value::Null), None);
    assert_eq!(a, b, "trailing user turn must not affect fingerprint");
}

#[test]
fn fingerprint_changes_with_system_or_model() {
    let msgs: Vec<Vec<u8>> = vec![];
    let a = fingerprint(&msgs, &text("sys1"), &json(&Value::Null), Some("m"));
    let b = fingerprint(&msgs, &text("sys2"), &json(&Value::Null), Some("m"));
    let c = fingerprint(&msgs, &text("sys1"), &json(&Value::Null), Some("m2"));
    assert_ne!(a, b);
    assert_ne!(a, c);
}

#[test]
fn record_and_aggregate() {
    let mut t = CacheTracker::new(Provider::Anthropic);
    t.record(
        "p1".into(),
        Usage {
            input_tokens: 100,
            cache_read_tokens: 800,
            cache_creation_tokens: 0,
            output_tokens: 50,
        },
        Duration::from_millis(420),
    );
    let agg = t.aggregate();
    assert_eq!(agg.calls, 1);
    assert_eq!(as_f64(agg.hit_ratio), Some(1.0));
    assert_eq!(agg.tokens_read_from_cache, 800);
    assert!(agg.cost_saved_usd > 0);
}

#[test]
fn miss_alert_fires_below_threshold() {
    let mut count = 0usize;
    let mut t = CacheTracker::new(Provider::Anthropic)
        .with_alert_threshold(Ratio { numerator: 1, denominator: 2 });
    let m = t.record(
        "p".into(),
        Usage {
            input_tokens: 10,
            cache_read_tokens: 0,
            cache_creation_tokens: 900,
            output_tokens: 5,
        },
        Duration::from_millis(100),
    );
    if t.fires_miss_alert(&m.usage) {
        count += 1;
    }
    assert_eq!(count, 1);
}

#[test]
fn no_alert_when_no_cacheable_prefix() {
    let mut count = 0usize;
    let mut t = CacheTracker::new(Provider::Anthropic)
        .with_alert_threshold(Ratio { numerator: 99, denominator: 100 });
    let m = t.record(
        "p".into(),
        Usage {
            input_tokens: 100,
            cache_read_tokens: 0,
            cache_creation_tokens: 0,
            output_tokens: 50,
        },
        Duration::from_millis(50),
    );
    if t.fires_miss_alert(&m.usage) {
        count += 1;
    }
    assert_eq!(count, 0);
}

#[test]
fn by_prefix_groups_correctly() {
    let mut t = CacheTracker::new(Provider::Anthropic);
    let usage = Usage {
        input_tokens: 10,
        cache_read_tokens: 90,
        cache_creation_tokens: 0,
        output_tokens: 5,
    };
    t.record("A".into(), usage, Duration::from_millis(10));
    t.record("A".into(), usage, Duration::from_millis(10));
    t.record("B".into(), usage, Duration::from_millis(10));
    let by = t.by_prefix();
    assert_eq!(by.len(), 2);
    assert_eq!(stats(&by, "A").unwrap().calls, 2);
    assert_eq!(stats(&by, "B").unwrap().calls, 1);
}

#[test]
fn history_trims_to_size() {
    let mut t = CacheTracker::new(Provider::Anthropic).with_history_size(3);
    let usage = Usage::default();
    for i in 0..5 {
        t.record(format!("p{i}"), usage, Duration::from_millis(1));
    }
    let calls = t.calls();
    assert_eq!(calls.len(), 3);
    assert_eq!(calls[0].prefix_id, "p2");
    assert_eq!(calls[2].prefix_id, "p4");
}

#[test]
fn cost_math_matches_python_sibling() {
    // input=100, cache_read=800, output=50 at Anthropic Sonnet 4 default pricing:
    //   cost = (100*3 + 800*0.30 + 0*3.75 + 50*15) / 1e6 = 0.00129 USD
    //   saved = (900*3 - (100*3 + 800*0.30)) / 1e6 = 0.00216 USD
    let mut t = CacheTracker::new(Provider::Anthropic);
    let m = t.record(
        "p".into(),
        Usage {
            input_tokens: 100,
            cache_read_tokens: 800,
            cache_creation_tokens: 0,
            output_tokens: 50,
        },
        Duration::from_millis(0),
    );
    let pricing = Provider::Anthropic.default_pricing();
    let cost = m.cost_usd(&pricing) as f64 / 1e12;
    let saved = m.cost_saved_usd(&pricing) as f64 / 1e12;
    assert!((cost - 0.00129).abs() < 1e-9, "cost mismatch: {cost}");
    assert!((saved - 0.00216).abs() < 1e-9, "saved mismatch: {saved}");
}
