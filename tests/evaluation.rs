use flag_eval::bucket::{bucket, hk, u32_from_le, GATE_TAG, VARIANT_TAG};
use flag_eval::gate::{gate_from_digest, passes_gate};
use flag_eval::variant::{pick_variant, select};
use flag_eval::{eval_flag, EvalResponse, Flag};

fn vs(entries: &[(&str, u32)]) -> Vec<(String, u32)> {
    entries.iter().map(|(n, w)| (n.to_string(), *w)).collect()
}

fn flag(key: &str, enabled: bool, rollout: Option<u8>, variants: Option<Vec<(String, u32)>>) -> Flag {
    Flag {
        id: 1,
        key: key.to_string(),
        enabled,
        variants,
        rollout,
        updated_at: "2024-01-01 00:00:00".to_string(),
    }
}

fn resp(key: &str, matched: bool, variant: Option<&str>) -> EvalResponse {
    EvalResponse { key: key.to_string(), matched, variant: variant.map(|v| v.to_string()) }
}

#[test]
fn bucket_hashes_key_tag_identifier() {
    assert_eq!(bucket(GATE_TAG, "new-ui", "user1"), *blake3::hash(b"new-ui:user1").as_bytes());
    assert_eq!(bucket(VARIANT_TAG, "new-ui", "user1"), *blake3::hash(b"new-ui/user1").as_bytes());
    assert_eq!(bucket(GATE_TAG, "", ""), *blake3::hash(b":").as_bytes());
}

#[test]
fn bucket_golden_digest() {
    let d = bucket(GATE_TAG, "new-ui", "user1");
    assert_eq!(d[0], 0x35);
    assert_eq!(d[1], 0x74);
    assert_eq!(d[31], 0x10);
}

#[test]
fn gate_and_variant_tags_differ() {
    assert_ne!(bucket(GATE_TAG, "k", "u"), bucket(VARIANT_TAG, "k", "u"));
}

#[test]
fn hk_takes_first_four_bytes() {
    assert_eq!(hk(&[1, 2, 3, 4, 5, 6]), [1, 2, 3, 4]);
}

#[test]
fn u32_from_le_reads_little_endian() {
    assert_eq!(u32_from_le([0x01, 0x02, 0x03, 0x04]), 0x0403_0201);
    assert_eq!(u32_from_le([0xff, 0xff, 0xff, 0xff]), u32::MAX);
    assert_eq!(u32_from_le([0, 0, 0, 0]), 0);
}

#[test]
fn gate_from_digest_reduces_first_byte() {
    let mut d = [0u8; 32];
    d[0] = 150;
    assert!(!gate_from_digest(&d, 50));
    assert!(gate_from_digest(&d, 51));
    d[0] = 99;
    assert!(!gate_from_digest(&d, 99));
    assert!(gate_from_digest(&d, 100));
}

#[test]
fn gate_without_rollout_always_passes() {
    assert!(passes_gate(None, "k", None));
    assert!(passes_gate(None, "k", Some("u")));
}

#[test]
fn gate_without_identifier_fails_closed() {
    for p in 0..=100u8 {
        assert!(!passes_gate(Some(p), "k", None));
    }
}

#[test]
fn gate_boundaries() {
    for i in 0..200 {
        let id = format!("user-{}", i);
        assert!(!passes_gate(Some(0), "boundary", Some(&id)));
        assert!(passes_gate(Some(100), "boundary", Some(&id)));
    }
    assert!(passes_gate(Some(100), "boundary", Some("")));
}

#[test]
fn gate_monotonic_in_rollout() {
    for i in 0..50 {
        let id = format!("id{}", i);
        let mut opened = false;
        for p in 0..=100u8 {
            let g = passes_gate(Some(p), "mono", Some(&id));
            if opened {
                assert!(g);
            }
            opened = g;
        }
        assert!(opened);
    }
}

#[test]
fn gate_golden_bucket() {
    // gate bucket of ("new-ui", "user1") is 53
    assert!(!passes_gate(Some(53), "new-ui", Some("user1")));
    assert!(passes_gate(Some(54), "new-ui", Some("user1")));
}

#[test]
fn pick_walks_names_in_order() {
    let v = vs(&[("B", 3), ("A", 1)]);
    assert_eq!(pick_variant(&v, 0), Some("A".to_string()));
    assert_eq!(pick_variant(&v, 1), Some("B".to_string()));
    assert_eq!(pick_variant(&v, 3), Some("B".to_string()));
    assert_eq!(pick_variant(&v, 4), Some("A".to_string()));
    assert_eq!(pick_variant(&v, 7), Some("B".to_string()));
}

#[test]
fn pick_ignores_listing_order() {
    let a = vs(&[("alpha", 2), ("beta", 5), ("gamma", 1)]);
    let b = vs(&[("gamma", 1), ("alpha", 2), ("beta", 5)]);
    for n in 0..40u32 {
        assert_eq!(pick_variant(&a, n), pick_variant(&b, n));
    }
    assert_eq!(pick_variant(&a, 1), Some("alpha".to_string()));
    assert_eq!(pick_variant(&a, 2), Some("beta".to_string()));
    assert_eq!(pick_variant(&a, 7), Some("gamma".to_string()));
}

#[test]
fn pick_orders_by_bytes() {
    let v = vs(&[("b", 1), ("B", 1), ("ab", 1), ("a", 1)]);
    assert_eq!(pick_variant(&v, 0), Some("B".to_string()));
    assert_eq!(pick_variant(&v, 1), Some("a".to_string()));
    assert_eq!(pick_variant(&v, 2), Some("ab".to_string()));
    assert_eq!(pick_variant(&v, 3), Some("b".to_string()));
}

#[test]
fn pick_skips_zero_weights() {
    let v = vs(&[("A", 0), ("B", 2), ("C", 1)]);
    assert_eq!(pick_variant(&v, 0), Some("B".to_string()));
    assert_eq!(pick_variant(&v, 1), Some("B".to_string()));
    assert_eq!(pick_variant(&v, 2), Some("C".to_string()));
}

#[test]
fn pick_with_no_weight_is_none() {
    assert_eq!(pick_variant(&vs(&[("A", 0), ("B", 0)]), 5), None);
    assert_eq!(pick_variant(&vs(&[]), 0), None);
}

#[test]
fn pick_with_large_weights() {
    let v = vs(&[("A", u32::MAX), ("B", u32::MAX)]);
    assert_eq!(pick_variant(&v, u32::MAX - 1), Some("A".to_string()));
    assert_eq!(pick_variant(&v, u32::MAX), Some("B".to_string()));
}

#[test]
fn select_without_identifier_uses_zero() {
    let v = vs(&[("z", 1), ("m", 1), ("b", 0)]);
    assert_eq!(select(&v, "k", None), Some("m".to_string()));
}

#[test]
fn select_golden_values() {
    // variant values: user1 3023173887, user2 972668450, alice 3217531083
    let v = vs(&[("A", 1), ("B", 3)]);
    assert_eq!(select(&v, "new-ui", Some("user1")), Some("B".to_string()));
    assert_eq!(select(&v, "new-ui", Some("user2")), Some("B".to_string()));
    assert_eq!(select(&v, "new-ui", Some("")), Some("A".to_string()));
    let w = vs(&[("A", 1), ("B", 1)]);
    assert_eq!(select(&w, "new-ui", Some("user1")), Some("B".to_string()));
    assert_eq!(select(&w, "new-ui", Some("user2")), Some("A".to_string()));
}

#[test]
fn disabled_flag_never_matches() {
    let f = flag("off", false, None, Some(vs(&[("A", 1)])));
    assert_eq!(eval_flag(&f, Some("u")), resp("off", false, None));
    assert_eq!(eval_flag(&f, None), resp("off", false, None));
    let g = flag("off", false, Some(100), None);
    assert_eq!(eval_flag(&g, Some("u")), resp("off", false, None));
}

#[test]
fn anonymous_caller_gated_out() {
    let f = flag("k", true, Some(100), Some(vs(&[("A", 1)])));
    assert_eq!(eval_flag(&f, None), resp("k", false, None));
}

#[test]
fn anonymous_caller_without_rollout_gets_first_variant() {
    let f = flag("k", true, None, Some(vs(&[("B", 1), ("A", 1)])));
    assert_eq!(eval_flag(&f, None), resp("k", true, Some("A")));
}

#[test]
fn zero_weight_variants_match_without_variant() {
    let f = flag("k", true, Some(100), Some(vs(&[("A", 0), ("B", 0)])));
    assert_eq!(eval_flag(&f, Some("u")), resp("k", true, None));
    let e = flag("k", true, None, Some(vs(&[])));
    assert_eq!(eval_flag(&e, Some("u")), resp("k", true, None));
}

#[test]
fn no_variants_matches_without_variant() {
    let f = flag("k", true, None, None);
    assert_eq!(eval_flag(&f, Some("u")), resp("k", true, None));
    assert_eq!(eval_flag(&f, None), resp("k", true, None));
}

#[test]
fn evaluation_is_deterministic() {
    let f = flag("det", true, Some(60), Some(vs(&[("x", 2), ("y", 5)])));
    for i in 0..100 {
        let id = format!("u{}", i);
        let first = eval_flag(&f, Some(&id));
        for _ in 0..3 {
            assert_eq!(eval_flag(&f, Some(&id)), first);
        }
    }
}

#[test]
fn weighted_distribution() {
    let f = flag("dist", true, Some(100), Some(vs(&[("A", 1), ("B", 3)])));
    let mut a = 0u32;
    let mut b = 0u32;
    for i in 0..10_000 {
        let id = format!("user-{}", i);
        let r = eval_flag(&f, Some(&id));
        assert!(r.matched);
        match r.variant.as_deref() {
            Some("A") => a += 1,
            Some("B") => b += 1,
            other => panic!("unexpected variant {:?}", other),
        }
    }
    assert_eq!(a + b, 10_000);
    assert!((2000..=3000).contains(&a), "A picked {} times", a);
    let expected_a = 2500.0f64;
    let expected_b = 7500.0f64;
    let chi2 = (a as f64 - expected_a).powi(2) / expected_a + (b as f64 - expected_b).powi(2) / expected_b;
    assert!(chi2 < 10.83, "chi-square {}", chi2);
}

#[test]
fn concrete_scenario_new_ui() {
    let f = flag("new-ui", true, Some(50), Some(vs(&[("A", 1), ("B", 1)])));
    // gate bucket of user1 is 53: outside a 50% rollout
    let r = eval_flag(&f, Some("user1"));
    assert_eq!(r, resp("new-ui", false, None));
    assert_eq!(eval_flag(&f, Some("user1")), r);
    // user2 (bucket 39, value 972668450) is inside, and lands on A
    assert_eq!(eval_flag(&f, Some("user2")), resp("new-ui", true, Some("A")));
    // user3 (bucket 26, value 1423139397) lands on B
    assert_eq!(eval_flag(&f, Some("user3")), resp("new-ui", true, Some("B")));
    // at full rollout user1 (value 3023173887) lands on B
    let full = flag("new-ui", true, Some(100), Some(vs(&[("A", 1), ("B", 1)])));
    assert_eq!(eval_flag(&full, Some("user1")), resp("new-ui", true, Some("B")));
}
