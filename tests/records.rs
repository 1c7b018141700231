use flag_eval::record::{apply_update, flag_from_row, rollout_valid, FlagUpdate, UpdateError};
use flag_eval::Flag;

fn stored() -> Flag {
    Flag {
        id: 7,
        key: "beta".to_string(),
        enabled: false,
        variants: Some(vec![("A".to_string(), 1)]),
        rollout: Some(10),
        updated_at: "2024-01-01 00:00:00".to_string(),
    }
}

#[test]
fn rollout_range() {
    assert!(rollout_valid(None));
    assert!(rollout_valid(Some(0)));
    assert!(rollout_valid(Some(100)));
    assert!(!rollout_valid(Some(101)));
    assert!(!rollout_valid(Some(255)));
}

#[test]
fn update_replaces_given_fields() {
    let u = FlagUpdate { enabled: Some(true), variants: None, rollout: Some(40) };
    let f = apply_update(stored(), u).unwrap();
    assert_eq!(f.id, 7);
    assert_eq!(f.key, "beta");
    assert!(f.enabled);
    assert_eq!(f.variants, Some(vec![("A".to_string(), 1)]));
    assert_eq!(f.rollout, Some(40));
}

#[test]
fn empty_update_keeps_flag() {
    let u = FlagUpdate { enabled: None, variants: None, rollout: None };
    let f = apply_update(stored(), u).unwrap();
    assert!(!f.enabled);
    assert_eq!(f.rollout, Some(10));
    let v = FlagUpdate { enabled: None, variants: Some(vec![]), rollout: None };
    assert_eq!(apply_update(stored(), v).unwrap().variants, Some(vec![]));
}

#[test]
fn update_rejects_rollout_over_100() {
    let u = FlagUpdate { enabled: Some(true), variants: None, rollout: Some(101) };
    assert_eq!(apply_update(stored(), u).err(), Some(UpdateError::RolloutOutOfRange));
}

#[test]
fn row_columns_become_flag() {
    let f = flag_from_row(3, "k".to_string(), 2, None, Some(300), "t".to_string());
    assert!(f.enabled);
    assert_eq!(f.rollout, Some(44));
    let g = flag_from_row(3, "k".to_string(), 0, None, None, "t".to_string());
    assert!(!g.enabled);
    assert_eq!(g.rollout, None);
}
