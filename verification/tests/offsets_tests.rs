use sceno::offsets::OffsetTable;

#[test]
fn nudges_accumulate_and_zero_drops_the_entry() {
    let mut t = OffsetTable::new();
    assert_eq!(t.offset("artist|title||0"), 0);
    t.nudge("artist|title||0".to_string(), 10);
    t.nudge("artist|title||0".to_string(), 10);
    assert_eq!(t.offset("artist|title||0"), 20);
    t.nudge("artist|title||0".to_string(), -20);
    assert_eq!(t.offset("artist|title||0"), 0);
    assert!(t.to_pairs().is_empty());
}

#[test]
fn clear_reports_whether_an_offset_existed() {
    let mut t = OffsetTable::from_pairs(vec![("a".into(), -200), ("b".into(), 50)]);
    assert!(t.clear("a"));
    assert!(!t.clear("a"));
    assert_eq!(t.offset("a"), 0);
    assert_eq!(t.offset("b"), 50);
}

#[test]
fn later_pairs_win_and_pairs_round_trip() {
    let t = OffsetTable::from_pairs(vec![("k".into(), 1), ("j".into(), 2), ("k".into(), 3)]);
    assert_eq!(t.offset("k"), 3);
    let mut pairs = t.to_pairs();
    pairs.sort();
    assert_eq!(pairs, vec![("j".to_string(), 2), ("k".to_string(), 3)]);
}

#[test]
fn nudge_then_opposite_nudge_restores() {
    let mut t = OffsetTable::from_pairs(vec![("s".into(), 30)]);
    t.nudge("s".to_string(), 70);
    assert_eq!(t.offset("s"), 100);
    t.nudge("s".to_string(), -70);
    assert_eq!(t.offset("s"), 30);
    t.nudge("new".to_string(), 5);
    t.nudge("new".to_string(), -5);
    assert_eq!(t.to_pairs(), vec![("s".to_string(), 30)]);
}
