use nft_approval::approvals::TokenApprovals;
use nft_approval::store::ApprovalStore;
use nft_approval::str_map::StrMap;

#[test]
fn str_map_insert_get_remove() {
    let mut m: StrMap<u64> = StrMap::new();
    m.insert("a".to_string(), 1);
    m.insert("b".to_string(), 2);
    m.insert("a".to_string(), 3);
    assert_eq!(m.len(), 2);
    assert_eq!(m.get(&"a".to_string()), Some(&3));
    assert_eq!(m.remove(&"a".to_string()), Some(3));
    assert_eq!(m.remove(&"a".to_string()), None);
    assert!(m.contains(&"b".to_string()));
    m.clear();
    assert_eq!(m.len(), 0);
}

#[test]
fn token_approvals_ids_are_never_reused() {
    let mut t = TokenApprovals::new();
    assert_eq!(t.set_approval("x".to_string()), 1);
    assert_eq!(t.set_approval("y".to_string()), 2);
    assert!(t.remove_approval(&"x".to_string()));
    assert!(!t.remove_approval(&"x".to_string()));
    assert_eq!(t.set_approval("x".to_string()), 3);
    t.clear_all();
    assert_eq!(t.len(), 0);
    assert_eq!(t.approval_id(&"x".to_string()), None);
    assert_eq!(t.next_approval_id(), 4);
}

#[test]
fn store_defaults_for_unknown_token() {
    let mut s = ApprovalStore::new();
    let t = "7".to_string();
    assert_eq!(s.approval_count(&t), 0);
    assert_eq!(s.next_approval_id(&t), 1);
    assert!(!s.remove_approval(&t, &"a".to_string()));
    assert_eq!(s.set_approval(&t, "a".to_string()), 1);
    assert_eq!(s.approval_id(&t, &"a".to_string()), Some(1));
    s.clear_all(&t);
    assert_eq!(s.approval_id(&t, &"a".to_string()), None);
    assert_eq!(s.next_approval_id(&t), 2);
}

#[test]
fn store_get_returns_recorded_approvals() {
    let mut s = ApprovalStore::new();
    let t = "5".to_string();
    assert!(s.get(&t).is_none());
    s.set_approval(&t, "a".to_string());
    s.set_approval(&t, "b".to_string());
    let ta = s.get(&t).unwrap();
    assert_eq!(ta.len(), 2);
    assert_eq!(ta.approval_id(&"b".to_string()), Some(2));
    assert_eq!(ta.next_approval_id(), 3);
}
