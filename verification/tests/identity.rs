use ts3_ai_bot::identity::IdentityStore;

#[test]
fn names_are_recorded_once_in_a_row() {
    let mut s = IdentityStore::empty("identities.json".to_string());
    assert!(s.record_name("uid1", "Alice"));
    assert!(!s.record_name("uid1", "Alice"));
    assert!(s.record_name("uid1", "Alicia"));
    assert!(s.record_name("uid1", "Alice"));
    assert_eq!(
        s.get_history("uid1"),
        Some(vec!["Alice".to_string(), "Alicia".to_string(), "Alice".to_string()])
    );
    assert_eq!(s.get_history("uid2"), None);
    assert!(s.record_name("uid2", "Bob"));
    assert_eq!(s.get_history("uid2"), Some(vec!["Bob".to_string()]));
    assert_eq!(s.get_history("uid1").unwrap().len(), 3);
}

#[test]
fn histories_never_repeat_a_name_in_a_row() {
    let mut s = IdentityStore::empty("identities.json".to_string());
    assert_eq!(s.get_history("uid1"), None);
    for name in ["Ann", "Ann", "Bo", "Bo", "Bo", "Ann", "Ann"] {
        s.record_name("uid1", name);
    }
    let h = s.get_history("uid1").unwrap();
    assert_eq!(h, vec!["Ann".to_string(), "Bo".to_string(), "Ann".to_string()]);
    assert!(h.windows(2).all(|w| w[0] != w[1]));
}
