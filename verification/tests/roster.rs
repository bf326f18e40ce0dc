use ts3_ai_bot::roster::{first_known_uid, find_client_by_uid, online_admin_ids, resolve_client_id_by_uid, uid_text, OnlineClient};

fn clients() -> Vec<OnlineClient> {
    vec![
        OnlineClient { id: 1, uid: None },
        OnlineClient { id: 2, uid: Some(vec![1, 2, 3]) },
        OnlineClient { id: 3, uid: Some(vec![0xff, 0xfe]) },
        OnlineClient { id: 4, uid: Some(vec![1, 2, 3]) },
    ]
}

#[test]
fn uid_text_is_standard_base64() {
    assert_eq!(uid_text(&Some(vec![1, 2, 3]), "unknown"), "AQID");
    assert_eq!(uid_text(&Some(vec![0xff, 0xfe]), ""), "//4=");
    assert_eq!(uid_text(&Some(vec![0u8; 20]), ""), "AAAAAAAAAAAAAAAAAAAAAAAAAAA=");
    assert_eq!(uid_text(&None, "unknown"), "unknown");
    assert_eq!(uid_text(&None, ""), "");
}

#[test]
fn clients_are_found_by_uid_text() {
    assert_eq!(find_client_by_uid(&clients(), "AQID"), Some(2));
    assert_eq!(find_client_by_uid(&clients(), "//4="), Some(3));
    assert_eq!(find_client_by_uid(&clients(), "nope"), None);
    assert_eq!(resolve_client_id_by_uid(&clients(), "  AQID "), Some(2));
    assert_eq!(resolve_client_id_by_uid(&clients(), "unknown"), None);
    assert_eq!(resolve_client_id_by_uid(&clients(), "   "), None);
}

#[test]
fn online_admins_are_listed_in_order() {
    let admins = vec!["AQID".to_string(), "zzz".to_string()];
    assert_eq!(online_admin_ids(&clients(), &admins, None), vec![2, 4]);
    assert_eq!(online_admin_ids(&clients(), &admins, Some(2)), vec![4]);
    assert!(online_admin_ids(&clients(), &Vec::new(), None).is_empty());
}

#[test]
fn first_known_uid_takes_the_first_source() {
    assert_eq!(first_known_uid(&vec![None, Some(vec![1, 2, 3]), Some(vec![0xff, 0xfe])]), Some("AQID".to_string()));
    assert_eq!(first_known_uid(&vec![None, None]), None);
    assert_eq!(first_known_uid(&Vec::new()), None);
}
