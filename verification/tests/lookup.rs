use ts3_ai_bot::lookup::{find_channel_by_name, find_client_by_name, validate_channel_name};

#[test]
fn channel_name_length_is_checked_in_bytes() {
    assert_eq!(validate_channel_name("Lobby"), Ok(()));
    assert_eq!(
        validate_channel_name(""),
        Err("Channel name must be between 1 and 100 characters".to_string())
    );
    assert!(validate_channel_name(&"a".repeat(100)).is_ok());
    assert!(validate_channel_name(&"a".repeat(101)).is_err());
    // 50 two-byte characters are 100 bytes, 51 are too many
    assert!(validate_channel_name(&"č".repeat(50)).is_ok());
    assert!(validate_channel_name(&"č".repeat(51)).is_err());
}

fn channels() -> Vec<(u64, String)> {
    vec![
        (1, "Lobby".to_string()),
        (2, "Gaming Room".to_string()),
        (3, "Room".to_string()),
        (4, "Big Room Two".to_string()),
        (5, "AFK".to_string()),
    ]
}

#[test]
fn exact_channel_match_ignores_case() {
    assert_eq!(find_channel_by_name(&channels(), "lobby"), Ok(1));
    assert_eq!(find_channel_by_name(&channels(), "ROOM"), Ok(3));
}

#[test]
fn fuzzy_channel_match_prefers_earliest_then_shortest() {
    // "oo" occurs at byte 1 of "Room" and at byte 5 of "Big Room Two"
    assert_eq!(find_channel_by_name(&channels(), "oo"), Ok(3));
    // "gam" starts "Gaming Room"
    assert_eq!(find_channel_by_name(&channels(), "gam"), Ok(2));
    // "b" occurs at byte 0 of "Big Room Two" and at byte 2 of "Lobby"
    assert_eq!(find_channel_by_name(&channels(), "b"), Ok(4));
}

#[test]
fn fuzzy_channel_ties_go_to_the_shorter_name() {
    let cs = vec![(10, "Room Alpha".to_string()), (11, "Room A".to_string())];
    assert_eq!(find_channel_by_name(&cs, "room a"), Ok(11));
    assert_eq!(find_channel_by_name(&cs, "roo"), Ok(11));
}

#[test]
fn missing_channel_error_names_it() {
    assert_eq!(
        find_channel_by_name(&channels(), "Music"),
        Err("Could not find a channel named 'Music'. Please check the exact name and try again.".to_string())
    );
}

#[test]
fn client_lookup_exact_then_first_containing() {
    let clients = vec![
        (7u16, 70u64, "Alexander".to_string()),
        (8u16, 80u64, "alex".to_string()),
        (9u16, 90u64, "Bob".to_string()),
    ];
    assert_eq!(find_client_by_name(&clients, "ALEX"), Ok((8, 80)));
    assert_eq!(find_client_by_name(&clients, "xan"), Ok((7, 70)));
    assert_eq!(find_client_by_name(&clients, "le"), Ok((7, 70)));
    assert_eq!(
        find_client_by_name(&clients, "Carol"),
        Err("Could not find a user named 'Carol'. Please check the name and try again.".to_string())
    );
}
