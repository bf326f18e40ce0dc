use ts3_ai_bot::delivery::{message_chunks, PRIVATE_MESSAGE_LIMIT, SERVER_MESSAGE_LIMIT};

#[test]
fn short_messages_go_whole() {
    assert_eq!(message_chunks("hello", SERVER_MESSAGE_LIMIT), vec!["hello".to_string()]);
    assert_eq!(message_chunks("", 5), vec![String::new()]);
    assert_eq!(message_chunks("abcd", 4), vec!["abcd".to_string()]);
}

#[test]
fn long_messages_are_cut_every_max_bytes() {
    assert_eq!(
        message_chunks("abcdefghij", 4),
        vec!["abcd".to_string(), "efgh".to_string(), "ij".to_string()]
    );
    let long = "x".repeat(2500);
    let parts = message_chunks(&long, PRIVATE_MESSAGE_LIMIT);
    assert_eq!(parts.len(), 3);
    assert_eq!(parts[0].len(), 1024);
    assert_eq!(parts[2].len(), 2500 - 2048);
    assert_eq!(parts.concat(), long);
}

#[test]
fn pieces_that_split_a_character_become_a_marker() {
    // '€' takes three bytes, at byte positions 2..5
    assert_eq!(
        message_chunks("ab€cd", 2),
        vec![
            "ab".to_string(),
            "[message truncated]".to_string(),
            "[message truncated]".to_string(),
            "d".to_string()
        ]
    );
    assert_eq!(
        message_chunks("ab€cd", 5),
        vec!["ab€".to_string(), "cd".to_string()]
    );
}
