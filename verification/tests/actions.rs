use ts3_ai_bot::actions::clean_response_text;

#[test]
fn test_clean_think_tags() {
    let raw = "<think>internal reasoning</think>Hello user!";
    let cleaned = clean_response_text(raw);
    assert_eq!(cleaned, "Hello user!");
}

use ts3_ai_bot::actions::{
    convert_payload, get_reply_text, plan_ai_response, resolve_ai_response,
    trim_unmatched_trailing_braces, ActionPayload, BotAction,
};

fn payload(action: &str) -> ActionPayload {
    ActionPayload {
        action: action.to_string(),
        message: None,
        channel_name: None,
        password: None,
        permanent: None,
        set_permanent: None,
        client_name: None,
        reason: None,
        channel_id: None,
        description: None,
        server_group_id: None,
        duration_seconds: None,
        target_name: None,
        ip: None,
        uid: None,
        name: None,
        ban_id: None,
        is_talker: None,
        parent_channel_name: None,
        text: None,
        url: None,
        volume: None,
    }
}

#[test]
fn cleaning_strips_code_fences() {
    assert_eq!(clean_response_text("```json\n[1]\n```"), "[1]");
}

#[test]
fn think_blocks_are_removed() {
    assert_eq!(clean_response_text("<think>plan</think> [1]"), "[1]");
    assert_eq!(clean_response_text("a<think>x</think>b<think>y</think>c"), "abc");
    assert_eq!(clean_response_text("answer <think>unfinished"), "answer");
    let r = clean_response_text("</think>a<think>b");
    assert_eq!(r, "</think>a");
    assert!(!r.contains("<think>"));
}

#[test]
fn reply_payload_converts_case_insensitively() {
    let mut p = payload("reply");
    p.message = Some("Hello there!".to_string());
    match convert_payload(p) {
        Some(BotAction::Reply { message }) => assert_eq!(message, "Hello there!"),
        _ => panic!("expected a reply"),
    }
}

#[test]
fn unknown_payload_is_ignored() {
    assert!(convert_payload(payload("DELETE_SERVER")).is_none());
}

#[test]
fn create_channel_payload_defaults_to_temporary() {
    let mut p = payload("CREATE_CHANNEL");
    p.channel_name = Some("Gaming Lounge".to_string());
    match convert_payload(p) {
        Some(BotAction::CreateChannel { channel_name, password, permanent }) => {
            assert_eq!(channel_name, "Gaming Lounge");
            assert!(password.is_none());
            assert!(!permanent);
        }
        _ => panic!("expected a channel creation"),
    }
}

#[test]
fn plain_text_becomes_a_reply() {
    let plan = plan_ai_response("I'm just a regular text response with no JSON.");
    assert!(plan.embedded.is_empty());
    let actions = resolve_ai_response(plan.cleaned.clone(), None, vec![], vec![]);
    assert_eq!(get_reply_text(&actions), "I'm just a regular text response with no JSON.");
}

#[test]
fn embedded_objects_are_listed() {
    let raw = "Sure! Let me create that for you.\n{\"action\": \"CREATE_CHANNEL\", \"channel_name\": \"My Room\", \"permanent\": true}\nHere you go!";
    let plan = plan_ai_response(raw);
    assert_eq!(
        plan.embedded,
        vec!["{\"action\": \"CREATE_CHANNEL\", \"channel_name\": \"My Room\", \"permanent\": true}".to_string()]
    );
}

#[test]
fn unmatched_braces_are_trimmed() {
    assert_eq!(trim_unmatched_trailing_braces("{\"a\": 1}}".to_string()), "{\"a\": 1}");
    assert_eq!(trim_unmatched_trailing_braces("{\"a\": {}}".to_string()), "{\"a\": {}}");
}

#[test]
fn replies_are_joined() {
    let actions = vec![
        BotAction::Reply { message: "one".to_string() },
        BotAction::JoinUserChannel,
        BotAction::Reply { message: "two".to_string() },
    ];
    assert_eq!(get_reply_text(&actions), "one\ntwo");
}

#[test]
fn move_bot_channel_converts() {
    let mut p = payload("move_bot_channel");
    p.channel_name = Some("Music".to_string());
    assert!(matches!(convert_payload(p), Some(BotAction::MoveBotChannel { ref channel_name }) if channel_name == "Music"));
    let mut p = payload("MOVE_BOT_CHANNEL");
    p.channel_name = Some(String::new());
    assert!(convert_payload(p).is_none());
    assert!(convert_payload(payload("MOVE_BOT_CHANNEL")).is_none());
}
