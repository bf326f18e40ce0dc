use ts3_ai_bot::context::{InvokerContext, MessageSource, ServerSnapshot, UserInfo};
use ts3_ai_bot::permissions::PermissionLevel;
use ts3_ai_bot::prompts::{
    build_system_prompt, extract_preferred_language, LANGUAGE_RULE, NO_WORKSPACE_TEXT, PROMPT_AFTER_CLOCK,
    PROMPT_AFTER_GROUPS, PROMPT_AFTER_LEVEL, PROMPT_AFTER_STATE, PROMPT_AFTER_WORKSPACE, PROMPT_BEFORE_CODE_CHANNEL,
    PROMPT_BEFORE_EXAMPLE_CHANNEL, PROMPT_BEFORE_GROUPS, PROMPT_BEFORE_LEVEL, PROMPT_BEFORE_WORKSPACE,
    PROMPT_BETWEEN_CODE_CHANNEL, PROMPT_BETWEEN_NAMES, PROMPT_END, PROMPT_INTRO,
};

#[test]
fn extracts_preferred_language_from_user_field() {
    let context = "=== USER.md ===\nPreferred language: Serbian\nresponse_language: English\n";
    assert_eq!(extract_preferred_language(context).as_deref(), Some("Serbian"));
}

#[test]
fn falls_back_to_response_language_field() {
    let context = "=== USER.md ===\nPreferred language:   \nresponse_language: English\n";
    assert_eq!(extract_preferred_language(context).as_deref(), Some("English"));
}

#[test]
fn no_language_when_none_is_given() {
    assert_eq!(extract_preferred_language("Name: x\r\nresponse_language:\r\n"), None);
    assert_eq!(extract_preferred_language("  Preferred language: German  \r\n"), Some("German".to_string()));
}

fn invoker() -> InvokerContext {
    InvokerContext {
        name: "Alice".to_string(),
        uid: "u1".to_string(),
        channel_name: "Lobby".to_string(),
        channel_id: 1,
        message_source: MessageSource::Direct,
        country_code: String::new(),
        server_groups: Vec::new(),
        channel_group: String::new(),
        is_away: false,
        away_message: None,
        input_muted: false,
        platform: None,
        description: String::new(),
        database_id: 5,
    }
}

fn snapshot() -> ServerSnapshot {
    ServerSnapshot {
        server_name: "Srv".to_string(),
        bot_name: "Bot".to_string(),
        bot_channel: "Lobby".to_string(),
        bot_uid: "b".to_string(),
        platform: "Linux".to_string(),
        version: "3".to_string(),
        max_clients: 10,
        uptime_secs: None,
        connections_total: None,
        packetloss_text: None,
        avg_ping_text: None,
        online_users: vec![UserInfo {
            name: "Carl".to_string(),
            channel_name: "Lobby".to_string(),
            channel_id: 1,
            is_away: false,
            away_message: None,
            input_muted: false,
            output_muted: false,
            is_recording: false,
            country_code: String::new(),
            is_priority_speaker: false,
            is_channel_commander: false,
            server_groups: Vec::new(),
            channel_group: "Guest".to_string(),
            database_id: 2,
            description: String::new(),
            platform: None,
            version: None,
            connections_total: None,
            ping_text: None,
            idle_secs: Some(4),
            client_address: None,
            packetloss_text: None,
            connected_secs: None,
        }],
        channel_tree: Vec::new(),
    }
}

#[test]
fn system_prompt_is_assembled_in_order() {
    let inv = invoker();
    let snap = snapshot();
    let p = build_system_prompt(&inv, &snap, PermissionLevel::User, "Can chat.", "CS:2=57", "  ", 77, "2024-01-01 10:00:00");
    let expected = format!(
        "{}{}{}{}{}{}{}{}{}{}{}{}{}{}{}{}{}{}{}{}{}{}{}{}{}{}{}",
        PROMPT_INTRO,
        "2024-01-01 10:00:00",
        PROMPT_AFTER_CLOCK,
        snap.to_prompt_text(false),
        PROMPT_AFTER_STATE,
        inv.to_prompt_text(),
        PROMPT_BEFORE_LEVEL,
        "User",
        PROMPT_AFTER_LEVEL,
        "Can chat.",
        PROMPT_BEFORE_WORKSPACE,
        NO_WORKSPACE_TEXT,
        PROMPT_AFTER_WORKSPACE,
        LANGUAGE_RULE,
        PROMPT_BEFORE_GROUPS,
        "CS:2=57",
        PROMPT_AFTER_GROUPS,
        "Alice",
        PROMPT_BETWEEN_NAMES,
        "Alice",
        PROMPT_BEFORE_CODE_CHANNEL,
        "77",
        PROMPT_BETWEEN_CODE_CHANNEL,
        "77",
        PROMPT_BEFORE_EXAMPLE_CHANNEL,
        "77",
        PROMPT_END
    );
    assert_eq!(p, expected);
    assert!(!p.contains("[ADMIN]"));
}

#[test]
fn administrators_see_connection_details_and_workspace() {
    let p = build_system_prompt(
        &invoker(),
        &snapshot(),
        PermissionLevel::Admin,
        "Full access.",
        "",
        "=== USER.md ===\nPreferred language: German\n",
        9,
        "now",
    );
    assert!(p.contains("  ↳ [ADMIN] idle=4s\n"));
    assert!(p.contains("\nPermission level: Administrator\nFull access."));
    assert!(p.contains("WORKSPACE CONTEXT FILES:\n=== USER.md ===\nPreferred language: German\n\n\nThe workspace files"));
    assert!(!p.contains(NO_WORKSPACE_TEXT));
    assert!(p.contains(LANGUAGE_RULE));
}
