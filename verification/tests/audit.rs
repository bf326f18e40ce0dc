use ts3_ai_bot::actions::BotAction;
use ts3_ai_bot::audit::{action_name, action_target, format_audit_line, AuditEntry, AuditLogger, AuditResult};

#[test]
fn audit_line_has_target_and_result() {
    let e = AuditEntry {
        invoker_name: "Alice".to_string(),
        invoker_uid: "u1".to_string(),
        action: "KICK_CLIENT".to_string(),
        target: Some("Bob".to_string()),
        result: AuditResult::Denied("no".to_string()),
    };
    assert_eq!(
        format_audit_line("2024-01-01 10:00:00", &e),
        "[2024-01-01 10:00:00] KICK_CLIENT by \"Alice\" (UID: u1) -> target: \"Bob\" | RESULT: Denied (no)\n"
    );
    let e2 = AuditEntry { target: None, result: AuditResult::Success, ..e };
    assert_eq!(
        format_audit_line("t", &e2),
        "[t] KICK_CLIENT by \"Alice\" (UID: u1) | RESULT: Success\n"
    );
    assert_eq!(AuditResult::Error("x".to_string()).to_text(), "Error (x)");
    assert_eq!(AuditLogger::new("audit.log").file_path, "audit.log");
}

#[test]
fn actions_have_names_and_targets() {
    let a = BotAction::MoveClient { client_name: "Bob".to_string(), channel_name: "Lobby".to_string() };
    assert_eq!(action_name(&a), "MOVE_CLIENT");
    assert_eq!(action_target(&a).as_deref(), Some("Bob -> Lobby"));
    assert_eq!(action_name(&BotAction::BanDelAll), "BAN_DEL_ALL");
}
