use ts3_ai_bot::actions::BotAction;
use ts3_ai_bot::audit::AuditResult;
use ts3_ai_bot::config::BotConfig;
use ts3_ai_bot::dispatch::{
    admin_target_failure, audit_after, ban_entry_args, ban_reason, kick_reason, closing_reply, current_channel, gate_action, outcome_reply,
    own_channel_check, unknown_origin_reply, ActionGate, ChannelCheck, InvokerChannel, PreMoveChannels, ReplyTo,
};
use ts3_ai_bot::permissions::PermissionLevel;

fn kick() -> BotAction {
    BotAction::KickClient { client_name: "Eve".to_string(), reason: None }
}

#[test]
fn replies_are_collected_and_allowed_actions_run() {
    let cfg = BotConfig::default();
    let reply = BotAction::Reply { message: "hi".to_string() };
    assert!(matches!(gate_action(PermissionLevel::User, &reply, "Bob", "u", &cfg), ActionGate::Collect));
    assert!(matches!(gate_action(PermissionLevel::Admin, &kick(), "Bob", "u", &cfg), ActionGate::Run));
    let sub = BotAction::ChannelSubscribe { channel_name: "Lobby".to_string() };
    assert!(matches!(gate_action(PermissionLevel::User, &sub, "Bob", "u", &cfg), ActionGate::Run));
}

#[test]
fn refused_actions_carry_reason_alert_and_audit_entry() {
    let cfg = BotConfig::default();
    match gate_action(PermissionLevel::User, &kick(), "Bob", "uid-b", &cfg) {
        ActionGate::Deny { reason, alert, audit } => {
            assert_eq!(reason, "Only administrators can perform this action.");
            assert_eq!(
                alert,
                "WARNING: User [b]Bob[/b] (User) attempted action [b]KICK_CLIENT[/b] without sufficient permissions."
            );
            assert_eq!(audit.invoker_name, "Bob");
            assert_eq!(audit.invoker_uid, "uid-b");
            assert_eq!(audit.action, "KICK_CLIENT");
            assert_eq!(audit.target, Some("Eve".to_string()));
            assert!(matches!(audit.result, AuditResult::Denied(ref d) if d == "Only administrators can perform this action."));
        }
        _ => panic!("a user may not kick"),
    }
}

fn at(name: Option<&str>, id: u64, group: u64) -> Option<InvokerChannel> {
    Some(InvokerChannel { channel_id: id, channel_name: name.map(|n| n.to_string()), channel_group_id: group })
}

#[test]
fn own_channel_rule() {
    let edit = BotAction::EditChannel { channel_name: "my room".to_string(), set_permanent: true };
    assert!(matches!(own_channel_check(true, &edit, &None, 5), ChannelCheck::Pass));
    assert!(matches!(own_channel_check(false, &edit, &at(Some("My Room"), 3, 5), 5), ChannelCheck::Pass));
    assert!(matches!(
        own_channel_check(false, &edit, &at(Some("My Room"), 3, 8), 5),
        ChannelCheck::Deny(Some(ref m)) if m == "You do not have permission to edit this channel. You must be inside the channel and have Channel Admin."
    ));
    assert!(matches!(own_channel_check(false, &edit, &at(None, 3, 5), 5), ChannelCheck::Deny(Some(_))));
    let del = BotAction::DeleteChannel { channel_name: "Other".to_string() };
    assert!(matches!(
        own_channel_check(false, &del, &at(Some("My Room"), 3, 5), 5),
        ChannelCheck::Deny(Some(ref m)) if m.starts_with("You do not have permission to delete this channel.")
    ));
    let admin = BotAction::SetChannelAdmin { channel_name: "x".to_string(), client_name: None };
    assert!(matches!(
        own_channel_check(false, &admin, &None, 5),
        ChannelCheck::Deny(Some(ref m)) if m == "You do not have permission to assign Channel Admin for this channel."
    ));
    let desc = BotAction::EditChannelDescription { channel_id: 3, description: "d".to_string() };
    assert!(matches!(own_channel_check(false, &desc, &at(None, 3, 5), 5), ChannelCheck::Pass));
    assert!(matches!(own_channel_check(false, &desc, &at(None, 4, 5), 5), ChannelCheck::Deny(None)));
    assert!(matches!(own_channel_check(false, &kick(), &None, 5), ChannelCheck::Pass));
}

#[test]
fn outcome_messages() {
    let create = BotAction::CreateChannel { channel_name: "Room".to_string(), password: None, permanent: false };
    let r = outcome_reply(&create, Some("name taken")).unwrap();
    assert_eq!(r.to, ReplyTo::Target);
    assert_eq!(r.text, "Sorry, I couldn't create the channel 'Room': name taken");
    assert!(outcome_reply(&create, None).is_none());
    let group = BotAction::SetServerGroup { client_name: "Bob".to_string(), server_group_id: 57 };
    let r = outcome_reply(&group, Some("denied")).unwrap();
    assert_eq!(r.to, ReplyTo::Invoker);
    assert_eq!(r.text, "I could not assign that server group: denied");
    let del = BotAction::BanDel { ban_id: 42 };
    assert_eq!(outcome_reply(&del, None).unwrap().text, "Ban #42 removed.");
    assert_eq!(outcome_reply(&del, Some("x")).unwrap().text, "Error while removing ban #42: x");
    let desc = BotAction::EditChannelDescription { channel_id: 9, description: String::new() };
    assert_eq!(
        outcome_reply(&desc, Some("e")).unwrap().text,
        "Sorry, I couldn't update the description of channel '9': e"
    );
    let sub = BotAction::ChannelSubscribe { channel_name: "Lobby".to_string() };
    assert_eq!(outcome_reply(&sub, None).unwrap().text, "Subscribed to channel 'Lobby'.");
    assert!(outcome_reply(&BotAction::SetVolume { volume: 3 }, Some("e")).is_none());
    assert_eq!(admin_target_failure("gone"), "Sorry, I couldn't identify the user to grant admin: gone");
    assert_eq!(
        unknown_origin_reply("Eve"),
        "I don't know where 'Eve' was before. Tell me which channel to move them back to."
    );
}

#[test]
fn audit_entries_after_actions() {
    let ban = BotAction::BanAdd {
        ip: Some("1.2.3.4".to_string()),
        uid: None,
        name: Some("Eve".to_string()),
        reason: None,
        duration_seconds: None,
    };
    let e = audit_after(&ban, None, "Ann", "u1").unwrap();
    assert_eq!(e.action, "BAN_ADD");
    assert_eq!(e.target, Some("ip=1.2.3.4 uid=- name=Eve".to_string()));
    assert!(matches!(e.result, AuditResult::Success));
    assert!(audit_after(&ban, Some("x"), "Ann", "u1").is_none());
    let create = BotAction::CreateChannel { channel_name: "Room".to_string(), password: None, permanent: true };
    let e = audit_after(&create, Some("taken"), "Ann", "u1").unwrap();
    assert!(matches!(e.result, AuditResult::Error(ref m) if m == "taken"));
    assert_eq!(e.target, Some("Room".to_string()));
    let mv = BotAction::MoveClient { client_name: "Eve".to_string(), channel_name: "AFK".to_string() };
    assert_eq!(audit_after(&mv, None, "Ann", "u1").unwrap().target, Some("Eve -> AFK".to_string()));
    assert!(audit_after(&BotAction::JoinUserChannel, None, "Ann", "u1").is_none());
}

#[test]
fn closing_reply_only_without_refusal() {
    let actions = vec![
        BotAction::Reply { message: "one".to_string() },
        kick(),
        BotAction::Reply { message: "two".to_string() },
    ];
    assert_eq!(closing_reply(&actions, false), Some("one\ntwo".to_string()));
    assert_eq!(closing_reply(&actions, true), None);
    assert_eq!(closing_reply(&vec![kick()], false), None);
}

#[test]
fn moved_users_are_sent_back() {
    let mut pm = PreMoveChannels::new();
    pm.remember("Eve", "Lobby".to_string());
    pm.remember("bob", "Music".to_string());
    assert_eq!(pm.origin("EVE"), Some("Lobby".to_string()));
    assert_eq!(pm.origin("Bob"), Some("Music".to_string()));
    pm.forget("eve");
    assert_eq!(pm.origin("Eve"), None);
    assert_eq!(pm.origin("bob"), Some("Music".to_string()));
    let users = vec![
        ("Alice".to_string(), Some("Lobby".to_string())),
        ("eve".to_string(), None),
        ("Eve".to_string(), Some("AFK".to_string())),
    ];
    assert_eq!(current_channel(&users, "ALICE"), Some("Lobby".to_string()));
    assert_eq!(current_channel(&users, "Eve"), None);
    assert_eq!(current_channel(&users, "Zed"), None);
}

#[test]
fn kicks_and_bans_carry_a_reason() {
    assert_eq!(kick_reason(&None), "Kicked by AI Support Agent");
    assert_eq!(kick_reason(&Some("spam".to_string())), "spam");
    assert_eq!(ban_reason(&None), "Banned by AI Support Agent");
    assert_eq!(ban_reason(&Some("abuse".to_string())), "abuse");
}

#[test]
fn ban_entries_send_only_given_arguments_in_order() {
    let args = ban_entry_args(
        &Some("1.2.3.4".to_string()),
        &Some("abc=".to_string()),
        &None,
        &Some("spam".to_string()),
        Some(3600),
    );
    let pairs: Vec<(&str, &str)> = args.iter().map(|(k, v)| (k.as_str(), v.as_str())).collect();
    assert_eq!(pairs, vec![("ip", "1.2.3.4"), ("uid", "abc="), ("time", "3600"), ("banreason", "spam")]);
    let args = ban_entry_args(&None, &None, &Some("Troll".to_string()), &None, None);
    assert_eq!(args, vec![("name".to_string(), "Troll".to_string())]);
    assert!(ban_entry_args(&None, &None, &None, &None, None).is_empty());
}

#[test]
fn moving_the_bot_is_for_moderators_and_audited() {
    let cfg = BotConfig::default();
    let mv = BotAction::MoveBotChannel { channel_name: "Music".to_string() };
    assert!(matches!(gate_action(PermissionLevel::Moderator, &mv, "Mia", "u", &cfg), ActionGate::Run));
    assert!(matches!(gate_action(PermissionLevel::User, &mv, "Bob", "u", &cfg), ActionGate::Deny { .. }));
    let entry = audit_after(&mv, None, "Mia", "uid-m").unwrap();
    assert_eq!(entry.action, "MOVE_BOT_CHANNEL");
    assert_eq!(entry.target, Some("Music".to_string()));
    assert!(matches!(entry.result, AuditResult::Success));
    assert!(audit_after(&mv, Some("no such channel"), "Mia", "uid-m").is_none());
    let r = outcome_reply(&mv, Some("no such channel")).unwrap();
    assert_eq!(r.to, ReplyTo::Target);
    assert_eq!(r.text, "Sorry, I couldn't move to channel 'Music': no such channel");
    assert!(outcome_reply(&mv, None).is_none());
}
