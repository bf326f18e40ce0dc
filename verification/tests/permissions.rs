use ts3_ai_bot::actions::BotAction;
use ts3_ai_bot::config::BotConfig;
use ts3_ai_bot::permissions::{can_execute, describe_level, get_permission_level, required_permission, PermissionLevel};

fn test_config() -> BotConfig {
    let mut cfg = BotConfig::default();
    cfg.admin_uids = vec!["admin_uid_1".into()];
    cfg.moderator_uids = vec!["mod_uid_1".into()];
    cfg
}

#[test]
fn test_admin_level() {
    let cfg = test_config();
    assert_eq!(get_permission_level("admin_uid_1", &cfg), PermissionLevel::Admin);
}

#[test]
fn test_moderator_level() {
    let cfg = test_config();
    assert_eq!(get_permission_level("mod_uid_1", &cfg), PermissionLevel::Moderator);
}

#[test]
fn test_user_level() {
    let cfg = test_config();
    assert_eq!(get_permission_level("random_uid", &cfg), PermissionLevel::User);
}

#[test]
fn test_admin_can_kick() {
    let cfg = test_config();
    let action = BotAction::KickClient { client_name: "victim".into(), reason: None };
    assert!(can_execute(PermissionLevel::Admin, &action, "Admin", &cfg).is_ok());
}

#[test]
fn test_user_cannot_kick() {
    let cfg = test_config();
    let action = BotAction::KickClient { client_name: "victim".into(), reason: None };
    assert!(can_execute(PermissionLevel::User, &action, "NormalUser", &cfg).is_err());
}

#[test]
fn test_moderator_can_move() {
    let cfg = test_config();
    let action = BotAction::MoveClient { client_name: "user".into(), channel_name: "lobby".into() };
    assert!(can_execute(PermissionLevel::Moderator, &action, "Mod", &cfg).is_ok());
}

#[test]
fn test_user_cannot_move() {
    let cfg = test_config();
    let action = BotAction::MoveClient { client_name: "someone".into(), channel_name: "lobby".into() };
    assert!(can_execute(PermissionLevel::User, &action, "NormalUser", &cfg).is_err());
}

#[test]
fn test_user_can_set_own_allowed_group() {
    let cfg = test_config();
    let action = BotAction::SetServerGroup { client_name: "Player".into(), server_group_id: 57 };
    assert!(can_execute(PermissionLevel::User, &action, "Player", &cfg).is_ok());
}

#[test]
fn test_user_cannot_set_other_group() {
    let cfg = test_config();
    let action = BotAction::SetServerGroup { client_name: "OtherGuy".into(), server_group_id: 57 };
    assert!(can_execute(PermissionLevel::User, &action, "Player", &cfg).is_err());
}

#[test]
fn test_user_cannot_set_disallowed_group() {
    let cfg = test_config();
    let action = BotAction::SetServerGroup { client_name: "Player".into(), server_group_id: 9999 };
    assert!(can_execute(PermissionLevel::User, &action, "Player", &cfg).is_err());
}

#[test]
fn own_group_name_matches_ignoring_case() {
    let cfg = test_config();
    let action = BotAction::SetServerGroup { client_name: "PLAYER".into(), server_group_id: 57 };
    assert!(can_execute(PermissionLevel::User, &action, "player", &cfg).is_ok());
}

#[test]
fn admin_may_do_everything() {
    let cfg = test_config();
    let action = BotAction::BanDelAll;
    assert!(can_execute(PermissionLevel::Admin, &action, "Root", &cfg).is_ok());
    assert!(can_execute(PermissionLevel::Moderator, &action, "Mod", &cfg).is_err());
    assert_eq!(required_permission(&action), PermissionLevel::Admin);
}

#[test]
fn levels_are_described() {
    assert!(!describe_level(PermissionLevel::User).is_empty());
    assert_ne!(describe_level(PermissionLevel::User), describe_level(PermissionLevel::Admin));
}
