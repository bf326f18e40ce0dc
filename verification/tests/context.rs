use ts3_ai_bot::context::{ChannelInfo, InvokerContext, MessageSource, ServerSnapshot, UserInfo};

fn alice() -> UserInfo {
    UserInfo {
        name: "Alice".to_string(),
        channel_name: "Lobby".to_string(),
        channel_id: 1,
        is_away: true,
        away_message: Some("brb".to_string()),
        input_muted: true,
        output_muted: false,
        is_recording: false,
        country_code: "SK".to_string(),
        is_priority_speaker: false,
        is_channel_commander: false,
        server_groups: vec!["Admin".to_string()],
        channel_group: "Guest".to_string(),
        database_id: 7,
        description: String::new(),
        platform: Some("Windows".to_string()),
        version: Some("3.6".to_string()),
        connections_total: Some(12),
        ping_text: Some("20.0".to_string()),
        idle_secs: Some(30),
        client_address: Some("1.2.3.4".to_string()),
        packetloss_text: Some("1.00".to_string()),
        connected_secs: Some(3720),
    }
}

fn plain_user(name: &str) -> UserInfo {
    UserInfo {
        name: name.to_string(),
        channel_name: "Temp".to_string(),
        channel_id: 2,
        is_away: true,
        away_message: Some(String::new()),
        input_muted: false,
        output_muted: true,
        is_recording: true,
        country_code: String::new(),
        is_priority_speaker: true,
        is_channel_commander: true,
        server_groups: Vec::new(),
        channel_group: "Group 8".to_string(),
        database_id: 9,
        description: "hi".to_string(),
        platform: None,
        version: None,
        connections_total: None,
        ping_text: None,
        idle_secs: None,
        client_address: None,
        packetloss_text: None,
        connected_secs: None,
    }
}

fn channel(id: u64, name: &str) -> ChannelInfo {
    ChannelInfo {
        id,
        name: name.to_string(),
        client_count: 0,
        is_permanent: false,
        topic: None,
        max_clients: None,
        has_password: false,
        needed_talk_power: None,
    }
}

fn snapshot(users: Vec<UserInfo>, channels: Vec<ChannelInfo>) -> ServerSnapshot {
    ServerSnapshot {
        server_name: "Srv".to_string(),
        bot_name: "Bot".to_string(),
        bot_channel: "Lobby".to_string(),
        bot_uid: "abc=".to_string(),
        platform: "Linux".to_string(),
        version: "3.13".to_string(),
        max_clients: 32,
        uptime_secs: Some(90061),
        connections_total: Some(5),
        packetloss_text: Some("0.50".to_string()),
        avg_ping_text: Some("12.5".to_string()),
        online_users: users,
        channel_tree: channels,
    }
}

#[test]
fn snapshot_text_for_admins_and_users() {
    let lobby = ChannelInfo {
        id: 1,
        name: "Lobby".to_string(),
        client_count: 2,
        is_permanent: true,
        topic: Some("Welcome".to_string()),
        max_clients: Some(50),
        has_password: true,
        needed_talk_power: Some(10),
    };
    let s = snapshot(vec![alice(), plain_user("Bob")], vec![lobby, channel(2, "Temp")]);
    let head = "=== SERVER STATE ===\nServer: Srv | Platform: Linux | Version: 3.13\nMax Clients: 32 | Online: 2 users\nBot: \"Bot\" (UID: abc=) in channel \"Lobby\"\nUptime: 1d 1h 1m | Total Connections: 5 | Avg Ping: 12.5ms | Packetloss: 0.50%\n\n=== ONLINE USERS ===\n";
    let alice_line = "- Alice (SK) [AFK: brb, mic-off] in \"Lobby\" (ID 1, DBID 7) | Windows | Groups: Admin | ChGroup: Guest | v3.6 | Connections: 12\n";
    let admin_line = "  ↳ [ADMIN] ping=20.0ms | idle=30s | ip=1.2.3.4 | packetloss=1.00% | online=1h2m\n";
    let bob_line = "- Bob [AFK, sound-off, RECORDING, priority, commander] in \"Temp\" (ID 2, DBID 9) | ChGroup: Group 8 | Desc: \"hi\"\n";
    let chans = "\n=== CHANNELS ===\n- \"Lobby\" (ID 1, 2 users, perm topic=\"Welcome\" max=50 🔒 tp=10)\n- \"Temp\" (ID 2, 0 users, temp)\n";
    assert_eq!(s.to_prompt_text(true), format!("{}{}{}{}{}", head, alice_line, admin_line, bob_line, chans));
    assert_eq!(s.to_prompt_text(false), format!("{}{}{}{}", head, alice_line, bob_line, chans));
}

#[test]
fn snapshot_caps_users_and_channels() {
    let users: Vec<UserInfo> = (0..33).map(|i| plain_user(&format!("U{}", i))).collect();
    let chans: Vec<ChannelInfo> = (0..45).map(|i| channel(i, &format!("C{}", i))).collect();
    let mut s = snapshot(users, chans);
    s.uptime_secs = Some(3_700);
    s.connections_total = None;
    s.avg_ping_text = None;
    s.packetloss_text = None;
    let t = s.to_prompt_text(false);
    assert!(t.contains("Online: 33 users\nBot: \"Bot\" (UID: abc=) in channel \"Lobby\"\nUptime: 1h 1m\n\n"));
    assert!(t.contains("- U29 "));
    assert!(!t.contains("- U30 "));
    assert!(t.contains("... and 3 more\n"));
    assert!(t.contains("\"C39\""));
    assert!(!t.contains("\"C40\""));
    assert!(t.ends_with("... and 5 more channels\n"));
}

#[test]
fn snapshot_without_statistics_has_no_stats_line() {
    let mut s = snapshot(Vec::new(), Vec::new());
    s.uptime_secs = None;
    s.connections_total = None;
    s.avg_ping_text = None;
    s.packetloss_text = None;
    assert_eq!(
        s.to_prompt_text(true),
        "=== SERVER STATE ===\nServer: Srv | Platform: Linux | Version: 3.13\nMax Clients: 32 | Online: 0 users\nBot: \"Bot\" (UID: abc=) in channel \"Lobby\"\n\n=== ONLINE USERS ===\n\n=== CHANNELS ===\n"
    );
}

#[test]
fn message_sources_as_text() {
    assert_eq!(MessageSource::Direct.to_text(), "Direct Message (private chat)");
    assert_eq!(
        MessageSource::Channel { channel_name: "Lobby".to_string() }.to_text(),
        "Channel message in \"Lobby\""
    );
    assert_eq!(MessageSource::Server.to_text(), "Server-wide message");
}

#[test]
fn invoker_text_full_and_minimal() {
    let full = InvokerContext {
        name: "Alice".to_string(),
        uid: "uid1=".to_string(),
        channel_name: "Lobby".to_string(),
        channel_id: 1,
        message_source: MessageSource::Channel { channel_name: "Lobby".to_string() },
        country_code: "SK".to_string(),
        server_groups: vec!["Admin".to_string(), "Gamer".to_string()],
        channel_group: "Guest".to_string(),
        is_away: true,
        away_message: None,
        input_muted: true,
        platform: Some("Linux".to_string()),
        description: "The boss".to_string(),
        database_id: 42,
    };
    assert_eq!(
        full.to_prompt_text(),
        "=== INVOKER ===\nName: Alice | UID: uid1= | DBID: 42 | Channel: \"Lobby\" (ID 1) | Country: SK | Platform: Linux | ChGroup: Guest\nMessage type: Channel message in \"Lobby\"\nServer Groups: Admin, Gamer\nDescription: The boss\nStatus: AFK, mic-off"
    );
    let minimal = InvokerContext {
        name: "Bob".to_string(),
        uid: "u2".to_string(),
        channel_name: "Temp".to_string(),
        channel_id: 2,
        message_source: MessageSource::Direct,
        country_code: String::new(),
        server_groups: Vec::new(),
        channel_group: String::new(),
        is_away: false,
        away_message: Some("x".to_string()),
        input_muted: false,
        platform: None,
        description: String::new(),
        database_id: 3,
    };
    assert_eq!(
        minimal.to_prompt_text(),
        "=== INVOKER ===\nName: Bob | UID: u2 | DBID: 3 | Channel: \"Temp\" (ID 2)\nMessage type: Direct Message (private chat)"
    );
}

#[test]
fn non_admin_view_hides_connection_details() {
    let mut other = alice();
    other.ping_text = Some("999.0".to_string());
    other.idle_secs = None;
    other.client_address = Some("9.9.9.9".to_string());
    other.packetloss_text = None;
    other.connected_secs = Some(5);
    let a = snapshot(vec![alice()], Vec::new());
    let b = snapshot(vec![other], Vec::new());
    assert_eq!(a.to_prompt_text(false), b.to_prompt_text(false));
    assert!(!a.to_prompt_text(false).contains("1.2.3.4"));
    assert_ne!(a.to_prompt_text(true), b.to_prompt_text(true));
}
