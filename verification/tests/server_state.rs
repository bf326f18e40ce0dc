use ts3_ai_bot::context::MessageSource;
use ts3_ai_bot::server_state::{
    channel_tree, group_names, invoker_from_state, snapshot_from_state, ChannelState, ClientExtras, ClientLimit,
    ClientState, ConnectionStats, GroupName, MessageTargetKind, ServerState, ServerStats,
};

fn client(id: u16, name: &str, channel: u64) -> ClientState {
    ClientState {
        id,
        name: name.to_string(),
        channel,
        uid: None,
        away_message: None,
        input_muted: false,
        output_muted: false,
        is_recording: false,
        country_code: "DE".to_string(),
        is_priority_speaker: false,
        is_channel_commander: false,
        server_groups: Vec::new(),
        channel_group: 8,
        database_id: 100 + id as u64,
        description: String::new(),
        extras: None,
        connection: None,
    }
}

fn channel(id: u64, name: &str) -> ChannelState {
    ChannelState {
        id,
        name: name.to_string(),
        is_permanent: true,
        topic: None,
        max_clients: None,
        has_password: None,
        needed_talk_power: None,
    }
}

fn group(id: u64, name: &str) -> GroupName {
    GroupName { id, name: name.to_string() }
}

fn server() -> ServerState {
    let mut bot = client(1, "Bot", 5);
    bot.uid = Some(vec![1, 2, 3]);
    let mut ana = client(2, "Ana", 3);
    ana.server_groups = vec![6, 99, 7];
    ana.away_message = Some("lunch".to_string());
    ana.extras = Some(ClientExtras { platform: "Linux".to_string(), version: "3.6".to_string(), connections_total: 12 });
    ana.connection = Some(ConnectionStats {
        ping_text: Some("23.5".to_string()),
        idle_secs: 40,
        client_address: Some("10.0.0.2:9987".to_string()),
        packetloss_text: None,
        connected_secs: Some(600),
    });
    let mut ben = client(3, "Ben", 77);
    ben.channel_group = 9;
    let mut lobby = channel(5, "Lobby");
    lobby.topic = Some(String::new());
    lobby.needed_talk_power = Some(0);
    lobby.has_password = Some(true);
    let mut games = channel(3, "Games");
    games.topic = Some("play".to_string());
    games.max_clients = Some(ClientLimit::Limited(10));
    games.needed_talk_power = Some(25);
    let mut afk = channel(4, "AFK");
    afk.max_clients = Some(ClientLimit::Unlimited);
    afk.is_permanent = false;
    ServerState {
        own_client: 1,
        name: "Home".to_string(),
        platform: "Linux".to_string(),
        version: "3.13".to_string(),
        max_clients: 32,
        stats: Some(ServerStats {
            uptime_secs: 3600,
            connections_total: 50,
            packetloss_text: "0.25".to_string(),
            avg_ping_text: "12.0".to_string(),
        }),
        clients: vec![bot, ana, ben],
        channels: vec![lobby, games, afk],
        server_groups: vec![group(6, "Admin"), group(7, "Member")],
        channel_groups: vec![group(8, "Guest")],
    }
}

#[test]
fn snapshot_needs_the_bot_itself() {
    let mut s = server();
    s.own_client = 42;
    assert!(snapshot_from_state(&s).is_none());
}

#[test]
fn snapshot_describes_the_bot_and_server() {
    let snap = snapshot_from_state(&server()).unwrap();
    assert_eq!(snap.server_name, "Home");
    assert_eq!(snap.bot_name, "Bot");
    assert_eq!(snap.bot_channel, "Lobby");
    assert_eq!(snap.bot_uid, "AQID");
    assert_eq!(snap.max_clients, 32);
    assert_eq!(snap.uptime_secs, Some(3600));
    assert_eq!(snap.connections_total, Some(50));
    assert_eq!(snap.packetloss_text.as_deref(), Some("0.25"));
    assert_eq!(snap.avg_ping_text.as_deref(), Some("12.0"));
}

#[test]
fn bot_channel_falls_back_to_its_id() {
    let mut s = server();
    s.clients[0].channel = 42;
    s.clients[0].uid = None;
    let snap = snapshot_from_state(&s).unwrap();
    assert_eq!(snap.bot_channel, "(ID 42)");
    assert_eq!(snap.bot_uid, "");
}

#[test]
fn online_users_skip_the_bot() {
    let snap = snapshot_from_state(&server()).unwrap();
    let names: Vec<&str> = snap.online_users.iter().map(|u| u.name.as_str()).collect();
    assert_eq!(names, vec!["Ana", "Ben"]);
    let ana = &snap.online_users[0];
    assert_eq!(ana.channel_name, "Games");
    assert_eq!(ana.server_groups, vec!["Admin".to_string(), "Member".to_string()]);
    assert_eq!(ana.channel_group, "Guest");
    assert!(ana.is_away);
    assert_eq!(ana.away_message.as_deref(), Some("lunch"));
    assert_eq!(ana.platform.as_deref(), Some("Linux"));
    assert_eq!(ana.version.as_deref(), Some("3.6"));
    assert_eq!(ana.connections_total, Some(12));
    assert_eq!(ana.ping_text.as_deref(), Some("23.5"));
    assert_eq!(ana.idle_secs, Some(40));
    assert_eq!(ana.client_address.as_deref(), Some("10.0.0.2:9987"));
    assert_eq!(ana.packetloss_text, None);
    assert_eq!(ana.connected_secs, Some(600));
    let ben = &snap.online_users[1];
    assert_eq!(ben.channel_name, "?");
    assert_eq!(ben.channel_group, "Group 9");
    assert_eq!(ben.platform, None);
    assert_eq!(ben.idle_secs, None);
    assert_eq!(ben.database_id, 103);
}

#[test]
fn channel_tree_is_sorted_by_id_with_counts() {
    let snap = snapshot_from_state(&server()).unwrap();
    let ids: Vec<u64> = snap.channel_tree.iter().map(|c| c.id).collect();
    assert_eq!(ids, vec![3, 4, 5]);
    let games = &snap.channel_tree[0];
    assert_eq!(games.name, "Games");
    assert_eq!(games.client_count, 1);
    assert_eq!(games.topic.as_deref(), Some("play"));
    assert_eq!(games.max_clients, Some(10));
    assert_eq!(games.needed_talk_power, Some(25));
    assert!(!games.has_password);
    let afk = &snap.channel_tree[1];
    assert_eq!(afk.client_count, 0);
    assert_eq!(afk.max_clients, None);
    assert!(!afk.is_permanent);
    let lobby = &snap.channel_tree[2];
    assert_eq!(lobby.client_count, 1);
    assert_eq!(lobby.topic, None);
    assert_eq!(lobby.needed_talk_power, None);
    assert!(lobby.has_password);
}

#[test]
fn channel_tree_keeps_listed_order_for_equal_ids() {
    let chs = vec![channel(9, "b"), channel(2, "x"), channel(9, "a"), channel(1, "y"), channel(2, "z")];
    let tree = channel_tree(&chs, &Vec::new());
    let names: Vec<&str> = tree.iter().map(|c| c.name.as_str()).collect();
    assert_eq!(names, vec!["y", "x", "z", "b", "a"]);
}

#[test]
fn unknown_groups_are_skipped() {
    let groups = vec![group(1, "One"), group(2, "Two"), group(1, "Shadow")];
    assert_eq!(group_names(&vec![2, 5, 1], &groups), vec!["Two".to_string(), "One".to_string()]);
    assert!(group_names(&vec![5], &groups).is_empty());
}

#[test]
fn invoker_in_a_channel() {
    let s = Some(server());
    let ctx = invoker_from_state(&s, 2, "Ana", "uid-ana", MessageTargetKind::Channel);
    assert_eq!(ctx.name, "Ana");
    assert_eq!(ctx.uid, "uid-ana");
    assert_eq!(ctx.channel_name, "Games");
    assert_eq!(ctx.channel_id, 3);
    assert_eq!(ctx.server_groups, vec!["Admin".to_string(), "Member".to_string()]);
    assert_eq!(ctx.channel_group, "Guest");
    assert!(ctx.is_away);
    assert_eq!(ctx.platform.as_deref(), Some("Linux"));
    assert_eq!(ctx.database_id, 102);
    assert!(matches!(ctx.message_source, MessageSource::Channel { ref channel_name } if channel_name == "Games"));
}

#[test]
fn invoker_sources_follow_the_target() {
    let s = Some(server());
    let ctx = invoker_from_state(&s, 3, "Ben", "u", MessageTargetKind::Server);
    assert!(matches!(ctx.message_source, MessageSource::Server));
    assert_eq!(ctx.channel_name, "");
    assert_eq!(ctx.channel_group, "");
    let ctx = invoker_from_state(&s, 3, "Ben", "u", MessageTargetKind::Client);
    assert!(matches!(ctx.message_source, MessageSource::Direct));
    let ctx = invoker_from_state(&s, 3, "Ben", "u", MessageTargetKind::Poke);
    assert!(matches!(ctx.message_source, MessageSource::Direct));
}

#[test]
fn unknown_invoker_keeps_defaults() {
    let ctx = invoker_from_state(&None, 2, "Ana", "u", MessageTargetKind::Channel);
    assert_eq!(ctx.channel_name, "");
    assert_eq!(ctx.channel_id, 0);
    assert!(ctx.server_groups.is_empty());
    assert!(!ctx.is_away);
    assert_eq!(ctx.database_id, 0);
    assert!(matches!(ctx.message_source, MessageSource::Channel { ref channel_name } if channel_name.is_empty()));
    let ctx = invoker_from_state(&Some(server()), 9, "Zed", "u", MessageTargetKind::Client);
    assert_eq!(ctx.country_code, "");
    assert_eq!(ctx.platform, None);
}
