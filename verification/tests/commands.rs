use ts3_ai_bot::commands::{
    add_radio, delete_radio, edit_radio, play_radio,
    build_memory_show_report, collect_recent_memory_entries, find_radio, identity_report, may_manage_channel,
    parse_command, parse_radio_args, parse_u64, parse_u8, permission_alert, radio_list, sanitize,
    server_groups_text, truncate_report_chars, volume_reply, BotCommand, RateLimiter,
};
use ts3_ai_bot::permissions::PermissionLevel;
use ts3_ai_bot::strmap::StrMap;

#[test]
fn rate_limiter_accepts_up_to_the_limit_per_second() {
    let mut rl = RateLimiter::new(2);
    assert!(rl.check_and_record(1_000));
    assert!(rl.check_and_record(1_100));
    assert!(!rl.check_and_record(1_200));
    // the first message is more than a second old by now
    assert!(rl.check_and_record(2_050));
    assert_eq!(rl.timestamps, vec![1_100, 2_050]);
}

#[test]
fn rate_limiter_with_zero_refuses_everything() {
    let mut rl = RateLimiter::new(0);
    assert!(!rl.check_and_record(5));
    assert!(rl.timestamps.is_empty());
}

#[test]
fn radio_args_quoted_and_plain() {
    assert_eq!(
        parse_radio_args("\"Radio One\"  http://a.b/stream "),
        Some(("Radio One".to_string(), "http://a.b/stream".to_string()))
    );
    assert_eq!(
        parse_radio_args("Jazz FM https://jazz.example/live"),
        Some(("Jazz FM".to_string(), "https://jazz.example/live".to_string()))
    );
    assert_eq!(parse_radio_args("\"Unclosed http://x"), None);
    assert_eq!(parse_radio_args("\"Name\"   "), None);
    assert_eq!(parse_radio_args("http://only.url"), None);
    assert_eq!(parse_radio_args("no url here"), None);
}

#[test]
fn sanitize_keeps_letters_digits_and_safe_symbols() {
    assert_eq!(sanitize("Hello, world! <script>;"), "Hello, world! script");
    assert_eq!(sanitize("Čaute_42 (ok)?"), "Čaute_42 (ok)?");
    assert_eq!(sanitize("a\u{7}b"), "ab");
}

#[test]
fn report_truncation_counts_characters() {
    assert_eq!(truncate_report_chars("ščťžý", 3), "ščť");
    assert_eq!(truncate_report_chars("abc", 10), "abc");
}

#[test]
fn small_number_parsing() {
    assert_eq!(parse_u8("42"), Some(42));
    assert_eq!(parse_u8("+7"), Some(7));
    assert_eq!(parse_u8("255"), Some(255));
    assert_eq!(parse_u8("256"), None);
    assert_eq!(parse_u8(""), None);
    assert_eq!(parse_u8("-1"), None);
    assert_eq!(parse_u8("4 2"), None);
    assert_eq!(parse_u64("18446744073709551615"), Some(u64::MAX));
    assert_eq!(parse_u64("18446744073709551616"), None);
    assert_eq!(parse_u64("0"), Some(0));
}

#[test]
fn commands_are_recognised_in_order() {
    assert!(matches!(parse_command("$ticket  new help me ", false),
        BotCommand::Ticket { content } if content == "new help me"));
    assert!(matches!(parse_command("$identity abc", true),
        BotCommand::Identity { content } if content == "abc"));
    assert!(matches!(parse_command("$identity abc", false), BotCommand::Other));
    assert!(matches!(parse_command("$memory show x", false),
        BotCommand::Refused { reply } if reply == "Only administrators can use `$memory`."));
    assert!(matches!(parse_command("$memory show x", true),
        BotCommand::Memory { content } if content == "show x"));
    assert!(matches!(parse_command("$play http://x", true),
        BotCommand::Play { url } if url == "http://x"));
    assert!(matches!(parse_command("$stop", false),
        BotCommand::Refused { reply } if reply == "Only administrators can use this command."));
    assert!(matches!(parse_command("$stop", true), BotCommand::Stop));
    assert!(matches!(parse_command("$vol 50", true), BotCommand::Volume { level: Some(50) }));
    assert!(matches!(parse_command("$vol", true), BotCommand::Volume { level: None }));
    assert!(matches!(parse_command("$vol 300", true), BotCommand::Volume { level: None }));
    assert!(matches!(parse_command("$radios", false), BotCommand::Radios));
    assert!(matches!(parse_command("$radio  Jazz ", true),
        BotCommand::Radio { name } if name == "Jazz"));
    assert!(matches!(parse_command("$addradio \"A B\" http://s", true),
        BotCommand::AddRadio { station: Some((n, u)) } if n == "A B" && u == "http://s"));
    assert!(matches!(parse_command("$addradio nothing", true), BotCommand::AddRadio { station: None }));
    assert!(matches!(parse_command("$delradio Jazz", true),
        BotCommand::DelRadio { name } if name == "Jazz"));
    assert!(matches!(parse_command("$editradio Jazz http://n", true),
        BotCommand::EditRadio { station: Some((n, u)) } if n == "Jazz" && u == "http://n"));
    assert!(matches!(parse_command("$ask what time is it", false),
        BotCommand::Ask { message } if message == "what time is it"));
    assert!(matches!(parse_command("$ask", false), BotCommand::Ask { message } if message.is_empty()));
    assert!(matches!(parse_command("$tts ON", true),
        BotCommand::Tts { message } if message == "$tts ON"));
    assert!(matches!(parse_command("hello bot", true), BotCommand::Other));
}

#[test]
fn server_groups_are_listed_with_ids() {
    let groups = vec![("Gamer".to_string(), 57u64), ("Music".to_string(), 58u64)];
    assert_eq!(server_groups_text(&groups), "Gamer=57, Music=58");
    assert_eq!(server_groups_text(&Vec::new()), "");
}

#[test]
fn memory_entries_newest_first_and_limited() {
    let days = vec![
        (
            "2024-05-02".to_string(),
            Some("- 10:00 Alice (uid1) likes jazz\n- 11:00 Bob (uid2) hi\n- 12:00 Alice (uid1) prefers tea\n".to_string()),
        ),
        ("2024-05-01".to_string(), None),
        ("2024-04-30".to_string(), Some("- 09:00 Alice (uid1) first note".to_string())),
    ];
    let all = collect_recent_memory_entries(&days, " uid1 ", 10);
    assert_eq!(
        all,
        vec![
            "2024-05-02 | 12:00 Alice (uid1) prefers tea".to_string(),
            "2024-05-02 | 10:00 Alice (uid1) likes jazz".to_string(),
            "2024-04-30 | 09:00 Alice (uid1) first note".to_string(),
        ]
    );
    let two = collect_recent_memory_entries(&days, "uid1", 2);
    assert_eq!(two.len(), 2);
    assert!(collect_recent_memory_entries(&days, "uid1", 0).is_empty());
    assert!(collect_recent_memory_entries(&days, "nobody", 5).is_empty());
}

#[test]
fn memory_report_shapes() {
    assert_eq!(build_memory_show_report("  ", "p", None, &Vec::new()), "UID is empty. Usage: `$memory show <uid>`");
    let r = build_memory_show_report(" u1 ", "/w/users/u1/USER.md", None, &Vec::new());
    assert_eq!(
        r,
        "🧠 MEMORY REPORT\nUID: u1\nUSER.md not found at path: /w/users/u1/USER.md\n\n\n=== Recent memory entries ===\n(no auto-learning entries for this UID in the last 7 days)"
    );
    let r = build_memory_show_report("u1", "f", Some("hello"), &vec!["d | e".to_string()]);
    assert_eq!(
        r,
        "🧠 MEMORY REPORT\nUID: u1\nUSER.md: f\n\n=== USER.md ===\nhello\n\n=== Recent memory entries ===\n- d | e\n"
    );
    let long = "x".repeat(5001);
    let r = build_memory_show_report("u1", "f", Some(&long), &Vec::new());
    assert!(r.contains("[USER.md TRUNCATED]"));
    assert!(!r.contains(&"x".repeat(5001)));
}

#[test]
fn identity_reports() {
    assert_eq!(identity_report("", None), "Usage: `$identity <uid>`");
    assert_eq!(identity_report("u9", None), "No records found for UID: u9");
    assert_eq!(
        identity_report("u9", Some(vec!["Old".to_string(), "New".to_string()])),
        "Identity for UID: u9\n\nName history:\n`UID -> Old -> New`"
    );
}

#[test]
fn volume_replies() {
    assert_eq!(volume_reply(Some(40), 80), "Volume set to 40%.");
    assert_eq!(volume_reply(None, 80), "Current volume: 80%. Use `$vol [0-100]` to change it.");
}

#[test]
fn permission_alert_text() {
    assert_eq!(
        permission_alert("Eve", PermissionLevel::User, "KICK_CLIENT"),
        "WARNING: User [b]Eve[/b] (User) attempted action [b]KICK_CLIENT[/b] without sufficient permissions."
    );
}

#[test]
fn channel_management_rule() {
    assert!(may_manage_channel(true, false, false));
    assert!(may_manage_channel(false, true, true));
    assert!(!may_manage_channel(false, false, true));
    assert!(!may_manage_channel(false, true, false));
}

#[test]
fn radio_lookup_ignores_case() {
    let mut m = StrMap::new();
    m.insert("Jazz FM".to_string(), "http://jazz".to_string());
    m.insert("Rock".to_string(), "http://rock".to_string());
    assert_eq!(find_radio(&m, "jazz fm"), Some(("Jazz FM".to_string(), "http://jazz".to_string())));
    assert_eq!(find_radio(&m, "ROCK"), Some(("Rock".to_string(), "http://rock".to_string())));
    assert_eq!(find_radio(&m, "pop"), None);
    assert_eq!(radio_list(&m), "Radio stations:\n  • Jazz FM\n  • Rock\n\nUse: `$radio name` to play.");
    assert_eq!(
        radio_list(&StrMap::new()),
        "No saved radio stations. Admin can add one with `$addradio name url`."
    );
}

#[test]
fn radio_station_management() {
    let r = add_radio(StrMap::new(), Some(("Jazz FM".to_string(), "http://jazz".to_string())));
    assert!(r.changed);
    assert_eq!(r.reply, "Radio 'Jazz FM' added with URL: http://jazz");
    let r = add_radio(r.stations, Some(("Rock".to_string(), "http://rock".to_string())));
    let m = r.stations;
    assert_eq!(play_radio(&m, "jazz fm"), ("Playing radio: Jazz FM".to_string(), Some("http://jazz".to_string())));
    assert_eq!(
        play_radio(&m, "pop"),
        ("Radio 'pop' does not exist.\nAvailable stations: Jazz FM, Rock".to_string(), None)
    );
    let bad = add_radio(m, None);
    assert!(!bad.changed);
    assert_eq!(bad.reply, "Format: `$addradio \"Station Name\" https://link`");
    let e = edit_radio(bad.stations, Some(("ROCK".to_string(), "http://rock2".to_string())));
    assert!(e.changed);
    assert_eq!(e.reply, "Radio 'Rock' updated with URL: http://rock2");
    assert_eq!(e.stations.get("Rock"), Some("http://rock2".to_string()));
    let e2 = edit_radio(e.stations, Some(("Pop".to_string(), "http://p".to_string())));
    assert!(!e2.changed);
    assert_eq!(e2.reply, "Radio 'Pop' does not exist. Use `$addradio` to add it.");
    let d = delete_radio(e2.stations, "jazz FM");
    assert!(d.changed);
    assert_eq!(d.reply, "Radio 'Jazz FM' removed.");
    assert_eq!(d.stations.len(), 1);
    let d2 = delete_radio(d.stations, "Jazz FM");
    assert!(!d2.changed);
    assert_eq!(d2.reply, "Radio 'Jazz FM' does not exist.");
}
