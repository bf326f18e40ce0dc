use ts3_ai_bot::config::{default_allowed_server_groups, BotConfig, EnvOverrides};

fn no_env() -> EnvOverrides {
    EnvOverrides {
        ai_api_key: None,
        fallback_api_key: None,
        server_address: None,
        channel: None,
        ffmpeg_path: None,
        yt_dlp_path: None,
    }
}

#[test]
fn defaults_match_the_documented_values() {
    let c = BotConfig::default();
    assert_eq!(c.server_address, "localhost");
    assert_eq!(c.bot_name, "AI Support Agent");
    assert_eq!(c.channel, None);
    assert_eq!(c.key_file, "identity.key");
    assert_eq!(c.rate_limit, 2);
    assert_eq!(c.ai_timeout_secs, 60);
    assert_eq!(c.default_model, "kimi-k2.5:cloud");
    assert_eq!(c.fallback_model, "minimax-m2.5:cloud");
    assert_eq!(c.prompt_file_max_chars, 6000);
    assert_eq!(c.prompt_total_max_chars, 24000);
    assert!(c.auto_learning_enabled);
    assert_eq!(c.auto_learning_note_limit, 12);
    assert_eq!(c.channel_order_anchor_id, Some(328));
    assert_eq!(c.code_output_channel_id, 51494);
    assert_eq!(c.music_start_volume, 5);
    assert_eq!(c.tickets_file, "tickets.json");
    assert_eq!(c.yt_dlp_binary_path, "yt-dlp");
    assert!(c.admin_uids.is_empty());
}

#[test]
fn default_groups_list() {
    let g = default_allowed_server_groups();
    assert_eq!(g.len(), 17);
    assert_eq!(g[0], ("CS 1.6".to_string(), 56));
    assert_eq!(g[1], ("CS:2".to_string(), 57));
    assert_eq!(g[16], ("Faceit".to_string(), 168));
}

#[test]
fn environment_overrides_only_when_not_blank() {
    let mut env = no_env();
    env.ai_api_key = Some("sk-env".to_string());
    env.fallback_api_key = Some("   ".to_string());
    env.server_address = Some("ts.example.org".to_string());
    env.channel = Some("Support".to_string());
    env.ffmpeg_path = Some("/usr/bin/ffmpeg".to_string());
    let c = BotConfig::default().apply_env_overrides(&env);
    assert_eq!(c.ai_api_key, "sk-env");
    assert_eq!(c.fallback_api_key, "");
    assert_eq!(c.server_address, "ts.example.org");
    assert_eq!(c.channel, Some("Support".to_string()));
    assert_eq!(c.ffmpeg_binary_path, "/usr/bin/ffmpeg");
    assert_eq!(c.yt_dlp_binary_path, "yt-dlp");
    assert_eq!(c.bot_name, "AI Support Agent");

    let mut blank = no_env();
    blank.channel = Some(" ".to_string());
    let c = BotConfig::default().apply_env_overrides(&blank);
    assert_eq!(c.channel, None);
    assert_eq!(c.server_address, "localhost");
}
