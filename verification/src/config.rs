//! Bot configuration and its defaults.
use vstd::prelude::*;

verus! {

/// Bot configuration. Self-assignable server groups are kept as `(name, id)`
/// pairs with distinct names.
pub struct BotConfig {
    pub server_address: String,
    pub bot_name: String,
    pub channel: Option<String>,
    pub key_file: String,
    pub disconnect_message: String,
    pub rate_limit: u8,
    pub ai_api_url: String,
    pub ai_api_key: String,
    pub default_model: String,
    pub fallback_api_url: String,
    pub fallback_api_key: String,
    pub fallback_model: String,
    pub ai_timeout_secs: u64,
    pub admin_uids: Vec<String>,
    pub moderator_uids: Vec<String>,
    pub audit_log_file: String,
    pub allowed_server_groups: Vec<(String, u64)>,
    pub prompt_workspace_dir: String,
    pub prompt_file_max_chars: usize,
    pub prompt_total_max_chars: usize,
    pub auto_learning_enabled: bool,
    pub auto_learning_note_limit: usize,
    pub tickets_file: String,
    pub identities_file: String,
    pub radios_file: String,
    pub channel_admin_group_id: u64,
    pub channel_order_anchor_id: Option<u64>,
    pub code_output_channel_id: u64,
    pub piper_binary_path: String,
    pub piper_voice_dir: String,
    pub ffmpeg_binary_path: String,
    pub yt_dlp_binary_path: String,
    pub music_start_volume: u8,
}

/// The views of a list of strings.
pub open spec fn views(v: Seq<String>) -> Seq<Seq<char>> {
    v.map_values(|s: String| s@)
}

/// The ids of the self-assignable server groups.
pub open spec fn group_ids(v: Seq<(String, u64)>) -> Seq<u64> {
    v.map_values(|g: (String, u64)| g.1)
}

/// The names of the self-assignable server groups.
pub open spec fn group_names(v: Seq<(String, u64)>) -> Seq<Seq<char>> {
    v.map_values(|g: (String, u64)| g.0@)
}

impl BotConfig {
    /// No group name occurs twice, as in the map the configuration file holds.
    pub open spec fn wf(&self) -> bool {
        group_names(self.allowed_server_groups@).no_duplicates()
    }
}
/// TeamSpeak 3 server address.
pub fn default_address() -> (r: String)
    ensures
        r@ == "localhost"@,
{
    "localhost".to_owned()
}
/// Bot display name.
pub fn default_bot_name() -> (r: String)
    ensures
        r@ == "AI Support Agent"@,
{
    "AI Support Agent".to_owned()
}
/// Identity key file.
pub fn default_key_file() -> (r: String)
    ensures
        r@ == "identity.key"@,
{
    "identity.key".to_owned()
}
/// Disconnect message.
pub fn default_disconnect_message() -> (r: String)
    ensures
        r@ == "AI Support Agent shutting down. Goodbye!"@,
{
    "AI Support Agent shutting down. Goodbye!".to_owned()
}
/// Responses allowed per second.
pub fn default_rate_limit() -> (r: u8)
    ensures
        r == 2,
{
    2
}
/// Primary chat-completions endpoint.
pub fn default_ai_api_url() -> (r: String)
    ensures
        r@ == "https://integrate.api.nvidia.com/v1/chat/completions"@,
{
    "https://integrate.api.nvidia.com/v1/chat/completions".to_owned()
}
/// Primary API key (empty: none).
pub fn default_ai_api_key() -> (r: String)
    ensures
        r@ == ""@,
{
    "".to_owned()
}
/// Primary model.
pub fn default_model() -> (r: String)
    ensures
        r@ == "kimi-k2.5:cloud"@,
{
    "kimi-k2.5:cloud".to_owned()
}
/// Fallback endpoint.
pub fn default_fallback_api_url() -> (r: String)
    ensures
        r@ == "http://localhost:11434/v1/chat/completions"@,
{
    "http://localhost:11434/v1/chat/completions".to_owned()
}
/// Fallback API key (empty: none).
pub fn default_fallback_api_key() -> (r: String)
    ensures
        r@ == ""@,
{
    "".to_owned()
}
/// Fallback model.
pub fn default_fallback_model() -> (r: String)
    ensures
        r@ == "minimax-m2.5:cloud"@,
{
    "minimax-m2.5:cloud".to_owned()
}
/// Request timeout in seconds.
pub fn default_ai_timeout() -> (r: u64)
    ensures
        r == 60,
{
    60
}
/// Audit log path.
pub fn default_audit_log_file() -> (r: String)
    ensures
        r@ == "audit.log"@,
{
    "audit.log".to_owned()
}
/// Prompt workspace directory.
pub fn default_prompt_workspace_dir() -> (r: String)
    ensures
        r@ == "workspace"@,
{
    "workspace".to_owned()
}
/// Characters loaded per workspace file.
pub fn default_prompt_file_max_chars() -> (r: usize)
    ensures
        r == 6000,
{
    6000
}
/// Characters loaded from all workspace files.
pub fn default_prompt_total_max_chars() -> (r: usize)
    ensures
        r == 24000,
{
    24000
}
/// Profile learning switch.
pub fn default_auto_learning_enabled() -> (r: bool)
    ensures
        r == true,
{
    true
}
/// Notes kept per profile.
pub fn default_auto_learning_note_limit() -> (r: usize)
    ensures
        r == 12,
{
    12
}
/// Ticket store path.
pub fn default_tickets_file() -> (r: String)
    ensures
        r@ == "tickets.json"@,
{
    "tickets.json".to_owned()
}
/// Identity store path.
pub fn default_identities_file() -> (r: String)
    ensures
        r@ == "identities.json"@,
{
    "identities.json".to_owned()
}
/// Radio list path.
pub fn default_radios_file() -> (r: String)
    ensures
        r@ == "radios.json"@,
{
    "radios.json".to_owned()
}
/// Channel group granting Channel Admin.
pub fn default_channel_admin_group_id() -> (r: u64)
    ensures
        r == 24,
{
    24
}
/// Channel whose description takes long admin output.
pub fn default_code_output_channel_id() -> (r: u64)
    ensures
        r == 51494,
{
    51494
}
/// Piper binary.
pub fn default_piper_binary_path() -> (r: String)
    ensures
        r@ == "piper/piper/piper"@,
{
    "piper/piper/piper".to_owned()
}
/// Piper voice directory.
pub fn default_piper_voice_dir() -> (r: String)
    ensures
        r@ == "piper/voices"@,
{
    "piper/voices".to_owned()
}
/// ffmpeg binary.
pub fn default_ffmpeg_binary_path() -> (r: String)
    ensures
        r@ == "ffmpeg"@,
{
    "ffmpeg".to_owned()
}
/// yt-dlp binary.
pub fn default_yt_dlp_binary_path() -> (r: String)
    ensures
        r@ == "yt-dlp"@,
{
    "yt-dlp".to_owned()
}
/// Initial music volume.
pub fn default_music_start_volume() -> (r: u8)
    ensures
        r == 5,
{
    5
}
/// No administrators by default.
pub fn default_admin_uids() -> (r: Vec<String>)
    ensures
        r@.len() == 0,
{
    Vec::new()
}

/// No moderators by default.
pub fn default_moderator_uids() -> (r: Vec<String>)
    ensures
        r@.len() == 0,
{
    Vec::new()
}

/// New channels are placed above channel 328 by default.
pub fn default_channel_order_anchor_id() -> (r: Option<u64>)
    ensures
        r == Some(328u64),
{
    Some(328)
}

/// The game badges a user may assign to themselves.
pub open spec fn default_group_table() -> Seq<(Seq<char>, u64)> {
    seq![("CS 1.6"@, 56u64), ("CS:2"@, 57u64), ("Valorant"@, 180u64), ("LOL"@, 58u64), ("DOTA"@, 62u64), ("FORTNITE"@, 60u64), ("Minecraft"@, 112u64), ("PUBG"@, 61u64), ("AMONG US"@, 346u64), ("BEBO"@, 471u64), ("PAYDAY"@, 162u64), ("RageMP"@, 835u64), ("SAMP"@, 67u64), ("WOT"@, 69u64), ("ZULA"@, 59u64), ("Esea"@, 176u64), ("Faceit"@, 168u64)
    ]
}

fn push_group(v: &mut Vec<(String, u64)>, name: &str, id: u64)
    ensures
        final(v)@.len() == old(v)@.len() + 1,
        forall|i: int| 0 <= i < old(v)@.len() ==> final(v)@[i] == old(v)@[i],
        final(v)@.last().0@ == name@,
        final(v)@.last().1 == id,
{
    v.push((name.to_owned(), id));
}

/// The default self-assignable server groups.
pub fn default_allowed_server_groups() -> (r: Vec<(String, u64)>)
    ensures
        r@.len() == default_group_table().len(),
        forall|i: int|
            0 <= i < r@.len() ==> r@[i].0@ == (#[trigger] default_group_table()[i]).0 && r@[i].1
                == default_group_table()[i].1,
{
    let mut v: Vec<(String, u64)> = Vec::new();
    push_group(&mut v, "CS 1.6", 56);
    push_group(&mut v, "CS:2", 57);
    push_group(&mut v, "Valorant", 180);
    push_group(&mut v, "LOL", 58);
    push_group(&mut v, "DOTA", 62);
    push_group(&mut v, "FORTNITE", 60);
    push_group(&mut v, "Minecraft", 112);
    push_group(&mut v, "PUBG", 61);
    push_group(&mut v, "AMONG US", 346);
    push_group(&mut v, "BEBO", 471);
    push_group(&mut v, "PAYDAY", 162);
    push_group(&mut v, "RageMP", 835);
    push_group(&mut v, "SAMP", 67);
    push_group(&mut v, "WOT", 69);
    push_group(&mut v, "ZULA", 59);
    push_group(&mut v, "Esea", 176);
    push_group(&mut v, "Faceit", 168);
    v
}

impl Default for BotConfig {
    fn default() -> (r: Self)
        ensures
            r.admin_uids@.len() == 0,
            r.moderator_uids@.len() == 0,
            r.channel is None,
            r.rate_limit == 2,
            r.ai_timeout_secs == 60,
            r.channel_admin_group_id == 24,
            r.channel_order_anchor_id == Some(328u64),
            r.code_output_channel_id == 51494,
            r.prompt_file_max_chars == 6000,
            r.prompt_total_max_chars == 24000,
            r.auto_learning_enabled,
            r.auto_learning_note_limit == 12,
            r.music_start_volume == 5,
            r.allowed_server_groups@.len() == default_group_table().len(),
            forall|i: int|
                0 <= i < r.allowed_server_groups@.len() ==> r.allowed_server_groups@[i].0@ == (
                #[trigger] default_group_table()[i]).0 && r.allowed_server_groups@[i].1
                    == default_group_table()[i].1,
            r.server_address@ == "localhost"@,
            r.bot_name@ == "AI Support Agent"@,
            r.default_model@ == "kimi-k2.5:cloud"@,
            r.fallback_model@ == "minimax-m2.5:cloud"@,
            r.ai_api_key@ == ""@,
            r.fallback_api_key@ == ""@,
            r.key_file@ == "identity.key"@,
            r.disconnect_message@ == "AI Support Agent shutting down. Goodbye!"@,
            r.ai_api_url@ == "https://integrate.api.nvidia.com/v1/chat/completions"@,
            r.fallback_api_url@ == "http://localhost:11434/v1/chat/completions"@,
            r.audit_log_file@ == "audit.log"@,
            r.prompt_workspace_dir@ == "workspace"@,
            r.tickets_file@ == "tickets.json"@,
            r.identities_file@ == "identities.json"@,
            r.radios_file@ == "radios.json"@,
            r.piper_binary_path@ == "piper/piper/piper"@,
            r.piper_voice_dir@ == "piper/voices"@,
            r.ffmpeg_binary_path@ == "ffmpeg"@,
            r.yt_dlp_binary_path@ == "yt-dlp"@,
    {
        BotConfig {
            server_address: default_address(),
            bot_name: default_bot_name(),
            channel: None,
            key_file: default_key_file(),
            disconnect_message: default_disconnect_message(),
            rate_limit: default_rate_limit(),
            ai_api_url: default_ai_api_url(),
            ai_api_key: default_ai_api_key(),
            default_model: default_model(),
            fallback_api_url: default_fallback_api_url(),
            fallback_api_key: default_fallback_api_key(),
            fallback_model: default_fallback_model(),
            ai_timeout_secs: default_ai_timeout(),
            admin_uids: default_admin_uids(),
            moderator_uids: default_moderator_uids(),
            audit_log_file: default_audit_log_file(),
            allowed_server_groups: default_allowed_server_groups(),
            prompt_workspace_dir: default_prompt_workspace_dir(),
            prompt_file_max_chars: default_prompt_file_max_chars(),
            prompt_total_max_chars: default_prompt_total_max_chars(),
            auto_learning_enabled: default_auto_learning_enabled(),
            auto_learning_note_limit: default_auto_learning_note_limit(),
            tickets_file: default_tickets_file(),
            identities_file: default_identities_file(),
            radios_file: default_radios_file(),
            channel_admin_group_id: default_channel_admin_group_id(),
            channel_order_anchor_id: default_channel_order_anchor_id(),
            code_output_channel_id: default_code_output_channel_id(),
            piper_binary_path: default_piper_binary_path(),
            piper_voice_dir: default_piper_voice_dir(),
            ffmpeg_binary_path: default_ffmpeg_binary_path(),
            yt_dlp_binary_path: default_yt_dlp_binary_path(),
            music_start_volume: default_music_start_volume(),
        }
    }
}

/// Values read from the environment that override the configuration file;
/// `None` where the variable is unset.
pub struct EnvOverrides {
    pub ai_api_key: Option<String>,
    pub fallback_api_key: Option<String>,
    pub server_address: Option<String>,
    pub channel: Option<String>,
    pub ffmpeg_path: Option<String>,
    pub yt_dlp_path: Option<String>,
}

/// The override when it is set and not blank, else the current value.
pub open spec fn overridden(current: Seq<char>, value: Option<String>) -> Seq<char> {
    match value {
        Some(v) => if crate::text::trim(v@).len() > 0 {
            v@
        } else {
            current
        },
        None => current,
    }
}

fn override_value(current: String, value: &Option<String>) -> (r: String)
    ensures
        r@ == overridden(current@, *value),
{
    match value {
        Some(v) => {
            let t = crate::text::trim_str(v.as_str());
            if crate::text::str_nonempty(t.as_str()) {
                v.clone()
            } else {
                current
            }
        },
        None => current,
    }
}

impl BotConfig {
    /// The configuration with the environment's overrides applied: each one
    /// that is set and not blank replaces its setting.
    pub fn apply_env_overrides(self, env: &EnvOverrides) -> (r: BotConfig)
        ensures
            r.ai_api_key@ == overridden(self.ai_api_key@, env.ai_api_key),
            r.fallback_api_key@ == overridden(self.fallback_api_key@, env.fallback_api_key),
            r.server_address@ == overridden(self.server_address@, env.server_address),
            crate::actions::opt_view(r.channel) == (match env.channel {
                Some(v) => if crate::text::trim(v@).len() > 0 {
                    Some(v@)
                } else {
                    crate::actions::opt_view(self.channel)
                },
                None => crate::actions::opt_view(self.channel),
            }),
            r.ffmpeg_binary_path@ == overridden(self.ffmpeg_binary_path@, env.ffmpeg_path),
            r.yt_dlp_binary_path@ == overridden(self.yt_dlp_binary_path@, env.yt_dlp_path),
            r == (BotConfig {
                ai_api_key: r.ai_api_key,
                fallback_api_key: r.fallback_api_key,
                server_address: r.server_address,
                channel: r.channel,
                ffmpeg_binary_path: r.ffmpeg_binary_path,
                yt_dlp_binary_path: r.yt_dlp_binary_path,
                ..self
            }),
    {
        let mut config = self;
        config.ai_api_key = override_value(config.ai_api_key, &env.ai_api_key);
        config.fallback_api_key = override_value(config.fallback_api_key, &env.fallback_api_key);
        config.server_address = override_value(config.server_address, &env.server_address);
        match &env.channel {
            Some(v) => {
                let t = crate::text::trim_str(v.as_str());
                if crate::text::str_nonempty(t.as_str()) {
                    config.channel = Some(v.clone());
                }
            },
            None => {},
        }
        config.ffmpeg_binary_path = override_value(config.ffmpeg_binary_path, &env.ffmpeg_path);
        config.yt_dlp_binary_path = override_value(config.yt_dlp_binary_path, &env.yt_dlp_path);
        config
    }
}

} // verus!
