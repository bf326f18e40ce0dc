//! What the model is told about the server and about the user asking: the
//! server state and the invoker rendered as compact prompt text.
use vstd::prelude::*;
use crate::text::{
    decimal, join, join_strings, str_nonempty, push_i64, push_str, push_u64, signed_decimal, string_of, string_views, tdiv,
    trem, i64_div_rem,
};

verus! {

/// Where a message came from.
pub enum MessageSource {
    Direct,
    Channel { channel_name: String },
    Server,
}

pub open spec fn source_text(m: MessageSource) -> Seq<char> {
    match m {
        MessageSource::Direct => "Direct Message (private chat)"@,
        MessageSource::Channel { channel_name } => "Channel message in \""@ + channel_name@ + "\""@,
        MessageSource::Server => "Server-wide message"@,
    }
}

impl MessageSource {
    /// The source as the prompt names it.
    pub fn to_text(&self) -> (r: String)
        ensures
            r@ == source_text(*self),
    {
        match self {
            MessageSource::Direct => "Direct Message (private chat)".to_string(),
            MessageSource::Channel { channel_name } => {
                let mut s = "Channel message in \"".to_string();
                s.append(channel_name.as_str());
                s.append("\"");
                s
            },
            MessageSource::Server => "Server-wide message".to_string(),
        }
    }
}

/// An online user as shown in the prompt. Ping and packet loss come as
/// already formatted numbers (one and two decimals, packet loss in percent).
pub struct UserInfo {
    pub name: String,
    pub channel_name: String,
    pub channel_id: u64,
    pub is_away: bool,
    pub away_message: Option<String>,
    pub input_muted: bool,
    pub output_muted: bool,
    pub is_recording: bool,
    pub country_code: String,
    pub is_priority_speaker: bool,
    pub is_channel_commander: bool,
    pub server_groups: Vec<String>,
    pub channel_group: String,
    pub database_id: u64,
    pub description: String,
    pub platform: Option<String>,
    pub version: Option<String>,
    pub connections_total: Option<u32>,
    pub ping_text: Option<String>,
    pub idle_secs: Option<i64>,
    pub client_address: Option<String>,
    pub packetloss_text: Option<String>,
    pub connected_secs: Option<i64>,
}

/// A channel of the channel tree.
pub struct ChannelInfo {
    pub id: u64,
    pub name: String,
    pub client_count: usize,
    pub is_permanent: bool,
    pub topic: Option<String>,
    pub max_clients: Option<i32>,
    pub has_password: bool,
    pub needed_talk_power: Option<i32>,
}

/// The server state when a request is made. Average ping and packet loss
/// come as already formatted numbers.
pub struct ServerSnapshot {
    pub server_name: String,
    pub bot_name: String,
    pub bot_channel: String,
    pub bot_uid: String,
    pub platform: String,
    pub version: String,
    pub max_clients: u16,
    pub uptime_secs: Option<i64>,
    pub connections_total: Option<u64>,
    pub packetloss_text: Option<String>,
    pub avg_ping_text: Option<String>,
    pub online_users: Vec<UserInfo>,
    pub channel_tree: Vec<ChannelInfo>,
}

/// The user who sent a request.
pub struct InvokerContext {
    pub name: String,
    pub uid: String,
    pub channel_name: String,
    pub channel_id: u64,
    pub message_source: MessageSource,
    pub country_code: String,
    pub server_groups: Vec<String>,
    pub channel_group: String,
    pub is_away: bool,
    pub away_message: Option<String>,
    pub input_muted: bool,
    pub platform: Option<String>,
    pub description: String,
    pub database_id: u64,
}

/// `text` when the condition holds, else nothing.
pub open spec fn when(b: bool, text: Seq<char>) -> Seq<char> {
    if b {
        text
    } else {
        Seq::empty()
    }
}

/// `prefix` and the value when there is one, else nothing.
pub open spec fn opt_text(prefix: Seq<char>, o: Option<String>) -> Seq<char> {
    match o {
        Some(s) => prefix + s@,
        None => Seq::empty(),
    }
}

pub open spec fn invoker_status(c: InvokerContext) -> Seq<Seq<char>> {
    let away = if c.is_away {
        seq![
            match c.away_message {
                Some(m) => "AFK: "@ + m@,
                None => "AFK"@,
            },
        ]
    } else {
        Seq::empty()
    };
    away + if c.input_muted {
        seq!["mic-off"@]
    } else {
        Seq::empty()
    }
}

/// The invoker block of the system prompt.
pub open spec fn invoker_text(c: InvokerContext) -> Seq<char> {
    "=== INVOKER ===\nName: "@ + c.name@ + " | UID: "@ + c.uid@ + " | DBID: "@ + decimal(c.database_id as nat)
        + " | Channel: \""@ + c.channel_name@ + "\" (ID "@ + decimal(c.channel_id as nat) + ")"@
        + when(c.country_code@.len() > 0, " | Country: "@ + c.country_code@)
        + opt_text(" | Platform: "@, c.platform)
        + when(c.channel_group@.len() > 0, " | ChGroup: "@ + c.channel_group@)
        + "\nMessage type: "@ + source_text(c.message_source)
        + when(c.server_groups@.len() > 0, "\nServer Groups: "@ + join(string_views(c.server_groups@), ", "@))
        + when(c.description@.len() > 0, "\nDescription: "@ + c.description@)
        + when(invoker_status(c).len() > 0, "\nStatus: "@ + join(invoker_status(c), ", "@))
}

fn push_opt(out: &mut Vec<char>, prefix: &str, o: &Option<String>)
    ensures
        final(out)@ == old(out)@ + opt_text(prefix@, *o),
{
    match o {
        Some(s) => {
            push_str(out, prefix);
            push_str(out, s.as_str());
        },
        None => {
            assert(old(out)@ =~= old(out)@ + Seq::<char>::empty());
        },
    }
}

fn push_strings(out: &mut Vec<char>, v: &Vec<String>)
    ensures
        final(out)@ == old(out)@ + join(string_views(v@), ", "@),
{
    let j = join_strings(v, ", ");
    push_str(out, j.as_str());
}

proof fn lemma_empty_append(s: Seq<char>)
    ensures
        s + Seq::<char>::empty() == s,
{
    assert(s + Seq::<char>::empty() =~= s);
}

impl InvokerContext {
    /// The invoker block of the system prompt.
    #[verifier::rlimit(80)]
    pub fn to_prompt_text(&self) -> (r: String)
        ensures
            r@ == invoker_text(*self),
    {
        let mut status: Vec<String> = Vec::new();
        if self.is_away {
            let s = match &self.away_message {
                Some(m) => {
                    let mut t = "AFK: ".to_string();
                    t.append(m.as_str());
                    t
                },
                None => "AFK".to_string(),
            };
            status.push(s);
        }
        if self.input_muted {
            status.push("mic-off".to_string());
        }
        assert(string_views(status@) =~= invoker_status(*self));
        let mut out: Vec<char> = Vec::new();
        push_str(&mut out, "=== INVOKER ===\nName: ");
        push_str(&mut out, self.name.as_str());
        push_str(&mut out, " | UID: ");
        push_str(&mut out, self.uid.as_str());
        push_str(&mut out, " | DBID: ");
        push_u64(&mut out, self.database_id);
        push_str(&mut out, " | Channel: \"");
        push_str(&mut out, self.channel_name.as_str());
        push_str(&mut out, "\" (ID ");
        push_u64(&mut out, self.channel_id);
        push_str(&mut out, ")");
        let ghost a0 = out@;
        if str_nonempty(self.country_code.as_str()) {
            push_str(&mut out, " | Country: ");
            push_str(&mut out, self.country_code.as_str());
        }
        let ghost a1 = out@;
        push_opt(&mut out, " | Platform: ", &self.platform);
        let ghost a2 = out@;
        if str_nonempty(self.channel_group.as_str()) {
            push_str(&mut out, " | ChGroup: ");
            push_str(&mut out, self.channel_group.as_str());
        }
        let ghost a3 = out@;
        push_str(&mut out, "\nMessage type: ");
        let src = self.message_source.to_text();
        push_str(&mut out, src.as_str());
        let ghost a4 = out@;
        if self.server_groups.len() > 0 {
            push_str(&mut out, "\nServer Groups: ");
            push_strings(&mut out, &self.server_groups);
        }
        let ghost a5 = out@;
        if str_nonempty(self.description.as_str()) {
            push_str(&mut out, "\nDescription: ");
            push_str(&mut out, self.description.as_str());
        }
        let ghost a6 = out@;
        if status.len() > 0 {
            push_str(&mut out, "\nStatus: ");
            push_strings(&mut out, &status);
        }
        proof {
            reveal_strlit("");
            lemma_empty_append(a0);
            lemma_empty_append(a2);
            lemma_empty_append(a4);
            lemma_empty_append(a5);
            lemma_empty_append(a6);
        }
        assert(out@ =~= invoker_text(*self));
        string_of(out.as_slice())
    }
}

// ---------------------------------------------------------------- server state

/// Uptime as days, hours and minutes, the days left out when there are none.
pub open spec fn uptime_text(u: int) -> Seq<char> {
    let days = tdiv(u, 86400);
    let hours = tdiv(trem(u, 86400), 3600);
    let mins = tdiv(trem(u, 3600), 60);
    if days > 0 {
        "Uptime: "@ + signed_decimal(days) + "d "@ + signed_decimal(hours) + "h "@ + signed_decimal(mins) + "m"@
    } else {
        "Uptime: "@ + signed_decimal(hours) + "h "@ + signed_decimal(mins) + "m"@
    }
}

pub open spec fn server_stats(s: ServerSnapshot) -> Seq<Seq<char>> {
    (match s.uptime_secs {
        Some(u) => seq![uptime_text(u as int)],
        None => Seq::empty(),
    }) + (match s.connections_total {
        Some(c) => seq!["Total Connections: "@ + decimal(c as nat)],
        None => Seq::empty(),
    }) + (match s.avg_ping_text {
        Some(p) => seq!["Avg Ping: "@ + p@ + "ms"@],
        None => Seq::empty(),
    }) + (match s.packetloss_text {
        Some(p) => seq!["Packetloss: "@ + p@ + "%"@],
        None => Seq::empty(),
    })
}

pub open spec fn server_header(s: ServerSnapshot) -> Seq<char> {
    "=== SERVER STATE ===\nServer: "@ + s.server_name@ + " | Platform: "@ + s.platform@ + " | Version: "@ + s.version@
        + "\nMax Clients: "@ + decimal(s.max_clients as nat) + " | Online: "@ + decimal(s.online_users@.len())
        + " users\nBot: \""@ + s.bot_name@ + "\" (UID: "@ + s.bot_uid@ + ") in channel \""@ + s.bot_channel@
        + "\""@ + when(server_stats(s).len() > 0, "\n"@ + join(server_stats(s), " | "@))
}

pub open spec fn tag_if(b: bool, t: Seq<char>) -> Seq<Seq<char>> {
    if b {
        seq![t]
    } else {
        Seq::empty()
    }
}

pub open spec fn away_tag(u: UserInfo) -> Seq<Seq<char>> {
    tag_if(
        u.is_away,
        match u.away_message {
            Some(m) => if m@.len() > 0 {
                "AFK: "@ + m@
            } else {
                "AFK"@
            },
            None => "AFK"@,
        },
    )
}

pub open spec fn flag_tags(u: UserInfo) -> Seq<Seq<char>> {
    tag_if(u.input_muted, "mic-off"@) + tag_if(u.output_muted, "sound-off"@) + tag_if(u.is_recording, "RECORDING"@)
        + tag_if(u.is_priority_speaker, "priority"@) + tag_if(u.is_channel_commander, "commander"@)
}

pub open spec fn user_tags(u: UserInfo) -> Seq<Seq<char>> {
    away_tag(u) + flag_tags(u)
}

pub open spec fn user_head(u: UserInfo) -> Seq<char> {
    "- "@ + u.name@ + when(u.country_code@.len() > 0, " ("@ + u.country_code@ + ")"@) + when(
        user_tags(u).len() > 0,
        " ["@ + join(user_tags(u), ", "@) + "]"@,
    )
}

pub open spec fn user_ids(u: UserInfo) -> Seq<char> {
    " in \""@ + u.channel_name@ + "\" (ID "@ + decimal(u.channel_id as nat) + ", DBID "@ + decimal(
        u.database_id as nat,
    ) + ")"@
}

pub open spec fn user_extra(u: UserInfo) -> Seq<char> {
    (match u.platform {
        Some(p) => when(p@.len() > 0, " | "@ + p@),
        None => Seq::empty(),
    }) + when(u.server_groups@.len() > 0, " | Groups: "@ + join(string_views(u.server_groups@), ", "@))
        + " | ChGroup: "@ + u.channel_group@
}

pub open spec fn user_tail(u: UserInfo) -> Seq<char> {
    when(u.description@.len() > 0, " | Desc: \""@ + u.description@ + "\""@) + opt_text(" | v"@, u.version) + (
    match u.connections_total {
        Some(c) => " | Connections: "@ + decimal(c as nat),
        None => Seq::empty(),
    }) + "\n"@
}

/// One line per online user.
pub open spec fn user_line(u: UserInfo) -> Seq<char> {
    user_head(u) + user_ids(u) + user_extra(u) + user_tail(u)
}

pub open spec fn admin_parts(u: UserInfo) -> Seq<Seq<char>> {
    (match u.ping_text {
        Some(p) => seq!["ping="@ + p@ + "ms"@],
        None => Seq::empty(),
    }) + (match u.idle_secs {
        Some(i) => seq!["idle="@ + signed_decimal(i as int) + "s"@],
        None => Seq::empty(),
    }) + (match u.client_address {
        Some(a) => seq!["ip="@ + a@],
        None => Seq::empty(),
    }) + (match u.packetloss_text {
        Some(p) => seq!["packetloss="@ + p@ + "%"@],
        None => Seq::empty(),
    }) + (match u.connected_secs {
        Some(c) => seq![
            "online="@ + signed_decimal(tdiv(c as int, 3600)) + "h"@ + signed_decimal(tdiv(trem(c as int, 3600), 60))
                + "m"@,
        ],
        None => Seq::empty(),
    })
}

/// A user's line, with the administrators' connection details under it
/// when the reader is an administrator.
pub open spec fn user_block(u: UserInfo, admin_view: bool) -> Seq<char> {
    user_line(u) + when(
        admin_view && admin_parts(u).len() > 0,
        "  ↳ [ADMIN] "@ + join(admin_parts(u), " | "@) + "\n"@,
    )
}

pub open spec fn users_text(users: Seq<UserInfo>, admin_view: bool) -> Seq<char>
    decreases users.len(),
{
    if users.len() == 0 {
        Seq::empty()
    } else {
        users_text(users.drop_last(), admin_view) + user_block(users.last(), admin_view)
    }
}

/// Shown users: at most this many, then a count of the rest.
pub const MAX_USERS_SHOWN: usize = 30;

/// Shown channels: at most this many, then a count of the rest.
pub const MAX_CHANNELS_SHOWN: usize = 40;

pub open spec fn channel_head(c: ChannelInfo) -> Seq<char> {
    "- \""@ + c.name@ + "\" (ID "@ + decimal(c.id as nat) + ", "@ + decimal(c.client_count as nat) + " users, "@
        + if c.is_permanent {
        "perm"@
    } else {
        "temp"@
    }
}

pub open spec fn channel_limits(c: ChannelInfo) -> Seq<char> {
    opt_text(" topic=\""@, c.topic) + when(c.topic is Some, "\""@) + (match c.max_clients {
        Some(m) => " max="@ + signed_decimal(m as int),
        None => Seq::empty(),
    })
}

pub open spec fn channel_tail(c: ChannelInfo) -> Seq<char> {
    channel_limits(c) + when(c.has_password, " 🔒"@) + (match c.needed_talk_power {
        Some(t) => " tp="@ + signed_decimal(t as int),
        None => Seq::empty(),
    }) + ")\n"@
}

pub open spec fn channel_line(c: ChannelInfo) -> Seq<char> {
    channel_head(c) + channel_tail(c)
}

pub open spec fn channels_text(chs: Seq<ChannelInfo>) -> Seq<char>
    decreases chs.len(),
{
    if chs.len() == 0 {
        Seq::empty()
    } else {
        channels_text(chs.drop_last()) + channel_line(chs.last())
    }
}

/// The first `n` items (all when there are fewer).
pub open spec fn first_n<A>(s: Seq<A>, n: nat) -> Seq<A> {
    if s.len() > n {
        s.take(n as int)
    } else {
        s
    }
}

pub open spec fn users_section(s: ServerSnapshot, admin_view: bool) -> Seq<char> {
    let users = s.online_users@;
    "\n\n=== ONLINE USERS ===\n"@ + users_text(first_n(users, MAX_USERS_SHOWN as nat), admin_view) + when(
        users.len() > MAX_USERS_SHOWN,
        "... and "@ + decimal((users.len() - MAX_USERS_SHOWN) as nat) + " more\n"@,
    )
}

pub open spec fn channels_section(s: ServerSnapshot) -> Seq<char> {
    let chs = s.channel_tree@;
    "\n=== CHANNELS ===\n"@ + channels_text(first_n(chs, MAX_CHANNELS_SHOWN as nat)) + when(
        chs.len() > MAX_CHANNELS_SHOWN,
        "... and "@ + decimal((chs.len() - MAX_CHANNELS_SHOWN) as nat) + " more channels\n"@,
    )
}

/// The server-state block of the system prompt: the server line and its
/// statistics, the online users (at most `MAX_USERS_SHOWN`) and the
/// channels (at most `MAX_CHANNELS_SHOWN`).
pub open spec fn snapshot_text(s: ServerSnapshot, admin_view: bool) -> Seq<char> {
    server_header(s) + users_section(s, admin_view) + channels_section(s)
}

fn push_uptime(out: &mut Vec<char>, u: i64)
    ensures
        final(out)@ == old(out)@ + uptime_text(u as int),
{
    let (days, r1) = i64_div_rem(u, 86400);
    let (hours, _) = i64_div_rem(r1, 3600);
    let (_, r2) = i64_div_rem(u, 3600);
    let (mins, _) = i64_div_rem(r2, 60);
    push_str(out, "Uptime: ");
    if days > 0 {
        push_i64(out, days);
        push_str(out, "d ");
    }
    push_i64(out, hours);
    push_str(out, "h ");
    push_i64(out, mins);
    push_str(out, "m");
}

fn stats_of(s: &ServerSnapshot) -> (r: Vec<String>)
    ensures
        string_views(r@) == server_stats(*s),
{
    let mut stats: Vec<String> = Vec::new();
    let ghost e = Seq::<Seq<char>>::empty();
    match s.uptime_secs {
        Some(u) => {
            let mut v: Vec<char> = Vec::new();
            push_uptime(&mut v, u);
            stats.push(string_of(v.as_slice()));
        },
        None => {},
    }
    let ghost s1 = string_views(stats@);
    match s.connections_total {
        Some(c) => {
            let mut v: Vec<char> = Vec::new();
            push_str(&mut v, "Total Connections: ");
            push_u64(&mut v, c);
            let ghost prev = stats@;
            let x = string_of(v.as_slice());
            stats.push(x);
            assert(string_views(stats@) =~= string_views(prev).push(x@));
        },
        None => {},
    }
    let ghost s2 = string_views(stats@);
    match &s.avg_ping_text {
        Some(p) => {
            let mut v: Vec<char> = Vec::new();
            push_str(&mut v, "Avg Ping: ");
            push_str(&mut v, p.as_str());
            push_str(&mut v, "ms");
            let ghost prev = stats@;
            let x = string_of(v.as_slice());
            stats.push(x);
            assert(string_views(stats@) =~= string_views(prev).push(x@));
        },
        None => {},
    }
    let ghost s3 = string_views(stats@);
    match &s.packetloss_text {
        Some(p) => {
            let mut v: Vec<char> = Vec::new();
            push_str(&mut v, "Packetloss: ");
            push_str(&mut v, p.as_str());
            push_str(&mut v, "%");
            let ghost prev = stats@;
            let x = string_of(v.as_slice());
            stats.push(x);
            assert(string_views(stats@) =~= string_views(prev).push(x@));
        },
        None => {},
    }
    assert(string_views(stats@) =~= server_stats(*s));
    stats
}

fn push_tag(tags: &mut Vec<String>, b: bool, t: &str)
    ensures
        string_views(final(tags)@) == string_views(old(tags)@) + tag_if(b, t@),
{
    if b {
        let x = t.to_string();
        tags.push(x);
        assert(string_views(tags@) =~= string_views(old(tags)@) + tag_if(b, t@));
    } else {
        assert(string_views(tags@) =~= string_views(old(tags)@) + tag_if(b, t@));
    }
}

fn tags_of(u: &UserInfo) -> (r: Vec<String>)
    ensures
        string_views(r@) == user_tags(*u),
{
    let mut tags: Vec<String> = Vec::new();
    if u.is_away {
        let t = match &u.away_message {
            Some(m) => if str_nonempty(m.as_str()) {
                let mut t = "AFK: ".to_string();
                t.append(m.as_str());
                t
            } else {
                "AFK".to_string()
            },
            None => "AFK".to_string(),
        };
        tags.push(t);
    }
    assert(string_views(tags@) =~= away_tag(*u));
    push_tag(&mut tags, u.input_muted, "mic-off");
    push_tag(&mut tags, u.output_muted, "sound-off");
    push_tag(&mut tags, u.is_recording, "RECORDING");
    push_tag(&mut tags, u.is_priority_speaker, "priority");
    push_tag(&mut tags, u.is_channel_commander, "commander");
    assert(string_views(tags@) =~= user_tags(*u));
    tags
}

fn admin_parts_of(u: &UserInfo) -> (r: Vec<String>)
    ensures
        string_views(r@) == admin_parts(*u),
{
    let mut parts: Vec<String> = Vec::new();
    match &u.ping_text {
        Some(p) => {
            let mut v: Vec<char> = Vec::new();
            push_str(&mut v, "ping=");
            push_str(&mut v, p.as_str());
            push_str(&mut v, "ms");
            parts.push(string_of(v.as_slice()));
        },
        None => {},
    }
    let ghost p1 = string_views(parts@);
    match u.idle_secs {
        Some(i) => {
            let mut v: Vec<char> = Vec::new();
            push_str(&mut v, "idle=");
            push_i64(&mut v, i);
            push_str(&mut v, "s");
            let ghost prev = parts@;
            let x = string_of(v.as_slice());
            parts.push(x);
            assert(string_views(parts@) =~= string_views(prev).push(x@));
        },
        None => {},
    }
    let ghost p2 = string_views(parts@);
    match &u.client_address {
        Some(a) => {
            let mut v: Vec<char> = Vec::new();
            push_str(&mut v, "ip=");
            push_str(&mut v, a.as_str());
            let ghost prev = parts@;
            let x = string_of(v.as_slice());
            parts.push(x);
            assert(string_views(parts@) =~= string_views(prev).push(x@));
        },
        None => {},
    }
    let ghost p3 = string_views(parts@);
    match &u.packetloss_text {
        Some(p) => {
            let mut v: Vec<char> = Vec::new();
            push_str(&mut v, "packetloss=");
            push_str(&mut v, p.as_str());
            push_str(&mut v, "%");
            let ghost prev = parts@;
            let x = string_of(v.as_slice());
            parts.push(x);
            assert(string_views(parts@) =~= string_views(prev).push(x@));
        },
        None => {},
    }
    let ghost p4 = string_views(parts@);
    match u.connected_secs {
        Some(c) => {
            let (hours, r) = i64_div_rem(c, 3600);
            let (mins, _) = i64_div_rem(r, 60);
            let mut v: Vec<char> = Vec::new();
            push_str(&mut v, "online=");
            push_i64(&mut v, hours);
            push_str(&mut v, "h");
            push_i64(&mut v, mins);
            push_str(&mut v, "m");
            let ghost prev = parts@;
            let x = string_of(v.as_slice());
            parts.push(x);
            assert(string_views(parts@) =~= string_views(prev).push(x@));
        },
        None => {},
    }
    assert(string_views(parts@) =~= admin_parts(*u));
    parts
}

fn push_user_head(out: &mut Vec<char>, u: &UserInfo)
    ensures
        final(out)@ == old(out)@ + user_head(*u),
{
    let tags = tags_of(u);
    push_str(out, "- ");
    push_str(out, u.name.as_str());
    let ghost a0 = out@;
    if str_nonempty(u.country_code.as_str()) {
        push_str(out, " (");
        push_str(out, u.country_code.as_str());
        push_str(out, ")");
    }
    let ghost a1 = out@;
    if tags.len() > 0 {
        push_str(out, " [");
        push_strings(out, &tags);
        push_str(out, "]");
    }
    proof {
        lemma_empty_append(a0);
        lemma_empty_append(a1);
    }
    assert(out@ =~= old(out)@ + user_head(*u));
}

fn push_user_ids(out: &mut Vec<char>, u: &UserInfo)
    ensures
        final(out)@ == old(out)@ + user_ids(*u),
{
    push_str(out, " in \"");
    push_str(out, u.channel_name.as_str());
    push_str(out, "\" (ID ");
    push_u64(out, u.channel_id);
    push_str(out, ", DBID ");
    push_u64(out, u.database_id);
    push_str(out, ")");
    assert(out@ =~= old(out)@ + user_ids(*u));
}

fn push_user_extra(out: &mut Vec<char>, u: &UserInfo)
    ensures
        final(out)@ == old(out)@ + user_extra(*u),
{
    match &u.platform {
        Some(p) => {
            if str_nonempty(p.as_str()) {
                push_str(out, " | ");
                push_str(out, p.as_str());
            }
        },
        None => {},
    }
    let ghost a0 = out@;
    if u.server_groups.len() > 0 {
        push_str(out, " | Groups: ");
        push_strings(out, &u.server_groups);
    }
    let ghost a1 = out@;
    push_str(out, " | ChGroup: ");
    push_str(out, u.channel_group.as_str());
    proof {
        lemma_empty_append(old(out)@);
        lemma_empty_append(a0);
    }
    assert(out@ =~= old(out)@ + user_extra(*u));
}

fn push_user_tail(out: &mut Vec<char>, u: &UserInfo)
    ensures
        final(out)@ == old(out)@ + user_tail(*u),
{
    if str_nonempty(u.description.as_str()) {
        push_str(out, " | Desc: \"");
        push_str(out, u.description.as_str());
        push_str(out, "\"");
    }
    let ghost a0 = out@;
    push_opt(out, " | v", &u.version);
    let ghost a1 = out@;
    match u.connections_total {
        Some(c) => {
            push_str(out, " | Connections: ");
            push_u64(out, c as u64);
        },
        None => {},
    }
    let ghost a2 = out@;
    push_str(out, "\n");
    proof {
        lemma_empty_append(old(out)@);
        lemma_empty_append(a1);
    }
    assert(out@ =~= old(out)@ + user_tail(*u));
}

fn push_user_line(out: &mut Vec<char>, u: &UserInfo)
    ensures
        final(out)@ == old(out)@ + user_line(*u),
{
    push_user_head(out, u);
    push_user_ids(out, u);
    push_user_extra(out, u);
    push_user_tail(out, u);
    assert(out@ =~= old(out)@ + user_line(*u));
}

fn push_user_block(out: &mut Vec<char>, u: &UserInfo, admin_view: bool)
    ensures
        final(out)@ == old(out)@ + user_block(*u, admin_view),
{
    push_user_line(out, u);
    let ghost a0 = out@;
    if admin_view {
        let parts = admin_parts_of(u);
        if parts.len() > 0 {
            push_str(out, "  ↳ [ADMIN] ");
            let j = join_strings(&parts, " | ");
            push_str(out, j.as_str());
            push_str(out, "\n");
        }
    }
    proof {
        lemma_empty_append(a0);
    }
    assert(out@ =~= old(out)@ + user_block(*u, admin_view));
}

fn push_channel_head(out: &mut Vec<char>, c: &ChannelInfo)
    ensures
        final(out)@ == old(out)@ + channel_head(*c),
{
    push_str(out, "- \"");
    push_str(out, c.name.as_str());
    push_str(out, "\" (ID ");
    push_u64(out, c.id);
    push_str(out, ", ");
    push_u64(out, c.client_count as u64);
    push_str(out, " users, ");
    if c.is_permanent {
        push_str(out, "perm");
    } else {
        push_str(out, "temp");
    }
    assert(out@ =~= old(out)@ + channel_head(*c));
}

fn push_channel_limits(out: &mut Vec<char>, c: &ChannelInfo)
    ensures
        final(out)@ == old(out)@ + channel_limits(*c),
{
    push_opt(out, " topic=\"", &c.topic);
    let ghost a1 = out@;
    if c.topic.is_some() {
        push_str(out, "\"");
    }
    let ghost a2 = out@;
    match c.max_clients {
        Some(m) => {
            push_str(out, " max=");
            push_i64(out, m as i64);
        },
        None => {},
    }
    proof {
        lemma_empty_append(a1);
        lemma_empty_append(a2);
    }
    assert(out@ =~= old(out)@ + channel_limits(*c));
}

fn push_channel_tail(out: &mut Vec<char>, c: &ChannelInfo)
    ensures
        final(out)@ == old(out)@ + channel_tail(*c),
{
    push_channel_limits(out, c);
    let ghost a3 = out@;
    if c.has_password {
        push_str(out, " 🔒");
    }
    let ghost a4 = out@;
    match c.needed_talk_power {
        Some(t) => {
            push_str(out, " tp=");
            push_i64(out, t as i64);
        },
        None => {},
    }
    push_str(out, ")\n");
    proof {
        lemma_empty_append(a3);
        lemma_empty_append(a4);
    }
    assert(out@ =~= old(out)@ + channel_tail(*c));
}

fn push_channel_line(out: &mut Vec<char>, c: &ChannelInfo)
    ensures
        final(out)@ == old(out)@ + channel_line(*c),
{
    push_channel_head(out, c);
    push_channel_tail(out, c);
    assert(out@ =~= old(out)@ + channel_line(*c));
}

fn push_server_header(out: &mut Vec<char>, s: &ServerSnapshot)
    ensures
        final(out)@ == old(out)@ + server_header(*s),
{
    push_str(out, "=== SERVER STATE ===\nServer: ");
    push_str(out, s.server_name.as_str());
    push_str(out, " | Platform: ");
    push_str(out, s.platform.as_str());
    push_str(out, " | Version: ");
    push_str(out, s.version.as_str());
    push_str(out, "\nMax Clients: ");
    push_u64(out, s.max_clients as u64);
    push_str(out, " | Online: ");
    push_u64(out, s.online_users.len() as u64);
    push_str(out, " users\nBot: \"");
    push_str(out, s.bot_name.as_str());
    push_str(out, "\" (UID: ");
    push_str(out, s.bot_uid.as_str());
    push_str(out, ") in channel \"");
    push_str(out, s.bot_channel.as_str());
    push_str(out, "\"");
    let ghost h0 = out@;
    let stats = stats_of(s);
    if stats.len() > 0 {
        push_str(out, "\n");
        let j = join_strings(&stats, " | ");
        push_str(out, j.as_str());
    }
    proof {
        lemma_empty_append(h0);
    }
    assert(out@ =~= old(out)@ + server_header(*s));
}

fn push_users(out: &mut Vec<char>, s: &ServerSnapshot, admin_view: bool)
    ensures
        final(out)@ == old(out)@ + users_section(*s, admin_view),
{
    push_str(out, "\n\n=== ONLINE USERS ===\n");
    let ghost before_users = out@;
    let ghost users = s.online_users@;
    let mut i: usize = 0;
    while i < s.online_users.len() && i < MAX_USERS_SHOWN
        invariant
            i <= s.online_users@.len(),
            i <= MAX_USERS_SHOWN,
            users == s.online_users@,
            out@ == before_users + users_text(users.take(i as int), admin_view),
        decreases s.online_users@.len() - i,
    {
        assert(users.take(i + 1).drop_last() =~= users.take(i as int));
        push_user_block(out, &s.online_users[i], admin_view);
        i = i + 1;
    }
    assert(users.take(i as int) =~= first_n(users, MAX_USERS_SHOWN as nat));
    let ghost u0 = out@;
    if s.online_users.len() > MAX_USERS_SHOWN {
        push_str(out, "... and ");
        push_u64(out, (s.online_users.len() - MAX_USERS_SHOWN) as u64);
        push_str(out, " more\n");
    }
    proof {
        lemma_empty_append(u0);
    }
    assert(out@ =~= old(out)@ + users_section(*s, admin_view));
}

fn push_channels(out: &mut Vec<char>, s: &ServerSnapshot)
    ensures
        final(out)@ == old(out)@ + channels_section(*s),
{
    push_str(out, "\n=== CHANNELS ===\n");
    let ghost before_chs = out@;
    let ghost chs = s.channel_tree@;
    let mut k: usize = 0;
    while k < s.channel_tree.len() && k < MAX_CHANNELS_SHOWN
        invariant
            k <= s.channel_tree@.len(),
            k <= MAX_CHANNELS_SHOWN,
            chs == s.channel_tree@,
            out@ == before_chs + channels_text(chs.take(k as int)),
        decreases s.channel_tree@.len() - k,
    {
        assert(chs.take(k + 1).drop_last() =~= chs.take(k as int));
        push_channel_line(out, &s.channel_tree[k]);
        k = k + 1;
    }
    assert(chs.take(k as int) =~= first_n(chs, MAX_CHANNELS_SHOWN as nat));
    let ghost c0 = out@;
    if s.channel_tree.len() > MAX_CHANNELS_SHOWN {
        push_str(out, "... and ");
        push_u64(out, (s.channel_tree.len() - MAX_CHANNELS_SHOWN) as u64);
        push_str(out, " more channels\n");
    }
    proof {
        lemma_empty_append(c0);
    }
    assert(out@ =~= old(out)@ + channels_section(*s));
}

impl ServerSnapshot {
    /// The server-state block of the system prompt; `admin_view` adds the
    /// users' connection details.
    pub fn to_prompt_text(&self, admin_view: bool) -> (r: String)
        ensures
            r@ == snapshot_text(*self, admin_view),
    {
        let mut out: Vec<char> = Vec::new();
        push_server_header(&mut out, self);
        push_users(&mut out, self, admin_view);
        push_channels(&mut out, self);
        assert(out@ =~= snapshot_text(*self, admin_view));
        string_of(out.as_slice())
    }
}


/// `b` is the user `a` with other connection details: ping, idle time,
/// address, packet loss and time online.
pub open spec fn differs_in_admin_data(a: UserInfo, b: UserInfo) -> bool {
    b == UserInfo {
        ping_text: b.ping_text,
        idle_secs: b.idle_secs,
        client_address: b.client_address,
        packetloss_text: b.packetloss_text,
        connected_secs: b.connected_secs,
        ..a
    }
}

proof fn lemma_user_line_public(a: UserInfo, b: UserInfo)
    requires
        differs_in_admin_data(a, b),
    ensures
        user_block(a, false) == user_block(b, false),
{
    assert(user_tags(a) == user_tags(b));
    assert(user_head(a) == user_head(b));
    assert(user_ids(a) == user_ids(b));
    assert(user_extra(a) == user_extra(b));
    assert(user_tail(a) == user_tail(b));
}

proof fn lemma_users_text_public(x: Seq<UserInfo>, y: Seq<UserInfo>)
    requires
        x.len() == y.len(),
        forall|i: int| 0 <= i < x.len() ==> differs_in_admin_data(#[trigger] x[i], y[i]),
    ensures
        users_text(x, false) == users_text(y, false),
    decreases x.len(),
{
    if x.len() > 0 {
        let (dx, dy) = (x.drop_last(), y.drop_last());
        assert forall|i: int| 0 <= i < dx.len() implies differs_in_admin_data(#[trigger] dx[i], dy[i]) by {
            assert(dx[i] == x[i] && dy[i] == y[i]);
        }
        lemma_users_text_public(dx, dy);
        lemma_user_line_public(x.last(), y.last());
    }
}

/// The view given to users who are not administrators shows nothing of the
/// online users' connection details: two snapshots that differ only in
/// those details read the same.
pub proof fn law_non_admin_view_hides_connection_data(s1: ServerSnapshot, s2: ServerSnapshot)
    requires
        s2 == (ServerSnapshot { online_users: s2.online_users, ..s1 }),
        s1.online_users@.len() == s2.online_users@.len(),
        forall|i: int|
            0 <= i < s1.online_users@.len() ==> differs_in_admin_data(
                #[trigger] s1.online_users@[i],
                s2.online_users@[i],
            ),
    ensures
        snapshot_text(s1, false) == snapshot_text(s2, false),
{
    let (u1, u2) = (s1.online_users@, s2.online_users@);
    let n = MAX_USERS_SHOWN as nat;
    let (f1, f2) = (first_n(u1, n), first_n(u2, n));
    assert forall|i: int| 0 <= i < f1.len() implies differs_in_admin_data(#[trigger] f1[i], f2[i]) by {
        assert(f1[i] == u1[i] && f2[i] == u2[i]);
    }
    lemma_users_text_public(f1, f2);
    assert(server_header(s1) == server_header(s2));
    assert(channels_section(s1) == channels_section(s2));
    assert(users_section(s1, false) == users_section(s2, false));
}

} // verus!
