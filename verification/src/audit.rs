//! Audit records for sensitive actions.
use vstd::prelude::*;
use vstd::string::StringExecFns;
use crate::actions::{opt_view, ActionView, BotAction};
use crate::text::{decimal, join, join_strings, string_views, u64_to_string};

verus! {

/// Result of an audited action.
pub enum AuditResult {
    Success,
    Denied(String),
    Error(String),
}

/// How a result reads in the log.
pub open spec fn result_text(r: AuditResult) -> Seq<char> {
    match r {
        AuditResult::Success => "Success"@,
        AuditResult::Denied(reason) => "Denied ("@ + reason@ + ")"@,
        AuditResult::Error(e) => "Error ("@ + e@ + ")"@,
    }
}

impl AuditResult {
    /// The result as it reads in the log.
    pub fn to_text(&self) -> (r: String)
        ensures
            r@ == result_text(*self),
    {
        match self {
            AuditResult::Success => "Success".to_owned(),
            AuditResult::Denied(reason) => {
                let mut s = "Denied (".to_owned();
                s.append(reason.as_str());
                s.append(")");
                s
            },
            AuditResult::Error(e) => {
                let mut s = "Error (".to_owned();
                s.append(e.as_str());
                s.append(")");
                s
            },
        }
    }
}

/// A single audit log entry.
pub struct AuditEntry {
    pub invoker_name: String,
    pub invoker_uid: String,
    pub action: String,
    pub target: Option<String>,
    pub result: AuditResult,
}

/// File-based audit logger; `file_path` is where the lines go.
pub struct AuditLogger {
    pub file_path: String,
}

impl AuditLogger {
    pub fn new(file_path: &str) -> (r: Self)
        ensures
            r.file_path@ == file_path@,
    {
        AuditLogger { file_path: file_path.to_owned() }
    }
}

/// The log line of an entry written at time `now`.
pub open spec fn audit_line(now: Seq<char>, e: AuditEntry) -> Seq<char> {
    let target = match e.target {
        Some(t) => " -> target: \""@ + t@ + "\""@,
        None => Seq::empty(),
    };
    "["@ + now + "] "@ + e.action@ + " by \""@ + e.invoker_name@ + "\" (UID: "@ + e.invoker_uid@
        + ")"@ + target + " | RESULT: "@ + result_text(e.result) + "\n"@
}

/// Render the line an entry adds to the audit log.
pub fn format_audit_line(now: &str, entry: &AuditEntry) -> (r: String)
    ensures
        r@ == audit_line(now@, *entry),
{
    let mut s = "[".to_owned();
    s.append(now);
    s.append("] ");
    s.append(entry.action.as_str());
    s.append(" by \"");
    s.append(entry.invoker_name.as_str());
    s.append("\" (UID: ");
    s.append(entry.invoker_uid.as_str());
    s.append(")");
    match &entry.target {
        Some(t) => {
            s.append(" -> target: \"");
            s.append(t.as_str());
            s.append("\"");
        },
        None => {},
    }
    s.append(" | RESULT: ");
    let res = entry.result.to_text();
    s.append(res.as_str());
    s.append("\n");
    s
}

/// The audit name of an action.
pub open spec fn action_name_spec(a: ActionView) -> Seq<char> {
    match a {
        ActionView::Reply { .. } => "REPLY"@,
        ActionView::CreateChannel { .. } => "CREATE_CHANNEL"@,
        ActionView::EditChannel { .. } => "EDIT_CHANNEL"@,
        ActionView::DeleteChannel { .. } => "DELETE_CHANNEL"@,
        ActionView::EditChannelDescription { .. } => "SET_CHANNEL_DESCRIPTION"@,
        ActionView::SetChannelAdmin { .. } => "SET_CHANNEL_ADMIN"@,
        ActionView::KickClient { .. } => "KICK_CLIENT"@,
        ActionView::MoveClient { .. } => "MOVE_CLIENT"@,
        ActionView::MoveClientReturn { .. } => "MOVE_CLIENT_RETURN"@,
        ActionView::SetServerGroup { .. } => "SET_SERVER_GROUP"@,
        ActionView::RemoveServerGroup { .. } => "REMOVE_SERVER_GROUP"@,
        ActionView::PokeClient { .. } => "POKE_CLIENT"@,
        ActionView::JoinUserChannel => "JOIN_USER_CHANNEL"@,
        ActionView::BanClient { .. } => "BAN_CLIENT"@,
        ActionView::SendMessage { .. } => "SEND_MESSAGE"@,
        ActionView::BanAdd { .. } => "BAN_ADD"@,
        ActionView::BanDel { .. } => "BAN_DEL"@,
        ActionView::BanDelAll => "BAN_DEL_ALL"@,
        ActionView::BanList => "BAN_LIST"@,
        ActionView::ClientEdit { .. } => "CLIENT_EDIT"@,
        ActionView::ChannelMoveAction { .. } => "CHANNEL_MOVE"@,
        ActionView::ChannelSubscribe { .. } => "CHANNEL_SUBSCRIBE"@,
        ActionView::ChannelUnsubscribe { .. } => "CHANNEL_UNSUBSCRIBE"@,
        ActionView::SendChannelMessage { .. } => "SEND_CHANNEL_MESSAGE"@,
        ActionView::MoveBotChannel { .. } => "MOVE_BOT_CHANNEL"@,
        ActionView::PlayTTS { .. } => "PLAY_TTS"@,
        ActionView::PlayMusic { .. } => "PLAY_MUSIC"@,
        ActionView::SetVolume { .. } => "SET_VOLUME"@,
    }
}

/// Helper: extract a human-readable action name from a BotAction for audit logging.
pub fn action_name(action: &BotAction) -> (r: &'static str)
    ensures
        r@ == action_name_spec(action@),
{
    match action {
        BotAction::Reply { .. } => "REPLY",
        BotAction::CreateChannel { .. } => "CREATE_CHANNEL",
        BotAction::EditChannel { .. } => "EDIT_CHANNEL",
        BotAction::DeleteChannel { .. } => "DELETE_CHANNEL",
        BotAction::EditChannelDescription { .. } => "SET_CHANNEL_DESCRIPTION",
        BotAction::SetChannelAdmin { .. } => "SET_CHANNEL_ADMIN",
        BotAction::KickClient { .. } => "KICK_CLIENT",
        BotAction::MoveClient { .. } => "MOVE_CLIENT",
        BotAction::MoveClientReturn { .. } => "MOVE_CLIENT_RETURN",
        BotAction::SetServerGroup { .. } => "SET_SERVER_GROUP",
        BotAction::RemoveServerGroup { .. } => "REMOVE_SERVER_GROUP",
        BotAction::PokeClient { .. } => "POKE_CLIENT",
        BotAction::JoinUserChannel => "JOIN_USER_CHANNEL",
        BotAction::BanClient { .. } => "BAN_CLIENT",
        BotAction::SendMessage { .. } => "SEND_MESSAGE",
        BotAction::BanAdd { .. } => "BAN_ADD",
        BotAction::BanDel { .. } => "BAN_DEL",
        BotAction::BanDelAll => "BAN_DEL_ALL",
        BotAction::BanList => "BAN_LIST",
        BotAction::ClientEdit { .. } => "CLIENT_EDIT",
        BotAction::ChannelMoveAction { .. } => "CHANNEL_MOVE",
        BotAction::ChannelSubscribe { .. } => "CHANNEL_SUBSCRIBE",
        BotAction::ChannelUnsubscribe { .. } => "CHANNEL_UNSUBSCRIBE",
        BotAction::SendChannelMessage { .. } => "SEND_CHANNEL_MESSAGE",
        BotAction::MoveBotChannel { .. } => "MOVE_BOT_CHANNEL",
        BotAction::PlayTTS { .. } => "PLAY_TTS",
        BotAction::PlayMusic { .. } => "PLAY_MUSIC",
        BotAction::SetVolume { .. } => "SET_VOLUME",
    }
}

/// The present ones among three optional strings, in order.
pub open spec fn present(a: Option<Seq<char>>, b: Option<Seq<char>>, c: Option<Seq<char>>) -> Seq<Seq<char>> {
    let s0: Seq<Seq<char>> = Seq::empty();
    let s1 = match a {
        Some(x) => s0.push(x),
        None => s0,
    };
    let s2 = match b {
        Some(x) => s1.push(x),
        None => s1,
    };
    match c {
        Some(x) => s2.push(x),
        None => s2,
    }
}

/// The audit target of an action.
pub open spec fn action_target_spec(a: ActionView) -> Option<Seq<char>> {
    match a {
        ActionView::KickClient { client_name, .. } => Some(client_name),
        ActionView::BanClient { client_name, .. } => Some(client_name),
        ActionView::MoveClient { client_name, channel_name } => Some(client_name + " -> "@ + channel_name),
        ActionView::MoveClientReturn { client_name } => Some(client_name),
        ActionView::PokeClient { client_name, .. } => Some(client_name),
        ActionView::SendMessage { target_name, .. } => Some(target_name),
        ActionView::CreateChannel { channel_name, .. } => Some(channel_name),
        ActionView::EditChannel { channel_name, .. } => Some(channel_name),
        ActionView::DeleteChannel { channel_name } => Some(channel_name),
        ActionView::SetChannelAdmin { channel_name, client_name } => Some(
            match client_name {
                Some(c) => c,
                None => "self"@,
            } + " in "@ + channel_name,
        ),
        ActionView::SetServerGroup { client_name, server_group_id } => Some(
            client_name + " +group "@ + decimal(server_group_id as nat),
        ),
        ActionView::RemoveServerGroup { client_name, server_group_id } => Some(
            client_name + " -group "@ + decimal(server_group_id as nat),
        ),
        ActionView::EditChannelDescription { channel_id, .. } => Some(
            "channel "@ + decimal(channel_id as nat),
        ),
        ActionView::BanAdd { ip, uid, name, .. } => Some("ban: "@ + join(present(ip, uid, name), ", "@)),
        ActionView::BanDel { ban_id } => Some("ban #"@ + decimal(ban_id as nat)),
        ActionView::BanDelAll => Some("all bans"@),
        ActionView::BanList => Some("list bans"@),
        ActionView::ClientEdit { client_name, .. } => Some(client_name),
        ActionView::ChannelMoveAction { channel_name, parent_channel_name } => Some(
            channel_name + " -> "@ + parent_channel_name,
        ),
        ActionView::ChannelSubscribe { channel_name } => Some(channel_name),
        ActionView::ChannelUnsubscribe { channel_name } => Some(channel_name),
        ActionView::SendChannelMessage { channel_name, .. } => Some(channel_name),
        ActionView::MoveBotChannel { channel_name } => Some(channel_name),
        ActionView::PlayTTS { text } => Some(text),
        ActionView::PlayMusic { url } => Some(url),
        ActionView::SetVolume { volume } => Some(decimal(volume as nat) + "%"@),
        ActionView::Reply { .. } => None,
        ActionView::JoinUserChannel => None,
    }
}

fn concat3(a: &str, b: &str, c: &str) -> (r: String)
    ensures
        r@ == a@ + b@ + c@,
{
    let mut s = a.to_owned();
    s.append(b);
    s.append(c);
    s
}

fn concat2(a: &str, b: &str) -> (r: String)
    ensures
        r@ == a@ + b@,
{
    let mut s = a.to_owned();
    s.append(b);
    s
}

fn push_present(v: &mut Vec<String>, o: &Option<String>)
    ensures
        string_views(final(v)@) == match opt_view(*o) {
            Some(x) => string_views(old(v)@).push(x),
            None => string_views(old(v)@),
        },
{
    match o {
        Some(x) => {
            let ghost before = string_views(v@);
            v.push(x.clone());
            assert(string_views(v@) =~= before.push(x@));
        },
        None => {},
    }
}

/// Helper: extract the target name from a BotAction, if applicable.
pub fn action_target(action: &BotAction) -> (r: Option<String>)
    ensures
        match r {
            Some(s) => action_target_spec(action@) == Some(s@),
            None => action_target_spec(action@) is None,
        },
{
    match action {
        BotAction::KickClient { client_name, .. } => Some(client_name.clone()),
        BotAction::BanClient { client_name, .. } => Some(client_name.clone()),
        BotAction::MoveClient { client_name, channel_name } => Some(
            concat3(client_name.as_str(), " -> ", channel_name.as_str()),
        ),
        BotAction::MoveClientReturn { client_name } => Some(client_name.clone()),
        BotAction::PokeClient { client_name, .. } => Some(client_name.clone()),
        BotAction::SendMessage { target_name, .. } => Some(target_name.clone()),
        BotAction::CreateChannel { channel_name, .. } => Some(channel_name.clone()),
        BotAction::EditChannel { channel_name, .. } => Some(channel_name.clone()),
        BotAction::DeleteChannel { channel_name } => Some(channel_name.clone()),
        BotAction::SetChannelAdmin { channel_name, client_name } => {
            let who: &str = match client_name {
                Some(c) => c.as_str(),
                None => "self",
            };
            { let t = concat3(who, " in ", channel_name.as_str()); assert(action_target_spec(action@) == Some(t@)); Some(t) }
        },
        BotAction::SetServerGroup { client_name, server_group_id } => {
            let n = u64_to_string(*server_group_id);
            { let t = concat3(client_name.as_str(), " +group ", n.as_str()); assert(action_target_spec(action@) == Some(t@)); Some(t) }
        },
        BotAction::RemoveServerGroup { client_name, server_group_id } => {
            let n = u64_to_string(*server_group_id);
            Some(concat3(client_name.as_str(), " -group ", n.as_str()))
        },
        BotAction::EditChannelDescription { channel_id, .. } => {
            let n = u64_to_string(*channel_id);
            { let t = concat2("channel ", n.as_str()); assert(action_target_spec(action@) == Some(t@)); Some(t) }
        },
        BotAction::BanAdd { ip, uid, name, .. } => {
            let mut parts: Vec<String> = Vec::new();
            push_present(&mut parts, ip);
            push_present(&mut parts, uid);
            push_present(&mut parts, name);
            assert(string_views(parts@) =~= present(opt_view(*ip), opt_view(*uid), opt_view(*name)));
            let joined = join_strings(&parts, ", ");
            { let t = concat2("ban: ", joined.as_str()); assert(action_target_spec(action@) == Some(t@)); Some(t) }
        },
        BotAction::BanDel { ban_id } => {
            let n = u64_to_string(*ban_id);
            { let t = concat2("ban #", n.as_str()); assert(action_target_spec(action@) == Some(t@)); Some(t) }
        },
        BotAction::BanDelAll => Some("all bans".to_owned()),
        BotAction::BanList => Some("list bans".to_owned()),
        BotAction::ClientEdit { client_name, .. } => Some(client_name.clone()),
        BotAction::ChannelMoveAction { channel_name, parent_channel_name } => Some(
            concat3(channel_name.as_str(), " -> ", parent_channel_name.as_str()),
        ),
        BotAction::ChannelSubscribe { channel_name } => Some(channel_name.clone()),
        BotAction::ChannelUnsubscribe { channel_name } => Some(channel_name.clone()),
        BotAction::SendChannelMessage { channel_name, .. } => Some(channel_name.clone()),
        BotAction::MoveBotChannel { channel_name } => Some(channel_name.clone()),
        BotAction::PlayTTS { text } => Some(text.clone()),
        BotAction::PlayMusic { url } => Some(url.clone()),
        BotAction::SetVolume { volume } => {
            let n = u64_to_string(*volume as u64);
            { let t = concat2(n.as_str(), "%"); assert(action_target_spec(action@) == Some(t@)); Some(t) }
        },
        BotAction::Reply { .. } => None,
        BotAction::JoinUserChannel => None,
    }
}

/// An action read from one of the model's objects is the action its
/// `action` field names, in any case; the one exception is a channel
/// creation whose name is too long, which becomes an apology instead.
pub proof fn law_read_action_has_its_name(p: crate::actions::PayloadView)
    ensures
        crate::actions::convert_spec(p) matches Some(a) ==> (action_name_spec(a) == crate::text::uppercase(p.action)
            || (crate::text::uppercase(p.action) == "CREATE_CHANNEL"@ && a is Reply)),
{
}

} // verus!
