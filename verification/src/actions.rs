//! Bot actions and the rules that turn a model's reply into them.
use vstd::prelude::*;
use crate::text::{
    byte_len, byte_len_gt, chars_of, ends_with, ends_with_exec, extend_chars, find, find_exec,
    lemma_find_from, matches_at, replace_all, replace_all_exec, slice_chars, starts_with,
    starts_with_exec, str_eq, string_of, string_views, to_uppercase, trim, trim_chars, uppercase,
    find_from, back_ws, back_ws_exec, count_char, count_char_exec, lemma_back_ws_bounds, contains,
    contains_exec, rfind_char, rfind_char_exec, trim_end_char, trim_end_char_exec, trim_start_char,
    trim_start_char_exec, lemma_rfind_char_bounds, join, join_strings,
};
use vstd::string::StringExecFns;


verus! {

/// An `Option<String>` seen through its characters.
pub open spec fn opt_view(o: Option<String>) -> Option<Seq<char>> {
    match o {
        Some(s) => Some(s@),
        None => None,
    }
}

/// The contents of an optional string, empty when absent.
pub open spec fn or_empty(o: Option<Seq<char>>) -> Seq<char> {
    match o {
        Some(s) => s,
        None => Seq::empty(),
    }
}

/// Represents an action the bot should perform.
pub enum BotAction {
    /// Send a text reply back to the user.
    Reply { message: String },
    /// Create a new channel on the server.
    CreateChannel { channel_name: String, password: Option<String>, permanent: bool },
    /// Edit an existing channel (e.g. make it permanent).
    EditChannel { channel_name: String, set_permanent: bool },
    /// Edit a channel's description.
    EditChannelDescription { channel_id: u64, description: String },
    /// Delete an existing channel.
    DeleteChannel { channel_name: String },
    /// Give Channel Admin to a specific user.
    SetChannelAdmin { channel_name: String, client_name: Option<String> },
    /// Kick a user from the server.
    KickClient { client_name: String, reason: Option<String> },
    /// Move a user to a specific channel.
    MoveClient { client_name: String, channel_name: String },
    /// Return a user to the channel they were in before the last move.
    MoveClientReturn { client_name: String },
    /// Add a server group to a user.
    SetServerGroup { client_name: String, server_group_id: u64 },
    /// Remove a server group from a user.
    RemoveServerGroup { client_name: String, server_group_id: u64 },
    /// Poke a user with a message.
    PokeClient { client_name: String, message: String },
    /// Join the channel of the user who invoked this action.
    JoinUserChannel,
    /// Ban a user from the server (admin only).
    BanClient { client_name: String, reason: Option<String>, duration_seconds: Option<u64> },
    /// Send a message to a specific user.
    SendMessage { target_name: String, message: String },
    /// Ban by IP, UID, or Name (without requiring user to be online).
    BanAdd { ip: Option<String>, uid: Option<String>, name: Option<String>, reason: Option<String>, duration_seconds: Option<u64> },
    /// Remove a specific ban by ID.
    BanDel { ban_id: u64 },
    /// Remove all bans.
    BanDelAll,
    /// List all active bans.
    BanList,
    /// Edit client properties (description, is_talker).
    ClientEdit { client_name: String, description: Option<String>, is_talker: Option<bool> },
    /// Move a channel to a new parent.
    ChannelMoveAction { channel_name: String, parent_channel_name: String },
    /// Subscribe to a channel.
    ChannelSubscribe { channel_name: String },
    /// Unsubscribe from a channel.
    ChannelUnsubscribe { channel_name: String },
    /// Send a message to a channel.
    SendChannelMessage { channel_name: String, message: String },
    /// Move the bot itself to a channel and stay there.
    MoveBotChannel { channel_name: String },
    /// Speak a text in the bot's channel.
    PlayTTS { text: String },
    /// Play music from a URL.
    PlayMusic { url: String },
    /// Set the bot's audio volume (0-100).
    SetVolume { volume: u8 },
}

/// A `BotAction` with its strings seen as character sequences.
pub ghost enum ActionView {
    Reply { message: Seq<char> },
    CreateChannel { channel_name: Seq<char>, password: Option<Seq<char>>, permanent: bool },
    EditChannel { channel_name: Seq<char>, set_permanent: bool },
    EditChannelDescription { channel_id: u64, description: Seq<char> },
    DeleteChannel { channel_name: Seq<char> },
    SetChannelAdmin { channel_name: Seq<char>, client_name: Option<Seq<char>> },
    KickClient { client_name: Seq<char>, reason: Option<Seq<char>> },
    MoveClient { client_name: Seq<char>, channel_name: Seq<char> },
    MoveClientReturn { client_name: Seq<char> },
    SetServerGroup { client_name: Seq<char>, server_group_id: u64 },
    RemoveServerGroup { client_name: Seq<char>, server_group_id: u64 },
    PokeClient { client_name: Seq<char>, message: Seq<char> },
    JoinUserChannel,
    BanClient { client_name: Seq<char>, reason: Option<Seq<char>>, duration_seconds: Option<u64> },
    SendMessage { target_name: Seq<char>, message: Seq<char> },
    BanAdd { ip: Option<Seq<char>>, uid: Option<Seq<char>>, name: Option<Seq<char>>, reason: Option<Seq<char>>, duration_seconds: Option<u64> },
    BanDel { ban_id: u64 },
    BanDelAll,
    BanList,
    ClientEdit { client_name: Seq<char>, description: Option<Seq<char>>, is_talker: Option<bool> },
    ChannelMoveAction { channel_name: Seq<char>, parent_channel_name: Seq<char> },
    ChannelSubscribe { channel_name: Seq<char> },
    ChannelUnsubscribe { channel_name: Seq<char> },
    SendChannelMessage { channel_name: Seq<char>, message: Seq<char> },
    MoveBotChannel { channel_name: Seq<char> },
    PlayTTS { text: Seq<char> },
    PlayMusic { url: Seq<char> },
    SetVolume { volume: u8 },
}

impl View for BotAction {
    type V = ActionView;

    open spec fn view(&self) -> ActionView {
        match self {
            BotAction::Reply { message } => ActionView::Reply { message: message@ },
            BotAction::CreateChannel { channel_name, password, permanent } => ActionView::CreateChannel { channel_name: channel_name@, password: opt_view(*password), permanent: *permanent },
            BotAction::EditChannel { channel_name, set_permanent } => ActionView::EditChannel { channel_name: channel_name@, set_permanent: *set_permanent },
            BotAction::EditChannelDescription { channel_id, description } => ActionView::EditChannelDescription { channel_id: *channel_id, description: description@ },
            BotAction::DeleteChannel { channel_name } => ActionView::DeleteChannel { channel_name: channel_name@ },
            BotAction::SetChannelAdmin { channel_name, client_name } => ActionView::SetChannelAdmin { channel_name: channel_name@, client_name: opt_view(*client_name) },
            BotAction::KickClient { client_name, reason } => ActionView::KickClient { client_name: client_name@, reason: opt_view(*reason) },
            BotAction::MoveClient { client_name, channel_name } => ActionView::MoveClient { client_name: client_name@, channel_name: channel_name@ },
            BotAction::MoveClientReturn { client_name } => ActionView::MoveClientReturn { client_name: client_name@ },
            BotAction::SetServerGroup { client_name, server_group_id } => ActionView::SetServerGroup { client_name: client_name@, server_group_id: *server_group_id },
            BotAction::RemoveServerGroup { client_name, server_group_id } => ActionView::RemoveServerGroup { client_name: client_name@, server_group_id: *server_group_id },
            BotAction::PokeClient { client_name, message } => ActionView::PokeClient { client_name: client_name@, message: message@ },
            BotAction::JoinUserChannel => ActionView::JoinUserChannel,
            BotAction::BanClient { client_name, reason, duration_seconds } => ActionView::BanClient { client_name: client_name@, reason: opt_view(*reason), duration_seconds: *duration_seconds },
            BotAction::SendMessage { target_name, message } => ActionView::SendMessage { target_name: target_name@, message: message@ },
            BotAction::BanAdd { ip, uid, name, reason, duration_seconds } => ActionView::BanAdd { ip: opt_view(*ip), uid: opt_view(*uid), name: opt_view(*name), reason: opt_view(*reason), duration_seconds: *duration_seconds },
            BotAction::BanDel { ban_id } => ActionView::BanDel { ban_id: *ban_id },
            BotAction::BanDelAll => ActionView::BanDelAll,
            BotAction::BanList => ActionView::BanList,
            BotAction::ClientEdit { client_name, description, is_talker } => ActionView::ClientEdit { client_name: client_name@, description: opt_view(*description), is_talker: *is_talker },
            BotAction::ChannelMoveAction { channel_name, parent_channel_name } => ActionView::ChannelMoveAction { channel_name: channel_name@, parent_channel_name: parent_channel_name@ },
            BotAction::ChannelSubscribe { channel_name } => ActionView::ChannelSubscribe { channel_name: channel_name@ },
            BotAction::ChannelUnsubscribe { channel_name } => ActionView::ChannelUnsubscribe { channel_name: channel_name@ },
            BotAction::SendChannelMessage { channel_name, message } => ActionView::SendChannelMessage { channel_name: channel_name@, message: message@ },
            BotAction::MoveBotChannel { channel_name } => ActionView::MoveBotChannel { channel_name: channel_name@ },
            BotAction::PlayTTS { text } => ActionView::PlayTTS { text: text@ },
            BotAction::PlayMusic { url } => ActionView::PlayMusic { url: url@ },
            BotAction::SetVolume { volume } => ActionView::SetVolume { volume: *volume },
        }
    }
}

/// An optional action seen through its view.
pub open spec fn opt_action_view(o: Option<BotAction>) -> Option<ActionView> {
    match o {
        Some(a) => Some(a@),
        None => None,
    }
}

/// A list of actions seen through their views.
pub open spec fn actions_view(v: Seq<BotAction>) -> Seq<ActionView> {
    v.map_values(|a: BotAction| a@)
}

/// One JSON object of a model reply, as its fields were read.
pub struct ActionPayload {
    pub action: String,
    pub message: Option<String>,
    pub channel_name: Option<String>,
    pub password: Option<String>,
    pub permanent: Option<bool>,
    pub set_permanent: Option<bool>,
    pub client_name: Option<String>,
    pub reason: Option<String>,
    pub channel_id: Option<u64>,
    pub description: Option<String>,
    pub server_group_id: Option<u64>,
    pub duration_seconds: Option<u64>,
    pub target_name: Option<String>,
    pub ip: Option<String>,
    pub uid: Option<String>,
    pub name: Option<String>,
    pub ban_id: Option<u64>,
    pub is_talker: Option<bool>,
    pub parent_channel_name: Option<String>,
    pub text: Option<String>,
    pub url: Option<String>,
    pub volume: Option<u8>,
}

/// An `ActionPayload` with its strings seen as character sequences.
pub ghost struct PayloadView {
    pub action: Seq<char>,
    pub message: Option<Seq<char>>,
    pub channel_name: Option<Seq<char>>,
    pub password: Option<Seq<char>>,
    pub permanent: Option<bool>,
    pub set_permanent: Option<bool>,
    pub client_name: Option<Seq<char>>,
    pub reason: Option<Seq<char>>,
    pub channel_id: Option<u64>,
    pub description: Option<Seq<char>>,
    pub server_group_id: Option<u64>,
    pub duration_seconds: Option<u64>,
    pub target_name: Option<Seq<char>>,
    pub ip: Option<Seq<char>>,
    pub uid: Option<Seq<char>>,
    pub name: Option<Seq<char>>,
    pub ban_id: Option<u64>,
    pub is_talker: Option<bool>,
    pub parent_channel_name: Option<Seq<char>>,
    pub text: Option<Seq<char>>,
    pub url: Option<Seq<char>>,
    pub volume: Option<u8>,
}

impl View for ActionPayload {
    type V = PayloadView;

    open spec fn view(&self) -> PayloadView {
        PayloadView {
            action: self.action@,
            message: opt_view(self.message),
            channel_name: opt_view(self.channel_name),
            password: opt_view(self.password),
            permanent: self.permanent,
            set_permanent: self.set_permanent,
            client_name: opt_view(self.client_name),
            reason: opt_view(self.reason),
            channel_id: self.channel_id,
            description: opt_view(self.description),
            server_group_id: self.server_group_id,
            duration_seconds: self.duration_seconds,
            target_name: opt_view(self.target_name),
            ip: opt_view(self.ip),
            uid: opt_view(self.uid),
            name: opt_view(self.name),
            ban_id: self.ban_id,
            is_talker: self.is_talker,
            parent_channel_name: opt_view(self.parent_channel_name),
            text: opt_view(self.text),
            url: opt_view(self.url),
            volume: self.volume,
        }
    }
}


/// An optional string kept only when it is not empty.
pub open spec fn filter_nonempty(o: Option<Seq<char>>) -> Option<Seq<char>> {
    match o {
        Some(s) => if s.len() > 0 {
            Some(s)
        } else {
            None
        },
        None => None,
    }
}

pub open spec fn bool_or(o: Option<bool>, d: bool) -> bool {
    match o {
        Some(b) => b,
        None => d,
    }
}

/// The action a payload stands for, if any: the action name is compared in
/// upper case, and each action needs its own fields.
pub open spec fn convert_spec(p: PayloadView) -> Option<ActionView> {
    let a = uppercase(p.action);
    let name = or_empty(p.channel_name);
    let client = or_empty(p.client_name);
    let message = or_empty(p.message);
    if a == "REPLY"@ {
        if message.len() == 0 { None } else { Some(ActionView::Reply { message }) }
    } else if a == "CREATE_CHANNEL"@ {
        if name.len() == 0 {
            None
        } else if byte_len(name) > 100 {
            Some(ActionView::Reply { message: "Sorry, channel names must be 100 characters or less."@ })
        } else {
            Some(ActionView::CreateChannel {
                channel_name: name,
                password: filter_nonempty(p.password),
                permanent: bool_or(p.permanent, false),
            })
        }
    } else if a == "EDIT_CHANNEL"@ {
        if name.len() == 0 { None } else {
            Some(ActionView::EditChannel { channel_name: name, set_permanent: bool_or(p.set_permanent, true) })
        }
    } else if a == "DELETE_CHANNEL"@ {
        if name.len() == 0 { None } else { Some(ActionView::DeleteChannel { channel_name: name }) }
    } else if a == "SET_CHANNEL_DESCRIPTION"@ {
        match p.channel_id {
            Some(id) => Some(ActionView::EditChannelDescription { channel_id: id, description: or_empty(p.description) }),
            None => None,
        }
    } else if a == "SET_CHANNEL_ADMIN"@ {
        if name.len() == 0 { None } else {
            Some(ActionView::SetChannelAdmin { channel_name: name, client_name: p.client_name })
        }
    } else if a == "KICK_CLIENT"@ {
        if client.len() == 0 { None } else { Some(ActionView::KickClient { client_name: client, reason: p.reason }) }
    } else if a == "MOVE_CLIENT"@ {
        if client.len() == 0 || name.len() == 0 { None } else {
            Some(ActionView::MoveClient { client_name: client, channel_name: name })
        }
    } else if a == "MOVE_CLIENT_RETURN"@ {
        if client.len() == 0 { None } else { Some(ActionView::MoveClientReturn { client_name: client }) }
    } else if a == "SET_SERVER_GROUP"@ {
        if client.len() == 0 { None } else {
            match p.server_group_id {
                Some(g) => Some(ActionView::SetServerGroup { client_name: client, server_group_id: g }),
                None => None,
            }
        }
    } else if a == "REMOVE_SERVER_GROUP"@ {
        if client.len() == 0 { None } else {
            match p.server_group_id {
                Some(g) => Some(ActionView::RemoveServerGroup { client_name: client, server_group_id: g }),
                None => None,
            }
        }
    } else if a == "POKE_CLIENT"@ {
        if client.len() == 0 { None } else { Some(ActionView::PokeClient { client_name: client, message }) }
    } else if a == "JOIN_USER_CHANNEL"@ {
        Some(ActionView::JoinUserChannel)
    } else if a == "BAN_CLIENT"@ {
        if client.len() == 0 { None } else {
            Some(ActionView::BanClient { client_name: client, reason: p.reason, duration_seconds: p.duration_seconds })
        }
    } else if a == "SEND_MESSAGE"@ {
        let target = or_empty(p.target_name);
        if target.len() == 0 || message.len() == 0 { None } else {
            Some(ActionView::SendMessage { target_name: target, message })
        }
    } else if a == "BAN_ADD"@ {
        if p.ip is None && p.uid is None && p.name is None { None } else {
            Some(ActionView::BanAdd { ip: p.ip, uid: p.uid, name: p.name, reason: p.reason, duration_seconds: p.duration_seconds })
        }
    } else if a == "BAN_DEL"@ {
        match p.ban_id {
            Some(id) => Some(ActionView::BanDel { ban_id: id }),
            None => None,
        }
    } else if a == "BAN_DEL_ALL"@ {
        Some(ActionView::BanDelAll)
    } else if a == "BAN_LIST"@ {
        Some(ActionView::BanList)
    } else if a == "CLIENT_EDIT"@ {
        if client.len() == 0 { None } else {
            Some(ActionView::ClientEdit { client_name: client, description: p.description, is_talker: p.is_talker })
        }
    } else if a == "CHANNEL_MOVE"@ {
        let parent = or_empty(p.parent_channel_name);
        if name.len() == 0 || parent.len() == 0 { None } else {
            Some(ActionView::ChannelMoveAction { channel_name: name, parent_channel_name: parent })
        }
    } else if a == "CHANNEL_SUBSCRIBE"@ {
        if name.len() == 0 { None } else { Some(ActionView::ChannelSubscribe { channel_name: name }) }
    } else if a == "CHANNEL_UNSUBSCRIBE"@ {
        if name.len() == 0 { None } else { Some(ActionView::ChannelUnsubscribe { channel_name: name }) }
    } else if a == "SEND_CHANNEL_MESSAGE"@ {
        if name.len() == 0 || message.len() == 0 { None } else {
            Some(ActionView::SendChannelMessage { channel_name: name, message })
        }
    } else if a == "MOVE_BOT_CHANNEL"@ {
        if name.len() == 0 { None } else { Some(ActionView::MoveBotChannel { channel_name: name }) }
    } else if a == "PLAY_TTS"@ {
        let text = or_empty(p.text);
        if text.len() == 0 { None } else { Some(ActionView::PlayTTS { text }) }
    } else if a == "PLAY_MUSIC"@ {
        let url = or_empty(p.url);
        if url.len() == 0 { None } else { Some(ActionView::PlayMusic { url }) }
    } else if a == "SET_VOLUME"@ {
        match p.volume {
            Some(v) => Some(ActionView::SetVolume { volume: if v <= 100 { v } else { 100 } }),
            None => None,
        }
    } else {
        None
    }
}

fn take_or_empty(o: Option<String>) -> (r: String)
    ensures
        r@ == or_empty(opt_view(o)),
{
    match o {
        Some(s) => s,
        None => String::new(),
    }
}

fn keep_nonempty(o: Option<String>) -> (r: Option<String>)
    ensures
        opt_view(r) == filter_nonempty(opt_view(o)),
{
    match o {
        Some(s) => if s.as_str().is_empty() {
            None
        } else {
            Some(s)
        },
        None => None,
    }
}

/// Convert a payload into the action it names.
#[verifier::rlimit(80)]
pub fn convert_payload(payload: ActionPayload) -> (r: Option<BotAction>)
    ensures
        opt_action_view(r) == convert_spec(payload@),
{
    let upper = to_uppercase(payload.action.as_str());
    let a = upper.as_str();
    if str_eq(a, "REPLY") {
        let message = take_or_empty(payload.message);
        if message.as_str().is_empty() { None } else { Some(BotAction::Reply { message }) }
    } else if str_eq(a, "CREATE_CHANNEL") {
        let name = take_or_empty(payload.channel_name);
        if name.as_str().is_empty() {
            None
        } else if byte_len_gt(chars_of(name.as_str()).as_slice(), 100) {
            Some(BotAction::Reply { message: "Sorry, channel names must be 100 characters or less.".to_owned() })
        } else {
            let permanent = match payload.permanent { Some(b) => b, None => false };
            Some(BotAction::CreateChannel { channel_name: name, password: keep_nonempty(payload.password), permanent })
        }
    } else if str_eq(a, "EDIT_CHANNEL") {
        let name = take_or_empty(payload.channel_name);
        if name.as_str().is_empty() { None } else {
            let set_permanent = match payload.set_permanent { Some(b) => b, None => true };
            Some(BotAction::EditChannel { channel_name: name, set_permanent })
        }
    } else if str_eq(a, "DELETE_CHANNEL") {
        let name = take_or_empty(payload.channel_name);
        if name.as_str().is_empty() { None } else { Some(BotAction::DeleteChannel { channel_name: name }) }
    } else if str_eq(a, "SET_CHANNEL_DESCRIPTION") {
        match payload.channel_id {
            Some(id) => Some(BotAction::EditChannelDescription { channel_id: id, description: take_or_empty(payload.description) }),
            None => None,
        }
    } else if str_eq(a, "SET_CHANNEL_ADMIN") {
        let name = take_or_empty(payload.channel_name);
        if name.as_str().is_empty() { None } else {
            Some(BotAction::SetChannelAdmin { channel_name: name, client_name: payload.client_name })
        }
    } else if str_eq(a, "KICK_CLIENT") {
        let client = take_or_empty(payload.client_name);
        if client.as_str().is_empty() { None } else { Some(BotAction::KickClient { client_name: client, reason: payload.reason }) }
    } else if str_eq(a, "MOVE_CLIENT") {
        let client = take_or_empty(payload.client_name);
        let name = take_or_empty(payload.channel_name);
        if client.as_str().is_empty() || name.as_str().is_empty() { None } else {
            Some(BotAction::MoveClient { client_name: client, channel_name: name })
        }
    } else if str_eq(a, "MOVE_CLIENT_RETURN") {
        let client = take_or_empty(payload.client_name);
        if client.as_str().is_empty() { None } else { Some(BotAction::MoveClientReturn { client_name: client }) }
    } else if str_eq(a, "SET_SERVER_GROUP") {
        let client = take_or_empty(payload.client_name);
        if client.as_str().is_empty() { None } else {
            match payload.server_group_id {
                Some(g) => Some(BotAction::SetServerGroup { client_name: client, server_group_id: g }),
                None => None,
            }
        }
    } else if str_eq(a, "REMOVE_SERVER_GROUP") {
        let client = take_or_empty(payload.client_name);
        if client.as_str().is_empty() { None } else {
            match payload.server_group_id {
                Some(g) => Some(BotAction::RemoveServerGroup { client_name: client, server_group_id: g }),
                None => None,
            }
        }
    } else if str_eq(a, "POKE_CLIENT") {
        let client = take_or_empty(payload.client_name);
        let message = take_or_empty(payload.message);
        if client.as_str().is_empty() { None } else { Some(BotAction::PokeClient { client_name: client, message }) }
    } else if str_eq(a, "JOIN_USER_CHANNEL") {
        Some(BotAction::JoinUserChannel)
    } else if str_eq(a, "BAN_CLIENT") {
        let client = take_or_empty(payload.client_name);
        if client.as_str().is_empty() { None } else {
            Some(BotAction::BanClient { client_name: client, reason: payload.reason, duration_seconds: payload.duration_seconds })
        }
    } else if str_eq(a, "SEND_MESSAGE") {
        let target = take_or_empty(payload.target_name);
        let message = take_or_empty(payload.message);
        if target.as_str().is_empty() || message.as_str().is_empty() { None } else {
            Some(BotAction::SendMessage { target_name: target, message })
        }
    } else if str_eq(a, "BAN_ADD") {
        if payload.ip.is_none() && payload.uid.is_none() && payload.name.is_none() { None } else {
            Some(BotAction::BanAdd { ip: payload.ip, uid: payload.uid, name: payload.name, reason: payload.reason, duration_seconds: payload.duration_seconds })
        }
    } else if str_eq(a, "BAN_DEL") {
        match payload.ban_id {
            Some(id) => Some(BotAction::BanDel { ban_id: id }),
            None => None,
        }
    } else if str_eq(a, "BAN_DEL_ALL") {
        Some(BotAction::BanDelAll)
    } else if str_eq(a, "BAN_LIST") {
        Some(BotAction::BanList)
    } else if str_eq(a, "CLIENT_EDIT") {
        let client = take_or_empty(payload.client_name);
        if client.as_str().is_empty() { None } else {
            Some(BotAction::ClientEdit { client_name: client, description: payload.description, is_talker: payload.is_talker })
        }
    } else if str_eq(a, "CHANNEL_MOVE") {
        let name = take_or_empty(payload.channel_name);
        let parent = take_or_empty(payload.parent_channel_name);
        if name.as_str().is_empty() || parent.as_str().is_empty() { None } else {
            Some(BotAction::ChannelMoveAction { channel_name: name, parent_channel_name: parent })
        }
    } else if str_eq(a, "CHANNEL_SUBSCRIBE") {
        let name = take_or_empty(payload.channel_name);
        if name.as_str().is_empty() { None } else { Some(BotAction::ChannelSubscribe { channel_name: name }) }
    } else if str_eq(a, "CHANNEL_UNSUBSCRIBE") {
        let name = take_or_empty(payload.channel_name);
        if name.as_str().is_empty() { None } else { Some(BotAction::ChannelUnsubscribe { channel_name: name }) }
    } else if str_eq(a, "SEND_CHANNEL_MESSAGE") {
        let name = take_or_empty(payload.channel_name);
        let message = take_or_empty(payload.message);
        if name.as_str().is_empty() || message.as_str().is_empty() { None } else {
            Some(BotAction::SendChannelMessage { channel_name: name, message })
        }
    } else if str_eq(a, "MOVE_BOT_CHANNEL") {
        let name = take_or_empty(payload.channel_name);
        if name.as_str().is_empty() { None } else { Some(BotAction::MoveBotChannel { channel_name: name }) }
    } else if str_eq(a, "PLAY_TTS") {
        let text = take_or_empty(payload.text);
        if text.as_str().is_empty() { None } else { Some(BotAction::PlayTTS { text }) }
    } else if str_eq(a, "PLAY_MUSIC") {
        let url = take_or_empty(payload.url);
        if url.as_str().is_empty() { None } else { Some(BotAction::PlayMusic { url }) }
    } else if str_eq(a, "SET_VOLUME") {
        match payload.volume {
            Some(v) => Some(BotAction::SetVolume { volume: if v <= 100 { v } else { 100 } }),
            None => None,
        }
    } else {
        None
    }
}

// ---------------------------------------------------------------- cleaning

/// Removal of `<think>...</think>` blocks: each round cuts from the first
/// opening tag to the end of the first closing tag after it, or drops
/// everything from an opening tag that no closing tag follows.
pub open spec fn strip_think(t: Seq<char>) -> Seq<char>
    decreases t.len(),
{
    let open = "<think>"@;
    let close = "</think>"@;
    match find(t, open) {
        None => t,
        Some(s) => match find_from(t, close, s) {
            None => t.take(s),
            Some(e) => if 0 <= s <= e && e + close.len() <= t.len() && close.len() > 0 {
                strip_think(t.take(s) + t.skip(e + close.len()))
            } else {
                t
            },
        },
    }
}

/// No `<think>` tag is left once the blocks are removed.
pub proof fn law_think_blocks_removed(t: Seq<char>)
    ensures
        !contains(strip_think(t), "<think>"@),
    decreases t.len(),
{
    let open = "<think>"@;
    let close = "</think>"@;
    reveal_strlit("<think>");
    reveal_strlit("</think>");
    lemma_find_from(t, open, 0);
    match find(t, open) {
        None => {},
        Some(s) => {
            lemma_find_from(t, close, s);
            match find_from(t, close, s) {
                None => {
                    let u = t.take(s);
                    lemma_find_from(u, open, 0);
                    if let Some(k) = find(u, open) {
                        assert(u.subrange(k, k + 7) =~= t.subrange(k, k + 7));
                        assert(matches_at(t, open, k));
                    }
                },
                Some(e) => {
                    law_think_blocks_removed(t.take(s) + t.skip(e + close.len()));
                },
            }
        },
    }
}

/// The reply text without reasoning blocks, code fences and tool-call wrapper tags.
pub open spec fn clean_spec(raw: Seq<char>) -> Seq<char> {
    let t0 = trim(strip_think(raw));
    let t1 = if starts_with(t0, "```json"@) {
        t0.skip("```json"@.len() as int)
    } else if starts_with(t0, "```"@) {
        t0.skip("```"@.len() as int)
    } else {
        t0
    };
    let t2 = if ends_with(t1, "```"@) {
        t1.take(t1.len() - "```"@.len())
    } else {
        t1
    };
    let t3 = replace_all(t2, "<minimax:tool_call>"@, Seq::empty());
    let t4 = replace_all(t3, "</minimax:tool_call>"@, Seq::empty());
    trim(t4)
}

fn strip_think_exec(raw: &[char]) -> (r: Vec<char>)
    ensures
        r@ == strip_think(raw@),
{
    let open = chars_of("<think>");
    let close = chars_of("</think>");
    proof {
        reveal_strlit("<think>");
        reveal_strlit("</think>");
    }
    let mut t = slice_chars(raw, 0, raw.len());
    assert(t@ =~= raw@);
    loop
        invariant
            strip_think(t@) == strip_think(raw@),
            open@ == "<think>"@,
            close@ == "</think>"@,
            close@.len() == 8,
        decreases t@.len(),
    {
        match find_exec(t.as_slice(), open.as_slice(), 0) {
            None => {
                return t;
            },
            Some(s) => {
                proof {
                    lemma_find_from(t@, open@, 0);
                }
                match find_exec(t.as_slice(), close.as_slice(), s) {
                    None => {
                        return slice_chars(t.as_slice(), 0, s);
                    },
                    Some(e) => {
                        proof {
                            lemma_find_from(t@, close@, s as int);
                            assert(matches_at(t@, close@, e as int));
                            assert(e + close@.len() <= t@.len());
                        }
                        assert(close.len() == 8 && t.len() == t@.len());
                        let mut n = slice_chars(t.as_slice(), 0, s);
                        let rest = slice_chars(t.as_slice(), e + close.len(), t.len());
                        extend_chars(&mut n, rest.as_slice());
                        assert(n@ =~= t@.take(s as int) + t@.skip(e + 8));
                        t = n;
                    },
                }
            },
        }
    }
}

/// Remove common LLM artifacts from a response (thinking tags, code fences, etc.).
pub fn clean_response_text(raw: &str) -> (r: String)
    ensures
        r@ == clean_spec(raw@),
{
    let v = chars_of(raw);
    let stripped = strip_think_exec(v.as_slice());
    let t0 = trim_chars(stripped.as_slice());
    let fence_json = chars_of("```json");
    let fence = chars_of("```");
    let t1 = if starts_with_exec(t0.as_slice(), fence_json.as_slice()) {
        slice_chars(t0.as_slice(), fence_json.len(), t0.len())
    } else if starts_with_exec(t0.as_slice(), fence.as_slice()) {
        slice_chars(t0.as_slice(), fence.len(), t0.len())
    } else {
        t0
    };
    let t2 = if ends_with_exec(t1.as_slice(), fence.as_slice()) {
        slice_chars(t1.as_slice(), 0, t1.len() - fence.len())
    } else {
        t1
    };
    let open_tag = chars_of("<minimax:tool_call>");
    let close_tag = chars_of("</minimax:tool_call>");
    let empty: Vec<char> = Vec::new();
    proof {
        reveal_strlit("<minimax:tool_call>");
        reveal_strlit("</minimax:tool_call>");
        assert(empty@ =~= Seq::<char>::empty());
    }
    let t3 = replace_all_exec(t2.as_slice(), open_tag.as_slice(), empty.as_slice());
    let t4 = replace_all_exec(t3.as_slice(), close_tag.as_slice(), empty.as_slice());
    let t5 = trim_chars(t4.as_slice());
    string_of(t5.as_slice())
}

// ---------------------------------------------------------------- locating JSON objects

/// The end (one past the matching `}`) of the brace group scanned from `i`
/// with `depth` groups already open.
pub open spec fn close_brace(t: Seq<char>, i: int, depth: int) -> Option<int>
    decreases t.len() - i,
{
    if i < 0 || i >= t.len() {
        None
    } else if t[i] == '{' {
        close_brace(t, i + 1, depth + 1)
    } else if t[i] == '}' {
        if depth - 1 == 0 {
            Some(i + 1)
        } else {
            close_brace(t, i + 1, depth - 1)
        }
    } else {
        close_brace(t, i + 1, depth)
    }
}

pub proof fn lemma_close_brace_bounds(t: Seq<char>, i: int, depth: int)
    ensures
        close_brace(t, i, depth) matches Some(e) ==> i < e <= t.len(),
    decreases t.len() - i,
{
    if i < 0 || i >= t.len() {
    } else if t[i] == '{' {
        lemma_close_brace_bounds(t, i + 1, depth + 1);
    } else if t[i] == '}' {
        if depth - 1 != 0 {
            lemma_close_brace_bounds(t, i + 1, depth - 1);
        }
    } else {
        lemma_close_brace_bounds(t, i + 1, depth);
    }
}

/// The balanced `{...}` groups of `t` from position `from` on, left to right;
/// an opening brace that is never closed is skipped.
pub open spec fn json_spans_from(t: Seq<char>, from: int) -> Seq<Seq<char>>
    decreases t.len() - from,
{
    if from < 0 || from >= t.len() {
        Seq::empty()
    } else {
        match find_from(t, seq!['{'], from) {
            None => Seq::empty(),
            Some(st) => if from <= st < t.len() {
                match close_brace(t, st, 0) {
                    Some(end) => if st < end <= t.len() {
                        seq![t.subrange(st, end)] + json_spans_from(t, end)
                    } else {
                        Seq::empty()
                    },
                    None => json_spans_from(t, st + 1),
                }
            } else {
                Seq::empty()
            },
        }
    }
}

/// The candidate JSON objects embedded in `t`.
pub open spec fn json_spans(t: Seq<char>) -> Seq<Seq<char>> {
    json_spans_from(t, 0)
}

fn close_brace_exec(t: &[char], st: usize) -> (r: Option<usize>)
    requires
        st < t@.len(),
        t@[st as int] == '{',
    ensures
        r matches Some(e) ==> close_brace(t@, st as int, 0) == Some(e as int),
        r is None ==> close_brace(t@, st as int, 0) is None,
{
    let mut depth: usize = 1;
    assert(t@.len() == t.len());
    let mut i: usize = st + 1;
    while i < t.len()
        invariant
            st < i <= t@.len(),
            1 <= depth <= i,
            close_brace(t@, i as int, depth as int) == close_brace(t@, st as int, 0),
        decreases t@.len() - i,
    {
        let c = t[i];
        if c == '{' {
            depth = depth + 1;
        } else if c == '}' {
            if depth == 1 {
                return Some(i + 1);
            }
            depth = depth - 1;
        }
        i = i + 1;
    }
    None
}

fn json_spans_chars(t: &[char]) -> (r: Vec<String>)
    ensures
        string_views(r@) == json_spans(t@),
{
    let mut out: Vec<String> = Vec::new();
    let mut from: usize = 0;
    let mut brace: Vec<char> = Vec::new();
    brace.push('{');
    assert(brace@ =~= seq!['{']);
    while from < t.len()
        invariant
            from <= t@.len(),
            brace@ == seq!['{'],
            string_views(out@) + json_spans_from(t@, from as int) == json_spans(t@),
        decreases t@.len() - from,
    {
        match find_exec(t, brace.as_slice(), from) {
            None => {
                assert(json_spans_from(t@, from as int) =~= Seq::<Seq<char>>::empty());
                assert(string_views(out@) =~= json_spans(t@));
                return out;
            },
            Some(st) => {
                proof {
                    lemma_find_from(t@, brace@, from as int);
                    assert(t@.subrange(st as int, st + 1)[0] == '{');
                }
                match close_brace_exec(t, st) {
                    Some(end) => {
                        proof {
                            lemma_close_brace_bounds(t@, st as int, 0);
                        }
                        let piece = slice_chars(t, st, end);
                        let ghost before = string_views(out@);
                        out.push(string_of(piece.as_slice()));
                        assert(string_views(out@) =~= before.push(t@.subrange(st as int, end as int)));
                        from = end;
                    },
                    None => {
                        from = st + 1;
                    },
                }
            },
        }
    }
    assert(json_spans_from(t@, from as int) =~= Seq::<Seq<char>>::empty());
    assert(string_views(out@) =~= json_spans(t@));
    out
}

// ---------------------------------------------------------------- tool-call wrappers

/// The earliest of three optional positions, or `dflt` when none is present.
pub open spec fn min_pos(a: Option<int>, b: Option<int>, c: Option<int>, dflt: int) -> int {
    let m1 = match a {
        Some(x) => x,
        None => dflt,
    };
    let m2 = match b {
        Some(x) => if x < m1 { x } else { m1 },
        None => m1,
    };
    match c {
        Some(x) => if x < m2 { x } else { m2 },
        None => m2,
    }
}

/// The `(name, payload)` pairs of `<invoke name="...">` wrappers from `cursor` on:
/// the payload runs from after the name's closing quote up to the next
/// `<invoke`, `</invoke>` or `<minimax:tool_call`, or to the end.
pub open spec fn invoke_segments_from(t: Seq<char>, cursor: int) -> Seq<(Seq<char>, Seq<char>)>
    decreases t.len() - cursor,
{
    let inv = "<invoke"@;
    let marker = "name=\""@;
    if cursor < 0 || cursor >= t.len() || inv.len() == 0 || marker.len() == 0 {
        Seq::empty()
    } else {
        match find_from(t, inv, cursor) {
            None => Seq::empty(),
            Some(is) => if is < cursor || is + inv.len() > t.len() {
                Seq::empty()
            } else {
                match find_from(t, marker, is) {
                    None => invoke_segments_from(t, is + inv.len()),
                    Some(nm) => {
                        let ns = nm + marker.len();
                        match find_from(t, seq!['"'], ns) {
                            None => Seq::empty(),
                            Some(ne) => {
                                let ps = ne + 1;
                                let pe = min_pos(
                                    find_from(t, inv, ps),
                                    find_from(t, "</invoke>"@, ps),
                                    find_from(t, "<minimax:tool_call"@, ps),
                                    t.len() as int,
                                );
                                if cursor < ns <= ne < ps <= pe <= t.len() {
                                    seq![(trim(t.subrange(ns, ne)), t.subrange(ps, pe))]
                                        + invoke_segments_from(t, pe)
                                } else {
                                    Seq::empty()
                                }
                            },
                        }
                    },
                }
            },
        }
    }
}

pub open spec fn invoke_segments(t: Seq<char>) -> Seq<(Seq<char>, Seq<char>)> {
    invoke_segments_from(t, 0)
}

fn find_opt(t: &[char], p: &[char], from: usize) -> (r: Option<usize>)
    ensures
        r matches Some(k) ==> find_from(t@, p@, from as int) == Some(k as int) && from <= k
            && k + p@.len() <= t@.len(),
        r is None ==> find_from(t@, p@, from as int) is None,
{
    let r = find_exec(t, p, from);
    proof {
        lemma_find_from(t@, p@, from as int);
    }
    r
}

fn invoke_segments_chars(t: &[char]) -> (r: Vec<(Vec<char>, Vec<char>)>)
    ensures
        r@.len() == invoke_segments(t@).len(),
        forall|i: int|
            0 <= i < r@.len() ==> (#[trigger] r@[i]).0@ == invoke_segments(t@)[i].0 && r@[i].1@
                == invoke_segments(t@)[i].1,
{
    let inv = chars_of("<invoke");
    let marker = chars_of("name=\"");
    let close = chars_of("</invoke>");
    let tool = chars_of("<minimax:tool_call");
    let mut quote: Vec<char> = Vec::new();
    quote.push('"');
    proof {
        reveal_strlit("<invoke");
        reveal_strlit("name=\"");
        assert(quote@ =~= seq!['"']);
    }
    let mut out: Vec<(Vec<char>, Vec<char>)> = Vec::new();
    let mut cursor: usize = 0;
    assert(t@.len() == t.len());
    loop
        invariant
            t@.len() == t.len(),
            cursor <= t@.len(),
            inv@ == "<invoke"@,
            inv@.len() == 7,
            marker@ == "name=\""@,
            marker@.len() == 6,
            close@ == "</invoke>"@,
            tool@ == "<minimax:tool_call"@,
            quote@ == seq!['"'],
            out@.len() + invoke_segments_from(t@, cursor as int).len() == invoke_segments(t@).len(),
            forall|i: int|
                0 <= i < out@.len() ==> (#[trigger] out@[i]).0@ == invoke_segments(t@)[i].0
                    && out@[i].1@ == invoke_segments(t@)[i].1,
            forall|i: int|
                0 <= i < invoke_segments_from(t@, cursor as int).len() ==> invoke_segments(t@)[out@.len()
                    + i] == #[trigger] invoke_segments_from(t@, cursor as int)[i],
        decreases t@.len() - cursor,
    {
        if cursor >= t.len() {
            assert(invoke_segments_from(t@, cursor as int) =~= Seq::<(Seq<char>, Seq<char>)>::empty());
            return out;
        }
        let is = match find_opt(t, inv.as_slice(), cursor) {
            None => {
                assert(invoke_segments_from(t@, cursor as int).len() == 0);
                return out;
            },
            Some(k) => k,
        };
        match find_opt(t, marker.as_slice(), is) {
            None => {
                cursor = is + inv.len();
            },
            Some(nm) => {
                let ns = nm + marker.len();
                let ne = match find_opt(t, quote.as_slice(), ns) {
                    None => {
                        assert(invoke_segments_from(t@, cursor as int).len() == 0);
                        return out;
                    },
                    Some(k) => k,
                };
                let ps = ne + 1;
                let mut pe = t.len();
                let a = find_opt(t, inv.as_slice(), ps);
                let b = find_opt(t, close.as_slice(), ps);
                let c = find_opt(t, tool.as_slice(), ps);
                if let Some(x) = a {
                    pe = x;
                }
                if let Some(x) = b {
                    if x < pe {
                        pe = x;
                    }
                }
                if let Some(x) = c {
                    if x < pe {
                        pe = x;
                    }
                }
                let name_raw = slice_chars(t, ns, ne);
                let name = trim_chars(name_raw.as_slice());
                let payload = slice_chars(t, ps, pe);
                let ghost seg = (trim(t@.subrange(ns as int, ne as int)), t@.subrange(ps as int, pe as int));
                let ghost rest = invoke_segments_from(t@, pe as int);
                assert(invoke_segments_from(t@, cursor as int) == seq![seg] + rest);
                assert(invoke_segments_from(t@, cursor as int)[0] == seg);
                assert forall|i: int| 0 <= i < rest.len() implies invoke_segments(t@)[out@.len() + 1 + i]
                    == #[trigger] rest[i] by {
                    assert(invoke_segments_from(t@, cursor as int)[i + 1] == rest[i]);
                }
                out.push((name, payload));
                cursor = pe;
            },
        }
    }
}

// ---------------------------------------------------------------- invoke payloads

/// Drops trailing `}` (with the whitespace before each) while `s` closes
/// more braces than it opens.
pub open spec fn trim_braces(s: Seq<char>) -> Seq<char>
    decreases s.len(),
{
    if count_char(s, '}') <= count_char(s, '{') {
        s
    } else {
        let k = back_ws(s, s.len() as int);
        if 0 < k <= s.len() && s[k - 1] == '}' {
            trim_braces(s.take(k - 1))
        } else {
            s
        }
    }
}

fn trim_braces_chars(s: &[char]) -> (r: Vec<char>)
    ensures
        r@ == trim_braces(s@),
{
    let mut t = slice_chars(s, 0, s.len());
    assert(t@ =~= s@);
    loop
        invariant
            trim_braces(t@) == trim_braces(s@),
        decreases t@.len(),
    {
        let open = count_char_exec(t.as_slice(), '{');
        let close = count_char_exec(t.as_slice(), '}');
        if close <= open {
            return t;
        }
        let k = back_ws_exec(t.as_slice(), t.len());
        proof {
            lemma_back_ws_bounds(t@, t@.len() as int);
        }
        if k > 0 && t[k - 1] == '}' {
            t = slice_chars(t.as_slice(), 0, k - 1);
        } else {
            return t;
        }
    }
}

/// Drop trailing `}` characters that have no matching `{`.
pub fn trim_unmatched_trailing_braces(s: String) -> (r: String)
    ensures
        r@ == trim_braces(s@),
{
    let v = chars_of(s.as_str());
    let t = trim_braces_chars(v.as_slice());
    string_of(t.as_slice())
}

/// `{"action":"NAME"}`, or `{"action":"NAME",INNER}` when `inner` is not empty.
pub open spec fn inject(name: Seq<char>, inner: Seq<char>) -> Seq<char> {
    if inner.len() == 0 {
        "{\"action\":\""@ + name + "\"}"@
    } else {
        "{\"action\":\""@ + name + "\","@ + inner + "}"@
    }
}

/// The inside of a brace group: trimmed, leading `{` and trailing `}` dropped, trimmed again.
pub open spec fn unbrace(s: Seq<char>) -> Seq<char> {
    trim(trim_end_char(trim_start_char(trim(s), '{'), '}'))
}

/// The key/value fragment that follows an invoke name.
pub open spec fn invoke_body(payload: Seq<char>) -> Seq<char> {
    let b1 = trim(trim_start_char(trim(payload), '>'));
    let b2 = trim_braces(b1);
    let b3 = trim(trim_start_char(trim(b2), ','));
    let b4 = trim_braces(b3);
    trim(trim_end_char(unbrace(b4), ','))
}

/// The JSON texts tried, in order, for one invoke wrapper: the brace group
/// in the payload as it stands, then (when it names no action) that group
/// with the action injected, then the key/value fragment with the action injected.
pub open spec fn invoke_candidates(action_name: Seq<char>, payload: Seq<char>) -> Seq<Seq<char>> {
    let name = uppercase(trim(action_name));
    if name.len() == 0 {
        Seq::empty()
    } else {
        let first: Seq<Seq<char>> = match (find(payload, seq!['{']), rfind_char(payload, '}')) {
            (Some(st), Some(en)) => if 0 <= st < en < payload.len() {
                let obj = trim(payload.subrange(st, en + 1));
                if contains(obj, "\"action\""@) {
                    seq![obj]
                } else {
                    seq![obj, inject(name, unbrace(obj))]
                }
            } else {
                Seq::empty()
            },
            _ => Seq::empty(),
        };
        first.push(inject(name, invoke_body(payload)))
    }
}

fn inject_exec(name: &[char], inner: &[char]) -> (r: String)
    ensures
        r@ == inject(name@, inner@),
{
    let mut s = "{\"action\":\"".to_owned();
    let n = string_of(name);
    s.append(n.as_str());
    if inner.len() == 0 {
        s.append("\"}");
    } else {
        s.append("\",");
        let i = string_of(inner);
        s.append(i.as_str());
        s.append("}");
    }
    s
}

fn unbrace_exec(s: &[char]) -> (r: Vec<char>)
    ensures
        r@ == unbrace(s@),
{
    let a = trim_chars(s);
    let b = trim_start_char_exec(a.as_slice(), '{');
    let c = trim_end_char_exec(b.as_slice(), '}');
    trim_chars(c.as_slice())
}

fn invoke_body_exec(payload: &[char]) -> (r: Vec<char>)
    ensures
        r@ == invoke_body(payload@),
{
    let a = trim_chars(payload);
    let b = trim_start_char_exec(a.as_slice(), '>');
    let b1 = trim_chars(b.as_slice());
    let b2 = trim_braces_chars(b1.as_slice());
    let c = trim_chars(b2.as_slice());
    let d = trim_start_char_exec(c.as_slice(), ',');
    let b3 = trim_chars(d.as_slice());
    let b4 = trim_braces_chars(b3.as_slice());
    let e = unbrace_exec(b4.as_slice());
    let f = trim_end_char_exec(e.as_slice(), ',');
    trim_chars(f.as_slice())
}

/// The JSON texts to try for one invoke wrapper (see `invoke_candidates`).
pub fn invoke_payload_candidates(action_name: &[char], payload: &[char]) -> (r: Vec<String>)
    ensures
        string_views(r@) == invoke_candidates(action_name@, payload@),
{
    let tn = trim_chars(action_name);
    let tn_s = string_of(tn.as_slice());
    let upper = to_uppercase(tn_s.as_str());
    let name = chars_of(upper.as_str());
    let mut out: Vec<String> = Vec::new();
    if name.len() == 0 {
        assert(string_views(out@) =~= invoke_candidates(action_name@, payload@));
        return out;
    }
    let mut brace: Vec<char> = Vec::new();
    brace.push('{');
    assert(brace@ =~= seq!['{']);
    let ghost first: Seq<Seq<char>> = match (find(payload@, seq!['{']), rfind_char(payload@, '}')) {
        (Some(st), Some(en)) => if 0 <= st < en < payload@.len() {
            let obj = trim(payload@.subrange(st, en + 1));
            if contains(obj, "\"action\""@) {
                seq![obj]
            } else {
                seq![obj, inject(name@, unbrace(obj))]
            }
        } else {
            Seq::empty()
        },
        _ => Seq::empty(),
    };
    let st_opt = find_exec(payload, brace.as_slice(), 0);
    let en_opt = rfind_char_exec(payload, '}');
    if let Some(st) = st_opt {
        if let Some(en) = en_opt {
            proof {
                lemma_find_from(payload@, brace@, 0);
                lemma_rfind_char_bounds(payload@, '}');
                assert(payload@.len() == payload.len());
            }
            if st < en {
                let raw_obj = slice_chars(payload, st, en + 1);
                let obj = trim_chars(raw_obj.as_slice());
                let key = chars_of("\"action\"");
                let has_action = contains_exec(obj.as_slice(), key.as_slice());
                out.push(string_of(obj.as_slice()));
                if !has_action {
                    let inner = unbrace_exec(obj.as_slice());
                    out.push(inject_exec(name.as_slice(), inner.as_slice()));
                }
            }
        }
    }
    assert(string_views(out@) =~= first);
    let body = invoke_body_exec(payload);
    out.push(inject_exec(name.as_slice(), body.as_slice()));
    assert(string_views(out@) =~= first.push(inject(name@, invoke_body(payload@))));
    out
}

// ---------------------------------------------------------------- putting a reply together

pub open spec fn opt_payload_view(o: Option<ActionPayload>) -> Option<PayloadView> {
    match o {
        Some(p) => Some(p@),
        None => None,
    }
}

pub open spec fn payloads_view(v: Seq<ActionPayload>) -> Seq<PayloadView> {
    v.map_values(|p: ActionPayload| p@)
}

pub open spec fn parsed_view(v: Seq<Option<ActionPayload>>) -> Seq<Option<PayloadView>> {
    v.map_values(|p: Option<ActionPayload>| opt_payload_view(p))
}

pub open spec fn groups_view(v: Seq<Vec<Option<ActionPayload>>>) -> Seq<Seq<Option<PayloadView>>> {
    v.map_values(|g: Vec<Option<ActionPayload>>| parsed_view(g@))
}

pub open spec fn opt_payloads_view(o: Option<Vec<ActionPayload>>) -> Option<Seq<PayloadView>> {
    match o {
        Some(v) => Some(payloads_view(v@)),
        None => None,
    }
}

/// The actions of a list of payloads, in order, unconvertible ones left out.
pub open spec fn convert_all(ps: Seq<PayloadView>) -> Seq<ActionView>
    decreases ps.len(),
{
    if ps.len() == 0 {
        Seq::empty()
    } else {
        let prev = convert_all(ps.drop_last());
        match convert_spec(ps.last()) {
            Some(a) => prev.push(a),
            None => prev,
        }
    }
}

/// The actions of the texts that parsed, in order.
pub open spec fn convert_parsed(ps: Seq<Option<PayloadView>>) -> Seq<ActionView>
    decreases ps.len(),
{
    if ps.len() == 0 {
        Seq::empty()
    } else {
        let prev = convert_parsed(ps.drop_last());
        match ps.last() {
            Some(p) => match convert_spec(p) {
                Some(a) => prev.push(a),
                None => prev,
            },
            None => prev,
        }
    }
}

/// The action of the first text that both parsed and converted.
pub open spec fn first_converted(ps: Seq<Option<PayloadView>>) -> Option<ActionView>
    decreases ps.len(),
{
    if ps.len() == 0 {
        None
    } else {
        match ps[0] {
            Some(p) => match convert_spec(p) {
                Some(a) => Some(a),
                None => first_converted(ps.drop_first()),
            },
            None => first_converted(ps.drop_first()),
        }
    }
}

/// One action per invoke wrapper whose candidates yield one.
pub open spec fn invoke_actions(groups: Seq<Seq<Option<PayloadView>>>) -> Seq<ActionView>
    decreases groups.len(),
{
    if groups.len() == 0 {
        Seq::empty()
    } else {
        let prev = invoke_actions(groups.drop_last());
        match first_converted(groups.last()) {
            Some(a) => prev.push(a),
            None => prev,
        }
    }
}

/// The actions of a cleaned reply, given what parsing each candidate gave:
/// the whole text as a JSON array first, then the embedded objects, then the
/// invoke wrappers; failing all three, the text itself as one reply.
pub open spec fn resolve_spec(
    cleaned: Seq<char>,
    array: Option<Seq<PayloadView>>,
    embedded: Seq<Option<PayloadView>>,
    invoke: Seq<Seq<Option<PayloadView>>>,
) -> Seq<ActionView> {
    let a1 = match array {
        Some(ps) => convert_all(ps),
        None => Seq::empty(),
    };
    if a1.len() > 0 {
        a1
    } else {
        let a2 = convert_parsed(embedded);
        if a2.len() > 0 {
            a2
        } else {
            let a3 = invoke_actions(invoke);
            if a3.len() > 0 {
                a3
            } else if cleaned.len() > 0 {
                seq![ActionView::Reply { message: cleaned }]
            } else {
                Seq::empty()
            }
        }
    }
}

fn convert_all_exec(v: Vec<ActionPayload>) -> (r: Vec<BotAction>)
    ensures
        actions_view(r@) == convert_all(payloads_view(v@)),
{
    let ghost orig = payloads_view(v@);
    let mut v = v;
    let mut out: Vec<BotAction> = Vec::new();
    let ghost mut k: int = 0;
    assert(orig.take(0) =~= Seq::<PayloadView>::empty());
    assert(actions_view(out@) =~= Seq::<ActionView>::empty());
    assert(payloads_view(v@) =~= orig.skip(0));
    while v.len() > 0
        invariant
            0 <= k <= orig.len(),
            payloads_view(v@) == orig.skip(k),
            actions_view(out@) == convert_all(orig.take(k)),
        decreases v@.len(),
    {
        let ghost before = v@;
        let p = v.remove(0);
        proof {
            assert(payloads_view(before)[0] == orig.skip(k)[0]);
            assert(payloads_view(before)[0] == before[0]@);
            assert(payloads_view(v@) =~= payloads_view(before).drop_first());
            assert(orig.skip(k).drop_first() =~= orig.skip(k + 1));
            assert(orig.take(k + 1).drop_last() =~= orig.take(k));
        }
        let ghost prev = out@;
        match convert_payload(p) {
            Some(a) => {
                out.push(a);
                assert(actions_view(out@) =~= actions_view(prev).push(a@));
            },
            None => {},
        }
        proof {
            k = k + 1;
        }
    }
    assert(orig.take(k) =~= orig);
    out
}

fn convert_parsed_exec(v: Vec<Option<ActionPayload>>) -> (r: Vec<BotAction>)
    ensures
        actions_view(r@) == convert_parsed(parsed_view(v@)),
{
    let ghost orig = parsed_view(v@);
    let mut v = v;
    let mut out: Vec<BotAction> = Vec::new();
    let ghost mut k: int = 0;
    assert(orig.take(0) =~= Seq::<Option<PayloadView>>::empty());
    assert(actions_view(out@) =~= Seq::<ActionView>::empty());
    assert(parsed_view(v@) =~= orig.skip(0));
    while v.len() > 0
        invariant
            0 <= k <= orig.len(),
            parsed_view(v@) == orig.skip(k),
            actions_view(out@) == convert_parsed(orig.take(k)),
        decreases v@.len(),
    {
        let ghost before = v@;
        let p = v.remove(0);
        proof {
            assert(parsed_view(before)[0] == orig.skip(k)[0]);
            assert(parsed_view(before)[0] == opt_payload_view(before[0]));
            assert(parsed_view(v@) =~= parsed_view(before).drop_first());
            assert(orig.skip(k).drop_first() =~= orig.skip(k + 1));
            assert(orig.take(k + 1).drop_last() =~= orig.take(k));
        }
        let ghost prev = out@;
        match p {
            Some(q) => match convert_payload(q) {
                Some(a) => {
                    out.push(a);
                    assert(actions_view(out@) =~= actions_view(prev).push(a@));
                },
                None => {},
            },
            None => {},
        }
        proof {
            k = k + 1;
        }
    }
    assert(orig.take(k) =~= orig);
    out
}

fn first_converted_exec(v_in: Vec<Option<ActionPayload>>) -> (r: Option<BotAction>)
    ensures
        opt_action_view(r) == first_converted(parsed_view(v_in@)),
{
    let ghost orig = parsed_view(v_in@);
    let mut v = v_in;
    let ghost mut k: int = 0;
    assert(parsed_view(v@) =~= orig.skip(0));
    while v.len() > 0
        invariant
            0 <= k <= orig.len(),
            parsed_view(v@) == orig.skip(k),
            orig == parsed_view(v_in@),
            first_converted(orig.skip(k)) == first_converted(orig),
        decreases v@.len(),
    {
        let ghost before = v@;
        let p = v.remove(0);
        proof {
            assert(parsed_view(before)[0] == orig.skip(k)[0]);
            assert(parsed_view(before)[0] == opt_payload_view(before[0]));
            assert(parsed_view(v@) =~= parsed_view(before).drop_first());
            assert(orig.skip(k).drop_first() =~= orig.skip(k + 1));
        }
        match p {
            Some(q) => match convert_payload(q) {
                Some(a) => {
                    assert(orig.skip(k)[0] == Some(q@));
                    assert(first_converted(orig.skip(k)) == Some(a@));
                    return Some(a);
                },
                None => {},
            },
            None => {},
        }
        proof {
            k = k + 1;
        }
    }
    None
}

fn invoke_actions_exec(v: Vec<Vec<Option<ActionPayload>>>) -> (r: Vec<BotAction>)
    ensures
        actions_view(r@) == invoke_actions(groups_view(v@)),
{
    let ghost orig = groups_view(v@);
    let mut v = v;
    let mut out: Vec<BotAction> = Vec::new();
    let ghost mut k: int = 0;
    assert(orig.take(0) =~= Seq::<Seq<Option<PayloadView>>>::empty());
    assert(actions_view(out@) =~= Seq::<ActionView>::empty());
    assert(groups_view(v@) =~= orig.skip(0));
    while v.len() > 0
        invariant
            0 <= k <= orig.len(),
            groups_view(v@) == orig.skip(k),
            actions_view(out@) == invoke_actions(orig.take(k)),
        decreases v@.len(),
    {
        let ghost before = v@;
        let g = v.remove(0);
        proof {
            assert(groups_view(before)[0] == orig.skip(k)[0]);
            assert(groups_view(before)[0] == parsed_view(before[0]@));
            assert(groups_view(v@) =~= groups_view(before).drop_first());
            assert(orig.skip(k).drop_first() =~= orig.skip(k + 1));
            assert(orig.take(k + 1).drop_last() =~= orig.take(k));
        }
        let ghost prev = out@;
        match first_converted_exec(g) {
            Some(a) => {
                out.push(a);
                assert(actions_view(out@) =~= actions_view(prev).push(a@));
            },
            None => {},
        }
        proof {
            k = k + 1;
        }
    }
    assert(orig.take(k) =~= orig);
    out
}

/// The actions of a cleaned reply, given the parse results of its
/// candidates (see `resolve_spec`); the caller parses the texts that
/// `plan_ai_response` lists, in the same order.
pub fn resolve_ai_response(
    cleaned: String,
    array: Option<Vec<ActionPayload>>,
    embedded: Vec<Option<ActionPayload>>,
    invoke: Vec<Vec<Option<ActionPayload>>>,
) -> (r: Vec<BotAction>)
    ensures
        actions_view(r@) == resolve_spec(
            cleaned@,
            opt_payloads_view(array),
            parsed_view(embedded@),
            groups_view(invoke@),
        ),
{
    let a1 = match array {
        Some(ps) => convert_all_exec(ps),
        None => Vec::new(),
    };
    if a1.len() > 0 {
        return a1;
    }
    let a2 = convert_parsed_exec(embedded);
    if a2.len() > 0 {
        return a2;
    }
    let a3 = invoke_actions_exec(invoke);
    if a3.len() > 0 {
        return a3;
    }
    let mut out: Vec<BotAction> = Vec::new();
    if !cleaned.as_str().is_empty() {
        out.push(BotAction::Reply { message: cleaned });
    }
    assert(actions_view(out@) =~= resolve_spec(
        cleaned@,
        opt_payloads_view(array),
        parsed_view(embedded@),
        groups_view(invoke@),
    ));
    out
}

/// What has to be parsed to read a model reply: the cleaned text (parsed
/// as a JSON array), its embedded objects, and for each invoke wrapper the
/// texts to try in order.
pub struct ReplyPlan {
    pub cleaned: String,
    pub embedded: Vec<String>,
    pub invoke: Vec<Vec<String>>,
}

pub open spec fn invoke_plan(t: Seq<char>) -> Seq<Seq<Seq<char>>> {
    invoke_segments(t).map_values(|seg: (Seq<char>, Seq<char>)| invoke_candidates(seg.0, seg.1))
}

/// Clean a model reply and list the texts whose parsing decides its actions.
pub fn plan_ai_response(raw: &str) -> (r: ReplyPlan)
    ensures
        r.cleaned@ == clean_spec(raw@),
        string_views(r.embedded@) == json_spans(clean_spec(raw@)),
        r.invoke@.len() == invoke_plan(clean_spec(raw@)).len(),
        forall|i: int|
            0 <= i < r.invoke@.len() ==> string_views((#[trigger] r.invoke@[i])@) == invoke_plan(
                clean_spec(raw@),
            )[i],
{
    let cleaned = clean_response_text(raw);
    let t = chars_of(cleaned.as_str());
    let embedded = json_spans_chars(t.as_slice());
    let segs = invoke_segments_chars(t.as_slice());
    let ghost plan = invoke_plan(t@);
    let mut invoke: Vec<Vec<String>> = Vec::new();
    let mut i: usize = 0;
    while i < segs.len()
        invariant
            i <= segs@.len(),
            segs@.len() == invoke_segments(t@).len(),
            forall|j: int|
                0 <= j < segs@.len() ==> (#[trigger] segs@[j]).0@ == invoke_segments(t@)[j].0
                    && segs@[j].1@ == invoke_segments(t@)[j].1,
            invoke@.len() == i,
            plan == invoke_plan(t@),
            plan.len() == segs@.len(),
            forall|j: int| 0 <= j < i ==> string_views((#[trigger] invoke@[j])@) == plan[j],
        decreases segs@.len() - i,
    {
        let seg = &segs[i];
        let c = invoke_payload_candidates(seg.0.as_slice(), seg.1.as_slice());
        assert(i < invoke_segments(t@).len());
        let ghost sg = invoke_segments(t@)[i as int];
        assert(plan[i as int] == invoke_candidates(sg.0, sg.1));
        let ghost prev = invoke@;
        invoke.push(c);
        assert(forall|j: int| 0 <= j < i ==> invoke@[j] == prev[j]);
        i = i + 1;
    }
    ReplyPlan { cleaned, embedded, invoke }
}

/// A non-empty cleaned reply always yields at least one action.
pub proof fn law_nonempty_reply_yields_action(
    cleaned: Seq<char>,
    array: Option<Seq<PayloadView>>,
    embedded: Seq<Option<PayloadView>>,
    invoke: Seq<Seq<Option<PayloadView>>>,
)
    requires
        cleaned.len() > 0,
    ensures
        resolve_spec(cleaned, array, embedded, invoke).len() > 0,
{
}

/// Text from which nothing parses as an action becomes one reply holding the text.
pub proof fn law_unparsed_text_is_one_reply(
    cleaned: Seq<char>,
    embedded: Seq<Option<PayloadView>>,
    invoke: Seq<Seq<Option<PayloadView>>>,
)
    requires
        cleaned.len() > 0,
        forall|i: int| 0 <= i < embedded.len() ==> embedded[i] is None,
        forall|i: int, j: int|
            0 <= i < invoke.len() && 0 <= j < invoke[i].len() ==> (#[trigger] invoke[i][j]) is None,
    ensures
        resolve_spec(cleaned, None, embedded, invoke) == seq![ActionView::Reply { message: cleaned }],
{
    lemma_convert_parsed_none(embedded);
    lemma_invoke_actions_none(invoke);
}

proof fn lemma_convert_parsed_none(ps: Seq<Option<PayloadView>>)
    requires
        forall|i: int| 0 <= i < ps.len() ==> ps[i] is None,
    ensures
        convert_parsed(ps).len() == 0,
    decreases ps.len(),
{
    if ps.len() > 0 {
        lemma_convert_parsed_none(ps.drop_last());
    }
}

proof fn lemma_first_converted_none(ps: Seq<Option<PayloadView>>)
    requires
        forall|i: int| 0 <= i < ps.len() ==> ps[i] is None,
    ensures
        first_converted(ps) is None,
    decreases ps.len(),
{
    if ps.len() > 0 {
        lemma_first_converted_none(ps.drop_first());
    }
}

proof fn lemma_invoke_actions_none(groups: Seq<Seq<Option<PayloadView>>>)
    requires
        forall|i: int, j: int|
            0 <= i < groups.len() && 0 <= j < groups[i].len() ==> (#[trigger] groups[i][j]) is None,
    ensures
        invoke_actions(groups).len() == 0,
    decreases groups.len(),
{
    if groups.len() > 0 {
        lemma_invoke_actions_none(groups.drop_last());
        let g = groups.last();
        assert forall|j: int| 0 <= j < g.len() implies g[j] is None by {
            assert(groups[groups.len() - 1][j] is None);
        }
        lemma_first_converted_none(g);
    }
}

// ---------------------------------------------------------------- reply text

/// The messages of the `Reply` actions, in order.
pub open spec fn reply_messages(v: Seq<ActionView>) -> Seq<Seq<char>>
    decreases v.len(),
{
    if v.len() == 0 {
        Seq::empty()
    } else {
        let prev = reply_messages(v.drop_last());
        match v.last() {
            ActionView::Reply { message } => prev.push(message),
            _ => prev,
        }
    }
}

/// Get only the user-facing reply messages from a list of actions, one per line.
pub fn get_reply_text(actions: &[BotAction]) -> (r: String)
    ensures
        r@ == join(reply_messages(actions_view(actions@)), "\n"@),
{
    let mut msgs: Vec<String> = Vec::new();
    let mut i: usize = 0;
    while i < actions.len()
        invariant
            i <= actions@.len(),
            string_views(msgs@) == reply_messages(actions_view(actions@.take(i as int))),
        decreases actions@.len() - i,
    {
        assert(actions_view(actions@.take(i + 1)).drop_last() =~= actions_view(actions@.take(i as int)));
        let ghost prev = msgs@;
        match &actions[i] {
            BotAction::Reply { message } => {
                msgs.push(message.clone());
                assert(string_views(msgs@) =~= string_views(prev).push(message@));
            },
            _ => {},
        }
        i = i + 1;
    }
    assert(actions@.take(i as int) =~= actions@);
    join_strings(&msgs, "\n")
}


/// A given text field: present and not empty, and equal to `v`.
pub open spec fn given(o: Option<Seq<char>>, v: Seq<char>) -> bool {
    o == Some(v) && v.len() > 0
}

/// A text field read as text: its value, or empty when absent.
pub open spec fn text_of(o: Option<Seq<char>>, v: Seq<char>) -> bool {
    (o matches Some(x) ==> v == x) && (o is None ==> v.len() == 0)
}

/// Every action read from a payload is the one its action name asks for
/// (compared in upper case) and carries the payload's own fields: names,
/// messages, reasons, ban lengths, ids and flags are copied, not invented.
/// A channel name over 100 bytes turns a channel creation into a reply that
/// says so; a volume above 100 is taken as 100.
pub proof fn law_converted_action_carries_payload_fields(p: PayloadView)
    ensures
        match convert_spec(p) {
            None => true,
            Some(ActionView::Reply { message }) => (uppercase(p.action) == "REPLY"@ && given(p.message, message)) || (
            uppercase(p.action) == "CREATE_CHANNEL"@ && (p.channel_name matches Some(n) && byte_len(n) > 100)
                && message == "Sorry, channel names must be 100 characters or less."@),
            Some(ActionView::CreateChannel { channel_name, password, permanent }) => {
                &&& uppercase(p.action) == "CREATE_CHANNEL"@
                &&& given(p.channel_name, channel_name)
                &&& byte_len(channel_name) <= 100
                &&& password == (if (p.password matches Some(pw) && pw.len() > 0) { p.password } else { None })
                &&& permanent == (p.permanent == Some(true))
            },
            Some(ActionView::EditChannel { channel_name, set_permanent }) => {
                &&& uppercase(p.action) == "EDIT_CHANNEL"@
                &&& given(p.channel_name, channel_name)
                &&& set_permanent == (p.set_permanent != Some(false))
            },
            Some(ActionView::DeleteChannel { channel_name }) => uppercase(p.action) == "DELETE_CHANNEL"@ && given(
                p.channel_name,
                channel_name,
            ),
            Some(ActionView::EditChannelDescription { channel_id, description }) => {
                &&& uppercase(p.action) == "SET_CHANNEL_DESCRIPTION"@
                &&& p.channel_id == Some(channel_id)
                &&& text_of(p.description, description)
            },
            Some(ActionView::SetChannelAdmin { channel_name, client_name }) => {
                &&& uppercase(p.action) == "SET_CHANNEL_ADMIN"@
                &&& given(p.channel_name, channel_name)
                &&& client_name == p.client_name
            },
            Some(ActionView::KickClient { client_name, reason }) => {
                &&& uppercase(p.action) == "KICK_CLIENT"@
                &&& given(p.client_name, client_name)
                &&& reason == p.reason
            },
            Some(ActionView::MoveClient { client_name, channel_name }) => {
                &&& uppercase(p.action) == "MOVE_CLIENT"@
                &&& given(p.client_name, client_name)
                &&& given(p.channel_name, channel_name)
            },
            Some(ActionView::MoveClientReturn { client_name }) => uppercase(p.action) == "MOVE_CLIENT_RETURN"@ && given(
                p.client_name,
                client_name,
            ),
            Some(ActionView::SetServerGroup { client_name, server_group_id }) => {
                &&& uppercase(p.action) == "SET_SERVER_GROUP"@
                &&& given(p.client_name, client_name)
                &&& p.server_group_id == Some(server_group_id)
            },
            Some(ActionView::RemoveServerGroup { client_name, server_group_id }) => {
                &&& uppercase(p.action) == "REMOVE_SERVER_GROUP"@
                &&& given(p.client_name, client_name)
                &&& p.server_group_id == Some(server_group_id)
            },
            Some(ActionView::PokeClient { client_name, message }) => {
                &&& uppercase(p.action) == "POKE_CLIENT"@
                &&& given(p.client_name, client_name)
                &&& text_of(p.message, message)
            },
            Some(ActionView::JoinUserChannel) => uppercase(p.action) == "JOIN_USER_CHANNEL"@,
            Some(ActionView::BanClient { client_name, reason, duration_seconds }) => {
                &&& uppercase(p.action) == "BAN_CLIENT"@
                &&& given(p.client_name, client_name)
                &&& reason == p.reason
                &&& duration_seconds == p.duration_seconds
            },
            Some(ActionView::SendMessage { target_name, message }) => {
                &&& uppercase(p.action) == "SEND_MESSAGE"@
                &&& given(p.target_name, target_name)
                &&& given(p.message, message)
            },
            Some(ActionView::BanAdd { ip, uid, name, reason, duration_seconds }) => {
                &&& uppercase(p.action) == "BAN_ADD"@
                &&& !(ip is None && uid is None && name is None)
                &&& ip == p.ip && uid == p.uid && name == p.name
                &&& reason == p.reason
                &&& duration_seconds == p.duration_seconds
            },
            Some(ActionView::BanDel { ban_id }) => uppercase(p.action) == "BAN_DEL"@ && p.ban_id == Some(ban_id),
            Some(ActionView::BanDelAll) => uppercase(p.action) == "BAN_DEL_ALL"@,
            Some(ActionView::BanList) => uppercase(p.action) == "BAN_LIST"@,
            Some(ActionView::ClientEdit { client_name, description, is_talker }) => {
                &&& uppercase(p.action) == "CLIENT_EDIT"@
                &&& given(p.client_name, client_name)
                &&& description == p.description
                &&& is_talker == p.is_talker
            },
            Some(ActionView::ChannelMoveAction { channel_name, parent_channel_name }) => {
                &&& uppercase(p.action) == "CHANNEL_MOVE"@
                &&& given(p.channel_name, channel_name)
                &&& given(p.parent_channel_name, parent_channel_name)
            },
            Some(ActionView::ChannelSubscribe { channel_name }) => uppercase(p.action) == "CHANNEL_SUBSCRIBE"@ && given(
                p.channel_name,
                channel_name,
            ),
            Some(ActionView::ChannelUnsubscribe { channel_name }) => uppercase(p.action) == "CHANNEL_UNSUBSCRIBE"@
                && given(p.channel_name, channel_name),
            Some(ActionView::SendChannelMessage { channel_name, message }) => {
                &&& uppercase(p.action) == "SEND_CHANNEL_MESSAGE"@
                &&& given(p.channel_name, channel_name)
                &&& given(p.message, message)
            },
            Some(ActionView::MoveBotChannel { channel_name }) => uppercase(p.action) == "MOVE_BOT_CHANNEL"@ && given(
                p.channel_name,
                channel_name,
            ),
            Some(ActionView::PlayTTS { text }) => uppercase(p.action) == "PLAY_TTS"@ && given(p.text, text),
            Some(ActionView::PlayMusic { url }) => uppercase(p.action) == "PLAY_MUSIC"@ && given(p.url, url),
            Some(ActionView::SetVolume { volume }) => {
                &&& uppercase(p.action) == "SET_VOLUME"@
                &&& p.volume matches Some(v)
                &&& volume <= 100
                &&& (v <= 100 ==> volume == v)
                &&& (v > 100 ==> volume == 100)
            },
        },
{
    reveal_strlit("REPLY");
    reveal_strlit("CREATE_CHANNEL");
    reveal_strlit("EDIT_CHANNEL");
    reveal_strlit("DELETE_CHANNEL");
    reveal_strlit("SET_CHANNEL_DESCRIPTION");
    reveal_strlit("SET_CHANNEL_ADMIN");
    reveal_strlit("KICK_CLIENT");
    reveal_strlit("MOVE_CLIENT");
    reveal_strlit("MOVE_CLIENT_RETURN");
    reveal_strlit("SET_SERVER_GROUP");
    reveal_strlit("REMOVE_SERVER_GROUP");
    reveal_strlit("POKE_CLIENT");
    reveal_strlit("JOIN_USER_CHANNEL");
    reveal_strlit("BAN_CLIENT");
    reveal_strlit("SEND_MESSAGE");
    reveal_strlit("BAN_ADD");
    reveal_strlit("BAN_DEL");
    reveal_strlit("BAN_DEL_ALL");
    reveal_strlit("BAN_LIST");
    reveal_strlit("CLIENT_EDIT");
    reveal_strlit("CHANNEL_MOVE");
    reveal_strlit("CHANNEL_SUBSCRIBE");
    reveal_strlit("CHANNEL_UNSUBSCRIBE");
    reveal_strlit("SEND_CHANNEL_MESSAGE");
    reveal_strlit("MOVE_BOT_CHANNEL");
    reveal_strlit("PLAY_TTS");
    reveal_strlit("PLAY_MUSIC");
    reveal_strlit("SET_VOLUME");
}


/// Which payloads give an action: each action name (in upper case), with
/// the fields that action needs, gives that action; a payload whose action
/// name is none of these gives none.
#[verifier::rlimit(60)]
pub proof fn law_accepted_payloads(p: PayloadView)
    ensures
        uppercase(p.action) == "REPLY"@ && or_empty(p.message).len() > 0 ==> (convert_spec(p) matches Some(a) && a is Reply),
        uppercase(p.action) == "CREATE_CHANNEL"@ && or_empty(p.channel_name).len() > 0 ==> (convert_spec(p) matches Some(
            a,
        ) && if byte_len(or_empty(p.channel_name)) <= 100 {
            a is CreateChannel
        } else {
            a is Reply
        }),
        uppercase(p.action) == "EDIT_CHANNEL"@ && or_empty(p.channel_name).len() > 0 ==> (convert_spec(p) matches Some(a) && a is EditChannel),
        uppercase(p.action) == "DELETE_CHANNEL"@ && or_empty(p.channel_name).len() > 0 ==> (convert_spec(p) matches Some(a) && a is DeleteChannel),
        uppercase(p.action) == "SET_CHANNEL_DESCRIPTION"@ && p.channel_id is Some ==> (convert_spec(p) matches Some(a) && a is EditChannelDescription),
        uppercase(p.action) == "SET_CHANNEL_ADMIN"@ && or_empty(p.channel_name).len() > 0 ==> (convert_spec(p) matches Some(a) && a is SetChannelAdmin),
        uppercase(p.action) == "KICK_CLIENT"@ && or_empty(p.client_name).len() > 0 ==> (convert_spec(p) matches Some(a) && a is KickClient),
        uppercase(p.action) == "MOVE_CLIENT"@ && or_empty(p.client_name).len() > 0 && or_empty(p.channel_name).len() > 0 ==> (convert_spec(p) matches Some(a) && a is MoveClient),
        uppercase(p.action) == "MOVE_CLIENT_RETURN"@ && or_empty(p.client_name).len() > 0 ==> (convert_spec(p) matches Some(a) && a is MoveClientReturn),
        uppercase(p.action) == "SET_SERVER_GROUP"@ && or_empty(p.client_name).len() > 0 && p.server_group_id is Some ==> (convert_spec(p) matches Some(a) && a is SetServerGroup),
        uppercase(p.action) == "REMOVE_SERVER_GROUP"@ && or_empty(p.client_name).len() > 0 && p.server_group_id is Some ==> (convert_spec(p) matches Some(a) && a is RemoveServerGroup),
        uppercase(p.action) == "POKE_CLIENT"@ && or_empty(p.client_name).len() > 0 ==> (convert_spec(p) matches Some(a) && a is PokeClient),
        uppercase(p.action) == "JOIN_USER_CHANNEL"@ && true ==> (convert_spec(p) matches Some(a) && a is JoinUserChannel),
        uppercase(p.action) == "BAN_CLIENT"@ && or_empty(p.client_name).len() > 0 ==> (convert_spec(p) matches Some(a) && a is BanClient),
        uppercase(p.action) == "SEND_MESSAGE"@ && or_empty(p.target_name).len() > 0 && or_empty(p.message).len() > 0 ==> (convert_spec(p) matches Some(a) && a is SendMessage),
        uppercase(p.action) == "BAN_ADD"@ && (p.ip is Some || p.uid is Some || p.name is Some) ==> (convert_spec(p) matches Some(a) && a is BanAdd),
        uppercase(p.action) == "BAN_DEL"@ && p.ban_id is Some ==> (convert_spec(p) matches Some(a) && a is BanDel),
        uppercase(p.action) == "BAN_DEL_ALL"@ && true ==> (convert_spec(p) matches Some(a) && a is BanDelAll),
        uppercase(p.action) == "BAN_LIST"@ && true ==> (convert_spec(p) matches Some(a) && a is BanList),
        uppercase(p.action) == "CLIENT_EDIT"@ && or_empty(p.client_name).len() > 0 ==> (convert_spec(p) matches Some(a) && a is ClientEdit),
        uppercase(p.action) == "CHANNEL_MOVE"@ && or_empty(p.channel_name).len() > 0 && or_empty(p.parent_channel_name).len() > 0 ==> (convert_spec(p) matches Some(a) && a is ChannelMoveAction),
        uppercase(p.action) == "CHANNEL_SUBSCRIBE"@ && or_empty(p.channel_name).len() > 0 ==> (convert_spec(p) matches Some(a) && a is ChannelSubscribe),
        uppercase(p.action) == "CHANNEL_UNSUBSCRIBE"@ && or_empty(p.channel_name).len() > 0 ==> (convert_spec(p) matches Some(a) && a is ChannelUnsubscribe),
        uppercase(p.action) == "SEND_CHANNEL_MESSAGE"@ && or_empty(p.channel_name).len() > 0 && or_empty(p.message).len() > 0 ==> (convert_spec(p) matches Some(a) && a is SendChannelMessage),
        uppercase(p.action) == "MOVE_BOT_CHANNEL"@ && or_empty(p.channel_name).len() > 0 ==> (convert_spec(p) matches Some(a) && a is MoveBotChannel),
        uppercase(p.action) == "PLAY_TTS"@ && or_empty(p.text).len() > 0 ==> (convert_spec(p) matches Some(a) && a is PlayTTS),
        uppercase(p.action) == "PLAY_MUSIC"@ && or_empty(p.url).len() > 0 ==> (convert_spec(p) matches Some(a) && a is PlayMusic),
        uppercase(p.action) == "SET_VOLUME"@ && p.volume is Some ==> (convert_spec(p) matches Some(a) && a is SetVolume),
        (uppercase(p.action) != "REPLY"@ && uppercase(p.action) != "EDIT_CHANNEL"@ && uppercase(p.action) != "DELETE_CHANNEL"@ && uppercase(p.action) != "SET_CHANNEL_DESCRIPTION"@ && uppercase(p.action) != "SET_CHANNEL_ADMIN"@ && uppercase(p.action) != "KICK_CLIENT"@ && uppercase(p.action) != "MOVE_CLIENT"@ && uppercase(p.action) != "MOVE_CLIENT_RETURN"@ && uppercase(p.action) != "SET_SERVER_GROUP"@ && uppercase(p.action) != "REMOVE_SERVER_GROUP"@ && uppercase(p.action) != "POKE_CLIENT"@ && uppercase(p.action) != "JOIN_USER_CHANNEL"@ && uppercase(p.action) != "BAN_CLIENT"@ && uppercase(p.action) != "SEND_MESSAGE"@ && uppercase(p.action) != "BAN_ADD"@ && uppercase(p.action) != "BAN_DEL"@ && uppercase(p.action) != "BAN_DEL_ALL"@ && uppercase(p.action) != "BAN_LIST"@ && uppercase(p.action) != "CLIENT_EDIT"@ && uppercase(p.action) != "CHANNEL_MOVE"@ && uppercase(p.action) != "CHANNEL_SUBSCRIBE"@ && uppercase(p.action) != "CHANNEL_UNSUBSCRIBE"@ && uppercase(p.action) != "SEND_CHANNEL_MESSAGE"@ && uppercase(p.action) != "MOVE_BOT_CHANNEL"@ && uppercase(p.action) != "PLAY_TTS"@ && uppercase(p.action) != "PLAY_MUSIC"@ && uppercase(p.action) != "SET_VOLUME"@ && uppercase(p.action) != "CREATE_CHANNEL"@) ==> convert_spec(p) is None,
{
    reveal_strlit("REPLY");
    reveal_strlit("CREATE_CHANNEL");
    reveal_strlit("EDIT_CHANNEL");
    reveal_strlit("DELETE_CHANNEL");
    reveal_strlit("SET_CHANNEL_DESCRIPTION");
    reveal_strlit("SET_CHANNEL_ADMIN");
    reveal_strlit("KICK_CLIENT");
    reveal_strlit("MOVE_CLIENT");
    reveal_strlit("MOVE_CLIENT_RETURN");
    reveal_strlit("SET_SERVER_GROUP");
    reveal_strlit("REMOVE_SERVER_GROUP");
    reveal_strlit("POKE_CLIENT");
    reveal_strlit("JOIN_USER_CHANNEL");
    reveal_strlit("BAN_CLIENT");
    reveal_strlit("SEND_MESSAGE");
    reveal_strlit("BAN_ADD");
    reveal_strlit("BAN_DEL");
    reveal_strlit("BAN_DEL_ALL");
    reveal_strlit("BAN_LIST");
    reveal_strlit("CLIENT_EDIT");
    reveal_strlit("CHANNEL_MOVE");
    reveal_strlit("CHANNEL_SUBSCRIBE");
    reveal_strlit("CHANNEL_UNSUBSCRIBE");
    reveal_strlit("SEND_CHANNEL_MESSAGE");
    reveal_strlit("MOVE_BOT_CHANNEL");
    reveal_strlit("PLAY_TTS");
    reveal_strlit("PLAY_MUSIC");
    reveal_strlit("SET_VOLUME");
    if uppercase(p.action) == "CREATE_CHANNEL"@ {
        assert("CREATE_CHANNEL"@.len() != "REPLY"@.len());
    }
    if uppercase(p.action) == "EDIT_CHANNEL"@ {
        assert("EDIT_CHANNEL"@.len() != "REPLY"@.len());
        assert("EDIT_CHANNEL"@.len() != "CREATE_CHANNEL"@.len());
    }
    if uppercase(p.action) == "DELETE_CHANNEL"@ {
        assert("DELETE_CHANNEL"@.len() != "REPLY"@.len());
        assert("DELETE_CHANNEL"@[0] != "CREATE_CHANNEL"@[0]);
        assert("DELETE_CHANNEL"@.len() != "EDIT_CHANNEL"@.len());
    }
    if uppercase(p.action) == "SET_CHANNEL_DESCRIPTION"@ {
        assert("SET_CHANNEL_DESCRIPTION"@.len() != "REPLY"@.len());
        assert("SET_CHANNEL_DESCRIPTION"@.len() != "CREATE_CHANNEL"@.len());
        assert("SET_CHANNEL_DESCRIPTION"@.len() != "EDIT_CHANNEL"@.len());
        assert("SET_CHANNEL_DESCRIPTION"@.len() != "DELETE_CHANNEL"@.len());
    }
    if uppercase(p.action) == "SET_CHANNEL_ADMIN"@ {
        assert("SET_CHANNEL_ADMIN"@.len() != "REPLY"@.len());
        assert("SET_CHANNEL_ADMIN"@.len() != "CREATE_CHANNEL"@.len());
        assert("SET_CHANNEL_ADMIN"@.len() != "EDIT_CHANNEL"@.len());
        assert("SET_CHANNEL_ADMIN"@.len() != "DELETE_CHANNEL"@.len());
        assert("SET_CHANNEL_ADMIN"@.len() != "SET_CHANNEL_DESCRIPTION"@.len());
    }
    if uppercase(p.action) == "KICK_CLIENT"@ {
        assert("KICK_CLIENT"@.len() != "REPLY"@.len());
        assert("KICK_CLIENT"@.len() != "CREATE_CHANNEL"@.len());
        assert("KICK_CLIENT"@.len() != "EDIT_CHANNEL"@.len());
        assert("KICK_CLIENT"@.len() != "DELETE_CHANNEL"@.len());
        assert("KICK_CLIENT"@.len() != "SET_CHANNEL_DESCRIPTION"@.len());
        assert("KICK_CLIENT"@.len() != "SET_CHANNEL_ADMIN"@.len());
    }
    if uppercase(p.action) == "MOVE_CLIENT"@ {
        assert("MOVE_CLIENT"@.len() != "REPLY"@.len());
        assert("MOVE_CLIENT"@.len() != "CREATE_CHANNEL"@.len());
        assert("MOVE_CLIENT"@.len() != "EDIT_CHANNEL"@.len());
        assert("MOVE_CLIENT"@.len() != "DELETE_CHANNEL"@.len());
        assert("MOVE_CLIENT"@.len() != "SET_CHANNEL_DESCRIPTION"@.len());
        assert("MOVE_CLIENT"@.len() != "SET_CHANNEL_ADMIN"@.len());
        assert("MOVE_CLIENT"@[0] != "KICK_CLIENT"@[0]);
    }
    if uppercase(p.action) == "MOVE_CLIENT_RETURN"@ {
        assert("MOVE_CLIENT_RETURN"@.len() != "REPLY"@.len());
        assert("MOVE_CLIENT_RETURN"@.len() != "CREATE_CHANNEL"@.len());
        assert("MOVE_CLIENT_RETURN"@.len() != "EDIT_CHANNEL"@.len());
        assert("MOVE_CLIENT_RETURN"@.len() != "DELETE_CHANNEL"@.len());
        assert("MOVE_CLIENT_RETURN"@.len() != "SET_CHANNEL_DESCRIPTION"@.len());
        assert("MOVE_CLIENT_RETURN"@.len() != "SET_CHANNEL_ADMIN"@.len());
        assert("MOVE_CLIENT_RETURN"@.len() != "KICK_CLIENT"@.len());
        assert("MOVE_CLIENT_RETURN"@.len() != "MOVE_CLIENT"@.len());
    }
    if uppercase(p.action) == "SET_SERVER_GROUP"@ {
        assert("SET_SERVER_GROUP"@.len() != "REPLY"@.len());
        assert("SET_SERVER_GROUP"@.len() != "CREATE_CHANNEL"@.len());
        assert("SET_SERVER_GROUP"@.len() != "EDIT_CHANNEL"@.len());
        assert("SET_SERVER_GROUP"@.len() != "DELETE_CHANNEL"@.len());
        assert("SET_SERVER_GROUP"@.len() != "SET_CHANNEL_DESCRIPTION"@.len());
        assert("SET_SERVER_GROUP"@.len() != "SET_CHANNEL_ADMIN"@.len());
        assert("SET_SERVER_GROUP"@.len() != "KICK_CLIENT"@.len());
        assert("SET_SERVER_GROUP"@.len() != "MOVE_CLIENT"@.len());
        assert("SET_SERVER_GROUP"@.len() != "MOVE_CLIENT_RETURN"@.len());
    }
    if uppercase(p.action) == "REMOVE_SERVER_GROUP"@ {
        assert("REMOVE_SERVER_GROUP"@.len() != "REPLY"@.len());
        assert("REMOVE_SERVER_GROUP"@.len() != "CREATE_CHANNEL"@.len());
        assert("REMOVE_SERVER_GROUP"@.len() != "EDIT_CHANNEL"@.len());
        assert("REMOVE_SERVER_GROUP"@.len() != "DELETE_CHANNEL"@.len());
        assert("REMOVE_SERVER_GROUP"@.len() != "SET_CHANNEL_DESCRIPTION"@.len());
        assert("REMOVE_SERVER_GROUP"@.len() != "SET_CHANNEL_ADMIN"@.len());
        assert("REMOVE_SERVER_GROUP"@.len() != "KICK_CLIENT"@.len());
        assert("REMOVE_SERVER_GROUP"@.len() != "MOVE_CLIENT"@.len());
        assert("REMOVE_SERVER_GROUP"@.len() != "MOVE_CLIENT_RETURN"@.len());
        assert("REMOVE_SERVER_GROUP"@.len() != "SET_SERVER_GROUP"@.len());
    }
    if uppercase(p.action) == "POKE_CLIENT"@ {
        assert("POKE_CLIENT"@.len() != "REPLY"@.len());
        assert("POKE_CLIENT"@.len() != "CREATE_CHANNEL"@.len());
        assert("POKE_CLIENT"@.len() != "EDIT_CHANNEL"@.len());
        assert("POKE_CLIENT"@.len() != "DELETE_CHANNEL"@.len());
        assert("POKE_CLIENT"@.len() != "SET_CHANNEL_DESCRIPTION"@.len());
        assert("POKE_CLIENT"@.len() != "SET_CHANNEL_ADMIN"@.len());
        assert("POKE_CLIENT"@[0] != "KICK_CLIENT"@[0]);
        assert("POKE_CLIENT"@[0] != "MOVE_CLIENT"@[0]);
        assert("POKE_CLIENT"@.len() != "MOVE_CLIENT_RETURN"@.len());
        assert("POKE_CLIENT"@.len() != "SET_SERVER_GROUP"@.len());
        assert("POKE_CLIENT"@.len() != "REMOVE_SERVER_GROUP"@.len());
    }
    if uppercase(p.action) == "JOIN_USER_CHANNEL"@ {
        assert("JOIN_USER_CHANNEL"@.len() != "REPLY"@.len());
        assert("JOIN_USER_CHANNEL"@.len() != "CREATE_CHANNEL"@.len());
        assert("JOIN_USER_CHANNEL"@.len() != "EDIT_CHANNEL"@.len());
        assert("JOIN_USER_CHANNEL"@.len() != "DELETE_CHANNEL"@.len());
        assert("JOIN_USER_CHANNEL"@.len() != "SET_CHANNEL_DESCRIPTION"@.len());
        assert("JOIN_USER_CHANNEL"@[0] != "SET_CHANNEL_ADMIN"@[0]);
        assert("JOIN_USER_CHANNEL"@.len() != "KICK_CLIENT"@.len());
        assert("JOIN_USER_CHANNEL"@.len() != "MOVE_CLIENT"@.len());
        assert("JOIN_USER_CHANNEL"@.len() != "MOVE_CLIENT_RETURN"@.len());
        assert("JOIN_USER_CHANNEL"@.len() != "SET_SERVER_GROUP"@.len());
        assert("JOIN_USER_CHANNEL"@.len() != "REMOVE_SERVER_GROUP"@.len());
        assert("JOIN_USER_CHANNEL"@.len() != "POKE_CLIENT"@.len());
    }
    if uppercase(p.action) == "BAN_CLIENT"@ {
        assert("BAN_CLIENT"@.len() != "REPLY"@.len());
        assert("BAN_CLIENT"@.len() != "CREATE_CHANNEL"@.len());
        assert("BAN_CLIENT"@.len() != "EDIT_CHANNEL"@.len());
        assert("BAN_CLIENT"@.len() != "DELETE_CHANNEL"@.len());
        assert("BAN_CLIENT"@.len() != "SET_CHANNEL_DESCRIPTION"@.len());
        assert("BAN_CLIENT"@.len() != "SET_CHANNEL_ADMIN"@.len());
        assert("BAN_CLIENT"@.len() != "KICK_CLIENT"@.len());
        assert("BAN_CLIENT"@.len() != "MOVE_CLIENT"@.len());
        assert("BAN_CLIENT"@.len() != "MOVE_CLIENT_RETURN"@.len());
        assert("BAN_CLIENT"@.len() != "SET_SERVER_GROUP"@.len());
        assert("BAN_CLIENT"@.len() != "REMOVE_SERVER_GROUP"@.len());
        assert("BAN_CLIENT"@.len() != "POKE_CLIENT"@.len());
        assert("BAN_CLIENT"@.len() != "JOIN_USER_CHANNEL"@.len());
    }
    if uppercase(p.action) == "SEND_MESSAGE"@ {
        assert("SEND_MESSAGE"@.len() != "REPLY"@.len());
        assert("SEND_MESSAGE"@.len() != "CREATE_CHANNEL"@.len());
        assert("SEND_MESSAGE"@[0] != "EDIT_CHANNEL"@[0]);
        assert("SEND_MESSAGE"@.len() != "DELETE_CHANNEL"@.len());
        assert("SEND_MESSAGE"@.len() != "SET_CHANNEL_DESCRIPTION"@.len());
        assert("SEND_MESSAGE"@.len() != "SET_CHANNEL_ADMIN"@.len());
        assert("SEND_MESSAGE"@.len() != "KICK_CLIENT"@.len());
        assert("SEND_MESSAGE"@.len() != "MOVE_CLIENT"@.len());
        assert("SEND_MESSAGE"@.len() != "MOVE_CLIENT_RETURN"@.len());
        assert("SEND_MESSAGE"@.len() != "SET_SERVER_GROUP"@.len());
        assert("SEND_MESSAGE"@.len() != "REMOVE_SERVER_GROUP"@.len());
        assert("SEND_MESSAGE"@.len() != "POKE_CLIENT"@.len());
        assert("SEND_MESSAGE"@.len() != "JOIN_USER_CHANNEL"@.len());
        assert("SEND_MESSAGE"@.len() != "BAN_CLIENT"@.len());
    }
    if uppercase(p.action) == "BAN_ADD"@ {
        assert("BAN_ADD"@.len() != "REPLY"@.len());
        assert("BAN_ADD"@.len() != "CREATE_CHANNEL"@.len());
        assert("BAN_ADD"@.len() != "EDIT_CHANNEL"@.len());
        assert("BAN_ADD"@.len() != "DELETE_CHANNEL"@.len());
        assert("BAN_ADD"@.len() != "SET_CHANNEL_DESCRIPTION"@.len());
        assert("BAN_ADD"@.len() != "SET_CHANNEL_ADMIN"@.len());
        assert("BAN_ADD"@.len() != "KICK_CLIENT"@.len());
        assert("BAN_ADD"@.len() != "MOVE_CLIENT"@.len());
        assert("BAN_ADD"@.len() != "MOVE_CLIENT_RETURN"@.len());
        assert("BAN_ADD"@.len() != "SET_SERVER_GROUP"@.len());
        assert("BAN_ADD"@.len() != "REMOVE_SERVER_GROUP"@.len());
        assert("BAN_ADD"@.len() != "POKE_CLIENT"@.len());
        assert("BAN_ADD"@.len() != "JOIN_USER_CHANNEL"@.len());
        assert("BAN_ADD"@.len() != "BAN_CLIENT"@.len());
        assert("BAN_ADD"@.len() != "SEND_MESSAGE"@.len());
    }
    if uppercase(p.action) == "BAN_DEL"@ {
        assert("BAN_DEL"@.len() != "REPLY"@.len());
        assert("BAN_DEL"@.len() != "CREATE_CHANNEL"@.len());
        assert("BAN_DEL"@.len() != "EDIT_CHANNEL"@.len());
        assert("BAN_DEL"@.len() != "DELETE_CHANNEL"@.len());
        assert("BAN_DEL"@.len() != "SET_CHANNEL_DESCRIPTION"@.len());
        assert("BAN_DEL"@.len() != "SET_CHANNEL_ADMIN"@.len());
        assert("BAN_DEL"@.len() != "KICK_CLIENT"@.len());
        assert("BAN_DEL"@.len() != "MOVE_CLIENT"@.len());
        assert("BAN_DEL"@.len() != "MOVE_CLIENT_RETURN"@.len());
        assert("BAN_DEL"@.len() != "SET_SERVER_GROUP"@.len());
        assert("BAN_DEL"@.len() != "REMOVE_SERVER_GROUP"@.len());
        assert("BAN_DEL"@.len() != "POKE_CLIENT"@.len());
        assert("BAN_DEL"@.len() != "JOIN_USER_CHANNEL"@.len());
        assert("BAN_DEL"@.len() != "BAN_CLIENT"@.len());
        assert("BAN_DEL"@.len() != "SEND_MESSAGE"@.len());
        assert("BAN_DEL"@[4] != "BAN_ADD"@[4]);
    }
    if uppercase(p.action) == "BAN_DEL_ALL"@ {
        assert("BAN_DEL_ALL"@.len() != "REPLY"@.len());
        assert("BAN_DEL_ALL"@.len() != "CREATE_CHANNEL"@.len());
        assert("BAN_DEL_ALL"@.len() != "EDIT_CHANNEL"@.len());
        assert("BAN_DEL_ALL"@.len() != "DELETE_CHANNEL"@.len());
        assert("BAN_DEL_ALL"@.len() != "SET_CHANNEL_DESCRIPTION"@.len());
        assert("BAN_DEL_ALL"@.len() != "SET_CHANNEL_ADMIN"@.len());
        assert("BAN_DEL_ALL"@[0] != "KICK_CLIENT"@[0]);
        assert("BAN_DEL_ALL"@[0] != "MOVE_CLIENT"@[0]);
        assert("BAN_DEL_ALL"@.len() != "MOVE_CLIENT_RETURN"@.len());
        assert("BAN_DEL_ALL"@.len() != "SET_SERVER_GROUP"@.len());
        assert("BAN_DEL_ALL"@.len() != "REMOVE_SERVER_GROUP"@.len());
        assert("BAN_DEL_ALL"@[0] != "POKE_CLIENT"@[0]);
        assert("BAN_DEL_ALL"@.len() != "JOIN_USER_CHANNEL"@.len());
        assert("BAN_DEL_ALL"@.len() != "BAN_CLIENT"@.len());
        assert("BAN_DEL_ALL"@.len() != "SEND_MESSAGE"@.len());
        assert("BAN_DEL_ALL"@.len() != "BAN_ADD"@.len());
        assert("BAN_DEL_ALL"@.len() != "BAN_DEL"@.len());
    }
    if uppercase(p.action) == "BAN_LIST"@ {
        assert("BAN_LIST"@.len() != "REPLY"@.len());
        assert("BAN_LIST"@.len() != "CREATE_CHANNEL"@.len());
        assert("BAN_LIST"@.len() != "EDIT_CHANNEL"@.len());
        assert("BAN_LIST"@.len() != "DELETE_CHANNEL"@.len());
        assert("BAN_LIST"@.len() != "SET_CHANNEL_DESCRIPTION"@.len());
        assert("BAN_LIST"@.len() != "SET_CHANNEL_ADMIN"@.len());
        assert("BAN_LIST"@.len() != "KICK_CLIENT"@.len());
        assert("BAN_LIST"@.len() != "MOVE_CLIENT"@.len());
        assert("BAN_LIST"@.len() != "MOVE_CLIENT_RETURN"@.len());
        assert("BAN_LIST"@.len() != "SET_SERVER_GROUP"@.len());
        assert("BAN_LIST"@.len() != "REMOVE_SERVER_GROUP"@.len());
        assert("BAN_LIST"@.len() != "POKE_CLIENT"@.len());
        assert("BAN_LIST"@.len() != "JOIN_USER_CHANNEL"@.len());
        assert("BAN_LIST"@.len() != "BAN_CLIENT"@.len());
        assert("BAN_LIST"@.len() != "SEND_MESSAGE"@.len());
        assert("BAN_LIST"@.len() != "BAN_ADD"@.len());
        assert("BAN_LIST"@.len() != "BAN_DEL"@.len());
        assert("BAN_LIST"@.len() != "BAN_DEL_ALL"@.len());
    }
    if uppercase(p.action) == "CLIENT_EDIT"@ {
        assert("CLIENT_EDIT"@.len() != "REPLY"@.len());
        assert("CLIENT_EDIT"@.len() != "CREATE_CHANNEL"@.len());
        assert("CLIENT_EDIT"@.len() != "EDIT_CHANNEL"@.len());
        assert("CLIENT_EDIT"@.len() != "DELETE_CHANNEL"@.len());
        assert("CLIENT_EDIT"@.len() != "SET_CHANNEL_DESCRIPTION"@.len());
        assert("CLIENT_EDIT"@.len() != "SET_CHANNEL_ADMIN"@.len());
        assert("CLIENT_EDIT"@[0] != "KICK_CLIENT"@[0]);
        assert("CLIENT_EDIT"@[0] != "MOVE_CLIENT"@[0]);
        assert("CLIENT_EDIT"@.len() != "MOVE_CLIENT_RETURN"@.len());
        assert("CLIENT_EDIT"@.len() != "SET_SERVER_GROUP"@.len());
        assert("CLIENT_EDIT"@.len() != "REMOVE_SERVER_GROUP"@.len());
        assert("CLIENT_EDIT"@[0] != "POKE_CLIENT"@[0]);
        assert("CLIENT_EDIT"@.len() != "JOIN_USER_CHANNEL"@.len());
        assert("CLIENT_EDIT"@.len() != "BAN_CLIENT"@.len());
        assert("CLIENT_EDIT"@.len() != "SEND_MESSAGE"@.len());
        assert("CLIENT_EDIT"@.len() != "BAN_ADD"@.len());
        assert("CLIENT_EDIT"@.len() != "BAN_DEL"@.len());
        assert("CLIENT_EDIT"@[0] != "BAN_DEL_ALL"@[0]);
        assert("CLIENT_EDIT"@.len() != "BAN_LIST"@.len());
    }
    if uppercase(p.action) == "CHANNEL_MOVE"@ {
        assert("CHANNEL_MOVE"@.len() != "REPLY"@.len());
        assert("CHANNEL_MOVE"@.len() != "CREATE_CHANNEL"@.len());
        assert("CHANNEL_MOVE"@[0] != "EDIT_CHANNEL"@[0]);
        assert("CHANNEL_MOVE"@.len() != "DELETE_CHANNEL"@.len());
        assert("CHANNEL_MOVE"@.len() != "SET_CHANNEL_DESCRIPTION"@.len());
        assert("CHANNEL_MOVE"@.len() != "SET_CHANNEL_ADMIN"@.len());
        assert("CHANNEL_MOVE"@.len() != "KICK_CLIENT"@.len());
        assert("CHANNEL_MOVE"@.len() != "MOVE_CLIENT"@.len());
        assert("CHANNEL_MOVE"@.len() != "MOVE_CLIENT_RETURN"@.len());
        assert("CHANNEL_MOVE"@.len() != "SET_SERVER_GROUP"@.len());
        assert("CHANNEL_MOVE"@.len() != "REMOVE_SERVER_GROUP"@.len());
        assert("CHANNEL_MOVE"@.len() != "POKE_CLIENT"@.len());
        assert("CHANNEL_MOVE"@.len() != "JOIN_USER_CHANNEL"@.len());
        assert("CHANNEL_MOVE"@.len() != "BAN_CLIENT"@.len());
        assert("CHANNEL_MOVE"@[0] != "SEND_MESSAGE"@[0]);
        assert("CHANNEL_MOVE"@.len() != "BAN_ADD"@.len());
        assert("CHANNEL_MOVE"@.len() != "BAN_DEL"@.len());
        assert("CHANNEL_MOVE"@.len() != "BAN_DEL_ALL"@.len());
        assert("CHANNEL_MOVE"@.len() != "BAN_LIST"@.len());
        assert("CHANNEL_MOVE"@.len() != "CLIENT_EDIT"@.len());
    }
    if uppercase(p.action) == "CHANNEL_SUBSCRIBE"@ {
        assert("CHANNEL_SUBSCRIBE"@.len() != "REPLY"@.len());
        assert("CHANNEL_SUBSCRIBE"@.len() != "CREATE_CHANNEL"@.len());
        assert("CHANNEL_SUBSCRIBE"@.len() != "EDIT_CHANNEL"@.len());
        assert("CHANNEL_SUBSCRIBE"@.len() != "DELETE_CHANNEL"@.len());
        assert("CHANNEL_SUBSCRIBE"@.len() != "SET_CHANNEL_DESCRIPTION"@.len());
        assert("CHANNEL_SUBSCRIBE"@[0] != "SET_CHANNEL_ADMIN"@[0]);
        assert("CHANNEL_SUBSCRIBE"@.len() != "KICK_CLIENT"@.len());
        assert("CHANNEL_SUBSCRIBE"@.len() != "MOVE_CLIENT"@.len());
        assert("CHANNEL_SUBSCRIBE"@.len() != "MOVE_CLIENT_RETURN"@.len());
        assert("CHANNEL_SUBSCRIBE"@.len() != "SET_SERVER_GROUP"@.len());
        assert("CHANNEL_SUBSCRIBE"@.len() != "REMOVE_SERVER_GROUP"@.len());
        assert("CHANNEL_SUBSCRIBE"@.len() != "POKE_CLIENT"@.len());
        assert("CHANNEL_SUBSCRIBE"@[0] != "JOIN_USER_CHANNEL"@[0]);
        assert("CHANNEL_SUBSCRIBE"@.len() != "BAN_CLIENT"@.len());
        assert("CHANNEL_SUBSCRIBE"@.len() != "SEND_MESSAGE"@.len());
        assert("CHANNEL_SUBSCRIBE"@.len() != "BAN_ADD"@.len());
        assert("CHANNEL_SUBSCRIBE"@.len() != "BAN_DEL"@.len());
        assert("CHANNEL_SUBSCRIBE"@.len() != "BAN_DEL_ALL"@.len());
        assert("CHANNEL_SUBSCRIBE"@.len() != "BAN_LIST"@.len());
        assert("CHANNEL_SUBSCRIBE"@.len() != "CLIENT_EDIT"@.len());
        assert("CHANNEL_SUBSCRIBE"@.len() != "CHANNEL_MOVE"@.len());
    }
    if uppercase(p.action) == "CHANNEL_UNSUBSCRIBE"@ {
        assert("CHANNEL_UNSUBSCRIBE"@.len() != "REPLY"@.len());
        assert("CHANNEL_UNSUBSCRIBE"@.len() != "CREATE_CHANNEL"@.len());
        assert("CHANNEL_UNSUBSCRIBE"@.len() != "EDIT_CHANNEL"@.len());
        assert("CHANNEL_UNSUBSCRIBE"@.len() != "DELETE_CHANNEL"@.len());
        assert("CHANNEL_UNSUBSCRIBE"@.len() != "SET_CHANNEL_DESCRIPTION"@.len());
        assert("CHANNEL_UNSUBSCRIBE"@.len() != "SET_CHANNEL_ADMIN"@.len());
        assert("CHANNEL_UNSUBSCRIBE"@.len() != "KICK_CLIENT"@.len());
        assert("CHANNEL_UNSUBSCRIBE"@.len() != "MOVE_CLIENT"@.len());
        assert("CHANNEL_UNSUBSCRIBE"@.len() != "MOVE_CLIENT_RETURN"@.len());
        assert("CHANNEL_UNSUBSCRIBE"@.len() != "SET_SERVER_GROUP"@.len());
        assert("CHANNEL_UNSUBSCRIBE"@[0] != "REMOVE_SERVER_GROUP"@[0]);
        assert("CHANNEL_UNSUBSCRIBE"@.len() != "POKE_CLIENT"@.len());
        assert("CHANNEL_UNSUBSCRIBE"@.len() != "JOIN_USER_CHANNEL"@.len());
        assert("CHANNEL_UNSUBSCRIBE"@.len() != "BAN_CLIENT"@.len());
        assert("CHANNEL_UNSUBSCRIBE"@.len() != "SEND_MESSAGE"@.len());
        assert("CHANNEL_UNSUBSCRIBE"@.len() != "BAN_ADD"@.len());
        assert("CHANNEL_UNSUBSCRIBE"@.len() != "BAN_DEL"@.len());
        assert("CHANNEL_UNSUBSCRIBE"@.len() != "BAN_DEL_ALL"@.len());
        assert("CHANNEL_UNSUBSCRIBE"@.len() != "BAN_LIST"@.len());
        assert("CHANNEL_UNSUBSCRIBE"@.len() != "CLIENT_EDIT"@.len());
        assert("CHANNEL_UNSUBSCRIBE"@.len() != "CHANNEL_MOVE"@.len());
        assert("CHANNEL_UNSUBSCRIBE"@.len() != "CHANNEL_SUBSCRIBE"@.len());
    }
    if uppercase(p.action) == "SEND_CHANNEL_MESSAGE"@ {
        assert("SEND_CHANNEL_MESSAGE"@.len() != "REPLY"@.len());
        assert("SEND_CHANNEL_MESSAGE"@.len() != "CREATE_CHANNEL"@.len());
        assert("SEND_CHANNEL_MESSAGE"@.len() != "EDIT_CHANNEL"@.len());
        assert("SEND_CHANNEL_MESSAGE"@.len() != "DELETE_CHANNEL"@.len());
        assert("SEND_CHANNEL_MESSAGE"@.len() != "SET_CHANNEL_DESCRIPTION"@.len());
        assert("SEND_CHANNEL_MESSAGE"@.len() != "SET_CHANNEL_ADMIN"@.len());
        assert("SEND_CHANNEL_MESSAGE"@.len() != "KICK_CLIENT"@.len());
        assert("SEND_CHANNEL_MESSAGE"@.len() != "MOVE_CLIENT"@.len());
        assert("SEND_CHANNEL_MESSAGE"@.len() != "MOVE_CLIENT_RETURN"@.len());
        assert("SEND_CHANNEL_MESSAGE"@.len() != "SET_SERVER_GROUP"@.len());
        assert("SEND_CHANNEL_MESSAGE"@.len() != "REMOVE_SERVER_GROUP"@.len());
        assert("SEND_CHANNEL_MESSAGE"@.len() != "POKE_CLIENT"@.len());
        assert("SEND_CHANNEL_MESSAGE"@.len() != "JOIN_USER_CHANNEL"@.len());
        assert("SEND_CHANNEL_MESSAGE"@.len() != "BAN_CLIENT"@.len());
        assert("SEND_CHANNEL_MESSAGE"@.len() != "SEND_MESSAGE"@.len());
        assert("SEND_CHANNEL_MESSAGE"@.len() != "BAN_ADD"@.len());
        assert("SEND_CHANNEL_MESSAGE"@.len() != "BAN_DEL"@.len());
        assert("SEND_CHANNEL_MESSAGE"@.len() != "BAN_DEL_ALL"@.len());
        assert("SEND_CHANNEL_MESSAGE"@.len() != "BAN_LIST"@.len());
        assert("SEND_CHANNEL_MESSAGE"@.len() != "CLIENT_EDIT"@.len());
        assert("SEND_CHANNEL_MESSAGE"@.len() != "CHANNEL_MOVE"@.len());
        assert("SEND_CHANNEL_MESSAGE"@.len() != "CHANNEL_SUBSCRIBE"@.len());
        assert("SEND_CHANNEL_MESSAGE"@.len() != "CHANNEL_UNSUBSCRIBE"@.len());
    }
    if uppercase(p.action) == "MOVE_BOT_CHANNEL"@ {
        assert("MOVE_BOT_CHANNEL"@.len() != "REPLY"@.len());
        assert("MOVE_BOT_CHANNEL"@.len() != "CREATE_CHANNEL"@.len());
        assert("MOVE_BOT_CHANNEL"@.len() != "EDIT_CHANNEL"@.len());
        assert("MOVE_BOT_CHANNEL"@.len() != "DELETE_CHANNEL"@.len());
        assert("MOVE_BOT_CHANNEL"@.len() != "SET_CHANNEL_DESCRIPTION"@.len());
        assert("MOVE_BOT_CHANNEL"@.len() != "SET_CHANNEL_ADMIN"@.len());
        assert("MOVE_BOT_CHANNEL"@.len() != "KICK_CLIENT"@.len());
        assert("MOVE_BOT_CHANNEL"@.len() != "MOVE_CLIENT"@.len());
        assert("MOVE_BOT_CHANNEL"@.len() != "MOVE_CLIENT_RETURN"@.len());
        assert("MOVE_BOT_CHANNEL"@[0] != "SET_SERVER_GROUP"@[0]);
        assert("MOVE_BOT_CHANNEL"@.len() != "REMOVE_SERVER_GROUP"@.len());
        assert("MOVE_BOT_CHANNEL"@.len() != "POKE_CLIENT"@.len());
        assert("MOVE_BOT_CHANNEL"@.len() != "JOIN_USER_CHANNEL"@.len());
        assert("MOVE_BOT_CHANNEL"@.len() != "BAN_CLIENT"@.len());
        assert("MOVE_BOT_CHANNEL"@.len() != "SEND_MESSAGE"@.len());
        assert("MOVE_BOT_CHANNEL"@.len() != "BAN_ADD"@.len());
        assert("MOVE_BOT_CHANNEL"@.len() != "BAN_DEL"@.len());
        assert("MOVE_BOT_CHANNEL"@.len() != "BAN_DEL_ALL"@.len());
        assert("MOVE_BOT_CHANNEL"@.len() != "BAN_LIST"@.len());
        assert("MOVE_BOT_CHANNEL"@.len() != "CLIENT_EDIT"@.len());
        assert("MOVE_BOT_CHANNEL"@.len() != "CHANNEL_MOVE"@.len());
        assert("MOVE_BOT_CHANNEL"@.len() != "CHANNEL_SUBSCRIBE"@.len());
        assert("MOVE_BOT_CHANNEL"@.len() != "CHANNEL_UNSUBSCRIBE"@.len());
        assert("MOVE_BOT_CHANNEL"@.len() != "SEND_CHANNEL_MESSAGE"@.len());
    }
    if uppercase(p.action) == "PLAY_TTS"@ {
        assert("PLAY_TTS"@.len() != "REPLY"@.len());
        assert("PLAY_TTS"@.len() != "CREATE_CHANNEL"@.len());
        assert("PLAY_TTS"@.len() != "EDIT_CHANNEL"@.len());
        assert("PLAY_TTS"@.len() != "DELETE_CHANNEL"@.len());
        assert("PLAY_TTS"@.len() != "SET_CHANNEL_DESCRIPTION"@.len());
        assert("PLAY_TTS"@.len() != "SET_CHANNEL_ADMIN"@.len());
        assert("PLAY_TTS"@.len() != "KICK_CLIENT"@.len());
        assert("PLAY_TTS"@.len() != "MOVE_CLIENT"@.len());
        assert("PLAY_TTS"@.len() != "MOVE_CLIENT_RETURN"@.len());
        assert("PLAY_TTS"@.len() != "SET_SERVER_GROUP"@.len());
        assert("PLAY_TTS"@.len() != "REMOVE_SERVER_GROUP"@.len());
        assert("PLAY_TTS"@.len() != "POKE_CLIENT"@.len());
        assert("PLAY_TTS"@.len() != "JOIN_USER_CHANNEL"@.len());
        assert("PLAY_TTS"@.len() != "BAN_CLIENT"@.len());
        assert("PLAY_TTS"@.len() != "SEND_MESSAGE"@.len());
        assert("PLAY_TTS"@.len() != "BAN_ADD"@.len());
        assert("PLAY_TTS"@.len() != "BAN_DEL"@.len());
        assert("PLAY_TTS"@.len() != "BAN_DEL_ALL"@.len());
        assert("PLAY_TTS"@[0] != "BAN_LIST"@[0]);
        assert("PLAY_TTS"@.len() != "CLIENT_EDIT"@.len());
        assert("PLAY_TTS"@.len() != "CHANNEL_MOVE"@.len());
        assert("PLAY_TTS"@.len() != "CHANNEL_SUBSCRIBE"@.len());
        assert("PLAY_TTS"@.len() != "CHANNEL_UNSUBSCRIBE"@.len());
        assert("PLAY_TTS"@.len() != "SEND_CHANNEL_MESSAGE"@.len());
        assert("PLAY_TTS"@.len() != "MOVE_BOT_CHANNEL"@.len());
    }
    if uppercase(p.action) == "PLAY_MUSIC"@ {
        assert("PLAY_MUSIC"@.len() != "REPLY"@.len());
        assert("PLAY_MUSIC"@.len() != "CREATE_CHANNEL"@.len());
        assert("PLAY_MUSIC"@.len() != "EDIT_CHANNEL"@.len());
        assert("PLAY_MUSIC"@.len() != "DELETE_CHANNEL"@.len());
        assert("PLAY_MUSIC"@.len() != "SET_CHANNEL_DESCRIPTION"@.len());
        assert("PLAY_MUSIC"@.len() != "SET_CHANNEL_ADMIN"@.len());
        assert("PLAY_MUSIC"@.len() != "KICK_CLIENT"@.len());
        assert("PLAY_MUSIC"@.len() != "MOVE_CLIENT"@.len());
        assert("PLAY_MUSIC"@.len() != "MOVE_CLIENT_RETURN"@.len());
        assert("PLAY_MUSIC"@.len() != "SET_SERVER_GROUP"@.len());
        assert("PLAY_MUSIC"@.len() != "REMOVE_SERVER_GROUP"@.len());
        assert("PLAY_MUSIC"@.len() != "POKE_CLIENT"@.len());
        assert("PLAY_MUSIC"@.len() != "JOIN_USER_CHANNEL"@.len());
        assert("PLAY_MUSIC"@[0] != "BAN_CLIENT"@[0]);
        assert("PLAY_MUSIC"@.len() != "SEND_MESSAGE"@.len());
        assert("PLAY_MUSIC"@.len() != "BAN_ADD"@.len());
        assert("PLAY_MUSIC"@.len() != "BAN_DEL"@.len());
        assert("PLAY_MUSIC"@.len() != "BAN_DEL_ALL"@.len());
        assert("PLAY_MUSIC"@.len() != "BAN_LIST"@.len());
        assert("PLAY_MUSIC"@.len() != "CLIENT_EDIT"@.len());
        assert("PLAY_MUSIC"@.len() != "CHANNEL_MOVE"@.len());
        assert("PLAY_MUSIC"@.len() != "CHANNEL_SUBSCRIBE"@.len());
        assert("PLAY_MUSIC"@.len() != "CHANNEL_UNSUBSCRIBE"@.len());
        assert("PLAY_MUSIC"@.len() != "SEND_CHANNEL_MESSAGE"@.len());
        assert("PLAY_MUSIC"@.len() != "MOVE_BOT_CHANNEL"@.len());
        assert("PLAY_MUSIC"@.len() != "PLAY_TTS"@.len());
    }
    if uppercase(p.action) == "SET_VOLUME"@ {
        assert("SET_VOLUME"@.len() != "REPLY"@.len());
        assert("SET_VOLUME"@.len() != "CREATE_CHANNEL"@.len());
        assert("SET_VOLUME"@.len() != "EDIT_CHANNEL"@.len());
        assert("SET_VOLUME"@.len() != "DELETE_CHANNEL"@.len());
        assert("SET_VOLUME"@.len() != "SET_CHANNEL_DESCRIPTION"@.len());
        assert("SET_VOLUME"@.len() != "SET_CHANNEL_ADMIN"@.len());
        assert("SET_VOLUME"@.len() != "KICK_CLIENT"@.len());
        assert("SET_VOLUME"@.len() != "MOVE_CLIENT"@.len());
        assert("SET_VOLUME"@.len() != "MOVE_CLIENT_RETURN"@.len());
        assert("SET_VOLUME"@.len() != "SET_SERVER_GROUP"@.len());
        assert("SET_VOLUME"@.len() != "REMOVE_SERVER_GROUP"@.len());
        assert("SET_VOLUME"@.len() != "POKE_CLIENT"@.len());
        assert("SET_VOLUME"@.len() != "JOIN_USER_CHANNEL"@.len());
        assert("SET_VOLUME"@[0] != "BAN_CLIENT"@[0]);
        assert("SET_VOLUME"@.len() != "SEND_MESSAGE"@.len());
        assert("SET_VOLUME"@.len() != "BAN_ADD"@.len());
        assert("SET_VOLUME"@.len() != "BAN_DEL"@.len());
        assert("SET_VOLUME"@.len() != "BAN_DEL_ALL"@.len());
        assert("SET_VOLUME"@.len() != "BAN_LIST"@.len());
        assert("SET_VOLUME"@.len() != "CLIENT_EDIT"@.len());
        assert("SET_VOLUME"@.len() != "CHANNEL_MOVE"@.len());
        assert("SET_VOLUME"@.len() != "CHANNEL_SUBSCRIBE"@.len());
        assert("SET_VOLUME"@.len() != "CHANNEL_UNSUBSCRIBE"@.len());
        assert("SET_VOLUME"@.len() != "SEND_CHANNEL_MESSAGE"@.len());
        assert("SET_VOLUME"@.len() != "MOVE_BOT_CHANNEL"@.len());
        assert("SET_VOLUME"@.len() != "PLAY_TTS"@.len());
        assert("SET_VOLUME"@[0] != "PLAY_MUSIC"@[0]);
    }
}

} // verus!
