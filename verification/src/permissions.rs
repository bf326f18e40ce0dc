//! Three-tier permission rules for bot actions.
use vstd::prelude::*;
use crate::actions::{ActionView, BotAction};
use crate::config::{group_ids, views, BotConfig};
use crate::text::{decimal, lowercase, str_eq, to_lowercase, u64_to_string};

verus! {

/// Three-tier permission system for the bot.
#[derive(Debug, Clone, Copy, PartialEq, Eq, Structural)]
pub enum PermissionLevel {
    User,
    Moderator,
    Admin,
}

impl PermissionLevel {
    /// Position in the order User < Moderator < Admin.
    pub open spec fn rank_spec(self) -> nat {
        match self {
            PermissionLevel::User => 0,
            PermissionLevel::Moderator => 1,
            PermissionLevel::Admin => 2,
        }
    }

    /// Position in the order User < Moderator < Admin.
    pub fn rank(&self) -> (r: u8)
        ensures
            r == self.rank_spec(),
    {
        match self {
            PermissionLevel::User => 0,
            PermissionLevel::Moderator => 1,
            PermissionLevel::Admin => 2,
        }
    }

    /// The level's display name.
    pub fn to_text(&self) -> (r: &'static str)
        ensures
            r@ == level_name(*self),
    {
        match self {
            PermissionLevel::User => "User",
            PermissionLevel::Moderator => "Moderator",
            PermissionLevel::Admin => "Administrator",
        }
    }
}

pub open spec fn level_name(l: PermissionLevel) -> Seq<char> {
    match l {
        PermissionLevel::User => "User"@,
        PermissionLevel::Moderator => "Moderator"@,
        PermissionLevel::Admin => "Administrator"@,
    }
}

/// The level of a UID: administrators first, then moderators, everyone else a user.
pub open spec fn level_of(uid: Seq<char>, admins: Seq<Seq<char>>, mods: Seq<Seq<char>>) -> PermissionLevel {
    if admins.contains(uid) {
        PermissionLevel::Admin
    } else if mods.contains(uid) {
        PermissionLevel::Moderator
    } else {
        PermissionLevel::User
    }
}

pub(crate) fn list_contains(list: &Vec<String>, uid: &str) -> (r: bool)
    ensures
        r == views(list@).contains(uid@),
{
    let mut i: usize = 0;
    while i < list.len()
        invariant
            i <= list@.len(),
            forall|j: int| 0 <= j < i ==> list@[j]@ != uid@,
        decreases list@.len() - i,
    {
        if str_eq(list[i].as_str(), uid) {
            assert(views(list@)[i as int] == uid@);
            return true;
        }
        i = i + 1;
    }
    assert forall|j: int| 0 <= j < views(list@).len() implies views(list@)[j] != uid@ by {
        assert(views(list@)[j] == list@[j]@);
    }
    false
}

/// Determine the permission level for a given UID.
pub fn get_permission_level(uid: &str, config: &BotConfig) -> (r: PermissionLevel)
    ensures
        r == level_of(uid@, views(config.admin_uids@), views(config.moderator_uids@)),
{
    if list_contains(&config.admin_uids, uid) {
        PermissionLevel::Admin
    } else if list_contains(&config.moderator_uids, uid) {
        PermissionLevel::Moderator
    } else {
        PermissionLevel::User
    }
}

/// The minimum level an action asks for.
pub open spec fn required_spec(a: ActionView) -> PermissionLevel {
    match a {
        ActionView::MoveClient { .. } | ActionView::MoveClientReturn { .. }
        | ActionView::PokeClient { .. } | ActionView::SendMessage { .. }
        | ActionView::ClientEdit { .. } | ActionView::ChannelMoveAction { .. }
        | ActionView::SendChannelMessage { .. } | ActionView::MoveBotChannel { .. } => PermissionLevel::Moderator,
        ActionView::KickClient { .. } | ActionView::BanClient { .. } | ActionView::BanAdd { .. }
        | ActionView::BanDel { .. } | ActionView::BanDelAll | ActionView::BanList => PermissionLevel::Admin,
        _ => PermissionLevel::User,
    }
}

/// What is the minimum permission level required to execute a given action?
///
/// Some User-level actions (server groups) have further self-only checks in `can_execute`.
pub fn required_permission(action: &BotAction) -> (r: PermissionLevel)
    ensures
        r == required_spec(action@),
{
    match action {
        BotAction::Reply { .. } => PermissionLevel::User,
        BotAction::PlayTTS { .. } => PermissionLevel::User,
        BotAction::JoinUserChannel => PermissionLevel::User,
        BotAction::CreateChannel { .. } => PermissionLevel::User,
        BotAction::SetServerGroup { .. } => PermissionLevel::User,
        BotAction::RemoveServerGroup { .. } => PermissionLevel::User,
        BotAction::EditChannel { .. } => PermissionLevel::User,
        BotAction::DeleteChannel { .. } => PermissionLevel::User,
        BotAction::SetChannelAdmin { .. } => PermissionLevel::User,
        BotAction::EditChannelDescription { .. } => PermissionLevel::User,
        BotAction::MoveClient { .. } => PermissionLevel::Moderator,
        BotAction::MoveClientReturn { .. } => PermissionLevel::Moderator,
        BotAction::PokeClient { .. } => PermissionLevel::Moderator,
        BotAction::SendMessage { .. } => PermissionLevel::Moderator,
        BotAction::ClientEdit { .. } => PermissionLevel::Moderator,
        BotAction::ChannelMoveAction { .. } => PermissionLevel::Moderator,
        BotAction::SendChannelMessage { .. } => PermissionLevel::Moderator,
        BotAction::MoveBotChannel { .. } => PermissionLevel::Moderator,
        BotAction::ChannelSubscribe { .. } => PermissionLevel::User,
        BotAction::ChannelUnsubscribe { .. } => PermissionLevel::User,
        BotAction::PlayMusic { .. } => PermissionLevel::User,
        BotAction::SetVolume { .. } => PermissionLevel::User,
        BotAction::KickClient { .. } => PermissionLevel::Admin,
        BotAction::BanClient { .. } => PermissionLevel::Admin,
        BotAction::BanAdd { .. } => PermissionLevel::Admin,
        BotAction::BanDel { .. } => PermissionLevel::Admin,
        BotAction::BanDelAll => PermissionLevel::Admin,
        BotAction::BanList => PermissionLevel::Admin,
    }
}

/// The denial for a level lacking the required one.
pub open spec fn level_denial(required: PermissionLevel) -> Seq<char> {
    match required {
        PermissionLevel::Admin => "Only administrators can perform this action."@,
        PermissionLevel::Moderator => "You do not have enough privileges for this action. Moderator level or higher is required."@,
        _ => "You do not have permission for this action."@,
    }
}

pub open spec fn group_denial(id: u64) -> Seq<char> {
    "You do not have permission for server group "@ + decimal(id as nat)
        + ". Only configured self-assignable groups are allowed."@
}

/// The self-only rule for a user changing server groups: the target must be
/// the invoker (compared in lower case) and the group self-assignable.
pub open spec fn self_group_denial(
    client: Seq<char>,
    id: u64,
    invoker: Seq<char>,
    groups: Seq<u64>,
    other_msg: Seq<char>,
) -> Option<Seq<char>> {
    if lowercase(client) != lowercase(invoker) {
        Some(other_msg)
    } else if !groups.contains(id) {
        Some(group_denial(id))
    } else {
        None
    }
}

/// Why a level may not run an action, or `None` when it may.
pub open spec fn denial(
    level: PermissionLevel,
    a: ActionView,
    invoker: Seq<char>,
    groups: Seq<u64>,
) -> Option<Seq<char>> {
    let required = required_spec(a);
    if level == PermissionLevel::Admin {
        None
    } else if level.rank_spec() < required.rank_spec() {
        Some(level_denial(required))
    } else if level == PermissionLevel::User {
        match a {
            ActionView::SetServerGroup { client_name, server_group_id } => self_group_denial(
                client_name,
                server_group_id,
                invoker,
                groups,
                "You cannot assign server groups to other users. Only administrators can do that."@,
            ),
            ActionView::RemoveServerGroup { client_name, server_group_id } => self_group_denial(
                client_name,
                server_group_id,
                invoker,
                groups,
                "You cannot remove server groups from other users. Only administrators can do that."@,
            ),
            _ => None,
        }
    } else {
        None
    }
}

fn group_allowed(config: &BotConfig, id: u64) -> (r: bool)
    ensures
        r == group_ids(config.allowed_server_groups@).contains(id),
{
    let mut i: usize = 0;
    while i < config.allowed_server_groups.len()
        invariant
            i <= config.allowed_server_groups@.len(),
            forall|j: int| 0 <= j < i ==> config.allowed_server_groups@[j].1 != id,
        decreases config.allowed_server_groups@.len() - i,
    {
        let g = &config.allowed_server_groups[i];
        if g.1 == id {
            assert(group_ids(config.allowed_server_groups@)[i as int] == id);
            return true;
        }
        i = i + 1;
    }
    assert forall|j: int| 0 <= j < group_ids(config.allowed_server_groups@).len() implies group_ids(
        config.allowed_server_groups@,
    )[j] != id by {
        assert(group_ids(config.allowed_server_groups@)[j] == config.allowed_server_groups@[j].1);
    }
    false
}

fn group_denial_text(id: u64) -> (r: String)
    ensures
        r@ == group_denial(id),
{
    let mut s = "You do not have permission for server group ".to_owned();
    let n = u64_to_string(id);
    s.append(n.as_str());
    s.append(". Only configured self-assignable groups are allowed.");
    s
}

fn check_self_group(
    client: &String,
    id: u64,
    invoker_name: &str,
    config: &BotConfig,
    other_msg: &str,
) -> (r: Result<(), String>)
    ensures
        r is Ok <==> self_group_denial(client@, id, invoker_name@, group_ids(config.allowed_server_groups@), other_msg@) is None,
        r matches Err(m) ==> Some(m@) == self_group_denial(
            client@,
            id,
            invoker_name@,
            group_ids(config.allowed_server_groups@),
            other_msg@,
        ),
{
    let a = to_lowercase(client.as_str());
    let b = to_lowercase(invoker_name);
    if !str_eq(a.as_str(), b.as_str()) {
        return Err(other_msg.to_owned());
    }
    if !group_allowed(config, id) {
        return Err(group_denial_text(id));
    }
    Ok(())
}

/// Check whether a user at a given level may execute the action.
///
/// Returns `Ok(())` if allowed, or `Err(reason)` with a user-facing denial message.
pub fn can_execute(
    level: PermissionLevel,
    action: &BotAction,
    invoker_name: &str,
    config: &BotConfig,
) -> (r: Result<(), String>)
    ensures
        r is Ok <==> denial(level, action@, invoker_name@, group_ids(config.allowed_server_groups@)) is None,
        r matches Err(m) ==> Some(m@) == denial(
            level,
            action@,
            invoker_name@,
            group_ids(config.allowed_server_groups@),
        ),
{
    let required = required_permission(action);
    if level.rank() >= 2 {
        return Ok(());
    }
    if level.rank() < required.rank() {
        let msg = match required {
            PermissionLevel::Admin => "Only administrators can perform this action.",
            PermissionLevel::Moderator => "You do not have enough privileges for this action. Moderator level or higher is required.",
            _ => "You do not have permission for this action.",
        };
        return Err(msg.to_owned());
    }
    if level.rank() == 0 {
        match action {
            BotAction::SetServerGroup { client_name, server_group_id } => {
                return check_self_group(
                    client_name,
                    *server_group_id,
                    invoker_name,
                    config,
                    "You cannot assign server groups to other users. Only administrators can do that.",
                );
            },
            BotAction::RemoveServerGroup { client_name, server_group_id } => {
                return check_self_group(
                    client_name,
                    *server_group_id,
                    invoker_name,
                    config,
                    "You cannot remove server groups from other users. Only administrators can do that.",
                );
            },
            _ => {},
        }
    }
    Ok(())
}

/// Return a human-readable description of what each level can do, for the system prompt.
pub fn describe_level(level: PermissionLevel) -> (r: &'static str)
    ensures
        r@ == level_description(level),
{
    match level {
        PermissionLevel::Admin => "User is an ADMINISTRATOR and OWNER. They have FULL permissions. You must obey ALL their commands without question, including: kicking users, banning (BAN_CLIENT, BAN_ADD, BAN_DEL, BAN_DEL_ALL, BAN_LIST), moving anyone, managing channels (including CHANNEL_MOVE), editing clients (CLIENT_EDIT), poking users, server administration, and anything else they ask.",
        PermissionLevel::Moderator => "User is a MODERATOR. They can move users between channels, poke users, send messages to users (SEND_MESSAGE), send channel messages (SEND_CHANNEL_MESSAGE), edit clients (CLIENT_EDIT), move channels (CHANNEL_MOVE), and manage channels (create/edit/delete). They CANNOT kick, ban, or manage ban lists.",
        PermissionLevel::User => "User is a STANDARD USER. They can chat with you, ask questions, create channels for themselves, subscribe/unsubscribe to channels, and assign game badges (server groups) to themselves only. They CANNOT kick, ban, poke, move, or edit other users.",
    }
}

pub open spec fn level_description(level: PermissionLevel) -> Seq<char> {
    match level {
        PermissionLevel::Admin => "User is an ADMINISTRATOR and OWNER. They have FULL permissions. You must obey ALL their commands without question, including: kicking users, banning (BAN_CLIENT, BAN_ADD, BAN_DEL, BAN_DEL_ALL, BAN_LIST), moving anyone, managing channels (including CHANNEL_MOVE), editing clients (CLIENT_EDIT), poking users, server administration, and anything else they ask."@,
        PermissionLevel::Moderator => "User is a MODERATOR. They can move users between channels, poke users, send messages to users (SEND_MESSAGE), send channel messages (SEND_CHANNEL_MESSAGE), edit clients (CLIENT_EDIT), move channels (CHANNEL_MOVE), and manage channels (create/edit/delete). They CANNOT kick, ban, or manage ban lists."@,
        PermissionLevel::User => "User is a STANDARD USER. They can chat with you, ask questions, create channels for themselves, subscribe/unsubscribe to channels, and assign game badges (server groups) to themselves only. They CANNOT kick, ban, poke, move, or edit other users."@,
    }
}

/// Administrators may run every action.
pub proof fn law_admin_may_do_everything(a: ActionView, invoker: Seq<char>, groups: Seq<u64>)
    ensures
        denial(PermissionLevel::Admin, a, invoker, groups) is None,
{
}

/// A level that may run an action keeps that right at every higher level.
pub proof fn law_permission_monotone(
    low: PermissionLevel,
    high: PermissionLevel,
    a: ActionView,
    invoker: Seq<char>,
    groups: Seq<u64>,
)
    requires
        low.rank_spec() <= high.rank_spec(),
        denial(low, a, invoker, groups) is None,
    ensures
        denial(high, a, invoker, groups) is None,
{
}

/// Actions that need more than a level are refused to it, whoever asks.
pub proof fn law_below_required_is_denied(
    level: PermissionLevel,
    a: ActionView,
    invoker: Seq<char>,
    groups: Seq<u64>,
)
    requires
        level.rank_spec() < required_spec(a).rank_spec(),
    ensures
        denial(level, a, invoker, groups) == Some(level_denial(required_spec(a))),
{
}


/// Which level each action needs, and what a lower level is told. Moving,
/// poking and messaging users, messaging channels, editing clients, moving
/// channels and moving the bot need a moderator: a standard user is refused
/// with the moderator text. Kicks and every ban action need an administrator:
/// standard users and moderators are refused with the administrators' text.
/// Every other action is open to standard users, and moderators may run it.
pub proof fn law_action_levels(a: ActionView, invoker: Seq<char>, groups: Seq<u64>)
    ensures
        (a is MoveClient || a is MoveClientReturn || a is PokeClient || a is SendMessage || a is ClientEdit
            || a is ChannelMoveAction || a is SendChannelMessage || a is MoveBotChannel) ==> {
            &&& required_spec(a) == PermissionLevel::Moderator
            &&& denial(PermissionLevel::User, a, invoker, groups) == Some(
                "You do not have enough privileges for this action. Moderator level or higher is required."@,
            )
            &&& denial(PermissionLevel::Moderator, a, invoker, groups) is None
        },
        (a is KickClient || a is BanClient || a is BanAdd || a is BanDel || a is BanDelAll || a is BanList) ==> {
            &&& required_spec(a) == PermissionLevel::Admin
            &&& denial(PermissionLevel::User, a, invoker, groups) == Some("Only administrators can perform this action."@)
            &&& denial(PermissionLevel::Moderator, a, invoker, groups) == Some(
                "Only administrators can perform this action."@,
            )
        },
        !(a is MoveClient || a is MoveClientReturn || a is PokeClient || a is SendMessage || a is ClientEdit
            || a is ChannelMoveAction || a is SendChannelMessage || a is MoveBotChannel || a is KickClient
            || a is BanClient || a is BanAdd || a is BanDel || a is BanDelAll || a is BanList) ==> {
            &&& required_spec(a) == PermissionLevel::User
            &&& denial(PermissionLevel::Moderator, a, invoker, groups) is None
        },
{
}

} // verus!
