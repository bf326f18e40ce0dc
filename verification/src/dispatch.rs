//! What the bot decides around each action the model asked for: whether it
//! may run, whether a user may touch the channel it concerns, what is said
//! and logged once it has run, and where moved users came from.
use vstd::prelude::*;
use crate::actions::{actions_view, opt_view, reply_messages, ActionView, BotAction};
use crate::audit::{action_name, action_name_spec, action_target, action_target_spec, AuditEntry, AuditResult};
use crate::config::{group_ids, BotConfig};
use crate::permissions::{can_execute, denial, level_name, PermissionLevel};
use crate::strmap::StrMap;
use crate::text::{decimal, join, lowercase, str_eq, to_lowercase, u64_to_string};

verus! {

// ---------------------------------------------------------------- permission gate

/// What happens to an action before it runs.
pub enum ActionGate {
    /// A reply: its text is sent at the end, with the others.
    Collect,
    /// Refused: the reason goes to the invoker, the alert to the online
    /// administrators, the entry to the audit log, and no later action runs.
    Deny { reason: String, alert: String, audit: AuditEntry },
    /// Allowed.
    Run,
}

/// The warning the administrators get about a refused action.
pub open spec fn alert_text(invoker_name: Seq<char>, level: PermissionLevel, action: Seq<char>) -> Seq<char> {
    "WARNING: User [b]"@ + invoker_name + "[/b] ("@ + level_name(level) + ") attempted action [b]"@ + action
        + "[/b] without sufficient permissions."@
}

/// Whether an audit entry is the one written for `a` with the given result.
pub open spec fn entry_is(e: AuditEntry, name: Seq<char>, uid: Seq<char>, action: Seq<char>, target: Option<Seq<char>>) -> bool {
    &&& e.invoker_name@ == name
    &&& e.invoker_uid@ == uid
    &&& e.action@ == action
    &&& opt_view(e.target) == target
}

/// Replies are collected; any other action runs when the invoker's level
/// allows it (see `permissions::denial`) and is refused otherwise.
pub fn gate_action(
    level: PermissionLevel,
    action: &BotAction,
    invoker_name: &str,
    invoker_uid: &str,
    config: &BotConfig,
) -> (r: ActionGate)
    ensures
        action@ is Reply ==> r is Collect,
        !(action@ is Reply) ==> match denial(level, action@, invoker_name@, group_ids(config.allowed_server_groups@)) {
            Some(reason) => (r matches ActionGate::Deny { reason: m, alert, audit } && m@ == reason && alert@
                == alert_text(invoker_name@, level, action_name_spec(action@)) && entry_is(
                audit,
                invoker_name@,
                invoker_uid@,
                action_name_spec(action@),
                action_target_spec(action@),
            ) && (audit.result matches AuditResult::Denied(d) && d@ == reason)),
            None => r is Run,
        },
{
    if let BotAction::Reply { .. } = action {
        return ActionGate::Collect;
    }
    match can_execute(level, action, invoker_name, config) {
        Ok(()) => ActionGate::Run,
        Err(reason) => {
            let alert = crate::commands::permission_alert(invoker_name, level, action_name(action));
            let audit = AuditEntry {
                invoker_name: invoker_name.to_string(),
                invoker_uid: invoker_uid.to_string(),
                action: action_name(action).to_string(),
                target: action_target(action),
                result: AuditResult::Denied(reason.clone()),
            };
            ActionGate::Deny { reason, alert, audit }
        },
    }
}

// ---------------------------------------------------------------- own channel

/// Where the invoker is: the channel's id, its name when known, and the
/// invoker's channel group there.
pub struct InvokerChannel {
    pub channel_id: u64,
    pub channel_name: Option<String>,
    pub channel_group_id: u64,
}

/// What the own-channel rule says of an action.
pub enum ChannelCheck {
    Pass,
    /// Refused; the text, when there is one, goes to the invoker.
    Deny(Option<String>),
}

/// Whether the invoker is in the channel an action concerns: the channel
/// named (ignoring case) or the one with the id.
pub open spec fn in_action_channel(a: ActionView, c: InvokerChannel) -> bool {
    match a {
        ActionView::EditChannel { channel_name, .. } | ActionView::DeleteChannel { channel_name }
        | ActionView::SetChannelAdmin { channel_name, .. } => match c.channel_name {
            Some(n) => lowercase(n@) == lowercase(channel_name),
            None => false,
        },
        ActionView::EditChannelDescription { channel_id, .. } => c.channel_id == channel_id,
        _ => false,
    }
}

/// The actions a non-administrator may only take on their own channel.
pub open spec fn own_channel_action(a: ActionView) -> bool {
    a is EditChannel || a is DeleteChannel || a is EditChannelDescription || a is SetChannelAdmin
}

/// What a refused user is told (nothing for a description change).
pub open spec fn own_channel_denial(a: ActionView) -> Option<Seq<char>> {
    match a {
        ActionView::EditChannel { .. } => Some(
            "You do not have permission to edit this channel. You must be inside the channel and have Channel Admin."@,
        ),
        ActionView::DeleteChannel { .. } => Some(
            "You do not have permission to delete this channel. You must be inside the channel and have Channel Admin."@,
        ),
        ActionView::SetChannelAdmin { .. } => Some(
            "You do not have permission to assign Channel Admin for this channel."@,
        ),
        _ => None,
    }
}

/// Administrators pass; others pass a channel action only from inside that
/// channel as its channel administrator.
pub open spec fn channel_check_passes(is_admin: bool, a: ActionView, invoker: Option<InvokerChannel>, admin_group: u64) -> bool {
    is_admin || !own_channel_action(a) || match invoker {
        Some(c) => in_action_channel(a, c) && c.channel_group_id == admin_group,
        None => false,
    }
}

pub fn own_channel_check(
    is_admin: bool,
    action: &BotAction,
    invoker: &Option<InvokerChannel>,
    channel_admin_group_id: u64,
) -> (r: ChannelCheck)
    ensures
        channel_check_passes(is_admin, action@, *invoker, channel_admin_group_id) ==> r is Pass,
        !channel_check_passes(is_admin, action@, *invoker, channel_admin_group_id) ==> (r matches ChannelCheck::Deny(
            m,
        ) && opt_view(m) == own_channel_denial(action@)),
{
    proof {
        reveal_strlit("");
    }
    let (in_channel, denial_text): (bool, Option<String>) = match action {
        BotAction::EditChannel { channel_name, .. } => (
            named_channel_match(invoker, channel_name.as_str()),
            Some(
                "You do not have permission to edit this channel. You must be inside the channel and have Channel Admin.".to_string(),
            ),
        ),
        BotAction::DeleteChannel { channel_name } => (
            named_channel_match(invoker, channel_name.as_str()),
            Some(
                "You do not have permission to delete this channel. You must be inside the channel and have Channel Admin.".to_string(),
            ),
        ),
        BotAction::SetChannelAdmin { channel_name, .. } => (
            named_channel_match(invoker, channel_name.as_str()),
            Some("You do not have permission to assign Channel Admin for this channel.".to_string()),
        ),
        BotAction::EditChannelDescription { channel_id, .. } => (
            match invoker {
                Some(c) => c.channel_id == *channel_id,
                None => false,
            },
            None,
        ),
        _ => {
            return ChannelCheck::Pass;
        },
    };
    let is_channel_admin = match invoker {
        Some(c) => c.channel_group_id == channel_admin_group_id,
        None => false,
    };
    if crate::commands::may_manage_channel(is_admin, in_channel, is_channel_admin) {
        ChannelCheck::Pass
    } else {
        ChannelCheck::Deny(denial_text)
    }
}

fn named_channel_match(invoker: &Option<InvokerChannel>, channel_name: &str) -> (r: bool)
    ensures
        r == match *invoker {
            Some(c) => match c.channel_name {
                Some(n) => lowercase(n@) == lowercase(channel_name@),
                None => false,
            },
            None => false,
        },
{
    match invoker {
        Some(c) => match &c.channel_name {
            Some(n) => {
                let a = to_lowercase(n.as_str());
                let b = to_lowercase(channel_name);
                str_eq(a.as_str(), b.as_str())
            },
            None => false,
        },
        None => false,
    }
}

// ---------------------------------------------------------------- after an action ran

/// Who hears about an action's outcome.
#[derive(Debug, Clone, Copy, PartialEq, Eq, Structural)]
pub enum ReplyTo {
    /// Where the request came from (the chat, the channel or the server).
    Target,
    /// The invoker, privately.
    Invoker,
}

/// A message about an action's outcome.
pub struct ActionReply {
    pub to: ReplyTo,
    pub text: String,
}

pub open spec fn quoted_failure(prefix: Seq<char>, name: Seq<char>, e: Seq<char>) -> Seq<char> {
    prefix + "'"@ + name + "': "@ + e
}

/// What is said once an action ran: `failure` is the error when it failed.
pub open spec fn outcome_reply_spec(a: ActionView, failure: Option<Seq<char>>) -> Option<(ReplyTo, Seq<char>)> {
    match failure {
        Some(e) => match a {
            ActionView::CreateChannel { channel_name, .. } => Some(
                (ReplyTo::Target, quoted_failure("Sorry, I couldn't create the channel "@, channel_name, e)),
            ),
            ActionView::EditChannel { channel_name, .. } => Some(
                (ReplyTo::Target, quoted_failure("Sorry, I couldn't modify the channel "@, channel_name, e)),
            ),
            ActionView::DeleteChannel { channel_name } => Some(
                (ReplyTo::Target, quoted_failure("Sorry, I couldn't delete the channel "@, channel_name, e)),
            ),
            ActionView::EditChannelDescription { channel_id, .. } => Some(
                (
                    ReplyTo::Target,
                    quoted_failure(
                        "Sorry, I couldn't update the description of channel "@,
                        decimal(channel_id as nat),
                        e,
                    ),
                ),
            ),
            ActionView::SetChannelAdmin { channel_name, .. } => Some(
                (ReplyTo::Target, quoted_failure("Sorry, I couldn't set channel admin in "@, channel_name, e)),
            ),
            ActionView::KickClient { client_name, .. } => Some(
                (ReplyTo::Target, quoted_failure("Sorry, I couldn't kick "@, client_name, e)),
            ),
            ActionView::BanClient { client_name, .. } => Some(
                (ReplyTo::Target, quoted_failure("Sorry, I couldn't ban "@, client_name, e)),
            ),
            ActionView::MoveClient { client_name, .. } => Some(
                (ReplyTo::Target, quoted_failure("Sorry, I couldn't move "@, client_name, e)),
            ),
            ActionView::MoveClientReturn { client_name } => Some(
                (ReplyTo::Target, quoted_failure("Sorry, I couldn't return "@, client_name, e)),
            ),
            ActionView::JoinUserChannel => Some(
                (ReplyTo::Target, "Sorry, I couldn't find what channel you are in: "@ + e),
            ),
            ActionView::SetServerGroup { .. } => Some(
                (ReplyTo::Invoker, "I could not assign that server group: "@ + e),
            ),
            ActionView::RemoveServerGroup { .. } => Some(
                (ReplyTo::Invoker, "I could not remove that server group: "@ + e),
            ),
            ActionView::PokeClient { client_name, .. } => Some(
                (ReplyTo::Target, quoted_failure("Sorry, I couldn't poke "@, client_name, e)),
            ),
            ActionView::SendMessage { target_name, .. } => Some(
                (ReplyTo::Target, quoted_failure("Sorry, I couldn't message "@, target_name, e)),
            ),
            ActionView::SendChannelMessage { channel_name, .. } => Some(
                (ReplyTo::Target, quoted_failure("Sorry, I couldn't send a message to channel "@, channel_name, e)),
            ),
            ActionView::MoveBotChannel { channel_name } => Some(
                (ReplyTo::Target, quoted_failure("Sorry, I couldn't move to channel "@, channel_name, e)),
            ),
            ActionView::BanAdd { .. } => Some((ReplyTo::Target, "Error while adding ban: "@ + e)),
            ActionView::BanDel { ban_id } => Some(
                (ReplyTo::Target, "Error while removing ban #"@ + decimal(ban_id as nat) + ": "@ + e),
            ),
            ActionView::BanDelAll => Some((ReplyTo::Target, "Error while removing all bans: "@ + e)),
            ActionView::BanList => Some((ReplyTo::Target, ban_list_text())),
            ActionView::ClientEdit { client_name, .. } => Some(
                (ReplyTo::Target, quoted_failure("Error while editing client "@, client_name, e)),
            ),
            ActionView::ChannelMoveAction { channel_name, .. } => Some(
                (ReplyTo::Target, quoted_failure("Error while moving channel "@, channel_name, e)),
            ),
            ActionView::ChannelSubscribe { channel_name } => Some(
                (ReplyTo::Target, quoted_failure("Error while subscribing to channel "@, channel_name, e)),
            ),
            ActionView::ChannelUnsubscribe { channel_name } => Some(
                (ReplyTo::Target, quoted_failure("Error while unsubscribing from channel "@, channel_name, e)),
            ),
            _ => None,
        },
        None => match a {
            ActionView::BanAdd { .. } => Some((ReplyTo::Target, "Ban added successfully."@)),
            ActionView::BanDel { ban_id } => Some(
                (ReplyTo::Target, "Ban #"@ + decimal(ban_id as nat) + " removed."@),
            ),
            ActionView::BanDelAll => Some((ReplyTo::Target, "All bans were removed."@)),
            ActionView::BanList => Some((ReplyTo::Target, ban_list_text())),
            ActionView::ChannelSubscribe { channel_name } => Some(
                (ReplyTo::Target, "Subscribed to channel '"@ + channel_name + "'."@),
            ),
            ActionView::ChannelUnsubscribe { channel_name } => Some(
                (ReplyTo::Target, "Unsubscribed from channel '"@ + channel_name + "'."@),
            ),
            _ => None,
        },
    }
}

pub open spec fn ban_list_text() -> Seq<char> {
    "Ban list request has been sent to the server. This feature is currently limited because it requires an asynchronous server response."@
}

pub open spec fn reply_view(r: Option<ActionReply>) -> Option<(ReplyTo, Seq<char>)> {
    match r {
        Some(x) => Some((x.to, x.text@)),
        None => None,
    }
}

fn quoted_failure_exec(prefix: &str, name: &str, e: &str) -> (r: String)
    ensures
        r@ == quoted_failure(prefix@, name@, e@),
{
    let mut s = prefix.to_string();
    s.append("'");
    s.append(name);
    s.append("': ");
    s.append(e);
    s
}

fn cat(a: &str, b: &str) -> (r: String)
    ensures
        r@ == a@ + b@,
{
    let mut s = a.to_string();
    s.append(b);
    s
}

fn target(text: String) -> (r: Option<ActionReply>)
    ensures
        reply_view(r) == Some((ReplyTo::Target, text@)),
{
    Some(ActionReply { to: ReplyTo::Target, text })
}

fn failure_reply(action: &BotAction, e: &str) -> (r: Option<ActionReply>)
    ensures
        reply_view(r) == outcome_reply_spec(action@, Some(e@)),
{
    match action {
        BotAction::CreateChannel { channel_name, .. } => target(
            quoted_failure_exec("Sorry, I couldn't create the channel ", channel_name.as_str(), e),
        ),
        BotAction::EditChannel { channel_name, .. } => target(
            quoted_failure_exec("Sorry, I couldn't modify the channel ", channel_name.as_str(), e),
        ),
        BotAction::DeleteChannel { channel_name } => target(
            quoted_failure_exec("Sorry, I couldn't delete the channel ", channel_name.as_str(), e),
        ),
        BotAction::EditChannelDescription { channel_id, .. } => {
            let id = u64_to_string(*channel_id);
            target(quoted_failure_exec("Sorry, I couldn't update the description of channel ", id.as_str(), e))
        },
        BotAction::SetChannelAdmin { channel_name, .. } => target(
            quoted_failure_exec("Sorry, I couldn't set channel admin in ", channel_name.as_str(), e),
        ),
        BotAction::KickClient { client_name, .. } => target(
            quoted_failure_exec("Sorry, I couldn't kick ", client_name.as_str(), e),
        ),
        BotAction::BanClient { client_name, .. } => target(
            quoted_failure_exec("Sorry, I couldn't ban ", client_name.as_str(), e),
        ),
        BotAction::MoveClient { client_name, .. } => target(
            quoted_failure_exec("Sorry, I couldn't move ", client_name.as_str(), e),
        ),
        BotAction::MoveClientReturn { client_name } => target(
            quoted_failure_exec("Sorry, I couldn't return ", client_name.as_str(), e),
        ),
        BotAction::JoinUserChannel => target(cat("Sorry, I couldn't find what channel you are in: ", e)),
        BotAction::SetServerGroup { .. } => Some(
            ActionReply { to: ReplyTo::Invoker, text: cat("I could not assign that server group: ", e) },
        ),
        BotAction::RemoveServerGroup { .. } => Some(
            ActionReply { to: ReplyTo::Invoker, text: cat("I could not remove that server group: ", e) },
        ),
        BotAction::PokeClient { client_name, .. } => target(
            quoted_failure_exec("Sorry, I couldn't poke ", client_name.as_str(), e),
        ),
        BotAction::SendMessage { target_name, .. } => target(
            quoted_failure_exec("Sorry, I couldn't message ", target_name.as_str(), e),
        ),
        BotAction::SendChannelMessage { channel_name, .. } => target(
            quoted_failure_exec("Sorry, I couldn't send a message to channel ", channel_name.as_str(), e),
        ),
        BotAction::MoveBotChannel { channel_name } => target(
            quoted_failure_exec("Sorry, I couldn't move to channel ", channel_name.as_str(), e),
        ),
        BotAction::BanAdd { .. } => target(cat("Error while adding ban: ", e)),
        BotAction::BanDel { ban_id } => {
            let id = u64_to_string(*ban_id);
            let mut s = cat("Error while removing ban #", id.as_str());
            s.append(": ");
            s.append(e);
            target(s)
        },
        BotAction::BanDelAll => target(cat("Error while removing all bans: ", e)),
        BotAction::BanList => target(ban_list_exec()),
        BotAction::ClientEdit { client_name, .. } => target(
            quoted_failure_exec("Error while editing client ", client_name.as_str(), e),
        ),
        BotAction::ChannelMoveAction { channel_name, .. } => target(
            quoted_failure_exec("Error while moving channel ", channel_name.as_str(), e),
        ),
        BotAction::ChannelSubscribe { channel_name } => target(
            quoted_failure_exec("Error while subscribing to channel ", channel_name.as_str(), e),
        ),
        BotAction::ChannelUnsubscribe { channel_name } => target(
            quoted_failure_exec("Error while unsubscribing from channel ", channel_name.as_str(), e),
        ),
        _ => None,
    }
}

fn ban_list_exec() -> (r: String)
    ensures
        r@ == ban_list_text(),
{
    "Ban list request has been sent to the server. This feature is currently limited because it requires an asynchronous server response.".to_string()
}

fn success_reply(action: &BotAction) -> (r: Option<ActionReply>)
    ensures
        reply_view(r) == outcome_reply_spec(action@, None),
{
    match action {
        BotAction::BanAdd { .. } => target("Ban added successfully.".to_string()),
        BotAction::BanDel { ban_id } => {
            let id = u64_to_string(*ban_id);
            let mut s = cat("Ban #", id.as_str());
            s.append(" removed.");
            target(s)
        },
        BotAction::BanDelAll => target("All bans were removed.".to_string()),
        BotAction::BanList => target(ban_list_exec()),
        BotAction::ChannelSubscribe { channel_name } => {
            let mut s = cat("Subscribed to channel '", channel_name.as_str());
            s.append("'.");
            target(s)
        },
        BotAction::ChannelUnsubscribe { channel_name } => {
            let mut s = cat("Unsubscribed from channel '", channel_name.as_str());
            s.append("'.");
            target(s)
        },
        _ => None,
    }
}

/// What is said once an action ran; `failure` is the error when it failed.
pub fn outcome_reply(action: &BotAction, failure: Option<&str>) -> (r: Option<ActionReply>)
    ensures
        reply_view(r) == outcome_reply_spec(action@, match failure {
            Some(e) => Some(e@),
            None => None,
        }),
{
    match failure {
        Some(e) => failure_reply(action, e),
        None => success_reply(action),
    }
}

/// Said when a user cannot be found to make channel administrator.
pub fn admin_target_failure(e: &str) -> (r: String)
    ensures
        r@ == "Sorry, I couldn't identify the user to grant admin: "@ + e@,
{
    cat("Sorry, I couldn't identify the user to grant admin: ", e)
}

/// Said when a user is to be moved back but where they came from is unknown.
pub fn unknown_origin_reply(client_name: &str) -> (r: String)
    ensures
        r@ == "I don't know where '"@ + client_name@ + "' was before. Tell me which channel to move them back to."@,
{
    let mut s = cat("I don't know where '", client_name);
    s.append("' was before. Tell me which channel to move them back to.");
    s
}

/// `"-"` for a missing value.
pub open spec fn or_dash(o: Option<Seq<char>>) -> Seq<char> {
    match o {
        Some(s) => s,
        None => "-"@,
    }
}

/// The target written to the log when an action succeeded.
pub open spec fn success_target(a: ActionView) -> Option<Seq<char>> {
    match a {
        ActionView::BanAdd { ip, uid, name, .. } => Some(
            "ip="@ + or_dash(ip) + " uid="@ + or_dash(uid) + " name="@ + or_dash(name),
        ),
        _ => action_target_spec(a),
    }
}

/// The actions whose success is written to the audit log.
pub open spec fn audited_on_success(a: ActionView) -> bool {
    a is CreateChannel || a is EditChannel || a is DeleteChannel || a is KickClient || a is BanClient
        || a is MoveClient || a is SetServerGroup || a is RemoveServerGroup || a is PokeClient
        || a is SendMessage || a is SendChannelMessage || a is MoveBotChannel || a is BanAdd || a is BanDel || a is BanDelAll
        || a is ClientEdit || a is ChannelMoveAction
}

fn dash_exec(o: &Option<String>) -> (r: String)
    ensures
        r@ == or_dash(opt_view(*o)),
{
    match o {
        Some(s) => s.clone(),
        None => "-".to_string(),
    }
}

/// The audit entry written once an action ran: every audited success, and a
/// failed channel creation with its error; none otherwise.
pub fn audit_after(action: &BotAction, failure: Option<&str>, invoker_name: &str, invoker_uid: &str) -> (r: Option<
    AuditEntry,
>)
    ensures
        match failure {
            None => if audited_on_success(action@) {
                (r matches Some(e) && entry_is(
                    e,
                    invoker_name@,
                    invoker_uid@,
                    action_name_spec(action@),
                    success_target(action@),
                ) && e.result is Success)
            } else {
                r is None
            },
            Some(err) => if action@ is CreateChannel {
                (r matches Some(e) && entry_is(
                    e,
                    invoker_name@,
                    invoker_uid@,
                    action_name_spec(action@),
                    action_target_spec(action@),
                ) && (e.result matches AuditResult::Error(m) && m@ == err@))
            } else {
                r is None
            },
        },
{
    match failure {
        Some(err) => {
            if let BotAction::CreateChannel { .. } = action {
                Some(
                    AuditEntry {
                        invoker_name: invoker_name.to_string(),
                        invoker_uid: invoker_uid.to_string(),
                        action: action_name(action).to_string(),
                        target: action_target(action),
                        result: AuditResult::Error(err.to_string()),
                    },
                )
            } else {
                None
            }
        },
        None => {
            let audited = match action {
                BotAction::CreateChannel { .. } | BotAction::EditChannel { .. } | BotAction::DeleteChannel { .. }
                | BotAction::KickClient { .. } | BotAction::BanClient { .. } | BotAction::MoveClient { .. }
                | BotAction::SetServerGroup { .. } | BotAction::RemoveServerGroup { .. }
                | BotAction::PokeClient { .. } | BotAction::SendMessage { .. }
                | BotAction::SendChannelMessage { .. } | BotAction::MoveBotChannel { .. } | BotAction::BanAdd { .. } | BotAction::BanDel { .. }
                | BotAction::BanDelAll | BotAction::ClientEdit { .. } | BotAction::ChannelMoveAction { .. } => true,
                _ => false,
            };
            if !audited {
                return None;
            }
            let t = match action {
                BotAction::BanAdd { ip, uid, name, .. } => {
                    let mut s = cat("ip=", dash_exec(ip).as_str());
                    s.append(" uid=");
                    s.append(dash_exec(uid).as_str());
                    s.append(" name=");
                    s.append(dash_exec(name).as_str());
                    Some(s)
                },
                _ => action_target(action),
            };
            Some(
                AuditEntry {
                    invoker_name: invoker_name.to_string(),
                    invoker_uid: invoker_uid.to_string(),
                    action: action_name(action).to_string(),
                    target: t,
                    result: AuditResult::Success,
                },
            )
        },
    }
}

/// The text sent to the invoker after all actions ran: the replies joined
/// by newlines, unless an action was refused or there is no reply text.
pub fn closing_reply(actions: &Vec<BotAction>, refused: bool) -> (r: Option<String>)
    ensures
        opt_view(r) == if !refused && join(reply_messages(actions_view(actions@)), "\n"@).len() > 0 {
            Some(join(reply_messages(actions_view(actions@)), "\n"@))
        } else {
            None
        },
{
    let t = crate::actions::get_reply_text(actions.as_slice());
    if !refused && !t.as_str().is_empty() {
        Some(t)
    } else {
        proof {
            reveal_strlit("");
        }
        None
    }
}

// ---------------------------------------------------------------- where moved users came from

/// The channel each moved user was in before the move, by lowercased name.
pub struct PreMoveChannels {
    pub saved: StrMap,
}

impl View for PreMoveChannels {
    type V = crate::strmap::Entries;

    open spec fn view(&self) -> crate::strmap::Entries {
        self.saved@
    }
}

impl PreMoveChannels {
    pub open spec fn wf(&self) -> bool {
        crate::strmap::sorted(self.saved@)
    }

    /// The channel saved for a user, whatever the case of the name.
    pub open spec fn saved_for(&self, client_name: Seq<char>) -> Option<Seq<char>> {
        crate::strmap::sm_get(self.saved@, lowercase(client_name))
    }

    pub fn new() -> (r: Self)
        ensures
            r.wf(),
            r@.len() == 0,
    {
        PreMoveChannels { saved: StrMap::new() }
    }

    /// Remembers where a user was before being moved.
    pub fn remember(&mut self, client_name: &str, channel_name: String)
        requires
            old(self).wf(),
        ensures
            final(self).wf(),
            final(self).saved_for(client_name@) == Some(channel_name@),
            forall|other: Seq<char>|
                lowercase(other) != lowercase(client_name@) ==> final(self).saved_for(other) == old(
                    self,
                ).saved_for(other),
    {
        let key = to_lowercase(client_name);
        proof {
            crate::strmap::law_insert_keeps_sorted(self.saved@, key@, channel_name@);
            crate::strmap::law_get_after_insert(self.saved@, key@, channel_name@);
            assert forall|other: Seq<char>| lowercase(other) != lowercase(client_name@) implies
                crate::strmap::sm_get(crate::strmap::sm_insert(self.saved@, key@, channel_name@), lowercase(other))
                == crate::strmap::sm_get(self.saved@, lowercase(other)) by {
                crate::strmap::law_get_other_after_insert(self.saved@, key@, channel_name@, lowercase(other));
            }
        }
        self.saved.insert(key, channel_name);
    }

    /// Where a user was before being moved, if that is known.
    pub fn origin(&self, client_name: &str) -> (r: Option<String>)
        ensures
            opt_view(r) == self.saved_for(client_name@),
    {
        let key = to_lowercase(client_name);
        self.saved.get(key.as_str())
    }

    /// Forgets where a user came from, once they are back.
    pub fn forget(&mut self, client_name: &str)
        requires
            old(self).wf(),
        ensures
            final(self).wf(),
            final(self).saved_for(client_name@) is None,
            forall|other: Seq<char>|
                lowercase(other) != lowercase(client_name@) ==> final(self).saved_for(other) == old(
                    self,
                ).saved_for(other),
    {
        let key = to_lowercase(client_name);
        proof {
            crate::strmap::law_remove_keeps_sorted(self.saved@, key@);
            crate::strmap::law_get_after_remove(self.saved@, key@);
            assert forall|other: Seq<char>| lowercase(other) != lowercase(client_name@) implies
                crate::strmap::sm_get(crate::strmap::sm_remove(self.saved@, key@), lowercase(other))
                == crate::strmap::sm_get(self.saved@, lowercase(other)) by {
                crate::strmap::law_get_other_after_remove(self.saved@, key@, lowercase(other));
            }
        }
        self.saved.remove(key.as_str());
    }
}

/// The channel of the first online user whose name is `name` ignoring case
/// (users as name and channel name, when known); none when no user has the
/// name or the first such user's channel is unknown.
pub open spec fn current_channel_spec(users: Seq<(Seq<char>, Option<Seq<char>>)>, name: Seq<char>) -> Option<Seq<char>>
    decreases users.len(),
{
    if users.len() == 0 {
        None
    } else if lowercase(users[0].0) == lowercase(name) {
        users[0].1
    } else {
        current_channel_spec(users.drop_first(), name)
    }
}

pub open spec fn users_view(v: Seq<(String, Option<String>)>) -> Seq<(Seq<char>, Option<Seq<char>>)> {
    v.map_values(|u: (String, Option<String>)| (u.0@, opt_view(u.1)))
}

/// Where a user to be moved is now (see `current_channel_spec`).
pub fn current_channel(users: &Vec<(String, Option<String>)>, name: &str) -> (r: Option<String>)
    ensures
        opt_view(r) == current_channel_spec(users_view(users@), name@),
{
    let lname = to_lowercase(name);
    let ghost uv = users_view(users@);
    assert(uv.skip(0) =~= uv);
    let mut i: usize = 0;
    while i < users.len()
        invariant
            i <= users@.len(),
            uv == users_view(users@),
            lname@ == lowercase(name@),
            current_channel_spec(uv, name@) == current_channel_spec(uv.skip(i as int), name@),
        decreases users@.len() - i,
    {
        assert(uv.skip(i as int)[0] == uv[i as int]);
        assert(uv.skip(i as int).drop_first() =~= uv.skip(i + 1));
        let l = to_lowercase(users[i].0.as_str());
        if str_eq(l.as_str(), lname.as_str()) {
            return match &users[i].1 {
                Some(c) => Some(c.clone()),
                None => None,
            };
        }
        i = i + 1;
    }
    None
}


// ---------------------------------------------------------------- server requests

/// The reason sent with a kick: the one given, else the bot's own.
pub open spec fn kick_reason_spec(reason: Option<Seq<char>>) -> Seq<char> {
    match reason {
        Some(r) => r,
        None => "Kicked by AI Support Agent"@,
    }
}

/// The reason sent with a kick: the one given, else the bot's own.
pub fn kick_reason(reason: &Option<String>) -> (r: String)
    ensures
        r@ == kick_reason_spec(opt_view(*reason)),
{
    match reason {
        Some(x) => x.clone(),
        None => "Kicked by AI Support Agent".to_string(),
    }
}

/// The reason sent with a ban: the one given, else the bot's own.
pub open spec fn ban_reason_spec(reason: Option<Seq<char>>) -> Seq<char> {
    match reason {
        Some(r) => r,
        None => "Banned by AI Support Agent"@,
    }
}

/// The reason sent with a ban: the one given, else the bot's own.
pub fn ban_reason(reason: &Option<String>) -> (r: String)
    ensures
        r@ == ban_reason_spec(opt_view(*reason)),
{
    match reason {
        Some(x) => x.clone(),
        None => "Banned by AI Support Agent".to_string(),
    }
}

/// One argument of a request, when its value is given.
pub open spec fn opt_arg(key: Seq<char>, value: Option<Seq<char>>) -> Seq<(Seq<char>, Seq<char>)> {
    match value {
        Some(v) => seq![(key, v)],
        None => Seq::empty(),
    }
}

/// The arguments of a new ban entry, in the order they are sent: address,
/// name, UID, length in seconds and reason, each only when given.
pub open spec fn ban_entry_spec(
    ip: Option<Seq<char>>,
    uid: Option<Seq<char>>,
    name: Option<Seq<char>>,
    reason: Option<Seq<char>>,
    duration_seconds: Option<u64>,
) -> Seq<(Seq<char>, Seq<char>)> {
    opt_arg("ip"@, ip) + opt_arg("name"@, name) + opt_arg("uid"@, uid) + opt_arg(
        "time"@,
        match duration_seconds {
            Some(s) => Some(decimal(s as nat)),
            None => None,
        },
    ) + opt_arg("banreason"@, reason)
}

/// The views of a list of arguments.
pub open spec fn arg_views(v: Seq<(String, String)>) -> Seq<(Seq<char>, Seq<char>)> {
    v.map_values(|a: (String, String)| (a.0@, a.1@))
}

fn push_arg(out: &mut Vec<(String, String)>, key: &str, value: &Option<String>)
    ensures
        arg_views(final(out)@) == arg_views(old(out)@) + opt_arg(key@, opt_view(*value)),
{
    let ghost before = out@;
    if let Some(v) = value {
        out.push((key.to_string(), v.clone()));
        assert(arg_views(out@) =~= arg_views(before) + seq![(key@, v@)]);
    } else {
        assert(arg_views(out@) =~= arg_views(before) + Seq::<(Seq<char>, Seq<char>)>::empty());
    }
}

/// The arguments of a new ban entry, in the order they are sent.
pub fn ban_entry_args(
    ip: &Option<String>,
    uid: &Option<String>,
    name: &Option<String>,
    reason: &Option<String>,
    duration_seconds: Option<u64>,
) -> (r: Vec<(String, String)>)
    ensures
        arg_views(r@) == ban_entry_spec(
            opt_view(*ip),
            opt_view(*uid),
            opt_view(*name),
            opt_view(*reason),
            duration_seconds,
        ),
{
    let mut out: Vec<(String, String)> = Vec::new();
    assert(arg_views(out@) =~= Seq::<(Seq<char>, Seq<char>)>::empty());
    push_arg(&mut out, "ip", ip);
    push_arg(&mut out, "name", name);
    push_arg(&mut out, "uid", uid);
    let time = match duration_seconds {
        Some(s) => Some(u64_to_string(s)),
        None => None,
    };
    push_arg(&mut out, "time", &time);
    push_arg(&mut out, "banreason", reason);
    out
}

} // verus!
