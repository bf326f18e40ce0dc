//! The `$ticket` chat command: listing, reading, replying to, claiming,
//! closing and opening support tickets, with the messages each one sends.
use vstd::prelude::*;
use crate::commands::{parse_u64, parse_u64_spec};
use crate::text::{
    char_seqs, chars_of, decimal, join, join_chars, push_str, push_u64, split_words, str_eq, string_of, words,
};
use crate::tickets::{
    active_tickets, first_with_id, history_tickets, Ticket, TicketStatus, TicketStore, TicketView, appended_response,
    tickets_view,
};

verus! {

/// A `$ticket` request, read from the text after the command.
pub ghost enum TicketRequest {
    Help,
    List,
    Read { id: Option<u64> },
    Reply { id: Option<u64>, response: Seq<char> },
    Claim { id: Option<u64> },
    History { who: Seq<char> },
    Close { id: Option<u64> },
    Open,
}

/// How the bot reads `$ticket <content>`; sub-commands without their
/// arguments, and administrators' sub-commands from others, open a ticket.
pub open spec fn ticket_request(content: Seq<char>, is_admin: bool) -> TicketRequest {
    let parts = words(content);
    if content.len() == 0 {
        TicketRequest::Help
    } else if parts[0] == "list"@ {
        TicketRequest::List
    } else if parts[0] == "read"@ && parts.len() > 1 {
        TicketRequest::Read { id: parse_u64_spec(parts[1]) }
    } else if parts[0] == "reply"@ && parts.len() > 2 {
        TicketRequest::Reply { id: parse_u64_spec(parts[1]), response: join(parts.skip(2), " "@) }
    } else if parts[0] == "claim"@ && parts.len() > 1 && is_admin {
        TicketRequest::Claim { id: parse_u64_spec(parts[1]) }
    } else if parts[0] == "history"@ && parts.len() > 1 && is_admin {
        TicketRequest::History { who: join(parts.skip(1), " "@) }
    } else if parts[0] == "close"@ && parts.len() > 1 {
        TicketRequest::Close { id: parse_u64_spec(parts[1]) }
    } else {
        TicketRequest::Open
    }
}

/// Who else hears about a ticket change.
pub enum TicketNotice {
    Nobody,
    /// The ticket's creator, found by UID.
    Creator { uid: String, message: String },
    /// The administrators online, the one who acted left out when `skip_invoker`.
    Admins { message: String, skip_invoker: bool },
}

pub ghost enum NoticeView {
    Nobody,
    Creator { uid: Seq<char>, message: Seq<char> },
    Admins { message: Seq<char>, skip_invoker: bool },
}

impl View for TicketNotice {
    type V = NoticeView;

    open spec fn view(&self) -> NoticeView {
        match self {
            TicketNotice::Nobody => NoticeView::Nobody,
            TicketNotice::Creator { uid, message } => NoticeView::Creator { uid: uid@, message: message@ },
            TicketNotice::Admins { message, skip_invoker } => NoticeView::Admins {
                message: message@,
                skip_invoker: *skip_invoker,
            },
        }
    }
}

/// The answer to a `$ticket` message: what the sender is told (nothing
/// when the id does not parse), who else is told, whether the store
/// changed (and must be saved), and what to tell the sender instead when
/// saving fails.
pub struct TicketResponse {
    pub reply: Option<String>,
    pub notice: TicketNotice,
    pub changed: bool,
    pub save_failed_reply: Option<String>,
}

pub open spec fn help_text(is_admin: bool) -> Seq<char> {
    if is_admin {
        "Available commands: `$ticket list`, `$ticket read <id>`, `$ticket reply <id> <text>`, `$ticket close <id>`\nTo create a ticket, type: `$ticket <message>`"@
    } else {
        "To open a support ticket, type:\n`$ticket Describe your problem here`\nManage your tickets with: `$ticket list`, `$ticket read <id>`, `$ticket reply <id> <text>`, `$ticket close <id>`"@
    }
}

/// Whether the sender may see and change a ticket.
pub open spec fn may_access(t: TicketView, is_admin: bool, uid: Seq<char>) -> bool {
    is_admin || t.creator_uid == uid
}

/// The active tickets the sender may see.
pub open spec fn visible_tickets(ts: Seq<TicketView>, is_admin: bool, uid: Seq<char>) -> Seq<TicketView>
    decreases ts.len(),
{
    if ts.len() == 0 {
        Seq::empty()
    } else {
        let prev = visible_tickets(ts.drop_last(), is_admin, uid);
        if may_access(ts.last(), is_admin, uid) {
            prev.push(ts.last())
        } else {
            prev
        }
    }
}

pub open spec fn status_tag(s: TicketStatus) -> Seq<char> {
    match s {
        TicketStatus::Open => "[Open]"@,
        TicketStatus::Answered => "[Waiting for your reply]"@,
        TicketStatus::Closed => ""@,
    }
}

pub open spec fn list_line(t: TicketView) -> Seq<char> {
    "- ID: **"@ + decimal(t.id as nat) + "** "@ + status_tag(t.status) + " | From: "@ + t.creator_name + match t.claimed_by {
        Some(a) => " (Claimed by: "@ + a + ")"@,
        None => Seq::empty(),
    } + "\n"@
}

pub open spec fn list_lines(ts: Seq<TicketView>) -> Seq<char>
    decreases ts.len(),
{
    if ts.len() == 0 {
        Seq::empty()
    } else {
        list_lines(ts.drop_last()) + list_line(ts.last())
    }
}

pub open spec fn list_text(vis: Seq<TicketView>) -> Seq<char> {
    if vis.len() == 0 {
        "No active tickets found."@
    } else {
        "Active Tickets:\n"@ + list_lines(vis)
    }
}

pub open spec fn read_text(t: TicketView) -> Seq<char> {
    "**Ticket #"@ + decimal(t.id as nat) + "** ("@ + if t.status == TicketStatus::Open {
        "Open"@
    } else {
        "Closed"@
    } + ")\nUser: "@ + t.creator_name + "\nDate: "@ + t.created_at + "\n\n**Message:**\n"@ + t.content
        + "\n\n**Response:**\n"@ + match t.response {
        Some(r) => r,
        None => "No response yet."@,
    }
}

pub open spec fn history_lines(ts: Seq<TicketView>) -> Seq<char>
    decreases ts.len(),
{
    if ts.len() == 0 {
        Seq::empty()
    } else {
        history_lines(ts.drop_last()) + "**#"@ + decimal(ts.last().id as nat) + ":** "@ + ts.last().content + "\n"@
    }
}

/// A user's closed tickets: the first five, then how many more there are.
pub open spec fn history_text(who: Seq<char>, hist: Seq<TicketView>) -> Seq<char> {
    if hist.len() == 0 {
        "No ticket history found for user: "@ + who
    } else {
        "Ticket history for "@ + who + ":\n\n"@ + history_lines(crate::context::first_n(hist, 5)) + if hist.len() > 5 {
            "... and "@ + decimal((hist.len() - 5) as nat) + " more tickets.\n"@
        } else {
            Seq::empty()
        }
    }
}

/// Whether a member already has an active ticket; administrators never count.
pub open spec fn has_open_ticket(ts: Seq<TicketView>, is_admin: bool, uid: Seq<char>) -> bool {
    !is_admin && exists|i: int| 0 <= i < active_tickets(ts).len() && (#[trigger] active_tickets(ts)[i]).creator_uid == uid
}

pub open spec fn not_found_text() -> Seq<char> {
    "Ticket not found."@
}

pub open spec fn no_access_text() -> Seq<char> {
    "You do not have access to this ticket."@
}

pub open spec fn one_open_text() -> Seq<char> {
    "You already have one open ticket. Please wait for an admin reply or close it with `$ticket close <id>` before opening a new ticket."@
}

pub open spec fn create_error_text() -> Seq<char> {
    "An error occurred while creating your ticket. Please try again later."@
}

/// Text of an optional message.
pub open spec fn reply_is(r: Option<String>, text: Seq<char>) -> bool {
    r matches Some(x) && x@ == text
}

// ---------------------------------------------------------------- exec

fn copy_words(ws: &Vec<Vec<char>>, from: usize) -> (r: Vec<Vec<char>>)
    requires
        from <= ws@.len(),
    ensures
        char_seqs(r@) == char_seqs(ws@).skip(from as int),
{
    let mut out: Vec<Vec<char>> = Vec::new();
    let mut i: usize = from;
    while i < ws.len()
        invariant
            from <= i <= ws@.len(),
            char_seqs(out@) == char_seqs(ws@).subrange(from as int, i as int),
        decreases ws@.len() - i,
    {
        let ghost prev = out@;
        let c = ws[i].clone();
        out.push(c);
        assert(out@ == prev.push(c));
        assert(char_seqs(out@) =~= char_seqs(prev).push(c@));
        assert(c@ == char_seqs(ws@)[i as int]);
        assert(char_seqs(out@) =~= char_seqs(ws@).subrange(from as int, i + 1));
        i = i + 1;
    }
    assert(char_seqs(ws@).subrange(from as int, i as int) =~= char_seqs(ws@).skip(from as int));
    out
}

fn joined_from(ws: &Vec<Vec<char>>, from: usize) -> (r: String)
    requires
        from <= ws@.len(),
    ensures
        r@ == join(char_seqs(ws@).skip(from as int), " "@),
{
    let rest = copy_words(ws, from);
    let sep = chars_of(" ");
    let j = join_chars(&rest, sep.as_slice());
    string_of(j.as_slice())
}

fn word_is(ws: &Vec<Vec<char>>, i: usize, w: &str) -> (r: bool)
    requires
        i < ws@.len(),
    ensures
        r == (char_seqs(ws@)[i as int] == w@),
{
    let s = string_of(ws[i].as_slice());
    str_eq(s.as_str(), w)
}

fn word_u64(ws: &Vec<Vec<char>>, i: usize) -> (r: Option<u64>)
    requires
        i < ws@.len(),
    ensures
        r == parse_u64_spec(char_seqs(ws@)[i as int]),
{
    let s = string_of(ws[i].as_slice());
    parse_u64(s.as_str())
}

fn list_text_exec(vis: &Vec<Ticket>) -> (r: String)
    ensures
        r@ == list_text(tickets_view(vis@)),
{
    if vis.len() == 0 {
        return "No active tickets found.".to_string();
    }
    let mut out = chars_of("Active Tickets:\n");
    let ghost start = out@;
    let ghost tv = tickets_view(vis@);
    let mut i: usize = 0;
    while i < vis.len()
        invariant
            i <= vis@.len(),
            tv == tickets_view(vis@),
            out@ == start + list_lines(tv.take(i as int)),
        decreases vis@.len() - i,
    {
        assert(tv.take(i + 1).drop_last() =~= tv.take(i as int));
        assert(tv.take(i + 1).last() == vis@[i as int]@);
        let t = &vis[i];
        let ghost before = out@;
        push_str(&mut out, "- ID: **");
        push_u64(&mut out, t.id);
        push_str(&mut out, "** ");
        match t.status {
            TicketStatus::Open => push_str(&mut out, "[Open]"),
            TicketStatus::Answered => push_str(&mut out, "[Waiting for your reply]"),
            TicketStatus::Closed => push_str(&mut out, ""),
        }
        push_str(&mut out, " | From: ");
        push_str(&mut out, t.creator_name.as_str());
        let ghost mid = out@;
        match &t.claimed_by {
            Some(a) => {
                push_str(&mut out, " (Claimed by: ");
                push_str(&mut out, a.as_str());
                push_str(&mut out, ")");
            },
            None => {},
        }
        push_str(&mut out, "\n");
        proof {
            assert(mid + Seq::<char>::empty() =~= mid);
        }
        assert(out@ =~= before + list_line(t@));
        i = i + 1;
    }
    assert(tv.take(i as int) =~= tv);
    string_of(out.as_slice())
}

fn read_text_exec(t: &Ticket) -> (r: String)
    ensures
        r@ == read_text(t@),
{
    let mut out = chars_of("**Ticket #");
    push_u64(&mut out, t.id);
    push_str(&mut out, "** (");
    if t.status == TicketStatus::Open {
        push_str(&mut out, "Open");
    } else {
        push_str(&mut out, "Closed");
    }
    push_str(&mut out, ")\nUser: ");
    push_str(&mut out, t.creator_name.as_str());
    push_str(&mut out, "\nDate: ");
    push_str(&mut out, t.created_at.as_str());
    push_str(&mut out, "\n\n**Message:**\n");
    push_str(&mut out, t.content.as_str());
    push_str(&mut out, "\n\n**Response:**\n");
    match &t.response {
        Some(r) => push_str(&mut out, r.as_str()),
        None => push_str(&mut out, "No response yet."),
    }
    assert(out@ =~= read_text(t@));
    string_of(out.as_slice())
}

fn history_text_exec(who: &str, hist: &Vec<Ticket>) -> (r: String)
    ensures
        r@ == history_text(who@, tickets_view(hist@)),
{
    if hist.len() == 0 {
        let mut s = "No ticket history found for user: ".to_string();
        s.append(who);
        return s;
    }
    let mut out = chars_of("Ticket history for ");
    push_str(&mut out, who);
    push_str(&mut out, ":\n\n");
    let ghost start = out@;
    let ghost tv = tickets_view(hist@);
    let mut i: usize = 0;
    while i < hist.len() && i < 5
        invariant
            i <= hist@.len(),
            i <= 5,
            tv == tickets_view(hist@),
            out@ == start + history_lines(tv.take(i as int)),
        decreases hist@.len() - i,
    {
        assert(tv.take(i + 1).drop_last() =~= tv.take(i as int));
        assert(tv.take(i + 1).last() == hist@[i as int]@);
        push_str(&mut out, "**#");
        push_u64(&mut out, hist[i].id);
        push_str(&mut out, ":** ");
        push_str(&mut out, hist[i].content.as_str());
        push_str(&mut out, "\n");
        i = i + 1;
    }
    assert(tv.take(i as int) =~= crate::context::first_n(tv, 5));
    let ghost body = out@;
    if hist.len() > 5 {
        push_str(&mut out, "... and ");
        push_u64(&mut out, (hist.len() - 5) as u64);
        push_str(&mut out, " more tickets.\n");
    } else {
        assert(body + Seq::<char>::empty() =~= body);
    }
    assert(out@ =~= history_text(who@, tv));
    string_of(out.as_slice())
}

fn visible_exec(open: Vec<Ticket>, is_admin: bool, uid: &str) -> (r: Vec<Ticket>)
    ensures
        tickets_view(r@) == visible_tickets(tickets_view(open@), is_admin, uid@),
{
    let ghost ov = tickets_view(open@);
    let mut out: Vec<Ticket> = Vec::new();
    let mut i: usize = 0;
    while i < open.len()
        invariant
            i <= open@.len(),
            ov == tickets_view(open@),
            tickets_view(out@) == visible_tickets(ov.take(i as int), is_admin, uid@),
        decreases open@.len() - i,
    {
        assert(ov.take(i + 1).drop_last() =~= ov.take(i as int));
        assert(ov.take(i + 1).last() == open@[i as int]@);
        if is_admin || str_eq(open[i].creator_uid.as_str(), uid) {
            let ghost prev = tickets_view(out@);
            let t = open[i].duplicate();
            out.push(t);
            assert(tickets_view(out@) =~= prev.push(t@));
        }
        i = i + 1;
    }
    assert(ov.take(i as int) =~= ov);
    out
}

fn any_of_uid(ts: &Vec<Ticket>, uid: &str) -> (r: bool)
    ensures
        r == exists|i: int| 0 <= i < ts@.len() && (#[trigger] tickets_view(ts@)[i]).creator_uid == uid@,
{
    let mut i: usize = 0;
    while i < ts.len()
        invariant
            i <= ts@.len(),
            forall|k: int| 0 <= k < i ==> (#[trigger] tickets_view(ts@)[k]).creator_uid != uid@,
        decreases ts@.len() - i,
    {
        assert(tickets_view(ts@)[i as int] == ts@[i as int]@);
        if str_eq(ts[i].creator_uid.as_str(), uid) {
            return true;
        }
        i = i + 1;
    }
    false
}

fn say(text: &str) -> (r: TicketResponse)
    ensures
        reply_is(r.reply, text@),
        r.notice@ == NoticeView::Nobody,
        !r.changed,
{
    TicketResponse { reply: Some(text.to_string()), notice: TicketNotice::Nobody, changed: false, save_failed_reply: None }
}

fn hash_id(prefix: &str, id: u64, suffix: &str) -> (r: String)
    ensures
        r@ == prefix@ + decimal(id as nat) + suffix@,
{
    let mut out = chars_of(prefix);
    push_u64(&mut out, id);
    push_str(&mut out, suffix);
    string_of(out.as_slice())
}

// ---------------------------------------------------------------- handling

/// The ticket after a reply (see `TicketStore::reply_ticket`).
pub open spec fn replied(t: TicketView, response: Seq<char>, from_admin: bool) -> TicketView {
    TicketView {
        response: Some(appended_response(t.response, response, from_admin)),
        status: if from_admin {
            TicketStatus::Answered
        } else {
            TicketStatus::Open
        },
        ..t
    }
}

pub open spec fn unchanged(before: TicketStore, after: TicketStore) -> bool {
    after.tickets() == before.tickets() && after.data.next_id == before.data.next_id
}

/// What the store and the sender get for a request on ticket `id` that the
/// sender may not touch or that does not exist.
pub open spec fn lookup_failure(ts: Seq<TicketView>, id: u64, is_admin: bool, uid: Seq<char>, no_access: Seq<char>) -> Option<Seq<char>> {
    match first_with_id(ts, id) {
        None => Some(not_found_text()),
        Some(i) => if !may_access(ts[i], is_admin, uid) {
            Some(no_access)
        } else {
            None
        },
    }
}

fn ticket_read(store: &TicketStore, id: u64, is_admin: bool, user_uid: &str) -> (r: TicketResponse)
    ensures
        !r.changed,
        r.notice@ == NoticeView::Nobody,
        match lookup_failure(store.tickets(), id, is_admin, user_uid@, no_access_text()) {
            Some(msg) => reply_is(r.reply, msg),
            None => reply_is(r.reply, read_text(store.tickets()[first_with_id(store.tickets(), id)->0])),
        },
{
    match store.get_ticket(id) {
        Some(t) => {
            if is_admin || str_eq(t.creator_uid.as_str(), user_uid) {
                let text = read_text_exec(&t);
                TicketResponse { reply: Some(text), notice: TicketNotice::Nobody, changed: false, save_failed_reply: None }
            } else {
                say("You do not have access to this ticket.")
            }
        },
        None => say("Ticket not found."),
    }
}

fn ticket_reply(store: &mut TicketStore, id: u64, response: String, is_admin: bool, user_uid: &str, invoker_name: &str) -> (r: TicketResponse)
    ensures
        final(store).file_path == old(store).file_path,
        r.changed ==> r.save_failed_reply is Some,
        !r.changed ==> unchanged(*old(store), *final(store)),
        match lookup_failure(old(store).tickets(), id, is_admin, user_uid@, no_access_text()) {
            Some(msg) => reply_is(r.reply, msg) && !r.changed && r.notice@ == NoticeView::Nobody,
            None => {
                let i = first_with_id(old(store).tickets(), id)->0;
                let t = old(store).tickets()[i];
                &&& r.changed
                &&& final(store).tickets() == old(store).tickets().update(i, replied(t, response@, is_admin))
                &&& final(store).data.next_id == old(store).data.next_id
                &&& reply_is(r.reply, "Reply saved for ticket #"@ + decimal(id as nat) + "."@)
                &&& reply_is(r.save_failed_reply, "Failed to save the reply."@)
                &&& r.notice@ == if is_admin {
                    NoticeView::Creator {
                        uid: t.creator_uid,
                        message: "Admin replied to your ticket #"@ + decimal(id as nat) + "!\n\nResponse:\n"@ + response@,
                    }
                } else {
                    NoticeView::Admins {
                        message: "User replied to ticket #"@ + decimal(id as nat) + "\nUser: "@ + invoker_name@
                            + "\nResponse: "@ + response@,
                        skip_invoker: false,
                    }
                }
            },
        },
{
    match store.get_ticket(id) {
        None => say("Ticket not found."),
        Some(t) => {
            if !(is_admin || str_eq(t.creator_uid.as_str(), user_uid)) {
                say("You do not have access to this ticket.")
            } else {
                let ghost ts = store.tickets();
                proof {
                    crate::tickets::lemma_first_with_id_found(ts, id);
                }
                let _res = store.reply_ticket(id, response.clone(), is_admin);
                let reply = hash_id("Reply saved for ticket #", id, ".");
                let notice = if is_admin {
                    let mut m = hash_id("Admin replied to your ticket #", id, "!\n\nResponse:\n");
                    m.append(response.as_str());
                    TicketNotice::Creator { uid: t.creator_uid.clone(), message: m }
                } else {
                    let mut m = hash_id("User replied to ticket #", id, "\nUser: ");
                    m.append(invoker_name);
                    m.append("\nResponse: ");
                    m.append(response.as_str());
                    TicketNotice::Admins { message: m, skip_invoker: false }
                };
                TicketResponse {
                    reply: Some(reply),
                    notice,
                    changed: true,
                    save_failed_reply: Some("Failed to save the reply.".to_string()),
                }
            }
        },
    }
}

fn ticket_claim(store: &mut TicketStore, id: u64, invoker_name: &str) -> (r: TicketResponse)
    ensures
        final(store).file_path == old(store).file_path,
        r.changed ==> r.save_failed_reply is Some,
        !r.changed ==> unchanged(*old(store), *final(store)),
        match first_with_id(old(store).tickets(), id) {
            None => reply_is(r.reply, not_found_text()) && !r.changed && r.notice@ == NoticeView::Nobody,
            Some(i) => {
                &&& r.changed
                &&& final(store).tickets() == old(store).tickets().update(
                    i,
                    TicketView { claimed_by: Some(invoker_name@), ..old(store).tickets()[i] },
                )
                &&& final(store).data.next_id == old(store).data.next_id
                &&& reply_is(r.reply, "You claimed ticket #"@ + decimal(id as nat) + "."@)
                &&& reply_is(r.save_failed_reply, not_found_text())
                &&& r.notice@ == NoticeView::Admins {
                    message: "Admin "@ + invoker_name@ + " claimed ticket #"@ + decimal(id as nat),
                    skip_invoker: true,
                }
            },
        },
{
    match store.claim_ticket(id, invoker_name.to_string()) {
        None => say("Ticket not found."),
        Some(_t) => {
            let reply = hash_id("You claimed ticket #", id, ".");
            let mut m = "Admin ".to_string();
            m.append(invoker_name);
            let tail = hash_id(" claimed ticket #", id, "");
            proof {
                reveal_strlit("");
            }
            m.append(tail.as_str());
            assert(m@ =~= "Admin "@ + invoker_name@ + " claimed ticket #"@ + decimal(id as nat));
            TicketResponse {
                reply: Some(reply),
                notice: TicketNotice::Admins { message: m, skip_invoker: true },
                changed: true,
                save_failed_reply: Some("Ticket not found.".to_string()),
            }
        },
    }
}

fn ticket_close(store: &mut TicketStore, id: u64, is_admin: bool, user_uid: &str) -> (r: TicketResponse)
    ensures
        final(store).file_path == old(store).file_path,
        r.changed ==> r.save_failed_reply is Some,
        !r.changed ==> unchanged(*old(store), *final(store)),
        match lookup_failure(old(store).tickets(), id, is_admin, user_uid@, "You do not have permission to close this ticket."@) {
            Some(msg) => reply_is(r.reply, msg) && !r.changed && r.notice@ == NoticeView::Nobody,
            None => {
                &&& r.changed
                &&& final(store).tickets() == crate::tickets::closed_at(
                    old(store).tickets(),
                    first_with_id(old(store).tickets(), id)->0,
                )
                &&& final(store).data.next_id == old(store).data.next_id
                &&& reply_is(r.reply, "Ticket #"@ + decimal(id as nat) + " has been closed."@)
                &&& reply_is(r.save_failed_reply, "Failed to close ticket."@)
                &&& r.notice@ == NoticeView::Nobody
            },
        },
{
    match store.get_ticket(id) {
        None => say("Ticket not found."),
        Some(t) => {
            if !(is_admin || str_eq(t.creator_uid.as_str(), user_uid)) {
                say("You do not have permission to close this ticket.")
            } else {
                let _closed = store.close_ticket(id);
                TicketResponse {
                    reply: Some(hash_id("Ticket #", id, " has been closed.")),
                    notice: TicketNotice::Nobody,
                    changed: true,
                    save_failed_reply: Some("Failed to close ticket.".to_string()),
                }
            }
        },
    }
}

fn ticket_open(store: &mut TicketStore, content: &str, is_admin: bool, user_uid: &str, invoker_name: &str, now: &str) -> (r: TicketResponse)
    ensures
        final(store).file_path == old(store).file_path,
        r.changed ==> r.save_failed_reply is Some,
        !r.changed ==> unchanged(*old(store), *final(store)),
        if has_open_ticket(old(store).tickets(), is_admin, user_uid@) {
            reply_is(r.reply, one_open_text()) && !r.changed && r.notice@ == NoticeView::Nobody
        } else if old(store).data.next_id == u64::MAX {
            reply_is(r.reply, create_error_text()) && !r.changed && r.notice@ == NoticeView::Nobody
        } else {
            let id = old(store).data.next_id;
            &&& r.changed
            &&& final(store).data.next_id == id + 1
            &&& final(store).tickets() == old(store).tickets().push(
                TicketView {
                    id,
                    creator_uid: user_uid@,
                    creator_name: invoker_name@,
                    content: content@,
                    status: TicketStatus::Open,
                    created_at: now@,
                    response: None,
                    claimed_by: None,
                },
            )
            &&& reply_is(
                r.reply,
                "Your ticket has been created successfully as **#"@ + decimal(id as nat)
                    + "**. Admins have been notified and will respond soon."@,
            )
            &&& reply_is(r.save_failed_reply, create_error_text())
            &&& r.notice@ == NoticeView::Admins {
                message: "NEW TICKET #"@ + decimal(id as nat) + "\nUser: "@ + invoker_name@ + "\nIssue: "@ + content@,
                skip_invoker: true,
            }
        },
{
    let has_open = if !is_admin {
        let open = store.get_open_tickets();
        any_of_uid(&open, user_uid)
    } else {
        false
    };
    if has_open {
        return say(
            "You already have one open ticket. Please wait for an admin reply or close it with `$ticket close <id>` before opening a new ticket.",
        );
    }
    if store.data.next_id == u64::MAX {
        return say("An error occurred while creating your ticket. Please try again later.");
    }
    let id = store.create_ticket(user_uid.to_string(), invoker_name.to_string(), content.to_string(), now.to_string());
    let reply = hash_id(
        "Your ticket has been created successfully as **#",
        id,
        "**. Admins have been notified and will respond soon.",
    );
    let mut m = hash_id("NEW TICKET #", id, "\nUser: ");
    m.append(invoker_name);
    m.append("\nIssue: ");
    m.append(content);
    TicketResponse {
        reply: Some(reply),
        notice: TicketNotice::Admins { message: m, skip_invoker: true },
        changed: true,
        save_failed_reply: Some("An error occurred while creating your ticket. Please try again later.".to_string()),
    }
}

fn no_reply() -> (r: TicketResponse)
    ensures
        r.reply is None,
        !r.changed,
        r.notice@ == NoticeView::Nobody,
{
    TicketResponse { reply: None, notice: TicketNotice::Nobody, changed: false, save_failed_reply: None }
}

/// Answer a `$ticket <content>` message from `user_uid` (named
/// `invoker_name`); a new ticket is stamped `now`. The content is what
/// follows the command, trimmed.
pub fn handle_ticket_command(
    store: &mut TicketStore,
    content: &str,
    is_admin: bool,
    user_uid: &str,
    invoker_name: &str,
    now: &str,
) -> (r: TicketResponse)
    requires
        content@.len() == 0 || !crate::text::all_ws(content@),
    ensures
        final(store).file_path == old(store).file_path,
        r.changed ==> r.save_failed_reply is Some,
        !r.changed ==> unchanged(*old(store), *final(store)),
        match ticket_request(content@, is_admin) {
            TicketRequest::Help => reply_is(r.reply, help_text(is_admin)) && r.notice@ == NoticeView::Nobody && !r.changed,
            TicketRequest::List => reply_is(
                r.reply,
                list_text(visible_tickets(active_tickets(old(store).tickets()), is_admin, user_uid@)),
            ) && r.notice@ == NoticeView::Nobody && !r.changed,
            TicketRequest::History { who } => reply_is(
                r.reply,
                history_text(who, history_tickets(old(store).tickets(), who)),
            ) && r.notice@ == NoticeView::Nobody && !r.changed,
            TicketRequest::Read { id } => !r.changed && r.notice@ == NoticeView::Nobody && match id {
                None => r.reply is None,
                Some(id) => match lookup_failure(old(store).tickets(), id, is_admin, user_uid@, no_access_text()) {
                    Some(msg) => reply_is(r.reply, msg),
                    None => reply_is(r.reply, read_text(old(store).tickets()[first_with_id(old(store).tickets(), id)->0])),
                },
            },
            TicketRequest::Reply { id, response } => match id {
                None => r.reply is None && !r.changed && r.notice@ == NoticeView::Nobody,
                Some(id) => match lookup_failure(old(store).tickets(), id, is_admin, user_uid@, no_access_text()) {
                    Some(msg) => reply_is(r.reply, msg) && !r.changed && r.notice@ == NoticeView::Nobody,
                    None => {
                        let i = first_with_id(old(store).tickets(), id)->0;
                        let t = old(store).tickets()[i];
                        &&& r.changed
                        &&& final(store).tickets() == old(store).tickets().update(i, replied(t, response, is_admin))
                        &&& final(store).data.next_id == old(store).data.next_id
                        &&& reply_is(r.reply, "Reply saved for ticket #"@ + decimal(id as nat) + "."@)
                        &&& reply_is(r.save_failed_reply, "Failed to save the reply."@)
                        &&& r.notice@ == if is_admin {
                            NoticeView::Creator {
                                uid: t.creator_uid,
                                message: "Admin replied to your ticket #"@ + decimal(id as nat) + "!\n\nResponse:\n"@ + response,
                            }
                        } else {
                            NoticeView::Admins {
                                message: "User replied to ticket #"@ + decimal(id as nat) + "\nUser: "@ + invoker_name@
                                    + "\nResponse: "@ + response,
                                skip_invoker: false,
                            }
                        }
                    },
                },
            },
            TicketRequest::Claim { id } => match id {
                None => r.reply is None && !r.changed && r.notice@ == NoticeView::Nobody,
                Some(id) => match first_with_id(old(store).tickets(), id) {
                    None => reply_is(r.reply, not_found_text()) && !r.changed && r.notice@ == NoticeView::Nobody,
                    Some(i) => {
                        &&& r.changed
                        &&& final(store).tickets() == old(store).tickets().update(
                            i,
                            TicketView { claimed_by: Some(invoker_name@), ..old(store).tickets()[i] },
                        )
                        &&& final(store).data.next_id == old(store).data.next_id
                        &&& reply_is(r.reply, "You claimed ticket #"@ + decimal(id as nat) + "."@)
                        &&& reply_is(r.save_failed_reply, not_found_text())
                        &&& r.notice@ == NoticeView::Admins {
                            message: "Admin "@ + invoker_name@ + " claimed ticket #"@ + decimal(id as nat),
                            skip_invoker: true,
                        }
                    },
                },
            },
            TicketRequest::Close { id } => match id {
                None => r.reply is None && !r.changed && r.notice@ == NoticeView::Nobody,
                Some(id) => match lookup_failure(
                    old(store).tickets(),
                    id,
                    is_admin,
                    user_uid@,
                    "You do not have permission to close this ticket."@,
                ) {
                    Some(msg) => reply_is(r.reply, msg) && !r.changed && r.notice@ == NoticeView::Nobody,
                    None => {
                        &&& r.changed
                        &&& final(store).tickets() == crate::tickets::closed_at(
                            old(store).tickets(),
                            first_with_id(old(store).tickets(), id)->0,
                        )
                        &&& final(store).data.next_id == old(store).data.next_id
                        &&& reply_is(r.reply, "Ticket #"@ + decimal(id as nat) + " has been closed."@)
                        &&& reply_is(r.save_failed_reply, "Failed to close ticket."@)
                        &&& r.notice@ == NoticeView::Nobody
                    },
                },
            },
            TicketRequest::Open => if has_open_ticket(old(store).tickets(), is_admin, user_uid@) {
                reply_is(r.reply, one_open_text()) && !r.changed && r.notice@ == NoticeView::Nobody
            } else if old(store).data.next_id == u64::MAX {
                reply_is(r.reply, create_error_text()) && !r.changed && r.notice@ == NoticeView::Nobody
            } else {
                let id = old(store).data.next_id;
                &&& r.changed
                &&& final(store).data.next_id == id + 1
                &&& final(store).tickets() == old(store).tickets().push(
                    TicketView {
                        id,
                        creator_uid: user_uid@,
                        creator_name: invoker_name@,
                        content: content@,
                        status: TicketStatus::Open,
                        created_at: now@,
                        response: None,
                        claimed_by: None,
                    },
                )
                &&& reply_is(
                    r.reply,
                    "Your ticket has been created successfully as **#"@ + decimal(id as nat)
                        + "**. Admins have been notified and will respond soon."@,
                )
                &&& reply_is(r.save_failed_reply, create_error_text())
                &&& r.notice@ == NoticeView::Admins {
                    message: "NEW TICKET #"@ + decimal(id as nat) + "\nUser: "@ + invoker_name@ + "\nIssue: "@ + content@,
                    skip_invoker: true,
                }
            },
        },
{
    let cv = chars_of(content);
    let ws = split_words(cv.as_slice());
    let ghost parts = char_seqs(ws@);
    if cv.len() == 0 {
        let text = if is_admin {
            "Available commands: `$ticket list`, `$ticket read <id>`, `$ticket reply <id> <text>`, `$ticket close <id>`\nTo create a ticket, type: `$ticket <message>`"
        } else {
            "To open a support ticket, type:\n`$ticket Describe your problem here`\nManage your tickets with: `$ticket list`, `$ticket read <id>`, `$ticket reply <id> <text>`, `$ticket close <id>`"
        };
        return say(text);
    }
    proof {
        crate::text::lemma_words(cv@);
    }
    assert(ws@.len() > 0);
    if word_is(&ws, 0, "list") {
        let open = store.get_open_tickets();
        let vis = visible_exec(open, is_admin, user_uid);
        let text = list_text_exec(&vis);
        return TicketResponse { reply: Some(text), notice: TicketNotice::Nobody, changed: false, save_failed_reply: None };
    }
    if word_is(&ws, 0, "read") && ws.len() > 1 {
        return match word_u64(&ws, 1) {
            None => no_reply(),
            Some(id) => ticket_read(store, id, is_admin, user_uid),
        };
    }
    if word_is(&ws, 0, "reply") && ws.len() > 2 {
        return match word_u64(&ws, 1) {
            None => no_reply(),
            Some(id) => {
                let response = joined_from(&ws, 2);
                ticket_reply(store, id, response, is_admin, user_uid, invoker_name)
            },
        };
    }
    if word_is(&ws, 0, "claim") && ws.len() > 1 && is_admin {
        return match word_u64(&ws, 1) {
            None => no_reply(),
            Some(id) => ticket_claim(store, id, invoker_name),
        };
    }
    if word_is(&ws, 0, "history") && ws.len() > 1 && is_admin {
        let who = joined_from(&ws, 1);
        let hist = store.get_user_history(who.as_str());
        let text = history_text_exec(who.as_str(), &hist);
        return TicketResponse { reply: Some(text), notice: TicketNotice::Nobody, changed: false, save_failed_reply: None };
    }
    if word_is(&ws, 0, "close") && ws.len() > 1 {
        return match word_u64(&ws, 1) {
            None => no_reply(),
            Some(id) => ticket_close(store, id, is_admin, user_uid),
        };
    }
    ticket_open(store, content, is_admin, user_uid, invoker_name, now)
}

/// How many active tickets a user created.
pub open spec fn user_active_count(ts: Seq<TicketView>, uid: Seq<char>) -> nat
    decreases ts.len(),
{
    if ts.len() == 0 {
        0
    } else {
        user_active_count(ts.drop_last(), uid) + if crate::tickets::is_active(ts.last()) && ts.last().creator_uid
            == uid {
            1nat
        } else {
            0nat
        }
    }
}

proof fn lemma_no_open_ticket_counts_zero(ts: Seq<TicketView>, uid: Seq<char>)
    requires
        !has_open_ticket(ts, false, uid),
    ensures
        user_active_count(ts, uid) == 0,
    decreases ts.len(),
{
    if ts.len() > 0 {
        let d = ts.drop_last();
        assert(!has_open_ticket(d, false, uid)) by {
            if has_open_ticket(d, false, uid) {
                let i = choose|i: int|
                    0 <= i < active_tickets(d).len() && (#[trigger] active_tickets(d)[i]).creator_uid == uid;
                assert(active_tickets(ts)[i] == active_tickets(d)[i]);
            }
        }
        lemma_no_open_ticket_counts_zero(d, uid);
        if crate::tickets::is_active(ts.last()) && ts.last().creator_uid == uid {
            assert(active_tickets(ts)[active_tickets(d).len() as int] == ts.last());
        }
    }
}

/// A user who is not an administrator may open a ticket only when they have
/// no active one, so right after opening it, it is their only active ticket.
pub proof fn law_opened_ticket_is_the_only_active_one(ts: Seq<TicketView>, uid: Seq<char>, t: TicketView)
    requires
        !has_open_ticket(ts, false, uid),
        t.creator_uid == uid,
        t.status == TicketStatus::Open,
    ensures
        user_active_count(ts.push(t), uid) == 1,
{
    lemma_no_open_ticket_counts_zero(ts, uid);
    assert(ts.push(t).drop_last() =~= ts);
}

} // verus!
