//! Messages the bot sends on its own: greetings, unread ticket replies,
//! queue positions, the `$memory` sub-commands, and the setup of rooms the
//! bot created.
use vstd::prelude::*;
use crate::actions::opt_view;
use crate::tickets::{Ticket, TicketView};
use crate::text::{decimal, str_eq, to_lowercase, trim, trim_str, lowercase, words, split_words, char_seqs, join, string_of, chars_of};

verus! {

/// The greeting for a user who comes into the bot's channel.
pub open spec fn welcome_spec(name: Seq<char>) -> Seq<char> {
    "Hello [b]"@ + name
        + "[/b]!\n\n[u]How to use this bot:[/u]\n- Create a permanent room for yourself\n- Assign an allowed server group to yourself\n- Open a support ticket with `$ticket your problem`\n\nType `$ask` followed by your question/command."@
}

pub fn welcome_text(name: &str) -> (r: String)
    ensures
        r@ == welcome_spec(name@),
{
    let mut s = "Hello [b]".to_string();
    s.append(name);
    s.append(
        "[/b]!\n\n[u]How to use this bot:[/u]\n- Create a permanent room for yourself\n- Assign an allowed server group to yourself\n- Open a support ticket with `$ticket your problem`\n\nType `$ask` followed by your question/command.",
    );
    s
}

/// What a private message that is no command gets as an answer.
pub open spec fn usage_hint_spec() -> Seq<char> {
    "You can use me like this:\n- Create a permanent room for yourself\n- Assign an allowed server group to yourself\n- Open a support ticket with `$ticket your problem`\n\nJust type `$ask` followed by your question/command, or try `$tts` for voice output."@
}

pub fn usage_hint() -> (r: String)
    ensures
        r@ == usage_hint_spec(),
{
    "You can use me like this:\n- Create a permanent room for yourself\n- Assign an allowed server group to yourself\n- Open a support ticket with `$ticket your problem`\n\nJust type `$ask` followed by your question/command, or try `$tts` for voice output.".to_string()
}

pub open spec fn unread_lines(ts: Seq<TicketView>) -> Seq<char>
    decreases ts.len(),
{
    if ts.len() == 0 {
        Seq::empty()
    } else {
        let t = ts.last();
        unread_lines(ts.drop_last()) + "**Ticket #"@ + decimal(t.id as nat) + "** - Response:\n"@ + (match t.response {
            Some(r) => r,
            None => "No response."@,
        }) + "\n\n"@
    }
}

/// The notice for a user who comes online with answered tickets, none
/// when there are none.
pub open spec fn unread_notice_spec(ts: Seq<TicketView>) -> Option<Seq<char>> {
    if ts.len() == 0 {
        None
    } else {
        Some(
            "You have unread admin replies:\n\n"@ + unread_lines(ts)
                + "Reply with `$ticket reply <id> <text>`.\nClose a ticket with `$ticket close <id>`."@,
        )
    }
}

pub fn unread_replies_notice(tickets: &Vec<Ticket>) -> (r: Option<String>)
    ensures
        opt_view(r) == unread_notice_spec(crate::tickets::tickets_view(tickets@)),
{
    let ghost tv = crate::tickets::tickets_view(tickets@);
    if tickets.len() == 0 {
        return None;
    }
    let mut s = "You have unread admin replies:\n\n".to_string();
    let ghost head = s@;
    let mut i: usize = 0;
    while i < tickets.len()
        invariant
            i <= tickets@.len(),
            tv == crate::tickets::tickets_view(tickets@),
            s@ == head + unread_lines(tv.take(i as int)),
        decreases tickets@.len() - i,
    {
        assert(tv.take(i + 1).drop_last() =~= tv.take(i as int));
        assert(tv.take(i + 1).last() == tickets@[i as int]@);
        let t = &tickets[i];
        s.append("**Ticket #");
        s.append(crate::text::u64_to_string(t.id).as_str());
        s.append("** - Response:\n");
        match &t.response {
            Some(r) => s.append(r.as_str()),
            None => s.append("No response."),
        }
        s.append("\n\n");
        i = i + 1;
    }
    assert(tv.take(i as int) =~= tv);
    s.append("Reply with `$ticket reply <id> <text>`.\nClose a ticket with `$ticket close <id>`.");
    Some(s)
}

/// Longest queue of model requests waiting at once.
pub const AI_QUEUE_CAPACITY: usize = 200;

/// What a user is told once a request is queued at `position` (1 = next).
pub open spec fn queued_spec(request_id: u64, position: u64) -> Seq<char> {
    if position <= 1 {
        "Your request was queued (ID #"@ + decimal(request_id as nat) + ") and will be processed now."@
    } else {
        "Your request was queued (ID #"@ + decimal(request_id as nat) + ") and will be processed soon. Queue position: "@
            + decimal(position as nat) + "."@
    }
}

pub fn queued_reply(request_id: u64, position: u64) -> (r: String)
    ensures
        r@ == queued_spec(request_id, position),
{
    let mut s = "Your request was queued (ID #".to_string();
    s.append(crate::text::u64_to_string(request_id).as_str());
    if position <= 1 {
        s.append(") and will be processed now.");
    } else {
        s.append(") and will be processed soon. Queue position: ");
        s.append(crate::text::u64_to_string(position).as_str());
        s.append(".");
    }
    s
}

/// Said when the queue is full.
pub const QUEUE_FULL_TEXT: &'static str = "The global queue is currently full. Please try again in a few seconds.";

/// Said when the queue is gone.
pub const QUEUE_CLOSED_TEXT: &'static str = "I cannot process requests right now. Please try again shortly.";

// ---------------------------------------------------------------- $memory

/// A `$memory` request: the text to answer with, or the UID whose memory to show.
pub enum MemoryRequest {
    Reply(String),
    Show(String),
}

pub ghost enum MemoryRequestView {
    Reply(Seq<char>),
    Show(Seq<char>),
}

impl View for MemoryRequest {
    type V = MemoryRequestView;

    open spec fn view(&self) -> MemoryRequestView {
        match self {
            MemoryRequest::Reply(s) => MemoryRequestView::Reply(s@),
            MemoryRequest::Show(s) => MemoryRequestView::Show(s@),
        }
    }
}

pub open spec fn memory_help_text() -> Seq<char> {
    "Usage:\n- `$memory show <uid>` - shows USER.md and recent auto-learning entries for that user."@
}

/// How the text after `$memory` is read: blank or `help` asks for the
/// usage; `show` (in any case) followed by a UID asks for that UID's
/// memory; anything else is unknown.
pub open spec fn memory_request_spec(content: Seq<char>) -> MemoryRequestView {
    let ws = words(content);
    if content.len() == 0 || crate::learning::eq_ignore_ascii_case(content, "help"@) {
        MemoryRequestView::Reply(memory_help_text())
    } else if ws.len() > 0 && lowercase(ws[0]) == "show"@ {
        if trim(join(ws.drop_first(), " "@)).len() == 0 {
            MemoryRequestView::Reply("Usage: `$memory show <uid>`"@)
        } else {
            MemoryRequestView::Show(trim(join(ws.drop_first(), " "@)))
        }
    } else {
        MemoryRequestView::Reply("Unknown `$memory` sub-command. Use: `$memory show <uid>`"@)
    }
}

pub fn memory_request(content: &str) -> (r: MemoryRequest)
    ensures
        r@ == memory_request_spec(content@),
{
    proof {
        reveal_strlit("show");
    }
    let cv = chars_of(content);
    let ws = split_words(cv.as_slice());
    if cv.len() == 0 || crate::learning::eq_ignore_ascii_case_exec(content, "help") {
        return MemoryRequest::Reply(
            "Usage:\n- `$memory show <uid>` - shows USER.md and recent auto-learning entries for that user.".to_string(),
        );
    }
    let is_show = if ws.len() > 0 {
        let first = string_of(ws[0].as_slice());
        let l = to_lowercase(first.as_str());
        str_eq(l.as_str(), "show")
    } else {
        false
    };
    if is_show {
        let mut rest: Vec<String> = Vec::new();
        let mut i: usize = 1;
        while i < ws.len()
            invariant
                1 <= i <= ws@.len(),
                crate::text::string_views(rest@) == char_seqs(ws@).subrange(1, i as int),
            decreases ws@.len() - i,
        {
            let ghost prev = rest@;
            let w = string_of(ws[i].as_slice());
            rest.push(w);
            assert(crate::text::string_views(rest@) =~= crate::text::string_views(prev).push(w@));
            assert(char_seqs(ws@).subrange(1, i + 1) =~= char_seqs(ws@).subrange(1, i as int).push(ws@[i as int]@));
            i = i + 1;
        }
        assert(char_seqs(ws@).subrange(1, i as int) =~= char_seqs(ws@).drop_first());
        let joined = crate::text::join_strings(&rest, " ");
        let uid = trim_str(joined.as_str());
        if uid.as_str().is_empty() {
            proof {
                reveal_strlit("");
            }
            MemoryRequest::Reply("Usage: `$memory show <uid>`".to_string())
        } else {
            proof {
                reveal_strlit("");
            }
            MemoryRequest::Show(uid)
        }
    } else {
        MemoryRequest::Reply("Unknown `$memory` sub-command. Use: `$memory show <uid>`".to_string())
    }
}

// ---------------------------------------------------------------- rooms the bot created

/// How long the bot waits for a room it created to show up, in milliseconds.
pub const ROOM_SETUP_TIMEOUT_MS: u64 = 15000;

/// What to do with a room waiting for setup.
#[derive(Debug, Clone, Copy, PartialEq, Eq, Structural)]
pub enum RoomStep {
    /// Waited too long: forget it.
    TimedOut,
    /// The room is there and so is its creator: move them in, make them its
    /// channel administrator, tell them, forget it.
    SetUp,
    /// The room is there but its creator is gone: forget it.
    CreatorGone,
    /// The room is not there yet: keep waiting.
    Wait,
}

pub open spec fn room_step_spec(elapsed_ms: u64, room_present: bool, creator_present: bool) -> RoomStep {
    if elapsed_ms > ROOM_SETUP_TIMEOUT_MS {
        RoomStep::TimedOut
    } else if room_present && creator_present {
        RoomStep::SetUp
    } else if room_present {
        RoomStep::CreatorGone
    } else {
        RoomStep::Wait
    }
}

pub fn room_step(elapsed_ms: u64, room_present: bool, creator_present: bool) -> (r: RoomStep)
    ensures
        r == room_step_spec(elapsed_ms, room_present, creator_present),
{
    if elapsed_ms > ROOM_SETUP_TIMEOUT_MS {
        RoomStep::TimedOut
    } else if room_present && creator_present {
        RoomStep::SetUp
    } else if room_present {
        RoomStep::CreatorGone
    } else {
        RoomStep::Wait
    }
}

/// Some channel carries the room's name, letter case aside.
pub open spec fn room_listed(channel_names: Seq<Seq<char>>, room: Seq<char>) -> bool {
    exists|i: int| 0 <= i < channel_names.len() && lowercase(#[trigger] channel_names[i]) == lowercase(room)
}

/// Whether a room the bot created is among the server's channels, letter
/// case aside.
pub fn room_present(channel_names: &Vec<String>, room: &str) -> (r: bool)
    ensures
        r == room_listed(channel_names@.map_values(|s: String| s@), room@),
{
    let ghost names = channel_names@.map_values(|s: String| s@);
    let want = to_lowercase(room);
    let mut i: usize = 0;
    while i < channel_names.len()
        invariant
            i <= channel_names@.len(),
            names == channel_names@.map_values(|s: String| s@),
            want@ == lowercase(room@),
            forall|k: int| 0 <= k < i ==> lowercase(#[trigger] names[k]) != lowercase(room@),
        decreases channel_names@.len() - i,
    {
        let have = to_lowercase(channel_names[i].as_str());
        assert(names[i as int] == channel_names@[i as int]@);
        if str_eq(have.as_str(), want.as_str()) {
            return true;
        }
        i += 1;
    }
    false
}

/// What the creator of a room is told once they are in it.
pub fn room_ready_text(channel_name: &str) -> (r: String)
    ensures
        r@ == "I created your room '"@ + channel_name@
            + "' and moved you into it. Do you want to stay here or be moved back to your previous room?"@,
{
    let mut s = "I created your room '".to_string();
    s.append(channel_name);
    s.append("' and moved you into it. Do you want to stay here or be moved back to your previous room?");
    s
}

/// A room waiting for setup is forgotten once it is set up, its creator is
/// gone, or it took too long; it is kept only while it is not there yet.
pub proof fn law_room_kept_only_while_missing(elapsed_ms: u64, room_present: bool, creator_present: bool)
    ensures
        room_step_spec(elapsed_ms, room_present, creator_present) == RoomStep::Wait <==> (elapsed_ms
            <= ROOM_SETUP_TIMEOUT_MS && !room_present),
{
}

} // verus!
