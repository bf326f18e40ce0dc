use ts3_ai_bot::notices::{
    memory_request, queued_reply, room_present, room_ready_text, room_step, unread_replies_notice, usage_hint, welcome_text,
    MemoryRequest, RoomStep, QUEUE_FULL_TEXT,
};
use ts3_ai_bot::tickets::{Ticket, TicketStatus};

#[test]
fn greeting_and_hint_texts() {
    assert!(welcome_text("Ann").starts_with("Hello [b]Ann[/b]!\n\n[u]How to use this bot:[/u]\n"));
    assert!(welcome_text("Ann").ends_with("Type `$ask` followed by your question/command."));
    assert!(usage_hint().starts_with("You can use me like this:\n"));
    assert_eq!(QUEUE_FULL_TEXT, "The global queue is currently full. Please try again in a few seconds.");
}

fn answered(id: u64, response: Option<&str>) -> Ticket {
    Ticket {
        id,
        creator_uid: "u".to_string(),
        creator_name: "Ann".to_string(),
        content: "help".to_string(),
        status: TicketStatus::Answered,
        created_at: "2024-01-01".to_string(),
        response: response.map(|r| r.to_string()),
        claimed_by: None,
    }
}

#[test]
fn unread_notice_lists_each_answer() {
    assert_eq!(unread_replies_notice(&Vec::new()), None);
    let n = unread_replies_notice(&vec![answered(3, Some("Fixed.")), answered(5, None)]).unwrap();
    assert_eq!(
        n,
        "You have unread admin replies:\n\n**Ticket #3** - Response:\nFixed.\n\n**Ticket #5** - Response:\nNo response.\n\nReply with `$ticket reply <id> <text>`.\nClose a ticket with `$ticket close <id>`."
    );
}

#[test]
fn queue_positions() {
    assert_eq!(queued_reply(7, 1), "Your request was queued (ID #7) and will be processed now.");
    assert_eq!(
        queued_reply(8, 3),
        "Your request was queued (ID #8) and will be processed soon. Queue position: 3."
    );
}

#[test]
fn memory_subcommands() {
    let help = "Usage:\n- `$memory show <uid>` - shows USER.md and recent auto-learning entries for that user.";
    assert!(matches!(memory_request(""), MemoryRequest::Reply(ref s) if s == help));
    assert!(matches!(memory_request("HeLp"), MemoryRequest::Reply(ref s) if s == help));
    assert!(matches!(memory_request("SHOW abc="), MemoryRequest::Show(ref u) if u == "abc="));
    assert!(matches!(memory_request("show  a   b"), MemoryRequest::Show(ref u) if u == "a b"));
    assert!(matches!(memory_request("show"), MemoryRequest::Reply(ref s) if s == "Usage: `$memory show <uid>`"));
    assert!(matches!(
        memory_request("list"),
        MemoryRequest::Reply(ref s) if s == "Unknown `$memory` sub-command. Use: `$memory show <uid>`"
    ));
}

#[test]
fn rooms_wait_then_set_up_or_expire() {
    assert_eq!(room_step(1_000, false, true), RoomStep::Wait);
    assert_eq!(room_step(1_000, true, true), RoomStep::SetUp);
    assert_eq!(room_step(1_000, true, false), RoomStep::CreatorGone);
    assert_eq!(room_step(15_000, false, true), RoomStep::Wait);
    assert_eq!(room_step(15_001, true, true), RoomStep::TimedOut);
    assert_eq!(
        room_ready_text("Ann's room"),
        "I created your room 'Ann's room' and moved you into it. Do you want to stay here or be moved back to your previous room?"
    );
}

#[test]
fn rooms_are_found_whatever_their_case() {
    let names = vec!["Lobby".to_string(), "Ana's Room".to_string()];
    assert!(room_present(&names, "ana's room"));
    assert!(room_present(&names, "LOBBY"));
    assert!(!room_present(&names, "Ana"));
    assert!(!room_present(&Vec::new(), "Lobby"));
}
