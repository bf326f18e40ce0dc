use ts3_ai_bot::ticket_commands::{handle_ticket_command, TicketNotice};
use ts3_ai_bot::tickets::{TicketStatus, TicketStore, TicketStoreData};

fn store() -> TicketStore {
    TicketStore::with_data("tickets.json".to_string(), TicketStoreData::new())
}

#[test]
fn created_ticket_is_found_open() {
    let mut s = store();
    let id = s.create_ticket("u1".into(), "Alice".into(), "help".into(), "2024-01-01 10:00:00".into());
    assert_eq!(id, 1);
    let t = s.get_ticket(1).unwrap();
    assert_eq!(t.status, TicketStatus::Open);
    assert_eq!(t.content, "help");
    assert_eq!(s.get_open_tickets().len(), 1);
    assert!(s.get_ticket(2).is_none());
}

#[test]
fn replies_are_appended_with_speaker() {
    let mut s = store();
    s.create_ticket("u1".into(), "Alice".into(), "help".into(), "t".into());
    let t = s.reply_ticket(1, "first".into(), true).unwrap();
    assert_eq!(t.response.as_deref(), Some("first"));
    assert_eq!(t.status, TicketStatus::Answered);
    assert_eq!(s.get_unread_tickets("u1").len(), 1);
    let t = s.reply_ticket(1, "thanks".into(), false).unwrap();
    assert_eq!(t.response.as_deref(), Some("first\n\n**User:** thanks"));
    assert_eq!(t.status, TicketStatus::Open);
    assert!(s.get_unread_tickets("u1").is_empty());
    assert!(s.reply_ticket(9, "x".into(), true).is_none());
}

#[test]
fn claimed_and_closed_tickets() {
    let mut s = store();
    s.create_ticket("u1".into(), "Alice".into(), "help".into(), "t".into());
    let t = s.claim_ticket(1, "Admin".into()).unwrap();
    assert_eq!(t.claimed_by.as_deref(), Some("Admin"));
    assert!(s.close_ticket(1));
    assert!(!s.close_ticket(2));
    assert!(s.get_open_tickets().is_empty());
    assert_eq!(s.get_user_history("ALICE").len(), 1);
    assert_eq!(s.get_user_history("u1").len(), 1);
    assert!(s.get_user_history("bob").is_empty());
}

#[test]
fn ticket_command_opens_one_ticket_per_member() {
    let mut s = store();
    let r = handle_ticket_command(&mut s, "My mic is broken", false, "u1", "Alice", "2024-01-01 10:00:00");
    assert!(r.changed);
    assert_eq!(
        r.reply.as_deref(),
        Some("Your ticket has been created successfully as **#1**. Admins have been notified and will respond soon.")
    );
    match r.notice {
        TicketNotice::Admins { message, skip_invoker } => {
            assert_eq!(message, "NEW TICKET #1\nUser: Alice\nIssue: My mic is broken");
            assert!(skip_invoker);
        }
        _ => panic!("admins should hear of a new ticket"),
    }
    let again = handle_ticket_command(&mut s, "another", false, "u1", "Alice", "t");
    assert!(!again.changed);
    assert!(again.reply.unwrap().starts_with("You already have one open ticket."));
}

#[test]
fn ticket_command_lists_and_reads() {
    let mut s = store();
    handle_ticket_command(&mut s, "help me", false, "u1", "Alice", "2024-01-01");
    handle_ticket_command(&mut s, "and me", false, "u2", "Bob", "2024-01-02");
    let own = handle_ticket_command(&mut s, "list", false, "u1", "Alice", "t");
    assert_eq!(own.reply.as_deref(), Some("Active Tickets:\n- ID: **1** [Open] | From: Alice\n"));
    let all = handle_ticket_command(&mut s, "list", true, "admin", "Root", "t");
    assert_eq!(
        all.reply.as_deref(),
        Some("Active Tickets:\n- ID: **1** [Open] | From: Alice\n- ID: **2** [Open] | From: Bob\n")
    );
    let denied = handle_ticket_command(&mut s, "read 2", false, "u1", "Alice", "t");
    assert_eq!(denied.reply.as_deref(), Some("You do not have access to this ticket."));
    let read = handle_ticket_command(&mut s, "read 1", false, "u1", "Alice", "t");
    assert_eq!(
        read.reply.as_deref(),
        Some("**Ticket #1** (Open)\nUser: Alice\nDate: 2024-01-01\n\n**Message:**\nhelp me\n\n**Response:**\nNo response yet.")
    );
    let bad = handle_ticket_command(&mut s, "read x", false, "u1", "Alice", "t");
    assert!(bad.reply.is_none());
    let missing = handle_ticket_command(&mut s, "read 7", true, "admin", "Root", "t");
    assert_eq!(missing.reply.as_deref(), Some("Ticket not found."));
}

#[test]
fn ticket_command_replies_claims_and_closes() {
    let mut s = store();
    handle_ticket_command(&mut s, "help me", false, "u1", "Alice", "t");
    let r = handle_ticket_command(&mut s, "reply 1 on my way", true, "admin", "Root", "t");
    assert_eq!(r.reply.as_deref(), Some("Reply saved for ticket #1."));
    match r.notice {
        TicketNotice::Creator { uid, message } => {
            assert_eq!(uid, "u1");
            assert_eq!(message, "Admin replied to your ticket #1!\n\nResponse:\non my way");
        }
        _ => panic!("the creator should hear of the reply"),
    }
    let c = handle_ticket_command(&mut s, "claim 1", true, "admin", "Root", "t");
    assert_eq!(c.reply.as_deref(), Some("You claimed ticket #1."));
    let not_admin_claim = handle_ticket_command(&mut s, "claim 1", false, "u1", "Alice", "t");
    assert!(not_admin_claim.reply.unwrap().starts_with("You already have one open ticket."));
    let close = handle_ticket_command(&mut s, "close 1", false, "u1", "Alice", "t");
    assert_eq!(close.reply.as_deref(), Some("Ticket #1 has been closed."));
    let hist = handle_ticket_command(&mut s, "history Alice", true, "admin", "Root", "t");
    assert_eq!(hist.reply.as_deref(), Some("Ticket history for Alice:\n\n**#1:** help me\n"));
    let help = handle_ticket_command(&mut s, "", false, "u1", "Alice", "t");
    assert!(help.reply.unwrap().starts_with("To open a support ticket"));
}

#[test]
fn ticket_ids_count_up_from_a_new_store() {
    let mut s = store();
    for k in 1..=4u64 {
        let id = s.create_ticket(format!("u{}", k), format!("User{}", k), format!("issue {}", k), "2024-05-01 09:00:00".into());
        assert_eq!(id, k);
    }
    assert_eq!(s.data.next_id, 5);
    for k in 1..=4u64 {
        let t = s.get_ticket(k).unwrap();
        assert_eq!(t.id, k);
        assert_eq!(t.content, format!("issue {}", k));
        assert_eq!(t.status, TicketStatus::Open);
    }
}
