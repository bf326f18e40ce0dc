use ts3_ai_bot::ai::{
    ai_failure_reply, authorization_header, next_chat_step, record_exchange, reply_text, request_messages,
    ChatAttempt, ChatMessage, ChatStep, HISTORY_LIMIT,
};

fn pairs(v: &[ChatMessage]) -> Vec<(String, String)> {
    v.iter().map(|m| (m.role.clone(), m.content.clone())).collect()
}

#[test]
fn message_constructors_set_roles() {
    let s = ChatMessage::system("rules");
    let u = ChatMessage::user("hi");
    let a = ChatMessage::assistant("hello");
    assert_eq!((s.role.as_str(), s.content.as_str()), ("system", "rules"));
    assert_eq!((u.role.as_str(), u.content.as_str()), ("user", "hi"));
    assert_eq!((a.role.as_str(), a.content.as_str()), ("assistant", "hello"));
    let d = a.duplicate();
    assert_eq!((d.role, d.content), ("assistant".to_string(), "hello".to_string()));
}

#[test]
fn request_starts_with_the_system_prompt() {
    let history = vec![ChatMessage::user("q1"), ChatMessage::assistant("a1")];
    let msgs = request_messages("SYS", &history);
    assert_eq!(
        pairs(&msgs),
        vec![
            ("system".to_string(), "SYS".to_string()),
            ("user".to_string(), "q1".to_string()),
            ("assistant".to_string(), "a1".to_string()),
        ]
    );
}

#[test]
fn history_keeps_the_last_twenty_messages() {
    let mut h: Vec<ChatMessage> = Vec::new();
    for i in 0..15 {
        h = record_exchange(&h, &format!("q{}", i), &format!("a{}", i));
        assert!(h.len() <= HISTORY_LIMIT);
    }
    assert_eq!(h.len(), 20);
    assert_eq!(h[0].content, "q5");
    assert_eq!(h[18].content, "q14");
    assert_eq!(h[19].role, "assistant");
    assert_eq!(h[19].content, "a14");
    let short = record_exchange(&Vec::new(), "q", "a");
    assert_eq!(pairs(&short), vec![("user".to_string(), "q".to_string()), ("assistant".to_string(), "a".to_string())]);
}

#[test]
fn failure_reply_text() {
    assert_eq!(
        ai_failure_reply(),
        "I'm having trouble processing your request right now. Please try again in a moment."
    );
}

#[test]
fn bearer_header_only_for_real_keys() {
    assert_eq!(authorization_header("sk-1"), Some("Bearer sk-1".to_string()));
    assert_eq!(authorization_header("   "), None);
    assert_eq!(authorization_header(""), None);
}

#[test]
fn reply_text_prefers_content_then_reasoning() {
    assert_eq!(reply_text(Some("hi".to_string()), Some("r".to_string()), "m"), Ok("hi".to_string()));
    assert_eq!(reply_text(Some(String::new()), Some("thought".to_string()), "m"), Ok("thought".to_string()));
    assert_eq!(reply_text(None, Some("thought".to_string()), "m"), Ok("thought".to_string()));
    assert_eq!(
        reply_text(None, None, "gpt-x"),
        Err("AI returned empty response for model 'gpt-x'".to_string())
    );
}

#[test]
fn chat_steps_fall_back_once() {
    assert!(matches!(
        next_chat_step(ChatAttempt::Primary, Ok("ok".to_string()), "fb"),
        ChatStep::Done(Ok(s)) if s == "ok"
    ));
    assert!(matches!(
        next_chat_step(ChatAttempt::Primary, Err("timeout".to_string()), "fb"),
        ChatStep::Send(ChatAttempt::Fallback)
    ));
    assert!(matches!(
        next_chat_step(ChatAttempt::Primary, Err("timeout".to_string()), ""),
        ChatStep::Done(Err(e)) if e == "Primary model failed and no fallback model is configured"
    ));
    assert!(matches!(
        next_chat_step(ChatAttempt::Fallback, Err("502".to_string()), "fb"),
        ChatStep::Done(Err(e)) if e == "Both primary and fallback AI models failed: 502"
    ));
    assert!(matches!(
        next_chat_step(ChatAttempt::Fallback, Ok("late".to_string()), "fb"),
        ChatStep::Done(Ok(s)) if s == "late"
    ));
}
