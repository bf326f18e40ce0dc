//! Chat messages exchanged with the language model, the conversation window
//! kept per user, and the decisions around a chat request: which reply text
//! to use, and when to fall back to the second model.
use vstd::prelude::*;
use crate::actions::opt_view;
use crate::text::{str_eq, trim_str};

verus! {

/// A message in the chat-completions conversation format.
pub struct ChatMessage {
    pub role: String,
    pub content: String,
}

impl ChatMessage {
    pub fn system(content: &str) -> (r: Self)
        ensures
            r.role@ == "system"@,
            r.content@ == content@,
    {
        ChatMessage { role: "system".to_string(), content: content.to_string() }
    }

    pub fn user(content: &str) -> (r: Self)
        ensures
            r.role@ == "user"@,
            r.content@ == content@,
    {
        ChatMessage { role: "user".to_string(), content: content.to_string() }
    }

    pub fn assistant(content: &str) -> (r: Self)
        ensures
            r.role@ == "assistant"@,
            r.content@ == content@,
    {
        ChatMessage { role: "assistant".to_string(), content: content.to_string() }
    }

    /// A copy of the message.
    pub fn duplicate(&self) -> (r: Self)
        ensures
            r.role@ == self.role@,
            r.content@ == self.content@,
    {
        ChatMessage { role: self.role.clone(), content: self.content.clone() }
    }
}

/// A message as its role and content.
pub open spec fn message_view(m: ChatMessage) -> (Seq<char>, Seq<char>) {
    (m.role@, m.content@)
}

pub open spec fn messages_view(v: Seq<ChatMessage>) -> Seq<(Seq<char>, Seq<char>)> {
    v.map_values(|m: ChatMessage| message_view(m))
}

/// Messages of one conversation kept per user.
pub const HISTORY_LIMIT: usize = 20;

/// The last `n` messages (all of them when there are fewer).
pub open spec fn last_n(v: Seq<(Seq<char>, Seq<char>)>, n: nat) -> Seq<(Seq<char>, Seq<char>)> {
    if v.len() > n {
        v.skip(v.len() - n)
    } else {
        v
    }
}

fn copy_messages(v: &Vec<ChatMessage>, from: usize) -> (r: Vec<ChatMessage>)
    requires
        from <= v@.len(),
    ensures
        messages_view(r@) == messages_view(v@).skip(from as int),
{
    let mut out: Vec<ChatMessage> = Vec::new();
    let mut i: usize = from;
    while i < v.len()
        invariant
            from <= i <= v@.len(),
            messages_view(out@) == messages_view(v@).subrange(from as int, i as int),
        decreases v@.len() - i,
    {
        let ghost prev = out@;
        let m = v[i].duplicate();
        out.push(m);
        assert(out@ == prev.push(m));
        assert(message_view(m) == messages_view(v@)[i as int]);
        assert(messages_view(out@) =~= messages_view(prev).push(message_view(m)));
        assert(messages_view(out@) =~= messages_view(v@).subrange(from as int, i + 1));
        i = i + 1;
    }
    assert(messages_view(v@).subrange(from as int, i as int) =~= messages_view(v@).skip(from as int));
    out
}

/// The messages of a request: the system prompt, then the history.
pub fn request_messages(system_prompt: &str, history: &Vec<ChatMessage>) -> (r: Vec<ChatMessage>)
    ensures
        messages_view(r@) == seq![("system"@, system_prompt@)] + messages_view(history@),
{
    let mut out: Vec<ChatMessage> = Vec::new();
    out.push(ChatMessage::system(system_prompt));
    let mut rest = copy_messages(history, 0);
    let ghost a = messages_view(out@);
    let ghost b = messages_view(rest@);
    out.append(&mut rest);
    assert(messages_view(history@).skip(0) =~= messages_view(history@));
    assert(messages_view(out@) =~= a + b);
    out
}

/// The conversation after an exchange: the user's message and the model's
/// reply appended, then only the last `HISTORY_LIMIT` messages kept.
pub fn record_exchange(history: &Vec<ChatMessage>, user_message: &str, reply: &str) -> (r: Vec<ChatMessage>)
    ensures
        messages_view(r@) == last_n(
            messages_view(history@) + seq![("user"@, user_message@), ("assistant"@, reply@)],
            HISTORY_LIMIT as nat,
        ),
{
    let mut all = copy_messages(history, 0);
    assert(messages_view(history@).skip(0) =~= messages_view(history@));
    let ghost h = messages_view(all@);
    all.push(ChatMessage::user(user_message));
    all.push(ChatMessage::assistant(reply));
    assert(messages_view(all@) =~= h + seq![("user"@, user_message@), ("assistant"@, reply@)]);
    if all.len() > HISTORY_LIMIT {
        let start = all.len() - HISTORY_LIMIT;
        copy_messages(&all, start)
    } else {
        all
    }
}

/// What is said to the user when the model cannot be reached.
pub open spec fn ai_failure_text() -> Seq<char> {
    "I'm having trouble processing your request right now. Please try again in a moment."@
}

pub fn ai_failure_reply() -> (r: String)
    ensures
        r@ == ai_failure_text(),
{
    "I'm having trouble processing your request right now. Please try again in a moment.".to_string()
}

/// The `Authorization` header value for an API key, when the key is not blank.
pub fn authorization_header(api_key: &str) -> (r: Option<String>)
    ensures
        crate::text::trim(api_key@).len() == 0 ==> r is None,
        crate::text::trim(api_key@).len() > 0 ==> opt_view(r) == Some("Bearer "@ + api_key@),
{
    let t = trim_str(api_key);
    if t.as_str().is_empty() {
        proof {
            reveal_strlit("");
        }
        None
    } else {
        let mut h = "Bearer ".to_string();
        h.append(api_key);
        Some(h)
    }
}

/// The text of a model's answer: its content, or else its reasoning when
/// only that came back; an error naming the model when both are empty.
pub open spec fn reply_text_spec(content: Option<Seq<char>>, reasoning: Option<Seq<char>>, model: Seq<char>) -> Result<
    Seq<char>,
    Seq<char>,
> {
    let c = crate::actions::or_empty(content);
    let r = crate::actions::or_empty(reasoning);
    if c.len() > 0 {
        Ok(c)
    } else if r.len() > 0 {
        Ok(r)
    } else {
        Err("AI returned empty response for model '"@ + model + "'"@)
    }
}

pub fn reply_text(content: Option<String>, reasoning: Option<String>, model: &str) -> (r: Result<String, String>)
    ensures
        match (r, reply_text_spec(opt_view(content), opt_view(reasoning), model@)) {
            (Ok(x), Ok(y)) => x@ == y,
            (Err(x), Err(y)) => x@ == y,
            _ => false,
        },
{
    proof {
        reveal_strlit("");
    }
    let c = match content {
        Some(c) => c,
        None => String::new(),
    };
    if !c.as_str().is_empty() {
        return Ok(c);
    }
    let r = match reasoning {
        Some(r) => r,
        None => String::new(),
    };
    if !r.as_str().is_empty() {
        return Ok(r);
    }
    let mut msg = "AI returned empty response for model '".to_string();
    msg.append(model);
    msg.append("'");
    Err(msg)
}

/// Which model a chat request goes to.
#[derive(Debug, Clone, Copy, PartialEq, Eq, Structural)]
pub enum ChatAttempt {
    Primary,
    Fallback,
}

/// What to do after an attempt: send to a model, or finish with a reply or an error.
pub enum ChatStep {
    Send(ChatAttempt),
    Done(Result<String, String>),
}

/// The next step after `attempt` ended with `outcome`: a primary failure
/// goes to the fallback model when one is configured; anything else ends.
pub fn next_chat_step(attempt: ChatAttempt, outcome: Result<String, String>, fallback_model: &str) -> (r: ChatStep)
    ensures
        match outcome {
            Ok(s) => r matches ChatStep::Done(Ok(x)) && x@ == s@,
            Err(e) => if attempt == ChatAttempt::Primary && fallback_model@.len() > 0 {
                r matches ChatStep::Send(ChatAttempt::Fallback)
            } else if attempt == ChatAttempt::Primary {
                r matches ChatStep::Done(Err(x)) && x@ == "Primary model failed and no fallback model is configured"@
            } else {
                r matches ChatStep::Done(Err(x)) && x@ == "Both primary and fallback AI models failed: "@ + e@
            },
        },
{
    proof {
        reveal_strlit("");
    }
    match outcome {
        Ok(s) => ChatStep::Done(Ok(s)),
        Err(e) => {
            if attempt == ChatAttempt::Primary {
                if fallback_model.is_empty() {
                    ChatStep::Done(Err("Primary model failed and no fallback model is configured".to_string()))
                } else {
                    ChatStep::Send(ChatAttempt::Fallback)
                }
            } else {
                let mut m = "Both primary and fallback AI models failed: ".to_string();
                m.append(e.as_str());
                ChatStep::Done(Err(m))
            }
        },
    }
}

/// The conversation never holds more than `HISTORY_LIMIT` messages after an
/// exchange, and the exchange itself is always its last two.
pub proof fn law_history_window(h: Seq<(Seq<char>, Seq<char>)>, u: Seq<char>, a: Seq<char>)
    ensures
        last_n(h + seq![("user"@, u), ("assistant"@, a)], HISTORY_LIMIT as nat).len() <= HISTORY_LIMIT,
        last_n(h + seq![("user"@, u), ("assistant"@, a)], HISTORY_LIMIT as nat).last() == ("assistant"@, a),
        last_n(h + seq![("user"@, u), ("assistant"@, a)], HISTORY_LIMIT as nat)[last_n(
            h + seq![("user"@, u), ("assistant"@, a)],
            HISTORY_LIMIT as nat,
        ).len() - 2] == ("user"@, u),
{
    let all = h + seq![("user"@, u), ("assistant"@, a)];
    assert(all[all.len() - 1] == ("assistant"@, a));
    assert(all[all.len() - 2] == ("user"@, u));
}

} // verus!
