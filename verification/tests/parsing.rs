use serde_json::Value;
use ts3_ai_bot::actions::{plan_ai_response, resolve_ai_response, ActionPayload, BotAction};

type Fields = serde_json::Map<String, Value>;

fn opt_string(o: &Fields, k: &str) -> Result<Option<String>, ()> {
    match o.get(k) {
        None | Some(Value::Null) => Ok(None),
        Some(Value::String(s)) => Ok(Some(s.clone())),
        _ => Err(()),
    }
}

fn opt_bool(o: &Fields, k: &str) -> Result<Option<bool>, ()> {
    match o.get(k) {
        None | Some(Value::Null) => Ok(None),
        Some(Value::Bool(b)) => Ok(Some(*b)),
        _ => Err(()),
    }
}

fn opt_u64(o: &Fields, k: &str) -> Result<Option<u64>, ()> {
    match o.get(k) {
        None | Some(Value::Null) => Ok(None),
        Some(v) => v.as_u64().map(Some).ok_or(()),
    }
}

fn opt_u8(o: &Fields, k: &str) -> Result<Option<u8>, ()> {
    match opt_u64(o, k)? {
        None => Ok(None),
        Some(n) => u8::try_from(n).map(Some).map_err(|_| ()),
    }
}

/// A JSON object read as the model's action object, as serde reads it.
fn payload(v: &Value) -> Option<ActionPayload> {
    let o = v.as_object()?;
    let read = || -> Result<ActionPayload, ()> {
        Ok(ActionPayload {
            action: opt_string(o, "action")?.ok_or(())?,
            message: opt_string(o, "message")?,
            channel_name: opt_string(o, "channel_name")?,
            password: opt_string(o, "password")?,
            permanent: opt_bool(o, "permanent")?,
            set_permanent: opt_bool(o, "set_permanent")?,
            client_name: opt_string(o, "client_name")?,
            reason: opt_string(o, "reason")?,
            channel_id: opt_u64(o, "channel_id")?,
            description: opt_string(o, "description")?,
            server_group_id: opt_u64(o, "server_group_id")?,
            duration_seconds: opt_u64(o, "duration_seconds")?,
            target_name: opt_string(o, "target_name")?,
            ip: opt_string(o, "ip")?,
            uid: opt_string(o, "uid")?,
            name: opt_string(o, "name")?,
            ban_id: opt_u64(o, "ban_id")?,
            is_talker: opt_bool(o, "is_talker")?,
            parent_channel_name: opt_string(o, "parent_channel_name")?,
            text: opt_string(o, "text")?,
            url: opt_string(o, "url")?,
            volume: opt_u8(o, "volume")?,
        })
    };
    read().ok()
}

fn parse_one(text: &str) -> Option<ActionPayload> {
    let v: Value = serde_json::from_str(text).ok()?;
    payload(&v)
}

fn parse_array(text: &str) -> Option<Vec<ActionPayload>> {
    let v: Value = serde_json::from_str(text).ok()?;
    v.as_array()?.iter().map(payload).collect()
}

fn parse_ai_response(raw: &str) -> Vec<BotAction> {
    let plan = plan_ai_response(raw);
    let array = parse_array(&plan.cleaned);
    let embedded = plan.embedded.iter().map(|t| parse_one(t)).collect();
    let invoke = plan.invoke.iter().map(|c| c.iter().map(|t| parse_one(t)).collect()).collect();
    resolve_ai_response(plan.cleaned, array, embedded, invoke)
}

#[test]
fn test_parse_reply_action() {
    let raw = r#"{"action": "REPLY", "message": "Hello there!"}"#;
    let actions = parse_ai_response(raw);
    assert_eq!(actions.len(), 1);
    match &actions[0] {
        BotAction::Reply { message } => assert_eq!(message, "Hello there!"),
        _ => panic!("Expected Reply action"),
    }
}

#[test]
fn test_parse_create_channel() {
    let raw = r#"{"action": "CREATE_CHANNEL", "channel_name": "Gaming Lounge", "permanent": true}
{"action": "REPLY", "message": "Done! Created Gaming Lounge."}"#;
    let actions = parse_ai_response(raw);
    assert_eq!(actions.len(), 2);
    match &actions[0] {
        BotAction::CreateChannel { channel_name, password, permanent } => {
            assert_eq!(channel_name, "Gaming Lounge");
            assert_eq!(*password, None);
            assert!(*permanent);
        }
        _ => panic!("Expected CreateChannel action"),
    }
}

#[test]
fn test_parse_edit_channel() {
    let raw = r#"{"action": "EDIT_CHANNEL", "channel_name": "Temp Room", "set_permanent": true}
{"action": "REPLY", "message": "Converted to permanent."}"#;
    let actions = parse_ai_response(raw);
    assert_eq!(actions.len(), 2);
    match &actions[0] {
        BotAction::EditChannel { channel_name, set_permanent } => {
            assert_eq!(channel_name, "Temp Room");
            assert!(*set_permanent);
        }
        _ => panic!("Expected EditChannel action"),
    }
}

#[test]
fn test_fallback_to_plain_text() {
    let raw = "I'm just a regular text response with no JSON.";
    let actions = parse_ai_response(raw);
    assert_eq!(actions.len(), 1);
    match &actions[0] {
        BotAction::Reply { message } => {
            assert_eq!(message, "I'm just a regular text response with no JSON.");
        }
        _ => panic!("Expected Reply fallback"),
    }
}

#[test]
fn test_unknown_action_ignored() {
    let raw = r#"{"action": "DELETE_SERVER", "reason": "yolo"}"#;
    let actions = parse_ai_response(raw);
    assert_eq!(actions.len(), 1);
    match &actions[0] {
        BotAction::Reply { .. } => {}
        _ => panic!("Expected Reply fallback for unknown action"),
    }
}

#[test]
fn test_embedded_json() {
    let raw = r#"Sure! Let me create that for you.
{"action": "CREATE_CHANNEL", "channel_name": "My Room", "permanent": true}
Here you go!"#;
    let actions = parse_ai_response(raw);
    assert!(actions.iter().any(|a| matches!(a, BotAction::CreateChannel { .. })));
}

#[test]
fn test_parse_minimax_invoke_tts_payload() {
    let raw = r#"
<minimax:tool_call>
<invoke name="PLAY_TTS",
    "text": "TTS is now ON! From now on I will speak everything instead of typing."
  }
}
"#;
    let actions = parse_ai_response(raw);
    assert_eq!(actions.len(), 1);
    match &actions[0] {
        BotAction::PlayTTS { text } => {
            assert!(text.starts_with("TTS is now ON"));
        }
        _ => panic!("Expected PlayTTS action"),
    }
}

#[test]
fn test_parse_multiple_invoke_actions() {
    let raw = r#"
<minimax:tool_call>
<invoke name="SET_VOLUME",
    "volume": 30
  }
}
<invoke name="PLAY_TTS",
    "text": "Test, one two three"
  }
}
"#;
    let actions = parse_ai_response(raw);
    assert_eq!(actions.len(), 2);
    assert!(matches!(actions[0], BotAction::SetVolume { volume: 30 }));
    assert!(matches!(actions[1], BotAction::PlayTTS { .. }));
}

#[test]
fn overlong_channel_name_becomes_an_apology() {
    let name = "x".repeat(101);
    let raw = format!("[{{\"action\": \"create_channel\", \"channel_name\": \"{}\"}}]", name);
    let actions = parse_ai_response(&raw);
    assert_eq!(actions.len(), 1);
    assert!(matches!(&actions[0], BotAction::Reply { message } if message == "Sorry, channel names must be 100 characters or less."));
}
