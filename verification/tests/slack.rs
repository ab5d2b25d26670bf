use ante_gateway::channels::slack::{
    bot_user_id, contains_bot_mention, envelope_ack, envelope_message, is_dm, on_frame, post_body,
    post_result, socket_url, strip_mentions, Frame, FrameStep, SlackChannel, SlackError,
};
use ante_gateway::channels::InboundMessage;
use ante_gateway::gateway::ConversationKey;
use ante_gateway::json::Json;

const BOT: &str = "U999";

#[test]
fn strip_mentions_removes_slack_mentions_and_normalizes_text() {
    for (input, expected) in [
        ("<@U123> hello", "hello"),
        ("<@U123> <@U456> hi there", "hi there"),
        ("<@U123>", ""),
        ("just text", "just text"),
    ] {
        assert_eq!(strip_mentions(input), expected, "input: {input}");
    }
}

#[test]
fn detect_bot_mention() {
    assert!(contains_bot_mention("<@U123> do something", "U123"));
    assert!(!contains_bot_mention("<@U456> do something", "U123"));
    assert!(!contains_bot_mention("no mention here", "U123"));
}

#[test]
fn dm_detection() {
    assert!(is_dm("D01ABC23DEF"));
    assert!(!is_dm("C01ABC23DEF"));
    assert!(!is_dm("G01ABC23DEF"));
}

#[test]
fn mentions_are_stripped_to_the_nearest_bracket() {
    for (input, expected) in [
        ("a<@U1>b", "ab"),
        ("<@>", "<@>"),
        ("<@ >x", "x"),
        ("<@<@U1>>", ">"),
        ("<@U1", "<@U1"),
        ("  a \t\n b\u{3000}c ", "a b c"),
        ("", ""),
    ] {
        assert_eq!(strip_mentions(input), expected, "input: {input:?}");
    }
}

/// An envelope of the events API around `event`.
fn envelope(event: &str) -> Json {
    let text = format!(
        r#"{{"envelope_id":"e-1","type":"events_api","payload":{{"event":{event}}}}}"#
    );
    Json::parse(&text).unwrap()
}

fn delivered(event: &str) -> Option<InboundMessage> {
    envelope_message(&envelope(event), BOT)
}

#[test]
fn channel_messages_need_a_mention() {
    let message = delivered(
        r#"{"type":"message","user":"U1","channel":"C1","ts":"1.5","text":"<@U999>  do  this"}"#,
    )
    .unwrap();
    assert_eq!(message.platform, "slack");
    assert_eq!(message.channel_id, "C1");
    assert_eq!(message.thread_id.as_deref(), Some("1.5"));
    assert_eq!(message.sender_id, "U1");
    assert_eq!(message.text, "do this");
    assert!(delivered(
        r#"{"type":"message","user":"U1","channel":"C1","ts":"1.5","text":"do this"}"#
    )
    .is_none());
    assert!(delivered(
        r#"{"type":"app_mention","user":"U1","channel":"C1","text":"<@U999> hi","subtype":"x"}"#
    )
    .is_some());
}

#[test]
fn slack_direct_messages_need_no_mention() {
    let message =
        delivered(r#"{"type":"message","user":"U1","channel":"D1","text":"hi"}"#).unwrap();
    assert_eq!(message.text, "hi");
    assert_eq!(message.thread_id, None);
}

#[test]
fn events_that_are_no_messages_are_not_delivered() {
    for event in [
        r#"{"type":"reaction_added","user":"U1","channel":"D1","text":"hi"}"#,
        r#"{"user":"U1","channel":"D1","text":"hi"}"#,
        r#"{"type":"message","subtype":"message_changed","user":"U1","channel":"D1","text":"hi"}"#,
        r#"{"type":"message","user":"U999","channel":"D1","text":"hi"}"#,
        r#"{"type":"message","channel":"D1","text":"hi"}"#,
        r#"{"type":"message","user":"U1","text":"hi"}"#,
        r#"{"type":"message","user":"U1","channel":"D1"}"#,
        r#"{"type":"message","user":"U1","channel":"D1","text":" <@U7> "}"#,
        "null",
    ] {
        assert!(delivered(event).is_none(), "{event}");
    }
    let other = Json::parse(
        r#"{"type":"hello","payload":{"event":{"type":"message","user":"U1","channel":"D1","text":"hi"}}}"#,
    )
    .unwrap();
    assert!(envelope_message(&other, BOT).is_none());
}

#[test]
fn thread_messages_share_the_conversation_that_started_the_thread() {
    let first = delivered(
        r#"{"type":"message","user":"U1","channel":"C1","ts":"1.5","text":"<@U999> start"}"#,
    )
    .unwrap();
    let later = delivered(
        r#"{"type":"message","user":"U2","channel":"C1","ts":"2.5","thread_ts":"1.5","text":"<@U999> on"}"#,
    )
    .unwrap();
    assert_eq!(ConversationKey::from_msg(&first), ConversationKey::from_msg(&later));
}

#[test]
fn envelopes_are_acknowledged_by_their_id() {
    assert_eq!(envelope_ack(&envelope("{}")).as_deref(), Some(r#"{"envelope_id":"e-1"}"#));
    assert_eq!(envelope_ack(&Json::parse(r#"{"envelope_id":7}"#).unwrap()), None);
    assert_eq!(envelope_ack(&Json::Null), None);
    let quoted = Json::parse(r#"{"envelope_id":"a\"b"}"#).unwrap();
    let ack = envelope_ack(&quoted).unwrap();
    assert_eq!(ack, r#"{"envelope_id":"a\"b"}"#);
    assert_eq!(Json::parse(&ack).unwrap().field("envelope_id").as_str(), Some("a\"b"));
}

#[test]
fn slack_frames_have_their_steps() {
    assert!(matches!(on_frame(Frame::Other, BOT), FrameStep::Skip));
    assert!(matches!(on_frame(Frame::Close, BOT), FrameStep::Stop));
    assert!(matches!(on_frame(Frame::Failed, BOT), FrameStep::Stop));
    assert!(matches!(on_frame(Frame::Ping(vec![1, 2]), BOT), FrameStep::Pong(p) if p == [1, 2]));
    assert!(matches!(on_frame(Frame::Text("no json".to_string()), BOT), FrameStep::Skip));
    match on_frame(Frame::Text(r#"{"envelope_id":"e"}"#.to_string()), BOT) {
        FrameStep::Envelope { ack, inbound } => {
            assert_eq!(ack.as_deref(), Some(r#"{"envelope_id":"e"}"#));
            assert!(inbound.is_none());
        }
        _ => panic!("an envelope is acknowledged"),
    }
    let text = r#"{"type":"events_api","payload":{"event":
        {"type":"message","user":"U1","channel":"D1","text":"hi"}}}"#;
    match on_frame(Frame::Text(text.to_string()), BOT) {
        FrameStep::Envelope { ack, inbound } => {
            assert_eq!(ack, None);
            assert_eq!(inbound.unwrap().text, "hi");
        }
        _ => panic!("a message is delivered"),
    }
}

#[test]
fn auth_test_names_the_bot() {
    assert_eq!(bot_user_id(r#"{"ok":true,"user_id":"U999"}"#).unwrap(), "U999");
    let error = bot_user_id(r#"{"ok":false}"#).unwrap_err();
    assert!(matches!(error, SlackError::NoUserId));
    assert_eq!(error.message(), "auth.test did not return user_id");
    let error = bot_user_id("oops").unwrap_err();
    assert!(matches!(error, SlackError::Unreadable(_)));
    assert_eq!(error.message(), "expected value at line 1 column 1");
}

#[test]
fn socket_urls_come_from_replies_that_are_ok() {
    assert_eq!(socket_url(r#"{"ok":true,"url":"wss://s"}"#).unwrap(), "wss://s");
    for (body, message) in [
        (r#"{"ok":false,"error":"invalid_auth"}"#, "apps.connections.open failed: \"invalid_auth\""),
        (r#"{"url":"wss://s"}"#, "apps.connections.open failed: null"),
        (r#"{"ok":"true","error":{"b":1,"a":[-1,2.5]}}"#,
            "apps.connections.open failed: {\"a\":[-1,2.5],\"b\":1}"),
        (r#"{"ok":true}"#, "missing url in response"),
        ("", "EOF while parsing a value at line 1 column 0"),
    ] {
        assert_eq!(socket_url(body).unwrap_err().message(), message, "{body}");
    }
}

#[test]
fn posts_succeed_when_the_reply_is_ok() {
    assert!(post_result(r#"{"ok":true}"#).is_ok());
    assert_eq!(
        post_result(r#"{"ok":false,"error":"not_in_channel"}"#).unwrap_err().message(),
        "chat.postMessage failed: \"not_in_channel\""
    );
    assert_eq!(post_result("[]").unwrap_err().message(), "chat.postMessage failed: null");
    assert!(matches!(post_result("{").unwrap_err(), SlackError::Unreadable(_)));
}

#[test]
fn slack_post_bodies() {
    assert_eq!(post_body("C1", "hi \"you\"", None), r#"{"channel":"C1","text":"hi \"you\""}"#);
    assert_eq!(
        post_body("C1", "hi", Some("1.5")),
        r#"{"channel":"C1","text":"hi","thread_ts":"1.5"}"#
    );
}

#[test]
fn slack_channels_keep_their_tokens() {
    let channel = SlackChannel::new("xoxb".to_string(), "xapp".to_string());
    assert_eq!((channel.bot_token(), channel.app_token()), ("xoxb", "xapp"));
    assert_eq!(channel.platform(), "slack");
}
