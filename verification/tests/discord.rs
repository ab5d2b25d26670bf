use ante_gateway::channels::discord::{
    contains_bot_mention, gateway_request_url, gateway_url, heartbeat_payload, hello_frame,
    identify_payload, inbound_message, is_dm_event, messages_url, post_body, post_result,
    strip_mentions, DiscordChannel, DiscordError, DiscordSession, Frame, FrameStep, INTENTS,
};
use ante_gateway::channels::InboundMessage;
use ante_gateway::gateway::ConversationKey;
use ante_gateway::json::Json;
use serde_json::Value;

const BOT_ID: &str = "999";

fn json(text: &str) -> Value {
    serde_json::from_str(text).unwrap()
}

fn word(text: &str) -> Value {
    Value::String(text.to_string())
}

fn delivered(event: &Value, bot_user_id: Option<&str>) -> Option<InboundMessage> {
    inbound_message(&Json::from_value(event), bot_user_id)
}

fn message(id: &str, content: &str) -> Value {
    let mut event = json(r#"{"guild_id": "10", "channel_id": "50", "author": {"id": "42"}}"#);
    event["id"] = word(id);
    event["content"] = word(content);
    event
}

fn reply(content: &str) -> Value {
    let mut reply = message("300", content);
    reply["message_reference"] = json(r#"{"message_id": "200", "channel_id": "50"}"#);
    reply["referenced_message"] = json(
        r#"{
            "id": "200",
            "channel_id": "50",
            "author": {"id": "999", "bot": true},
            "message_reference": {"message_id": "100", "channel_id": "50"}
        }"#,
    );
    reply
}

#[test]
fn approval_replies_return_to_original_conversation() {
    let original = delivered(&message("100", "<@999> run this"), Some(BOT_ID)).unwrap();
    for (content, expected) in [
        ("<@999> yes", "yes"),
        ("yes", "yes"),
        ("no", "no"),
        ("always", "always"),
        ("<@!999> always", "always"),
    ] {
        let inbound = delivered(&reply(content), Some(BOT_ID))
            .expect("a reply to our bot must be delivered without requiring a mention");
        assert_eq!(inbound.channel_id, original.channel_id);
        assert_eq!(inbound.thread_id, original.thread_id, "{content}");
        assert_eq!(inbound.sender_id, "42");
        assert_eq!(inbound.text, expected);
        assert_eq!(ConversationKey::from_msg(&inbound), ConversationKey::from_msg(&original));
    }
}

#[test]
fn followups_to_different_bot_messages_stay_in_the_same_conversation() {
    for bot_message_id in ["200", "201", "202"] {
        let mut event = reply("continue");
        event["message_reference"]["message_id"] = word(bot_message_id);
        event["referenced_message"]["id"] = word(bot_message_id);
        let inbound = delivered(&event, Some(BOT_ID)).unwrap();
        assert_eq!(inbound.thread_id.as_deref(), Some("100"));
        assert_eq!(inbound.text, "continue");
    }
}

#[test]
fn replies_to_other_authors_require_a_mention_and_keep_the_direct_reference() {
    for author in [json(r#"{"id": "43"}"#), json(r#"{"id": "998", "bot": true}"#)] {
        let mut event = reply("yes");
        event["referenced_message"]["author"] = author;
        assert!(delivered(&event, Some(BOT_ID)).is_none());
        event["content"] = word("<@999> yes");
        let inbound = delivered(&event, Some(BOT_ID)).unwrap();
        assert_eq!(inbound.thread_id.as_deref(), Some("200"));
    }
}

#[test]
fn unrelated_mentions_start_separate_conversations() {
    for id in ["100", "101"] {
        let inbound = delivered(&message(id, "<@999> hello"), Some(BOT_ID)).unwrap();
        assert_eq!(inbound.thread_id.as_deref(), Some(id));
        assert_eq!(inbound.text, "hello");
    }
}

#[test]
fn direct_messages_share_one_conversation() {
    for mut event in [message("100", "hello"), reply("yes")] {
        event.as_object_mut().unwrap().remove("guild_id");
        let inbound = delivered(&event, Some(BOT_ID)).unwrap();
        assert_eq!(inbound.channel_id, "50");
        assert_eq!(inbound.thread_id, None);
    }
}

#[test]
fn missing_or_deleted_references_require_a_mention() {
    for missing in [true, false] {
        let mut event = reply("yes");
        if missing {
            event.as_object_mut().unwrap().remove("referenced_message");
        } else {
            event["referenced_message"] = Value::Null;
        }
        assert!(delivered(&event, Some(BOT_ID)).is_none());
        event["content"] = word("<@999> yes");
        let inbound = delivered(&event, Some(BOT_ID)).unwrap();
        assert_eq!(inbound.thread_id.as_deref(), Some("200"));
    }
}

#[test]
fn bot_messages_and_empty_replies_are_ignored() {
    let mut event = reply("yes");
    event["author"]["bot"] = Value::Bool(true);
    assert!(delivered(&event, Some(BOT_ID)).is_none());
    for content in ["", " ", "<@999>"] {
        assert!(delivered(&reply(content), Some(BOT_ID)).is_none());
    }
    assert!(delivered(&reply("yes"), None).is_none());
}

#[test]
fn our_own_messages_are_ignored() {
    let mut event = reply("yes");
    event["author"]["id"] = word(BOT_ID);
    assert!(delivered(&event, Some(BOT_ID)).is_none());
}

#[test]
fn messages_without_an_author_have_an_empty_sender() {
    let event = json(r#"{"channel_id": "50", "content": "hi"}"#);
    assert_eq!(delivered(&event, Some(BOT_ID)).unwrap().sender_id, "");
    assert!(delivered(&event, Some("")).is_none());
}

#[test]
fn messages_without_content_or_channel_are_ignored() {
    assert!(delivered(&json(r#"{"channel_id": "50"}"#), Some(BOT_ID)).is_none());
    assert!(delivered(&json(r#"{"content": "hi"}"#), Some(BOT_ID)).is_none());
    assert!(delivered(&json(r#"{"channel_id": 50, "content": "hi"}"#), Some(BOT_ID)).is_none());
}

#[test]
fn direct_messages_arrive_before_the_bot_is_known() {
    let event = json(r#"{"guild_id": null, "channel_id": "50", "content": "hi"}"#);
    assert!(is_dm_event(&Json::from_value(&event)));
    assert_eq!(delivered(&event, None).unwrap().text, "hi");
    assert!(!is_dm_event(&Json::from_value(&message("1", "hi"))));
    assert!(delivered(&message("1", "<@999> hi"), None).is_none());
}

#[test]
fn discord_mentions_are_numbers() {
    for (input, expected) in [
        ("<@123> hello", "hello"),
        ("<@!123>hello", "hello"),
        ("<@abc> hello", "<@abc> hello"),
        ("<@!> hello", "<@!> hello"),
        ("<@> hello", "<@> hello"),
        ("<@12a>", "<@12a>"),
        ("<@<@12>", "<@"),
        ("<@1٢३>x", "x"),
        ("<@½>x", "<@½>x"),
        ("a <@1> b", "a b"),
    ] {
        assert_eq!(strip_mentions(input), expected, "input: {input:?}");
    }
}

#[test]
fn bot_mentions_have_two_forms() {
    assert!(contains_bot_mention("hey <@999>", BOT_ID));
    assert!(contains_bot_mention("hey <@!999>", BOT_ID));
    assert!(!contains_bot_mention("hey <@9999>", BOT_ID));
    assert!(!contains_bot_mention("hey 999", BOT_ID));
}

#[test]
fn gateway_urls_ask_for_json() {
    assert_eq!(gateway_request_url(), "https://discord.com/api/v10/gateway/bot");
    assert_eq!(
        gateway_url(r#"{"url":"wss://gateway.discord.gg"}"#).unwrap(),
        "wss://gateway.discord.gg/?v=10&encoding=json"
    );
    let error = gateway_url(r#"{"message":"401: Unauthorized"}"#).unwrap_err();
    assert!(matches!(error, DiscordError::NoGatewayUrl));
    assert_eq!(error.message(), "missing gateway url");
    assert_eq!(
        gateway_url("oops").unwrap_err().message(),
        "expected value at line 1 column 1"
    );
}

fn text(text: &str) -> Frame {
    Frame::Text(text.to_string())
}

#[test]
fn hello_gives_the_heartbeat_interval() {
    let hello = hello_frame(Some(text(r#"{"op":10,"d":{"heartbeat_interval":41250}}"#)));
    assert_eq!(hello.unwrap(), Some(41250));
    assert_eq!(hello_frame(Some(text(r#"{"op":11}"#))).unwrap(), None);
    assert_eq!(hello_frame(Some(text(r#"{"op":10.0}"#))).unwrap(), None);
    let error = hello_frame(Some(text(r#"{"op":10,"d":{"heartbeat_interval":-1}}"#))).unwrap_err();
    assert!(matches!(error, DiscordError::NoHeartbeatInterval));
    assert_eq!(error.message(), "missing heartbeat_interval");
    for frame in [None, Some(Frame::Close), Some(Frame::Other), Some(Frame::Failed)] {
        let error = hello_frame(frame).unwrap_err();
        assert!(matches!(error, DiscordError::ClosedBeforeHello));
        assert_eq!(error.message(), "Discord Gateway closed before Hello");
    }
    assert!(matches!(hello_frame(Some(text("{"))).unwrap_err(), DiscordError::Unreadable(_)));
}

#[test]
fn identify_names_token_intents_and_system() {
    assert_eq!(INTENTS, (1 << 0) | (1 << 9) | (1 << 12) | (1 << 15));
    assert_eq!(
        identify_payload("secret", "linux"),
        "{\"d\":{\"intents\":37377,\"properties\":{\"browser\":\"ante\",\"device\":\"ante\",\
         \"os\":\"linux\"},\"token\":\"secret\"},\"op\":2}"
    );
}

#[test]
fn heartbeats_carry_the_last_sequence_number() {
    assert_eq!(heartbeat_payload(0), r#"{"d":null,"op":1}"#);
    assert_eq!(heartbeat_payload(42), r#"{"d":42,"op":1}"#);
    assert_eq!(heartbeat_payload(u64::MAX), r#"{"d":18446744073709551615,"op":1}"#);
    let mut session = DiscordSession::new();
    session.on_frame(text(r#"{"op":11,"s":7}"#));
    session.on_frame(text(r#"{"op":11,"s":null}"#));
    assert_eq!(heartbeat_payload(session.last_seq), r#"{"d":7,"op":1}"#);
}

#[test]
fn sessions_learn_the_bot_from_ready() {
    let mut session = DiscordSession::new();
    let create = r#"{"op":0,"s":2,"t":"MESSAGE_CREATE","d":
        {"id":"1","guild_id":"10","channel_id":"50","author":{"id":"42"},"content":"<@999> hi"}}"#;
    assert!(matches!(session.on_frame(text(create)), FrameStep::Skip));
    let ready = r#"{"op":0,"s":3,"t":"READY","d":{"user":{"id":"999"}}}"#;
    assert!(matches!(session.on_frame(text(ready)), FrameStep::Skip));
    assert_eq!(session.bot_user_id.as_deref(), Some("999"));
    assert_eq!(session.last_seq, 3);
    match session.on_frame(text(create)) {
        FrameStep::Deliver(message) => {
            assert_eq!(message.platform, "discord");
            assert_eq!(message.text, "hi");
            assert_eq!(message.thread_id.as_deref(), Some("1"));
        }
        _ => panic!("a mention of the bot is delivered"),
    }
    assert_eq!(session.last_seq, 2);
    let nameless = r#"{"t":"READY","d":{}}"#;
    assert!(matches!(session.on_frame(text(nameless)), FrameStep::Skip));
    assert_eq!(session.bot_user_id.as_deref(), Some("999"));
}

#[test]
fn payloads_without_an_opcode_are_dispatches() {
    let mut session = DiscordSession::new();
    let direct = r#"{"t":"MESSAGE_CREATE","d":{"channel_id":"50","content":"hi"}}"#;
    assert!(matches!(session.on_frame(text(direct)), FrameStep::Deliver(m) if m.text == "hi"));
    let other = r#"{"t":"TYPING_START","d":{"channel_id":"50","content":"hi"}}"#;
    assert!(matches!(session.on_frame(text(other)), FrameStep::Skip));
}

#[test]
fn discord_frames_have_their_steps() {
    let mut session = DiscordSession::new();
    assert!(matches!(session.on_frame(Frame::Other), FrameStep::Skip));
    assert!(matches!(session.on_frame(Frame::Close), FrameStep::Stop));
    assert!(matches!(session.on_frame(Frame::Failed), FrameStep::Stop));
    assert!(matches!(session.on_frame(text("no json")), FrameStep::Skip));
    assert!(matches!(session.on_frame(text(r#"{"op":7}"#)), FrameStep::Stop));
    assert!(matches!(session.on_frame(text(r#"{"op":9,"s":5}"#)), FrameStep::Stop));
    assert_eq!(session.last_seq, 5);
    assert!(matches!(session.on_frame(text(r#"{"op":11}"#)), FrameStep::Skip));
    assert!(matches!(session.on_frame(text(r#"{"op":3}"#)), FrameStep::Skip));
}

#[test]
fn discord_posts_reply_to_the_original_message() {
    assert_eq!(messages_url("50"), "https://discord.com/api/v10/channels/50/messages");
    assert_eq!(post_body("hi", None), r#"{"content":"hi"}"#);
    assert_eq!(
        post_body("a\nb", Some("100")),
        r#"{"content":"a\nb","message_reference":{"message_id":"100"}}"#
    );
}

#[test]
fn posts_succeed_with_a_status_of_success() {
    for status in [200, 204, 299] {
        assert!(post_result(status, String::new()).is_ok());
    }
    for status in [100, 199, 300, 403, 500] {
        let error = post_result(status, "Missing Access".to_string()).unwrap_err();
        assert!(matches!(error, DiscordError::SendFailed(_)));
        assert_eq!(error.message(), "Discord send failed: Missing Access");
    }
}

#[test]
fn discord_channels_authorize_as_bots() {
    let channel = DiscordChannel::new("secret".to_string());
    assert_eq!(channel.bot_token(), "secret");
    assert_eq!(channel.authorization(), "Bot secret");
    assert_eq!(channel.platform(), "discord");
}
