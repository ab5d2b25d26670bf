//! Slack in Socket Mode: the frames that it sends, and the requests to its
//! web API with their replies.

use super::{inbound_option, Inbound, InboundMessage};
use crate::gateway::key_of;
use crate::json::{
    json_outcome, json_text, object_of_one, object_of_three, object_of_two, payload_text,
    text_value, writes, Json, JsonTree, Reply,
};
use crate::mention::{strip, stripped, without_mentions, words_make_text, MentionForm};
use crate::text::{
    chained, contains, joined, occurring_is_being_surrounded, occurs, same_text, str_option,
    strip_prefix, surrounds, tokens,
};
use vstd::prelude::*;
use vstd::string::*;

verus! {

/// Where the bot's own user ID is asked for.
pub const AUTH_TEST_URL: &'static str = "https://slack.com/api/auth.test";

/// Where the URL of a Socket Mode connection is asked for.
pub const OPEN_URL: &'static str = "https://slack.com/api/apps.connections.open";

/// Where messages are posted.
pub const POST_MESSAGE_URL: &'static str = "https://slack.com/api/chat.postMessage";

/// The Slack platform, with the tokens of the bot and of its app.
pub struct SlackChannel {
    bot_token: String,
    app_token: String,
}

impl SlackChannel {
    pub closed spec fn bot(self) -> Seq<char> {
        self.bot_token@
    }

    pub closed spec fn app(self) -> Seq<char> {
        self.app_token@
    }

    pub fn new(bot_token: String, app_token: String) -> (r: Self)
        ensures
            r.bot() == bot_token@,
            r.app() == app_token@,
    {
        SlackChannel { bot_token, app_token }
    }

    /// The token that asks for the bot's user ID and posts messages.
    pub fn bot_token(&self) -> (r: &str)
        ensures
            r@ == self.bot(),
    {
        self.bot_token.as_str()
    }

    /// The token that opens Socket Mode connections.
    pub fn app_token(&self) -> (r: &str)
        ensures
            r@ == self.app(),
    {
        self.app_token.as_str()
    }

    /// The name of the platform.
    pub fn platform(&self) -> (r: &'static str)
        ensures
            r@ == "slack"@,
    {
        "slack"
    }
}

/// Strip all `<@U...>` mentions from text and normalize whitespace.
pub fn strip_mentions(text: &str) -> (r: String)
    ensures
        r@ == stripped(text@, MentionForm::Named),
{
    strip(text, MentionForm::Named)
}

/// Whether `text` mentions the user `id`.
pub open spec fn mentions(text: Seq<char>, id: Seq<char>) -> bool {
    occurs("<@"@ + id + ">"@, text)
}

/// Check whether the message text contains a mention of the given bot user ID.
pub fn contains_bot_mention(text: &str, bot_user_id: &str) -> (r: bool)
    ensures
        r == mentions(text@, bot_user_id@),
{
    let pattern = chained("<@", bot_user_id, ">");
    contains(text, pattern.as_str())
}

/// Whether `channel` is the ID of a direct message channel.
pub open spec fn direct(channel: Seq<char>) -> bool {
    channel.len() > 0 && channel[0] == 'D'
}

/// DMs have channel IDs starting with 'D'.
pub fn is_dm(channel_id: &str) -> (r: bool)
    ensures
        r == direct(channel_id@),
{
    proof {
        reveal_strlit("D");
    }
    let r = strip_prefix(channel_id, "D").is_some();
    assert(direct(channel_id@) ==> "D"@.is_prefix_of(channel_id@));
    r
}

/// The event that an envelope carries.
pub open spec fn event_of(envelope: JsonTree) -> JsonTree {
    envelope.field("payload"@).field("event"@)
}

/// Whether an envelope carries a message that someone wrote: an event of the
/// events API that is a mention of the app, or a message of no subtype (edits,
/// deletions and the messages of bots have one).
pub open spec fn written(envelope: JsonTree) -> bool {
    let kind = event_of(envelope).field("type"@).as_str();
    &&& envelope.field("type"@).as_str() == Some("events_api"@)
    &&& kind == Some("message"@) || kind == Some("app_mention"@)
    &&& kind == Some("message"@) ==> event_of(envelope).field("subtype"@).as_str() is None
}

/// Whether a message in `channel` with the text `text` is meant for the bot:
/// in channels only if the bot is mentioned, in direct messages always.
pub open spec fn addressed(channel: Seq<char>, text: Seq<char>, bot: Seq<char>) -> bool {
    direct(channel) || mentions(text, bot)
}

/// The message that an envelope delivers to the bot, if it delivers one: it is
/// written by someone else, meant for the bot, and not empty without its
/// mentions. The thread is the one that the message is in, or the one that it
/// would start.
pub open spec fn delivered(envelope: JsonTree, bot: Seq<char>) -> Option<Inbound> {
    let event = event_of(envelope);
    match (
        event.field("user"@).as_str(),
        event.field("text"@).as_str(),
        event.field("channel"@).as_str(),
    ) {
        (Some(user), Some(text), Some(channel)) => {
            let clean = stripped(text, MentionForm::Named);
            if written(envelope) && user != bot && addressed(channel, text, bot) && clean.len()
                > 0 {
                Some(
                    Inbound {
                        platform: "slack"@,
                        channel_id: channel,
                        thread_id: match event.field("thread_ts"@).as_str() {
                            Some(thread) => Some(thread),
                            None => event.field("ts"@).as_str(),
                        },
                        sender_id: user,
                        text: clean,
                    },
                )
            } else {
                None
            }
        },
        _ => None,
    }
}

/// The message that an envelope delivers to the bot.
pub fn envelope_message(envelope: &Json, bot_user_id: &str) -> (r: Option<InboundMessage>)
    ensures
        inbound_option(r) == delivered(envelope@, bot_user_id@),
{
    // Only handle events_api messages.
    if !envelope.field("type").is_word("events_api") {
        return None;
    }
    let event = envelope.field("payload").field("event");
    let kind = event.field("type");
    // Accept "message" and "app_mention" events.
    if !kind.is_word("message") && !kind.is_word("app_mention") {
        return None;
    }
    // Skip message subtypes (edits, deletes, bot_message, etc).
    if kind.is_word("message") && event.field("subtype").as_str().is_some() {
        return None;
    }
    let user = match event.field("user").as_str() {
        Some(user) => user,
        None => return None,
    };
    if same_text(user, bot_user_id) {
        return None;
    }
    let raw_text = match event.field("text").as_str() {
        Some(text) => text,
        None => return None,
    };
    let channel_id = match event.field("channel").as_str() {
        Some(channel) => channel,
        None => return None,
    };
    // In channels: only respond if the bot is @mentioned.
    // In DMs: always respond.
    if !is_dm(channel_id) && !contains_bot_mention(raw_text, bot_user_id) {
        return None;
    }
    // Strip @mentions from the text before sending to the agent.
    let clean_text = strip_mentions(raw_text);
    if clean_text.as_str().is_empty() {
        return None;
    }
    // Use the message ts as thread_id so replies go to a thread.
    // If already in a thread, use the existing thread_ts.
    let thread_id = match event.field("thread_ts").to_text() {
        Some(thread) => Some(thread),
        None => event.field("ts").to_text(),
    };
    Some(
        InboundMessage {
            platform: "slack",
            channel_id: channel_id.to_owned(),
            thread_id,
            sender_id: user.to_owned(),
            text: clean_text,
        },
    )
}

/// What acknowledges an envelope: its ID. An envelope without one is not
/// acknowledged.
pub open spec fn acknowledgement(envelope: JsonTree) -> Option<JsonTree> {
    match envelope.field("envelope_id"@).as_str() {
        Some(id) => Some(JsonTree::Object(map!["envelope_id"@ => JsonTree::Text(id)])),
        None => None,
    }
}

/// The text that acknowledges an envelope.
pub fn envelope_ack(envelope: &Json) -> (r: Option<String>)
    ensures
        match acknowledgement(envelope@) {
            Some(ack) => r is Some && writes(r->0@, ack),
            None => r is None,
        },
{
    match envelope.field("envelope_id").as_str() {
        Some(id) => {
            proof {
                reveal_with_fuel(JsonTree::plain, 2);
            }
            Some(payload_text(&object_of_one("envelope_id", text_value(id))))
        },
        None => None,
    }
}

/// A frame of the Socket Mode connection.
pub enum Frame {
    Text(String),
    Ping(Vec<u8>),
    /// The connection is closing.
    Close,
    Other,
    /// Reading failed.
    Failed,
}

/// What to do about a frame.
pub enum FrameStep {
    Skip,
    /// Answer a ping with its payload.
    Pong(Vec<u8>),
    /// Stop reading.
    Stop,
    /// Send the acknowledgement, if any, and then hand on the message, if any.
    Envelope { ack: Option<String>, inbound: Option<InboundMessage> },
}

/// What to do about the text frame `text`: an envelope is acknowledged whatever
/// it carries, and text that is no JSON is skipped.
pub open spec fn text_step(text: Seq<char>, bot: Seq<char>, step: FrameStep) -> bool {
    match json_outcome(text) {
        Err(_) => step is Skip,
        Ok(envelope) => match step {
            FrameStep::Envelope { ack, inbound } => {
                &&& match acknowledgement(envelope) {
                    Some(tree) => ack is Some && writes(ack->0@, tree),
                    None => ack is None,
                }
                &&& inbound_option(inbound) == delivered(envelope, bot)
            },
            _ => false,
        },
    }
}

/// Decides what to do about a frame.
pub fn on_frame(frame: Frame, bot_user_id: &str) -> (step: FrameStep)
    ensures
        match frame {
            Frame::Text(text) => text_step(text@, bot_user_id@, step),
            Frame::Ping(payload) => step == FrameStep::Pong(payload),
            Frame::Close | Frame::Failed => step is Stop,
            Frame::Other => step is Skip,
        },
{
    match frame {
        Frame::Text(text) => match Json::parse(text.as_str()) {
            Ok(envelope) => {
                let ack = envelope_ack(&envelope);
                let inbound = envelope_message(&envelope, bot_user_id);
                FrameStep::Envelope { ack, inbound }
            },
            Err(_) => FrameStep::Skip,
        },
        Frame::Ping(payload) => FrameStep::Pong(payload),
        Frame::Close => FrameStep::Stop,
        Frame::Failed => FrameStep::Stop,
        Frame::Other => FrameStep::Skip,
    }
}

/// Why a request to the web API failed.
#[derive(Debug)]
pub enum SlackError {
    /// The reply is no JSON.
    Unreadable(String),
    /// The reply to `auth.test` names no user.
    NoUserId,
    /// `apps.connections.open` was refused, with the error in the reply.
    OpenRefused(String),
    /// The reply to `apps.connections.open` has no URL.
    NoUrl,
    /// `chat.postMessage` was refused, with the error in the reply.
    PostRefused(String),
}

impl SlackError {
    /// What the error says.
    pub open spec fn says(self) -> Seq<char> {
        match self {
            SlackError::Unreadable(message) => message@,
            SlackError::NoUserId => "auth.test did not return user_id"@,
            SlackError::OpenRefused(error) => "apps.connections.open failed: "@ + error@,
            SlackError::NoUrl => "missing url in response"@,
            SlackError::PostRefused(error) => "chat.postMessage failed: "@ + error@,
        }
    }

    /// What the error says.
    pub fn message(&self) -> (r: String)
        ensures
            r@ == self.says(),
    {
        match self {
            SlackError::Unreadable(message) => message.clone(),
            SlackError::NoUserId => "auth.test did not return user_id".to_owned(),
            SlackError::OpenRefused(error) => {
                let mut out = "apps.connections.open failed: ".to_owned();
                out.append(error.as_str());
                out
            },
            SlackError::NoUrl => "missing url in response".to_owned(),
            SlackError::PostRefused(error) => {
                let mut out = "chat.postMessage failed: ".to_owned();
                out.append(error.as_str());
                out
            },
        }
    }
}

/// The user ID that a reply to `auth.test` names.
pub fn named_user(reply: &Json) -> (r: Result<String, SlackError>)
    ensures
        match reply@.field("user_id"@).as_str() {
            Some(id) => r matches Ok(user) && user@ == id,
            None => r matches Err(SlackError::NoUserId),
        },
{
    match reply.field("user_id").to_text() {
        Some(id) => Ok(id),
        None => Err(SlackError::NoUserId),
    }
}

/// The bot's user ID out of the reply to `auth.test`.
pub fn bot_user_id(body: &str) -> (r: Result<String, SlackError>)
    ensures
        match json_outcome(body@) {
            Err(message) => r matches Err(SlackError::Unreadable(m)) && m@ == message,
            Ok(reply) => match reply.field("user_id"@).as_str() {
                Some(id) => r matches Ok(user) && user@ == id,
                None => r matches Err(SlackError::NoUserId),
            },
        },
{
    match Json::parse(body) {
        Ok(reply) => named_user(&reply),
        Err(message) => Err(SlackError::Unreadable(message)),
    }
}

/// Whether a reply of the web API says that the request was carried out.
pub open spec fn carried_out(reply: JsonTree) -> bool {
    reply.field("ok"@).as_bool() == Some(true)
}

/// Whether a reply of the web API says that the request was carried out.
pub fn is_ok(reply: &Json) -> (r: bool)
    ensures
        r == carried_out(reply@),
{
    match reply.field("ok").as_bool() {
        Some(ok) => ok,
        None => false,
    }
}

/// The URL that a reply to `apps.connections.open` offers.
pub fn offered_url(reply: &Json) -> (r: Result<String, SlackError>)
    ensures
        match reply@.field("url"@).as_str() {
            Some(url) => r matches Ok(u) && u@ == url,
            None => r matches Err(SlackError::NoUrl),
        },
{
    match reply.field("url").to_text() {
        Some(url) => Ok(url),
        None => Err(SlackError::NoUrl),
    }
}

/// The URL of the Socket Mode connection out of the reply to
/// `apps.connections.open`.
pub fn socket_url(body: &str) -> (r: Result<String, SlackError>)
    ensures
        match json_outcome(body@) {
            Err(message) => r matches Err(SlackError::Unreadable(m)) && m@ == message,
            Ok(reply) => if !carried_out(reply) {
                r matches Err(SlackError::OpenRefused(e)) && e@ == json_text(
                    reply.field("error"@),
                )
            } else {
                match reply.field("url"@).as_str() {
                    Some(url) => r matches Ok(u) && u@ == url,
                    None => r matches Err(SlackError::NoUrl),
                }
            },
        },
{
    match Reply::read(body) {
        Ok(reply) => if !is_ok(reply.document()) {
            Err(SlackError::OpenRefused(reply.field_text("error")))
        } else {
            offered_url(reply.document())
        },
        Err(message) => Err(SlackError::Unreadable(message)),
    }
}

/// What the reply to `chat.postMessage` comes to.
pub fn post_result(body: &str) -> (r: Result<(), SlackError>)
    ensures
        match json_outcome(body@) {
            Err(message) => r matches Err(SlackError::Unreadable(m)) && m@ == message,
            Ok(reply) => if carried_out(reply) {
                r is Ok
            } else {
                r matches Err(SlackError::PostRefused(e)) && e@ == json_text(
                    reply.field("error"@),
                )
            },
        },
{
    match Reply::read(body) {
        Ok(reply) => if is_ok(reply.document()) {
            Ok(())
        } else {
            Err(SlackError::PostRefused(reply.field_text("error")))
        },
        Err(message) => Err(SlackError::Unreadable(message)),
    }
}

/// The body of `chat.postMessage`: `text` for `channel`, in `thread` if given.
pub open spec fn post(
    channel: Seq<char>,
    text: Seq<char>,
    thread: Option<Seq<char>>,
) -> JsonTree {
    match thread {
        Some(ts) => JsonTree::Object(
            map![
                "channel"@ => JsonTree::Text(channel),
                "text"@ => JsonTree::Text(text),
                "thread_ts"@ => JsonTree::Text(ts),
            ],
        ),
        None => JsonTree::Object(
            map!["channel"@ => JsonTree::Text(channel), "text"@ => JsonTree::Text(text)],
        ),
    }
}

/// The body of `chat.postMessage`.
pub fn post_body(channel_id: &str, text: &str, thread_id: Option<&str>) -> (r: String)
    ensures
        writes(r@, post(channel_id@, text@, str_option(thread_id))),
{
    proof {
        reveal_with_fuel(JsonTree::plain, 2);
        reveal_strlit("channel");
        reveal_strlit("text");
        reveal_strlit("thread_ts");
        assert("channel"@.len() != "text"@.len());
        assert("channel"@.len() != "thread_ts"@.len());
        assert("text"@.len() != "thread_ts"@.len());
    }
    let channel = ("channel", text_value(channel_id));
    let content = ("text", text_value(text));
    match thread_id {
        Some(ts) => payload_text(&object_of_three(channel, content, ("thread_ts", text_value(ts)))),
        None => payload_text(&object_of_two(channel, content)),
    }
}

/// Only messages that are meant for the bot are delivered: what it wrote itself
/// is not, a message in a channel is only if it mentions the bot, and what is
/// delivered is never empty.
pub proof fn only_addressed_messages(envelope: JsonTree, bot: Seq<char>)
    ensures
        delivered(envelope, bot) matches Some(message) ==> {
            &&& message.platform == "slack"@
            &&& message.sender_id != bot
            &&& message.text.len() > 0
            &&& direct(message.channel_id) || mentions(
                event_of(envelope).field("text"@).as_str()->0,
                bot,
            )
        },
{
}

/// A direct message that someone else wrote is delivered without a mention,
/// unless there is nothing in it but mentions.
pub proof fn direct_messages_are_delivered(envelope: JsonTree, bot: Seq<char>)
    requires
        written(envelope),
        event_of(envelope).field("user"@).as_str() is Some,
        event_of(envelope).field("user"@).as_str() != Some(bot),
        event_of(envelope).field("channel"@).as_str() is Some,
        direct(event_of(envelope).field("channel"@).as_str()->0),
        event_of(envelope).field("text"@).as_str() is Some,
        stripped(event_of(envelope).field("text"@).as_str()->0, MentionForm::Named).len() > 0,
    ensures
        delivered(envelope, bot) is Some,
{
}

/// A message in the thread that an earlier message started belongs to the
/// conversation of the earlier message.
pub proof fn threads_stay_together(first: JsonTree, later: JsonTree, bot: Seq<char>)
    requires
        delivered(first, bot) is Some,
        delivered(later, bot) is Some,
        event_of(first).field("channel"@) == event_of(later).field("channel"@),
        event_of(first).field("thread_ts"@).as_str() is None,
        event_of(first).field("ts"@).as_str() is Some,
        event_of(later).field("thread_ts"@) == event_of(first).field("ts"@),
    ensures
        key_of(delivered(later, bot)->0) == key_of(delivered(first, bot)->0),
{
}

/// An acknowledgement, read as JSON, names the envelope that it acknowledges.
pub proof fn acknowledgements_name_their_envelope(envelope: JsonTree, text: Seq<char>)
    requires
        acknowledgement(envelope) is Some,
        writes(text, acknowledgement(envelope)->0),
    ensures
        json_outcome(text) is Ok,
        json_outcome(text)->Ok_0.field("envelope_id"@) == envelope.field("envelope_id"@),
{
}

/// The requests go to these places.
pub proof fn requests_go_to_the_web_api()
    ensures
        AUTH_TEST_URL@ == "https://slack.com/api/auth.test"@,
        OPEN_URL@ == "https://slack.com/api/apps.connections.open"@,
        POST_MESSAGE_URL@ == "https://slack.com/api/chat.postMessage"@,
{
}

/// A channel gives back the tokens that it was made with.
pub proof fn channels_keep_their_tokens(
    bot_token: String,
    app_token: String,
    channel: SlackChannel,
    bot: &str,
    app: &str,
    platform: &str,
)
    requires
        call_ensures(SlackChannel::new, (bot_token, app_token), channel),
        call_ensures(SlackChannel::bot_token, (&channel,), bot),
        call_ensures(SlackChannel::app_token, (&channel,), app),
        call_ensures(SlackChannel::platform, (&channel,), platform),
    ensures
        bot@ == bot_token@,
        app@ == app_token@,
        platform@ == "slack"@,
{
}

/// Stripping leaves the words without the mentions, with single spaces between
/// them. A bot is mentioned where `<@`, its ID and `>` stand anywhere in a text,
/// and a channel is one of direct messages if its ID begins with `D`.
pub proof fn texts_and_channels_are_told_apart(
    text: &str,
    id: &str,
    kept: String,
    mentioned: bool,
    dm: bool,
)
    requires
        call_ensures(strip_mentions, (text,), kept),
        call_ensures(contains_bot_mention, (text, id), mentioned),
        call_ensures(is_dm, (id,), dm),
    ensures
        kept@ == joined(tokens(without_mentions(text@, MentionForm::Named), false), " "@),
        mentioned == surrounds(text@, "<@"@ + id@ + ">"@),
        dm == (id@.len() > 0 && id@[0] == 'D'),
{
    occurring_is_being_surrounded("<@"@ + id@ + ">"@, text@);
}

/// Every message that a user other than the bot wrote, that is, every mention of
/// the app and every message without a subtype in the events API, is delivered if
/// it is in a direct message channel or mentions the bot anywhere in its text,
/// unless nothing is left of it without its mentions. It is delivered with its
/// own channel, thread, author and words.
pub proof fn messages_to_the_bot_are_delivered(
    envelope: &Json,
    bot: &str,
    user: Seq<char>,
    text: Seq<char>,
    channel: Seq<char>,
    delivery: Option<InboundMessage>,
)
    requires
        call_ensures(envelope_message, (envelope, bot), delivery),
        envelope@.field("type"@) == JsonTree::Text("events_api"@),
        envelope@.field("payload"@).field("event"@).field("type"@) == JsonTree::Text(
            "app_mention"@,
        ) || (envelope@.field("payload"@).field("event"@).field("type"@) == JsonTree::Text(
            "message"@,
        ) && !(envelope@.field("payload"@).field("event"@).field("subtype"@) is Text)),
        envelope@.field("payload"@).field("event"@).field("user"@) == JsonTree::Text(user),
        envelope@.field("payload"@).field("event"@).field("text"@) == JsonTree::Text(text),
        envelope@.field("payload"@).field("event"@).field("channel"@) == JsonTree::Text(channel),
        user != bot@,
        (channel.len() > 0 && channel[0] == 'D') || occurs("<@"@ + bot@ + ">"@, text),
        tokens(without_mentions(text, MentionForm::Named), false).len() > 0,
    ensures
        ({
            let event = envelope@.field("payload"@).field("event"@);
            &&& delivery is Some
            &&& delivery->0.platform@ == "slack"@
            &&& delivery->0.channel_id@ == channel
            &&& delivery->0.sender_id@ == user
            &&& delivery->0.text@ == joined(
                tokens(without_mentions(text, MentionForm::Named), false),
                " "@,
            )
            &&& match (event.field("thread_ts"@), event.field("ts"@)) {
                (JsonTree::Text(thread), _) => delivery->0.thread_id is Some
                    && delivery->0.thread_id->0@ == thread,
                (_, JsonTree::Text(ts)) => delivery->0.thread_id is Some
                    && delivery->0.thread_id->0@ == ts,
                _ => delivery->0.thread_id is None,
            }
        }),
{
    words_make_text(text, MentionForm::Named);
    reveal_strlit("message");
    reveal_strlit("app_mention");
    assert("message"@.len() != "app_mention"@.len());
    assert(delivered(envelope@, bot@) is Some);
    assert(delivery is Some);
    assert(delivery->0@ == delivered(envelope@, bot@)->0);
}

/// Nothing else is delivered: no event that no user wrote, none without an
/// author, a text or a channel, nothing by the bot itself, nothing in a channel
/// that does not mention the bot, and nothing that holds mentions alone.
pub proof fn nothing_else_is_delivered(
    envelope: &Json,
    bot: &str,
    delivery: Option<InboundMessage>,
)
    requires
        call_ensures(envelope_message, (envelope, bot), delivery),
        delivery is Some,
    ensures
        ({
            let event = envelope@.field("payload"@).field("event"@);
            &&& envelope@.field("type"@) == JsonTree::Text("events_api"@)
            &&& {
                ||| event.field("type"@) == JsonTree::Text("app_mention"@)
                ||| event.field("type"@) == JsonTree::Text("message"@) && !(event.field(
                    "subtype"@,
                ) is Text)
            }
            &&& event.field("user"@) is Text && event.field("user"@)->Text_0 != bot@
            &&& event.field("channel"@) is Text
            &&& event.field("text"@) is Text
            &&& {
                ||| event.field("channel"@)->Text_0.len() > 0 && event.field("channel"@)->Text_0[0]
                    == 'D'
                ||| occurs("<@"@ + bot@ + ">"@, event.field("text"@)->Text_0)
            }
            &&& tokens(
                without_mentions(event.field("text"@)->Text_0, MentionForm::Named),
                false,
            ).len() > 0
        }),
{
    let text = envelope@.field("payload"@).field("event"@).field("text"@).as_str()->0;
    if tokens(without_mentions(text, MentionForm::Named), false).len() == 0 {
        assert(stripped(text, MentionForm::Named).len() == 0);
    }
}

/// An envelope with an ID is acknowledged by an object that holds that ID and
/// nothing else. Without one it is not acknowledged.
pub proof fn acknowledgements_hold_the_id(envelope: &Json, ack: Option<String>)
    requires
        call_ensures(envelope_ack, (envelope,), ack),
    ensures
        ack is Some == envelope@.field("envelope_id"@) is Text,
        ack is Some ==> {
            let read = json_outcome(ack->0@);
            &&& read is Ok && read->Ok_0 is Object
            &&& read->Ok_0.field("envelope_id"@) == envelope@.field("envelope_id"@)
            &&& forall|key: Seq<char>|
                key != "envelope_id"@ ==> #[trigger] read->Ok_0.field(key) == JsonTree::Null
        },
{
}

/// Each kind of frame has its step. A text that is JSON is acknowledged and
/// delivered as its envelope is.
pub proof fn frames_have_their_steps(
    frame: Frame,
    bot: &str,
    envelope: &Json,
    ack: Option<String>,
    delivery: Option<InboundMessage>,
    step: FrameStep,
)
    requires
        call_ensures(on_frame, (frame, bot), step),
        frame matches Frame::Text(text) ==> (json_outcome(text@) is Ok ==> json_outcome(
            text@,
        )->Ok_0 == envelope@),
        call_ensures(envelope_ack, (envelope,), ack),
        call_ensures(envelope_message, (envelope, bot), delivery),
    ensures
        match frame {
            Frame::Ping(payload) => step matches FrameStep::Pong(p) && p@ == payload@,
            Frame::Close | Frame::Failed => step is Stop,
            Frame::Other => step is Skip,
            Frame::Text(text) => if json_outcome(text@) is Err {
                step is Skip
            } else {
                step matches FrameStep::Envelope { ack: a, inbound } && a is Some == ack is Some
                    && (a is Some ==> a->0@ == ack->0@) && inbound_option(inbound)
                    == inbound_option(delivery)
            },
        },
{
}

/// What each error says.
pub proof fn errors_say_what_went_wrong(error: &SlackError, said: String)
    requires
        call_ensures(SlackError::message, (error,), said),
    ensures
        match *error {
            SlackError::Unreadable(message) => said@ == message@,
            SlackError::NoUserId => said@ == "auth.test did not return user_id"@,
            SlackError::OpenRefused(e) => said@ == "apps.connections.open failed: "@ + e@,
            SlackError::NoUrl => said@ == "missing url in response"@,
            SlackError::PostRefused(e) => said@ == "chat.postMessage failed: "@ + e@,
        },
{
}

/// What the replies of the web API come to: an ID or a URL where the reply holds
/// one, nothing where a message was posted, and an error that names what is
/// wrong. Only `true` under `ok` means that a request was carried out.
pub proof fn replies_are_taken_at_their_word(
    body: &str,
    user: Result<String, SlackError>,
    url: Result<String, SlackError>,
    posted: Result<(), SlackError>,
)
    requires
        call_ensures(bot_user_id, (body,), user),
        call_ensures(socket_url, (body,), url),
        call_ensures(post_result, (body,), posted),
    ensures
        match json_outcome(body@) {
            Err(message) => {
                &&& user matches Err(SlackError::Unreadable(m)) && m@ == message
                &&& url matches Err(SlackError::Unreadable(m)) && m@ == message
                &&& posted matches Err(SlackError::Unreadable(m)) && m@ == message
            },
            Ok(reply) => {
                let ok = reply.field("ok"@) == JsonTree::Bool(true);
                let error = json_text(reply.field("error"@));
                &&& match reply.field("user_id"@) {
                    JsonTree::Text(id) => user matches Ok(u) && u@ == id,
                    _ => user matches Err(SlackError::NoUserId),
                }
                &&& !ok ==> (url matches Err(SlackError::OpenRefused(e)) && e@ == error)
                &&& !ok ==> (posted matches Err(SlackError::PostRefused(e)) && e@ == error)
                &&& ok ==> posted is Ok
                &&& ok ==> match reply.field("url"@) {
                    JsonTree::Text(u) => url matches Ok(found) && found@ == u,
                    _ => url matches Err(SlackError::NoUrl),
                }
            },
        },
{
}

/// What is posted, read as JSON, holds the channel, the text and, where there is
/// one, the thread, each as it was given, and nothing else.
pub proof fn posts_hold_what_was_given(
    channel: &str,
    text: &str,
    thread: Option<&str>,
    body: String,
)
    requires
        call_ensures(post_body, (channel, text, thread), body),
    ensures
        ({
            let read = json_outcome(body@);
            &&& read is Ok && read->Ok_0 is Object
            &&& read->Ok_0.field("channel"@) == JsonTree::Text(channel@)
            &&& read->Ok_0.field("text"@) == JsonTree::Text(text@)
            &&& read->Ok_0.field("thread_ts"@) == (match thread {
                Some(ts) => JsonTree::Text(ts@),
                None => JsonTree::Null,
            })
            &&& forall|key: Seq<char>|
                key != "channel"@ && key != "text"@ && key != "thread_ts"@
                    ==> #[trigger] read->Ok_0.field(key) == JsonTree::Null
        }),
{
    reveal_strlit("channel");
    reveal_strlit("text");
    reveal_strlit("thread_ts");
    assert("channel"@.len() != "text"@.len());
    assert("channel"@.len() != "thread_ts"@.len());
    assert("text"@.len() != "thread_ts"@.len());
}

}
