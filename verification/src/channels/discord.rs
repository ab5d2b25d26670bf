//! Discord: the frames that its gateway sends, and the requests to its web API
//! with their replies.

use super::{inbound_option, Inbound, InboundMessage};
use crate::gateway::key_of;
use crate::json::{
    json_outcome, object_of_one, object_of_three, object_of_two, payload_text, text_value,
    value_of, writes, Json, JsonTree, Part,
};
use crate::mention::{strip, stripped, without_mentions, words_make_text, MentionForm};
use crate::text::{
    chained, contains, joined, occurring_is_being_surrounded, occurs, same_text, str_option,
    surrounds, text_option, tokens,
};
use vstd::prelude::*;
use vstd::string::*;

verus! {

/// Discord Gateway intents:
/// GUILDS (1<<0) | GUILD_MESSAGES (1<<9) | DIRECT_MESSAGES (1<<12) | MESSAGE_CONTENT (1<<15)
pub const INTENTS: u64 = 37377;

/// The Discord platform, with the token of the bot.
pub struct DiscordChannel {
    bot_token: String,
}

impl DiscordChannel {
    pub closed spec fn bot(self) -> Seq<char> {
        self.bot_token@
    }

    pub fn new(bot_token: String) -> (r: Self)
        ensures
            r.bot() == bot_token@,
    {
        DiscordChannel { bot_token }
    }

    /// The token that identifies the bot.
    pub fn bot_token(&self) -> (r: &str)
        ensures
            r@ == self.bot(),
    {
        self.bot_token.as_str()
    }

    /// The name of the platform.
    pub fn platform(&self) -> (r: &'static str)
        ensures
            r@ == "discord"@,
    {
        "discord"
    }

    /// The `Authorization` header of a request to the web API.
    pub fn authorization(&self) -> (r: String)
        ensures
            r@ == "Bot "@ + self.bot(),
    {
        let mut out = "Bot ".to_owned();
        out.append(self.bot_token.as_str());
        out
    }
}

/// Strip all `<@123456>` mentions from text and normalize whitespace.
pub fn strip_mentions(text: &str) -> (r: String)
    ensures
        r@ == stripped(text@, MentionForm::Numbered),
{
    strip(text, MentionForm::Numbered)
}

/// Whether `text` mentions the user `id`, in either way to write it.
pub open spec fn mentions(text: Seq<char>, id: Seq<char>) -> bool {
    occurs("<@"@ + id + ">"@, text) || occurs("<@!"@ + id + ">"@, text)
}

/// Check if message text mentions the given bot user ID.
pub fn contains_bot_mention(text: &str, bot_user_id: &str) -> (r: bool)
    ensures
        r == mentions(text@, bot_user_id@),
{
    let plain = chained("<@", bot_user_id, ">");
    let nick = chained("<@!", bot_user_id, ">");
    contains(text, plain.as_str()) || contains(text, nick.as_str())
}

/// Whether a message came in a direct message channel.
pub open spec fn direct(d: JsonTree) -> bool {
    d.field("guild_id"@) is Null
}

/// DM channels in Discord have guild_id absent or null.
pub fn is_dm_event(d: &Json) -> (r: bool)
    ensures
        r == direct(d@),
{
    d.field("guild_id").is_null()
}

/// Who wrote a message: an empty ID where the message does not say.
pub open spec fn author_of(d: JsonTree) -> Seq<char> {
    match d.field("author"@).field("id"@).as_str() {
        Some(id) => id,
        None => Seq::empty(),
    }
}

/// Whether a bot wrote the message: any that is marked as one, or our own.
pub open spec fn by_bot(d: JsonTree, bot: Option<Seq<char>>) -> bool {
    d.field("author"@).field("bot"@).as_bool() == Some(true) || bot == Some(author_of(d))
}

/// Whether the message replies to one of our bot's messages.
pub open spec fn replies_to_bot(d: JsonTree, bot: Option<Seq<char>>) -> bool {
    bot is Some && d.field("referenced_message"@).field("author"@).field("id"@).as_str() == bot
}

/// Whether a message with the text `content` is meant for our bot: in direct
/// messages always, elsewhere if it mentions the bot or replies to it.
pub open spec fn addressed(d: JsonTree, content: Seq<char>, bot: Option<Seq<char>>) -> bool {
    ||| direct(d)
    ||| bot is Some && mentions(content, bot->0)
    ||| replies_to_bot(d, bot)
}

/// The message to which a message refers.
pub open spec fn reference_of(d: JsonTree) -> Option<Seq<char>> {
    d.field("message_reference"@).field("message_id"@).as_str()
}

/// The conversation of a message: direct messages share one. Elsewhere it is
/// known by its original message. Every message that we send refers to that
/// one, so a reply to us belongs to the conversation that our message refers
/// to; any other message belongs to the one that it refers to itself, or starts
/// a conversation.
pub open spec fn thread_of(d: JsonTree, bot: Option<Seq<char>>) -> Option<Seq<char>> {
    let original = if replies_to_bot(d, bot) {
        reference_of(d.field("referenced_message"@))
    } else {
        None
    };
    if direct(d) {
        None
    } else if original is Some {
        original
    } else if reference_of(d) is Some {
        reference_of(d)
    } else {
        d.field("id"@).as_str()
    }
}

/// The message that an event delivers to our bot, if it delivers one: it is
/// written by no bot, meant for ours, and not empty without its mentions.
pub open spec fn delivered(d: JsonTree, bot: Option<Seq<char>>) -> Option<Inbound> {
    match (d.field("content"@).as_str(), d.field("channel_id"@).as_str()) {
        (Some(content), Some(channel)) => {
            let clean = stripped(content, MentionForm::Numbered);
            if !by_bot(d, bot) && addressed(d, content, bot) && clean.len() > 0 {
                Some(
                    Inbound {
                        platform: "discord"@,
                        channel_id: channel,
                        thread_id: thread_of(d, bot),
                        sender_id: author_of(d),
                        text: clean,
                    },
                )
            } else {
                None
            }
        },
        _ => None,
    }
}

/// The message that the event `d` delivers to our bot.
pub fn inbound_message(d: &Json, bot_user_id: Option<&str>) -> (r: Option<InboundMessage>)
    ensures
        inbound_option(r) == delivered(d@, str_option(bot_user_id)),
{
    let author = d.field("author");
    let author_id: &str = match author.field("id").as_str() {
        Some(id) => id,
        None => "",
    };
    proof {
        reveal_strlit("");
        assert(author_id@ =~= author_of(d@));
    }
    if author.field("bot").as_bool() == Some(true) {
        return None;
    }
    if let Some(id) = bot_user_id {
        if same_text(id, author_id) {
            return None;
        }
    }
    let content = match d.field("content").as_str() {
        Some(content) => content,
        None => return None,
    };
    let channel_id = match d.field("channel_id").as_str() {
        Some(channel) => channel,
        None => return None,
    };
    let is_dm = is_dm_event(d);
    let referenced = d.field("referenced_message");
    let reply_to_bot = match bot_user_id {
        Some(id) => referenced.field("author").field("id").is_word(id),
        None => false,
    };
    let bot_mentioned = match bot_user_id {
        Some(id) => contains_bot_mention(content, id),
        None => false,
    };
    if !is_dm && !bot_mentioned && !reply_to_bot {
        return None;
    }
    let text = strip_mentions(content);
    if text.as_str().is_empty() {
        return None;
    }
    let thread_id = if is_dm {
        None
    } else {
        // Every message we send references the conversation's original message.
        // Follow that reference when a user replies to us, so approval answers
        // and followups reach the same session instead of starting a new one.
        let original_id = if reply_to_bot {
            referenced.field("message_reference").field("message_id").to_text()
        } else {
            None
        };
        match original_id {
            Some(id) => Some(id),
            None => match d.field("message_reference").field("message_id").to_text() {
                Some(id) => Some(id),
                None => d.field("id").to_text(),
            },
        }
    };
    Some(
        InboundMessage {
            platform: "discord",
            channel_id: channel_id.to_owned(),
            thread_id,
            sender_id: author_id.to_owned(),
            text,
        },
    )
}

/// The base of the web API's URLs.
pub open spec fn api_base() -> Seq<char> {
    "https://discord.com/api/v10"@
}

/// Where the URL of the gateway is asked for.
pub fn gateway_request_url() -> (r: String)
    ensures
        r@ == api_base() + "/gateway/bot"@,
{
    let mut out = "https://discord.com/api/v10".to_owned();
    out.append("/gateway/bot");
    out
}

/// Where messages for a channel are posted.
pub fn messages_url(channel_id: &str) -> (r: String)
    ensures
        r@ == api_base() + "/channels/"@ + channel_id@ + "/messages"@,
{
    let mut out = "https://discord.com/api/v10".to_owned();
    out.append("/channels/");
    out.append(channel_id);
    out.append("/messages");
    out
}

/// Why connecting or sending failed.
#[derive(Debug)]
pub enum DiscordError {
    /// A reply or a frame is no JSON.
    Unreadable(String),
    /// The reply has no gateway URL.
    NoGatewayUrl,
    /// Something other than a text frame came before Hello.
    ClosedBeforeHello,
    /// Hello has no heartbeat interval.
    NoHeartbeatInterval,
    /// A message was refused, with the body of the reply.
    SendFailed(String),
}

impl DiscordError {
    /// What the error says.
    pub open spec fn says(self) -> Seq<char> {
        match self {
            DiscordError::Unreadable(message) => message@,
            DiscordError::NoGatewayUrl => "missing gateway url"@,
            DiscordError::ClosedBeforeHello => "Discord Gateway closed before Hello"@,
            DiscordError::NoHeartbeatInterval => "missing heartbeat_interval"@,
            DiscordError::SendFailed(body) => "Discord send failed: "@ + body@,
        }
    }

    /// What the error says.
    pub fn message(&self) -> (r: String)
        ensures
            r@ == self.says(),
    {
        match self {
            DiscordError::Unreadable(message) => message.clone(),
            DiscordError::NoGatewayUrl => "missing gateway url".to_owned(),
            DiscordError::ClosedBeforeHello => "Discord Gateway closed before Hello".to_owned(),
            DiscordError::NoHeartbeatInterval => "missing heartbeat_interval".to_owned(),
            DiscordError::SendFailed(body) => {
                let mut out = "Discord send failed: ".to_owned();
                out.append(body.as_str());
                out
            },
        }
    }
}

/// The URL to connect to, out of the reply that names the gateway.
pub fn offered_gateway(reply: &Json) -> (r: Result<String, DiscordError>)
    ensures
        match reply@.field("url"@).as_str() {
            Some(url) => r matches Ok(u) && u@ == url + "/?v=10&encoding=json"@,
            None => r matches Err(DiscordError::NoGatewayUrl),
        },
{
    match reply.field("url").to_text() {
        Some(url) => {
            let mut out = url;
            out.append("/?v=10&encoding=json");
            Ok(out)
        },
        None => Err(DiscordError::NoGatewayUrl),
    }
}

/// The URL to connect to, out of the body of the reply that names the gateway.
pub fn gateway_url(body: &str) -> (r: Result<String, DiscordError>)
    ensures
        match json_outcome(body@) {
            Err(message) => r matches Err(DiscordError::Unreadable(m)) && m@ == message,
            Ok(reply) => match reply.field("url"@).as_str() {
                Some(url) => r matches Ok(u) && u@ == url + "/?v=10&encoding=json"@,
                None => r matches Err(DiscordError::NoGatewayUrl),
            },
        },
{
    match Json::parse(body) {
        Ok(reply) => offered_gateway(&reply),
        Err(message) => Err(DiscordError::Unreadable(message)),
    }
}

/// A frame of the gateway connection.
pub enum Frame {
    Text(String),
    /// The connection is closing.
    Close,
    Other,
    /// Reading failed.
    Failed,
}

/// What a payload means to a connection that waits for Hello: nothing unless
/// it is Hello, which gives the heartbeat interval in milliseconds.
pub open spec fn hello_of(payload: JsonTree) -> Result<Option<u64>, DiscordError> {
    if payload.field("op"@).as_u64() != Some(10u64) {
        Ok(None)
    } else {
        match payload.field("d"@).field("heartbeat_interval"@).as_u64() {
            Some(interval) => Ok(Some(interval)),
            None => Err(DiscordError::NoHeartbeatInterval),
        }
    }
}

/// What a payload means to a connection that waits for Hello.
pub fn hello_payload(payload: &Json) -> (r: Result<Option<u64>, DiscordError>)
    ensures
        r == hello_of(payload@),
{
    if payload.field("op").as_u64() != Some(10) {
        Ok(None)
    } else {
        match payload.field("d").field("heartbeat_interval").as_u64() {
            Some(interval) => Ok(Some(interval)),
            None => Err(DiscordError::NoHeartbeatInterval),
        }
    }
}

/// What a frame means to a connection that waits for Hello; `None` is the end
/// of the connection. Without a result the connection waits on.
pub fn hello_frame(frame: Option<Frame>) -> (r: Result<Option<u64>, DiscordError>)
    ensures
        match frame {
            Some(Frame::Text(text)) => match json_outcome(text@) {
                Err(message) => r matches Err(DiscordError::Unreadable(m)) && m@ == message,
                Ok(payload) => r == hello_of(payload),
            },
            _ => r matches Err(DiscordError::ClosedBeforeHello),
        },
{
    match frame {
        Some(Frame::Text(text)) => match Json::parse(text.as_str()) {
            Ok(payload) => hello_payload(&payload),
            Err(message) => Err(DiscordError::Unreadable(message)),
        },
        _ => Err(DiscordError::ClosedBeforeHello),
    }
}

/// What a client on the system `os` says to identify itself.
pub open spec fn identify(token: Seq<char>, os: Seq<char>) -> JsonTree {
    JsonTree::Object(
        map![
            "op"@ => JsonTree::Unsigned(2),
            "d"@ => JsonTree::Object(
                map![
                    "token"@ => JsonTree::Text(token),
                    "intents"@ => JsonTree::Unsigned(INTENTS),
                    "properties"@ => JsonTree::Object(
                        map![
                            "os"@ => JsonTree::Text(os),
                            "browser"@ => JsonTree::Text("ante"@),
                            "device"@ => JsonTree::Text("ante"@),
                        ],
                    ),
                ],
            ),
        ],
    )
}

/// The payload that identifies the bot.
pub fn identify_payload(token: &str, os: &str) -> (r: String)
    ensures
        writes(r@, identify(token@, os@)),
{
    proof {
        reveal_with_fuel(JsonTree::plain, 4);
        reveal_strlit("os");
        reveal_strlit("browser");
        reveal_strlit("device");
        assert("os"@.len() != "browser"@.len());
        assert("os"@.len() != "device"@.len());
        assert("browser"@.len() != "device"@.len());
        reveal_strlit("token");
        reveal_strlit("intents");
        reveal_strlit("properties");
        assert("token"@.len() != "intents"@.len());
        assert("token"@.len() != "properties"@.len());
        assert("intents"@.len() != "properties"@.len());
        reveal_strlit("op");
        reveal_strlit("d");
        assert("op"@.len() != "d"@.len());
    }
    let properties = object_of_three(
        ("os", text_value(os)),
        ("browser", text_value("ante")),
        ("device", text_value("ante")),
    );
    let d = object_of_three(
        ("token", text_value(token)),
        ("intents", value_of(Part::Unsigned(INTENTS))),
        ("properties", properties),
    );
    payload_text(&object_of_two(("op", value_of(Part::Unsigned(2))), ("d", d)))
}

/// A heartbeat: it gives the last sequence number, where one has been seen.
pub open spec fn heartbeat(last_seq: u64) -> JsonTree {
    JsonTree::Object(
        map![
            "op"@ => JsonTree::Unsigned(1),
            "d"@ => if last_seq == 0 {
                JsonTree::Null
            } else {
                JsonTree::Unsigned(last_seq)
            },
        ],
    )
}

/// The payload of a heartbeat.
pub fn heartbeat_payload(last_seq: u64) -> (r: String)
    ensures
        writes(r@, heartbeat(last_seq)),
{
    proof {
        reveal_with_fuel(JsonTree::plain, 2);
        reveal_strlit("op");
        reveal_strlit("d");
        assert("op"@.len() != "d"@.len());
    }
    let d = if last_seq == 0 {
        value_of(Part::Null)
    } else {
        value_of(Part::Unsigned(last_seq))
    };
    payload_text(&object_of_two(("op", value_of(Part::Unsigned(1))), ("d", d)))
}

/// What has been learned from the frames of a connection.
pub struct DiscordSession {
    /// The bot's own user ID, once it is known.
    pub bot_user_id: Option<String>,
    /// The last sequence number; zero before there is one.
    pub last_seq: u64,
}

/// What to do about a frame.
pub enum FrameStep {
    Skip,
    /// Hand on a message.
    Deliver(InboundMessage),
    /// Stop reading.
    Stop,
}

/// The sequence number after a payload.
pub open spec fn next_seq(last_seq: u64, payload: JsonTree) -> u64 {
    match payload.field("s"@).as_u64() {
        Some(s) => s,
        None => last_seq,
    }
}

/// Whether a payload dispatches the event `name`. A payload without an opcode
/// counts as a dispatch.
pub open spec fn dispatches(payload: JsonTree, name: Seq<char>) -> bool {
    &&& payload.field("op"@).as_u64() is None || payload.field("op"@).as_u64() == Some(0u64)
    &&& payload.field("t"@).as_str() == Some(name)
}

/// The bot's user ID after a payload: the event READY gives it.
pub open spec fn next_bot(bot: Option<Seq<char>>, payload: JsonTree) -> Option<Seq<char>> {
    let id = payload.field("d"@).field("user"@).field("id"@).as_str();
    if dispatches(payload, "READY"@) && id is Some {
        id
    } else {
        bot
    }
}

/// The message that a payload delivers to the bot.
pub open spec fn payload_message(payload: JsonTree, bot: Option<Seq<char>>) -> Option<Inbound> {
    if dispatches(payload, "MESSAGE_CREATE"@) {
        delivered(payload.field("d"@), bot)
    } else {
        None
    }
}

/// Whether a payload ends the connection: a request to reconnect, or word that
/// the session is invalid.
pub open spec fn ends(payload: JsonTree) -> bool {
    payload.field("op"@).as_u64() == Some(7u64) || payload.field("op"@).as_u64() == Some(9u64)
}

/// Whether `step` is what to do about a payload.
pub open spec fn payload_step(payload: JsonTree, bot: Option<Seq<char>>, step: FrameStep) -> bool {
    match payload_message(payload, bot) {
        Some(message) => step matches FrameStep::Deliver(m) && m@ == message,
        None => if ends(payload) {
            step is Stop
        } else {
            step is Skip
        },
    }
}

impl DiscordSession {
    /// A connection of which nothing has been learned.
    pub fn new() -> (r: Self)
        ensures
            r.bot_user_id is None,
            r.last_seq == 0,
    {
        DiscordSession { bot_user_id: None, last_seq: 0 }
    }

    /// Decides what to do about a payload, and learns from it.
    pub fn on_payload(&mut self, payload: &Json) -> (step: FrameStep)
        ensures
            final(self).last_seq == next_seq(old(self).last_seq, payload@),
            text_option(final(self).bot_user_id) == next_bot(
                text_option(old(self).bot_user_id),
                payload@,
            ),
            payload_step(payload@, text_option(old(self).bot_user_id), step),
    {
        let op: u64 = match payload.field("op").as_u64() {
            Some(op) => op,
            None => 0,
        };
        // Track sequence number.
        if let Some(s) = payload.field("s").as_u64() {
            self.last_seq = s;
        }
        proof {
            reveal_strlit("READY");
            reveal_strlit("MESSAGE_CREATE");
            assert("READY"@.len() != "MESSAGE_CREATE"@.len());
        }
        if op == 0 {
            let event_type = payload.field("t");
            // Capture bot user id from READY.
            if event_type.is_word("READY") {
                if let Some(id) = payload.field("d").field("user").field("id").to_text() {
                    self.bot_user_id = Some(id);
                }
                return FrameStep::Skip;
            }
            if !event_type.is_word("MESSAGE_CREATE") {
                return FrameStep::Skip;
            }
            let bot: Option<&str> = match &self.bot_user_id {
                Some(id) => Some(id.as_str()),
                None => None,
            };
            match inbound_message(payload.field("d"), bot) {
                Some(message) => FrameStep::Deliver(message),
                None => FrameStep::Skip,
            }
        } else if op == 7 || op == 9 {
            // Reconnect request, or invalid session.
            FrameStep::Stop
        } else {
            FrameStep::Skip
        }
    }

    /// Decides what to do about a frame, and learns from it. Text that is no
    /// JSON is skipped.
    pub fn on_frame(&mut self, frame: Frame) -> (step: FrameStep)
        ensures
            match frame {
                Frame::Text(text) => match json_outcome(text@) {
                    Err(_) => step is Skip && *final(self) == *old(self),
                    Ok(payload) => {
                        &&& final(self).last_seq == next_seq(old(self).last_seq, payload)
                        &&& text_option(final(self).bot_user_id) == next_bot(
                            text_option(old(self).bot_user_id),
                            payload,
                        )
                        &&& payload_step(payload, text_option(old(self).bot_user_id), step)
                    },
                },
                Frame::Close | Frame::Failed => step is Stop && *final(self) == *old(self),
                Frame::Other => step is Skip && *final(self) == *old(self),
            },
    {
        match frame {
            Frame::Text(text) => match Json::parse(text.as_str()) {
                Ok(payload) => self.on_payload(&payload),
                Err(_) => FrameStep::Skip,
            },
            Frame::Close => FrameStep::Stop,
            Frame::Failed => FrameStep::Stop,
            Frame::Other => FrameStep::Skip,
        }
    }
}

/// The body that posts `text`, as a reply to the message `thread` if given.
pub open spec fn post(text: Seq<char>, thread: Option<Seq<char>>) -> JsonTree {
    match thread {
        Some(id) => JsonTree::Object(
            map![
                "content"@ => JsonTree::Text(text),
                "message_reference"@ => JsonTree::Object(map!["message_id"@ => JsonTree::Text(id)]),
            ],
        ),
        None => JsonTree::Object(map!["content"@ => JsonTree::Text(text)]),
    }
}

/// The body that posts a message.
pub fn post_body(text: &str, thread_id: Option<&str>) -> (r: String)
    ensures
        writes(r@, post(text@, str_option(thread_id))),
{
    proof {
        reveal_with_fuel(JsonTree::plain, 3);
        reveal_strlit("content");
        reveal_strlit("message_reference");
        assert("content"@.len() != "message_reference"@.len());
    }
    let content = text_value(text);
    match thread_id {
        // Reply to the original message so the response is visually linked.
        Some(id) => {
            let reference = object_of_one("message_id", text_value(id));
            payload_text(&object_of_two(("content", content), ("message_reference", reference)))
        },
        None => payload_text(&object_of_one("content", content)),
    }
}

/// What the reply to a posted message comes to, out of its status and body.
pub fn post_result(status: u16, body: String) -> (r: Result<(), DiscordError>)
    ensures
        200 <= status < 300 ==> r is Ok,
        !(200 <= status < 300) ==> r == Err::<(), DiscordError>(DiscordError::SendFailed(body)),
{
    if 200 <= status && status < 300 {
        Ok(())
    } else {
        Err(DiscordError::SendFailed(body))
    }
}

/// Only messages that are meant for our bot are delivered: none by a bot, ours
/// included, and outside direct messages none that neither mentions our bot nor
/// replies to it. What is delivered is never empty.
pub proof fn only_addressed_messages(d: JsonTree, bot: Option<Seq<char>>)
    ensures
        delivered(d, bot) matches Some(message) ==> {
            &&& message.platform == "discord"@
            &&& bot != Some(message.sender_id)
            &&& d.field("author"@).field("bot"@).as_bool() != Some(true)
            &&& message.text.len() > 0
            &&& addressed(d, d.field("content"@).as_str()->0, bot)
        },
{
}

/// Until the bot's user ID is known, only direct messages are delivered.
pub proof fn unknown_bot_gets_direct_messages_only(d: JsonTree)
    ensures
        delivered(d, None) is Some ==> direct(d),
{
}

/// Direct messages in one channel share one conversation.
pub proof fn direct_messages_share_a_conversation(
    first: JsonTree,
    later: JsonTree,
    bot: Option<Seq<char>>,
)
    requires
        direct(first),
        direct(later),
        delivered(first, bot) is Some,
        delivered(later, bot) is Some,
        first.field("channel_id"@) == later.field("channel_id"@),
    ensures
        key_of(delivered(first, bot)->0) == key_of(delivered(later, bot)->0),
        delivered(first, bot)->0.thread_id is None,
{
}

/// Outside direct messages, messages that refer to nothing and reply to no
/// message of ours start conversations of their own: two with different IDs do
/// not share one.
pub proof fn unrelated_messages_start_conversations(
    first: JsonTree,
    later: JsonTree,
    bot: Option<Seq<char>>,
)
    requires
        !direct(first),
        !direct(later),
        !replies_to_bot(first, bot),
        !replies_to_bot(later, bot),
        reference_of(first) is None,
        reference_of(later) is None,
        delivered(first, bot) is Some,
        delivered(later, bot) is Some,
        first.field("id"@).as_str() != later.field("id"@).as_str(),
    ensures
        key_of(delivered(first, bot)->0) != key_of(delivered(later, bot)->0),
{
}

/// A reply to what we sent into a conversation is delivered to that
/// conversation, without a mention. What we sent is `text`, posted with the
/// conversation's thread; `reply` quotes a message with the same reference,
/// written by our bot, in the same channel, and is itself by no bot and not
/// empty without its mentions.
pub proof fn replies_return_to_their_conversation(
    original: JsonTree,
    text: Seq<char>,
    reply: JsonTree,
    bot: Seq<char>,
)
    requires
        delivered(original, Some(bot)) is Some,
        delivered(original, Some(bot))->0.thread_id is Some,
        !direct(reply),
        !by_bot(reply, Some(bot)),
        reply.field("channel_id"@) == original.field("channel_id"@),
        reply.field("referenced_message"@).field("author"@).field("id"@) == JsonTree::Text(bot),
        reply.field("referenced_message"@).field("message_reference"@).field("message_id"@)
            == post(text, delivered(original, Some(bot))->0.thread_id).field(
            "message_reference"@,
        ).field("message_id"@),
        reply.field("content"@).as_str() is Some,
        stripped(reply.field("content"@).as_str()->0, MentionForm::Numbered).len() > 0,
    ensures
        delivered(reply, Some(bot)) is Some,
        key_of(delivered(reply, Some(bot))->0) == key_of(delivered(original, Some(bot))->0),
{
    let thread = delivered(original, Some(bot))->0.thread_id;
    let sent = post(text, thread);
    reveal_strlit("content");
    reveal_strlit("message_reference");
    assert("content"@.len() != "message_reference"@.len());
    assert(sent.field("message_reference"@) == JsonTree::Object(
        map!["message_id"@ => JsonTree::Text(thread->0)],
    ));
}

/// A heartbeat after a payload gives the payload's sequence number.
pub proof fn heartbeats_give_the_last_sequence_number(last_seq: u64, payload: JsonTree, s: u64)
    requires
        payload.field("s"@).as_u64() == Some(s),
        s != 0,
    ensures
        heartbeat(next_seq(last_seq, payload)).field("d"@) == JsonTree::Unsigned(s),
{
}

/// The intents are those of guilds, of messages in guilds, of direct messages
/// and of the content of messages.
pub proof fn intents_are_these_four()
    ensures
        INTENTS == (1u64 << 0u64) | (1u64 << 9u64) | (1u64 << 12u64) | (1u64 << 15u64),
{
    assert((1u64 << 0u64) | (1u64 << 9u64) | (1u64 << 12u64) | (1u64 << 15u64) == 37377u64)
        by (bit_vector);
}

/// A channel gives back the token that it was made with, and authorizes its
/// requests with it.
pub proof fn channels_keep_their_token(
    bot_token: String,
    channel: DiscordChannel,
    token: &str,
    header: String,
    platform: &str,
)
    requires
        call_ensures(DiscordChannel::new, (bot_token,), channel),
        call_ensures(DiscordChannel::bot_token, (&channel,), token),
        call_ensures(DiscordChannel::authorization, (&channel,), header),
        call_ensures(DiscordChannel::platform, (&channel,), platform),
    ensures
        token@ == bot_token@,
        header@ == "Bot "@ + bot_token@,
        platform@ == "discord"@,
{
}

/// The requests go to these places.
pub proof fn requests_go_to_the_web_api(channel: &str, gateway: String, messages: String)
    requires
        call_ensures(gateway_request_url, (), gateway),
        call_ensures(messages_url, (channel,), messages),
    ensures
        gateway@ == "https://discord.com/api/v10/gateway/bot"@,
        messages@ == "https://discord.com/api/v10/channels/"@ + channel@ + "/messages"@,
{
    reveal_strlit("https://discord.com/api/v10");
    reveal_strlit("/gateway/bot");
    reveal_strlit("/channels/");
    reveal_strlit("https://discord.com/api/v10/gateway/bot");
    reveal_strlit("https://discord.com/api/v10/channels/");
    assert(gateway@ =~= "https://discord.com/api/v10/gateway/bot"@);
    assert("https://discord.com/api/v10"@ + "/channels/"@
        =~= "https://discord.com/api/v10/channels/"@);
}

/// Stripping leaves the words without the mentions, with single spaces between
/// them. A bot is mentioned where its ID stands between `<@` or `<@!` and `>`
/// anywhere in a text, and a message is a direct one if it names no guild.
pub proof fn texts_and_messages_are_told_apart(
    text: &str,
    id: &str,
    d: &Json,
    kept: String,
    mentioned: bool,
    dm: bool,
)
    requires
        call_ensures(strip_mentions, (text,), kept),
        call_ensures(contains_bot_mention, (text, id), mentioned),
        call_ensures(is_dm_event, (d,), dm),
    ensures
        kept@ == joined(tokens(without_mentions(text@, MentionForm::Numbered), false), " "@),
        mentioned == (surrounds(text@, "<@"@ + id@ + ">"@) || surrounds(
            text@,
            "<@!"@ + id@ + ">"@,
        )),
        dm == (d@.field("guild_id"@) == JsonTree::Null),
{
    occurring_is_being_surrounded("<@"@ + id@ + ">"@, text@);
    occurring_is_being_surrounded("<@!"@ + id@ + ">"@, text@);
}

/// Every message that no bot wrote is delivered if it is a direct one, quotes a
/// message of our bot, or mentions our bot anywhere in its text in either way,
/// unless nothing is left of it without its mentions. It is delivered with its
/// own channel, author and words, to the conversation that it belongs to: one
/// for all direct messages, else the one that the quoted message of our bot
/// refers to, else the one that the message refers to, else its own.
pub proof fn messages_to_the_bot_are_delivered(
    d: &Json,
    bot: Option<&str>,
    content: Seq<char>,
    channel: Seq<char>,
    author: Seq<char>,
    quotes: bool,
    delivery: Option<InboundMessage>,
)
    requires
        call_ensures(inbound_message, (d, bot), delivery),
        d@.field("content"@) == JsonTree::Text(content),
        d@.field("channel_id"@) == JsonTree::Text(channel),
        match d@.field("author"@).field("id"@) {
            JsonTree::Text(id) => author == id,
            _ => author.len() == 0,
        },
        d@.field("author"@).field("bot"@) != JsonTree::Bool(true),
        bot is Some ==> bot->0@ != author,
        quotes == (bot is Some && d@.field("referenced_message"@).field("author"@).field("id"@)
            == JsonTree::Text(bot->0@)),
        d@.field("guild_id"@) == JsonTree::Null || quotes || (bot is Some && (
        occurs("<@"@ + bot->0@ + ">"@, content) || occurs("<@!"@ + bot->0@ + ">"@, content))),
        tokens(without_mentions(content, MentionForm::Numbered), false).len() > 0,
    ensures
        ({
            let quoted = d@.field("referenced_message"@).field("message_reference"@).field(
                "message_id"@,
            );
            let referred = d@.field("message_reference"@).field("message_id"@);
            let thread = delivery->0.thread_id;
            &&& delivery is Some
            &&& delivery->0.platform@ == "discord"@
            &&& delivery->0.channel_id@ == channel
            &&& delivery->0.sender_id@ == author
            &&& delivery->0.text@ == joined(
                tokens(without_mentions(content, MentionForm::Numbered), false),
                " "@,
            )
            &&& if d@.field("guild_id"@) == JsonTree::Null {
                thread is None
            } else if quotes && quoted is Text {
                thread is Some && thread->0@ == quoted->Text_0
            } else if referred is Text {
                thread is Some && thread->0@ == referred->Text_0
            } else if d@.field("id"@) is Text {
                thread is Some && thread->0@ == d@.field("id"@)->Text_0
            } else {
                thread is None
            }
        }),
{
    words_make_text(content, MentionForm::Numbered);
    let b = str_option(bot);
    assert(author =~= author_of(d@));
    assert(delivered(d@, b) is Some);
    assert(delivery is Some);
    assert(delivery->0@ == delivered(d@, b)->0);
}

/// Nothing else is delivered: nothing without a text or a channel, nothing that a
/// bot wrote, ours included, nothing in a guild that neither mentions our bot nor
/// quotes it, and nothing that holds mentions alone.
pub proof fn nothing_else_is_delivered(
    d: &Json,
    bot: Option<&str>,
    delivery: Option<InboundMessage>,
)
    requires
        call_ensures(inbound_message, (d, bot), delivery),
        delivery is Some,
    ensures
        ({
            let content = d@.field("content"@)->Text_0;
            &&& d@.field("content"@) is Text
            &&& d@.field("channel_id"@) is Text
            &&& d@.field("author"@).field("bot"@) != JsonTree::Bool(true)
            &&& bot is Some ==> match d@.field("author"@).field("id"@) {
                JsonTree::Text(id) => id != bot->0@,
                _ => bot->0@.len() > 0,
            }
            &&& {
                ||| d@.field("guild_id"@) == JsonTree::Null
                ||| bot is Some && d@.field("referenced_message"@).field("author"@).field("id"@)
                    == JsonTree::Text(bot->0@)
                ||| bot is Some && occurs("<@"@ + bot->0@ + ">"@, content)
                ||| bot is Some && occurs("<@!"@ + bot->0@ + ">"@, content)
            }
            &&& tokens(without_mentions(content, MentionForm::Numbered), false).len() > 0
        }),
{
    let content = d@.field("content"@).as_str()->0;
    words_make_text(content, MentionForm::Numbered);
    if bot is Some && !(d@.field("author"@).field("id"@) is Text) {
        if bot->0@.len() == 0 {
            assert(bot->0@ =~= Seq::<char>::empty());
        }
    }
}

/// What each error says.
pub proof fn errors_say_what_went_wrong(error: &DiscordError, said: String)
    requires
        call_ensures(DiscordError::message, (error,), said),
    ensures
        match *error {
            DiscordError::Unreadable(message) => said@ == message@,
            DiscordError::NoGatewayUrl => said@ == "missing gateway url"@,
            DiscordError::ClosedBeforeHello => said@ == "Discord Gateway closed before Hello"@,
            DiscordError::NoHeartbeatInterval => said@ == "missing heartbeat_interval"@,
            DiscordError::SendFailed(body) => said@ == "Discord send failed: "@ + body@,
        },
{
}

/// The gateway is where the reply says, asked for its tenth version in JSON. A
/// message was posted if and only if the status says success; else the body says
/// why not.
pub proof fn replies_are_taken_at_their_word(
    reply: &str,
    status: u16,
    body: String,
    url: Result<String, DiscordError>,
    posted: Result<(), DiscordError>,
)
    requires
        call_ensures(gateway_url, (reply,), url),
        call_ensures(post_result, (status, body), posted),
    ensures
        match json_outcome(reply@) {
            Err(message) => url matches Err(DiscordError::Unreadable(m)) && m@ == message,
            Ok(tree) => match tree.field("url"@) {
                JsonTree::Text(u) => url matches Ok(found) && found@ == u
                    + "/?v=10&encoding=json"@,
                _ => url matches Err(DiscordError::NoGatewayUrl),
            },
        },
        posted is Ok <==> 200 <= status <= 299,
        posted is Err ==> (posted->Err_0 matches DiscordError::SendFailed(why) && why@ == body@),
{
}

/// Before Hello only text frames are waited through, and Hello, which has the
/// opcode ten, gives the interval of the heartbeats.
pub proof fn hello_gives_the_interval(
    frame: Option<Frame>,
    heard: Result<Option<u64>, DiscordError>,
)
    requires
        call_ensures(hello_frame, (frame,), heard),
    ensures
        match frame {
            Some(Frame::Text(text)) => match json_outcome(text@) {
                Err(message) => heard matches Err(DiscordError::Unreadable(m)) && m@ == message,
                Ok(payload) => if payload.field("op"@) != JsonTree::Unsigned(10) {
                    heard matches Ok(None)
                } else {
                    match payload.field("d"@).field("heartbeat_interval"@) {
                        JsonTree::Unsigned(interval) => heard matches Ok(Some(found)) && found
                            == interval,
                        _ => heard matches Err(DiscordError::NoHeartbeatInterval),
                    }
                },
            },
            _ => heard matches Err(DiscordError::ClosedBeforeHello),
        },
{
}

/// What identifies the bot, read as JSON, has the opcode two and holds the token,
/// the intents and the system, each as it was given.
pub proof fn identification_holds_the_token(token: &str, os: &str, text: String)
    requires
        call_ensures(identify_payload, (token, os), text),
    ensures
        ({
            let read = json_outcome(text@);
            let d = read->Ok_0.field("d"@);
            let properties = d.field("properties"@);
            &&& read is Ok
            &&& read->Ok_0.field("op"@) == JsonTree::Unsigned(2)
            &&& d.field("token"@) == JsonTree::Text(token@)
            &&& d.field("intents"@) == JsonTree::Unsigned(INTENTS)
            &&& properties.field("os"@) == JsonTree::Text(os@)
            &&& properties.field("browser"@) == JsonTree::Text("ante"@)
            &&& properties.field("device"@) == JsonTree::Text("ante"@)
            &&& forall|key: Seq<char>|
                key != "op"@ && key != "d"@ ==> #[trigger] read->Ok_0.field(key) == JsonTree::Null
            &&& forall|key: Seq<char>|
                key != "token"@ && key != "intents"@ && key != "properties"@
                    ==> #[trigger] d.field(key) == JsonTree::Null
            &&& forall|key: Seq<char>|
                key != "os"@ && key != "browser"@ && key != "device"@
                    ==> #[trigger] properties.field(key) == JsonTree::Null
        }),
{
    reveal_strlit("op");
    reveal_strlit("d");
    reveal_strlit("token");
    reveal_strlit("intents");
    reveal_strlit("properties");
    reveal_strlit("os");
    reveal_strlit("browser");
    reveal_strlit("device");
    assert("op"@.len() != "d"@.len());
    assert("token"@.len() != "intents"@.len());
    assert("token"@.len() != "properties"@.len());
    assert("intents"@.len() != "properties"@.len());
    assert("os"@.len() != "browser"@.len());
    assert("os"@.len() != "device"@.len());
    assert("browser"@.len() != "device"@.len());
    let read = json_outcome(text@);
    let d = read->Ok_0.field("d"@);
    assert(read->Ok_0 == identify(token@, os@));
    assert(d is Object);
    assert(d.field("properties"@) is Object);
}

/// A heartbeat, read as JSON, has the opcode one and gives the last sequence
/// number, or null before there is one, and nothing else.
pub proof fn heartbeats_give_the_number(last_seq: u64, text: String)
    requires
        call_ensures(heartbeat_payload, (last_seq,), text),
    ensures
        ({
            let read = json_outcome(text@);
            &&& read is Ok
            &&& read->Ok_0.field("op"@) == JsonTree::Unsigned(1)
            &&& last_seq != 0 ==> read->Ok_0.field("d"@) == JsonTree::Unsigned(last_seq)
            &&& last_seq == 0 ==> read->Ok_0.field("d"@) == JsonTree::Null
            &&& forall|key: Seq<char>|
                key != "op"@ && key != "d"@ ==> #[trigger] read->Ok_0.field(key) == JsonTree::Null
        }),
{
    reveal_strlit("op");
    reveal_strlit("d");
    assert("op"@.len() != "d"@.len());
}

/// A connection starts with no sequence number and without knowing its bot.
pub proof fn connections_start_empty(session: DiscordSession)
    requires
        call_ensures(DiscordSession::new, (), session),
    ensures
        session.bot_user_id is None,
        session.last_seq == 0,
{
}

/// What a payload of the opcode `op`, which is zero where there is none, teaches:
/// its sequence number, if it has one, and the bot's ID,
/// if it is the event READY and names one. Nothing else is learned or forgotten.
pub proof fn payloads_teach_number_and_bot(
    session: &mut DiscordSession,
    payload: &Json,
    op: u64,
    step: FrameStep,
)
    requires
        call_ensures(DiscordSession::on_payload, (session, payload), step),
        match payload@.field("op"@) {
            JsonTree::Unsigned(n) => op == n,
            _ => op == 0,
        },
    ensures
        match payload@.field("s"@) {
            JsonTree::Unsigned(s) => final(session).last_seq == s,
            _ => final(session).last_seq == old(session).last_seq,
        },
        ({
            let ready = op == 0 && payload@.field("t"@) == JsonTree::Text("READY"@);
            let known = final(session).bot_user_id;
            match payload@.field("d"@).field("user"@).field("id"@) {
                JsonTree::Text(id) if ready => known is Some && known->0@ == id,
                _ => text_option(known) == text_option(old(session).bot_user_id),
            }
        }),
{
}

/// The step after a payload of the opcode `op`, which is zero where there is none:
/// the event MESSAGE_CREATE delivers what its message
/// delivers to the bot, the opcodes seven and nine stop, and anything else is
/// skipped.
pub proof fn payloads_have_their_steps(
    session: &mut DiscordSession,
    payload: &Json,
    op: u64,
    d: &Json,
    bot: Option<&str>,
    delivery: Option<InboundMessage>,
    step: FrameStep,
)
    requires
        call_ensures(DiscordSession::on_payload, (session, payload), step),
        match payload@.field("op"@) {
            JsonTree::Unsigned(n) => op == n,
            _ => op == 0,
        },
        d@ == payload@.field("d"@),
        bot is Some == old(session).bot_user_id is Some,
        bot is Some ==> bot->0@ == old(session).bot_user_id->0@,
        call_ensures(inbound_message, (d, bot), delivery),
    ensures
        ({
            let created = op == 0 && payload@.field("t"@) == JsonTree::Text(
                "MESSAGE_CREATE"@,
            );
            if created && delivery is Some {
                step matches FrameStep::Deliver(message) && message@ == delivery->0@
            } else if op == 7 || op == 9 {
                step is Stop
            } else {
                step is Skip
            }
        }),
{
    assert(str_option(bot) == text_option(old(session).bot_user_id));
}

/// Each kind of frame has its step. A text that is JSON does what its payload
/// does, and all else teaches nothing.
pub proof fn frames_have_their_steps(session: &mut DiscordSession, frame: Frame, step: FrameStep)
    requires
        call_ensures(DiscordSession::on_frame, (session, frame), step),
    ensures
        match frame {
            Frame::Close | Frame::Failed => step is Stop && *final(session) == *old(session),
            Frame::Other => step is Skip && *final(session) == *old(session),
            Frame::Text(text) => match json_outcome(text@) {
                Err(_) => step is Skip && *final(session) == *old(session),
                Ok(payload) => {
                    let op = match payload.field("op"@) {
                        JsonTree::Unsigned(n) => n,
                        _ => 0,
                    };
                    let created = op == 0 && payload.field("t"@) == JsonTree::Text(
                        "MESSAGE_CREATE"@,
                    );
                    let ready = op == 0 && payload.field("t"@) == JsonTree::Text(
                        "READY"@,
                    );
                    let message = delivered(
                        payload.field("d"@),
                        text_option(old(session).bot_user_id),
                    );
                    &&& match payload.field("s"@) {
                        JsonTree::Unsigned(s) => final(session).last_seq == s,
                        _ => final(session).last_seq == old(session).last_seq,
                    }
                    &&& match payload.field("d"@).field("user"@).field("id"@) {
                        JsonTree::Text(id) if ready => text_option(final(session).bot_user_id)
                            == Some(id),
                        _ => text_option(final(session).bot_user_id) == text_option(
                            old(session).bot_user_id,
                        ),
                    }
                    &&& if created && message is Some {
                        step matches FrameStep::Deliver(m) && m@ == message->0
                    } else if op == 7 || op == 9 {
                        step is Stop
                    } else {
                        step is Skip
                    }
                },
            },
        },
{
}

/// What is posted, read as JSON, holds the text and, where there is one, refers
/// to the thread's message, each as it was given, and nothing else.
pub proof fn posts_hold_what_was_given(text: &str, thread: Option<&str>, body: String)
    requires
        call_ensures(post_body, (text, thread), body),
    ensures
        ({
            let read = json_outcome(body@);
            let reference = read->Ok_0.field("message_reference"@);
            &&& read is Ok && read->Ok_0 is Object
            &&& read->Ok_0.field("content"@) == JsonTree::Text(text@)
            &&& thread is None ==> reference == JsonTree::Null
            &&& thread is Some ==> reference.field("message_id"@) == JsonTree::Text(thread->0@)
            &&& forall|key: Seq<char>|
                key != "content"@ && key != "message_reference"@
                    ==> #[trigger] read->Ok_0.field(key) == JsonTree::Null
            &&& forall|key: Seq<char>|
                key != "message_id"@ ==> #[trigger] reference.field(key) == JsonTree::Null
        }),
{
    reveal_strlit("content");
    reveal_strlit("message_reference");
    assert("content"@.len() != "message_reference"@.len());
    let tree = post(text@, str_option(thread));
    assert(json_outcome(body@)->Ok_0 == tree);
    if thread is Some {
        assert(tree.field("message_reference"@) == JsonTree::Object(
            map!["message_id"@ => JsonTree::Text(thread->0@)],
        ));
    }
}

}
