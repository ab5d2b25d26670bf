//! The messaging platforms: who may talk to the gateway, what the platforms
//! send, and what they are sent.

pub mod access;
pub mod config;
pub mod discord;
pub mod slack;

use crate::text::text_option;
use vstd::prelude::*;

verus! {

/// An inbound message from any platform, normalized to plain text.
#[derive(Debug, Clone)]
pub struct InboundMessage {
    pub platform: &'static str,
    pub channel_id: String,
    pub thread_id: Option<String>,
    pub sender_id: String,
    pub text: String,
}

/// What an [`InboundMessage`] holds.
pub struct Inbound {
    pub platform: Seq<char>,
    pub channel_id: Seq<char>,
    pub thread_id: Option<Seq<char>>,
    pub sender_id: Seq<char>,
    pub text: Seq<char>,
}

impl View for InboundMessage {
    type V = Inbound;

    open spec fn view(&self) -> Inbound {
        Inbound {
            platform: self.platform@,
            channel_id: self.channel_id@,
            thread_id: text_option(self.thread_id),
            sender_id: self.sender_id@,
            text: self.text@,
        }
    }
}

/// The view of an optional message.
pub open spec fn inbound_option(message: Option<InboundMessage>) -> Option<Inbound> {
    match message {
        Some(m) => Some(m@),
        None => None,
    }
}

/// A message is seen whole.
pub proof fn messages_are_seen_whole(message: InboundMessage)
    ensures
        inbound_option(None) is None,
        inbound_option(Some(message)) == Some(
            Inbound {
                platform: message.platform@,
                channel_id: message.channel_id@,
                thread_id: match message.thread_id {
                    Some(thread) => Some(thread@),
                    None => None,
                },
                sender_id: message.sender_id@,
                text: message.text@,
            },
        ),
{
}

}
