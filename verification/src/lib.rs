//! The decisions of a gateway that connects Slack and Discord to an Ante host.

pub mod channels;
pub mod gateway;
pub mod http;
pub mod json;
pub mod laws;
pub mod mention;
pub mod output;
pub mod protocol;
pub mod question;
pub mod text;
