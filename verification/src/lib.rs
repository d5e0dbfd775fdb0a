//! A chat-bot message bus: a bounded broadcast channel fanning inbound chat
//! events out to independent subscribers, a fan-in channel collecting outbound
//! requests, a paced outbound pump, and a per-client router session that
//! re-exposes the event stream to remote processes.

pub mod error;
pub mod channel;
pub mod commander;
pub mod irc;
pub mod laws;
pub mod pump;
pub mod ndi;
pub mod router;
pub mod request;
