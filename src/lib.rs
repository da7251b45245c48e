//! A minimal XMPP-style instant-messaging core: addresses, protocol
//! elements, the stream handshake and stanza routing between sessions.

pub mod auth;
pub mod constants;
pub mod features;
pub mod handshake;
pub mod initial;
pub mod jid;
pub mod registry;
pub mod router;
pub mod stanza;
pub mod xml;
