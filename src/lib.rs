//! The state of a terminal chat client: conversations and their paginated
//! history, the viewport over it, the compose state, the authorization
//! handshake, and the reading of backend events into that state.

pub mod message;
pub mod request;
pub mod users;
pub mod chat;
pub mod registry;
pub mod viewport;
pub mod handshake;
pub mod session;
pub mod json;
pub mod decode;
