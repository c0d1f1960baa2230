//! The server's side of a conversation: admission, negotiation, CONNECT and
//! UDP ASSOCIATE.

pub mod accept;
pub mod admission;
pub mod association;
pub mod connect;
pub mod connection;
pub mod establish;
pub mod relay;
pub mod session;
pub mod udp;
