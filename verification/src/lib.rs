//! A rock-paper-scissors game server: the rules of a turn, the score of a
//! session, the messages exchanged with a client, and the decisions of the
//! handler of a connection and of the acceptor.
//!
//! The library decides and computes; it neither listens nor sends. A
//! transport drives it: it reports what happened on a connection to
//! `connection::Connection::step` and does what the returned action says.

pub mod acceptor;
pub mod address;
pub mod codec;
pub mod connection;
pub mod rock_paper_scissors;
pub mod server;
