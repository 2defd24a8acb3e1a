//! The workers of the relay.

pub mod client;
pub mod switchboard;
pub mod web_socket;
