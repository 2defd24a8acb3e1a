//! The relay of an end-to-end encrypted messaging service, without its I/O.
//!
//! The relay takes encrypted messages from senders and pushes each one to the
//! connections that the recipient has open at that moment. It never looks
//! into a message and never stores one: a message for a recipient without an
//! open connection is dropped.
//!
//! Three kinds of worker do this, each with a queue of its own: one per
//! connection ([`actor::web_socket`]), one per recipient ([`actor::client`])
//! and one registry over them all ([`actor::switchboard`]). Each worker is a
//! state machine here. A runtime owns the queues and the sockets, tells a
//! worker what happened and carries out what the worker answers. [`relay`]
//! puts the workers together as a model and proves what the relay promises.
//!
//! [`storage::key`] names the entries of a group client's key-value store,
//! and [`container`] holds the states of a container.

pub mod actor;
pub mod container;
pub mod relay;
pub mod storage;
pub mod table;
