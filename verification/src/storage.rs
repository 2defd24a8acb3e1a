//! What a group client keeps in its key-value store.

pub mod key;
