//! A verified core for a Nostr command-line client: key encoding and alias
//! resolution, a contact directory, the persistent credential store with its
//! JSON codec, subscription-filter construction, the message-token grammar
//! used by the send commands, and the classification of inbound relay
//! notifications.
//!
//! Network transport, cryptographic signing and all file and terminal I/O
//! live outside this crate; the library works on plain values and states in
//! its contracts exactly what each operation returns or changes.

pub mod codec;
pub mod contacts;
pub mod dispatch;
pub mod errors;
pub mod filter;
pub mod keys;
pub mod output;
pub mod relay;
pub mod store;
pub mod text;
pub mod tokens;
