//! The brain store: named, branched, encrypted memories, their attachments
//! and audit trail, and the API keys that select them.
pub mod slug;
pub mod types;
pub mod jtext;
pub mod state;
pub mod laws;
pub mod store;
pub mod crypto;
