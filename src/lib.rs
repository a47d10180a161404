//! Rate limiting for a chat bot: a set of recently active senders that a
//! periodic sweep empties, and the per-message decision that consults it.

pub mod recency;
pub mod gate;
pub mod sweep;
