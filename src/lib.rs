//! Client-side network protocol core: a binary packet codec, an outbound
//! socket model with plaintext and secure paths, a packet router, and the
//! per-frame deferred task queues for map chunks and chat messages.

pub mod error;
pub mod codec;
pub mod types;
pub mod packets;
pub mod socket;
pub mod sends;
pub mod router;
pub mod buffer;
pub mod content;
pub mod logic;
pub mod config;
pub mod npc;
