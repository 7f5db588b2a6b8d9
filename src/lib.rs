//! A small verified core for an interactive chat client: the conversation
//! history, the seed context built from local files, the delimiter-based
//! prompt reader and the reconstruction of streamed replies.

pub mod message;
pub mod context;
pub mod input;
pub mod stream;
pub mod history;
pub mod request;
pub mod session;
