//! Assembly of streaming chat-completion requests from a conversation
//! history: reasoning re-attachment, duplicate suppression, wire-message
//! construction, and payload / header finalization.

pub mod assemble;
pub mod history;
pub mod json;
pub mod laws;
pub mod reasoning;
pub mod request;
pub mod text;
