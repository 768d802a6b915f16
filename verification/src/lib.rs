//! Stream reconciliation for a chat-completion event stream whose function-call
//! events may arrive with empty arguments.

pub mod classify;
pub mod codec;
pub mod error;
pub mod frame;
pub mod json;
pub mod laws;
pub mod patch;
pub mod reconciler;
pub mod table;
pub mod text;
pub mod token;
pub mod upstream;
