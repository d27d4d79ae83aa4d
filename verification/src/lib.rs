//! Core of a desktop chat client for a locally running inference server:
//! the conversation store with bounded history, the generation settings,
//! the request and response rules of the inference protocol, and the
//! per-chat session controller with cancellation.

pub mod controller;
pub mod history;
pub mod ident;
pub mod inference;
pub mod json;
pub mod models;
pub mod render;
pub mod session;
pub mod settings;
pub mod store;
pub mod text;
