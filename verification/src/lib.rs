//! A minimal conversational client for a chat-completion HTTP API.
//!
//! The library keeps a conversation's ordered message history, builds the
//! JSON request body for the next exchange, and decodes the JSON response
//! into the assistant's reply. The network call itself is left to the
//! caller: `begin_chat` hands out the request body, and `finish_chat`
//! takes the outcome of the HTTP exchange back.

mod json;
mod message;
mod parse;
mod session;
mod text;
mod wire;

pub use json::Json;
pub use message::Message;
pub use message::Role;
pub use parse::parse_document;
pub use session::ChatBot;
pub use session::ChatError;
pub use session::Config;
pub use session::HttpOutcome;
pub use wire::build_request;
pub use wire::decode_response;
