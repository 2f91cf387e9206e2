//! Client-side core for a chat-roleplay web service: credential rotation,
//! a streaming decoder for server-sent generation chunks, and assembly of
//! the decoded chunks into the final reply text.
//!
//! The decoding pipeline runs bottom-up: `json` reads the lexical pieces of
//! the wire format, `parse` the chunk grammar itself, `line` classifies one
//! raw line (keep-alive, sentinel, or data), and `decoder` turns a byte
//! stream delivered in arbitrary pieces into the ordered chunk sequence —
//! with the delivery-boundary, sentinel and keep-alive laws proved there.
//! `assemble` folds the chunks into the final text, `auth` holds the
//! bearer/refresh pair and commits or discards a refresh, and `chat`
//! carries the chunk and message data with the generation-mode rules.

pub mod assemble;
pub mod auth;
pub mod chat;
pub mod character;
pub mod decoder;
pub mod error;
pub mod json;
pub mod line;
pub mod misc;
pub mod parse;
pub mod review;
pub mod tag;
pub mod unicode;

pub use error::HampterError;
