//! Core logic of a desktop helper that drafts chat replies with a local
//! language model: prompt building, reply parsing, stream decoding,
//! engine state machines, model catalogs and settings.

pub mod text;
pub mod settings;
pub mod errors;
pub mod json;
pub mod reply;
pub mod prompt;
pub mod stream;
pub mod llama;
pub mod models;
pub mod image;
pub mod chat;
pub mod hotkey;
