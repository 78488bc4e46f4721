//! Reading, editing and writing PNG files at the level of their chunks.
pub mod args;
pub mod chunk;
pub mod chunk_type;
pub mod commands;
pub mod error;
pub mod png;
