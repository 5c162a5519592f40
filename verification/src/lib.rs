//! Client generation and host transforms for compressed MCP tool servers.

pub mod base64_text;
pub mod cli;
pub mod client_gen;
pub mod decimal;
pub mod entries;
pub mod ffi;
pub mod json;
pub mod json_equality;
pub mod json_schema;
pub mod json_text;
pub mod laws;
pub mod letters;
pub mod platform;
pub mod sorted_map;
pub mod text;
pub mod tool;
