pub mod value;
pub mod json;
pub mod text;
pub mod jsonio;
pub mod models;
pub mod items;
pub mod crypto;
pub mod ids;
pub mod convert_request;
pub mod convert_response;
pub mod streaming;
pub mod config;
pub mod rewrite;
pub mod sse;
pub mod server;
pub mod compact;
pub mod ws;
pub mod tools;
pub mod wire;
pub mod fields;
pub mod tool_parts;
pub mod tool_types;
