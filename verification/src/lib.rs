pub mod chunks;
pub mod constants;
pub mod detect;
pub mod embeddings;
pub mod gate;
pub mod json;
pub mod machine;
pub mod names;
pub mod numeral;
pub mod patterns;
pub mod payload;
pub mod prompt;
pub mod replies;
pub mod reply;
pub mod request;
pub mod session;
pub mod sse;
pub mod startup;
pub mod stream;
pub mod streaming;
pub mod text;
pub mod tool_error;
pub mod truncate;
