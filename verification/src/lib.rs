//! A gateway that speaks the Gemini REST format to its clients and the OpenAI
//! chat-completions format to the server behind it.

pub mod gateway;
pub mod laws;
pub mod request;
pub mod response;
pub mod stream;
pub mod text;
pub mod value;
pub mod wire;
