//! Text, prompt and protocol handling for a shell copilot that talks to a
//! local LLM server: it suggests fixes for failed commands, explains and
//! suggests commands, and answers questions.

pub mod client;
pub mod config;
pub mod fix;
pub mod history;
pub mod hooks;
pub mod json;
pub mod markdown;
pub mod output;
pub mod paths;
pub mod prompts;
pub mod query;
pub mod similar;
pub mod text;
