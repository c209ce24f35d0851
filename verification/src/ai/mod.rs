//! The assistant: prompts, the keyword search tool and the tool-calling chat.

pub mod tools;
pub mod client;
