//! Nuzzle: the verified core of a terminal feed reader with an AI assistant.

pub mod text;
pub mod types;
pub mod config;
pub mod clock;
pub mod paths;
pub mod markdown;
pub mod tools;
pub mod ai;
pub mod tui;
pub mod state;
pub mod commands;
pub mod view;
pub mod feed;
pub mod highlight;
