//! Editor state machines and text logic of a terminal chat interface.
pub mod text;
pub mod motions;
pub mod numbers;
pub mod vim;
pub mod vim_basic;
pub mod charmap;
pub mod prompt;
pub mod command;
pub mod panels;
pub mod overlays;
pub mod hooks;
pub mod laws;
pub mod width;
pub mod transcript;
pub mod history_match;
pub mod settings;
pub mod tool_summary;
pub mod prompt_display;
pub mod json;
