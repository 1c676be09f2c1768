//! Verified core of a desktop voice assistant: text handling for dictation,
//! learning from user corrections, the spoken-command path, and the
//! screen-access authorization rules of the assistant.

pub mod platform;
pub mod settings;
pub mod text;
pub mod clock;
pub mod edit;
pub mod autolearn;
pub mod flow;
pub mod audio;
pub mod commands;
pub mod assistant;
pub mod catalog;
pub mod cli;
