//! The core of a terminal emulator: a resumable decoder that turns the bytes
//! a shell writes into terminal actions, a screen that those actions are
//! applied to, and the decisions of the session that runs the shell on a
//! pseudo-terminal. Around them: command-line words, blocks, history,
//! completion and suggestions.

pub mod text;
pub mod parser;
pub mod palette;
pub mod screen;
pub mod session;
pub mod output;
pub mod navigation;
pub mod command;
pub mod suggestions;
pub mod history;
pub mod completion;
pub mod block;
pub mod settings;
pub mod commands;
