//! Decision engine for switching the keyboard input source per application.
//!
//! The crate holds the three pieces of logic that decide what happens when the
//! foreground application changes: the catalog of input sources a user can
//! actually pick, the per-event dispatcher state machine, and the merge of
//! predicted, hand-edited and stored rules against the installed applications.
//! Every function carries a contract over the mathematical view of its data.

pub mod text;
pub mod error;
pub mod input_source;
pub mod catalog;
pub mod menu_preferences;
pub mod system_apps;
pub mod config;
pub mod command;
pub mod observer;
pub mod llm;
pub mod general_settings;
