//! Script language, command execution and presentation rules of a
//! terminal visual-novel engine.

pub mod script;
pub mod animation;
pub mod symbols;
pub mod audio;
pub mod args;
pub mod script_def;
pub mod builtin;
pub mod slot;
pub mod setting;
