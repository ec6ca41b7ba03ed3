use vstd::prelude::*;

pub mod app;
pub mod autocomplete;
pub mod buffer;
pub mod buffers;
pub mod command_prompt;
pub mod config;
pub mod external_command;
pub mod external_diff;
pub mod help;
pub mod indentation;
pub mod inline_clanker;
pub mod hooks;
pub mod input;
pub mod keys;
pub mod lines;
pub mod lint;
pub mod mobile;
pub mod navigation;
pub mod llm;
pub mod render;
pub mod screen;
pub mod selection;
pub mod status;
pub mod text;

verus! {

} // verus!
