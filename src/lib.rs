//! Routing of chat messages and interactions to registered commands, with a
//! verified tokenizer, command-tree walk and permission model.
pub mod text;
pub mod arguments;
pub mod level;
pub mod cache;
pub mod context;
pub mod command;
pub mod permission;
pub mod framework;
pub mod user_commands;
pub mod detection;
