//! The command core of a chat bot.
//!
//! A message that begins with `!` names a command. The [`parser`] takes the
//! message apart, the registry in [`command_manager`] finds the definition
//! that the name selects, [`validation`] checks the number of arguments and
//! the roles of the caller, and the handlers in [`commands`] decide what is
//! to be done. Nothing here talks to the chat platform: the command manager
//! hands out one [`dispatch::Step`] at a time, and the program around it
//! answers the questions and performs the action that the steps end with.

pub mod cmd;
pub mod command_manager;
pub mod commands;
pub mod dispatch;
pub mod parser;
pub mod permission;
pub mod text;
pub mod validation;
