//! The bot's fixed texts: command names, usage summaries and replies.

use vstd::prelude::*;

verus! {

/// A short notice that a command is unknown.
pub const COMMAND_NOT_FOUND: &'static str = "Command not found.";

pub const PING_COMMAND: &'static str = "ping";

pub const PING_ALIAS: &'static str = "test";

/// What `help` says of `ping` and `test`.
pub const PING_HELP: &'static str = "ping/test help";

/// A longer summary of `ping`, with its usage.
pub const PING_SUMMARY: &'static str = "ping: The usual ping command.\nUSAGE: !ping";

/// The reply to a ping.
pub const PING_MESSAGE: &'static str = "Pong!";

pub const HELP_COMMAND: &'static str = "help";

pub const HELP_ALIAS: &'static str = "info";

/// What `help` says of `help` and `info`.
pub const HELP_HELP: &'static str = "help/info help";

/// What `help` says when it is asked of no command.
pub const GENERAL_HELP: &'static str = "General Help; list commands here TODO";

/// A longer summary of `help`, with its usage.
pub const HELP_SUMMARY: &'static str =
    "help: Displays general help or help for a specific command.\nUSAGE: !help <command> (if any)";

/// A greeting that points a user to where help is found.
pub const HELP_MESSAGE: &'static str = "
Hello there, Human!
You have summoned me. Let's see about getting you what you need.
❓ Need technical help?
➡️ Post in the <#CHANNEL_ID> channel and other humans will assist you.
❓ Looking for the Code of Conduct?
➡️ Here it is: 
❓ Something wrong?
➡️ You can flag an admin with @admin
I hope that resolves your issue!
— HelpBot 🤖
";

pub const DELETE_CHANNEL_COMMAND: &'static str = "delete_channel";

/// What `help` says of `delete_channel`.
pub const DELETE_CHANNEL_HELP: &'static str = "delete_channel help";

pub const OFF_COMMAND: &'static str = "off";

/// What `help` says of `off`.
pub const OFF_HELP: &'static str = "off help";

/// The notice that the bot stops.
pub const OFF_MESSAGE: &'static str = "BOT OFF!";

/// The notice that the bot has started.
pub const ON_MESSAGE: &'static str = "BOT ON!";

pub const GET_MESSAGES_COMMAND: &'static str = "get_messages";

/// What `help` says of `get_messages`.
pub const GET_MESSAGES_SUMMARY: &'static str =
    "Gets any number between 0 and 100 messages sent in the channel.\nUSAGE: !get_messages <number> (between 0 and 100)";

/// The reply once messages were fetched.
pub const GET_MESSAGES_MESSAGE: &'static str = "Got messages [check]";

pub const CREATE_CHANNEL_COMMAND: &'static str = "create_channel";

/// What `help` says of `create_channel`.
pub const CREATE_CHANNEL_SUMMARY: &'static str =
    "Creates a text channel with a given name\nUSAGE: !create_channel <channel> (non-empty)";

/// The reply once a channel was created.
pub const CREATE_CHANNEL_MESSAGE: &'static str = "DONE";

/// The reply to a command that no definition names.
pub open spec fn not_found_text(command: Seq<char>) -> Seq<char> {
    "Command `"@ + command + "` is not found. Use `!help` for more info."@
}

/// The reply to a command called with arguments that it does not take.
pub open spec fn invalid_arguments_text(command: Seq<char>) -> Seq<char> {
    "Invalid arguments for `"@ + command + "`. Use `!help "@ + command + "` for more info."@
}

/// The reply to a caller who lacks a role that the command requires.
pub open spec fn missing_roles_text(command: Seq<char>) -> Seq<char> {
    "You are not assigned the role(s) required for this command. Use `!help "@ + command
        + "` for more info"@
}

/// Builds the reply to a command that no definition names.
pub fn not_found_reply(command: &str) -> (text: String)
    ensures
        text@ == not_found_text(command@),
{
    let mut text = String::from_str("Command `");
    text.append(command);
    text.append("` is not found. Use `!help` for more info.");
    text
}

/// Builds the reply to a command called with arguments that it does not take.
pub fn invalid_arguments_reply(command: &str) -> (text: String)
    ensures
        text@ == invalid_arguments_text(command@),
{
    let mut text = String::from_str("Invalid arguments for `");
    text.append(command);
    text.append("`. Use `!help ");
    text.append(command);
    text.append("` for more info.");
    text
}

/// Builds the reply to a caller who lacks a role that the command requires.
pub fn missing_roles_reply(command: &str) -> (text: String)
    ensures
        text@ == missing_roles_text(command@),
{
    let mut text = String::from_str(
        "You are not assigned the role(s) required for this command. Use `!help ",
    );
    text.append(command);
    text.append("` for more info");
    text
}

} // verus!
