//! The handlers: what each command asks the bot to do.
//!
//! A handler decides; it performs nothing. Its result is an [`Action`] that
//! names the one thing to be done on the chat platform.

use crate::cmd::{
    invalid_arguments_reply, invalid_arguments_text, not_found_reply, not_found_text,
    CREATE_CHANNEL_COMMAND, CREATE_CHANNEL_MESSAGE, CREATE_CHANNEL_SUMMARY,
    DELETE_CHANNEL_COMMAND, DELETE_CHANNEL_HELP, GENERAL_HELP, GET_MESSAGES_COMMAND,
    GET_MESSAGES_MESSAGE, GET_MESSAGES_SUMMARY, HELP_ALIAS, HELP_COMMAND, HELP_HELP, OFF_COMMAND,
    OFF_HELP, OFF_MESSAGE, PING_ALIAS, PING_COMMAND, PING_HELP, PING_MESSAGE,
};
use crate::command_manager::{
    lemma_lookup_is_first_match, lookup, names, CommandInfoView, CommandManager,
};
use crate::text::{decimal, parse_bounded, split_whitespace, str_eq, tokens};
use vstd::prelude::*;

verus! {

/// The largest number of messages that one request may fetch.
pub const MAX_MESSAGES: u64 = 100;

/// The commands that have a handler.
#[derive(Clone, Copy, Debug, PartialEq, Eq, Structural)]
pub enum Handler {
    Ping,
    Help,
    DeleteChannel,
    Off,
    GetMessages,
    CreateChannel,
}

/// Why a dispatch is not defined.
#[derive(Clone, Copy, Debug, PartialEq, Eq, Structural)]
pub enum DispatchError {
    /// The name selects no handler. A registry in which each name selects
    /// one never meets this: see [`handlers_complete`].
    NoHandler,
}

/// What is to be done on the chat platform in answer to a message.
#[derive(Debug, PartialEq, Eq)]
pub enum Action {
    /// Nothing: the message is not for the bot.
    Ignore,
    /// Reply to the message with this text.
    Reply(String),
    /// Delete the channel that the message came from.
    DeleteChannel,
    /// Reply with the notice, post it to the status channel, then stop the bot.
    Shutdown(String),
    /// Fetch up to `limit` messages sent before this one, then reply.
    FetchMessages { limit: u64, reply: String },
    /// Create a text channel of this name in the guild, then reply.
    CreateChannel { name: String, reply: String },
}

/// An [`Action`] over mathematical text.
pub enum ActionView {
    Ignore,
    Reply(Seq<char>),
    DeleteChannel,
    Shutdown(Seq<char>),
    FetchMessages { limit: u64, reply: Seq<char> },
    CreateChannel { name: Seq<char>, reply: Seq<char> },
}

impl View for Action {
    type V = ActionView;

    open spec fn view(&self) -> ActionView {
        match *self {
            Action::Ignore => ActionView::Ignore,
            Action::Reply(text) => ActionView::Reply(text@),
            Action::DeleteChannel => ActionView::DeleteChannel,
            Action::Shutdown(notice) => ActionView::Shutdown(notice@),
            Action::FetchMessages { limit, reply } => ActionView::FetchMessages {
                limit,
                reply: reply@,
            },
            Action::CreateChannel { name, reply } => ActionView::CreateChannel {
                name: name@,
                reply: reply@,
            },
        }
    }
}

/// The handler that a command name selects.
pub open spec fn handler_of(alias: Seq<char>) -> Option<Handler> {
    if alias == PING_COMMAND@ || alias == PING_ALIAS@ {
        Some(Handler::Ping)
    } else if alias == HELP_COMMAND@ || alias == HELP_ALIAS@ {
        Some(Handler::Help)
    } else if alias == DELETE_CHANNEL_COMMAND@ {
        Some(Handler::DeleteChannel)
    } else if alias == OFF_COMMAND@ {
        Some(Handler::Off)
    } else if alias == GET_MESSAGES_COMMAND@ {
        Some(Handler::GetMessages)
    } else if alias == CREATE_CHANNEL_COMMAND@ {
        Some(Handler::CreateChannel)
    } else {
        None
    }
}

/// Finds the handler that a command name selects.
pub fn handler_for(alias: &str) -> (handler: Option<Handler>)
    ensures
        handler == handler_of(alias@),
{
    if str_eq(alias, PING_COMMAND) || str_eq(alias, PING_ALIAS) {
        Some(Handler::Ping)
    } else if str_eq(alias, HELP_COMMAND) || str_eq(alias, HELP_ALIAS) {
        Some(Handler::Help)
    } else if str_eq(alias, DELETE_CHANNEL_COMMAND) {
        Some(Handler::DeleteChannel)
    } else if str_eq(alias, OFF_COMMAND) {
        Some(Handler::Off)
    } else if str_eq(alias, GET_MESSAGES_COMMAND) {
        Some(Handler::GetMessages)
    } else if str_eq(alias, CREATE_CHANNEL_COMMAND) {
        Some(Handler::CreateChannel)
    } else {
        None
    }
}

/// Whether each name in the registry selects a handler.
pub open spec fn handlers_complete(reg: Seq<CommandInfoView>) -> bool {
    forall|i: int, j: int|
        0 <= i < reg.len() && 0 <= j < reg[i].aliases.len() ==> handler_of(
            #[trigger] reg[i].aliases[j],
        ) is Some
}

/// In a registry where each name selects a handler, so does each token that
/// selects a definition.
pub proof fn lemma_registered_has_handler(reg: Seq<CommandInfoView>, token: Seq<char>)
    requires
        handlers_complete(reg),
        lookup(reg, token) is Some,
    ensures
        handler_of(token) is Some,
{
    lemma_lookup_is_first_match(reg, token);
    let (i, j) = lookup(reg, token)->0;
    assert(names(reg, token, i, j));
    assert(reg[i].aliases[j] == token);
}

/// The usage summary of a command.
pub open spec fn summary_of(handler: Handler) -> Seq<char> {
    match handler {
        Handler::Ping => PING_HELP@,
        Handler::Help => HELP_HELP@,
        Handler::DeleteChannel => DELETE_CHANNEL_HELP@,
        Handler::Off => OFF_HELP@,
        Handler::GetMessages => GET_MESSAGES_SUMMARY@,
        Handler::CreateChannel => CREATE_CHANNEL_SUMMARY@,
    }
}

/// The usage summary of a command.
pub fn usage_summary(handler: Handler) -> (text: &'static str)
    ensures
        text@ == summary_of(handler),
{
    match handler {
        Handler::Ping => PING_HELP,
        Handler::Help => HELP_HELP,
        Handler::DeleteChannel => DELETE_CHANNEL_HELP,
        Handler::Off => OFF_HELP,
        Handler::GetMessages => GET_MESSAGES_SUMMARY,
        Handler::CreateChannel => CREATE_CHANNEL_SUMMARY,
    }
}

/// Answers a ping.
pub fn ping(_args: &str) -> (action: Action)
    ensures
        action@ == ActionView::Reply(PING_MESSAGE@),
{
    Action::Reply(String::from_str(PING_MESSAGE))
}

/// Asks for the channel of the message to be deleted.
pub fn delete_channel(_args: &str) -> (action: Action)
    ensures
        action@ == ActionView::DeleteChannel,
{
    Action::DeleteChannel
}

/// Asks for the bot to be stopped, with its notice.
pub fn off(_args: &str) -> (action: Action)
    ensures
        action@ == ActionView::Shutdown(OFF_MESSAGE@),
{
    Action::Shutdown(String::from_str(OFF_MESSAGE))
}

/// What `get_messages` does with its arguments: their first token, read as a
/// decimal number, is the limit where it is at most [`MAX_MESSAGES`]; any
/// other argument is a usage error.
pub open spec fn get_messages_action(args: Seq<char>) -> ActionView {
    let words = tokens(args);
    if words.len() > 0 && decimal(words[0]) is Some && decimal(words[0])->0 <= MAX_MESSAGES {
        ActionView::FetchMessages {
            limit: decimal(words[0])->0 as u64,
            reply: GET_MESSAGES_MESSAGE@,
        }
    } else {
        ActionView::Reply(invalid_arguments_text(GET_MESSAGES_COMMAND@))
    }
}

/// Asks for the messages before this one, as many as the argument says.
pub fn get_messages(args: &str) -> (action: Action)
    ensures
        action@ == get_messages_action(args@),
{
    let words = split_whitespace(args);
    if words.len() > 0 {
        match parse_bounded(words[0].as_str(), MAX_MESSAGES) {
            Some(limit) => {
                return Action::FetchMessages {
                    limit,
                    reply: String::from_str(GET_MESSAGES_MESSAGE),
                };
            },
            None => {},
        }
    }
    Action::Reply(invalid_arguments_reply(GET_MESSAGES_COMMAND))
}

/// What `create_channel` does with its arguments: their first token names
/// the channel; no token is a usage error.
pub open spec fn create_channel_action(args: Seq<char>) -> ActionView {
    let words = tokens(args);
    if words.len() > 0 {
        ActionView::CreateChannel { name: words[0], reply: CREATE_CHANNEL_MESSAGE@ }
    } else {
        ActionView::Reply(invalid_arguments_text(CREATE_CHANNEL_COMMAND@))
    }
}

/// Asks for a text channel of the given name.
pub fn create_channel(args: &str) -> (action: Action)
    ensures
        action@ == create_channel_action(args@),
{
    let mut words = split_whitespace(args);
    if words.len() > 0 {
        let name = words.swap_remove(0);
        Action::CreateChannel { name, reply: String::from_str(CREATE_CHANNEL_MESSAGE) }
    } else {
        Action::Reply(invalid_arguments_reply(CREATE_CHANNEL_COMMAND))
    }
}

/// What `help` does with its arguments. Without a token it gives the
/// general help text. Else the first token is taken for the name of a command:
/// where no definition has that name, the reply says so; where one has, the
/// reply is the usage summary of the command.
pub open spec fn help_action(reg: Seq<CommandInfoView>, args: Seq<char>) -> Result<
    ActionView,
    DispatchError,
> {
    let words = tokens(args);
    if words.len() == 0 {
        Ok(ActionView::Reply(GENERAL_HELP@))
    } else if lookup(reg, words[0]) is None {
        Ok(ActionView::Reply(not_found_text(words[0])))
    } else {
        match handler_of(words[0]) {
            Some(handler) => Ok(ActionView::Reply(summary_of(handler))),
            None => Err(DispatchError::NoHandler),
        }
    }
}

/// Answers a call for help, in general or on the command that `args` names.
pub fn help(manager: &CommandManager, args: &str) -> (action: Action)
    requires
        handlers_complete(manager@),
    ensures
        help_action(manager@, args@) == Ok::<ActionView, DispatchError>(action@),
{
    let words = split_whitespace(args);
    if words.len() == 0 {
        return Action::Reply(String::from_str(GENERAL_HELP));
    }
    let word = words[0].as_str();
    if manager.command_valid(word).is_none() {
        return Action::Reply(not_found_reply(word));
    }
    proof {
        lemma_registered_has_handler(manager@, word@);
    }
    match handler_for(word) {
        Some(handler) => Action::Reply(String::from_str(usage_summary(handler))),
        None => unreached(),
    }
}

/// What the command named `alias` does with `args`: the action of the handler
/// that `alias` selects. Where it selects none, no dispatch is defined.
pub open spec fn dispatch(reg: Seq<CommandInfoView>, alias: Seq<char>, args: Seq<char>) -> Result<
    ActionView,
    DispatchError,
> {
    match handler_of(alias) {
        Some(Handler::Ping) => Ok(ActionView::Reply(PING_MESSAGE@)),
        Some(Handler::Help) => help_action(reg, args),
        Some(Handler::DeleteChannel) => Ok(ActionView::DeleteChannel),
        Some(Handler::Off) => Ok(ActionView::Shutdown(OFF_MESSAGE@)),
        Some(Handler::GetMessages) => Ok(get_messages_action(args)),
        Some(Handler::CreateChannel) => Ok(create_channel_action(args)),
        None => Err(DispatchError::NoHandler),
    }
}

/// In a registry where each name selects a handler, the dispatch of a name
/// that selects one is defined.
pub proof fn lemma_dispatch_defined(reg: Seq<CommandInfoView>, alias: Seq<char>, args: Seq<char>)
    requires
        handlers_complete(reg),
        handler_of(alias) is Some,
    ensures
        dispatch(reg, alias, args) is Ok,
{
    let words = tokens(args);
    if words.len() > 0 && lookup(reg, words[0]) is Some {
        lemma_registered_has_handler(reg, words[0]);
    }
}

} // verus!
