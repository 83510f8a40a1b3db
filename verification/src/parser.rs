//! The message parser: what a message says where it is meant for the bot.
//!
//! A message is a candidate for a command where its first character is the
//! prefix. The command token runs from behind the prefix to the first
//! whitespace character or to the end; the raw arguments are all that follows
//! that one whitespace character.

use crate::command_manager::CommandManager;
use crate::text::{is_whitespace, lemma_token_len, lemma_token_len_unique, token_len};
use vstd::prelude::*;

verus! {

/// The character that opens a command.
pub const PREFIX: char = '!';

/// A message taken apart: the command token and the raw arguments.
#[derive(Debug, PartialEq, Eq)]
pub struct ParsedInvocation {
    pub raw_command_token: String,
    pub raw_args: String,
}

/// A parsed message over mathematical text.
pub struct ParsedInvocationView {
    pub raw_command_token: Seq<char>,
    pub raw_args: Seq<char>,
}

impl View for ParsedInvocation {
    type V = ParsedInvocationView;

    open spec fn view(&self) -> ParsedInvocationView {
        ParsedInvocationView {
            raw_command_token: self.raw_command_token@,
            raw_args: self.raw_args@,
        }
    }
}

/// Whether `msg` is a candidate for a command: its first character is the prefix.
pub open spec fn is_command(msg: Seq<char>) -> bool {
    msg.len() > 0 && msg[0] == PREFIX
}

/// What a message says: nothing where it is no candidate for a command, else
/// the command token and the raw arguments.
pub open spec fn parse_message(msg: Seq<char>) -> Option<ParsedInvocationView> {
    if is_command(msg) {
        let rest = msg.skip(1);
        let n = token_len(rest) as int;
        Some(
            ParsedInvocationView {
                raw_command_token: rest.take(n),
                raw_args: if n < rest.len() {
                    rest.skip(n + 1)
                } else {
                    Seq::empty()
                },
            },
        )
    } else {
        None
    }
}

/// The command token of `msg`, if `msg` is a candidate for a command.
pub open spec fn command_token(msg: Seq<char>) -> Option<Seq<char>> {
    match parse_message(msg) {
        Some(parsed) => Some(parsed.raw_command_token),
        None => None,
    }
}

/// The raw arguments of `msg`; empty where `msg` is no candidate for a command.
pub open spec fn raw_args(msg: Seq<char>) -> Seq<char> {
    match parse_message(msg) {
        Some(parsed) => parsed.raw_args,
        None => Seq::empty(),
    }
}

/// Takes a message apart.
pub fn parse(content: &str) -> (parsed: Option<ParsedInvocation>)
    ensures
        match parsed {
            Some(invocation) => parse_message(content@) == Some(invocation@),
            None => parse_message(content@) is None,
        },
{
    match CommandManager::get_command(content) {
        Some(raw_command_token) => Some(
            ParsedInvocation { raw_command_token, raw_args: CommandManager::get_args(content) },
        ),
        None => None,
    }
}

/// A message that does not begin with the prefix is not a command; the empty
/// message is none either.
pub proof fn lemma_not_a_command(msg: Seq<char>)
    requires
        msg.len() == 0 || msg[0] != PREFIX,
    ensures
        parse_message(msg) is None,
{
}

/// The command token holds no whitespace.
pub proof fn lemma_token_without_whitespace(msg: Seq<char>)
    requires
        is_command(msg),
    ensures
        forall|i: int|
            0 <= i < command_token(msg)->0.len() ==> !is_whitespace(
                #[trigger] command_token(msg)->0[i],
            ),
{
    lemma_token_len(msg.skip(1));
}

/// A message written as the prefix, a token free of whitespace, one
/// whitespace character and any text is read back as that token and that
/// text.
pub proof fn lemma_parse_written(token: Seq<char>, separator: char, args: Seq<char>)
    requires
        forall|i: int| 0 <= i < token.len() ==> !is_whitespace(#[trigger] token[i]),
        is_whitespace(separator),
    ensures
        parse_message(seq![PREFIX] + token + seq![separator] + args) == Some(
            (ParsedInvocationView { raw_command_token: token, raw_args: args }),
        ),
{
    let msg = seq![PREFIX] + token + seq![separator] + args;
    let rest = msg.skip(1);
    assert forall|i: int| 0 <= i < token.len() implies !is_whitespace(#[trigger] rest[i]) by {
        assert(rest[i] == token[i]);
    }
    assert(rest[token.len() as int] == separator);
    lemma_token_len_unique(rest, token.len() as int);
    assert(rest.take(token.len() as int) =~= token);
    assert(rest.skip(token.len() as int + 1) =~= args);
}

/// A message written as the prefix and a token free of whitespace is read
/// back as that token, with no arguments. The prefix alone gives the empty
/// token.
pub proof fn lemma_parse_bare(token: Seq<char>)
    requires
        forall|i: int| 0 <= i < token.len() ==> !is_whitespace(#[trigger] token[i]),
    ensures
        parse_message(seq![PREFIX] + token) == Some(
            (ParsedInvocationView { raw_command_token: token, raw_args: Seq::empty() }),
        ),
{
    let msg = seq![PREFIX] + token;
    let rest = msg.skip(1);
    assert(rest =~= token);
    lemma_token_len_unique(rest, token.len() as int);
    assert(rest.take(token.len() as int) =~= token);
}

} // verus!
