//! From a message to what the bot does about it.
//!
//! The way leads through the parser, the registry, the check on the
//! arguments, the check on the roles and the handler. The check on the roles
//! needs answers from the chat platform: the roles of the guild, and for each
//! role in question whether the caller holds it. The command manager asks for
//! them one [`Step`] at a time and holds no state between steps: a step that
//! asks carries what the next step needs.

use crate::cmd::{invalid_arguments_text, missing_roles_text, not_found_text};
use crate::command_manager::{lookup, CommandInfoView};
use crate::commands::{
    dispatch, handler_of, handlers_complete, lemma_dispatch_defined,
    lemma_registered_has_handler, Action, ActionView, DispatchError,
};
use crate::parser::{parse_message, ParsedInvocation, ParsedInvocationView};
use crate::validation::{
    arity_ok, lemma_required_ids_len, lemma_roles_ok_any_order, lemma_roles_ok_by_ids,
    required_ids, validation, GuildRoleView, ValidationResult,
};
use vstd::prelude::*;

verus! {

/// The user that the bot itself writes as: its own messages are not read.
pub const BOT_USER_ID: u64 = 865992990703091713;

/// The channel that holds the bot's status notices: messages in it are not read.
pub const BOT_INFO_CHANNEL_ID: u64 = 868751991755669514;

/// The guild that holds the status channel.
pub const BOT_INFO_GUILD_ID: u64 = 866289778486673458;

/// A call that passed the check on its arguments and waits for the roles of
/// the guild.
#[derive(Debug, PartialEq, Eq)]
pub struct PendingCall {
    pub invocation: ParsedInvocation,
    pub required_roles: Vec<String>,
}

/// A pending call over mathematical text.
pub struct PendingCallView {
    pub invocation: ParsedInvocationView,
    pub required_roles: Set<Seq<char>>,
}

impl View for PendingCall {
    type V = PendingCallView;

    open spec fn view(&self) -> PendingCallView {
        PendingCallView {
            invocation: self.invocation@,
            required_roles: self.required_roles.deep_view().to_set(),
        }
    }
}

/// A call that waits for the answer whether its caller holds the role
/// `asking`; the roles in `remaining` are asked for after it, in their order.
#[derive(Debug, PartialEq, Eq)]
pub struct RoleCheck {
    pub invocation: ParsedInvocation,
    pub asking: u64,
    pub remaining: Vec<u64>,
}

/// A role check over mathematical text.
pub struct RoleCheckView {
    pub invocation: ParsedInvocationView,
    pub asking: u64,
    pub remaining: Seq<u64>,
}

impl View for RoleCheck {
    type V = RoleCheckView;

    open spec fn view(&self) -> RoleCheckView {
        RoleCheckView {
            invocation: self.invocation@,
            asking: self.asking,
            remaining: self.remaining@,
        }
    }
}

/// What the command manager wants next.
#[derive(Debug, PartialEq, Eq)]
pub enum Step {
    /// The message is dealt with once this action is performed.
    Done(Action),
    /// The roles of the caller's guild are needed.
    ResolveGuildRoles(PendingCall),
    /// Whether the caller holds the role `asking` is needed.
    AskRole(RoleCheck),
}

/// A step over mathematical text. Beyond the steps that the command manager
/// takes it has one more: the failure of a dispatch, which is where a
/// registry with a name that selects no handler would lead.
pub enum StepView {
    Done(ActionView),
    Failed(DispatchError),
    ResolveGuildRoles(PendingCallView),
    AskRole(RoleCheckView),
}

impl View for Step {
    type V = StepView;

    open spec fn view(&self) -> StepView {
        match *self {
            Step::Done(action) => StepView::Done(action@),
            Step::ResolveGuildRoles(call) => StepView::ResolveGuildRoles(call@),
            Step::AskRole(check) => StepView::AskRole(check@),
        }
    }
}

/// Whether a message is left unread for where it comes from: the bot itself
/// wrote it, or it stands in the status channel.
pub open spec fn is_ignored(author: u64, channel: u64) -> bool {
    author == BOT_USER_ID || channel == BOT_INFO_CHANNEL_ID
}

/// The last step of a call that passed its checks: the handler's action, or
/// the failure to find a handler.
pub open spec fn conclude(reg: Seq<CommandInfoView>, invocation: ParsedInvocationView) -> StepView {
    match dispatch(reg, invocation.raw_command_token, invocation.raw_args) {
        Ok(action) => StepView::Done(action),
        Err(error) => StepView::Failed(error),
    }
}

/// The reply to a caller who lacks a required role.
pub open spec fn refuse(invocation: ParsedInvocationView) -> StepView {
    StepView::Done(ActionView::Reply(missing_roles_text(invocation.raw_command_token)))
}

/// The step that checks the roles `ids`: it asks for the first of them, and
/// concludes the call where there is none.
pub open spec fn check_roles(
    reg: Seq<CommandInfoView>,
    invocation: ParsedInvocationView,
    ids: Seq<u64>,
) -> StepView {
    if ids.len() == 0 {
        conclude(reg, invocation)
    } else {
        StepView::AskRole(RoleCheckView { invocation, asking: ids[0], remaining: ids.skip(1) })
    }
}

/// Whether a step can be followed: it is no failure, and the call that it
/// carries, if any, names a command with a handler.
pub open spec fn ready(step: StepView) -> bool {
    match step {
        StepView::Done(_) => true,
        StepView::Failed(_) => false,
        StepView::ResolveGuildRoles(call) => handler_of(call.invocation.raw_command_token) is Some,
        StepView::AskRole(check) => handler_of(check.invocation.raw_command_token) is Some,
    }
}

/// The first step on a message. A message that is left unread or is no
/// command asks for nothing. A command that no definition names, or whose
/// arguments are too few or too many, is answered at once. A command without
/// required roles is dispatched at once; one with required roles asks for the
/// roles of the guild.
pub open spec fn start(
    reg: Seq<CommandInfoView>,
    author: u64,
    channel: u64,
    content: Seq<char>,
) -> StepView {
    if is_ignored(author, channel) {
        StepView::Done(ActionView::Ignore)
    } else {
        match parse_message(content) {
            None => StepView::Done(ActionView::Ignore),
            Some(invocation) => match lookup(reg, invocation.raw_command_token) {
                None => StepView::Done(
                    ActionView::Reply(not_found_text(invocation.raw_command_token)),
                ),
                Some((i, _)) => if !arity_ok(reg[i], invocation.raw_args) {
                    StepView::Done(
                        ActionView::Reply(invalid_arguments_text(invocation.raw_command_token)),
                    )
                } else if reg[i].required_roles =~= Set::empty() {
                    conclude(reg, invocation)
                } else {
                    StepView::ResolveGuildRoles(
                        PendingCallView { invocation, required_roles: reg[i].required_roles },
                    )
                },
            },
        }
    }
}

/// The step that follows the arrival of the guild's roles: the check of those
/// among them whose names are required.
pub open spec fn after_guild_roles(
    reg: Seq<CommandInfoView>,
    call: PendingCallView,
    guild_roles: Seq<GuildRoleView>,
) -> StepView {
    check_roles(reg, call.invocation, required_ids(call.required_roles, guild_roles))
}

/// The step that follows the answer on one role: a caller without the role is
/// refused at once, and for one who holds it the check goes on.
pub open spec fn after_role_answer(
    reg: Seq<CommandInfoView>,
    check: RoleCheckView,
    has_role: bool,
) -> StepView {
    if has_role {
        check_roles(reg, check.invocation, check.remaining)
    } else {
        refuse(check.invocation)
    }
}

/// A bound on the number of questions that are still to be asked after `step`.
pub open spec fn questions_left(step: StepView, guild_roles: Seq<GuildRoleView>) -> nat {
    match step {
        StepView::Done(_) => 0,
        StepView::Failed(_) => 0,
        StepView::AskRole(check) => check.remaining.len() + 1,
        StepView::ResolveGuildRoles(_) => guild_roles.len() + 2,
    }
}

/// Where the steps end when each question is answered truly: with the roles
/// `guild_roles` of the guild, and of a role with whether it is in `held`.
pub open spec fn run(
    reg: Seq<CommandInfoView>,
    step: StepView,
    guild_roles: Seq<GuildRoleView>,
    held: Set<u64>,
) -> Result<ActionView, DispatchError>
    decreases questions_left(step, guild_roles),
{
    match step {
        StepView::Done(action) => Ok(action),
        StepView::Failed(error) => Err(error),
        StepView::ResolveGuildRoles(call) => {
            proof {
                lemma_required_ids_len(call.required_roles, guild_roles);
            }
            run(reg, after_guild_roles(reg, call, guild_roles), guild_roles, held)
        },
        StepView::AskRole(check) => run(
            reg,
            after_role_answer(reg, check, held.contains(check.asking)),
            guild_roles,
            held,
        ),
    }
}

/// What the bot does about a message, said at once: the message from
/// `author` in `channel` with the text `content`, in a guild with the roles
/// `guild_roles`, of which the author holds those in `held`.
pub open spec fn respond(
    reg: Seq<CommandInfoView>,
    author: u64,
    channel: u64,
    content: Seq<char>,
    guild_roles: Seq<GuildRoleView>,
    held: Set<u64>,
) -> Result<ActionView, DispatchError> {
    if is_ignored(author, channel) {
        Ok(ActionView::Ignore)
    } else {
        match parse_message(content) {
            None => Ok(ActionView::Ignore),
            Some(invocation) => match lookup(reg, invocation.raw_command_token) {
                None => Ok(ActionView::Reply(not_found_text(invocation.raw_command_token))),
                Some((i, _)) => match validation(reg[i], invocation.raw_args, guild_roles, held) {
                    ValidationResult::ArityInvalid => Ok(
                        ActionView::Reply(invalid_arguments_text(invocation.raw_command_token)),
                    ),
                    ValidationResult::RoleInvalid => Ok(
                        ActionView::Reply(missing_roles_text(invocation.raw_command_token)),
                    ),
                    ValidationResult::Valid => dispatch(
                        reg,
                        invocation.raw_command_token,
                        invocation.raw_args,
                    ),
                },
            },
        }
    }
}

/// The result of a dispatch as the end of a run.
pub open spec fn outcome(step: StepView) -> Result<ActionView, DispatchError>
    recommends
        step is Done || step is Failed,
{
    match step {
        StepView::Failed(error) => Err(error),
        StepView::Done(action) => Ok(action),
        _ => Ok(ActionView::Ignore),
    }
}

/// A check of the roles `ids` ends in the call's conclusion where the caller
/// holds each of them, and in a refusal where one is missing.
pub proof fn lemma_run_check_roles(
    reg: Seq<CommandInfoView>,
    invocation: ParsedInvocationView,
    ids: Seq<u64>,
    guild_roles: Seq<GuildRoleView>,
    held: Set<u64>,
)
    ensures
        run(reg, check_roles(reg, invocation, ids), guild_roles, held) == if forall|at: int|
            0 <= at < ids.len() ==> held.contains(#[trigger] ids[at]) {
            outcome(conclude(reg, invocation))
        } else {
            outcome(refuse(invocation))
        },
    decreases ids.len(),
{
    reveal_with_fuel(run, 2);
    if ids.len() > 0 {
        let rest = ids.skip(1);
        lemma_run_check_roles(reg, invocation, rest, guild_roles, held);
        if held.contains(ids[0]) {
            if forall|at: int| 0 <= at < rest.len() ==> held.contains(#[trigger] rest[at]) {
                assert forall|at: int| 0 <= at < ids.len() implies held.contains(
                    #[trigger] ids[at],
                ) by {
                    if at > 0 {
                        assert(ids[at] == rest[at - 1]);
                    }
                }
            } else {
                let at = choose|at: int| 0 <= at < rest.len() && !held.contains(#[trigger] rest[at]);
                assert(ids[at + 1] == rest[at]);
            }
        }
    }
}

/// The steps, run with true answers, end in what `respond` says: the bot does
/// about a message what the checks in their order allow, however many
/// questions it takes.
pub proof fn lemma_run_is_respond(
    reg: Seq<CommandInfoView>,
    author: u64,
    channel: u64,
    content: Seq<char>,
    guild_roles: Seq<GuildRoleView>,
    held: Set<u64>,
)
    ensures
        run(reg, start(reg, author, channel, content), guild_roles, held) == respond(
            reg,
            author,
            channel,
            content,
            guild_roles,
            held,
        ),
{
    if !is_ignored(author, channel) {
        match parse_message(content) {
            None => {},
            Some(invocation) => match lookup(reg, invocation.raw_command_token) {
                None => {},
                Some((i, _)) => {
                    let required = reg[i].required_roles;
                    if arity_ok(reg[i], invocation.raw_args) {
                        lemma_roles_ok_by_ids(required, guild_roles, held);
                        lemma_run_check_roles(
                            reg,
                            invocation,
                            required_ids(required, guild_roles),
                            guild_roles,
                            held,
                        );
                    }
                },
            },
        }
    }
}

/// Where the steps end does not depend on the order in which the chat
/// platform lists the roles of the guild: the questions may come in another
/// order, the end is the same.
pub proof fn lemma_run_any_order(
    reg: Seq<CommandInfoView>,
    author: u64,
    channel: u64,
    content: Seq<char>,
    guild_roles: Seq<GuildRoleView>,
    listed_otherwise: Seq<GuildRoleView>,
    held: Set<u64>,
)
    requires
        guild_roles.to_set() == listed_otherwise.to_set(),
    ensures
        run(reg, start(reg, author, channel, content), guild_roles, held) == run(
            reg,
            start(reg, author, channel, content),
            listed_otherwise,
            held,
        ),
{
    lemma_run_is_respond(reg, author, channel, content, guild_roles, held);
    lemma_run_is_respond(reg, author, channel, content, listed_otherwise, held);
    match parse_message(content) {
        Some(invocation) => match lookup(reg, invocation.raw_command_token) {
            Some((i, _)) => {
                lemma_roles_ok_any_order(reg[i].required_roles, guild_roles, listed_otherwise, held);
            },
            None => {},
        },
        None => {},
    }
}

/// In a registry where each name selects a handler, the check of the roles
/// of a call whose command has a handler gives a step that can be followed.
pub proof fn lemma_check_roles_ready(
    reg: Seq<CommandInfoView>,
    invocation: ParsedInvocationView,
    ids: Seq<u64>,
)
    requires
        handlers_complete(reg),
        handler_of(invocation.raw_command_token) is Some,
    ensures
        ready(check_roles(reg, invocation, ids)),
{
    lemma_dispatch_defined(reg, invocation.raw_command_token, invocation.raw_args);
}

/// In a registry where each name selects a handler, the first step on any
/// message can be followed.
pub proof fn lemma_start_ready(
    reg: Seq<CommandInfoView>,
    author: u64,
    channel: u64,
    content: Seq<char>,
)
    requires
        handlers_complete(reg),
    ensures
        ready(start(reg, author, channel, content)),
{
    match parse_message(content) {
        Some(invocation) => {
            if lookup(reg, invocation.raw_command_token) is Some {
                lemma_registered_has_handler(reg, invocation.raw_command_token);
                lemma_dispatch_defined(reg, invocation.raw_command_token, invocation.raw_args);
            }
        },
        None => {},
    }
}

/// In a registry where each name selects a handler, every message has an
/// action: no dispatch fails.
pub proof fn lemma_complete_never_fails(
    reg: Seq<CommandInfoView>,
    author: u64,
    channel: u64,
    content: Seq<char>,
    guild_roles: Seq<GuildRoleView>,
    held: Set<u64>,
)
    requires
        handlers_complete(reg),
    ensures
        respond(reg, author, channel, content, guild_roles, held) is Ok,
{
    match parse_message(content) {
        Some(invocation) => {
            if lookup(reg, invocation.raw_command_token) is Some {
                lemma_registered_has_handler(reg, invocation.raw_command_token);
                lemma_dispatch_defined(reg, invocation.raw_command_token, invocation.raw_args);
            }
        },
        None => {},
    }
}

} // verus!
