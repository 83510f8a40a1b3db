//! The command manager: the registry of command definitions, the parser that
//! finds a command in a message, and the checks on arguments and roles.

use crate::cmd::{invalid_arguments_reply, missing_roles_reply, not_found_reply};
use crate::commands::{
    create_channel, delete_channel, dispatch, get_messages, handler_for, handler_of,
    handlers_complete, help, lemma_registered_has_handler, off, ping, Action, ActionView,
    DispatchError, Handler,
};
use crate::dispatch::{
    after_guild_roles, after_role_answer, check_roles, conclude, lemma_check_roles_ready,
    lemma_run_is_respond, lemma_start_ready, questions_left, ready, respond, run, start,
    PendingCall, RoleCheck, Step, BOT_INFO_CHANNEL_ID, BOT_USER_ID,
};
use crate::parser::{command_token, raw_args, ParsedInvocation, PREFIX};
use crate::text::{chars_of, split_whitespace, str_eq, token_end};
use crate::validation::{
    arity_ok, has_id, lemma_required_ids_len, lemma_roles_ok_by_ids, pick_required,
    required_ids, roles_ok, validation, GuildRole, ValidationResult,
};
use vstd::prelude::*;

verus! {

/// One command: the names that select it, how many arguments it takes, and
/// the roles that a caller must hold.
pub struct CommandInfo {
    commands: Vec<String>,
    min_args: usize,
    max_args: usize,
    required_roles: Vec<String>,
}

/// A command definition as mathematics.
pub struct CommandInfoView {
    /// The names that select the command, in the order given at registration.
    pub aliases: Seq<Seq<char>>,
    /// The least number of arguments that the command takes.
    pub min_args: nat,
    /// The greatest number of arguments that the command takes.
    pub max_args: nat,
    /// The names of the roles that a caller must hold; none means no restriction.
    pub required_roles: Set<Seq<char>>,
}

impl View for CommandInfo {
    type V = CommandInfoView;

    closed spec fn view(&self) -> CommandInfoView {
        CommandInfoView {
            aliases: self.commands.deep_view(),
            min_args: self.min_args as nat,
            max_args: self.max_args as nat,
            required_roles: self.required_roles.deep_view().to_set(),
        }
    }
}

/// The registry: the command definitions in the order of their registration.
pub struct CommandManager {
    pub command_infos: Vec<CommandInfo>,
}

impl View for CommandManager {
    type V = Seq<CommandInfoView>;

    open spec fn view(&self) -> Seq<CommandInfoView> {
        self.command_infos@.map_values(|info: CommandInfo| info@)
    }
}

/// Whether alias `j` of definition `i` is `token`.
pub open spec fn names(reg: Seq<CommandInfoView>, token: Seq<char>, i: int, j: int) -> bool {
    &&& 0 <= i < reg.len()
    &&& 0 <= j < reg[i].aliases.len()
    &&& reg[i].aliases[j] == token
}

/// Whether some definition has `token` among its aliases.
pub open spec fn is_registered(reg: Seq<CommandInfoView>, token: Seq<char>) -> bool {
    exists|i: int, j: int| names(reg, token, i, j)
}

/// Whether alias `j` of definition `i` is `token`, and no alias before it is:
/// none of an earlier definition, and no earlier one of definition `i`.
pub open spec fn is_first_match(reg: Seq<CommandInfoView>, token: Seq<char>, i: int, j: int) -> bool {
    &&& names(reg, token, i, j)
    &&& forall|k: int, l: int| #[trigger] names(reg, token, k, l) ==> i < k || (i == k && j <= l)
}

/// The definition that `token` selects, and the place of `token` among its
/// aliases. Where several definitions share an alias, the one registered
/// first is selected.
pub open spec fn lookup(reg: Seq<CommandInfoView>, token: Seq<char>) -> Option<(int, int)>
    decreases reg.len(),
{
    if reg.len() == 0 {
        None
    } else {
        match lookup(reg.drop_last(), token) {
            Some(found) => Some(found),
            None => match reg.last().aliases.index_of_first(token) {
                Some(j) => Some((reg.len() - 1, j)),
                None => None,
            },
        }
    }
}

/// `lookup` finds the first alias that is `token`, and finds none only where
/// no definition has such an alias.
pub proof fn lemma_lookup_is_first_match(reg: Seq<CommandInfoView>, token: Seq<char>)
    ensures
        match lookup(reg, token) {
            Some((i, j)) => is_first_match(reg, token, i, j),
            None => !is_registered(reg, token),
        },
    decreases reg.len(),
{
    if reg.len() > 0 {
        let before = reg.drop_last();
        lemma_lookup_is_first_match(before, token);
        reg.last().aliases.index_of_first_ensures(token);
        assert forall|k: int, l: int| k < reg.len() - 1 implies names(before, token, k, l) == names(
            reg,
            token,
            k,
            l,
        ) by {}
        if lookup(reg, token) is None {
            assert forall|k: int, l: int| !names(reg, token, k, l) by {}
        }
    }
}

/// The first alias that is `token` is what `lookup` finds.
pub proof fn lemma_first_match_is_lookup(reg: Seq<CommandInfoView>, token: Seq<char>, i: int, j: int)
    requires
        is_first_match(reg, token, i, j),
    ensures
        lookup(reg, token) == Some((i, j)),
{
    lemma_lookup_is_first_match(reg, token);
}

/// Registering a definition changes nothing for a token that an earlier
/// definition has: the token stays with the definition registered first.
pub proof fn lemma_register_keeps_first(
    reg: Seq<CommandInfoView>,
    info: CommandInfoView,
    token: Seq<char>,
)
    requires
        lookup(reg, token) is Some,
    ensures
        lookup(reg.push(info), token) == lookup(reg, token),
{
    assert(reg.push(info).drop_last() == reg);
}

/// A token that no earlier definition has selects the new definition where
/// it is one of its aliases, at the first place where it stands among them,
/// and still selects nothing where it is not.
pub proof fn lemma_register_adds(reg: Seq<CommandInfoView>, info: CommandInfoView, token: Seq<char>)
    requires
        lookup(reg, token) is None,
    ensures
        lookup(reg.push(info), token) == match info.aliases.index_of_first(token) {
            Some(j) => Some((reg.len() as int, j)),
            None => None,
        },
{
    assert(reg.push(info).drop_last() == reg);
}

/// Of two definitions that share an alias, registered one after the other,
/// the second is never selected by it: the alias selects the first of the
/// two, or a definition that had it before them.
pub proof fn lemma_alias_collision(
    reg: Seq<CommandInfoView>,
    first: CommandInfoView,
    second: CommandInfoView,
    alias: Seq<char>,
)
    requires
        first.aliases.contains(alias),
        second.aliases.contains(alias),
    ensures
        lookup(reg.push(first).push(second), alias) == lookup(reg.push(first), alias),
        lookup(reg.push(first), alias) matches Some((i, _)) && (if is_registered(reg, alias) {
            i < reg.len()
        } else {
            i == reg.len()
        }),
{
    first.aliases.index_of_first_ensures(alias);
    lemma_lookup_is_first_match(reg, alias);
    if lookup(reg, alias) is Some {
        lemma_register_keeps_first(reg, first, alias);
    } else {
        lemma_register_adds(reg, first, alias);
    }
    lemma_register_keeps_first(reg.push(first), second, alias);
}

/// Whether no alias stands twice in the registry: not in two definitions, and
/// not twice in one.
pub open spec fn aliases_unique(reg: Seq<CommandInfoView>) -> bool {
    forall|i: int, j: int, k: int, l: int|
        #![trigger reg[i].aliases[j], reg[k].aliases[l]]
        0 <= i < reg.len() && 0 <= j < reg[i].aliases.len() && 0 <= k < reg.len() && 0 <= l
            < reg[k].aliases.len() && reg[i].aliases[j] == reg[k].aliases[l] ==> i == k && j == l
}

/// Where no alias stands twice in the registry, an alias selects the one
/// definition that has it.
pub proof fn lemma_unique_alias_selects(
    reg: Seq<CommandInfoView>,
    token: Seq<char>,
    i: int,
    j: int,
)
    requires
        aliases_unique(reg),
        names(reg, token, i, j),
    ensures
        lookup(reg, token) == Some((i, j)),
{
    lemma_lookup_is_first_match(reg, token);
}

/// A registry without a repeated alias stays so when a definition is added
/// whose aliases differ from each other and from all that are registered.
pub proof fn lemma_register_keeps_unique(reg: Seq<CommandInfoView>, info: CommandInfoView)
    requires
        aliases_unique(reg),
        info.aliases.no_duplicates(),
        forall|j: int| 0 <= j < info.aliases.len() ==> !is_registered(reg, #[trigger] info.aliases[j]),
    ensures
        aliases_unique(reg.push(info)),
{
    let after = reg.push(info);
    assert forall|i: int, j: int, k: int, l: int|
        #![trigger after[i].aliases[j], after[k].aliases[l]]
        0 <= i < after.len() && 0 <= j < after[i].aliases.len() && 0 <= k < after.len() && 0 <= l
            < after[k].aliases.len() && after[i].aliases[j] == after[k].aliases[l] implies i == k
        && j == l by {
        if i < reg.len() && k == reg.len() {
            assert(names(reg, info.aliases[l], i, j));
        } else if i == reg.len() && k < reg.len() {
            assert(names(reg, info.aliases[j], k, l));
        }
    }
}

/// Copies each of `items`.
fn clone_texts(items: &Vec<String>) -> (out: Vec<String>)
    ensures
        out.deep_view() == items.deep_view(),
{
    let mut out: Vec<String> = Vec::new();
    let mut i: usize = 0;
    while i < items.len()
        invariant
            i <= items.len(),
            out.len() == i,
            forall|k: int| 0 <= k < i ==> out@[k]@ == items@[k]@,
        decreases items.len() - i,
    {
        out.push(items[i].clone());
        i += 1;
    }
    out
}

/// Copies each text of `items` into a string of its own.
fn owned_texts(items: &[&str]) -> (out: Vec<String>)
    ensures
        out.deep_view() == items.deep_view(),
{
    let mut out: Vec<String> = Vec::new();
    let mut i: usize = 0;
    while i < items.len()
        invariant
            i <= items.len(),
            out.len() == i,
            forall|k: int| 0 <= k < i ==> out@[k]@ == items@[k]@,
        decreases items.len() - i,
    {
        out.push(String::from_str(items[i]));
        i += 1;
    }
    out
}

impl CommandManager {
    /// A registry without definitions.
    pub fn new() -> (manager: CommandManager)
        ensures
            manager@ == Seq::<CommandInfoView>::empty(),
    {
        let manager = CommandManager { command_infos: Vec::new() };
        manager
    }

    /// Adds a command that any of `commands` selects, that takes from
    /// `min_args` to `max_args` arguments, and that asks of its caller the
    /// roles named in `required_roles`.
    pub fn register(
        &mut self,
        commands: &[&str],
        min_args: usize,
        max_args: usize,
        required_roles: &[&str],
    )
        ensures
            final(self)@ == old(self)@.push(
                (CommandInfoView {
                    aliases: commands.deep_view(),
                    min_args: min_args as nat,
                    max_args: max_args as nat,
                    required_roles: required_roles.deep_view().to_set(),
                }),
            ),
    {
        let info = CommandInfo {
            commands: owned_texts(commands),
            min_args,
            max_args,
            required_roles: owned_texts(required_roles),
        };
        self.command_infos.push(info);
    }

    /// Finds the definition that `command_str` selects: the index of the
    /// definition and the index of the alias in it.
    pub fn command_valid(&self, command_str: &str) -> (found: Option<(usize, usize)>)
        ensures
            match found {
                Some((i, j)) => names(self@, command_str@, i as int, j as int) && lookup(
                    self@,
                    command_str@,
                ) == Some((i as int, j as int)),
                None => lookup(self@, command_str@) is None,
            },
    {
        let mut i: usize = 0;
        while i < self.command_infos.len()
            invariant
                i <= self.command_infos.len(),
                forall|k: int, l: int| names(self@, command_str@, k, l) ==> i <= k,
            decreases self.command_infos.len() - i,
        {
            let info = &self.command_infos[i];
            let mut j: usize = 0;
            while j < info.commands.len()
                invariant
                    i < self.command_infos.len(),
                    info == &self.command_infos[i as int],
                    j <= info.commands.len(),
                    forall|k: int, l: int|
                        names(self@, command_str@, k, l) ==> i < k || (i == k && j <= l),
                decreases info.commands.len() - j,
            {
                if str_eq(command_str, info.commands[j].as_str()) {
                    proof {
                        lemma_first_match_is_lookup(self@, command_str@, i as int, j as int);
                    }
                    return Some((i, j));
                }
                j += 1;
            }
            i += 1;
        }
        proof {
            lemma_lookup_is_first_match(self@, command_str@);
        }
        None
    }

    /// Reads the command token of a message: the text from behind the prefix
    /// to the first whitespace. A message that does not begin with the prefix
    /// is not a command and has none.
    pub fn get_command(content: &str) -> (command: Option<String>)
        ensures
            match command {
                Some(token) => command_token(content@) == Some(token@),
                None => command_token(content@) is None,
            },
    {
        let chars = chars_of(content);
        if chars.len() == 0 || chars[0] != PREFIX {
            return None;
        }
        let end = token_end(&chars, 1);
        Some(content.substring_char(1, end).to_owned())
    }

    /// Reads the raw arguments of a message: all that follows the command
    /// token and the one whitespace character behind it.
    pub fn get_args(content: &str) -> (args: String)
        ensures
            args@ == raw_args(content@),
    {
        let chars = chars_of(content);
        if chars.len() == 0 || chars[0] != PREFIX {
            return String::new();
        }
        let end = token_end(&chars, 1);
        if end < chars.len() {
            assert(content@.skip(1).skip(end - 1 + 1) == content@.subrange(
                end + 1,
                content@.len() as int,
            ));
            content.substring_char(end + 1, chars.len()).to_owned()
        } else {
            String::new()
        }
    }

    /// Tells whether the number of arguments in `args_str` is one that the
    /// definition at `command_indices.0` takes.
    pub fn args_valid(&self, command_indices: (usize, usize), args_str: &str) -> (valid: bool)
        requires
            command_indices.0 < self@.len(),
        ensures
            valid == arity_ok(self@[command_indices.0 as int], args_str@),
    {
        let info = &self.command_infos[command_indices.0];
        let args_len = split_whitespace(args_str).len();
        info.min_args <= args_len && args_len <= info.max_args
    }

    /// Tells whether a caller who holds the roles `held_roles` may call the
    /// definition at `command_indices.0` in a guild whose roles are `all_roles`.
    pub fn roles_valid(
        &self,
        command_indices: (usize, usize),
        all_roles: &Vec<GuildRole>,
        held_roles: &Vec<u64>,
    ) -> (valid: bool)
        requires
            command_indices.0 < self@.len(),
        ensures
            valid == roles_ok(
                self@[command_indices.0 as int].required_roles,
                all_roles.deep_view(),
                held_roles@.to_set(),
            ),
    {
        let info = &self.command_infos[command_indices.0];
        let required_roles = pick_required(&info.required_roles, all_roles);
        let ghost required = self@[command_indices.0 as int].required_roles;
        let ghost held = held_roles@.to_set();
        proof {
            lemma_roles_ok_by_ids(required, all_roles.deep_view(), held);
        }
        let mut i: usize = 0;
        while i < required_roles.len()
            invariant
                i <= required_roles.len(),
                held == held_roles@.to_set(),
                required == self@[command_indices.0 as int].required_roles,
                roles_ok(required, all_roles.deep_view(), held) <==> forall|at: int|
                    0 <= at < required_roles@.len() ==> held.contains(
                        #[trigger] required_roles@[at],
                    ),
                forall|k: int| 0 <= k < i ==> held.contains(required_roles@[k]),
            decreases required_roles.len() - i,
        {
            if !has_id(held_roles, required_roles[i]) {
                return false;
            }
            i += 1;
        }
        true
    }

    /// Runs the checks on a call of the definition at `command_indices.0`:
    /// the arguments first, and the roles only where the arguments passed.
    pub fn validate(
        &self,
        command_indices: (usize, usize),
        raw_args: &str,
        all_roles: &Vec<GuildRole>,
        held_roles: &Vec<u64>,
    ) -> (result: ValidationResult)
        requires
            command_indices.0 < self@.len(),
        ensures
            result == validation(
                self@[command_indices.0 as int],
                raw_args@,
                all_roles.deep_view(),
                held_roles@.to_set(),
            ),
    {
        if !self.args_valid(command_indices, raw_args) {
            ValidationResult::ArityInvalid
        } else if !self.roles_valid(command_indices, all_roles, held_roles) {
            ValidationResult::RoleInvalid
        } else {
            ValidationResult::Valid
        }
    }

    /// Tells whether each name in the registry selects a handler. Only such
    /// a registry can be dispatched from.
    pub fn handlers_complete(&self) -> (complete: bool)
        ensures
            complete == handlers_complete(self@),
    {
        let mut i: usize = 0;
        while i < self.command_infos.len()
            invariant
                i <= self.command_infos.len(),
                forall|k: int, l: int|
                    0 <= k < i && 0 <= l < self@[k].aliases.len() ==> handler_of(
                        #[trigger] self@[k].aliases[l],
                    ) is Some,
            decreases self.command_infos.len() - i,
        {
            let info = &self.command_infos[i];
            let mut j: usize = 0;
            while j < info.commands.len()
                invariant
                    i < self.command_infos.len(),
                    info == &self.command_infos[i as int],
                    j <= info.commands.len(),
                    forall|l: int|
                        0 <= l < j ==> handler_of(#[trigger] self@[i as int].aliases[l]) is Some,
                decreases info.commands.len() - j,
            {
                if handler_for(info.commands[j].as_str()).is_none() {
                    assert(self@[i as int].aliases[j as int] == info.commands@[j as int]@);
                    return false;
                }
                assert(self@[i as int].aliases[j as int] == info.commands@[j as int]@);
                j += 1;
            }
            assert(self@[i as int].aliases.len() == info.commands.len());
            i += 1;
        }
        true
    }

    /// Calls the handler that `command` selects, with `args`. The registry
    /// must be one in which each name selects a handler, and `command` a name
    /// that selects one.
    pub fn execute_cmd(&self, command: &str, args: &str) -> (action: Action)
        requires
            handlers_complete(self@),
            handler_of(command@) is Some,
        ensures
            dispatch(self@, command@, args@) == Ok::<ActionView, DispatchError>(action@),
    {
        match handler_for(command) {
            Some(Handler::Ping) => ping(args),
            Some(Handler::Help) => help(self, args),
            Some(Handler::DeleteChannel) => delete_channel(args),
            Some(Handler::Off) => off(args),
            Some(Handler::GetMessages) => get_messages(args),
            Some(Handler::CreateChannel) => create_channel(args),
            None => unreached(),
        }
    }

    /// Dispatches a call that passed its checks.
    fn conclude(&self, invocation: ParsedInvocation) -> (step: Step)
        requires
            handlers_complete(self@),
            handler_of(invocation@.raw_command_token) is Some,
        ensures
            step@ == conclude(self@, invocation@),
    {
        Step::Done(
            self.execute_cmd(invocation.raw_command_token.as_str(), invocation.raw_args.as_str()),
        )
    }

    /// Asks for the first of the roles `ids`, or dispatches the call where
    /// there is none.
    fn check_roles(&self, invocation: ParsedInvocation, ids: Vec<u64>) -> (step: Step)
        requires
            handlers_complete(self@),
            handler_of(invocation@.raw_command_token) is Some,
        ensures
            step@ == check_roles(self@, invocation@, ids@),
    {
        let mut remaining = ids;
        if remaining.len() == 0 {
            self.conclude(invocation)
        } else {
            let asking = remaining.remove(0);
            Step::AskRole(RoleCheck { invocation, asking, remaining })
        }
    }

    /// Takes the first step on a message from the user `author` in the channel
    /// `channel`: reads the command, finds its definition, checks the number
    /// of its arguments, and dispatches it or asks for the roles of the guild.
    /// The registry must be one in which each name selects a handler.
    pub fn handle_messages(&self, author: u64, channel: u64, content: &str) -> (step: Step)
        requires
            handlers_complete(self@),
        ensures
            step@ == start(self@, author, channel, content@),
    {
        if author == BOT_USER_ID || channel == BOT_INFO_CHANNEL_ID {
            return Step::Done(Action::Ignore);
        }
        match CommandManager::get_command(content) {
            Some(cmd) => {
                match self.command_valid(cmd.as_str()) {
                    Some(cmd_indices) => {
                        let args = CommandManager::get_args(content);
                        if self.args_valid(cmd_indices, args.as_str()) {
                            let info = &self.command_infos[cmd_indices.0];
                            proof {
                                lemma_registered_has_handler(self@, cmd@);
                            }
                            if info.required_roles.len() == 0 {
                                self.conclude(
                                    ParsedInvocation { raw_command_token: cmd, raw_args: args },
                                )
                            } else {
                                assert(info@.required_roles.contains(info.required_roles@[0]@)) by {
                                    assert(info.required_roles.deep_view()[0]
                                        == info.required_roles@[0]@);
                                }
                                Step::ResolveGuildRoles(
                                    PendingCall {
                                        invocation: ParsedInvocation {
                                            raw_command_token: cmd,
                                            raw_args: args,
                                        },
                                        required_roles: clone_texts(&info.required_roles),
                                    },
                                )
                            }
                        } else {
                            Step::Done(Action::Reply(invalid_arguments_reply(cmd.as_str())))
                        }
                    },
                    None => Step::Done(Action::Reply(not_found_reply(cmd.as_str()))),
                }
            },
            None => Step::Done(Action::Ignore),
        }
    }

    /// Takes the step that follows the arrival of the guild's roles: picks
    /// those whose names the command requires, and asks for the first of them
    /// or, where there is none, dispatches the call. The call must be one
    /// that a step of this registry handed out: its command has a handler.
    pub fn on_guild_roles(&self, call: PendingCall, all_roles: &Vec<GuildRole>) -> (step: Step)
        requires
            handlers_complete(self@),
            handler_of(call@.invocation.raw_command_token) is Some,
        ensures
            step@ == after_guild_roles(self@, call@, all_roles.deep_view()),
    {
        let required_roles = pick_required(&call.required_roles, all_roles);
        self.check_roles(call.invocation, required_roles)
    }

    /// Takes the step that follows the answer whether the caller holds the
    /// role asked for: refuses the call where they do not, and else asks for
    /// the next role or, where there is none, dispatches the call. The check
    /// must be one that a step of this registry handed out: its command has
    /// a handler.
    pub fn on_role_answer(&self, check: RoleCheck, has_role: bool) -> (step: Step)
        requires
            handlers_complete(self@),
            handler_of(check@.invocation.raw_command_token) is Some,
        ensures
            step@ == after_role_answer(self@, check@, has_role),
    {
        if has_role {
            self.check_roles(check.invocation, check.remaining)
        } else {
            Step::Done(
                Action::Reply(missing_roles_reply(check.invocation.raw_command_token.as_str())),
            )
        }
    }

    /// Deals with a message at once, for a caller whose guild has the roles
    /// `all_roles` and who holds the roles `held_roles`: takes the steps one
    /// after the other and answers each question from the two lists. The
    /// registry must be one in which each name selects a handler.
    pub fn respond(
        &self,
        author: u64,
        channel: u64,
        content: &str,
        all_roles: &Vec<GuildRole>,
        held_roles: &Vec<u64>,
    ) -> (action: Action)
        requires
            handlers_complete(self@),
        ensures
            respond(self@, author, channel, content@, all_roles.deep_view(), held_roles@.to_set())
                == Ok::<ActionView, DispatchError>(action@),
    {
        let ghost roles = all_roles.deep_view();
        let ghost held = held_roles@.to_set();
        let ghost end = respond(self@, author, channel, content@, roles, held);
        let mut step = self.handle_messages(author, channel, content);
        proof {
            lemma_run_is_respond(self@, author, channel, content@, roles, held);
            lemma_start_ready(self@, author, channel, content@);
        }
        loop
            invariant
                handlers_complete(self@),
                roles == all_roles.deep_view(),
                held == held_roles@.to_set(),
                end == respond(self@, author, channel, content@, roles, held),
                run(self@, step@, roles, held) == end,
                ready(step@),
            decreases questions_left(step@, roles),
        {
            match step {
                Step::Done(action) => {
                    return action;
                },
                Step::ResolveGuildRoles(call) => {
                    proof {
                        lemma_required_ids_len(call@.required_roles, roles);
                        lemma_check_roles_ready(
                            self@,
                            call@.invocation,
                            required_ids(call@.required_roles, roles),
                        );
                    }
                    step = self.on_guild_roles(call, all_roles);
                },
                Step::AskRole(check) => {
                    let has_role = has_id(held_roles, check.asking);
                    proof {
                        lemma_check_roles_ready(self@, check@.invocation, check@.remaining);
                    }
                    step = self.on_role_answer(check, has_role);
                },
            }
        }
    }
}

} // verus!
