//! The checks that stand between a command and its handler: the number of
//! arguments, then the roles of the caller.

use crate::command_manager::CommandInfoView;
use crate::text::{str_eq, tokens};
use vstd::prelude::*;

verus! {

/// Whether the number of tokens in `args` lies within the range of `info`,
/// both ends included.
pub open spec fn arity_ok(info: CommandInfoView, args: Seq<char>) -> bool {
    info.min_args <= tokens(args).len() <= info.max_args
}

/// A definition whose least number of arguments is above its greatest takes
/// no call at all.
pub proof fn lemma_empty_range_takes_nothing(info: CommandInfoView, args: Seq<char>)
    requires
        info.min_args > info.max_args,
    ensures
        !arity_ok(info, args),
{
}

/// A role of a guild: its identifier and its display name.
#[derive(Debug, PartialEq, Eq)]
pub struct GuildRole {
    pub id: u64,
    pub name: String,
}

/// A guild role over mathematical text.
pub struct GuildRoleView {
    pub id: u64,
    pub name: Seq<char>,
}

impl View for GuildRole {
    type V = GuildRoleView;

    open spec fn view(&self) -> GuildRoleView {
        GuildRoleView { id: self.id, name: self.name@ }
    }
}

impl DeepView for GuildRole {
    type V = GuildRoleView;

    open spec fn deep_view(&self) -> GuildRoleView {
        self@
    }
}

/// Whether a caller who holds the roles `held` may call a command that
/// requires the roles named in `required`, in a guild whose roles are
/// `guild_roles`: the caller holds every role of the guild whose name is
/// required. A required name that no role of the guild bears asks nothing.
pub open spec fn roles_ok(
    required: Set<Seq<char>>,
    guild_roles: Seq<GuildRoleView>,
    held: Set<u64>,
) -> bool {
    forall|k: int|
        0 <= k < guild_roles.len() && required.contains((#[trigger] guild_roles[k]).name)
            ==> held.contains(guild_roles[k].id)
}

/// The identifiers of the roles of the guild whose names are required, in
/// the order of `guild_roles`.
pub open spec fn required_ids(required: Set<Seq<char>>, guild_roles: Seq<GuildRoleView>) -> Seq<u64>
    decreases guild_roles.len(),
{
    if guild_roles.len() == 0 {
        Seq::empty()
    } else {
        let before = required_ids(required, guild_roles.drop_last());
        if required.contains(guild_roles.last().name) {
            before.push(guild_roles.last().id)
        } else {
            before
        }
    }
}

/// There are no more identifiers in `required_ids` than roles in the guild.
pub proof fn lemma_required_ids_len(required: Set<Seq<char>>, guild_roles: Seq<GuildRoleView>)
    ensures
        required_ids(required, guild_roles).len() <= guild_roles.len(),
    decreases guild_roles.len(),
{
    if guild_roles.len() > 0 {
        lemma_required_ids_len(required, guild_roles.drop_last());
    }
}

/// The identifiers in `required_ids` are those of the guild's roles with a
/// required name.
pub proof fn lemma_required_ids(required: Set<Seq<char>>, guild_roles: Seq<GuildRoleView>, id: u64)
    ensures
        required_ids(required, guild_roles).contains(id) <==> exists|k: int|
            0 <= k < guild_roles.len() && required.contains((#[trigger] guild_roles[k]).name)
                && guild_roles[k].id == id,
    decreases guild_roles.len(),
{
    let ids = required_ids(required, guild_roles);
    if guild_roles.len() > 0 {
        let shorter = guild_roles.drop_last();
        let before = required_ids(required, shorter);
        lemma_required_ids(required, shorter, id);
        if ids.contains(id) {
            let at = choose|at: int| 0 <= at < ids.len() && ids[at] == id;
            if at < before.len() {
                assert(before.contains(id));
                let k = choose|k: int|
                    0 <= k < shorter.len() && required.contains((#[trigger] shorter[k]).name)
                        && shorter[k].id == id;
                assert(guild_roles[k] == shorter[k]);
            }
        }
        if exists|k: int|
            0 <= k < guild_roles.len() && required.contains((#[trigger] guild_roles[k]).name)
                && guild_roles[k].id == id {
            let k = choose|k: int|
                0 <= k < guild_roles.len() && required.contains((#[trigger] guild_roles[k]).name)
                    && guild_roles[k].id == id;
            if k < shorter.len() {
                assert(shorter[k] == guild_roles[k]);
                let at = choose|at: int| 0 <= at < before.len() && before[at] == id;
                assert(ids[at] == id);
            } else {
                assert(ids[ids.len() - 1] == id);
            }
        }
    }
}

/// A caller passes the role check exactly where they hold each role in
/// `required_ids`.
pub proof fn lemma_roles_ok_by_ids(
    required: Set<Seq<char>>,
    guild_roles: Seq<GuildRoleView>,
    held: Set<u64>,
)
    ensures
        roles_ok(required, guild_roles, held) <==> forall|at: int|
            0 <= at < required_ids(required, guild_roles).len() ==> held.contains(
                #[trigger] required_ids(required, guild_roles)[at],
            ),
{
    let ids = required_ids(required, guild_roles);
    if roles_ok(required, guild_roles, held) {
        assert forall|at: int| 0 <= at < ids.len() implies held.contains(#[trigger] ids[at]) by {
            lemma_required_ids(required, guild_roles, ids[at]);
        }
    }
    if forall|at: int| 0 <= at < ids.len() ==> held.contains(#[trigger] ids[at]) {
        assert forall|k: int|
            0 <= k < guild_roles.len() && required.contains(
                (#[trigger] guild_roles[k]).name,
            ) implies held.contains(guild_roles[k].id) by {
            lemma_required_ids(required, guild_roles, guild_roles[k].id);
            assert(ids.contains(guild_roles[k].id));
        }
    }
}

/// A command without required roles is open to every caller.
pub proof fn lemma_no_roles_required(guild_roles: Seq<GuildRoleView>, held: Set<u64>)
    ensures
        roles_ok(Set::empty(), guild_roles, held),
{
}

/// Required names that no role of the guild bears ask nothing of the caller:
/// with them or without them the check ends the same.
pub proof fn lemma_absent_roles_ask_nothing(
    required: Set<Seq<char>>,
    absent: Set<Seq<char>>,
    guild_roles: Seq<GuildRoleView>,
    held: Set<u64>,
)
    requires
        forall|k: int| 0 <= k < guild_roles.len() ==> !absent.contains((#[trigger] guild_roles[k]).name),
    ensures
        roles_ok(required.union(absent), guild_roles, held) == roles_ok(required, guild_roles, held),
{
}

/// A caller who lacks one role of the guild whose name is required is
/// refused, whatever else they hold.
pub proof fn lemma_missing_role_refuses(
    required: Set<Seq<char>>,
    guild_roles: Seq<GuildRoleView>,
    held: Set<u64>,
    k: int,
)
    requires
        0 <= k < guild_roles.len(),
        required.contains(guild_roles[k].name),
        !held.contains(guild_roles[k].id),
    ensures
        !roles_ok(required, guild_roles, held),
{
}

/// A caller who holds every role of the guild passes the check of any command.
pub proof fn lemma_holder_of_all_passes(
    required: Set<Seq<char>>,
    guild_roles: Seq<GuildRoleView>,
    held: Set<u64>,
)
    requires
        forall|k: int| 0 <= k < guild_roles.len() ==> held.contains((#[trigger] guild_roles[k]).id),
    ensures
        roles_ok(required, guild_roles, held),
{
}

/// A caller who passes the check passes it too where the guild's roles are
/// listed otherwise, as long as no role is listed that was not listed before.
pub proof fn lemma_roles_ok_of_listed(
    required: Set<Seq<char>>,
    guild_roles: Seq<GuildRoleView>,
    listed_otherwise: Seq<GuildRoleView>,
    held: Set<u64>,
)
    requires
        listed_otherwise.to_set().subset_of(guild_roles.to_set()),
        roles_ok(required, guild_roles, held),
    ensures
        roles_ok(required, listed_otherwise, held),
{
    assert forall|k: int|
        0 <= k < listed_otherwise.len() && required.contains(
            (#[trigger] listed_otherwise[k]).name,
        ) implies held.contains(listed_otherwise[k].id) by {
        assert(listed_otherwise.to_set().contains(listed_otherwise[k]));
        let j = choose|j: int| 0 <= j < guild_roles.len() && guild_roles[j] == listed_otherwise[k];
        assert(held.contains(guild_roles[j].id));
    }
}

/// The check does not depend on the order in which the roles of the guild
/// are listed, nor on how often one of them is listed.
pub proof fn lemma_roles_ok_any_order(
    required: Set<Seq<char>>,
    guild_roles: Seq<GuildRoleView>,
    listed_otherwise: Seq<GuildRoleView>,
    held: Set<u64>,
)
    requires
        guild_roles.to_set() == listed_otherwise.to_set(),
    ensures
        roles_ok(required, guild_roles, held) == roles_ok(required, listed_otherwise, held),
{
    if roles_ok(required, guild_roles, held) {
        lemma_roles_ok_of_listed(required, guild_roles, listed_otherwise, held);
    }
    if roles_ok(required, listed_otherwise, held) {
        lemma_roles_ok_of_listed(required, listed_otherwise, guild_roles, held);
    }
}

/// How the checks on a call ended.
#[derive(Clone, Copy, Debug, PartialEq, Eq, Structural)]
pub enum ValidationResult {
    /// The call may be dispatched.
    Valid,
    /// The number of arguments is out of the command's range.
    ArityInvalid,
    /// The caller lacks a required role.
    RoleInvalid,
}

/// The checks on a call, in their order: the arguments first, and the roles
/// only where the arguments passed.
pub open spec fn validation(
    info: CommandInfoView,
    args: Seq<char>,
    guild_roles: Seq<GuildRoleView>,
    held: Set<u64>,
) -> ValidationResult {
    if !arity_ok(info, args) {
        ValidationResult::ArityInvalid
    } else if !roles_ok(info.required_roles, guild_roles, held) {
        ValidationResult::RoleInvalid
    } else {
        ValidationResult::Valid
    }
}

/// Tells whether `name` is among `names`.
pub fn has_name(names: &Vec<String>, name: &str) -> (found: bool)
    ensures
        found == names.deep_view().to_set().contains(name@),
{
    let mut i: usize = 0;
    while i < names.len()
        invariant
            i <= names.len(),
            forall|k: int| 0 <= k < i ==> names@[k]@ != name@,
        decreases names.len() - i,
    {
        if str_eq(names[i].as_str(), name) {
            assert(names.deep_view()[i as int] == name@);
            return true;
        }
        i += 1;
    }
    false
}

/// Tells whether `id` is among `ids`.
pub fn has_id(ids: &Vec<u64>, id: u64) -> (found: bool)
    ensures
        found == ids@.to_set().contains(id),
{
    let mut i: usize = 0;
    while i < ids.len()
        invariant
            i <= ids.len(),
            forall|k: int| 0 <= k < i ==> ids@[k] != id,
        decreases ids.len() - i,
    {
        if ids[i] == id {
            return true;
        }
        i += 1;
    }
    false
}

/// Picks the roles of the guild whose names are in `required`.
pub fn pick_required(required: &Vec<String>, all_roles: &Vec<GuildRole>) -> (ids: Vec<u64>)
    ensures
        ids@ == required_ids(required.deep_view().to_set(), all_roles.deep_view()),
{
    let ghost names = required.deep_view().to_set();
    let ghost roles = all_roles.deep_view();
    let mut ids: Vec<u64> = Vec::new();
    let mut i: usize = 0;
    while i < all_roles.len()
        invariant
            i <= all_roles.len(),
            names == required.deep_view().to_set(),
            roles == all_roles.deep_view(),
            ids@ == required_ids(names, roles.take(i as int)),
        decreases all_roles.len() - i,
    {
        proof {
            assert(roles.take(i + 1).drop_last() =~= roles.take(i as int));
        }
        if has_name(required, all_roles[i].name.as_str()) {
            ids.push(all_roles[i].id);
        }
        i += 1;
    }
    assert(roles.take(i as int) =~= roles);
    ids
}

} // verus!
