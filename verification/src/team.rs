//! Agent teams: what is asked of a new team, and what is known of its members.

use crate::text::{trim, trimmed};
use crate::thread_id::ThreadId;
use vstd::prelude::*;
use vstd::string::StringExecFns;

verus! {

/// Why a tool call failed: a text for the model, or an error of the client.
#[derive(Debug, PartialEq, Eq)]
pub enum FunctionCallError {
    RespondToModel(String),
    Fatal(String),
}

/// A member that a new team is to have.
#[derive(Debug, PartialEq, Eq)]
pub struct SpawnTeamMemberArgs {
    pub name: String,
    pub task: String,
    pub agent_type: Option<String>,
    pub model_provider: Option<String>,
    pub model: Option<String>,
    pub worktree: bool,
    pub background: bool,
}

/// A member of a team.
#[derive(Debug, PartialEq, Eq)]
pub struct TeamMember {
    pub name: String,
    pub member_id: String,
    pub agent_id: ThreadId,
    pub agent_type: Option<String>,
    pub model_provider: Option<String>,
    pub model: Option<String>,
    pub initial_task: String,
    pub background: bool,
    pub worktree: bool,
}

/// What is known of a team: its members, and when it was made.
#[derive(Debug, PartialEq, Eq)]
pub struct TeamRecord {
    pub members: Vec<TeamMember>,
    pub created_at: i64,
}

/// The state in which a team is written down.
#[derive(Debug, Clone, Copy, PartialEq, Eq, Structural)]
pub enum PersistedTeamState {
    /// The team works together.
    Active,
    /// Any other state.
    Other,
}

impl Clone for SpawnTeamMemberArgs {
    fn clone(&self) -> (r: SpawnTeamMemberArgs)
        ensures
            r == *self,
    {
        SpawnTeamMemberArgs {
            name: self.name.clone(),
            task: self.task.clone(),
            agent_type: self.agent_type.clone(),
            model_provider: self.model_provider.clone(),
            model: self.model.clone(),
            worktree: self.worktree,
            background: self.background,
        }
    }
}

impl Clone for TeamMember {
    fn clone(&self) -> (r: TeamMember)
        ensures
            r == *self,
    {
        TeamMember {
            name: self.name.clone(),
            member_id: self.member_id.clone(),
            agent_id: self.agent_id,
            agent_type: self.agent_type.clone(),
            model_provider: self.model_provider.clone(),
            model: self.model.clone(),
            initial_task: self.initial_task.clone(),
            background: self.background,
            worktree: self.worktree,
        }
    }
}

/// An error that holds a text for the model.
pub open spec fn responds(error: FunctionCallError, text: Seq<char>) -> bool {
    error matches FunctionCallError::RespondToModel(message) && message@ == text
}

/// A text between two others.
pub open spec fn enclosed(before: Seq<char>, text: Seq<char>, after: Seq<char>) -> Seq<char> {
    before + text + after
}

/// Puts a text between two others.
pub fn enclose(before: &str, text: &str, after: &str) -> (r: String)
    ensures
        r@ == enclosed(before@, text@, after@),
{
    before.to_string().concat(text).concat(after)
}

/// The name of a requested member.
pub open spec fn member_name(member: SpawnTeamMemberArgs) -> Seq<char> {
    trimmed(member.name@)
}

/// The name of a requested member is also that of an earlier one.
pub open spec fn is_repeated_name(members: Seq<SpawnTeamMemberArgs>, i: int) -> bool {
    exists|j: int| 0 <= j < i && #[trigger] member_name(members[j]) == member_name(members[i])
}

/// What is wrong with a requested member, given those before it.
pub open spec fn member_problem(members: Seq<SpawnTeamMemberArgs>, i: int) -> Option<Seq<char>> {
    let name = member_name(members[i]);
    if name.len() == 0 {
        Some("member name must be non-empty"@)
    } else if is_repeated_name(members, i) {
        Some(enclosed("duplicate member name `"@, name, "`"@))
    } else if trimmed(members[i].task@).len() == 0 {
        Some(enclosed("task for member `"@, name, "` must be non-empty"@))
    } else {
        None
    }
}

/// What is wrong with the first faulty member from the `i`-th on.
pub open spec fn first_problem(members: Seq<SpawnTeamMemberArgs>, i: int) -> Option<Seq<char>>
    decreases members.len() - i,
{
    if i >= members.len() {
        None
    } else if member_problem(members, i) is Some {
        member_problem(members, i)
    } else {
        first_problem(members, i + 1)
    }
}

/// What is wrong with the members that are requested.
pub open spec fn validation_problem(members: Seq<SpawnTeamMemberArgs>) -> Option<Seq<char>> {
    if members.len() == 0 {
        Some("members must be non-empty"@)
    } else {
        first_problem(members, 0)
    }
}

/// Checks the members that are requested: there is at least one, and each has a
/// name of its own and a task.
pub fn validate_members(members: &Vec<SpawnTeamMemberArgs>) -> (r: Result<(), FunctionCallError>)
    ensures
        match r {
            Ok(_) => validation_problem(members@) is None,
            Err(error) => validation_problem(members@) matches Some(text) && responds(error, text),
        },
{
    if members.len() == 0 {
        return Err(FunctionCallError::RespondToModel("members must be non-empty".to_string()));
    }
    let mut seen_names: Vec<String> = Vec::new();
    for i in 0..members.len()
        invariant
            members@.len() > 0,
            seen_names@.len() == i,
            forall|j: int| 0 <= j < i ==> (#[trigger] seen_names@[j])@ == member_name(members@[j]),
            first_problem(members@, 0) == first_problem(members@, i as int),
    {
        let name = trim(members[i].name.as_str()).to_string();
        if name.as_str().is_empty() {
            return Err(
                FunctionCallError::RespondToModel("member name must be non-empty".to_string()),
            );
        }
        let repeated = contains_name(&seen_names, &name);
        proof {
            if repeated {
                let j = choose|j: int|
                    0 <= j < seen_names@.len() && (#[trigger] seen_names@[j])@ == name@;
                assert(member_name(members@[j]) == member_name(members@[i as int]));
            } else if is_repeated_name(members@, i as int) {
                let j = choose|j: int|
                    0 <= j < i && #[trigger] member_name(members@[j]) == member_name(
                        members@[i as int],
                    );
                assert(seen_names@[j]@ == name@);
            }
        }
        if repeated {
            return Err(
                FunctionCallError::RespondToModel(
                    enclose("duplicate member name `", name.as_str(), "`"),
                ),
            );
        }
        if trim(members[i].task.as_str()).is_empty() {
            return Err(
                FunctionCallError::RespondToModel(
                    enclose("task for member `", name.as_str(), "` must be non-empty"),
                ),
            );
        }
        seen_names.push(name);
    }
    Ok(())
}

/// Tells whether a name is among some others.
fn contains_name(names: &Vec<String>, name: &String) -> (r: bool)
    ensures
        r == exists|j: int| 0 <= j < names@.len() && (#[trigger] names@[j])@ == name@,
{
    for i in 0..names.len()
        invariant
            forall|j: int| 0 <= j < i ==> (#[trigger] names@[j])@ != name@,
    {
        if names[i] == *name {
            return true;
        }
    }
    false
}

proof fn lemma_no_problem_from(members: Seq<SpawnTeamMemberArgs>, i: int, k: int)
    requires
        first_problem(members, i) is None,
        i <= k < members.len(),
    ensures
        member_problem(members, k) is None,
    decreases members.len() - i,
{
    if i < k {
        lemma_no_problem_from(members, i + 1, k);
    }
}

/// The members of a request that passes have names and tasks that are not
/// blank, and no two of them share a name.
pub proof fn law_valid_members_are_distinct(members: Seq<SpawnTeamMemberArgs>)
    requires
        validation_problem(members) is None,
    ensures
        members.len() > 0,
        forall|i: int|
            0 <= i < members.len() ==> (#[trigger] member_name(members[i])).len() > 0 && trimmed(
                members[i].task@,
            ).len() > 0,
        forall|i: int, j: int|
            0 <= i < j < members.len() ==> #[trigger] member_name(members[i])
                != #[trigger] member_name(members[j]),
{
    assert forall|i: int| 0 <= i < members.len() implies (#[trigger] member_name(members[i])).len()
        > 0 && trimmed(members[i].task@).len() > 0 by {
        lemma_no_problem_from(members, 0, i);
    }
    assert forall|i: int, j: int| 0 <= i < j < members.len() implies #[trigger] member_name(
        members[i],
    ) != #[trigger] member_name(members[j]) by {
        lemma_no_problem_from(members, 0, j);
    }
}

/// A request with members, each with a name of its own and a task, passes.
pub proof fn law_distinct_members_are_valid(members: Seq<SpawnTeamMemberArgs>)
    requires
        members.len() > 0,
        forall|i: int|
            0 <= i < members.len() ==> (#[trigger] member_name(members[i])).len() > 0 && trimmed(
                members[i].task@,
            ).len() > 0,
        forall|i: int, j: int|
            0 <= i < j < members.len() ==> #[trigger] member_name(members[i])
                != #[trigger] member_name(members[j]),
    ensures
        validation_problem(members) is None,
{
    lemma_valid_from(members, 0);
}

proof fn lemma_valid_from(members: Seq<SpawnTeamMemberArgs>, i: int)
    requires
        0 <= i <= members.len(),
        forall|i: int|
            0 <= i < members.len() ==> (#[trigger] member_name(members[i])).len() > 0 && trimmed(
                members[i].task@,
            ).len() > 0,
        forall|i: int, j: int|
            0 <= i < j < members.len() ==> #[trigger] member_name(members[i])
                != #[trigger] member_name(members[j]),
    ensures
        first_problem(members, i) is None,
    decreases members.len() - i,
{
    if i < members.len() {
        lemma_valid_from(members, i + 1);
        assert(member_name(members[i]).len() > 0);
    }
}

/// An error for the model holds its text, and a text between two others stands
/// between them.
pub proof fn law_texts_are_put_together(
    error: FunctionCallError,
    before: Seq<char>,
    text: Seq<char>,
    after: Seq<char>,
)
    ensures
        responds(error, text) <==> (error is RespondToModel && error->RespondToModel_0@ == text),
        enclosed(before, text, after) == before + text + after,
{
}

/// The requested member has a name that is not blank and that no member before it
/// has, white space around it apart, and a task that is not blank.
pub open spec fn is_sound_member(members: Seq<SpawnTeamMemberArgs>, i: int) -> bool {
    &&& trimmed(members[i].name@).len() > 0
    &&& forall|j: int| 0 <= j < i ==> trimmed((#[trigger] members[j]).name@) != trimmed(
        members[i].name@,
    )
    &&& trimmed(members[i].task@).len() > 0
}

/// A request is refused for the first member that is not sound, and for the first
/// thing that is wrong with it; one without members is refused too, and every
/// other request passes.
pub proof fn law_first_unsound_member_is_refused(members: Seq<SpawnTeamMemberArgs>, i: int)
    ensures
        members.len() == 0 ==> validation_problem(members) == Some("members must be non-empty"@),
        0 <= i < members.len() && !is_sound_member(members, i) && (forall|j: int|
            0 <= j < i ==> #[trigger] is_sound_member(members, j)) ==> validation_problem(members)
            == Some(
            if trimmed(members[i].name@).len() == 0 {
                "member name must be non-empty"@
            } else if exists|j: int|
                0 <= j < i && trimmed((#[trigger] members[j]).name@) == trimmed(members[i].name@) {
                "duplicate member name `"@ + trimmed(members[i].name@) + "`"@
            } else {
                "task for member `"@ + trimmed(members[i].name@) + "` must be non-empty"@
            },
        ),
        members.len() > 0 && (forall|j: int|
            0 <= j < members.len() ==> #[trigger] is_sound_member(members, j))
            ==> validation_problem(members) is None,
        forall|member: SpawnTeamMemberArgs| #[trigger] member_name(member) == trimmed(member.name@),
{
    if 0 <= i < members.len() && !is_sound_member(members, i) && (forall|j: int|
        0 <= j < i ==> #[trigger] is_sound_member(members, j)) {
        lemma_sound_members_are_passed_over(members, 0, i);
        lemma_problem_of_member(members, i);
    }
    if members.len() > 0 && (forall|j: int|
        0 <= j < members.len() ==> #[trigger] is_sound_member(members, j)) {
        lemma_sound_members_are_passed_over(members, 0, members.len() as int);
    }
}

proof fn lemma_problem_of_member(members: Seq<SpawnTeamMemberArgs>, i: int)
    requires
        0 <= i < members.len(),
    ensures
        is_sound_member(members, i) <==> member_problem(members, i) is None,
        is_repeated_name(members, i) <==> exists|j: int|
            0 <= j < i && trimmed((#[trigger] members[j]).name@) == trimmed(members[i].name@),
{
    if is_repeated_name(members, i) {
        let j = choose|j: int|
            0 <= j < i && #[trigger] member_name(members[j]) == member_name(members[i]);
        assert(trimmed(members[j].name@) == trimmed(members[i].name@));
    }
    if exists|j: int|
        0 <= j < i && trimmed((#[trigger] members[j]).name@) == trimmed(members[i].name@) {
        let j = choose|j: int|
            0 <= j < i && trimmed((#[trigger] members[j]).name@) == trimmed(members[i].name@);
        assert(member_name(members[j]) == member_name(members[i]));
    }
}

proof fn lemma_sound_members_are_passed_over(members: Seq<SpawnTeamMemberArgs>, from: int, to: int)
    requires
        0 <= from <= to <= members.len(),
        forall|j: int| from <= j < to ==> #[trigger] is_sound_member(members, j),
    ensures
        first_problem(members, from) == first_problem(members, to),
    decreases to - from,
{
    if from < to {
        assert(is_sound_member(members, from));
        lemma_problem_of_member(members, from);
        lemma_sound_members_are_passed_over(members, from + 1, to);
    }
}

} // verus!
