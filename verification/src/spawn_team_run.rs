//! Whole runs of spawning a team, and what holds of every one of them.

use crate::multi_agents::{call_prefix, TeamCallKind};
use crate::spawn_team::{
    failure_steps, follows, is_dispatch_for, is_member_as_requested, persists_active_team,
    ClosingStep, SpawnPhase, SpawnTeam, SpawnTeamAction, SpawnTeamEvent, TeamProgress,
};
use crate::team::{law_valid_members_are_distinct, member_name};
use crate::text::trimmed;
use crate::thread_id::ThreadId;
use vstd::prelude::*;

verus! {

/// One step of a run: the state before it, the event, and what followed.
pub ghost struct SpawnStep {
    pub earlier: SpawnTeam,
    pub event: SpawnTeamEvent,
    pub action: SpawnTeamAction,
    pub later: Option<SpawnTeam>,
}

impl SpawnStep {
    /// The step is one that a run can take.
    pub open spec fn is_step(self) -> bool {
        &&& self.earlier.expects(self.event)
        &&& follows(self.later, self.action, self.earlier, self.event)
    }
}

/// The steps of a run from its beginning, each taking up where the one before it
/// left off. The run need not have ended.
pub open spec fn is_run(steps: Seq<SpawnStep>) -> bool {
    &&& steps.len() > 0
    &&& steps[0].earlier.phase == SpawnPhase::FindTeam
    &&& steps[0].earlier.wf()
    &&& forall|i: int| 0 <= i < steps.len() ==> (#[trigger] steps[i]).is_step()
    &&& forall|i: int|
        0 <= i < steps.len() - 1 ==> (#[trigger] steps[i]).later == Some(steps[i + 1].earlier)
}

/// The identifiers under which a wait was announced.
pub open spec fn announcements(steps: Seq<SpawnStep>) -> Seq<Seq<char>>
    decreases steps.len(),
{
    if steps.len() == 0 {
        Seq::empty()
    } else {
        let before = announcements(steps.drop_last());
        match steps.last().action {
            SpawnTeamAction::SendWaitingBegin { event } => before.push(event.call_id@),
            _ => before,
        }
    }
}

/// The inputs that were sent, each with the agent it went to.
pub open spec fn inputs_sent(steps: Seq<SpawnStep>) -> Seq<(ThreadId, Seq<char>)>
    decreases steps.len(),
{
    if steps.len() == 0 {
        Seq::empty()
    } else {
        let before = inputs_sent(steps.drop_last());
        match steps.last().action {
            SpawnTeamAction::SendInput { agent_id, text, .. } => before.push((agent_id, text@)),
            _ => before,
        }
    }
}

/// The inputs for the first `count` members.
pub open spec fn inputs_for(progress: TeamProgress, count: int) -> Seq<(ThreadId, Seq<char>)> {
    Seq::new(
        count as nat,
        |i: int| (progress.spawned@[i].agent_id, trimmed(progress.requested@[i].task@)),
    )
}

/// How many of the inputs have been sent when a run is in a state.
pub open spec fn sent_count(team: SpawnTeam) -> int {
    match team.phase {
        SpawnPhase::Inject { next } => next as int,
        SpawnPhase::SendInput { next } => next + 1,
        SpawnPhase::Background { next } => next + 1,
        _ => 0,
    }
}

/// How many steps at most lie ahead of a phase within the member or the dispatch
/// that it is about.
pub open spec fn phase_rank(phase: SpawnPhase) -> int {
    match phase {
        SpawnPhase::FindTeam => 7,
        SpawnPhase::NormalizeTeamId => 6,
        SpawnPhase::NewTeamId => 6,
        SpawnPhase::Lock => 5,
        SpawnPhase::CheckExists => 4,
        SpawnPhase::CheckDepth => 3,
        SpawnPhase::ReadClock => 2,
        SpawnPhase::SendBegin => 1,
        SpawnPhase::Options => 0,
        SpawnPhase::Config { .. } => -1,
        SpawnPhase::Worktree { .. } => -2,
        SpawnPhase::Spawn { retried, .. } => if retried {
            -5
        } else {
            -3
        },
        SpawnPhase::Reap { .. } => -4,
        SpawnPhase::Hook { .. } => -6,
        SpawnPhase::Bootstrap { .. } => -7,
        SpawnPhase::Register { .. } => -8,
        SpawnPhase::Status { .. } => -9,
        SpawnPhase::MemberId { .. } => -10,
        SpawnPhase::InsertRecord => 0,
        SpawnPhase::Persist => -1,
        SpawnPhase::Inject { next } => -2 - 3 * next,
        SpawnPhase::SendInput { next } => -3 - 3 * next,
        SpawnPhase::Background { next } => -4 - 3 * next,
    }
}

/// How many steps a run can still take: eleven for each member that is not yet
/// spawned, three for each dispatch, two for the record, and what is left of the
/// beginning.
pub open spec fn steps_ahead(team: SpawnTeam) -> int {
    11 * (team.progress.requested@.len() - team.progress.spawned@.len()) + 3
        * team.progress.requested@.len() + 2 + phase_rank(team.phase)
}

/// The states of a run stay well-formed, whatever happens.
pub proof fn law_states_stay_well_formed(step: SpawnStep)
    requires
        step.earlier.wf(),
        step.is_step(),
    ensures
        step.later matches Some(later) ==> later.wf(),
{
    let p = step.earlier.progress;
    match (step.earlier.phase, step.event) {
        (
            SpawnPhase::MemberId { agent_id, injected, status },
            SpawnTeamEvent::NewId(member_id),
        ) => {
            let q = step.later->0.progress;
            let n = p.spawned@.len() as int;
            assert forall|i: int| 0 <= i < q.spawned@.len() implies is_member_as_requested(
                #[trigger] q.spawned@[i],
                q.requested@[i],
            ) && q.statuses@.contains_key(q.spawned@[i].agent_id) by {
                if i < n {
                    assert(q.spawned@[i] == p.spawned@[i]);
                }
            }
            assert forall|i: int| 0 <= i < q.spawned@.len() implies is_dispatch_for(
                #[trigger] q.dispatches@[i],
                q.spawned@[i],
            ) by {
                if i < n {
                    assert(q.spawned@[i] == p.spawned@[i]);
                    assert(q.dispatches@[i] == p.dispatches@[i]);
                }
            }
        },
        _ => {},
    }
}

/// What is asked for, by whom and under which call, never changes during a run.
pub proof fn law_request_is_kept(step: SpawnStep)
    requires
        step.earlier.wf(),
        step.is_step(),
    ensures
        step.later matches Some(later) ==> {
            &&& later.progress.requested == step.earlier.progress.requested
            &&& later.progress.call_id == step.earlier.progress.call_id
            &&& later.progress.conversation_id == step.earlier.progress.conversation_id
        },
{
}

/// Members that are spawned stay, in their places.
pub proof fn law_members_stay(step: SpawnStep)
    requires
        step.earlier.wf(),
        step.is_step(),
    ensures
        step.later matches Some(later) ==> {
            &&& step.earlier.progress.spawned@.len() <= later.progress.spawned@.len()
                <= step.earlier.progress.spawned@.len() + 1
            &&& forall|i: int|
                0 <= i < step.earlier.progress.spawned@.len() ==> #[trigger] later.progress.spawned@[i]
                    == step.earlier.progress.spawned@[i]
        },
{
}

/// Every step brings the end nearer.
pub proof fn law_every_step_counts(step: SpawnStep)
    requires
        step.earlier.wf(),
        step.is_step(),
    ensures
        steps_ahead(step.earlier) > 0,
        step.later matches Some(later) ==> steps_ahead(later) < steps_ahead(step.earlier),
{
    let p = step.earlier.progress;
    assert(p.dispatches@.len() == p.dispatches.len());
    match step.earlier.phase {
        SpawnPhase::SendInput { next } => {
            assert((next + 1) as usize == next + 1);
        },
        SpawnPhase::Background { next } => {
            assert((next + 1) as usize == next + 1);
        },
        _ => {},
    }
}

/// A run of more than one step is a run up to its last step.
pub proof fn lemma_run_without_last_step(steps: Seq<SpawnStep>)
    requires
        is_run(steps),
        steps.len() > 1,
    ensures
        is_run(steps.drop_last()),
        steps.drop_last().last().later == Some(steps.last().earlier),
        steps.drop_last().last() == steps[steps.len() - 2],
        steps.drop_last()[0] == steps[0],
{
    let before = steps.drop_last();
    assert forall|i: int| 0 <= i < before.len() implies (#[trigger] before[i]).is_step() by {
        assert(before[i] == steps[i]);
    }
    assert forall|i: int| 0 <= i < before.len() - 1 implies (#[trigger] before[i]).later == Some(
        before[i + 1].earlier,
    ) by {
        assert(before[i] == steps[i]);
        assert(before[i + 1] == steps[i + 1]);
    }
    assert(before.last() == steps[steps.len() - 2]);
}

/// Every state that a run reaches is well-formed and is about the same request.
pub proof fn law_run_keeps_its_request(steps: Seq<SpawnStep>)
    requires
        is_run(steps),
    ensures
        steps.last().earlier.wf(),
        steps.last().earlier.progress.requested == steps[0].earlier.progress.requested,
        steps.last().earlier.progress.call_id == steps[0].earlier.progress.call_id,
        steps.last().earlier.progress.conversation_id == steps[0].earlier.progress.conversation_id,
    decreases steps.len(),
{
    if steps.len() > 1 {
        lemma_run_without_last_step(steps);
        let before = steps.drop_last();
        law_run_keeps_its_request(before);
        assert(steps[steps.len() - 2].is_step());
        law_states_stay_well_formed(before.last());
        law_request_is_kept(before.last());
    }
}

/// A call for some members is over after at most fourteen steps for each of them
/// and nine more.
pub proof fn law_run_is_bounded(steps: Seq<SpawnStep>)
    requires
        is_run(steps),
    ensures
        steps.len() <= 14 * steps[0].earlier.progress.requested@.len() + 9,
{
    lemma_steps_ahead_of_run(steps);
    law_run_keeps_its_request(steps);
    assert(steps[steps.len() - 1].is_step());
    law_every_step_counts(steps.last());
}

proof fn lemma_steps_ahead_of_run(steps: Seq<SpawnStep>)
    requires
        is_run(steps),
    ensures
        steps_ahead(steps.last().earlier) + steps.len() - 1 <= 14
            * steps[0].earlier.progress.requested@.len() + 9,
    decreases steps.len(),
{
    if steps.len() > 1 {
        lemma_run_without_last_step(steps);
        let before = steps.drop_last();
        lemma_steps_ahead_of_run(before);
        law_run_keeps_its_request(before);
        assert(steps[steps.len() - 2].is_step());
        law_every_step_counts(before.last());
    }
}

/// The wait for a team is announced once the checks have passed, no more than
/// once, and under the identifier of the call.
pub proof fn law_wait_is_announced_once(steps: Seq<SpawnStep>)
    requires
        is_run(steps),
    ensures
        announcements(steps) == (if (match steps.last().later {
            Some(later) => later.has_begun(),
            None => steps.last().earlier.has_begun(),
        }) {
            seq![call_prefix(TeamCallKind::Spawn) + steps[0].earlier.progress.call_id@]
        } else {
            Seq::empty()
        }),
    decreases steps.len(),
{
    law_run_keeps_its_request(steps);
    assert(steps[steps.len() - 1].is_step());
    lemma_step_announces(steps.last());
    let before = steps.drop_last();
    if steps.len() > 1 {
        lemma_run_without_last_step(steps);
        law_wait_is_announced_once(before);
    }
    let id = call_prefix(TeamCallKind::Spawn) + steps[0].earlier.progress.call_id@;
    if steps.last().earlier.has_begun() {
        assert(announcements(before) == seq![id]);
    } else {
        assert(announcements(before) =~= Seq::empty());
        if steps.last().action is SendWaitingBegin {
            assert(announcements(steps) =~= seq![id]);
        }
    }
}

proof fn lemma_step_announces(step: SpawnStep)
    requires
        step.earlier.wf(),
        step.is_step(),
    ensures
        match step.action {
            SpawnTeamAction::SendWaitingBegin { event } => {
                &&& !step.earlier.has_begun()
                &&& step.later matches Some(later) && later.has_begun()
                &&& event.call_id@ == call_prefix(TeamCallKind::Spawn)
                    + step.earlier.progress.call_id@
            },
            _ => step.later matches Some(later) ==> later.has_begun() == step.earlier.has_begun(),
        },
{
}

/// Steps of which exactly one ends the announced wait.
pub open spec fn ends_wait_once(steps: Seq<ClosingStep>) -> bool {
    exists|i: int|
        #![trigger steps[i]]
        0 <= i < steps.len() && steps[i] == ClosingStep::SendWaitingEnd && forall|j: int|
            0 <= j < steps.len() && j != i ==> #[trigger] steps[j] != ClosingStep::SendWaitingEnd
}

proof fn lemma_failure_ends_wait_once(left_behind: Seq<ClosingStep>)
    requires
        forall|j: int|
            0 <= j < left_behind.len() ==> #[trigger] left_behind[j] != ClosingStep::SendWaitingEnd,
    ensures
        ends_wait_once(failure_steps(left_behind)),
{
    let steps = failure_steps(left_behind);
    let i: int = left_behind.len() + 1int;
    assert(steps[i] == ClosingStep::SendWaitingEnd);
    assert forall|j: int| 0 <= j < steps.len() && j != i implies #[trigger] steps[j]
        != ClosingStep::SendWaitingEnd by {
        if j < left_behind.len() {
            assert(steps[j] == left_behind[j]);
        }
    }
}

/// A wait that was announced is ended exactly once, under the identifier it was
/// announced with, however the call ends: only a member's blank setting, which is
/// refused at once, leaves it open.
pub proof fn law_announced_wait_is_ended(steps: Seq<SpawnStep>)
    requires
        is_run(steps),
        steps.last().later is None,
        !(steps.last().earlier.phase is Options),
    ensures
        match steps.last().action {
            SpawnTeamAction::Refuse { error } => announcements(steps).len() == 0,
            SpawnTeamAction::Abort { closing, error } => ends_wait_once(closing.steps@)
                && announcements(steps) == seq![closing.event_call_id@],
            SpawnTeamAction::Complete { closing, result } => ends_wait_once(closing.steps@)
                && announcements(steps) == seq![closing.event_call_id@],
            _ => false,
        },
{
    law_wait_is_announced_once(steps);
    law_run_keeps_its_request(steps);
    assert(steps[steps.len() - 1].is_step());
    lemma_last_step_ends_wait(steps.last());
}

proof fn lemma_last_step_ends_wait(step: SpawnStep)
    requires
        step.earlier.wf(),
        step.is_step(),
        step.later is None,
        !(step.earlier.phase is Options),
    ensures
        match step.action {
            SpawnTeamAction::Refuse { error } => !step.earlier.has_begun(),
            SpawnTeamAction::Abort { closing, error } => {
                &&& step.earlier.has_begun()
                &&& ends_wait_once(closing.steps@)
                &&& closing.event_call_id@ == call_prefix(TeamCallKind::Spawn)
                    + step.earlier.progress.call_id@
            },
            SpawnTeamAction::Complete { closing, result } => {
                &&& step.earlier.has_begun()
                &&& ends_wait_once(closing.steps@)
                &&& closing.event_call_id@ == call_prefix(TeamCallKind::Spawn)
                    + step.earlier.progress.call_id@
            },
            _ => false,
        },
{
    match step.action {
        SpawnTeamAction::Abort { closing, error } => {
            law_failure_is_undone(step);
        },
        SpawnTeamAction::Complete { closing, result } => {
            assert(closing.steps@[1] == ClosingStep::SendWaitingEnd);
        },
        _ => {},
    }
}

/// A refusal comes before anything has been done: nothing was announced and no
/// member was spawned. Only a member's blank setting is refused later.
pub proof fn law_refusal_leaves_nothing_behind(step: SpawnStep)
    requires
        step.earlier.wf(),
        step.is_step(),
        step.action is Refuse,
        !(step.earlier.phase is Options),
    ensures
        step.later is None,
        !step.earlier.has_begun(),
        step.earlier.progress.spawned@.len() == 0,
{
}

/// Whether the record of the team has been made.
pub open spec fn is_recorded(phase: SpawnPhase) -> bool {
    match phase {
        SpawnPhase::Persist
        | SpawnPhase::Inject { .. }
        | SpawnPhase::SendInput { .. }
        | SpawnPhase::Background { .. } => true,
        _ => false,
    }
}

/// The agent that runs without being a member yet, if any.
pub open spec fn unlisted_agent(phase: SpawnPhase) -> Option<ThreadId> {
    match phase {
        SpawnPhase::Register { agent_id, .. } => Some(agent_id),
        _ => None,
    }
}

/// A worktree has been made for a member that has no agent.
pub open spec fn has_idle_lease(phase: SpawnPhase) -> bool {
    match phase {
        SpawnPhase::Spawn { leased, .. } => leased,
        SpawnPhase::Reap { leased, .. } => leased,
        _ => false,
    }
}

/// After a failure everything that was done is undone: the members spawned so
/// far are cleaned up, the announced wait is ended, the lock is released before
/// the team's directory goes, and the record, an agent that is no member yet and
/// a worktree without an agent go exactly where there is one.
pub proof fn law_failure_is_undone(step: SpawnStep)
    requires
        step.earlier.wf(),
        step.is_step(),
        step.action is Abort,
    ensures
        step.later is None,
        step.earlier.has_begun(),
        step.action->Abort_closing.members == step.earlier.progress.spawned,
        step.action->Abort_closing.statuses == step.earlier.progress.statuses,
        step.action->Abort_closing.team_id == step.earlier.progress.team_id,
        step.action->Abort_closing.steps@.contains(ClosingStep::CleanupMembers),
        ends_wait_once(step.action->Abort_closing.steps@),
        step.action->Abort_closing.steps@.last() == ClosingStep::RemoveTeamDir,
        step.action->Abort_closing.steps@[step.action->Abort_closing.steps@.len() - 2]
            == ClosingStep::ReleaseLock,
        step.action->Abort_closing.steps@.contains(ClosingStep::RemoveTeamRecord) == is_recorded(
            step.earlier.phase,
        ),
        step.action->Abort_closing.steps@.contains(ClosingStep::RemoveTeamPersistence)
            == is_recorded(step.earlier.phase),
        step.action->Abort_closing.steps@.contains(ClosingStep::RemoveWorktreeLease)
            == has_idle_lease(step.earlier.phase),
        forall|agent_id: ThreadId|
            #![trigger step.action->Abort_closing.steps@.contains(
                ClosingStep::ShutdownAgent(agent_id),
            )]
            step.action->Abort_closing.steps@.contains(ClosingStep::ShutdownAgent(agent_id)) == (
            unlisted_agent(step.earlier.phase) == Some(agent_id)),
{
    let steps = step.action->Abort_closing.steps@;
    let n = steps.len() as int;
    let left_behind = steps.take(n - 4);
    assert(steps =~= failure_steps(left_behind));
    lemma_failure_ends_wait_once(left_behind);
    assert(steps[n - 4] == ClosingStep::CleanupMembers);
    if is_recorded(step.earlier.phase) {
        assert(steps[0] == ClosingStep::RemoveTeamRecord);
        assert(steps[1] == ClosingStep::RemoveTeamPersistence);
    }
    if has_idle_lease(step.earlier.phase) {
        assert(steps[0] == ClosingStep::RemoveWorktreeLease);
    }
    if unlisted_agent(step.earlier.phase) is Some {
        assert(steps[0] == ClosingStep::ShutdownAgent(unlisted_agent(step.earlier.phase)->0));
    }
}

/// When a call is complete, every member that was asked for is in the result, in
/// the order asked for, under its own name, with the agent that stands for it and
/// the status that was read of that agent; no two members share a name.
pub proof fn law_completion_lists_every_member(step: SpawnStep)
    requires
        step.earlier.wf(),
        step.is_step(),
        step.action is Complete,
    ensures
        step.later is None,
        ({
            let members = step.action->result.members@;
            let p = step.earlier.progress;
            &&& members.len() == p.requested@.len() == p.spawned@.len()
            &&& members.len() > 0
            &&& forall|i: int|
                0 <= i < members.len() ==> {
                    &&& (#[trigger] members[i]).name@ == member_name(p.requested@[i])
                    &&& members[i].agent_id@ == p.spawned@[i].agent_id.text()
                    &&& p.statuses@.contains_key(p.spawned@[i].agent_id)
                    &&& members[i].status == p.statuses@[p.spawned@[i].agent_id]
                }
            &&& forall|i: int, j: int|
                0 <= i < j < members.len() ==> (#[trigger] members[i]).name@ != (
                #[trigger] members[j]).name@
        }),
{
    let members = step.action->result.members@;
    let p = step.earlier.progress;
    law_valid_members_are_distinct(p.requested@);
    assert forall|i: int| 0 <= i < members.len() implies {
        &&& (#[trigger] members[i]).name@ == member_name(p.requested@[i])
        &&& members[i].agent_id@ == p.spawned@[i].agent_id.text()
        &&& p.statuses@.contains_key(p.spawned@[i].agent_id)
        &&& members[i].status == p.statuses@[p.spawned@[i].agent_id]
    } by {
        assert(is_member_as_requested(p.spawned@[i], p.requested@[i]));
    }
}

/// A thread that could not be spawned is tried once more, and only after an agent
/// made room for it; it is never tried a third time.
pub proof fn law_spawning_is_retried_once(step: SpawnStep)
    requires
        step.earlier.wf(),
        step.is_step(),
    ensures
        step.earlier.phase matches SpawnPhase::Spawn { retried: true, .. } ==> !(
        step.action is ReapFinishedAgents) && !(step.action is SpawnThread),
        step.action is ReapFinishedAgents ==> step.earlier.phase matches SpawnPhase::Spawn {
            retried: false,
            ..
        },
        step.earlier.phase is Reap && step.action is SpawnThread ==> {
            &&& step.event matches SpawnTeamEvent::Reaped(count) && count > 0
            &&& step.later->0.phase matches SpawnPhase::Spawn { retried: true, .. }
        },
{
}

/// Until a call is complete, the tasks have been sent to the first members, each
/// once and in order; when it is complete, to all of them.
pub proof fn law_every_member_gets_its_task(steps: Seq<SpawnStep>)
    requires
        is_run(steps),
    ensures
        steps.last().later matches Some(later) ==> inputs_sent(steps) == inputs_for(
            later.progress,
            sent_count(later),
        ),
        steps.last().action is Complete ==> inputs_sent(steps) == inputs_for(
            steps.last().earlier.progress,
            steps[0].earlier.progress.requested@.len() as int,
        ),
    decreases steps.len(),
{
    law_run_keeps_its_request(steps);
    let last = steps.last();
    let p = last.earlier.progress;
    assert(steps[steps.len() - 1].is_step());
    law_states_stay_well_formed(last);
    let before = steps.drop_last();
    if steps.len() > 1 {
        lemma_run_without_last_step(steps);
        law_every_member_gets_its_task(before);
    } else {
        assert(before.len() == 0);
    }
    assert(inputs_sent(before) =~= inputs_for(p, sent_count(last.earlier)));
    assert(p.dispatches@.len() == p.dispatches.len());
    match last.action {
        SpawnTeamAction::SendInput { .. } => {
            let later = last.later->0;
            let next = (sent_count(later) - 1) as int;
            assert(is_dispatch_for(p.dispatches@[next], p.spawned@[next]));
            assert(is_member_as_requested(p.spawned@[next], p.requested@[next]));
            assert(inputs_sent(steps) =~= inputs_for(later.progress, sent_count(later)));
        },
        _ => {
            if last.later is Some {
                let later = last.later->0;
                assert(inputs_sent(steps) =~= inputs_for(later.progress, sent_count(later)));
            }
        },
    }
}

/// At step `i` the team was written down as active, and at the next step that had
/// succeeded.
pub open spec fn persisted_at(steps: Seq<SpawnStep>, progress: TeamProgress, i: int) -> bool {
    &&& 0 <= i < steps.len() - 1
    &&& persists_active_team(steps[i].action, progress)
    &&& steps[i + 1].event matches SpawnTeamEvent::Outcome(Ok(_))
}

/// The team has been written down as active.
pub open spec fn is_persisted(steps: Seq<SpawnStep>, progress: TeamProgress) -> bool {
    exists|i: int| #[trigger] persisted_at(steps, progress, i)
}

/// The tasks are being sent.
pub open spec fn is_dispatching(phase: SpawnPhase) -> bool {
    is_recorded(phase) && !(phase is Persist)
}

proof fn lemma_step_persists(step: SpawnStep)
    requires
        step.earlier.wf(),
        step.is_step(),
    ensures
        step.later matches Some(later) ==> {
            &&& later.phase is Persist ==> persists_active_team(step.action, later.progress)
            &&& is_dispatching(later.phase) ==> later.progress == step.earlier.progress && (
            is_dispatching(step.earlier.phase) || (step.earlier.phase is Persist
                && step.event matches SpawnTeamEvent::Outcome(Ok(_))))
        },
        step.action is SendInput ==> (step.later matches Some(later) && is_dispatching(
            later.phase,
        )),
        step.action is Complete ==> is_dispatching(step.earlier.phase) || (
        step.earlier.phase is Persist && step.event matches SpawnTeamEvent::Outcome(Ok(_))),
{
}

proof fn lemma_dispatching_team_is_persisted(steps: Seq<SpawnStep>)
    requires
        is_run(steps),
    ensures
        steps.last().later matches Some(later) ==> {
            &&& later.phase is Persist ==> persists_active_team(
                steps.last().action,
                later.progress,
            )
            &&& is_dispatching(later.phase) ==> is_persisted(steps, later.progress)
        },
        steps.last().action is Complete ==> is_persisted(steps, steps.last().earlier.progress),
    decreases steps.len(),
{
    let last = steps.last();
    let p = last.earlier.progress;
    law_run_keeps_its_request(steps);
    assert(steps[steps.len() - 1].is_step());
    lemma_step_persists(last);
    if steps.len() > 1 {
        lemma_run_without_last_step(steps);
        let before = steps.drop_last();
        lemma_dispatching_team_is_persisted(before);
        if last.earlier.phase is Persist {
            if last.event matches SpawnTeamEvent::Outcome(Ok(_)) {
                assert(persisted_at(steps, p, steps.len() - 2));
            }
        } else if is_dispatching(last.earlier.phase) {
            let i = choose|i: int| #[trigger] persisted_at(before, p, i);
            assert(before[i] == steps[i] && before[i + 1] == steps[i + 1]);
            assert(persisted_at(steps, p, i));
        }
    }
}

/// No task is sent, and no call is complete, before the team of all requested
/// members has been written down as active.
pub proof fn law_team_is_active_before_its_tasks(steps: Seq<SpawnStep>)
    requires
        is_run(steps),
        steps.last().action is SendInput || steps.last().action is Complete,
    ensures
        is_persisted(steps, steps.last().earlier.progress),
        steps.last().earlier.progress.spawned@.len()
            == steps[0].earlier.progress.requested@.len(),
{
    lemma_dispatching_team_is_persisted(steps);
    law_run_keeps_its_request(steps);
    assert(steps[steps.len() - 1].is_step());
    lemma_step_persists(steps.last());
}

} // verus!
