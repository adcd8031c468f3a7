//! Spawning a team as it is seen from outside: what is done next, by what was asked
//! and by what has been heard so far.

use crate::agent::AgentStatus;
use crate::spawn_team::{
    is_dispatch_for, is_member_as_requested, ClosingStep, MemberOptions, SpawnFailure, SpawnPhase,
    SpawnTeam, SpawnTeamAction, SpawnTeamEvent, TeamProgress,
};
use crate::spawn_team_run::{
    inputs_for, inputs_sent, is_run, law_every_member_gets_its_task, law_run_keeps_its_request,
    law_states_stay_well_formed, lemma_run_without_last_step, sent_count, SpawnStep,
};
use crate::team::{
    responds, validation_problem, FunctionCallError, PersistedTeamState, SpawnTeamMemberArgs,
    TeamMember, TeamRecord,
};
use crate::text::{joined, string_views, trimmed};
use crate::thread_id::ThreadId;
use vstd::prelude::*;

verus! {

/// What was heard of a member when it joined.
pub ghost struct JoinedMember {
    pub agent_id: ThreadId,
    pub member_id: Seq<char>,
    pub context: Seq<char>,
}

/// What has been heard so far: of the team, of the member that is being spawned,
/// and of those that have joined.
pub ghost struct SpawnHeard {
    pub team_id: Option<Seq<char>>,
    pub clock: i64,
    pub role_name: Option<String>,
    pub model_provider: Option<String>,
    pub model: Option<String>,
    pub agent_id: ThreadId,
    pub hook_context: Seq<Seq<char>>,
    pub bootstrap: Seq<char>,
    pub status: AgentStatus,
    pub members: Seq<JoinedMember>,
    pub statuses: Map<ThreadId, AgentStatus>,
}

/// What has been heard when an event is heard too. The first new identifier is that
/// of the team where none was given; any later one is that of a member that joins.
pub open spec fn hear(heard: SpawnHeard, event: SpawnTeamEvent) -> SpawnHeard {
    match event {
        SpawnTeamEvent::TeamId(Ok(team_id)) => SpawnHeard { team_id: Some(team_id@), ..heard },
        SpawnTeamEvent::Clock(now) => SpawnHeard { clock: now, ..heard },
        SpawnTeamEvent::Options { role_name: Ok(role), model_provider: Ok(provider), model: Ok(m) }
            => SpawnHeard { role_name: role, model_provider: provider, model: m, ..heard },
        SpawnTeamEvent::Spawned(Ok(agent_id)) => SpawnHeard { agent_id, ..heard },
        SpawnTeamEvent::HookContext(texts) => SpawnHeard {
            hook_context: Seq::new(texts@.len(), |i: int| texts@[i]@),
            ..heard
        },
        SpawnTeamEvent::Bootstrap(message) => SpawnHeard { bootstrap: message@, ..heard },
        SpawnTeamEvent::Status(status) => SpawnHeard { status, ..heard },
        SpawnTeamEvent::NewId(id) => if heard.team_id is None {
            SpawnHeard { team_id: Some(id.text()), ..heard }
        } else {
            SpawnHeard {
                members: heard.members.push(
                    JoinedMember {
                        agent_id: heard.agent_id,
                        member_id: id.text(),
                        context: joined(seq![heard.bootstrap] + heard.hook_context, "\n\n"@),
                    },
                ),
                statuses: heard.statuses.insert(heard.agent_id, heard.status),
                ..heard
            }
        },
        _ => heard,
    }
}

/// What has been heard in the steps of a run.
pub open spec fn heard_in(steps: Seq<SpawnStep>) -> SpawnHeard
    decreases steps.len(),
{
    if steps.len() == 0 {
        SpawnHeard {
            team_id: None,
            clock: 0,
            role_name: None,
            model_provider: None,
            model: None,
            agent_id: ThreadId { value: 0 },
            hook_context: Seq::empty(),
            bootstrap: Seq::empty(),
            status: AgentStatus::NotFound,
            members: Seq::empty(),
            statuses: Map::empty(),
        }
    } else {
        hear(heard_in(steps.drop_last()), steps.last().event)
    }
}

/// A member of the record, by what was asked of it and what was heard of it.
pub open spec fn is_listed_member(
    member: TeamMember,
    asked: SpawnTeamMemberArgs,
    heard: JoinedMember,
) -> bool {
    &&& member.name@ == trimmed(asked.name@)
    &&& member.member_id@ == heard.member_id
    &&& member.agent_id == heard.agent_id
    &&& member.agent_type == asked.agent_type
    &&& member.model_provider == asked.model_provider
    &&& member.model == asked.model
    &&& member.initial_task@ == trimmed(asked.task@)
    &&& member.background == asked.background
    &&& member.worktree == asked.worktree
}

/// The members are those that have joined, each as it was asked for.
pub open spec fn are_listed_members(
    members: Seq<TeamMember>,
    asked: Seq<SpawnTeamMemberArgs>,
    heard: Seq<JoinedMember>,
) -> bool {
    &&& members.len() == heard.len()
    &&& members.len() <= asked.len()
    &&& forall|i: int|
        0 <= i < members.len() ==> is_listed_member(#[trigger] members[i], asked[i], heard[i])
}

/// The state holds what has been heard.
pub open spec fn holds(team: SpawnTeam, heard: SpawnHeard, first: SpawnTeam) -> bool {
    let p = team.progress;
    let n = p.spawned@.len() as int;
    &&& p.requested == first.progress.requested
    &&& p.call_id == first.progress.call_id
    &&& p.conversation_id == first.progress.conversation_id
    &&& p.provided_team_id == first.progress.provided_team_id
    &&& are_listed_members(p.spawned@, p.requested@, heard.members)
    &&& first.progress.statuses@ == Map::<ThreadId, AgentStatus>::empty() ==> p.statuses@
        == heard.statuses
    &&& p.dispatches@.len() == heard.members.len()
    &&& forall|i: int|
        0 <= i < heard.members.len() ==> (#[trigger] p.dispatches@[i]).injected_context@
            == heard.members[i].context
    &&& match team.phase {
        SpawnPhase::FindTeam => heard.team_id is None,
        SpawnPhase::NormalizeTeamId => heard.team_id is None && p.provided_team_id is Some,
        SpawnPhase::NewTeamId => heard.team_id is None && p.provided_team_id is None,
        _ => heard.team_id == Some(p.team_id@),
    }
    &&& team.has_begun() ==> p.created_at == heard.clock
    &&& match team.phase {
        SpawnPhase::Config { options } => has_options(options, heard),
        SpawnPhase::Worktree { options } => has_options(options, heard) && p.requested@[n].worktree,
        SpawnPhase::Spawn { options, leased, retried } => has_options(options, heard) && leased
            == p.requested@[n].worktree,
        SpawnPhase::Reap { options, leased, error } => has_options(options, heard) && leased
            == p.requested@[n].worktree,
        SpawnPhase::Hook { leased, agent_id } => agent_id == heard.agent_id && leased
            == p.requested@[n].worktree,
        SpawnPhase::Bootstrap { leased, agent_id, hook_context } => {
            &&& agent_id == heard.agent_id
            &&& leased == p.requested@[n].worktree
            &&& string_views(hook_context@) == heard.hook_context
        },
        SpawnPhase::Register { agent_id, injected } => {
            &&& agent_id == heard.agent_id
            &&& p.requested@[n].worktree
            &&& injected@ == joined(seq![heard.bootstrap] + heard.hook_context, "\n\n"@)
        },
        SpawnPhase::Status { agent_id, injected } => {
            &&& agent_id == heard.agent_id
            &&& injected@ == joined(seq![heard.bootstrap] + heard.hook_context, "\n\n"@)
        },
        SpawnPhase::MemberId { agent_id, injected, status } => {
            &&& agent_id == heard.agent_id
            &&& injected@ == joined(seq![heard.bootstrap] + heard.hook_context, "\n\n"@)
            &&& status == heard.status
        },
        _ => true,
    }
}

/// The settings are those that were heard.
pub open spec fn has_options(options: MemberOptions, heard: SpawnHeard) -> bool {
    &&& options.role_name == heard.role_name
    &&& options.model_provider == heard.model_provider
    &&& options.model == heard.model
}

/// The phase waits for what the action brings.
pub open spec fn awaits(phase: SpawnPhase, action: SpawnTeamAction) -> bool {
    match phase {
        SpawnPhase::FindTeam => action is FindTeamForMember,
        SpawnPhase::NormalizeTeamId => action is NormalizeTeamId,
        SpawnPhase::NewTeamId => action is NewThreadId,
        SpawnPhase::Lock => action is LockTeam,
        SpawnPhase::CheckExists => action is CheckTeamExists,
        SpawnPhase::CheckDepth => action is CheckDepth,
        SpawnPhase::ReadClock => action is ReadClock,
        SpawnPhase::SendBegin => action is SendWaitingBegin,
        SpawnPhase::Options => action is CheckOptions,
        SpawnPhase::Config { .. } => action is BuildConfig,
        SpawnPhase::Worktree { .. } => action is CreateWorktree,
        SpawnPhase::Spawn { .. } => action is SpawnThread,
        SpawnPhase::Reap { .. } => action is ReapFinishedAgents,
        SpawnPhase::Hook { .. } => action is DispatchStartHook,
        SpawnPhase::Bootstrap { .. } => action is BuildBootstrap,
        SpawnPhase::Register { .. } => action is RegisterWorktreeLease,
        SpawnPhase::Status { .. } => action is ReadStatus,
        SpawnPhase::MemberId { .. } => action is NewThreadId,
        SpawnPhase::InsertRecord => action is InsertTeamRecord,
        SpawnPhase::Persist => action is PersistTeam,
        SpawnPhase::Inject { .. } => action is InjectContext,
        SpawnPhase::SendInput { .. } => action is SendInput,
        SpawnPhase::Background { .. } => action is StartBackgroundCleanup,
    }
}

proof fn lemma_step_keeps_what_was_heard(step: SpawnStep, heard: SpawnHeard, first: SpawnTeam)
    requires
        step.earlier.wf(),
        step.is_step(),
        holds(step.earlier, heard, first),
    ensures
        step.later matches Some(later) ==> holds(later, hear(heard, step.event), first) && awaits(
            later.phase,
            step.action,
        ),
{
    reveal_strlit("\n\n");
    assert("\n\n"@ =~= seq!['\n', '\n']);
    let p = step.earlier.progress;
    match (step.earlier.phase, step.event) {
        (SpawnPhase::Hook { leased, agent_id }, SpawnTeamEvent::HookContext(texts)) => {
            assert(string_views(texts@) =~= hear(heard, step.event).hook_context);
        },
        (
            SpawnPhase::MemberId { agent_id, injected, status },
            SpawnTeamEvent::NewId(member_id),
        ) => {
            let q = step.later->0.progress;
            let n = p.spawned@.len() as int;
            let later = hear(heard, step.event);
            assert forall|i: int| 0 <= i < q.spawned@.len() implies is_listed_member(
                #[trigger] q.spawned@[i],
                q.requested@[i],
                later.members[i],
            ) by {
                if i < n {
                    assert(q.spawned@[i] == p.spawned@[i]);
                    assert(later.members[i] == heard.members[i]);
                } else {
                    assert(is_member_as_requested(q.spawned@[n], p.requested@[n]));
                }
            }
            assert forall|i: int| 0 <= i < later.members.len() implies (
            #[trigger] q.dispatches@[i]).injected_context@ == later.members[i].context by {
                if i < n {
                    assert(q.dispatches@[i] == p.dispatches@[i]);
                }
            }
        },
        _ => {},
    }
}

proof fn lemma_run_holds_what_was_heard(steps: Seq<SpawnStep>)
    requires
        is_run(steps),
    ensures
        steps.last().earlier.wf(),
        steps.last().is_step(),
        holds(steps.last().earlier, heard_in(steps.drop_last()), steps[0].earlier),
        steps.len() == 1 ==> steps.last().earlier.phase is FindTeam,
        steps.len() > 1 ==> awaits(steps.last().earlier.phase, steps[steps.len() - 2].action),
    decreases steps.len(),
{
    law_run_keeps_its_request(steps);
    assert(steps[steps.len() - 1].is_step());
    let before = steps.drop_last();
    if steps.len() > 1 {
        lemma_run_without_last_step(steps);
        lemma_run_holds_what_was_heard(before);
        lemma_step_keeps_what_was_heard(
            before.last(),
            heard_in(before.drop_last()),
            steps[0].earlier,
        );
        assert(before[0] == steps[0]);
    } else {
        let first = steps[0].earlier;
        assert(heard_in(before).members =~= Seq::empty());
        assert(first.progress.statuses@ =~= first.progress.statuses@);
    }
}

/// The record of the team, by what was asked and heard.
pub open spec fn is_full_record(
    record: TeamRecord,
    asked: Seq<SpawnTeamMemberArgs>,
    heard: SpawnHeard,
) -> bool {
    &&& record.created_at == heard.clock
    &&& record.members@.len() == asked.len()
    &&& are_listed_members(record.members@, asked, heard.members)
}

proof fn lemma_step_is_about_the_member(step: SpawnStep, heard: SpawnHeard, first: SpawnTeam)
    requires
        step.earlier.wf(),
        step.is_step(),
        holds(step.earlier, heard, first),
    ensures
        ({
            let asked = first.progress.requested@;
            let h = hear(heard, step.event);
            let n = h.members.len() as int;
            match step.action {
                SpawnTeamAction::CheckOptions { member } => member == n && n < asked.len(),
                SpawnTeamAction::BuildConfig { options } => {
                    &&& has_options(options, h)
                    &&& step.event matches SpawnTeamEvent::Options {
                        role_name,
                        model_provider,
                        model,
                    } && role_name == Ok::<Option<String>, FunctionCallError>(options.role_name)
                        && model_provider == Ok::<Option<String>, FunctionCallError>(
                        options.model_provider,
                    ) && model == Ok::<Option<String>, FunctionCallError>(options.model)
                },
                SpawnTeamAction::CreateWorktree => asked[n].worktree,
                SpawnTeamAction::SpawnThread { role_name } => role_name == h.role_name,
                SpawnTeamAction::ReapFinishedAgents { slots } => slots == 1,
                SpawnTeamAction::DispatchStartHook { agent_id, role } => {
                    &&& agent_id == h.agent_id
                    &&& step.event == SpawnTeamEvent::Spawned(Ok(agent_id))
                    &&& role@ == (if h.role_name is Some {
                        h.role_name->0@
                    } else {
                        "default"@
                    })
                },
                SpawnTeamAction::BuildBootstrap { request } => {
                    &&& Some(request.team_id@) == h.team_id
                    &&& request.lead_thread_id == first.progress.conversation_id
                    &&& request.member_name@ == trimmed(asked[n].name@)
                    &&& request.agent_type == asked[n].agent_type
                    &&& request.background == asked[n].background
                    &&& request.worktree == asked[n].worktree
                    &&& request.task@ == trimmed(asked[n].task@)
                    &&& request.requested_members@ == asked
                },
                SpawnTeamAction::RegisterWorktreeLease { agent_id } => agent_id == h.agent_id
                    && asked[n].worktree,
                SpawnTeamAction::ReadStatus { agent_id } => agent_id == h.agent_id,
                _ => true,
            }
        }),
{
    if step.later is Some {
        let q = step.later->0.progress;
        assert(q.spawned@.len() == q.spawned.len());
        lemma_step_keeps_what_was_heard(step, heard, first);
    }
}

/// Over every run what is done for a member is about that very member: its checked
/// settings make its configuration and its role, the agent that was spawned for it
/// is told to the hook, registered and asked for its status, and the first message
/// is made from its own request.
pub proof fn law_steps_are_about_the_member(steps: Seq<SpawnStep>)
    requires
        is_run(steps),
    ensures
        ({
            let asked = steps[0].earlier.progress.requested@;
            let h = heard_in(steps);
            let n = h.members.len() as int;
            match steps.last().action {
                SpawnTeamAction::CheckOptions { member } => member == n && n < asked.len(),
                SpawnTeamAction::BuildConfig { options } => {
                    &&& has_options(options, h)
                    &&& steps.last().event matches SpawnTeamEvent::Options {
                        role_name,
                        model_provider,
                        model,
                    } && role_name == Ok::<Option<String>, FunctionCallError>(options.role_name)
                        && model_provider == Ok::<Option<String>, FunctionCallError>(
                        options.model_provider,
                    ) && model == Ok::<Option<String>, FunctionCallError>(options.model)
                },
                SpawnTeamAction::CreateWorktree => asked[n].worktree,
                SpawnTeamAction::SpawnThread { role_name } => role_name == h.role_name,
                SpawnTeamAction::ReapFinishedAgents { slots } => slots == 1,
                SpawnTeamAction::DispatchStartHook { agent_id, role } => {
                    &&& agent_id == h.agent_id
                    &&& steps.last().event == SpawnTeamEvent::Spawned(Ok(agent_id))
                    &&& role@ == (if h.role_name is Some {
                        h.role_name->0@
                    } else {
                        "default"@
                    })
                },
                SpawnTeamAction::BuildBootstrap { request } => {
                    &&& Some(request.team_id@) == h.team_id
                    &&& request.lead_thread_id == steps[0].earlier.progress.conversation_id
                    &&& request.member_name@ == trimmed(asked[n].name@)
                    &&& request.agent_type == asked[n].agent_type
                    &&& request.background == asked[n].background
                    &&& request.worktree == asked[n].worktree
                    &&& request.task@ == trimmed(asked[n].task@)
                    &&& request.requested_members@ == asked
                },
                SpawnTeamAction::RegisterWorktreeLease { agent_id } => agent_id == h.agent_id
                    && asked[n].worktree,
                SpawnTeamAction::ReadStatus { agent_id } => agent_id == h.agent_id,
                _ => true,
            }
        }),
{
    lemma_run_holds_what_was_heard(steps);
    lemma_step_is_about_the_member(steps.last(), heard_in(steps.drop_last()), steps[0].earlier);
}

/// Over every run what is done for the team is about that very team: the identifier
/// that was settled is locked, looked up and recorded, the wait is announced for the
/// caller without agents, and the record holds all members as they were asked for,
/// with what was heard of them, at the time that was read. It is written down as
/// active.
pub proof fn law_steps_are_about_the_team(steps: Seq<SpawnStep>)
    requires
        is_run(steps),
    ensures
        ({
            let first = steps[0].earlier.progress;
            let h = heard_in(steps);
            match steps.last().action {
                SpawnTeamAction::FindTeamForMember => false,
                SpawnTeamAction::NormalizeTeamId { team_id } => first.provided_team_id == Some(
                    team_id,
                ),
                SpawnTeamAction::LockTeam { team_id } => h.team_id == Some(team_id@),
                SpawnTeamAction::CheckTeamExists { team_id } => h.team_id == Some(team_id@),
                SpawnTeamAction::SendWaitingBegin { event } => {
                    &&& event.sender_thread_id == first.conversation_id
                    &&& event.receiver_thread_ids@.len() == 0
                    &&& event.receiver_agents@.len() == 0
                    &&& event.call_id@ == "team/spawn:"@ + first.call_id@
                },
                SpawnTeamAction::InsertTeamRecord { lead_thread_id, team_id, record } => {
                    &&& lead_thread_id == first.conversation_id
                    &&& h.team_id == Some(team_id@)
                    &&& is_full_record(record, first.requested@, h)
                },
                SpawnTeamAction::PersistTeam {
                    lead_thread_id,
                    team_id,
                    state,
                    record,
                    requested_members,
                } => {
                    &&& lead_thread_id == first.conversation_id
                    &&& h.team_id == Some(team_id@)
                    &&& state == PersistedTeamState::Active
                    &&& is_full_record(record, first.requested@, h)
                    &&& requested_members@ == first.requested@
                },
                _ => true,
            }
        }),
{
    lemma_run_holds_what_was_heard(steps);
    let last = steps.last();
    lemma_step_keeps_what_was_heard(last, heard_in(steps.drop_last()), steps[0].earlier);
}

/// Over every run the members are served one after the other, each with its own
/// context, its own task and, where it works in the background, its own clean-up.
pub proof fn law_dispatches_are_about_the_member(steps: Seq<SpawnStep>)
    requires
        is_run(steps),
    ensures
        ({
            let asked = steps[0].earlier.progress.requested@;
            let h = heard_in(steps);
            let k = inputs_sent(steps).len() as int;
            match steps.last().action {
                SpawnTeamAction::InjectContext { agent_id, text } => {
                    &&& k < asked.len()
                    &&& agent_id == h.members[k].agent_id
                    &&& text@ == h.members[k].context
                    &&& text@.len() > 0
                },
                SpawnTeamAction::SendInput { agent_id, text, text_elements } => {
                    &&& 0 < k <= asked.len()
                    &&& agent_id == h.members[k - 1].agent_id
                    &&& text@ == trimmed(asked[k - 1].task@)
                    &&& text_elements@.len() == 0
                },
                SpawnTeamAction::StartBackgroundCleanup { agent_id } => {
                    &&& 0 < k <= asked.len()
                    &&& agent_id == h.members[k - 1].agent_id
                    &&& asked[k - 1].background
                },
                _ => true,
            }
        }),
{
    lemma_run_holds_what_was_heard(steps);
    let last = steps.last();
    let p = last.earlier.progress;
    lemma_step_keeps_what_was_heard(last, heard_in(steps.drop_last()), steps[0].earlier);
    law_states_stay_well_formed(last);
    law_every_member_gets_its_task(steps);
    assert(p.dispatches@.len() == p.dispatches.len());
    if last.later is Some {
        let later = last.later->0;
        let k = sent_count(later);
        assert(inputs_sent(steps).len() == k);
        match last.action {
            SpawnTeamAction::InjectContext { .. } => {
                assert(is_dispatch_for(p.dispatches@[k], p.spawned@[k]));
            },
            SpawnTeamAction::SendInput { .. } => {
                assert(is_dispatch_for(p.dispatches@[k - 1], p.spawned@[k - 1]));
                assert(is_member_as_requested(p.spawned@[k - 1], p.requested@[k - 1]));
            },
            SpawnTeamAction::StartBackgroundCleanup { .. } => {
                assert(is_dispatch_for(p.dispatches@[k - 1], p.spawned@[k - 1]));
                assert(is_member_as_requested(p.spawned@[k - 1], p.requested@[k - 1]));
            },
            _ => {},
        }
    }
}

/// However a call ends after the wait was announced, what is closed is what was
/// heard: the team, the call, and the members with their statuses. A result names
/// the team and every member with its agent and the status that was read of it.
pub proof fn law_endings_are_about_what_was_heard(steps: Seq<SpawnStep>)
    requires
        is_run(steps),
        steps[0].earlier.progress.statuses@ == Map::<ThreadId, AgentStatus>::empty(),
    ensures
        ({
            let first = steps[0].earlier.progress;
            let h = heard_in(steps);
            match steps.last().action {
                SpawnTeamAction::Abort { closing, error } => {
                    &&& closing.sender_thread_id == first.conversation_id
                    &&& Some(closing.team_id@) == h.team_id
                    &&& closing.event_call_id@ == "team/spawn:"@ + first.call_id@
                    &&& are_listed_members(closing.members@, first.requested@, h.members)
                    &&& closing.statuses@ == h.statuses
                },
                SpawnTeamAction::Complete { closing, result } => {
                    &&& closing.steps@ == seq![ClosingStep::ReleaseLock, ClosingStep::SendWaitingEnd]
                    &&& closing.sender_thread_id == first.conversation_id
                    &&& Some(closing.team_id@) == h.team_id
                    &&& closing.event_call_id@ == "team/spawn:"@ + first.call_id@
                    &&& are_listed_members(closing.members@, first.requested@, h.members)
                    &&& closing.members@.len() == first.requested@.len()
                    &&& closing.statuses@ == h.statuses
                    &&& Some(result.team_id@) == h.team_id
                    &&& result.members@.len() == first.requested@.len()
                    &&& forall|i: int|
                        0 <= i < result.members@.len() ==> {
                            &&& (#[trigger] result.members@[i]).name@ == trimmed(
                                first.requested@[i].name@,
                            )
                            &&& result.members@[i].agent_id@ == h.members[i].agent_id.text()
                            &&& h.statuses.contains_key(h.members[i].agent_id)
                            &&& result.members@[i].status == h.statuses[h.members[i].agent_id]
                        }
                },
                _ => true,
            }
        }),
{
    lemma_run_holds_what_was_heard(steps);
    let last = steps.last();
    let p = last.earlier.progress;
    if last.action is Complete {
        let result = last.action->result;
        let h = heard_in(steps.drop_last());
        assert forall|i: int| 0 <= i < result.members@.len() implies {
            &&& (#[trigger] result.members@[i]).name@ == trimmed(p.requested@[i].name@)
            &&& result.members@[i].agent_id@ == h.members[i].agent_id.text()
            &&& h.statuses.contains_key(h.members[i].agent_id)
            &&& result.members@[i].status == h.statuses[h.members[i].agent_id]
        } by {
            assert(is_listed_member(p.spawned@[i], p.requested@[i], h.members[i]));
        }
    }
}

/// The call ends with the error, after the given steps and then those that every
/// failure calls for: the members are cleaned up, the wait is ended, the lock is
/// released and the directory goes.
pub open spec fn undoes(
    action: SpawnTeamAction,
    error: FunctionCallError,
    left_behind: Seq<ClosingStep>,
) -> bool {
    &&& action is Abort
    &&& action->Abort_error == error
    &&& action->Abort_closing.steps@ == left_behind + seq![
        ClosingStep::CleanupMembers,
        ClosingStep::SendWaitingEnd,
        ClosingStep::ReleaseLock,
        ClosingStep::RemoveTeamDir,
    ]
}

/// The next member is served: with its context first, where there is any. When all
/// are served the call is complete.
pub open spec fn serves_next(
    action: SpawnTeamAction,
    members: Seq<JoinedMember>,
    served: int,
) -> bool {
    if served == members.len() {
        action is Complete
    } else if members[served].context.len() > 0 {
        action is InjectContext
    } else {
        action is SendInput
    }
}

/// The worktree of the member that is being spawned, where it has one.
pub open spec fn worktree_left(asked: SpawnTeamMemberArgs) -> Seq<ClosingStep> {
    if asked.worktree {
        seq![ClosingStep::RemoveWorktreeLease]
    } else {
        Seq::empty()
    }
}

/// What comes of the outcome of an action.
pub open spec fn outcome_leads_on(
    before: SpawnTeamAction,
    outcome: Result<(), FunctionCallError>,
    action: SpawnTeamAction,
    asked: Seq<SpawnTeamMemberArgs>,
    heard: SpawnHeard,
    sent: int,
) -> bool {
    let n = heard.members.len() as int;
    let record = seq![ClosingStep::RemoveTeamRecord, ClosingStep::RemoveTeamPersistence];
    match (before, outcome) {
        (SpawnTeamAction::LockTeam { .. }, Ok(_)) => action is CheckTeamExists,
        (SpawnTeamAction::LockTeam { .. }, Err(error)) => action == (SpawnTeamAction::Refuse {
            error,
        }),
        (SpawnTeamAction::BuildConfig { .. }, Ok(_)) => if asked[n].worktree {
            action is CreateWorktree
        } else {
            action is SpawnThread
        },
        (SpawnTeamAction::BuildConfig { .. }, Err(error)) => undoes(action, error, Seq::empty()),
        (SpawnTeamAction::CreateWorktree, Ok(_)) => action is SpawnThread,
        (SpawnTeamAction::CreateWorktree, Err(error)) => undoes(action, error, Seq::empty()),
        (SpawnTeamAction::RegisterWorktreeLease { .. }, Ok(_)) => action is ReadStatus,
        (SpawnTeamAction::RegisterWorktreeLease { .. }, Err(error)) => undoes(
            action,
            error,
            seq![ClosingStep::ShutdownAgent(heard.agent_id)],
        ),
        (SpawnTeamAction::InsertTeamRecord { .. }, Ok(_)) => action is PersistTeam,
        (SpawnTeamAction::InsertTeamRecord { .. }, Err(error)) => undoes(
            action,
            error,
            Seq::empty(),
        ),
        (SpawnTeamAction::PersistTeam { .. }, Ok(_)) => serves_next(action, heard.members, 0),
        (SpawnTeamAction::PersistTeam { .. }, Err(error)) => undoes(action, error, record),
        (SpawnTeamAction::InjectContext { .. }, _) => action is SendInput,
        (SpawnTeamAction::SendInput { .. }, Ok(_)) => if asked[sent - 1].background {
            action is StartBackgroundCleanup
        } else {
            serves_next(action, heard.members, sent)
        },
        (SpawnTeamAction::SendInput { .. }, Err(error)) => undoes(action, error, record),
        _ => false,
    }
}

/// What comes of an event, by the action that it answers, the event before it, what
/// was asked and what has been heard.
pub open spec fn event_leads_on(
    before: SpawnTeamAction,
    event_before: SpawnTeamEvent,
    event: SpawnTeamEvent,
    action: SpawnTeamAction,
    first: TeamProgress,
    heard: SpawnHeard,
    sent: int,
) -> bool {
    let asked = first.requested@;
    let n = heard.members.len() as int;
    match event {
        SpawnTeamEvent::MemberTeam(Err(error)) => action == (SpawnTeamAction::Refuse { error }),
        SpawnTeamEvent::MemberTeam(Ok(Some(team_id))) => action is Refuse && responds(
            action->Refuse_error,
            "spawn_team is disabled for agent team teammates (team `"@ + team_id@
                + "`). Ask the team lead to spawn teams."@,
        ),
        SpawnTeamEvent::MemberTeam(Ok(None)) => match validation_problem(asked) {
            Some(text) => action is Refuse && responds(action->Refuse_error, text),
            None => if first.provided_team_id is Some {
                action is NormalizeTeamId
            } else {
                action is NewThreadId
            },
        },
        SpawnTeamEvent::TeamId(Err(error)) => action == (SpawnTeamAction::Refuse { error }),
        SpawnTeamEvent::TeamId(Ok(_)) => action is LockTeam,
        SpawnTeamEvent::NewId(_) => if n == 0 {
            action is LockTeam
        } else if n < asked.len() {
            action is CheckOptions
        } else {
            action is InsertTeamRecord
        },
        SpawnTeamEvent::Outcome(outcome) => outcome_leads_on(
            before,
            outcome,
            action,
            asked,
            heard,
            sent,
        ),
        SpawnTeamEvent::TeamExists(Err(error)) => action == (SpawnTeamAction::Refuse { error }),
        SpawnTeamEvent::TeamExists(Ok(exists_already)) => if exists_already {
            action is Refuse && responds(
                action->Refuse_error,
                "team `"@ + heard.team_id->0 + "` already exists"@,
            )
        } else {
            action is CheckDepth
        },
        SpawnTeamEvent::DepthExceeded(exceeded) => if exceeded {
            action is Refuse && responds(
                action->Refuse_error,
                "Agent depth limit reached. Solve the task yourself."@,
            )
        } else {
            action is ReadClock
        },
        SpawnTeamEvent::Clock(_) => action is SendWaitingBegin,
        SpawnTeamEvent::Acknowledged => if before is SendWaitingBegin {
            action is CheckOptions
        } else {
            serves_next(action, heard.members, sent)
        },
        SpawnTeamEvent::Options { role_name, model_provider, model } => if role_name is Err {
            action == (SpawnTeamAction::Refuse { error: role_name->Err_0 })
        } else if model_provider is Err {
            action == (SpawnTeamAction::Refuse { error: model_provider->Err_0 })
        } else if model is Err {
            action == (SpawnTeamAction::Refuse { error: model->Err_0 })
        } else {
            action is BuildConfig
        },
        SpawnTeamEvent::Spawned(Ok(_)) => action is DispatchStartHook,
        SpawnTeamEvent::Spawned(Err(SpawnFailure::Other(error))) => undoes(
            action,
            error,
            worktree_left(asked[n]),
        ),
        SpawnTeamEvent::Spawned(Err(SpawnFailure::AgentLimitReached(error))) => if event_before is Reaped {
            undoes(action, error, worktree_left(asked[n]))
        } else {
            action is ReapFinishedAgents
        },
        SpawnTeamEvent::Reaped(count) => if count == 0 {
            &&& event_before is Spawned
            &&& event_before->Spawned_0 is Err
            &&& event_before->Spawned_0->Err_0 is AgentLimitReached
            &&& undoes(
                action,
                event_before->Spawned_0->Err_0->AgentLimitReached_0,
                worktree_left(asked[n]),
            )
        } else {
            action is SpawnThread
        },
        SpawnTeamEvent::HookContext(_) => action is BuildBootstrap,
        SpawnTeamEvent::Bootstrap(_) => if asked[n].worktree {
            action is RegisterWorktreeLease
        } else {
            action is ReadStatus
        },
        SpawnTeamEvent::Status(_) => action is NewThreadId,
    }
}

/// The phase remembers the event that led to it.
pub open spec fn remembers(phase: SpawnPhase, event: SpawnTeamEvent) -> bool {
    match phase {
        SpawnPhase::Spawn { options, leased, retried } => retried == (event is Reaped),
        SpawnPhase::Reap { options, leased, error } => event == SpawnTeamEvent::Spawned(
            Err(SpawnFailure::AgentLimitReached(error)),
        ),
        _ => true,
    }
}

proof fn lemma_step_remembers(step: SpawnStep)
    requires
        step.earlier.wf(),
        step.is_step(),
    ensures
        step.later matches Some(later) ==> remembers(later.phase, step.event),
{
}

proof fn lemma_outcome_leads_on(
    step: SpawnStep,
    before: SpawnTeamAction,
    heard: SpawnHeard,
    first: SpawnTeam,
)
    requires
        step.earlier.wf(),
        step.is_step(),
        holds(step.earlier, heard, first),
        awaits(step.earlier.phase, before),
        step.event is Outcome,
    ensures
        outcome_leads_on(
            before,
            step.event->Outcome_0,
            step.action,
            first.progress.requested@,
            heard,
            sent_count(step.earlier),
        ),
{
    let p = step.earlier.progress;
    let k = sent_count(step.earlier);
    assert(p.dispatches@.len() == p.dispatches.len());
    if step.earlier.phase is SendInput {
        assert(is_dispatch_for(p.dispatches@[k - 1], p.spawned@[k - 1]));
        assert(is_member_as_requested(p.spawned@[k - 1], p.requested@[k - 1]));
    }
    if 0 <= k < p.dispatches@.len() {
        assert(p.dispatches@[k].injected_context@ == heard.members[k].context);
    }
    if p.dispatches@.len() > 0 {
        assert(p.dispatches@[0].injected_context@ == heard.members[0].context);
    }
}

proof fn lemma_event_leads_on(
    step: SpawnStep,
    before: SpawnTeamAction,
    event_before: SpawnTeamEvent,
    heard: SpawnHeard,
    first: SpawnTeam,
)
    requires
        step.earlier.wf(),
        step.is_step(),
        holds(step.earlier, heard, first),
        awaits(step.earlier.phase, before),
        remembers(step.earlier.phase, event_before),
    ensures
        event_leads_on(
            before,
            event_before,
            step.event,
            step.action,
            first.progress,
            hear(heard, step.event),
            sent_count(step.earlier),
        ),
{
    if step.event is Outcome {
        lemma_outcome_leads_on(step, before, heard, first);
    } else {
        let p = step.earlier.progress;
        let k = sent_count(step.earlier);
        assert(p.dispatches@.len() == p.dispatches.len());
        if 0 <= k < p.dispatches@.len() {
            assert(p.dispatches@[k].injected_context@ == heard.members[k].context);
        }
    }
}

/// A run takes its course: every event leads to one next action, by the action that
/// it answers and by what was asked and heard. Every refusal and every failure comes
/// with its own error and undoes exactly what was done.
pub proof fn law_team_takes_its_course(steps: Seq<SpawnStep>)
    requires
        is_run(steps),
    ensures
        ({
            let n = steps.len() as int;
            event_leads_on(
                if n > 1 {
                    steps[n - 2].action
                } else {
                    SpawnTeamAction::FindTeamForMember
                },
                steps[if n > 1 {
                    n - 2
                } else {
                    0
                }].event,
                steps.last().event,
                steps.last().action,
                steps[0].earlier.progress,
                heard_in(steps),
                inputs_sent(steps.drop_last()).len() as int,
            )
        }),
        steps.last().later is None <==> steps.last().action is Refuse
            || steps.last().action is Abort || steps.last().action is Complete,
{
    lemma_run_holds_what_was_heard(steps);
    let last = steps.last();
    let n = steps.len() as int;
    let before = steps.drop_last();
    if n > 1 {
        lemma_run_without_last_step(steps);
        lemma_run_holds_what_was_heard(before);
        lemma_step_remembers(before.last());
        law_every_member_gets_its_task(before);
        law_run_keeps_its_request(steps);
        assert(inputs_sent(before).len() == sent_count(last.earlier)) by {
            assert(inputs_sent(before) == inputs_for(
                last.earlier.progress,
                sent_count(last.earlier),
            ));
        }
        lemma_event_leads_on(
            last,
            steps[n - 2].action,
            steps[n - 2].event,
            heard_in(before),
            steps[0].earlier,
        );
    } else {
        assert(inputs_sent(before).len() == 0);
        lemma_event_leads_on(
            last,
            SpawnTeamAction::FindTeamForMember,
            steps[0].event,
            heard_in(before),
            steps[0].earlier,
        );
    }
}

/// The event answers the action.
pub open spec fn answers(action: SpawnTeamAction, event: SpawnTeamEvent) -> bool {
    match action {
        SpawnTeamAction::FindTeamForMember => event is MemberTeam,
        SpawnTeamAction::NormalizeTeamId { .. } => event is TeamId,
        SpawnTeamAction::NewThreadId => event is NewId,
        SpawnTeamAction::CheckTeamExists { .. } => event is TeamExists,
        SpawnTeamAction::CheckDepth => event is DepthExceeded,
        SpawnTeamAction::ReadClock => event is Clock,
        SpawnTeamAction::SendWaitingBegin { .. } => event is Acknowledged,
        SpawnTeamAction::CheckOptions { .. } => event is Options,
        SpawnTeamAction::SpawnThread { .. } => event is Spawned,
        SpawnTeamAction::ReapFinishedAgents { .. } => event is Reaped,
        SpawnTeamAction::DispatchStartHook { .. } => event is HookContext,
        SpawnTeamAction::BuildBootstrap { .. } => event is Bootstrap,
        SpawnTeamAction::ReadStatus { .. } => event is Status,
        SpawnTeamAction::StartBackgroundCleanup { .. } => event is Acknowledged,
        SpawnTeamAction::Refuse { .. } => false,
        SpawnTeamAction::Abort { .. } => false,
        SpawnTeamAction::Complete { .. } => false,
        _ => event is Outcome,
    }
}

/// After an action every event that answers it is expected, and no other.
pub proof fn law_every_answer_is_expected(step: SpawnStep, answer: SpawnTeamEvent)
    requires
        step.earlier.wf(),
        step.is_step(),
    ensures
        step.later matches Some(later) ==> (later.expects(answer) <==> answers(
            step.action,
            answer,
        )),
        step.earlier.phase is FindTeam ==> (step.earlier.expects(answer) <==> answer is MemberTeam),
{
}

} // verus!
