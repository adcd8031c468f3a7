//! Spawning an agent team: the checks, the members one after the other, the
//! record of the team, and the dispatch of the tasks.
//!
//! Everything that reaches outside (files, hooks, threads, the clock) is left
//! to the caller: [`handle`] says what to do next, and is told how it went. A
//! step that fails ends the run with the list of what has to be undone.

use crate::agent::{AgentStatus, CollabAgentStatusEntry, StatusMap};
use crate::multi_agents::{
    call_prefix, prefixed_team_call_id, CollabWaitingBeginEvent, CollabWaitingEndEvent,
    TeamCallKind,
};
use crate::team::{
    enclose, enclosed, member_name, responds, validate_members, validation_problem,
    FunctionCallError, PersistedTeamState, SpawnTeamMemberArgs, TeamMember, TeamRecord,
};
use crate::text::{join, joined, string_views, trim, trimmed, TextElement};
use crate::thread_id::ThreadId;
use vstd::pervasive::unreached;
use vstd::prelude::*;
use vstd::string::StringExecFns;

verus! {

/// The settings of a member that have been checked: blank ones are refused.
#[derive(Debug, PartialEq, Eq)]
pub struct MemberOptions {
    pub role_name: Option<String>,
    pub model_provider: Option<String>,
    pub model: Option<String>,
}

impl Clone for MemberOptions {
    fn clone(&self) -> (r: MemberOptions)
        ensures
            r == *self,
    {
        MemberOptions {
            role_name: self.role_name.clone(),
            model_provider: self.model_provider.clone(),
            model: self.model.clone(),
        }
    }
}

/// Why a thread could not be spawned.
#[derive(Debug)]
pub enum SpawnFailure {
    /// There are as many agents as there may be.
    AgentLimitReached(FunctionCallError),
    Other(FunctionCallError),
}

/// What is still to be sent to a member once the team stands.
#[derive(Debug)]
pub struct PendingSpawnDispatch {
    pub agent_id: ThreadId,
    pub task: String,
    pub injected_context: String,
    pub background: bool,
}

/// What has been achieved so far.
#[derive(Debug)]
pub struct TeamProgress {
    pub conversation_id: ThreadId,
    pub call_id: String,
    pub provided_team_id: Option<String>,
    pub requested: Vec<SpawnTeamMemberArgs>,
    pub team_id: String,
    pub event_call_id: String,
    pub created_at: i64,
    pub spawned: Vec<TeamMember>,
    pub statuses: StatusMap,
    pub dispatches: Vec<PendingSpawnDispatch>,
}

/// What the run waits for.
#[derive(Debug)]
pub enum SpawnPhase {
    FindTeam,
    NormalizeTeamId,
    NewTeamId,
    Lock,
    CheckExists,
    CheckDepth,
    ReadClock,
    SendBegin,
    Options,
    Config { options: MemberOptions },
    Worktree { options: MemberOptions },
    Spawn { options: MemberOptions, leased: bool, retried: bool },
    Reap { options: MemberOptions, leased: bool, error: FunctionCallError },
    Hook { leased: bool, agent_id: ThreadId },
    Bootstrap { leased: bool, agent_id: ThreadId, hook_context: Vec<String> },
    Register { agent_id: ThreadId, injected: String },
    Status { agent_id: ThreadId, injected: String },
    MemberId { agent_id: ThreadId, injected: String, status: AgentStatus },
    InsertRecord,
    Persist,
    Inject { next: usize },
    SendInput { next: usize },
    Background { next: usize },
}

/// A run that spawns a team.
#[derive(Debug)]
pub struct SpawnTeam {
    pub progress: TeamProgress,
    pub phase: SpawnPhase,
}

/// How it went.
#[derive(Debug)]
pub enum SpawnTeamEvent {
    /// The team that the caller is a member of, if any.
    MemberTeam(Result<Option<String>, FunctionCallError>),
    TeamId(Result<String, FunctionCallError>),
    NewId(ThreadId),
    Outcome(Result<(), FunctionCallError>),
    TeamExists(Result<bool, FunctionCallError>),
    DepthExceeded(bool),
    /// Seconds since the epoch.
    Clock(i64),
    Acknowledged,
    Options {
        role_name: Result<Option<String>, FunctionCallError>,
        model_provider: Result<Option<String>, FunctionCallError>,
        model: Result<Option<String>, FunctionCallError>,
    },
    Spawned(Result<ThreadId, SpawnFailure>),
    /// How many finished agents made room.
    Reaped(usize),
    HookContext(Vec<String>),
    Bootstrap(String),
    Status(AgentStatus),
}

/// What the first message to a member is made of.
#[derive(Debug, PartialEq, Eq)]
pub struct BootstrapRequest {
    pub team_id: String,
    pub lead_thread_id: ThreadId,
    pub member_name: String,
    pub agent_type: Option<String>,
    pub background: bool,
    pub worktree: bool,
    pub task: String,
    pub requested_members: Vec<SpawnTeamMemberArgs>,
}

/// A step that undoes or ends something. Nothing depends on how it goes.
#[derive(Debug, Clone, Copy, PartialEq, Eq, Structural)]
pub enum ClosingStep {
    RemoveWorktreeLease,
    ShutdownAgent(ThreadId),
    RemoveTeamRecord,
    RemoveTeamPersistence,
    CleanupMembers,
    ReleaseLock,
    SendWaitingEnd,
    RemoveTeamDir,
}

/// What the closing steps speak of: the team, its members and their statuses so
/// far, and the call under which the wait was announced.
#[derive(Debug)]
pub struct Closing {
    pub steps: Vec<ClosingStep>,
    pub sender_thread_id: ThreadId,
    pub team_id: String,
    pub event_call_id: String,
    pub members: Vec<TeamMember>,
    pub statuses: StatusMap,
}

/// A member in the result of the call.
#[derive(Debug, PartialEq, Eq)]
pub struct SpawnTeamMemberResult {
    pub name: String,
    pub agent_id: String,
    pub status: AgentStatus,
}

/// The result of the call.
#[derive(Debug, PartialEq, Eq)]
pub struct SpawnTeamResult {
    pub team_id: String,
    pub members: Vec<SpawnTeamMemberResult>,
}

/// What to do next.
#[derive(Debug)]
pub enum SpawnTeamAction {
    FindTeamForMember,
    NormalizeTeamId { team_id: String },
    NewThreadId,
    LockTeam { team_id: String },
    CheckTeamExists { team_id: String },
    CheckDepth,
    ReadClock,
    SendWaitingBegin { event: CollabWaitingBeginEvent },
    /// Checks the role, the provider and the model of the member at a place.
    CheckOptions { member: usize },
    BuildConfig { options: MemberOptions },
    CreateWorktree,
    SpawnThread { role_name: Option<String> },
    ReapFinishedAgents { slots: usize },
    DispatchStartHook { agent_id: ThreadId, role: String },
    BuildBootstrap { request: BootstrapRequest },
    RegisterWorktreeLease { agent_id: ThreadId },
    ReadStatus { agent_id: ThreadId },
    InsertTeamRecord { lead_thread_id: ThreadId, team_id: String, record: TeamRecord },
    /// Writes the team down in a state, with the initial tasks of its members.
    PersistTeam {
        lead_thread_id: ThreadId,
        team_id: String,
        state: PersistedTeamState,
        record: TeamRecord,
        requested_members: Vec<SpawnTeamMemberArgs>,
    },
    InjectContext { agent_id: ThreadId, text: String },
    SendInput { agent_id: ThreadId, text: String, text_elements: Vec<TextElement> },
    StartBackgroundCleanup { agent_id: ThreadId },
    /// Ends the call with an error; nothing is undone.
    Refuse { error: FunctionCallError },
    /// Ends the call with an error, after the closing steps.
    Abort { closing: Closing, error: FunctionCallError },
    /// Ends the call with its result, after the closing steps.
    Complete { closing: Closing, result: SpawnTeamResult },
}

/// A member as it was requested.
pub open spec fn is_member_as_requested(
    member: TeamMember,
    request: SpawnTeamMemberArgs,
) -> bool {
    &&& member.name@ == member_name(request)
    &&& member.agent_type == request.agent_type
    &&& member.model_provider == request.model_provider
    &&& member.model == request.model
    &&& member.initial_task@ == trimmed(request.task@)
    &&& member.background == request.background
    &&& member.worktree == request.worktree
}

/// What is to be sent to a member.
pub open spec fn is_dispatch_for(
    dispatch: PendingSpawnDispatch,
    member: TeamMember,
) -> bool {
    &&& dispatch.agent_id == member.agent_id
    &&& dispatch.task@ == member.initial_task@
    &&& dispatch.background == member.background
}

/// The status of an agent in the result.
pub open spec fn status_in(statuses: Map<ThreadId, AgentStatus>, agent_id: ThreadId) -> AgentStatus {
    if statuses.contains_key(agent_id) {
        statuses[agent_id]
    } else {
        AgentStatus::NotFound
    }
}

/// The result for some members.
pub open spec fn are_results_for(
    results: Seq<SpawnTeamMemberResult>,
    members: Seq<TeamMember>,
    statuses: Map<ThreadId, AgentStatus>,
) -> bool {
    &&& results.len() == members.len()
    &&& forall|i: int|
        0 <= i < members.len() ==> {
            &&& (#[trigger] results[i]).name@ == members[i].name@
            &&& results[i].agent_id@ == members[i].agent_id.text()
            &&& results[i].status == status_in(statuses, members[i].agent_id)
        }
}

impl TeamProgress {
    /// The members so far are the first of those requested, in their order, with
    /// a status and a dispatch each.
    pub open spec fn wf(self) -> bool {
        &&& self.spawned@.len() <= self.requested@.len()
        &&& self.dispatches@.len() == self.spawned@.len()
        &&& forall|i: int|
            0 <= i < self.spawned@.len() ==> is_member_as_requested(
                #[trigger] self.spawned@[i],
                self.requested@[i],
            )
        &&& forall|i: int|
            0 <= i < self.spawned@.len() ==> is_dispatch_for(
                #[trigger] self.dispatches@[i],
                self.spawned@[i],
            )
        &&& forall|i: int|
            0 <= i < self.spawned@.len() ==> self.statuses@.contains_key(
                (#[trigger] self.spawned@[i]).agent_id,
            )
    }

    /// The request passed its checks.
    pub open spec fn is_valid_request(self) -> bool {
        validation_problem(self.requested@) is None
    }

    /// The wait was announced under the team call's own identifier.
    pub open spec fn is_announced(self) -> bool {
        self.event_call_id@ == call_prefix(TeamCallKind::Spawn) + self.call_id@
    }

    /// There is no member yet.
    pub open spec fn is_fresh(self) -> bool {
        self.spawned@.len() == 0
    }

    /// A member is being spawned.
    pub open spec fn is_spawning(self) -> bool {
        self.spawned@.len() < self.requested@.len()
    }

    /// All members are spawned.
    pub open spec fn is_spawned(self) -> bool {
        self.spawned@.len() == self.requested@.len()
    }
}

impl SpawnTeam {
    /// The run is in a state that it can be in.
    pub open spec fn wf(self) -> bool {
        let p = self.progress;
        &&& p.wf()
        &&& !(self.phase is FindTeam) ==> p.is_valid_request()
        &&& match self.phase {
            SpawnPhase::FindTeam
            | SpawnPhase::NormalizeTeamId
            | SpawnPhase::NewTeamId
            | SpawnPhase::Lock
            | SpawnPhase::CheckExists
            | SpawnPhase::CheckDepth
            | SpawnPhase::ReadClock => p.is_fresh(),
            SpawnPhase::SendBegin => p.is_fresh() && p.is_announced(),
            SpawnPhase::InsertRecord | SpawnPhase::Persist => p.is_spawned() && p.is_announced(),
            SpawnPhase::Inject { next } => p.is_spawned() && p.is_announced() && next
                < p.spawned@.len(),
            SpawnPhase::SendInput { next } => p.is_spawned() && p.is_announced() && next
                < p.spawned@.len(),
            SpawnPhase::Background { next } => p.is_spawned() && p.is_announced() && next
                < p.spawned@.len(),
            _ => p.is_spawning() && p.is_announced(),
        }
    }

    /// The wait for the team has been announced.
    pub open spec fn has_begun(self) -> bool {
        match self.phase {
            SpawnPhase::FindTeam
            | SpawnPhase::NormalizeTeamId
            | SpawnPhase::NewTeamId
            | SpawnPhase::Lock
            | SpawnPhase::CheckExists
            | SpawnPhase::CheckDepth
            | SpawnPhase::ReadClock => false,
            _ => true,
        }
    }

    /// The events that can follow the action that was last given out.
    pub open spec fn expects(self, event: SpawnTeamEvent) -> bool {
        match self.phase {
            SpawnPhase::FindTeam => event is MemberTeam,
            SpawnPhase::NormalizeTeamId => event is TeamId,
            SpawnPhase::NewTeamId => event is NewId,
            SpawnPhase::Lock => event is Outcome,
            SpawnPhase::CheckExists => event is TeamExists,
            SpawnPhase::CheckDepth => event is DepthExceeded,
            SpawnPhase::ReadClock => event is Clock,
            SpawnPhase::SendBegin => event is Acknowledged,
            SpawnPhase::Options => event is Options,
            SpawnPhase::Config { options } => event is Outcome,
            SpawnPhase::Worktree { options } => event is Outcome,
            SpawnPhase::Spawn { options, leased, retried } => event is Spawned,
            SpawnPhase::Reap { options, leased, error } => event is Reaped,
            SpawnPhase::Hook { leased, agent_id } => event is HookContext,
            SpawnPhase::Bootstrap { leased, agent_id, hook_context } => event is Bootstrap,
            SpawnPhase::Register { agent_id, injected } => event is Outcome,
            SpawnPhase::Status { agent_id, injected } => event is Status,
            SpawnPhase::MemberId { agent_id, injected, status } => event is NewId,
            SpawnPhase::InsertRecord => event is Outcome,
            SpawnPhase::Persist => event is Outcome,
            SpawnPhase::Inject { next } => event is Outcome,
            SpawnPhase::SendInput { next } => event is Outcome,
            SpawnPhase::Background { next } => event is Acknowledged,
        }
    }
}

/// The run goes on with what it has, in another phase.
pub open spec fn goes_on(later: Option<SpawnTeam>, progress: TeamProgress, phase: SpawnPhase) -> bool {
    later == Some(SpawnTeam { progress, phase })
}

/// The call ends with an error, and nothing is undone.
pub open spec fn refuses(
    later: Option<SpawnTeam>,
    action: SpawnTeamAction,
    error: FunctionCallError,
) -> bool {
    later is None && action == (SpawnTeamAction::Refuse { error })
}

/// The call ends with a text for the model, and nothing is undone.
pub open spec fn refuses_with(
    later: Option<SpawnTeam>,
    action: SpawnTeamAction,
    text: Seq<char>,
) -> bool {
    later is None && (action matches SpawnTeamAction::Refuse { error } && responds(error, text))
}

/// The steps after a failure: what the failed step itself has left behind, then
/// the members, the announced wait, the lock and the team's directory.
pub open spec fn failure_steps(left_behind: Seq<ClosingStep>) -> Seq<ClosingStep> {
    left_behind + seq![
        ClosingStep::CleanupMembers,
        ClosingStep::SendWaitingEnd,
        ClosingStep::ReleaseLock,
        ClosingStep::RemoveTeamDir,
    ]
}

/// The closing speaks of what has been achieved.
pub open spec fn closes(closing: Closing, progress: TeamProgress, steps: Seq<ClosingStep>) -> bool {
    &&& closing.steps@ == steps
    &&& closing.sender_thread_id == progress.conversation_id
    &&& closing.team_id == progress.team_id
    &&& closing.event_call_id == progress.event_call_id
    &&& closing.members == progress.spawned
    &&& closing.statuses == progress.statuses
}

/// The call ends with an error, and what has been achieved is undone.
pub open spec fn aborts(
    later: Option<SpawnTeam>,
    action: SpawnTeamAction,
    progress: TeamProgress,
    left_behind: Seq<ClosingStep>,
    error: FunctionCallError,
) -> bool {
    &&& later is None
    &&& action matches SpawnTeamAction::Abort { closing, error: reported } && reported == error
        && closes(closing, progress, failure_steps(left_behind))
}

/// The call ends with its result.
pub open spec fn completes(
    later: Option<SpawnTeam>,
    action: SpawnTeamAction,
    progress: TeamProgress,
) -> bool {
    &&& later is None
    &&& action matches SpawnTeamAction::Complete { closing, result } && {
        &&& closes(
            closing,
            progress,
            seq![ClosingStep::ReleaseLock, ClosingStep::SendWaitingEnd],
        )
        &&& result.team_id == progress.team_id
        &&& are_results_for(result.members@, progress.spawned@, progress.statuses@)
    }
}

/// The identifier of the team is settled, and the team is locked next.
pub open spec fn locks_team(
    later: Option<SpawnTeam>,
    action: SpawnTeamAction,
    progress: TeamProgress,
    team_id: Seq<char>,
) -> bool {
    later matches Some(team) && {
        &&& team.progress == (TeamProgress { team_id: team.progress.team_id, ..progress })
        &&& team.progress.team_id@ == team_id
        &&& team.phase == SpawnPhase::Lock
        &&& action == (SpawnTeamAction::LockTeam { team_id: team.progress.team_id })
    }
}

/// The wait for the team is announced, as yet without agents.
pub open spec fn announces(
    later: Option<SpawnTeam>,
    action: SpawnTeamAction,
    progress: TeamProgress,
    created_at: i64,
) -> bool {
    &&& later matches Some(team) && {
        &&& team.progress == (TeamProgress {
            event_call_id: team.progress.event_call_id,
            created_at,
            ..progress
        })
        &&& team.progress.is_announced()
        &&& team.phase == SpawnPhase::SendBegin
    }
    &&& action matches SpawnTeamAction::SendWaitingBegin { event } && {
        &&& event.sender_thread_id == progress.conversation_id
        &&& event.receiver_thread_ids@.len() == 0
        &&& event.receiver_agents@.len() == 0
        &&& event.call_id@ == call_prefix(TeamCallKind::Spawn) + progress.call_id@
    }
}

/// The request for the first message to the member that is being spawned.
pub open spec fn is_bootstrap_request(request: BootstrapRequest, progress: TeamProgress) -> bool {
    let member = progress.requested@[progress.spawned@.len() as int];
    &&& request.team_id == progress.team_id
    &&& request.lead_thread_id == progress.conversation_id
    &&& request.member_name@ == member_name(member)
    &&& request.agent_type == member.agent_type
    &&& request.background == member.background
    &&& request.worktree == member.worktree
    &&& request.task@ == trimmed(member.task@)
    &&& request.requested_members@ == progress.requested@
}

/// The thread of a member is spawned, and the hook is told next.
pub open spec fn tells_hook(
    later: Option<SpawnTeam>,
    action: SpawnTeamAction,
    progress: TeamProgress,
    options: MemberOptions,
    leased: bool,
    agent_id: ThreadId,
) -> bool {
    &&& goes_on(later, progress, SpawnPhase::Hook { leased, agent_id })
    &&& action matches SpawnTeamAction::DispatchStartHook { agent_id: told, role } && told
        == agent_id && role@ == (match options.role_name {
        Some(role) => role@,
        None => "default"@,
    })
}

/// The context of a member is known; its lease is registered if it has one, and
/// else its status is read.
pub open spec fn has_context(
    later: Option<SpawnTeam>,
    action: SpawnTeamAction,
    progress: TeamProgress,
    leased: bool,
    agent_id: ThreadId,
    context: Seq<char>,
) -> bool {
    later matches Some(team) && {
        &&& team.progress == progress
        &&& if leased {
            &&& team.phase matches SpawnPhase::Register { agent_id: id, injected } && id == agent_id
                && injected@ == context
            &&& action == (SpawnTeamAction::RegisterWorktreeLease { agent_id })
        } else {
            &&& team.phase matches SpawnPhase::Status { agent_id: id, injected } && id == agent_id
                && injected@ == context
            &&& action == (SpawnTeamAction::ReadStatus { agent_id })
        }
    }
}

/// The member that was being spawned is one of the team.
pub open spec fn adds_member(
    later: TeamProgress,
    earlier: TeamProgress,
    agent_id: ThreadId,
    member_id: ThreadId,
    injected: String,
    status: AgentStatus,
) -> bool {
    let n = earlier.spawned@.len() as int;
    &&& later == (TeamProgress {
        spawned: later.spawned,
        statuses: later.statuses,
        dispatches: later.dispatches,
        ..earlier
    })
    &&& later.spawned@ == earlier.spawned@.push(later.spawned@[n])
    &&& is_member_as_requested(later.spawned@[n], earlier.requested@[n])
    &&& later.spawned@[n].agent_id == agent_id
    &&& later.spawned@[n].member_id@ == member_id.text()
    &&& later.statuses@ == earlier.statuses@.insert(agent_id, status)
    &&& later.dispatches@ == earlier.dispatches@.push(later.dispatches@[n])
    &&& is_dispatch_for(later.dispatches@[n], later.spawned@[n])
    &&& later.dispatches@[n].injected_context == injected
}

/// The next member is taken up or, where there is none, the team is recorded.
pub open spec fn takes_next_member(
    later: Option<SpawnTeam>,
    action: SpawnTeamAction,
    progress: TeamProgress,
) -> bool {
    if progress.spawned@.len() < progress.requested@.len() {
        &&& goes_on(later, progress, SpawnPhase::Options)
        &&& action == (SpawnTeamAction::CheckOptions { member: progress.spawned@.len() as usize })
    } else {
        &&& goes_on(later, progress, SpawnPhase::InsertRecord)
        &&& action matches SpawnTeamAction::InsertTeamRecord { lead_thread_id, team_id, record }
            && is_record(lead_thread_id, team_id, record, progress)
    }
}

/// The record of the team, under the team's identifier and that of its lead.
pub open spec fn is_record(
    lead_thread_id: ThreadId,
    team_id: String,
    record: TeamRecord,
    progress: TeamProgress,
) -> bool {
    &&& lead_thread_id == progress.conversation_id
    &&& team_id == progress.team_id
    &&& record.members@ == progress.spawned@
    &&& record.created_at == progress.created_at
}

/// The team is written down as active, with its record and what was asked of its
/// members.
pub open spec fn persists_active_team(action: SpawnTeamAction, progress: TeamProgress) -> bool {
    action matches SpawnTeamAction::PersistTeam {
        lead_thread_id,
        team_id,
        state,
        record,
        requested_members,
    } && {
        &&& is_record(lead_thread_id, team_id, record, progress)
        &&& state == PersistedTeamState::Active
        &&& requested_members@ == progress.requested@
    }
}

/// A dispatch is taken up: first its context, where there is any. After the last
/// one the call is complete.
pub open spec fn takes_dispatch(
    later: Option<SpawnTeam>,
    action: SpawnTeamAction,
    progress: TeamProgress,
    next: int,
) -> bool {
    if next >= progress.dispatches@.len() {
        completes(later, action, progress)
    } else {
        let dispatch = progress.dispatches@[next];
        if dispatch.injected_context@.len() > 0 {
            &&& goes_on(later, progress, SpawnPhase::Inject { next: next as usize })
            &&& action == (SpawnTeamAction::InjectContext {
                agent_id: dispatch.agent_id,
                text: dispatch.injected_context,
            })
        } else {
            sends_input(later, action, progress, next)
        }
    }
}

/// The task of a dispatch is sent, as a text without elements.
pub open spec fn sends_input(
    later: Option<SpawnTeam>,
    action: SpawnTeamAction,
    progress: TeamProgress,
    next: int,
) -> bool {
    let dispatch = progress.dispatches@[next];
    &&& goes_on(later, progress, SpawnPhase::SendInput { next: next as usize })
    &&& action matches SpawnTeamAction::SendInput { agent_id, text, text_elements } && {
        &&& agent_id == dispatch.agent_id
        &&& text == dispatch.task
        &&& text_elements@.len() == 0
    }
}

/// `later` and `action` are what follows `earlier` on an event.
pub open spec fn follows(
    later: Option<SpawnTeam>,
    action: SpawnTeamAction,
    earlier: SpawnTeam,
    event: SpawnTeamEvent,
) -> bool {
    let p = earlier.progress;
    match (earlier.phase, event) {
        (SpawnPhase::FindTeam, SpawnTeamEvent::MemberTeam(Err(error))) => refuses(
            later,
            action,
            error,
        ),
        (SpawnPhase::FindTeam, SpawnTeamEvent::MemberTeam(Ok(Some(team_id)))) => refuses_with(
            later,
            action,
            enclosed(
                "spawn_team is disabled for agent team teammates (team `"@,
                team_id@,
                "`). Ask the team lead to spawn teams."@,
            ),
        ),
        (SpawnPhase::FindTeam, SpawnTeamEvent::MemberTeam(Ok(None))) => match validation_problem(
            p.requested@,
        ) {
            Some(text) => refuses_with(later, action, text),
            None => match p.provided_team_id {
                Some(team_id) => goes_on(later, p, SpawnPhase::NormalizeTeamId) && action == (
                SpawnTeamAction::NormalizeTeamId { team_id }),
                None => goes_on(later, p, SpawnPhase::NewTeamId) && action
                    == SpawnTeamAction::NewThreadId,
            },
        },
        (SpawnPhase::NormalizeTeamId, SpawnTeamEvent::TeamId(Err(error))) => refuses(
            later,
            action,
            error,
        ),
        (SpawnPhase::NormalizeTeamId, SpawnTeamEvent::TeamId(Ok(team_id))) => locks_team(
            later,
            action,
            p,
            team_id@,
        ),
        (SpawnPhase::NewTeamId, SpawnTeamEvent::NewId(id)) => locks_team(
            later,
            action,
            p,
            id.text(),
        ),
        (SpawnPhase::Lock, SpawnTeamEvent::Outcome(Err(error))) => refuses(later, action, error),
        (SpawnPhase::Lock, SpawnTeamEvent::Outcome(Ok(_))) => goes_on(
            later,
            p,
            SpawnPhase::CheckExists,
        ) && action == (SpawnTeamAction::CheckTeamExists { team_id: p.team_id }),
        (SpawnPhase::CheckExists, SpawnTeamEvent::TeamExists(Err(error))) => refuses(
            later,
            action,
            error,
        ),
        (SpawnPhase::CheckExists, SpawnTeamEvent::TeamExists(Ok(exists_already))) => if exists_already {
            refuses_with(later, action, enclosed("team `"@, p.team_id@, "` already exists"@))
        } else {
            goes_on(later, p, SpawnPhase::CheckDepth) && action == SpawnTeamAction::CheckDepth
        },
        (SpawnPhase::CheckDepth, SpawnTeamEvent::DepthExceeded(exceeded)) => if exceeded {
            refuses_with(
                later,
                action,
                "Agent depth limit reached. Solve the task yourself."@,
            )
        } else {
            goes_on(later, p, SpawnPhase::ReadClock) && action == SpawnTeamAction::ReadClock
        },
        (SpawnPhase::ReadClock, SpawnTeamEvent::Clock(now)) => announces(later, action, p, now),
        (SpawnPhase::SendBegin, SpawnTeamEvent::Acknowledged) => takes_next_member(
            later,
            action,
            p,
        ),
        (
            SpawnPhase::Options,
            SpawnTeamEvent::Options { role_name, model_provider, model },
        ) => match (role_name, model_provider, model) {
            (Err(error), _, _) => refuses(later, action, error),
            (Ok(_), Err(error), _) => refuses(later, action, error),
            (Ok(_), Ok(_), Err(error)) => refuses(later, action, error),
            (Ok(role_name), Ok(model_provider), Ok(model)) => {
                let options = MemberOptions { role_name, model_provider, model };
                goes_on(later, p, SpawnPhase::Config { options }) && action == (
                SpawnTeamAction::BuildConfig { options })
            },
        },
        (SpawnPhase::Config { options }, SpawnTeamEvent::Outcome(Err(error))) => aborts(
            later,
            action,
            p,
            Seq::empty(),
            error,
        ),
        (
            SpawnPhase::Config { options },
            SpawnTeamEvent::Outcome(Ok(_)),
        ) => if p.requested@[p.spawned@.len() as int].worktree {
            goes_on(later, p, SpawnPhase::Worktree { options }) && action
                == SpawnTeamAction::CreateWorktree
        } else {
            goes_on(later, p, SpawnPhase::Spawn { options, leased: false, retried: false })
                && action == (SpawnTeamAction::SpawnThread { role_name: options.role_name })
        },
        (SpawnPhase::Worktree { options }, SpawnTeamEvent::Outcome(Err(error))) => aborts(
            later,
            action,
            p,
            Seq::empty(),
            error,
        ),
        (SpawnPhase::Worktree { options }, SpawnTeamEvent::Outcome(Ok(_))) => goes_on(
            later,
            p,
            SpawnPhase::Spawn { options, leased: true, retried: false },
        ) && action == (SpawnTeamAction::SpawnThread { role_name: options.role_name }),
        (
            SpawnPhase::Spawn { options, leased, retried },
            SpawnTeamEvent::Spawned(Ok(agent_id)),
        ) => tells_hook(later, action, p, options, leased, agent_id),
        (
            SpawnPhase::Spawn { options, leased, retried },
            SpawnTeamEvent::Spawned(Err(SpawnFailure::AgentLimitReached(error))),
        ) => if retried {
            aborts(later, action, p, lease_steps(leased), error)
        } else {
            goes_on(later, p, SpawnPhase::Reap { options, leased, error }) && action == (
            SpawnTeamAction::ReapFinishedAgents { slots: 1 })
        },
        (
            SpawnPhase::Spawn { options, leased, retried },
            SpawnTeamEvent::Spawned(Err(SpawnFailure::Other(error))),
        ) => aborts(later, action, p, lease_steps(leased), error),
        (
            SpawnPhase::Reap { options, leased, error },
            SpawnTeamEvent::Reaped(count),
        ) => if count == 0 {
            aborts(later, action, p, lease_steps(leased), error)
        } else {
            goes_on(later, p, SpawnPhase::Spawn { options, leased, retried: true }) && action == (
            SpawnTeamAction::SpawnThread { role_name: options.role_name })
        },
        (
            SpawnPhase::Hook { leased, agent_id },
            SpawnTeamEvent::HookContext(hook_context),
        ) => {
            &&& goes_on(later, p, SpawnPhase::Bootstrap { leased, agent_id, hook_context })
            &&& action matches SpawnTeamAction::BuildBootstrap { request } && is_bootstrap_request(
                request,
                p,
            )
        },
        (
            SpawnPhase::Bootstrap { leased, agent_id, hook_context },
            SpawnTeamEvent::Bootstrap(message),
        ) => has_context(
            later,
            action,
            p,
            leased,
            agent_id,
            joined(seq![message@] + string_views(hook_context@), seq!['\n', '\n']),
        ),
        (
            SpawnPhase::Register { agent_id, injected },
            SpawnTeamEvent::Outcome(Err(error)),
        ) => aborts(later, action, p, seq![ClosingStep::ShutdownAgent(agent_id)], error),
        (
            SpawnPhase::Register { agent_id, injected },
            SpawnTeamEvent::Outcome(Ok(_)),
        ) => goes_on(later, p, SpawnPhase::Status { agent_id, injected }) && action == (
        SpawnTeamAction::ReadStatus { agent_id }),
        (
            SpawnPhase::Status { agent_id, injected },
            SpawnTeamEvent::Status(status),
        ) => goes_on(later, p, SpawnPhase::MemberId { agent_id, injected, status }) && action
            == SpawnTeamAction::NewThreadId,
        (
            SpawnPhase::MemberId { agent_id, injected, status },
            SpawnTeamEvent::NewId(member_id),
        ) => later matches Some(team) && adds_member(
            team.progress,
            p,
            agent_id,
            member_id,
            injected,
            status,
        ) && takes_next_member(later, action, team.progress),
        (SpawnPhase::InsertRecord, SpawnTeamEvent::Outcome(Err(error))) => aborts(
            later,
            action,
            p,
            Seq::empty(),
            error,
        ),
        (SpawnPhase::InsertRecord, SpawnTeamEvent::Outcome(Ok(_))) => {
            &&& goes_on(later, p, SpawnPhase::Persist)
            &&& persists_active_team(action, p)
        },
        (SpawnPhase::Persist, SpawnTeamEvent::Outcome(Err(error))) => aborts(
            later,
            action,
            p,
            record_steps(),
            error,
        ),
        (SpawnPhase::Persist, SpawnTeamEvent::Outcome(Ok(_))) => takes_dispatch(
            later,
            action,
            p,
            0,
        ),
        (SpawnPhase::Inject { next }, SpawnTeamEvent::Outcome(_)) => sends_input(
            later,
            action,
            p,
            next as int,
        ),
        (SpawnPhase::SendInput { next }, SpawnTeamEvent::Outcome(Err(error))) => aborts(
            later,
            action,
            p,
            record_steps(),
            error,
        ),
        (
            SpawnPhase::SendInput { next },
            SpawnTeamEvent::Outcome(Ok(_)),
        ) => if p.dispatches@[next as int].background {
            goes_on(later, p, SpawnPhase::Background { next }) && action == (
            SpawnTeamAction::StartBackgroundCleanup {
                agent_id: p.dispatches@[next as int].agent_id,
            })
        } else {
            takes_dispatch(later, action, p, next + 1)
        },
        (SpawnPhase::Background { next }, SpawnTeamEvent::Acknowledged) => takes_dispatch(
            later,
            action,
            p,
            next + 1,
        ),
        _ => false,
    }
}

/// A lease that no agent has taken over is given back.
pub open spec fn lease_steps(leased: bool) -> Seq<ClosingStep> {
    if leased {
        seq![ClosingStep::RemoveWorktreeLease]
    } else {
        Seq::empty()
    }
}

/// The team is forgotten again.
pub open spec fn record_steps() -> Seq<ClosingStep> {
    seq![ClosingStep::RemoveTeamRecord, ClosingStep::RemoveTeamPersistence]
}

/// Begins to spawn a team: the first action asks for the caller's own team.
pub fn begin(
    conversation_id: ThreadId,
    call_id: String,
    provided_team_id: Option<String>,
    requested: Vec<SpawnTeamMemberArgs>,
) -> (r: (SpawnTeam, SpawnTeamAction))
    ensures
        r.0.wf(),
        r.0.phase == SpawnPhase::FindTeam,
        r.0.progress.conversation_id == conversation_id,
        r.0.progress.call_id == call_id,
        r.0.progress.provided_team_id == provided_team_id,
        r.0.progress.requested == requested,
        r.0.progress.is_fresh(),
        r.0.progress.statuses@ == Map::<ThreadId, AgentStatus>::empty(),
        r.1 == SpawnTeamAction::FindTeamForMember,
{
    let progress = TeamProgress {
        conversation_id,
        call_id,
        provided_team_id,
        requested,
        team_id: String::new(),
        event_call_id: String::new(),
        created_at: 0,
        spawned: Vec::new(),
        statuses: StatusMap::new(),
        dispatches: Vec::new(),
    };
    (SpawnTeam { progress, phase: SpawnPhase::FindTeam }, SpawnTeamAction::FindTeamForMember)
}

fn go_on(progress: TeamProgress, phase: SpawnPhase, action: SpawnTeamAction) -> (r: (
    Option<SpawnTeam>,
    SpawnTeamAction,
))
    ensures
        goes_on(r.0, progress, phase),
        r.1 == action,
{
    (Some(SpawnTeam { progress, phase }), action)
}

fn refuse(error: FunctionCallError) -> (r: (Option<SpawnTeam>, SpawnTeamAction))
    ensures
        refuses(r.0, r.1, error),
{
    (None, SpawnTeamAction::Refuse { error })
}

fn refuse_with(text: String) -> (r: (Option<SpawnTeam>, SpawnTeamAction))
    ensures
        refuses_with(r.0, r.1, text@),
{
    (None, SpawnTeamAction::Refuse { error: FunctionCallError::RespondToModel(text) })
}

fn abort(progress: TeamProgress, left_behind: Vec<ClosingStep>, error: FunctionCallError) -> (r: (
    Option<SpawnTeam>,
    SpawnTeamAction,
))
    ensures
        aborts(r.0, r.1, progress, left_behind@, error),
{
    let mut steps = left_behind;
    steps.push(ClosingStep::CleanupMembers);
    steps.push(ClosingStep::SendWaitingEnd);
    steps.push(ClosingStep::ReleaseLock);
    steps.push(ClosingStep::RemoveTeamDir);
    proof {
        assert(steps@ =~= failure_steps(left_behind@));
    }
    let closing = Closing {
        steps,
        sender_thread_id: progress.conversation_id,
        team_id: progress.team_id,
        event_call_id: progress.event_call_id,
        members: progress.spawned,
        statuses: progress.statuses,
    };
    (None, SpawnTeamAction::Abort { closing, error })
}

fn lease_to_remove(leased: bool) -> (r: Vec<ClosingStep>)
    ensures
        r@ == lease_steps(leased),
{
    let mut steps: Vec<ClosingStep> = Vec::new();
    if leased {
        steps.push(ClosingStep::RemoveWorktreeLease);
    }
    proof {
        assert(steps@ =~= lease_steps(leased));
    }
    steps
}

fn agent_to_shut_down(agent_id: ThreadId) -> (r: Vec<ClosingStep>)
    ensures
        r@ == seq![ClosingStep::ShutdownAgent(agent_id)],
{
    let steps = vec![ClosingStep::ShutdownAgent(agent_id)];
    proof {
        assert(steps@ =~= seq![ClosingStep::ShutdownAgent(agent_id)]);
    }
    steps
}

fn record_to_remove() -> (r: Vec<ClosingStep>)
    ensures
        r@ == record_steps(),
{
    let steps = vec![ClosingStep::RemoveTeamRecord, ClosingStep::RemoveTeamPersistence];
    proof {
        assert(steps@ =~= record_steps());
    }
    steps
}

fn lock_team(progress: TeamProgress, team_id: String) -> (r: (Option<SpawnTeam>, SpawnTeamAction))
    ensures
        locks_team(r.0, r.1, progress, team_id@),
{
    let action = SpawnTeamAction::LockTeam { team_id: team_id.clone() };
    go_on(TeamProgress { team_id, ..progress }, SpawnPhase::Lock, action)
}

fn find_team_done(progress: TeamProgress, found: Result<Option<String>, FunctionCallError>) -> (r: (
    Option<SpawnTeam>,
    SpawnTeamAction,
))
    ensures
        follows(
            r.0,
            r.1,
            (SpawnTeam { progress, phase: SpawnPhase::FindTeam }),
            SpawnTeamEvent::MemberTeam(found),
        ),
        r.0 is Some ==> progress.is_valid_request(),
{
    match found {
        Err(error) => refuse(error),
        Ok(Some(team_id)) => refuse_with(
            enclose(
                "spawn_team is disabled for agent team teammates (team `",
                team_id.as_str(),
                "`). Ask the team lead to spawn teams.",
            ),
        ),
        Ok(None) => {
            if let Err(error) = validate_members(&progress.requested) {
                return refuse(error);
            }
            match &progress.provided_team_id {
                Some(team_id) => {
                    let action = SpawnTeamAction::NormalizeTeamId { team_id: team_id.clone() };
                    go_on(progress, SpawnPhase::NormalizeTeamId, action)
                },
                None => go_on(progress, SpawnPhase::NewTeamId, SpawnTeamAction::NewThreadId),
            }
        },
    }
}

fn announce(progress: TeamProgress, created_at: i64) -> (r: (Option<SpawnTeam>, SpawnTeamAction))
    ensures
        announces(r.0, r.1, progress, created_at),
{
    let event_call_id = prefixed_team_call_id(TeamCallKind::Spawn, progress.call_id.as_str());
    let event = CollabWaitingBeginEvent {
        sender_thread_id: progress.conversation_id,
        receiver_thread_ids: Vec::new(),
        receiver_agents: Vec::new(),
        call_id: event_call_id.clone(),
    };
    go_on(
        TeamProgress { event_call_id, created_at, ..progress },
        SpawnPhase::SendBegin,
        SpawnTeamAction::SendWaitingBegin { event },
    )
}

fn clone_members(members: &Vec<TeamMember>) -> (r: Vec<TeamMember>)
    ensures
        r@ == members@,
{
    let mut out: Vec<TeamMember> = Vec::new();
    for i in 0..members.len()
        invariant
            out@ == members@.take(i as int),
    {
        out.push(members[i].clone());
        proof {
            assert(members@.take(i + 1) =~= members@.take(i as int).push(members@[i as int]));
        }
    }
    proof {
        assert(members@.take(members@.len() as int) =~= members@);
    }
    out
}

fn clone_requested(members: &Vec<SpawnTeamMemberArgs>) -> (r: Vec<SpawnTeamMemberArgs>)
    ensures
        r@ == members@,
{
    let mut out: Vec<SpawnTeamMemberArgs> = Vec::new();
    for i in 0..members.len()
        invariant
            out@ == members@.take(i as int),
    {
        out.push(members[i].clone());
        proof {
            assert(members@.take(i + 1) =~= members@.take(i as int).push(members@[i as int]));
        }
    }
    proof {
        assert(members@.take(members@.len() as int) =~= members@);
    }
    out
}

fn team_record(progress: &TeamProgress) -> (r: TeamRecord)
    ensures
        r.members@ == progress.spawned@,
        r.created_at == progress.created_at,
{
    TeamRecord { members: clone_members(&progress.spawned), created_at: progress.created_at }
}

fn take_next_member(progress: TeamProgress) -> (r: (Option<SpawnTeam>, SpawnTeamAction))
    ensures
        takes_next_member(r.0, r.1, progress),
{
    let member: usize = progress.spawned.len();
    if member < progress.requested.len() {
        go_on(progress, SpawnPhase::Options, SpawnTeamAction::CheckOptions { member })
    } else {
        let action = SpawnTeamAction::InsertTeamRecord {
            lead_thread_id: progress.conversation_id,
            team_id: progress.team_id.clone(),
            record: team_record(&progress),
        };
        go_on(progress, SpawnPhase::InsertRecord, action)
    }
}

fn options_checked(
    progress: TeamProgress,
    role_name: Result<Option<String>, FunctionCallError>,
    model_provider: Result<Option<String>, FunctionCallError>,
    model: Result<Option<String>, FunctionCallError>,
) -> (r: (Option<SpawnTeam>, SpawnTeamAction))
    ensures
        follows(
            r.0,
            r.1,
            (SpawnTeam { progress, phase: SpawnPhase::Options }),
            (SpawnTeamEvent::Options { role_name, model_provider, model }),
        ),
        r.0 matches Some(team) ==> team.progress == progress,
{
    match (role_name, model_provider, model) {
        (Err(error), _, _) => refuse(error),
        (Ok(_), Err(error), _) => refuse(error),
        (Ok(_), Ok(_), Err(error)) => refuse(error),
        (Ok(role_name), Ok(model_provider), Ok(model)) => {
            let options = MemberOptions { role_name, model_provider, model };
            let action = SpawnTeamAction::BuildConfig { options: options.clone() };
            go_on(progress, SpawnPhase::Config { options }, action)
        },
    }
}

fn spawn_thread(progress: TeamProgress, options: MemberOptions, leased: bool, retried: bool) -> (r:
    (Option<SpawnTeam>, SpawnTeamAction))
    ensures
        goes_on(r.0, progress, (SpawnPhase::Spawn { options, leased, retried })),
        r.1 == (SpawnTeamAction::SpawnThread { role_name: options.role_name }),
{
    let action = SpawnTeamAction::SpawnThread { role_name: options.role_name.clone() };
    go_on(progress, SpawnPhase::Spawn { options, leased, retried }, action)
}

fn thread_spawned(
    progress: TeamProgress,
    options: MemberOptions,
    leased: bool,
    retried: bool,
    spawned: Result<ThreadId, SpawnFailure>,
) -> (r: (Option<SpawnTeam>, SpawnTeamAction))
    ensures
        follows(
            r.0,
            r.1,
            (SpawnTeam { progress, phase: SpawnPhase::Spawn { options, leased, retried } }),
            SpawnTeamEvent::Spawned(spawned),
        ),
        r.0 matches Some(team) ==> team.progress == progress,
{
    match spawned {
        Ok(agent_id) => {
            let role = match &options.role_name {
                Some(role) => role.clone(),
                None => "default".to_string(),
            };
            go_on(
                progress,
                SpawnPhase::Hook { leased, agent_id },
                SpawnTeamAction::DispatchStartHook { agent_id, role },
            )
        },
        Err(SpawnFailure::AgentLimitReached(error)) => {
            if retried {
                abort(progress, lease_to_remove(leased), error)
            } else {
                go_on(
                    progress,
                    SpawnPhase::Reap { options, leased, error },
                    SpawnTeamAction::ReapFinishedAgents { slots: 1 },
                )
            }
        },
        Err(SpawnFailure::Other(error)) => abort(progress, lease_to_remove(leased), error),
    }
}

fn bootstrap_request(progress: &TeamProgress) -> (r: BootstrapRequest)
    requires
        progress.is_spawning(),
    ensures
        is_bootstrap_request(r, *progress),
{
    let member = &progress.requested[progress.spawned.len()];
    BootstrapRequest {
        team_id: progress.team_id.clone(),
        lead_thread_id: progress.conversation_id,
        member_name: trim(member.name.as_str()).to_string(),
        agent_type: member.agent_type.clone(),
        background: member.background,
        worktree: member.worktree,
        task: trim(member.task.as_str()).to_string(),
        requested_members: clone_requested(&progress.requested),
    }
}

fn bootstrap_built(
    progress: TeamProgress,
    leased: bool,
    agent_id: ThreadId,
    hook_context: Vec<String>,
    message: String,
) -> (r: (Option<SpawnTeam>, SpawnTeamAction))
    ensures
        has_context(
            r.0,
            r.1,
            progress,
            leased,
            agent_id,
            joined(seq![message@] + string_views(hook_context@), seq!['\n', '\n']),
        ),
{
    let mut hook_context = hook_context;
    let mut parts: Vec<String> = vec![message];
    let ghost hook_strings = hook_context@;
    parts.append(&mut hook_context);
    let injected = join(&parts, "\n\n");
    proof {
        assert(string_views(parts@) =~= seq![message@] + string_views(hook_strings));
        reveal_strlit("\n\n");
        assert("\n\n"@ =~= seq!['\n', '\n']);
    }
    if leased {
        go_on(
            progress,
            SpawnPhase::Register { agent_id, injected },
            SpawnTeamAction::RegisterWorktreeLease { agent_id },
        )
    } else {
        go_on(
            progress,
            SpawnPhase::Status { agent_id, injected },
            SpawnTeamAction::ReadStatus { agent_id },
        )
    }
}

fn add_member(
    progress: TeamProgress,
    agent_id: ThreadId,
    member_id: ThreadId,
    injected: String,
    status: AgentStatus,
) -> (r: TeamProgress)
    requires
        progress.wf(),
        progress.is_spawning(),
    ensures
        adds_member(r, progress, agent_id, member_id, injected, status),
        r.wf(),
{
    let member = &progress.requested[progress.spawned.len()];
    let task = trim(member.task.as_str()).to_string();
    let added = TeamMember {
        name: trim(member.name.as_str()).to_string(),
        member_id: member_id.to_string(),
        agent_id,
        agent_type: member.agent_type.clone(),
        model_provider: member.model_provider.clone(),
        model: member.model.clone(),
        initial_task: task.clone(),
        background: member.background,
        worktree: member.worktree,
    };
    let dispatch = PendingSpawnDispatch {
        agent_id,
        task,
        injected_context: injected,
        background: member.background,
    };
    let TeamProgress {
        conversation_id,
        call_id,
        provided_team_id,
        requested,
        team_id,
        event_call_id,
        created_at,
        spawned,
        statuses,
        dispatches,
    } = progress;
    let mut spawned = spawned;
    let mut statuses = statuses;
    let mut dispatches = dispatches;
    spawned.push(added);
    statuses.insert(agent_id, status);
    dispatches.push(dispatch);
    TeamProgress {
        conversation_id,
        call_id,
        provided_team_id,
        requested,
        team_id,
        event_call_id,
        created_at,
        spawned,
        statuses,
        dispatches,
    }
}

fn member_results(members: &Vec<TeamMember>, statuses: &StatusMap) -> (r: Vec<
    SpawnTeamMemberResult,
>)
    ensures
        are_results_for(r@, members@, statuses@),
{
    let mut results: Vec<SpawnTeamMemberResult> = Vec::new();
    for i in 0..members.len()
        invariant
            are_results_for(results@, members@.take(i as int), statuses@),
    {
        let member = &members[i];
        let status = match statuses.get(member.agent_id) {
            Some(status) => status,
            None => AgentStatus::NotFound,
        };
        let ghost before = results@;
        results.push(
            SpawnTeamMemberResult {
                name: member.name.clone(),
                agent_id: member.agent_id.to_string(),
                status,
            },
        );
        proof {
            let longer = members@.take(i + 1);
            assert forall|j: int| 0 <= j < longer.len() implies {
                &&& (#[trigger] results@[j]).name@ == longer[j].name@
                &&& results@[j].agent_id@ == longer[j].agent_id.text()
                &&& results@[j].status == status_in(statuses@, longer[j].agent_id)
            } by {
                if j < i {
                    assert(results@[j] == before[j]);
                    assert(members@.take(i as int)[j] == longer[j]);
                }
            }
        }
    }
    proof {
        assert(members@.take(members@.len() as int) =~= members@);
    }
    results
}

fn complete(progress: TeamProgress) -> (r: (Option<SpawnTeam>, SpawnTeamAction))
    ensures
        completes(r.0, r.1, progress),
{
    let members = member_results(&progress.spawned, &progress.statuses);
    let steps = vec![ClosingStep::ReleaseLock, ClosingStep::SendWaitingEnd];
    proof {
        assert(steps@ =~= seq![ClosingStep::ReleaseLock, ClosingStep::SendWaitingEnd]);
    }
    let closing = Closing {
        steps,
        sender_thread_id: progress.conversation_id,
        team_id: progress.team_id.clone(),
        event_call_id: progress.event_call_id,
        members: progress.spawned,
        statuses: progress.statuses,
    };
    let result = SpawnTeamResult { team_id: progress.team_id, members };
    (None, SpawnTeamAction::Complete { closing, result })
}

fn send_input(progress: TeamProgress, next: usize) -> (r: (Option<SpawnTeam>, SpawnTeamAction))
    requires
        next < progress.dispatches@.len(),
    ensures
        sends_input(r.0, r.1, progress, next as int),
{
    let action = SpawnTeamAction::SendInput {
        agent_id: progress.dispatches[next].agent_id,
        text: progress.dispatches[next].task.clone(),
        text_elements: Vec::new(),
    };
    go_on(progress, SpawnPhase::SendInput { next }, action)
}

fn take_dispatch(progress: TeamProgress, next: usize) -> (r: (Option<SpawnTeam>, SpawnTeamAction))
    ensures
        takes_dispatch(r.0, r.1, progress, next as int),
{
    if next >= progress.dispatches.len() {
        return complete(progress);
    }
    let dispatch = &progress.dispatches[next];
    if !dispatch.injected_context.as_str().is_empty() {
        let action = SpawnTeamAction::InjectContext {
            agent_id: dispatch.agent_id,
            text: dispatch.injected_context.clone(),
        };
        go_on(progress, SpawnPhase::Inject { next }, action)
    } else {
        send_input(progress, next)
    }
}

/// The event that ends the announced wait, given the entries of its members.
pub fn waiting_end_event(closing: Closing, agent_statuses: Vec<CollabAgentStatusEntry>) -> (r:
    CollabWaitingEndEvent)
    ensures
        r.sender_thread_id == closing.sender_thread_id,
        r.call_id == closing.event_call_id,
        r.agent_statuses == agent_statuses,
        r.statuses == closing.statuses,
        r.failure_reason is None,
{
    CollabWaitingEndEvent {
        sender_thread_id: closing.sender_thread_id,
        call_id: closing.event_call_id,
        agent_statuses,
        statuses: closing.statuses,
        failure_reason: None,
    }
}

/// The error for a result that could not be written down.
pub fn serialization_error(reason: &str) -> (r: FunctionCallError)
    ensures
        r matches FunctionCallError::Fatal(message) && message@ == enclosed(
            "failed to serialize spawn_team result: "@,
            reason@,
            Seq::empty(),
        ),
{
    let message = "failed to serialize spawn_team result: ".to_string().concat(reason);
    proof {
        assert(message@ =~= enclosed(
            "failed to serialize spawn_team result: "@,
            reason@,
            Seq::empty(),
        ));
    }
    FunctionCallError::Fatal(message)
}

impl SpawnTeam {
    /// Whether an event can follow the action that was last given out.
    pub fn accepts(&self, event: &SpawnTeamEvent) -> (r: bool)
        ensures
            r == self.expects(*event),
    {
        match (&self.phase, event) {
            (SpawnPhase::FindTeam, SpawnTeamEvent::MemberTeam(_)) => true,
            (SpawnPhase::NormalizeTeamId, SpawnTeamEvent::TeamId(_)) => true,
            (SpawnPhase::NewTeamId, SpawnTeamEvent::NewId(_)) => true,
            (SpawnPhase::Lock, SpawnTeamEvent::Outcome(_)) => true,
            (SpawnPhase::CheckExists, SpawnTeamEvent::TeamExists(_)) => true,
            (SpawnPhase::CheckDepth, SpawnTeamEvent::DepthExceeded(_)) => true,
            (SpawnPhase::ReadClock, SpawnTeamEvent::Clock(_)) => true,
            (SpawnPhase::SendBegin, SpawnTeamEvent::Acknowledged) => true,
            (SpawnPhase::Options, SpawnTeamEvent::Options { .. }) => true,
            (SpawnPhase::Config { .. }, SpawnTeamEvent::Outcome(_)) => true,
            (SpawnPhase::Worktree { .. }, SpawnTeamEvent::Outcome(_)) => true,
            (SpawnPhase::Spawn { .. }, SpawnTeamEvent::Spawned(_)) => true,
            (SpawnPhase::Reap { .. }, SpawnTeamEvent::Reaped(_)) => true,
            (SpawnPhase::Hook { .. }, SpawnTeamEvent::HookContext(_)) => true,
            (SpawnPhase::Bootstrap { .. }, SpawnTeamEvent::Bootstrap(_)) => true,
            (SpawnPhase::Register { .. }, SpawnTeamEvent::Outcome(_)) => true,
            (SpawnPhase::Status { .. }, SpawnTeamEvent::Status(_)) => true,
            (SpawnPhase::MemberId { .. }, SpawnTeamEvent::NewId(_)) => true,
            (SpawnPhase::InsertRecord, SpawnTeamEvent::Outcome(_)) => true,
            (SpawnPhase::Persist, SpawnTeamEvent::Outcome(_)) => true,
            (SpawnPhase::Inject { .. }, SpawnTeamEvent::Outcome(_)) => true,
            (SpawnPhase::SendInput { .. }, SpawnTeamEvent::Outcome(_)) => true,
            (SpawnPhase::Background { .. }, SpawnTeamEvent::Acknowledged) => true,
            _ => false,
        }
    }
}

/// What the run does next, after an event. Without a next state the call is
/// over.
pub fn handle(team: SpawnTeam, event: SpawnTeamEvent) -> (r: (Option<SpawnTeam>, SpawnTeamAction))
    requires
        team.wf(),
        team.expects(event),
    ensures
        follows(r.0, r.1, team, event),
        r.0 matches Some(later) ==> later.wf(),
        event matches SpawnTeamEvent::Options {
            role_name: Ok(role),
            model_provider: Ok(provider),
            model: Ok(model),
        } ==> (r.1 matches SpawnTeamAction::BuildConfig { options } && options.role_name == role
            && options.model_provider == provider && options.model == model),
{
    let SpawnTeam { progress, phase } = team;
    match (phase, event) {
        (SpawnPhase::FindTeam, SpawnTeamEvent::MemberTeam(found)) => find_team_done(
            progress,
            found,
        ),
        (SpawnPhase::NormalizeTeamId, SpawnTeamEvent::TeamId(Err(error))) => refuse(error),
        (SpawnPhase::NormalizeTeamId, SpawnTeamEvent::TeamId(Ok(team_id))) => lock_team(
            progress,
            team_id,
        ),
        (SpawnPhase::NewTeamId, SpawnTeamEvent::NewId(id)) => lock_team(progress, id.to_string()),
        (SpawnPhase::Lock, SpawnTeamEvent::Outcome(Err(error))) => refuse(error),
        (SpawnPhase::Lock, SpawnTeamEvent::Outcome(Ok(_))) => {
            let action = SpawnTeamAction::CheckTeamExists { team_id: progress.team_id.clone() };
            go_on(progress, SpawnPhase::CheckExists, action)
        },
        (SpawnPhase::CheckExists, SpawnTeamEvent::TeamExists(Err(error))) => refuse(error),
        (SpawnPhase::CheckExists, SpawnTeamEvent::TeamExists(Ok(true))) => refuse_with(
            enclose("team `", progress.team_id.as_str(), "` already exists"),
        ),
        (SpawnPhase::CheckExists, SpawnTeamEvent::TeamExists(Ok(false))) => go_on(
            progress,
            SpawnPhase::CheckDepth,
            SpawnTeamAction::CheckDepth,
        ),
        (SpawnPhase::CheckDepth, SpawnTeamEvent::DepthExceeded(true)) => refuse_with(
            "Agent depth limit reached. Solve the task yourself.".to_string(),
        ),
        (SpawnPhase::CheckDepth, SpawnTeamEvent::DepthExceeded(false)) => go_on(
            progress,
            SpawnPhase::ReadClock,
            SpawnTeamAction::ReadClock,
        ),
        (SpawnPhase::ReadClock, SpawnTeamEvent::Clock(now)) => announce(progress, now),
        (SpawnPhase::SendBegin, SpawnTeamEvent::Acknowledged) => take_next_member(progress),
        (
            SpawnPhase::Options,
            SpawnTeamEvent::Options { role_name, model_provider, model },
        ) => options_checked(progress, role_name, model_provider, model),
        (SpawnPhase::Config { options: _ }, SpawnTeamEvent::Outcome(Err(error))) => abort(
            progress,
            Vec::new(),
            error,
        ),
        (SpawnPhase::Config { options }, SpawnTeamEvent::Outcome(Ok(_))) => {
            if progress.requested[progress.spawned.len()].worktree {
                go_on(
                    progress,
                    SpawnPhase::Worktree { options },
                    SpawnTeamAction::CreateWorktree,
                )
            } else {
                spawn_thread(progress, options, false, false)
            }
        },
        (SpawnPhase::Worktree { options: _ }, SpawnTeamEvent::Outcome(Err(error))) => abort(
            progress,
            Vec::new(),
            error,
        ),
        (SpawnPhase::Worktree { options }, SpawnTeamEvent::Outcome(Ok(_))) => spawn_thread(
            progress,
            options,
            true,
            false,
        ),
        (
            SpawnPhase::Spawn { options, leased, retried },
            SpawnTeamEvent::Spawned(spawned),
        ) => thread_spawned(progress, options, leased, retried, spawned),
        (SpawnPhase::Reap { options, leased, error }, SpawnTeamEvent::Reaped(count)) => {
            if count == 0 {
                abort(progress, lease_to_remove(leased), error)
            } else {
                spawn_thread(progress, options, leased, true)
            }
        },
        (SpawnPhase::Hook { leased, agent_id }, SpawnTeamEvent::HookContext(hook_context)) => {
            let request = bootstrap_request(&progress);
            go_on(
                progress,
                SpawnPhase::Bootstrap { leased, agent_id, hook_context },
                SpawnTeamAction::BuildBootstrap { request },
            )
        },
        (
            SpawnPhase::Bootstrap { leased, agent_id, hook_context },
            SpawnTeamEvent::Bootstrap(message),
        ) => bootstrap_built(progress, leased, agent_id, hook_context, message),
        (
            SpawnPhase::Register { agent_id, injected: _ },
            SpawnTeamEvent::Outcome(Err(error)),
        ) => abort(progress, agent_to_shut_down(agent_id), error),
        (SpawnPhase::Register { agent_id, injected }, SpawnTeamEvent::Outcome(Ok(_))) => go_on(
            progress,
            SpawnPhase::Status { agent_id, injected },
            SpawnTeamAction::ReadStatus { agent_id },
        ),
        (SpawnPhase::Status { agent_id, injected }, SpawnTeamEvent::Status(status)) => go_on(
            progress,
            SpawnPhase::MemberId { agent_id, injected, status },
            SpawnTeamAction::NewThreadId,
        ),
        (
            SpawnPhase::MemberId { agent_id, injected, status },
            SpawnTeamEvent::NewId(member_id),
        ) => take_next_member(add_member(progress, agent_id, member_id, injected, status)),
        (SpawnPhase::InsertRecord, SpawnTeamEvent::Outcome(Err(error))) => abort(
            progress,
            Vec::new(),
            error,
        ),
        (SpawnPhase::InsertRecord, SpawnTeamEvent::Outcome(Ok(_))) => {
            let action = SpawnTeamAction::PersistTeam {
                lead_thread_id: progress.conversation_id,
                team_id: progress.team_id.clone(),
                state: PersistedTeamState::Active,
                record: team_record(&progress),
                requested_members: clone_requested(&progress.requested),
            };
            go_on(progress, SpawnPhase::Persist, action)
        },
        (SpawnPhase::Persist, SpawnTeamEvent::Outcome(Err(error))) => abort(
            progress,
            record_to_remove(),
            error,
        ),
        (SpawnPhase::Persist, SpawnTeamEvent::Outcome(Ok(_))) => take_dispatch(progress, 0),
        (SpawnPhase::Inject { next }, SpawnTeamEvent::Outcome(_)) => send_input(progress, next),
        (SpawnPhase::SendInput { next: _ }, SpawnTeamEvent::Outcome(Err(error))) => abort(
            progress,
            record_to_remove(),
            error,
        ),
        (SpawnPhase::SendInput { next }, SpawnTeamEvent::Outcome(Ok(_))) => {
            let count: usize = progress.dispatches.len();
            assert(next < count);
            if progress.dispatches[next].background {
                let action = SpawnTeamAction::StartBackgroundCleanup {
                    agent_id: progress.dispatches[next].agent_id,
                };
                go_on(progress, SpawnPhase::Background { next }, action)
            } else {
                take_dispatch(progress, next + 1)
            }
        },
        (SpawnPhase::Background { next }, SpawnTeamEvent::Acknowledged) => {
            let count: usize = progress.dispatches.len();
            assert(next < count);
            take_dispatch(progress, next + 1)
        },
        _ => unreached(),
    }
}

} // verus!
