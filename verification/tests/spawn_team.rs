//! Spawning an agent team.

use agent_collab::agent::{AgentStatus, StatusMap};
use agent_collab::multi_agents::{team_call_kind, waiting_begin, waiting_end, TeamCallKind};
use agent_collab::spawn_team::{
    begin, handle, serialization_error, waiting_end_event, Closing, ClosingStep, SpawnFailure,
    SpawnTeam, SpawnTeamAction, SpawnTeamEvent, SpawnTeamResult,
};
use agent_collab::team::{
    validate_members, FunctionCallError, PersistedTeamState, SpawnTeamMemberArgs,
};
use agent_collab::thread_id::ThreadId;

const LEAD: ThreadId = ThreadId { value: 0x1ead };

fn member(name: &str, task: &str) -> SpawnTeamMemberArgs {
    SpawnTeamMemberArgs {
        name: name.to_string(),
        task: task.to_string(),
        agent_type: None,
        model_provider: None,
        model: None,
        worktree: false,
        background: false,
    }
}

fn respond(text: &str) -> FunctionCallError {
    FunctionCallError::RespondToModel(text.to_string())
}

fn step(team: SpawnTeam, event: SpawnTeamEvent) -> (SpawnTeam, SpawnTeamAction) {
    assert!(team.accepts(&event), "{:?} {event:?}", team.phase);
    let (team, action) = handle(team, event);
    (team.expect("the run goes on"), action)
}

fn refused(team: SpawnTeam, event: SpawnTeamEvent) -> FunctionCallError {
    assert!(team.accepts(&event));
    match handle(team, event) {
        (None, SpawnTeamAction::Refuse { error }) => error,
        other => panic!("{other:?}"),
    }
}

fn aborted(team: SpawnTeam, event: SpawnTeamEvent) -> Closing {
    assert!(team.accepts(&event));
    match handle(team, event) {
        (None, SpawnTeamAction::Abort { closing, error }) => {
            assert_eq!(error, respond("no"));
            assert_eq!(closing.sender_thread_id, LEAD);
            assert_eq!(closing.event_call_id, "team/spawn:call");
            assert_eq!(closing.team_id, "team");
            closing
        }
        other => panic!("{other:?}"),
    }
}

fn completed(team: SpawnTeam, event: SpawnTeamEvent) -> (Closing, SpawnTeamResult) {
    assert!(team.accepts(&event));
    match handle(team, event) {
        (None, SpawnTeamAction::Complete { closing, result }) => (closing, result),
        other => panic!("{other:?}"),
    }
}

fn no() -> SpawnTeamEvent {
    SpawnTeamEvent::Outcome(Err(respond("no")))
}

fn ok() -> SpawnTeamEvent {
    SpawnTeamEvent::Outcome(Ok(()))
}

fn options(role: Option<&str>) -> SpawnTeamEvent {
    SpawnTeamEvent::Options {
        role_name: Ok(role.map(str::to_string)),
        model_provider: Ok(None),
        model: Ok(None),
    }
}

/// A run up to the first member's settings.
fn begun(members: Vec<SpawnTeamMemberArgs>) -> SpawnTeam {
    let (team, _) = begin(LEAD, "call".to_string(), Some("Team".to_string()), members);
    let (team, _) = step(team, SpawnTeamEvent::MemberTeam(Ok(None)));
    let (team, _) = step(team, SpawnTeamEvent::TeamId(Ok("team".to_string())));
    let (team, _) = step(team, ok());
    let (team, _) = step(team, SpawnTeamEvent::TeamExists(Ok(false)));
    let (team, _) = step(team, SpawnTeamEvent::DepthExceeded(false));
    let (team, _) = step(team, SpawnTeamEvent::Clock(1700));
    let (team, action) = step(team, SpawnTeamEvent::Acknowledged);
    assert!(matches!(action, SpawnTeamAction::CheckOptions { member: 0 }));
    team
}

/// The next member as far as the request for its thread.
fn configured(team: SpawnTeam) -> SpawnTeam {
    let (team, action) = step(team, options(None));
    assert!(matches!(action, SpawnTeamAction::BuildConfig { .. }));
    let (team, action) = step(team, ok());
    if matches!(action, SpawnTeamAction::CreateWorktree) {
        let (team, action) = step(team, ok());
        assert!(matches!(action, SpawnTeamAction::SpawnThread { role_name: None }));
        team
    } else {
        assert!(matches!(action, SpawnTeamAction::SpawnThread { role_name: None }));
        team
    }
}

/// The next member from its thread to the end.
fn joined(team: SpawnTeam, agent: u128, status: AgentStatus) -> (SpawnTeam, SpawnTeamAction) {
    let agent_id = ThreadId { value: agent };
    let (team, _) = step(team, SpawnTeamEvent::Spawned(Ok(agent_id)));
    let (team, _) = step(team, SpawnTeamEvent::HookContext(vec![]));
    let (team, action) = step(team, SpawnTeamEvent::Bootstrap(format!("boot {agent}")));
    let team = match action {
        SpawnTeamAction::RegisterWorktreeLease { .. } => step(team, ok()).0,
        _ => team,
    };
    let (team, action) = step(team, SpawnTeamEvent::Status(status));
    assert!(matches!(action, SpawnTeamAction::NewThreadId));
    step(team, SpawnTeamEvent::NewId(ThreadId { value: agent + 0x100 }))
}

#[test]
fn members_are_validated_in_order() {
    let problem = |members: Vec<SpawnTeamMemberArgs>| validate_members(&members).unwrap_err();
    assert_eq!(problem(vec![]), respond("members must be non-empty"));
    assert_eq!(problem(vec![member(" \t", "x")]), respond("member name must be non-empty"));
    assert_eq!(
        problem(vec![member("a", "x"), member(" a ", "")]),
        respond("duplicate member name `a`")
    );
    assert_eq!(
        problem(vec![member("a", " "), member("", "x")]),
        respond("task for member `a` must be non-empty")
    );
    assert_eq!(validate_members(&vec![member("a", "x"), member("A", "x")]), Ok(()));
}

#[test]
fn a_team_is_spawned_member_by_member() {
    let mut first = member(" ann ", "  dig\n");
    first.agent_type = Some("digger".to_string());
    first.background = true;
    let members = vec![first, member("bob", "carry")];
    let asked = members.clone();
    let (team, action) = begin(LEAD, "call".to_string(), None, members);
    assert!(matches!(action, SpawnTeamAction::FindTeamForMember));
    let (team, action) = step(team, SpawnTeamEvent::MemberTeam(Ok(None)));
    assert!(matches!(action, SpawnTeamAction::NewThreadId));
    let (team, action) = step(team, SpawnTeamEvent::NewId(ThreadId { value: 5 }));
    let id = "00000000-0000-0000-0000-000000000005";
    assert!(matches!(action, SpawnTeamAction::LockTeam { team_id } if team_id == id));
    let (team, action) = step(team, ok());
    assert!(matches!(action, SpawnTeamAction::CheckTeamExists { team_id } if team_id == id));
    let (team, action) = step(team, SpawnTeamEvent::TeamExists(Ok(false)));
    assert!(matches!(action, SpawnTeamAction::CheckDepth));
    let (team, action) = step(team, SpawnTeamEvent::DepthExceeded(false));
    assert!(matches!(action, SpawnTeamAction::ReadClock));
    let (team, action) = step(team, SpawnTeamEvent::Clock(1700));
    match action {
        SpawnTeamAction::SendWaitingBegin { event } => {
            assert_eq!(event.sender_thread_id, LEAD);
            assert_eq!(event.call_id, "team/spawn:call");
            assert_eq!(team_call_kind(&event.call_id), Some(TeamCallKind::Spawn));
            let lines = waiting_begin(event).display_lines(80);
            assert_eq!(lines.len(), 1);
            assert_eq!(lines[0].spans[1].content, "Creating agent team");
        }
        other => panic!("{other:?}"),
    }
    let (team, _) = step(team, SpawnTeamEvent::Acknowledged);
    let (team, action) = step(team, options(Some("digger")));
    match action {
        SpawnTeamAction::BuildConfig { options } => {
            assert_eq!(options.role_name, Some("digger".to_string()));
        }
        other => panic!("{other:?}"),
    }
    let (team, action) = step(team, ok());
    match action {
        SpawnTeamAction::SpawnThread { role_name } => {
            assert_eq!(role_name, Some("digger".to_string()));
        }
        other => panic!("{other:?}"),
    }
    let ann = ThreadId { value: 0xa };
    let (team, action) = step(team, SpawnTeamEvent::Spawned(Ok(ann)));
    match action {
        SpawnTeamAction::DispatchStartHook { agent_id, role } => {
            assert_eq!((agent_id, role.as_str()), (ann, "digger"));
        }
        other => panic!("{other:?}"),
    }
    let hooks = vec!["mind the gap".to_string(), "be kind".to_string()];
    let (team, action) = step(team, SpawnTeamEvent::HookContext(hooks));
    match action {
        SpawnTeamAction::BuildBootstrap { request } => {
            assert_eq!(request.team_id, id);
            assert_eq!(request.lead_thread_id, LEAD);
            assert_eq!(request.member_name, "ann");
            assert_eq!(request.agent_type, Some("digger".to_string()));
            assert_eq!(request.task, "dig");
            assert!(request.background && !request.worktree);
            assert_eq!(request.requested_members, asked);
        }
        other => panic!("{other:?}"),
    }
    let (team, action) = step(team, SpawnTeamEvent::Bootstrap("welcome".to_string()));
    assert!(matches!(action, SpawnTeamAction::ReadStatus { agent_id } if agent_id == ann));
    let (team, _) = step(team, SpawnTeamEvent::Status(AgentStatus::Running));
    let (team, action) = step(team, SpawnTeamEvent::NewId(ThreadId { value: 0xaa }));
    assert!(matches!(action, SpawnTeamAction::CheckOptions { member: 1 }));
    let (team, action) = joined(configured(team), 0xb, AgentStatus::PendingInit);
    match action {
        SpawnTeamAction::InsertTeamRecord { lead_thread_id, team_id, record } => {
            assert_eq!((lead_thread_id, team_id.as_str()), (LEAD, id));
            assert_eq!(record.created_at, 1700);
            let members = record.members;
            assert_eq!(members.len(), 2);
            assert_eq!(members[0].name, "ann");
            assert_eq!(members[0].member_id, ThreadId { value: 0xaa }.to_string());
            assert_eq!(members[0].agent_id, ann);
            assert_eq!(members[0].initial_task, "dig");
            assert!(members[0].background);
            assert_eq!(members[1].name, "bob");
        }
        other => panic!("{other:?}"),
    }
    let (team, action) = step(team, ok());
    match action {
        SpawnTeamAction::PersistTeam {
            lead_thread_id,
            team_id,
            state,
            record,
            requested_members,
        } => {
            assert_eq!((lead_thread_id, team_id.as_str()), (LEAD, id));
            assert_eq!(state, PersistedTeamState::Active);
            assert_eq!((record.members.len(), record.created_at), (2, 1700));
            assert_eq!(requested_members, asked);
        }
        other => panic!("{other:?}"),
    }
    let (team, action) = step(team, ok());
    match action {
        SpawnTeamAction::InjectContext { agent_id, text } => {
            assert_eq!(agent_id, ann);
            assert_eq!(text, "welcome\n\nmind the gap\n\nbe kind");
        }
        other => panic!("{other:?}"),
    }
    // A context that could not be injected changes nothing.
    let (team, action) = step(team, no());
    match action {
        SpawnTeamAction::SendInput { agent_id, text, text_elements } => {
            assert_eq!((agent_id, text.as_str()), (ann, "dig"));
            assert!(text_elements.is_empty());
        }
        other => panic!("{other:?}"),
    }
    let (team, action) = step(team, ok());
    assert!(matches!(action, SpawnTeamAction::StartBackgroundCleanup { agent_id } if agent_id == ann));
    let (team, action) = step(team, SpawnTeamEvent::Acknowledged);
    assert!(matches!(action, SpawnTeamAction::InjectContext { .. }));
    let (team, action) = step(team, ok());
    assert!(matches!(action, SpawnTeamAction::SendInput { text, .. } if text == "carry"));
    let (closing, result) = completed(team, ok());
    assert_eq!(closing.steps, vec![ClosingStep::ReleaseLock, ClosingStep::SendWaitingEnd]);
    assert_eq!(result.team_id, id);
    assert_eq!(result.members.len(), 2);
    assert_eq!(result.members[0].name, "ann");
    assert_eq!(result.members[0].agent_id, ann.to_string());
    assert_eq!(result.members[0].status, AgentStatus::Running);
    assert_eq!(result.members[1].status, AgentStatus::PendingInit);
    let event = waiting_end_event(closing, vec![]);
    assert_eq!(event.sender_thread_id, LEAD);
    assert_eq!(event.call_id, "team/spawn:call");
    assert_eq!(event.failure_reason, None);
    let lines = waiting_end(event).display_lines(80);
    assert_eq!(lines.len(), 3);
    assert_eq!(lines[0].spans[1].content, "Created agent team");
}

#[test]
fn checks_refuse_before_anything_is_done() {
    let fresh = |members| begin(LEAD, "call".to_string(), Some("t".to_string()), members).0;
    let one = || vec![member("a", "x")];
    assert_eq!(
        refused(fresh(one()), SpawnTeamEvent::MemberTeam(Err(respond("no")))),
        respond("no")
    );
    assert_eq!(
        refused(fresh(one()), SpawnTeamEvent::MemberTeam(Ok(Some("crew".to_string())))),
        respond(
            "spawn_team is disabled for agent team teammates (team `crew`). Ask the team lead to \
             spawn teams."
        )
    );
    assert_eq!(
        refused(fresh(vec![]), SpawnTeamEvent::MemberTeam(Ok(None))),
        respond("members must be non-empty")
    );
    let (normalizing, action) = step(fresh(one()), SpawnTeamEvent::MemberTeam(Ok(None)));
    assert!(matches!(action, SpawnTeamAction::NormalizeTeamId { team_id } if team_id == "t"));
    assert_eq!(refused(normalizing, SpawnTeamEvent::TeamId(Err(respond("no")))), respond("no"));
    let locking = || {
        let (team, _) = step(fresh(one()), SpawnTeamEvent::MemberTeam(Ok(None)));
        step(team, SpawnTeamEvent::TeamId(Ok("team".to_string()))).0
    };
    assert_eq!(refused(locking(), no()), respond("no"));
    let checking = || step(locking(), ok()).0;
    assert_eq!(
        refused(checking(), SpawnTeamEvent::TeamExists(Err(respond("no")))),
        respond("no")
    );
    assert_eq!(
        refused(checking(), SpawnTeamEvent::TeamExists(Ok(true))),
        respond("team `team` already exists")
    );
    let (deep, _) = step(checking(), SpawnTeamEvent::TeamExists(Ok(false)));
    assert_eq!(
        refused(deep, SpawnTeamEvent::DepthExceeded(true)),
        respond("Agent depth limit reached. Solve the task yourself.")
    );
}

#[test]
fn blank_settings_are_refused_at_once() {
    let failing = |place: usize| SpawnTeamEvent::Options {
        role_name: if place == 0 { Err(respond("no")) } else { Ok(None) },
        model_provider: if place == 1 { Err(respond("no")) } else { Ok(None) },
        model: if place == 2 { Err(respond("no")) } else { Ok(None) },
    };
    for place in 0..3 {
        assert_eq!(refused(begun(vec![member("a", "x")]), failing(place)), respond("no"));
    }
}

const TAIL: [ClosingStep; 4] = [
    ClosingStep::CleanupMembers,
    ClosingStep::SendWaitingEnd,
    ClosingStep::ReleaseLock,
    ClosingStep::RemoveTeamDir,
];

fn steps(left_behind: &[ClosingStep]) -> Vec<ClosingStep> {
    left_behind.iter().chain(TAIL.iter()).copied().collect()
}

fn with_worktree() -> Vec<SpawnTeamMemberArgs> {
    let mut only = member("a", "x");
    only.worktree = true;
    vec![only]
}

#[test]
fn failures_while_spawning_are_undone() {
    let (team, _) = step(begun(with_worktree()), options(None));
    assert_eq!(aborted(team, no()).steps, steps(&[]));
    let (team, _) = step(begun(with_worktree()), options(None));
    let (team, action) = step(team, ok());
    assert!(matches!(action, SpawnTeamAction::CreateWorktree));
    assert_eq!(aborted(team, no()).steps, steps(&[]));
    let other = || SpawnTeamEvent::Spawned(Err(SpawnFailure::Other(respond("no"))));
    assert_eq!(
        aborted(configured(begun(with_worktree())), other()).steps,
        steps(&[ClosingStep::RemoveWorktreeLease])
    );
    let plain = configured(begun(vec![member("a", "x")]));
    assert_eq!(aborted(plain, other()).steps, steps(&[]));
    let agent_id = ThreadId { value: 0xa };
    let team = configured(begun(with_worktree()));
    let (team, action) = step(team, SpawnTeamEvent::Spawned(Ok(agent_id)));
    assert!(matches!(action, SpawnTeamAction::DispatchStartHook { role, .. } if role == "default"));
    let (team, _) = step(team, SpawnTeamEvent::HookContext(vec![]));
    let (team, action) = step(team, SpawnTeamEvent::Bootstrap("boot".to_string()));
    assert!(matches!(action, SpawnTeamAction::RegisterWorktreeLease { .. }));
    let closing = aborted(team, no());
    assert_eq!(closing.steps, steps(&[ClosingStep::ShutdownAgent(agent_id)]));
    assert!(closing.members.is_empty());
}

#[test]
fn the_agent_limit_is_met_by_one_more_try() {
    let limit = || SpawnTeamEvent::Spawned(Err(SpawnFailure::AgentLimitReached(respond("no"))));
    let (reaping, action) = step(configured(begun(with_worktree())), limit());
    assert!(matches!(action, SpawnTeamAction::ReapFinishedAgents { slots: 1 }));
    let closing = aborted(reaping, SpawnTeamEvent::Reaped(0));
    assert_eq!(closing.steps, steps(&[ClosingStep::RemoveWorktreeLease]));
    let (reaping, _) = step(configured(begun(vec![member("a", "x")])), limit());
    let (again, action) = step(reaping, SpawnTeamEvent::Reaped(1));
    assert!(matches!(action, SpawnTeamAction::SpawnThread { .. }));
    assert_eq!(aborted(again, limit()).steps, steps(&[]));
    let (reaping, _) = step(configured(begun(vec![member("a", "x")])), limit());
    let (again, _) = step(reaping, SpawnTeamEvent::Reaped(2));
    let (_, action) = joined(again, 0xa, AgentStatus::Running);
    assert!(matches!(action, SpawnTeamAction::InsertTeamRecord { .. }));
}

#[test]
fn failures_after_spawning_undo_the_record_too() {
    let recording = || {
        joined(configured(begun(vec![member("a", "x")])), 0xa, AgentStatus::Running).0
    };
    let closing = aborted(recording(), no());
    assert_eq!(closing.steps, steps(&[]));
    assert_eq!(closing.members.len(), 1);
    let record = [ClosingStep::RemoveTeamRecord, ClosingStep::RemoveTeamPersistence];
    let (persisting, _) = step(recording(), ok());
    assert_eq!(aborted(persisting, no()).steps, steps(&record));
    let (persisting, _) = step(recording(), ok());
    let (injecting, _) = step(persisting, ok());
    let (sending, _) = step(injecting, ok());
    let closing = aborted(sending, no());
    assert_eq!(closing.steps, steps(&record));
    assert_eq!(closing.statuses.get(ThreadId { value: 0xa }), Some(AgentStatus::Running));
}

#[test]
fn a_member_without_context_gets_its_task_at_once() {
    let team = configured(begun(with_worktree()));
    let agent_id = ThreadId { value: 0xa };
    let (team, _) = step(team, SpawnTeamEvent::Spawned(Ok(agent_id)));
    let (team, _) = step(team, SpawnTeamEvent::HookContext(vec![]));
    let (team, _) = step(team, SpawnTeamEvent::Bootstrap(String::new()));
    let (team, action) = step(team, ok());
    assert!(matches!(action, SpawnTeamAction::ReadStatus { .. }));
    let (team, _) = step(team, SpawnTeamEvent::Status(AgentStatus::Shutdown));
    let (team, _) = step(team, SpawnTeamEvent::NewId(ThreadId { value: 1 }));
    let (team, _) = step(team, ok());
    let (team, action) = step(team, ok());
    assert!(matches!(action, SpawnTeamAction::SendInput { text, .. } if text == "x"));
    let (_, result) = completed(team, ok());
    assert_eq!(result.members[0].status, AgentStatus::Shutdown);
}

#[test]
fn a_run_takes_at_most_fourteen_steps_for_each_member_and_nine_more() {
    // Every member needs a worktree, a second try, a context and a clean-up.
    let count: usize = 3;
    let members = (0..count)
        .map(|i| {
            let mut slow = member(&format!("m{i}"), "x");
            slow.worktree = true;
            slow.background = true;
            slow
        })
        .collect::<Vec<_>>();
    let (mut team, mut action) =
        begin(LEAD, "call".to_string(), Some("t".to_string()), members);
    let mut taken: usize = 0;
    let mut tries: u128 = 0;
    let mut sent: Vec<ThreadId> = vec![];
    let mut active = false;
    loop {
        let event = match &action {
            SpawnTeamAction::FindTeamForMember => SpawnTeamEvent::MemberTeam(Ok(None)),
            SpawnTeamAction::NormalizeTeamId { .. } => SpawnTeamEvent::TeamId(Ok("t".to_string())),
            SpawnTeamAction::NewThreadId => SpawnTeamEvent::NewId(ThreadId { value: 77 }),
            SpawnTeamAction::CheckTeamExists { .. } => SpawnTeamEvent::TeamExists(Ok(false)),
            SpawnTeamAction::CheckDepth => SpawnTeamEvent::DepthExceeded(false),
            SpawnTeamAction::ReadClock => SpawnTeamEvent::Clock(0),
            SpawnTeamAction::SendWaitingBegin { .. } => SpawnTeamEvent::Acknowledged,
            SpawnTeamAction::StartBackgroundCleanup { .. } => SpawnTeamEvent::Acknowledged,
            SpawnTeamAction::CheckOptions { .. } => options(None),
            SpawnTeamAction::SpawnThread { .. } => {
                tries += 1;
                if tries % 2 == 1 {
                    SpawnTeamEvent::Spawned(Err(SpawnFailure::AgentLimitReached(respond("full"))))
                } else {
                    SpawnTeamEvent::Spawned(Ok(ThreadId { value: tries }))
                }
            }
            SpawnTeamAction::ReapFinishedAgents { .. } => SpawnTeamEvent::Reaped(1),
            SpawnTeamAction::DispatchStartHook { .. } => SpawnTeamEvent::HookContext(vec![]),
            SpawnTeamAction::BuildBootstrap { .. } => SpawnTeamEvent::Bootstrap("b".to_string()),
            SpawnTeamAction::ReadStatus { .. } => SpawnTeamEvent::Status(AgentStatus::Running),
            SpawnTeamAction::PersistTeam { state, .. } => {
                assert!(sent.is_empty());
                active = *state == PersistedTeamState::Active;
                ok()
            }
            SpawnTeamAction::SendInput { agent_id, .. } => {
                assert!(active);
                sent.push(*agent_id);
                ok()
            }
            _ => ok(),
        };
        assert!(team.accepts(&event));
        taken += 1;
        match handle(team, event) {
            (Some(later), next) => {
                team = later;
                action = next;
            }
            (None, SpawnTeamAction::Complete { result, .. }) => {
                assert_eq!(result.members.len(), count);
                break;
            }
            other => panic!("{other:?}"),
        }
    }
    assert_eq!(taken, 14 * count + 9);
    assert_eq!(sent, vec![ThreadId { value: 2 }, ThreadId { value: 4 }, ThreadId { value: 6 }]);
}

#[test]
fn team_events_out_of_turn_are_not_accepted() {
    let (team, _) = begin(LEAD, "call".to_string(), None, vec![member("a", "x")]);
    assert!(!team.accepts(&SpawnTeamEvent::Acknowledged));
    assert!(!begun(vec![member("a", "x")]).accepts(&ok()));
}

#[test]
fn a_team_result_that_cannot_be_written_is_fatal() {
    assert_eq!(
        serialization_error("why"),
        FunctionCallError::Fatal("failed to serialize spawn_team result: why".to_string())
    );
    assert!(StatusMap::new().is_empty());
}
