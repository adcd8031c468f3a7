//! What the transcript shows of the events of collaborating agents.

use agent_collab::agent::{AgentStatus, CollabAgentRef, CollabAgentStatusEntry, StatusMap};
use agent_collab::line::{Color, Line, PlainHistoryCell};
use agent_collab::multi_agents::{
    agent_label_line, close_end, failure_reason_line, interaction_end, merge_wait_receivers,
    prefixed_team_call_id, prompt_line, resume_begin, resume_end, spawn_end, status_summary_line,
    team_call_kind, wait_complete_lines, waiting_begin, waiting_end, AgentLabel,
    CollabAgentInteractionEndEvent, CollabAgentSpawnEndEvent, CollabCloseEndEvent,
    CollabResumeBeginEvent, CollabResumeEndEvent, CollabWaitingBeginEvent, CollabWaitingEndEvent,
    TeamCallKind,
};
use agent_collab::picker::format_agent_picker_item_name;
use agent_collab::thread_id::ThreadId;

fn thread(n: u128) -> ThreadId {
    ThreadId { value: n }
}

fn line_to_text(line: &Line) -> String {
    line.spans
        .iter()
        .map(|span| span.content.as_str())
        .collect::<Vec<_>>()
        .join("")
}

fn cell_to_text(cell: &PlainHistoryCell) -> String {
    cell.display_lines(200)
        .iter()
        .map(line_to_text)
        .collect::<Vec<_>>()
        .join("\n")
}

fn agent(id: ThreadId, nickname: Option<&str>, role: Option<&str>) -> CollabAgentRef {
    CollabAgentRef {
        thread_id: id,
        agent_nickname: nickname.map(str::to_string),
        agent_role: role.map(str::to_string),
    }
}

fn entry(
    id: ThreadId,
    nickname: Option<&str>,
    role: Option<&str>,
    status: AgentStatus,
) -> CollabAgentStatusEntry {
    CollabAgentStatusEntry {
        thread_id: id,
        agent_nickname: nickname.map(str::to_string),
        agent_role: role.map(str::to_string),
        status,
    }
}

#[test]
fn collab_events_snapshot() {
    let sender_thread_id = ThreadId::from_string("00000000-0000-0000-0000-000000000001")
        .expect("valid sender thread id");
    let robie_id = ThreadId::from_string("00000000-0000-0000-0000-000000000002")
        .expect("valid robie thread id");
    let bob_id = ThreadId::from_string("00000000-0000-0000-0000-000000000003")
        .expect("valid bob thread id");

    let spawn = spawn_end(CollabAgentSpawnEndEvent {
        call_id: "call-spawn".to_string(),
        sender_thread_id,
        new_thread_id: Some(robie_id),
        new_agent_nickname: Some("Robie".to_string()),
        new_agent_role: Some("explorer".to_string()),
        prompt: "Compute 11! and reply with just the integer result.".to_string(),
        status: AgentStatus::PendingInit,
    });

    let send = interaction_end(CollabAgentInteractionEndEvent {
        call_id: "call-send".to_string(),
        sender_thread_id,
        receiver_thread_id: robie_id,
        receiver_agent_nickname: Some("Robie".to_string()),
        receiver_agent_role: Some("explorer".to_string()),
        prompt: "Please continue and return the answer only.".to_string(),
        status: AgentStatus::Running,
    });

    let waiting = waiting_begin(CollabWaitingBeginEvent {
        sender_thread_id,
        receiver_thread_ids: vec![robie_id],
        receiver_agents: vec![CollabAgentRef {
            thread_id: robie_id,
            agent_nickname: Some("Robie".to_string()),
            agent_role: Some("explorer".to_string()),
        }],
        call_id: "call-wait".to_string(),
    });

    let mut statuses = StatusMap::new();
    statuses.insert(
        robie_id,
        AgentStatus::Completed(Some("39916800".to_string())),
    );
    statuses.insert(bob_id, AgentStatus::Errored("tool timeout".to_string()));
    let finished = waiting_end(CollabWaitingEndEvent {
        sender_thread_id,
        call_id: "call-wait".to_string(),
        agent_statuses: vec![
            CollabAgentStatusEntry {
                thread_id: robie_id,
                agent_nickname: Some("Robie".to_string()),
                agent_role: Some("explorer".to_string()),
                status: AgentStatus::Completed(Some("39916800".to_string())),
            },
            CollabAgentStatusEntry {
                thread_id: bob_id,
                agent_nickname: Some("Bob".to_string()),
                agent_role: Some("worker".to_string()),
                status: AgentStatus::Errored("tool timeout".to_string()),
            },
        ],
        statuses,
        failure_reason: None,
    });

    let close = close_end(CollabCloseEndEvent {
        call_id: "call-close".to_string(),
        sender_thread_id,
        receiver_thread_id: robie_id,
        receiver_agent_nickname: Some("Robie".to_string()),
        receiver_agent_role: Some("explorer".to_string()),
        status: AgentStatus::Completed(Some("39916800".to_string())),
    });

    let snapshot = [spawn, send, waiting, finished, close]
        .iter()
        .map(cell_to_text)
        .collect::<Vec<_>>()
        .join("\n\n");
    assert_eq!(
        snapshot,
        "• Spawned Robie [explorer]\n\
         \x20 └ Compute 11! and reply with just the integer result.\n\
         \n\
         • Sent input to Robie [explorer]\n\
         \x20 └ Please continue and return the answer only.\n\
         \n\
         • Waiting for Robie [explorer]\n\
         \n\
         • Finished waiting\n\
         \x20 └ Robie [explorer]: Completed - 39916800\n\
         \x20   Bob [worker]: Error - tool timeout\n\
         \n\
         • Closed Robie [explorer]"
    );
}

#[test]
fn title_styles_nickname_and_role() {
    let sender_thread_id = ThreadId::from_string("00000000-0000-0000-0000-000000000001")
        .expect("valid sender thread id");
    let robie_id = ThreadId::from_string("00000000-0000-0000-0000-000000000002")
        .expect("valid robie thread id");
    let cell = spawn_end(CollabAgentSpawnEndEvent {
        call_id: "call-spawn".to_string(),
        sender_thread_id,
        new_thread_id: Some(robie_id),
        new_agent_nickname: Some("Robie".to_string()),
        new_agent_role: Some("explorer".to_string()),
        prompt: String::new(),
        status: AgentStatus::PendingInit,
    });

    let lines = cell.display_lines(200);
    let title = &lines[0];
    assert_eq!(title.spans[2].content.as_str(), "Robie");
    assert_eq!(title.spans[2].style.fg, Some(Color::Cyan));
    assert!(title.spans[2].style.bold);
    assert_eq!(title.spans[4].content.as_str(), "[explorer]");
    assert_eq!(title.spans[4].style.fg, None);
    assert!(!title.spans[4].style.dim);
}

#[test]
fn team_spawn_waiting_end_uses_team_title() {
    let sender_thread_id = ThreadId::from_string("00000000-0000-0000-0000-000000000001")
        .expect("valid sender thread id");
    let planner_id = ThreadId::from_string("00000000-0000-0000-0000-000000000002")
        .expect("valid planner thread id");
    let mut statuses = StatusMap::new();
    statuses.insert(planner_id, AgentStatus::Completed(None));

    let cell = waiting_end(CollabWaitingEndEvent {
        call_id: "team/spawn:call-team".to_string(),
        sender_thread_id,
        agent_statuses: vec![CollabAgentStatusEntry {
            thread_id: planner_id,
            agent_nickname: Some("planner".to_string()),
            agent_role: Some("develop".to_string()),
            status: AgentStatus::Completed(None),
        }],
        statuses,
        failure_reason: None,
    });

    assert_eq!(
        cell_to_text(&cell),
        "• Created agent team\n  └ planner [develop]: Completed"
    );
}

#[test]
fn team_wait_failure_uses_failed_title() {
    let sender_thread_id = ThreadId::from_string("00000000-0000-0000-0000-000000000001")
        .expect("valid sender thread id");
    let planner_id = ThreadId::from_string("00000000-0000-0000-0000-000000000002")
        .expect("valid planner thread id");
    let mut statuses = StatusMap::new();
    statuses.insert(planner_id, AgentStatus::Completed(None));

    let cell = waiting_end(CollabWaitingEndEvent {
        call_id: "team/wait:call-team".to_string(),
        sender_thread_id,
        agent_statuses: vec![CollabAgentStatusEntry {
            thread_id: planner_id,
            agent_nickname: Some("planner".to_string()),
            agent_role: Some("develop".to_string()),
            status: AgentStatus::Completed(None),
        }],
        statuses,
        failure_reason: Some("teammate_idle hook 'idle-guard' blocked: blocked teammate".into()),
    });

    assert_eq!(
        cell_to_text(&cell),
        "• Agent team wait failed\n  └ planner [develop]: Completed\n    Failure: teammate_idle \
         hook 'idle-guard' blocked: blocked teammate"
    );
}

#[test]
fn team_close_waiting_begin_uses_team_title() {
    let sender_thread_id = ThreadId::from_string("00000000-0000-0000-0000-000000000001")
        .expect("valid sender thread id");
    let planner_id = ThreadId::from_string("00000000-0000-0000-0000-000000000002")
        .expect("valid planner thread id");
    let cell = waiting_begin(CollabWaitingBeginEvent {
        sender_thread_id,
        receiver_thread_ids: vec![planner_id],
        receiver_agents: vec![CollabAgentRef {
            thread_id: planner_id,
            agent_nickname: Some("planner".to_string()),
            agent_role: Some("develop".to_string()),
        }],
        call_id: "team/close:call-team".to_string(),
    });

    let text = cell_to_text(&cell);
    assert!(text.contains("Closing agent team"));
    assert!(text.contains("planner [develop]"));
}

#[test]
fn failed_spawn_and_blank_prompt() {
    let cell = spawn_end(CollabAgentSpawnEndEvent {
        call_id: "call".to_string(),
        sender_thread_id: thread(1),
        new_thread_id: None,
        new_agent_nickname: Some("Robie".to_string()),
        new_agent_role: None,
        prompt: " \n ".to_string(),
        status: AgentStatus::NotFound,
    });
    assert_eq!(cell_to_text(&cell), "• Agent spawn failed");
    let lines = cell.display_lines(10);
    assert!(lines[0].spans[0].style.dim);
    assert!(lines[0].spans[1].style.bold);
    assert!(prompt_line("").is_none());
    assert!(prompt_line("\u{3000}\t").is_none());
}

#[test]
fn waits_for_no_one_some_and_teams() {
    let begin = |ids: Vec<ThreadId>, agents: Vec<CollabAgentRef>, call_id: &str| {
        cell_to_text(&waiting_begin(CollabWaitingBeginEvent {
            sender_thread_id: thread(9),
            receiver_thread_ids: ids,
            receiver_agents: agents,
            call_id: call_id.to_string(),
        }))
    };
    assert_eq!(begin(vec![], vec![], "call"), "• Waiting for agents");
    assert_eq!(
        begin(vec![thread(1)], vec![], "call"),
        "• Waiting for 00000000-0000-0000-0000-000000000001"
    );
    assert_eq!(
        begin(vec![thread(2), thread(1)], vec![agent(thread(1), Some("Ann"), None)], "call"),
        "• Waiting for 2 agents\n  └ Ann\n    00000000-0000-0000-0000-000000000002"
    );
    assert_eq!(begin(vec![], vec![], "team/spawn:x"), "• Creating agent team");
    assert_eq!(
        begin(vec![thread(1)], vec![], "team/wait:x"),
        "• Waiting for agent team\n  └ 00000000-0000-0000-0000-000000000001"
    );
    let twelve = (0..12).map(thread).collect::<Vec<_>>();
    assert!(begin(twelve, vec![], "call").starts_with("• Waiting for 12 agents\n"));
}

#[test]
fn wait_receivers_keep_described_agents_and_add_each_other_thread_once() {
    let agents = vec![agent(thread(5), Some("a"), None), agent(thread(3), None, Some("r"))];
    let merged = merge_wait_receivers(
        &vec![thread(3), thread(8), thread(8), thread(5), thread(1)],
        agents,
    );
    assert_eq!(
        merged,
        vec![
            agent(thread(5), Some("a"), None),
            agent(thread(3), None, Some("r")),
            agent(thread(8), None, None),
            agent(thread(1), None, None),
        ]
    );
    let bare = merge_wait_receivers(&vec![thread(8), thread(8)], vec![]);
    assert_eq!(bare, vec![agent(thread(8), None, None), agent(thread(8), None, None)]);
}

#[test]
fn wait_titles_by_kind_and_failure() {
    let end = |call_id: &str, reason: Option<&str>| {
        cell_to_text(&waiting_end(CollabWaitingEndEvent {
            sender_thread_id: thread(9),
            call_id: call_id.to_string(),
            agent_statuses: vec![],
            statuses: StatusMap::new(),
            failure_reason: reason.map(str::to_string),
        }))
    };
    let none = "\n  └ No agents completed yet";
    let failed = "\n  └ No agents completed yet\n    Failure: why";
    assert_eq!(end("c", None), format!("• Finished waiting{none}"));
    assert_eq!(end("c", Some("why")), format!("• Wait failed{failed}"));
    assert_eq!(end("team/spawn:c", None), format!("• Created agent team{none}"));
    assert_eq!(end("team/spawn:c", Some("why")), format!("• Agent team creation failed{failed}"));
    assert_eq!(end("team/wait:c", None), format!("• Finished waiting for agent team{none}"));
    assert_eq!(end("team/wait:c", Some("why")), format!("• Agent team wait failed{failed}"));
    assert_eq!(end("team/close:c", None), format!("• Closed agent team{none}"));
    assert_eq!(end("team/close:c", Some("why")), format!("• Agent team close failed{failed}"));
}

#[test]
fn outcome_lines_list_described_agents_then_other_threads_in_text_order() {
    let mut statuses = StatusMap::new();
    statuses.insert(thread(0x20), AgentStatus::Running);
    statuses.insert(thread(0x3), AgentStatus::Shutdown);
    statuses.insert(thread(0x1f), AgentStatus::NotFound);
    let described = vec![entry(thread(0x20), Some("Zoe"), None, AgentStatus::PendingInit)];
    let lines = wait_complete_lines(&statuses, &described);
    let texts = lines.iter().map(line_to_text).collect::<Vec<_>>();
    assert_eq!(
        texts,
        vec![
            "Zoe: Pending init".to_string(),
            "00000000-0000-0000-0000-000000000003: Shutdown".to_string(),
            "00000000-0000-0000-0000-00000000001f: Not found".to_string(),
        ]
    );
    let all = wait_complete_lines(&statuses, &vec![]);
    assert_eq!(all.len(), 3);
    assert_eq!(line_to_text(&all[2]), "00000000-0000-0000-0000-000000000020: Running");
    let described_only = wait_complete_lines(&StatusMap::new(), &described);
    assert_eq!(described_only.len(), 1);
}

#[test]
fn status_summaries_and_their_styles() {
    let text = |status: AgentStatus| line_to_text(&status_summary_line(&status));
    assert_eq!(text(AgentStatus::PendingInit), "Pending init");
    assert_eq!(text(AgentStatus::Running), "Running");
    assert_eq!(text(AgentStatus::Completed(None)), "Completed");
    assert_eq!(text(AgentStatus::Completed(Some(" \n".to_string()))), "Completed");
    assert_eq!(
        text(AgentStatus::Completed(Some("  all \n\t done ".to_string()))),
        "Completed - all done"
    );
    assert_eq!(text(AgentStatus::Errored(String::new())), "Error");
    assert_eq!(text(AgentStatus::Shutdown), "Shutdown");
    assert_eq!(text(AgentStatus::NotFound), "Not found");
    let running = status_summary_line(&AgentStatus::Running);
    assert_eq!(running.spans[0].style.fg, Some(Color::Cyan));
    assert!(running.spans[0].style.bold);
    let done = status_summary_line(&AgentStatus::Completed(Some("x".to_string())));
    assert_eq!(done.spans[0].style.fg, Some(Color::Green));
    assert!(done.spans[1].style.dim);
    assert_eq!(done.spans[2].style.fg, None);
    let error = status_summary_line(&AgentStatus::Errored("x".to_string()));
    assert_eq!(error.spans[0].style.fg, Some(Color::Red));
}

#[test]
fn previews_are_limited() {
    let long = "a".repeat(300);
    let completed = status_summary_line(&AgentStatus::Completed(Some(long.clone())));
    assert_eq!(completed.spans[2].content, format!("{}...", "a".repeat(237)));
    let errored = status_summary_line(&AgentStatus::Errored(long.clone()));
    assert_eq!(errored.spans[2].content, format!("{}...", "a".repeat(157)));
    let prompt = prompt_line(&long).expect("a prompt");
    assert_eq!(prompt.spans[0].content, format!("{}...", "a".repeat(157)));
    let exact = prompt_line(&"a".repeat(160)).expect("a prompt");
    assert_eq!(exact.spans[0].content, "a".repeat(160));
    let reason = failure_reason_line(&long);
    assert_eq!(reason.spans[0].content, "Failure: ");
    assert_eq!(reason.spans[0].style.fg, Some(Color::Red));
    assert_eq!(reason.spans[1].content, format!("{}...", "a".repeat(157)));
}

#[test]
fn resuming_shows_the_agent_and_then_its_status() {
    let begin = resume_begin(CollabResumeBeginEvent {
        call_id: "c".to_string(),
        sender_thread_id: thread(1),
        receiver_thread_id: thread(2),
        receiver_agent_nickname: None,
        receiver_agent_role: Some(" worker ".to_string()),
    });
    assert_eq!(
        cell_to_text(&begin),
        "• Resuming 00000000-0000-0000-0000-000000000002 [worker]"
    );
    let end = resume_end(CollabResumeEndEvent {
        call_id: "c".to_string(),
        sender_thread_id: thread(1),
        receiver_thread_id: thread(2),
        receiver_agent_nickname: Some(" Ann ".to_string()),
        receiver_agent_role: None,
        status: AgentStatus::Errored("no\nway".to_string()),
    });
    assert_eq!(cell_to_text(&end), "• Resumed Ann\n  └ Error - no way");
}

#[test]
fn call_identifiers_tell_the_kind_of_call() {
    for kind in [TeamCallKind::Spawn, TeamCallKind::Wait, TeamCallKind::Close] {
        for call_id in ["", "call", "team/wait:x", "team/spawn:"] {
            let prefixed = prefixed_team_call_id(kind, call_id);
            assert_eq!(team_call_kind(&prefixed), Some(kind));
            assert!(prefixed.ends_with(call_id));
        }
    }
    assert_eq!(prefixed_team_call_id(TeamCallKind::Spawn, "c"), "team/spawn:c");
    assert_eq!(team_call_kind("call"), None);
    assert_eq!(team_call_kind("team/spawn"), None);
    assert_eq!(team_call_kind(" team/spawn:"), None);
}

#[test]
fn agent_line_reads_as_the_name_in_the_picker() {
    for role in [None, Some(""), Some(" dev ")] {
        let line = agent_label_line(AgentLabel {
            thread_id: Some(thread(4)),
            nickname: Some(" Ann\t"),
            role,
        });
        assert_eq!(
            line_to_text(&line),
            format_agent_picker_item_name(Some(" Ann\t"), role, false)
        );
    }
    let nobody = agent_label_line(AgentLabel { thread_id: None, nickname: Some(" "), role: None });
    assert_eq!(line_to_text(&nobody), "agent");
}

#[test]
fn a_status_map_lists_each_of_its_threads_once() {
    let mut statuses = StatusMap::new();
    assert!(statuses.threads_besides(&vec![]).is_empty());
    for n in [5, 3, 5, 9, 3] {
        statuses.insert(thread(n), AgentStatus::Running);
    }
    assert_eq!(statuses.threads_besides(&vec![]), vec![thread(3), thread(5), thread(9)]);
    assert_eq!(statuses.threads_besides(&vec![thread(5), thread(1)]), vec![thread(3), thread(9)]);
}
