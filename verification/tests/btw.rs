//! Side questions: the answer, the cell that shows it, and the course of one.

use agent_collab::btw::{
    answer_wrap_width, extract_btw_answer, BtwError, BtwHistoryCell, BtwRequestKind, MessagePhase,
    ThreadItem, Turn, TurnError, TurnStatus,
};
use agent_collab::btw_run::{
    advance, begin_btw, btw_turn_input, request_id, run_btw, start, wait_for_btw_answer,
    AskForApproval, BtwAction, BtwEvent, BtwRequest, BtwRun, SandboxPolicy, TurnInput, WaitStep,
    BTW_INSTRUCTIONS, BTW_POLL_INTERVAL_MILLIS, BTW_TIMEOUT_MILLIS,
};
use agent_collab::line::{Color, Line, Span};
use agent_collab::thread_id::ThreadId;
use std::path::PathBuf;

type Run = BtwRun<&'static str, u8>;
type Action = BtwAction<&'static str, u8>;

fn line_to_text(line: &Line) -> String {
    line.spans.iter().map(|span| span.content.as_str()).collect::<Vec<_>>().join("")
}

fn lines_to_string(cell: &BtwHistoryCell, answer: &[&str]) -> String {
    cell.display_lines(60, |_text: &str, _width: usize, _cwd: &PathBuf| {
        answer.iter().map(|line| Line::single(Span::text(line))).collect::<Vec<_>>()
    })
    .iter()
    .map(line_to_text)
    .collect::<Vec<_>>()
    .join("\n")
}

fn message(text: &str, phase: Option<MessagePhase>) -> ThreadItem {
    ThreadItem::AgentMessage { id: "msg".to_string(), text: text.to_string(), phase }
}

fn turn(id: &str, items: Vec<ThreadItem>, status: TurnStatus) -> Turn {
    Turn { id: id.to_string(), items, status, error: None }
}

fn request() -> BtwRequest<&'static str, u8> {
    BtwRequest {
        source_thread_id: ThreadId { value: 0xabc },
        question: "why?".to_string(),
        items: vec!["why?", "image"],
        cwd: PathBuf::from("/tmp/project"),
        approvals_reviewer: 7,
    }
}

#[test]
fn pending_btw_history_cell_snapshot() {
    let cell = BtwHistoryCell::pending(
        "why did the last change work?".to_string(),
        PathBuf::from("/tmp/project"),
    );
    assert_eq!(
        lines_to_string(&cell, &[]),
        "/btw why did the last change work?\n↳ Answering in background…"
    );
}

#[test]
fn completed_btw_history_cell_snapshot() {
    let cell = BtwHistoryCell::completed(
        "what changed?".to_string(),
        "- Updated `foo`\n- Kept `bar` untouched".to_string(),
        PathBuf::from("/tmp/project"),
    );
    assert_eq!(
        lines_to_string(&cell, &["- Updated foo", "- Kept bar untouched"]),
        "/btw what changed?\n↳ - Updated foo\n  - Kept bar untouched"
    );
}

#[test]
fn extract_btw_answer_prefers_final_answer_phase() {
    let turn = Turn {
        id: "turn-1".to_string(),
        items: vec![
            ThreadItem::AgentMessage {
                id: "msg-1".to_string(),
                text: "working".to_string(),
                phase: Some(MessagePhase::Commentary),
            },
            ThreadItem::AgentMessage {
                id: "msg-2".to_string(),
                text: "done".to_string(),
                phase: Some(MessagePhase::FinalAnswer),
            },
        ],
        status: TurnStatus::Completed,
        error: None,
    };

    assert_eq!(extract_btw_answer(&turn).unwrap(), "done");
}

#[test]
fn extract_btw_answer_falls_back_to_non_empty_messages() {
    let turn = Turn {
        id: "turn-1".to_string(),
        items: vec![ThreadItem::AgentMessage {
            id: "msg-1".to_string(),
            text: "fallback answer".to_string(),
            phase: None,
        }],
        status: TurnStatus::Completed,
        error: None,
    };

    assert_eq!(extract_btw_answer(&turn).unwrap(), "fallback answer");
}

#[test]
fn answers_are_trimmed_and_joined() {
    let joined = turn(
        "t",
        vec![
            message("  one \n", None),
            ThreadItem::Other,
            message(" \t ", Some(MessagePhase::FinalAnswer)),
            message("two", Some(MessagePhase::Commentary)),
        ],
        TurnStatus::Completed,
    );
    assert_eq!(extract_btw_answer(&joined).unwrap(), "one\n\ntwo");
    let finals = turn(
        "t",
        vec![
            message("a", Some(MessagePhase::FinalAnswer)),
            message("x", None),
            message(" b", Some(MessagePhase::FinalAnswer)),
        ],
        TurnStatus::Completed,
    );
    assert_eq!(extract_btw_answer(&finals).unwrap(), "a\n\nb");
    let empty = turn("t", vec![ThreadItem::Other, message("", None)], TurnStatus::Completed);
    assert_eq!(extract_btw_answer(&empty), Err(BtwError::NoAnswer));
}

#[test]
fn cells_show_failures_and_missing_answers() {
    let cwd = PathBuf::from("/tmp");
    let failed = BtwHistoryCell::failed("q".to_string(), "no".to_string(), cwd.clone());
    assert_eq!(lines_to_string(&failed, &["unused"]), "/btw q\n↳ Failed: no");
    let lines = failed.lines_with_answer(vec![]);
    assert_eq!(lines[0].spans[0].style.fg, Some(Color::Magenta));
    assert!(lines[1].spans[0].style.dim);
    assert_eq!(lines[1].spans[1].style.fg, Some(Color::Red));
    let silent = BtwHistoryCell::completed("q".to_string(), " ".to_string(), cwd);
    assert_eq!(lines_to_string(&silent, &[]), "/btw q\n↳ (No answer returned)");
}

#[test]
fn answers_are_wrapped_to_what_the_prefix_leaves() {
    assert_eq!(answer_wrap_width(0), 1);
    assert_eq!(answer_wrap_width(1), 1);
    assert_eq!(answer_wrap_width(2), 1);
    assert_eq!(answer_wrap_width(3), 1);
    assert_eq!(answer_wrap_width(4), 2);
    assert_eq!(answer_wrap_width(60), 58);
    assert_eq!(answer_wrap_width(u16::MAX), 65533);
    let cwd = PathBuf::from("/tmp/project");
    let cell = BtwHistoryCell::completed("q".to_string(), "answer".to_string(), cwd.clone());
    let lines = cell.display_lines(60, |text: &str, width: usize, dir: &PathBuf| {
        assert_eq!(*dir, cwd);
        vec![Line::single(Span::raw(format!("{text} {width}")))]
    });
    assert_eq!(line_to_text(&lines[1]), "↳ answer 58");
}

#[test]
fn waiting_decides_by_the_status_of_the_turn() {
    let answered = vec![
        turn("other", vec![message("no", None)], TurnStatus::Failed),
        turn("t", vec![message("yes", None)], TurnStatus::Completed),
        turn("t", vec![message("late", None)], TurnStatus::Completed),
    ];
    assert_eq!(wait_for_btw_answer(&answered, "t"), Some(Ok("yes".to_string())));
    assert_eq!(wait_for_btw_answer(&answered, "missing"), None);
    assert_eq!(
        wait_for_btw_answer(&answered, "other"),
        Some(Err(BtwError::Failed("The /btw side question failed.".to_string())))
    );
    let mut failed = turn("t", vec![], TurnStatus::Failed);
    failed.error = Some(TurnError { message: "quota".to_string() });
    assert_eq!(
        wait_for_btw_answer(&vec![failed], "t"),
        Some(Err(BtwError::Failed("quota".to_string())))
    );
    let interrupted = vec![turn("t", vec![], TurnStatus::Interrupted)];
    assert_eq!(wait_for_btw_answer(&interrupted, "t"), Some(Err(BtwError::Interrupted)));
    let running = vec![turn("t", vec![message("half", None)], TurnStatus::InProgress)];
    assert_eq!(wait_for_btw_answer(&running, "t"), None);
    let silent = vec![turn("t", vec![], TurnStatus::Completed)];
    assert_eq!(wait_for_btw_answer(&silent, "t"), Some(Err(BtwError::NoAnswer)));
}

#[test]
fn errors_have_their_texts() {
    let text = |error: BtwError| error.message();
    assert_eq!(text(BtwError::Request(BtwRequestKind::Fork)), "thread/fork failed for /btw");
    assert_eq!(text(BtwError::Request(BtwRequestKind::TurnStart)), "turn/start failed for /btw");
    assert_eq!(
        text(BtwError::Request(BtwRequestKind::ThreadRead)),
        "thread/read failed while waiting for /btw"
    );
    assert_eq!(
        text(BtwError::Request(BtwRequestKind::Unsubscribe)),
        "thread/unsubscribe failed for /btw"
    );
    assert_eq!(text(BtwError::TimedOut), "Timed out waiting for /btw to finish.");
    assert_eq!(text(BtwError::Failed("x".to_string())), "x");
    assert_eq!(text(BtwError::Interrupted), "The /btw side question was interrupted.");
    assert_eq!(text(BtwError::NoAnswer), "No assistant answer was returned for /btw.");
}

#[test]
fn requests_carry_their_identifiers() {
    assert_eq!(
        request_id(BtwRequestKind::Fork, 0x1f),
        "btw-fork-00000000-0000-0000-0000-00000000001f"
    );
    assert!(request_id(BtwRequestKind::TurnStart, 0).starts_with("btw-turn-start-0000"));
    assert!(request_id(BtwRequestKind::ThreadRead, 0).starts_with("btw-thread-read-0000"));
    assert!(request_id(BtwRequestKind::Unsubscribe, 0).starts_with("btw-unsubscribe-0000"));
}

#[test]
fn the_input_begins_with_the_instructions() {
    let input = btw_turn_input(vec!["a", "b"]);
    assert_eq!(
        input,
        vec![
            TurnInput::Text { text: BTW_INSTRUCTIONS.to_string(), text_elements: vec![] },
            TurnInput::Item("a"),
            TurnInput::Item("b"),
        ]
    );
    assert_eq!(btw_turn_input(Vec::<u8>::new()).len(), 1);
}

#[test]
fn a_side_question_from_fork_to_answer() {
    let (run, action) = begin_btw(request(), 1);
    match action {
        BtwAction::Fork { request_id: id, params } => {
            assert_eq!(id, "btw-fork-00000000-0000-0000-0000-000000000001");
            assert_eq!(params.thread_id, "00000000-0000-0000-0000-000000000abc");
            assert!(params.ephemeral && params.persist_extended_history);
        }
        other => panic!("{other:?}"),
    }
    let (run, action) = run_btw(run, BtwEvent::Forked(Some("side".to_string())), 2);
    match action {
        BtwAction::StartTurn { request_id: id, params } => {
            assert_eq!(id, request_id(BtwRequestKind::TurnStart, 2));
            assert_eq!(params.thread_id, "side");
            assert_eq!(params.input.len(), 3);
            assert_eq!(params.cwd, Some(PathBuf::from("/tmp/project")));
            assert_eq!(params.approval_policy, Some(AskForApproval::Never));
            assert_eq!(params.approvals_reviewer, Some(7));
            assert_eq!(params.sandbox_policy, Some(SandboxPolicy::ReadOnly));
            assert!(params.model.is_none() && params.service_tier.is_none());
            assert!(params.effort.is_none() && params.summary.is_none());
            assert!(params.personality.is_none() && params.output_schema.is_none());
            assert!(params.collaboration_mode.is_none());
        }
        other => panic!("{other:?}"),
    }
    let (run, action) = run_btw(run, BtwEvent::TurnStarted(Some("t".to_string())), 3);
    assert!(matches!(action, BtwAction::CheckClock));
    let (run, action) = run_btw(run, BtwEvent::Clock { elapsed_millis: 0 }, 4);
    match action {
        BtwAction::ReadThread { request_id: id, params } => {
            assert_eq!(id, request_id(BtwRequestKind::ThreadRead, 4));
            assert_eq!(params.thread_id, "side");
            assert!(params.include_turns);
        }
        other => panic!("{other:?}"),
    }
    let (run, action) = run_btw(run, BtwEvent::ThreadRead(Some(vec![])), 5);
    assert!(matches!(action, BtwAction::Sleep { millis: 250 }));
    assert_eq!(BTW_POLL_INTERVAL_MILLIS, 250);
    let (run, action) = run_btw(run, BtwEvent::Slept, 6);
    assert!(matches!(action, BtwAction::CheckClock));
    let (run, _) = run_btw(run, BtwEvent::Clock { elapsed_millis: BTW_TIMEOUT_MILLIS - 1 }, 7);
    let turns = vec![turn("t", vec![message("42", None)], TurnStatus::Completed)];
    let (run, action) = run_btw(run, BtwEvent::ThreadRead(Some(turns)), 8);
    match action {
        BtwAction::Unsubscribe { request_id: id, params } => {
            assert_eq!(id, request_id(BtwRequestKind::Unsubscribe, 8));
            assert_eq!(params.thread_id, "side");
        }
        other => panic!("{other:?}"),
    }
    let (run, action) = run_btw(run, BtwEvent::Unsubscribed(false), 9);
    assert!(matches!(run, BtwRun::Done));
    match action {
        BtwAction::Finish { result } => assert_eq!(result, Ok("42".to_string())),
        other => panic!("{other:?}"),
    }
}

fn waiting(step: WaitStep) -> Run {
    BtwRun::Waiting { thread_id: "side".to_string(), turn_id: "t".to_string(), step }
}

fn released_then_failed(run: Run, event: BtwEvent, expected: BtwError) {
    let (run, action): (Run, Action) = run_btw(run, event, 1);
    match action {
        BtwAction::Unsubscribe { params, .. } => assert_eq!(params.thread_id, "side"),
        other => panic!("{other:?}"),
    }
    let (_, action) = run_btw(run, BtwEvent::Unsubscribed(true), 2);
    match action {
        BtwAction::Finish { result } => assert_eq!(result, Err(expected)),
        other => panic!("{other:?}"),
    }
}

#[test]
fn a_fork_is_released_whatever_fails() {
    released_then_failed(
        BtwRun::Starting { thread_id: "side".to_string() },
        BtwEvent::TurnStarted(None),
        BtwError::Request(BtwRequestKind::TurnStart),
    );
    released_then_failed(
        waiting(WaitStep::Clock),
        BtwEvent::Clock { elapsed_millis: 300_000 },
        BtwError::TimedOut,
    );
    released_then_failed(
        waiting(WaitStep::Read),
        BtwEvent::ThreadRead(None),
        BtwError::Request(BtwRequestKind::ThreadRead),
    );
    released_then_failed(
        waiting(WaitStep::Read),
        BtwEvent::ThreadRead(Some(vec![turn("t", vec![], TurnStatus::Interrupted)])),
        BtwError::Interrupted,
    );
}

#[test]
fn a_failed_fork_ends_the_side_question() {
    let (run, action) = start(request());
    assert!(matches!(action, BtwAction::Fork { .. }));
    let event = BtwEvent::Forked(None);
    assert!(run.accepts(&event));
    assert!(!run.accepts(&BtwEvent::Slept));
    let (run, action) = advance(run, event);
    assert!(matches!(run, BtwRun::Done));
    assert!(!run.accepts(&BtwEvent::Slept));
    match action {
        BtwAction::Finish { result } => {
            assert_eq!(result, Err(BtwError::Request(BtwRequestKind::Fork)))
        }
        other => panic!("{other:?}"),
    }
}

#[test]
fn waiting_accepts_what_it_waits_for() {
    assert!(waiting(WaitStep::Clock).accepts(&BtwEvent::Clock { elapsed_millis: 1 }));
    assert!(waiting(WaitStep::Read).accepts(&BtwEvent::ThreadRead(None)));
    assert!(waiting(WaitStep::Sleep).accepts(&BtwEvent::Slept));
    assert!(!waiting(WaitStep::Read).accepts(&BtwEvent::Slept));
    let starting: Run = BtwRun::Starting { thread_id: "s".to_string() };
    assert!(starting.accepts(&BtwEvent::TurnStarted(None)));
    let releasing: Run = BtwRun::Unsubscribing { result: Ok("a".to_string()) };
    assert!(releasing.accepts(&BtwEvent::Unsubscribed(true)));
}

#[test]
fn fresh_requests_have_random_identifiers() {
    let id_of = |action: &Action| match action {
        BtwAction::Fork { request_id, .. } => request_id.clone(),
        other => panic!("{other:?}"),
    };
    let first = id_of(&start(request()).1);
    let second = id_of(&start(request()).1);
    assert_ne!(first, second);
    let uuid = first.strip_prefix("btw-fork-").expect("the prefix");
    assert_eq!(uuid.len(), 36);
    assert_eq!(uuid.as_bytes()[14], b'4');
}

#[test]
fn cells_show_the_same_lines_at_widths_that_wrap_alike() {
    let render = |text: &str, width: usize, _cwd: &PathBuf| {
        vec![Line::single(Span::raw(format!("{text} in {width}")))]
    };
    let cwd = PathBuf::from("/tmp");
    let pending = BtwHistoryCell::pending("q".to_string(), cwd.clone());
    let failed = BtwHistoryCell::failed("q".to_string(), "no".to_string(), cwd.clone());
    let completed = BtwHistoryCell::completed("q".to_string(), "a".to_string(), cwd);
    for width in [0, 1, 2, 3, 80, u16::MAX] {
        assert_eq!(pending.display_lines(width, render), pending.display_lines(0, render));
        assert_eq!(failed.display_lines(width, render), failed.display_lines(0, render));
        assert_eq!(failed.display_lines(width, render).len(), 2);
        let lines = completed.display_lines(width, render);
        assert_eq!(line_to_text(&lines[0]), "/btw q");
        assert_eq!(lines == completed.display_lines(0, render), width <= 3);
    }
}

#[test]
fn a_request_can_be_copied() {
    let copy = request().clone();
    assert_eq!(copy, request());
    assert_eq!(copy.cwd, PathBuf::from("/tmp/project"));
}
