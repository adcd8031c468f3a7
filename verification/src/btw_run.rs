//! The course of a side question (`/btw`): fork the thread, ask in the fork,
//! wait for the answer, and let go of the fork.
//!
//! The requests themselves, the clock and the sleeping are left to the caller:
//! [`run_btw`] says what to do next, and is told how it went.

use crate::btw::{
    extract_btw_answer, turn_answer, BtwError, BtwRequestKind, Turn, TurnStatus,
};
use crate::text::TextElement;
use crate::thread_id::{
    has_rfc_variant, random_uuid, uuid_text, uuid_to_string, uuid_version, ThreadId,
};
use std::path::PathBuf;
use vstd::pervasive::{cloned, unreached};
use vstd::prelude::*;
use vstd::string::StringExecFns;

verus! {

/// What the assistant is told before the side question.
pub const BTW_INSTRUCTIONS: &'static str =
    "Answer the user's next message as a quick side question in the context of the current thread. Do not use tools, run commands, or modify files. Give a concise direct answer in a single assistant message.";

/// The pause between two looks at the thread.
pub const BTW_POLL_INTERVAL_MILLIS: u64 = 250;

/// How long a side question may take.
pub const BTW_TIMEOUT_MILLIS: u64 = 300_000;

/// A side question: input items of type `T`, and who reviews approvals.
#[derive(Debug, PartialEq, Eq)]
pub struct BtwRequest<T, R> {
    pub source_thread_id: ThreadId,
    pub question: String,
    pub items: Vec<T>,
    pub cwd: PathBuf,
    pub approvals_reviewer: R,
}

impl<T: Clone, R: Clone> Clone for BtwRequest<T, R> {
    fn clone(&self) -> (r: BtwRequest<T, R>)
        ensures
            r.source_thread_id == self.source_thread_id,
            r.question == self.question,
            r.items@.len() == self.items@.len(),
            forall|i: int|
                0 <= i < self.items@.len() ==> cloned(self.items@[i], #[trigger] r.items@[i]),
            r.cwd == self.cwd,
            cloned(self.approvals_reviewer, r.approvals_reviewer),
    {
        BtwRequest {
            source_thread_id: self.source_thread_id,
            question: self.question.clone(),
            items: self.items.clone(),
            cwd: self.cwd.clone(),
            approvals_reviewer: self.approvals_reviewer.clone(),
        }
    }
}

/// A piece of the input of a turn: a text, or an item as the user gave it.
#[derive(Debug, PartialEq, Eq)]
pub enum TurnInput<T> {
    Text { text: String, text_elements: Vec<TextElement> },
    Item(T),
}

/// When the user is asked for approval.
#[derive(Debug, Clone, Copy, PartialEq, Eq, Structural)]
pub enum AskForApproval {
    Never,
}

/// What the commands of a turn may touch.
#[derive(Debug, Clone, Copy, PartialEq, Eq, Structural)]
pub enum SandboxPolicy {
    ReadOnly,
}

/// The parameters of a fork.
#[derive(Debug)]
pub struct ThreadForkParams {
    pub thread_id: String,
    pub ephemeral: bool,
    pub persist_extended_history: bool,
}

/// The parameters of a turn. What is `None` is left to the server.
#[derive(Debug)]
pub struct TurnStartParams<T, R> {
    pub thread_id: String,
    pub input: Vec<TurnInput<T>>,
    pub cwd: Option<PathBuf>,
    pub approval_policy: Option<AskForApproval>,
    pub approvals_reviewer: Option<R>,
    pub sandbox_policy: Option<SandboxPolicy>,
    pub model: Option<String>,
    pub service_tier: Option<String>,
    pub effort: Option<String>,
    pub summary: Option<String>,
    pub personality: Option<String>,
    pub output_schema: Option<String>,
    pub collaboration_mode: Option<String>,
}

/// The parameters of a look at a thread.
#[derive(Debug)]
pub struct ThreadReadParams {
    pub thread_id: String,
    pub include_turns: bool,
}

/// The parameters of letting go of a thread.
#[derive(Debug)]
pub struct ThreadUnsubscribeParams {
    pub thread_id: String,
}

/// What to do next.
#[derive(Debug)]
pub enum BtwAction<T, R> {
    Fork { request_id: String, params: ThreadForkParams },
    StartTurn { request_id: String, params: TurnStartParams<T, R> },
    CheckClock,
    ReadThread { request_id: String, params: ThreadReadParams },
    Sleep { millis: u64 },
    Unsubscribe { request_id: String, params: ThreadUnsubscribeParams },
    Finish { result: Result<String, BtwError> },
}

/// How it went. `None` stands for a request that the server refused.
#[derive(Debug)]
pub enum BtwEvent {
    /// The identifier of the forked thread.
    Forked(Option<String>),
    /// The identifier of the turn.
    TurnStarted(Option<String>),
    /// The time since the wait for the answer began.
    Clock { elapsed_millis: u64 },
    /// The turns of the thread.
    ThreadRead(Option<Vec<Turn>>),
    Slept,
    /// Whether the server let go of the thread.
    Unsubscribed(bool),
}

/// What the wait for the answer expects next.
#[derive(Debug, Clone, Copy, PartialEq, Eq, Structural)]
pub enum WaitStep {
    Clock,
    Read,
    Sleep,
}

/// How far a side question has come.
#[derive(Debug)]
pub enum BtwRun<T, R> {
    Forking { request: BtwRequest<T, R> },
    Starting { thread_id: String },
    Waiting { thread_id: String, turn_id: String, step: WaitStep },
    Unsubscribing { result: Result<String, BtwError> },
    Done,
}

/// What the identifiers of the requests of a kind begin with.
pub open spec fn request_prefix(kind: BtwRequestKind) -> Seq<char> {
    match kind {
        BtwRequestKind::Fork => "btw-fork-"@,
        BtwRequestKind::TurnStart => "btw-turn-start-"@,
        BtwRequestKind::ThreadRead => "btw-thread-read-"@,
        BtwRequestKind::Unsubscribe => "btw-unsubscribe-"@,
    }
}

/// The identifier of a request.
pub open spec fn request_id_text(kind: BtwRequestKind, uuid: u128) -> Seq<char> {
    request_prefix(kind) + uuid_text(uuid)
}

/// The identifier of a request of the given kind.
pub fn request_id(kind: BtwRequestKind, uuid: u128) -> (r: String)
    ensures
        r@ == request_id_text(kind, uuid),
{
    let prefix = match kind {
        BtwRequestKind::Fork => "btw-fork-",
        BtwRequestKind::TurnStart => "btw-turn-start-",
        BtwRequestKind::ThreadRead => "btw-thread-read-",
        BtwRequestKind::Unsubscribe => "btw-unsubscribe-",
    };
    prefix.to_string().concat(uuid_to_string(uuid).as_str())
}

/// A request to fork a thread for a side question: the fork is ephemeral and
/// keeps the extended history.
pub open spec fn is_fork<T, R>(action: BtwAction<T, R>, uuid: u128, source: ThreadId) -> bool {
    action matches BtwAction::Fork { request_id, params } && {
        &&& request_id@ == request_id_text(BtwRequestKind::Fork, uuid)
        &&& params.thread_id@ == source.text()
        &&& params.ephemeral
        &&& params.persist_extended_history
    }
}

/// The instructions as a text without elements.
pub open spec fn is_instructions<T>(input: TurnInput<T>) -> bool {
    input matches TurnInput::Text { text, text_elements } && text@ == BTW_INSTRUCTIONS@
        && text_elements@.len() == 0
}

/// The input of a side question: the instructions, then the items.
pub open spec fn is_turn_input<T>(input: Seq<TurnInput<T>>, items: Seq<T>) -> bool {
    &&& input.len() == items.len() + 1
    &&& is_instructions(input[0])
    &&& forall|i: int|
        0 <= i < items.len() ==> #[trigger] input[i + 1] == TurnInput::Item(items[i])
}

/// A request to start the turn of a side question: it never asks for approval
/// and may only read.
pub open spec fn is_turn_start<T, R>(
    action: BtwAction<T, R>,
    uuid: u128,
    thread_id: Seq<char>,
    request: BtwRequest<T, R>,
) -> bool {
    action matches BtwAction::StartTurn { request_id, params } && {
        &&& request_id@ == request_id_text(BtwRequestKind::TurnStart, uuid)
        &&& params.thread_id@ == thread_id
        &&& is_turn_input(params.input@, request.items@)
        &&& params.cwd == Some(request.cwd)
        &&& params.approval_policy == Some(AskForApproval::Never)
        &&& params.approvals_reviewer == Some(request.approvals_reviewer)
        &&& params.sandbox_policy == Some(SandboxPolicy::ReadOnly)
        &&& params.model is None
        &&& params.service_tier is None
        &&& params.effort is None
        &&& params.summary is None
        &&& params.personality is None
        &&& params.output_schema is None
        &&& params.collaboration_mode is None
    }
}

/// A request to read a thread with its turns.
pub open spec fn is_thread_read<T, R>(
    action: BtwAction<T, R>,
    uuid: u128,
    thread_id: Seq<char>,
) -> bool {
    action matches BtwAction::ReadThread { request_id, params } && {
        &&& request_id@ == request_id_text(BtwRequestKind::ThreadRead, uuid)
        &&& params.thread_id@ == thread_id
        &&& params.include_turns
    }
}

/// A request to let go of a thread.
pub open spec fn is_unsubscribe<T, R>(
    action: BtwAction<T, R>,
    uuid: u128,
    thread_id: Seq<char>,
) -> bool {
    action matches BtwAction::Unsubscribe { request_id, params } && {
        &&& request_id@ == request_id_text(BtwRequestKind::Unsubscribe, uuid)
        &&& params.thread_id@ == thread_id
    }
}

/// The request that forks a thread for a side question.
pub fn fork_btw_thread<T, R>(source_thread_id: ThreadId, uuid: u128) -> (r: BtwAction<T, R>)
    ensures
        is_fork(r, uuid, source_thread_id),
{
    BtwAction::Fork {
        request_id: request_id(BtwRequestKind::Fork, uuid),
        params: ThreadForkParams {
            thread_id: source_thread_id.to_string(),
            ephemeral: true,
            persist_extended_history: true,
        },
    }
}

/// The input of a side question: the instructions, then the items.
pub fn btw_turn_input<T>(items: Vec<T>) -> (r: Vec<TurnInput<T>>)
    ensures
        is_turn_input(r@, items@),
{
    let mut turn_input: Vec<TurnInput<T>> = Vec::new();
    turn_input.push(
        TurnInput::Text { text: BTW_INSTRUCTIONS.to_string(), text_elements: Vec::new() },
    );
    for item in it: items
        invariant
            it.seq() == items@,
            turn_input@.len() == it.index() + 1,
            is_instructions(turn_input@[0]),
            forall|i: int|
                0 <= i < it.index() ==> #[trigger] turn_input@[i + 1] == TurnInput::Item(items@[i]),
    {
        turn_input.push(TurnInput::Item(item));
    }
    turn_input
}

/// The request that starts the turn of a side question.
pub fn start_btw_turn<T, R>(thread_id: &str, request: BtwRequest<T, R>, uuid: u128) -> (r:
    BtwAction<T, R>)
    ensures
        is_turn_start(r, uuid, thread_id@, request),
{
    BtwAction::StartTurn {
        request_id: request_id(BtwRequestKind::TurnStart, uuid),
        params: TurnStartParams {
            thread_id: thread_id.to_string(),
            input: btw_turn_input(request.items),
            cwd: Some(request.cwd),
            approval_policy: Some(AskForApproval::Never),
            approvals_reviewer: Some(request.approvals_reviewer),
            sandbox_policy: Some(SandboxPolicy::ReadOnly),
            model: None,
            service_tier: None,
            effort: None,
            summary: None,
            personality: None,
            output_schema: None,
            collaboration_mode: None,
        },
    }
}

/// The request that reads a thread with its turns.
pub fn read_btw_thread<T, R>(thread_id: &str, uuid: u128) -> (r: BtwAction<T, R>)
    ensures
        is_thread_read(r, uuid, thread_id@),
{
    BtwAction::ReadThread {
        request_id: request_id(BtwRequestKind::ThreadRead, uuid),
        params: ThreadReadParams { thread_id: thread_id.to_string(), include_turns: true },
    }
}

/// The request that lets go of a thread.
pub fn unsubscribe_thread<T, R>(thread_id: &str, uuid: u128) -> (r: BtwAction<T, R>)
    ensures
        is_unsubscribe(r, uuid, thread_id@),
{
    BtwAction::Unsubscribe {
        request_id: request_id(BtwRequestKind::Unsubscribe, uuid),
        params: ThreadUnsubscribeParams { thread_id: thread_id.to_string() },
    }
}

/// The first turn with the given identifier.
pub open spec fn find_turn(turns: Seq<Turn>, turn_id: Seq<char>) -> Option<Turn>
    decreases turns.len(),
{
    if turns.len() == 0 {
        None
    } else if turns.first().id@ == turn_id {
        Some(turns.first())
    } else {
        find_turn(turns.drop_first(), turn_id)
    }
}

/// What a look at the thread says of the side question: nothing yet, the
/// answer, or why there is none.
pub open spec fn is_wait_outcome(
    turn: Option<Turn>,
    outcome: Option<Result<String, BtwError>>,
) -> bool {
    match turn {
        None => outcome is None,
        Some(turn) => match turn.status {
            TurnStatus::InProgress => outcome is None,
            TurnStatus::Completed => match turn_answer(turn.items@) {
                Some(answer) => outcome matches Some(Ok(text)) && text@ == answer,
                None => outcome matches Some(Err(error)) && error is NoAnswer,
            },
            TurnStatus::Failed => outcome matches Some(Err(BtwError::Failed(message)))
                && message@ == (match turn.error {
                Some(error) => error.message@,
                None => "The /btw side question failed."@,
            }),
            TurnStatus::Interrupted => outcome matches Some(Err(error)) && error is Interrupted,
        },
    }
}

/// What a look at the thread says of the side question. `None` means that it is
/// not decided yet.
pub fn wait_for_btw_answer(turns: &Vec<Turn>, turn_id: &str) -> (r: Option<
    Result<String, BtwError>,
>)
    ensures
        is_wait_outcome(find_turn(turns@, turn_id@), r),
{
    let wanted = turn_id.to_string();
    proof {
        assert(turns@.skip(0) =~= turns@);
    }
    for i in 0..turns.len()
        invariant
            wanted@ == turn_id@,
            find_turn(turns@, turn_id@) == find_turn(turns@.skip(i as int), turn_id@),
    {
        let turn = &turns[i];
        proof {
            assert(turns@.skip(i as int).first() == *turn);
            assert(turns@.skip(i as int).drop_first() =~= turns@.skip(i + 1));
        }
        if turn.id == wanted {
            return match turn.status {
                TurnStatus::Completed => Some(extract_btw_answer(turn)),
                TurnStatus::Failed => {
                    let message = match &turn.error {
                        Some(error) => error.message.clone(),
                        None => "The /btw side question failed.".to_string(),
                    };
                    Some(Err(BtwError::Failed(message)))
                },
                TurnStatus::Interrupted => Some(Err(BtwError::Interrupted)),
                TurnStatus::InProgress => None,
            };
        }
    }
    proof {
        assert(turns@.skip(turns@.len() as int) =~= Seq::empty());
    }
    None
}

impl<T, R> BtwRun<T, R> {
    /// The events that can follow the action that was last given out.
    pub open spec fn expects(self, event: BtwEvent) -> bool {
        match self {
            BtwRun::Forking { request } => event is Forked,
            BtwRun::Starting { thread_id } => event is TurnStarted,
            BtwRun::Waiting { thread_id, turn_id, step } => match step {
                WaitStep::Clock => event is Clock,
                WaitStep::Read => event is ThreadRead,
                WaitStep::Sleep => event is Slept,
            },
            BtwRun::Unsubscribing { result } => event is Unsubscribed,
            BtwRun::Done => false,
        }
    }

    /// Tells whether an event can follow the action that was last given out.
    pub fn accepts(&self, event: &BtwEvent) -> (r: bool)
        ensures
            r == self.expects(*event),
    {
        match (self, event) {
            (BtwRun::Forking { .. }, BtwEvent::Forked(_)) => true,
            (BtwRun::Starting { .. }, BtwEvent::TurnStarted(_)) => true,
            (
                BtwRun::Waiting { thread_id: _, turn_id: _, step: WaitStep::Clock },
                BtwEvent::Clock { .. },
            ) => true,
            (
                BtwRun::Waiting { thread_id: _, turn_id: _, step: WaitStep::Read },
                BtwEvent::ThreadRead(_),
            ) => true,
            (
                BtwRun::Waiting { thread_id: _, turn_id: _, step: WaitStep::Sleep },
                BtwEvent::Slept,
            ) => true,
            (BtwRun::Unsubscribing { .. }, BtwEvent::Unsubscribed(_)) => true,
            _ => false,
        }
    }

    /// The forked thread that is still subscribed to.
    pub open spec fn held_thread(self) -> Option<Seq<char>> {
        match self {
            BtwRun::Starting { thread_id } => Some(thread_id@),
            BtwRun::Waiting { thread_id, turn_id, step } => Some(thread_id@),
            _ => None,
        }
    }

    /// A step that lets go of a thread because the outcome is decided.
    pub open spec fn settles(
        self,
        action: BtwAction<T, R>,
        uuid: u128,
        thread_id: Seq<char>,
        outcome: Option<Result<String, BtwError>>,
    ) -> bool {
        &&& is_unsubscribe(action, uuid, thread_id)
        &&& self matches BtwRun::Unsubscribing { result } && outcome == Some(result)
    }

    /// `self` and `action` are what follows `earlier` on an event.
    pub open spec fn follows(
        self,
        action: BtwAction<T, R>,
        earlier: BtwRun<T, R>,
        event: BtwEvent,
        uuid: u128,
    ) -> bool {
        match (earlier, event) {
            (BtwRun::Forking { request }, BtwEvent::Forked(Some(thread_id))) => {
                &&& self == BtwRun::<T, R>::Starting { thread_id }
                &&& is_turn_start(action, uuid, thread_id@, request)
            },
            (BtwRun::Forking { request }, BtwEvent::Forked(None)) => {
                &&& self == BtwRun::<T, R>::Done
                &&& action == BtwAction::<T, R>::Finish {
                    result: Err(BtwError::Request(BtwRequestKind::Fork)),
                }
            },
            (BtwRun::Starting { thread_id }, BtwEvent::TurnStarted(Some(turn_id))) => {
                &&& self == BtwRun::<T, R>::Waiting { thread_id, turn_id, step: WaitStep::Clock }
                &&& action == BtwAction::<T, R>::CheckClock
            },
            (BtwRun::Starting { thread_id }, BtwEvent::TurnStarted(None)) => self.settles(
                action,
                uuid,
                thread_id@,
                Some(Err(BtwError::Request(BtwRequestKind::TurnStart))),
            ),
            (
                BtwRun::Waiting { thread_id, turn_id, step },
                BtwEvent::Clock { elapsed_millis },
            ) => if elapsed_millis >= BTW_TIMEOUT_MILLIS {
                self.settles(action, uuid, thread_id@, Some(Err(BtwError::TimedOut)))
            } else {
                &&& self == BtwRun::<T, R>::Waiting { thread_id, turn_id, step: WaitStep::Read }
                &&& is_thread_read(action, uuid, thread_id@)
            },
            (
                BtwRun::Waiting { thread_id, turn_id, step },
                BtwEvent::ThreadRead(Some(turns)),
            ) => exists|outcome: Option<Result<String, BtwError>>|
                {
                    &&& #[trigger] is_wait_outcome(find_turn(turns@, turn_id@), outcome)
                    &&& if outcome is Some {
                        self.settles(action, uuid, thread_id@, outcome)
                    } else {
                        &&& self == BtwRun::<T, R>::Waiting {
                            thread_id,
                            turn_id,
                            step: WaitStep::Sleep,
                        }
                        &&& action == BtwAction::<T, R>::Sleep { millis: BTW_POLL_INTERVAL_MILLIS }
                    }
                },
            (
                BtwRun::Waiting { thread_id, turn_id, step },
                BtwEvent::ThreadRead(None),
            ) => self.settles(
                action,
                uuid,
                thread_id@,
                Some(Err(BtwError::Request(BtwRequestKind::ThreadRead))),
            ),
            (BtwRun::Waiting { thread_id, turn_id, step }, BtwEvent::Slept) => {
                &&& self == BtwRun::<T, R>::Waiting { thread_id, turn_id, step: WaitStep::Clock }
                &&& action == BtwAction::<T, R>::CheckClock
            },
            (BtwRun::Unsubscribing { result }, BtwEvent::Unsubscribed(_)) => {
                &&& self == BtwRun::<T, R>::Done
                &&& action == BtwAction::<T, R>::Finish { result }
            },
            _ => false,
        }
    }
}

/// Lets go of the forked thread, with the outcome of the side question decided.
fn settle<T, R>(thread_id: String, result: Result<String, BtwError>, uuid: u128) -> (r: (
    BtwRun<T, R>,
    BtwAction<T, R>,
))
    ensures
        r.0.settles(r.1, uuid, thread_id@, Some(result)),
{
    (BtwRun::Unsubscribing { result }, unsubscribe_thread(thread_id.as_str(), uuid))
}

/// Begins a side question: its first action is the fork.
pub fn begin_btw<T, R>(request: BtwRequest<T, R>, uuid: u128) -> (r: (
    BtwRun<T, R>,
    BtwAction<T, R>,
))
    ensures
        r.0 == (BtwRun::Forking { request }),
        is_fork(r.1, uuid, request.source_thread_id),
{
    let action = fork_btw_thread(request.source_thread_id, uuid);
    (BtwRun::Forking { request }, action)
}

/// What a side question does next, after an event. Whatever happens once the
/// thread is forked, the fork is let go of, and how that goes does not change
/// the outcome. `uuid` goes into the identifier of the next request.
pub fn run_btw<T, R>(run: BtwRun<T, R>, event: BtwEvent, uuid: u128) -> (r: (
    BtwRun<T, R>,
    BtwAction<T, R>,
))
    requires
        run.expects(event),
    ensures
        r.0.follows(r.1, run, event, uuid),
{
    match run {
        BtwRun::Forking { request } => {
            if let BtwEvent::Forked(Some(thread_id)) = event {
                let action = start_btw_turn(thread_id.as_str(), request, uuid);
                (BtwRun::Starting { thread_id }, action)
            } else {
                (
                    BtwRun::Done,
                    BtwAction::Finish { result: Err(BtwError::Request(BtwRequestKind::Fork)) },
                )
            }
        },
        BtwRun::Starting { thread_id } => {
            if let BtwEvent::TurnStarted(Some(turn_id)) = event {
                (
                    BtwRun::Waiting { thread_id, turn_id, step: WaitStep::Clock },
                    BtwAction::CheckClock,
                )
            } else {
                settle(thread_id, Err(BtwError::Request(BtwRequestKind::TurnStart)), uuid)
            }
        },
        BtwRun::Waiting { thread_id, turn_id, step: _ } => match event {
            BtwEvent::Clock { elapsed_millis } => {
                if elapsed_millis >= BTW_TIMEOUT_MILLIS {
                    settle(thread_id, Err(BtwError::TimedOut), uuid)
                } else {
                    let action = read_btw_thread(thread_id.as_str(), uuid);
                    (BtwRun::Waiting { thread_id, turn_id, step: WaitStep::Read }, action)
                }
            },
            BtwEvent::ThreadRead(Some(turns)) => {
                let outcome = wait_for_btw_answer(&turns, turn_id.as_str());
                match outcome {
                    Some(result) => settle(thread_id, result, uuid),
                    None => (
                        BtwRun::Waiting { thread_id, turn_id, step: WaitStep::Sleep },
                        BtwAction::Sleep { millis: BTW_POLL_INTERVAL_MILLIS },
                    ),
                }
            },
            BtwEvent::ThreadRead(None) => settle(
                thread_id,
                Err(BtwError::Request(BtwRequestKind::ThreadRead)),
                uuid,
            ),
            _ => (
                BtwRun::Waiting { thread_id, turn_id, step: WaitStep::Clock },
                BtwAction::CheckClock,
            ),
        },
        BtwRun::Unsubscribing { result } => (BtwRun::Done, BtwAction::Finish { result }),
        BtwRun::Done => unreached(),
    }
}

/// Begins a side question with a fresh request identifier.
pub fn start<T, R>(request: BtwRequest<T, R>) -> (r: (BtwRun<T, R>, BtwAction<T, R>))
    ensures
        r.0 == (BtwRun::Forking { request }),
        exists|uuid: u128|
            {
                &&& uuid_version(uuid) == 4
                &&& has_rfc_variant(uuid)
                &&& #[trigger] is_fork(r.1, uuid, request.source_thread_id)
            },
{
    begin_btw(request, random_uuid())
}

/// Continues a side question after an event, with a fresh request identifier.
pub fn advance<T, R>(run: BtwRun<T, R>, event: BtwEvent) -> (r: (BtwRun<T, R>, BtwAction<T, R>))
    requires
        run.expects(event),
    ensures
        exists|uuid: u128|
            {
                &&& uuid_version(uuid) == 4
                &&& has_rfc_variant(uuid)
                &&& #[trigger] r.0.follows(r.1, run, event, uuid)
            },
{
    run_btw(run, event, random_uuid())
}

/// A forked thread is held until it is let go of, once and by its own
/// identifier; nothing else is let go of, and the side question ends only
/// while it holds no thread.
pub proof fn law_forked_thread_is_released<T, R>(
    earlier: BtwRun<T, R>,
    event: BtwEvent,
    uuid: u128,
    later: BtwRun<T, R>,
    action: BtwAction<T, R>,
)
    requires
        earlier.expects(event),
        later.follows(action, earlier, event, uuid),
    ensures
        match earlier.held_thread() {
            Some(thread_id) => {
                ||| later.held_thread() == Some(thread_id) && action !is Unsubscribe && action
                    !is Finish
                ||| later is Unsubscribing && is_unsubscribe(action, uuid, thread_id)
            },
            None => {
                ||| event matches BtwEvent::Forked(Some(thread_id)) && later.held_thread() == Some(
                    thread_id@,
                ) && action is StartTurn
                ||| later is Done && action is Finish
            },
        },
{
}

/// How letting go of the thread goes does not change the outcome.
pub proof fn law_outcome_survives_unsubscribe<T, R>(
    result: Result<String, BtwError>,
    unsubscribed: bool,
    uuid: u128,
    later: BtwRun<T, R>,
    action: BtwAction<T, R>,
)
    requires
        later.follows(
            action,
            BtwRun::Unsubscribing { result },
            BtwEvent::Unsubscribed(unsubscribed),
            uuid,
        ),
    ensures
        later is Done,
        action == (BtwAction::<T, R>::Finish { result }),
{
}

/// The thread is looked at only before the time is up, and after each look that
/// decides nothing the side question sleeps and then asks for the time again.
pub proof fn law_polling_respects_the_deadline<T, R>(
    earlier: BtwRun<T, R>,
    event: BtwEvent,
    uuid: u128,
    later: BtwRun<T, R>,
    action: BtwAction<T, R>,
)
    requires
        earlier.expects(event),
        later.follows(action, earlier, event, uuid),
    ensures
        action is ReadThread ==> (event matches BtwEvent::Clock { elapsed_millis } && elapsed_millis
            < BTW_TIMEOUT_MILLIS),
        action is Sleep ==> event is ThreadRead && action == (BtwAction::<T, R>::Sleep {
            millis: BTW_POLL_INTERVAL_MILLIS,
        }),
        event is Slept ==> action == BtwAction::<T, R>::CheckClock,
        event matches BtwEvent::Clock { elapsed_millis } ==> (elapsed_millis >= BTW_TIMEOUT_MILLIS
            ==> later == (BtwRun::<T, R>::Unsubscribing { result: Err(BtwError::TimedOut) })),
{
}

/// One step of a side question: the state before it, the event, and what
/// followed.
#[verifier::reject_recursive_types(T)]
#[verifier::reject_recursive_types(R)]
pub ghost struct BtwStep<T, R> {
    pub earlier: BtwRun<T, R>,
    pub event: BtwEvent,
    pub uuid: u128,
    pub later: BtwRun<T, R>,
    pub action: BtwAction<T, R>,
}

/// The steps of a side question from its beginning, each taking up where the one
/// before it left off. The side question need not be over.
pub open spec fn is_run<T, R>(steps: Seq<BtwStep<T, R>>) -> bool {
    &&& steps.len() > 0
    &&& steps[0].earlier is Forking
    &&& forall|i: int|
        0 <= i < steps.len() ==> {
            &&& (#[trigger] steps[i]).earlier.expects(steps[i].event)
            &&& steps[i].later.follows(
                steps[i].action,
                steps[i].earlier,
                steps[i].event,
                steps[i].uuid,
            )
        }
    &&& forall|i: int|
        0 <= i < steps.len() - 1 ==> (#[trigger] steps[i]).later == steps[i + 1].earlier
}

/// The threads that were let go of.
pub open spec fn threads_released<T, R>(steps: Seq<BtwStep<T, R>>) -> Seq<Seq<char>>
    decreases steps.len(),
{
    if steps.len() == 0 {
        Seq::empty()
    } else {
        let before = threads_released(steps.drop_last());
        match steps.last().action {
            BtwAction::Unsubscribe { request_id, params } => before.push(params.thread_id@),
            _ => before,
        }
    }
}

/// The fork that a side question made, if it made one.
pub open spec fn fork_made<T, R>(steps: Seq<BtwStep<T, R>>) -> Option<Seq<char>> {
    match steps[0].event {
        BtwEvent::Forked(Some(thread_id)) => Some(thread_id@),
        _ => None,
    }
}

/// Over a whole side question the fork is let go of exactly once, after the
/// outcome is decided and before the end; where there is no fork, nothing is.
pub proof fn law_fork_is_released_once<T, R>(steps: Seq<BtwStep<T, R>>)
    requires
        is_run(steps),
    ensures
        match steps.last().later {
            BtwRun::Forking { request } => false,
            BtwRun::Starting { .. } | BtwRun::Waiting { .. } => {
                &&& steps.last().later.held_thread() == fork_made(steps)
                &&& threads_released(steps).len() == 0
            },
            BtwRun::Unsubscribing { .. } => {
                &&& fork_made(steps) is Some
                &&& threads_released(steps) == seq![fork_made(steps)->0]
            },
            BtwRun::Done => threads_released(steps) == (match fork_made(steps) {
                Some(thread_id) => seq![thread_id],
                None => Seq::empty(),
            }),
        },
    decreases steps.len(),
{
    let last = steps.last();
    let before = steps.drop_last();
    assert(steps[steps.len() - 1] == last);
    law_forked_thread_is_released(last.earlier, last.event, last.uuid, last.later, last.action);
    if steps.len() > 1 {
        assert forall|i: int| 0 <= i < before.len() implies {
            &&& (#[trigger] before[i]).earlier.expects(before[i].event)
            &&& before[i].later.follows(
                before[i].action,
                before[i].earlier,
                before[i].event,
                before[i].uuid,
            )
        } by {
            assert(before[i] == steps[i]);
        }
        assert forall|i: int| 0 <= i < before.len() - 1 implies (#[trigger] before[i]).later
            == before[i + 1].earlier by {
            assert(before[i] == steps[i]);
            assert(before[i + 1] == steps[i + 1]);
        }
        assert(before.last() == steps[steps.len() - 2]);
        law_fork_is_released_once(before);
        assert(fork_made(before) == fork_made(steps));
    } else {
        assert(threads_released(before) =~= Seq::empty());
    }
    if last.action is Unsubscribe {
        assert(threads_released(before) =~= Seq::empty());
        assert(threads_released(steps) =~= seq![fork_made(steps)->0]);
    }
}

/// The turn that is looked for is the first one with the identifier, wherever it
/// stands among however many; it is missing exactly where no turn has it.
pub proof fn law_turn_is_found_wherever_it_stands(turns: Seq<Turn>, turn_id: Seq<char>, i: int)
    ensures
        0 <= i < turns.len() && turns[i].id@ == turn_id && (forall|j: int|
            0 <= j < i ==> (#[trigger] turns[j]).id@ != turn_id) ==> find_turn(turns, turn_id)
            == Some(turns[i]),
        find_turn(turns, turn_id) is None <==> forall|j: int|
            0 <= j < turns.len() ==> (#[trigger] turns[j]).id@ != turn_id,
    decreases turns.len(),
{
    if turns.len() > 0 {
        let rest = turns.drop_first();
        law_turn_is_found_wherever_it_stands(rest, turn_id, i - 1);
        assert(turns[0] == turns.first());
        if turns.first().id@ != turn_id {
            if 0 <= i < turns.len() && turns[i].id@ == turn_id && (forall|j: int|
                0 <= j < i ==> (#[trigger] turns[j]).id@ != turn_id) {
                assert(rest[i - 1] == turns[i]);
                assert forall|j: int| 0 <= j < i - 1 implies (#[trigger] rest[j]).id@ != turn_id by {
                    assert(rest[j] == turns[j + 1]);
                }
            }
            if forall|j: int| 0 <= j < rest.len() ==> (#[trigger] rest[j]).id@ != turn_id {
                assert forall|j: int| 0 <= j < turns.len() implies (#[trigger] turns[j]).id@
                    != turn_id by {
                    if j > 0 {
                        assert(turns[j] == rest[j - 1]);
                    }
                }
            }
            if forall|j: int| 0 <= j < turns.len() ==> (#[trigger] turns[j]).id@ != turn_id {
                assert forall|j: int| 0 <= j < rest.len() implies (#[trigger] rest[j]).id@
                    != turn_id by {
                    assert(rest[j] == turns[j + 1]);
                }
            }
        }
    }
}

/// A look at the thread decides nothing while the turn is missing or in progress. A
/// completed turn decides by its answer, a failed one by its own message or else a
/// fixed one, and an interrupted one by that.
pub proof fn law_status_of_the_turn_decides(
    turn: Option<Turn>,
    outcome: Option<Result<String, BtwError>>,
)
    requires
        is_wait_outcome(turn, outcome),
    ensures
        outcome is None <==> turn is None || turn->0.status == TurnStatus::InProgress,
        turn matches Some(turn) ==> {
            &&& turn.status == TurnStatus::Completed ==> {
                &&& turn_answer(turn.items@) is Some <==> outcome->0 is Ok
                &&& outcome->0 is Ok ==> turn_answer(turn.items@) == Some(outcome->0->Ok_0@)
                &&& outcome->0 is Err ==> outcome->0->Err_0 is NoAnswer
            }
            &&& turn.status == TurnStatus::Interrupted ==> (outcome matches Some(Err(error))
                && error is Interrupted)
            &&& turn.status == TurnStatus::Failed ==> (outcome matches Some(Err(error)) && (
            error matches BtwError::Failed(message) && message@ == (if turn.error is Some {
                turn.error->0.message@
            } else {
                "The /btw side question failed."@
            })))
        },
{
}

/// Request identifiers begin with what they are for and end in their UUID.
pub proof fn law_request_identifiers(uuid: u128)
    ensures
        request_id_text(BtwRequestKind::Fork, uuid) == "btw-fork-"@ + uuid_text(uuid),
        request_id_text(BtwRequestKind::TurnStart, uuid) == "btw-turn-start-"@ + uuid_text(uuid),
        request_id_text(BtwRequestKind::ThreadRead, uuid) == "btw-thread-read-"@ + uuid_text(uuid),
        request_id_text(BtwRequestKind::Unsubscribe, uuid) == "btw-unsubscribe-"@ + uuid_text(uuid),
{
}

/// The input of a side question is the instructions, as a text without elements,
/// followed by every item that the user gave, in order.
pub proof fn law_input_holds_every_item<T>(input: Seq<TurnInput<T>>, items: Seq<T>)
    requires
        is_turn_input(input, items),
    ensures
        input.len() == 1 + items.len(),
        input[0] is Text,
        input[0]->text@
            == "Answer the user's next message as a quick side question in the context of the current thread. Do not use tools, run commands, or modify files. Give a concise direct answer in a single assistant message."@,
        input[0]->text_elements@.len() == 0,
        forall|i: int|
            1 <= i < input.len() ==> (#[trigger] input[i] matches TurnInput::Item(item) && item
                == items[i - 1]),
{
    assert forall|i: int| 1 <= i < input.len() implies (
    #[trigger] input[i] matches TurnInput::Item(item) && item == items[i - 1]) by {
        assert(input[(i - 1) + 1] == TurnInput::Item(items[i - 1]));
    }
}

/// What the first request asks for: an ephemeral fork of the thread that the user
/// is in, with the extended history.
pub proof fn law_fork_is_of_the_source<T, R>(action: BtwAction<T, R>, uuid: u128, source: ThreadId)
    requires
        is_fork(action, uuid, source),
    ensures
        action is Fork,
        action->Fork_request_id@ == "btw-fork-"@ + uuid_text(uuid),
        action->Fork_params.thread_id@ == source.text(),
        action->Fork_params.ephemeral,
        action->Fork_params.persist_extended_history,
{
}

/// The thread in which a side question is asked, by what the server said of it.
pub open spec fn thread_forked<T, R>(steps: Seq<BtwStep<T, R>>) -> Seq<char> {
    match steps[0].event {
        BtwEvent::Forked(Some(thread_id)) => thread_id@,
        _ => Seq::empty(),
    }
}

/// The turn in which a side question is asked, by what the server said of it.
pub open spec fn turn_started<T, R>(steps: Seq<BtwStep<T, R>>) -> Seq<char> {
    match steps[1].event {
        BtwEvent::TurnStarted(Some(turn_id)) => turn_id@,
        _ => Seq::empty(),
    }
}

/// How an event decides a side question whose turn has the identifier.
pub open spec fn decides(
    event: BtwEvent,
    turn_id: Seq<char>,
    result: Result<String, BtwError>,
) -> bool {
    match event {
        BtwEvent::Forked(_) => result == Err::<String, BtwError>(
            BtwError::Request(BtwRequestKind::Fork),
        ),
        BtwEvent::TurnStarted(_) => result == Err::<String, BtwError>(
            BtwError::Request(BtwRequestKind::TurnStart),
        ),
        BtwEvent::Clock { elapsed_millis } => elapsed_millis >= 300_000 && result == Err::<
            String,
            BtwError,
        >(BtwError::TimedOut),
        BtwEvent::ThreadRead(None) => result == Err::<String, BtwError>(
            BtwError::Request(BtwRequestKind::ThreadRead),
        ),
        BtwEvent::ThreadRead(Some(turns)) => is_wait_outcome(
            find_turn(turns@, turn_id),
            Some(result),
        ),
        _ => false,
    }
}

proof fn lemma_run_without_last_step<T, R>(steps: Seq<BtwStep<T, R>>)
    requires
        is_run(steps),
        steps.len() > 1,
    ensures
        is_run(steps.drop_last()),
        steps.drop_last().last() == steps[steps.len() - 2],
        steps.drop_last().last().later == steps.last().earlier,
        steps.drop_last()[0] == steps[0],
        steps.len() > 2 ==> steps.drop_last()[1] == steps[1],
{
    let before = steps.drop_last();
    assert forall|i: int| 0 <= i < before.len() implies {
        &&& (#[trigger] before[i]).earlier.expects(before[i].event)
        &&& before[i].later.follows(
            before[i].action,
            before[i].earlier,
            before[i].event,
            before[i].uuid,
        )
    } by {
        assert(before[i] == steps[i]);
    }
    assert forall|i: int| 0 <= i < before.len() - 1 implies (#[trigger] before[i]).later
        == before[i + 1].earlier by {
        assert(before[i] == steps[i]);
        assert(before[i + 1] == steps[i + 1]);
    }
    assert(before.last() == steps[steps.len() - 2]);
}

proof fn lemma_run_holds_its_thread_and_turn<T, R>(steps: Seq<BtwStep<T, R>>)
    requires
        is_run(steps),
    ensures
        match steps.last().later {
            BtwRun::Forking { request } => false,
            BtwRun::Starting { thread_id } => steps.len() == 1 && steps[0].event
                == BtwEvent::Forked(Some(thread_id)),
            BtwRun::Waiting { thread_id, turn_id, step } => {
                &&& steps.len() > 1
                &&& thread_id@ == thread_forked(steps)
                &&& turn_id@ == turn_started(steps)
            },
            BtwRun::Unsubscribing { result } => steps.len() > 1 && decides(
                steps.last().event,
                turn_started(steps),
                result,
            ),
            BtwRun::Done => true,
        },
        steps.last().earlier is Forking <==> steps.len() == 1,
        steps.len() == 2 ==> steps.last().earlier is Starting,
    decreases steps.len(),
{
    let last = steps.last();
    assert(steps[steps.len() - 1] == last);
    if steps.len() > 1 {
        lemma_run_without_last_step(steps);
        lemma_run_holds_its_thread_and_turn(steps.drop_last());
    }
}

/// Over a whole side question every request is about the fork that the server
/// made: the turn is started there with what the user asked, the thread is read
/// there before the time is up, and that thread is let go of.
pub proof fn law_requests_are_about_the_fork<T, R>(steps: Seq<BtwStep<T, R>>)
    requires
        is_run(steps),
    ensures
        match steps.last().action {
            BtwAction::Fork { .. } => false,
            BtwAction::StartTurn { request_id, params } => {
                let asked = steps[0].earlier->request;
                &&& steps.len() == 1
                &&& request_id@ == "btw-turn-start-"@ + uuid_text(steps.last().uuid)
                &&& params.thread_id@ == thread_forked(steps)
                &&& is_turn_input(params.input@, asked.items@)
                &&& params.cwd == Some(asked.cwd)
                &&& params.approvals_reviewer == Some(asked.approvals_reviewer)
                &&& params.approval_policy == Some(AskForApproval::Never)
                &&& params.sandbox_policy == Some(SandboxPolicy::ReadOnly)
                &&& params.model is None && params.service_tier is None && params.effort is None
                &&& params.summary is None && params.personality is None
                &&& params.output_schema is None && params.collaboration_mode is None
            },
            BtwAction::ReadThread { request_id, params } => {
                &&& request_id@ == "btw-thread-read-"@ + uuid_text(steps.last().uuid)
                &&& params.thread_id@ == thread_forked(steps)
                &&& params.include_turns
                &&& steps.last().event matches BtwEvent::Clock { elapsed_millis } && elapsed_millis
                    < 300_000
            },
            BtwAction::Unsubscribe { request_id, params } => {
                &&& request_id@ == "btw-unsubscribe-"@ + uuid_text(steps.last().uuid)
                &&& params.thread_id@ == thread_forked(steps)
            },
            BtwAction::Sleep { millis } => millis == 250 && (
            steps.last().event matches BtwEvent::ThreadRead(Some(turns)) && is_wait_outcome(
                find_turn(turns@, turn_started(steps)),
                None,
            )),
            BtwAction::CheckClock => steps.last().event is TurnStarted || steps.last().event is Slept,
            BtwAction::Finish { .. } => true,
        },
{
    let last = steps.last();
    assert(steps[steps.len() - 1] == last);
    lemma_run_holds_its_thread_and_turn(steps);
    if steps.len() > 1 {
        lemma_run_without_last_step(steps);
        lemma_run_holds_its_thread_and_turn(steps.drop_last());
    }
}

/// What an event leads to: a server that obliges is asked for the next thing, one
/// that refuses ends the side question, and time and status decide the rest.
pub proof fn law_events_lead_on<T, R>(steps: Seq<BtwStep<T, R>>)
    requires
        is_run(steps),
    ensures
        match steps.last().event {
            BtwEvent::Forked(reply) => if reply is Some {
                steps.last().action is StartTurn
            } else {
                steps.last().action is Finish
            },
            BtwEvent::TurnStarted(reply) => if reply is Some {
                steps.last().action is CheckClock
            } else {
                steps.last().action is Unsubscribe
            },
            BtwEvent::Clock { elapsed_millis } => if elapsed_millis >= 300_000 {
                steps.last().action is Unsubscribe
            } else {
                steps.last().action is ReadThread
            },
            BtwEvent::ThreadRead(None) => steps.last().action is Unsubscribe,
            BtwEvent::ThreadRead(Some(turns)) => match find_turn(turns@, turn_started(steps)) {
                None => steps.last().action is Sleep,
                Some(turn) => if turn.status == TurnStatus::InProgress {
                    steps.last().action is Sleep
                } else {
                    steps.last().action is Unsubscribe
                },
            },
            BtwEvent::Slept => steps.last().action is CheckClock,
            BtwEvent::Unsubscribed(_) => steps.last().action is Finish,
        },
{
    let last = steps.last();
    assert(steps[steps.len() - 1] == last);
    lemma_run_holds_its_thread_and_turn(steps);
    if steps.len() > 1 {
        lemma_run_without_last_step(steps);
        lemma_run_holds_its_thread_and_turn(steps.drop_last());
    }
}

/// A side question ends with what decided it: a refused fork at once, and anything
/// else by the event before the fork was let go of.
pub proof fn law_side_question_ends_with_what_decided_it<T, R>(steps: Seq<BtwStep<T, R>>)
    requires
        is_run(steps),
        steps.last().action is Finish,
    ensures
        steps.len() == 1 ==> steps.last().action->result == Err::<String, BtwError>(
            BtwError::Request(BtwRequestKind::Fork),
        ),
        steps.len() > 1 ==> steps.len() > 2 && decides(
            steps[steps.len() - 2].event,
            turn_started(steps),
            steps.last().action->result,
        ),
{
    let last = steps.last();
    assert(steps[steps.len() - 1] == last);
    lemma_run_holds_its_thread_and_turn(steps);
    if steps.len() > 1 {
        lemma_run_without_last_step(steps);
        let before = steps.drop_last();
        lemma_run_holds_its_thread_and_turn(before);
        assert(last.earlier is Unsubscribing);
        assert(before.len() > 1);
    }
}

/// The event answers the action.
pub open spec fn answers<T, R>(action: BtwAction<T, R>, event: BtwEvent) -> bool {
    match action {
        BtwAction::Fork { .. } => event is Forked,
        BtwAction::StartTurn { .. } => event is TurnStarted,
        BtwAction::CheckClock => event is Clock,
        BtwAction::ReadThread { .. } => event is ThreadRead,
        BtwAction::Sleep { .. } => event is Slept,
        BtwAction::Unsubscribe { .. } => event is Unsubscribed,
        BtwAction::Finish { .. } => false,
    }
}

/// After an action every event that answers it is expected, and no other.
pub proof fn law_every_answer_is_expected<T, R>(
    earlier: BtwRun<T, R>,
    event: BtwEvent,
    uuid: u128,
    later: BtwRun<T, R>,
    action: BtwAction<T, R>,
    answer: BtwEvent,
)
    requires
        earlier.expects(event),
        later.follows(action, earlier, event, uuid),
    ensures
        later.expects(answer) <==> answers(action, answer),
        earlier is Forking ==> (earlier.expects(answer) <==> answer is Forked),
{
}

} // verus!
