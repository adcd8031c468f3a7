//! A message from one member of a team to another: the checks, who the sender
//! is, the entry in the receiver's inbox, and the delivery.
//!
//! Everything that reaches outside (files, threads) is left to the caller:
//! [`handle`] says what to do next, and is told how it went.

use crate::team::{enclose, enclosed, responds, FunctionCallError};
use crate::thread_id::ThreadId;
use vstd::pervasive::unreached;
use vstd::prelude::*;
use vstd::string::StringExecFns;

verus! {

/// A message that is to be sent.
#[derive(Debug)]
pub struct TeamMessageRequest {
    pub conversation_id: ThreadId,
    pub call_id: String,
    pub team_id: String,
    pub member_name: String,
    pub interrupt: bool,
}

/// A member as the team's configuration names it: the agent by its text.
#[derive(Debug)]
pub struct RosterMember {
    pub name: String,
    pub agent_id: String,
}

/// Who is in a team.
#[derive(Debug)]
pub struct TeamRoster {
    pub lead_thread_id: String,
    pub members: Vec<RosterMember>,
}

/// The member that the message is for.
#[derive(Debug)]
pub struct MessageTarget {
    pub name: String,
    pub agent_id: ThreadId,
}

/// A message of which the receiver and the sender are known.
#[derive(Debug)]
pub struct AddressedMessage {
    pub team_id: String,
    pub roster: TeamRoster,
    pub target: MessageTarget,
    pub sender_name: String,
}

/// What the run waits for.
#[derive(Debug)]
pub enum MessagePhase {
    NormalizeTeamId,
    ReadConfig { team_id: String },
    CheckMembership { team_id: String, roster: TeamRoster },
    CheckState { team_id: String, roster: TeamRoster },
    GetRecord { team_id: String, roster: TeamRoster },
    FindMember { team_id: String, roster: TeamRoster },
    ParseInput { message: AddressedMessage },
    AppendEntry { message: AddressedMessage, prompt: String },
    SendInput { message: AddressedMessage, inbox_entry_id: String },
    MarkDelivered { message: AddressedMessage, inbox_entry_id: String, submission_id: String },
}

/// A run that sends a message.
#[derive(Debug)]
pub struct TeamMessage {
    pub request: TeamMessageRequest,
    pub phase: MessagePhase,
}

/// How it went.
#[derive(Debug)]
pub enum TeamMessageEvent {
    TeamId(Result<String, FunctionCallError>),
    Config(Result<TeamRoster, FunctionCallError>),
    Outcome(Result<(), FunctionCallError>),
    Member(Result<MessageTarget, FunctionCallError>),
    /// A preview of what is sent.
    Input(Result<String, FunctionCallError>),
    InboxEntry(Result<String, FunctionCallError>),
    /// The submission, or the text of the error.
    Delivery(Result<String, String>),
}

/// The result of the call.
#[derive(Debug, PartialEq, Eq)]
pub struct TeamMessageResult {
    pub team_id: String,
    pub member_name: String,
    pub agent_id: String,
    pub submission_id: String,
    pub delivered: bool,
    pub inbox_entry_id: String,
    pub error: Option<String>,
}

/// What to do next.
#[derive(Debug)]
pub enum TeamMessageAction {
    NormalizeTeamId { team_id: String },
    ReadTeamConfig { team_id: String },
    CheckMembership { team_id: String },
    CheckState { team_id: String },
    GetTeamRecord { team_id: String },
    FindMember { team_id: String, member_name: String },
    ParseInput,
    AppendInboxEntry {
        team_id: String,
        receiver: ThreadId,
        sender: ThreadId,
        sender_name: String,
        prompt: String,
    },
    SendInput { call_id: String, receiver: ThreadId, prompt: String, interrupt: bool },
    MarkDelivered { team_id: String, receiver: ThreadId, inbox_entry_id: String },
    /// Ends the call with an error.
    Refuse { error: FunctionCallError },
    /// Ends the call with its result.
    Complete { result: TeamMessageResult },
}

/// The place of the first member from the `i`-th on whose agent has the text.
pub open spec fn member_from(members: Seq<RosterMember>, agent: Seq<char>, i: int) -> Option<int>
    decreases members.len() - i,
{
    if i < 0 || i >= members.len() {
        None
    } else if members[i].agent_id@ == agent {
        Some(i)
    } else {
        member_from(members, agent, i + 1)
    }
}

/// Whom a message comes from, or why it may not be sent. The lead may write to
/// anyone; a member may write to anyone else.
pub open spec fn sender(
    roster: TeamRoster,
    team_id: Seq<char>,
    sender: ThreadId,
    target: ThreadId,
) -> Result<Seq<char>, Seq<char>> {
    if sender.text() == roster.lead_thread_id@ {
        Ok("lead"@)
    } else {
        match member_from(roster.members@, sender.text(), 0) {
            None => Err(
                enclosed("thread `"@, sender.text(), "` is not a member of team `"@) + team_id + "`"@,
            ),
            Some(i) => if target.text() == roster.members@[i].agent_id@ {
                Err("team_message must target another teammate"@)
            } else {
                Ok(roster.members@[i].name@)
            },
        }
    }
}

/// The thread is in the team.
pub open spec fn is_in_team(roster: TeamRoster, thread: ThreadId) -> bool {
    ||| thread.text() == roster.lead_thread_id@
    ||| exists|i: int|
        0 <= i < roster.members@.len() && (#[trigger] roster.members@[i]).agent_id@ == thread.text()
}

impl AddressedMessage {
    /// The sender may write to the receiver.
    pub open spec fn is_allowed(self, request: TeamMessageRequest) -> bool {
        sender(self.roster, self.team_id@, request.conversation_id, self.target.agent_id) == Ok::<
            Seq<char>,
            Seq<char>,
        >(self.sender_name@)
    }
}

impl TeamMessage {
    /// The message that the run is about, once the sender is known.
    pub open spec fn message(self) -> Option<AddressedMessage> {
        match self.phase {
            MessagePhase::ParseInput { message } => Some(message),
            MessagePhase::AppendEntry { message, .. } => Some(message),
            MessagePhase::SendInput { message, .. } => Some(message),
            MessagePhase::MarkDelivered { message, .. } => Some(message),
            _ => None,
        }
    }

    /// The run is in a state that it can be in.
    pub open spec fn wf(self) -> bool {
        self.message() matches Some(message) ==> message.is_allowed(self.request)
    }

    /// The events that can follow the action that was last given out.
    pub open spec fn expects(self, event: TeamMessageEvent) -> bool {
        match self.phase {
            MessagePhase::NormalizeTeamId => event is TeamId,
            MessagePhase::ReadConfig { .. } => event is Config,
            MessagePhase::CheckMembership { .. } => event is Outcome,
            MessagePhase::CheckState { .. } => event is Outcome,
            MessagePhase::GetRecord { .. } => event is Outcome,
            MessagePhase::FindMember { .. } => event is Member,
            MessagePhase::ParseInput { .. } => event is Input,
            MessagePhase::AppendEntry { .. } => event is InboxEntry,
            MessagePhase::SendInput { .. } => event is Delivery,
            MessagePhase::MarkDelivered { .. } => event is Outcome,
        }
    }

    /// Whether an event can follow the action that was last given out.
    pub fn accepts(&self, event: &TeamMessageEvent) -> (r: bool)
        ensures
            r == self.expects(*event),
    {
        match (&self.phase, event) {
            (MessagePhase::NormalizeTeamId, TeamMessageEvent::TeamId(_)) => true,
            (MessagePhase::ReadConfig { .. }, TeamMessageEvent::Config(_)) => true,
            (MessagePhase::CheckMembership { .. }, TeamMessageEvent::Outcome(_)) => true,
            (MessagePhase::CheckState { .. }, TeamMessageEvent::Outcome(_)) => true,
            (MessagePhase::GetRecord { .. }, TeamMessageEvent::Outcome(_)) => true,
            (MessagePhase::FindMember { .. }, TeamMessageEvent::Member(_)) => true,
            (MessagePhase::ParseInput { .. }, TeamMessageEvent::Input(_)) => true,
            (MessagePhase::AppendEntry { .. }, TeamMessageEvent::InboxEntry(_)) => true,
            (MessagePhase::SendInput { .. }, TeamMessageEvent::Delivery(_)) => true,
            (MessagePhase::MarkDelivered { .. }, TeamMessageEvent::Outcome(_)) => true,
            _ => false,
        }
    }
}

/// The run goes on in another phase.
pub open spec fn goes_on(
    later: Option<TeamMessage>,
    request: TeamMessageRequest,
    phase: MessagePhase,
) -> bool {
    later == Some(TeamMessage { request, phase })
}

/// The call ends with an error.
pub open spec fn refuses(
    later: Option<TeamMessage>,
    action: TeamMessageAction,
    error: FunctionCallError,
) -> bool {
    later is None && action == (TeamMessageAction::Refuse { error })
}

/// The receiver is known, and with it whether the sender may write to it.
pub open spec fn addresses(
    later: Option<TeamMessage>,
    action: TeamMessageAction,
    request: TeamMessageRequest,
    team_id: String,
    roster: TeamRoster,
    target: MessageTarget,
) -> bool {
    match sender(roster, team_id@, request.conversation_id, target.agent_id) {
        Err(text) => later is None && (action matches TeamMessageAction::Refuse { error }
            && responds(error, text)),
        Ok(name) => {
            &&& later matches Some(run) && run.request == request && (run.phase matches MessagePhase::ParseInput {
                message,
            } && message == (AddressedMessage {
                team_id,
                roster,
                target,
                sender_name: message.sender_name,
            }) && message.sender_name@ == name)
            &&& action == TeamMessageAction::ParseInput
        },
    }
}

/// The result of a message, delivered or not.
pub open spec fn is_result(
    result: TeamMessageResult,
    message: AddressedMessage,
    inbox_entry_id: String,
    delivery: Result<Seq<char>, String>,
) -> bool {
    &&& result.team_id == message.team_id
    &&& result.member_name == message.target.name
    &&& result.agent_id@ == message.target.agent_id.text()
    &&& result.inbox_entry_id == inbox_entry_id
    &&& match delivery {
        Ok(submission_id) => {
            &&& result.delivered
            &&& result.submission_id@ == submission_id
            &&& result.error is None
        },
        Err(error) => {
            &&& !result.delivered
            &&& result.submission_id@.len() == 0
            &&& result.error == Some(error)
        },
    }
}

/// The call ends with the result of a message.
pub open spec fn completes(
    later: Option<TeamMessage>,
    action: TeamMessageAction,
    message: AddressedMessage,
    inbox_entry_id: String,
    delivery: Result<Seq<char>, String>,
) -> bool {
    later is None && (action matches TeamMessageAction::Complete { result } && is_result(
        result,
        message,
        inbox_entry_id,
        delivery,
    ))
}

/// `later` and `action` are what follows `earlier` on an event.
pub open spec fn follows(
    later: Option<TeamMessage>,
    action: TeamMessageAction,
    earlier: TeamMessage,
    event: TeamMessageEvent,
) -> bool {
    let request = earlier.request;
    match (earlier.phase, event) {
        (MessagePhase::NormalizeTeamId, TeamMessageEvent::TeamId(Err(error))) => refuses(
            later,
            action,
            error,
        ),
        (MessagePhase::NormalizeTeamId, TeamMessageEvent::TeamId(Ok(team_id))) => goes_on(
            later,
            request,
            MessagePhase::ReadConfig { team_id },
        ) && action == (TeamMessageAction::ReadTeamConfig { team_id }),
        (MessagePhase::ReadConfig { team_id }, TeamMessageEvent::Config(Err(error))) => refuses(
            later,
            action,
            error,
        ),
        (MessagePhase::ReadConfig { team_id }, TeamMessageEvent::Config(Ok(roster))) => goes_on(
            later,
            request,
            MessagePhase::CheckMembership { team_id, roster },
        ) && action == (TeamMessageAction::CheckMembership { team_id }),
        (
            MessagePhase::CheckMembership { team_id, roster },
            TeamMessageEvent::Outcome(Err(error)),
        ) => refuses(later, action, error),
        (
            MessagePhase::CheckMembership { team_id, roster },
            TeamMessageEvent::Outcome(Ok(_)),
        ) => goes_on(later, request, MessagePhase::CheckState { team_id, roster }) && action == (
        TeamMessageAction::CheckState { team_id }),
        (
            MessagePhase::CheckState { team_id, roster },
            TeamMessageEvent::Outcome(Err(error)),
        ) => refuses(later, action, error),
        (
            MessagePhase::CheckState { team_id, roster },
            TeamMessageEvent::Outcome(Ok(_)),
        ) => goes_on(later, request, MessagePhase::GetRecord { team_id, roster }) && action == (
        TeamMessageAction::GetTeamRecord { team_id }),
        (
            MessagePhase::GetRecord { team_id, roster },
            TeamMessageEvent::Outcome(Err(error)),
        ) => refuses(later, action, error),
        (
            MessagePhase::GetRecord { team_id, roster },
            TeamMessageEvent::Outcome(Ok(_)),
        ) => goes_on(later, request, MessagePhase::FindMember { team_id, roster }) && action == (
        TeamMessageAction::FindMember { team_id, member_name: request.member_name }),
        (
            MessagePhase::FindMember { team_id, roster },
            TeamMessageEvent::Member(Err(error)),
        ) => refuses(later, action, error),
        (
            MessagePhase::FindMember { team_id, roster },
            TeamMessageEvent::Member(Ok(target)),
        ) => addresses(later, action, request, team_id, roster, target),
        (MessagePhase::ParseInput { message }, TeamMessageEvent::Input(Err(error))) => refuses(
            later,
            action,
            error,
        ),
        (MessagePhase::ParseInput { message }, TeamMessageEvent::Input(Ok(prompt))) => goes_on(
            later,
            request,
            MessagePhase::AppendEntry { message, prompt },
        ) && action == (TeamMessageAction::AppendInboxEntry {
            team_id: message.team_id,
            receiver: message.target.agent_id,
            sender: request.conversation_id,
            sender_name: message.sender_name,
            prompt,
        }),
        (
            MessagePhase::AppendEntry { message, prompt },
            TeamMessageEvent::InboxEntry(Err(error)),
        ) => refuses(later, action, error),
        (
            MessagePhase::AppendEntry { message, prompt },
            TeamMessageEvent::InboxEntry(Ok(inbox_entry_id)),
        ) => goes_on(later, request, MessagePhase::SendInput { message, inbox_entry_id }) && action
            == (TeamMessageAction::SendInput {
            call_id: request.call_id,
            receiver: message.target.agent_id,
            prompt,
            interrupt: request.interrupt,
        }),
        (
            MessagePhase::SendInput { message, inbox_entry_id },
            TeamMessageEvent::Delivery(Ok(submission_id)),
        ) => goes_on(
            later,
            request,
            MessagePhase::MarkDelivered { message, inbox_entry_id, submission_id },
        ) && action == (TeamMessageAction::MarkDelivered {
            team_id: message.team_id,
            receiver: message.target.agent_id,
            inbox_entry_id,
        }),
        (
            MessagePhase::SendInput { message, inbox_entry_id },
            TeamMessageEvent::Delivery(Err(error)),
        ) => completes(later, action, message, inbox_entry_id, Err(error)),
        (
            MessagePhase::MarkDelivered { message, inbox_entry_id, submission_id },
            TeamMessageEvent::Outcome(_),
        ) => completes(later, action, message, inbox_entry_id, Ok(submission_id@)),
        _ => false,
    }
}

fn go_on(request: TeamMessageRequest, phase: MessagePhase, action: TeamMessageAction) -> (r: (
    Option<TeamMessage>,
    TeamMessageAction,
))
    ensures
        goes_on(r.0, request, phase),
        r.1 == action,
{
    (Some(TeamMessage { request, phase }), action)
}

fn refuse(error: FunctionCallError) -> (r: (Option<TeamMessage>, TeamMessageAction))
    ensures
        refuses(r.0, r.1, error),
{
    (None, TeamMessageAction::Refuse { error })
}

/// Finds the first member whose agent has the text.
fn find_member(members: &Vec<RosterMember>, agent: &String) -> (r: Option<usize>)
    ensures
        match r {
            Some(i) => member_from(members@, agent@, 0) == Some(i as int) && i < members@.len(),
            None => member_from(members@, agent@, 0) is None,
        },
{
    for i in 0..members.len()
        invariant
            member_from(members@, agent@, 0) == member_from(members@, agent@, i as int),
    {
        if members[i].agent_id == *agent {
            return Some(i);
        }
    }
    None
}

/// Says whom a message comes from, or why it may not be sent.
pub fn sender_name(
    roster: &TeamRoster,
    team_id: &String,
    conversation_id: ThreadId,
    target: ThreadId,
) -> (r: Result<String, FunctionCallError>)
    ensures
        match sender(*roster, team_id@, conversation_id, target) {
            Ok(name) => r matches Ok(text) && text@ == name,
            Err(text) => r matches Err(error) && responds(error, text),
        },
{
    let sender_thread_id = conversation_id.to_string();
    if sender_thread_id == roster.lead_thread_id {
        return Ok("lead".to_string());
    }
    match find_member(&roster.members, &sender_thread_id) {
        None => {
            let text = enclose(
                "thread `",
                sender_thread_id.as_str(),
                "` is not a member of team `",
            ).concat(team_id.as_str()).concat("`");
            Err(FunctionCallError::RespondToModel(text))
        },
        Some(i) => {
            if target.to_string() == roster.members[i].agent_id {
                Err(
                    FunctionCallError::RespondToModel(
                        "team_message must target another teammate".to_string(),
                    ),
                )
            } else {
                Ok(roster.members[i].name.clone())
            }
        },
    }
}

/// Makes the result of a message that was delivered or not.
pub fn team_message_result(
    message: AddressedMessage,
    inbox_entry_id: String,
    delivery: Result<String, String>,
) -> (r: TeamMessageResult)
    ensures
        is_result(
            r,
            message,
            inbox_entry_id,
            match delivery {
                Ok(submission_id) => Ok(submission_id@),
                Err(error) => Err(error),
            },
        ),
{
    let (delivered, submission_id, error) = match delivery {
        Ok(submission_id) => (true, submission_id, None),
        Err(error) => (false, String::new(), Some(error)),
    };
    TeamMessageResult {
        team_id: message.team_id,
        member_name: message.target.name,
        agent_id: message.target.agent_id.to_string(),
        submission_id,
        delivered,
        inbox_entry_id,
        error,
    }
}

/// Begins to send a message: the first action settles the team's identifier.
pub fn begin(request: TeamMessageRequest) -> (r: (TeamMessage, TeamMessageAction))
    ensures
        r.0 == (TeamMessage { request, phase: MessagePhase::NormalizeTeamId }),
        r.0.wf(),
        r.1 == (TeamMessageAction::NormalizeTeamId { team_id: request.team_id }),
{
    let action = TeamMessageAction::NormalizeTeamId { team_id: request.team_id.clone() };
    (TeamMessage { request, phase: MessagePhase::NormalizeTeamId }, action)
}

fn address(
    request: TeamMessageRequest,
    team_id: String,
    roster: TeamRoster,
    target: MessageTarget,
) -> (r: (Option<TeamMessage>, TeamMessageAction))
    ensures
        addresses(r.0, r.1, request, team_id, roster, target),
        r.0 matches Some(run) ==> run.wf(),
{
    match sender_name(&roster, &team_id, request.conversation_id, target.agent_id) {
        Err(error) => refuse(error),
        Ok(sender_name) => {
            let message = AddressedMessage { team_id, roster, target, sender_name };
            go_on(request, MessagePhase::ParseInput { message }, TeamMessageAction::ParseInput)
        },
    }
}

/// What the run does next, after an event. Without a next state the call is
/// over.
pub fn handle(run: TeamMessage, event: TeamMessageEvent) -> (r: (
    Option<TeamMessage>,
    TeamMessageAction,
))
    requires
        run.wf(),
        run.expects(event),
    ensures
        follows(r.0, r.1, run, event),
        r.0 matches Some(later) ==> later.wf(),
        r.1 matches TeamMessageAction::SendInput { call_id, receiver, prompt, interrupt } ==> {
            &&& interrupt == run.request.interrupt
            &&& call_id == run.request.call_id
            &&& Some(receiver) == (match run.message() {
                Some(message) => Some(message.target.agent_id),
                None => None,
            })
        },
{
    let TeamMessage { request, phase } = run;
    match (phase, event) {
        (MessagePhase::NormalizeTeamId, TeamMessageEvent::TeamId(Err(error))) => refuse(error),
        (MessagePhase::NormalizeTeamId, TeamMessageEvent::TeamId(Ok(team_id))) => {
            let action = TeamMessageAction::ReadTeamConfig { team_id: team_id.clone() };
            go_on(request, MessagePhase::ReadConfig { team_id }, action)
        },
        (MessagePhase::ReadConfig { team_id: _ }, TeamMessageEvent::Config(Err(error))) => refuse(
            error,
        ),
        (MessagePhase::ReadConfig { team_id }, TeamMessageEvent::Config(Ok(roster))) => {
            let action = TeamMessageAction::CheckMembership { team_id: team_id.clone() };
            go_on(request, MessagePhase::CheckMembership { team_id, roster }, action)
        },
        (
            MessagePhase::CheckMembership { team_id, roster },
            TeamMessageEvent::Outcome(outcome),
        ) => match outcome {
            Err(error) => refuse(error),
            Ok(_) => {
                let action = TeamMessageAction::CheckState { team_id: team_id.clone() };
                go_on(request, MessagePhase::CheckState { team_id, roster }, action)
            },
        },
        (
            MessagePhase::CheckState { team_id, roster },
            TeamMessageEvent::Outcome(outcome),
        ) => match outcome {
            Err(error) => refuse(error),
            Ok(_) => {
                let action = TeamMessageAction::GetTeamRecord { team_id: team_id.clone() };
                go_on(request, MessagePhase::GetRecord { team_id, roster }, action)
            },
        },
        (
            MessagePhase::GetRecord { team_id, roster },
            TeamMessageEvent::Outcome(outcome),
        ) => match outcome {
            Err(error) => refuse(error),
            Ok(_) => {
                let action = TeamMessageAction::FindMember {
                    team_id: team_id.clone(),
                    member_name: request.member_name.clone(),
                };
                go_on(request, MessagePhase::FindMember { team_id, roster }, action)
            },
        },
        (
            MessagePhase::FindMember { team_id, roster },
            TeamMessageEvent::Member(found),
        ) => match found {
            Err(error) => refuse(error),
            Ok(target) => address(request, team_id, roster, target),
        },
        (MessagePhase::ParseInput { message }, TeamMessageEvent::Input(input)) => match input {
            Err(error) => refuse(error),
            Ok(prompt) => {
                let action = TeamMessageAction::AppendInboxEntry {
                    team_id: message.team_id.clone(),
                    receiver: message.target.agent_id,
                    sender: request.conversation_id,
                    sender_name: message.sender_name.clone(),
                    prompt: prompt.clone(),
                };
                go_on(request, MessagePhase::AppendEntry { message, prompt }, action)
            },
        },
        (
            MessagePhase::AppendEntry { message, prompt },
            TeamMessageEvent::InboxEntry(entry),
        ) => match entry {
            Err(error) => refuse(error),
            Ok(inbox_entry_id) => {
                let action = TeamMessageAction::SendInput {
                    call_id: request.call_id.clone(),
                    receiver: message.target.agent_id,
                    prompt,
                    interrupt: request.interrupt,
                };
                go_on(request, MessagePhase::SendInput { message, inbox_entry_id }, action)
            },
        },
        (
            MessagePhase::SendInput { message, inbox_entry_id },
            TeamMessageEvent::Delivery(delivery),
        ) => match delivery {
            Err(error) => {
                let result = team_message_result(message, inbox_entry_id, Err(error));
                (None, TeamMessageAction::Complete { result })
            },
            Ok(submission_id) => {
                let action = TeamMessageAction::MarkDelivered {
                    team_id: message.team_id.clone(),
                    receiver: message.target.agent_id,
                    inbox_entry_id: inbox_entry_id.clone(),
                };
                go_on(
                    request,
                    MessagePhase::MarkDelivered { message, inbox_entry_id, submission_id },
                    action,
                )
            },
        },
        (
            MessagePhase::MarkDelivered { message, inbox_entry_id, submission_id },
            TeamMessageEvent::Outcome(_),
        ) => {
            let result = team_message_result(message, inbox_entry_id, Ok(submission_id));
            (None, TeamMessageAction::Complete { result })
        },
        _ => unreached(),
    }
}

/// The error for a result that could not be written down.
pub fn serialization_error(reason: &str) -> (r: FunctionCallError)
    ensures
        r matches FunctionCallError::Fatal(message) && message@ == enclosed(
            "failed to serialize team_message result: "@,
            reason@,
            Seq::empty(),
        ),
{
    let message = "failed to serialize team_message result: ".to_string().concat(reason);
    proof {
        assert(message@ =~= enclosed(
            "failed to serialize team_message result: "@,
            reason@,
            Seq::empty(),
        ));
    }
    FunctionCallError::Fatal(message)
}

} // verus!
