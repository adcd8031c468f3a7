//! A message from one member of a team to another.

use agent_collab::team::FunctionCallError;
use agent_collab::team_message::{
    begin, handle, sender_name, serialization_error, MessageTarget, RosterMember, TeamMessage,
    TeamMessageAction, TeamMessageEvent, TeamMessageRequest, TeamMessageResult, TeamRoster,
};
use agent_collab::thread_id::ThreadId;

const LEAD: ThreadId = ThreadId { value: 1 };
const ANN: ThreadId = ThreadId { value: 2 };
const BOB: ThreadId = ThreadId { value: 3 };

fn roster() -> TeamRoster {
    let member = |name: &str, id: ThreadId| RosterMember {
        name: name.to_string(),
        agent_id: id.to_string(),
    };
    TeamRoster {
        lead_thread_id: LEAD.to_string(),
        members: vec![member("ann", ANN), member("bob", BOB), member("shadow", ANN)],
    }
}

fn request(from: ThreadId) -> TeamMessageRequest {
    TeamMessageRequest {
        conversation_id: from,
        call_id: "call".to_string(),
        team_id: " Team ".to_string(),
        member_name: "bob".to_string(),
        interrupt: true,
    }
}

fn respond(text: &str) -> FunctionCallError {
    FunctionCallError::RespondToModel(text.to_string())
}

fn step(run: TeamMessage, event: TeamMessageEvent) -> (TeamMessage, TeamMessageAction) {
    assert!(run.accepts(&event));
    let (run, action) = handle(run, event);
    (run.expect("the run goes on"), action)
}

fn refused(run: TeamMessage, event: TeamMessageEvent) -> FunctionCallError {
    assert!(run.accepts(&event));
    match handle(run, event) {
        (None, TeamMessageAction::Refuse { error }) => error,
        other => panic!("{other:?}"),
    }
}

fn completed(run: TeamMessage, event: TeamMessageEvent) -> TeamMessageResult {
    assert!(run.accepts(&event));
    match handle(run, event) {
        (None, TeamMessageAction::Complete { result }) => result,
        other => panic!("{other:?}"),
    }
}

fn normalizing(from: ThreadId) -> TeamMessage {
    begin(request(from)).0
}

fn reading(from: ThreadId) -> TeamMessage {
    step(normalizing(from), TeamMessageEvent::TeamId(Ok("team".to_string()))).0
}

fn checking_membership(from: ThreadId) -> TeamMessage {
    step(reading(from), TeamMessageEvent::Config(Ok(roster()))).0
}

fn checking_state(from: ThreadId) -> TeamMessage {
    step(checking_membership(from), TeamMessageEvent::Outcome(Ok(()))).0
}

fn getting_record(from: ThreadId) -> TeamMessage {
    step(checking_state(from), TeamMessageEvent::Outcome(Ok(()))).0
}

fn finding(from: ThreadId) -> TeamMessage {
    step(getting_record(from), TeamMessageEvent::Outcome(Ok(()))).0
}

fn target(name: &str, agent_id: ThreadId) -> TeamMessageEvent {
    TeamMessageEvent::Member(Ok(MessageTarget { name: name.to_string(), agent_id }))
}

fn parsing(from: ThreadId) -> TeamMessage {
    step(finding(from), target("bob", BOB)).0
}

fn appending(from: ThreadId) -> TeamMessage {
    step(parsing(from), TeamMessageEvent::Input(Ok("hello".to_string()))).0
}

fn sending(from: ThreadId) -> TeamMessage {
    step(appending(from), TeamMessageEvent::InboxEntry(Ok("entry".to_string()))).0
}

#[test]
fn a_message_from_the_lead_is_delivered() {
    let (run, action) = begin(request(LEAD));
    assert!(matches!(action, TeamMessageAction::NormalizeTeamId { team_id } if team_id == " Team "));
    let (run, action) = step(run, TeamMessageEvent::TeamId(Ok("team".to_string())));
    assert!(matches!(action, TeamMessageAction::ReadTeamConfig { team_id } if team_id == "team"));
    let (run, action) = step(run, TeamMessageEvent::Config(Ok(roster())));
    assert!(matches!(action, TeamMessageAction::CheckMembership { team_id } if team_id == "team"));
    let (run, action) = step(run, TeamMessageEvent::Outcome(Ok(())));
    assert!(matches!(action, TeamMessageAction::CheckState { team_id } if team_id == "team"));
    let (run, action) = step(run, TeamMessageEvent::Outcome(Ok(())));
    assert!(matches!(action, TeamMessageAction::GetTeamRecord { team_id } if team_id == "team"));
    let (run, action) = step(run, TeamMessageEvent::Outcome(Ok(())));
    match action {
        TeamMessageAction::FindMember { team_id, member_name } => {
            assert_eq!((team_id.as_str(), member_name.as_str()), ("team", "bob"));
        }
        other => panic!("{other:?}"),
    }
    let (run, action) = step(run, target("bob", BOB));
    assert!(matches!(action, TeamMessageAction::ParseInput));
    let (run, action) = step(run, TeamMessageEvent::Input(Ok("hello".to_string())));
    match action {
        TeamMessageAction::AppendInboxEntry { team_id, receiver, sender, sender_name, prompt } => {
            assert_eq!((team_id.as_str(), receiver, sender), ("team", BOB, LEAD));
            assert_eq!((sender_name.as_str(), prompt.as_str()), ("lead", "hello"));
        }
        other => panic!("{other:?}"),
    }
    let (run, action) = step(run, TeamMessageEvent::InboxEntry(Ok("entry".to_string())));
    match action {
        TeamMessageAction::SendInput { call_id, receiver, prompt, interrupt } => {
            assert_eq!((call_id.as_str(), receiver), ("call", BOB));
            assert_eq!((prompt.as_str(), interrupt), ("hello", true));
        }
        other => panic!("{other:?}"),
    }
    let (run, action) = step(run, TeamMessageEvent::Delivery(Ok("sub".to_string())));
    match action {
        TeamMessageAction::MarkDelivered { team_id, receiver, inbox_entry_id } => {
            assert_eq!((team_id.as_str(), receiver), ("team", BOB));
            assert_eq!(inbox_entry_id, "entry");
        }
        other => panic!("{other:?}"),
    }
    let result = completed(run, TeamMessageEvent::Outcome(Err(respond("unmarked"))));
    assert_eq!(
        result,
        TeamMessageResult {
            team_id: "team".to_string(),
            member_name: "bob".to_string(),
            agent_id: BOB.to_string(),
            submission_id: "sub".to_string(),
            delivered: true,
            inbox_entry_id: "entry".to_string(),
            error: None,
        }
    );
}

#[test]
fn a_message_that_cannot_be_sent_keeps_its_entry() {
    let result = completed(sending(ANN), TeamMessageEvent::Delivery(Err("gone".to_string())));
    assert_eq!(
        result,
        TeamMessageResult {
            team_id: "team".to_string(),
            member_name: "bob".to_string(),
            agent_id: BOB.to_string(),
            submission_id: String::new(),
            delivered: false,
            inbox_entry_id: "entry".to_string(),
            error: Some("gone".to_string()),
        }
    );
}

#[test]
fn every_check_can_refuse_a_message() {
    let no = || Err(respond("no"));
    assert_eq!(refused(normalizing(ANN), TeamMessageEvent::TeamId(Err(respond("no")))), respond("no"));
    assert_eq!(refused(reading(ANN), TeamMessageEvent::Config(Err(respond("no")))), respond("no"));
    assert_eq!(refused(checking_membership(ANN), TeamMessageEvent::Outcome(no())), respond("no"));
    assert_eq!(refused(checking_state(ANN), TeamMessageEvent::Outcome(no())), respond("no"));
    assert_eq!(refused(getting_record(ANN), TeamMessageEvent::Outcome(no())), respond("no"));
    assert_eq!(refused(finding(ANN), TeamMessageEvent::Member(Err(respond("no")))), respond("no"));
    assert_eq!(refused(parsing(ANN), TeamMessageEvent::Input(Err(respond("no")))), respond("no"));
    assert_eq!(
        refused(appending(ANN), TeamMessageEvent::InboxEntry(Err(respond("no")))),
        respond("no")
    );
}

#[test]
fn only_teammates_write_and_not_to_themselves() {
    assert_eq!(
        refused(finding(BOB), target("bob", BOB)),
        respond("team_message must target another teammate")
    );
    let stranger = ThreadId { value: 0xf };
    assert_eq!(
        refused(finding(stranger), target("bob", BOB)),
        respond("thread `00000000-0000-0000-0000-00000000000f` is not a member of team `team`")
    );
    let team_id = "team".to_string();
    assert_eq!(sender_name(&roster(), &team_id, LEAD, LEAD), Ok("lead".to_string()));
    assert_eq!(sender_name(&roster(), &team_id, ANN, BOB), Ok("ann".to_string()));
    assert_eq!(sender_name(&roster(), &team_id, BOB, LEAD), Ok("bob".to_string()));
}

#[test]
fn message_events_out_of_turn_are_not_accepted() {
    assert!(!normalizing(ANN).accepts(&TeamMessageEvent::Outcome(Ok(()))));
    assert!(!sending(ANN).accepts(&TeamMessageEvent::InboxEntry(Ok(String::new()))));
}

#[test]
fn a_message_result_that_cannot_be_written_is_fatal() {
    assert_eq!(
        serialization_error("why"),
        FunctionCallError::Fatal("failed to serialize team_message result: why".to_string())
    );
}
