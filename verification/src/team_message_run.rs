//! Whole runs of sending a message to a teammate, and what holds of every one of
//! them.

use crate::team::{responds, FunctionCallError};
use crate::team_message::{
    follows, is_in_team, member_from, sender, MessagePhase, MessageTarget, RosterMember,
    TeamMessage, TeamMessageAction, TeamMessageEvent, TeamRoster,
};
use crate::thread_id::{law_text_is_injective, ThreadId};
use vstd::prelude::*;

verus! {

/// One step of a run: the state before it, the event, and what followed.
pub ghost struct MessageStep {
    pub earlier: TeamMessage,
    pub event: TeamMessageEvent,
    pub action: TeamMessageAction,
    pub later: Option<TeamMessage>,
}

impl MessageStep {
    /// The step is one that a run can take.
    pub open spec fn is_step(self) -> bool {
        &&& self.earlier.expects(self.event)
        &&& follows(self.later, self.action, self.earlier, self.event)
    }
}

/// The steps of a run from its beginning, each taking up where the one before it
/// left off. The run need not have ended.
pub open spec fn is_run(steps: Seq<MessageStep>) -> bool {
    &&& steps.len() > 0
    &&& steps[0].earlier.phase == MessagePhase::NormalizeTeamId
    &&& forall|i: int| 0 <= i < steps.len() ==> (#[trigger] steps[i]).is_step()
    &&& forall|i: int|
        0 <= i < steps.len() - 1 ==> (#[trigger] steps[i]).later == Some(steps[i + 1].earlier)
}

/// The entries that were written to an inbox.
pub open spec fn entries_written(steps: Seq<MessageStep>) -> Seq<String>
    decreases steps.len(),
{
    if steps.len() == 0 {
        Seq::empty()
    } else {
        let before = entries_written(steps.drop_last());
        match steps.last().event {
            TeamMessageEvent::InboxEntry(Ok(inbox_entry_id)) => before.push(inbox_entry_id),
            _ => before,
        }
    }
}

/// How often the message was sent.
pub open spec fn times_sent(steps: Seq<MessageStep>) -> int
    decreases steps.len(),
{
    if steps.len() == 0 {
        0
    } else {
        times_sent(steps.drop_last()) + if steps.last().action is SendInput {
            1int
        } else {
            0
        }
    }
}

/// The entries that have been written when a run has taken a step.
pub open spec fn entries_after(step: MessageStep) -> Seq<String> {
    match step.later {
        Some(later) => entries_at(later),
        None => match step.action {
            TeamMessageAction::Complete { result } => seq![result.inbox_entry_id],
            _ => Seq::empty(),
        },
    }
}

/// The entries that have been written when a run is in a state.
pub open spec fn entries_at(run: TeamMessage) -> Seq<String> {
    match run.phase {
        MessagePhase::SendInput { inbox_entry_id, .. } => seq![inbox_entry_id],
        MessagePhase::MarkDelivered { inbox_entry_id, .. } => seq![inbox_entry_id],
        _ => Seq::empty(),
    }
}

/// How many steps a run can still take.
pub open spec fn steps_ahead(run: TeamMessage) -> int {
    match run.phase {
        MessagePhase::NormalizeTeamId => 10,
        MessagePhase::ReadConfig { .. } => 9,
        MessagePhase::CheckMembership { .. } => 8,
        MessagePhase::CheckState { .. } => 7,
        MessagePhase::GetRecord { .. } => 6,
        MessagePhase::FindMember { .. } => 5,
        MessagePhase::ParseInput { .. } => 4,
        MessagePhase::AppendEntry { .. } => 3,
        MessagePhase::SendInput { .. } => 2,
        MessagePhase::MarkDelivered { .. } => 1,
    }
}

proof fn lemma_member_from(members: Seq<RosterMember>, agent: Seq<char>, i: int)
    requires
        0 <= i,
    ensures
        member_from(members, agent, i) matches Some(j) ==> i <= j < members.len()
            && members[j].agent_id@ == agent,
    decreases members.len() - i,
{
    if i < members.len() && members[i].agent_id@ != agent {
        lemma_member_from(members, agent, i + 1);
    }
}

/// A message is from the team's lead or from one of its members, and no member
/// writes to itself.
pub proof fn law_sender_is_a_teammate(run: TeamMessage)
    requires
        run.wf(),
    ensures
        run.message() matches Some(message) ==> {
            &&& is_in_team(message.roster, run.request.conversation_id)
            &&& message.target.agent_id == run.request.conversation_id
                ==> run.request.conversation_id.text() == message.roster.lead_thread_id@
        },
{
    if run.message() is Some {
        let message = run.message()->0;
        let sender = run.request.conversation_id;
        lemma_member_from(message.roster.members@, sender.text(), 0);
    }
}

/// The states of a run stay well-formed, and the request stays the same.
pub proof fn law_states_stay_well_formed(step: MessageStep)
    requires
        step.earlier.wf(),
        step.is_step(),
    ensures
        step.later matches Some(later) ==> later.wf() && later.request == step.earlier.request,
{
}

/// The receiver and the sender of a message stay the same once they are known.
pub proof fn law_address_is_kept(step: MessageStep)
    requires
        step.is_step(),
        step.earlier.message() is Some,
    ensures
        step.later matches Some(later) ==> later.message() == step.earlier.message(),
{
}

/// Every step brings the end nearer.
pub proof fn law_every_step_counts(step: MessageStep)
    requires
        step.is_step(),
    ensures
        steps_ahead(step.earlier) > 0,
        step.later matches Some(later) ==> steps_ahead(later) < steps_ahead(step.earlier),
{
}

proof fn lemma_run_without_last_step(steps: Seq<MessageStep>)
    requires
        is_run(steps),
        steps.len() > 1,
    ensures
        is_run(steps.drop_last()),
        steps.drop_last().last().later == Some(steps.last().earlier),
        steps.drop_last().last().is_step(),
        steps.drop_last()[0] == steps[0],
{
    let before = steps.drop_last();
    assert forall|i: int| 0 <= i < before.len() implies (#[trigger] before[i]).is_step() by {
        assert(before[i] == steps[i]);
    }
    assert forall|i: int| 0 <= i < before.len() - 1 implies (#[trigger] before[i]).later == Some(
        before[i + 1].earlier,
    ) by {
        assert(before[i] == steps[i]);
        assert(before[i + 1] == steps[i + 1]);
    }
    assert(before.last() == steps[steps.len() - 2]);
}

/// Every state that a run reaches is well-formed and is about the same request.
pub proof fn law_run_keeps_its_request(steps: Seq<MessageStep>)
    requires
        is_run(steps),
    ensures
        steps.last().earlier.wf(),
        steps.last().earlier.request == steps[0].earlier.request,
    decreases steps.len(),
{
    if steps.len() > 1 {
        lemma_run_without_last_step(steps);
        let before = steps.drop_last();
        law_run_keeps_its_request(before);
        law_states_stay_well_formed(before.last());
    }
}

/// A call is over after at most ten steps.
pub proof fn law_run_is_bounded(steps: Seq<MessageStep>)
    requires
        is_run(steps),
    ensures
        steps.len() <= 10,
{
    lemma_steps_ahead_of_run(steps);
    assert(steps[steps.len() - 1].is_step());
    law_every_step_counts(steps.last());
}

proof fn lemma_steps_ahead_of_run(steps: Seq<MessageStep>)
    requires
        is_run(steps),
    ensures
        steps_ahead(steps.last().earlier) + steps.len() <= 11,
    decreases steps.len(),
{
    if steps.len() > 1 {
        lemma_run_without_last_step(steps);
        let before = steps.drop_last();
        lemma_steps_ahead_of_run(before);
        law_every_step_counts(before.last());
    }
}

/// A message is sent only after its entry was written to the inbox, and neither
/// happens more than once. A refused call has written and sent nothing; a complete
/// one reports the entry that it wrote.
pub proof fn law_entry_comes_before_delivery(steps: Seq<MessageStep>)
    requires
        is_run(steps),
    ensures
        entries_written(steps) == entries_after(steps.last()),
        times_sent(steps) == entries_written(steps).len(),
        times_sent(steps) <= 1,
    decreases steps.len(),
{
    let last = steps.last();
    let before = steps.drop_last();
    assert(steps[steps.len() - 1].is_step());
    if steps.len() > 1 {
        lemma_run_without_last_step(steps);
        law_entry_comes_before_delivery(before);
    } else {
        assert(times_sent(before) == 0);
    }
    assert(entries_written(before) == entries_at(last.earlier));
    match last.event {
        TeamMessageEvent::InboxEntry(Ok(inbox_entry_id)) => {
            assert(entries_written(steps) =~= seq![inbox_entry_id]);
        },
        _ => {},
    }
}

/// A result says that the message was delivered exactly where sending it
/// succeeded, with the submission, and else the error. That the entry could not
/// be marked as delivered changes nothing.
pub proof fn law_result_tells_how_delivery_went(step: MessageStep)
    requires
        step.earlier.wf(),
        step.is_step(),
        step.action is Complete,
    ensures
        step.later is None,
        step.action->result.delivered == (step.earlier.phase is MarkDelivered),
        step.action->result.delivered == (step.action->result.error is None),
        step.earlier.phase matches MessagePhase::MarkDelivered { submission_id, .. }
            ==> step.action->result.submission_id@ == submission_id@,
        step.event matches TeamMessageEvent::Delivery(Err(error)) ==> step.action->result.error
            == Some(error) && step.action->result.submission_id@.len() == 0,
        step.earlier.message() matches Some(message) && step.action->result.agent_id@
            == message.target.agent_id.text(),
{
}

/// Whom a message comes from: the lead under a name of its own, a member under the
/// name of the first entry with its agent. A member is refused who writes to
/// itself, and so is everyone else.
pub proof fn law_sender_is_named_by_the_roster(
    roster: TeamRoster,
    team_id: Seq<char>,
    from: ThreadId,
    to: ThreadId,
    i: int,
)
    ensures
        from.text() == roster.lead_thread_id@ ==> sender(roster, team_id, from, to) == Ok::<
            Seq<char>,
            Seq<char>,
        >("lead"@),
        from.text() != roster.lead_thread_id@ && 0 <= i < roster.members@.len()
            && roster.members@[i].agent_id@ == from.text() && (forall|j: int|
            0 <= j < i ==> (#[trigger] roster.members@[j]).agent_id@ != from.text()) ==> sender(
            roster,
            team_id,
            from,
            to,
        ) == (if to == from {
            Err::<Seq<char>, Seq<char>>("team_message must target another teammate"@)
        } else {
            Ok::<Seq<char>, Seq<char>>(roster.members@[i].name@)
        }),
        from.text() != roster.lead_thread_id@ && (forall|j: int|
            0 <= j < roster.members@.len() ==> (#[trigger] roster.members@[j]).agent_id@
                != from.text()) ==> sender(roster, team_id, from, to) == Err::<
            Seq<char>,
            Seq<char>,
        >("thread `"@ + from.text() + "` is not a member of team `"@ + team_id + "`"@),
{
    lemma_first_member(roster.members@, from.text(), 0, i);
    if to.text() == from.text() {
        law_text_is_injective(to, from);
    }
}

proof fn lemma_first_member(members: Seq<RosterMember>, agent: Seq<char>, from: int, i: int)
    requires
        0 <= from,
    ensures
        from <= i < members.len() && members[i].agent_id@ == agent && (forall|j: int|
            from <= j < i ==> (#[trigger] members[j]).agent_id@ != agent) ==> member_from(
            members,
            agent,
            from,
        ) == Some(i),
        (forall|j: int| from <= j < members.len() ==> (#[trigger] members[j]).agent_id@ != agent)
            ==> member_from(members, agent, from) is None,
    decreases members.len() - from,
{
    if from < members.len() && members[from].agent_id@ != agent {
        lemma_first_member(members, agent, from + 1, i);
    }
}

/// The team, by what came of settling its identifier.
pub open spec fn team_heard(steps: Seq<MessageStep>) -> String {
    steps[0].event->TeamId_0->Ok_0
}

/// Who is in the team, by what its configuration said.
pub open spec fn roster_heard(steps: Seq<MessageStep>) -> TeamRoster {
    steps[1].event->Config_0->Ok_0
}

/// The member that was found under the name.
pub open spec fn target_heard(steps: Seq<MessageStep>) -> MessageTarget {
    steps[5].event->Member_0->Ok_0
}

/// The preview of what was parsed.
pub open spec fn prompt_heard(steps: Seq<MessageStep>) -> String {
    steps[6].event->Input_0->Ok_0
}

/// The entry that was written.
pub open spec fn entry_heard(steps: Seq<MessageStep>) -> String {
    steps[7].event->InboxEntry_0->Ok_0
}

/// The events of a run come in one order, each after the success of the one before.
pub open spec fn is_in_course(steps: Seq<MessageStep>, n: int) -> bool {
    &&& n >= 1 ==> (steps[0].event matches TeamMessageEvent::TeamId(Ok(_)))
    &&& n >= 2 ==> (steps[1].event matches TeamMessageEvent::Config(Ok(_)))
    &&& n >= 3 ==> (steps[2].event matches TeamMessageEvent::Outcome(Ok(_)))
    &&& n >= 4 ==> (steps[3].event matches TeamMessageEvent::Outcome(Ok(_)))
    &&& n >= 5 ==> (steps[4].event matches TeamMessageEvent::Outcome(Ok(_)))
    &&& n >= 6 ==> (steps[5].event matches TeamMessageEvent::Member(Ok(_)))
    &&& n >= 7 ==> (steps[6].event matches TeamMessageEvent::Input(Ok(_)))
    &&& n >= 8 ==> (steps[7].event matches TeamMessageEvent::InboxEntry(Ok(_)))
    &&& n >= 9 ==> (steps[8].event matches TeamMessageEvent::Delivery(Ok(_)))
}

/// The state after `n` steps holds what was heard in them.
pub open spec fn holds_what_was_heard(run: TeamMessage, steps: Seq<MessageStep>, n: int) -> bool {
    &&& match run.phase {
        MessagePhase::NormalizeTeamId => n == 0,
        MessagePhase::ReadConfig { team_id } => n == 1 && team_id == team_heard(steps),
        MessagePhase::CheckMembership { team_id, roster } => n == 2 && team_id == team_heard(steps)
            && roster == roster_heard(steps),
        MessagePhase::CheckState { team_id, roster } => n == 3 && team_id == team_heard(steps)
            && roster == roster_heard(steps),
        MessagePhase::GetRecord { team_id, roster } => n == 4 && team_id == team_heard(steps)
            && roster == roster_heard(steps),
        MessagePhase::FindMember { team_id, roster } => n == 5 && team_id == team_heard(steps)
            && roster == roster_heard(steps),
        MessagePhase::ParseInput { message } => n == 6,
        MessagePhase::AppendEntry { message, prompt } => n == 7 && prompt == prompt_heard(steps),
        MessagePhase::SendInput { message, inbox_entry_id } => n == 8 && inbox_entry_id
            == entry_heard(steps),
        MessagePhase::MarkDelivered { message, inbox_entry_id, submission_id } => n == 9
            && inbox_entry_id == entry_heard(steps) && submission_id
            == steps[8].event->Delivery_0->Ok_0,
    }
    &&& run.message() matches Some(message) ==> {
        &&& message.team_id == team_heard(steps)
        &&& message.roster == roster_heard(steps)
        &&& message.target == target_heard(steps)
    }
}

proof fn lemma_state_holds_what_was_heard(steps: Seq<MessageStep>)
    requires
        is_run(steps),
    ensures
        steps.last().later matches Some(later) ==> holds_what_was_heard(
            later,
            steps,
            steps.len() as int,
        ) && is_in_course(steps, steps.len() as int),
        holds_what_was_heard(steps.last().earlier, steps, steps.len() - 1),
        is_in_course(steps, steps.len() - 1),
        steps.last().earlier.wf(),
        steps.last().earlier.request == steps[0].earlier.request,
    decreases steps.len(),
{
    let last = steps.last();
    assert(steps[steps.len() - 1].is_step());
    law_run_keeps_its_request(steps);
    if steps.len() > 1 {
        lemma_run_without_last_step(steps);
        let before = steps.drop_last();
        lemma_state_holds_what_was_heard(before);
        let n = before.len() as int;
        assert(forall|i: int| 0 <= i < n ==> #[trigger] before[i] == steps[i]);
        if n > 0 {
            assert(before[0] == steps[0]);
        }
        if n > 1 {
            assert(before[1] == steps[1]);
        }
        if n > 2 {
            assert(before[2] == steps[2]);
        }
        if n > 3 {
            assert(before[3] == steps[3]);
        }
        if n > 4 {
            assert(before[4] == steps[4]);
        }
        if n > 5 {
            assert(before[5] == steps[5]);
        }
        if n > 6 {
            assert(before[6] == steps[6]);
        }
        if n > 7 {
            assert(before[7] == steps[7]);
        }
        if n > 8 {
            assert(before[8] == steps[8]);
        }
    }
}

/// Over every run what is done next is about what was asked and what was heard: the
/// team that was settled, the member that was found, the text that was parsed, the
/// entry that was written, and the request's own call, name and wish to interrupt.
pub proof fn law_actions_are_about_what_was_heard(steps: Seq<MessageStep>)
    requires
        is_run(steps),
    ensures
        ({
            let request = steps[0].earlier.request;
            match steps.last().action {
                TeamMessageAction::NormalizeTeamId { .. } => false,
                TeamMessageAction::ReadTeamConfig { team_id } => team_id == team_heard(steps),
                TeamMessageAction::CheckMembership { team_id } => team_id == team_heard(steps),
                TeamMessageAction::CheckState { team_id } => team_id == team_heard(steps),
                TeamMessageAction::GetTeamRecord { team_id } => team_id == team_heard(steps),
                TeamMessageAction::FindMember { team_id, member_name } => team_id == team_heard(
                    steps,
                ) && member_name == request.member_name,
                TeamMessageAction::ParseInput => true,
                TeamMessageAction::AppendInboxEntry {
                    team_id,
                    receiver,
                    sender: from,
                    sender_name,
                    prompt,
                } => {
                    &&& team_id == team_heard(steps)
                    &&& receiver == target_heard(steps).agent_id
                    &&& from == request.conversation_id
                    &&& sender(
                        roster_heard(steps),
                        team_heard(steps)@,
                        request.conversation_id,
                        target_heard(steps).agent_id,
                    ) == Ok::<Seq<char>, Seq<char>>(sender_name@)
                    &&& prompt == prompt_heard(steps)
                },
                TeamMessageAction::SendInput { call_id, receiver, prompt, interrupt } => {
                    &&& call_id == request.call_id
                    &&& receiver == target_heard(steps).agent_id
                    &&& prompt == prompt_heard(steps)
                    &&& interrupt == request.interrupt
                },
                TeamMessageAction::MarkDelivered { team_id, receiver, inbox_entry_id } => {
                    &&& team_id == team_heard(steps)
                    &&& receiver == target_heard(steps).agent_id
                    &&& inbox_entry_id == entry_heard(steps)
                },
                TeamMessageAction::Refuse { .. } => true,
                TeamMessageAction::Complete { result } => {
                    &&& result.team_id == team_heard(steps)
                    &&& result.member_name == target_heard(steps).name
                    &&& result.agent_id@ == target_heard(steps).agent_id.text()
                    &&& result.inbox_entry_id == entry_heard(steps)
                    &&& match steps[8].event->Delivery_0 {
                        Ok(submission_id) => {
                            &&& result.delivered
                            &&& result.submission_id@ == submission_id@
                            &&& result.error is None
                        },
                        Err(error) => {
                            &&& !result.delivered
                            &&& result.submission_id@.len() == 0
                            &&& result.error == Some(error)
                        },
                    }
                },
            }
        }),
{
    assert(steps[steps.len() - 1].is_step());
    lemma_state_holds_what_was_heard(steps);
}

/// The error that an event brings, if it brings one that stops the message.
pub open spec fn error_heard(event: TeamMessageEvent) -> Option<FunctionCallError> {
    match event {
        TeamMessageEvent::TeamId(Err(error)) => Some(error),
        TeamMessageEvent::Config(Err(error)) => Some(error),
        TeamMessageEvent::Outcome(Err(error)) => Some(error),
        TeamMessageEvent::Member(Err(error)) => Some(error),
        TeamMessageEvent::Input(Err(error)) => Some(error),
        TeamMessageEvent::InboxEntry(Err(error)) => Some(error),
        _ => None,
    }
}

/// A run takes its steps in one order. An error on the way to the delivery ends it
/// with that very error, and a sender who may not write ends it with the reason;
/// every success leads to the next step, and the last one to a result.
pub proof fn law_message_takes_its_course(steps: Seq<MessageStep>)
    requires
        is_run(steps),
    ensures
        ({
            let n = steps.len() as int;
            let event = steps.last().event;
            let action = steps.last().action;
            if n < 10 && error_heard(event) is Some {
                action == (TeamMessageAction::Refuse { error: error_heard(event)->0 })
            } else if n == 1 {
                action is ReadTeamConfig
            } else if n == 2 {
                action is CheckMembership
            } else if n == 3 {
                action is CheckState
            } else if n == 4 {
                action is GetTeamRecord
            } else if n == 5 {
                action is FindMember
            } else if n == 6 {
                match sender(
                    roster_heard(steps),
                    team_heard(steps)@,
                    steps[0].earlier.request.conversation_id,
                    target_heard(steps).agent_id,
                ) {
                    Ok(_) => action is ParseInput,
                    Err(text) => action is Refuse && responds(action->error, text),
                }
            } else if n == 7 {
                action is AppendInboxEntry
            } else if n == 8 {
                action is SendInput
            } else if n == 9 {
                if event matches TeamMessageEvent::Delivery(Ok(_)) {
                    action is MarkDelivered
                } else {
                    action is Complete
                }
            } else {
                n == 10 && action is Complete
            }
        }),
        steps.last().later is None <==> steps.last().action is Refuse
            || steps.last().action is Complete,
{
    assert(steps[steps.len() - 1].is_step());
    lemma_state_holds_what_was_heard(steps);
}

/// The event answers the action.
pub open spec fn answers(action: TeamMessageAction, event: TeamMessageEvent) -> bool {
    match action {
        TeamMessageAction::NormalizeTeamId { .. } => event is TeamId,
        TeamMessageAction::ReadTeamConfig { .. } => event is Config,
        TeamMessageAction::CheckMembership { .. } => event is Outcome,
        TeamMessageAction::CheckState { .. } => event is Outcome,
        TeamMessageAction::GetTeamRecord { .. } => event is Outcome,
        TeamMessageAction::FindMember { .. } => event is Member,
        TeamMessageAction::ParseInput => event is Input,
        TeamMessageAction::AppendInboxEntry { .. } => event is InboxEntry,
        TeamMessageAction::SendInput { .. } => event is Delivery,
        TeamMessageAction::MarkDelivered { .. } => event is Outcome,
        TeamMessageAction::Refuse { .. } => false,
        TeamMessageAction::Complete { .. } => false,
    }
}

/// After an action every event that answers it is expected, and no other.
pub proof fn law_every_answer_is_expected(step: MessageStep, answer: TeamMessageEvent)
    requires
        step.is_step(),
    ensures
        step.later matches Some(later) ==> (later.expects(answer) <==> answers(
            step.action,
            answer,
        )),
        step.earlier.phase is NormalizeTeamId ==> (step.earlier.expects(answer) <==> answer is TeamId),
{
}

} // verus!
