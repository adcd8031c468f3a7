//! The transcript of collaborating agents: what is shown of each event.

use crate::agent::{
    contains_thread, in_text_order, law_text_order_list_exists, lists_in_text_order, AgentStatus,
    CollabAgentRef, CollabAgentStatusEntry, StatusMap,
};
use crate::line::{
    colored, dimmed, emboldened, group_line_views, line_of, line_text, line_views, plain,
    prefix_lines, prefixed_lines, span_of, span_views, Color, Line, LineView, PlainHistoryCell,
    Span, SpanView, Style,
};
use crate::picker::{bracket, bracketed, item_name};
use crate::text::{
    collapse_white_space, decimal, format_decimal, is_blank, joined, law_trimmed_empty_iff_blank,
    non_blank, option_str_view, option_view, starts_with, trim, trim_non_empty, trimmed,
    truncate_text, truncated, words,
};
use crate::thread_id::{law_text_order_is_value_order, ThreadId};
use vstd::prelude::*;
use vstd::string::StringExecFns;

verus! {

pub const COLLAB_PROMPT_PREVIEW_GRAPHEMES: usize = 160;

pub const COLLAB_AGENT_ERROR_PREVIEW_GRAPHEMES: usize = 160;

pub const COLLAB_AGENT_RESPONSE_PREVIEW_GRAPHEMES: usize = 240;

pub const TEAM_SPAWN_CALL_PREFIX: &'static str = "team/spawn:";

pub const TEAM_WAIT_CALL_PREFIX: &'static str = "team/wait:";

pub const TEAM_CLOSE_CALL_PREFIX: &'static str = "team/close:";

/// The team operation that a call belongs to.
#[derive(Debug, Clone, Copy, PartialEq, Eq, Structural)]
pub enum TeamCallKind {
    Spawn,
    Wait,
    Close,
}

/// What an agent is shown by.
#[derive(Clone, Copy)]
pub struct AgentLabel<'a> {
    pub thread_id: Option<ThreadId>,
    pub nickname: Option<&'a str>,
    pub role: Option<&'a str>,
}

/// An attempt to spawn an agent has ended.
#[derive(Debug)]
pub struct CollabAgentSpawnEndEvent {
    pub call_id: String,
    pub sender_thread_id: ThreadId,
    pub new_thread_id: Option<ThreadId>,
    pub new_agent_nickname: Option<String>,
    pub new_agent_role: Option<String>,
    pub prompt: String,
    pub status: AgentStatus,
}

/// Input has been sent to an agent.
#[derive(Debug)]
pub struct CollabAgentInteractionEndEvent {
    pub call_id: String,
    pub sender_thread_id: ThreadId,
    pub receiver_thread_id: ThreadId,
    pub receiver_agent_nickname: Option<String>,
    pub receiver_agent_role: Option<String>,
    pub prompt: String,
    pub status: AgentStatus,
}

/// A wait for agents begins.
#[derive(Debug)]
pub struct CollabWaitingBeginEvent {
    pub sender_thread_id: ThreadId,
    pub receiver_thread_ids: Vec<ThreadId>,
    pub receiver_agents: Vec<CollabAgentRef>,
    pub call_id: String,
}

/// A wait for agents has ended.
#[derive(Debug)]
pub struct CollabWaitingEndEvent {
    pub sender_thread_id: ThreadId,
    pub call_id: String,
    pub agent_statuses: Vec<CollabAgentStatusEntry>,
    pub statuses: StatusMap,
    pub failure_reason: Option<String>,
}

/// An agent has been closed.
#[derive(Debug)]
pub struct CollabCloseEndEvent {
    pub call_id: String,
    pub sender_thread_id: ThreadId,
    pub receiver_thread_id: ThreadId,
    pub receiver_agent_nickname: Option<String>,
    pub receiver_agent_role: Option<String>,
    pub status: AgentStatus,
}

/// An agent is about to be resumed.
#[derive(Debug)]
pub struct CollabResumeBeginEvent {
    pub call_id: String,
    pub sender_thread_id: ThreadId,
    pub receiver_thread_id: ThreadId,
    pub receiver_agent_nickname: Option<String>,
    pub receiver_agent_role: Option<String>,
}

/// An attempt to resume an agent has ended.
#[derive(Debug)]
pub struct CollabResumeEndEvent {
    pub call_id: String,
    pub sender_thread_id: ThreadId,
    pub receiver_thread_id: ThreadId,
    pub receiver_agent_nickname: Option<String>,
    pub receiver_agent_role: Option<String>,
    pub status: AgentStatus,
}

/// The text that call identifiers of a team operation begin with.
pub open spec fn call_prefix(kind: TeamCallKind) -> Seq<char> {
    match kind {
        TeamCallKind::Spawn => TEAM_SPAWN_CALL_PREFIX@,
        TeamCallKind::Wait => TEAM_WAIT_CALL_PREFIX@,
        TeamCallKind::Close => TEAM_CLOSE_CALL_PREFIX@,
    }
}

/// The spans that show an agent: the nickname or else the identifier, then the
/// role in brackets.
pub open spec fn label_spans(
    thread_id: Option<ThreadId>,
    nickname: Option<Seq<char>>,
    role: Option<Seq<char>>,
) -> Seq<SpanView> {
    let name = match non_blank(nickname) {
        Some(nickname) => span_of(nickname, Style { bold: true, ..colored(Color::Cyan) }),
        None => match thread_id {
            Some(id) => span_of(id.text(), colored(Color::Cyan)),
            None => span_of("agent"@, colored(Color::Cyan)),
        },
    };
    match non_blank(role) {
        Some(role) => seq![name, span_of(" "@, dimmed()), span_of(bracketed(role), plain())],
        None => seq![name],
    }
}

impl<'a> AgentLabel<'a> {
    /// The spans that show the agent.
    pub open spec fn spans(self) -> Seq<SpanView> {
        label_spans(self.thread_id, option_str_view(self.nickname), option_str_view(self.role))
    }
}

impl CollabAgentRef {
    /// The spans that show the agent.
    pub open spec fn spans(self) -> Seq<SpanView> {
        label_spans(
            Some(self.thread_id),
            option_view(self.agent_nickname),
            option_view(self.agent_role),
        )
    }
}

/// The title line of an event.
pub open spec fn title_line(spans: Seq<SpanView>) -> LineView {
    line_of(seq![span_of("• "@, dimmed())] + spans)
}

/// A title of plain words.
pub open spec fn text_title(title: Seq<char>) -> LineView {
    title_line(seq![span_of(title, emboldened())])
}

/// A title that ends in an agent.
pub open spec fn agent_title(prefix: Seq<char>, agent: Seq<SpanView>) -> LineView {
    title_line(seq![span_of(prefix + seq![' '], emboldened())] + agent)
}

/// An event: the title, and the details beneath it.
pub open spec fn event_lines(title: LineView, details: Seq<LineView>) -> Seq<LineView> {
    seq![title] + prefixed_lines(details, span_of("  └ "@, dimmed()), span_of("    "@, plain()))
}

/// The detail line of a prompt. A blank prompt has none.
pub open spec fn prompt_lines(prompt: Seq<char>) -> Seq<LineView> {
    if trimmed(prompt).len() == 0 {
        Seq::empty()
    } else {
        seq![
            line_of(
                seq![
                    span_of(
                        truncated(trimmed(prompt), COLLAB_PROMPT_PREVIEW_GRAPHEMES as nat),
                        plain(),
                    ),
                ],
            ),
        ]
    }
}

/// A text on one line, limited to a number of grapheme clusters.
pub open spec fn preview(text: Seq<char>, max_graphemes: nat) -> Seq<char> {
    truncated(joined(words(text), seq![' ']), max_graphemes)
}

/// What follows the word for a status: the preview, where there is one.
pub open spec fn preview_spans(preview: Seq<char>) -> Seq<SpanView> {
    if preview.len() == 0 {
        Seq::empty()
    } else {
        seq![span_of(" - "@, dimmed()), span_of(preview, plain())]
    }
}

/// The spans that show a status.
pub open spec fn status_spans(status: AgentStatus) -> Seq<SpanView> {
    match status {
        AgentStatus::PendingInit => seq![span_of("Pending init"@, colored(Color::Cyan))],
        AgentStatus::Running => seq![
            span_of("Running"@, Style { bold: true, ..colored(Color::Cyan) }),
        ],
        AgentStatus::Completed(message) => seq![span_of("Completed"@, colored(Color::Green))] + (
        match message {
            Some(message) => preview_spans(
                preview(message@, COLLAB_AGENT_RESPONSE_PREVIEW_GRAPHEMES as nat),
            ),
            None => Seq::empty(),
        }),
        AgentStatus::Errored(error) => seq![span_of("Error"@, colored(Color::Red))]
            + preview_spans(preview(error@, COLLAB_AGENT_ERROR_PREVIEW_GRAPHEMES as nat)),
        AgentStatus::Shutdown => seq![span_of("Shutdown"@, plain())],
        AgentStatus::NotFound => seq![span_of("Not found"@, colored(Color::Red))],
    }
}

/// The threads of a list, in their order, that are neither known already nor
/// stand earlier in the list.
pub open spec fn new_threads(ids: Seq<ThreadId>, known: Set<ThreadId>) -> Seq<ThreadId>
    decreases ids.len(),
{
    if ids.len() == 0 {
        Seq::empty()
    } else {
        let before = new_threads(ids.drop_last(), known);
        if known.contains(ids.last()) || ids.drop_last().contains(ids.last()) {
            before
        } else {
            before.push(ids.last())
        }
    }
}

/// The threads of some agents.
pub open spec fn threads_of(agents: Seq<CollabAgentRef>) -> Seq<ThreadId> {
    agents.map_values(|agent: CollabAgentRef| agent.thread_id)
}

/// Agents of which only the threads are known.
pub open spec fn anonymous_agents(ids: Seq<ThreadId>) -> Seq<CollabAgentRef> {
    ids.map_values(|id: ThreadId| CollabAgentRef::anonymous(id))
}

/// The agents that are waited for: those that are described, then the other
/// threads.
pub open spec fn wait_receivers(ids: Seq<ThreadId>, agents: Seq<CollabAgentRef>) -> Seq<
    CollabAgentRef,
> {
    if agents.len() == 0 {
        anonymous_agents(ids)
    } else {
        agents + anonymous_agents(new_threads(ids, threads_of(agents).to_set()))
    }
}

/// One line for each agent.
pub open spec fn agent_lines(agents: Seq<CollabAgentRef>) -> Seq<LineView> {
    agents.map_values(|agent: CollabAgentRef| line_of(agent.spans()))
}

/// The title of a wait that begins.
pub open spec fn waiting_title(kind: Option<TeamCallKind>, agents: Seq<CollabAgentRef>) -> LineView {
    match kind {
        Some(TeamCallKind::Spawn) => text_title("Creating agent team"@),
        Some(TeamCallKind::Wait) => text_title("Waiting for agent team"@),
        Some(TeamCallKind::Close) => text_title("Closing agent team"@),
        None => if agents.len() == 0 {
            text_title("Waiting for agents"@)
        } else if agents.len() == 1 {
            agent_title("Waiting for"@, agents[0].spans())
        } else {
            text_title("Waiting for "@ + decimal(agents.len()) + " agents"@)
        },
    }
}

/// The details of a wait that begins. A single agent stands in the title.
pub open spec fn waiting_details(kind: Option<TeamCallKind>, agents: Seq<CollabAgentRef>) -> Seq<
    LineView,
> {
    if kind is None && agents.len() <= 1 {
        Seq::empty()
    } else {
        agent_lines(agents)
    }
}

/// The title of a wait that has ended.
pub open spec fn finished_title(kind: Option<TeamCallKind>, failed: bool) -> Seq<char> {
    match (kind, failed) {
        (Some(TeamCallKind::Spawn), false) => "Created agent team"@,
        (Some(TeamCallKind::Spawn), true) => "Agent team creation failed"@,
        (Some(TeamCallKind::Wait), false) => "Finished waiting for agent team"@,
        (Some(TeamCallKind::Wait), true) => "Agent team wait failed"@,
        (Some(TeamCallKind::Close), false) => "Closed agent team"@,
        (Some(TeamCallKind::Close), true) => "Agent team close failed"@,
        (None, false) => "Finished waiting"@,
        (None, true) => "Wait failed"@,
    }
}

/// The threads of some entries.
pub open spec fn entry_threads(entries: Seq<CollabAgentStatusEntry>) -> Seq<ThreadId> {
    entries.map_values(|entry: CollabAgentStatusEntry| entry.thread_id)
}

/// The statuses that no entry describes, in the order of the identifiers' texts.
pub open spec fn undescribed_entries(
    statuses: Map<ThreadId, AgentStatus>,
    entries: Seq<CollabAgentStatusEntry>,
) -> Seq<CollabAgentStatusEntry> {
    in_text_order(statuses.dom().difference(entry_threads(entries).to_set())).map_values(
        |id: ThreadId| CollabAgentStatusEntry::anonymous(id, statuses[id]),
    )
}

/// The line of an agent with its status.
pub open spec fn status_entry_line(entry: CollabAgentStatusEntry) -> LineView {
    line_of(
        label_spans(
            Some(entry.thread_id),
            option_view(entry.agent_nickname),
            option_view(entry.agent_role),
        ) + seq![span_of(": "@, dimmed())] + status_spans(entry.status),
    )
}

/// The lines of a wait's outcome: the described agents, then the other statuses.
pub open spec fn outcome_lines(
    statuses: Map<ThreadId, AgentStatus>,
    entries: Seq<CollabAgentStatusEntry>,
) -> Seq<LineView> {
    if statuses.dom().is_empty() && entries.len() == 0 {
        seq![line_of(seq![span_of("No agents completed yet"@, plain())])]
    } else {
        (entries + undescribed_entries(statuses, entries)).map_values(
            |entry: CollabAgentStatusEntry| status_entry_line(entry),
        )
    }
}

/// The line that tells why a wait failed.
pub open spec fn reason_line(reason: Seq<char>) -> LineView {
    line_of(
        seq![
            span_of("Failure: "@, colored(Color::Red)),
            span_of(truncated(reason, COLLAB_AGENT_ERROR_PREVIEW_GRAPHEMES as nat), plain()),
        ],
    )
}

/// The team operation whose prefix a call identifier has.
pub open spec fn call_kind(call_id: Seq<char>) -> Option<TeamCallKind> {
    if call_prefix(TeamCallKind::Spawn).is_prefix_of(call_id) {
        Some(TeamCallKind::Spawn)
    } else if call_prefix(TeamCallKind::Wait).is_prefix_of(call_id) {
        Some(TeamCallKind::Wait)
    } else if call_prefix(TeamCallKind::Close).is_prefix_of(call_id) {
        Some(TeamCallKind::Close)
    } else {
        None
    }
}

/// The team operation that a call belongs to, by the prefix of its identifier.
pub fn team_call_kind(call_id: &str) -> (r: Option<TeamCallKind>)
    ensures
        r == call_kind(call_id@),
{
    if starts_with(call_id, TEAM_SPAWN_CALL_PREFIX) {
        Some(TeamCallKind::Spawn)
    } else if starts_with(call_id, TEAM_WAIT_CALL_PREFIX) {
        Some(TeamCallKind::Wait)
    } else if starts_with(call_id, TEAM_CLOSE_CALL_PREFIX) {
        Some(TeamCallKind::Close)
    } else {
        None
    }
}

/// The call identifier under which the events of a team operation are sent.
pub fn prefixed_team_call_id(kind: TeamCallKind, call_id: &str) -> (r: String)
    ensures
        r@ == call_prefix(kind) + call_id@,
{
    let prefix = match kind {
        TeamCallKind::Spawn => TEAM_SPAWN_CALL_PREFIX,
        TeamCallKind::Wait => TEAM_WAIT_CALL_PREFIX,
        TeamCallKind::Close => TEAM_CLOSE_CALL_PREFIX,
    };
    prefix.to_string().concat(call_id)
}

/// The kind of a team call can be read from its identifier, whatever the
/// identifier of the call was before.
pub proof fn law_prefixed_call_has_its_kind(kind: TeamCallKind, call_id: Seq<char>)
    ensures
        call_kind(call_prefix(kind) + call_id) == Some(kind),
{
    reveal_strlit("team/spawn:");
    reveal_strlit("team/wait:");
    reveal_strlit("team/close:");
    let id = call_prefix(kind) + call_id;
    assert(call_prefix(kind) =~= id.subrange(0, call_prefix(kind).len() as int));
    assert(TEAM_SPAWN_CALL_PREFIX@[5] == 's');
    assert(TEAM_WAIT_CALL_PREFIX@[5] == 'w');
    assert(TEAM_CLOSE_CALL_PREFIX@[5] == 'c');
    assert(id[5] == call_prefix(kind)[5]);
    assert forall|other: TeamCallKind| #[trigger] call_prefix(other).is_prefix_of(id) implies other
        == kind by {
        assert(call_prefix(other)[5] == id.subrange(0, call_prefix(other).len() as int)[5]);
    }
}

/// The label of a described agent.
pub fn agent_label_from_ref<'a>(agent: &'a CollabAgentRef) -> (r: AgentLabel<'a>)
    ensures
        r.thread_id == Some(agent.thread_id),
        option_str_view(r.nickname) == option_view(agent.agent_nickname),
        option_str_view(r.role) == option_view(agent.agent_role),
        r.spans() == agent.spans(),
{
    AgentLabel {
        thread_id: Some(agent.thread_id),
        nickname: as_deref(&agent.agent_nickname),
        role: as_deref(&agent.agent_role),
    }
}

/// An optional string as an optional slice.
pub fn as_deref<'a>(value: &'a Option<String>) -> (r: Option<&'a str>)
    ensures
        option_str_view(r) == option_view(*value),
{
    match value {
        Some(text) => Some(text.as_str()),
        None => None,
    }
}

/// The spans that show an agent.
pub fn agent_label_spans(agent: AgentLabel) -> (r: Vec<Span>)
    ensures
        span_views(r@) == agent.spans(),
{
    let mut spans: Vec<Span> = Vec::new();
    let nickname = trim_non_empty(agent.nickname);
    let role = trim_non_empty(agent.role);
    if let Some(nickname) = nickname {
        spans.push(Span::text(nickname).fg(Color::Cyan).bold());
    } else if let Some(thread_id) = agent.thread_id {
        spans.push(Span::raw(thread_id.to_string()).fg(Color::Cyan));
    } else {
        spans.push(Span::text("agent").fg(Color::Cyan));
    }
    if let Some(role) = role {
        spans.push(Span::text(" ").dim());
        spans.push(Span::raw(bracket(role)));
    }
    proof {
        assert(span_views(spans@) =~= agent.spans());
    }
    spans
}

/// The line that shows an agent.
pub fn agent_label_line(agent: AgentLabel) -> (r: Line)
    ensures
        r@ == line_of(agent.spans()),
{
    Line::new(agent_label_spans(agent))
}

/// One line for each agent.
pub fn team_agent_details(receiver_agents: &Vec<CollabAgentRef>) -> (r: Vec<Line>)
    ensures
        line_views(r@) == agent_lines(receiver_agents@),
{
    let mut lines: Vec<Line> = Vec::new();
    for i in 0..receiver_agents.len()
        invariant
            line_views(lines@) == agent_lines(receiver_agents@).take(i as int),
    {
        lines.push(agent_label_line(agent_label_from_ref(&receiver_agents[i])));
        proof {
            broadcast use group_line_views;

            assert(agent_lines(receiver_agents@).take(i + 1) =~= agent_lines(
                receiver_agents@,
            ).take(i as int).push(line_of(receiver_agents@[i as int].spans())));
        }
    }
    proof {
        assert(agent_lines(receiver_agents@).take(receiver_agents@.len() as int) =~= agent_lines(
            receiver_agents@,
        ));
    }
    lines
}

/// The title line with the given spans.
pub fn title_spans_line(spans: Vec<Span>) -> (r: Line)
    ensures
        r@ == title_line(span_views(spans@)),
{
    let mut spans = spans;
    let ghost before = spans@;
    let mut title: Vec<Span> = Vec::new();
    title.push(Span::text("• ").dim());
    title.append(&mut spans);
    proof {
        assert(span_views(title@) =~= seq![span_of("• "@, dimmed())] + span_views(before));
    }
    Line::new(title)
}

/// A title of plain words.
pub fn title_text(title: String) -> (r: Line)
    ensures
        r@ == text_title(title@),
{
    let spans = vec![Span::raw(title).bold()];
    proof {
        assert(span_views(spans@) =~= seq![span_of(title@, emboldened())]);
    }
    title_spans_line(spans)
}

/// A title that ends in an agent.
pub fn title_with_agent(prefix: &str, agent: AgentLabel) -> (r: Line)
    ensures
        r@ == agent_title(prefix@, agent.spans()),
{
    let mut words = prefix.to_string();
    words.push(' ');
    proof {
        assert(words@ =~= prefix@ + seq![' ']);
    }
    let mut spans = vec![Span::raw(words).bold()];
    let mut label = agent_label_spans(agent);
    let ghost label_before = label@;
    spans.append(&mut label);
    proof {
        assert(span_views(spans@) =~= seq![span_of(prefix@ + seq![' '], emboldened())]
            + span_views(label_before));
    }
    title_spans_line(spans)
}

/// The block of an event: the title, and the details beneath it.
pub fn collab_event(title: Line, details: Vec<Line>) -> (r: PlainHistoryCell)
    ensures
        r@ == event_lines(title@, line_views(details@)),
{
    let mut lines = vec![title];
    proof {
        assert(line_views(lines@) =~= seq![title@]);
    }
    if details.len() > 0 {
        let mut prefixed = prefix_lines(details, Span::text("  └ ").dim(), Span::text("    "));
        let ghost added = prefixed@;
        lines.append(&mut prefixed);
        proof {
            assert(line_views(lines@) =~= seq![title@] + line_views(added));
        }
    } else {
        proof {
            assert(line_views(lines@) =~= event_lines(title@, line_views(details@)));
        }
    }
    PlainHistoryCell::new(lines)
}

/// The line that previews a prompt. A blank prompt has none.
pub fn prompt_line(prompt: &str) -> (r: Option<Line>)
    ensures
        r is None <==> is_blank(prompt@),
        match r {
            Some(line) => prompt_lines(prompt@) == seq![line@],
            None => prompt_lines(prompt@) == Seq::<LineView>::empty(),
        },
{
    let trimmed_prompt = trim(prompt);
    proof {
        law_trimmed_empty_iff_blank(prompt@);
    }
    if trimmed_prompt.is_empty() {
        None
    } else {
        Some(
            Line::single(
                Span::raw(truncate_text(trimmed_prompt, COLLAB_PROMPT_PREVIEW_GRAPHEMES)),
            ),
        )
    }
}

/// The details of an event that carries a prompt.
fn prompt_details(prompt: &str) -> (r: Vec<Line>)
    ensures
        line_views(r@) == prompt_lines(prompt@),
{
    let mut details: Vec<Line> = Vec::new();
    if let Some(line) = prompt_line(prompt) {
        details.push(line);
    }
    proof {
        assert(line_views(details@) =~= prompt_lines(prompt@));
    }
    details
}

/// What is shown when an attempt to spawn an agent has ended.
pub fn spawn_end(ev: CollabAgentSpawnEndEvent) -> (r: PlainHistoryCell)
    ensures
        r@ == event_lines(
            match ev.new_thread_id {
                Some(id) => agent_title(
                    "Spawned"@,
                    label_spans(
                        Some(id),
                        option_view(ev.new_agent_nickname),
                        option_view(ev.new_agent_role),
                    ),
                ),
                None => text_title("Agent spawn failed"@),
            },
            prompt_lines(ev.prompt@),
        ),
{
    let title = match ev.new_thread_id {
        Some(thread_id) => title_with_agent(
            "Spawned",
            AgentLabel {
                thread_id: Some(thread_id),
                nickname: as_deref(&ev.new_agent_nickname),
                role: as_deref(&ev.new_agent_role),
            },
        ),
        None => title_text("Agent spawn failed".to_string()),
    };
    collab_event(title, prompt_details(ev.prompt.as_str()))
}

/// What is shown when input has been sent to an agent.
pub fn interaction_end(ev: CollabAgentInteractionEndEvent) -> (r: PlainHistoryCell)
    ensures
        r@ == event_lines(
            agent_title(
                "Sent input to"@,
                label_spans(
                    Some(ev.receiver_thread_id),
                    option_view(ev.receiver_agent_nickname),
                    option_view(ev.receiver_agent_role),
                ),
            ),
            prompt_lines(ev.prompt@),
        ),
{
    let title = title_with_agent(
        "Sent input to",
        AgentLabel {
            thread_id: Some(ev.receiver_thread_id),
            nickname: as_deref(&ev.receiver_agent_nickname),
            role: as_deref(&ev.receiver_agent_role),
        },
    );
    collab_event(title, prompt_details(ev.prompt.as_str()))
}

/// The agents that are waited for: those that are described, then the other
/// threads, each once. Where none is described, the threads as they are given.
pub fn merge_wait_receivers(
    receiver_thread_ids: &Vec<ThreadId>,
    receiver_agents: Vec<CollabAgentRef>,
) -> (r: Vec<CollabAgentRef>)
    ensures
        r@ == wait_receivers(receiver_thread_ids@, receiver_agents@),
{
    let ghost ids = receiver_thread_ids@;
    let ghost described = receiver_agents@;
    let mut receiver_agents = receiver_agents;
    let keep_repeats: bool = receiver_agents.len() == 0;
    let mut seen: Vec<ThreadId> = Vec::new();
    for i in 0..receiver_agents.len()
        invariant
            receiver_agents@ == described,
            seen@ == threads_of(described).take(i as int),
    {
        seen.push(receiver_agents[i].thread_id);
        proof {
            assert(seen@ =~= threads_of(described).take(i + 1));
        }
    }
    let ghost known = threads_of(described).to_set();
    proof {
        assert(seen@ =~= threads_of(described));
        assert(ids.take(0) =~= Seq::empty());
        assert(receiver_agents@ =~= described + anonymous_agents(Seq::empty()));
    }
    for i in 0..receiver_thread_ids.len()
        invariant
            ids == receiver_thread_ids@,
            known == threads_of(described).to_set(),
            keep_repeats == (described.len() == 0),
            forall|id: ThreadId| #[trigger]
                seen@.contains(id) <==> known.contains(id) || ids.take(i as int).contains(id),
            receiver_agents@ == described + anonymous_agents(
                if keep_repeats {
                    ids.take(i as int)
                } else {
                    new_threads(ids.take(i as int), known)
                },
            ),
    {
        let thread_id = receiver_thread_ids[i];
        let ghost before = if keep_repeats {
            ids.take(i as int)
        } else {
            new_threads(ids.take(i as int), known)
        };
        let is_new = !contains_thread(&seen, thread_id);
        proof {
            assert(ids.take(i + 1).drop_last() =~= ids.take(i as int));
            assert(ids.take(i + 1) =~= ids.take(i as int).push(thread_id));
        }
        if keep_repeats || is_new {
            receiver_agents.push(
                CollabAgentRef { thread_id, agent_nickname: None, agent_role: None },
            );
            proof {
                assert(anonymous_agents(before.push(thread_id)) =~= anonymous_agents(before).push(
                    CollabAgentRef::anonymous(thread_id),
                ));
                assert(receiver_agents@ =~= described + anonymous_agents(before.push(thread_id)));
            }
        }
        let ghost seen_before = seen@;
        seen.push(thread_id);
        proof {
            assert forall|id: ThreadId| #[trigger]
                seen@.contains(id) <==> known.contains(id) || ids.take(i + 1).contains(id) by {
                lemma_push_contains(seen_before, thread_id, id);
                lemma_push_contains(ids.take(i as int), thread_id, id);
            }
        }
    }
    proof {
        assert(ids.take(ids.len() as int) =~= ids);
        if keep_repeats {
            assert(receiver_agents@ =~= anonymous_agents(ids));
        }
    }
    receiver_agents
}

proof fn lemma_push_contains<A>(s: Seq<A>, x: A, y: A)
    ensures
        s.push(x).contains(y) <==> s.contains(y) || x == y,
{
    let t = s.push(x);
    if s.contains(y) {
        let i = choose|i: int| 0 <= i < s.len() && s[i] == y;
        assert(t[i] == y);
    }
    if x == y {
        assert(t[s.len() as int] == y);
    }
}

proof fn lemma_new_threads(ids: Seq<ThreadId>, known: Set<ThreadId>)
    ensures
        new_threads(ids, known).no_duplicates(),
        forall|id: ThreadId| #[trigger]
            new_threads(ids, known).contains(id) <==> ids.contains(id) && !known.contains(id),
    decreases ids.len(),
{
    if ids.len() > 0 {
        let before = ids.drop_last();
        lemma_new_threads(before, known);
        assert(ids =~= before.push(ids.last()));
        assert forall|id: ThreadId| #[trigger]
            new_threads(ids, known).contains(id) <==> ids.contains(id) && !known.contains(id) by {
            lemma_push_contains(before, ids.last(), id);
            lemma_push_contains(new_threads(before, known), ids.last(), id);
        }
        let earlier = new_threads(before, known);
        let list = new_threads(ids, known);
        assert forall|i: int, j: int| 0 <= i < list.len() && 0 <= j < list.len() && i
            != j implies list[i] != list[j] by {
            if i == earlier.len() {
                assert(earlier.contains(list[j]));
            } else if j == earlier.len() {
                assert(earlier.contains(list[i]));
            }
        }
    }
}

/// A wait shows the described agents first and as they are described, every
/// thread that is waited for, and no thread beside the described ones twice.
pub proof fn law_wait_receivers_are_complete(ids: Seq<ThreadId>, agents: Seq<CollabAgentRef>)
    ensures
        agents.is_prefix_of(wait_receivers(ids, agents)),
        forall|id: ThreadId| #[trigger]
            threads_of(wait_receivers(ids, agents)).contains(id) <==> ids.contains(id)
                || threads_of(agents).contains(id),
        agents.len() > 0 ==> {
            let added = threads_of(wait_receivers(ids, agents)).skip(agents.len() as int);
            &&& added.no_duplicates()
            &&& forall|id: ThreadId| #[trigger]
                added.contains(id) ==> !threads_of(agents).contains(id)
        },
{
    let known = threads_of(agents).to_set();
    let receivers = wait_receivers(ids, agents);
    let added = if agents.len() == 0 {
        ids
    } else {
        new_threads(ids, known)
    };
    lemma_new_threads(ids, known);
    assert(receivers =~= agents + anonymous_agents(added));
    assert(threads_of(receivers) =~= threads_of(agents) + added);
    assert(threads_of(receivers).skip(agents.len() as int) =~= added);
    assert(agents =~= receivers.subrange(0, agents.len() as int));
    assert forall|id: ThreadId| #[trigger]
        threads_of(receivers).contains(id) <==> ids.contains(id) || threads_of(agents).contains(
            id,
        ) by {
        lemma_add_contains(threads_of(agents), added, id);
        if ids.contains(id) && agents.len() > 0 && !known.contains(id) {
            assert(added.contains(id));
        }
    }
}

proof fn lemma_add_contains<A>(a: Seq<A>, b: Seq<A>, x: A)
    ensures
        (a + b).contains(x) <==> a.contains(x) || b.contains(x),
{
    if a.contains(x) {
        let i = choose|i: int| 0 <= i < a.len() && a[i] == x;
        assert((a + b)[i] == x);
    }
    if b.contains(x) {
        let i = choose|i: int| 0 <= i < b.len() && b[i] == x;
        assert((a + b)[a.len() + i] == x);
    }
}

/// The outcome of a wait has a line for each described agent, in their order,
/// and then exactly one for each other thread with a status.
pub proof fn law_outcome_lines_are_complete(
    statuses: Map<ThreadId, AgentStatus>,
    entries: Seq<CollabAgentStatusEntry>,
)
    requires
        statuses.dom().finite(),
        entries.len() > 0 || !statuses.dom().is_empty(),
    ensures
        ({
            let others = entry_threads(undescribed_entries(statuses, entries));
            &&& outcome_lines(statuses, entries).len() == entries.len() + others.len()
            &&& forall|i: int|
                0 <= i < entries.len() ==> #[trigger] outcome_lines(statuses, entries)[i]
                    == status_entry_line(entries[i])
            &&& others.no_duplicates()
            &&& forall|id: ThreadId| #[trigger]
                others.contains(id) <==> statuses.contains_key(id) && !entry_threads(
                    entries,
                ).contains(id)
        }),
{
    let set = statuses.dom().difference(entry_threads(entries).to_set());
    law_text_order_list_exists(set);
    let ids = in_text_order(set);
    let others = entry_threads(undescribed_entries(statuses, entries));
    assert(others =~= ids);
    assert forall|i: int, j: int| 0 <= i < ids.len() && 0 <= j < ids.len() && i != j implies ids[i]
        != ids[j] by {
        if i < j {
            law_text_order_is_value_order(ids[i], ids[j]);
        } else {
            law_text_order_is_value_order(ids[j], ids[i]);
        }
    }
}

/// The line of an agent with a nickname reads as its name in the picker.
pub proof fn law_agent_line_reads_as_picker_name(
    thread_id: Option<ThreadId>,
    nickname: Option<Seq<char>>,
    role: Option<Seq<char>>,
)
    requires
        non_blank(nickname) is Some,
    ensures
        line_text(line_of(label_spans(thread_id, nickname, role))) == item_name(
            nickname,
            role,
            false,
        ),
{
    reveal_strlit(" ");
    let spans = label_spans(thread_id, nickname, role);
    let contents = spans.map_values(|span: SpanView| span.content);
    let name = non_blank(nickname).unwrap();
    match non_blank(role) {
        Some(role) => {
            assert(contents =~= seq![name, " "@, bracketed(role)]);
            reveal_with_fuel(Seq::<_>::flatten, 4);
            assert(contents.drop_first() =~= seq![" "@, bracketed(role)]);
            assert(contents.drop_first().drop_first() =~= seq![bracketed(role)]);
            assert(contents.drop_first().drop_first().drop_first() =~= Seq::empty());
            assert(contents.flatten() =~= name + seq![' '] + bracketed(role));
        },
        None => {
            assert(contents =~= seq![name]);
            reveal_with_fuel(Seq::<_>::flatten, 2);
            assert(contents.drop_first() =~= Seq::empty());
            assert(contents.flatten() =~= name);
        },
    }
}

/// What is shown when a wait begins.
pub fn waiting_begin(ev: CollabWaitingBeginEvent) -> (r: PlainHistoryCell)
    ensures
        ({
            let agents = wait_receivers(ev.receiver_thread_ids@, ev.receiver_agents@);
            let kind = call_kind(ev.call_id@);
            &&& r@ == event_lines(waiting_title(kind, agents), waiting_details(kind, agents))
            &&& r@.len() == (if kind is Some || agents.len() > 1 {
                1 + agents.len()
            } else {
                1
            })
        }),
{
    let receiver_agents = merge_wait_receivers(&ev.receiver_thread_ids, ev.receiver_agents);
    let kind = team_call_kind(ev.call_id.as_str());
    let title = match kind {
        Some(TeamCallKind::Spawn) => title_text("Creating agent team".to_string()),
        Some(TeamCallKind::Wait) => title_text("Waiting for agent team".to_string()),
        Some(TeamCallKind::Close) => title_text("Closing agent team".to_string()),
        None => {
            if receiver_agents.len() == 1 {
                title_with_agent("Waiting for", agent_label_from_ref(&receiver_agents[0]))
            } else if receiver_agents.len() == 0 {
                title_text("Waiting for agents".to_string())
            } else {
                title_text(
                    "Waiting for ".to_string().concat(
                        format_decimal(receiver_agents.len()).as_str(),
                    ).concat(" agents"),
                )
            }
        },
    };
    let details = if kind.is_some() || receiver_agents.len() > 1 {
        team_agent_details(&receiver_agents)
    } else {
        Vec::new()
    };
    proof {
        assert(line_views(details@) =~= waiting_details(call_kind(ev.call_id@), receiver_agents@));
    }
    collab_event(title, details)
}

/// The spans that show a status.
pub fn status_summary_spans(status: &AgentStatus) -> (r: Vec<Span>)
    ensures
        span_views(r@) == status_spans(*status),
{
    let mut spans: Vec<Span> = Vec::new();
    match status {
        AgentStatus::PendingInit => {
            spans.push(Span::text("Pending init").fg(Color::Cyan));
        },
        AgentStatus::Running => {
            spans.push(Span::text("Running").fg(Color::Cyan).bold());
        },
        AgentStatus::Completed(message) => {
            spans.push(Span::text("Completed").fg(Color::Green));
            if let Some(message) = message {
                push_preview(&mut spans, message.as_str(), COLLAB_AGENT_RESPONSE_PREVIEW_GRAPHEMES);
            }
        },
        AgentStatus::Errored(error) => {
            spans.push(Span::text("Error").fg(Color::Red));
            push_preview(&mut spans, error.as_str(), COLLAB_AGENT_ERROR_PREVIEW_GRAPHEMES);
        },
        AgentStatus::Shutdown => {
            spans.push(Span::text("Shutdown"));
        },
        AgentStatus::NotFound => {
            spans.push(Span::text("Not found").fg(Color::Red));
        },
    }
    proof {
        assert(span_views(spans@) =~= status_spans(*status));
    }
    spans
}

/// Adds the preview of a text, where there is one.
fn push_preview(spans: &mut Vec<Span>, text: &str, max_graphemes: usize)
    ensures
        span_views(final(spans)@) == span_views(old(spans)@) + preview_spans(
            preview(text@, max_graphemes as nat),
        ),
{
    let shown = truncate_text(collapse_white_space(text).as_str(), max_graphemes);
    if !shown.as_str().is_empty() {
        spans.push(Span::text(" - ").dim());
        spans.push(Span::raw(shown));
    }
    proof {
        assert(span_views(spans@) =~= span_views(old(spans)@) + preview_spans(shown@));
    }
}

/// The line that shows a status.
pub fn status_summary_line(status: &AgentStatus) -> (r: Line)
    ensures
        r@ == line_of(status_spans(*status)),
{
    Line::new(status_summary_spans(status))
}

/// The line that tells why a wait failed.
pub fn failure_reason_line(reason: &str) -> (r: Line)
    ensures
        r@ == reason_line(reason@),
{
    let spans = vec![
        Span::text("Failure: ").fg(Color::Red),
        Span::raw(truncate_text(reason, COLLAB_AGENT_ERROR_PREVIEW_GRAPHEMES)),
    ];
    proof {
        assert(span_views(spans@) =~= reason_line(reason@).spans);
    }
    Line::new(spans)
}

/// The line of an agent with its status.
fn status_entry_summary(entry: &CollabAgentStatusEntry) -> (r: Line)
    ensures
        r@ == status_entry_line(*entry),
{
    let mut spans = agent_label_spans(
        AgentLabel {
            thread_id: Some(entry.thread_id),
            nickname: as_deref(&entry.agent_nickname),
            role: as_deref(&entry.agent_role),
        },
    );
    let ghost label = span_views(spans@);
    spans.push(Span::text(": ").dim());
    let mut status = status_summary_spans(&entry.status);
    let ghost status_before = span_views(status@);
    spans.append(&mut status);
    proof {
        assert(span_views(spans@) =~= label + seq![span_of(": "@, dimmed())] + status_before);
    }
    Line::new(spans)
}

/// The statuses that no entry describes, in the order of the identifiers' texts.
fn undescribed_statuses(
    statuses: &StatusMap,
    agent_statuses: &Vec<CollabAgentStatusEntry>,
) -> (r: Vec<CollabAgentStatusEntry>)
    ensures
        r@ == undescribed_entries(statuses@, agent_statuses@),
{
    let mut seen: Vec<ThreadId> = Vec::new();
    for i in 0..agent_statuses.len()
        invariant
            seen@ == entry_threads(agent_statuses@).take(i as int),
    {
        seen.push(agent_statuses[i].thread_id);
        proof {
            assert(seen@ =~= entry_threads(agent_statuses@).take(i + 1));
        }
    }
    proof {
        assert(seen@ =~= entry_threads(agent_statuses@));
    }
    let ids = statuses.threads_besides(&seen);
    let ghost wanted = undescribed_entries(statuses@, agent_statuses@);
    let mut extras: Vec<CollabAgentStatusEntry> = Vec::new();
    for i in 0..ids.len()
        invariant
            wanted == ids@.map_values(
                |id: ThreadId| CollabAgentStatusEntry::anonymous(id, statuses@[id]),
            ),
            lists_in_text_order(
                ids@,
                statuses@.dom().difference(entry_threads(agent_statuses@).to_set()),
            ),
            extras@ == wanted.take(i as int),
    {
        proof {
            assert(ids@.contains(ids@[i as int]));
        }
        if let Some(status) = statuses.get(ids[i]) {
            extras.push(
                CollabAgentStatusEntry {
                    thread_id: ids[i],
                    agent_nickname: None,
                    agent_role: None,
                    status,
                },
            );
        }
        proof {
            assert(wanted.take(i + 1) =~= wanted.take(i as int).push(wanted[i as int]));
        }
    }
    proof {
        assert(wanted.take(ids@.len() as int) =~= wanted);
    }
    extras
}

/// The lines of a wait's outcome: the described agents in their order, then
/// every other status in the order of the identifiers' texts.
pub fn wait_complete_lines(
    statuses: &StatusMap,
    agent_statuses: &Vec<CollabAgentStatusEntry>,
) -> (r: Vec<Line>)
    ensures
        line_views(r@) == outcome_lines(statuses@, agent_statuses@),
{
    if statuses.is_empty() && agent_statuses.len() == 0 {
        let lines = vec![Line::single(Span::text("No agents completed yet"))];
        proof {
            assert(line_views(lines@) =~= outcome_lines(statuses@, agent_statuses@));
        }
        return lines;
    }
    let extras = undescribed_statuses(statuses, agent_statuses);
    let ghost expected = outcome_lines(statuses@, agent_statuses@);
    let ghost entries = agent_statuses@ + extras@;
    let mut lines: Vec<Line> = Vec::new();
    for i in 0..agent_statuses.len()
        invariant
            entries == agent_statuses@ + extras@,
            expected == entries.map_values(
                |entry: CollabAgentStatusEntry| status_entry_line(entry),
            ),
            line_views(lines@) == expected.take(i as int),
    {
        lines.push(status_entry_summary(&agent_statuses[i]));
        proof {
            broadcast use group_line_views;

            assert(expected.take(i + 1) =~= expected.take(i as int).push(
                status_entry_line(agent_statuses@[i as int]),
            ));
        }
    }
    for i in 0..extras.len()
        invariant
            entries == agent_statuses@ + extras@,
            expected == entries.map_values(
                |entry: CollabAgentStatusEntry| status_entry_line(entry),
            ),
            line_views(lines@) == expected.take(agent_statuses@.len() + i),
    {
        lines.push(status_entry_summary(&extras[i]));
        proof {
            broadcast use group_line_views;

            assert(expected.take(agent_statuses@.len() + i + 1) =~= expected.take(
                agent_statuses@.len() + i,
            ).push(status_entry_line(extras@[i as int])));
        }
    }
    proof {
        assert(expected.take(expected.len() as int) =~= expected);
    }
    lines
}

/// What is shown when a wait has ended.
pub fn waiting_end(ev: CollabWaitingEndEvent) -> (r: PlainHistoryCell)
    ensures
        r@ == event_lines(
            text_title(finished_title(call_kind(ev.call_id@), ev.failure_reason is Some)),
            outcome_lines(ev.statuses@, ev.agent_statuses@) + (match ev.failure_reason {
                Some(reason) => seq![reason_line(reason@)],
                None => Seq::empty(),
            }),
        ),
{
    let mut details = wait_complete_lines(&ev.statuses, &ev.agent_statuses);
    let ghost outcome = line_views(details@);
    if let Some(reason) = &ev.failure_reason {
        details.push(failure_reason_line(reason.as_str()));
    }
    proof {
        assert(line_views(details@) =~= outcome + (match ev.failure_reason {
            Some(reason) => seq![reason_line(reason@)],
            None => Seq::empty(),
        }));
    }
    let title = match (team_call_kind(ev.call_id.as_str()), ev.failure_reason.is_some()) {
        (Some(TeamCallKind::Spawn), false) => "Created agent team",
        (Some(TeamCallKind::Spawn), true) => "Agent team creation failed",
        (Some(TeamCallKind::Wait), false) => "Finished waiting for agent team",
        (Some(TeamCallKind::Wait), true) => "Agent team wait failed",
        (Some(TeamCallKind::Close), false) => "Closed agent team",
        (Some(TeamCallKind::Close), true) => "Agent team close failed",
        (None, false) => "Finished waiting",
        (None, true) => "Wait failed",
    };
    collab_event(title_text(title.to_string()), details)
}

/// What is shown when an agent has been closed.
pub fn close_end(ev: CollabCloseEndEvent) -> (r: PlainHistoryCell)
    ensures
        r@ == event_lines(
            agent_title(
                "Closed"@,
                label_spans(
                    Some(ev.receiver_thread_id),
                    option_view(ev.receiver_agent_nickname),
                    option_view(ev.receiver_agent_role),
                ),
            ),
            Seq::empty(),
        ),
{
    let title = title_with_agent(
        "Closed",
        AgentLabel {
            thread_id: Some(ev.receiver_thread_id),
            nickname: as_deref(&ev.receiver_agent_nickname),
            role: as_deref(&ev.receiver_agent_role),
        },
    );
    let details: Vec<Line> = Vec::new();
    proof {
        assert(line_views(details@) =~= Seq::empty());
    }
    collab_event(title, details)
}

/// What is shown when an agent is about to be resumed.
pub fn resume_begin(ev: CollabResumeBeginEvent) -> (r: PlainHistoryCell)
    ensures
        r@ == event_lines(
            agent_title(
                "Resuming"@,
                label_spans(
                    Some(ev.receiver_thread_id),
                    option_view(ev.receiver_agent_nickname),
                    option_view(ev.receiver_agent_role),
                ),
            ),
            Seq::empty(),
        ),
{
    let title = title_with_agent(
        "Resuming",
        AgentLabel {
            thread_id: Some(ev.receiver_thread_id),
            nickname: as_deref(&ev.receiver_agent_nickname),
            role: as_deref(&ev.receiver_agent_role),
        },
    );
    let details: Vec<Line> = Vec::new();
    proof {
        assert(line_views(details@) =~= Seq::empty());
    }
    collab_event(title, details)
}

/// What is shown when an attempt to resume an agent has ended.
pub fn resume_end(ev: CollabResumeEndEvent) -> (r: PlainHistoryCell)
    ensures
        r@ == event_lines(
            agent_title(
                "Resumed"@,
                label_spans(
                    Some(ev.receiver_thread_id),
                    option_view(ev.receiver_agent_nickname),
                    option_view(ev.receiver_agent_role),
                ),
            ),
            seq![line_of(status_spans(ev.status))],
        ),
{
    let title = title_with_agent(
        "Resumed",
        AgentLabel {
            thread_id: Some(ev.receiver_thread_id),
            nickname: as_deref(&ev.receiver_agent_nickname),
            role: as_deref(&ev.receiver_agent_role),
        },
    );
    let details = vec![status_summary_line(&ev.status)];
    proof {
        assert(line_views(details@) =~= seq![line_of(status_spans(ev.status))]);
    }
    collab_event(title, details)
}

} // verus!
