//! What the transcript and the picker show, read as a user reads it: the texts of
//! the lines, how many there are, and their styles.

use crate::agent::{
    in_text_order, law_text_order_list_exists, AgentStatus, CollabAgentRef, CollabAgentStatusEntry,
};
use crate::line::{
    colored, dimmed, emboldened, line_of, line_text, line_views, plain, prefixed_lines, span_of,
    span_views, Color, Line, LineView, Span, SpanView, Style,
};
use crate::multi_agents::{
    agent_title, call_kind, entry_threads, event_lines, finished_title, label_spans,
    law_outcome_lines_are_complete, new_threads, outcome_lines, preview, prompt_lines, reason_line,
    status_entry_line, status_spans, text_title, threads_of, title_line, undescribed_entries,
    wait_receivers, waiting_details, waiting_title, TeamCallKind,
};
use crate::picker::{
    bracketed, comes_before, in_picker_order, item_name, list_item_name, AgentPickerBadge,
    AgentPickerThreadEntry,
};
use crate::text::{
    decimal, is_blank, joined, law_non_blank_texts_are_kept, law_trimmed_empty_iff_blank,
    option_view, trimmed, truncated, words,
};
use crate::thread_id::{law_text_order_is_value_order, ThreadId};
use vstd::prelude::*;

verus! {

/// A style by what it sets.
pub open spec fn is_style(style: Style, fg: Option<Color>, bold: bool, dim: bool) -> bool {
    style.fg == fg && style.bold == bold && style.dim == dim
}

/// A span by its text and what its style sets.
pub open spec fn is_span(
    span: SpanView,
    content: Seq<char>,
    fg: Option<Color>,
    bold: bool,
    dim: bool,
) -> bool {
    span.content == content && is_style(span.style, fg, bold, dim)
}

/// The named styles set what their names say, and nothing else.
pub proof fn law_styles_set_one_thing(
    color: Color,
    content: Seq<char>,
    style: Style,
    spans: Seq<SpanView>,
)
    ensures
        is_style(plain(), None, false, false),
        is_style(colored(color), Some(color), false, false),
        is_style(dimmed(), None, false, true),
        is_style(emboldened(), None, true, false),
        span_of(content, style).content == content,
        span_of(content, style).style == style,
        line_of(spans).spans == spans,
        is_style(line_of(spans).style, None, false, false),
{
}

/// The content of spans and lines is all that they hold.
pub proof fn law_views_show_everything(span: Span, line: Line, spans: Seq<Span>, lines: Seq<Line>)
    ensures
        span@.content == span.content@,
        span@.style == span.style,
        line@.style == line.style,
        line@.spans.len() == line.spans@.len(),
        forall|i: int| 0 <= i < line.spans@.len() ==> #[trigger] line@.spans[i] == line.spans@[i]@,
        span_views(spans).len() == spans.len(),
        forall|i: int| 0 <= i < spans.len() ==> #[trigger] span_views(spans)[i] == spans[i]@,
        line_views(lines).len() == lines.len(),
        forall|i: int| 0 <= i < lines.len() ==> #[trigger] line_views(lines)[i] == lines[i]@,
{
}

/// A line reads as its spans one after the other, whatever its style.
pub proof fn law_line_text_runs_through_the_spans(
    a: Seq<SpanView>,
    b: Seq<SpanView>,
    style: Style,
)
    ensures
        line_text(LineView { spans: a + b, style }) == line_text(LineView { spans: a, style })
            + line_text(LineView { spans: b, style }),
        a.len() == 0 ==> line_text(LineView { spans: a, style }).len() == 0,
        a.len() == 1 ==> line_text(LineView { spans: a, style }) == a[0].content,
    decreases a.len(),
{
    let f = |span: SpanView| span.content;
    let all = (a + b).map_values(f);
    let left = a.map_values(f);
    let right = b.map_values(f);
    assert(all =~= left + right);
    if a.len() == 0 {
        assert(all =~= right);
        assert(left =~= Seq::empty());
        assert(left.flatten() =~= Seq::empty());
        assert(all.flatten() =~= left.flatten() + right.flatten());
    } else {
        let rest = a.drop_first();
        law_line_text_runs_through_the_spans(rest, b, style);
        assert((a + b).drop_first() =~= rest + b);
        assert(all.drop_first() =~= (rest + b).map_values(f));
        assert(left.drop_first() =~= rest.map_values(f));
        assert(all.first() == left.first());
        assert(all.flatten() == all.first() + all.drop_first().flatten());
        assert(left.flatten() == left.first() + left.drop_first().flatten());
        assert(all.flatten() =~= left.flatten() + right.flatten());
        if a.len() == 1 {
            assert(rest =~= Seq::empty());
            assert(left.drop_first() =~= Seq::empty());
            assert(left.drop_first().flatten() =~= Seq::empty());
            assert(left.flatten() =~= a[0].content);
        }
    }
}

/// Prefixed lines are as many as before and keep their spans and style; each has
/// one more span in front, the first line another than the rest.
pub proof fn law_prefixes_stand_in_front(lines: Seq<LineView>, first: SpanView, later: SpanView)
    ensures
        prefixed_lines(lines, first, later).len() == lines.len(),
        forall|i: int|
            0 <= i < lines.len() ==> {
                let line = #[trigger] prefixed_lines(lines, first, later)[i];
                &&& line.spans.len() == lines[i].spans.len() + 1
                &&& line.spans[0] == (if i == 0 {
                    first
                } else {
                    later
                })
                &&& line.spans.drop_first() == lines[i].spans
                &&& line.style == lines[i].style
            },
{
    assert forall|i: int| 0 <= i < lines.len() implies (
    #[trigger] prefixed_lines(lines, first, later)[i]).spans.drop_first() == lines[i].spans by {
        assert(prefixed_lines(lines, first, later)[i].spans.drop_first() =~= lines[i].spans);
    }
}

proof fn lemma_prefixed_line_reads(line: LineView, shorter: LineView)
    requires
        line.spans.len() == shorter.spans.len() + 1,
        line.spans.drop_first() == shorter.spans,
        line.style == shorter.style,
    ensures
        line_text(line) == line.spans[0].content + line_text(shorter),
{
    law_line_text_runs_through_the_spans(seq![line.spans[0]], shorter.spans, line.style);
    assert(line.spans =~= seq![line.spans[0]] + shorter.spans);
    assert(line =~= LineView { spans: line.spans, style: line.style });
    assert(shorter =~= LineView { spans: shorter.spans, style: line.style });
}

/// An event shows its title as it is, and beneath it every detail: the first one
/// behind a dim corner, the others behind as much space.
pub proof fn law_event_shows_title_and_every_detail(title: LineView, details: Seq<LineView>)
    ensures
        event_lines(title, details).len() == 1 + details.len(),
        event_lines(title, details)[0] == title,
        forall|i: int|
            0 <= i < details.len() ==> {
                let line = #[trigger] event_lines(title, details)[i + 1];
                &&& line_text(line) == (if i == 0 {
                    "  └ "@
                } else {
                    "    "@
                }) + line_text(details[i])
                &&& line.spans.drop_first() == details[i].spans
                &&& is_style(line.spans[0].style, None, false, i == 0)
                &&& line.style == details[i].style
            },
{
    let first = span_of("  └ "@, dimmed());
    let later = span_of("    "@, plain());
    law_prefixes_stand_in_front(details, first, later);
    let prefixed = prefixed_lines(details, first, later);
    assert forall|i: int| 0 <= i < details.len() implies ({
        let line = #[trigger] event_lines(title, details)[i + 1];
        &&& line_text(line) == (if i == 0 {
            "  └ "@
        } else {
            "    "@
        }) + line_text(details[i])
        &&& line.spans.drop_first() == details[i].spans
        &&& is_style(line.spans[0].style, None, false, i == 0)
        &&& line.style == details[i].style
    }) by {
        assert(event_lines(title, details)[i + 1] == prefixed[i]);
        lemma_prefixed_line_reads(prefixed[i], details[i]);
    }
}

/// How an agent reads: its nickname or else its identifier, then its role.
pub open spec fn agent_reads(
    thread_id: Option<ThreadId>,
    nickname: Option<Seq<char>>,
    role: Option<Seq<char>>,
) -> Seq<char> {
    let name = if nickname is Some && !is_blank(nickname->0) {
        trimmed(nickname->0)
    } else if thread_id is Some {
        thread_id->0.text()
    } else {
        "agent"@
    };
    if role is Some && !is_blank(role->0) {
        name + " ["@ + trimmed(role->0) + "]"@
    } else {
        name
    }
}

/// The label of an agent reads as the agent does. Its name is cyan, and bold where
/// it is a nickname; the role has no style, and the space before it is dim.
pub proof fn law_label_reads_as_the_agent(
    thread_id: Option<ThreadId>,
    nickname: Option<Seq<char>>,
    role: Option<Seq<char>>,
)
    ensures
        line_text(line_of(label_spans(thread_id, nickname, role))) == agent_reads(
            thread_id,
            nickname,
            role,
        ),
        ({
            let spans = label_spans(thread_id, nickname, role);
            let named = nickname is Some && !is_blank(nickname->0);
            let has_role = role is Some && !is_blank(role->0);
            &&& spans.len() == (if has_role {
                3int
            } else {
                1
            })
            &&& is_style(spans[0].style, Some(Color::Cyan), named, false)
            &&& spans[0].content == agent_reads(thread_id, nickname, None)
            &&& has_role ==> is_span(spans[1], " "@, None, false, true) && is_span(
                spans[2],
                "["@ + trimmed(role->0) + "]"@,
                None,
                false,
                false,
            )
        }),
{
    law_non_blank_texts_are_kept(nickname);
    law_non_blank_texts_are_kept(role);
    reveal_strlit(" [");
    reveal_strlit("]");
    reveal_strlit("[");
    reveal_strlit(" ");
    let spans = label_spans(thread_id, nickname, role);
    if role is Some && !is_blank(role->0) {
        assert(spans[2].content =~= "["@ + trimmed(role->0) + "]"@);
        law_line_text_runs_through_the_spans(seq![spans[0]], seq![spans[1]], plain());
        law_line_text_runs_through_the_spans(seq![spans[1]], seq![spans[2]], plain());
        law_line_text_runs_through_the_spans(seq![spans[2]], Seq::empty(), plain());
        law_line_text_runs_through_the_spans(
            seq![spans[0]] + seq![spans[1]],
            seq![spans[2]],
            plain(),
        );
        assert(spans =~= seq![spans[0]] + seq![spans[1]] + seq![spans[2]]);
        assert(line_text(line_of(spans)) =~= spans[0].content + " ["@ + trimmed(role->0) + "]"@);
    } else {
        law_line_text_runs_through_the_spans(spans, Seq::empty(), plain());
    }
}

/// A title begins with a dim bullet and then holds its spans as they are.
pub proof fn law_titles_begin_with_a_bullet(
    spans: Seq<SpanView>,
    title: Seq<char>,
    agent: Seq<SpanView>,
)
    ensures
        title_line(spans).spans.len() == spans.len() + 1,
        is_span(title_line(spans).spans[0], "• "@, None, false, true),
        title_line(spans).spans.drop_first() == spans,
        is_style(title_line(spans).style, None, false, false),
        is_style(text_title(title).style, None, false, false),
        is_style(agent_title(title, agent).style, None, false, false),
        is_span(text_title(title).spans[0], "• "@, None, false, true),
        is_span(agent_title(title, agent).spans[0], "• "@, None, false, true),
        agent_title(title, agent).spans[1].content == title + " "@,
        line_text(title_line(spans)) == "• "@ + line_text(line_of(spans)),
        text_title(title).spans.len() == 2,
        is_span(text_title(title).spans[1], title, None, true, false),
        line_text(text_title(title)) == "• "@ + title,
        agent_title(title, agent).spans.len() == agent.len() + 2,
        is_style(agent_title(title, agent).spans[1].style, None, true, false),
        agent_title(title, agent).spans.skip(2) == agent,
        line_text(agent_title(title, agent)) == "• "@ + title + " "@ + line_text(line_of(agent)),
{
    reveal_strlit(" ");
    let bullet = seq![span_of("• "@, dimmed())];
    assert(title_line(spans).spans.drop_first() =~= spans);
    law_line_text_runs_through_the_spans(bullet, spans, plain());
    let words = seq![span_of(title, emboldened())];
    law_line_text_runs_through_the_spans(bullet, words, plain());
    law_line_text_runs_through_the_spans(words, Seq::empty(), plain());
    let spaced = seq![span_of(title + seq![' '], emboldened())];
    assert(agent_title(title, agent).spans[1].content =~= title + " "@);
    law_line_text_runs_through_the_spans(spaced, agent, plain());
    law_line_text_runs_through_the_spans(bullet, spaced + agent, plain());
    assert(agent_title(title, agent).spans.skip(2) =~= agent);
    assert(line_text(agent_title(title, agent)) =~= "• "@ + title + " "@ + line_text(
        line_of(agent),
    ));
}

/// Calls are told apart by what their identifiers begin with.
pub proof fn law_call_kind_is_the_prefix(call_id: Seq<char>)
    ensures
        call_kind(call_id) == Some(TeamCallKind::Spawn) <==> "team/spawn:"@.is_prefix_of(call_id),
        call_kind(call_id) == Some(TeamCallKind::Wait) <==> "team/wait:"@.is_prefix_of(call_id),
        call_kind(call_id) == Some(TeamCallKind::Close) <==> "team/close:"@.is_prefix_of(call_id),
{
    reveal_strlit("team/spawn:");
    reveal_strlit("team/wait:");
    reveal_strlit("team/close:");
    let s = "team/spawn:"@;
    let w = "team/wait:"@;
    let c = "team/close:"@;
    assert(s[5] == 's' && w[5] == 'w' && c[5] == 'c');
    if s.is_prefix_of(call_id) {
        assert(s[5] == call_id.subrange(0, s.len() as int)[5]);
    }
    if w.is_prefix_of(call_id) {
        assert(w[5] == call_id.subrange(0, w.len() as int)[5]);
    }
    if c.is_prefix_of(call_id) {
        assert(c[5] == call_id.subrange(0, c.len() as int)[5]);
    }
}

/// Whether something stands at a place of a list and nowhere before it.
pub open spec fn stands_first_at(ids: Seq<ThreadId>, id: ThreadId, i: int) -> bool {
    &&& 0 <= i < ids.len()
    &&& ids[i] == id
    &&& forall|j: int| 0 <= j < i ==> #[trigger] ids[j] != id
}

/// A wait is for the described agents as they are described, then for each other
/// thread once, in the order in which the threads first stand in the list; of those
/// only the thread is known. Where no agent is described, it is for the threads of
/// the list one for one.
pub proof fn law_wait_is_for_all_in_order(ids: Seq<ThreadId>, agents: Seq<CollabAgentRef>)
    ensures
        ({
            let all = wait_receivers(ids, agents);
            let n = agents.len() as int;
            &&& all.len() >= n
            &&& forall|i: int| 0 <= i < n ==> #[trigger] all[i] == agents[i]
            &&& forall|i: int|
                n <= i < all.len() ==> (#[trigger] all[i]).agent_nickname is None
                    && all[i].agent_role is None
            &&& n == 0 ==> all.len() == ids.len() && forall|i: int|
                0 <= i < ids.len() ==> (#[trigger] all[i]).thread_id == ids[i]
            &&& n > 0 ==> {
                &&& forall|i: int|
                    n <= i < all.len() ==> ids.contains((#[trigger] all[i]).thread_id)
                        && forall|k: int| 0 <= k < n ==> agents[k].thread_id != all[i].thread_id
                &&& forall|i: int, j: int, p: int, q: int|
                    n <= i < j < all.len() && #[trigger] stands_first_at(ids, all[i].thread_id, p)
                        && #[trigger] stands_first_at(ids, all[j].thread_id, q) ==> p < q
            }
        }),
{
    let all = wait_receivers(ids, agents);
    let n = agents.len() as int;
    let known = threads_of(agents).to_set();
    if n > 0 {
        let added = new_threads(ids, known);
        lemma_new_threads_in_order(ids, known);
        assert forall|i: int| n <= i < all.len() implies ids.contains((#[trigger] all[i]).thread_id)
            && forall|k: int| 0 <= k < n ==> agents[k].thread_id != all[i].thread_id by {
            assert(all[i].thread_id == added[i - n]);
            assert(!known.contains(added[i - n]));
            assert forall|k: int| 0 <= k < n implies agents[k].thread_id != all[i].thread_id by {
                assert(threads_of(agents)[k] == agents[k].thread_id);
                assert(threads_of(agents).contains(agents[k].thread_id));
            }
        }
        assert forall|i: int, j: int, p: int, q: int|
            n <= i < j < all.len() && #[trigger] stands_first_at(ids, all[i].thread_id, p)
                && #[trigger] stands_first_at(ids, all[j].thread_id, q) implies p < q by {
            assert(all[i].thread_id == added[i - n]);
            assert(all[j].thread_id == added[j - n]);
        }
    }
}

proof fn lemma_new_threads_in_order(ids: Seq<ThreadId>, known: Set<ThreadId>)
    ensures
        forall|i: int|
            0 <= i < new_threads(ids, known).len() ==> ids.contains(
                #[trigger] new_threads(ids, known)[i],
            ) && !known.contains(new_threads(ids, known)[i]),
        forall|i: int, j: int, p: int, q: int|
            0 <= i < j < new_threads(ids, known).len() && #[trigger] stands_first_at(
                ids,
                new_threads(ids, known)[i],
                p,
            ) && #[trigger] stands_first_at(ids, new_threads(ids, known)[j], q) ==> p < q,
    decreases ids.len(),
{
    if ids.len() > 0 {
        let short = ids.drop_last();
        let before = new_threads(short, known);
        let all = new_threads(ids, known);
        lemma_new_threads_in_order(short, known);
        assert forall|i: int| 0 <= i < all.len() implies ids.contains(#[trigger] all[i])
            && !known.contains(all[i]) by {
            if i < before.len() {
                assert(short.contains(before[i]));
                let k = choose|k: int| 0 <= k < short.len() && short[k] == before[i];
                assert(ids[k] == all[i]);
            } else {
                assert(ids[ids.len() - 1] == all[i]);
            }
        }
        assert forall|i: int, j: int, p: int, q: int|
            0 <= i < j < all.len() && #[trigger] stands_first_at(ids, all[i], p)
                && #[trigger] stands_first_at(ids, all[j], q) implies p < q by {
            assert(short.contains(before[i]));
            let k = choose|k: int| 0 <= k < short.len() && short[k] == before[i];
            assert(ids[k] == all[i]);
            if p > k {
                assert(ids[k] != all[i]);
            }
            assert(p < short.len());
            if j < before.len() {
                assert(short.contains(before[j]));
                let m = choose|m: int| 0 <= m < short.len() && short[m] == before[j];
                assert(ids[m] == all[j]);
                if q > m {
                    assert(ids[m] != all[j]);
                }
                assert forall|x: int| 0 <= x < p implies #[trigger] short[x] != all[i] by {
                    assert(ids[x] != all[i]);
                }
                assert forall|x: int| 0 <= x < q implies #[trigger] short[x] != all[j] by {
                    assert(ids[x] != all[j]);
                }
                assert(short[p] == ids[p] && short[q] == ids[q]);
                assert(stands_first_at(short, before[i], p));
                assert(stands_first_at(short, before[j], q));
            } else {
                assert(all[j] == ids.last());
                assert(!short.contains(ids.last()));
                if q < short.len() {
                    assert(short[q] == ids[q]);
                    assert(short.contains(ids.last()));
                }
            }
        }
    }
}

/// What a wait that begins shows: a title, and beneath it one line for each agent
/// that is waited for, in their order. Only where a single agent, or none, is
/// waited for outside a team operation does it stand in the title alone.
pub proof fn law_wait_shows_every_agent(kind: Option<TeamCallKind>, agents: Seq<CollabAgentRef>)
    ensures
        ({
            let lines = event_lines(waiting_title(kind, agents), waiting_details(kind, agents));
            let listed = kind is Some || agents.len() > 1;
            &&& lines.len() == (if listed {
                1 + agents.len()
            } else {
                1
            })
            &&& line_text(lines[0]) == "• "@ + (match kind {
                Some(TeamCallKind::Spawn) => "Creating agent team"@,
                Some(TeamCallKind::Wait) => "Waiting for agent team"@,
                Some(TeamCallKind::Close) => "Closing agent team"@,
                None => if agents.len() == 0 {
                    "Waiting for agents"@
                } else if agents.len() == 1 {
                    "Waiting for"@ + " "@ + agent_reads(
                        Some(agents[0].thread_id),
                        option_view(agents[0].agent_nickname),
                        option_view(agents[0].agent_role),
                    )
                } else {
                    "Waiting for "@ + decimal(agents.len()) + " agents"@
                },
            })
            &&& listed ==> forall|i: int|
                0 <= i < agents.len() ==> {
                    &&& line_text(#[trigger] lines[i + 1]) == (if i == 0 {
                        "  └ "@
                    } else {
                        "    "@
                    }) + agent_reads(
                        Some(agents[i].thread_id),
                        option_view(agents[i].agent_nickname),
                        option_view(agents[i].agent_role),
                    )
                    &&& lines[i + 1].spans.drop_first() == label_spans(
                        Some(agents[i].thread_id),
                        option_view(agents[i].agent_nickname),
                        option_view(agents[i].agent_role),
                    )
                    &&& is_style(lines[i + 1].style, None, false, false)
                }
        }),
{
    let title = waiting_title(kind, agents);
    let details = waiting_details(kind, agents);
    let lines = event_lines(title, details);
    law_event_shows_title_and_every_detail(title, details);
    law_titles_begin_with_a_bullet(Seq::empty(), "Creating agent team"@, Seq::empty());
    law_titles_begin_with_a_bullet(Seq::empty(), "Waiting for agent team"@, Seq::empty());
    law_titles_begin_with_a_bullet(Seq::empty(), "Closing agent team"@, Seq::empty());
    law_titles_begin_with_a_bullet(Seq::empty(), "Waiting for agents"@, Seq::empty());
    law_titles_begin_with_a_bullet(
        Seq::empty(),
        "Waiting for "@ + decimal(agents.len()) + " agents"@,
        Seq::empty(),
    );
    if agents.len() == 1 {
        let agent = agents[0];
        law_titles_begin_with_a_bullet(Seq::empty(), "Waiting for"@, agent.spans());
        law_label_reads_as_the_agent(
            Some(agent.thread_id),
            option_view(agent.agent_nickname),
            option_view(agent.agent_role),
        );
        assert("• "@ + "Waiting for"@ + " "@ + line_text(line_of(agent.spans())) =~= "• "@ + (
        "Waiting for"@ + " "@ + line_text(line_of(agent.spans()))));
    }
    if kind is Some || agents.len() > 1 {
        assert forall|i: int| 0 <= i < agents.len() implies {
            &&& line_text(#[trigger] lines[i + 1]) == (if i == 0 {
                "  └ "@
            } else {
                "    "@
            }) + agent_reads(
                Some(agents[i].thread_id),
                option_view(agents[i].agent_nickname),
                option_view(agents[i].agent_role),
            )
            &&& lines[i + 1].spans.drop_first() == label_spans(
                Some(agents[i].thread_id),
                option_view(agents[i].agent_nickname),
                option_view(agents[i].agent_role),
            )
            &&& is_style(lines[i + 1].style, None, false, false)
        } by {
            let agent = agents[i];
            law_label_reads_as_the_agent(
                Some(agent.thread_id),
                option_view(agent.agent_nickname),
                option_view(agent.agent_role),
            );
            assert(details[i] == line_of(agent.spans()));
        }
    }
}

/// The text of a preview is the words of the text with one space between each two
/// neighbours, cut to the limit.
pub proof fn law_preview_is_on_one_line(text: Seq<char>, max_graphemes: nat)
    ensures
        preview(text, max_graphemes) == truncated(joined(words(text), " "@), max_graphemes),
{
    reveal_strlit(" ");
    assert(" "@ =~= seq![' ']);
}

/// How a status reads.
pub open spec fn status_reads(status: AgentStatus) -> Seq<char> {
    match status {
        AgentStatus::PendingInit => "Pending init"@,
        AgentStatus::Running => "Running"@,
        AgentStatus::Shutdown => "Shutdown"@,
        AgentStatus::NotFound => "Not found"@,
        AgentStatus::Completed(None) => "Completed"@,
        AgentStatus::Completed(Some(message)) => {
            let shown = truncated(joined(words(message@), " "@), 240);
            if shown.len() == 0 {
                "Completed"@
            } else {
                "Completed"@ + " - "@ + shown
            }
        },
        AgentStatus::Errored(error) => {
            let shown = truncated(joined(words(error@), " "@), 160);
            if shown.len() == 0 {
                "Error"@
            } else {
                "Error"@ + " - "@ + shown
            }
        },
    }
}

/// The colour of a status.
pub open spec fn status_color(status: AgentStatus) -> Option<Color> {
    match status {
        AgentStatus::PendingInit => Some(Color::Cyan),
        AgentStatus::Running => Some(Color::Cyan),
        AgentStatus::Completed(_) => Some(Color::Green),
        AgentStatus::Errored(_) => Some(Color::Red),
        AgentStatus::Shutdown => None,
        AgentStatus::NotFound => Some(Color::Red),
    }
}

/// A status reads as it should, its first word in its colour, bold only while the
/// agent runs; what follows has no colour, and its hyphen is dim.
pub proof fn law_status_is_shown(status: AgentStatus)
    ensures
        line_text(line_of(status_spans(status))) == status_reads(status),
        ({
            let spans = status_spans(status);
            &&& spans.len() == 1 || spans.len() == 3
            &&& is_style(spans[0].style, status_color(status), status is Running, false)
            &&& spans.len() == 3 ==> is_span(spans[1], " - "@, None, false, true) && is_style(
                spans[2].style,
                None,
                false,
                false,
            )
        }),
{
    let spans = status_spans(status);
    match status {
        AgentStatus::Completed(Some(message)) => {
            law_preview_is_on_one_line(message@, 240);
        },
        AgentStatus::Errored(error) => {
            law_preview_is_on_one_line(error@, 160);
        },
        _ => {},
    }
    if spans.len() == 3 {
        law_line_text_runs_through_the_spans(seq![spans[0]], seq![spans[1]], plain());
        law_line_text_runs_through_the_spans(seq![spans[1]], Seq::empty(), plain());
        law_line_text_runs_through_the_spans(seq![spans[2]], Seq::empty(), plain());
        law_line_text_runs_through_the_spans(
            seq![spans[0]] + seq![spans[1]],
            seq![spans[2]],
            plain(),
        );
        assert(spans =~= seq![spans[0]] + seq![spans[1]] + seq![spans[2]]);
    } else {
        law_line_text_runs_through_the_spans(spans, Seq::empty(), plain());
    }
}

/// The line of an agent with its status reads as the agent, a colon and the status.
pub proof fn law_status_entry_reads(entry: CollabAgentStatusEntry)
    ensures
        line_text(status_entry_line(entry)) == agent_reads(
            Some(entry.thread_id),
            option_view(entry.agent_nickname),
            option_view(entry.agent_role),
        ) + ": "@ + status_reads(entry.status),
        ({
            let label = label_spans(
                Some(entry.thread_id),
                option_view(entry.agent_nickname),
                option_view(entry.agent_role),
            );
            let n = label.len() as int;
            let spans = status_entry_line(entry).spans;
            &&& spans.take(n) == label
            &&& is_span(spans[n], ": "@, None, false, true)
            &&& spans.skip(n + 1) == status_spans(entry.status)
            &&& is_style(status_entry_line(entry).style, None, false, false)
        }),
{
    let label = label_spans(
        Some(entry.thread_id),
        option_view(entry.agent_nickname),
        option_view(entry.agent_role),
    );
    let colon = seq![span_of(": "@, dimmed())];
    let status = status_spans(entry.status);
    law_label_reads_as_the_agent(
        Some(entry.thread_id),
        option_view(entry.agent_nickname),
        option_view(entry.agent_role),
    );
    law_status_is_shown(entry.status);
    law_line_text_runs_through_the_spans(label, colon, plain());
    law_line_text_runs_through_the_spans(colon, Seq::empty(), plain());
    law_line_text_runs_through_the_spans(label + colon, status, plain());
    let n = label.len() as int;
    let spans = status_entry_line(entry).spans;
    assert(spans.take(n) =~= label);
    assert(spans.skip(n + 1) =~= status);
}

/// The line of a thread of which only the status is known.
pub open spec fn is_line_of_thread(line: LineView, id: ThreadId, status: AgentStatus) -> bool {
    &&& line.spans.len() == 2 + status_spans(status).len()
    &&& is_span(line.spans[0], id.text(), Some(Color::Cyan), false, false)
    &&& is_span(line.spans[1], ": "@, None, false, true)
    &&& line.spans.skip(2) == status_spans(status)
    &&& is_style(line.style, None, false, false)
}

/// What a wait that has ended shows of its outcome: a line for each described
/// agent, in their order, then one for each other thread with a status, from the
/// smallest identifier to the largest; or that there is nothing yet.
pub proof fn law_outcome_shows_every_status(
    statuses: Map<ThreadId, AgentStatus>,
    entries: Seq<CollabAgentStatusEntry>,
)
    requires
        statuses.dom().finite(),
    ensures
        ({
            let lines = outcome_lines(statuses, entries);
            let others = entry_threads(undescribed_entries(statuses, entries));
            if entries.len() == 0 && statuses.dom() =~= Set::empty() {
                &&& lines.len() == 1
                &&& line_text(lines[0]) == "No agents completed yet"@
                &&& lines[0].spans.len() == 1
                &&& is_style(lines[0].spans[0].style, None, false, false)
                &&& is_style(lines[0].style, None, false, false)
            } else {
                &&& lines.len() == entries.len() + others.len()
                &&& forall|i: int|
                    0 <= i < entries.len() ==> #[trigger] lines[i] == status_entry_line(entries[i])
                &&& forall|i: int|
                    0 <= i < others.len() ==> is_line_of_thread(
                        #[trigger] lines[entries.len() + i],
                        others[i],
                        statuses[others[i]],
                    )
                &&& forall|i: int|
                    0 <= i < entries.len() ==> line_text(#[trigger] lines[i]) == agent_reads(
                        Some(entries[i].thread_id),
                        option_view(entries[i].agent_nickname),
                        option_view(entries[i].agent_role),
                    ) + ": "@ + status_reads(entries[i].status)
                &&& forall|i: int|
                    0 <= i < others.len() ==> line_text(#[trigger] lines[entries.len() + i])
                        == others[i].text() + ": "@ + status_reads(statuses[others[i]])
                &&& forall|i: int, j: int|
                    0 <= i < j < others.len() ==> (#[trigger] others[i]).value < (
                    #[trigger] others[j]).value
                &&& forall|id: ThreadId| #[trigger]
                    others.contains(id) <==> statuses.contains_key(id) && !exists|k: int|
                        0 <= k < entries.len() && #[trigger] entries[k].thread_id == id
            }
        }),
{
    let lines = outcome_lines(statuses, entries);
    let extra = undescribed_entries(statuses, entries);
    let others = entry_threads(extra);
    if entries.len() == 0 && statuses.dom() =~= Set::empty() {
        law_line_text_runs_through_the_spans(lines[0].spans, Seq::empty(), plain());
    } else {
        if entries.len() == 0 {
            assert(!statuses.dom().is_empty());
        }
        law_outcome_lines_are_complete(statuses, entries);
        let set = statuses.dom().difference(entry_threads(entries).to_set());
        law_text_order_list_exists(set);
        let ids = in_text_order(set);
        assert(others =~= ids);
        assert forall|i: int| 0 <= i < entries.len() implies line_text(#[trigger] lines[i])
            == agent_reads(
            Some(entries[i].thread_id),
            option_view(entries[i].agent_nickname),
            option_view(entries[i].agent_role),
        ) + ": "@ + status_reads(entries[i].status) by {
            law_status_entry_reads(entries[i]);
        }
        assert forall|i: int| 0 <= i < others.len() implies line_text(
            #[trigger] lines[entries.len() + i],
        ) == others[i].text() + ": "@ + status_reads(statuses[others[i]]) && is_line_of_thread(
            lines[entries.len() + i],
            others[i],
            statuses[others[i]],
        ) by {
            law_status_entry_reads(extra[i]);
            law_label_reads_as_the_agent(Some(others[i]), None, None);
            assert((entries + extra)[entries.len() + i] == extra[i]);
            let spans = lines[entries.len() + i].spans;
            assert(spans.take(1)[0] == spans[0]);
        }
        assert forall|i: int, j: int| 0 <= i < j < others.len() implies (#[trigger] others[i]).value
            < (#[trigger] others[j]).value by {
            law_text_order_is_value_order(ids[i], ids[j]);
        }
        assert forall|id: ThreadId| #[trigger]
            others.contains(id) <==> statuses.contains_key(id) && !exists|k: int|
                0 <= k < entries.len() && #[trigger] entries[k].thread_id == id by {
            if exists|k: int| 0 <= k < entries.len() && #[trigger] entries[k].thread_id == id {
                let k = choose|k: int|
                    0 <= k < entries.len() && #[trigger] entries[k].thread_id == id;
                assert(entry_threads(entries)[k] == id);
                assert(entry_threads(entries).contains(id));
            } else if entry_threads(entries).contains(id) {
                let k = choose|k: int|
                    0 <= k < entry_threads(entries).len() && entry_threads(entries)[k] == id;
                assert(entries[k].thread_id == id);
            }
        }
    }
}

/// The title of a wait that has ended says what it was for, and whether it failed.
pub proof fn law_ended_wait_is_titled(kind: Option<TeamCallKind>)
    ensures
        finished_title(kind, false) == (match kind {
            Some(TeamCallKind::Spawn) => "Created agent team"@,
            Some(TeamCallKind::Wait) => "Finished waiting for agent team"@,
            Some(TeamCallKind::Close) => "Closed agent team"@,
            None => "Finished waiting"@,
        }),
        finished_title(kind, true) == (match kind {
            Some(TeamCallKind::Spawn) => "Agent team creation failed"@,
            Some(TeamCallKind::Wait) => "Agent team wait failed"@,
            Some(TeamCallKind::Close) => "Agent team close failed"@,
            None => "Wait failed"@,
        }),
{
}

/// A prompt is shown on one line without the white space around it, and cut to
/// 160 clusters; a blank one is not shown. A reason is cut alike, behind a red word.
pub proof fn law_prompts_and_reasons_are_shown(text: Seq<char>)
    ensures
        is_blank(text) ==> prompt_lines(text).len() == 0,
        !is_blank(text) ==> {
            &&& prompt_lines(text).len() == 1
            &&& prompt_lines(text)[0].spans.len() == 1
            &&& is_span(
                prompt_lines(text)[0].spans[0],
                truncated(trimmed(text), 160),
                None,
                false,
                false,
            )
            &&& line_text(prompt_lines(text)[0]) == truncated(trimmed(text), 160)
            &&& is_style(prompt_lines(text)[0].style, None, false, false)
        },
        reason_line(text).spans.len() == 2,
        is_span(reason_line(text).spans[0], "Failure: "@, Some(Color::Red), false, false),
        is_span(reason_line(text).spans[1], truncated(text, 160), None, false, false),
        is_style(reason_line(text).style, None, false, false),
        line_text(reason_line(text)) == "Failure: "@ + truncated(text, 160),
{
    law_trimmed_empty_iff_blank(text);
    if !is_blank(text) {
        law_line_text_runs_through_the_spans(prompt_lines(text)[0].spans, Seq::empty(), plain());
    }
    let spans = reason_line(text).spans;
    law_line_text_runs_through_the_spans(seq![spans[0]], seq![spans[1]], plain());
    law_line_text_runs_through_the_spans(seq![spans[1]], Seq::empty(), plain());
    assert(spans =~= seq![spans[0]] + seq![spans[1]]);
}

/// The name in the picker is the fixed one for the primary agent; of any other it
/// is the nickname and the role in brackets, as far as they are not blank, and a
/// fixed one where both are.
pub proof fn law_picker_name_is_nickname_and_role(
    nickname: Option<Seq<char>>,
    role: Option<Seq<char>>,
    badge: AgentPickerBadge,
)
    ensures
        item_name(nickname, role, true) == "Main [default]"@,
        list_item_name(nickname, role, badge, true) == "Main [default]"@,
        ({
            let named = nickname is Some && !is_blank(nickname->0);
            let has_role = role is Some && !is_blank(role->0);
            item_name(nickname, role, false) == (if named && has_role {
                trimmed(nickname->0) + " ["@ + trimmed(role->0) + "]"@
            } else if named {
                trimmed(nickname->0)
            } else if has_role {
                "["@ + trimmed(role->0) + "]"@
            } else {
                "Agent"@
            })
        }),
        list_item_name(nickname, role, badge, false) == (match badge {
            AgentPickerBadge::Unmarked => item_name(nickname, role, false),
            AgentPickerBadge::Working => item_name(nickname, role, false) + " [working]"@,
            AgentPickerBadge::Finish => item_name(nickname, role, false) + " [finish]"@,
            AgentPickerBadge::Error => item_name(nickname, role, false) + " [error]"@,
        }),
{
    law_non_blank_texts_are_kept(nickname);
    law_non_blank_texts_are_kept(role);
    reveal_strlit(" [");
    reveal_strlit("]");
    reveal_strlit("[");
    reveal_strlit("[working]");
    reveal_strlit("[finish]");
    reveal_strlit("[error]");
    reveal_strlit(" [working]");
    reveal_strlit(" [finish]");
    reveal_strlit(" [error]");
    let name = item_name(nickname, role, false);
    assert(name + seq![' '] + "[working]"@ =~= name + " [working]"@);
    assert(name + seq![' '] + "[finish]"@ =~= name + " [finish]"@);
    assert(name + seq![' '] + "[error]"@ =~= name + " [error]"@);
    if role is Some {
        let r = trimmed(role->0);
        assert(bracketed(r) =~= "["@ + r + "]"@);
        if nickname is Some {
            let n = trimmed(nickname->0);
            assert(n + seq![' '] + bracketed(r) =~= n + " ["@ + r + "]"@);
        }
    }
}

/// In the picker no closed thread stands before an open one, and among the open
/// and among the closed threads the identifiers do not decrease.
pub proof fn law_picker_lists_open_threads_first(threads: Seq<(ThreadId, AgentPickerThreadEntry)>)
    ensures
        in_picker_order(threads) <==> forall|i: int, j: int|
            #![trigger threads[i], threads[j]]
            0 <= i < j < threads.len() ==> {
                &&& threads[i].1.is_closed ==> threads[j].1.is_closed
                &&& threads[i].1.is_closed == threads[j].1.is_closed ==> threads[i].0.value
                    <= threads[j].0.value
            },
{
    assert forall|i: int, j: int|
        #![trigger threads[i], threads[j]]
        0 <= i < j < threads.len() implies (!comes_before(threads[j], threads[i]) <==> {
        &&& threads[i].1.is_closed ==> threads[j].1.is_closed
        &&& threads[i].1.is_closed == threads[j].1.is_closed ==> threads[i].0.value
            <= threads[j].0.value
    }) by {
        law_text_order_is_value_order(threads[j].0, threads[i].0);
    }
}

} // verus!
