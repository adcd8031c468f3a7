//! The agent picker: the names it shows and the order of its threads.

use crate::agent::AgentStatus;
use crate::line::{colored, plain, span_of, span_views, Color, Span};
use crate::text::{
    is_white_space, law_trimmed_is_stable, non_blank, option_str_view, trim_non_empty, trimmed,
};
use crate::thread_id::{law_text_order_is_value_order, text_less, ThreadId};
use vstd::prelude::*;
use vstd::string::StringExecFns;

verus! {

/// What the picker marks an agent with.
#[derive(Debug, Clone, Copy, PartialEq, Eq, Structural)]
pub enum AgentPickerBadge {
    Unmarked,
    Working,
    Finish,
    Error,
}

/// What the picker knows of a thread.
#[derive(Debug, PartialEq, Eq)]
pub struct AgentPickerThreadEntry {
    pub agent_nickname: Option<String>,
    pub agent_role: Option<String>,
    pub is_closed: bool,
    pub badge: AgentPickerBadge,
}

impl AgentPickerBadge {
    /// The text of the badge.
    pub open spec fn label(self) -> Option<Seq<char>> {
        match self {
            AgentPickerBadge::Unmarked => None,
            AgentPickerBadge::Working => Some("[working]"@),
            AgentPickerBadge::Finish => Some("[finish]"@),
            AgentPickerBadge::Error => Some("[error]"@),
        }
    }

    /// The text that follows the agent's name.
    pub fn suffix(self) -> (r: Option<&'static str>)
        ensures
            option_str_view(r) == self.label(),
    {
        match self {
            AgentPickerBadge::Unmarked => None,
            AgentPickerBadge::Working => Some("[working]"),
            AgentPickerBadge::Finish => Some("[finish]"),
            AgentPickerBadge::Error => Some("[error]"),
        }
    }
}

impl Default for AgentPickerBadge {
    fn default() -> (r: AgentPickerBadge)
        ensures
            r == AgentPickerBadge::Unmarked,
    {
        AgentPickerBadge::Unmarked
    }
}

impl Clone for AgentPickerThreadEntry {
    fn clone(&self) -> (r: AgentPickerThreadEntry)
        ensures
            r == *self,
    {
        AgentPickerThreadEntry {
            agent_nickname: self.agent_nickname.clone(),
            agent_role: self.agent_role.clone(),
            is_closed: self.is_closed,
            badge: self.badge,
        }
    }
}

impl Default for AgentPickerThreadEntry {
    fn default() -> (r: AgentPickerThreadEntry)
        ensures
            r == (AgentPickerThreadEntry {
                agent_nickname: None,
                agent_role: None,
                is_closed: false,
                badge: AgentPickerBadge::Unmarked,
            }),
    {
        AgentPickerThreadEntry {
            agent_nickname: None,
            agent_role: None,
            is_closed: false,
            badge: AgentPickerBadge::Unmarked,
        }
    }
}

/// The badge that a status calls for.
pub fn agent_picker_badge_from_status(status: &AgentStatus) -> (r: AgentPickerBadge)
    ensures
        r == AgentPickerBadge::Working <==> *status is Running,
        r == AgentPickerBadge::Finish <==> *status is Completed,
        r == AgentPickerBadge::Error <==> *status is Errored,
        r == AgentPickerBadge::Unmarked <==> (*status is PendingInit || *status is Shutdown
            || *status is NotFound),
{
    match status {
        AgentStatus::Running => AgentPickerBadge::Working,
        AgentStatus::Completed(_) => AgentPickerBadge::Finish,
        AgentStatus::Errored(_) => AgentPickerBadge::Error,
        AgentStatus::PendingInit => AgentPickerBadge::Unmarked,
        AgentStatus::Shutdown => AgentPickerBadge::Unmarked,
        AgentStatus::NotFound => AgentPickerBadge::Unmarked,
    }
}

/// The dot before a thread: green while the thread is open.
pub fn agent_picker_status_dot_spans(is_closed: bool) -> (r: Vec<Span>)
    ensures
        span_views(r@) == seq![
            span_of(
                "•"@,
                if is_closed {
                    plain()
                } else {
                    colored(Color::Green)
                },
            ),
            span_of(" "@, plain()),
        ],
{
    let dot = if is_closed {
        Span::text("•")
    } else {
        Span::text("•").fg(Color::Green)
    };
    let spans = vec![dot, Span::text(" ")];
    proof {
        assert(span_views(spans@) =~= seq![dot@, span_of(" "@, plain())]);
    }
    spans
}

/// A text in square brackets.
pub open spec fn bracketed(text: Seq<char>) -> Seq<char> {
    seq!['['] + text + seq![']']
}

/// The name of an agent: the nickname, the role in brackets, or both.
pub open spec fn item_name(
    nickname: Option<Seq<char>>,
    role: Option<Seq<char>>,
    is_primary: bool,
) -> Seq<char> {
    if is_primary {
        "Main [default]"@
    } else {
        match (non_blank(nickname), non_blank(role)) {
            (Some(nickname), Some(role)) => nickname + seq![' '] + bracketed(role),
            (Some(nickname), None) => nickname,
            (None, Some(role)) => bracketed(role),
            (None, None) => "Agent"@,
        }
    }
}

/// The name of an agent with the text of its badge behind it.
pub open spec fn list_item_name(
    nickname: Option<Seq<char>>,
    role: Option<Seq<char>>,
    badge: AgentPickerBadge,
    is_primary: bool,
) -> Seq<char> {
    let name = item_name(nickname, role, is_primary);
    match badge.label() {
        Some(label) => if is_primary {
            name
        } else {
            name + seq![' '] + label
        },
        None => name,
    }
}

/// Puts a text in square brackets.
pub fn bracket(text: &str) -> (r: String)
    ensures
        r@ == bracketed(text@),
{
    let mut out = String::new();
    out.push('[');
    out.append(text);
    out.push(']');
    proof {
        assert(out@ =~= bracketed(text@));
    }
    out
}

/// The name of an agent in the picker.
pub fn format_agent_picker_item_name(
    agent_nickname: Option<&str>,
    agent_role: Option<&str>,
    is_primary: bool,
) -> (r: String)
    ensures
        r@ == item_name(option_str_view(agent_nickname), option_str_view(agent_role), is_primary),
{
    if is_primary {
        return "Main [default]".to_string();
    }
    let agent_nickname = trim_non_empty(agent_nickname);
    let agent_role = trim_non_empty(agent_role);
    match (agent_nickname, agent_role) {
        (Some(nickname), Some(role)) => {
            let mut name = nickname.to_string();
            name.push(' ');
            name.append(bracket(role).as_str());
            proof {
                assert(name@ =~= nickname@ + seq![' '] + bracketed(role@));
            }
            name
        },
        (Some(nickname), None) => nickname.to_string(),
        (None, Some(role)) => bracket(role),
        (None, None) => "Agent".to_string(),
    }
}

/// The name of an agent in the list, with its badge.
pub fn format_agent_picker_list_item_name(
    agent_nickname: Option<&str>,
    agent_role: Option<&str>,
    badge: AgentPickerBadge,
    is_primary: bool,
) -> (r: String)
    ensures
        r@ == list_item_name(
            option_str_view(agent_nickname),
            option_str_view(agent_role),
            badge,
            is_primary,
        ),
{
    let mut label = format_agent_picker_item_name(agent_nickname, agent_role, is_primary);
    let ghost name = label@;
    if !is_primary {
        if let Some(suffix) = badge.suffix() {
            label.push(' ');
            label.append(suffix);
            proof {
                assert(label@ =~= name + seq![' '] + suffix@);
            }
        }
    }
    label
}

/// No agent is shown without a name.
pub proof fn law_item_name_is_never_empty(
    nickname: Option<Seq<char>>,
    role: Option<Seq<char>>,
    badge: AgentPickerBadge,
    is_primary: bool,
)
    ensures
        item_name(nickname, role, is_primary).len() > 0,
        list_item_name(nickname, role, badge, is_primary).len() > 0,
{
    reveal_strlit("Main [default]");
    reveal_strlit("Agent");
}

/// White space around a nickname or a role does not show, and a blank one counts
/// as absent.
pub proof fn law_item_name_ignores_outer_white_space(
    nickname: Option<Seq<char>>,
    role: Option<Seq<char>>,
    badge: AgentPickerBadge,
    is_primary: bool,
)
    ensures
        item_name(nickname, role, is_primary) == item_name(
            non_blank(nickname),
            non_blank(role),
            is_primary,
        ),
        list_item_name(nickname, role, badge, is_primary) == list_item_name(
            non_blank(nickname),
            non_blank(role),
            badge,
            is_primary,
        ),
{
    if nickname is Some {
        law_trimmed_is_stable(nickname->0);
    }
    if role is Some {
        law_trimmed_is_stable(role->0);
    }
}

/// A name has no white space at its ends.
pub proof fn law_item_name_is_trimmed(
    nickname: Option<Seq<char>>,
    role: Option<Seq<char>>,
    badge: AgentPickerBadge,
    is_primary: bool,
)
    ensures
        trimmed(item_name(nickname, role, is_primary)) == item_name(nickname, role, is_primary),
        trimmed(list_item_name(nickname, role, badge, is_primary)) == list_item_name(
            nickname,
            role,
            badge,
            is_primary,
        ),
{
    reveal_strlit("Main [default]");
    reveal_strlit("Agent");
    reveal_strlit("[working]");
    reveal_strlit("[finish]");
    reveal_strlit("[error]");
    if nickname is Some {
        law_trimmed_is_stable(nickname->0);
    }
    let name = item_name(nickname, role, is_primary);
    assert(!is_white_space(name.first()) && !is_white_space(name.last()));
    let label = list_item_name(nickname, role, badge, is_primary);
    assert(!is_white_space(label.first()) && !is_white_space(label.last()));
}

/// The first thread stands before the second one: it alone is open, or they agree
/// in that and its identifier has the smaller text.
pub open spec fn comes_before(
    a: (ThreadId, AgentPickerThreadEntry),
    b: (ThreadId, AgentPickerThreadEntry),
) -> bool {
    ||| !a.1.is_closed && b.1.is_closed
    ||| a.1.is_closed == b.1.is_closed && text_less(a.0.text(), b.0.text())
}

/// The threads in order: open ones first, then by the text of the identifier.
pub open spec fn in_picker_order(threads: Seq<(ThreadId, AgentPickerThreadEntry)>) -> bool {
    forall|i: int, j: int|
        #![trigger threads[i], threads[j]]
        0 <= i < j < threads.len() ==> !comes_before(threads[j], threads[i])
}

/// The threads that are equal in the picker's order to a given identifier and
/// state, in the order in which they stand.
pub open spec fn same_place(
    threads: Seq<(ThreadId, AgentPickerThreadEntry)>,
    id: ThreadId,
    is_closed: bool,
) -> Seq<(ThreadId, AgentPickerThreadEntry)> {
    threads.filter(
        |t: (ThreadId, AgentPickerThreadEntry)| t.0 == id && t.1.is_closed == is_closed,
    )
}

fn precedes(
    a: &(ThreadId, AgentPickerThreadEntry),
    b: &(ThreadId, AgentPickerThreadEntry),
) -> (r: bool)
    ensures
        r == comes_before(*a, *b),
{
    proof {
        law_text_order_is_value_order(a.0, b.0);
    }
    (!a.1.is_closed && b.1.is_closed) || (a.1.is_closed == b.1.is_closed && a.0.value < b.0.value)
}

proof fn lemma_order_is_transitive(
    a: (ThreadId, AgentPickerThreadEntry),
    b: (ThreadId, AgentPickerThreadEntry),
    c: (ThreadId, AgentPickerThreadEntry),
)
    ensures
        comes_before(a, b) && comes_before(b, c) ==> comes_before(a, c),
        comes_before(a, b) ==> !comes_before(b, a),
        comes_before(a, b) && !comes_before(c, b) ==> comes_before(a, c),
{
    law_text_order_is_value_order(a.0, b.0);
    law_text_order_is_value_order(b.0, a.0);
    law_text_order_is_value_order(b.0, c.0);
    law_text_order_is_value_order(c.0, b.0);
    law_text_order_is_value_order(a.0, c.0);
}

/// Moving an element over others that are not equal to it keeps each group of
/// equal elements as it is.
proof fn lemma_move_keeps_groups(
    before: Seq<(ThreadId, AgentPickerThreadEntry)>,
    after: Seq<(ThreadId, AgentPickerThreadEntry)>,
    from: int,
    to: int,
)
    requires
        0 <= to <= from < before.len(),
        after == before.remove(from).insert(to, before[from]),
        forall|i: int| to <= i < from ==> comes_before(before[from], #[trigger] before[i]),
    ensures
        forall|id: ThreadId, is_closed: bool| #[trigger]
            same_place(after, id, is_closed) == same_place(before, id, is_closed),
{
    let x = before[from];
    let a = before.subrange(0, to);
    let b = before.subrange(to, from);
    let c = before.subrange(from + 1, before.len() as int);
    assert(before =~= a + b + seq![x] + c);
    assert(after =~= a + seq![x] + b + c);
    assert forall|id: ThreadId, is_closed: bool| #[trigger]
        same_place(after, id, is_closed) == same_place(before, id, is_closed) by {
        let pred = |t: (ThreadId, AgentPickerThreadEntry)| t.0 == id && t.1.is_closed == is_closed;
        Seq::filter_distributes_over_add(a + b + seq![x], c, pred);
        Seq::filter_distributes_over_add(a + b, seq![x], pred);
        Seq::filter_distributes_over_add(a, b, pred);
        Seq::filter_distributes_over_add(a + seq![x] + b, c, pred);
        Seq::filter_distributes_over_add(a + seq![x], b, pred);
        Seq::filter_distributes_over_add(a, seq![x], pred);
        if pred(x) {
            assert(b.filter(pred).len() == 0) by {
                if b.filter(pred).len() > 0 {
                    b.lemma_filter_pred(pred, 0);
                    let y = b.filter(pred)[0];
                    lemma_filter_element(b, pred, 0);
                    let i = choose|i: int| 0 <= i < b.len() && b[i] == y;
                    assert(before[to + i] == y);
                    assert(comes_before(x, y));
                    law_text_order_is_value_order(x.0, y.0);
                }
            }
            assert(b.filter(pred) =~= Seq::empty());
            assert(a.filter(pred) + b.filter(pred) + seq![x].filter(pred) =~= a.filter(pred)
                + seq![x].filter(pred) + b.filter(pred));
        } else {
            assert(seq![x].filter(pred) =~= Seq::empty()) by {
                reveal_with_fuel(Seq::filter, 2);
                assert(seq![x].drop_last() =~= Seq::empty());
            }
            assert(a.filter(pred) + b.filter(pred) + seq![x].filter(pred) =~= a.filter(pred)
                + seq![x].filter(pred) + b.filter(pred));
        }
    }
}

proof fn lemma_filter_element<A>(s: Seq<A>, pred: spec_fn(A) -> bool, i: int)
    requires
        0 <= i < s.filter(pred).len(),
    ensures
        s.contains(s.filter(pred)[i]),
    decreases s.len(),
{
    reveal(Seq::filter);
    if s.len() > 0 {
        let t = s.drop_last();
        if i < t.filter(pred).len() {
            lemma_filter_element(t, pred, i);
            let j = choose|j: int| 0 <= j < t.len() && t[j] == t.filter(pred)[i];
            assert(s[j] == t[j]);
        } else {
            assert(s[s.len() - 1] == s.filter(pred)[i]);
        }
    }
}

/// Sorts the threads of the picker: open ones first, then by the text of the
/// identifier. Threads that are equal in that order keep their order.
pub fn sort_agent_picker_threads(agent_threads: &mut Vec<(ThreadId, AgentPickerThreadEntry)>)
    ensures
        in_picker_order(final(agent_threads)@),
        final(agent_threads)@.len() == old(agent_threads)@.len(),
        forall|id: ThreadId, is_closed: bool| #[trigger]
            same_place(final(agent_threads)@, id, is_closed) == same_place(
                old(agent_threads)@,
                id,
                is_closed,
            ),
{
    let ghost unsorted = agent_threads@;
    let mut sorted: usize = 0;
    while sorted < agent_threads.len()
        invariant
            sorted <= agent_threads@.len(),
            agent_threads@.len() == unsorted.len(),
            in_picker_order(agent_threads@.take(sorted as int)),
            forall|id: ThreadId, is_closed: bool| #[trigger]
                same_place(agent_threads@, id, is_closed) == same_place(unsorted, id, is_closed),
        decreases unsorted.len() - sorted,
    {
        let ghost before = agent_threads@;
        let mut place: usize = sorted;
        while place > 0 && precedes(&agent_threads[sorted], &agent_threads[place - 1])
            invariant
                place <= sorted < before.len(),
                agent_threads@ == before,
                forall|i: int|
                    place <= i < sorted ==> comes_before(before[sorted as int], #[trigger] before[i]),
            decreases place,
        {
            place = place - 1;
        }
        let thread = agent_threads.remove(sorted);
        agent_threads.insert(place, thread);
        proof {
            let after = agent_threads@;
            let x = before[sorted as int];
            assert(after == before.remove(sorted as int).insert(place as int, x));
            lemma_move_keeps_groups(before, after, sorted as int, place as int);
            let head = before.take(sorted as int);
            let longer = after.take(sorted + 1);
            assert forall|i: int, j: int|
                #![trigger longer[i], longer[j]]
                0 <= i < j < longer.len() implies !comes_before(longer[j], longer[i]) by {
                if i < place && j < place {
                    assert(longer[i] == head[i] && longer[j] == head[j]);
                } else if i < place && j == place {
                    // The last of the elements that stay in front does not follow `x`.
                    assert(longer[i] == head[i]);
                    assert(!comes_before(x, head[place - 1]));
                    if i < place - 1 {
                        assert(!comes_before(head[place - 1], head[i]));
                        lemma_order_is_transitive(x, head[i], head[place - 1]);
                    }
                } else if i < place {
                    assert(longer[i] == head[i] && longer[j] == head[j - 1]);
                } else if i == place {
                    assert(longer[j] == head[j - 1]);
                    lemma_order_is_transitive(x, head[j - 1], x);
                } else {
                    assert(longer[i] == head[i - 1] && longer[j] == head[j - 1]);
                }
            }
        }
        sorted = sorted + 1;
    }
    proof {
        assert(agent_threads@.take(agent_threads@.len() as int) =~= agent_threads@);
    }
}

/// The threads of one group are found by the same identifier and state.
proof fn lemma_group_member(threads: Seq<(ThreadId, AgentPickerThreadEntry)>, i: int)
    requires
        0 <= i < threads.len(),
    ensures
        same_place(threads, threads[i].0, threads[i].1.is_closed).contains(threads[i]),
{
    let t = threads[i];
    let pred = |u: (ThreadId, AgentPickerThreadEntry)|
        u.0 == t.0 && u.1.is_closed == t.1.is_closed;
    threads.lemma_filter_contains(pred, i);
}

/// The last thread that stands in order comes before none of the threads that
/// another list in order with the same groups holds.
proof fn lemma_last_is_no_earlier(
    a: Seq<(ThreadId, AgentPickerThreadEntry)>,
    b: Seq<(ThreadId, AgentPickerThreadEntry)>,
)
    requires
        a.len() > 0,
        b.len() > 0,
        in_picker_order(a),
        forall|id: ThreadId, is_closed: bool| #[trigger]
            same_place(a, id, is_closed) == same_place(b, id, is_closed),
    ensures
        !comes_before(a.last(), b.last()),
{
    let y = b.last();
    lemma_group_member(b, b.len() - 1);
    let group = same_place(a, y.0, y.1.is_closed);
    assert(group == same_place(b, y.0, y.1.is_closed));
    let k = choose|k: int| 0 <= k < group.len() && group[k] == y;
    let pred = |u: (ThreadId, AgentPickerThreadEntry)|
        u.0 == y.0 && u.1.is_closed == y.1.is_closed;
    lemma_filter_element(a, pred, k);
    let m = choose|m: int| 0 <= m < a.len() && a[m] == y;
    if m < a.len() - 1 {
        assert(!comes_before(a[a.len() - 1], a[m]));
    } else {
        lemma_order_is_transitive(y, y, y);
    }
}

proof fn lemma_group_without_last(
    threads: Seq<(ThreadId, AgentPickerThreadEntry)>,
    id: ThreadId,
    is_closed: bool,
)
    requires
        threads.len() > 0,
    ensures
        same_place(threads, id, is_closed) == (if threads.last().0 == id
            && threads.last().1.is_closed == is_closed {
            same_place(threads.drop_last(), id, is_closed).push(threads.last())
        } else {
            same_place(threads.drop_last(), id, is_closed)
        }),
{
    reveal(Seq::filter);
}

/// There is only one way to put threads in order and keep the order of those that
/// are equal: two lists in order with the same groups are the same.
pub proof fn law_picker_order_is_unique(
    a: Seq<(ThreadId, AgentPickerThreadEntry)>,
    b: Seq<(ThreadId, AgentPickerThreadEntry)>,
)
    requires
        in_picker_order(a),
        in_picker_order(b),
        a.len() == b.len(),
        forall|id: ThreadId, is_closed: bool| #[trigger]
            same_place(a, id, is_closed) == same_place(b, id, is_closed),
    ensures
        a == b,
    decreases a.len(),
{
    if a.len() > 0 {
        lemma_last_is_no_earlier(a, b);
        lemma_last_is_no_earlier(b, a);
        let x = a.last();
        let y = b.last();
        law_text_order_is_value_order(x.0, y.0);
        law_text_order_is_value_order(y.0, x.0);
        assert(x.0 == y.0 && x.1.is_closed == y.1.is_closed);
        lemma_group_without_last(a, x.0, x.1.is_closed);
        lemma_group_without_last(b, x.0, x.1.is_closed);
        assert(same_place(a, x.0, x.1.is_closed).last() == x);
        assert(same_place(b, x.0, x.1.is_closed).last() == y);
        assert forall|id: ThreadId, is_closed: bool| #[trigger]
            same_place(a.drop_last(), id, is_closed) == same_place(b.drop_last(), id, is_closed) by {
            lemma_group_without_last(a, id, is_closed);
            lemma_group_without_last(b, id, is_closed);
            assert(same_place(a, id, is_closed) == same_place(b, id, is_closed));
            if x.0 == id && x.1.is_closed == is_closed {
                let short = same_place(a.drop_last(), id, is_closed);
                assert(short.push(x).drop_last() =~= short);
                let other = same_place(b.drop_last(), id, is_closed);
                assert(other.push(y).drop_last() =~= other);
            }
        }
        law_picker_order_is_unique(a.drop_last(), b.drop_last());
        assert(a =~= a.drop_last().push(x));
        assert(b =~= b.drop_last().push(y));
    } else {
        assert(a =~= b);
    }
}

} // verus!
