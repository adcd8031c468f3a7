//! Agents as the transcript speaks of them: who they are and how they fare.

use crate::thread_id::{law_text_order_is_value_order, text_less, ThreadId};
use std::collections::HashMap;
use vstd::prelude::*;

verus! {

/// How an agent fares.
#[derive(Debug, PartialEq, Eq)]
pub enum AgentStatus {
    PendingInit,
    Running,
    Completed(Option<String>),
    Errored(String),
    Shutdown,
    NotFound,
}

impl Clone for AgentStatus {
    fn clone(&self) -> (r: AgentStatus)
        ensures
            r == *self,
    {
        match self {
            AgentStatus::PendingInit => AgentStatus::PendingInit,
            AgentStatus::Running => AgentStatus::Running,
            AgentStatus::Completed(Some(message)) => AgentStatus::Completed(Some(message.clone())),
            AgentStatus::Completed(None) => AgentStatus::Completed(None),
            AgentStatus::Errored(error) => AgentStatus::Errored(error.clone()),
            AgentStatus::Shutdown => AgentStatus::Shutdown,
            AgentStatus::NotFound => AgentStatus::NotFound,
        }
    }
}

/// An agent by its thread, with its nickname and role where they are known.
#[derive(Debug, PartialEq, Eq)]
pub struct CollabAgentRef {
    pub thread_id: ThreadId,
    pub agent_nickname: Option<String>,
    pub agent_role: Option<String>,
}

/// An agent together with its status.
#[derive(Debug, PartialEq, Eq)]
pub struct CollabAgentStatusEntry {
    pub thread_id: ThreadId,
    pub agent_nickname: Option<String>,
    pub agent_role: Option<String>,
    pub status: AgentStatus,
}

impl Clone for CollabAgentStatusEntry {
    fn clone(&self) -> (r: CollabAgentStatusEntry)
        ensures
            r == *self,
    {
        CollabAgentStatusEntry {
            thread_id: self.thread_id,
            agent_nickname: self.agent_nickname.clone(),
            agent_role: self.agent_role.clone(),
            status: self.status.clone(),
        }
    }
}

impl CollabAgentRef {
    /// An agent of which only the thread is known.
    pub open spec fn anonymous(thread_id: ThreadId) -> CollabAgentRef {
        CollabAgentRef { thread_id, agent_nickname: None, agent_role: None }
    }
}

impl CollabAgentStatusEntry {
    /// The status of an agent of which only the thread is known.
    pub open spec fn anonymous(thread_id: ThreadId, status: AgentStatus) -> CollabAgentStatusEntry {
        CollabAgentStatusEntry { thread_id, agent_nickname: None, agent_role: None, status }
    }
}

/// The last known status of each of some threads.
#[derive(Debug)]
pub struct StatusMap {
    entries: HashMap<u128, AgentStatus>,
}

/// The identifiers of a set, each once, in the order of their texts.
pub open spec fn lists_in_text_order(ids: Seq<ThreadId>, set: Set<ThreadId>) -> bool {
    &&& forall|i: int, j: int|
        #![trigger ids[i], ids[j]]
        0 <= i < j < ids.len() ==> text_less(ids[i].text(), ids[j].text())
    &&& forall|id: ThreadId| #[trigger] ids.contains(id) <==> set.contains(id)
}

/// The list of a set's identifiers in the order of their texts.
pub open spec fn in_text_order(set: Set<ThreadId>) -> Seq<ThreadId> {
    choose|ids: Seq<ThreadId>| lists_in_text_order(ids, set)
}

spec fn increasing(ids: Seq<ThreadId>) -> bool {
    forall|i: int, j: int|
        #![trigger ids[i], ids[j]]
        0 <= i < j < ids.len() ==> ids[i].value < ids[j].value
}

proof fn lemma_increasing_lists(ids: Seq<ThreadId>, set: Set<ThreadId>)
    requires
        increasing(ids),
        forall|id: ThreadId| #[trigger] ids.contains(id) <==> set.contains(id),
    ensures
        lists_in_text_order(ids, set),
{
    assert forall|i: int, j: int|
        #![trigger ids[i], ids[j]]
        0 <= i < j < ids.len() implies text_less(ids[i].text(), ids[j].text()) by {
        law_text_order_is_value_order(ids[i], ids[j]);
    }
}

/// There is one list of a set in the order of the texts at most.
pub proof fn law_text_order_list_is_unique(a: Seq<ThreadId>, b: Seq<ThreadId>, set: Set<ThreadId>)
    requires
        lists_in_text_order(a, set),
        lists_in_text_order(b, set),
    ensures
        a == b,
    decreases a.len(),
{
    if a.len() == 0 {
        if b.len() > 0 {
            assert(b.contains(b[0]));
            assert(a.contains(b[0]));
        }
        assert(a =~= b);
    } else {
        assert(a.contains(a.last()));
        assert(b.contains(a.last()));
        let k = choose|k: int| 0 <= k < b.len() && b[k] == a.last();
        assert(b.contains(b.last()));
        assert(a.contains(b.last()));
        let m = choose|m: int| 0 <= m < a.len() && a[m] == b.last();
        if k < b.len() - 1 && m < a.len() - 1 {
            law_text_order_is_value_order(b[k], b.last());
            law_text_order_is_value_order(a[m], a.last());
        }
        if k < b.len() - 1 {
            law_text_order_is_value_order(b[k], b.last());
        }
        if m < a.len() - 1 {
            law_text_order_is_value_order(a[m], a.last());
        }
        let last = a.last();
        assert(b.last() == last);
        let rest = set.remove(last);
        lemma_drop_last_lists(a, set);
        lemma_drop_last_lists(b, set);
        law_text_order_list_is_unique(a.drop_last(), b.drop_last(), rest);
        assert(a =~= a.drop_last().push(last));
        assert(b =~= b.drop_last().push(last));
    }
}

proof fn lemma_drop_last_lists(a: Seq<ThreadId>, set: Set<ThreadId>)
    requires
        a.len() > 0,
        lists_in_text_order(a, set),
    ensures
        lists_in_text_order(a.drop_last(), set.remove(a.last())),
{
    let short = a.drop_last();
    let rest = set.remove(a.last());
    assert forall|id: ThreadId| #[trigger] short.contains(id) <==> rest.contains(id) by {
        if short.contains(id) {
            let i = choose|i: int| 0 <= i < short.len() && short[i] == id;
            assert(a[i] == id);
            assert(a.contains(id));
            law_text_order_is_value_order(a[i], a.last());
        }
        if rest.contains(id) {
            assert(a.contains(id));
            let i = choose|i: int| 0 <= i < a.len() && a[i] == id;
            assert(short[i] == id);
        }
    }
}

/// Puts an identifier in its place among identifiers in the order of their texts.
fn insert_in_order(ids: &mut Vec<ThreadId>, id: ThreadId)
    requires
        increasing(old(ids)@),
        !old(ids)@.contains(id),
    ensures
        increasing(final(ids)@),
        forall|other: ThreadId| #[trigger]
            final(ids)@.contains(other) <==> old(ids)@.contains(other) || other == id,
{
    let ghost before = ids@;
    let mut place: usize = 0;
    while place < ids.len() && ids[place].value < id.value
        invariant
            ids@ == before,
            increasing(before),
            place <= before.len(),
            forall|i: int| 0 <= i < place ==> (#[trigger] before[i]).value < id.value,
        decreases before.len() - place,
    {
        place = place + 1;
    }
    ids.insert(place, id);
    proof {
        lemma_insert_keeps_increasing(before, place as int, id);
    }
}

proof fn lemma_insert_keeps_increasing(before: Seq<ThreadId>, place: int, id: ThreadId)
    requires
        increasing(before),
        !before.contains(id),
        0 <= place <= before.len(),
        forall|i: int| 0 <= i < place ==> (#[trigger] before[i]).value < id.value,
        place < before.len() ==> before[place].value >= id.value,
    ensures
        increasing(before.insert(place, id)),
        forall|other: ThreadId| #[trigger]
            before.insert(place, id).contains(other) <==> before.contains(other) || other == id,
{
    let after = before.insert(place, id);
    if place < before.len() {
        assert(before.contains(before[place]));
        if before[place].value == id.value {
            assert(before[place] == id);
        }
    }
    assert forall|i: int, j: int|
        #![trigger after[i], after[j]]
        0 <= i < j < after.len() implies after[i].value < after[j].value by {
        if i == place {
            assert(after[j] == before[j - 1]);
            if place < j - 1 {
                assert(before[place].value < before[j - 1].value);
            }
        } else if j == place {
            assert(after[i] == before[i]);
        } else {
            let bi = if i < place {
                i
            } else {
                i - 1
            };
            let bj = if j < place {
                j
            } else {
                j - 1
            };
            assert(before[bi].value < before[bj].value);
        }
    }
    assert forall|other: ThreadId| #[trigger]
        after.contains(other) <==> before.contains(other) || other == id by {
        if after.contains(other) && other != id {
            let i = choose|i: int| 0 <= i < after.len() && after[i] == other;
            if i < place {
                assert(before[i] == other);
            } else {
                assert(before[i - 1] == other);
            }
        }
        if before.contains(other) {
            let i = choose|i: int| 0 <= i < before.len() && before[i] == other;
            if i < place {
                assert(after[i] == other);
            } else {
                assert(after[i + 1] == other);
            }
        }
        assert(after[place] == id);
    }
}

/// The place of an identifier among the first `n` of an increasing list.
proof fn lemma_find_place(ids: Seq<ThreadId>, id: ThreadId, n: int) -> (place: int)
    requires
        increasing(ids),
        0 <= n <= ids.len(),
        n < ids.len() ==> ids[n].value >= id.value,
    ensures
        0 <= place <= ids.len(),
        forall|i: int| 0 <= i < place ==> (#[trigger] ids[i]).value < id.value,
        place < ids.len() ==> ids[place].value >= id.value,
    decreases n,
{
    if n == 0 || ids[n - 1].value < id.value {
        n
    } else {
        lemma_find_place(ids, id, n - 1)
    }
}

proof fn lemma_increasing_list_exists(set: Set<ThreadId>) -> (ids: Seq<ThreadId>)
    requires
        set.finite(),
    ensures
        increasing(ids),
        forall|id: ThreadId| #[trigger] ids.contains(id) <==> set.contains(id),
    decreases set.len(),
{
    if set.len() == 0 {
        let ids = Seq::<ThreadId>::empty();
        assert(set =~= Set::empty());
        ids
    } else {
        let id = set.choose();
        let rest = set.remove(id);
        let before = lemma_increasing_list_exists(rest);
        assert(!before.contains(id));
        let place = lemma_find_place(before, id, before.len() as int);
        lemma_insert_keeps_increasing(before, place, id);
        before.insert(place, id)
    }
}

/// Every finite set of identifiers has its list in the order of the texts.
pub proof fn law_text_order_list_exists(set: Set<ThreadId>)
    requires
        set.finite(),
    ensures
        lists_in_text_order(in_text_order(set), set),
{
    let ids = lemma_increasing_list_exists(set);
    lemma_increasing_lists(ids, set);
}

impl View for StatusMap {
    type V = Map<ThreadId, AgentStatus>;

    closed spec fn view(&self) -> Map<ThreadId, AgentStatus> {
        Map::new(
            |id: ThreadId| self.entries@.contains_key(id.value),
            |id: ThreadId| self.entries@[id.value],
        )
    }
}

impl StatusMap {
    /// A map has statuses of finitely many threads.
    pub proof fn law_threads_are_finite(&self)
        ensures
            self@.dom().finite(),
    {
        let f = |value: u128| ThreadId { value };
        let keys = self.entries@.dom();
        assert(keys.finite());
        keys.lemma_map_finite(f);
        assert(self@.dom() =~= keys.map(f)) by {
            assert forall|id: ThreadId| self@.dom().contains(id) implies #[trigger] keys.map(
                f,
            ).contains(id) by {
                assert(f(id.value) == id);
            }
        }
    }

    /// A map without entries.
    pub fn new() -> (r: StatusMap)
        ensures
            r@ == Map::<ThreadId, AgentStatus>::empty(),
    {
        let r = StatusMap { entries: HashMap::new() };
        proof {
            assert(r@ =~= Map::<ThreadId, AgentStatus>::empty());
        }
        r
    }

    /// Sets the status of a thread.
    pub fn insert(&mut self, thread_id: ThreadId, status: AgentStatus)
        ensures
            final(self)@ == old(self)@.insert(thread_id, status),
    {
        self.entries.insert(thread_id.value, status);
        proof {
            assert(self@ =~= old(self)@.insert(thread_id, status));
        }
    }

    /// The status of a thread, where there is one.
    pub fn get(&self, thread_id: ThreadId) -> (r: Option<AgentStatus>)
        ensures
            r == (if self@.contains_key(thread_id) {
                Some(self@[thread_id])
            } else {
                None
            }),
    {
        match self.entries.get(&thread_id.value) {
            Some(status) => Some(status.clone()),
            None => None,
        }
    }

    /// Tells whether the map has no entries.
    pub fn is_empty(&self) -> (r: bool)
        ensures
            r == self@.dom().is_empty(),
    {
        let r = self.entries.is_empty();
        proof {
            if self.entries@.dom().is_empty() {
                assert(self@.dom() =~= Set::empty());
            } else {
                let key = self.entries@.dom().choose();
                assert(self@.dom().contains(ThreadId { value: key }));
            }
        }
        r
    }

    /// The threads of the map that are not among `known`, in the order of the
    /// texts of their identifiers.
    pub fn threads_besides(&self, known: &Vec<ThreadId>) -> (r: Vec<ThreadId>)
        ensures
            r@ == in_text_order(self@.dom().difference(known@.to_set())),
            lists_in_text_order(r@, self@.dom().difference(known@.to_set())),
    {
        let mut ids: Vec<ThreadId> = Vec::new();
        let ghost wanted = self@.dom().difference(known@.to_set());
        let keys = self.entries.keys();
        let ghost all = vstd::std_specs::iter::IteratorSpec::remaining(&keys);
        for key in it: keys
            invariant
                it.seq() == all,
                all.no_duplicates(),
                increasing(ids@),
                forall|id: ThreadId| #[trigger]
                    ids@.contains(id) <==> !known@.contains(id) && exists|i: int|
                        0 <= i < it.index() && *#[trigger] all[i] == id.value,
        {
            let id = ThreadId { value: *key };
            proof {
                if ids@.contains(id) {
                    let i = choose|i: int| 0 <= i < it.index() && *#[trigger] all[i] == id.value;
                    assert(all[i] == all[it.index()]);
                }
            }
            if !contains_thread(known, id) {
                insert_in_order(&mut ids, id);
            }
            proof {
                assert forall|other: ThreadId| #[trigger]
                    ids@.contains(other) <==> !known@.contains(other) && exists|i: int|
                        0 <= i < it.index() + 1 && *#[trigger] all[i] == other.value by {
                    assert(*all[it.index()] == id.value);
                }
            }
        }
        proof {
            assert forall|id: ThreadId| #[trigger] ids@.contains(id) <==> wanted.contains(id) by {
                assert(self@.dom().contains(id) <==> self.entries@.dom().contains(id.value));
                assert(all.unref().to_set().contains(id.value) <==> self.entries@.dom().contains(
                    id.value,
                ));
                if all.unref().contains(id.value) {
                    let i = choose|i: int|
                        0 <= i < all.unref().len() && all.unref()[i] == id.value;
                    assert(*all[i] == id.value);
                }
                if exists|i: int| 0 <= i < all.len() && *#[trigger] all[i] == id.value {
                    let i = choose|i: int| 0 <= i < all.len() && *#[trigger] all[i] == id.value;
                    assert(all.unref()[i] == id.value);
                }
            }
            lemma_increasing_lists(ids@, wanted);
            law_text_order_list_is_unique(ids@, in_text_order(wanted), wanted);
        }
        ids
    }
}

/// Tells whether an identifier is among some others.
pub fn contains_thread(ids: &Vec<ThreadId>, id: ThreadId) -> (r: bool)
    ensures
        r == ids@.contains(id),
{
    for i in 0..ids.len()
        invariant
            forall|j: int| 0 <= j < i ==> ids@[j] != id,
    {
        if ids[i] == id {
            return true;
        }
    }
    false
}

} // verus!
