//! Buffers the parts of reasoning summaries until a whole section can be
//! handed to the translator.

use vstd::hash_map::StringHashMap;
use vstd::prelude::*;
use vstd::string::StringExecFns;

verus! {

/// Which provider and model translate the summaries.
#[derive(Debug, PartialEq, Eq)]
pub struct TranslationConfig {
    pub provider: String,
    pub model: String,
}

impl Clone for TranslationConfig {
    fn clone(&self) -> (r: TranslationConfig)
        ensures
            r == *self,
    {
        TranslationConfig { provider: self.provider.clone(), model: self.model.clone() }
    }
}

/// The part of the configuration that the translation reads.
#[derive(Debug)]
pub struct Config {
    pub translation: Option<TranslationConfig>,
}

/// A section of a summary that is being collected or is complete.
#[derive(Debug, PartialEq, Eq)]
pub struct PendingReasoningSummarySegment {
    pub summary_index: i64,
    pub text: String,
}

impl Clone for PendingReasoningSummarySegment {
    fn clone(&self) -> (r: PendingReasoningSummarySegment)
        ensures
            r == *self,
    {
        PendingReasoningSummarySegment {
            summary_index: self.summary_index,
            text: self.text.clone(),
        }
    }
}

/// The mathematical content of a segment.
pub struct SegmentView {
    pub summary_index: i64,
    pub text: Seq<char>,
}

impl View for PendingReasoningSummarySegment {
    type V = SegmentView;

    open spec fn view(&self) -> SegmentView {
        SegmentView { summary_index: self.summary_index, text: self.text@ }
    }
}

/// The content of an optional segment.
pub open spec fn segment_view(segment: Option<PendingReasoningSummarySegment>) -> Option<
    SegmentView,
> {
    match segment {
        Some(segment) => Some(segment@),
        None => None,
    }
}

/// The summaries that are being collected, each under the identifier of its
/// item.
pub struct ReasoningSummaryTranslationState {
    config: Option<TranslationConfig>,
    pending_segments: StringHashMap<PendingReasoningSummarySegment>,
}

/// What can happen to the summary of one item.
pub enum SummaryStep {
    /// More text of the section with the given index.
    Delta(i64, Seq<char>),
    /// A section with the given index begins.
    Section(i64),
    /// The item is complete.
    Finish,
}

/// A segment is handed out only where it holds text.
pub open spec fn if_not_empty(segment: Option<SegmentView>) -> Option<SegmentView> {
    match segment {
        Some(segment) => if segment.text.len() == 0 {
            None
        } else {
            Some(segment)
        },
        None => None,
    }
}

/// What is collected of an item after a step.
pub open spec fn pending_after(pending: Option<SegmentView>, step: SummaryStep) -> Option<
    SegmentView,
> {
    match step {
        SummaryStep::Delta(summary_index, delta) => match pending {
            Some(segment) => if segment.summary_index == summary_index {
                Some(SegmentView { summary_index, text: segment.text + delta })
            } else {
                Some(SegmentView { summary_index, text: delta })
            },
            None => Some(SegmentView { summary_index, text: delta }),
        },
        SummaryStep::Section(summary_index) => Some(
            SegmentView { summary_index, text: Seq::empty() },
        ),
        SummaryStep::Finish => None,
    }
}

/// The segment that a step completes.
pub open spec fn completed_by(pending: Option<SegmentView>, step: SummaryStep) -> Option<
    SegmentView,
> {
    match step {
        SummaryStep::Delta(summary_index, delta) => match pending {
            Some(segment) => if segment.summary_index == summary_index {
                None
            } else {
                if_not_empty(pending)
            },
            None => None,
        },
        SummaryStep::Section(_) => if_not_empty(pending),
        SummaryStep::Finish => if_not_empty(pending),
    }
}

impl ReasoningSummaryTranslationState {
    /// The translation's configuration.
    pub closed spec fn translation(self) -> Option<TranslationConfig> {
        self.config
    }

    /// What is collected, by the identifier of the item.
    pub closed spec fn pending(self) -> Map<Seq<char>, SegmentView> {
        self.pending_segments@.map_values(|segment: PendingReasoningSummarySegment| segment@)
    }

    /// What is collected of one item.
    pub open spec fn pending_of(self, item_id: Seq<char>) -> Option<SegmentView> {
        if self.pending().contains_key(item_id) {
            Some(self.pending()[item_id])
        } else {
            None
        }
    }

    /// The state is the earlier one but for one step on one item. Without a
    /// configuration nothing is collected and nothing handed out.
    pub open spec fn stepped(
        self,
        earlier: ReasoningSummaryTranslationState,
        item_id: Seq<char>,
        step: SummaryStep,
        completed: Option<SegmentView>,
    ) -> bool {
        &&& self.translation() == earlier.translation()
        &&& match earlier.translation() {
            Some(_) => {
                &&& self.pending_of(item_id) == pending_after(earlier.pending_of(item_id), step)
                &&& completed == completed_by(earlier.pending_of(item_id), step)
                &&& forall|other: Seq<char>|
                    other != item_id ==> #[trigger] self.pending_of(other) == earlier.pending_of(
                        other,
                    )
            },
            None => completed is None && self.pending() == earlier.pending(),
        }
    }

    /// A state that translates as the configuration says, with nothing collected.
    pub fn from_config(config: &Config) -> (r: ReasoningSummaryTranslationState)
        ensures
            r.translation() == config.translation,
            r.pending() == Map::<Seq<char>, SegmentView>::empty(),
    {
        let r = ReasoningSummaryTranslationState {
            config: config.translation.clone(),
            pending_segments: StringHashMap::new(),
        };
        proof {
            assert(r.pending() =~= Map::<Seq<char>, SegmentView>::empty());
        }
        r
    }

    /// The translation's configuration.
    pub fn config(&self) -> (r: Option<&TranslationConfig>)
        ensures
            match self.translation() {
                Some(config) => r == Some(&config),
                None => r is None,
            },
    {
        self.config.as_ref()
    }

    /// What is collected of an item.
    fn collected(&self, item_id: &str) -> (r: Option<PendingReasoningSummarySegment>)
        ensures
            segment_view(r) == self.pending_of(item_id@),
    {
        match self.pending_segments.get(item_id) {
            Some(segment) => Some(segment.clone()),
            None => None,
        }
    }

    fn store(&mut self, item_id: &str, summary_index: i64, text: String)
        ensures
            final(self).translation() == old(self).translation(),
            final(self).pending() == old(self).pending().insert(
                item_id@,
                (SegmentView { summary_index, text: text@ }),
            ),
    {
        self.pending_segments.insert(
            item_id.to_string(),
            PendingReasoningSummarySegment { summary_index, text },
        );
        proof {
            assert(self.pending() =~= old(self).pending().insert(
                item_id@,
                SegmentView { summary_index, text: text@ },
            ));
        }
    }

    /// Adds text to the summary of an item. Text of another section completes
    /// the one that was collected so far, which is handed out.
    pub fn push_delta(&mut self, item_id: &str, summary_index: i64, delta: &str) -> (r: Option<
        PendingReasoningSummarySegment,
    >)
        ensures
            final(self).stepped(
                *old(self),
                item_id@,
                SummaryStep::Delta(summary_index, delta@),
                segment_view(r),
            ),
            old(self).translation() is Some ==> {
                let before = old(self).pending();
                let after = final(self).pending();
                &&& after.contains_key(item_id@)
                &&& after[item_id@].summary_index == summary_index
                &&& if before.contains_key(item_id@) && before[item_id@].summary_index
                    == summary_index {
                    r is None && after[item_id@].text == before[item_id@].text + delta@
                } else {
                    &&& after[item_id@].text == delta@
                    &&& r is Some <==> before.contains_key(item_id@)
                        && before[item_id@].text.len() > 0
                }
            },
            r matches Some(segment) ==> {
                &&& old(self).pending().contains_key(item_id@)
                &&& segment.summary_index == old(self).pending()[item_id@].summary_index
                &&& segment.text@ == old(self).pending()[item_id@].text
                &&& segment.text@.len() > 0
            },
    {
        proof {
            law_own_text_is_kept_apart(old(self).pending_of(item_id@), summary_index, delta@);
        }
        if self.config.is_none() {
            return None;
        }
        match self.collected(item_id) {
            Some(segment) => {
                if segment.summary_index != summary_index {
                    self.store(item_id, summary_index, delta.to_string());
                    if segment.text.as_str().is_empty() {
                        None
                    } else {
                        Some(segment)
                    }
                } else {
                    let mut text = segment.text;
                    text.append(delta);
                    self.store(item_id, summary_index, text);
                    None
                }
            },
            None => {
                self.store(item_id, summary_index, delta.to_string());
                None
            },
        }
    }

    /// Begins a section of an item. What was collected so far is handed out.
    pub fn start_new_section(&mut self, item_id: &str, summary_index: i64) -> (r: Option<
        PendingReasoningSummarySegment,
    >)
        ensures
            final(self).stepped(
                *old(self),
                item_id@,
                SummaryStep::Section(summary_index),
                segment_view(r),
            ),
            old(self).translation() is Some ==> {
                let before = old(self).pending();
                let after = final(self).pending();
                &&& after.contains_key(item_id@)
                &&& after[item_id@].summary_index == summary_index
                &&& after[item_id@].text.len() == 0
                &&& r is Some <==> before.contains_key(item_id@) && before[item_id@].text.len() > 0
            },
            r matches Some(segment) ==> {
                &&& old(self).pending().contains_key(item_id@)
                &&& segment.summary_index == old(self).pending()[item_id@].summary_index
                &&& segment.text@ == old(self).pending()[item_id@].text
                &&& segment.text@.len() > 0
            },
    {
        if self.config.is_none() {
            return None;
        }
        let previous = self.collected(item_id);
        self.store(item_id, summary_index, String::new());
        keep_non_empty(previous)
    }

    /// Ends an item. What was collected so far is handed out.
    pub fn finish_item(&mut self, item_id: &str) -> (r: Option<PendingReasoningSummarySegment>)
        ensures
            final(self).stepped(*old(self), item_id@, SummaryStep::Finish, segment_view(r)),
            old(self).translation() is Some ==> {
                let before = old(self).pending();
                &&& !final(self).pending().contains_key(item_id@)
                &&& r is Some <==> before.contains_key(item_id@) && before[item_id@].text.len() > 0
            },
            r matches Some(segment) ==> {
                &&& old(self).pending().contains_key(item_id@)
                &&& segment.summary_index == old(self).pending()[item_id@].summary_index
                &&& segment.text@ == old(self).pending()[item_id@].text
                &&& segment.text@.len() > 0
            },
    {
        if self.config.is_none() {
            return None;
        }
        let previous = self.collected(item_id);
        self.pending_segments.remove(item_id);
        proof {
            assert(self.pending() =~= old(self).pending().remove(item_id@));
        }
        keep_non_empty(previous)
    }
}

impl Default for ReasoningSummaryTranslationState {
    fn default() -> (r: ReasoningSummaryTranslationState)
        ensures
            r.translation() is None,
            r.pending() == Map::<Seq<char>, SegmentView>::empty(),
    {
        ReasoningSummaryTranslationState::from_config(&Config { translation: None })
    }
}

fn keep_non_empty(segment: Option<PendingReasoningSummarySegment>) -> (r: Option<
    PendingReasoningSummarySegment,
>)
    ensures
        segment_view(r) == if_not_empty(segment_view(segment)),
{
    match segment {
        Some(segment) => {
            if segment.text.as_str().is_empty() {
                None
            } else {
                Some(segment)
            }
        },
        None => None,
    }
}

/// The text of an optional segment.
pub open spec fn text_of(segment: Option<SegmentView>) -> Seq<char> {
    match segment {
        Some(segment) => segment.text,
        None => Seq::empty(),
    }
}

/// The text that a step brings.
pub open spec fn text_brought(step: SummaryStep) -> Seq<char> {
    match step {
        SummaryStep::Delta(_, delta) => delta,
        _ => Seq::empty(),
    }
}

/// What is collected of an item after a run of steps that began with nothing.
pub open spec fn pending_after_all(steps: Seq<SummaryStep>) -> Option<SegmentView>
    decreases steps.len(),
{
    if steps.len() == 0 {
        None
    } else {
        pending_after(pending_after_all(steps.drop_last()), steps.last())
    }
}

/// The texts handed out in a run of steps, one after the other.
pub open spec fn text_handed_out(steps: Seq<SummaryStep>) -> Seq<char>
    decreases steps.len(),
{
    if steps.len() == 0 {
        Seq::empty()
    } else {
        text_handed_out(steps.drop_last()) + text_of(
            completed_by(pending_after_all(steps.drop_last()), steps.last()),
        )
    }
}

/// The texts brought in a run of steps, one after the other.
pub open spec fn all_text_brought(steps: Seq<SummaryStep>) -> Seq<char>
    decreases steps.len(),
{
    if steps.len() == 0 {
        Seq::empty()
    } else {
        all_text_brought(steps.drop_last()) + text_brought(steps.last())
    }
}

/// No text is lost, repeated or moved: what has been handed out, followed by
/// what is still collected, is what has been brought.
pub proof fn law_text_is_conserved(steps: Seq<SummaryStep>)
    ensures
        text_handed_out(steps) + text_of(pending_after_all(steps)) == all_text_brought(steps),
    decreases steps.len(),
{
    if steps.len() > 0 {
        law_text_is_conserved(steps.drop_last());
        let pending = pending_after_all(steps.drop_last());
        let step = steps.last();
        assert(text_of(completed_by(pending, step)) + text_of(pending_after(pending, step))
            =~= text_of(pending) + text_brought(step));
        assert(text_handed_out(steps) + text_of(pending_after_all(steps)) =~= text_handed_out(
            steps.drop_last(),
        ) + (text_of(pending) + text_brought(step)));
        assert(text_handed_out(steps.drop_last()) + (text_of(pending) + text_brought(step))
            =~= all_text_brought(steps));
    } else {
        assert(text_handed_out(steps) + text_of(pending_after_all(steps)) =~= all_text_brought(
            steps,
        ));
    }
}

/// Once an item is finished, all of its text has been handed out.
pub proof fn law_finished_item_is_handed_out(steps: Seq<SummaryStep>)
    requires
        steps.len() > 0,
        steps.last() is Finish,
    ensures
        text_handed_out(steps) == all_text_brought(steps),
        pending_after_all(steps) is None,
{
    law_text_is_conserved(steps);
    assert(text_handed_out(steps) + Seq::empty() =~= text_handed_out(steps));
}

/// A segment that is handed out holds text, is all that was collected, and is
/// not cut short by text of its own section.
pub proof fn law_completed_segment_is_whole(pending: Option<SegmentView>, step: SummaryStep)
    ensures
        completed_by(pending, step) is Some ==> {
            &&& completed_by(pending, step) == pending
            &&& text_of(pending).len() > 0
            &&& step matches SummaryStep::Delta(summary_index, _) ==> summary_index
                != pending.unwrap().summary_index
        },
{
}

/// A section begins with nothing collected, whatever its index. Text of the section
/// that is being collected is added to it; text of another one begins anew.
pub proof fn law_own_text_is_kept_apart(
    pending: Option<SegmentView>,
    summary_index: i64,
    delta: Seq<char>,
)
    ensures
        pending_after(pending, SummaryStep::Section(summary_index)) matches Some(segment)
            && segment.summary_index == summary_index && segment.text.len() == 0,
        pending_after(pending, SummaryStep::Delta(summary_index, delta)) matches Some(segment) && {
            &&& segment.summary_index == summary_index
            &&& segment.text == (if pending is Some && pending->0.summary_index == summary_index {
                pending->0.text + delta
            } else {
                delta
            })
        },
        pending_after(pending, SummaryStep::Finish) is None,
{
}

/// A step that ends what is collected hands all of it out, unless it is empty: the
/// beginning of any section does, text of another section does, and the end of the
/// item does. Text of the same section hands out nothing.
pub proof fn law_ended_text_is_handed_out(pending: Option<SegmentView>, step: SummaryStep)
    ensures
        completed_by(pending, step) == (match (pending, step) {
            (None, _) => None,
            (Some(segment), SummaryStep::Delta(summary_index, delta)) => if segment.text.len() > 0
                && segment.summary_index != summary_index {
                Some(segment)
            } else {
                None
            },
            (Some(segment), _) => if segment.text.len() > 0 {
                Some(segment)
            } else {
                None
            },
        }),
{
}

/// The steps from the `k`-th on are about one section and do not leave it.
pub open spec fn stays_in_section(steps: Seq<SummaryStep>, k: int, summary_index: i64) -> bool {
    &&& 0 <= k < steps.len()
    &&& match steps[k] {
        SummaryStep::Section(i) => i == summary_index,
        SummaryStep::Delta(i, _) => i == summary_index,
        SummaryStep::Finish => false,
    }
    &&& forall|j: int|
        k < j < steps.len() ==> (#[trigger] steps[j] matches SummaryStep::Delta(i, _) && i
            == summary_index)
}

/// What is collected is exactly the text that was brought, under its own index,
/// since the section was entered; nothing is collected before the first step and
/// after the end of the item.
pub proof fn law_collected_text_is_of_one_section(steps: Seq<SummaryStep>)
    ensures
        match pending_after_all(steps) {
            None => steps.len() == 0 || steps.last() is Finish,
            Some(segment) => exists|k: int|
                {
                    &&& #[trigger] stays_in_section(steps, k, segment.summary_index)
                    &&& segment.text == all_text_brought(steps.skip(k))
                },
        },
    decreases steps.len(),
{
    if steps.len() > 0 {
        let before = steps.drop_last();
        law_collected_text_is_of_one_section(before);
        let n = steps.len() - 1;
        let pending = pending_after_all(before);
        match steps.last() {
            SummaryStep::Finish => {
                assert(pending_after_all(steps) is None);
            },
            SummaryStep::Section(i) => {
                assert(stays_in_section(steps, n, i));
                lemma_text_of_last_step(steps);
                assert(pending_after_all(steps)->0.text =~= all_text_brought(steps.skip(n)));
                assert(stays_in_section(steps, n, pending_after_all(steps)->0.summary_index));
            },
            SummaryStep::Delta(i, delta) => {
                if pending is Some && pending->0.summary_index == i {
                    let k = choose|k: int|
                        {
                            &&& #[trigger] stays_in_section(before, k, i)
                            &&& pending->0.text == all_text_brought(before.skip(k))
                        };
                    assert(before[k] == steps[k]);
                    assert forall|j: int| k < j < steps.len() implies (
                    #[trigger] steps[j] matches SummaryStep::Delta(m, _) && m == i) by {
                        if j < n {
                            assert(before[j] == steps[j]);
                        }
                    }
                    assert(stays_in_section(steps, k, i));
                    assert(steps.skip(k).drop_last() =~= before.skip(k));
                    assert(steps.skip(k).last() == steps.last());
                    assert(all_text_brought(steps.skip(k)) == pending->0.text + delta);
                    assert(pending_after_all(steps)->0.text =~= all_text_brought(steps.skip(k)));
                    assert(stays_in_section(steps, k, pending_after_all(steps)->0.summary_index));
                } else {
                    assert(stays_in_section(steps, n, i));
                    lemma_text_of_last_step(steps);
                    assert(pending_after_all(steps)->0.text =~= all_text_brought(steps.skip(n)));
                assert(stays_in_section(steps, n, pending_after_all(steps)->0.summary_index));
                }
            },
        }
    }
}

proof fn lemma_text_of_last_step(steps: Seq<SummaryStep>)
    requires
        steps.len() > 0,
    ensures
        all_text_brought(steps.skip(steps.len() - 1)) == text_brought(steps.last()),
{
    let last = steps.skip(steps.len() - 1);
    assert(last.drop_last() =~= Seq::empty());
    assert(last.last() == steps.last());
    assert(all_text_brought(last.drop_last()) =~= Seq::empty());
    assert(all_text_brought(last) =~= text_brought(steps.last()));
}

/// A step on one item leaves every other item as it was, and without a
/// configuration nothing changes and nothing is handed out.
pub proof fn law_step_changes_one_item(
    earlier: ReasoningSummaryTranslationState,
    later: ReasoningSummaryTranslationState,
    item_id: Seq<char>,
    step: SummaryStep,
    completed: Option<SegmentView>,
)
    requires
        later.stepped(earlier, item_id, step, completed),
    ensures
        later.translation() == earlier.translation(),
        earlier.translation() is None ==> later.pending() == earlier.pending() && completed is None,
        forall|other: Seq<char>|
            other != item_id ==> #[trigger] later.pending().contains_key(other)
                == earlier.pending().contains_key(other),
        forall|other: Seq<char>|
            other != item_id && earlier.pending().contains_key(other)
                ==> #[trigger] later.pending()[other] == earlier.pending()[other],
{
    assert forall|other: Seq<char>| other != item_id implies #[trigger] later.pending().contains_key(
        other,
    ) == earlier.pending().contains_key(other) by {
        assert(later.pending_of(other) == earlier.pending_of(other));
    }
    assert forall|other: Seq<char>|
        other != item_id && earlier.pending().contains_key(
            other,
        ) implies #[trigger] later.pending()[other] == earlier.pending()[other] by {
        assert(later.pending_of(other) == earlier.pending_of(other));
    }
}

} // verus!
