//! Side questions (`/btw`): the answer that is read off a turn, and the cell
//! that shows the question with its outcome.

use crate::line::{
    colored, dimmed, line_of, line_text, line_views, plain, prefix_lines, prefixed_lines, span_of,
    span_views, Color, Line, LineView, Span, SpanView,
};
use crate::text::{is_white_space, join, joined, law_trimmed_is_stable, string_views, trim, trimmed};
use std::path::PathBuf;
use vstd::prelude::*;
use vstd::string::StringExecFns;

verus! {

/// A path, carried without a look inside.
#[verifier::external_type_specification]
#[verifier::external_body]
pub struct ExPathBuf(PathBuf);

/// `PathBuf::clone` returns the same path.
pub assume_specification[ <PathBuf as Clone>::clone ](path: &PathBuf) -> (r: PathBuf)
    ensures
        r == *path,
;

/// What a message of the assistant is part of.
#[derive(Debug, Clone, Copy, PartialEq, Eq, Structural)]
pub enum MessagePhase {
    Commentary,
    FinalAnswer,
}

/// An item of a turn. Only the messages of the assistant matter here.
#[derive(Debug)]
pub enum ThreadItem {
    AgentMessage { id: String, text: String, phase: Option<MessagePhase> },
    Other,
}

/// How far a turn has come.
#[derive(Debug, Clone, Copy, PartialEq, Eq, Structural)]
pub enum TurnStatus {
    Completed,
    Interrupted,
    Failed,
    InProgress,
}

/// Why a turn failed.
#[derive(Debug)]
pub struct TurnError {
    pub message: String,
}

/// A turn of a thread.
#[derive(Debug)]
pub struct Turn {
    pub id: String,
    pub items: Vec<ThreadItem>,
    pub status: TurnStatus,
    pub error: Option<TurnError>,
}

/// The requests that a side question makes of the server.
#[derive(Debug, Clone, Copy, PartialEq, Eq, Structural)]
pub enum BtwRequestKind {
    Fork,
    TurnStart,
    ThreadRead,
    Unsubscribe,
}

/// Why a side question has no answer.
#[derive(Debug, PartialEq, Eq)]
pub enum BtwError {
    /// The server refused a request.
    Request(BtwRequestKind),
    /// The turn did not finish in time.
    TimedOut,
    /// The turn failed, with the given message.
    Failed(String),
    /// The turn was interrupted.
    Interrupted,
    /// The turn finished without a message of the assistant.
    NoAnswer,
}

impl BtwRequestKind {
    /// What is said of a request that the server refused.
    pub open spec fn context_text(self) -> Seq<char> {
        match self {
            BtwRequestKind::Fork => "thread/fork failed for /btw"@,
            BtwRequestKind::TurnStart => "turn/start failed for /btw"@,
            BtwRequestKind::ThreadRead => "thread/read failed while waiting for /btw"@,
            BtwRequestKind::Unsubscribe => "thread/unsubscribe failed for /btw"@,
        }
    }

    /// What is said of a request that the server refused.
    pub fn failure_context(self) -> (r: &'static str)
        ensures
            r@ == self.context_text(),
    {
        match self {
            BtwRequestKind::Fork => "thread/fork failed for /btw",
            BtwRequestKind::TurnStart => "turn/start failed for /btw",
            BtwRequestKind::ThreadRead => "thread/read failed while waiting for /btw",
            BtwRequestKind::Unsubscribe => "thread/unsubscribe failed for /btw",
        }
    }
}

impl BtwError {
    /// The text of the error.
    pub open spec fn text(self) -> Seq<char> {
        match self {
            BtwError::Request(kind) => kind.context_text(),
            BtwError::TimedOut => "Timed out waiting for /btw to finish."@,
            BtwError::Failed(message) => message@,
            BtwError::Interrupted => "The /btw side question was interrupted."@,
            BtwError::NoAnswer => "No assistant answer was returned for /btw."@,
        }
    }

    /// The text of the error.
    pub fn message(&self) -> (r: String)
        ensures
            r@ == self.text(),
    {
        match self {
            BtwError::Request(kind) => kind.failure_context().to_string(),
            BtwError::TimedOut => "Timed out waiting for /btw to finish.".to_string(),
            BtwError::Failed(message) => message.clone(),
            BtwError::Interrupted => "The /btw side question was interrupted.".to_string(),
            BtwError::NoAnswer => "No assistant answer was returned for /btw.".to_string(),
        }
    }
}

/// The text of an item that can be part of the answer: a message of the
/// assistant that is not blank, of the final answer or of anything else.
pub open spec fn answer_text(item: ThreadItem, of_final_answer: bool) -> Option<Seq<char>> {
    match item {
        ThreadItem::AgentMessage { id, text, phase } => if trimmed(text@).len() > 0 && (phase
            == Some(MessagePhase::FinalAnswer)) == of_final_answer {
            Some(trimmed(text@))
        } else {
            None
        },
        ThreadItem::Other => None,
    }
}

/// The texts of the items that can be part of the answer, in their order.
pub open spec fn answer_texts(items: Seq<ThreadItem>, of_final_answer: bool) -> Seq<Seq<char>>
    decreases items.len(),
{
    if items.len() == 0 {
        Seq::empty()
    } else {
        let before = answer_texts(items.drop_last(), of_final_answer);
        match answer_text(items.last(), of_final_answer) {
            Some(text) => before.push(text),
            None => before,
        }
    }
}

/// The texts that make up the answer: those of the final answer or, where there
/// are none, those of the other messages.
pub open spec fn chosen_texts(items: Seq<ThreadItem>) -> Seq<Seq<char>> {
    if answer_texts(items, true).len() > 0 {
        answer_texts(items, true)
    } else {
        answer_texts(items, false)
    }
}

/// The answer that a turn gives.
pub open spec fn turn_answer(items: Seq<ThreadItem>) -> Option<Seq<char>> {
    if chosen_texts(items).len() > 0 {
        Some(joined(chosen_texts(items), seq!['\n', '\n']))
    } else {
        None
    }
}

/// The answer of a turn: the messages of its final answer or, where there are
/// none, its other messages, without blank ones.
pub fn extract_btw_answer(turn: &Turn) -> (r: Result<String, BtwError>)
    ensures
        match r {
            Ok(answer) => turn_answer(turn.items@) == Some(answer@),
            Err(error) => turn_answer(turn.items@) is None && error is NoAnswer,
        },
{
    let mut final_answers: Vec<String> = Vec::new();
    let mut fallback_answers: Vec<String> = Vec::new();
    for i in 0..turn.items.len()
        invariant
            string_views(final_answers@) == answer_texts(turn.items@.take(i as int), true),
            string_views(fallback_answers@) == answer_texts(turn.items@.take(i as int), false),
    {
        proof {
            assert(turn.items@.take(i + 1).drop_last() =~= turn.items@.take(i as int));
        }
        if let ThreadItem::AgentMessage { id: _, text, phase } = &turn.items[i] {
            let trimmed_text = trim(text.as_str());
            if !trimmed_text.is_empty() {
                let owned = trimmed_text.to_string();
                let is_final = match phase {
                    Some(MessagePhase::FinalAnswer) => true,
                    _ => false,
                };
                if is_final {
                    let ghost before = final_answers@;
                    final_answers.push(owned);
                    proof {
                        assert(string_views(final_answers@) =~= string_views(before).push(owned@));
                    }
                } else {
                    let ghost before = fallback_answers@;
                    fallback_answers.push(owned);
                    proof {
                        assert(string_views(fallback_answers@) =~= string_views(before).push(
                            owned@,
                        ));
                    }
                }
            }
        }
    }
    proof {
        assert(turn.items@.take(turn.items@.len() as int) =~= turn.items@);
        assert(string_views(final_answers@).len() == final_answers@.len());
        assert(string_views(fallback_answers@).len() == fallback_answers@.len());
        reveal_strlit("\n\n");
        assert("\n\n"@ =~= seq!['\n', '\n']);
    }
    let answers = if final_answers.len() == 0 {
        fallback_answers
    } else {
        final_answers
    };
    if answers.len() == 0 {
        return Err(BtwError::NoAnswer);
    }
    Ok(join(&answers, "\n\n"))
}

/// Where a turn has a final answer that is not blank, its other messages do not
/// matter.
pub proof fn law_final_answer_is_preferred(a: Seq<ThreadItem>, b: Seq<ThreadItem>)
    requires
        answer_texts(a, true).len() > 0,
        answer_texts(b, true) == answer_texts(a, true),
    ensures
        turn_answer(b) == turn_answer(a),
{
}

proof fn lemma_answer_texts_are_trimmed(items: Seq<ThreadItem>, of_final_answer: bool)
    ensures
        forall|i: int|
            0 <= i < answer_texts(items, of_final_answer).len() ==> {
                let text = #[trigger] answer_texts(items, of_final_answer)[i];
                text.len() > 0 && !is_white_space(text.first()) && !is_white_space(text.last())
            },
    decreases items.len(),
{
    if items.len() > 0 {
        lemma_answer_texts_are_trimmed(items.drop_last(), of_final_answer);
        if let ThreadItem::AgentMessage { id, text, phase } = items.last() {
            law_trimmed_is_stable(text@);
        }
        let before = answer_texts(items.drop_last(), of_final_answer);
        assert forall|i: int| 0 <= i < answer_texts(items, of_final_answer).len() implies ({
            let text = #[trigger] answer_texts(items, of_final_answer)[i];
            text.len() > 0 && !is_white_space(text.first()) && !is_white_space(text.last())
        }) by {
            if i < before.len() {
                assert(before[i].len() > 0);
            }
        }
    }
}

proof fn lemma_joined_ends(parts: Seq<Seq<char>>, separator: Seq<char>)
    requires
        parts.len() > 0,
        forall|i: int| 0 <= i < parts.len() ==> (#[trigger] parts[i]).len() > 0,
    ensures
        joined(parts, separator).len() > 0,
        joined(parts, separator).first() == parts[0].first(),
        joined(parts, separator).last() == parts.last().last(),
    decreases parts.len(),
{
    if parts.len() > 1 {
        lemma_joined_ends(parts.drop_last(), separator);
    }
}

/// An answer is never blank, and has no white space at its ends.
pub proof fn law_answer_is_trimmed(items: Seq<ThreadItem>)
    ensures
        turn_answer(items) matches Some(answer) ==> answer.len() > 0 && trimmed(answer) == answer,
{
    lemma_answer_texts_are_trimmed(items, true);
    lemma_answer_texts_are_trimmed(items, false);
    if chosen_texts(items).len() > 0 {
        lemma_joined_ends(chosen_texts(items), seq!['\n', '\n']);
        assert(!is_white_space(chosen_texts(items)[0].first()));
        assert(!is_white_space(chosen_texts(items)[chosen_texts(items).len() - 1].last()));
    }
}

/// What has become of a side question.
#[derive(Debug)]
pub enum BtwHistoryOutcome {
    Pending,
    Completed(String),
    Failed(String),
}

/// A side question with its outcome, in the transcript.
#[derive(Debug)]
pub struct BtwHistoryCell {
    question: String,
    outcome: BtwHistoryOutcome,
    cwd: PathBuf,
}

/// The mathematical content of a cell.
pub struct BtwCellView {
    pub question: Seq<char>,
    pub outcome: BtwOutcomeView,
    pub cwd: PathBuf,
}

/// The mathematical content of an outcome.
pub enum BtwOutcomeView {
    Pending,
    Completed(Seq<char>),
    Failed(Seq<char>),
}

impl View for BtwHistoryCell {
    type V = BtwCellView;

    closed spec fn view(&self) -> BtwCellView {
        BtwCellView {
            question: self.question@,
            outcome: match self.outcome {
                BtwHistoryOutcome::Pending => BtwOutcomeView::Pending,
                BtwHistoryOutcome::Completed(answer) => BtwOutcomeView::Completed(answer@),
                BtwHistoryOutcome::Failed(error) => BtwOutcomeView::Failed(error@),
            },
            cwd: self.cwd,
        }
    }
}

/// The line beneath the question that says what has become of it.
pub open spec fn outcome_line(text: Seq<char>, style: crate::line::Style) -> LineView {
    line_of(seq![span_of("↳ "@, dimmed()), span_of(text, style)])
}

/// The lines of a cell, given the lines of the rendered answer.
pub open spec fn cell_lines(cell: BtwCellView, answer_lines: Seq<LineView>) -> Seq<LineView> {
    let question = line_of(
        seq![
            span_of("/btw"@, colored(Color::Magenta)),
            span_of(" "@, plain()),
            span_of(cell.question, plain()),
        ],
    );
    seq![question] + (match cell.outcome {
        BtwOutcomeView::Pending => seq![outcome_line("Answering in background…"@, dimmed())],
        BtwOutcomeView::Failed(error) => seq![
            outcome_line("Failed: "@ + error, colored(Color::Red)),
        ],
        BtwOutcomeView::Completed(_) => if answer_lines.len() == 0 {
            seq![outcome_line("(No answer returned)"@, dimmed())]
        } else {
            prefixed_lines(answer_lines, span_of("↳ "@, dimmed()), span_of("  "@, plain()))
        },
    })
}

/// The width to which the answer is wrapped: two columns go to the prefix, and
/// one column is left in any case.
pub open spec fn wrap_width(width: u16) -> usize {
    if width <= 3 {
        1
    } else {
        (width - 2) as usize
    }
}

/// The width to which the answer is wrapped.
pub fn answer_wrap_width(width: u16) -> (r: usize)
    ensures
        r == wrap_width(width),
{
    let columns: usize = if width < 1 {
        1
    } else {
        width as usize
    };
    let left: usize = if columns < 2 {
        0
    } else {
        columns - 2
    };
    if left < 1 {
        1
    } else {
        left
    }
}

/// The lines are those of a cell on a terminal of the given width, with the
/// answer as `append_markdown` renders it.
pub open spec fn shows<F: Fn(&str, usize, &PathBuf) -> Vec<Line>>(
    cell: BtwCellView,
    width: u16,
    append_markdown: F,
    lines: Seq<LineView>,
) -> bool {
    match cell.outcome {
        BtwOutcomeView::Completed(answer) => exists|text: &str, answer_lines: Vec<Line>|
            {
                &&& text@ == answer
                &&& #[trigger] call_ensures(
                    append_markdown,
                    (text, wrap_width(width), &cell.cwd),
                    answer_lines,
                )
                &&& lines == cell_lines(cell, line_views(answer_lines@))
            },
        _ => lines == cell_lines(cell, Seq::empty()),
    }
}

/// A renderer that shows the same answer in the same way each time.
pub open spec fn renders_alike<F: Fn(&str, usize, &PathBuf) -> Vec<Line>>(
    append_markdown: F,
) -> bool {
    forall|a: &str, b: &str, width: usize, cwd: &PathBuf, at_a: Vec<Line>, at_b: Vec<Line>|
        a@ == b@ && #[trigger] call_ensures(append_markdown, (a, width, cwd), at_a)
            && #[trigger] call_ensures(append_markdown, (b, width, cwd), at_b) ==> line_views(at_a@)
            == line_views(at_b@)
}

impl BtwHistoryCell {
    /// A question that is still being answered.
    pub fn pending(question: String, cwd: PathBuf) -> (r: BtwHistoryCell)
        ensures
            r@ == (BtwCellView { question: question@, outcome: BtwOutcomeView::Pending, cwd }),
    {
        BtwHistoryCell { question, outcome: BtwHistoryOutcome::Pending, cwd }
    }

    /// A question with its answer.
    pub fn completed(question: String, answer: String, cwd: PathBuf) -> (r: BtwHistoryCell)
        ensures
            r@ == (BtwCellView {
                question: question@,
                outcome: BtwOutcomeView::Completed(answer@),
                cwd,
            }),
    {
        BtwHistoryCell { question, outcome: BtwHistoryOutcome::Completed(answer), cwd }
    }

    /// A question that could not be answered.
    pub fn failed(question: String, error: String, cwd: PathBuf) -> (r: BtwHistoryCell)
        ensures
            r@ == (BtwCellView {
                question: question@,
                outcome: BtwOutcomeView::Failed(error@),
                cwd,
            }),
    {
        BtwHistoryCell { question, outcome: BtwHistoryOutcome::Failed(error), cwd }
    }

    /// The lines of the cell, given the lines of the rendered answer.
    pub fn lines_with_answer(&self, answer_lines: Vec<Line>) -> (r: Vec<Line>)
        ensures
            line_views(r@) == cell_lines(self@, line_views(answer_lines@)),
    {
        let question = vec![
            Span::text("/btw").fg(Color::Magenta),
            Span::text(" "),
            Span::raw(self.question.clone()),
        ];
        proof {
            assert(span_views(question@) =~= seq![
                span_of("/btw"@, colored(Color::Magenta)),
                span_of(" "@, plain()),
                span_of(self.question@, plain()),
            ]);
        }
        let mut lines = vec![Line::new(question)];
        let ghost head = line_views(lines@);
        let mut rest: Vec<Line> = match &self.outcome {
            BtwHistoryOutcome::Pending => vec![
                outcome_note(Span::text("Answering in background…").dim()),
            ],
            BtwHistoryOutcome::Failed(error) => vec![
                outcome_note(
                    Span::raw("Failed: ".to_string().concat(error.as_str())).fg(Color::Red),
                ),
            ],
            BtwHistoryOutcome::Completed(_) => {
                if answer_lines.len() == 0 {
                    vec![outcome_note(Span::text("(No answer returned)").dim())]
                } else {
                    prefix_lines(answer_lines, Span::text("↳ ").dim(), Span::text("  "))
                }
            },
        };
        let ghost tail = line_views(rest@);
        lines.append(&mut rest);
        proof {
            assert(line_views(lines@) =~= head + tail);
            assert(head + tail =~= cell_lines(self@, line_views(answer_lines@)));
        }
        lines
    }

    /// The lines of the cell on a terminal of the given width. The answer goes
    /// through `append_markdown`, with the width to wrap to and the directory
    /// that its file links are relative to.
    pub fn display_lines<F: Fn(&str, usize, &PathBuf) -> Vec<Line>>(
        &self,
        width: u16,
        append_markdown: F,
    ) -> (r: Vec<Line>)
        requires
            forall|answer: &str|
                self@.outcome == BtwOutcomeView::Completed(answer@) ==> #[trigger] call_requires(
                    append_markdown,
                    (answer, wrap_width(width), &self@.cwd),
                ),
        ensures
            shows(self@, width, append_markdown, line_views(r@)),
    {
        if let BtwHistoryOutcome::Completed(answer) = &self.outcome {
            let text = answer.as_str();
            let columns: usize = answer_wrap_width(width);
            proof {
                assert(call_requires(append_markdown, (text, columns, &self@.cwd)));
            }
            let answer_lines = append_markdown(text, columns, &self.cwd);
            proof {
                assert(call_ensures(append_markdown, (text, columns, &self@.cwd), answer_lines));
            }
            self.lines_with_answer(answer_lines)
        } else {
            let answer_lines: Vec<Line> = Vec::new();
            proof {
                assert(line_views(answer_lines@) =~= Seq::empty());
            }
            self.lines_with_answer(answer_lines)
        }
    }
}

/// The line beneath the question.
fn outcome_note(note: Span) -> (r: Line)
    ensures
        r@ == outcome_line(note@.content, note@.style),
{
    let spans = vec![Span::text("↳ ").dim(), note];
    proof {
        assert(span_views(spans@) =~= seq![span_of("↳ "@, dimmed()), note@]);
    }
    Line::new(spans)
}

/// At every width a cell shows its question first, behind the command, and
/// something beneath it. A question that is pending or has failed takes two lines,
/// of which the second says so.
pub proof fn law_cell_shows_question_and_outcome<F: Fn(&str, usize, &PathBuf) -> Vec<Line>>(
    cell: BtwCellView,
    width: u16,
    append_markdown: F,
    lines: Seq<LineView>,
)
    requires
        shows(cell, width, append_markdown, lines),
    ensures
        lines.len() >= 2,
        line_text(lines[0]) == "/btw "@ + cell.question,
        match cell.outcome {
            BtwOutcomeView::Pending => lines.len() == 2 && line_text(lines[1])
                == "↳ Answering in background…"@,
            BtwOutcomeView::Failed(error) => lines.len() == 2 && line_text(lines[1])
                == "↳ Failed: "@ + error,
            BtwOutcomeView::Completed(_) => true,
        },
{
    reveal_strlit("/btw ");
    reveal_strlit("/btw");
    reveal_strlit(" ");
    reveal_strlit("↳ ");
    reveal_strlit("Answering in background…");
    reveal_strlit("↳ Answering in background…");
    reveal_strlit("Failed: ");
    reveal_strlit("↳ Failed: ");
    lemma_text_of_spans(lines[0]);
    assert(line_text(lines[0]) =~= "/btw "@ + cell.question);
    match cell.outcome {
        BtwOutcomeView::Pending => {
            lemma_text_of_spans(lines[1]);
            assert(line_text(lines[1]) =~= "↳ Answering in background…"@);
        },
        BtwOutcomeView::Failed(error) => {
            lemma_text_of_spans(lines[1]);
            assert(line_text(lines[1]) =~= "↳ Failed: "@ + error);
        },
        BtwOutcomeView::Completed(_) => {},
    }
}

proof fn lemma_text_of_spans(line: LineView)
    ensures
        line.spans.len() == 2 ==> line_text(line) == line.spans[0].content + line.spans[1].content,
        line.spans.len() == 3 ==> line_text(line) == line.spans[0].content + line.spans[1].content
            + line.spans[2].content,
{
    let contents = line.spans.map_values(|span: SpanView| span.content);
    reveal_with_fuel(Seq::<_>::flatten, 4);
    if line.spans.len() == 2 {
        assert(contents.drop_first().drop_first() =~= Seq::empty());
        assert(line_text(line) =~= line.spans[0].content + line.spans[1].content);
    } else if line.spans.len() == 3 {
        assert(contents.drop_first().drop_first().drop_first() =~= Seq::empty());
        assert(line_text(line) =~= line.spans[0].content + line.spans[1].content
            + line.spans[2].content);
    }
}

/// The width matters only through the width to which an answer is wrapped: a cell
/// without an answer shows the same lines at every width, and one with an answer
/// does so at widths that wrap alike, as those up to three columns do.
pub proof fn law_lines_depend_on_wrap_width<F: Fn(&str, usize, &PathBuf) -> Vec<Line>>(
    cell: BtwCellView,
    append_markdown: F,
    a: u16,
    b: u16,
    at_a: Seq<LineView>,
    at_b: Seq<LineView>,
)
    requires
        cell.outcome is Completed ==> renders_alike(append_markdown),
        cell.outcome is Completed ==> wrap_width(a) == wrap_width(b) || (a <= 3 && b <= 3),
        shows(cell, a, append_markdown, at_a),
        shows(cell, b, append_markdown, at_b),
    ensures
        at_a == at_b,
{
}

/// A message of the assistant that is not blank, of the final answer or not.
pub open spec fn is_message(item: ThreadItem, of_final_answer: bool) -> bool {
    item matches ThreadItem::AgentMessage { id, text, phase } && trimmed(text@).len() > 0 && (phase
        == Some(MessagePhase::FinalAnswer)) == of_final_answer
}

/// The texts are those of all messages, one after the other: each message that
/// counts brings its text without the white space around it, and nothing else
/// brings any.
pub proof fn law_every_message_brings_its_text(
    a: Seq<ThreadItem>,
    b: Seq<ThreadItem>,
    of_final_answer: bool,
)
    ensures
        answer_texts(a + b, of_final_answer) == answer_texts(a, of_final_answer) + answer_texts(
            b,
            of_final_answer,
        ),
        a.len() == 0 ==> answer_texts(a, of_final_answer).len() == 0,
        a.len() == 1 ==> answer_texts(a, of_final_answer) == (if is_message(a[0], of_final_answer) {
            seq![trimmed(a[0]->text@)]
        } else {
            Seq::empty()
        }),
    decreases b.len(),
{
    if a.len() == 1 {
        assert(a.drop_last() =~= Seq::empty());
        assert(answer_texts(a.drop_last(), of_final_answer) =~= Seq::empty());
        assert(answer_texts(a, of_final_answer) =~= if is_message(a[0], of_final_answer) {
            seq![trimmed(a[0]->text@)]
        } else {
            Seq::empty()
        });
    }
    let all = a + b;
    if b.len() == 0 {
        assert(all =~= a);
        assert(answer_texts(a, of_final_answer) + answer_texts(b, of_final_answer) =~= answer_texts(
            a,
            of_final_answer,
        ));
    } else {
        law_every_message_brings_its_text(a, b.drop_last(), of_final_answer);
        assert(all.drop_last() =~= a + b.drop_last());
        assert(answer_texts(all, of_final_answer) =~= answer_texts(a, of_final_answer)
            + answer_texts(b, of_final_answer));
    }
}

proof fn lemma_texts_come_from_messages(items: Seq<ThreadItem>, of_final_answer: bool)
    ensures
        answer_texts(items, of_final_answer).len() > 0 <==> exists|i: int|
            0 <= i < items.len() && is_message(#[trigger] items[i], of_final_answer),
    decreases items.len(),
{
    if items.len() > 0 {
        let before = items.drop_last();
        lemma_texts_come_from_messages(before, of_final_answer);
        if answer_texts(before, of_final_answer).len() > 0 {
            let i = choose|i: int|
                0 <= i < before.len() && is_message(#[trigger] before[i], of_final_answer);
            assert(items[i] == before[i]);
        }
        if is_message(items.last(), of_final_answer) {
            assert(is_message(items[items.len() - 1], of_final_answer));
        }
        if exists|i: int| 0 <= i < items.len() && is_message(#[trigger] items[i], of_final_answer) {
            let i = choose|i: int|
                0 <= i < items.len() && is_message(#[trigger] items[i], of_final_answer);
            if i < before.len() {
                assert(is_message(before[i], of_final_answer));
            }
        }
    }
}

/// A turn answers with all its final messages where it has one that is not blank,
/// else with all its other messages, with an empty line between each two; and it
/// has no answer only where every message is blank.
pub proof fn law_turn_answers_with_all_messages(items: Seq<ThreadItem>)
    ensures
        turn_answer(items) == (if exists|i: int|
            0 <= i < items.len() && is_message(#[trigger] items[i], true) {
            Some(joined(answer_texts(items, true), "\n\n"@))
        } else if exists|i: int| 0 <= i < items.len() && is_message(#[trigger] items[i], false) {
            Some(joined(answer_texts(items, false), "\n\n"@))
        } else {
            None
        }),
{
    reveal_strlit("\n\n");
    assert("\n\n"@ =~= seq!['\n', '\n']);
    lemma_texts_come_from_messages(items, true);
    lemma_texts_come_from_messages(items, false);
}

/// The answer is wrapped to the width without the two columns of the prefix, and
/// to one column at least.
pub proof fn law_prefix_takes_two_columns(width: u16)
    ensures
        wrap_width(width) >= 1,
        width >= 3 ==> wrap_width(width) == width - 2,
        width < 3 ==> wrap_width(width) == 1,
{
}

/// A completed cell shows every line of the rendered answer, the first behind a dim
/// arrow and the others behind two spaces; without any it says that there is no
/// answer. What is not the answer is styled alike at every outcome.
pub proof fn law_cell_shows_every_answer_line(cell: BtwCellView, answer_lines: Seq<LineView>)
    ensures
        ({
            let lines = cell_lines(cell, answer_lines);
            &&& lines[0].style == plain()
            &&& lines[0].spans.len() == 3
            &&& lines[0].spans[0] == span_of("/btw"@, colored(Color::Magenta))
            &&& lines[0].spans[1] == span_of(" "@, plain())
            &&& lines[0].spans[2] == span_of(cell.question, plain())
            &&& !(cell.outcome is Completed) || answer_lines.len() == 0 ==> lines[1].style == plain()
            &&& match cell.outcome {
                BtwOutcomeView::Pending => lines.len() == 2 && lines[1].spans == seq![
                    span_of("↳ "@, dimmed()),
                    span_of("Answering in background…"@, dimmed()),
                ],
                BtwOutcomeView::Failed(error) => lines.len() == 2 && lines[1].spans == seq![
                    span_of("↳ "@, dimmed()),
                    span_of("Failed: "@ + error, colored(Color::Red)),
                ],
                BtwOutcomeView::Completed(_) => if answer_lines.len() == 0 {
                    lines.len() == 2 && lines[1].spans == seq![
                        span_of("↳ "@, dimmed()),
                        span_of("(No answer returned)"@, dimmed()),
                    ]
                } else {
                    &&& lines.len() == 1 + answer_lines.len()
                    &&& forall|i: int|
                        0 <= i < answer_lines.len() ==> {
                            &&& (#[trigger] lines[i + 1]).spans.len() == answer_lines[i].spans.len()
                                + 1
                            &&& lines[i + 1].spans[0] == (if i == 0 {
                                span_of("↳ "@, dimmed())
                            } else {
                                span_of("  "@, plain())
                            })
                            &&& lines[i + 1].spans.drop_first() == answer_lines[i].spans
                            &&& lines[i + 1].style == answer_lines[i].style
                        }
                },
            }
        }),
{
    let lines = cell_lines(cell, answer_lines);
    if cell.outcome is Completed && answer_lines.len() > 0 {
        assert forall|i: int| 0 <= i < answer_lines.len() implies (
        #[trigger] lines[i + 1]).spans.drop_first() == answer_lines[i].spans by {
            assert(lines[i + 1].spans.drop_first() =~= answer_lines[i].spans);
        }
    }
}

/// The lines of a completed cell are made from what the renderer makes of the whole
/// answer, at the width without the prefix; other cells do not ask it.
pub proof fn law_renderer_gets_the_whole_answer<F: Fn(&str, usize, &PathBuf) -> Vec<Line>>(
    cell: BtwCellView,
    width: u16,
    append_markdown: F,
    lines: Seq<LineView>,
)
    requires
        shows(cell, width, append_markdown, lines),
    ensures
        match cell.outcome {
            BtwOutcomeView::Completed(answer) => exists|
                text: &str,
                columns: usize,
                cwd: &PathBuf,
                answer_lines: Vec<Line>,
            |
                {
                    &&& text@ == answer
                    &&& columns == (if width < 3 {
                        1
                    } else {
                        width - 2
                    })
                    &&& *cwd == cell.cwd
                    &&& #[trigger] call_ensures(append_markdown, (text, columns, cwd), answer_lines)
                    &&& lines == cell_lines(cell, line_views(answer_lines@))
                },
            _ => lines == cell_lines(cell, Seq::empty()),
        },
{
    if let BtwOutcomeView::Completed(answer) = cell.outcome {
        let (text, answer_lines) = choose|text: &str, answer_lines: Vec<Line>|
            {
                &&& text@ == answer
                &&& #[trigger] call_ensures(
                    append_markdown,
                    (text, wrap_width(width), &cell.cwd),
                    answer_lines,
                )
                &&& lines == cell_lines(cell, line_views(answer_lines@))
            };
        let columns: usize = wrap_width(width);
        let cwd = &cell.cwd;
        assert(call_ensures(append_markdown, (text, columns, cwd), answer_lines));
    }
}

/// A turn that failed is reported with its own message.
pub proof fn law_failure_is_reported_in_full(message: String, kind: BtwRequestKind)
    ensures
        BtwError::Failed(message).text() == message@,
        BtwError::Request(kind).text() == kind.context_text(),
{
}

} // verus!
