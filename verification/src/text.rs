//! Text helpers shared by the transcript and team modules: trimming, word
//! splitting, joining and previews limited to a number of grapheme clusters.

use unicode_segmentation::UnicodeSegmentation;
use vstd::prelude::*;
use vstd::string::{StrSliceExecFns, StringExecFns};

verus! {

/// The marker that ends a shortened preview.
pub const ELLIPSIS: &'static str = "...";

/// A part of a text that stands for something else, by the bytes it covers.
#[derive(Debug, Clone, Copy, PartialEq, Eq, Structural)]
pub struct TextElement {
    pub start: usize,
    pub end: usize,
}

/// `String::push` appends one character to the end of the string.
pub assume_specification[ String::push ](s: &mut String, c: char)
    ensures
        final(s)@ == old(s)@.push(c),
;

/// The grapheme clusters of a text, in order: what
/// `UnicodeSegmentation::graphemes(text, true)` yields.
pub uninterp spec fn grapheme_clusters(text: Seq<char>) -> Seq<Seq<char>>;

/// The characters with the Unicode property `White_Space`.
pub open spec fn is_white_space(c: char) -> bool {
    ||| '\u{9}' <= c <= '\u{d}'
    ||| c == ' '
    ||| c == '\u{85}'
    ||| c == '\u{a0}'
    ||| c == '\u{1680}'
    ||| '\u{2000}' <= c <= '\u{200a}'
    ||| c == '\u{2028}'
    ||| c == '\u{2029}'
    ||| c == '\u{202f}'
    ||| c == '\u{205f}'
    ||| c == '\u{3000}'
}

/// A text without the white space at its two ends.
pub open spec fn trimmed(s: Seq<char>) -> Seq<char>
    decreases s.len(),
{
    if s.len() > 0 && is_white_space(s.first()) {
        trimmed(s.drop_first())
    } else if s.len() > 0 && is_white_space(s.last()) {
        trimmed(s.drop_last())
    } else {
        s
    }
}

/// A text that holds nothing but white space.
pub open spec fn is_blank(s: Seq<char>) -> bool {
    forall|i: int| 0 <= i < s.len() ==> is_white_space(#[trigger] s[i])
}

/// The maximal runs of characters that are not white space, in order.
pub open spec fn words(s: Seq<char>) -> Seq<Seq<char>>
    decreases s.len(),
{
    if s.len() == 0 {
        Seq::empty()
    } else {
        let before = words(s.drop_last());
        if is_white_space(s.last()) {
            before
        } else if s.len() == 1 || is_white_space(s[s.len() - 2]) {
            before.push(seq![s.last()])
        } else {
            before.drop_last().push(before.last().push(s.last()))
        }
    }
}

/// The parts with a separator between each two neighbours.
pub open spec fn joined(parts: Seq<Seq<char>>, separator: Seq<char>) -> Seq<char>
    decreases parts.len(),
{
    if parts.len() == 0 {
        Seq::empty()
    } else if parts.len() == 1 {
        parts[0]
    } else {
        joined(parts.drop_last(), separator) + separator + parts.last()
    }
}

/// The views of a sequence of strings.
pub open spec fn string_views(strings: Seq<String>) -> Seq<Seq<char>> {
    strings.map_values(|s: String| s@)
}

/// The view of an optional string.
pub open spec fn option_view(value: Option<String>) -> Option<Seq<char>> {
    match value {
        Some(s) => Some(s@),
        None => None,
    }
}

/// The view of an optional string slice.
pub open spec fn option_str_view(value: Option<&str>) -> Option<Seq<char>> {
    match value {
        Some(s) => Some(s@),
        None => None,
    }
}

/// An optional text, trimmed, and kept only where something is left of it.
pub open spec fn non_blank(value: Option<Seq<char>>) -> Option<Seq<char>> {
    match value {
        Some(s) => if trimmed(s).len() == 0 {
            None
        } else {
            Some(trimmed(s))
        },
        None => None,
    }
}

/// Where the characters before `a` and from `b` on are white space, and those at
/// both ends of what lies between are not, trimming leaves exactly what lies
/// between.
pub proof fn law_trimming_leaves_the_middle(s: Seq<char>, a: int, b: int)
    requires
        0 <= a <= b <= s.len(),
        forall|i: int| 0 <= i < a ==> is_white_space(#[trigger] s[i]),
        forall|i: int| b <= i < s.len() ==> is_white_space(#[trigger] s[i]),
        a == b || (!is_white_space(s[a]) && !is_white_space(s[b - 1])),
    ensures
        trimmed(s) == s.subrange(a, b),
    decreases s.len(),
{
    if s.len() > 0 && is_white_space(s.first()) {
        let t = s.drop_first();
        if a > 0 {
            assert forall|i: int| 0 <= i < a - 1 implies is_white_space(#[trigger] t[i]) by {
                assert(t[i] == s[i + 1]);
            }
            law_trimming_leaves_the_middle(t, a - 1, b - 1);
            assert(t.subrange(a - 1, b - 1) =~= s.subrange(a, b));
        } else {
            // Everything is white space.
            law_trimming_leaves_the_middle(t, 0, 0);
            assert(t.subrange(0, 0) =~= s.subrange(a, b));
        }
    } else if s.len() > 0 && is_white_space(s.last()) {
        let t = s.drop_last();
        law_trimming_leaves_the_middle(t, a, b);
        assert(t.subrange(a, b) =~= s.subrange(a, b));
    } else {
        assert(s.subrange(a, b) =~= s);
    }
}

/// Trimming leaves nothing of a text exactly where the text is blank.
pub proof fn law_trimmed_empty_iff_blank(s: Seq<char>)
    ensures
        trimmed(s).len() == 0 <==> is_blank(s),
    decreases s.len(),
{
    if s.len() > 0 && is_white_space(s.first()) {
        let t = s.drop_first();
        law_trimmed_empty_iff_blank(t);
        if is_blank(t) {
            assert forall|i: int| 0 <= i < s.len() implies is_white_space(#[trigger] s[i]) by {
                if i > 0 {
                    assert(s[i] == t[i - 1]);
                }
            }
        }
        if is_blank(s) {
            assert forall|i: int| 0 <= i < t.len() implies is_white_space(#[trigger] t[i]) by {
                assert(t[i] == s[i + 1]);
            }
        }
    } else if s.len() > 0 && is_white_space(s.last()) {
        let t = s.drop_last();
        law_trimmed_empty_iff_blank(t);
        assert(!is_white_space(s[0]));
        assert(t[0] == s[0]);
    } else if s.len() > 0 {
        assert(!is_white_space(s[0]));
    }
}

/// What trimming leaves neither begins nor ends with white space, so a second
/// trimming changes nothing.
pub proof fn law_trimmed_is_stable(s: Seq<char>)
    ensures
        trimmed(s).len() > 0 ==> !is_white_space(trimmed(s).first()) && !is_white_space(
            trimmed(s).last(),
        ),
        trimmed(trimmed(s)) == trimmed(s),
    decreases s.len(),
{
    if s.len() > 0 && is_white_space(s.first()) {
        law_trimmed_is_stable(s.drop_first());
    } else if s.len() > 0 && is_white_space(s.last()) {
        law_trimmed_is_stable(s.drop_last());
    }
}

proof fn lemma_flatten_length(parts: Seq<Seq<char>>)
    requires
        forall|i: int| 0 <= i < parts.len() ==> (#[trigger] parts[i]).len() > 0,
    ensures
        parts.len() <= parts.flatten().len(),
    decreases parts.len(),
{
    if parts.len() > 0 {
        let rest = parts.drop_first();
        assert forall|i: int| 0 <= i < rest.len() implies (#[trigger] rest[i]).len() > 0 by {
            assert(rest[i] == parts[i + 1]);
        }
        lemma_flatten_length(rest);
    }
}

/// Tells whether a character is white space.
pub fn white_space(c: char) -> (r: bool)
    ensures
        r == is_white_space(c),
{
    ('\u{9}' <= c && c <= '\u{d}') || c == ' ' || c == '\u{85}' || c == '\u{a0}' || c == '\u{1680}'
        || ('\u{2000}' <= c && c <= '\u{200a}') || c == '\u{2028}' || c == '\u{2029}' || c
        == '\u{202f}' || c == '\u{205f}' || c == '\u{3000}'
}

/// Removes the white space at both ends of a text.
pub fn trim(text: &str) -> (r: &str)
    ensures
        r@ == trimmed(text@),
{
    let len: usize = text.unicode_len();
    let mut position: usize = 0;
    let mut start: usize = 0;
    let mut end: usize = 0;
    for c in it: text.chars()
        invariant
            it.seq() == text@,
            len == text@.len(),
            position == it.index(),
            start <= end <= position,
            forall|i: int| 0 <= i < start ==> is_white_space(#[trigger] text@[i]),
            forall|i: int| end <= i < position ==> is_white_space(#[trigger] text@[i]),
            start == end ==> start == 0,
            start < end ==> !is_white_space(text@[start as int]) && !is_white_space(
                text@[end - 1],
            ),
    {
        if !white_space(c) {
            if start == end {
                start = position;
            }
            end = position + 1;
        }
        position = position + 1;
    }
    proof {
        law_trimming_leaves_the_middle(text@, start as int, end as int);
    }
    text.substring_char(start, end)
}

/// An optional text, trimmed, where something is left of it.
pub fn trim_non_empty<'a>(text: Option<&'a str>) -> (r: Option<&'a str>)
    ensures
        option_str_view(r) == non_blank(option_str_view(text)),
{
    match text {
        Some(value) => {
            let value = trim(value);
            if value.is_empty() {
                None
            } else {
                Some(value)
            }
        },
        None => None,
    }
}

proof fn lemma_words_non_empty(s: Seq<char>)
    ensures
        s.len() > 0 && !is_white_space(s.last()) ==> words(s).len() > 0,
        forall|i: int| 0 <= i < words(s).len() ==> (#[trigger] words(s)[i]).len() > 0,
    decreases s.len(),
{
    if s.len() > 0 {
        let before = words(s.drop_last());
        lemma_words_non_empty(s.drop_last());
        assert forall|i: int| 0 <= i < words(s).len() implies (#[trigger] words(s)[i]).len() > 0 by {
            if i < before.len() - 1 {
                assert(before[i].len() > 0);
            }
        }
    }
}

proof fn lemma_joined_extend_last(parts: Seq<Seq<char>>, separator: Seq<char>, c: char)
    requires
        parts.len() > 0,
    ensures
        joined(parts.drop_last().push(parts.last().push(c)), separator) == joined(
            parts,
            separator,
        ).push(c),
{
    let longer = parts.drop_last().push(parts.last().push(c));
    assert(longer.drop_last() =~= parts.drop_last());
    assert(joined(longer, separator) =~= joined(parts, separator).push(c));
}

/// Replaces each run of white space by one space and drops it at the ends.
pub fn collapse_white_space(text: &str) -> (r: String)
    ensures
        r@ == joined(words(text@), seq![' ']),
{
    let mut out = String::new();
    let mut in_word: bool = false;
    let mut any_word: bool = false;
    proof {
        assert(text@.take(0) =~= Seq::<char>::empty());
    }
    for c in it: text.chars()
        invariant
            it.seq() == text@,
            out@ == joined(words(text@.take(it.index())), seq![' ']),
            in_word == (it.index() > 0 && !is_white_space(text@[it.index() - 1])),
            any_word == (words(text@.take(it.index())).len() > 0),
    {
        let ghost before = text@.take(it.index());
        let ghost after = text@.take(it.index() + 1);
        proof {
            assert(after.drop_last() =~= before);
            assert(after.last() == c);
            lemma_words_non_empty(before);
        }
        if white_space(c) {
            in_word = false;
        } else {
            if in_word {
                proof {
                    lemma_joined_extend_last(words(before), seq![' '], c);
                }
            } else {
                if any_word {
                    out.push(' ');
                }
                proof {
                    let longer = words(before).push(seq![c]);
                    assert(longer.drop_last() =~= words(before));
                    if any_word {
                        assert(joined(longer, seq![' ']) =~= joined(words(before), seq![' '])
                            + seq![' '] + seq![c]);
                    }
                }
            }
            out.push(c);
            in_word = true;
            any_word = true;
        }
    }
    proof {
        assert(text@.take(text@.len() as int) =~= text@);
    }
    out
}

/// Joins texts with a separator between each two neighbours.
pub fn join(parts: &Vec<String>, separator: &str) -> (r: String)
    ensures
        r@ == joined(string_views(parts@), separator@),
{
    let mut out = String::new();
    let ghost views = string_views(parts@);
    for i in 0..parts.len()
        invariant
            views == string_views(parts@),
            out@ == joined(views.take(i as int), separator@),
    {
        proof {
            assert(views.take(i + 1).drop_last() =~= views.take(i as int));
        }
        if i > 0 {
            out.append(separator);
        }
        out.append(parts[i].as_str());
        proof {
            assert(views[i as int] == parts@[i as int]@);
            if i == 0 {
                assert(out@ =~= views[0]);
            }
        }
    }
    proof {
        assert(views.take(parts@.len() as int) =~= views);
    }
    out
}

/// Tells whether a text begins with another one.
pub fn starts_with(text: &str, prefix: &str) -> (r: bool)
    ensures
        r == prefix@.is_prefix_of(text@),
{
    let prefix_len: usize = prefix.unicode_len();
    if text.unicode_len() < prefix_len {
        return false;
    }
    text.substring_char(0, prefix_len).to_string() == prefix.to_string()
}

/// A number in decimal digits, without leading zeros.
pub open spec fn decimal(n: nat) -> Seq<char>
    decreases n,
{
    if n < 10 {
        seq![('0' as nat + n) as char]
    } else {
        decimal(n / 10).push(('0' as nat + n % 10) as char)
    }
}

/// Writes a number in decimal digits.
pub fn format_decimal(n: usize) -> (r: String)
    ensures
        r@ == decimal(n as nat),
    decreases n,
{
    let digit: u8 = (n % 10) as u8;
    let mut out = if n < 10 {
        String::new()
    } else {
        format_decimal(n / 10)
    };
    out.push((48 + digit) as char);
    proof {
        if n < 10 {
            assert(out@ =~= seq![('0' as nat + n as nat) as char]);
        }
    }
    out
}

/// Calls `UnicodeSegmentation::graphemes` with extended clusters. The clusters
/// come out in the order of the text, none of them is empty, and one after the
/// other they make up the text.
#[verifier::external_body]
fn split_graphemes(text: &str) -> (r: Vec<&str>)
    ensures
        r@.map_values(|s: &str| s@) == grapheme_clusters(text@),
        r@.map_values(|s: &str| s@).flatten() == text@,
        forall|i: int| 0 <= i < r@.len() ==> (#[trigger] r@[i])@.len() > 0,
{
    text.graphemes(true).collect()
}

/// A text limited to a number of grapheme clusters: a text within the limit is
/// kept as it is; a longer one keeps its first clusters and, where the limit
/// leaves room for them, ends in three dots.
pub open spec fn truncated(text: Seq<char>, max_graphemes: nat) -> Seq<char> {
    let clusters = grapheme_clusters(text);
    if clusters.len() <= max_graphemes {
        text
    } else if max_graphemes >= ELLIPSIS@.len() {
        clusters.take(max_graphemes - ELLIPSIS@.len()).flatten() + ELLIPSIS@
    } else {
        clusters.take(max_graphemes as int).flatten()
    }
}

/// Limits a text to a number of grapheme clusters.
pub fn truncate_text(text: &str, max_graphemes: usize) -> (r: String)
    ensures
        r@ == truncated(text@, max_graphemes as nat),
        text@.len() <= max_graphemes ==> r@ == text@,
        text@.len() > 0 && max_graphemes > 0 ==> r@.len() > 0,
        r@ == text@ || if max_graphemes < 3 {
            r@.is_prefix_of(text@)
        } else {
            &&& r@.len() >= 3
            &&& r@.take(r@.len() - 3).is_prefix_of(text@)
            &&& r@.skip(r@.len() - 3) == seq!['.', '.', '.']
        },
{
    let clusters = split_graphemes(text);
    let ghost views = clusters@.map_values(|s: &str| s@);
    proof {
        reveal_strlit("...");
        assert forall|i: int| 0 <= i < views.len() implies (#[trigger] views[i]).len() > 0 by {
            assert(views[i] == clusters@[i]@);
        }
        lemma_flatten_length(views);
        law_truncation_keeps_the_beginning(text@, max_graphemes as nat);
    }
    if clusters.len() <= max_graphemes {
        return text.to_string();
    }
    let marker: usize = ELLIPSIS.unicode_len();
    let kept: usize = if max_graphemes >= marker {
        max_graphemes - marker
    } else {
        max_graphemes
    };
    let mut out = String::new();
    proof {
        assert(views.take(0).flatten() =~= Seq::<char>::empty());
    }
    for i in 0..kept
        invariant
            kept < clusters@.len(),
            views == clusters@.map_values(|s: &str| s@),
            out@ == views.take(i as int).flatten(),
            i > 0 ==> out@.len() > 0,
            forall|j: int| 0 <= j < clusters@.len() ==> (#[trigger] clusters@[j])@.len() > 0,
    {
        out.append(clusters[i]);
        proof {
            let longer = views.take(i + 1);
            assert(longer.drop_last() =~= views.take(i as int));
            longer.lemma_flatten_and_flatten_alt_are_equivalent();
            longer.drop_last().lemma_flatten_and_flatten_alt_are_equivalent();
            assert(longer.last() == clusters@[i as int]@);
        }
    }
    if max_graphemes >= marker {
        out.append(ELLIPSIS);
    }
    out
}

/// Trimming takes nothing but white space from the two ends of a text.
pub proof fn law_trimming_takes_only_white_space(s: Seq<char>) -> (ends: (int, int))
    ensures
        0 <= ends.0 <= ends.1 <= s.len(),
        trimmed(s) == s.subrange(ends.0, ends.1),
        forall|i: int| 0 <= i < s.len() && !(ends.0 <= i < ends.1) ==> is_white_space(
            #[trigger] s[i],
        ),
    decreases s.len(),
{
    if s.len() > 0 && is_white_space(s.first()) {
        let t = s.drop_first();
        let (a, b) = law_trimming_takes_only_white_space(t);
        assert(t.subrange(a, b) =~= s.subrange(a + 1, b + 1));
        assert forall|i: int| 0 <= i < s.len() && !(a + 1 <= i < b + 1) implies is_white_space(
            #[trigger] s[i],
        ) by {
            if i > 0 {
                assert(s[i] == t[i - 1]);
            }
        }
        (a + 1, b + 1)
    } else if s.len() > 0 && is_white_space(s.last()) {
        let t = s.drop_last();
        let (a, b) = law_trimming_takes_only_white_space(t);
        assert(t.subrange(a, b) =~= s.subrange(a, b));
        assert forall|i: int| 0 <= i < s.len() && !(a <= i < b) implies is_white_space(
            #[trigger] s[i],
        ) by {
            if i < t.len() {
                assert(s[i] == t[i]);
            }
        }
        (a, b)
    } else {
        assert(s.subrange(0, s.len() as int) =~= s);
        (0, s.len() as int)
    }
}

/// An optional text is absent where there is none or where it is blank, and else
/// is the text without the white space around it.
pub proof fn law_non_blank_texts_are_kept(value: Option<Seq<char>>)
    ensures
        match value {
            None => non_blank(value) is None,
            Some(s) => if (forall|i: int| 0 <= i < s.len() ==> is_white_space(#[trigger] s[i])) {
                non_blank(value) is None
            } else {
                non_blank(value) == Some(trimmed(s))
            },
        },
{
    if let Some(s) = value {
        law_trimmed_empty_iff_blank(s);
    }
}

/// The views of strings are theirs, one for one.
pub proof fn law_views_of_strings(strings: Seq<String>, value: Option<String>, slice: Option<&str>)
    ensures
        string_views(strings).len() == strings.len(),
        forall|i: int| 0 <= i < strings.len() ==> #[trigger] string_views(strings)[i] == strings[i]@,
        value is None <==> option_view(value) is None,
        value matches Some(s) ==> option_view(value) == Some(s@),
        slice is None <==> option_str_view(slice) is None,
        slice matches Some(s) ==> option_str_view(slice) == Some(s@),
{
}

/// White space separates words: the words of a text are those before a white
/// space character and then those behind it.
pub proof fn law_words_are_split_at_white_space(a: Seq<char>, space: char, b: Seq<char>)
    requires
        is_white_space(space),
    ensures
        words(a.push(space) + b) == words(a) + words(b),
    decreases b.len(),
{
    let s = a.push(space) + b;
    if b.len() == 0 {
        assert(s =~= a.push(space));
        assert(s.drop_last() =~= a);
        assert(words(a) + words(b) =~= words(a));
    } else {
        let c = b.drop_last();
        law_words_are_split_at_white_space(a, space, c);
        assert(s.drop_last() =~= a.push(space) + c);
        assert(s.last() == b.last());
        if is_white_space(b.last()) {
        } else if b.len() == 1 {
            assert(s[s.len() - 2] == space);
            assert(words(c) =~= Seq::empty());
            assert(words(s) =~= words(a) + words(b));
        } else if is_white_space(b[b.len() - 2]) {
            assert(s[s.len() - 2] == b[b.len() - 2]);
            assert(words(s) =~= words(a) + words(b));
        } else {
            assert(s[s.len() - 2] == b[b.len() - 2]);
            lemma_words_non_empty(c);
            assert(c.last() == b[b.len() - 2]);
            let before = words(a) + words(c);
            assert(before.last() == words(c).last());
            assert(before.drop_last().push(before.last().push(b.last())) =~= words(a) + words(c).drop_last().push(
                words(c).last().push(b.last()),
            ));
        }
    }
}

/// A text without white space is one word, unless it is empty.
pub proof fn law_text_without_white_space_is_a_word(s: Seq<char>)
    requires
        forall|i: int| 0 <= i < s.len() ==> !is_white_space(#[trigger] s[i]),
    ensures
        words(s) == (if s.len() == 0 {
            Seq::<Seq<char>>::empty()
        } else {
            seq![s]
        }),
    decreases s.len(),
{
    if s.len() > 0 {
        let t = s.drop_last();
        assert forall|i: int| 0 <= i < t.len() implies !is_white_space(#[trigger] t[i]) by {
            assert(t[i] == s[i]);
        }
        law_text_without_white_space_is_a_word(t);
        assert(!is_white_space(s[s.len() - 1]));
        if s.len() == 1 {
            assert(seq![s.last()] =~= s);
            assert(words(s) =~= seq![s]);
        } else {
            assert(!is_white_space(s[s.len() - 2]));
            assert(t.push(s.last()) =~= s);
            assert(seq![t].drop_last().push(t.push(s.last())) =~= seq![s]);
        }
    }
}

/// Joining two lists of parts puts one separator between the two joined texts;
/// a single part stays as it is.
pub proof fn law_joined_lists(a: Seq<Seq<char>>, b: Seq<Seq<char>>, separator: Seq<char>)
    requires
        a.len() > 0,
        b.len() > 0,
    ensures
        joined(a + b, separator) == joined(a, separator) + separator + joined(b, separator),
        joined(Seq::empty(), separator).len() == 0,
        forall|part: Seq<char>| #[trigger] joined(seq![part], separator) == part,
    decreases b.len(),
{
    let all = a + b;
    assert(all.drop_last() =~= a + b.drop_last());
    if b.len() == 1 {
        assert(b.drop_last() =~= Seq::empty());
        assert(a + b.drop_last() =~= a);
        assert(joined(b, separator) == b[0]);
    } else {
        law_joined_lists(a, b.drop_last(), separator);
        assert(joined(all, separator) =~= joined(a, separator) + separator + joined(b, separator));
    }
}

/// The number that decimal digits spell.
pub open spec fn number_spelled(digits: Seq<char>) -> int
    decreases digits.len(),
{
    if digits.len() == 0 {
        0
    } else {
        number_spelled(digits.drop_last()) * 10 + (digits.last() as int - '0' as int)
    }
}

/// A number is written in digits that spell it, without a zero in front unless
/// it is zero.
pub proof fn law_decimal_spells_its_number(n: nat)
    ensures
        number_spelled(decimal(n)) == n,
        decimal(n).len() > 0,
        forall|i: int| 0 <= i < decimal(n).len() ==> '0' <= #[trigger] decimal(n)[i] <= '9',
        n > 0 ==> decimal(n)[0] != '0',
    decreases n,
{
    if n < 10 {
        assert(decimal(n).drop_last() =~= Seq::empty());
        assert(number_spelled(Seq::empty()) == 0);
    } else {
        law_decimal_spells_its_number(n / 10);
        let d = ('0' as nat + n % 10) as char;
        let before = decimal(n / 10);
        assert(decimal(n) == before.push(d));
        assert(decimal(n).drop_last() =~= before);
        assert forall|i: int| 0 <= i < decimal(n).len() implies '0' <= #[trigger] decimal(n)[i]
            <= '9' by {
            if i < before.len() {
                assert(decimal(n)[i] == before[i]);
            }
        }
        assert(decimal(n)[0] == before[0]);
    }
}

/// A text of more clusters than the limit keeps its beginning: what comes before
/// the three dots, or all of it where the limit leaves no room for them, is a
/// prefix of the text that ends at the cluster which the limit allows. A text
/// within the limit stays as it is.
pub proof fn law_truncation_keeps_the_beginning(text: Seq<char>, max_graphemes: nat)
    ensures
        ({
            let clusters = grapheme_clusters(text);
            let r = truncated(text, max_graphemes);
            let kept = if max_graphemes < 3 {
                r
            } else {
                r.take(r.len() - 3)
            };
            &&& clusters.len() <= max_graphemes ==> r == text
            &&& clusters.len() > max_graphemes ==> {
                &&& max_graphemes >= 3 ==> r.len() >= 3 && r.skip(r.len() - 3) == seq!['.', '.', '.']
                &&& clusters.flatten() == text ==> kept.is_prefix_of(text)
                &&& exists|k: int|
                    {
                        &&& 0 <= k <= clusters.len()
                        &&& k == (if max_graphemes < 3 {
                            max_graphemes as int
                        } else {
                            max_graphemes - 3
                        })
                        &&& #[trigger] clusters.take(k).flatten() == kept
                    }
            }
        }),
{
    reveal_strlit("...");
    let clusters = grapheme_clusters(text);
    if clusters.len() > max_graphemes {
        let k = if max_graphemes < 3 {
            max_graphemes as int
        } else {
            max_graphemes - 3
        };
        let r = truncated(text, max_graphemes);
        let head = clusters.take(k).flatten();
        lemma_flatten_take_is_prefix(clusters, k);
        if max_graphemes >= 3 {
            assert(r == head + ELLIPSIS@);
            assert(r.take(r.len() - 3) =~= head);
            assert(r.skip(r.len() - 3) =~= seq!['.', '.', '.']);
        }
    }
}

proof fn lemma_flatten_take_is_prefix(parts: Seq<Seq<char>>, k: int)
    requires
        0 <= k <= parts.len(),
    ensures
        parts.take(k).flatten().is_prefix_of(parts.flatten()),
    decreases k,
{
    if k == 0 {
        assert(parts.take(0) =~= Seq::empty());
        assert(parts.take(0).flatten() =~= Seq::empty());
        assert(parts.flatten().subrange(0, 0) =~= Seq::empty());
    } else {
        let rest = parts.drop_first();
        lemma_flatten_take_is_prefix(rest, k - 1);
        let head = parts.take(k);
        assert(head.drop_first() =~= rest.take(k - 1));
        assert(head.first() == parts.first());
        let whole = parts.flatten();
        let part = head.flatten();
        assert(whole == parts.first() + rest.flatten());
        assert(part == parts.first() + rest.take(k - 1).flatten());
        assert(part =~= whole.subrange(0, part.len() as int)) by {
            let q = rest.take(k - 1).flatten();
            assert(q == rest.flatten().subrange(0, q.len() as int));
            assert forall|i: int| 0 <= i < part.len() implies part[i] == whole[i] by {
                if i >= parts.first().len() {
                    assert(q[i - parts.first().len()] == rest.flatten()[i - parts.first().len()]);
                }
            }
        }
    }
}

} // verus!
