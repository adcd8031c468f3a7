//! Identifiers of agent threads: 128-bit UUIDs with their text form.

use vstd::arithmetic::div_mod::{
    lemma_basic_div, lemma_div_denominator, lemma_div_is_ordered, lemma_fundamental_div_mod,
};
use vstd::arithmetic::power::{lemma_pow_positive, pow};
use vstd::prelude::*;

verus! {

/// The error of `uuid::Uuid::parse_str`, carried without a look inside.
#[verifier::external_type_specification]
#[verifier::external_body]
pub struct ExUuidError(uuid::Error);

/// The identifier of a thread.
#[derive(Debug, Clone, Copy, PartialEq, Eq, Structural)]
pub struct ThreadId {
    pub value: u128,
}

/// A text that is no thread identifier.
#[derive(Debug, Clone, Copy, PartialEq, Eq, Structural)]
pub struct InvalidThreadId;

/// The `i`-th of the 32 hexadecimal digits of a value, most significant first.
pub open spec fn nibble(value: u128, i: int) -> int {
    (value as int / pow(16, (31 - i) as nat)) % 16
}

/// A lower-case hexadecimal digit.
pub open spec fn hex_digit(digit: int) -> char {
    if digit < 10 {
        ('0' as int + digit) as char
    } else {
        ('a' as int + digit - 10) as char
    }
}

/// The places of the hyphens in the text of a UUID.
pub open spec fn is_hyphen_place(i: int) -> bool {
    i == 8 || i == 13 || i == 18 || i == 23
}

/// The place in the text at which the `i`-th hexadecimal digit stands.
pub open spec fn digit_place(i: int) -> int {
    if i < 8 {
        i
    } else if i < 12 {
        i + 1
    } else if i < 16 {
        i + 2
    } else if i < 20 {
        i + 3
    } else {
        i + 4
    }
}

/// The number of the hexadecimal digit that stands at a place of the text.
pub open spec fn digit_at(place: int) -> int {
    if place < 8 {
        place
    } else if place < 13 {
        place - 1
    } else if place < 18 {
        place - 2
    } else if place < 23 {
        place - 3
    } else {
        place - 4
    }
}

/// A UUID as text: 32 lower-case hexadecimal digits, with hyphens after the
/// first 8, 12, 16 and 20 of them.
pub open spec fn uuid_text(value: u128) -> Seq<char> {
    Seq::new(
        36,
        |i: int|
            if is_hyphen_place(i) {
                '-'
            } else {
                hex_digit(nibble(value, digit_at(i)))
            },
    )
}

/// The 32 hexadecimal digits without hyphens.
pub open spec fn uuid_digits(value: u128) -> Seq<char> {
    Seq::new(32, |i: int| hex_digit(nibble(value, i)))
}

/// A text with its ASCII capitals in lower case.
pub open spec fn ascii_lowercase(text: Seq<char>) -> Seq<char> {
    text.map_values(
        |c: char|
            if 'A' <= c <= 'Z' {
                ((c as int) + 32) as char
            } else {
                c
            },
    )
}

/// A text that names a UUID: its digits with or without hyphens, the hyphenated
/// form also in braces or behind `urn:uuid:`, in capitals or lower case.
pub open spec fn names_uuid(text: Seq<char>, value: u128) -> bool {
    let lower = ascii_lowercase(text);
    ||| lower == uuid_digits(value)
    ||| lower == uuid_text(value)
    ||| lower == seq!['{'] + uuid_text(value) + seq!['}']
    ||| lower == seq!['u', 'r', 'n', ':', 'u', 'u', 'i', 'd', ':'] + uuid_text(value)
}

/// The version number that a UUID carries.
pub open spec fn uuid_version(value: u128) -> int {
    nibble(value, 12)
}

/// The variant bits of a UUID are those of RFC 9562.
pub open spec fn has_rfc_variant(value: u128) -> bool {
    nibble(value, 16) / 4 == 2
}

/// The order of texts: character by character, a proper prefix first.
pub open spec fn text_less(a: Seq<char>, b: Seq<char>) -> bool {
    exists|k: int| #[trigger] first_difference(a, b, k)
}

/// The two texts agree before place `k`, where the first one is smaller.
pub open spec fn first_difference(a: Seq<char>, b: Seq<char>, k: int) -> bool {
    &&& 0 <= k <= a.len()
    &&& k < b.len()
    &&& a.take(k) == b.take(k)
    &&& k < a.len() ==> a[k] < b[k]
}

/// `uuid::Uuid::from_u128` and its `Display`: the hyphenated lower-case text.
#[verifier::external_body]
fn format_uuid(value: u128) -> (r: String)
    ensures
        r@ == uuid_text(value),
{
    uuid::Uuid::from_u128(value).to_string()
}

/// `uuid::Uuid::parse_str`: the value of each text that names a UUID, and an
/// error for every other text.
#[verifier::external_body]
fn parse_uuid(text: &str) -> (r: Result<u128, uuid::Error>)
    ensures
        match r {
            Ok(value) => names_uuid(text@, value),
            Err(_) => forall|value: u128| !names_uuid(text@, value),
        },
{
    uuid::Uuid::parse_str(text).map(|parsed| parsed.as_u128())
}

/// `uuid::Uuid::new_v4`: some UUID of version 4. Which one is left open: it
/// rests on the system's source of random numbers, without which the call
/// panics.
#[verifier::external_body]
fn new_v4_uuid() -> (r: u128)
    ensures
        uuid_version(r) == 4,
        has_rfc_variant(r),
{
    uuid::Uuid::new_v4().as_u128()
}

/// `uuid::Uuid::now_v7`: some UUID of version 7. Which one is left open: it
/// rests on the clock and on the system's source of random numbers. The call
/// panics without random numbers or where the clock stands before 1970.
#[verifier::external_body]
fn now_v7_uuid() -> (r: u128)
    ensures
        uuid_version(r) == 7,
        has_rfc_variant(r),
{
    uuid::Uuid::now_v7().as_u128()
}

/// A fresh random UUID.
pub fn random_uuid() -> (r: u128)
    ensures
        uuid_version(r) == 4,
        has_rfc_variant(r),
{
    new_v4_uuid()
}

/// The text of a UUID.
pub fn uuid_to_string(value: u128) -> (r: String)
    ensures
        r@ == uuid_text(value),
{
    format_uuid(value)
}

impl ThreadId {
    /// The text of the identifier.
    pub open spec fn text(self) -> Seq<char> {
        uuid_text(self.value)
    }

    /// A fresh identifier.
    pub fn new() -> (r: ThreadId)
        ensures
            uuid_version(r.value) == 7,
            has_rfc_variant(r.value),
    {
        ThreadId { value: now_v7_uuid() }
    }

    /// Reads an identifier from its text.
    pub fn from_string(text: &str) -> (r: Result<ThreadId, InvalidThreadId>)
        ensures
            match r {
                Ok(id) => names_uuid(text@, id.value),
                Err(_) => forall|value: u128| !names_uuid(text@, value),
            },
            forall|id: ThreadId| text@ == id.text() ==> r == Ok::<ThreadId, InvalidThreadId>(id),
    {
        let parsed = parse_uuid(text);
        proof {
            assert forall|id: ThreadId| text@ == id.text() implies parsed == Ok::<
                u128,
                uuid::Error,
            >(id.value) by {
                lemma_text_names_only(id.value);
            }
        }
        match parsed {
            Ok(value) => Ok(ThreadId { value }),
            Err(_) => Err(InvalidThreadId),
        }
    }

    /// The identifier as text.
    pub fn to_string(&self) -> (r: String)
        ensures
            r@ == self.text(),
    {
        format_uuid(self.value)
    }
}

/// The number that the first `i` hexadecimal digits of a value make.
spec fn leading(value: u128, i: int) -> int {
    value as int / pow(16, (32 - i) as nat)
}

proof fn lemma_leading_step(value: u128, i: int)
    requires
        0 <= i < 32,
    ensures
        leading(value, i + 1) == leading(value, i) * 16 + nibble(value, i),
{
    let v = value as int;
    let p = pow(16, (31 - i) as nat);
    lemma_pow_positive(16, (31 - i) as nat);
    assert(pow(16, (32 - i) as nat) == 16 * p) by {
        reveal(pow);
    }
    lemma_div_denominator(v, p, 16);
    assert(p * 16 == 16 * p);
    lemma_fundamental_div_mod(v / p, 16);
}

proof fn lemma_leading_ends(value: u128)
    ensures
        leading(value, 0) == 0,
        leading(value, 32) == value,
{
    assert(pow(16, 32) == 0x1_0000_0000_0000_0000_0000_0000_0000_0000int) by {
        reveal_with_fuel(pow, 33);
    }
    lemma_basic_div(value as int, pow(16, 32));
    assert(pow(16, 0) == 1) by {
        reveal(pow);
    }
}

/// Where the leading digits of two values differ, an earlier digit differs.
proof fn lemma_first_smaller_digit(a: u128, b: u128, n: int) -> (k: int)
    requires
        0 <= n <= 32,
        leading(a, n) < leading(b, n),
    ensures
        0 <= k < n,
        nibble(a, k) < nibble(b, k),
        forall|j: int| 0 <= j < k ==> nibble(a, j) == nibble(b, j),
    decreases n,
{
    lemma_leading_ends(a);
    lemma_leading_ends(b);
    lemma_leading_step(a, n - 1);
    lemma_leading_step(b, n - 1);
    lemma_pow_positive(16, (32 - n) as nat);
    lemma_pow_positive(16, (32 - (n - 1)) as nat);
    if leading(a, n - 1) == leading(b, n - 1) {
        lemma_equal_digits(a, b, n - 1);
        n - 1
    } else {
        if a <= b {
            lemma_div_is_ordered(a as int, b as int, pow(16, (32 - (n - 1)) as nat));
        } else {
            lemma_div_is_ordered(b as int, a as int, pow(16, (32 - n) as nat));
        }
        lemma_first_smaller_digit(a, b, n - 1)
    }
}

proof fn lemma_equal_digits(a: u128, b: u128, n: int)
    requires
        0 <= n <= 32,
        leading(a, n) == leading(b, n),
    ensures
        forall|j: int| 0 <= j < n ==> nibble(a, j) == nibble(b, j),
    decreases n,
{
    if n > 0 {
        lemma_leading_step(a, n - 1);
        lemma_leading_step(b, n - 1);
        lemma_equal_digits(a, b, n - 1);
    }
}

/// The texts of two identifiers stand in the order of their values.
pub proof fn law_text_order_is_value_order(a: ThreadId, b: ThreadId)
    ensures
        text_less(a.text(), b.text()) <==> a.value < b.value,
{
    if a.value < b.value {
        lemma_smaller_value_smaller_text(a.value, b.value);
    } else if text_less(a.text(), b.text()) {
        let k = choose|k: int| #[trigger] first_difference(a.text(), b.text(), k);
        if b.value < a.value {
            lemma_smaller_value_smaller_text(b.value, a.value);
            let m = choose|m: int| #[trigger] first_difference(b.text(), a.text(), m);
            if k < m {
                assert(b.text().take(m)[k] == a.text().take(m)[k]);
            } else if m < k {
                assert(b.text().take(k)[m] == a.text().take(k)[m]);
            }
        }
    }
}

proof fn lemma_smaller_value_smaller_text(a: u128, b: u128)
    requires
        a < b,
    ensures
        text_less(uuid_text(a), uuid_text(b)),
{
    lemma_leading_ends(a);
    lemma_leading_ends(b);
    let k = lemma_first_smaller_digit(a, b, 32);
    let place = digit_place(k);
    assert(uuid_text(a).take(place) =~= uuid_text(b).take(place)) by {
        assert forall|i: int| 0 <= i < place implies uuid_text(a)[i] == uuid_text(b)[i] by {
            if !is_hyphen_place(i) {
                assert(nibble(a, digit_at(i)) == nibble(b, digit_at(i)));
            }
        }
    }
    assert(first_difference(uuid_text(a), uuid_text(b), place));
}

/// Two identifiers with one text are the same.
pub proof fn law_text_is_injective(a: ThreadId, b: ThreadId)
    requires
        a.text() == b.text(),
    ensures
        a == b,
{
    law_text_order_is_value_order(a, b);
    law_text_order_is_value_order(b, a);
    if text_less(a.text(), b.text()) {
        let k = choose|k: int| #[trigger] first_difference(a.text(), b.text(), k);
        assert(a.text()[k] < b.text()[k]);
    }
}

proof fn lemma_text_names_only(value: u128)
    ensures
        names_uuid(uuid_text(value), value),
        forall|other: u128| names_uuid(uuid_text(value), other) ==> other == value,
{
    let text = uuid_text(value);
    assert(ascii_lowercase(text) =~= text);
    assert forall|other: u128| names_uuid(text, other) implies other == value by {
        assert(text == uuid_text(other));
        law_text_is_injective(ThreadId { value }, ThreadId { value: other });
    }
}

/// The text of an identifier is its 32 hexadecimal digits in lower case, the most
/// significant one first, in groups of 8, 4, 4, 4 and 12 with hyphens between them.
pub proof fn law_text_spells_the_value(id: ThreadId, i: int)
    requires
        0 <= i < 36,
    ensures
        id.text().len() == 36,
        i == 8 || i == 13 || i == 18 || i == 23 ==> id.text()[i] == '-',
        !(i == 8 || i == 13 || i == 18 || i == 23) ==> {
            let hyphens: int = if i < 8 {
                0
            } else if i < 13 {
                1
            } else if i < 18 {
                2
            } else if i < 23 {
                3
            } else {
                4
            };
            let digit = (id.value as int / pow(16, (31 - (i - hyphens)) as nat)) % 16;
            &&& 0 <= digit < 16
            &&& digit < 10 ==> id.text()[i] as int == '0' as int + digit
            &&& digit >= 10 ==> id.text()[i] as int == 'a' as int + digit - 10
        },
{
}

/// An identifier is named by its text, by its digits alone, by its text in braces
/// and by its text behind `urn:uuid:`, each in capitals or lower case, and by
/// nothing else.
pub proof fn law_identifier_has_four_forms(text: Seq<char>, value: u128)
    ensures
        ascii_lowercase(text).len() == text.len(),
        forall|i: int|
            0 <= i < text.len() ==> #[trigger] ascii_lowercase(text)[i] as int == (if 'A' <= text[i]
                <= 'Z' {
                text[i] as int + 32
            } else {
                text[i] as int
            }),
        uuid_digits(value).len() == 32,
        forall|i: int|
            0 <= i < 32 ==> #[trigger] uuid_digits(value)[i] == uuid_text(value)[if i < 8 {
                i
            } else if i < 12 {
                i + 1
            } else if i < 16 {
                i + 2
            } else if i < 20 {
                i + 3
            } else {
                i + 4
            }],
        names_uuid(text, value) <==> {
            let lower = ascii_lowercase(text);
            ||| lower == uuid_text(value)
            ||| lower == uuid_digits(value)
            ||| lower == "{"@ + uuid_text(value) + "}"@
            ||| lower == "urn:uuid:"@ + uuid_text(value)
        },
{
    reveal_strlit("{");
    reveal_strlit("}");
    reveal_strlit("urn:uuid:");
    assert("{"@ =~= seq!['{']);
    assert("}"@ =~= seq!['}']);
    assert("urn:uuid:"@ =~= seq!['u', 'r', 'n', ':', 'u', 'u', 'i', 'd', ':']);
}

} // verus!
