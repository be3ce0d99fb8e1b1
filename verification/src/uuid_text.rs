//! The numbers behind identifiers and their textual form.
//!
//! An identifier is a 128-bit number. Its text is the usual one of a UUID: 32 lower-case
//! hexadecimal digits in five groups.
use vstd::arithmetic::{div_mod, power};
use vstd::prelude::*;

verus! {

/// The lower-case hexadecimal digit for `n`, where `n` is below sixteen.
pub open spec fn hex_char(n: int) -> char {
    if n < 10 {
        (48 + n) as char
    } else {
        (87 + n) as char
    }
}

/// The `k`-th of the 32 hexadecimal digits of `value`, counted from the most significant.
pub open spec fn hex_digit(value: u128, k: int) -> int {
    (value as int / power::pow(16, (31 - k) as nat)) % 16
}

/// The 32 hexadecimal digits of `value`.
pub open spec fn simple_text(value: u128) -> Seq<char> {
    Seq::new(32, |k: int| hex_char(hex_digit(value, k)))
}

/// The hexadecimal digits of `value` in groups of 8, 4, 4, 4 and 12, with hyphens between.
pub open spec fn hyphenated_text(value: u128) -> Seq<char> {
    let s = simple_text(value);
    s.subrange(0, 8) + seq!['-'] + s.subrange(8, 12) + seq!['-'] + s.subrange(12, 16) + seq!['-']
        + s.subrange(16, 20) + seq!['-'] + s.subrange(20, 32)
}

/// `c`, with a capital ASCII letter replaced by its small one.
pub open spec fn small_letter(c: char) -> char {
    if 'A' <= c && c <= 'Z' {
        (c as u32 + 32) as char
    } else {
        c
    }
}

/// Whether `text` is one of the ways to write `value`: the digits alone, the hyphenated form, the
/// hyphenated form in braces, or the hyphenated form after `urn:uuid:`. Letters may be capital.
pub open spec fn names_uuid(text: Seq<char>, value: u128) -> bool {
    let small = text.map_values(|c: char| small_letter(c));
    ||| small == simple_text(value)
    ||| small == hyphenated_text(value)
    ||| small == seq!['{'] + hyphenated_text(value) + seq!['}']
    ||| small == seq!['u', 'r', 'n', ':', 'u', 'u', 'i', 'd', ':'] + hyphenated_text(value)
}

/// The number that a text names, if it names one.
pub open spec fn read_uuid(text: Seq<char>) -> Option<u128> {
    if exists|value: u128| names_uuid(text, value) {
        Some(choose|value: u128| names_uuid(text, value))
    } else {
        None
    }
}

/// The text of the error with which `uuid::Uuid::parse_str` refuses `text`.
pub uninterp spec fn uuid_parse_error(text: Seq<char>) -> Seq<char>;

/// `uuid::Uuid::new_v4` draws a number at random. The claim is the one that holds of every draw:
/// the four version bits say 4 and the two variant bits say 2.
#[verifier::external_body]
fn random_uuid() -> (value: u128)
    ensures
        value & 0xf000_c000_0000_0000_0000 == 0x4000_8000_0000_0000_0000,
{
    uuid::Uuid::new_v4().as_u128()
}

/// Whether a number may be the outcome of a draw.
pub closed spec fn may_draw(value: u128) -> bool {
    call_ensures(random_uuid, (), value)
}

/// Draws a number at random.
pub(crate) fn draw_uuid() -> (value: u128)
    ensures
        may_draw(value),
        value & 0xf000_c000_0000_0000_0000 == 0x4000_8000_0000_0000_0000,
{
    random_uuid()
}

/// A draw hands out the number as it was generated.
proof fn lemma_draws_are_generated(value: u128)
    requires
        may_draw(value),
    ensures
        call_ensures(random_uuid, (), value),
{
}

/// Every number that is drawn has the version and the variant of a random identifier.
pub proof fn draws_are_of_the_random_version(value: u128)
    requires
        may_draw(value),
    ensures
        value & 0xf000_c000_0000_0000_0000 == 0x4000_8000_0000_0000_0000,
{
    lemma_draws_are_generated(value);
}

/// `uuid::Uuid::parse_str` accepts exactly the texts that name a number, and returns that number;
/// any other text it refuses with an error, whose own text is handed out.
#[verifier::external_body]
pub(crate) fn parse_uuid(text: &str) -> (r: Result<u128, String>)
    ensures
        match r {
            Ok(value) => read_uuid(text@) == Some(value),
            Err(_) => read_uuid(text@) is None,
        },
        r matches Err(message) ==> message@ == uuid_parse_error(text@),
{
    match uuid::Uuid::parse_str(text) {
        Ok(parsed) => Ok(parsed.as_u128()),
        Err(error) => Err(error.to_string()),
    }
}

/// `uuid::Uuid` displays itself in the hyphenated form.
#[verifier::external_body]
pub(crate) fn write_uuid(value: u128) -> (text: String)
    ensures
        text@ == hyphenated_text(value),
{
    uuid::Uuid::from_u128(value).to_string()
}

proof fn lemma_digit_step(value: u128, k: int)
    requires
        0 <= k < 32,
    ensures
        value as int / power::pow(16, (31 - k) as nat) == 16 * (value as int / power::pow(
            16,
            (32 - k) as nat,
        )) + hex_digit(value, k),
{
    let p = power::pow(16, (31 - k) as nat);
    power::lemma_pow_positive(16, (31 - k) as nat);
    assert(power::pow(16, (32 - k) as nat) == 16 * p) by {
        reveal(power::pow);
    }
    div_mod::lemma_div_denominator(value as int, p, 16);
    assert(p * 16 == 16 * p);
    div_mod::lemma_fundamental_div_mod(value as int / p, 16);
}

proof fn lemma_same_prefix(a: u128, b: u128, k: nat)
    requires
        k <= 32,
        forall|j: int| 0 <= j < 32 ==> #[trigger] hex_digit(a, j) == hex_digit(b, j),
    ensures
        a as int / power::pow(16, (32 - k) as nat) == b as int / power::pow(16, (32 - k) as nat),
    decreases k,
{
    if k == 0 {
        assert(power::pow(16, 32) == 0x1_0000_0000_0000_0000_0000_0000_0000_0000) by {
            reveal_with_fuel(power::pow, 33);
        }
    } else {
        lemma_same_prefix(a, b, (k - 1) as nat);
        lemma_digit_step(a, k - 1);
        lemma_digit_step(b, k - 1);
        assert(hex_digit(a, k - 1) == hex_digit(b, k - 1));
    }
}

proof fn lemma_hex_char_injective(m: int, n: int)
    requires
        0 <= m < 16,
        0 <= n < 16,
        hex_char(m) == hex_char(n),
    ensures
        m == n,
{
}

/// Different numbers have different digits.
pub proof fn simple_text_injective(a: u128, b: u128)
    requires
        simple_text(a) == simple_text(b),
    ensures
        a == b,
{
    assert forall|j: int| 0 <= j < 32 implies #[trigger] hex_digit(a, j) == hex_digit(b, j) by {
        assert(simple_text(a)[j] == hex_char(hex_digit(a, j)));
        assert(simple_text(b)[j] == hex_char(hex_digit(b, j)));
        lemma_hex_char_injective(hex_digit(a, j), hex_digit(b, j));
    }
    lemma_same_prefix(a, b, 32);
    reveal(power::pow);
    assert(power::pow(16, 0) == 1);
}

/// Different numbers have different hyphenated texts.
pub proof fn hyphenated_text_injective(a: u128, b: u128)
    requires
        hyphenated_text(a) == hyphenated_text(b),
    ensures
        a == b,
{
    let s = hyphenated_text(a);
    let x = simple_text(a);
    let y = simple_text(b);
    assert(x =~= s.subrange(0, 8) + s.subrange(9, 13) + s.subrange(14, 18) + s.subrange(19, 23)
        + s.subrange(24, 36));
    assert(y =~= s.subrange(0, 8) + s.subrange(9, 13) + s.subrange(14, 18) + s.subrange(19, 23)
        + s.subrange(24, 36));
    simple_text_injective(a, b);
}

/// The hyphenated text of a number names that number.
pub proof fn hyphenated_text_names_uuid(value: u128)
    ensures
        names_uuid(hyphenated_text(value), value),
{
    let s = simple_text(value);
    let t = hyphenated_text(value);
    assert forall|k: int| 0 <= k < 32 implies small_letter(#[trigger] s[k]) == s[k] by {
        assert(0 <= hex_digit(value, k) < 16);
    }
    assert(t.map_values(|c: char| small_letter(c)) =~= t);
}

/// A text names at most one number.
pub proof fn names_at_most_one(text: Seq<char>, a: u128, b: u128)
    requires
        names_uuid(text, a),
        names_uuid(text, b),
    ensures
        a == b,
{
    let small = text.map_values(|c: char| small_letter(c));
    if small.len() == 32 {
        simple_text_injective(a, b);
    } else {
        let x = hyphenated_text(a);
        let y = hyphenated_text(b);
        if small.len() == 38 {
            assert(x =~= small.subrange(1, 37));
            assert(y =~= small.subrange(1, 37));
        } else if small.len() == 45 {
            assert(x =~= small.subrange(9, 45));
            assert(y =~= small.subrange(9, 45));
        }
        hyphenated_text_injective(a, b);
    }
}

/// Reading the hyphenated text of a number gives the number back.
pub proof fn text_reads_back(value: u128)
    ensures
        read_uuid(hyphenated_text(value)) == Some(value),
{
    hyphenated_text_names_uuid(value);
    let text = hyphenated_text(value);
    names_at_most_one(text, value, choose|v: u128| names_uuid(text, v));
}

} // verus!
