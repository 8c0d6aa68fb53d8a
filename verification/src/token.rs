//! Tokens: the 128-bit names under which blobs are stored.
//!
//! A token is written as 32 hexadecimal digits, most significant first. The
//! canonical notation is lower case with hyphens after the 8th, 12th, 16th
//! and 20th digit; it is the name of the blob's file. Drawing, reading and
//! writing tokens is done by the `uuid` crate; this module states what those
//! calls return and proves that every token is read back from its own name.

use crate::error::ServiceError;
use vstd::arithmetic::div_mod::{lemma_div_denominator, lemma_fundamental_div_mod};
use vstd::prelude::*;

verus! {

/// 16 to the power `n`.
pub open spec fn pow16(n: nat) -> nat
    decreases n,
{
    if n == 0 {
        1
    } else {
        16 * pow16((n - 1) as nat)
    }
}

/// The `k`-th hexadecimal digit of `v`, digit 0 being the most significant
/// of the 32.
pub open spec fn nibble(v: u128, k: int) -> int {
    (v as int / pow16((31 - k) as nat) as int) % 16
}

/// The lower-case character for the digit `d`.
pub open spec fn lower_hex(d: int) -> char {
    seq!['0', '1', '2', '3', '4', '5', '6', '7', '8', '9', 'a', 'b', 'c', 'd', 'e', 'f'][d]
}

/// The digit that `c` stands for, in either case; `None` if `c` is no
/// hexadecimal digit.
pub open spec fn hex_digit(c: char) -> Option<int> {
    let u = c as u32 as int;
    if '0' as u32 <= u <= '9' as u32 {
        Some(u - '0' as u32)
    } else if 'a' as u32 <= u <= 'f' as u32 {
        Some(u - 'a' as u32 + 10)
    } else if 'A' as u32 <= u <= 'F' as u32 {
        Some(u - 'A' as u32 + 10)
    } else {
        None
    }
}

/// The places of the four hyphens in the canonical notation.
pub open spec fn is_hyphen_position(i: int) -> bool {
    i == 8 || i == 13 || i == 18 || i == 23
}

/// The place of the `k`-th digit in the canonical notation.
pub open spec fn digit_position(k: int) -> int {
    if k < 8 {
        k
    } else if k < 12 {
        k + 1
    } else if k < 16 {
        k + 2
    } else if k < 20 {
        k + 3
    } else {
        k + 4
    }
}

/// The canonical notation of `v`: 36 characters, lower case, hyphenated.
pub open spec fn hyphenated(v: u128) -> Seq<char> {
    Seq::new(
        36,
        |i: int|
            if is_hyphen_position(i) {
                '-'
            } else if i < 8 {
                lower_hex(nibble(v, i))
            } else if i < 13 {
                lower_hex(nibble(v, i - 1))
            } else if i < 18 {
                lower_hex(nibble(v, i - 2))
            } else if i < 23 {
                lower_hex(nibble(v, i - 3))
            } else {
                lower_hex(nibble(v, i - 4))
            },
    )
}

/// `s` is 32 hexadecimal digits.
pub open spec fn is_simple(s: Seq<char>) -> bool {
    s.len() == 32 && forall|i: int| 0 <= i < 32 ==> (#[trigger] hex_digit(s[i])) is Some
}

/// `s` is 32 hexadecimal digits in groups of 8, 4, 4, 4 and 12 with a
/// hyphen between them.
pub open spec fn is_hyphenated(s: Seq<char>) -> bool {
    &&& s.len() == 36
    &&& forall|i: int| 0 <= i < 36 && is_hyphen_position(i) ==> #[trigger] s[i] == '-'
    &&& forall|i: int|
        0 <= i < 36 && !is_hyphen_position(i) ==> (#[trigger] hex_digit(s[i])) is Some
}

/// The prefix of the URN notation.
pub open spec fn urn_prefix() -> Seq<char> {
    seq!['u', 'r', 'n', ':', 'u', 'u', 'i', 'd', ':']
}

/// `s` is the URN prefix followed by a hyphenated token.
pub open spec fn is_urn(s: Seq<char>) -> bool {
    s.len() == 45 && s.subrange(0, 9) == urn_prefix() && is_hyphenated(s.subrange(9, 45))
}

/// The 32 digits of a hyphenated token, hyphens left out.
pub open spec fn digits_of(s: Seq<char>) -> Seq<char> {
    Seq::new(32, |k: int| s[digit_position(k)])
}

/// The number that a string of hexadecimal digits denotes, most significant
/// digit first.
pub open spec fn digits_value(d: Seq<char>) -> nat
    decreases d.len(),
{
    if d.len() == 0 {
        0
    } else {
        (16 * digits_value(d.drop_last()) + hex_digit(d.last()).unwrap()) as nat
    }
}

/// The token that the text `s` denotes, if it denotes one. Three notations
/// are read: 32 bare digits, the hyphenated one, and the hyphenated one
/// behind `urn:uuid:`. Digits may be of either case.
pub open spec fn text_value(s: Seq<char>) -> Option<u128> {
    if is_simple(s) {
        Some(digits_value(s) as u128)
    } else if is_hyphenated(s) {
        Some(digits_value(digits_of(s)) as u128)
    } else if is_urn(s) {
        Some(digits_value(digits_of(s.subrange(9, 45))) as u128)
    } else {
        None
    }
}

/// `v` is marked as randomly drawn: its 13th digit is 4 and its 17th digit
/// is 8, 9, a or b.
pub open spec fn is_random_form(v: u128) -> bool {
    nibble(v, 12) == 4 && 8 <= nibble(v, 16) < 12
}

/// The 32 digits of `v` in lower case, most significant first.
pub open spec fn lower_digits(v: u128) -> Seq<char> {
    Seq::new(32, |k: int| lower_hex(nibble(v, k)))
}

proof fn lemma_pow16_32()
    ensures
        pow16(32) == 0x1_0000_0000_0000_0000_0000_0000_0000_0000int,
{
    assert(pow16(4) == 0x1_0000int) by {
        reveal_with_fuel(pow16, 5);
    }
    assert(pow16(8) == 0x1_0000_0000int) by {
        reveal_with_fuel(pow16, 5);
    }
    assert(pow16(12) == 0x1_0000_0000_0000int) by {
        reveal_with_fuel(pow16, 5);
    }
    assert(pow16(16) == 0x1_0000_0000_0000_0000int) by {
        reveal_with_fuel(pow16, 5);
    }
    assert(pow16(20) == 0x1_0000_0000_0000_0000_0000int) by {
        reveal_with_fuel(pow16, 5);
    }
    assert(pow16(24) == 0x1_0000_0000_0000_0000_0000_0000int) by {
        reveal_with_fuel(pow16, 5);
    }
    assert(pow16(28) == 0x1_0000_0000_0000_0000_0000_0000_0000int) by {
        reveal_with_fuel(pow16, 5);
    }
    assert(pow16(32) == 0x1_0000_0000_0000_0000_0000_0000_0000_0000int) by {
        reveal_with_fuel(pow16, 5);
    }
}

proof fn lemma_pow16_positive(n: nat)
    ensures
        pow16(n) > 0,
    decreases n,
{
    if n > 0 {
        lemma_pow16_positive((n - 1) as nat);
    }
}

/// Each digit of a token is below 16, and its lower-case character stands
/// for it.
pub proof fn lemma_digit_read_back(v: u128, k: int)
    ensures
        0 <= nibble(v, k) < 16,
        hex_digit(lower_hex(nibble(v, k))) == Some(nibble(v, k)),
{
    let d = nibble(v, k);
    assert(0 <= d < 16);
    assert(hex_digit(lower_hex(d)) == Some(d)) by {
        if d < 4 {
        } else if d < 8 {
        } else if d < 12 {
        } else {
        }
    }
}

/// The first `k` digits of `v` denote `v` without its last `32 - k` digits.
proof fn lemma_prefix_value(v: u128, k: nat)
    requires
        k <= 32,
    ensures
        digits_value(lower_digits(v).subrange(0, k as int)) == v as int / pow16(
            (32 - k) as nat,
        ) as int,
    decreases k,
{
    let prefix = lower_digits(v).subrange(0, k as int);
    if k == 0 {
        lemma_pow16_32();
        assert(v as int / 0x1_0000_0000_0000_0000_0000_0000_0000_0000int == 0);
    } else {
        let rest = pow16((32 - k) as nat) as int;
        let head = v as int / rest;
        lemma_prefix_value(v, (k - 1) as nat);
        lemma_digit_read_back(v, k - 1);
        lemma_pow16_positive((32 - k) as nat);
        assert(prefix.drop_last() =~= lower_digits(v).subrange(0, k - 1));
        assert(prefix.last() == lower_hex(nibble(v, k - 1)));
        assert(nibble(v, k - 1) == head % 16);
        assert(pow16((32 - (k - 1)) as nat) == 16 * pow16((32 - k) as nat));
        assert(rest * 16 == 16 * rest);
        assert(head / 16 == v as int / (rest * 16)) by {
            lemma_div_denominator(v as int, rest, 16);
        }
        assert(digits_value(prefix.drop_last()) == head / 16);
        assert(head == 16 * (head / 16) + head % 16) by {
            lemma_fundamental_div_mod(head, 16);
        }
        assert(digits_value(prefix) == 16 * digits_value(prefix.drop_last()) + hex_digit(
            prefix.last(),
        ).unwrap());
    }
}

/// Every token is read back from its canonical notation.
pub proof fn lemma_text_round_trip(v: u128)
    ensures
        is_hyphenated(hyphenated(v)),
        text_value(hyphenated(v)) == Some(v),
{
    let s = hyphenated(v);
    assert forall|i: int| 0 <= i < 36 && !is_hyphen_position(i) implies (#[trigger] hex_digit(
        s[i],
    )) is Some by {
        lemma_digit_read_back(v, i);
        lemma_digit_read_back(v, i - 1);
        lemma_digit_read_back(v, i - 2);
        lemma_digit_read_back(v, i - 3);
        lemma_digit_read_back(v, i - 4);
    }
    assert(digits_of(s) =~= lower_digits(v));
    assert(lower_digits(v).subrange(0, 32) =~= lower_digits(v));
    lemma_prefix_value(v, 32);
    assert(pow16((32 - 32) as nat) == 1);
    assert(digits_value(lower_digits(v).subrange(0, 32)) == v as int / 1);
    assert(digits_value(lower_digits(v)) == v as int);
}

/// Tokens that differ have canonical notations that differ.
pub proof fn lemma_names_distinct(a: u128, b: u128)
    ensures
        hyphenated(a) == hyphenated(b) ==> a == b,
{
    lemma_text_round_trip(a);
    lemma_text_round_trip(b);
}

/// A token that is marked as randomly drawn shows it in its canonical
/// notation: the character behind the second hyphen is `4`, the one behind
/// the third is `8`, `9`, `a` or `b`.
pub proof fn lemma_random_form_text(v: u128)
    requires
        is_random_form(v),
    ensures
        hyphenated(v)[14] == '4',
        hyphenated(v)[19] == '8' || hyphenated(v)[19] == '9' || hyphenated(v)[19] == 'a'
            || hyphenated(v)[19] == 'b',
{
}

#[verifier::external_type_specification]
#[verifier::external_body]
pub struct ExUuidError(uuid::Error);

/// `uuid::Uuid::parse_str`, the value taken by `Uuid::as_u128`.
///
/// Trusted: the call accepts exactly the three notations of `text_value`,
/// and the value it yields is the number that the 32 digits denote.
#[verifier::external_body]
fn parse_uuid(text: &str) -> (r: Result<u128, uuid::Error>)
    ensures
        match text_value(text@) {
            Some(v) => r == Ok::<u128, uuid::Error>(v),
            None => r is Err,
        },
{
    match uuid::Uuid::parse_str(text) {
        Ok(id) => Ok(id.as_u128()),
        Err(e) => Err(e),
    }
}

/// `uuid::Uuid::to_hyphenated` and the `to_string` of what it returns, on
/// the value given through `Uuid::from_u128`.
///
/// Trusted: the text is the 36 characters of `hyphenated`.
#[verifier::external_body]
fn hyphenated_text(value: u128) -> (text: String)
    ensures
        text@ == hyphenated(value),
{
    uuid::Uuid::from_u128(value).to_hyphenated().to_string()
}

/// `uuid::Uuid::new_v4`, the value taken by `Uuid::as_u128`.
///
/// Trusted: whatever value is drawn carries the version and variant marks
/// of `is_random_form`. Nothing else is claimed of it: two draws may be
/// equal. The call panics if the operating system yields no random bytes.
#[verifier::external_body]
fn random_uuid() -> (value: u128)
    ensures
        is_random_form(value),
{
    uuid::Uuid::new_v4().as_u128()
}

/// The name of a stored blob.
#[derive(Clone, Copy, PartialEq, Eq, Structural, Debug, Hash)]
pub struct Token {
    pub value: u128,
}

impl Token {
    /// Reads a token from `text`, in any of the three notations.
    pub fn parse(text: &str) -> (r: Result<Token, ServiceError>)
        ensures
            r == match text_value(text@) {
                Some(v) => Ok::<Token, ServiceError>(Token { value: v }),
                None => Err(ServiceError::InvalidToken),
            },
    {
        match parse_uuid(text) {
            Ok(value) => Ok(Token { value }),
            Err(_) => Err(ServiceError::InvalidToken),
        }
    }

    /// The canonical notation of this token.
    pub fn text(&self) -> (text: String)
        ensures
            text@ == hyphenated(self.value),
    {
        hyphenated_text(self.value)
    }
}

/// Draws a fresh token at random.
pub fn new_token() -> (token: Token)
    ensures
        is_random_form(token.value),
{
    Token { value: random_uuid() }
}

} // verus!
