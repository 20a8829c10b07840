//! Identifiers (UUIDs, held as 128-bit integers) and their text forms.
use vstd::prelude::*;
use vstd::arithmetic::div_mod::{lemma_basic_div, lemma_div_denominator, lemma_fundamental_div_mod};
use vstd::arithmetic::power::{lemma_pow_positive, pow};

use crate::random::fill_random;

verus! {

/// The lowercase hexadecimal digit of `n` (for `n < 16`).
pub open spec fn hex_digit(n: nat) -> char {
    if n < 10 {
        crate::text::digit_char(n)
    } else if n == 10 { 'a' }
    else if n == 11 { 'b' }
    else if n == 12 { 'c' }
    else if n == 13 { 'd' }
    else if n == 14 { 'e' }
    else { 'f' }
}

/// The `i`-th of the 32 hexadecimal digits of `x`, most significant first.
pub open spec fn uuid_nibble(x: u128, i: nat) -> nat {
    ((x as nat / pow(16, (31 - i) as nat) as nat) % 16) as nat
}

/// The hyphenated lowercase form of the UUID `x`: its 32 hexadecimal digits,
/// most significant first, in groups of 8, 4, 4, 4 and 12 separated by `-`.
pub open spec fn uuid_text(x: u128) -> Seq<char> {
    let d = |i: int| hex_digit(uuid_nibble(x, i as nat));
    Seq::new(8, |i: int| d(i)) + seq!['-'] + Seq::new(4, |i: int| d(8 + i)) + seq!['-'] + Seq::new(
        4,
        |i: int| d(12 + i),
    ) + seq!['-'] + Seq::new(4, |i: int| d(16 + i)) + seq!['-'] + Seq::new(12, |i: int| d(20 + i))
}

/// What `uuid::Uuid::parse_str` makes of a text: the identifier, or `None` when
/// the text is not one of the forms that it accepts.
pub uninterp spec fn uuid_parsed(s: Seq<char>) -> Option<u128>;

/// The hyphenated text of an identifier, by `uuid::Uuid`'s `Display`
/// (`Uuid::from_u128(id).to_string()`), which renders the lowercase
/// hyphenated form.
#[verifier::external_body]
pub(crate) fn uuid_to_string(id: u128) -> (r: String)
    ensures
        r@ == uuid_text(id),
{
    uuid::Uuid::from_u128(id).to_string()
}

/// What an identifier's text reads as: the identifier whose hyphenated
/// lowercase form it is, else what `uuid::Uuid::parse_str` makes of it.
pub open spec fn uuid_read(s: Seq<char>) -> Option<u128> {
    if exists|u: u128| uuid_text(u) == s {
        Some(choose|u: u128| uuid_text(u) == s)
    } else {
        uuid_parsed(s)
    }
}

/// The identifier that `uuid::Uuid::parse_str` reads from `s`, if any; it
/// reads the hyphenated lowercase form back as the identifier written.
#[verifier::external_body]
pub(crate) fn uuid_parse(s: &str) -> (r: Option<u128>)
    ensures
        r == (if exists|u: u128| uuid_text(u) == s@ {
            Some(choose|u: u128| uuid_text(u) == s@)
        } else {
            uuid_parsed(s@)
        }),
{
    match uuid::Uuid::parse_str(s) {
        Ok(u) => Some(u.as_u128()),
        Err(_) => None,
    }
}

/// A version 4 identifier: its version digit is 4 and its variant bits are `10`.
pub open spec fn is_uuid_v4(x: u128) -> bool {
    (x >> 76u128) & 0xfu128 == 4 && (x >> 62u128) & 0x3u128 == 2
}

/// The big-endian number of bytes.
pub open spec fn be_u128(b: Seq<u8>) -> u128
    decreases b.len(),
{
    if b.len() == 0 {
        0
    } else {
        (be_u128(b.drop_last()) << 8u128) | (b.last() as u128)
    }
}

/// The version 4 identifier built from 16 random bytes: their big-endian
/// number with the version digit set to 4 and the variant bits to `10`.
pub open spec fn uuid_of_bytes(b: Seq<u8>) -> u128 {
    (be_u128(b) & 0xFFFF_FFFF_FFFF_0FFF_3FFF_FFFF_FFFF_FFFFu128) | 0x0000_0000_0000_4000_8000_0000_0000_0000u128
}

/// The identifier `uuid::Builder::from_random_bytes` builds from the bytes:
/// the bytes in order, with version 4 and the RFC 4122 variant set.
#[verifier::external_body]
fn uuid_from_random_bytes(bytes: [u8; 16]) -> (r: u128)
    ensures
        r == uuid_of_bytes(bytes@),
{
    uuid::Builder::from_random_bytes(bytes).into_uuid().as_u128()
}

/// An identifier built from random bytes is a version 4 identifier.
proof fn lemma_uuid_of_bytes_v4(b: Seq<u8>)
    ensures
        is_uuid_v4(uuid_of_bytes(b)),
{
    let x = be_u128(b);
    assert(((((x & 0xFFFF_FFFF_FFFF_0FFF_3FFF_FFFF_FFFF_FFFFu128) | 0x0000_0000_0000_4000_8000_0000_0000_0000u128) >> 76u128) & 0xfu128 == 4)
        && ((((x & 0xFFFF_FFFF_FFFF_0FFF_3FFF_FFFF_FFFF_FFFFu128) | 0x0000_0000_0000_4000_8000_0000_0000_0000u128) >> 62u128) & 0x3u128 == 2))
        by (bit_vector);
}

/// A fresh random (version 4) identifier, from 16 bytes of the operating
/// system's random source; `None` when that source fails.
pub(crate) fn new_uuid_v4() -> (r: Option<u128>)
    ensures
        r matches Some(u) ==> is_uuid_v4(u) && exists|b: Seq<u8>| b.len() == 16 && u == #[trigger] uuid_of_bytes(b),
{
    let mut bytes = [0u8; 16];
    if fill_random(&mut bytes) {
        let u = uuid_from_random_bytes(bytes);
        proof {
            lemma_uuid_of_bytes_v4(bytes@);
            assert(bytes@.len() == 16);
        }
        Some(u)
    } else {
        None
    }
}

/// Distinct digits below sixteen have distinct characters.
proof fn lemma_hex_digit_injective(a: nat, b: nat)
    requires
        a < 16,
        b < 16,
        hex_digit(a) == hex_digit(b),
    ensures
        a == b,
{
}

/// The character of `uuid_text(x)` that writes its `i`-th digit.
pub open spec fn digit_position(i: int) -> int {
    i + (if i >= 8 { 1int } else { 0 }) + (if i >= 12 { 1int } else { 0 }) + (if i >= 16 { 1int } else { 0 })
        + (if i >= 20 { 1int } else { 0 })
}

proof fn lemma_text_digit(x: u128, i: int)
    requires
        0 <= i < 32,
    ensures
        uuid_text(x).len() == 36,
        uuid_text(x)[digit_position(i)] == hex_digit(uuid_nibble(x, i as nat)),
{
}

/// Dividing by `16^k` and taking the last digit.
proof fn lemma_div_step(x: nat, k: nat)
    ensures
        x / pow(16, k) as nat == (x / pow(16, k + 1) as nat) * 16 + (x / pow(16, k) as nat) % 16,
{
    lemma_pow_positive(16, k);
    lemma_pow_positive(16, k + 1);
    reveal(pow);
    assert(pow(16, k + 1) == 16 * pow(16, k));
    let p = pow(16, k) as nat;
    lemma_div_denominator(x as int, p as int, 16);
    assert(x / (p * 16) == (x / p) / 16);
    assert(p * 16 == pow(16, k + 1)) by (nonlinear_arith)
        requires
            pow(16, k + 1) == 16 * pow(16, k),
            p == pow(16, k),
    ;
    lemma_fundamental_div_mod((x / p) as int, 16);
}

/// Two numbers below `16^32` with the same digits are equal.
proof fn lemma_same_digits(x: u128, y: u128, k: nat)
    requires
        k <= 32,
        forall|i: int| 0 <= i < 32 ==> #[trigger] uuid_nibble(x, i as nat) == uuid_nibble(y, i as nat),
    ensures
        x as nat / pow(16, k) as nat == y as nat / pow(16, k) as nat,
    decreases 32 - k,
{
    if k == 32 {
        reveal_with_fuel(pow, 33);
        assert(pow(16, 32) == 0x1_0000_0000_0000_0000_0000_0000_0000_0000);
        lemma_basic_div(x as int, pow(16, 32));
        lemma_basic_div(y as int, pow(16, 32));
    } else {
        lemma_same_digits(x, y, k + 1);
        lemma_div_step(x as nat, k);
        lemma_div_step(y as nat, k);
        let j: int = 31 - k;
        assert(uuid_nibble(x, j as nat) == uuid_nibble(y, j as nat));
        assert((31 - j) as nat == k);
        assert(uuid_nibble(x, j as nat) == (x as nat / pow(16, k) as nat) % 16);
        assert(uuid_nibble(y, j as nat) == (y as nat / pow(16, k) as nat) % 16);
    }
}

/// Distinct identifiers have distinct texts.
pub proof fn lemma_uuid_text_injective(x: u128, y: u128)
    requires
        uuid_text(x) == uuid_text(y),
    ensures
        x == y,
{
    assert forall|i: int| 0 <= i < 32 implies #[trigger] uuid_nibble(x, i as nat) == uuid_nibble(y, i as nat) by {
        lemma_text_digit(x, i);
        lemma_text_digit(y, i);
        lemma_hex_digit_injective(uuid_nibble(x, i as nat), uuid_nibble(y, i as nat));
    }
    lemma_same_digits(x, y, 0);
    reveal(pow);
    assert(pow(16, 0) == 1);
    assert(x as nat / 1 == x as nat);
    assert(y as nat / 1 == y as nat);
}

/// An identifier's text reads back as the identifier.
pub proof fn law_uuid_text_read_back(x: u128)
    ensures
        uuid_read(uuid_text(x)) == Some(x),
{
    let u = choose|u: u128| uuid_text(u) == uuid_text(x);
    lemma_uuid_text_injective(u, x);
}

} // verus!
