//! One-time passwords: six digits derived from a BLAKE3 digest of the user,
//! the secret and a 30-second time step, accepted within ten steps either way.
use vstd::prelude::*;
use crate::clock::{get_current_timestamp, timestamp_of_spec, ClockReading};
use crate::text::{concat, decimal, decimal_string, digit_char, push_char, str_eq};

verus! {

broadcast use vstd::string::group_string_axioms;

/// The BLAKE3 digest of the UTF-8 bytes of a text.
pub uninterp spec fn blake3_digest(data: Seq<char>) -> Seq<u8>;

/// `blake3::hash` of the text's bytes.
#[verifier::external_body]
fn blake3_of_text(data: &str) -> (r: [u8; 32])
    ensures
        r@ == blake3_digest(data@),
{
    *blake3::hash(data.as_bytes()).as_bytes()
}

/// The little-endian number of the first four bytes.
pub open spec fn le_u32(h: Seq<u8>) -> nat {
    (h[0] + 256 * h[1] + 65536 * h[2] + 16777216 * h[3]) as nat
}

/// `n` (below a million) as six digits with leading zeros.
pub open spec fn six_digits(n: nat) -> Seq<char> {
    seq![
        digit_char(n / 100000 % 10),
        digit_char(n / 10000 % 10),
        digit_char(n / 1000 % 10),
        digit_char(n / 100 % 10),
        digit_char(n / 10 % 10),
        digit_char(n % 10),
    ]
}

/// The code of a digest: its first four bytes as a little-endian number,
/// modulo a million, in six digits.
pub open spec fn code_of_digest(h: Seq<u8>) -> Seq<char> {
    six_digits(le_u32(h) % 1000000)
}

/// The code for a user, a time step and a secret: the code of the digest of
/// the user, the secret and the step's decimal number, in that order.
pub open spec fn otp_code(user_id: Seq<char>, counter: nat, secret: Seq<char>) -> Seq<char> {
    code_of_digest(blake3_digest(user_id + secret + decimal(counter)))
}

/// The code is accepted at time step `current`: it is the code of some
/// non-negative step at most ten steps away.
pub open spec fn otp_accepted(user_id: Seq<char>, otp: Seq<char>, secret: Seq<char>, current: int) -> bool {
    exists|i: int| -10 <= i <= 10 && current + i >= 0 && #[trigger] otp_code(user_id, (current + i) as nat, secret) == otp
}

/// The digit of `d` (below ten).
fn digit(d: u32) -> (c: char)
    requires
        d < 10,
    ensures
        c == digit_char(d as nat),
{
    if d == 0 { '0' } else if d == 1 { '1' } else if d == 2 { '2' } else if d == 3 { '3' } else if d == 4 {
        '4'
    } else if d == 5 { '5' } else if d == 6 { '6' } else if d == 7 { '7' } else if d == 8 { '8' } else { '9' }
}

/// The six-digit code of a digest.
pub fn otp_from_digest(digest: &[u8; 32]) -> (r: String)
    ensures
        r@ == code_of_digest(digest@),
{
    let n: u32 = digest[0] as u32 + digest[1] as u32 * 256 + digest[2] as u32 * 65536 + digest[3] as u32 * 16777216;
    assert(n == le_u32(digest@));
    let m: u32 = n % 1000000;
    let mut s = String::new();
    push_char(&mut s, digit(m / 100000 % 10));
    push_char(&mut s, digit(m / 10000 % 10));
    push_char(&mut s, digit(m / 1000 % 10));
    push_char(&mut s, digit(m / 100 % 10));
    push_char(&mut s, digit(m / 10 % 10));
    push_char(&mut s, digit(m % 10));
    assert(s@ =~= six_digits(m as nat));
    s
}

/// The code for `user_id` at time step `counter` under `secret`.
pub fn generate_otp(user_id: &str, counter: u64, secret: &str) -> (r: String)
    ensures
        r@ == otp_code(user_id@, counter as nat, secret@),
{
    let a = concat(user_id, secret);
    let data = concat(a.as_str(), decimal_string(counter).as_str());
    let digest = blake3_of_text(data.as_str());
    otp_from_digest(&digest)
}

/// The 30-second time step of a timestamp.
pub fn counter_at(timestamp: i64) -> (r: u64)
    ensures
        r == (timestamp as u64) / 30,
{
    (timestamp as u64) / 30
}

/// The current 30-second time step.
pub fn generate_timebased_counter() -> (r: u64)
    ensures
        exists|reading: ClockReading| r == (#[trigger] timestamp_of_spec(reading) as u64) / 30,
{
    counter_at(get_current_timestamp())
}

/// Whether `otp` is the code of a non-negative time step at most ten steps
/// from `current_counter`.
pub fn verify_otp_at(user_id: &str, otp: &str, secret: &str, current_counter: i64) -> (r: bool)
    requires
        i64::MIN + 10 <= current_counter <= i64::MAX - 10,
    ensures
        r == otp_accepted(user_id@, otp@, secret@, current_counter as int),
{
    let mut i: i64 = -10;
    while i <= 10
        invariant
            -10 <= i <= 11,
            i64::MIN + 10 <= current_counter <= i64::MAX - 10,
            forall|j: int| -10 <= j < i ==> !(current_counter + j >= 0 && #[trigger] otp_code(user_id@, (current_counter + j) as nat, secret@) == otp@),
        decreases 11 - i,
    {
        let counter = current_counter + i;
        if counter >= 0 {
            let generated = generate_otp(user_id, counter as u64, secret);
            if str_eq(generated.as_str(), otp) {
                assert(otp_code(user_id@, (current_counter + i) as nat, secret@) == otp@);
                return true;
            }
        }
        i = i + 1;
    }
    false
}

/// Whether `otp` is accepted now: the code of a time step at most ten steps
/// (five minutes) from the current one.
pub fn verify_otp(user_id: &str, otp: &str, secret: &str) -> (r: bool)
    ensures
        exists|current: int| 0 <= current <= u64::MAX / 30 && r == otp_accepted(user_id@, otp@, secret@, current),
{
    let counter = generate_timebased_counter();
    verify_otp_at(user_id, otp, secret, counter as i64)
}

/// A code generated at a time step is accepted at every step at most ten
/// steps later or earlier.
pub proof fn law_generated_code_accepted(user_id: Seq<char>, secret: Seq<char>, generated_at: nat, current: int)
    requires
        generated_at - 10 <= current <= generated_at + 10,
    ensures
        otp_accepted(user_id, otp_code(user_id, generated_at, secret), secret, current),
{
    let i = generated_at - current;
    assert(current + i == generated_at);
    assert(otp_code(user_id, (current + i) as nat, secret) == otp_code(user_id, generated_at, secret));
}

} // verus!
