//! Random bytes from the operating system's random source.
use vstd::prelude::*;
use rand::RngCore;

verus! {

/// Fills `buf` from the operating system's random source
/// (`rand::rngs::OsRng::try_fill_bytes`); `false` when the source fails.
/// Nothing is promised of the bytes.
#[verifier::external_body]
pub(crate) fn fill_random<const N: usize>(buf: &mut [u8; N]) -> (ok: bool) {
    rand::rngs::OsRng.try_fill_bytes(&mut buf[..]).is_ok()
}

} // verus!
