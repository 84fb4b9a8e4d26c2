//! Draws from the seeded generator of `rand`. Of a drawn value only its range
//! is known here: which value comes is the generator's matter.

use vstd::prelude::*;

verus! {

#[verifier::external_type_specification]
#[verifier::external_body]
pub struct ExStdRng(rand::rngs::StdRng);

/// Whether a byte is a letter or a digit of ASCII.
pub open spec fn is_alphanumeric(byte: u8) -> bool {
    (0x30 <= byte <= 0x39) || (0x41 <= byte <= 0x5a) || (0x61 <= byte <= 0x7a)
}

/// Calls `SeedableRng::seed_from_u64`: a generator whose draws are fixed by
/// the seed. Trusted with nothing claimed of the generator.
#[verifier::external_body]
pub(crate) fn seeded(seed: u64) -> (rng: rand::rngs::StdRng) {
    rand::SeedableRng::seed_from_u64(seed)
}

/// Calls `Rng::gen_range` on `low..=high`. Trusted: the value lies in the
/// range. An empty range, on which `rand` panics, is left out.
#[verifier::external_body]
pub(crate) fn range_usize_inclusive(rng: &mut rand::rngs::StdRng, low: usize, high: usize) -> (r:
    usize)
    requires
        low <= high,
    ensures
        low <= r <= high,
{
    rand::Rng::gen_range(rng, low..=high)
}

/// Calls `Rng::gen_range` on `low..=high`. Trusted: the value lies in the
/// range. An empty range, on which `rand` panics, is left out.
#[verifier::external_body]
pub(crate) fn range_i8_inclusive(rng: &mut rand::rngs::StdRng, low: i8, high: i8) -> (r: i8)
    requires
        low <= high,
    ensures
        low <= r <= high,
{
    rand::Rng::gen_range(rng, low..=high)
}

/// Calls `Rng::gen_range` on `low..=high`. Trusted: the value lies in the
/// range. An empty range, on which `rand` panics, is left out.
#[verifier::external_body]
pub(crate) fn range_i16_inclusive(rng: &mut rand::rngs::StdRng, low: i16, high: i16) -> (r: i16)
    requires
        low <= high,
    ensures
        low <= r <= high,
{
    rand::Rng::gen_range(rng, low..=high)
}

/// Calls `Rng::gen_range` on `low..=high`. Trusted: the value lies in the
/// range. An empty range, on which `rand` panics, is left out.
#[verifier::external_body]
pub(crate) fn range_i32_inclusive(rng: &mut rand::rngs::StdRng, low: i32, high: i32) -> (r: i32)
    requires
        low <= high,
    ensures
        low <= r <= high,
{
    rand::Rng::gen_range(rng, low..=high)
}

/// Calls `Rng::gen_range` on `low..high`. Trusted: the value lies in the
/// range. An empty range, on which `rand` panics, is left out.
#[verifier::external_body]
pub(crate) fn range_i32(rng: &mut rand::rngs::StdRng, low: i32, high: i32) -> (r: i32)
    requires
        low < high,
    ensures
        low <= r < high,
{
    rand::Rng::gen_range(rng, low..high)
}

/// Calls `Rng::gen_range` on `low..=high`. Trusted: the value lies in the
/// range. An empty range, on which `rand` panics, is left out.
#[verifier::external_body]
pub(crate) fn range_i64_inclusive(rng: &mut rand::rngs::StdRng, low: i64, high: i64) -> (r: i64)
    requires
        low <= high,
    ensures
        low <= r <= high,
{
    rand::Rng::gen_range(rng, low..=high)
}

/// Calls `Rng::gen_range` on `low..high`. Trusted: the value lies in the
/// range. An empty range, on which `rand` panics, is left out.
#[verifier::external_body]
pub(crate) fn range_i64(rng: &mut rand::rngs::StdRng, low: i64, high: i64) -> (r: i64)
    requires
        low < high,
    ensures
        low <= r < high,
{
    rand::Rng::gen_range(rng, low..high)
}

/// Calls `Rng::gen_range` on `low..=high`. Trusted: the value lies in the
/// range. An empty range, on which `rand` panics, is left out.
#[verifier::external_body]
pub(crate) fn range_u32_inclusive(rng: &mut rand::rngs::StdRng, low: u32, high: u32) -> (r: u32)
    requires
        low <= high,
    ensures
        low <= r <= high,
{
    rand::Rng::gen_range(rng, low..=high)
}

/// Calls `Rng::gen_range` on `low..high`. Trusted: the value lies in the
/// range. An empty range, on which `rand` panics, is left out.
#[verifier::external_body]
pub(crate) fn range_u32(rng: &mut rand::rngs::StdRng, low: u32, high: u32) -> (r: u32)
    requires
        low < high,
    ensures
        low <= r < high,
{
    rand::Rng::gen_range(rng, low..high)
}

/// Calls `Rng::gen_range` on `low..=high`. Trusted: the value lies in the
/// range. An empty range, on which `rand` panics, is left out.
#[verifier::external_body]
pub(crate) fn range_u64_inclusive(rng: &mut rand::rngs::StdRng, low: u64, high: u64) -> (r: u64)
    requires
        low <= high,
    ensures
        low <= r <= high,
{
    rand::Rng::gen_range(rng, low..=high)
}

/// Calls `Rng::gen` for a truth value. Trusted with nothing claimed.
#[verifier::external_body]
pub(crate) fn random_bool(rng: &mut rand::rngs::StdRng) -> (r: bool) {
    rand::Rng::gen(rng)
}

/// Calls `Rng::gen` for a byte. Trusted with nothing claimed.
#[verifier::external_body]
pub(crate) fn random_u8(rng: &mut rand::rngs::StdRng) -> (r: u8) {
    rand::Rng::gen(rng)
}

/// Calls `Rng::gen` for a number of 16 bits. Trusted with nothing claimed.
#[verifier::external_body]
pub(crate) fn random_u16(rng: &mut rand::rngs::StdRng) -> (r: u16) {
    rand::Rng::gen(rng)
}

/// Calls `Rng::sample` with the distribution `Alphanumeric`. Trusted: the
/// byte is a letter or a digit of ASCII.
#[verifier::external_body]
pub(crate) fn sample_alphanumeric(rng: &mut rand::rngs::StdRng) -> (r: u8)
    ensures
        is_alphanumeric(r),
{
    rand::Rng::sample(rng, rand::distributions::Alphanumeric)
}

/// Calls `Rng::fill` on the bytes of `dest`. Trusted: there are as many
/// bytes after as before.
#[verifier::external_body]
pub(crate) fn fill_bytes(rng: &mut rand::rngs::StdRng, dest: &mut Vec<u8>)
    ensures
        final(dest)@.len() == old(dest)@.len(),
{
    rand::Rng::fill(rng, &mut dest[..])
}

} // verus!
