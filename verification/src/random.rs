//! Draws from the generator of the `rand` crate.
use rand::Rng;
use rand::StdRng;
use vstd::prelude::*;

verus! {

/// `rand::StdRng`, the generator that every random choice of this crate
/// draws from. Its state is not modelled.
#[verifier::external_type_specification]
#[verifier::external_body]
pub struct ExStdRng(rand::StdRng);

/// `Rng::gen::<u8>`. Nothing is claimed of the byte that comes back.
#[verifier::external_body]
pub(crate) fn draw_byte(rng: &mut StdRng) -> (byte: u8) {
    rng.gen::<u8>()
}

/// `Rng::gen::<bool>`. Nothing is claimed of the flag that comes back.
#[verifier::external_body]
pub(crate) fn draw_flag(rng: &mut StdRng) -> (flag: bool) {
    rng.gen::<bool>()
}

/// `Rng::gen_range` on `usize`. It panics unless `low < high`, and for
/// integers it samples by rejection inside `[low, high)`: the claim is that
/// the result lies in that range.
#[verifier::external_body]
pub(crate) fn draw_range(rng: &mut StdRng, low: usize, high: usize) -> (n: usize)
    requires
        low < high,
    ensures
        low <= n < high,
{
    rng.gen_range(low, high)
}

} // verus!
