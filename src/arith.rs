use vstd::prelude::*;

verus! {

/// Parts of a whole in a per-million fraction.
pub const PERMILL_ACCURACY: u32 = 1_000_000;

/// `parts / 1_000_000` of `x`, rounded to the nearest integer, an exact half
/// rounded down.
pub open spec fn permill_of(parts: nat, x: nat) -> nat {
    let p = if parts > 1_000_000 { 1_000_000 } else { parts };
    (x * p) / 1_000_000 + if (x * p) % 1_000_000 > 500_000 { 1nat } else { 0nat }
}

/// Relies on `sp_arithmetic::Permill`: `from_parts` saturates at one whole,
/// and multiplying an unsigned integer by it rounds to the nearest integer,
/// preferring down on an exact half.
#[verifier::external_body]
pub(crate) fn permill_mul(parts: u32, x: u64) -> (r: u64)
    ensures
        r as nat == permill_of(parts as nat, x as nat),
{
    sp_arithmetic::Permill::from_parts(parts) * x
}

} // verus!
