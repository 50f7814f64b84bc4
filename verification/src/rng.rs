use vstd::prelude::*;

verus! {

/// Retry bound of the rejection loop; the chance of ever reaching it is
/// below `2^-RAND_RETRY_CAP` for any modulus.
pub const RAND_RETRY_CAP: u32 = 64;

/// Relies on macroquad's `rand::rand`: one draw from its global
/// pseudo-random generator. Nothing can be promised of a random value.
#[verifier::external_body]
fn rand_u32() -> (r: u32) {
    macroquad::rand::rand()
}

/// A uniform draw below `n`. Rejection sampling: draws from the
/// incomplete top slice of the generator's range are redrawn, so the
/// accepted draws are uniform over `0..n`. The retry cap keeps
/// termination provable; past it the last draw is reduced directly.
pub(crate) fn rand_below(n: u32) -> (r: u32)
    requires
        n > 0,
    ensures
        r < n,
{
    let bound: u32 = u32::MAX - (u32::MAX % n);
    let mut tries: u32 = 0;
    loop
        invariant
            n > 0,
            tries <= RAND_RETRY_CAP,
        decreases RAND_RETRY_CAP - tries,
    {
        let draw = rand_u32();
        if draw < bound || tries >= RAND_RETRY_CAP {
            return draw % n;
        }
        tries = tries + 1;
    }
}

} // verus!
