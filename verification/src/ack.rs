//! The acknowledgment selector: a short marker shown to the sender and
//! optionally recorded as an entry footer.
//!
//! The marker is an emoji drawn by the `randem` crate.  With a seed the
//! draw is reproducible — a function of the seed and the exclusion group
//! alone — and without one it is random; either way nothing downstream
//! depends on which marker comes back.

use vstd::prelude::*;

verus! {

/// What the seeded selector returns: a function of the seed and the
/// excluded group alone.
pub uninterp spec fn seeded_ack(seed: Seq<char>, exclude: Option<Seq<char>>) -> Seq<char>;

/// Relies on `randem::randem`: with a seed present the generator is
/// seeded from the seed's hash, so the pick depends on the arguments
/// alone; without one the generator is seeded from the operating
/// system's entropy source — should that source fail, the call panics
/// inside the outside crate, an environmental failure no input can rule
/// out — and nothing is promised of the pick.
#[verifier::external_body]
fn randem_pick(seed: Option<String>, exclude: Option<String>) -> (r: String)
    ensures
        seed matches Some(s) ==> r@ == seeded_ack(
            s@,
            match exclude {
                Some(e) => Some(e@),
                None => None,
            },
        ),
{
    randem::randem(seed, None, exclude)
}

/// Pick the acknowledgment marker, reproducibly when a seed is given:
/// the same seed and exclusion always select the same marker.
pub fn select_ack(seed: Option<String>, exclude: Option<String>) -> (r: String)
    ensures
        seed matches Some(s) ==> r@ == seeded_ack(
            s@,
            match exclude {
                Some(e) => Some(e@),
                None => None,
            },
        ),
{
    randem_pick(seed, exclude)
}

} // verus!
