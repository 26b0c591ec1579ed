use vstd::prelude::*;
use rand::Rng;

verus! {

/// Relies on `rand::Rng::gen_range` over an inclusive range, drawn from
/// `rand::thread_rng`: the value lies in `lo..=hi` (it panics only on an empty
/// range, which `requires` excludes).
#[verifier::external_body]
pub(crate) fn random_in(lo: i32, hi: i32) -> (r: i32)
    requires
        lo <= hi,
    ensures
        lo <= r <= hi,
{
    rand::thread_rng().gen_range(lo..=hi)
}

} // verus!
