use rand::Rng;
use rand::rngs::ThreadRng;
use vstd::prelude::*;

verus! {

/// rand's thread-local generator, carried through opaque: the library only
/// hands it to `gen_range`.
#[verifier::external_type_specification]
#[verifier::external_body]
pub struct ExThreadRng(ThreadRng);

/// Relies on rand's `Rng::gen_range` over an exclusive integer range: it
/// returns a value in `lo..hi`, and panics only when the range is empty.
#[verifier::external_body]
pub(crate) fn gen_range(rng: &mut ThreadRng, lo: i32, hi: i32) -> (r: i32)
    requires
        lo < hi,
    ensures
        lo <= r < hi,
{
    rng.gen_range(lo..hi)
}

} // verus!
