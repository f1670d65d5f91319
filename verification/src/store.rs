//! The fixed-capacity vector that holds the walls of a labyrinth.
//!
//! The vector comes from the `heapless` crate. Verus does not look inside
//! it: what it holds is named by `held`, and the three functions below state
//! what `heapless` does to that content. These statements are taken on
//! trust; everything else in this crate is proved from them.

use vstd::prelude::*;
use crate::wall::Wall;

verus! {

/// Largest number of walls that a labyrinth can hold.
pub const MAX_WALLS: usize = 40;

#[verifier::external_type_specification]
#[verifier::external_body]
#[verifier::reject_recursive_types(T)]
pub struct ExHeaplessVec<T, const N: usize>(heapless::Vec<T, N>);

/// The walls that a vector holds, oldest first.
pub uninterp spec fn held(v: heapless::Vec<Wall, MAX_WALLS>) -> Seq<Wall>;

/// `heapless::Vec::new`: the vector it returns holds nothing.
#[verifier::external_body]
pub(crate) fn store_new() -> (v: heapless::Vec<Wall, MAX_WALLS>)
    ensures
        held(v) == Seq::<Wall>::empty(),
{
    heapless::Vec::new()
}

/// `heapless::Vec::push`: below capacity the wall is appended behind the
/// walls already held and `Ok` is returned; at capacity the vector is left as
/// it was and the wall comes back in `Err`.
#[verifier::external_body]
pub(crate) fn store_push(v: &mut heapless::Vec<Wall, MAX_WALLS>, w: Wall) -> (r: Result<(), Wall>)
    ensures
        r is Ok <==> held(*old(v)).len() < MAX_WALLS,
        r matches Err(back) ==> back == w,
        held(*final(v)) == if held(*old(v)).len() < MAX_WALLS {
            held(*old(v)).push(w)
        } else {
            held(*old(v))
        },
{
    v.push(w)
}

/// `heapless::Vec::as_slice`: the slice it returns holds the walls of the
/// vector, in the same order.
#[verifier::external_body]
pub(crate) fn store_slice(v: &heapless::Vec<Wall, MAX_WALLS>) -> (s: &[Wall])
    ensures
        s@ == held(*v),
{
    v.as_slice()
}

} // verus!
