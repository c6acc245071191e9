//! The even-odd rule of the hit-test kernel: a point is inside a region when a ray from it
//! crosses the region's edges, over all contours together, an odd number of times. Whether one
//! edge is crossed is floating-point geometry, decided outside this module; how the crossings
//! combine is decided here.

use vstd::prelude::*;

verus! {

/// True when an odd number of `crossings` are set.
pub open spec fn odd_crossings(crossings: Seq<bool>) -> bool
    decreases crossings.len(),
{
    if crossings.len() == 0 {
        false
    } else {
        odd_crossings(crossings.drop_last()) != crossings.last()
    }
}

/// Whether the point is inside: the parity of the edge crossings of every contour, taken
/// together.
pub fn crossing_parity(crossings: &Vec<bool>) -> (inside: bool)
    ensures
        inside == odd_crossings(crossings@),
{
    let mut inside = false;
    let mut i: usize = 0;
    while i < crossings.len()
        invariant
            i <= crossings.len(),
            inside == odd_crossings(crossings@.take(i as int)),
        decreases crossings.len() - i,
    {
        assert(crossings@.take(i + 1).drop_last() =~= crossings@.take(i as int));
        if crossings[i] {
            inside = !inside;
        }
        i += 1;
    }
    assert(crossings@.take(crossings.len() as int) =~= crossings@);
    inside
}

/// The crossings of two groups of contours combine by parity: a point is inside both or neither
/// exactly when it is outside their union.
pub proof fn lemma_parity_of_union(a: Seq<bool>, b: Seq<bool>)
    ensures
        odd_crossings(a + b) == (odd_crossings(a) != odd_crossings(b)),
    decreases b.len(),
{
    if b.len() == 0 {
        assert(a + b =~= a);
    } else {
        lemma_parity_of_union(a, b.drop_last());
        assert((a + b).drop_last() =~= a + b.drop_last());
    }
}

/// A contour nested inside another cuts a hole: a point inside both is outside the region.
pub proof fn lemma_nested_contour_is_hole(outer: Seq<bool>, inner: Seq<bool>)
    requires
        odd_crossings(outer),
        odd_crossings(inner),
    ensures
        !odd_crossings(outer + inner),
{
    lemma_parity_of_union(outer, inner);
}

} // verus!
