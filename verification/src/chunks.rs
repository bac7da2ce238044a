//! Which chunks of a blob are asked for.

use vstd::prelude::*;

verus! {

/// A set of chunk numbers, given by the boundaries at which membership changes.
///
/// A chunk belongs to the set when an odd number of the boundaries are at or below it.
#[derive(Debug, PartialEq, Eq)]
pub struct ChunkRanges {
    /// The boundaries, in strictly increasing order.
    pub boundaries: Vec<u64>,
}

/// Whether `chunk` belongs to the set with these boundaries.
pub open spec fn covers(boundaries: Seq<u64>, chunk: u64) -> bool {
    boundaries.filter(|b: u64| b <= chunk).len() % 2 == 1
}

impl View for ChunkRanges {
    type V = Set<u64>;

    open spec fn view(&self) -> Set<u64> {
        Set::new(|chunk: u64| covers(self.boundaries@, chunk))
    }
}

/// Calls [`bao_tree::ChunkRanges::all`] and gives the boundaries of its result as plain numbers.
///
/// Trusted: the set of all chunks has one boundary, the first chunk, numbered 0.
#[verifier::external_body]
fn all_boundaries() -> (boundaries: Vec<u64>)
    ensures
        boundaries@ == seq![0u64],
{
    bao_tree::ChunkRanges::all().boundaries().iter().map(|chunk| chunk.0).collect()
}

impl ChunkRanges {
    /// Every chunk of a blob.
    pub fn all() -> (ranges: Self)
        ensures
            ranges.boundaries@ == seq![0u64],
            ranges@ == Set::<u64>::full(),
    {
        let boundaries = all_boundaries();
        proof {
            let one = seq![0u64];
            assert forall|chunk: u64| covers(one, chunk) by {
                reveal_with_fuel(Seq::filter, 2);
                assert(one.drop_last() =~= Seq::<u64>::empty());
                assert(one.filter(|b: u64| b <= chunk) =~= one);
            }
        }
        let ranges = ChunkRanges { boundaries };
        assert(ranges@ =~= Set::<u64>::full());
        ranges
    }
}

} // verus!
