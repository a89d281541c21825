use vstd::prelude::*;

verus! {

/// Every pair of an element of `rows` and an element of `cols`, ordered by
/// the place of the first in `rows` and then by the place of the second in
/// `cols`.
pub open spec fn pairs(rows: Seq<u32>, cols: Seq<u32>) -> Seq<(u32, u32)> {
    Seq::new(
        rows.len() * cols.len(),
        |k: int| (rows[k / (cols.len() as int)], cols[k % (cols.len() as int)]),
    )
}

/// Collects what `itertools::Itertools::cartesian_product` yields for the two
/// slices. Trusted: the adaptor walks `cols` once for each element of `rows`,
/// in order, and pairs that element with each element of `cols`, which is
/// what `pairs` lists.
#[verifier::external_body]
pub(crate) fn cartesian_product(rows: &[u32], cols: &[u32]) -> (product: Vec<(u32, u32)>)
    requires
        rows@.len() * cols@.len() <= usize::MAX,
    ensures
        product@ == pairs(rows@, cols@),
{
    itertools::Itertools::cartesian_product(rows.iter().copied(), cols.iter().copied()).collect()
}

} // verus!
