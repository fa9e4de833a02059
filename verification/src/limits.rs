//! How many rows a read may return.

use vstd::prelude::*;

verus! {

/// The lower of two ceilings, where there are two.
pub open spec fn lower(a: Option<i64>, b: Option<i64>) -> Option<i64> {
    match (a, b) {
        (Some(x), Some(y)) => if x <= y {
            Some(x)
        } else {
            Some(y)
        },
        (Some(x), None) => Some(x),
        (None, other) => other,
    }
}

/// The lower of two ceilings, where there are two.
pub fn lower_ceiling(a: Option<i64>, b: Option<i64>) -> (r: Option<i64>)
    ensures
        r == lower(a, b),
{
    match (a, b) {
        (Some(x), Some(y)) => if x <= y {
            Some(x)
        } else {
            Some(y)
        },
        (Some(x), None) => Some(x),
        (None, other) => other,
    }
}

/// A ceiling bounds a read: one that asks for more gets the ceiling, and one
/// that asks for nothing gets it too.
pub proof fn law_ceiling_bounds(requested: Option<i64>, ceiling: i64)
    ensures
        lower(requested, Some(ceiling)) is Some,
        lower(requested, Some(ceiling))->0 <= ceiling,
        requested is Some && requested->0 <= ceiling ==> lower(requested, Some(ceiling))
            == requested,
        requested is None ==> lower(requested, Some(ceiling)) == Some(ceiling),
{
}

/// Ceilings fold in any order.
pub proof fn law_ceilings_fold(a: Option<i64>, b: Option<i64>, c: Option<i64>)
    ensures
        lower(a, b) == lower(b, a),
        lower(lower(a, b), c) == lower(a, lower(b, c)),
{
}

} // verus!
