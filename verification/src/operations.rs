//! Element-wise operations on vectors.

use vstd::prelude::*;
use crate::error::{CustomErrors, MismatchError};
use crate::numeric::Numeric;

verus! {

/// The element-wise sum of two sequences of the same length.
pub open spec fn vector_sum<T: Numeric>(a: Seq<T>, b: Seq<T>) -> Seq<T> {
    Seq::new(a.len(), |j: int| a[j].add_spec(b[j]))
}

/// Adds two vectors element by element.  Fails with `Mismatch` when their
/// lengths differ.
pub fn add_vec<T: Numeric>(a: &Vec<T>, b: &Vec<T>) -> (result: Result<Vec<T>, CustomErrors>)
    ensures
        match result {
            Ok(sum) => a@.len() == b@.len() && sum@ == vector_sum(a@, b@),
            Err(e) => a@.len() != b@.len() && e == CustomErrors::Mismatch(MismatchError),
        },
{
    let len = a.len();
    if len != b.len() {
        return Err(CustomErrors::Mismatch(MismatchError));
    }
    let mut sum: Vec<T> = Vec::new();
    for j in 0..len
        invariant
            len == a@.len(),
            len == b@.len(),
            sum@.len() == j,
            forall|k: int| 0 <= k < j ==> #[trigger] sum@[k] == a@[k].add_spec(b@[k]),
    {
        sum.push(a[j].plus(b[j]));
    }
    assert(sum@ =~= vector_sum(a@, b@));
    Ok(sum)
}

} // verus!
