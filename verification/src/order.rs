//! Reordering of vectors.

use vstd::prelude::*;

verus! {

/// The elements of `v` from the last to the first.
pub fn reversed<T>(v: Vec<T>) -> (r: Vec<T>)
    ensures
        r@ == v@.reverse(),
{
    let ghost given = v@;
    let mut rest = v;
    let mut out: Vec<T> = Vec::new();
    while rest.len() > 0
        invariant
            rest@ == given.take(rest.len() as int),
            out.len() + rest.len() == given.len(),
            forall|k: int| 0 <= k < out.len() ==> #[trigger] out[k] == given[given.len() - 1 - k],
        decreases rest.len(),
    {
        let last = rest.pop().unwrap();
        out.push(last);
    }
    out
}

} // verus!
