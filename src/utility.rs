//! Small helpers on vectors.
use vstd::prelude::*;

verus! {

/// The first `count` values of `v`, in order.
pub fn take_from_vec<T: Copy>(count: usize, v: &Vec<T>) -> (r: Vec<T>)
    requires
        count <= v@.len(),
    ensures
        r@ == v@.take(count as int),
{
    let mut out: Vec<T> = Vec::new();
    let mut i: usize = 0;
    while i < count
        invariant
            i <= count,
            count <= v@.len(),
            out@ == v@.take(i as int),
        decreases count - i,
    {
        out.push(v[i]);
        proof {
            assert(out@ =~= v@.take(i + 1));
        }
        i = i + 1;
    }
    out
}

} // verus!
