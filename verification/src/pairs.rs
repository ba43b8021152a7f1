//! Disjoint mutable access to two elements of one vector.

use vstd::prelude::*;

verus! {

/// Two mutable references into distinct slots of `vec`: the write-backs
/// land at `i` and `j` and nothing else moves.
pub fn get_pair_mut<T>(vec: &mut Vec<T>, i: usize, j: usize) -> (r: (&mut T, &mut T))
    requires
        i < old(vec)@.len(),
        j < old(vec)@.len(),
        i != j,
    ensures
        *r.0 == old(vec)@[i as int],
        *r.1 == old(vec)@[j as int],
        final(vec)@ == old(vec)@.update(i as int, *final(r.0)).update(j as int, *final(r.1)),
{
    if i < j {
        let (head, tail) = vec.as_mut_slice().split_at_mut(j);
        (&mut head[i], &mut tail[0])
    } else {
        let (head, tail) = vec.as_mut_slice().split_at_mut(i);
        (&mut tail[0], &mut head[j])
    }
}

} // verus!
