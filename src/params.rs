use vstd::prelude::*;

verus! {

/// Appends a clone of each element of `src`, in order, to `dest`; used to
/// concatenate the parameter lists of combined distance estimators.
pub fn push_all<T: Clone>(dest: &mut Vec<T>, src: &[T])
    ensures
        final(dest)@.len() == old(dest)@.len() + src@.len(),
        final(dest)@.subrange(0, old(dest)@.len() as int) == old(dest)@,
        forall|i: int|
            0 <= i < src@.len() ==> cloned(src@[i], #[trigger] final(dest)@[old(dest)@.len() + i]),
{
    let ghost start = dest@;
    let mut i: usize = 0;
    while i < src.len()
        invariant
            i <= src@.len(),
            dest@.len() == start.len() + i,
            dest@.subrange(0, start.len() as int) == start,
            forall|k: int| 0 <= k < i ==> cloned(src@[k], #[trigger] dest@[start.len() + k]),
        decreases src@.len() - i,
    {
        let elem = src[i].clone();
        dest.push(elem);
        assert(dest@.subrange(0, start.len() as int) =~= start);
        i += 1;
    }
}

} // verus!
