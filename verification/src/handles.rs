use vstd::prelude::*;

use crate::gc::Gc;

verus! {

/// A copy of a sequence of handles.
pub fn copy_handles(v: &Vec<Gc>) -> (r: Vec<Gc>)
    ensures
        r@ == v@,
{
    let mut r: Vec<Gc> = Vec::new();
    let mut i: usize = 0;
    while i < v.len()
        invariant
            i <= v@.len(),
            r@ == v@.subrange(0, i as int),
        decreases v@.len() - i,
    {
        r.push(v[i]);
        i = i + 1;
        assert(r@ == v@.subrange(0, i as int));
    }
    assert(v@.subrange(0, v@.len() as int) == v@);
    r
}

/// A copy of a sequence of pairs of handles.
pub fn copy_pairs(v: &Vec<(Gc, Gc)>) -> (r: Vec<(Gc, Gc)>)
    ensures
        r@ == v@,
{
    let mut r: Vec<(Gc, Gc)> = Vec::new();
    let mut i: usize = 0;
    while i < v.len()
        invariant
            i <= v@.len(),
            r@ == v@.subrange(0, i as int),
        decreases v@.len() - i,
    {
        r.push(v[i]);
        i = i + 1;
        assert(r@ == v@.subrange(0, i as int));
    }
    assert(v@.subrange(0, v@.len() as int) == v@);
    r
}

/// The handles of `v` after its first.
pub fn handles_after_first(v: &Vec<Gc>) -> (r: Vec<Gc>)
    requires
        v@.len() > 0,
    ensures
        r@ == v@.drop_first(),
{
    let mut r: Vec<Gc> = Vec::new();
    let mut i: usize = 1;
    while i < v.len()
        invariant
            1 <= i <= v@.len(),
            r@ == v@.subrange(1, i as int),
        decreases v@.len() - i,
    {
        r.push(v[i]);
        i = i + 1;
        assert(r@ == v@.subrange(1, i as int));
    }
    assert(v@.subrange(1, v@.len() as int) == v@.drop_first());
    r
}

/// The pairs of `v` but its last.
pub fn pairs_but_last(v: &Vec<(Gc, Gc)>) -> (r: Vec<(Gc, Gc)>)
    ensures
        r@ == (if v@.len() == 0 { v@ } else { v@.drop_last() }),
{
    let mut r = copy_pairs(v);
    let _ = r.pop();
    r
}

} // verus!
