//! Exact copies of owned values.
use vstd::prelude::*;

verus! {

/// Values that can be copied exactly: the copy is the same value.
pub trait Duplicate: Sized {
    fn duplicate(&self) -> (r: Self)
        ensures
            r == *self,
    ;
}

/// An exact copy of every element, in order.
pub fn duplicate_vec<T: Duplicate>(v: &Vec<T>) -> (r: Vec<T>)
    ensures
        r@ == v@,
{
    let mut r: Vec<T> = Vec::new();
    let mut i: usize = 0;
    while i < v.len()
        invariant
            i <= v@.len(),
            r@ == v@.take(i as int),
        decreases v@.len() - i,
    {
        r.push(v[i].duplicate());
        i = i + 1;
        assert(r@ =~= v@.take(i as int));
    }
    assert(v@.take(v@.len() as int) =~= v@);
    r
}

/// An exact copy of an optional value.
pub fn duplicate_option<T: Duplicate>(v: &Option<T>) -> (r: Option<T>)
    ensures
        r == *v,
{
    match v {
        Some(x) => Some(x.duplicate()),
        None => None,
    }
}

} // verus!
