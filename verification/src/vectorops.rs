//! Element-wise arithmetic on vectors of scalars.

use vstd::prelude::*;
use crate::activation::Activation;
use crate::scalar::Scalar;

verus! {

/// The mathematical value of a vector of scalars.
pub type Signal<T> = Seq<T>;

/// The vector of `n` zeros.
pub open spec fn zeros<T: Scalar>(n: nat) -> Seq<T> {
    Seq::new(n, |i: int| T::zero_spec())
}

/// The element-wise sum of `one` and `two`, as long as `one`.
pub open spec fn sums<T: Scalar>(one: Seq<T>, two: Seq<T>) -> Seq<T> {
    Seq::new(one.len(), |i: int| one[i].plus_spec(two[i]))
}

/// The element-wise product of `one` and `two`, as long as `one`.
pub open spec fn products<T: Scalar>(one: Seq<T>, two: Seq<T>) -> Seq<T> {
    Seq::new(one.len(), |i: int| one[i].times_spec(two[i]))
}

/// `function` applied to each element of `one`.
pub open spec fn activated<T: Scalar>(one: Seq<T>, function: Activation) -> Seq<T> {
    Seq::new(one.len(), |i: int| one[i].activate_spec(function))
}

/// The derivative of `function` at each element of `one`.
pub open spec fn deactivated<T: Scalar>(one: Seq<T>, function: Activation) -> Seq<T> {
    Seq::new(one.len(), |i: int| one[i].deactivate_spec(function))
}

/// The mathematical value of an optional vector.
pub open spec fn seq_of<T>(v: Option<Vec<T>>) -> Option<Seq<T>> {
    match v {
        Some(v) => Some(v@),
        None => None,
    }
}

/// The mathematical value of a vector of vectors.
pub open spec fn rows<T>(v: Vec<Vec<T>>) -> Seq<Seq<T>> {
    Seq::new(v@.len(), |i: int| v@[i]@)
}

/// A vector of `n` zeros.
pub fn zero_vector<T: Scalar>(n: usize) -> (v: Vec<T>)
    ensures
        v@ == zeros::<T>(n as nat),
{
    let mut v: Vec<T> = Vec::new();
    let mut i: usize = 0;
    while i < n
        invariant
            i <= n,
            v@ == zeros::<T>(i as nat),
        decreases n - i,
    {
        v.push(T::zero());
        i += 1;
        assert(v@ =~= zeros::<T>(i as nat));
    }
    v
}

/// A copy of `one`.
pub fn duplicate<T: Copy>(one: &Vec<T>) -> (v: Vec<T>)
    ensures
        v@ == one@,
{
    let mut v: Vec<T> = Vec::new();
    let mut i: usize = 0;
    while i < one.len()
        invariant
            i <= one.len(),
            v@ == one@.subrange(0, i as int),
        decreases one.len() - i,
    {
        v.push(one[i]);
        i += 1;
        assert(v@ =~= one@.subrange(0, i as int));
    }
    assert(v@ =~= one@);
    v
}

/// The elements of `one` from position `from` up to, not including, `to`.
pub fn slice<T: Copy>(one: &Vec<T>, from: usize, to: usize) -> (v: Vec<T>)
    requires
        from <= to <= one.len(),
    ensures
        v@ == one@.subrange(from as int, to as int),
{
    let mut v: Vec<T> = Vec::new();
    let mut i: usize = from;
    while i < to
        invariant
            from <= i <= to <= one.len(),
            v@ == one@.subrange(from as int, i as int),
        decreases to - i,
    {
        v.push(one[i]);
        i += 1;
        assert(v@ =~= one@.subrange(from as int, i as int));
    }
    v
}

/// `one` followed by `two`.
pub fn join<T: Copy>(one: &Vec<T>, two: &Vec<T>) -> (v: Vec<T>)
    ensures
        v@ == one@ + two@,
{
    let mut v = duplicate(one);
    let mut i: usize = 0;
    while i < two.len()
        invariant
            i <= two.len(),
            v@ == one@ + two@.subrange(0, i as int),
        decreases two.len() - i,
    {
        v.push(two[i]);
        i += 1;
        assert(v@ =~= one@ + two@.subrange(0, i as int));
    }
    assert(v@ =~= one@ + two@);
    v
}

/// Multiplies each element of `one` by the element of `two` at its place.
pub fn element_multiply<T: Scalar>(one: &mut Vec<T>, two: &Vec<T>)
    requires
        old(one).len() == two.len(),
    ensures
        final(one)@ == products(old(one)@, two@),
{
    let mut i: usize = 0;
    while i < one.len()
        invariant
            i <= one.len(),
            one.len() == old(one).len(),
            one.len() == two.len(),
            forall|j: int| 0 <= j < i ==> one@[j] == old(one)@[j].times_spec(two@[j]),
            forall|j: int| i <= j < one.len() ==> one@[j] == old(one)@[j],
        decreases one.len() - i,
    {
        let value = one[i].times(two[i]);
        one.set(i, value);
        i += 1;
    }
    assert(one@ =~= products(old(one)@, two@));
}

/// Adds to each element of `one` the element of `two` at its place.
pub fn element_add<T: Scalar>(one: &mut Vec<T>, two: &Vec<T>)
    requires
        old(one).len() == two.len(),
    ensures
        final(one)@ == sums(old(one)@, two@),
{
    let mut i: usize = 0;
    while i < one.len()
        invariant
            i <= one.len(),
            one.len() == old(one).len(),
            one.len() == two.len(),
            forall|j: int| 0 <= j < i ==> one@[j] == old(one)@[j].plus_spec(two@[j]),
            forall|j: int| i <= j < one.len() ==> one@[j] == old(one)@[j],
        decreases one.len() - i,
    {
        let value = one[i].plus(two[i]);
        one.set(i, value);
        i += 1;
    }
    assert(one@ =~= sums(old(one)@, two@));
}

/// The element-wise product of `one` and `two` as a new vector.
pub fn product<T: Scalar>(one: &Vec<T>, two: &Vec<T>) -> (v: Vec<T>)
    requires
        one.len() == two.len(),
    ensures
        v@ == products(one@, two@),
{
    let mut v: Vec<T> = Vec::new();
    let mut i: usize = 0;
    while i < one.len()
        invariant
            i <= one.len(),
            one.len() == two.len(),
            v.len() == i,
            forall|j: int| 0 <= j < i ==> v@[j] == one@[j].times_spec(two@[j]),
        decreases one.len() - i,
    {
        v.push(one[i].times(two[i]));
        i += 1;
    }
    assert(v@ =~= products(one@, two@));
    v
}

/// `function` applied to each element of `one`, as a new vector.
pub fn element_activate<T: Scalar>(one: &Vec<T>, function: Activation) -> (v: Vec<T>)
    ensures
        v@ == activated(one@, function),
{
    let mut v: Vec<T> = Vec::new();
    let mut i: usize = 0;
    while i < one.len()
        invariant
            i <= one.len(),
            v.len() == i,
            forall|j: int| 0 <= j < i ==> v@[j] == one@[j].activate_spec(function),
        decreases one.len() - i,
    {
        v.push(one[i].activate(function));
        i += 1;
    }
    assert(v@ =~= activated(one@, function));
    v
}

/// The derivative of `function` at each element of `one`, as a new vector.
pub fn element_deactivate<T: Scalar>(one: &Vec<T>, function: Activation) -> (v: Vec<T>)
    ensures
        v@ == deactivated(one@, function),
{
    let mut v: Vec<T> = Vec::new();
    let mut i: usize = 0;
    while i < one.len()
        invariant
            i <= one.len(),
            v.len() == i,
            forall|j: int| 0 <= j < i ==> v@[j] == one@[j].deactivate_spec(function),
        decreases one.len() - i,
    {
        v.push(one[i].deactivate(function));
        i += 1;
    }
    assert(v@ =~= deactivated(one@, function));
    v
}

} // verus!
