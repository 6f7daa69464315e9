//! Views of composite values, and the two operations on them that the rest of
//! the library builds on: copying a value and comparing two values.

use vstd::prelude::*;

verus! {

/// The views of the elements of a sequence, in order.
pub open spec fn views<T: View>(s: Seq<T>) -> Seq<T::V> {
    Seq::new(s.len(), |i: int| s[i]@)
}

/// The view of an optional value.
pub open spec fn opt_view<T: View>(o: Option<T>) -> Option<T::V> {
    match o {
        Some(value) => Some(value@),
        None => None,
    }
}

/// Values that can be copied without changing what they stand for.
pub trait Replicate: View + Sized {
    /// A second value that stands for the same thing.
    fn replicate(&self) -> (copy: Self)
        ensures
            copy@ == self@,
    ;
}

/// Values that can be compared by what they stand for.
pub trait Same: View {
    /// Whether both values stand for the same thing.
    fn same(&self, other: &Self) -> (equal: bool)
        ensures
            equal == (self@ == other@),
    ;
}

impl Replicate for String {
    fn replicate(&self) -> (copy: Self) {
        self.clone()
    }
}

impl Same for String {
    fn same(&self, other: &Self) -> (equal: bool) {
        *self == *other
    }
}

impl Replicate for u64 {
    fn replicate(&self) -> (copy: Self) {
        *self
    }
}

impl Same for u64 {
    fn same(&self, other: &Self) -> (equal: bool) {
        *self == *other
    }
}

/// A copy of an optional value.
pub fn replicate_opt<T: Replicate>(value: &Option<T>) -> (copy: Option<T>)
    ensures
        opt_view(copy) == opt_view(*value),
{
    match value {
        Some(inner) => Some(inner.replicate()),
        None => None,
    }
}

/// Whether two optional values stand for the same thing.
pub fn same_opt<T: Same>(left: &Option<T>, right: &Option<T>) -> (equal: bool)
    ensures
        equal == (opt_view(*left) == opt_view(*right)),
{
    match (left, right) {
        (Some(a), Some(b)) => a.same(b),
        (None, None) => true,
        _ => false,
    }
}

/// A copy of every element, in order.
pub fn replicate_vec<T: Replicate>(values: &Vec<T>) -> (copy: Vec<T>)
    ensures
        views(copy@) == views(values@),
{
    let mut copy: Vec<T> = Vec::new();
    let mut i: usize = 0;
    while i < values.len()
        invariant
            i <= values.len(),
            copy.len() == i,
            forall|j: int| 0 <= j < i ==> (#[trigger] copy@[j])@ == values@[j]@,
        decreases values.len() - i,
    {
        copy.push(values[i].replicate());
        i += 1;
    }
    assert(views(copy@) =~= views(values@));
    copy
}

/// Whether two vectors stand for the same sequence.
pub fn same_vec<T: Same>(left: &Vec<T>, right: &Vec<T>) -> (equal: bool)
    ensures
        equal == (views(left@) == views(right@)),
{
    if left.len() != right.len() {
        assert(views(left@).len() != views(right@).len());
        return false;
    }
    let mut i: usize = 0;
    while i < left.len()
        invariant
            i <= left.len(),
            left.len() == right.len(),
            forall|j: int| 0 <= j < i ==> (#[trigger] left@[j])@ == right@[j]@,
        decreases left.len() - i,
    {
        if !left[i].same(&right[i]) {
            assert(views(left@)[i as int] != views(right@)[i as int]);
            return false;
        }
        i += 1;
    }
    assert(views(left@) =~= views(right@));
    true
}

} // verus!
