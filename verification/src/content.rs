//! Contents of values, and equality and copies of values by their contents.
use vstd::prelude::*;

verus! {

/// The contents of the values of a list.
pub open spec fn views<T: View>(list: Seq<T>) -> Seq<T::V> {
    Seq::new(list.len(), |i: int| list[i]@)
}

/// The contents of an optional value.
pub open spec fn option_view<T: View>(value: Option<T>) -> Option<T::V> {
    match value {
        Some(inner) => Some(inner@),
        None => None,
    }
}

/// A value that is copied by its contents.
pub trait Content: View + Sized {
    fn duplicate(&self) -> (copy: Self)
        ensures
            copy@ == self@,
    ;
}

/// A value that equals another exactly if their contents are the same.
pub trait Exact: View + Sized {
    fn same(&self, other: &Self) -> (equal: bool)
        ensures
            equal == (self@ == other@),
    ;
}

/// A value that holds floating-point numbers, and equals another by how these compare.
pub trait Alike: View + Sized {
    spec fn alike(one: Self::V, other: Self::V) -> bool;

    fn equals(&self, other: &Self) -> (equal: bool)
        ensures
            equal == Self::alike(self@, other@),
    ;
}

/// Two lists have the same length and equal values, one for one.
pub open spec fn all_alike<T: Alike>(one: Seq<T::V>, other: Seq<T::V>) -> bool {
    one.len() == other.len() && forall|i: int|
        0 <= i < one.len() ==> T::alike(#[trigger] one[i], other[i])
}

pub fn equal_lists<T: Alike>(left: &Vec<T>, right: &Vec<T>) -> (equal: bool)
    ensures
        equal == all_alike::<T>(views(left@), views(right@)),
{
    if left.len() != right.len() {
        return false;
    }
    let mut i: usize = 0;
    while i < left.len()
        invariant
            left@.len() == right@.len(),
            i <= left@.len(),
            forall|j: int|
                0 <= j < i ==> T::alike(#[trigger] views(left@)[j], views(right@)[j]),
        decreases left@.len() - i,
    {
        if !left[i].equals(&right[i]) {
            assert(!T::alike(views(left@)[i as int], views(right@)[i as int]));
            return false;
        }
        i += 1;
    }
    true
}

impl Exact for String {
    fn same(&self, other: &Self) -> (equal: bool) {
        *self == *other
    }
}

impl Content for String {
    fn duplicate(&self) -> (copy: Self) {
        self.clone()
    }
}

pub fn same_u16_list(left: &Vec<u16>, right: &Vec<u16>) -> (equal: bool)
    ensures
        equal == (left@ == right@),
{
    if left.len() != right.len() {
        return false;
    }
    let mut i: usize = 0;
    while i < left.len()
        invariant
            left@.len() == right@.len(),
            i <= left@.len(),
            forall|j: int| 0 <= j < i ==> #[trigger] left@[j] == right@[j],
        decreases left@.len() - i,
    {
        if left[i] != right[i] {
            return false;
        }
        i += 1;
    }
    assert(left@ =~= right@);
    true
}

pub fn same_option<T: Exact>(left: &Option<T>, right: &Option<T>) -> (equal: bool)
    ensures
        equal == (option_view(*left) == option_view(*right)),
{
    match (left, right) {
        (Some(a), Some(b)) => a.same(b),
        (None, None) => true,
        _ => false,
    }
}

pub fn clone_option<T: Content>(value: &Option<T>) -> (copy: Option<T>)
    ensures
        option_view(copy) == option_view(*value),
{
    match value {
        Some(inner) => Some(inner.duplicate()),
        None => None,
    }
}

pub fn clone_list<T: Content>(list: &Vec<T>) -> (copy: Vec<T>)
    ensures
        views(copy@) == views(list@),
{
    let mut copy: Vec<T> = Vec::new();
    let mut i: usize = 0;
    while i < list.len()
        invariant
            i <= list@.len(),
            copy@.len() == i,
            forall|j: int| 0 <= j < i ==> #[trigger] copy@[j]@ == list@[j]@,
        decreases list@.len() - i,
    {
        copy.push(list[i].duplicate());
        i += 1;
    }
    assert(views(copy@) =~= views(list@));
    copy
}

} // verus!
