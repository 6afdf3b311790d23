use vstd::prelude::*;

verus! {

/// A value that is, at heart, an array of four items.
pub trait ArrayBase: Sized {
    type Item;

    /// The four items.
    spec fn array(&self) -> [Self::Item; 4];

    /// The four items, by value.
    #[must_use]
    fn get_array(self) -> (array: [Self::Item; 4])
        ensures
            array == self.array(),
    ;

    /// The four items, to read.
    #[must_use]
    fn get_array_ref(&self) -> (array: &[Self::Item; 4])
        ensures
            *array == self.array(),
    ;

    /// The four items, to change in place.
    #[must_use]
    fn get_array_mut(&mut self) -> (array: &mut [Self::Item; 4])
        ensures
            *array == old(self).array(),
            final(self).array() == *final(array),
    ;
}

impl<T> ArrayBase for [T; 4] {
    type Item = T;

    open spec fn array(&self) -> [T; 4] {
        *self
    }

    fn get_array(self) -> (array: [T; 4]) {
        self
    }

    fn get_array_ref(&self) -> (array: &[T; 4]) {
        self
    }

    fn get_array_mut(&mut self) -> (array: &mut [T; 4]) {
        self
    }
}

/// `mine` with each item replaced by what `f` makes of it and of the item of
/// `other` in the same slot.
#[must_use]
pub fn zip_for_each_collect<A, B, F>(mine: A, other: B, f: F) -> (result: A) where
    A: ArrayBase,
    B: ArrayBase<Item = A::Item>,
    A::Item: Copy,
    F: Fn(A::Item, A::Item) -> A::Item,

    requires
        forall|k: int|
            0 <= k < 4 ==> call_requires(f, (#[trigger] mine.array()[k], other.array()[k])),
    ensures
        forall|k: int|
            0 <= k < 4 ==> call_ensures(
                f,
                (mine.array()[k], other.array()[k]),
                #[trigger] result.array()[k],
            ),
{
    let mut result = mine;
    let theirs = other.get_array();
    let ghost before = mine.array();
    let items = result.get_array_mut();
    for k in 0..4
        invariant
            forall|j: int| 0 <= j < 4 ==> call_requires(f, (#[trigger] before[j], theirs[j])),
            forall|j: int|
                0 <= j < k ==> call_ensures(f, (before[j], theirs[j]), #[trigger] items[j]),
            forall|j: int| k <= j < 4 ==> #[trigger] items[j] == before[j],
    {
        items[k] = f(items[k], theirs[k]);
    }
    result
}

} // verus!
