use crate::core3d::array_base::ArrayBase;
use crate::core3d::model::{dot_defined, dot_of, lemma_dot_defined_prefix};
use crate::core3d::scalar::{lawful, Scalar};
use vstd::prelude::*;

verus! {

/// The dot product of `a` and `b`: the products of their cells, slot by slot,
/// added up from `T::default()` from the left.
pub fn dot<const N: usize, T: Scalar>(a: &[T; N], b: &[T; N]) -> (sum: T)
    requires
        lawful::<T>(),
        dot_defined(a@, b@, N as nat),
    ensures
        sum == dot_of(a@, b@, N as nat),
{
    let mut sum = T::default();
    for k in 0..N
        invariant
            lawful::<T>(),
            dot_defined(a@, b@, N as nat),
            sum == dot_of(a@, b@, k as nat),
    {
        proof {
            lemma_dot_defined_prefix(a@, b@, N as nat, (k + 1) as nat);
        }
        sum = sum + a[k] * b[k];
    }
    sum
}

/// The dot product of two values of four scalars each.
pub trait DotProduct: ArrayBase where Self::Item: Scalar {
    /// The products of the items of `self` and `other`, slot by slot, added
    /// up from `Item::default()` from the left.
    #[must_use]
    fn dot(self, other: Self) -> (sum: Self::Item)
        requires
            lawful::<Self::Item>(),
            dot_defined(self.array()@, other.array()@, 4),
        ensures
            sum == dot_of(self.array()@, other.array()@, 4),
    {
        let mine = self.get_array();
        let theirs = other.get_array();
        dot(&mine, &theirs)
    }
}

impl<T: Scalar> DotProduct for [T; 4] {

}

} // verus!
