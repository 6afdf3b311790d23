use std::ops::{Add, Div, Mul, Neg, Sub};
use vstd::prelude::*;
use vstd::std_specs::cmp::PartialEqSpec;
use vstd::std_specs::convert::FromSpec;
use vstd::std_specs::ops::{AddSpec, DivSpec, MulSpec, NegSpec, SubSpec};

verus! {

/// A numeric cell type: copied freely, zero by default, built from a small
/// integer, compared for equality and closed under the five arithmetic
/// operators. Every type with these capabilities is a `Scalar`.
pub trait Scalar:
    Copy
    + Default
    + From<i8>
    + PartialEq
    + Add<Output = Self>
    + Sub<Output = Self>
    + Mul<Output = Self>
    + Div<Output = Self>
    + Neg<Output = Self>
{
}

impl<T> Scalar for T where
    T: Copy
        + Default
        + From<i8>
        + PartialEq
        + Add<Output = T>
        + Sub<Output = T>
        + Mul<Output = T>
        + Div<Output = T>
        + Neg<Output = T>,
{
}

/// The additive identity of `T`: the image of `0`.
pub open spec fn zero<T: From<i8>>() -> T {
    T::from_spec(0i8)
}

/// The multiplicative identity of `T`: the image of `1`.
pub open spec fn one<T: From<i8>>() -> T {
    T::from_spec(1i8)
}

/// `T::default()` returns `zero()` and nothing else.
pub open spec fn default_is_zero<T: Default + From<i8>>() -> bool {
    forall|z: T| #[trigger] call_ensures(T::default, (), z) ==> z == zero::<T>()
}

/// `T::from` returns the image that `from_spec` names, and `T::default()`
/// returns `zero()`.
pub open spec fn lawful_constants<T: Default + From<i8>>() -> bool {
    <T as FromSpec<i8>>::obeys_from_spec() && default_is_zero::<T>()
}

/// `T` behaves as its operator specifications say: each operator returns what
/// its `*_spec` function names, `==` decides equality of values, `T::from`
/// returns what `from_spec` names and `T::default()` returns `zero()`.
///
/// The signed integers from 16 bits up are lawful. Of a type that is not,
/// such as one that rounds, the functions that compute with its operators
/// promise nothing: they run the operations in the order their contracts
/// name, and the type alone says what comes out.
pub open spec fn lawful<T: Scalar>() -> bool {
    &&& T::obeys_add_spec()
    &&& T::obeys_sub_spec()
    &&& T::obeys_mul_spec()
    &&& T::obeys_div_spec()
    &&& T::obeys_neg_spec()
    &&& <T as PartialEqSpec>::obeys_eq_spec()
    &&& forall|a: T, b: T| #[trigger] a.eq_spec(&b) <==> a == b
    &&& lawful_constants::<T>()
}

} // verus!
