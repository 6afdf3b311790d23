use crate::core3d::dot_product::dot;
use crate::core3d::matrix::Matrix;
use crate::core3d::model::{apply_defined, apply_of, dot_defined};
use crate::core3d::scalar::{lawful, Scalar};
use vstd::prelude::*;

verus! {

/// Applying a matrix to a tuple.
pub trait Transform<const ROW: usize, const COL: usize, T, Type> {
    /// The tuples that the matrix can be applied to.
    spec fn transform_req(&self, tuple: Type) -> bool;

    /// The tuple that the matrix makes of `tuple`.
    fn transform(&self, tuple: Type) -> Type
        requires
            self.transform_req(tuple),
    ;
}

impl<const N: usize, T: Scalar> Transform<N, N, T, [T; N]> for Matrix<N, N, T> {
    open spec fn transform_req(&self, tuple: [T; N]) -> bool {
        lawful::<T>() && apply_defined(self@, tuple@)
    }

    /// Slot `r` of the result is row `r` of the matrix dotted with `tuple`.
    fn transform(&self, tuple: [T; N]) -> (out: [T; N])
        ensures
            out@ == apply_of(self@, tuple@),
    {
        let mut out = [T::default(); N];
        for r in 0..N
            invariant
                lawful::<T>(),
                apply_defined(self@, tuple@),
                forall|i: int| 0 <= i < r ==> #[trigger] out@[i] == apply_of(self@, tuple@)[i],
        {
            assert(dot_defined(self@[r as int], tuple@, tuple@.len()));
            let row = self.matrix[r];
            out[r] = dot(&row, &tuple);
        }
        assert(out@ =~= apply_of(self@, tuple@));
        out
    }
}

} // verus!
