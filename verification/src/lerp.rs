//! Linear interpolation, over any numbers that can be subtracted, multiplied
//! and added.

use vstd::array::ArrayAdditionalExecFns;
use vstd::prelude::*;
use vstd::std_specs::ops::{AddSpec, MulSpec, SubSpec};

verus! {

/// Whether the three operations of an interpolation between `left` and
/// `right` at `p` can be carried out: none of them leaves the range of `T`.
pub open spec fn lerp_fits<T>(left: T, right: T, p: T) -> bool where
    T: core::ops::Sub<Output = T> + core::ops::Mul<Output = T> + core::ops::Add<Output = T> + Copy,
 {
    &&& right.sub_req(left)
    &&& right.sub_spec(left).mul_req(p)
    &&& right.sub_spec(left).mul_spec(p).add_req(left)
}

/// The point at `p` on the way from `left` to `right`:
/// `(right - left) * p + left`.
pub open spec fn lerp_of<T>(left: T, right: T, p: T) -> T where
    T: core::ops::Sub<Output = T> + core::ops::Mul<Output = T> + core::ops::Add<Output = T> + Copy,
 {
    right.sub_spec(left).mul_spec(p).add_spec(left)
}

/// The point at `p` on the way from `left` to `right`: `left` at 0 and
/// `right` at 1.
pub fn lerp<T>(left: T, right: T, p: T) -> (r: T) where
    T: core::ops::Sub<Output = T> + core::ops::Mul<Output = T> + core::ops::Add<Output = T> + Copy,

    requires
        T::obeys_sub_spec(),
        T::obeys_mul_spec(),
        T::obeys_add_spec(),
        lerp_fits(left, right, p),
    ensures
        r == lerp_of(left, right, p),
{
    (right - left) * p + left
}

/// The interpolation of each entry of `left` with the entry of `right` at
/// its place, all at `p`.
pub fn lerpn<T, const N: usize>(left: [T; N], right: [T; N], p: T) -> (r: [T; N]) where
    T: core::ops::Sub<Output = T> + core::ops::Mul<Output = T> + core::ops::Add<Output = T> + Copy,

    requires
        T::obeys_sub_spec(),
        T::obeys_mul_spec(),
        T::obeys_add_spec(),
        forall|i: int| 0 <= i < N ==> lerp_fits(#[trigger] left@[i], right@[i], p),
    ensures
        forall|i: int| 0 <= i < N ==> #[trigger] r@[i] == lerp_of(left@[i], right@[i], p),
{
    let mut out = left;
    let mut i: usize = 0;
    while i < N
        invariant
            0 <= i <= N,
            T::obeys_sub_spec(),
            T::obeys_mul_spec(),
            T::obeys_add_spec(),
            forall|k: int| 0 <= k < N ==> lerp_fits(#[trigger] left@[k], right@[k], p),
            forall|k: int| 0 <= k < i ==> #[trigger] out@[k] == lerp_of(left@[k], right@[k], p),
        decreases N - i,
    {
        let a = left[i];
        let b = right[i];
        out.set(i, lerp(a, b, p));
        i = i + 1;
    }
    out
}

} // verus!
