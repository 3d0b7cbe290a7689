//! The four-lane vector container.
//!
//! `SimdVec3<T>` keeps its three components in a four-lane layout (the
//! spare lane is padding, as wide vector registers would hold it).  The
//! arithmetic on `SimdVec3<Fix>` works lane by lane; `reduce_sum` adds
//! the four lanes left to right.

use crate::fix::{clip, mul_raw, Fix};
use crate::vec3::LengthSquared;
use vstd::prelude::*;

verus! {

/// Three ordered components in a four-lane layout.
#[derive(Clone, Copy, Debug, PartialEq, Eq, Structural)]
pub struct SimdVec3<T> {
    e0: T,
    e1: T,
    e2: T,
    e3: T,
}

impl<T: Copy> SimdVec3<T> {
    /// First lane.
    pub closed spec fn lane0(&self) -> T {
        self.e0
    }

    /// Second lane.
    pub closed spec fn lane1(&self) -> T {
        self.e1
    }

    /// Third lane.
    pub closed spec fn lane2(&self) -> T {
        self.e2
    }

    /// Padding lane.
    pub closed spec fn lane3(&self) -> T {
        self.e3
    }

    /// First component.
    #[verifier::when_used_as_spec(lane0)]
    pub fn x(&self) -> (r: T)
        ensures
            r == self.lane0(),
    {
        self.e0
    }

    /// Second component.
    #[verifier::when_used_as_spec(lane1)]
    pub fn y(&self) -> (r: T)
        ensures
            r == self.lane1(),
    {
        self.e1
    }

    /// Third component.
    #[verifier::when_used_as_spec(lane2)]
    pub fn z(&self) -> (r: T)
        ensures
            r == self.lane2(),
    {
        self.e2
    }

    /// Pack three components; the padding lane repeats the first
    /// component (usable where `new` is).
    pub fn const_new(e1: T, e2: T, e3: T) -> (r: Self)
        ensures
            r.lane0() == e1,
            r.lane1() == e2,
            r.lane2() == e3,
            r.lane3() == e1,
    {
        Self { e0: e1, e1: e2, e2: e3, e3: e1 }
    }
}

impl<T: Copy + Default> SimdVec3<T> {
    /// Pack three components; the padding lane holds the default value.
    pub fn new(e1: T, e2: T, e3: T) -> (r: Self)
        ensures
            r.lane0() == e1,
            r.lane1() == e2,
            r.lane2() == e3,
    {
        Self { e0: e1, e1: e2, e2: e3, e3: T::default() }
    }
}

/// The left-to-right sum of the four lanes.
pub open spec fn simd_reduce_sum(l0: int, l1: int, l2: int, l3: int) -> int {
    clip(clip(clip(l0 + l1) + l2) + l3)
}

impl SimdVec3<Fix> {
    /// Lane-wise product.
    pub fn mul(self, other: Self) -> (r: Self)
        ensures
            r.lane0()@ == mul_raw(self.lane0()@, other.lane0()@),
            r.lane1()@ == mul_raw(self.lane1()@, other.lane1()@),
            r.lane2()@ == mul_raw(self.lane2()@, other.lane2()@),
            r.lane3()@ == mul_raw(self.lane3()@, other.lane3()@),
    {
        Self {
            e0: self.e0.mul(other.e0),
            e1: self.e1.mul(other.e1),
            e2: self.e2.mul(other.e2),
            e3: self.e3.mul(other.e3),
        }
    }

    /// Sum the four lanes, left to right.
    pub fn reduce_sum(self) -> (r: Fix)
        ensures
            r@ == simd_reduce_sum(self.lane0()@, self.lane1()@, self.lane2()@, self.lane3()@),
    {
        self.e0.add(self.e1).add(self.e2).add(self.e3)
    }
}

impl LengthSquared for SimdVec3<Fix> {
    type Output = Fix;

    open spec fn length_squared_spec(self) -> int {
        simd_reduce_sum(
            mul_raw(self.lane0()@, self.lane0()@),
            mul_raw(self.lane1()@, self.lane1()@),
            mul_raw(self.lane2()@, self.lane2()@),
            mul_raw(self.lane3()@, self.lane3()@),
        )
    }

    fn length_squared(self) -> (r: Fix)
        ensures
            r@ == self.length_squared_spec(),
    {
        let pow = self.mul(self);
        pow.reduce_sum()
    }
}

impl Default for SimdVec3<Fix> {
    /// The zero vector.
    fn default() -> (r: Self)
        ensures
            r.lane0()@ == 0,
            r.lane1()@ == 0,
            r.lane2()@ == 0,
            r.lane3()@ == 0,
    {
        let zero = Fix::zero();
        Self { e0: zero, e1: zero, e2: zero, e3: zero }
    }
}

} // verus!
