//! The plain three-component vector container.
//!
//! `ScalarVec3<T>` stores its components one by one; the algebra on
//! `ScalarVec3<Fix>` lives in `vec3` together with the capability traits.

use vstd::prelude::*;

verus! {

/// Three ordered components.
#[derive(Clone, Copy, Debug, PartialEq, Eq, Structural)]
pub struct ScalarVec3<T> {
    x: T,
    y: T,
    z: T,
}

impl<T: Copy> ScalarVec3<T> {
    /// First component.
    pub closed spec fn spec_x(&self) -> T {
        self.x
    }

    /// Second component.
    pub closed spec fn spec_y(&self) -> T {
        self.y
    }

    /// Third component.
    pub closed spec fn spec_z(&self) -> T {
        self.z
    }

    /// Pack three components into a vector.
    pub fn new(e1: T, e2: T, e3: T) -> (r: Self)
        ensures
            r.spec_x() == e1,
            r.spec_y() == e2,
            r.spec_z() == e3,
    {
        Self { x: e1, y: e2, z: e3 }
    }

    /// First component.
    #[verifier::when_used_as_spec(spec_x)]
    pub fn x(&self) -> (r: T)
        ensures
            r == self.spec_x(),
    {
        self.x
    }

    /// Second component.
    #[verifier::when_used_as_spec(spec_y)]
    pub fn y(&self) -> (r: T)
        ensures
            r == self.spec_y(),
    {
        self.y
    }

    /// Third component.
    #[verifier::when_used_as_spec(spec_z)]
    pub fn z(&self) -> (r: T)
        ensures
            r == self.spec_z(),
    {
        self.z
    }

    /// Pack three components into a vector (usable where `new` is).
    pub fn const_new(e1: T, e2: T, e3: T) -> (r: Self)
        ensures
            r.spec_x() == e1,
            r.spec_y() == e2,
            r.spec_z() == e3,
    {
        Self { x: e1, y: e2, z: e3 }
    }
}

} // verus!
