//! Points in space are vectors from the origin.

use crate::vec3::Vec3;
use vstd::prelude::*;

verus! {

pub type Point3 = Vec3;

} // verus!
