//! The capability of being struck by a ray.

use crate::fix::Fix;
use crate::hit_record::{HitModel, HitRecord};
use crate::ray::{Ray, RayModel};
use vstd::prelude::*;

verus! {

/// Anything a ray can intersect over a half-open parameter interval
/// `[t_min, t_max)`.
pub trait Hittable {
    /// Model of the nearest accepted hit, if any.
    spec fn hit_spec(&self, r: RayModel, t_min: int, t_max: int) -> Option<HitModel>;

    /// The nearest intersection with parameter in `[t_min, t_max)`.
    fn hit(&self, r: &Ray, t_min: Fix, t_max: Fix) -> (h: Option<HitRecord>)
        ensures
            (h is Some) == (self.hit_spec(r@, t_min@, t_max@) is Some),
            h is Some ==> (h->Some_0)@ == self.hit_spec(r@, t_min@, t_max@)->Some_0,
    ;
}

} // verus!
