//! The scene aggregate: every primitive, and the material table they
//! index into.
//!
//! `hit` tests every sphere in order and keeps the accepted hit with the
//! strictly smallest parameter (the first such hit on a tie), giving the
//! nearest surface in one linear pass.

use crate::fix::Fix;
use crate::hit_record::{HitModel, HitRecord};
use crate::hittable::Hittable;
use crate::material::Material;
use crate::ray::{Ray, RayModel};
use crate::sphere::{sphere_hit, Sphere, SphereModel};
use vstd::prelude::*;

verus! {

/// Mathematical model of the aggregate.
pub struct ListModel {
    pub objects: Seq<SphereModel>,
    pub materials: Seq<crate::material::MaterialModel>,
}

/// The upper bound a candidate hit must beat: the best `t` so far, or the
/// end of the search interval when nothing was hit yet.
pub open spec fn closest_bound(best: Option<HitModel>, t_max: int) -> int {
    match best {
        Option::None => t_max,
        Option::Some(h) => h.t,
    }
}

/// Fold the objects from index `i` on, keeping the closest accepted hit.
pub open spec fn list_hit_from(
    objects: Seq<SphereModel>,
    i: int,
    r: RayModel,
    t_min: int,
    t_max: int,
    best: Option<HitModel>,
) -> Option<HitModel>
    decreases objects.len() - i,
{
    if i < 0 || i >= objects.len() {
        best
    } else {
        let cand = sphere_hit(objects[i], r, t_min, t_max);
        let next = match cand {
            Option::None => best,
            Option::Some(h) => if h.t < closest_bound(best, t_max) {
                cand
            } else {
                best
            },
        };
        list_hit_from(objects, i + 1, r, t_min, t_max, next)
    }
}

/// The nearest hit over the whole aggregate.
pub open spec fn list_hit(
    objects: Seq<SphereModel>,
    r: RayModel,
    t_min: int,
    t_max: int,
) -> Option<HitModel> {
    list_hit_from(objects, 0, r, t_min, t_max, Option::None)
}

/// The model of an optional hit record.
pub open spec fn opt_hit_view(o: Option<HitRecord>) -> Option<HitModel> {
    match o {
        Option::None => Option::None,
        Option::Some(c) => Option::Some(c@),
    }
}

/// All primitives of a scene, with the materials they share.
pub struct HittableList {
    objects: Vec<Sphere>,
    materials: Vec<Material>,
}

impl View for HittableList {
    type V = ListModel;

    closed spec fn view(&self) -> ListModel {
        ListModel {
            objects: Seq::new(self.objects@.len(), |i: int| self.objects@[i]@),
            materials: Seq::new(self.materials@.len(), |i: int| self.materials@[i]@),
        }
    }
}

impl HittableList {
    /// An empty scene.
    pub fn new() -> (r: Self)
        ensures
            r@.objects.len() == 0,
            r@.materials.len() == 0,
    {
        HittableList { objects: Vec::new(), materials: Vec::new() }
    }

    /// Register a material and hand back its table index.
    pub fn add_material(&mut self, material: Material) -> (idx: usize)
        ensures
            final(self)@.materials == old(self)@.materials.push(material@),
            final(self)@.objects == old(self)@.objects,
            idx == old(self)@.materials.len(),
    {
        let idx = self.materials.len();
        self.materials.push(material);
        proof {
            assert(final(self)@.materials =~= old(self)@.materials.push(material@));
            assert(final(self)@.objects =~= old(self)@.objects);
        }
        idx
    }

    /// Add a primitive; its material index must point into the table.
    pub fn add(&mut self, object: Sphere)
        requires
            0 <= object@.material < old(self)@.materials.len(),
        ensures
            final(self)@.objects == old(self)@.objects.push(object@),
            final(self)@.materials == old(self)@.materials,
    {
        self.objects.push(object);
        proof {
            assert(final(self)@.objects =~= old(self)@.objects.push(object@));
            assert(final(self)@.materials =~= old(self)@.materials);
        }
    }

    /// How many materials the table holds.
    pub fn material_count(&self) -> (r: usize)
        ensures
            r == self@.materials.len(),
    {
        self.materials.len()
    }

    /// The material at a table index.
    pub fn material_at(&self, idx: usize) -> (r: &Material)
        requires
            idx < self@.materials.len(),
        ensures
            r@ == self@.materials[idx as int],
    {
        &self.materials[idx]
    }

}

impl Hittable for HittableList {
    open spec fn hit_spec(&self, r: RayModel, t_min: int, t_max: int) -> Option<HitModel> {
        list_hit(self@.objects, r, t_min, t_max)
    }

    fn hit(&self, r: &Ray, t_min: Fix, t_max: Fix) -> (h: Option<HitRecord>)
        ensures
            (h is Some) == (self.hit_spec(r@, t_min@, t_max@) is Some),
            h is Some ==> (h->Some_0)@ == self.hit_spec(r@, t_min@, t_max@)->Some_0,
    {
        let ghost objs = self@.objects;
        let mut closest: Option<HitRecord> = None;
        let mut i: usize = 0;
        while i < self.objects.len()
            invariant
                i <= self.objects.len(),
                objs == self@.objects,
                objs.len() == self.objects.len(),
                list_hit_from(objs, i as int, r@, t_min@, t_max@, opt_hit_view(closest))
                    == list_hit(objs, r@, t_min@, t_max@),
            decreases self.objects.len() - i,
        {
            let ghost best_model = opt_hit_view(closest);
            let object = &self.objects[i];
            if let Some(hit_record) = object.hit(r, t_min, t_max) {
                let beats = match &closest {
                    Option::None => hit_record.t().lt(t_max),
                    Option::Some(c) => hit_record.t().lt(c.t()),
                };
                if beats {
                    closest = Some(hit_record);
                }
            }
            i = i + 1;
        }
        closest
    }
}

} // verus!
