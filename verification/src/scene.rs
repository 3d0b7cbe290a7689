//! A scene: the camera and the geometry it looks at.
//!
//! Scene construction (placing spheres, choosing materials) is the
//! caller's business; the renderer only needs the two accessors.

use crate::camera::{Camera, CameraModel};
use crate::hittable_list::{HittableList, ListModel};
use vstd::prelude::*;

verus! {

/// Mathematical model of a scene.
pub struct SceneModel {
    pub camera: CameraModel,
    pub world: ListModel,
}

/// A camera and the aggregate of everything it can see.
pub struct Scene {
    camera: Camera,
    world: HittableList,
}

impl View for Scene {
    type V = SceneModel;

    closed spec fn view(&self) -> SceneModel {
        SceneModel { camera: self.camera@, world: self.world@ }
    }
}

impl Scene {
    /// Assemble a scene.
    pub fn new(camera: Camera, world: HittableList) -> (r: Self)
        ensures
            r@.camera == camera@,
            r@.world == world@,
    {
        Self { camera, world }
    }

    /// The camera.
    pub fn camera(&self) -> (r: &Camera)
        ensures
            r@ == self@.camera,
    {
        &self.camera
    }

    /// The geometry aggregate.
    pub fn world(&self) -> (r: &HittableList)
        ensures
            r@ == self@.world,
    {
        &self.world
    }
}

} // verus!
