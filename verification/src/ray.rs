//! A ray: an origin point and a direction vector, with the parametric
//! point evaluator `origin + t * direction`.

use vstd::prelude::*;
use crate::vec3::Vec3;
use crate::vec3::V3;
use crate::vec3::v3_add;
use crate::vec3::v3_scale;
use crate::vec3::v3_fits;

verus! {

/// Mathematical model of a ray.
pub ghost struct RayV {
    pub origin: V3,
    pub direction: V3,
}

#[derive(Clone, Copy, Debug)]
pub struct Ray {
    pub origin: Vec3,
    pub direction: Vec3,
}

impl View for Ray {
    type V = RayV;

    open spec fn view(&self) -> RayV {
        RayV { origin: self.origin@, direction: self.direction@ }
    }
}

/// The point at parameter `t` along a ray.
pub open spec fn ray_at_s(r: RayV, t: int) -> V3 {
    v3_add(r.origin, v3_scale(t, r.direction))
}

impl Ray {
    pub fn origin(self) -> (r: Vec3)
        ensures
            r@ == self@.origin,
    {
        self.origin
    }

    pub fn direction(self) -> (r: Vec3)
        ensures
            r@ == self@.direction,
    {
        self.direction
    }

    /// Evaluate the ray at parameter `t`.
    pub fn at(self, t: i64) -> (r: Vec3)
        requires
            v3_fits(v3_scale(t as int, self@.direction)),
            v3_fits(ray_at_s(self@, t as int)),
        ensures
            r@ == ray_at_s(self@, t as int),
    {
        let d = self.direction.scale(t);
        self.origin.add(d)
    }
}

} // verus!
