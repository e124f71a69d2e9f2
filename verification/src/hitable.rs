//! What a ray learns where it meets a surface.
use crate::material::Material;
use crate::scalar::Scalar;
use crate::sphere::Roots;
use crate::sphere::Sphere;
use crate::vec3::Vec3;
use vstd::prelude::*;

verus! {

/// One intersection: the distance `t` along the ray, the point `p`, the surface
/// normal there and the material of the surface.
#[derive(Clone, Copy, Debug)]
pub struct HitRecord {
    pub t: Scalar,
    pub p: Vec3,
    pub normal: Vec3,
    pub material: Material,
}

impl HitRecord {
    pub fn new(t: Scalar, p: Vec3, normal: Vec3, material: Material) -> (r: HitRecord)
        ensures
            r == (HitRecord { t, p, normal, material }),
    {
        HitRecord { t, p, normal, material }
    }
}

/// A primitive as one ray meets it: the sphere, and the solutions of that
/// ray's equation on it.
#[derive(Clone, Copy, Debug)]
pub struct Hitable {
    pub sphere: Sphere,
    pub roots: Roots,
}

impl Hitable {
    pub fn new(sphere: Sphere, roots: Roots) -> (r: Hitable)
        ensures
            r == (Hitable { sphere, roots }),
    {
        Hitable { sphere, roots }
    }

    /// What `hit` returns.
    pub open spec fn hit_spec(self, t_min: Scalar, t_max: Scalar) -> Option<HitRecord> {
        self.sphere.hit_spec(self.roots, t_min, t_max)
    }

    /// The intersection strictly between `t_min` and `t_max`, if there is one.
    pub fn hit(&self, t_min: Scalar, t_max: Scalar) -> (r: Option<HitRecord>)
        ensures
            r == self.hit_spec(t_min, t_max),
    {
        self.sphere.hit(&self.roots, t_min, t_max)
    }
}

} // verus!
