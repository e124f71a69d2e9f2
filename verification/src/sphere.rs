//! The sphere, and which of a ray's two crossings counts.
use crate::hitable::HitRecord;
use crate::material::Material;
use crate::scalar::Scalar;
use crate::scalar::ZERO_BITS;
use crate::vec3::Vec3;
use vstd::prelude::*;

verus! {

/// A sphere and the material of its surface. A negative radius turns the
/// normals inwards, which makes the inner wall of a hollow shell.
#[derive(Clone, Copy, Debug)]
pub struct Sphere {
    pub center: Vec3,
    pub radius: Scalar,
    pub material: Material,
}

/// One solution of the ray's equation: the distance `t`, the point `p` there
/// and the normal at `p`.
#[derive(Clone, Copy, Debug)]
pub struct Root {
    pub t: Scalar,
    pub p: Vec3,
    pub normal: Vec3,
}

/// What the quadratic `a t^2 + 2 b t + c = 0` of a ray and a sphere gives:
/// `b^2 - a c`, and the solutions with the minus and with the plus sign.
#[derive(Clone, Copy, Debug)]
pub struct Roots {
    pub discriminant: Scalar,
    pub near: Root,
    pub far: Root,
}

/// Whether `t` lies strictly between `t_min` and `t_max`.
pub open spec fn within(t: Scalar, t_min: Scalar, t_max: Scalar) -> bool {
    t.below(t_max) && t_min.below(t)
}

impl Roots {
    /// Whether the solution with the plus sign is not the smaller one.
    pub open spec fn ordered(self) -> bool {
        !self.far.t.below(self.near.t)
    }

    /// The crossing that counts between `t_min` and `t_max`: none unless the
    /// discriminant is positive; then the near one if it lies strictly
    /// between the bounds, else the far one if that does.
    pub open spec fn first_within(self, t_min: Scalar, t_max: Scalar) -> Option<Root> {
        if !Scalar::zero().below(self.discriminant) {
            None
        } else if within(self.near.t, t_min, t_max) {
            Some(self.near)
        } else if within(self.far.t, t_min, t_max) {
            Some(self.far)
        } else {
            None
        }
    }

    /// The same solutions with each normal turned round.
    pub open spec fn turned(self) -> Roots {
        Roots {
            discriminant: self.discriminant,
            near: Root { t: self.near.t, p: self.near.p, normal: self.near.normal.negated() },
            far: Root { t: self.far.t, p: self.far.p, normal: self.far.normal.negated() },
        }
    }

    pub fn new(discriminant: Scalar, near: Root, far: Root) -> (r: Roots)
        ensures
            r == (Roots { discriminant, near, far }),
    {
        Roots { discriminant, near, far }
    }
}

impl Root {
    pub fn new(t: Scalar, p: Vec3, normal: Vec3) -> (r: Root)
        ensures
            r == (Root { t, p, normal }),
    {
        Root { t, p, normal }
    }
}

impl Sphere {
    pub fn new(center: Vec3, radius: Scalar, material: Material) -> (r: Sphere)
        ensures
            r == (Sphere { center, radius, material }),
    {
        Sphere { center, radius, material }
    }

    /// What `hit` returns: the crossing that counts, with the sphere's material.
    pub open spec fn hit_spec(self, roots: Roots, t_min: Scalar, t_max: Scalar) -> Option<
        HitRecord,
    > {
        match roots.first_within(t_min, t_max) {
            Some(root) => Some(
                HitRecord { t: root.t, p: root.p, normal: root.normal, material: self.material },
            ),
            None => None,
        }
    }

    /// The intersection of the sphere with a ray whose equation has the
    /// solutions `roots`, strictly between `t_min` and `t_max`.
    pub fn hit(&self, roots: &Roots, t_min: Scalar, t_max: Scalar) -> (r: Option<HitRecord>)
        ensures
            r == self.hit_spec(*roots, t_min, t_max),
    {
        if roots.discriminant.gt(Scalar::from_bits(ZERO_BITS)) {
            if roots.near.t.lt(t_max) && roots.near.t.gt(t_min) {
                return Some(
                    HitRecord::new(roots.near.t, roots.near.p, roots.near.normal, self.material),
                );
            }
            if roots.far.t.lt(t_max) && roots.far.t.gt(t_min) {
                return Some(
                    HitRecord::new(roots.far.t, roots.far.p, roots.far.normal, self.material),
                );
            }
        }
        None
    }
}

/// With the solutions in order, a tighter upper bound changes nothing but to
/// drop the hit where it no longer lies below the bound.
pub proof fn lemma_tighter_bound(
    sphere: Sphere,
    roots: Roots,
    t_min: Scalar,
    t_max: Scalar,
    bound: Scalar,
)
    requires
        roots.ordered(),
        bound == t_max || bound.below(t_max),
    ensures
        sphere.hit_spec(roots, t_min, bound) == match sphere.hit_spec(roots, t_min, t_max) {
            Some(h) => if h.t.below(bound) {
                Some(h)
            } else {
                None
            },
            None => None,
        },
{
}

/// Turning the normals round, as the opposite sign of the radius does,
/// leaves the hit where it is and turns its normal round.
pub proof fn lemma_turned_normals(
    sphere: Sphere,
    hollow: Sphere,
    roots: Roots,
    t_min: Scalar,
    t_max: Scalar,
)
    ensures
        match (sphere.hit_spec(roots, t_min, t_max), hollow.hit_spec(roots.turned(), t_min, t_max)) {
            (Some(h), Some(g)) => g.t == h.t && g.p == h.p && g.normal == h.normal.negated()
                && g.material == hollow.material,
            (None, None) => true,
            _ => false,
        },
{
}

} // verus!
