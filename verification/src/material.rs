//! How each kind of surface answers a ray.
//!
//! The caller works out the directions a ray could leave in, and the numbers
//! the choice among them rests on. The functions here make the choice.
use crate::hitable::HitRecord;
use crate::ray::Ray;
use crate::scalar::Scalar;
use crate::scalar::ZERO_BITS;
use crate::vec3::Vec3;
use vstd::prelude::*;

verus! {

/// A surface that scatters every ray, tinted by `albedo`.
#[derive(Clone, Copy, Debug)]
pub struct Lambertian {
    pub albedo: Vec3,
}

/// A mirror tinted by `albedo`, blurred by `fuzz`.
#[derive(Clone, Copy, Debug)]
pub struct Metal {
    pub albedo: Vec3,
    pub fuzz: Scalar,
}

/// Clear glass.
#[derive(Clone, Copy, Debug)]
pub struct Dielectric {
    pub refraction_index: Scalar,
}

/// The materials a surface can have.
#[derive(Clone, Copy, Debug)]
pub enum Material {
    Lambertian(Lambertian),
    Metal(Metal),
    Dielectric(Dielectric),
}

/// Which way a ray passes the surface of a medium.
#[derive(Clone, Copy, Debug, PartialEq, Eq, Structural)]
pub enum Passage {
    /// From outside in.
    Entering,
    /// From inside out.
    Exiting,
}

/// A refracted direction, with what decides whether the ray takes it.
#[derive(Clone, Copy, Debug)]
pub struct Refraction {
    /// The direction of the refracted ray.
    pub refracted: Vec3,
    /// The share of the light that the surface reflects at this angle.
    pub reflect_prob: Scalar,
    /// A uniform draw from `[0, 1)`.
    pub draw: Scalar,
}

impl Lambertian {
    pub fn new(albedo: Vec3) -> (r: Lambertian)
        ensures
            r.albedo == albedo,
    {
        Lambertian { albedo }
    }

    /// Sends the ray on from the point of the hit in `direction`, the normal
    /// plus a random point of the unit ball. It never absorbs.
    pub fn scatter(&self, hit: &HitRecord, direction: Vec3) -> (r: Option<(Vec3, Ray)>)
        ensures
            r == Some((self.albedo, Ray { a: hit.p, b: direction })),
    {
        Some((self.albedo, Ray::new(hit.p, direction)))
    }
}

impl Metal {
    /// Whether `fuzz` lies in `[0, 1]`.
    pub open spec fn wf(self) -> bool {
        &&& !self.fuzz.nan()
        &&& !self.fuzz.below(Scalar::zero())
        &&& !Scalar::one().below(self.fuzz)
    }

    /// A metal whose fuzz is `fuzz` brought into `[0, 1]`.
    pub fn new(albedo: Vec3, fuzz: Scalar) -> (r: Metal)
        ensures
            r.albedo == albedo,
            r.fuzz == fuzz.clamped_to_unit(),
            r.wf(),
    {
        Metal { albedo, fuzz: fuzz.clamp_to_unit() }
    }

    /// What `scatter` returns.
    pub open spec fn scattered(self, hit: HitRecord, direction: Vec3, facing: Scalar) -> Option<
        (Vec3, Ray),
    > {
        if Scalar::zero().below(facing) {
            Some((self.albedo, Ray { a: hit.p, b: direction }))
        } else {
            None
        }
    }

    /// Sends the ray on in `direction`, the mirrored direction plus the blur,
    /// where that leaves the surface, and absorbs it where it does not.
    /// `facing` is the dot product of `direction` and the normal.
    pub fn scatter(&self, hit: &HitRecord, direction: Vec3, facing: Scalar) -> (r: Option<
        (Vec3, Ray),
    >)
        ensures
            r == self.scattered(*hit, direction, facing),
            r is Some <==> Scalar::zero().below(facing),
    {
        if facing.gt(Scalar::from_bits(ZERO_BITS)) {
            Some((self.albedo, Ray::new(hit.p, direction)))
        } else {
            None
        }
    }
}

impl Dielectric {
    pub fn new(refraction_index: Scalar) -> (r: Dielectric)
        ensures
            r.refraction_index == refraction_index,
    {
        Dielectric { refraction_index }
    }

    /// Which way a ray passes whose direction has the dot product `facing`
    /// with the outward normal: out where it is positive, in otherwise.
    pub fn passage(&self, facing: Scalar) -> (r: Passage)
        ensures
            r == (if Scalar::zero().below(facing) {
                Passage::Exiting
            } else {
                Passage::Entering
            }),
    {
        if facing.gt(Scalar::from_bits(ZERO_BITS)) {
            Passage::Exiting
        } else {
            Passage::Entering
        }
    }

    /// The normal on the side that the ray comes from: the normal of the hit,
    /// turned round for a ray that passes out. `facing` is the dot product of
    /// the ray's direction and the normal of the hit.
    pub fn outward_normal(&self, hit: &HitRecord, facing: Scalar) -> (r: Vec3)
        ensures
            r == (if Scalar::zero().below(facing) {
                hit.normal.negated()
            } else {
                hit.normal
            }),
    {
        match self.passage(facing) {
            Passage::Exiting => hit.normal.neg(),
            Passage::Entering => hit.normal,
        }
    }

    /// The direction a ray leaves in: the refracted one where there is one and
    /// the draw is not below the reflected share, the reflected one otherwise.
    pub open spec fn outgoing(reflected: Vec3, refraction: Option<Refraction>) -> Vec3 {
        match refraction {
            Some(f) => if f.draw.below(f.reflect_prob) {
                reflected
            } else {
                f.refracted
            },
            None => reflected,
        }
    }

    /// Reflects or refracts, and never absorbs. `refraction` is `None` where
    /// the light is totally reflected.
    pub fn scatter(&self, hit: &HitRecord, reflected: Vec3, refraction: Option<Refraction>) -> (r:
        Option<(Vec3, Ray)>)
        ensures
            r == Some(
                (
                    Vec3 { x: Scalar::one(), y: Scalar::one(), z: Scalar::one() },
                    Ray { a: hit.p, b: Self::outgoing(reflected, refraction) },
                ),
            ),
    {
        let attenuation: Vec3 = Vec3::ones();
        match refraction {
            Some(f) => {
                if f.draw.lt(f.reflect_prob) {
                    Some((attenuation, Ray::new(hit.p, reflected)))
                } else {
                    Some((attenuation, Ray::new(hit.p, f.refracted)))
                }
            },
            None => Some((attenuation, Ray::new(hit.p, reflected))),
        }
    }
}

/// Where a refraction exists and the surface reflects some of the light but
/// no more than the share 0.999 of it, a draw of zero reflects the ray and a
/// draw of 0.999 refracts it.
pub proof fn lemma_fixed_draws(reflected: Vec3, refracted: Vec3, reflect_prob: Scalar)
    requires
        Scalar::zero().below(reflect_prob),
        !(Scalar { bits: 0x3f7f_be77 }).below(reflect_prob),
    ensures
        Dielectric::outgoing(
            reflected,
            Some(Refraction { refracted, reflect_prob, draw: Scalar::zero() }),
        ) == reflected,
        Dielectric::outgoing(
            reflected,
            Some(Refraction { refracted, reflect_prob, draw: Scalar { bits: 0x3f7f_be77 } }),
        ) == refracted,
{
}

} // verus!
