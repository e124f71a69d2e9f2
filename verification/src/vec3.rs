//! Three numbers: a point, a direction or a colour.
use crate::scalar::Scalar;
use crate::scalar::ONE_BITS;
use crate::scalar::ZERO_BITS;
use vstd::prelude::*;

verus! {

/// Three single-precision components, read as a point, a direction or an RGB
/// colour as the context asks.
#[derive(Clone, Copy, Debug)]
pub struct Vec3 {
    pub x: Scalar,
    pub y: Scalar,
    pub z: Scalar,
}

impl Vec3 {
    /// Component by component, `self == other` as IEEE-754 has it.
    pub open spec fn same(self, other: Vec3) -> bool {
        self.x.same(other.x) && self.y.same(other.y) && self.z.same(other.z)
    }

    pub fn new(x: Scalar, y: Scalar, z: Scalar) -> (r: Vec3)
        ensures
            r == (Vec3 { x, y, z }),
    {
        Vec3 { x, y, z }
    }

    /// The vector whose components are all positive zero.
    pub fn zeros() -> (r: Vec3)
        ensures
            r.x == Scalar::zero(),
            r.y == Scalar::zero(),
            r.z == Scalar::zero(),
    {
        let zero: Scalar = Scalar::from_bits(ZERO_BITS);
        Vec3 { x: zero, y: zero, z: zero }
    }

    /// The vector whose components are all one.
    pub fn ones() -> (r: Vec3)
        ensures
            r.x == Scalar::one(),
            r.y == Scalar::one(),
            r.z == Scalar::one(),
    {
        let one: Scalar = Scalar::from_bits(ONE_BITS);
        Vec3 { x: one, y: one, z: one }
    }

    /// The red channel as a whole number, of a colour that has been encoded
    /// for display and scaled: the first component, cut off towards zero.
    pub fn r(self) -> (r: i32)
        ensures
            r == self.x.truncated(),
    {
        self.x.to_i32()
    }

    /// The green channel as a whole number: the second component, cut off
    /// towards zero.
    pub fn g(self) -> (r: i32)
        ensures
            r == self.y.truncated(),
    {
        self.y.to_i32()
    }

    /// The blue channel as a whole number: the third component, cut off
    /// towards zero.
    pub fn b(self) -> (r: i32)
        ensures
            r == self.z.truncated(),
    {
        self.z.to_i32()
    }

    /// The vector that points the opposite way.
    pub open spec fn negated(self) -> Vec3 {
        Vec3 { x: self.x.negated(), y: self.y.negated(), z: self.z.negated() }
    }

    /// The vector that points the opposite way: `-1 * self`.
    pub fn neg(self) -> (r: Vec3)
        ensures
            r == self.negated(),
    {
        Vec3 { x: self.x.neg(), y: self.y.neg(), z: self.z.neg() }
    }

    /// What `refract` returns.
    pub open spec fn refracted(self, discriminant: Scalar) -> Option<Vec3> {
        if Scalar::zero().below(discriminant) {
            Some(self)
        } else {
            None
        }
    }

    /// What the two samplers return.
    pub open spec fn accepted(self, squared_length: Scalar) -> Option<Vec3> {
        if squared_length.below(Scalar::one()) {
            Some(self)
        } else {
            None
        }
    }

    /// The refracted direction `self`, which exists where `discriminant`,
    /// `1 - ni_over_nt^2 (1 - dt^2)`, is positive; elsewhere the light is
    /// totally reflected and there is none.
    pub fn refract(self, discriminant: Scalar) -> (r: Option<Vec3>)
        ensures
            r == self.refracted(discriminant),
    {
        if discriminant.gt(Scalar::from_bits(ZERO_BITS)) {
            Some(self)
        } else {
            None
        }
    }

    /// One round of sampling the unit ball: `self`, drawn from the cube around
    /// it, is the sample where its squared length is below one; where it is
    /// not, the caller draws again.
    pub fn random_in_unit_sphere(self, squared_length: Scalar) -> (r: Option<Vec3>)
        ensures
            r == self.accepted(squared_length),
    {
        if squared_length.lt(Scalar::from_bits(ONE_BITS)) {
            Some(self)
        } else {
            None
        }
    }

    /// One round of sampling the unit disc: `self`, drawn from the square
    /// around it, is the sample where its squared length is below one; where
    /// it is not, the caller draws again.
    pub fn random_in_unit_disc(self, squared_length: Scalar) -> (r: Option<Vec3>)
        ensures
            r == self.accepted(squared_length),
    {
        if squared_length.lt(Scalar::from_bits(ONE_BITS)) {
            Some(self)
        } else {
            None
        }
    }

    pub fn x(self) -> (r: Scalar)
        ensures
            r == self.x,
    {
        self.x
    }

    pub fn y(self) -> (r: Scalar)
        ensures
            r == self.y,
    {
        self.y
    }

    pub fn z(self) -> (r: Scalar)
        ensures
            r == self.z,
    {
        self.z
    }
}

impl PartialEq for Vec3 {
    fn eq(&self, other: &Vec3) -> (r: bool) {
        self.x == other.x && self.y == other.y && self.z == other.z
    }
}

impl vstd::std_specs::cmp::PartialEqSpecImpl for Vec3 {
    open spec fn obeys_eq_spec() -> bool {
        true
    }

    open spec fn eq_spec(&self, other: &Vec3) -> bool {
        self.same(*other)
    }
}

} // verus!
