//! A half-line: where it starts and which way it goes.
use crate::vec3::Vec3;
use vstd::prelude::*;

verus! {

/// An origin `a` and a direction `b`.
#[derive(Clone, Copy, Debug)]
pub struct Ray {
    pub a: Vec3,
    pub b: Vec3,
}

impl Ray {
    /// Component by component, `self == other` as IEEE-754 has it.
    pub open spec fn same(self, other: Ray) -> bool {
        self.a.same(other.a) && self.b.same(other.b)
    }

    pub fn new(a: Vec3, b: Vec3) -> (r: Ray)
        ensures
            r == (Ray { a, b }),
    {
        Ray { a, b }
    }

    pub fn origin(self) -> (r: Vec3)
        ensures
            r == self.a,
    {
        self.a
    }

    pub fn direction(self) -> (r: Vec3)
        ensures
            r == self.b,
    {
        self.b
    }
}

impl PartialEq for Ray {
    fn eq(&self, other: &Ray) -> (r: bool) {
        self.a == other.a && self.b == other.b
    }
}

impl vstd::std_specs::cmp::PartialEqSpecImpl for Ray {
    open spec fn obeys_eq_spec() -> bool {
        true
    }

    open spec fn eq_spec(&self, other: &Ray) -> bool {
        self.same(*other)
    }
}

} // verus!
