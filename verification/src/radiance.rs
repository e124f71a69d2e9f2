//! How far a ray is followed, and how its path ends.
//!
//! The colour of a ray is the background where it hits nothing, black where
//! it hits something at the depth limit or is absorbed, and otherwise the
//! attenuation of the surface times the colour of the scattered ray, one level
//! deeper. The depth limit alone ends the recursion.
use crate::hitable::HitRecord;
use crate::hitable::Hitable;
use crate::hitable_list::hit;
use crate::hitable_list::hit_spec;
use crate::hitable_list::none_hit;
use crate::scalar::Scalar;
use crate::vec3::Vec3;
use vstd::prelude::*;

verus! {

/// The depth from which on a hit is black.
pub const MAX_DEPTH: i32 = 50;

/// The pattern of 0.001, the least distance at which a hit counts: nearer
/// ones are the surface the ray has just left.
pub const T_MIN_BITS: u32 = 0x3a83_126f;

/// The pattern of the largest finite number, the greatest distance.
pub const T_MAX_BITS: u32 = 0x7f7f_ffff;

/// The patterns of 0.5, 0.7 and 1: the blue that the background fades to.
pub const SKY_RED_BITS: u32 = 0x3f00_0000;

pub const SKY_GREEN_BITS: u32 = 0x3f33_3333;

pub const SKY_BLUE_BITS: u32 = 0x3f80_0000;

/// What the colour of a ray is made of.
#[derive(Clone, Copy, Debug)]
pub enum Step {
    /// The ray hits nothing: its colour is the background's.
    Background,
    /// The ray hits something too deep: its colour is black.
    Black,
    /// The ray hits `hit`: its colour is black if the material absorbs it, and
    /// else the attenuation times the colour, at `next_depth`, of the ray that
    /// the material scatters.
    Scatter { hit: HitRecord, next_depth: i32 },
}

/// How a path ends.
#[derive(Clone, Copy, Debug, PartialEq, Eq, Structural)]
pub enum End {
    /// In the background.
    Background,
    /// In black: absorbed, or cut off at the depth limit.
    Black,
    /// Not within the levels that were given.
    Open,
}

/// One level of a path: what the scene's `hit` returned for the ray, and
/// whether the material, if asked, scattered it.
pub struct Level {
    pub hit: Option<HitRecord>,
    pub scattered: bool,
}

/// A path from some depth on: how often a material was asked to scatter, and
/// how the path ended.
pub struct Trace {
    pub scatter_calls: nat,
    pub end: End,
}

/// The least distance at which a hit counts.
pub open spec fn t_min() -> Scalar {
    Scalar { bits: T_MIN_BITS }
}

/// The greatest distance at which a hit counts.
pub open spec fn t_max() -> Scalar {
    Scalar { bits: T_MAX_BITS }
}

/// What `step` returns.
pub open spec fn step_spec(found: Option<HitRecord>, depth: int) -> Step {
    match found {
        None => Step::Background,
        Some(h) => if depth < MAX_DEPTH {
            Step::Scatter { hit: h, next_depth: (depth + 1) as i32 }
        } else {
            Step::Black
        },
    }
}

/// What `color` returns.
pub open spec fn color_spec(list: Seq<Hitable>, depth: int) -> Step {
    step_spec(hit_spec(list, t_min(), t_max()), depth)
}

/// The path that `levels` describe, followed from `depth` as `color` follows
/// it: level by level while the ray is hit above the depth limit and
/// scattered.
pub open spec fn trace(levels: Seq<Level>, depth: int) -> Trace
    decreases levels.len(),
{
    if levels.len() == 0 {
        Trace { scatter_calls: 0, end: End::Open }
    } else {
        match step_spec(levels[0].hit, depth) {
            Step::Background => Trace { scatter_calls: 0, end: End::Background },
            Step::Black => Trace { scatter_calls: 0, end: End::Black },
            Step::Scatter { hit, next_depth } => if levels[0].scattered {
                let rest = trace(levels.skip(1), depth + 1);
                Trace { scatter_calls: rest.scatter_calls + 1, end: rest.end }
            } else {
                Trace { scatter_calls: 1, end: End::Black }
            },
        }
    }
}

/// What the colour of a ray at `depth` is made of, given what the scene's
/// `hit` found for it.
pub fn step(found: Option<HitRecord>, depth: i32) -> (r: Step)
    ensures
        r == step_spec(found, depth as int),
{
    match found {
        None => Step::Background,
        Some(h) => {
            if depth < MAX_DEPTH {
                Step::Scatter { hit: h, next_depth: depth + 1 }
            } else {
                Step::Black
            }
        },
    }
}

/// What the colour of a ray at `depth` is made of, in a scene that the ray
/// meets as `list` says: the nearest hit farther than 0.001 decides.
pub fn color(list: &Vec<Hitable>, depth: i32) -> (r: Step)
    ensures
        r == color_spec(list@, depth as int),
{
    let found: Option<HitRecord> = hit(
        list,
        Scalar::from_bits(T_MIN_BITS),
        Scalar::from_bits(T_MAX_BITS),
    );
    step(found, depth)
}

/// The blue that the background fades to with height.
pub fn sky_blue() -> (r: Vec3)
    ensures
        r.x.bits == SKY_RED_BITS,
        r.y.bits == SKY_GREEN_BITS,
        r.z.bits == SKY_BLUE_BITS,
{
    Vec3::new(
        Scalar::from_bits(SKY_RED_BITS),
        Scalar::from_bits(SKY_GREEN_BITS),
        Scalar::from_bits(SKY_BLUE_BITS),
    )
}

/// Where no primitive is hit, the scene is not hit.
pub proof fn lemma_all_missed(list: Seq<Hitable>, t_min: Scalar, t_max: Scalar)
    requires
        none_hit(list, t_min, t_max),
    ensures
        hit_spec(list, t_min, t_max) is None,
    decreases list.len(),
{
    if list.len() > 0 {
        let init = list.drop_last();
        assert(forall|j: int| 0 <= j < init.len() ==> init[j] == list[j]);
        lemma_all_missed(init, t_min, t_max);
    }
}

/// A ray that misses every primitive has the colour of the background, at
/// every depth; so has every ray in an empty scene.
pub proof fn lemma_miss_is_background(list: Seq<Hitable>, depth: int)
    requires
        none_hit(list, t_min(), t_max()),
    ensures
        color_spec(list, depth) == Step::Background,
        color_spec(Seq::<Hitable>::empty(), depth) == Step::Background,
{
    lemma_all_missed(list, t_min(), t_max());
    lemma_all_missed(Seq::<Hitable>::empty(), t_min(), t_max());
}

/// From a depth between zero and the limit, a path asks materials to scatter
/// at most as often as levels are left below the limit, however the scene
/// and the materials answer.
pub proof fn lemma_depth_is_bounded(levels: Seq<Level>, depth: int)
    requires
        0 <= depth <= MAX_DEPTH,
    ensures
        trace(levels, depth).scatter_calls <= MAX_DEPTH - depth,
    decreases levels.len(),
{
    if levels.len() > 0 && depth < MAX_DEPTH {
        lemma_depth_is_bounded(levels.skip(1), depth + 1);
    }
}

/// A path on which every ray is hit and scattered, as between two mirrors,
/// ends in black after exactly as many scatterings as levels are left below
/// the limit: fifty from depth zero.
pub proof fn lemma_mirrors_end_in_black(levels: Seq<Level>, depth: int)
    requires
        0 <= depth <= MAX_DEPTH,
        levels.len() > MAX_DEPTH - depth,
        forall|i: int| 0 <= i < levels.len() ==> (#[trigger] levels[i]).hit is Some && levels[i].scattered,
    ensures
        trace(levels, depth).scatter_calls == MAX_DEPTH - depth,
        trace(levels, depth).end == End::Black,
    decreases levels.len(),
{
    if depth < MAX_DEPTH {
        let rest = levels.skip(1);
        assert(forall|i: int| 0 <= i < rest.len() ==> rest[i] == levels[i + 1]);
        lemma_mirrors_end_in_black(rest, depth + 1);
    }
}

} // verus!
