//! The decision core of a small path tracer.
//!
//! Every quantity the renderer measures is a single-precision number, and this
//! crate handles such numbers by their IEEE-754 bit patterns: it compares them,
//! selects among them and carries them, but never does arithmetic on them. The
//! caller computes dot products, roots and samples, and hands the results in.
//! Each decision the renderer takes on those results is made here, with a
//! contract that states it exactly.
pub mod hitable;
pub mod hitable_list;
pub mod material;
pub mod radiance;
pub mod ray;
pub mod scalar;
pub mod sphere;
pub mod vec3;
