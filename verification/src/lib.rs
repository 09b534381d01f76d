//! Core of a Gaussian-splat scene renderer: the splat data model, the two
//! file-format decoders, camera projection and frustum culling, and the three
//! depth-sorting strategies (host sort, device radix sort, device radix sort
//! with an indirect draw), together with the buffer and uniform layouts that
//! tie them to a GPU pipeline.
//!
//! Scalar fields that a GPU reads as 32-bit IEEE-754 floats are carried here
//! as their bit patterns (`u32`), so every layout statement is bit-exact.
//! The few operations that need real float arithmetic (matrix products,
//! integer-to-float conversion) go through a linear-algebra crate behind
//! trusted wrappers.

use vstd::prelude::*;

pub mod floatbits;
pub mod splat;
pub mod rawload;
pub mod fmath;
pub mod seqtools;
pub mod cpusort;
pub mod radix;
pub mod cull;
pub mod config;
pub mod engine;
pub mod renderer;
pub mod scene;
pub mod plyload;

verus! {

/// Why a load failed. A failed load leaves the prior scene intact.
#[derive(Clone, Copy, Debug, PartialEq, Eq, Structural)]
pub enum FileReading {
    /// The raw binary file's length is not a multiple of the record stride.
    InvalidSplatSize,
    /// The point-cloud file has no vertex element.
    MissingVertexElement,
    /// The point-cloud file could not be parsed at all.
    MalformedFile,
}

} // verus!
