//! The splat record and its two GPU-facing layouts.
//!
//! A [`Splat`] is one oriented, colored, elliptical point primitive. All
//! scalar fields hold 32-bit IEEE-754 bit patterns; `depth` is a cache that
//! is recomputed from the camera every frame and never trusted from a loader.

use vstd::prelude::*;
use crate::floatbits::F32_ONE_BITS;

verus! {

/// One splat record. Immutable once loaded; only a re-load replaces it.
#[derive(Clone, Copy, Debug, PartialEq)]
pub struct Splat {
    /// Per-splat transform; identity unless the source format supplies one.
    pub model_matrix: [u32; 16],
    /// World-space position.
    pub center: [u32; 3],
    /// RGBA; the last channel is opacity.
    pub color: [u32; 4],
    /// Cached view-space depth, recomputed whenever the camera changes.
    pub depth: u32,
    /// 2D footprint extents.
    pub scale: [u32; 2],
    /// Orientation hint for shading.
    pub normal: [u32; 3],
    /// One axis of the elliptical footprint basis.
    pub ellipse_basis: [u32; 3],
}

/// The identity matrix, column-major, as bit patterns.
pub open spec fn spec_identity_matrix() -> Seq<u32> {
    Seq::new(16, |i: int| if i == 0 || i == 5 || i == 10 || i == 15 {
        F32_ONE_BITS
    } else {
        0u32
    })
}

/// Builds the identity matrix, column-major, as bit patterns.
pub fn identity_matrix() -> (r: [u32; 16])
    ensures
        r@ =~= spec_identity_matrix(),
{
    let r: [u32; 16] = [
        F32_ONE_BITS, 0, 0, 0,
        0, F32_ONE_BITS, 0, 0,
        0, 0, F32_ONE_BITS, 0,
        0, 0, 0, F32_ONE_BITS,
    ];
    assert(r@ =~= spec_identity_matrix());
    r
}

/// The per-splat layout the render shader reads: rotation quaternion,
/// padded center, scale, opacity, and the spherical-harmonic color block,
/// which is derived on every upload and never persisted.
#[derive(Clone, Copy, Debug, PartialEq)]
pub struct ShaderSplat {
    /// Rotation quaternion (x, y, z, w).
    pub rotation: [u32; 4],
    /// World-space position.
    pub center: [u32; 3],
    /// Padding up to a 16-byte boundary.
    pub pad0: u32,
    /// 2D footprint extents.
    pub scale: [u32; 2],
    /// Opacity, copied from the splat color's alpha channel.
    pub alpha: u32,
    /// Padding up to a 16-byte boundary.
    pub pad1: [u32; 3],
    /// Spherical-harmonic color coefficients.
    pub color_sh: [u32; 48],
}

impl ShaderSplat {
    /// Derives the shader-side record from a splat: identity rotation, the
    /// splat's center and scale, its opacity, zeroed padding, and a zeroed
    /// spherical-harmonic block to be filled on the device.
    pub fn from_splat(s: &Splat) -> (r: ShaderSplat)
        ensures
            r.rotation@ =~= seq![0u32, 0u32, 0u32, F32_ONE_BITS],
            r.center@ =~= s.center@,
            r.pad0 == 0u32,
            r.scale@ =~= s.scale@,
            r.alpha == s.color[3],
            r.pad1@ =~= seq![0u32, 0u32, 0u32],
            r.color_sh@ =~= Seq::new(48, |i: int| 0u32),
    {
        let r = ShaderSplat {
            rotation: [0, 0, 0, F32_ONE_BITS],
            center: s.center,
            pad0: 0,
            scale: s.scale,
            alpha: s.color[3],
            pad1: [0, 0, 0],
            color_sh: [0; 48],
        };
        assert(r.color_sh@ =~= Seq::new(48, |i: int| 0u32));
        r
    }

    /// The 62-word (248-byte) buffer image of this record, fields in
    /// declaration order; bit-exact for the shader that reads it.
    pub fn to_words(&self) -> (r: Vec<u32>)
        ensures
            r@ =~= self.rotation@ + self.center@ + seq![self.pad0] + self.scale@
                + seq![self.alpha] + self.pad1@ + self.color_sh@,
    {
        let mut r: Vec<u32> = Vec::new();
        let mut i: usize = 0;
        while i < 4
            invariant
                i <= 4,
                r@ =~= self.rotation@.take(i as int),
            decreases 4 - i,
        {
            r.push(self.rotation[i]);
            i += 1;
        }
        let mut i: usize = 0;
        while i < 3
            invariant
                i <= 3,
                r@ =~= self.rotation@ + self.center@.take(i as int),
            decreases 3 - i,
        {
            r.push(self.center[i]);
            i += 1;
        }
        r.push(self.pad0);
        r.push(self.scale[0]);
        r.push(self.scale[1]);
        r.push(self.alpha);
        r.push(self.pad1[0]);
        r.push(self.pad1[1]);
        r.push(self.pad1[2]);
        let ghost head = r@;
        let mut i: usize = 0;
        while i < 48
            invariant
                i <= 48,
                r@ =~= head + self.color_sh@.take(i as int),
            decreases 48 - i,
        {
            r.push(self.color_sh[i]);
            i += 1;
        }
        assert(r@ =~= self.rotation@ + self.center@ + seq![self.pad0] + self.scale@
            + seq![self.alpha] + self.pad1@ + self.color_sh@);
        r
    }
}

/// The per-splat layout the sorting passes read: position, color, depth and
/// footprint, padded to 16-byte boundaries.
#[derive(Clone, Copy, Debug, PartialEq)]
pub struct SplatEntry {
    /// World-space position.
    pub center: [u32; 3],
    /// RGBA color.
    pub color: [u32; 4],
    /// Cached view-space depth.
    pub depth: u32,
    /// 2D footprint extents.
    pub scale: [u32; 2],
    /// Orientation hint.
    pub normal: [u32; 3],
    /// Padding up to a 16-byte boundary.
    pub padding: u32,
    /// One axis of the elliptical footprint basis.
    pub ellipse_basis: [u32; 3],
    /// Padding up to a 16-byte boundary.
    pub padding2: u32,
}

impl SplatEntry {
    /// Copies a splat's fields into the entry layout with zeroed padding.
    pub fn from_splat(s: &Splat) -> (r: SplatEntry)
        ensures
            r.center@ =~= s.center@,
            r.color@ =~= s.color@,
            r.depth == s.depth,
            r.scale@ =~= s.scale@,
            r.normal@ =~= s.normal@,
            r.padding == 0u32,
            r.ellipse_basis@ =~= s.ellipse_basis@,
            r.padding2 == 0u32,
    {
        SplatEntry {
            center: s.center,
            color: s.color,
            depth: s.depth,
            scale: s.scale,
            normal: s.normal,
            padding: 0,
            ellipse_basis: s.ellipse_basis,
            padding2: 0,
        }
    }

    /// The 18-word (72-byte) buffer image of this record, fields in
    /// declaration order.
    pub fn to_words(&self) -> (r: Vec<u32>)
        ensures
            r@ =~= self.center@ + self.color@ + seq![self.depth] + self.scale@
                + self.normal@ + seq![self.padding] + self.ellipse_basis@
                + seq![self.padding2],
    {
        let mut r: Vec<u32> = Vec::new();
        r.push(self.center[0]);
        r.push(self.center[1]);
        r.push(self.center[2]);
        r.push(self.color[0]);
        r.push(self.color[1]);
        r.push(self.color[2]);
        r.push(self.color[3]);
        r.push(self.depth);
        r.push(self.scale[0]);
        r.push(self.scale[1]);
        r.push(self.normal[0]);
        r.push(self.normal[1]);
        r.push(self.normal[2]);
        r.push(self.padding);
        r.push(self.ellipse_basis[0]);
        r.push(self.ellipse_basis[1]);
        r.push(self.ellipse_basis[2]);
        r.push(self.padding2);
        assert(r@ =~= self.center@ + self.color@ + seq![self.depth] + self.scale@
            + self.normal@ + seq![self.padding] + self.ellipse_basis@
            + seq![self.padding2]);
        r
    }
}

} // verus!
