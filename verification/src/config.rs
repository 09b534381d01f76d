//! The renderer's configuration: sorting strategy and tunable thresholds.
//!
//! A `Config` is read-only for the lifetime of a renderer; changing the
//! sorting strategy means rebuilding the pipelines. The sizes the device
//! buffers need are derived arithmetically from the configuration here
//! rather than fixed by hand.

use vstd::prelude::*;
use vstd::arithmetic::power2::pow2;
use crate::floatbits::F32_ONE_BITS;

verus! {

/// Which depth-sorting strategy runs each frame.
#[derive(Clone, Copy, Debug, PartialEq, Eq, Structural)]
pub enum DepthSorting {
    /// Stable host sort of the splat array.
    Cpu,
    /// Three-pass device radix sort.
    Gpu,
    /// Device radix sort whose sorted buffer also carries the indirect-draw
    /// argument block.
    GpuIndirectDraw,
}

/// The target surface's pixel format.
#[derive(Clone, Copy, Debug, PartialEq, Eq, Structural)]
pub enum SurfaceFormat {
    /// 8-bit BGRA, sRGB.
    Bgra8UnormSrgb,
    /// 8-bit RGBA, sRGB.
    Rgba8UnormSrgb,
}

/// How the presentation layer paces frames.
#[derive(Clone, Copy, Debug, PartialEq, Eq, Structural)]
pub enum PresentMode {
    /// Present immediately, tearing allowed.
    Immediate,
    /// Queue frames, vertical-sync paced.
    Fifo,
    /// Triple-buffered, latest frame wins.
    Mailbox,
}

/// Description of the target surface; a pass-through to the presentation
/// layer, not read by the sorting itself.
#[derive(Clone, Copy, Debug, PartialEq, Eq, Structural)]
pub struct SurfaceConfiguration {
    /// Pixel format of the target.
    pub format: SurfaceFormat,
    /// Width in pixels.
    pub width: u32,
    /// Height in pixels.
    pub height: u32,
    /// Frame pacing mode.
    pub present_mode: PresentMode,
}

/// The per-renderer configuration bag.
#[derive(Clone, Copy, Debug, PartialEq, Eq, Structural)]
pub struct Config {
    /// The target surface description.
    pub surface_configuration: SurfaceConfiguration,
    /// The depth-sorting strategy.
    pub depth_sorting: DepthSorting,
    /// Whether footprint scale comes from a covariance estimate.
    pub use_covariance_for_scale: bool,
    /// Whether footprints may be unaligned rectangles.
    pub use_unaligned_rectangles: bool,
    /// Order of the spherical-harmonic color representation.
    pub spherical_harmonics_order: u32,
    /// Largest splat count the device buffers are sized for.
    pub max_splat_count: u32,
    /// Digit width of the device radix sort, in bits.
    pub radix_bits_per_digit: u32,
    /// Frustum tolerance on |x| and |y| in clip space (float bits).
    pub frustum_culling_tolerance: u32,
    /// Margin added around each elliptical footprint (float bits).
    pub ellipse_margin: u32,
    /// Global scale applied to every splat footprint (float bits).
    pub splat_scale: u32,
}

/// Bytes of one sorting-buffer entry: a key word and an index word.
pub const SORT_ENTRY_BYTES: u64 = 8;

/// Trailing words reserved in the sorting buffer for the indirect-draw
/// argument block.
pub const INDIRECT_ARG_WORDS: u64 = 5;

impl Config {
    /// A configuration is well formed when its radix digit width is between
    /// one and eight bits.
    pub open spec fn wf(&self) -> bool {
        1 <= self.radix_bits_per_digit <= 8
    }

    /// The number of digit values of the radix sort: `2 ^ bits_per_digit`.
    pub fn radix_base(&self) -> (r: u32)
        requires
            self.wf(),
        ensures
            r == pow2(self.radix_bits_per_digit as nat),
            2 <= r <= 0x100,
    {
        let mut base: u32 = 1;
        let mut k: u32 = 0;
        proof {
            assert(pow2(0) == 1) by {
                vstd::arithmetic::power2::lemma2_to64();
            };
        }
        while k < self.radix_bits_per_digit
            invariant
                k <= self.radix_bits_per_digit,
                self.wf(),
                base == pow2(k as nat),
                base <= 0x100,
            decreases self.radix_bits_per_digit - k,
        {
            proof {
                vstd::arithmetic::power2::lemma_pow2_adds(k as nat, 1);
                vstd::arithmetic::power2::lemma2_to64();
                assert(pow2((k + 1) as nat) == pow2(k as nat) * 2);
                vstd::arithmetic::power2::lemma_pow2_strictly_increases(
                    (k + 1) as nat,
                    9,
                );
            }
            base = base * 2;
            k = k + 1;
        }
        proof {
            vstd::arithmetic::power2::lemma_pow2_strictly_increases(0, self.radix_bits_per_digit as nat);
            vstd::arithmetic::power2::lemma2_to64();
        }
        base
    }

    /// The number of digit places the radix sort needs to cover a 32-bit
    /// key: `ceil(32 / bits_per_digit)`.
    pub fn radix_digit_places(&self) -> (r: u32)
        requires
            self.wf(),
        ensures
            r as int == (32 + self.radix_bits_per_digit as int - 1) / (
            self.radix_bits_per_digit as int),
            4 <= r <= 32,
    {
        let b = self.radix_bits_per_digit;
        let r = (32 + b - 1) / b;
        proof {
            let bi = b as int;
            let q = (32 + bi - 1) / bi;
            vstd::arithmetic::div_mod::lemma_fundamental_div_mod(32 + bi - 1, bi);
            vstd::arithmetic::div_mod::lemma_mod_bound(32 + bi - 1, bi);
            assert(bi * q >= 32);
            assert(bi * q <= 32 + bi - 1);
            assert(q >= 4) by (nonlinear_arith)
                requires
                    bi * q >= 32,
                    1 <= bi <= 8,
            ;
            assert(q <= 32) by (nonlinear_arith)
                requires
                    bi * q <= 32 + bi - 1,
                    1 <= bi <= 8,
            ;
        }
        r
    }

    /// Bytes of the sorting buffer: one (key, index) entry per splat up to
    /// the maximum, plus the trailing indirect-draw argument words.
    pub fn sorting_buffer_bytes(&self) -> (r: u64)
        ensures
            r == self.max_splat_count * SORT_ENTRY_BYTES + INDIRECT_ARG_WORDS * 4,
    {
        (self.max_splat_count as u64) * SORT_ENTRY_BYTES + INDIRECT_ARG_WORDS * 4
    }
}

impl Default for Config {
    /// The configuration the renderer starts from: host sorting, a
    /// one-bit radix digit, a 10 000-splat budget, and the documented
    /// default thresholds (tolerance 0.1, margin 0.01, scale 1.0, as float
    /// bits).
    fn default() -> (r: Config)
        ensures
            r.surface_configuration == (SurfaceConfiguration {
                format: SurfaceFormat::Bgra8UnormSrgb,
                width: 800,
                height: 600,
                present_mode: PresentMode::Immediate,
            }),
            r.depth_sorting == DepthSorting::Cpu,
            !r.use_covariance_for_scale,
            !r.use_unaligned_rectangles,
            r.spherical_harmonics_order == 0,
            r.max_splat_count == 10000,
            r.radix_bits_per_digit == 1,
            r.frustum_culling_tolerance == 0x3DCC_CCCD,
            r.ellipse_margin == 0x3C23_D70A,
            r.splat_scale == F32_ONE_BITS,
            r.wf(),
    {
        Config {
            surface_configuration: SurfaceConfiguration {
                format: SurfaceFormat::Bgra8UnormSrgb,
                width: 800,
                height: 600,
                present_mode: PresentMode::Immediate,
            },
            depth_sorting: DepthSorting::Cpu,
            use_covariance_for_scale: false,
            use_unaligned_rectangles: false,
            spherical_harmonics_order: 0,
            max_splat_count: 10000,
            radix_bits_per_digit: 1,
            frustum_culling_tolerance: 0x3DCC_CCCD,
            ellipse_margin: 0x3C23_D70A,
            splat_scale: F32_ONE_BITS,
        }
    }
}

} // verus!
