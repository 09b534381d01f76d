//! The camera and the scene that owns the splat collection.
//!
//! The scene's one invariant is that `splat_count` always equals the length
//! of `splat_data`; every load replaces the collection wholesale or, on
//! error, leaves it untouched.

use vstd::prelude::*;
use crate::FileReading;
use crate::fmath::{look_at_rh_bits, mat4_mul_vec4, mat4_mul_vec4_of, perspective_rh_gl_bits};
use crate::floatbits::F32_ONE_BITS;
use crate::splat::Splat;
use crate::rawload;

verus! {

/// Projection and view matrices (column-major bit patterns) with the near
/// and far plane distances.
#[derive(Clone, Copy, Debug, PartialEq)]
pub struct Camera {
    /// Column-major projection matrix.
    pub projection: [u32; 16],
    /// Column-major view matrix.
    pub view: [u32; 16],
    /// Near plane distance.
    pub z_near: u32,
    /// Far plane distance.
    pub z_far: u32,
}

/// The clip-space position of a world point: the world position extended by
/// a homogeneous 1, taken through the view and then the projection matrix,
/// truncated to its first three components.
pub open spec fn spec_clip_space_position(proj: Seq<u32>, view: Seq<u32>, pos: Seq<u32>) -> Seq<
    u32,
> {
    mat4_mul_vec4_of(proj, mat4_mul_vec4_of(view, pos.push(F32_ONE_BITS))).take(3)
}

impl Camera {
    /// Projects a world-space position to clip space:
    /// `truncate(projection * view * [pos, 1])`.
    pub fn get_clip_space_position(&self, position: &[u32; 3]) -> (r: [u32; 3])
        ensures
            r@ =~= spec_clip_space_position(self.projection@, self.view@, position@),
    {
        let hom: [u32; 4] = [position[0], position[1], position[2], F32_ONE_BITS];
        assert(hom@ =~= position@.push(F32_ONE_BITS));
        let viewed = mat4_mul_vec4(&self.view, &hom);
        let clip = mat4_mul_vec4(&self.projection, &viewed);
        let r: [u32; 3] = [clip[0], clip[1], clip[2]];
        assert(r@ =~= clip@.take(3));
        r
    }
}

/// Vertical field of view of the default camera: 45 degrees in radians.
pub const DEFAULT_FOV_Y_BITS: u32 = 0x3F49_0FDB;

/// Aspect ratio of the default camera: 16:9.
pub const DEFAULT_ASPECT_BITS: u32 = 0x3FE3_8E39;

/// Near plane of the default camera: 0.1.
pub const DEFAULT_Z_NEAR_BITS: u32 = 0x3DCC_CCCD;

/// Far plane of the default camera: 100.0.
pub const DEFAULT_Z_FAR_BITS: u32 = 0x42C8_0000;

/// Eye height of the default camera on the z axis: 5.0.
pub const DEFAULT_EYE_Z_BITS: u32 = 0x40A0_0000;

/// The splat collection with its camera.
#[derive(Debug, PartialEq)]
pub struct Scene {
    /// Number of splats; always the length of `splat_data`.
    pub splat_count: usize,
    /// The authoritative splat records, in file order. Device-side sort
    /// buffers may permute copies, never this array.
    pub splat_data: Vec<Splat>,
    /// The active camera.
    pub camera: Camera,
}

impl Scene {
    /// The scene's invariant: the cached count equals the collection's
    /// length.
    pub open spec fn wf(&self) -> bool {
        self.splat_count == self.splat_data@.len()
    }

    /// An empty scene with the default camera: a 45-degree, 16:9
    /// perspective projection between the 0.1 and 100 planes, viewed from
    /// (0, 0, 5) toward the origin with +Y up. The near and far planes
    /// are fixed bit constants and stated below; the two matrices come
    /// from the math crate, whose perspective entries pass through the
    /// platform's tangent, so their bits are deliberately left unstated.
    pub fn new() -> (r: Scene)
        ensures
            r.wf(),
            r.splat_count == 0,
            r.splat_data@ =~= Seq::<Splat>::empty(),
            r.camera.z_near == DEFAULT_Z_NEAR_BITS,
            r.camera.z_far == DEFAULT_Z_FAR_BITS,
    {
        Scene {
            splat_count: 0,
            splat_data: Vec::new(),
            camera: Camera {
                projection: perspective_rh_gl_bits(
                    DEFAULT_FOV_Y_BITS,
                    DEFAULT_ASPECT_BITS,
                    DEFAULT_Z_NEAR_BITS,
                    DEFAULT_Z_FAR_BITS,
                ),
                view: look_at_rh_bits(
                    &[0, 0, DEFAULT_EYE_Z_BITS],
                    &[0, 0, 0],
                    &[0, F32_ONE_BITS, 0],
                ),
                z_near: DEFAULT_Z_NEAR_BITS,
                z_far: DEFAULT_Z_FAR_BITS,
            },
        }
    }

    /// Decodes the ten-byte file header of the chunked splat format: a
    /// little-endian `u16` header size followed by a little-endian `u64`
    /// splat count. Returns `None` when fewer than ten bytes are given.
    pub fn parse_file_header(data: &Vec<u8>) -> (r: Option<(u16, u64)>)
        ensures
            match r {
                None => data@.len() < 10,
                Some((hs, count)) => {
                    &&& data@.len() >= 10
                    &&& hs == data@[0] + data@[1] * 0x100
                    &&& count == rawload::le64(data@, 2)
                },
            },
    {
        rawload::parse_file_header(data)
    }

    /// Loads a raw binary splat file given as bytes, replacing the
    /// collection wholesale. On any error the scene is left exactly as it
    /// was; the only error is a length that is not a multiple of the record
    /// stride.
    pub fn load_splat_file(&mut self, data: &Vec<u8>) -> (r: Result<(), FileReading>)
        requires
            old(self).wf(),
        ensures
            final(self).wf(),
            match r {
                Err(e) => {
                    &&& e == FileReading::InvalidSplatSize
                    &&& data@.len() as int % (rawload::SPLAT_STRIDE as int) != 0
                    &&& *final(self) == *old(self)
                },
                Ok(()) => {
                    &&& data@.len() as int % (rawload::SPLAT_STRIDE as int) == 0
                    &&& final(self).splat_count == data@.len() as int / (
                    rawload::SPLAT_STRIDE as int)
                    &&& final(self).splat_data@.len() == final(self).splat_count
                    &&& forall|i: int|
                        0 <= i < final(self).splat_data@.len()
                            ==> rawload::splat_matches_record(
                            #[trigger] final(self).splat_data@[i],
                            data@,
                            i,
                        )
                    &&& final(self).camera == old(self).camera
                },
            },
    {
        match rawload::decode_splats(data) {
            Ok(v) => {
                self.splat_count = v.len();
                self.splat_data = v;
                Ok(())
            },
            Err(e) => Err(e),
        }
    }

    /// Loads a point-cloud (PLY) file given as bytes, replacing the
    /// collection wholesale: on parser-safe bytes the load succeeds
    /// exactly when the named parse finds a vertex element, and then
    /// holds one splat per parsed vertex, in file order, built by the
    /// loader's defaulting and normalization rules. On any error — an
    /// unparsable document, one without a vertex element, or bytes the
    /// parser is not total on — the scene is left exactly as it was.
    pub fn load_splats_from_ply(&mut self, data: &Vec<u8>) -> (r: Result<(), FileReading>)
        requires
            old(self).wf(),
        ensures
            final(self).wf(),
            (r matches Err(e) ==> (e == FileReading::MalformedFile || e
                == FileReading::MissingVertexElement) && *final(self) == *old(self)),
            !crate::plyload::spec_parse_safe(data@) ==> (r matches Err(e) && e
                == FileReading::MalformedFile),
            crate::plyload::spec_parse_safe(data@) ==> {
                &&& (r is Ok) == (crate::plyload::ply_elements_of(data@, "vertex"@) is Ok)
                &&& (r matches Err(e) ==> e == crate::plyload::ply_elements_of(
                    data@,
                    "vertex"@,
                )->Err_0)
                &&& (r is Ok ==> {
                    &&& final(self).splat_count == final(self).splat_data@.len()
                    &&& final(self).splat_data@.len() == crate::plyload::ply_elements_of(
                        data@,
                        "vertex"@,
                    )->Ok_0.len()
                    &&& forall|i: int|
                        0 <= i < final(self).splat_data@.len()
                            ==> crate::plyload::splat_from_vertex_matches(
                            #[trigger] final(self).splat_data@[i],
                            crate::plyload::spec_read_vertex(
                                crate::plyload::ply_elements_of(data@, "vertex"@)->Ok_0[i],
                            ),
                        )
                    &&& final(self).camera == old(self).camera
                })
            },
    {
        match crate::plyload::splats_from_ply(data) {
            Ok(v) => {
                self.splat_count = v.len();
                self.splat_data = v;
                Ok(())
            },
            Err(e) => Err(e),
        }
    }
}

} // verus!
