//! Trusted access to 32-bit float arithmetic.
//!
//! The library carries floats as bit patterns, so the handful of operations
//! that need real float arithmetic — the camera's matrix product and the
//! numeric conversions of the point-cloud loader — are delegated to the
//! `glam` vector-math crate through the wrappers below. Each result is a
//! pure function of the arguments (IEEE-754 arithmetic, identical on every
//! machine), so it is given an uninterpreted name that the callers'
//! contracts speak of exactly.

use vstd::prelude::*;

verus! {

/// The product of a column-major 4x4 float matrix (16 bit patterns) and a
/// 4-vector of bit patterns, as computed by `glam::Mat4::mul_vec4`.
pub uninterp spec fn mat4_mul_vec4_of(m: Seq<u32>, v: Seq<u32>) -> Seq<u32>;

/// The nearest 32-bit float to the signed integer, as bits.
pub uninterp spec fn i32_to_f32_of(i: i32) -> u32;

/// The nearest 32-bit float to the unsigned integer, as bits.
pub uninterp spec fn u32_to_f32_of(u: u32) -> u32;

/// The 64-bit float (given as bits) rounded to a 32-bit float, as bits.
pub uninterp spec fn f64_to_f32_of(b: u64) -> u32;

/// The correctly rounded IEEE-754 quotient of the two 32-bit floats given
/// as bits, as bits.
pub uninterp spec fn f32_div_of(a: u32, b: u32) -> u32;

/// Relies on `glam::Mat4::mul_vec4` (with `Mat4::from_cols_array` and
/// `Vec4::from_array`): the column-major matrix-vector product, a fixed
/// sequence of IEEE-754 multiplications and additions of the inputs alone.
#[verifier::external_body]
pub fn mat4_mul_vec4(m: &[u32; 16], v: &[u32; 4]) -> (r: [u32; 4])
    ensures
        r@ == mat4_mul_vec4_of(m@, v@),
{
    let mat = glam::Mat4::from_cols_array(bytemuck::cast_ref(m));
    let vec = glam::Vec4::from_array(*bytemuck::cast_ref(v));
    *bytemuck::cast_ref(&mat.mul_vec4(vec).to_array())
}

/// Relies on `glam::IVec3::as_vec3`: each lane is the integer converted to
/// the nearest 32-bit float.
#[verifier::external_body]
pub fn i32_to_f32_bits(i: i32) -> (r: u32)
    ensures
        r == i32_to_f32_of(i),
{
    glam::IVec3::splat(i).as_vec3().x.to_bits()
}

/// Relies on `glam::UVec3::as_vec3`: each lane is the integer converted to
/// the nearest 32-bit float.
#[verifier::external_body]
pub fn u32_to_f32_bits(u: u32) -> (r: u32)
    ensures
        r == u32_to_f32_of(u),
{
    glam::UVec3::splat(u).as_vec3().x.to_bits()
}

/// Relies on `glam::DVec3::as_vec3`: each lane is the 64-bit float rounded
/// to the nearest 32-bit float.
#[verifier::external_body]
pub fn f64_to_f32_bits(b: u64) -> (r: u32)
    ensures
        r == f64_to_f32_of(b),
{
    glam::DVec3::splat(bytemuck::cast(b)).as_vec3().x.to_bits()
}

/// Relies on `glam`'s componentwise `Div` for `Vec3`: the IEEE-754
/// quotient of the two floats (infinite or NaN where IEEE-754 says so,
/// never a panic).
#[verifier::external_body]
pub fn f32_div_bits(a: u32, b: u32) -> (r: u32)
    ensures
        r == f32_div_of(a, b),
{
    (glam::Vec3::splat(bytemuck::cast(a)) / glam::Vec3::splat(bytemuck::cast(b))).x.to_bits()
}

/// Relies on `glam::camera::rh::proj::opengl::perspective`: the OpenGL
/// right-handed perspective projection matrix for a vertical field of
/// view, an aspect ratio and the near and far planes (each a float bit
/// pattern). Its entries pass through the platform's tangent, whose bits
/// are not fixed across machines, so nothing is promised of the result;
/// the crate's debug assertions are compiled out in this build, so the
/// call returns for every input.
#[verifier::external_body]
pub fn perspective_rh_gl_bits(fov_y: u32, aspect: u32, z_near: u32, z_far: u32) -> (r: [u32; 16]) {
    let m = glam::camera::rh::proj::opengl::perspective(
        bytemuck::cast(fov_y),
        bytemuck::cast(aspect),
        bytemuck::cast(z_near),
        bytemuck::cast(z_far),
    );
    *bytemuck::cast_ref(&m.to_cols_array())
}

/// Relies on `glam::camera::rh::view::look_at_mat4`: the right-handed
/// view matrix for an eye position, a look-at target and an up direction
/// (each three float bit patterns). Nothing is promised of the bits; the
/// crate's debug assertions are compiled out in this build, so the call
/// returns for every input.
#[verifier::external_body]
pub fn look_at_rh_bits(eye: &[u32; 3], center: &[u32; 3], up: &[u32; 3]) -> (r: [u32; 16]) {
    let m = glam::camera::rh::view::look_at_mat4(
        glam::Vec3::from_array(*bytemuck::cast_ref(eye)),
        glam::Vec3::from_array(*bytemuck::cast_ref(center)),
        glam::Vec3::from_array(*bytemuck::cast_ref(up)),
    );
    *bytemuck::cast_ref(&m.to_cols_array())
}

} // verus!
