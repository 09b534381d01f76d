//! Loader for the point-cloud (PLY) interchange format.
//!
//! The format is parsed by the `ply_rs` crate; what that parser returns is
//! opaque here, so the loader's own logic — which property subtypes are
//! accepted, how 8-bit colors are normalized, and which defaults fill a
//! missing property — lives in verified functions over the library's own
//! vertex model, and small trusted wrappers only carry values across the
//! crate boundary.
//!
//! Per vertex: `x`, `y`, `z` default to 0.0 when absent or of an
//! unexpected subtype; `red`, `green`, `blue`, `alpha` each default to
//! opaque white (1.0), integer subtypes are normalized to [0, 1] by
//! dividing by 255, and floating subtypes are taken directly. The fields
//! the format does not carry get fixed defaults: scale `[0.05, 0.05]`,
//! normal `[0, 1, 0]`, ellipse basis `[1, 0, 0]`, an identity model
//! matrix, and a zero depth that the next frame recomputes anyway.

use vstd::prelude::*;
use crate::FileReading;
use crate::floatbits::{F32_255_BITS, F32_ONE_BITS};
use crate::fmath::{
    f32_div_bits, f32_div_of, f64_to_f32_bits, f64_to_f32_of, i32_to_f32_bits, i32_to_f32_of,
    u32_to_f32_bits, u32_to_f32_of,
};
use crate::splat::{identity_matrix, spec_identity_matrix, Splat};

verus! {

/// The bit pattern of `0.05f32`, the default footprint extent.
pub const F32_SCALE_DEFAULT_BITS: u32 = 0x3D4C_CCCD;

/// One scalar property value of a parsed vertex, as plain data: integers
/// as themselves, floats as their bit patterns, and any list property
/// collapsed to a marker since no vertex field here reads lists.
#[derive(Clone, Copy, Debug, PartialEq, Eq, Structural)]
pub enum PlyValue {
    /// Signed 8-bit integer.
    Char(i8),
    /// Unsigned 8-bit integer.
    UChar(u8),
    /// Signed 16-bit integer.
    Short(i16),
    /// Unsigned 16-bit integer.
    UShort(u16),
    /// Signed 32-bit integer.
    Int(i32),
    /// Unsigned 32-bit integer.
    UInt(u32),
    /// 32-bit float, as bits.
    Float(u32),
    /// 64-bit float, as bits.
    Double(u64),
    /// Any list-typed property.
    List,
}

/// The properties one splat is read from: each either absent or one
/// scalar value.
#[derive(Clone, Copy, Debug, PartialEq, Eq, Structural)]
pub struct PlyVertex {
    /// Position x.
    pub x: Option<PlyValue>,
    /// Position y.
    pub y: Option<PlyValue>,
    /// Position z.
    pub z: Option<PlyValue>,
    /// Color red.
    pub red: Option<PlyValue>,
    /// Color green.
    pub green: Option<PlyValue>,
    /// Color blue.
    pub blue: Option<PlyValue>,
    /// Opacity.
    pub alpha: Option<PlyValue>,
}

/// A position coordinate: floats converted to 32-bit, 32-bit integers
/// converted to float, anything else — absent, 8- or 16-bit, or a list —
/// the 0.0 default.
pub open spec fn spec_position_value(p: Option<PlyValue>) -> u32 {
    match p {
        Some(PlyValue::Float(b)) => b,
        Some(PlyValue::Double(b)) => f64_to_f32_of(b),
        Some(PlyValue::Int(i)) => i32_to_f32_of(i),
        Some(PlyValue::UInt(u)) => u32_to_f32_of(u),
        _ => 0u32,
    }
}

/// A color channel: integer subtypes normalized to [0, 1] by division by
/// 255, floating subtypes taken directly, anything else the opaque-white
/// default 1.0.
pub open spec fn spec_color_value(p: Option<PlyValue>) -> u32 {
    match p {
        Some(PlyValue::UChar(u)) => f32_div_of(u32_to_f32_of(u as u32), F32_255_BITS),
        Some(PlyValue::Char(c)) => f32_div_of(i32_to_f32_of(c as i32), F32_255_BITS),
        Some(PlyValue::Int(i)) => f32_div_of(i32_to_f32_of(i), F32_255_BITS),
        Some(PlyValue::UInt(u)) => f32_div_of(u32_to_f32_of(u), F32_255_BITS),
        Some(PlyValue::Float(b)) => b,
        Some(PlyValue::Double(b)) => f64_to_f32_of(b),
        _ => F32_ONE_BITS,
    }
}

/// Whether `sp` is exactly the splat a vertex's properties describe:
/// positions and colors as the two rules above say, and the fixed defaults
/// for everything the format does not carry.
pub open spec fn splat_from_vertex_matches(sp: Splat, v: PlyVertex) -> bool {
    &&& sp.center@ =~= seq![
        spec_position_value(v.x),
        spec_position_value(v.y),
        spec_position_value(v.z),
    ]
    &&& sp.color@ =~= seq![
        spec_color_value(v.red),
        spec_color_value(v.green),
        spec_color_value(v.blue),
        spec_color_value(v.alpha),
    ]
    &&& sp.depth == 0u32
    &&& sp.scale@ =~= seq![F32_SCALE_DEFAULT_BITS, F32_SCALE_DEFAULT_BITS]
    &&& sp.normal@ =~= seq![0u32, F32_ONE_BITS, 0u32]
    &&& sp.ellipse_basis@ =~= seq![F32_ONE_BITS, 0u32, 0u32]
    &&& sp.model_matrix@ =~= spec_identity_matrix()
}

/// Computes a position coordinate from a property.
pub fn position_value(p: &Option<PlyValue>) -> (r: u32)
    ensures
        r == spec_position_value(*p),
{
    match p {
        Some(PlyValue::Float(b)) => *b,
        Some(PlyValue::Double(b)) => f64_to_f32_bits(*b),
        Some(PlyValue::Int(i)) => i32_to_f32_bits(*i),
        Some(PlyValue::UInt(u)) => u32_to_f32_bits(*u),
        _ => 0,
    }
}

/// Computes a color channel from a property.
pub fn color_value(p: &Option<PlyValue>) -> (r: u32)
    ensures
        r == spec_color_value(*p),
{
    match p {
        Some(PlyValue::UChar(u)) => f32_div_bits(u32_to_f32_bits(*u as u32), F32_255_BITS),
        Some(PlyValue::Char(c)) => f32_div_bits(i32_to_f32_bits(*c as i32), F32_255_BITS),
        Some(PlyValue::Int(i)) => f32_div_bits(i32_to_f32_bits(*i), F32_255_BITS),
        Some(PlyValue::UInt(u)) => f32_div_bits(u32_to_f32_bits(*u), F32_255_BITS),
        Some(PlyValue::Float(b)) => *b,
        Some(PlyValue::Double(b)) => f64_to_f32_bits(*b),
        _ => F32_ONE_BITS,
    }
}

/// Builds the splat a vertex describes.
pub fn vertex_to_splat(v: &PlyVertex) -> (sp: Splat)
    ensures
        splat_from_vertex_matches(sp, *v),
{
    let sp = Splat {
        model_matrix: identity_matrix(),
        center: [position_value(&v.x), position_value(&v.y), position_value(&v.z)],
        color: [
            color_value(&v.red),
            color_value(&v.green),
            color_value(&v.blue),
            color_value(&v.alpha),
        ],
        depth: 0,
        scale: [F32_SCALE_DEFAULT_BITS, F32_SCALE_DEFAULT_BITS],
        normal: [0, F32_ONE_BITS, 0],
        ellipse_basis: [F32_ONE_BITS, 0, 0],
    };
    assert(sp.center@ =~= seq![
        spec_position_value(v.x),
        spec_position_value(v.y),
        spec_position_value(v.z),
    ]);
    assert(sp.color@ =~= seq![
        spec_color_value(v.red),
        spec_color_value(v.green),
        spec_color_value(v.blue),
        spec_color_value(v.alpha),
    ]);
    assert(sp.scale@ =~= seq![F32_SCALE_DEFAULT_BITS, F32_SCALE_DEFAULT_BITS]);
    assert(sp.normal@ =~= seq![0u32, F32_ONE_BITS, 0u32]);
    assert(sp.ellipse_basis@ =~= seq![F32_ONE_BITS, 0u32, 0u32]);
    sp
}

#[verifier::external_type_specification]
#[verifier::external_body]
#[verifier::reject_recursive_types(K)]
#[verifier::reject_recursive_types(V)]
#[verifier::reject_recursive_types(S)]
pub struct ExLinkedHashMap<K, V, S>(linked_hash_map::LinkedHashMap<K, V, S>);

#[verifier::external_type_specification]
#[verifier::external_body]
pub struct ExProperty(ply_rs::ply::Property);

/// The ten bytes `end_header` standing at a line start: at the start of
/// the data or right after a line-break byte. Only there does the parser
/// treat them as the header terminator; the same bytes inside a comment,
/// an `obj_info` line or an identifier do not end the header.
pub open spec fn spec_end_header_at(s: Seq<u8>, j: int) -> bool {
    &&& j + 10 <= s.len()
    &&& (j == 0 || s[j - 1] == 10u8 || s[j - 1] == 13u8)
    &&& s[j] == 101u8
    &&& s[j + 1] == 110u8
    &&& s[j + 2] == 100u8
    &&& s[j + 3] == 95u8
    &&& s[j + 4] == 104u8
    &&& s[j + 5] == 101u8
    &&& s[j + 6] == 97u8
    &&& s[j + 7] == 100u8
    &&& s[j + 8] == 101u8
    &&& s[j + 9] == 114u8
}

/// An ASCII digit byte.
pub open spec fn spec_is_digit(b: u8) -> bool {
    48 <= b <= 57
}

/// Twenty consecutive digit bytes starting at `q`.
pub open spec fn spec_digit_run20(s: Seq<u8>, q: int) -> bool {
    &&& 0 <= q
    &&& q + 20 <= s.len()
    &&& forall|k: int| q <= k < q + 20 ==> spec_is_digit(#[trigger] s[k])
}

/// What keeps the parser total on these bytes: every run of twenty or
/// more digit bytes starts after an `end_header` line start. A line
/// beginning with those bytes either ends the header — later bytes are
/// payload, read without any unchecked conversion — or fails the line
/// grammar, which aborts the parse before any later line; either way no
/// header integer literal long enough to overflow the parser's unchecked
/// conversion is ever parsed.
pub open spec fn spec_parse_safe(s: Seq<u8>) -> bool {
    forall|q: int|
        #[trigger] spec_digit_run20(s, q) ==> exists|j: int| 0 <= j && j + 10 <= q
            && spec_end_header_at(s, j)
}

/// Finds where the first line-start `end_header` marker ends, if there
/// is one.
fn find_end_header(data: &Vec<u8>) -> (r: Option<usize>)
    ensures
        match r {
            Some(m) => {
                &&& 10 <= m <= data@.len()
                &&& spec_end_header_at(data@, m - 10)
                &&& forall|j: int| 0 <= j < m - 10 ==> !spec_end_header_at(data@, j)
            },
            None => forall|j: int| 0 <= j ==> !spec_end_header_at(data@, j),
        },
{
    if data.len() < 10 {
        return None;
    }
    let n = data.len();
    let mut j: usize = 0;
    while j <= n - 10
        invariant
            n >= 10,
            j <= n - 9,
            n == data@.len(),
            forall|w: int| 0 <= w < j ==> !spec_end_header_at(data@, w),
        decreases n - j,
    {
        let anchored = j == 0 || data[j - 1] == 10 || data[j - 1] == 13;
        if anchored && data[j] == 101 && data[j + 1] == 110 && data[j + 2] == 100
            && data[j + 3] == 95 && data[j + 4] == 104 && data[j + 5] == 101 && data[j + 6] == 97
            && data[j + 7] == 100 && data[j + 8] == 101 && data[j + 9] == 114 {
            return Some(j + 10);
        }
        j += 1;
    }
    assert forall|w: int| 0 <= w implies !spec_end_header_at(data@, w) by {
        if w + 10 <= data@.len() {
            assert(w < j);
        }
    }
    None
}

/// Decides whether the bytes are safe to hand to the parser: no run of
/// twenty digits before the first line-start `end_header` marker.
fn parse_safe(data: &Vec<u8>) -> (r: bool)
    ensures
        r == spec_parse_safe(data@),
{
    let marker = find_end_header(data);
    let n = data.len();
    let mut run: usize = 0;
    let mut i: usize = 0;
    while i < n
        invariant
            i <= n,
            n == data@.len(),
            run <= i,
            forall|k: int| i - run <= k < i ==> spec_is_digit(#[trigger] data@[k]),
            run == i || !spec_is_digit(data@[i - run - 1]),
            match marker {
                Some(m) => {
                    &&& 10 <= m <= data@.len()
                    &&& spec_end_header_at(data@, m - 10)
                    &&& forall|j: int| 0 <= j < m - 10 ==> !spec_end_header_at(data@, j)
                },
                None => forall|j: int| 0 <= j ==> !spec_end_header_at(data@, j),
            },
            forall|q: int|
                #[trigger] spec_digit_run20(data@, q) && q + 20 <= i ==> match marker {
                    Some(m) => m <= q + 19,
                    None => false,
                },
        decreases n - i,
    {
        if data[i] >= 48 && data[i] <= 57 {
            run = run + 1;
            if run >= 20 {
                let q = i + 1 - 20;
                assert(spec_digit_run20(data@, q as int));
                match marker {
                    None => {
                        assert(!spec_parse_safe(data@));
                        return false;
                    },
                    Some(m) => {
                        if m > q + 19 {
                            proof {
                                assert forall|j: int| !(0 <= j && j + 10 <= q as int
                                    && spec_end_header_at(data@, j)) by {
                                    if 0 <= j && j + 10 <= q as int && spec_end_header_at(
                                        data@,
                                        j,
                                    ) {
                                        assert(j < m - 10);
                                    }
                                }
                                assert(!spec_parse_safe(data@));
                            }
                            return false;
                        }
                    },
                }
            }
            proof {
                assert forall|q: int|
                    #[trigger] spec_digit_run20(data@, q) && q + 20 <= i + 1 implies match marker {
                    Some(m) => m <= q + 19,
                    None => false,
                } by {
                    if q + 20 == i + 1 {
                        // This run ends exactly here, so the counter has
                        // covered all of it.
                        assert(spec_is_digit(data@[q]));
                        if q < i + 1 - run {
                            assert(i - run >= q && i - run < q + 20);
                            assert(spec_is_digit(data@[i - run]));
                            assert(!spec_is_digit(data@[i + 1 - run - 1]));
                            assert(false);
                        }
                        assert(run >= 20);
                    }
                }
            }
        } else {
            run = 0;
        }
        i += 1;
    }
    proof {
        assert forall|q: int| #[trigger] spec_digit_run20(data@, q) implies exists|j: int|
            0 <= j && j + 10 <= q && spec_end_header_at(data@, j) by {
            assert(q + 20 <= n);
            let m = marker->Some_0 as int;
            assert(m <= q + 19);
            // The marker's bytes are letters, a digit run holds digits, so
            // the marker cannot reach into the run: it ends at or before
            // the run's start.
            assert(m <= q) by {
                if m > q {
                    let p = if m - 10 >= q { m - 10 } else { q };
                    assert(q <= p < q + 20);
                    assert(spec_is_digit(data@[p]));
                    assert(m - 10 <= p < m);
                    assert(false);
                }
            };
            assert(spec_end_header_at(data@, m - 10));
            assert(0 <= m - 10 && (m - 10) + 10 <= q);
        }
    }
    true
}

/// What the parser yields for these bytes: the element list stored under
/// the given name, or the error marker — the malformed marker when the
/// document does not parse, the missing-element marker when it has no
/// list of that name. The parse is a pure function of the bytes, so its
/// outcome carries this name; the elements themselves stay opaque.
pub uninterp spec fn ply_elements_of(data: Seq<u8>, name: Seq<char>) -> Result<
    Seq<ply_rs::ply::DefaultElement>,
    FileReading,
>;

/// The property stored in one parsed element under the given name, as it
/// enters the library's value model: each scalar variant carried one for
/// one (floats as bits), any list variant collapsed to the list marker,
/// an absent property `None`.
pub uninterp spec fn ply_property_of(e: ply_rs::ply::DefaultElement, name: Seq<char>) -> Option<
    PlyValue,
>;

/// The vertex model of one parsed element: its seven splat-relevant
/// properties.
pub open spec fn spec_read_vertex(e: ply_rs::ply::DefaultElement) -> PlyVertex {
    PlyVertex {
        x: ply_property_of(e, "x"@),
        y: ply_property_of(e, "y"@),
        z: ply_property_of(e, "z"@),
        red: ply_property_of(e, "red"@),
        green: ply_property_of(e, "green"@),
        blue: ply_property_of(e, "blue"@),
        alpha: ply_property_of(e, "alpha"@),
    }
}

/// Relies on `ply_rs::parser::Parser::read_ply` and the payload lookup of
/// the parsed document (the document type itself cannot cross this
/// boundary): parses a whole PLY document from the bytes and hands back
/// the element list stored under the given name, mirroring the named
/// outcome [`ply_elements_of`]. The parser reads header integer literals
/// with an unchecked conversion that a twenty-digit literal can overflow,
/// so inputs with such a digit run before the header terminator are
/// excluded here and rejected by the caller first.
#[verifier::external_body]
fn parse_elements(data: &Vec<u8>, name: &str) -> (r: Result<
    Vec<ply_rs::ply::DefaultElement>,
    FileReading,
>)
    requires
        spec_parse_safe(data@),
    ensures
        (r is Ok) == (ply_elements_of(data@, name@) is Ok),
        (r matches Ok(v) ==> v@ == ply_elements_of(data@, name@)->Ok_0),
        (r matches Err(e) ==> e == ply_elements_of(data@, name@)->Err_0 && (e
            == FileReading::MalformedFile || e == FileReading::MissingVertexElement)),
{
    let mut source: &[u8] = data.as_slice();
    match ply_rs::parser::Parser::<ply_rs::ply::DefaultElement>::new().read_ply(&mut source) {
        Err(_) => Err(FileReading::MalformedFile),
        Ok(ply) => match ply.payload.get(name) {
            None => Err(FileReading::MissingVertexElement),
            Some(v) => Ok(v.clone()),
        },
    }
}

/// Relies on `LinkedHashMap::get` on one element: the property stored
/// under the given name, each scalar variant carried over one for one
/// (floats as bits) and any list variant collapsed to the list marker —
/// the named lookup [`ply_property_of`].
#[verifier::external_body]
fn vertex_property(e: &ply_rs::ply::DefaultElement, name: &str) -> (r: Option<PlyValue>)
    ensures
        r == ply_property_of(*e, name@),
{
    e.get(name).map(|p| match p {
        ply_rs::ply::Property::Char(v) => PlyValue::Char(*v),
        ply_rs::ply::Property::UChar(v) => PlyValue::UChar(*v),
        ply_rs::ply::Property::Short(v) => PlyValue::Short(*v),
        ply_rs::ply::Property::UShort(v) => PlyValue::UShort(*v),
        ply_rs::ply::Property::Int(v) => PlyValue::Int(*v),
        ply_rs::ply::Property::UInt(v) => PlyValue::UInt(*v),
        ply_rs::ply::Property::Float(v) => PlyValue::Float(v.to_bits()),
        ply_rs::ply::Property::Double(v) => PlyValue::Double(v.to_bits()),
        _ => PlyValue::List,
    })
}

/// Reads the seven properties a splat is built from out of one parsed
/// vertex element.
fn read_vertex(e: &ply_rs::ply::DefaultElement) -> (v: PlyVertex)
    ensures
        v == spec_read_vertex(*e),
{
    PlyVertex {
        x: vertex_property(e, "x"),
        y: vertex_property(e, "y"),
        z: vertex_property(e, "z"),
        red: vertex_property(e, "red"),
        green: vertex_property(e, "green"),
        blue: vertex_property(e, "blue"),
        alpha: vertex_property(e, "alpha"),
    }
}

/// Converts a list of vertex models into splats, one for one, by the
/// documented defaulting and normalization rules.
pub fn vertices_to_splats(vs: &Vec<PlyVertex>) -> (r: Vec<Splat>)
    ensures
        r@.len() == vs@.len(),
        forall|i: int|
            0 <= i < vs@.len() ==> splat_from_vertex_matches(#[trigger] r@[i], vs@[i]),
{
    let mut r: Vec<Splat> = Vec::new();
    let mut i: usize = 0;
    while i < vs.len()
        invariant
            i <= vs@.len(),
            r@.len() == i,
            forall|j: int|
                0 <= j < i ==> splat_from_vertex_matches(#[trigger] r@[j], vs@[j]),
        decreases vs@.len() - i,
    {
        let sp = vertex_to_splat(&vs[i]);
        r.push(sp);
        i += 1;
    }
    r
}

/// Decodes a whole PLY file given as bytes.
///
/// On parser-safe bytes the result mirrors the named parse outcome
/// [`ply_elements_of`]: it succeeds exactly when the parse succeeds — so
/// it fails with the malformed marker on an unparsable document and with
/// the missing-element marker on one without a vertex element — and on
/// success returns one splat per parsed vertex, in file order, each built
/// from that vertex's properties by the documented defaulting and
/// normalization rules. Bytes the parser is not total on (a twenty-digit
/// header literal) are rejected as malformed up front.
pub fn splats_from_ply(data: &Vec<u8>) -> (r: Result<Vec<Splat>, FileReading>)
    ensures
        (r matches Err(e) ==> (e == FileReading::MalformedFile || e
            == FileReading::MissingVertexElement)),
        !spec_parse_safe(data@) ==> (r matches Err(e) && e == FileReading::MalformedFile),
        spec_parse_safe(data@) ==> {
            &&& (r is Ok) == (ply_elements_of(data@, "vertex"@) is Ok)
            &&& (r matches Err(e) ==> e == ply_elements_of(data@, "vertex"@)->Err_0)
            &&& (r matches Ok(v) ==> {
                &&& v@.len() == ply_elements_of(data@, "vertex"@)->Ok_0.len()
                &&& forall|i: int|
                    0 <= i < v@.len() ==> splat_from_vertex_matches(
                        #[trigger] v@[i],
                        spec_read_vertex(ply_elements_of(data@, "vertex"@)->Ok_0[i]),
                    )
            })
        },
{
    if !parse_safe(data) {
        return Err(FileReading::MalformedFile);
    }
    let elems = match parse_elements(data, "vertex") {
        Ok(v) => v,
        Err(e) => {
            return Err(e);
        },
    };
    let ghost els = ply_elements_of(data@, "vertex"@)->Ok_0;
    let mut vertices: Vec<PlyVertex> = Vec::new();
    let mut i: usize = 0;
    while i < elems.len()
        invariant
            elems@ == els,
            i <= elems@.len(),
            vertices@.len() == i,
            forall|j: int|
                0 <= j < i ==> vertices@[j] == spec_read_vertex(#[trigger] elems@[j]),
        decreases elems@.len() - i,
    {
        let v = read_vertex(&elems[i]);
        vertices.push(v);
        i += 1;
    }
    let splats = vertices_to_splats(&vertices);
    Ok(splats)
}

} // verus!
