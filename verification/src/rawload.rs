//! Decoder for the raw splat binary format.
//!
//! The format is a flat sequence of fixed-stride records: 32 little-endian
//! 32-bit words per record (center 3, color 4, depth 1, scale 2, normal 3,
//! ellipse basis 3, model matrix 16), 128 bytes in all. A file whose length
//! is not a multiple of the stride is rejected whole.

use vstd::prelude::*;
use crate::FileReading;
use crate::splat::Splat;

verus! {

/// Bytes per record: 32 words of 4 bytes (center 3, color 4, depth 1,
/// scale 2, normal 3, ellipse basis 3, model matrix 16).
pub const SPLAT_STRIDE: usize = 128;

/// The little-endian 32-bit word at byte offset `off`.
pub open spec fn le32(s: Seq<u8>, off: int) -> u32 {
    (s[off] + s[off + 1] * 0x100 + s[off + 2] * 0x1_0000 + s[off + 3] * 0x100_0000) as u32
}

/// Word `w` of record `i` of the raw format.
pub open spec fn rec_word(s: Seq<u8>, i: int, w: int) -> u32 {
    le32(s, i * (SPLAT_STRIDE as int) + 4 * w)
}

/// Whether `sp` holds, field for field and bit for bit, record `i` of the
/// raw bytes `s`: the words in order are center, color, depth, scale,
/// normal, ellipse basis, then the model matrix.
pub open spec fn splat_matches_record(sp: Splat, s: Seq<u8>, i: int) -> bool {
    &&& sp.center@ =~= Seq::new(3, |k: int| rec_word(s, i, k))
    &&& sp.color@ =~= Seq::new(4, |k: int| rec_word(s, i, 3 + k))
    &&& sp.depth == rec_word(s, i, 7)
    &&& sp.scale@ =~= Seq::new(2, |k: int| rec_word(s, i, 8 + k))
    &&& sp.normal@ =~= Seq::new(3, |k: int| rec_word(s, i, 10 + k))
    &&& sp.ellipse_basis@ =~= Seq::new(3, |k: int| rec_word(s, i, 13 + k))
    &&& sp.model_matrix@ =~= Seq::new(16, |k: int| rec_word(s, i, 16 + k))
}

/// Reads the little-endian word at byte offset `off`.
pub fn read_le32(data: &Vec<u8>, off: usize) -> (r: u32)
    requires
        off + 4 <= data@.len(),
    ensures
        r == le32(data@, off as int),
{
    let n = data.len();
    assert(off + 4 <= n);
    (data[off] as u32) + (data[off + 1] as u32) * 0x100 + (data[off + 2] as u32) * 0x1_0000
        + (data[off + 3] as u32) * 0x100_0000
}

/// Reads word `w` of record `i`.
fn read_word(data: &Vec<u8>, i: usize, w: usize) -> (r: u32)
    requires
        w < 32,
        (i + 1) * (SPLAT_STRIDE as int) <= data@.len() as int,
    ensures
        r == rec_word(data@, i as int, w as int),
{
    let n = data.len();
    assert((i + 1) * (SPLAT_STRIDE as int) <= n as int);
    read_le32(data, i * SPLAT_STRIDE + 4 * w)
}

/// Decodes one record.
fn decode_record(data: &Vec<u8>, i: usize) -> (r: Splat)
    requires
        (i + 1) * (SPLAT_STRIDE as int) <= data@.len() as int,
    ensures
        splat_matches_record(r, data@, i as int),
{
    let center: [u32; 3] = [read_word(data, i, 0), read_word(data, i, 1), read_word(data, i, 2)];
    let color: [u32; 4] = [
        read_word(data, i, 3),
        read_word(data, i, 4),
        read_word(data, i, 5),
        read_word(data, i, 6),
    ];
    let depth = read_word(data, i, 7);
    let scale: [u32; 2] = [read_word(data, i, 8), read_word(data, i, 9)];
    let normal: [u32; 3] = [read_word(data, i, 10), read_word(data, i, 11), read_word(data, i, 12)];
    let ellipse_basis: [u32; 3] = [
        read_word(data, i, 13),
        read_word(data, i, 14),
        read_word(data, i, 15),
    ];
    let model_matrix: [u32; 16] = [
        read_word(data, i, 16),
        read_word(data, i, 17),
        read_word(data, i, 18),
        read_word(data, i, 19),
        read_word(data, i, 20),
        read_word(data, i, 21),
        read_word(data, i, 22),
        read_word(data, i, 23),
        read_word(data, i, 24),
        read_word(data, i, 25),
        read_word(data, i, 26),
        read_word(data, i, 27),
        read_word(data, i, 28),
        read_word(data, i, 29),
        read_word(data, i, 30),
        read_word(data, i, 31),
    ];
    let r = Splat { model_matrix, center, color, depth, scale, normal, ellipse_basis };
    assert(r.center@ =~= Seq::new(3, |k: int| rec_word(data@, i as int, k)));
    assert(r.color@ =~= Seq::new(4, |k: int| rec_word(data@, i as int, 3 + k)));
    assert(r.scale@ =~= Seq::new(2, |k: int| rec_word(data@, i as int, 8 + k)));
    assert(r.normal@ =~= Seq::new(3, |k: int| rec_word(data@, i as int, 10 + k)));
    assert(r.ellipse_basis@ =~= Seq::new(3, |k: int| rec_word(data@, i as int, 13 + k)));
    assert(r.model_matrix@ =~= Seq::new(16, |k: int| rec_word(data@, i as int, 16 + k)));
    r
}

/// Decodes a whole raw splat file.
///
/// Fails with [`FileReading::InvalidSplatSize`], and with nothing else,
/// exactly when the length is not a multiple of the record stride; otherwise
/// returns one splat per stride-sized chunk, each matching its source bytes
/// bit for bit.
pub fn decode_splats(data: &Vec<u8>) -> (r: Result<Vec<Splat>, FileReading>)
    ensures
        match r {
            Err(e) => e == FileReading::InvalidSplatSize && data@.len() as int % (SPLAT_STRIDE as int) != 0,
            Ok(v) => {
                &&& data@.len() as int % (SPLAT_STRIDE as int) == 0
                &&& v@.len() == data@.len() as int / (SPLAT_STRIDE as int)
                &&& forall|i: int|
                    0 <= i < v@.len() ==> splat_matches_record(#[trigger] v@[i], data@, i)
            },
        },
{
    if data.len() % SPLAT_STRIDE != 0 {
        return Err(FileReading::InvalidSplatSize);
    }
    let n = data.len() / SPLAT_STRIDE;
    let mut v: Vec<Splat> = Vec::new();
    let mut i: usize = 0;
    while i < n
        invariant
            i <= n,
            n == data@.len() as int / (SPLAT_STRIDE as int),
            data@.len() as int % (SPLAT_STRIDE as int) == 0,
            v@.len() == i,
            forall|j: int| 0 <= j < i ==> splat_matches_record(#[trigger] v@[j], data@, j),
        decreases n - i,
    {
        assert((i + 1) * (SPLAT_STRIDE as int) <= data@.len() as int) by {
            assert(n * (SPLAT_STRIDE as int) == data@.len() as int);
            assert((i + 1) * (SPLAT_STRIDE as int) <= n * (SPLAT_STRIDE as int)) by (nonlinear_arith)
                requires
                    i + 1 <= n,
            ;
        };
        let sp = decode_record(data, i);
        v.push(sp);
        i += 1;
    }
    Ok(v)
}

/// The little-endian 64-bit word at byte offset `off`.
pub open spec fn le64(s: Seq<u8>, off: int) -> u64 {
    (s[off] + s[off + 1] * 0x100 + s[off + 2] * 0x1_0000 + s[off + 3] * 0x100_0000
        + s[off + 4] * 0x1_0000_0000 + s[off + 5] * 0x100_0000_0000
        + s[off + 6] * 0x1_0000_0000_0000 + s[off + 7] * 0x100_0000_0000_0000) as u64
}

/// Decodes the ten-byte file header of the chunked splat format: a
/// little-endian `u16` header size followed by a little-endian `u64` splat
/// count. Returns `None` when fewer than ten bytes are given.
pub fn parse_file_header(data: &Vec<u8>) -> (r: Option<(u16, u64)>)
    ensures
        match r {
            None => data@.len() < 10,
            Some((hs, count)) => {
                &&& data@.len() >= 10
                &&& hs == data@[0] + data@[1] * 0x100
                &&& count == le64(data@, 2)
            },
        },
{
    if data.len() < 10 {
        return None;
    }
    let hs: u16 = (data[0] as u16) + (data[1] as u16) * 0x100;
    let count: u64 = (data[2] as u64) + (data[3] as u64) * 0x100 + (data[4] as u64) * 0x1_0000
        + (data[5] as u64) * 0x100_0000 + (data[6] as u64) * 0x1_0000_0000
        + (data[7] as u64) * 0x100_0000_0000 + (data[8] as u64) * 0x1_0000_0000_0000
        + (data[9] as u64) * 0x100_0000_0000_0000;
    Some((hs, count))
}

} // verus!
