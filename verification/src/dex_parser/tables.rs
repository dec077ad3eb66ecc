//! The header and the six index tables: packed little-endian records read
//! from the image in bulk.

use vstd::prelude::*;
use crate::bytes::{le_u16, le_u32, read_u16, read_u32};
use crate::dex_parser::dex_structs::{
    ClassDef, CodeItemHeader, FieldId, Header, MethodId, ProtoId, StringId, TypeId,
};
use crate::memory::{padded_read, read_padded, zeros, MemoryImage, ReadError, RegionView};

verus! {

/// Why a read of the image's structure failed.
#[derive(Clone, Copy, Debug, PartialEq, Eq, Structural)]
pub enum ParseError {
    /// Memory that the structure points into could not be read.
    Read(ReadError),
    /// The structure breaks a limit of the format.
    Malformed,
}

/// The largest table or instruction stream, in bytes, that is read.
pub const MAX_TABLE_BYTES: usize = 100 * 1024 * 1024;

/// The size of the header, in bytes.
pub const HEADER_BYTES: usize = 0x70;

/// A record of fixed width that is stored as little-endian fields.
pub trait Record: Sized {
    /// The number of bytes that one record occupies.
    spec fn width() -> int;

    /// The record stored at `at`.
    spec fn decoded(bytes: Seq<u8>, at: int) -> Self;

    /// The number of bytes that one record occupies.
    fn byte_width() -> (w: usize)
        ensures
            w == Self::width(),
            0 < w <= 32,
    ;

    /// Decodes the record stored at `at`.
    fn decode(bytes: &[u8], at: usize) -> (r: Self)
        requires
            at + Self::width() <= bytes.len(),
        ensures
            r == Self::decoded(bytes@, at as int),
    ;
}

impl Record for StringId {
    open spec fn width() -> int {
        4
    }

    open spec fn decoded(bytes: Seq<u8>, at: int) -> Self {
        StringId { string_data_off: le_u32(bytes, at) }
    }

    fn byte_width() -> (w: usize) {
        4
    }

    fn decode(bytes: &[u8], at: usize) -> (r: Self) {
        StringId { string_data_off: read_u32(bytes, at) }
    }
}

impl Record for TypeId {
    open spec fn width() -> int {
        4
    }

    open spec fn decoded(bytes: Seq<u8>, at: int) -> Self {
        TypeId { descriptor_idx: le_u32(bytes, at) }
    }

    fn byte_width() -> (w: usize) {
        4
    }

    fn decode(bytes: &[u8], at: usize) -> (r: Self) {
        TypeId { descriptor_idx: read_u32(bytes, at) }
    }
}

impl Record for ProtoId {
    open spec fn width() -> int {
        12
    }

    open spec fn decoded(bytes: Seq<u8>, at: int) -> Self {
        ProtoId {
            shorty_idx: le_u32(bytes, at),
            return_type_idx: le_u32(bytes, at + 4),
            parameters_off: le_u32(bytes, at + 8),
        }
    }

    fn byte_width() -> (w: usize) {
        12
    }

    fn decode(bytes: &[u8], at: usize) -> (r: Self) {
        ProtoId {
            shorty_idx: read_u32(bytes, at),
            return_type_idx: read_u32(bytes, at + 4),
            parameters_off: read_u32(bytes, at + 8),
        }
    }
}

impl Record for FieldId {
    open spec fn width() -> int {
        8
    }

    open spec fn decoded(bytes: Seq<u8>, at: int) -> Self {
        FieldId {
            class_idx: le_u16(bytes, at),
            type_idx: le_u16(bytes, at + 2),
            name_idx: le_u32(bytes, at + 4),
        }
    }

    fn byte_width() -> (w: usize) {
        8
    }

    fn decode(bytes: &[u8], at: usize) -> (r: Self) {
        FieldId {
            class_idx: read_u16(bytes, at),
            type_idx: read_u16(bytes, at + 2),
            name_idx: read_u32(bytes, at + 4),
        }
    }
}

impl Record for MethodId {
    open spec fn width() -> int {
        8
    }

    open spec fn decoded(bytes: Seq<u8>, at: int) -> Self {
        MethodId {
            class_idx: le_u16(bytes, at),
            proto_idx: le_u16(bytes, at + 2),
            name_idx: le_u32(bytes, at + 4),
        }
    }

    fn byte_width() -> (w: usize) {
        8
    }

    fn decode(bytes: &[u8], at: usize) -> (r: Self) {
        MethodId {
            class_idx: read_u16(bytes, at),
            proto_idx: read_u16(bytes, at + 2),
            name_idx: read_u32(bytes, at + 4),
        }
    }
}

impl Record for ClassDef {
    open spec fn width() -> int {
        32
    }

    open spec fn decoded(bytes: Seq<u8>, at: int) -> Self {
        ClassDef {
            class_idx: le_u32(bytes, at),
            access_flags: le_u32(bytes, at + 4),
            superclass_idx: le_u32(bytes, at + 8),
            interfaces_off: le_u32(bytes, at + 12),
            source_file_idx: le_u32(bytes, at + 16),
            annotations_off: le_u32(bytes, at + 20),
            class_data_off: le_u32(bytes, at + 24),
            static_values_off: le_u32(bytes, at + 28),
        }
    }

    fn byte_width() -> (w: usize) {
        32
    }

    fn decode(bytes: &[u8], at: usize) -> (r: Self) {
        ClassDef {
            class_idx: read_u32(bytes, at),
            access_flags: read_u32(bytes, at + 4),
            superclass_idx: read_u32(bytes, at + 8),
            interfaces_off: read_u32(bytes, at + 12),
            source_file_idx: read_u32(bytes, at + 16),
            annotations_off: read_u32(bytes, at + 20),
            class_data_off: read_u32(bytes, at + 24),
            static_values_off: read_u32(bytes, at + 28),
        }
    }
}

impl Record for CodeItemHeader {
    open spec fn width() -> int {
        16
    }

    open spec fn decoded(bytes: Seq<u8>, at: int) -> Self {
        CodeItemHeader {
            registers_size: le_u16(bytes, at),
            ins_size: le_u16(bytes, at + 2),
            outs_size: le_u16(bytes, at + 4),
            tries_size: le_u16(bytes, at + 6),
            debug_info_off: le_u32(bytes, at + 8),
            insns_size_in_code_units: le_u32(bytes, at + 12),
        }
    }

    fn byte_width() -> (w: usize) {
        16
    }

    fn decode(bytes: &[u8], at: usize) -> (r: Self) {
        CodeItemHeader {
            registers_size: read_u16(bytes, at),
            ins_size: read_u16(bytes, at + 2),
            outs_size: read_u16(bytes, at + 4),
            tries_size: read_u16(bytes, at + 6),
            debug_info_off: read_u32(bytes, at + 8),
            insns_size_in_code_units: read_u32(bytes, at + 12),
        }
    }
}

impl Record for u16 {
    open spec fn width() -> int {
        2
    }

    open spec fn decoded(bytes: Seq<u8>, at: int) -> Self {
        le_u16(bytes, at)
    }

    fn byte_width() -> (w: usize) {
        2
    }

    fn decode(bytes: &[u8], at: usize) -> (r: Self) {
        read_u16(bytes, at)
    }
}

/// The first `count` records stored in `bytes`.
pub open spec fn decoded_records<T: Record>(bytes: Seq<u8>, count: int) -> Seq<T> {
    Seq::new(count as nat, |k: int| T::decoded(bytes, k * T::width()))
}

/// Decodes the first `count` records stored in `bytes`.
pub fn decode_records<T: Record>(bytes: &[u8], count: usize) -> (out: Vec<T>)
    requires
        count * T::width() <= bytes.len(),
    ensures
        out@ == decoded_records::<T>(bytes@, count as int),
{
    let w = T::byte_width();
    let mut out: Vec<T> = Vec::new();
    let mut k: usize = 0;
    let mut at: usize = 0;
    while k < count
        invariant
            w == T::width(),
            0 < w <= 32,
            k <= count,
            at == k * w,
            count * w <= bytes.len(),
            out@ == decoded_records::<T>(bytes@, k as int),
        decreases count - k,
    {
        assert((k + 1) * w == k * w + w) by (nonlinear_arith);
        assert((k + 1) * w <= count * w) by (nonlinear_arith)
            requires
                k < count,
                0 < w,
        ;
        let r = T::decode(bytes, at);
        out.push(r);
        k += 1;
        at += w;
    }
    out
}

/// The address `off` bytes into the image at `base`.
pub open spec fn image_addr(base: int, off: int) -> int {
    base + off
}

/// What reading a table of `count` records at offset `off` comes to: an
/// empty table is not read at all, one of more than [`MAX_TABLE_BYTES`] is
/// refused, and any other is decoded from a zero-padded read.
pub open spec fn spec_table<T: Record>(m: Seq<RegionView>, base: int, off: int, count: int) -> Result<
    Seq<T>,
    ParseError,
> {
    let total = T::width() * count;
    if total == 0 {
        Ok(Seq::empty())
    } else if total > MAX_TABLE_BYTES {
        Err(ParseError::Malformed)
    } else {
        match padded_read(m, image_addr(base, off), total) {
            Ok(b) => Ok(decoded_records::<T>(b, count)),
            Err(e) => Err(ParseError::Read(e)),
        }
    }
}

/// Whether an executable table outcome is the given mathematical one.
pub open spec fn same_table<T>(r: Result<Vec<T>, ParseError>, s: Result<Seq<T>, ParseError>) -> bool {
    match (r, s) {
        (Ok(v), Ok(q)) => v@ == q,
        (Err(e), Err(f)) => e == f,
        _ => false,
    }
}

/// Fills a zeroed buffer of `len` bytes from `off` bytes into the image at
/// `base`. An address beyond the address space is unreadable.
pub fn read_image(mem: &MemoryImage, base: usize, off: u64, len: usize) -> (r: Result<
    Vec<u8>,
    ReadError,
>)
    ensures
        crate::memory::same_read(r, padded_read(mem@, image_addr(base as int, off as int), len as int)),
        r matches Ok(v) ==> v@.len() == len,
{
    if len == 0 {
        return Ok(Vec::new());
    }
    match image_address(mem, base, off) {
        Some(addr) => read_padded(mem, addr, len),
        None => Err(ReadError::BadAddress),
    }
}

/// The address `off` bytes into the image at `base`, unless it lies beyond
/// the address space, where nothing is mapped.
pub fn image_address(mem: &MemoryImage, base: usize, off: u64) -> (r: Option<usize>)
    ensures
        match r {
            Some(a) => a == image_addr(base as int, off as int),
            None => forall|a: int|
                a >= image_addr(base as int, off as int) ==> !#[trigger] crate::memory::mapped(
                    mem@,
                    a,
                ),
        },
{
    let fits = match (base as u64).checked_add(off) {
        Some(a) => if a <= usize::MAX as u64 {
            Some(a as usize)
        } else {
            None
        },
        None => None,
    };
    proof {
        use_type_invariant(mem);
    }
    fits
}

/// Reads the table of `count` records at offset `off`.
pub fn read_table<T: Record>(mem: &MemoryImage, base: usize, off: u32, count: u32) -> (r: Result<
    Vec<T>,
    ParseError,
>)
    ensures
        same_table(r, spec_table::<T>(mem@, base as int, off as int, count as int)),
{
    let w = T::byte_width();
    assert((w as u64) * (count as u64) <= 32 * 0xFFFF_FFFF) by (nonlinear_arith)
        requires
            0 < w <= 32,
            0 <= count <= u32::MAX,
    ;
    let total: u64 = (w as u64) * (count as u64);
    assert(total == T::width() * count) by (nonlinear_arith)
        requires
            total == (w as u64) * (count as u64),
            w == T::width(),
            0 < w <= 32,
            0 <= count <= u32::MAX,
    ;
    if total == 0 {
        return Ok(Vec::new());
    }
    if total > MAX_TABLE_BYTES as u64 {
        return Err(ParseError::Malformed);
    }
    let len = total as usize;
    match read_image(mem, base, off as u64, len) {
        Err(e) => Err(ParseError::Read(e)),
        Ok(bytes) => {
            assert(count * T::width() == len) by (nonlinear_arith)
                requires
                    len == T::width() * count,
            ;
            Ok(decode_records::<T>(bytes.as_slice(), count as usize))
        },
    }
}

/// The header stored in the first [`HEADER_BYTES`] of `bytes`.
pub open spec fn decoded_header(b: Seq<u8>) -> Header {
    Header {
        magic: [b[0], b[1], b[2], b[3], b[4], b[5], b[6], b[7]],
        checksum: le_u32(b, 8),
        signature: [
            b[12],
            b[13],
            b[14],
            b[15],
            b[16],
            b[17],
            b[18],
            b[19],
            b[20],
            b[21],
            b[22],
            b[23],
            b[24],
            b[25],
            b[26],
            b[27],
            b[28],
            b[29],
            b[30],
            b[31],
        ],
        file_size: le_u32(b, 0x20),
        header_size: le_u32(b, 0x24),
        endian_tag: le_u32(b, 0x28),
        link_size: le_u32(b, 0x2c),
        link_off: le_u32(b, 0x30),
        map_off: le_u32(b, 0x34),
        string_ids_size: le_u32(b, 0x38),
        string_ids_off: le_u32(b, 0x3c),
        type_ids_size: le_u32(b, 0x40),
        type_ids_off: le_u32(b, 0x44),
        proto_ids_size: le_u32(b, 0x48),
        proto_ids_off: le_u32(b, 0x4c),
        field_ids_size: le_u32(b, 0x50),
        field_ids_off: le_u32(b, 0x54),
        method_ids_size: le_u32(b, 0x58),
        method_ids_off: le_u32(b, 0x5c),
        class_defs_size: le_u32(b, 0x60),
        class_defs_off: le_u32(b, 0x64),
        data_size: le_u32(b, 0x68),
        data_off: le_u32(b, 0x6c),
    }
}

/// Decodes the header stored in the first [`HEADER_BYTES`] of `bytes`.
pub fn decode_header(b: &[u8]) -> (h: Header)
    requires
        b.len() >= HEADER_BYTES,
    ensures
        h == decoded_header(b@),
{
    Header {
        magic: [b[0], b[1], b[2], b[3], b[4], b[5], b[6], b[7]],
        checksum: read_u32(b, 8),
        signature: [
            b[12],
            b[13],
            b[14],
            b[15],
            b[16],
            b[17],
            b[18],
            b[19],
            b[20],
            b[21],
            b[22],
            b[23],
            b[24],
            b[25],
            b[26],
            b[27],
            b[28],
            b[29],
            b[30],
            b[31],
        ],
        file_size: read_u32(b, 0x20),
        header_size: read_u32(b, 0x24),
        endian_tag: read_u32(b, 0x28),
        link_size: read_u32(b, 0x2c),
        link_off: read_u32(b, 0x30),
        map_off: read_u32(b, 0x34),
        string_ids_size: read_u32(b, 0x38),
        string_ids_off: read_u32(b, 0x3c),
        type_ids_size: read_u32(b, 0x40),
        type_ids_off: read_u32(b, 0x44),
        proto_ids_size: read_u32(b, 0x48),
        proto_ids_off: read_u32(b, 0x4c),
        field_ids_size: read_u32(b, 0x50),
        field_ids_off: read_u32(b, 0x54),
        method_ids_size: read_u32(b, 0x58),
        method_ids_off: read_u32(b, 0x5c),
        class_defs_size: read_u32(b, 0x60),
        class_defs_off: read_u32(b, 0x64),
        data_size: read_u32(b, 0x68),
        data_off: read_u32(b, 0x6c),
    }
}

/// The header of the image at `base`: decoded from a zero-padded read, or
/// from zeros alone where nothing can be read.
pub open spec fn spec_header(m: Seq<RegionView>, base: int) -> Header {
    match padded_read(m, base, HEADER_BYTES as int) {
        Ok(b) => decoded_header(b),
        Err(_) => decoded_header(zeros(HEADER_BYTES as int)),
    }
}

/// Reads the header of the image at `base`.
pub fn read_header(mem: &MemoryImage, base: usize) -> (h: Header)
    ensures
        h == spec_header(mem@, base as int),
{
    match read_padded(mem, base, HEADER_BYTES) {
        Ok(b) => decode_header(b.as_slice()),
        Err(_) => {
            let mut z: Vec<u8> = Vec::new();
            while z.len() < HEADER_BYTES
                invariant
                    z@.len() <= HEADER_BYTES,
                    z@ == zeros(z@.len() as int),
                decreases HEADER_BYTES - z@.len(),
            {
                z.push(0u8);
            }
            decode_header(z.as_slice())
        },
    }
}

} // verus!
