//! Class data and code items: the per-class lists of fields and methods,
//! stored as ULEB128 values, and the code that the methods point to.

use vstd::prelude::*;
use std::collections::HashMap;
use crate::dex_parser::dex_structs::{ClassDef, CodeItem, CodeItemHeader, CodeItemView};
use crate::dex_parser::strings::{read_uleb128, spec_uleb};
use crate::dex_parser::tables::{
    decode_records, decoded_records, image_addr, image_address, read_image, ParseError, Record,
    MAX_TABLE_BYTES,
};
use crate::memory::{padded_read, MemoryImage, RegionView};

verus! {

/// The size of a code item's header, in bytes.
pub const CODE_HEADER_BYTES: usize = 16;

/// The code item at `addr`: its 16-byte header, then as many 16-bit code
/// units as the header announces, both from zero-padded reads. Instructions
/// of more than [`MAX_TABLE_BYTES`] are refused.
pub open spec fn spec_code_item(m: Seq<RegionView>, addr: int) -> Result<CodeItemView, ParseError> {
    match padded_read(m, addr, CODE_HEADER_BYTES as int) {
        Err(e) => Err(ParseError::Read(e)),
        Ok(hb) => {
            let header = CodeItemHeader::decoded(hb, 0);
            let units = header.insns_size_in_code_units as int;
            if 2 * units > MAX_TABLE_BYTES {
                Err(ParseError::Malformed)
            } else {
                match padded_read(m, addr + CODE_HEADER_BYTES, 2 * units) {
                    Err(e) => Err(ParseError::Read(e)),
                    Ok(b) => Ok(CodeItemView { header, insns: decoded_records::<u16>(b, units) }),
                }
            }
        },
    }
}

/// Reads the code item at offset `code_off` of the image at `base`.
pub fn parse_code_item(mem: &MemoryImage, base: usize, code_off: u32) -> (r: Result<
    CodeItem,
    ParseError,
>)
    ensures
        match r {
            Ok(c) => spec_code_item(mem@, image_addr(base as int, code_off as int)) == Ok::<
                CodeItemView,
                ParseError,
            >(c@) && c.wf(),
            Err(e) => spec_code_item(mem@, image_addr(base as int, code_off as int)) == Err::<
                CodeItemView,
                ParseError,
            >(e),
        },
{
    let hb = match read_image(mem, base, code_off as u64, CODE_HEADER_BYTES) {
        Ok(b) => b,
        Err(e) => {
            return Err(ParseError::Read(e));
        },
    };
    let header = CodeItemHeader::decode(hb.as_slice(), 0);
    let units = header.insns_size_in_code_units;
    let len: u64 = 2 * (units as u64);
    if len > MAX_TABLE_BYTES as u64 {
        return Err(ParseError::Malformed);
    }
    match read_image(mem, base, code_off as u64 + CODE_HEADER_BYTES as u64, len as usize) {
        Err(e) => Err(ParseError::Read(e)),
        Ok(b) => {
            let insns = decode_records::<u16>(b.as_slice(), units as usize);
            Ok(CodeItem { header, insns })
        },
    }
}

/// The code items of a map, by method index.
pub open spec fn code_pool(h: Map<u32, CodeItem>) -> Map<u32, CodeItemView> {
    Map::new(|k: u32| h.dom().contains(k), |k: u32| h[k]@)
}

/// Every code item of the map holds the code units that its header
/// announces.
pub open spec fn all_code_wf(h: Map<u32, CodeItem>) -> bool {
    forall|k: u32| h.dom().contains(k) ==> (#[trigger] h[k]).wf()
}

/// The address after `count` fields, each a pair of ULEB128 values, that
/// start at `cur`.
pub open spec fn spec_skip_fields(m: Seq<RegionView>, cur: int, count: nat) -> Result<int, ParseError>
    decreases count,
{
    if count == 0 {
        Ok(cur)
    } else {
        match spec_uleb(m, cur) {
            Err(e) => Err(e),
            Ok((_, n1)) => match spec_uleb(m, cur + n1) {
                Err(e) => Err(e),
                Ok((_, n2)) => spec_skip_fields(m, cur + n1 + n2, (count - 1) as nat),
            },
        }
    }
}

/// Whether an executable cursor is the given mathematical one.
pub open spec fn same_cursor(r: Result<usize, ParseError>, s: Result<int, ParseError>) -> bool {
    match (r, s) {
        (Ok(a), Ok(b)) => a == b,
        (Err(e), Err(f)) => e == f,
        _ => false,
    }
}

/// Passes over `count` fields that start at `cur`.
pub fn skip_fields(mem: &MemoryImage, cur: usize, count: u32) -> (r: Result<usize, ParseError>)
    ensures
        same_cursor(r, spec_skip_fields(mem@, cur as int, count as nat)),
{
    let mut at = cur;
    let mut left = count;
    while left > 0
        invariant
            spec_skip_fields(mem@, cur as int, count as nat) == spec_skip_fields(
                mem@,
                at as int,
                left as nat,
            ),
        decreases left,
    {
        let (_, a1) = match read_uleb128(mem, at) {
            Ok(p) => p,
            Err(e) => {
                return Err(e);
            },
        };
        let (_, a2) = match read_uleb128(mem, a1) {
            Ok(p) => p,
            Err(e) => {
                return Err(e);
            },
        };
        at = a2;
        left = left - 1;
    }
    Ok(at)
}

/// The state of a walk through class data: the code items found so far,
/// and the address reached or the failure that ended the walk.
pub struct Walk {
    pub codes: Map<u32, CodeItemView>,
    pub cursor: Result<int, ParseError>,
}

/// The code items after the code at offset `code_off` has been entered for
/// method `idx`: an offset of zero and a code item that cannot be read
/// leave them as they are.
pub open spec fn with_code(
    m: Seq<RegionView>,
    base: int,
    codes: Map<u32, CodeItemView>,
    idx: u32,
    code_off: u32,
) -> Map<u32, CodeItemView> {
    if code_off == 0 {
        codes
    } else {
        match spec_code_item(m, image_addr(base, code_off as int)) {
            Ok(c) => codes.insert(idx, c),
            Err(_) => codes,
        }
    }
}

/// The walk through `count` methods that start at `cur`. Each method is
/// three ULEB128 values: the difference of its index to the index before
/// (`last`), its access flags and its code offset. An index beyond 32 bits
/// is malformed.
pub open spec fn spec_walk_methods(
    m: Seq<RegionView>,
    base: int,
    cur: int,
    count: nat,
    last: u32,
    codes: Map<u32, CodeItemView>,
) -> Walk
    decreases count,
{
    if count == 0 {
        Walk { codes, cursor: Ok(cur) }
    } else {
        match spec_uleb(m, cur) {
            Err(e) => Walk { codes, cursor: Err(e) },
            Ok((diff, n1)) => match spec_uleb(m, cur + n1) {
                Err(e) => Walk { codes, cursor: Err(e) },
                Ok((_, n2)) => match spec_uleb(m, cur + n1 + n2) {
                    Err(e) => Walk { codes, cursor: Err(e) },
                    Ok((code_off, n3)) => if last + diff > u32::MAX {
                        Walk { codes, cursor: Err(ParseError::Malformed) }
                    } else {
                        let idx = (last + diff) as u32;
                        spec_walk_methods(
                            m,
                            base,
                            cur + n1 + n2 + n3,
                            (count - 1) as nat,
                            idx,
                            with_code(m, base, codes, idx, code_off),
                        )
                    },
                },
            },
        }
    }
}

/// Entering a code item in a map enters its view in the map's views.
proof fn lemma_code_pool_insert(h: Map<u32, CodeItem>, k: u32, c: CodeItem)
    ensures
        code_pool(h.insert(k, c)) == code_pool(h).insert(k, c@),
{
}

/// Walks through `count` methods that start at `cur` and enters the code
/// of each in `codes`.
pub fn walk_methods(
    mem: &MemoryImage,
    base: usize,
    cur: usize,
    count: u32,
    codes: &mut HashMap<u32, CodeItem>,
) -> (r: Result<usize, ParseError>)
    requires
        all_code_wf(old(codes)@),
    ensures
        ({
            let w = spec_walk_methods(
                mem@,
                base as int,
                cur as int,
                count as nat,
                0,
                code_pool(old(codes)@),
            );
            code_pool(final(codes)@) == w.codes && same_cursor(r, w.cursor)
        }),
        all_code_wf(final(codes)@),
{
    let ghost whole = spec_walk_methods(
        mem@,
        base as int,
        cur as int,
        count as nat,
        0,
        code_pool(codes@),
    );
    let mut at = cur;
    let mut left = count;
    let mut last: u32 = 0;
    while left > 0
        invariant
            all_code_wf(codes@),
            whole == spec_walk_methods(
                mem@,
                base as int,
                cur as int,
                count as nat,
                0,
                code_pool(old(codes)@),
            ),
            whole == spec_walk_methods(
                mem@,
                base as int,
                at as int,
                left as nat,
                last,
                code_pool(codes@),
            ),
        decreases left,
    {
        let (diff, a1) = match read_uleb128(mem, at) {
            Ok(p) => p,
            Err(e) => {
                return Err(e);
            },
        };
        let (_, a2) = match read_uleb128(mem, a1) {
            Ok(p) => p,
            Err(e) => {
                return Err(e);
            },
        };
        let (code_off, a3) = match read_uleb128(mem, a2) {
            Ok(p) => p,
            Err(e) => {
                return Err(e);
            },
        };
        let idx = match last.checked_add(diff) {
            Some(idx) => idx,
            None => {
                return Err(ParseError::Malformed);
            },
        };
        if code_off != 0 {
            match parse_code_item(mem, base, code_off) {
                Ok(c) => {
                    proof {
                        lemma_code_pool_insert(codes@, idx, c);
                    }
                    codes.insert(idx, c);
                },
                Err(_) => {},
            }
        }
        last = idx;
        at = a3;
        left = left - 1;
    }
    Ok(at)
}

/// The walk through the class data at `addr`: four ULEB128 sizes (static
/// fields, instance fields, direct methods, virtual methods), then the
/// fields of both groups, then the methods of both groups. The method index
/// starts from zero in each group of methods.
#[verifier::opaque]
pub open spec fn spec_walk_class(
    m: Seq<RegionView>,
    base: int,
    addr: int,
    codes: Map<u32, CodeItemView>,
) -> Walk {
    match spec_uleb(m, addr) {
        Err(e) => Walk { codes, cursor: Err(e) },
        Ok((static_fields, n1)) => match spec_uleb(m, addr + n1) {
            Err(e) => Walk { codes, cursor: Err(e) },
            Ok((instance_fields, n2)) => match spec_uleb(m, addr + n1 + n2) {
                Err(e) => Walk { codes, cursor: Err(e) },
                Ok((direct_methods, n3)) => match spec_uleb(m, addr + n1 + n2 + n3) {
                    Err(e) => Walk { codes, cursor: Err(e) },
                    Ok((virtual_methods, n4)) => match spec_skip_fields(
                        m,
                        addr + n1 + n2 + n3 + n4,
                        static_fields as nat,
                    ) {
                        Err(e) => Walk { codes, cursor: Err(e) },
                        Ok(c1) => match spec_skip_fields(m, c1, instance_fields as nat) {
                            Err(e) => Walk { codes, cursor: Err(e) },
                            Ok(c2) => {
                                let direct = spec_walk_methods(
                                    m,
                                    base,
                                    c2,
                                    direct_methods as nat,
                                    0,
                                    codes,
                                );
                                match direct.cursor {
                                    Err(e) => direct,
                                    Ok(c3) => spec_walk_methods(
                                        m,
                                        base,
                                        c3,
                                        virtual_methods as nat,
                                        0,
                                        direct.codes,
                                    ),
                                }
                            },
                        },
                    },
                },
            },
        }
    }
}

/// Walks through the class data at `addr` and enters the code of each
/// method in `codes`. A failure ends the walk and keeps what was entered
/// before it.
pub fn parse_class_data(
    mem: &MemoryImage,
    base: usize,
    addr: usize,
    codes: &mut HashMap<u32, CodeItem>,
) -> (r: Result<usize, ParseError>)
    requires
        all_code_wf(old(codes)@),
    ensures
        ({
            let w = spec_walk_class(mem@, base as int, addr as int, code_pool(old(codes)@));
            code_pool(final(codes)@) == w.codes && same_cursor(r, w.cursor)
        }),
        all_code_wf(final(codes)@),
{
    proof {
        reveal(spec_walk_class);
    }
    let (static_fields, a1) = match read_uleb128(mem, addr) {
        Ok(p) => p,
        Err(e) => {
            return Err(e);
        },
    };
    let (instance_fields, a2) = match read_uleb128(mem, a1) {
        Ok(p) => p,
        Err(e) => {
            return Err(e);
        },
    };
    let (direct_methods, a3) = match read_uleb128(mem, a2) {
        Ok(p) => p,
        Err(e) => {
            return Err(e);
        },
    };
    let (virtual_methods, a4) = match read_uleb128(mem, a3) {
        Ok(p) => p,
        Err(e) => {
            return Err(e);
        },
    };
    let c1 = match skip_fields(mem, a4, static_fields) {
        Ok(c) => c,
        Err(e) => {
            return Err(e);
        },
    };
    let c2 = match skip_fields(mem, c1, instance_fields) {
        Ok(c) => c,
        Err(e) => {
            return Err(e);
        },
    };
    let c3 = match walk_methods(mem, base, c2, direct_methods, codes) {
        Ok(c) => c,
        Err(e) => {
            return Err(e);
        },
    };
    walk_methods(mem, base, c3, virtual_methods, codes)
}

/// The code items found in the class data of the first `upto` class
/// definitions. A class without class data, or whose class data lies beyond
/// the address space, adds nothing; a later entry for a method index
/// replaces an earlier one.
pub open spec fn spec_code_map(m: Seq<RegionView>, base: int, defs: Seq<ClassDef>, upto: int) -> Map<
    u32,
    CodeItemView,
>
    decreases upto,
{
    if upto <= 0 {
        Map::empty()
    } else {
        let before = spec_code_map(m, base, defs, upto - 1);
        let off = defs[upto - 1].class_data_off;
        if off == 0 {
            before
        } else {
            spec_walk_class(m, base, image_addr(base, off as int), before).codes
        }
    }
}

/// Walks through the class data of every class definition.
pub fn read_code_map(mem: &MemoryImage, base: usize, defs: &Vec<ClassDef>) -> (codes: HashMap<
    u32,
    CodeItem,
>)
    ensures
        code_pool(codes@) == spec_code_map(mem@, base as int, defs@, defs.len() as int),
        all_code_wf(codes@),
{
    let mut codes: HashMap<u32, CodeItem> = HashMap::new();
    let mut i: usize = 0;
    while i < defs.len()
        invariant
            i <= defs.len(),
            code_pool(codes@) == spec_code_map(mem@, base as int, defs@, i as int),
            all_code_wf(codes@),
        decreases defs.len() - i,
    {
        let off = defs[i].class_data_off;
        if off != 0 {
            match image_address(mem, base, off as u64) {
                Some(addr) => {
                    let _ = parse_class_data(mem, base, addr, &mut codes);
                },
                None => {
                    proof {
                        lemma_walk_unreadable(
                            mem@,
                            base as int,
                            image_addr(base as int, off as int),
                            code_pool(codes@),
                        );
                    }
                },
            }
        }
        i += 1;
    }
    codes
}

/// A walk that cannot read its first byte finds nothing.
proof fn lemma_walk_unreadable(
    m: Seq<RegionView>,
    base: int,
    addr: int,
    codes: Map<u32, CodeItemView>,
)
    requires
        !crate::memory::mapped(m, addr),
    ensures
        spec_walk_class(m, base, addr, codes).codes == codes,
{
    reveal(spec_walk_class);
}

} // verus!
