//! Variable-length integers and string data: ULEB128 values and
//! NUL-terminated MUTF-8 text, read byte by byte from the image.

use vstd::prelude::*;
use crate::dex_parser::tables::ParseError;
use crate::memory::{byte_at, mapped, MemoryImage, ReadError, RegionView};
use crate::text::{all_ascii, ascii_text, decode_lossy, lemma_ascii_decodes_to_itself, lossy_utf8};

verus! {

/// The most bytes that a ULEB128 value of 32 bits occupies.
pub const ULEB_MAX_BYTES: usize = 5;

/// The bits that byte number `i` of a ULEB128 value contributes.
pub open spec fn uleb_bits(b: u8, i: int) -> u32 {
    ((b & 0x7f) as u32) << ((7 * i) as u32)
}

/// The ULEB128 value at `addr`, continued from its byte number `i` with the
/// bits `acc` of the bytes before, and the number of bytes that it
/// occupies.
///
/// Each byte gives seven bits, least significant first; a byte without its
/// top bit ends the value. A byte that cannot be read is a read failure; a
/// fifth byte with its top bit set is malformed.
pub open spec fn spec_uleb_from(m: Seq<RegionView>, addr: int, i: int, acc: u32) -> Result<
    (u32, int),
    ParseError,
>
    decreases ULEB_MAX_BYTES - i,
{
    if i < 0 || i >= ULEB_MAX_BYTES {
        Err(ParseError::Malformed)
    } else if !mapped(m, addr + i) {
        Err(ParseError::Read(ReadError::BadAddress))
    } else {
        let b = byte_at(m, addr + i);
        let next = acc | uleb_bits(b, i);
        if b & 0x80 == 0 {
            Ok((next, i + 1))
        } else {
            spec_uleb_from(m, addr, i + 1, next)
        }
    }
}

/// The ULEB128 value at `addr` and the number of bytes that it occupies.
pub open spec fn spec_uleb(m: Seq<RegionView>, addr: int) -> Result<(u32, int), ParseError> {
    spec_uleb_from(m, addr, 0, 0)
}

/// Reads the ULEB128 value at `addr`; returns it with the address of the
/// byte after it.
pub fn read_uleb128(mem: &MemoryImage, addr: usize) -> (r: Result<(u32, usize), ParseError>)
    ensures
        match r {
            Ok((v, next)) => spec_uleb(mem@, addr as int) matches Ok((sv, n)) && sv == v && next
                == addr + n && 1 <= n <= ULEB_MAX_BYTES,
            Err(e) => spec_uleb(mem@, addr as int) == Err::<(u32, int), ParseError>(e),
        },
{
    proof {
        use_type_invariant(mem);
    }
    let mut acc: u32 = 0;
    let mut i: usize = 0;
    let mut cur: usize = addr;
    while i < ULEB_MAX_BYTES
        invariant
            crate::memory::image_wf(mem@),
            i <= ULEB_MAX_BYTES,
            cur == addr + i,
            spec_uleb(mem@, addr as int) == spec_uleb_from(mem@, addr as int, i as int, acc),
        decreases ULEB_MAX_BYTES - i,
    {
        let b = match mem.byte(cur) {
            Some(b) => b,
            None => {
                return Err(ParseError::Read(ReadError::BadAddress));
            },
        };
        let shift: u32 = (7 * i) as u32;
        acc = acc | (((b & 0x7f) as u32) << shift);
        cur = cur + 1;
        i = i + 1;
        if b & 0x80 == 0 {
            return Ok((acc, cur));
        }
    }
    Err(ParseError::Malformed)
}

/// The most bytes that the data of a string of `utf16_len` UTF-16 units may
/// hold before its terminator.
pub open spec fn string_cap(utf16_len: u32) -> int {
    3 * utf16_len + 10
}

/// The bytes of the NUL-terminated string at `addr`, from its byte number
/// `k` on, without the terminator.
///
/// A byte that cannot be read is a read failure; more than `cap` bytes
/// before the terminator are malformed.
pub open spec fn spec_raw_string(m: Seq<RegionView>, addr: int, k: int, cap: int) -> Result<
    Seq<u8>,
    ParseError,
>
    decreases cap + 1 - k,
{
    if !mapped(m, addr + k) {
        Err(ParseError::Read(ReadError::BadAddress))
    } else {
        let b = byte_at(m, addr + k);
        if b == 0 {
            Ok(Seq::empty())
        } else if k + 1 > cap {
            Err(ParseError::Malformed)
        } else {
            match spec_raw_string(m, addr, k + 1, cap) {
                Ok(rest) => Ok(seq![b] + rest),
                Err(e) => Err(e),
            }
        }
    }
}

/// `head` before what `tail` yields.
pub open spec fn prepend(head: Seq<u8>, tail: Result<Seq<u8>, ParseError>) -> Result<
    Seq<u8>,
    ParseError,
> {
    match tail {
        Ok(rest) => Ok(head + rest),
        Err(e) => Err(e),
    }
}

/// Reads the NUL-terminated string at `addr`, of at most `cap` bytes.
pub fn read_raw_string(mem: &MemoryImage, addr: usize, cap: u64) -> (r: Result<Vec<u8>, ParseError>)
    ensures
        match r {
            Ok(v) => spec_raw_string(mem@, addr as int, 0, cap as int) == Ok::<Seq<u8>, ParseError>(
                v@,
            ),
            Err(e) => spec_raw_string(mem@, addr as int, 0, cap as int) == Err::<
                Seq<u8>,
                ParseError,
            >(e),
        },
{
    proof {
        use_type_invariant(mem);
    }
    let mut raw: Vec<u8> = Vec::new();
    let mut k: u64 = 0;
    let mut cur: usize = addr;
    loop
        invariant
            crate::memory::image_wf(mem@),
            cur == addr + k,
            k <= cap,
            k == raw@.len(),
            spec_raw_string(mem@, addr as int, 0, cap as int) == prepend(
                raw@,
                spec_raw_string(mem@, addr as int, k as int, cap as int),
            ),
        decreases cap - k,
    {
        let b = match mem.byte(cur) {
            Some(b) => b,
            None => {
                return Err(ParseError::Read(ReadError::BadAddress));
            },
        };
        if b == 0 {
            return Ok(raw);
        }
        if k >= cap {
            return Err(ParseError::Malformed);
        }
        proof {
            let tail = spec_raw_string(mem@, addr as int, k + 1, cap as int);
            match tail {
                Ok(rest) => {
                    assert(raw@ + (seq![b] + rest) =~= raw@.push(b) + rest);
                },
                Err(_) => {},
            }
        }
        raw.push(b);
        k = k + 1;
        cur = cur + 1;
    }
}

/// The bytes of `s` with every two-byte sequence `0xC0 0x80` collapsed to a
/// single zero byte; all other bytes pass through.
pub open spec fn mutf8_collapse(s: Seq<u8>) -> Seq<u8>
    decreases s.len(),
{
    if s.len() == 0 {
        s
    } else if s[0] == 0xC0 && s.len() >= 2 && s[1] == 0x80 {
        seq![0u8] + mutf8_collapse(s.skip(2))
    } else {
        seq![s[0]] + mutf8_collapse(s.skip(1))
    }
}

/// Collapses every `0xC0 0x80` of `raw` to a zero byte.
pub fn collapse_mutf8(raw: &[u8]) -> (out: Vec<u8>)
    ensures
        out@ == mutf8_collapse(raw@),
{
    let n = raw.len();
    let mut out: Vec<u8> = Vec::with_capacity(n);
    let mut i: usize = 0;
    assert(raw@.skip(0) =~= raw@);
    while i < n
        invariant
            n == raw.len(),
            i <= n,
            mutf8_collapse(raw@) == out@ + mutf8_collapse(raw@.skip(i as int)),
        decreases n - i,
    {
        let ghost rest = raw@.skip(i as int);
        if raw[i] == 0xC0 && i + 1 < n && raw[i + 1] == 0x80 {
            assert(rest.skip(2) =~= raw@.skip(i + 2));
            assert(out@ + (seq![0u8] + mutf8_collapse(rest.skip(2))) =~= out@.push(0u8)
                + mutf8_collapse(rest.skip(2)));
            out.push(0u8);
            i += 2;
        } else {
            assert(rest.skip(1) =~= raw@.skip(i + 1));
            assert(out@ + (seq![rest[0]] + mutf8_collapse(rest.skip(1))) =~= out@.push(rest[0])
                + mutf8_collapse(rest.skip(1)));
            out.push(raw[i]);
            i += 1;
        }
    }
    out
}

/// The collapse leaves pure ASCII as it is; so collapsing it twice is
/// collapsing it once.
pub proof fn lemma_collapse_ascii(s: Seq<u8>)
    requires
        all_ascii(s),
    ensures
        mutf8_collapse(s) == s,
        mutf8_collapse(mutf8_collapse(s)) == mutf8_collapse(s),
    decreases s.len(),
{
    if s.len() > 0 {
        let t = s.skip(1);
        assert(all_ascii(t));
        lemma_collapse_ascii(t);
    }
}

/// The text that MUTF-8 bytes stand for: the collapsed bytes, decoded as
/// UTF-8 with replacement of what is not valid.
pub open spec fn mutf8_text(raw: Seq<u8>) -> Seq<char> {
    lossy_utf8(mutf8_collapse(raw))
}

/// Decodes MUTF-8 bytes to text. Pure ASCII decodes to itself.
pub fn decode_mutf8(raw: &[u8]) -> (s: String)
    ensures
        s@ == mutf8_text(raw@),
        all_ascii(raw@) ==> s@ == ascii_text(raw@),
{
    let utf8 = collapse_mutf8(raw);
    proof {
        if all_ascii(raw@) {
            lemma_collapse_ascii(raw@);
            lemma_ascii_decodes_to_itself(raw@);
        }
    }
    decode_lossy(utf8.as_slice())
}

/// The text of the string data at `addr`: a ULEB128 count of UTF-16 units,
/// then MUTF-8 bytes up to a NUL, at most [`string_cap`] of them.
pub open spec fn spec_string_data(m: Seq<RegionView>, addr: int) -> Result<Seq<char>, ParseError> {
    match spec_uleb(m, addr) {
        Err(e) => Err(e),
        Ok((utf16_len, n)) => match spec_raw_string(m, addr + n, 0, string_cap(utf16_len)) {
            Err(e) => Err(e),
            Ok(raw) => Ok(mutf8_text(raw)),
        },
    }
}

/// Whether an executable text outcome is the given mathematical one.
pub open spec fn same_text(r: Result<String, ParseError>, s: Result<Seq<char>, ParseError>) -> bool {
    match (r, s) {
        (Ok(v), Ok(q)) => v@ == q,
        (Err(e), Err(f)) => e == f,
        _ => false,
    }
}

/// Reads the string data at `addr`.
pub fn read_string_data(mem: &MemoryImage, addr: usize) -> (r: Result<String, ParseError>)
    ensures
        same_text(r, spec_string_data(mem@, addr as int)),
{
    let (utf16_len, next) = match read_uleb128(mem, addr) {
        Ok(p) => p,
        Err(e) => {
            return Err(e);
        },
    };
    let cap: u64 = 3 * (utf16_len as u64) + 10;
    match read_raw_string(mem, next, cap) {
        Err(e) => Err(e),
        Ok(raw) => Ok(decode_mutf8(raw.as_slice())),
    }
}

} // verus!
