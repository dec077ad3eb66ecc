//! Finds DEX images in a memory snapshot: by their magic, and by following
//! pointers to images whose magic has been wiped.

use vstd::prelude::*;
use vstd::string::*;
use crate::bytes::{le_u32, le_u64, read_u32, read_u64};
use crate::dex_parser::tables::HEADER_BYTES;
use crate::memory::{padded_read, read_padded, read_result, MemoryImage, RegionView};
use crate::text::{chars_of, contains_text, decode_lossy, has_prefix, has_substring, lossy_utf8};

pub use crate::memory::safe_read_memory;

pub mod laws;

verus! {

/// An observed mapping of the address space: the range `[start, end)`,
/// whether it can be read, and the path that backs it, if any.
#[derive(Clone, Debug)]
pub struct Mapping {
    pub start: usize,
    pub end: usize,
    pub readable: bool,
    pub path: Option<String>,
}

/// The mathematical content of a [`Mapping`].
pub struct MappingView {
    pub start: int,
    pub end: int,
    pub readable: bool,
    pub path: Option<Seq<char>>,
}

impl View for Mapping {
    type V = MappingView;

    open spec fn view(&self) -> MappingView {
        MappingView {
            start: self.start as int,
            end: self.end as int,
            readable: self.readable,
            path: match self.path {
                Some(p) => Some(p@),
                None => None,
            },
        }
    }
}

/// The views of a list of mappings, in order.
pub open spec fn mapping_views(maps: Seq<Mapping>) -> Seq<MappingView> {
    maps.map_values(|m: Mapping| m@)
}

/// Whether a path names a device whose mappings are not scanned: it lies
/// under `/dev/` and is neither shared anonymous memory (`ashmem`) nor the
/// zero device.
pub open spec fn is_excluded_path(p: Seq<char>) -> bool {
    "/dev/"@.is_prefix_of(p) && !has_substring(p, "ashmem"@) && !has_substring(p, "zero"@)
}

/// Whether a mapping is kept in the index: it is readable, holds at least
/// one address, and is not backed by an excluded device.
pub open spec fn is_retained(m: MappingView) -> bool {
    &&& m.readable
    &&& m.start < m.end
    &&& !(m.path matches Some(p) && is_excluded_path(p))
}

/// Whether `addr` lies in the mapping.
pub open spec fn covers(m: MappingView, addr: int) -> bool {
    m.start <= addr < m.end
}

/// The mappings are retained ones, ascend and do not overlap.
pub open spec fn index_wf(ix: Seq<MappingView>) -> bool {
    &&& forall|i: int|
        0 <= i < ix.len() ==> is_retained(#[trigger] ix[i]) && 0 <= ix[i].start < ix[i].end
            <= usize::MAX
    &&& forall|i: int, j: int|
        0 <= i < j < ix.len() ==> (#[trigger] ix[i]).end <= (#[trigger] ix[j]).start
}

/// Whether some mapping of the index covers `addr`.
pub open spec fn index_contains(ix: Seq<MappingView>, addr: int) -> bool {
    exists|i: int| 0 <= i < ix.len() && #[trigger] covers(ix[i], addr)
}

/// Decides whether a mapping is kept in the index.
pub fn retains(m: &Mapping) -> (r: bool)
    ensures
        r == is_retained(m@),
{
    if !m.readable || m.start >= m.end {
        return false;
    }
    match &m.path {
        None => true,
        Some(p) => {
            let chars = chars_of(p.as_str());
            !(has_prefix(&chars, "/dev/") && !contains_text(&chars, "ashmem") && !contains_text(
                &chars,
                "zero",
            ))
        },
    }
}

/// The retained mappings of a snapshot, ascending by start address.
#[derive(Debug)]
pub struct MapIndex {
    maps: Vec<Mapping>,
}

impl View for MapIndex {
    type V = Seq<MappingView>;

    closed spec fn view(&self) -> Seq<MappingView> {
        mapping_views(self.maps@)
    }
}

impl MapIndex {
    #[verifier::type_invariant]
    pub open spec fn inv(self) -> bool {
        index_wf(self@)
    }

    /// Builds the index from a listing of mappings in ascending order.
    ///
    /// The index holds the retained mappings of the listing, in order.
    /// Returns `None` when these do not ascend or overlap.
    pub fn build(listing: &Vec<Mapping>) -> (r: Option<MapIndex>)
        ensures
            r is Some <==> index_wf(retained_of(mapping_views(listing@), listing.len() as int)),
            r matches Some(ix) ==> ix@ == retained_of(mapping_views(listing@), listing.len() as int),
    {
        let ghost all = mapping_views(listing@);
        let mut maps: Vec<Mapping> = Vec::new();
        let n = listing.len();
        let mut floor: usize = 0;
        let mut i: usize = 0;
        while i < n
            invariant
                n == listing.len(),
                i <= n,
                all == mapping_views(listing@),
                mapping_views(maps@) == retained_of(all, i as int),
                index_wf(mapping_views(maps@)),
                maps@.len() == 0 ==> floor == 0,
                maps@.len() > 0 ==> floor == maps@.last().end,
            decreases n - i,
        {
            let m = &listing[i];
            if retains(m) {
                if m.start < floor {
                    proof {
                        let part = retained_of(all, i + 1);
                        let whole = retained_of(all, n as int);
                        lemma_retained_prefix(all, i + 1, n as int);
                        let p = part.len() - 1;
                        assert(part[p - 1] == mapping_views(maps@)[p - 1]);
                        assert(whole[p] == part[p]);
                    }
                    return None;
                }
                let copy = Mapping {
                    start: m.start,
                    end: m.end,
                    readable: m.readable,
                    path: match &m.path {
                        Some(p) => Some(p.clone()),
                        None => None,
                    },
                };
                proof {
                    let before = mapping_views(maps@);
                    let after = before.push(all[i as int]);
                    assert(mapping_views(maps@.push(copy)) =~= after);
                    assert forall|a: int, b: int| 0 <= a < b < after.len() implies (#[trigger] after[a]).end
                        <= (#[trigger] after[b]).start by {
                        if b == before.len() {
                            assert(before[a].end <= before[before.len() - 1].end);
                        }
                    }
                }
                floor = m.end;
                maps.push(copy);
            }
            i += 1;
        }
        Some(MapIndex { maps })
    }

    /// The number of mappings in the index.
    pub fn len(&self) -> (n: usize)
        ensures
            n == self@.len(),
    {
        self.maps.len()
    }

    /// The mapping at position `i`.
    pub fn get(&self, i: usize) -> (m: &Mapping)
        requires
            i < self@.len(),
        ensures
            m@ == self@[i as int],
    {
        &self.maps[i]
    }

    /// The mapping that covers `addr`, by binary search.
    pub fn contains(&self, addr: usize) -> (r: Option<&Mapping>)
        ensures
            r is Some <==> index_contains(self@, addr as int),
            r matches Some(m) ==> covers(m@, addr as int) && self@.contains(m@),
    {
        proof {
            use_type_invariant(self);
        }
        let ghost ix = self@;
        let mut lo: usize = 0;
        let mut hi: usize = self.maps.len();
        while lo < hi
            invariant
                ix == self@,
                ix == mapping_views(self.maps@),
                index_wf(ix),
                lo <= hi <= ix.len(),
                forall|k: int| 0 <= k < lo ==> (#[trigger] ix[k]).end <= addr,
                forall|k: int| hi <= k < ix.len() ==> addr < (#[trigger] ix[k]).start,
            decreases hi - lo,
        {
            let mid = lo + (hi - lo) / 2;
            let m = &self.maps[mid];
            assert(ix[mid as int] == m@);
            if addr < m.start {
                hi = mid;
            } else if addr >= m.end {
                lo = mid + 1;
            } else {
                assert(covers(ix[mid as int], addr as int));
                return Some(m);
            }
        }
        None
    }
}

/// The retained mappings among the first `upto` of a listing, in order.
pub open spec fn retained_of(all: Seq<MappingView>, upto: int) -> Seq<MappingView>
    decreases upto,
{
    if upto <= 0 {
        Seq::empty()
    } else {
        let before = retained_of(all, upto - 1);
        if is_retained(all[upto - 1]) {
            before.push(all[upto - 1])
        } else {
            before
        }
    }
}

/// The retained mappings of a shorter listing begin those of a longer one.
pub proof fn lemma_retained_prefix(all: Seq<MappingView>, a: int, b: int)
    requires
        0 <= a <= b,
    ensures
        retained_of(all, a).len() <= retained_of(all, b).len(),
        forall|i: int|
            0 <= i < retained_of(all, a).len() ==> #[trigger] retained_of(all, a)[i] == retained_of(
                all,
                b,
            )[i],
    decreases b - a,
{
    if a < b {
        lemma_retained_prefix(all, a, b - 1);
    }
}

/// A suspected DEX image.
#[derive(Clone, Debug)]
pub struct DexFileResult {
    /// The address of the image.
    pub addr: usize,
    /// The file size that its header declares.
    pub size: usize,
    /// The format version: three characters after the magic `dex\n`, or
    /// `cdex`, or `unknown(wiped)` where the magic is gone.
    pub version: String,
    /// How the image was found: `MagicScan` or `PointerScan`.
    pub source: String,
}

/// The mathematical content of a [`DexFileResult`].
pub struct CandidateView {
    pub addr: int,
    pub size: int,
    pub version: Seq<char>,
    pub source: Seq<char>,
}

impl View for DexFileResult {
    type V = CandidateView;

    open spec fn view(&self) -> CandidateView {
        CandidateView {
            addr: self.addr as int,
            size: self.size as int,
            version: self.version@,
            source: self.source@,
        }
    }
}

/// The views of a list of candidates, in order.
pub open spec fn candidate_views(cs: Seq<DexFileResult>) -> Seq<CandidateView> {
    cs.map_values(|c: DexFileResult| c@)
}

/// The bytes scanned at once.
pub const CHUNK_SIZE: usize = 1024 * 1024;

/// The smallest file size that a header may declare.
pub const MIN_DEX_SIZE: u32 = 0x70;

/// The largest file size that a header may declare.
pub const MAX_DEX_SIZE: u32 = 200 * 1024 * 1024;

/// The smallest header size accepted where the magic is gone.
pub const MIN_HEADER_SIZE: u32 = 0x40;

/// The largest header size accepted where the magic is gone.
pub const MAX_HEADER_SIZE: u32 = 0x200;

/// The endian tag of an image in its own byte order.
pub const ENDIAN_CONSTANT: u32 = 0x12345678;

/// The endian tag of an image in the other byte order.
pub const REVERSE_ENDIAN_CONSTANT: u32 = 0x78563412;

/// The most entries that a map list may announce.
pub const MAX_MAP_LIST: u32 = 1000;

/// The magic that four bytes spell.
#[derive(Clone, Copy, Debug, PartialEq, Eq, Structural)]
pub enum Magic {
    /// `dex\n`
    Dex,
    /// `cdex`
    Cdex,
    /// Neither.
    Absent,
}

/// The magic that the four bytes at `at` spell.
pub open spec fn magic_at(b: Seq<u8>, at: int) -> Magic {
    if b[at] == 0x64 && b[at + 1] == 0x65 && b[at + 2] == 0x78 && b[at + 3] == 0x0a {
        Magic::Dex
    } else if b[at] == 0x63 && b[at + 1] == 0x64 && b[at + 2] == 0x65 && b[at + 3] == 0x78 {
        Magic::Cdex
    } else {
        Magic::Absent
    }
}

/// Tells which magic the four bytes at `at` spell.
pub fn read_magic(b: &[u8], at: usize) -> (r: Magic)
    requires
        at + 4 <= b.len(),
    ensures
        r == magic_at(b@, at as int),
{
    if b[at] == 0x64 && b[at + 1] == 0x65 && b[at + 2] == 0x78 && b[at + 3] == 0x0a {
        Magic::Dex
    } else if b[at] == 0x63 && b[at + 1] == 0x64 && b[at + 2] == 0x65 && b[at + 3] == 0x78 {
        Magic::Cdex
    } else {
        Magic::Absent
    }
}

/// Whether a file size lies within the limits.
pub open spec fn size_plausible(file_size: u32) -> bool {
    MIN_DEX_SIZE <= file_size <= MAX_DEX_SIZE
}

/// Whether the fields of a header are those of a DEX image, as far as they
/// are checked: with a magic, the file size; without one, also the endian
/// tag, the header size, and that the map list and the string ids lie
/// after the header and within the file.
pub open spec fn header_plausible(h: Seq<u8>) -> bool {
    let file_size = le_u32(h, 0x20);
    let header_size = le_u32(h, 0x24);
    let endian_tag = le_u32(h, 0x28);
    let map_off = le_u32(h, 0x34);
    let string_ids_off = le_u32(h, 0x3c);
    if magic_at(h, 0) == Magic::Absent {
        &&& endian_tag == ENDIAN_CONSTANT || endian_tag == REVERSE_ENDIAN_CONSTANT
        &&& MIN_HEADER_SIZE <= header_size <= MAX_HEADER_SIZE
        &&& size_plausible(file_size)
        &&& header_size <= map_off < file_size
        &&& header_size <= string_ids_off < file_size
    } else {
        size_plausible(file_size)
    }
}

/// The version that a header tells.
pub open spec fn version_of(h: Seq<u8>) -> Seq<char> {
    match magic_at(h, 0) {
        Magic::Dex => lossy_utf8(h.subrange(4, 7)),
        Magic::Cdex => "cdex"@,
        Magic::Absent => "unknown(wiped)"@,
    }
}

/// Whether the map list at `map_abs` is one: it lies in an indexed mapping,
/// its count can be read, and the count is between one and
/// [`MAX_MAP_LIST`].
pub open spec fn map_list_plausible(m: Seq<RegionView>, ix: Seq<MappingView>, map_abs: int) -> bool {
    &&& index_contains(ix, map_abs)
    &&& padded_read(m, map_abs, 4) matches Ok(s) && 1 <= le_u32(s, 0) <= MAX_MAP_LIST
}

/// What verifying the address as the base of a DEX image comes to: the
/// declared file size and the version, or nothing where it is rejected.
pub open spec fn spec_verify(
    m: Seq<RegionView>,
    ix: Seq<MappingView>,
    addr: int,
    allow_missing_magic: bool,
) -> Option<(int, Seq<char>)> {
    match padded_read(m, addr, HEADER_BYTES as int) {
        Err(_) => None,
        Ok(h) => if magic_at(h, 0) == Magic::Absent && !allow_missing_magic {
            None
        } else if !header_plausible(h) {
            None
        } else if !map_list_plausible(m, ix, addr + le_u32(h, 0x34)) {
            None
        } else {
            Some((le_u32(h, 0x20) as int, version_of(h)))
        },
    }
}

/// The offset of the map list that the header at `addr` declares.
pub open spec fn header_map_off(m: Seq<RegionView>, addr: int) -> int {
    match padded_read(m, addr, HEADER_BYTES as int) {
        Ok(h) => le_u32(h, 0x34) as int,
        Err(_) => 0,
    }
}

/// Whether a candidate stands up to the snapshot: its base address and its
/// map list both lie in mappings of the index, its address verifies as a
/// DEX image with the size and the version that the candidate tells, and
/// its source is one of the two detectors.
#[verifier::opaque]
pub open spec fn is_confirmed(m: Seq<RegionView>, ix: Seq<MappingView>, c: CandidateView) -> bool {
    &&& index_contains(ix, c.addr)
    &&& index_contains(ix, c.addr + header_map_off(m, c.addr))
    &&& spec_verify(m, ix, c.addr, true) == Some((c.size, c.version))
    &&& (c.source == "MagicScan"@ || c.source == "PointerScan"@)
}

/// Whether every candidate of a list is confirmed.
pub open spec fn all_confirmed(m: Seq<RegionView>, ix: Seq<MappingView>, cs: Seq<CandidateView>) -> bool {
    forall|i: int| 0 <= i < cs.len() ==> is_confirmed(m, ix, #[trigger] cs[i])
}

/// Verifies that `addr` is the base of a DEX image. The source of the
/// result is left as `Unknown` for the caller to fill in.
pub fn verify_and_parse(
    mem: &MemoryImage,
    index: &MapIndex,
    addr: usize,
    allow_missing_magic: bool,
) -> (r: Option<DexFileResult>)
    ensures
        match r {
            Some(c) => spec_verify(mem@, index@, addr as int, allow_missing_magic) == Some(
                (c.size as int, c.version@),
            ) && c.addr == addr && c.source@ == "Unknown"@,
            None => spec_verify(mem@, index@, addr as int, allow_missing_magic) is None,
        },
{
    let header = match read_padded(mem, addr, HEADER_BYTES) {
        Ok(h) => h,
        Err(_) => {
            return None;
        },
    };
    let h = header.as_slice();
    let magic = read_magic(h, 0);
    if magic == Magic::Absent && !allow_missing_magic {
        return None;
    }
    let file_size = read_u32(h, 0x20);
    let header_size = read_u32(h, 0x24);
    let endian_tag = read_u32(h, 0x28);
    let map_off = read_u32(h, 0x34);
    if file_size < MIN_DEX_SIZE || file_size > MAX_DEX_SIZE {
        return None;
    }
    let version = match magic {
        Magic::Dex => {
            let mut digits: Vec<u8> = Vec::new();
            digits.push(h[4]);
            digits.push(h[5]);
            digits.push(h[6]);
            assert(digits@ =~= h@.subrange(4, 7));
            decode_lossy(digits.as_slice())
        },
        Magic::Cdex => "cdex".to_owned(),
        Magic::Absent => {
            if endian_tag != ENDIAN_CONSTANT && endian_tag != REVERSE_ENDIAN_CONSTANT {
                return None;
            }
            if header_size < MIN_HEADER_SIZE || header_size > MAX_HEADER_SIZE {
                return None;
            }
            if map_off < header_size || map_off >= file_size {
                return None;
            }
            let string_ids_off = read_u32(h, 0x3c);
            if string_ids_off < header_size || string_ids_off >= file_size {
                return None;
            }
            "unknown(wiped)".to_owned()
        },
    };
    let map_abs = match addr.checked_add(map_off as usize) {
        Some(a) => a,
        None => {
            assert(!index_contains(index@, addr + map_off));
            return None;
        },
    };
    if index.contains(map_abs).is_none() {
        return None;
    }
    let count_bytes = match read_padded(mem, map_abs, 4) {
        Ok(b) => b,
        Err(_) => {
            return None;
        },
    };
    let map_list_size = read_u32(count_bytes.as_slice(), 0);
    if map_list_size == 0 || map_list_size > MAX_MAP_LIST {
        return None;
    }
    Some(DexFileResult { addr, size: file_size as usize, version, source: "Unknown".to_owned() })
}

/// The candidate found at `addr` by the named detector.
pub open spec fn candidate(addr: int, found: (int, Seq<char>), source: Seq<char>) -> CandidateView {
    CandidateView { addr, size: found.0, version: found.1, source }
}

/// The number of positions that the magic detector looks at in a chunk of
/// `len` bytes: every fourth at which four bytes are left.
pub open spec fn magic_steps(len: int) -> int {
    len / 4
}

/// What the magic detector finds at the first `steps` positions of a chunk
/// that was read at `base`: where a magic stands and the address verifies,
/// a candidate of source `MagicScan`.
pub open spec fn magic_hits(
    m: Seq<RegionView>,
    ix: Seq<MappingView>,
    chunk: Seq<u8>,
    base: int,
    steps: int,
) -> Seq<CandidateView>
    decreases steps,
{
    if steps <= 0 {
        Seq::empty()
    } else {
        let before = magic_hits(m, ix, chunk, base, steps - 1);
        let at = 4 * (steps - 1);
        if magic_at(chunk, at) == Magic::Absent {
            before
        } else {
            match spec_verify(m, ix, base + at, false) {
                Some(found) => before.push(candidate(base + at, found, "MagicScan"@)),
                None => before,
            }
        }
    }
}

/// The magic detector: looks at every fourth position of the chunk and
/// verifies the address of each magic.
fn scan_buffer_magic(
    mem: &MemoryImage,
    index: &MapIndex,
    buf: &[u8],
    base_addr: usize,
    results: &mut Vec<DexFileResult>,
)
    requires
        base_addr + buf.len() <= usize::MAX,
        all_confirmed(mem@, index@, candidate_views(old(results)@)),
        forall|a: int| base_addr <= a < base_addr + buf.len() ==> index_contains(index@, a),
    ensures
        candidate_views(final(results)@) == candidate_views(old(results)@) + magic_hits(
            mem@,
            index@,
            buf@,
            base_addr as int,
            magic_steps(buf.len() as int),
        ),
        all_confirmed(mem@, index@, candidate_views(final(results)@)),
{
    let ghost start = candidate_views(results@);
    let n = buf.len();
    let mut i: usize = 0;
    let ghost mut steps: int = 0;
    if n < 4 {
        return ;
    }
    let limit = n - 4;
    while i <= limit
        invariant
            n == buf.len(),
            n >= 4,
            limit == n - 4,
            base_addr + n <= usize::MAX,
            i == 4 * steps,
            0 <= steps <= magic_steps(n as int),
            i > limit ==> steps == magic_steps(n as int),
            candidate_views(results@) == start + magic_hits(
                mem@,
                index@,
                buf@,
                base_addr as int,
                steps,
            ),
            all_confirmed(mem@, index@, candidate_views(results@)),
            forall|a: int| base_addr <= a < base_addr + n ==> index_contains(index@, a),
        decreases n - i,
    {
        let ghost before = candidate_views(results@);
        if read_magic(buf, i) != Magic::Absent {
            let addr = base_addr + i;
            match verify_and_parse(mem, index, addr, false) {
                Some(found) => {
                    let mut r = found;
                    r.source = "MagicScan".to_owned();
                    results.push(r);
                    proof {
                        reveal(is_confirmed);
                        let c = candidate(
                            addr as int,
                            spec_verify(mem@, index@, addr as int, false)->0,
                            "MagicScan"@,
                        );
                        assert(candidate_views(results@) =~= before.push(c));
                    }
                },
                None => {},
            }
        }
        proof {
            steps = steps + 1;
        }
        i += 4;
    }
}

/// Whether the pointer detector runs: deep search is asked for and
/// addresses are 64 bits wide.
pub open spec fn pointer_scan_enabled(deep_search: bool) -> bool {
    deep_search && usize::BITS == 64
}

/// Whether a pointer value is followed: it is not null, it is a multiple of
/// four, and an indexed mapping covers it.
pub open spec fn is_followed(ix: Seq<MappingView>, ptr: u64) -> bool {
    ptr != 0 && ptr % 4 == 0 && index_contains(ix, ptr as int)
}

/// What the pointer detector finds in the first `steps` eight-byte slots
/// of a chunk: where a slot holds a pointer that is followed and the
/// address verifies, with or without magic, a candidate of source
/// `PointerScan`.
pub open spec fn pointer_hits(
    m: Seq<RegionView>,
    ix: Seq<MappingView>,
    chunk: Seq<u8>,
    steps: int,
) -> Seq<CandidateView>
    decreases steps,
{
    if steps <= 0 {
        Seq::empty()
    } else {
        let before = pointer_hits(m, ix, chunk, steps - 1);
        let ptr = le_u64(chunk, 8 * (steps - 1));
        if !is_followed(ix, ptr) {
            before
        } else {
            match spec_verify(m, ix, ptr as int, true) {
                Some(found) => before.push(candidate(ptr as int, found, "PointerScan"@)),
                None => before,
            }
        }
    }
}

/// The pointer detector: reads every eight-byte slot of the chunk as a
/// little-endian pointer and verifies the addresses that it follows.
fn scan_buffer_pointers(
    mem: &MemoryImage,
    index: &MapIndex,
    buf: &[u8],
    results: &mut Vec<DexFileResult>,
)
    requires
        usize::BITS == 64,
        all_confirmed(mem@, index@, candidate_views(old(results)@)),
    ensures
        candidate_views(final(results)@) == candidate_views(old(results)@) + pointer_hits(
            mem@,
            index@,
            buf@,
            buf.len() as int / 8,
        ),
        all_confirmed(mem@, index@, candidate_views(final(results)@)),
{
    let ghost start = candidate_views(results@);
    let n = buf.len();
    let mut i: usize = 0;
    let ghost mut steps: int = 0;
    if n < 8 {
        return ;
    }
    let limit = n - 8;
    while i <= limit
        invariant
            usize::BITS == 64,
            n == buf.len(),
            n >= 8,
            limit == n - 8,
            i == 8 * steps,
            0 <= steps <= n as int / 8,
            i > limit ==> steps == n as int / 8,
            candidate_views(results@) == start + pointer_hits(mem@, index@, buf@, steps),
            all_confirmed(mem@, index@, candidate_views(results@)),
        decreases n - i,
    {
        let ghost before = candidate_views(results@);
        let ptr = read_u64(buf, i);
        if ptr != 0 && ptr % 4 == 0 {
            let addr = ptr as usize;
            if index.contains(addr).is_some() {
                match verify_and_parse(mem, index, addr, true) {
                    Some(found) => {
                        let mut r = found;
                        r.source = "PointerScan".to_owned();
                        results.push(r);
                        proof {
                            reveal(is_confirmed);
                            let c = candidate(
                                addr as int,
                                spec_verify(mem@, index@, addr as int, true)->0,
                                "PointerScan"@,
                            );
                            assert(candidate_views(results@) =~= before.push(c));
                        }
                    },
                    None => {},
                }
            }
        }
        proof {
            steps = steps + 1;
        }
        i += 8;
    }
}

/// What both detectors find in a chunk that was read at `base`: the hits of
/// the magic detector, then those of the pointer detector if it runs.
#[verifier::opaque]
pub open spec fn chunk_hits(
    m: Seq<RegionView>,
    ix: Seq<MappingView>,
    chunk: Seq<u8>,
    base: int,
    deep_search: bool,
) -> Seq<CandidateView> {
    magic_hits(m, ix, chunk, base, magic_steps(chunk.len() as int)) + if pointer_scan_enabled(
        deep_search,
    ) {
        pointer_hits(m, ix, chunk, chunk.len() as int / 8)
    } else {
        Seq::empty()
    }
}

/// The length of the chunk at offset `off` of a mapping of `size` bytes.
pub open spec fn chunk_len(size: int, off: int) -> int {
    if size - off < CHUNK_SIZE {
        size - off
    } else {
        CHUNK_SIZE as int
    }
}

/// The length of the chunk at offset `offset` of a mapping of `size` bytes.
pub fn chunk_length(size: usize, offset: usize) -> (len: usize)
    requires
        offset <= size,
    ensures
        len == chunk_len(size as int, offset as int),
{
    if size - offset < CHUNK_SIZE {
        size - offset
    } else {
        CHUNK_SIZE
    }
}

/// What is found in a mapping from offset `off` on. The mapping is read in
/// chunks of [`CHUNK_SIZE`] bytes; a chunk may come short; the first chunk
/// that cannot be read ends the mapping.
#[verifier::opaque]
pub open spec fn mapping_hits(
    m: Seq<RegionView>,
    ix: Seq<MappingView>,
    map: MappingView,
    deep_search: bool,
    off: int,
) -> Seq<CandidateView>
    decreases map.end - map.start - off,
{
    let size = map.end - map.start;
    if off < 0 || off >= size {
        Seq::empty()
    } else {
        match read_result(m, map.start + off, chunk_len(size, off)) {
            Err(_) => Seq::empty(),
            Ok(chunk) => chunk_hits(m, ix, chunk, map.start + off, deep_search) + mapping_hits(
                m,
                ix,
                map,
                deep_search,
                off + chunk_len(size, off),
            ),
        }
    }
}

/// Runs both detectors on a chunk that was read at `base_addr`.
fn scan_chunk(
    mem: &MemoryImage,
    index: &MapIndex,
    chunk: &[u8],
    base_addr: usize,
    results: &mut Vec<DexFileResult>,
    deep_search: bool,
)
    requires
        base_addr + chunk.len() <= usize::MAX,
        all_confirmed(mem@, index@, candidate_views(old(results)@)),
        forall|a: int| base_addr <= a < base_addr + chunk.len() ==> index_contains(index@, a),
    ensures
        candidate_views(final(results)@) == candidate_views(old(results)@) + chunk_hits(
            mem@,
            index@,
            chunk@,
            base_addr as int,
            deep_search,
        ),
        all_confirmed(mem@, index@, candidate_views(final(results)@)),
{
    let ghost before = candidate_views(results@);
    proof {
        reveal(chunk_hits);
    }
    scan_buffer_magic(mem, index, chunk, base_addr, results);
    let ghost magic = magic_hits(
        mem@,
        index@,
        chunk@,
        base_addr as int,
        magic_steps(chunk.len() as int),
    );
    if deep_search && usize::BITS == 64 {
        scan_buffer_pointers(mem, index, chunk, results);
        assert((before + magic) + pointer_hits(mem@, index@, chunk@, chunk.len() as int / 8)
            =~= before + (magic + pointer_hits(mem@, index@, chunk@, chunk.len() as int / 8)));
    }
}

/// Scans one mapping of the index, chunk by chunk.
fn scan_map_chunked(
    mem: &MemoryImage,
    index: &MapIndex,
    which: usize,
    results: &mut Vec<DexFileResult>,
    deep_search: bool,
)
    requires
        which < index@.len(),
        all_confirmed(mem@, index@, candidate_views(old(results)@)),
    ensures
        candidate_views(final(results)@) == candidate_views(old(results)@) + mapping_hits(
            mem@,
            index@,
            index@[which as int],
            deep_search,
            0,
        ),
        all_confirmed(mem@, index@, candidate_views(final(results)@)),
{
    proof {
        use_type_invariant(index);
        use_type_invariant(mem);
    }
    let ghost start = candidate_views(results@);
    let ghost map = index@[which as int];
    let ghost total = mapping_hits(mem@, index@, map, deep_search, 0);
    let range = index.get(which);
    let start_addr = range.start;
    let map_size = range.end - range.start;
    let mut offset: usize = 0;
    let mut open = true;
    let ghost mut done: Seq<CandidateView> = Seq::empty();
    while open && offset < map_size
        invariant
            crate::memory::image_wf(mem@),
            index_wf(index@),
            which < index@.len(),
            map == index@[which as int],
            start_addr == map.start,
            map_size == map.end - map.start,
            offset <= map_size,
            candidate_views(results@) == start + done,
            open ==> total == done + mapping_hits(mem@, index@, map, deep_search, offset as int),
            !open ==> total == done,
            all_confirmed(mem@, index@, candidate_views(results@)),
        decreases map_size - offset, if open { 1int } else { 0int },
    {
        let to_read = chunk_length(map_size, offset);
        let chunk_addr = start_addr + offset;
        match safe_read_memory(mem, chunk_addr, to_read) {
            Ok(chunk) => {
                proof {
                    assert forall|a: int|
                        chunk_addr <= a < chunk_addr + chunk@.len() implies index_contains(
                        index@,
                        a,
                    ) by {
                        assert(covers(index@[which as int], a));
                    }
                }
                scan_chunk(mem, index, chunk.as_slice(), chunk_addr, results, deep_search);
                proof {
                    let here = chunk_hits(mem@, index@, chunk@, chunk_addr as int, deep_search);
                    lemma_mapping_hits_step(mem@, index@, map, deep_search, offset as int, chunk@);
                    done = done + here;
                }
                offset += to_read;
            },
            Err(_) => {
                proof {
                    lemma_mapping_hits_stop(mem@, index@, map, deep_search, offset as int);
                }
                open = false;
            },
        }
    }
    proof {
        if open {
            lemma_mapping_hits_stop(mem@, index@, map, deep_search, offset as int);
        }
    }
}

/// Where a chunk can be read, what is found from its offset on is what is
/// found in it, then what is found after it.
proof fn lemma_mapping_hits_step(
    m: Seq<RegionView>,
    ix: Seq<MappingView>,
    map: MappingView,
    deep_search: bool,
    off: int,
    chunk: Seq<u8>,
)
    requires
        0 <= off < map.end - map.start,
        read_result(m, map.start + off, chunk_len(map.end - map.start, off)) == Ok::<
            Seq<u8>,
            crate::memory::ReadError,
        >(chunk),
    ensures
        mapping_hits(m, ix, map, deep_search, off) == chunk_hits(
            m,
            ix,
            chunk,
            map.start + off,
            deep_search,
        ) + mapping_hits(m, ix, map, deep_search, off + chunk_len(map.end - map.start, off)),
{
    reveal(mapping_hits);
}

/// Nothing is found from an offset on at which the mapping ends or cannot
/// be read.
proof fn lemma_mapping_hits_stop(
    m: Seq<RegionView>,
    ix: Seq<MappingView>,
    map: MappingView,
    deep_search: bool,
    off: int,
)
    requires
        off >= map.end - map.start || read_result(
            m,
            map.start + off,
            chunk_len(map.end - map.start, off),
        ) is Err,
    ensures
        mapping_hits(m, ix, map, deep_search, off) == Seq::<CandidateView>::empty(),
{
    reveal(mapping_hits);
}

/// Everything found in the first `upto` mappings of the index, in the
/// order of discovery.
pub open spec fn index_hits(
    m: Seq<RegionView>,
    ix: Seq<MappingView>,
    deep_search: bool,
    upto: int,
) -> Seq<CandidateView>
    decreases upto,
{
    if upto <= 0 {
        Seq::empty()
    } else {
        index_hits(m, ix, deep_search, upto - 1) + mapping_hits(
            m,
            ix,
            ix[upto - 1],
            deep_search,
            0,
        )
    }
}

/// Scans every mapping of the index and returns what was found, in the
/// order of discovery.
pub fn discover(mem: &MemoryImage, index: &MapIndex, deep_search: bool) -> (results: Vec<
    DexFileResult,
>)
    ensures
        candidate_views(results@) == index_hits(mem@, index@, deep_search, index@.len() as int),
        all_confirmed(mem@, index@, candidate_views(results@)),
{
    let mut results: Vec<DexFileResult> = Vec::new();
    let n = index.len();
    let mut i: usize = 0;
    while i < n
        invariant
            n == index@.len(),
            i <= n,
            candidate_views(results@) == index_hits(mem@, index@, deep_search, i as int),
            all_confirmed(mem@, index@, candidate_views(results@)),
        decreases n - i,
    {
        scan_map_chunked(mem, index, i, &mut results, deep_search);
        i += 1;
    }
    results
}

/// Addresses strictly ascend.
pub open spec fn ascending(s: Seq<CandidateView>) -> bool {
    forall|i: int, j: int| 0 <= i < j < s.len() ==> (#[trigger] s[i]).addr < (#[trigger] s[j]).addr
}

/// Whether `c` stands at position `k` of `raw` and nothing before it has
/// its address.
pub open spec fn is_first_at(raw: Seq<CandidateView>, k: int, c: CandidateView) -> bool {
    &&& 0 <= k < raw.len()
    &&& raw[k] == c
    &&& forall|j: int| 0 <= j < k ==> (#[trigger] raw[j]).addr != c.addr
}

/// Whether `c` is the first candidate of `raw` with its address.
pub open spec fn first_found(raw: Seq<CandidateView>, c: CandidateView) -> bool {
    exists|k: int| #[trigger] is_first_at(raw, k, c)
}

/// Whether some candidate of `s` has the address.
pub open spec fn has_addr(s: Seq<CandidateView>, addr: int) -> bool {
    exists|i: int| 0 <= i < s.len() && (#[trigger] s[i]).addr == addr
}

/// Whether `out` is `raw` sorted by address with one candidate left for
/// each address, the first that was discovered.
pub open spec fn is_digest(raw: Seq<CandidateView>, out: Seq<CandidateView>) -> bool {
    &&& ascending(out)
    &&& forall|i: int| 0 <= i < out.len() ==> first_found(raw, #[trigger] out[i])
    &&& forall|k: int| 0 <= k < raw.len() ==> has_addr(out, (#[trigger] raw[k]).addr)
}

/// A candidate whose address is already kept changes nothing.
proof fn lemma_digest_skip(raw: Seq<CandidateView>, out: Seq<CandidateView>, c: CandidateView, pos: int)
    requires
        is_digest(raw, out),
        0 <= pos < out.len(),
        out[pos].addr == c.addr,
    ensures
        is_digest(raw.push(c), out),
{
    let longer = raw.push(c);
    assert forall|i: int| 0 <= i < out.len() implies first_found(longer, #[trigger] out[i]) by {
        let k = choose|k: int| #[trigger] is_first_at(raw, k, out[i]);
        assert(is_first_at(longer, k, out[i]));
    }
}

/// A candidate whose address is new is kept at its place.
proof fn lemma_digest_insert(
    raw: Seq<CandidateView>,
    out: Seq<CandidateView>,
    c: CandidateView,
    pos: int,
)
    requires
        is_digest(raw, out),
        0 <= pos <= out.len(),
        forall|p: int| 0 <= p < pos ==> (#[trigger] out[p]).addr < c.addr,
        pos < out.len() ==> out[pos].addr > c.addr,
    ensures
        is_digest(raw.push(c), out.insert(pos, c)),
{
    let longer = raw.push(c);
    let kept = out.insert(pos, c);
    assert forall|i: int| 0 <= i < kept.len() implies first_found(longer, #[trigger] kept[i]) by {
        if i == pos {
            assert forall|j: int| 0 <= j < raw.len() implies (#[trigger] longer[j]).addr
                != c.addr by {}
            assert(is_first_at(longer, raw.len() as int, c));
        } else {
            let a = if i < pos {
                i
            } else {
                i - 1
            };
            let k = choose|k: int| #[trigger] is_first_at(raw, k, out[a]);
            assert forall|j: int| 0 <= j < k implies (#[trigger] longer[j]).addr != out[a].addr by {}
            assert(is_first_at(longer, k, out[a]));
        }
    }
    assert forall|k: int| 0 <= k < longer.len() implies has_addr(kept, (#[trigger] longer[k]).addr) by {
        if k < raw.len() {
            let q = choose|q: int| 0 <= q < out.len() && (#[trigger] out[q]).addr == raw[k].addr;
            if q < pos {
                assert(kept[q] == out[q]);
            } else {
                assert(kept[q + 1] == out[q]);
            }
        } else {
            assert(kept[pos] == c);
        }
    }
}

/// Sorts candidates by address and keeps, for each address, the one that
/// was discovered first.
pub fn sort_dedup(raw: &Vec<DexFileResult>) -> (out: Vec<DexFileResult>)
    ensures
        is_digest(candidate_views(raw@), candidate_views(out@)),
{
    let ghost rv = candidate_views(raw@);
    let mut out: Vec<DexFileResult> = Vec::new();
    let mut k: usize = 0;
    while k < raw.len()
        invariant
            k <= raw.len(),
            rv == candidate_views(raw@),
            is_digest(rv.take(k as int), candidate_views(out@)),
        decreases raw.len() - k,
    {
        let c = &raw[k];
        let ghost ov = candidate_views(out@);
        let mut pos: usize = 0;
        while pos < out.len() && out[pos].addr < c.addr
            invariant
                pos <= out.len(),
                ov == candidate_views(out@),
                forall|p: int| 0 <= p < pos ==> (#[trigger] ov[p]).addr < c.addr,
            decreases out.len() - pos,
        {
            pos += 1;
        }
        assert(rv.take(k + 1) =~= rv.take(k as int).push(rv[k as int]));
        if pos < out.len() && out[pos].addr == c.addr {
            proof {
                lemma_digest_skip(rv.take(k as int), ov, c@, pos as int);
            }
        } else {
            let copy = DexFileResult {
                addr: c.addr,
                size: c.size,
                version: c.version.clone(),
                source: c.source.clone(),
            };
            proof {
                lemma_digest_insert(rv.take(k as int), ov, c@, pos as int);
            }
            out.insert(pos, copy);
            assert(candidate_views(out@) =~= ov.insert(pos as int, c@));
        }
        k += 1;
    }
    assert(rv.take(raw.len() as int) =~= rv);
    out
}

/// Scans the snapshot for DEX images.
///
/// Every mapping of the index is read in chunks and searched by the magic
/// detector and, if `deep_search` is set on a 64-bit machine, by the pointer
/// detector. The result holds one candidate for each address found, the
/// first in the order of discovery, sorted by address.
pub fn scan_memory(mem: &MemoryImage, index: &MapIndex, deep_search: bool) -> (results: Vec<
    DexFileResult,
>)
    ensures
        is_digest(
            index_hits(mem@, index@, deep_search, index@.len() as int),
            candidate_views(results@),
        ),
        ascending(candidate_views(results@)),
        all_confirmed(mem@, index@, candidate_views(results@)),
{
    let raw = discover(mem, index, deep_search);
    let out = sort_dedup(&raw);
    out
}

} // verus!
