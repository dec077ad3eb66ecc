//! What the scan cannot miss: an image that a detector looks at and that
//! verifies is among the results.

use vstd::prelude::*;
use crate::bytes::le_u64;
use crate::dex_scanner::{
    candidate, chunk_hits, chunk_len, has_addr, index_hits, is_digest, is_followed, magic_at,
    magic_hits, magic_steps, mapping_hits, pointer_hits, pointer_scan_enabled, spec_verify,
    CandidateView, Magic, MappingView,
};
use crate::memory::{read_result, ReadError, RegionView};

verus! {

/// Whether the scan of a mapping that has come to offset `from` comes to
/// offset `off`: every chunk in between can be read.
pub open spec fn scan_reaches(m: Seq<RegionView>, map: MappingView, from: int, off: int) -> bool
    decreases off - from,
{
    let size = map.end - map.start;
    if from == off {
        true
    } else if from < off && 0 <= from < size {
        &&& read_result(m, map.start + from, chunk_len(size, from)) is Ok
        &&& from + chunk_len(size, from) <= off
        &&& scan_reaches(m, map, from + chunk_len(size, from), off)
    } else {
        false
    }
}

/// An address is in a concatenation if it is in either part.
proof fn lemma_has_addr_concat(a: Seq<CandidateView>, b: Seq<CandidateView>, addr: int)
    ensures
        has_addr(a, addr) || has_addr(b, addr) ==> has_addr(a + b, addr),
{
    if has_addr(a, addr) {
        let i = choose|i: int| 0 <= i < a.len() && (#[trigger] a[i]).addr == addr;
        assert((a + b)[i] == a[i]);
    } else if has_addr(b, addr) {
        let i = choose|i: int| 0 <= i < b.len() && (#[trigger] b[i]).addr == addr;
        assert((a + b)[a.len() + i] == b[i]);
    }
}

/// A magic at a position that the detector looks at, at an address that
/// verifies, is among the magic hits.
proof fn lemma_magic_hit(
    m: Seq<RegionView>,
    ix: Seq<MappingView>,
    chunk: Seq<u8>,
    base: int,
    steps: int,
    at: int,
)
    requires
        0 <= at < steps,
        magic_at(chunk, 4 * at) != Magic::Absent,
        spec_verify(m, ix, base + 4 * at, false) is Some,
    ensures
        has_addr(magic_hits(m, ix, chunk, base, steps), base + 4 * at),
    decreases steps,
{
    let hits = magic_hits(m, ix, chunk, base, steps);
    if at == steps - 1 {
        assert(hits[hits.len() - 1].addr == base + 4 * at);
    } else {
        lemma_magic_hit(m, ix, chunk, base, steps - 1, at);
        let before = magic_hits(m, ix, chunk, base, steps - 1);
        let i = choose|i: int| 0 <= i < before.len() && (#[trigger] before[i]).addr == base + 4 * at;
        assert(hits[i] == before[i]);
    }
}

/// A pointer that is followed, in a slot that the detector looks at, to an
/// address that verifies, is among the pointer hits.
proof fn lemma_pointer_hit(
    m: Seq<RegionView>,
    ix: Seq<MappingView>,
    chunk: Seq<u8>,
    steps: int,
    at: int,
)
    requires
        0 <= at < steps,
        is_followed(ix, le_u64(chunk, 8 * at)),
        spec_verify(m, ix, le_u64(chunk, 8 * at) as int, true) is Some,
    ensures
        has_addr(pointer_hits(m, ix, chunk, steps), le_u64(chunk, 8 * at) as int),
    decreases steps,
{
    let hits = pointer_hits(m, ix, chunk, steps);
    let addr = le_u64(chunk, 8 * at) as int;
    if at == steps - 1 {
        assert(hits[hits.len() - 1].addr == addr);
    } else {
        lemma_pointer_hit(m, ix, chunk, steps - 1, at);
        let before = pointer_hits(m, ix, chunk, steps - 1);
        let i = choose|i: int| 0 <= i < before.len() && (#[trigger] before[i]).addr == addr;
        assert(hits[i] == before[i]);
    }
}

/// What is found in a chunk that the scan of a mapping comes to is found in
/// the mapping.
proof fn lemma_chunk_in_mapping(
    m: Seq<RegionView>,
    ix: Seq<MappingView>,
    map: MappingView,
    deep_search: bool,
    from: int,
    off: int,
    chunk: Seq<u8>,
    addr: int,
)
    requires
        scan_reaches(m, map, from, off),
        0 <= off < map.end - map.start,
        read_result(m, map.start + off, chunk_len(map.end - map.start, off)) == Ok::<
            Seq<u8>,
            ReadError,
        >(chunk),
        has_addr(chunk_hits(m, ix, chunk, map.start + off, deep_search), addr),
    ensures
        has_addr(mapping_hits(m, ix, map, deep_search, from), addr),
    decreases off - from,
{
    reveal(mapping_hits);
    let size = map.end - map.start;
    if from == off {
        lemma_has_addr_concat(
            chunk_hits(m, ix, chunk, map.start + off, deep_search),
            mapping_hits(m, ix, map, deep_search, off + chunk_len(size, off)),
            addr,
        );
    } else {
        let next = from + chunk_len(size, from);
        lemma_chunk_in_mapping(m, ix, map, deep_search, next, off, chunk, addr);
        let here = read_result(m, map.start + from, chunk_len(size, from))->Ok_0;
        lemma_has_addr_concat(
            chunk_hits(m, ix, here, map.start + from, deep_search),
            mapping_hits(m, ix, map, deep_search, next),
            addr,
        );
    }
}

/// What is found in a mapping of the index is found in the index.
proof fn lemma_mapping_in_index(
    m: Seq<RegionView>,
    ix: Seq<MappingView>,
    deep_search: bool,
    upto: int,
    which: int,
    addr: int,
)
    requires
        0 <= which < upto,
        has_addr(mapping_hits(m, ix, ix[which], deep_search, 0), addr),
    ensures
        has_addr(index_hits(m, ix, deep_search, upto), addr),
    decreases upto,
{
    if which < upto - 1 {
        lemma_mapping_in_index(m, ix, deep_search, upto - 1, which, addr);
    }
    lemma_has_addr_concat(
        index_hits(m, ix, deep_search, upto - 1),
        mapping_hits(m, ix, ix[upto - 1], deep_search, 0),
        addr,
    );
}

/// The magic detector misses nothing that it looks at: if the scan of a
/// mapping comes to a chunk, and a magic stands in the chunk at a multiple
/// of four, and its address verifies, then the
/// results of the scan hold a candidate at that address.
pub proof fn lemma_magic_is_found(
    m: Seq<RegionView>,
    ix: Seq<MappingView>,
    deep_search: bool,
    which: int,
    off: int,
    chunk: Seq<u8>,
    at: int,
    results: Seq<CandidateView>,
)
    requires
        0 <= which < ix.len(),
        scan_reaches(m, ix[which], 0, off),
        0 <= off < ix[which].end - ix[which].start,
        read_result(m, ix[which].start + off, chunk_len(ix[which].end - ix[which].start, off))
            == Ok::<Seq<u8>, ReadError>(chunk),
        0 <= at,
        at % 4 == 0,
        at + 4 <= chunk.len(),
        magic_at(chunk, at) != Magic::Absent,
        spec_verify(m, ix, ix[which].start + off + at, false) is Some,
        is_digest(index_hits(m, ix, deep_search, ix.len() as int), results),
    ensures
        has_addr(results, ix[which].start + off + at),
{
    let map = ix[which];
    let base = map.start + off;
    let addr = base + at;
    let steps = magic_steps(chunk.len() as int);
    lemma_magic_hit(m, ix, chunk, base, steps, at / 4);
    reveal(chunk_hits);
    lemma_has_addr_concat(
        magic_hits(m, ix, chunk, base, steps),
        if pointer_scan_enabled(deep_search) {
            pointer_hits(m, ix, chunk, chunk.len() as int / 8)
        } else {
            Seq::empty()
        },
        addr,
    );
    lemma_chunk_in_mapping(m, ix, map, deep_search, 0, off, chunk, addr);
    lemma_mapping_in_index(m, ix, deep_search, ix.len() as int, which, addr);
}

/// The pointer detector misses nothing that it looks at: if it runs, and
/// the scan of a mapping comes to a chunk, and a slot of the chunk at a
/// multiple of eight holds a pointer that is followed to an address that
/// verifies, then the results of the scan hold a candidate at that address.
pub proof fn lemma_pointer_is_found(
    m: Seq<RegionView>,
    ix: Seq<MappingView>,
    deep_search: bool,
    which: int,
    off: int,
    chunk: Seq<u8>,
    at: int,
    results: Seq<CandidateView>,
)
    requires
        pointer_scan_enabled(deep_search),
        0 <= which < ix.len(),
        scan_reaches(m, ix[which], 0, off),
        0 <= off < ix[which].end - ix[which].start,
        read_result(m, ix[which].start + off, chunk_len(ix[which].end - ix[which].start, off))
            == Ok::<Seq<u8>, ReadError>(chunk),
        0 <= at,
        at % 8 == 0,
        at + 8 <= chunk.len(),
        is_followed(ix, le_u64(chunk, at)),
        spec_verify(m, ix, le_u64(chunk, at) as int, true) is Some,
        is_digest(index_hits(m, ix, deep_search, ix.len() as int), results),
    ensures
        has_addr(results, le_u64(chunk, at) as int),
{
    let map = ix[which];
    let base = map.start + off;
    let addr = le_u64(chunk, at) as int;
    lemma_pointer_hit(m, ix, chunk, chunk.len() as int / 8, at / 8);
    reveal(chunk_hits);
    lemma_has_addr_concat(
        magic_hits(m, ix, chunk, base, magic_steps(chunk.len() as int)),
        pointer_hits(m, ix, chunk, chunk.len() as int / 8),
        addr,
    );
    lemma_chunk_in_mapping(m, ix, map, deep_search, 0, off, chunk, addr);
    lemma_mapping_in_index(m, ix, deep_search, ix.len() as int, which, addr);
}

/// No address is kept twice: the candidates of a digest differ in their
/// addresses.
pub proof fn lemma_one_candidate_for_each_address(
    raw: Seq<CandidateView>,
    out: Seq<CandidateView>,
    i: int,
    j: int,
)
    requires
        is_digest(raw, out),
        0 <= i < out.len(),
        0 <= j < out.len(),
        out[i].addr == out[j].addr,
    ensures
        i == j,
{
}

} // verus!
