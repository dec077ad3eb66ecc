use dex_unpacker::dex_scanner::{
    chunk_length, retains, scan_memory, sort_dedup, verify_and_parse, DexFileResult, MapIndex,
    Mapping, CHUNK_SIZE,
};
use dex_unpacker::memory::{MemoryImage, Region};

const BASE: usize = 0x7100_0000;
const OTHER: usize = 0x7200_0000;

fn mapping(start: usize, len: usize) -> Mapping {
    Mapping { start, end: start + len, readable: true, path: None }
}

fn backed(start: usize, len: usize, path: &str) -> Mapping {
    Mapping { start, end: start + len, readable: true, path: Some(path.to_string()) }
}

fn write_u32(buf: &mut Vec<u8>, at: usize, v: u32) {
    buf[at..at + 4].copy_from_slice(&v.to_le_bytes());
}

/// A buffer of `len` bytes that starts with a header of the smallest DEX
/// image: file size, header size and map offset are all 0x70 and the map
/// list, which holds one entry, follows the header.
fn smallest_dex(len: usize) -> Vec<u8> {
    let mut buf = vec![0u8; len.max(0x38)];
    buf[..8].copy_from_slice(b"dex\n035\0");
    write_u32(&mut buf, 0x20, 0x70);
    write_u32(&mut buf, 0x24, 0x70);
    write_u32(&mut buf, 0x28, 0x12345678);
    write_u32(&mut buf, 0x34, 0x70);
    if len >= 0x74 {
        write_u32(&mut buf, 0x70, 1);
    }
    buf
}

/// A buffer of `len` bytes that starts with a header which stands the
/// checks made where the magic is gone.
fn wiped_dex(len: usize) -> Vec<u8> {
    let mut buf = smallest_dex(len);
    buf[..4].copy_from_slice(&[0, 0, 0, 0]);
    write_u32(&mut buf, 0x20, 0x1000);
    write_u32(&mut buf, 0x3c, 0x70);
    buf
}

fn snapshot(regions: Vec<(usize, Vec<u8>)>) -> (MemoryImage, MapIndex) {
    let listing: Vec<Mapping> = regions.iter().map(|(base, b)| mapping(*base, b.len())).collect();
    let mem = MemoryImage::from_regions(
        regions.into_iter().map(|(base, bytes)| Region { base, bytes }).collect(),
    )
    .unwrap();
    (mem, MapIndex::build(&listing).unwrap())
}

fn summary(found: &[DexFileResult]) -> Vec<(usize, usize, String, String)> {
    found.iter().map(|c| (c.addr, c.size, c.version.clone(), c.source.clone())).collect()
}

#[test]
fn magic_scan_finds_the_image() {
    let (mem, index) = snapshot(vec![(BASE, smallest_dex(0x1000))]);
    for deep in [false, true] {
        let found = scan_memory(&mem, &index, deep);
        assert_eq!(summary(&found), vec![(BASE, 0x70, "035".to_string(), "MagicScan".to_string())]);
    }
}

#[test]
fn pointer_scan_finds_a_wiped_image() {
    let mut pointers = vec![0u8; 0x1000];
    pointers[0x18..0x20].copy_from_slice(&(BASE as u64).to_le_bytes());
    let (mem, index) = snapshot(vec![(BASE, wiped_dex(0x1000)), (OTHER, pointers)]);
    let found = scan_memory(&mem, &index, true);
    assert_eq!(
        summary(&found),
        vec![(BASE, 0x1000, "unknown(wiped)".to_string(), "PointerScan".to_string())]
    );
    assert!(scan_memory(&mem, &index, false).is_empty());
}

#[test]
fn a_wiped_image_needs_its_map_list_inside_the_file() {
    // with the magic gone, a map list at the very end of the declared file is refused
    let mut wiped = smallest_dex(0x1000);
    wiped[..4].copy_from_slice(&[0, 0, 0, 0]);
    let mut pointers = vec![0u8; 0x1000];
    pointers[..8].copy_from_slice(&(BASE as u64).to_le_bytes());
    let (mem, index) = snapshot(vec![(BASE, wiped), (OTHER, pointers)]);
    assert!(scan_memory(&mem, &index, true).is_empty());
    assert!(verify_and_parse(&mem, &index, BASE, true).is_none());
}

#[test]
fn both_detectors_on_one_address_give_one_candidate() {
    let mut pointers = vec![0u8; 0x1000];
    pointers[..8].copy_from_slice(&(BASE as u64).to_le_bytes());
    pointers[0x100..0x108].copy_from_slice(&(BASE as u64).to_le_bytes());
    // the image lies above the pointers: the pointer detector comes first
    let (mem, index) = snapshot(vec![(0x7000_0000, pointers.clone()), (BASE, smallest_dex(0x1000))]);
    let found = scan_memory(&mem, &index, true);
    assert_eq!(summary(&found), vec![(BASE, 0x70, "035".to_string(), "PointerScan".to_string())]);
    // the image lies below the pointers: the magic detector comes first
    let (mem, index) = snapshot(vec![(BASE, smallest_dex(0x1000)), (OTHER, pointers)]);
    let found = scan_memory(&mem, &index, true);
    assert_eq!(summary(&found), vec![(BASE, 0x70, "035".to_string(), "MagicScan".to_string())]);
}

#[test]
fn candidates_come_out_in_ascending_order() {
    let mut second = vec![0u8; 0x1000];
    second[0x800..0x800 + 0x74].copy_from_slice(&smallest_dex(0x74));
    second[0x100..0x100 + 0x74].copy_from_slice(&smallest_dex(0x74));
    // a pointer in the first region to an image in the second, found before the magic scan reaches it
    let mut first = smallest_dex(0x1000);
    first[0x200..0x208].copy_from_slice(&((OTHER + 0x800) as u64).to_le_bytes());
    let (mem, index) = snapshot(vec![(BASE, first), (OTHER, second)]);
    let found = scan_memory(&mem, &index, true);
    let addrs: Vec<usize> = found.iter().map(|c| c.addr).collect();
    assert_eq!(addrs, vec![BASE, OTHER + 0x100, OTHER + 0x800]);
    assert_eq!(found[2].source, "PointerScan");
    assert_eq!(found[1].source, "MagicScan");
    for pair in found.windows(2) {
        assert!(pair[0].addr < pair[1].addr);
    }
    for c in &found {
        assert!(index.contains(c.addr).is_some());
        assert!(index.contains(c.addr + 0x70).is_some());
    }
}

#[test]
fn a_compact_image_is_found_by_its_magic() {
    let mut buf = smallest_dex(0x1000);
    buf[..8].copy_from_slice(b"cdex001\0");
    let (mem, index) = snapshot(vec![(BASE, buf)]);
    let found = scan_memory(&mem, &index, false);
    assert_eq!(summary(&found), vec![(BASE, 0x70, "cdex".to_string(), "MagicScan".to_string())]);
}

#[test]
fn the_version_is_what_follows_the_magic() {
    let mut buf = smallest_dex(0x1000);
    buf[4..7].copy_from_slice(b"039");
    let (mem, index) = snapshot(vec![(BASE, buf)]);
    assert_eq!(verify_and_parse(&mem, &index, BASE, false).unwrap().version, "039");
    let mut buf = smallest_dex(0x1000);
    buf[4..7].copy_from_slice(&[b'0', 0xff, b'5']);
    let (mem, index) = snapshot(vec![(BASE, buf)]);
    assert_eq!(verify_and_parse(&mem, &index, BASE, false).unwrap().version, "0\u{fffd}5");
}

#[test]
fn verification_leaves_the_source_open() {
    let (mem, index) = snapshot(vec![(BASE, smallest_dex(0x1000))]);
    let c = verify_and_parse(&mem, &index, BASE, false).unwrap();
    assert_eq!((c.addr, c.size), (BASE, 0x70));
    assert_eq!(c.source, "Unknown");
    assert!(verify_and_parse(&mem, &index, BASE, true).is_some());
}

#[test]
fn the_file_size_must_lie_within_the_limits() {
    for (size, ok) in [(0x6f, false), (0x70, true), (200 * 1024 * 1024, true), (200 * 1024 * 1024 + 1, false)] {
        let mut buf = smallest_dex(0x1000);
        write_u32(&mut buf, 0x20, size);
        let (mem, index) = snapshot(vec![(BASE, buf)]);
        assert_eq!(verify_and_parse(&mem, &index, BASE, false).is_some(), ok, "size {:#x}", size);
    }
}

#[test]
fn the_map_list_must_hold_one_to_a_thousand_entries() {
    for (count, ok) in [(0, false), (1, true), (1000, true), (1001, false)] {
        let mut buf = smallest_dex(0x1000);
        write_u32(&mut buf, 0x70, count);
        let (mem, index) = snapshot(vec![(BASE, buf)]);
        assert_eq!(verify_and_parse(&mem, &index, BASE, false).is_some(), ok, "count {}", count);
    }
}

#[test]
fn the_map_list_must_lie_in_an_indexed_mapping() {
    let mut buf = smallest_dex(0x1000);
    write_u32(&mut buf, 0x34, 0x2000);
    let (mem, index) = snapshot(vec![(BASE, buf)]);
    assert!(verify_and_parse(&mem, &index, BASE, false).is_none());
    // in a mapping of another region it is accepted
    let mut buf = smallest_dex(0x1000);
    write_u32(&mut buf, 0x34, (OTHER - BASE) as u32);
    let mut list = vec![0u8; 0x10];
    write_u32(&mut list, 0, 3);
    let (mem, index) = snapshot(vec![(BASE, buf), (OTHER, list)]);
    assert!(verify_and_parse(&mem, &index, BASE, false).is_some());
    // at the top of the address space the sum has no address
    let mut buf = smallest_dex(0x1000);
    write_u32(&mut buf, 0x34, u32::MAX);
    let top = usize::MAX - 0x1000;
    let (mem, index) = snapshot(vec![(top, buf)]);
    assert!(verify_and_parse(&mem, &index, top, false).is_none());
}

#[test]
fn a_map_list_in_unread_memory_is_refused() {
    // the mapping is larger than what could be read of it
    let mem = MemoryImage::from_regions(vec![Region { base: BASE, bytes: smallest_dex(0x70) }]).unwrap();
    let index = MapIndex::build(&vec![mapping(BASE, 0x1000)]).unwrap();
    assert!(verify_and_parse(&mem, &index, BASE, false).is_none());
    assert!(scan_memory(&mem, &index, true).is_empty());
}

#[test]
fn a_header_cut_short_is_filled_with_zeros() {
    // only the first 0x38 bytes of the header can be read; the map list lies elsewhere
    let mut buf = smallest_dex(0x38);
    write_u32(&mut buf, 0x34, (OTHER - BASE) as u32);
    let mut list = vec![0u8; 4];
    write_u32(&mut list, 0, 1);
    let (mem, index) = snapshot(vec![(BASE, buf), (OTHER, list)]);
    assert!(verify_and_parse(&mem, &index, BASE, false).is_some());
    assert!(verify_and_parse(&mem, &index, BASE + 0x38, false).is_none());
}

#[test]
fn wiped_headers_are_held_to_every_check() {
    let accepted = |buf: Vec<u8>| {
        let (mem, index) = snapshot(vec![(BASE, buf)]);
        verify_and_parse(&mem, &index, BASE, true).is_some()
    };
    assert!(accepted(wiped_dex(0x1000)));
    let (mem, index) = snapshot(vec![(BASE, wiped_dex(0x1000))]);
    assert!(verify_and_parse(&mem, &index, BASE, false).is_none());
    let with = |at: usize, v: u32| {
        let mut buf = wiped_dex(0x1000);
        write_u32(&mut buf, at, v);
        buf
    };
    // endian tag
    assert!(accepted(with(0x28, 0x78563412)));
    assert!(!accepted(with(0x28, 0x12345679)));
    assert!(!accepted(with(0x28, 0)));
    // header size
    assert!(!accepted(with(0x24, 0x3f)));
    assert!(accepted(with(0x24, 0x40)));
    assert!(!accepted(with(0x24, 0x201)));
    // file size
    assert!(!accepted(with(0x20, 0x6f)));
    assert!(!accepted(with(0x20, 200 * 1024 * 1024 + 1)));
    // map offset within [header size, file size)
    assert!(!accepted(with(0x34, 0x6f)));
    assert!(!accepted(with(0x34, 0x1000)));
    // string ids offset within [header size, file size)
    assert!(!accepted(with(0x3c, 0x6f)));
    assert!(!accepted(with(0x3c, 0x1000)));
    assert!(accepted(with(0x3c, 0xfff)));
    // a header size of 0x200 moves both lower bounds
    let mut buf = with(0x24, 0x200);
    write_u32(&mut buf, 0x34, 0x200);
    write_u32(&mut buf, 0x3c, 0x200);
    write_u32(&mut buf, 0x200, 1);
    assert!(accepted(buf));
}

#[test]
fn pointers_are_followed_only_if_aligned_and_mapped() {
    let run = |ptr: u64| {
        let mut pointers = vec![0u8; 0x100];
        pointers[8..16].copy_from_slice(&ptr.to_le_bytes());
        let mut region = vec![0u8; 0x1000];
        region[0x10..0x10 + 0x100].copy_from_slice(&wiped_dex(0x100));
        region[2..2 + 0x100].copy_from_slice(&wiped_dex(0x100));
        region[0x10..0x10 + 0x100].copy_from_slice(&wiped_dex(0x100));
        let (mem, index) = snapshot(vec![(BASE, region), (OTHER, pointers)]);
        scan_memory(&mem, &index, true).len()
    };
    assert_eq!(run((BASE + 0x10) as u64), 1);
    assert_eq!(run(0), 0);
    assert_eq!(run((BASE + 0x12) as u64), 0);
    assert_eq!(run(0x10), 0);
}

#[test]
fn a_pointer_slot_is_eight_bytes_on_an_eight_byte_step() {
    let mut pointers = vec![0u8; 0x100];
    // not on a multiple of eight: not seen
    pointers[4..12].copy_from_slice(&(BASE as u64).to_le_bytes());
    let (mem, index) = snapshot(vec![(BASE, wiped_dex(0x1000)), (OTHER, pointers)]);
    assert!(scan_memory(&mem, &index, true).is_empty());
}

#[test]
fn the_magic_detector_steps_by_four() {
    let place = |at: usize, len: usize| {
        let mut region = vec![0u8; len];
        let image = smallest_dex(0x74);
        let n = image.len().min(len - at);
        region[at..at + n].copy_from_slice(&image[..n]);
        let (mem, index) = snapshot(vec![(BASE, region)]);
        scan_memory(&mem, &index, false).iter().map(|c| c.addr - BASE).collect::<Vec<usize>>()
    };
    assert_eq!(place(0, 0x1000), vec![0]);
    assert_eq!(place(4, 0x1000), vec![4]);
    assert_eq!(place(0x400, 0x1000), vec![0x400]);
    assert_eq!(place(0x1000 - 0x74, 0x1000), vec![0x1000 - 0x74]);
    assert_eq!(place(2, 0x1000), Vec::<usize>::new());
    assert_eq!(place(0x801, 0x1000), Vec::<usize>::new());
    // a region that is no multiple of four long: its last bytes hold no position
    assert_eq!(place(0, 0x76), vec![0]);
}

#[test]
fn a_magic_in_the_last_four_bytes_of_a_chunk_is_looked_at() {
    // a chunk of eight bytes: the header at its fourth byte goes on in the region after it
    let mut image = smallest_dex(0x74);
    write_u32(&mut image, 0x34, (OTHER - BASE - 4) as u32);
    let mut list = vec![0u8; 4];
    write_u32(&mut list, 0, 1);
    let mem = MemoryImage::from_regions(vec![
        Region { base: BASE, bytes: [vec![0u8; 4], image].concat() },
        Region { base: OTHER, bytes: list },
    ])
    .unwrap();
    let index = MapIndex::build(&vec![mapping(BASE, 8), mapping(OTHER, 4)]).unwrap();
    let found = scan_memory(&mem, &index, false);
    assert_eq!(found.iter().map(|c| c.addr).collect::<Vec<usize>>(), vec![BASE + 4]);
    // the same in a chunk of four bytes
    let mut image = smallest_dex(0x74);
    write_u32(&mut image, 0x34, (OTHER - BASE) as u32);
    let mut list = vec![0u8; 4];
    write_u32(&mut list, 0, 1);
    let mem = MemoryImage::from_regions(vec![
        Region { base: BASE, bytes: image },
        Region { base: OTHER, bytes: list },
    ])
    .unwrap();
    let index = MapIndex::build(&vec![mapping(BASE, 4), mapping(OTHER, 4)]).unwrap();
    assert_eq!(scan_memory(&mem, &index, false).len(), 1);
    let index = MapIndex::build(&vec![mapping(BASE, 3), mapping(OTHER, 4)]).unwrap();
    assert!(scan_memory(&mem, &index, false).is_empty());
}

#[test]
fn a_mapping_is_read_in_chunks() {
    // an image that starts exactly at the second chunk
    let mut region = vec![0u8; CHUNK_SIZE + 0x1000];
    region[CHUNK_SIZE..CHUNK_SIZE + 0x74].copy_from_slice(&smallest_dex(0x74));
    let (mem, index) = snapshot(vec![(BASE, region)]);
    let found = scan_memory(&mem, &index, false);
    assert_eq!(found.iter().map(|c| c.addr).collect::<Vec<usize>>(), vec![BASE + CHUNK_SIZE]);
    // a magic in the last four bytes of the first chunk is found
    let mut region = vec![0u8; CHUNK_SIZE + 0x1000];
    region[CHUNK_SIZE - 4..CHUNK_SIZE + 0x70].copy_from_slice(&smallest_dex(0x74));
    let (mem, index) = snapshot(vec![(BASE, region)]);
    let found = scan_memory(&mem, &index, false);
    assert_eq!(found.iter().map(|c| c.addr).collect::<Vec<usize>>(), vec![BASE + CHUNK_SIZE - 4]);
    // and so is one eight bytes before the end
    let mut region = vec![0u8; CHUNK_SIZE + 0x1000];
    region[CHUNK_SIZE - 8..CHUNK_SIZE + 0x6c].copy_from_slice(&smallest_dex(0x74));
    let (mem, index) = snapshot(vec![(BASE, region)]);
    assert_eq!(scan_memory(&mem, &index, false).len(), 1);
}

#[test]
fn a_mapping_is_scanned_as_far_as_it_can_be_read() {
    // the mapping is longer than its readable part; the image lies in the readable part
    let mem = MemoryImage::from_regions(vec![Region { base: BASE, bytes: smallest_dex(0x1000) }]).unwrap();
    let index = MapIndex::build(&vec![mapping(BASE, 0x40_0000)]).unwrap();
    assert_eq!(scan_memory(&mem, &index, true).len(), 1);
    // memory that no mapping of the index covers is not scanned
    let index = MapIndex::build(&vec![mapping(OTHER, 0x1000)]).unwrap();
    assert!(scan_memory(&mem, &index, true).is_empty());
}

#[test]
fn only_readable_mappings_without_excluded_devices_are_retained() {
    assert!(retains(&mapping(0x1000, 0x1000)));
    assert!(!retains(&Mapping { start: 0x1000, end: 0x2000, readable: false, path: None }));
    assert!(!retains(&mapping(0x1000, 0)));
    assert!(retains(&backed(0x1000, 0x1000, "/system/lib64/libart.so")));
    assert!(retains(&backed(0x1000, 0x1000, "")));
    assert!(!retains(&backed(0x1000, 0x1000, "/dev/binder")));
    assert!(!retains(&backed(0x1000, 0x1000, "/dev/")));
    assert!(retains(&backed(0x1000, 0x1000, "/dev")));
    assert!(retains(&backed(0x1000, 0x1000, "/dev/ashmem/dalvik-main space (deleted)")));
    assert!(retains(&backed(0x1000, 0x1000, "/dev/zero")));
    assert!(retains(&backed(0x1000, 0x1000, "/dev/__properties__/u:object_r:zero_prop")));
    assert!(!retains(&backed(0x1000, 0x1000, "/dev/ashme")));
    assert!(retains(&backed(0x1000, 0x1000, "/data/dev/binder")));
    assert!(retains(&backed(0x1000, 0x1000, "[anon:dalvik-zygote space]")));
}

#[test]
fn the_index_holds_the_retained_mappings() {
    let listing = vec![
        mapping(0x1000, 0x1000),
        Mapping { start: 0x2000, end: 0x3000, readable: false, path: None },
        backed(0x3000, 0x1000, "/dev/binder"),
        backed(0x4000, 0x1000, "/dev/ashmem/x"),
        mapping(0x5000, 0),
        mapping(0x5000, 0x10),
    ];
    let index = MapIndex::build(&listing).unwrap();
    assert_eq!(index.len(), 3);
    assert_eq!((index.get(0).start, index.get(1).start, index.get(2).start), (0x1000, 0x4000, 0x5000));
    assert_eq!(index.get(1).path.as_deref(), Some("/dev/ashmem/x"));
    assert_eq!(index.contains(0x1000).map(|m| m.start), Some(0x1000));
    assert_eq!(index.contains(0x1fff).map(|m| m.start), Some(0x1000));
    assert!(index.contains(0x2000).is_none());
    assert!(index.contains(0x3800).is_none());
    assert_eq!(index.contains(0x4abc).map(|m| m.end), Some(0x5000));
    assert_eq!(index.contains(0x500f).map(|m| m.start), Some(0x5000));
    assert!(index.contains(0x5010).is_none());
    assert!(index.contains(0).is_none());
    assert!(index.contains(usize::MAX).is_none());
    assert_eq!(MapIndex::build(&vec![]).unwrap().len(), 0);
}

#[test]
fn retained_mappings_must_ascend_without_overlap() {
    assert!(MapIndex::build(&vec![mapping(0x2000, 0x1000), mapping(0x1000, 0x1000)]).is_none());
    assert!(MapIndex::build(&vec![mapping(0x1000, 0x1001), mapping(0x2000, 0x1000)]).is_none());
    assert!(MapIndex::build(&vec![mapping(0x1000, 0x1000), mapping(0x1000, 0x1000)]).is_none());
    // what is not retained may lie anywhere
    let hidden = Mapping { start: 0x1800, end: 0x2800, readable: false, path: None };
    assert!(MapIndex::build(&vec![mapping(0x2000, 0x1000), hidden, mapping(0x3000, 0x1000)]).is_some());
}

#[test]
fn sorting_keeps_the_first_of_each_address() {
    let c = |addr: usize, size: usize, source: &str| DexFileResult {
        addr,
        size,
        version: "035".to_string(),
        source: source.to_string(),
    };
    let raw = vec![c(30, 1, "a"), c(10, 2, "b"), c(30, 3, "c"), c(20, 4, "d"), c(10, 5, "e"), c(5, 6, "f")];
    let out = sort_dedup(&raw);
    let got: Vec<(usize, usize, &str)> = out.iter().map(|c| (c.addr, c.size, c.source.as_str())).collect();
    assert_eq!(got, vec![(5, 6, "f"), (10, 2, "b"), (20, 4, "d"), (30, 1, "a")]);
    assert!(sort_dedup(&vec![]).is_empty());
}

#[test]
fn a_chunk_is_a_mebibyte_or_what_is_left() {
    assert_eq!(CHUNK_SIZE, 1024 * 1024);
    assert_eq!(chunk_length(10, 0), 10);
    assert_eq!(chunk_length(10, 10), 0);
    assert_eq!(chunk_length(CHUNK_SIZE, 0), CHUNK_SIZE);
    assert_eq!(chunk_length(CHUNK_SIZE + 1, 0), CHUNK_SIZE);
    assert_eq!(chunk_length(CHUNK_SIZE + 1, CHUNK_SIZE), 1);
    assert_eq!(chunk_length(3 * CHUNK_SIZE, CHUNK_SIZE), CHUNK_SIZE);
    assert_eq!(chunk_length(usize::MAX, 5), CHUNK_SIZE);
}
