use dex_unpacker::memory::{
    append_chunk, classify_read_outcome, read_padded, safe_read_memory, MemoryImage, ReadError,
    Region, EFAULT,
};

fn image(regions: Vec<(usize, Vec<u8>)>) -> Option<MemoryImage> {
    MemoryImage::from_regions(
        regions.into_iter().map(|(base, bytes)| Region { base, bytes }).collect(),
    )
}

#[test]
fn raw_outcomes_are_classified() {
    assert_eq!(classify_read_outcome(-1, EFAULT), Err(ReadError::BadAddress));
    assert_eq!(classify_read_outcome(-1, 1), Err(ReadError::Other));
    assert_eq!(classify_read_outcome(0, 0), Err(ReadError::Short));
    assert_eq!(classify_read_outcome(0, EFAULT), Err(ReadError::Short));
    assert_eq!(classify_read_outcome(17, 0), Ok(17));
    assert_eq!(classify_read_outcome(1, EFAULT), Ok(1));
}

#[test]
fn regions_must_ascend_without_overlap() {
    assert!(image(vec![]).is_some());
    assert!(image(vec![(0x1000, vec![1, 2, 3]), (0x1003, vec![4])]).is_some());
    assert!(image(vec![(0x1000, vec![1, 2, 3]), (0x1002, vec![4])]).is_none());
    assert!(image(vec![(0x2000, vec![1]), (0x1000, vec![4])]).is_none());
    assert!(image(vec![(usize::MAX, vec![1])]).is_none());
    assert!(image(vec![(usize::MAX - 1, vec![1])]).is_some());
    assert_eq!(image(vec![(1, vec![1]), (5, vec![])]).unwrap().region_count(), 2);
}

#[test]
fn a_read_is_cut_at_the_end_of_its_region() {
    let mem = image(vec![(0x1000, vec![1, 2, 3, 4]), (0x1004, vec![5, 6])]).unwrap();
    assert_eq!(safe_read_memory(&mem, 0x1000, 4), Ok(vec![1, 2, 3, 4]));
    assert_eq!(safe_read_memory(&mem, 0x1001, 2), Ok(vec![2, 3]));
    assert_eq!(safe_read_memory(&mem, 0x1002, 10), Ok(vec![3, 4]));
    assert_eq!(safe_read_memory(&mem, 0x1004, 10), Ok(vec![5, 6]));
    assert_eq!(safe_read_memory(&mem, 0x1005, 1), Ok(vec![6]));
}

#[test]
fn an_unmapped_first_byte_is_a_bad_address() {
    let mem = image(vec![(0x1000, vec![1, 2, 3, 4])]).unwrap();
    assert_eq!(safe_read_memory(&mem, 0xfff, 4), Err(ReadError::BadAddress));
    assert_eq!(safe_read_memory(&mem, 0x1004, 1), Err(ReadError::BadAddress));
    assert_eq!(safe_read_memory(&mem, usize::MAX, 1), Err(ReadError::BadAddress));
    assert_eq!(safe_read_memory(&image(vec![]).unwrap(), 0, 1), Err(ReadError::BadAddress));
}

#[test]
fn a_request_for_nothing_is_short() {
    let mem = image(vec![(0x1000, vec![1, 2, 3, 4])]).unwrap();
    assert_eq!(safe_read_memory(&mem, 0x1000, 0), Err(ReadError::Short));
    assert_eq!(safe_read_memory(&mem, 0x9000, 0), Err(ReadError::Short));
}

#[test]
fn a_padded_read_fills_the_tail_with_zeros() {
    let mem = image(vec![(0x1000, vec![1, 2, 3, 4])]).unwrap();
    assert_eq!(read_padded(&mem, 0x1002, 5), Ok(vec![3, 4, 0, 0, 0]));
    assert_eq!(read_padded(&mem, 0x1000, 2), Ok(vec![1, 2]));
    assert_eq!(read_padded(&mem, 0x1000, 0), Ok(vec![]));
    assert_eq!(read_padded(&mem, 0x9000, 0), Ok(vec![]));
    assert_eq!(read_padded(&mem, 0x9000, 3), Err(ReadError::BadAddress));
}

#[test]
fn a_byte_is_found_by_its_address() {
    let mem = image(vec![(0x10, vec![7]), (0x20, vec![8, 9]), (0x30, vec![10])]).unwrap();
    assert_eq!(mem.byte(0x10), Some(7));
    assert_eq!(mem.byte(0x21), Some(9));
    assert_eq!(mem.byte(0x30), Some(10));
    assert_eq!(mem.byte(0x22), None);
    assert_eq!(mem.byte(0x0f), None);
    assert_eq!(mem.locate(0x20), Some(1));
    assert_eq!(mem.locate(0x31), None);
}

#[test]
fn chunks_that_follow_each_other_make_one_region() {
    let mut regions: Vec<Region> = Vec::new();
    append_chunk(&mut regions, 0x1000, vec![1, 2]);
    append_chunk(&mut regions, 0x1002, vec![3]);
    append_chunk(&mut regions, 0x1004, vec![5, 6]);
    append_chunk(&mut regions, 0x1006, vec![]);
    append_chunk(&mut regions, 0x1006, vec![7]);
    append_chunk(&mut regions, 0x0800, vec![9]);
    let got: Vec<(usize, Vec<u8>)> = regions.iter().map(|r| (r.base, r.bytes.clone())).collect();
    assert_eq!(
        got,
        vec![(0x1000, vec![1, 2, 3]), (0x1004, vec![5, 6, 7]), (0x0800, vec![9])]
    );
    let mut top = vec![Region { base: usize::MAX, bytes: vec![1] }];
    append_chunk(&mut top, 0, vec![2]);
    assert_eq!(top.len(), 2);
}
