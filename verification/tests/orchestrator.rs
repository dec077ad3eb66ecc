use dex_unpacker::dex_parser::parse_dex_at;
use dex_unpacker::dex_parser::tables::ParseError;
use dex_unpacker::memory::{MemoryImage, Region};
use dex_unpacker::orchestrator::{
    dump_dir, dump_file_name, plan_candidate, whitelist_contains, CandidatePlan, SCAN_DELAY_SECS,
};

#[test]
fn a_package_on_a_line_of_its_own_is_allowed() {
    let list = "com.first.app\ncom.second.app\n";
    assert!(whitelist_contains(list, "com.first.app"));
    assert!(whitelist_contains(list, "com.second.app"));
    assert!(!whitelist_contains(list, "com.third.app"));
    assert!(!whitelist_contains(list, "com.first"));
    assert!(!whitelist_contains(list, "first.app"));
    assert!(!whitelist_contains(list, "com.first.app\ncom.second.app"));
    assert!(whitelist_contains("com.only.app", "com.only.app"));
    assert!(!whitelist_contains("", "com.only.app"));
}

#[test]
fn white_space_around_a_name_is_ignored() {
    let list = "  com.spaced.app  \r\n\tcom.tabbed.app\r\ncom.plain.app\r";
    assert!(whitelist_contains(list, "com.spaced.app"));
    assert!(whitelist_contains(list, "com.tabbed.app"));
    assert!(whitelist_contains(list, "com.plain.app"));
    assert!(!whitelist_contains(list, "  com.spaced.app  "));
    assert!(!whitelist_contains("com.a b", "com.a"));
    assert!(whitelist_contains("\u{a0}com.nbsp.app\u{2003}\n", "com.nbsp.app"));
}

#[test]
fn comments_and_blank_lines_name_nothing() {
    let list = "# the apps to unpack\n\n   \n#com.hidden.app\ncom.shown.app\n  # indented\n";
    assert!(whitelist_contains(list, "com.shown.app"));
    assert!(!whitelist_contains(list, "com.hidden.app"));
    assert!(!whitelist_contains(list, "#com.hidden.app"));
    assert!(!whitelist_contains(list, "# the apps to unpack"));
    assert!(!whitelist_contains(list, "# indented"));
    assert!(!whitelist_contains(list, ""));
    assert!(!whitelist_contains("\n\n", ""));
}

#[test]
fn dumps_are_named_by_number_and_address() {
    assert_eq!(dump_file_name(0, 0x7f00_abcd), "dex_0_7f00abcd.dex");
    assert_eq!(dump_file_name(12, 0), "dex_12_0.dex");
    assert_eq!(dump_file_name(9, 9), "dex_9_9.dex");
    assert_eq!(dump_file_name(10, 10), "dex_10_a.dex");
    assert_eq!(dump_file_name(1234567890, 0x10), "dex_1234567890_10.dex");
    assert_eq!(dump_file_name(100, 0xdead_beef), "dex_100_deadbeef.dex");
    assert_eq!(
        dump_file_name(usize::MAX, usize::MAX),
        format!("dex_{}_{:x}.dex", usize::MAX, usize::MAX)
    );
}

#[test]
fn dumps_go_to_the_files_of_the_package() {
    assert_eq!(dump_dir("com.app"), "/data/data/com.app/files/rust_dumps");
    assert_eq!(dump_dir(""), "/data/data//files/rust_dumps");
    assert_eq!(SCAN_DELAY_SECS, 10);
}

#[test]
fn a_candidate_is_resolved_only_if_it_parsed_and_has_methods() {
    let mut image = vec![0u8; 0x100];
    // one method id at 0x80
    image[0x58] = 1;
    image[0x5c] = 0x80;
    let mem = MemoryImage::from_regions(vec![Region { base: 0x1000, bytes: image }]).unwrap();
    let with_methods = parse_dex_at(&mem, 0x1000);
    assert_eq!(with_methods.as_ref().unwrap().methods.len(), 1);
    assert_eq!(plan_candidate(&with_methods, true), CandidatePlan { resolve: true, dump: true });
    assert_eq!(plan_candidate(&with_methods, false), CandidatePlan { resolve: false, dump: true });
    let without = parse_dex_at(&mem, 0x5000);
    assert!(without.as_ref().unwrap().methods.is_empty());
    assert_eq!(plan_candidate(&without, true), CandidatePlan { resolve: false, dump: true });
    let failed = Err(ParseError::Malformed);
    assert_eq!(plan_candidate(&failed, true), CandidatePlan { resolve: false, dump: false });
    assert_eq!(plan_candidate(&failed, false), CandidatePlan { resolve: false, dump: false });
}
