use image_dedup::filter::filter_report;
use image_dedup::find_dups::{find_duplicates, DuplicateFile, DuplicateGroup, DuplicatesReport, HashEntry};
use image_dedup::hamming::hamming_distance;
use image_dedup::process::{file_size_table, files_to_process, ProcessAction, ProcessFile, ProcessGroup};

fn entry(path: &str, bits: u64, size: Option<u64>) -> HashEntry {
    HashEntry {
        file_path: path.to_string(),
        hash: format!("hash_{path}"),
        hash_bits: bits,
        file_size: size,
    }
}

#[test]
fn find_dups_test_hamming_distance() {
    assert_eq!(hamming_distance(0b0000, 0b0000), 0);
    assert_eq!(hamming_distance(0b1111, 0b0000), 4);
    assert_eq!(hamming_distance(0b1010, 0b0101), 4);
    assert_eq!(hamming_distance(0b1100, 0b1010), 2);
    assert_eq!(hamming_distance(0b11111111, 0b00000000), 8);
}

#[test]
fn hamming_distance_is_a_metric_on_samples() {
    let (a, b, c) = (0xdead_beef_u64, 0x0123_4567_89ab_cdef_u64, u64::MAX);
    assert_eq!(hamming_distance(a, a), 0);
    assert_eq!(hamming_distance(a, b), hamming_distance(b, a));
    assert!(hamming_distance(a, c) <= hamming_distance(a, b) + hamming_distance(b, c));
    assert_eq!(hamming_distance(0, u64::MAX), 64);
}

#[test]
fn find_duplicates_groups_near_hashes() {
    let entries = vec![
        entry("image1.jpg", 0b0000_0000, None),
        entry("image2.jpg", 0b0000_0001, None),
        entry("image3.jpg", 0b0000_0011, None),
        entry("image4.jpg", 0b1111_1111, None),
    ];
    let report = find_duplicates(&entries, 3);
    assert_eq!(report.total_groups, 1);
    assert_eq!(report.total_duplicates, 2);
    assert_eq!(report.threshold, 3);
    let group = &report.groups[0];
    assert_eq!(group.files.len(), 3);
    assert_eq!(group.files[0].path, "image1.jpg");
    assert_eq!(group.files[0].distance_from_first, 0);
    assert_eq!(group.files[1].distance_from_first, 1);
    assert_eq!(group.files[2].distance_from_first, 2);
}

#[test]
fn find_duplicates_strict_threshold_finds_none() {
    let entries = vec![
        entry("image1.jpg", 0b0000_0000, None),
        entry("image2.jpg", 0b1111_0000, None),
        entry("image3.jpg", 0b0000_1111, None),
    ];
    let report = find_duplicates(&entries, 2);
    assert_eq!(report.total_groups, 0);
    assert_eq!(report.total_duplicates, 0);
}

#[test]
fn find_duplicates_multiple_groups() {
    let entries = vec![
        entry("image1.jpg", 0b0000_0000, None),
        entry("image2.jpg", 0b0000_0001, None),
        entry("image3.jpg", 0b1111_0000, None),
        entry("image4.jpg", 0b1111_0001, None),
        entry("image5.jpg", 0b1111_0011, None),
        entry("image6.jpg", 0b1010_1010, None),
    ];
    let report = find_duplicates(&entries, 2);
    assert_eq!(report.total_groups, 2);
    assert_eq!(report.total_duplicates, 3);
    assert_eq!(report.groups[0].files.len(), 2);
    assert_eq!(report.groups[0].files[0].path, "image1.jpg");
    assert_eq!(report.groups[1].files.len(), 3);
    assert_eq!(report.groups[1].files[0].path, "image3.jpg");
}

#[test]
fn find_duplicates_single_and_empty_inputs() {
    let report = find_duplicates(&vec![entry("single.jpg", 0, None)], 5);
    assert_eq!(report.total_groups, 0);
    assert_eq!(report.total_duplicates, 0);
    let report = find_duplicates(&Vec::new(), 5);
    assert_eq!(report.total_groups, 0);
    assert!(report.groups.is_empty());
}

#[test]
fn find_duplicates_prefers_largest_file() {
    let entries = vec![
        entry("small.jpg", 0b0000_0000, Some(1000)),
        entry("large.jpg", 0b0000_0001, Some(5000)),
        entry("medium.jpg", 0b0000_0011, Some(3000)),
    ];
    let report = find_duplicates(&entries, 3);
    assert_eq!(report.total_groups, 1);
    let group = &report.groups[0];
    assert_eq!(group.files.len(), 3);
    assert_eq!(group.original_index, 0);
    assert_eq!(group.files[0].path, "large.jpg");
    assert!(group.files[0].is_original);
    assert!(!group.files[1].is_original);
    assert!(!group.files[2].is_original);
    assert_eq!(group.files[1].path, "medium.jpg");
    assert_eq!(group.files[2].path, "small.jpg");
}

#[test]
fn find_duplicates_keeps_first_without_sizes() {
    let entries = vec![entry("first.jpg", 0, None), entry("second.jpg", 1, None)];
    let report = find_duplicates(&entries, 3);
    assert_eq!(report.groups[0].original_index, 0);
    assert!(report.groups[0].files[0].is_original);
    assert_eq!(report.groups[0].files[0].path, "first.jpg");
    assert!(!report.groups[0].files[1].is_original);
}

fn dup(path: &str, distance: u32, is_original: bool) -> DuplicateFile {
    DuplicateFile {
        path: path.to_string(),
        hash: format!("h_{path}"),
        distance_from_first: distance,
        is_original,
    }
}

fn report_of(threshold: u32, groups: Vec<DuplicateGroup>) -> DuplicatesReport {
    let total_duplicates = groups.iter().map(|g| g.files.len() - 1).sum();
    DuplicatesReport {
        total_groups: groups.len(),
        total_duplicates,
        threshold,
        groups,
    }
}

#[test]
fn filter_keeps_far_duplicates_with_their_original() {
    let groups = vec![
        DuplicateGroup {
            group_id: 0,
            original_index: 0,
            files: vec![
                dup("original1.jpg", 0, true),
                dup("dup1_low.jpg", 1, false),
                dup("dup1_high.jpg", 5, false),
            ],
        },
        DuplicateGroup {
            group_id: 1,
            original_index: 0,
            files: vec![dup("original2.jpg", 0, true), dup("dup2_low.jpg", 2, false)],
        },
    ];
    let filtered = filter_report(&report_of(10, groups), 3);
    assert_eq!(filtered.original_threshold, 10);
    assert_eq!(filtered.filter_threshold, 3);
    assert_eq!(filtered.filtered_groups, 1);
    assert_eq!(filtered.filtered_duplicates, 1);
    let files = &filtered.groups[0].files;
    assert_eq!(files.len(), 2);
    assert_eq!(files[0].path, "original1.jpg");
    assert!(files[0].is_original);
    assert_eq!(files[1].path, "dup1_high.jpg");
    assert!(!files[1].is_original);
}

#[test]
fn filter_drops_groups_without_far_duplicates() {
    let groups = vec![DuplicateGroup {
        group_id: 0,
        original_index: 0,
        files: vec![dup("original.jpg", 0, true), dup("dup_low.jpg", 1, false)],
    }];
    let filtered = filter_report(&report_of(5, groups), 5);
    assert_eq!(filtered.filtered_groups, 0);
    assert_eq!(filtered.filtered_duplicates, 0);
    assert!(filtered.groups.is_empty());
}

#[test]
fn filter_preserves_original_and_sorts_duplicates() {
    let groups = vec![DuplicateGroup {
        group_id: 0,
        original_index: 0,
        files: vec![
            dup("original.jpg", 0, true),
            dup("dup2.jpg", 6, false),
            dup("dup1.jpg", 4, false),
            dup("dup0.jpg", 3, false),
        ],
    }];
    let filtered = filter_report(&report_of(10, groups), 4);
    assert_eq!(filtered.filtered_groups, 1);
    let files = &filtered.groups[0].files;
    assert_eq!(files.len(), 3);
    assert_eq!(files[0].path, "original.jpg");
    assert!(files[0].is_original);
    assert_eq!(files[1].path, "dup1.jpg");
    assert_eq!(files[2].path, "dup2.jpg");
    assert!(!files[1].is_original && !files[2].is_original);
}

#[test]
fn filter_of_empty_report_is_empty() {
    let filtered = filter_report(&report_of(5, Vec::new()), 3);
    assert_eq!(filtered.filtered_groups, 0);
    assert!(filtered.groups.is_empty());
}

#[test]
fn test_confirm_action_data_types() {
    let move_action = ProcessAction::Move;
    let delete_action = ProcessAction::Delete;
    assert!(format!("{move_action:?}").contains("Move"));
    assert!(format!("{delete_action:?}").contains("Delete"));
}

fn pfile(path: &str, distance: u32) -> ProcessFile {
    ProcessFile {
        path: path.to_string(),
        hash: format!("h_{path}"),
        distance_from_representative: distance,
    }
}

#[test]
fn process_keeps_largest_file_when_sizes_are_known() {
    let entries = vec![
        entry("small.jpg", 1, Some(1)),
        entry("large.jpg", 2, Some(13)),
        entry("medium.jpg", 3, Some(6)),
    ];
    let table = file_size_table(&entries);
    let groups = vec![ProcessGroup {
        group_id: 0,
        representative_file: "small.jpg".to_string(),
        files: vec![pfile("small.jpg", 0), pfile("large.jpg", 1), pfile("medium.jpg", 2)],
    }];
    let targets = files_to_process(&groups, &table);
    assert_eq!(targets.len(), 2);
    assert_eq!(targets[0].file.path, "small.jpg");
    assert_eq!(targets[1].file.path, "medium.jpg");
    assert!(targets.iter().all(|t| t.keep == "large.jpg" && t.group_id == 0));
}

#[test]
fn process_keeps_representative_without_sizes() {
    let groups = vec![
        ProcessGroup {
            group_id: 0,
            representative_file: "b.jpg".to_string(),
            files: vec![pfile("a.jpg", 1), pfile("b.jpg", 0), pfile("c.jpg", 2)],
        },
        ProcessGroup {
            group_id: 1,
            representative_file: String::new(),
            files: vec![pfile("x.jpg", 0), pfile("y.jpg", 1)],
        },
    ];
    let targets = files_to_process(&groups, &Vec::new());
    let paths: Vec<&str> = targets.iter().map(|t| t.file.path.as_str()).collect();
    assert_eq!(paths, vec!["a.jpg", "c.jpg", "y.jpg"]);
    assert_eq!(targets[0].keep, "b.jpg");
    assert_eq!(targets[2].keep, "x.jpg");
    assert_eq!(targets[2].group_id, 1);
}

#[test]
fn equal_hashes_share_a_group_and_isolated_entries_are_left_out() {
    let entries = vec![
        entry("a.jpg", 0b1010_0000, None),
        entry("lonely.jpg", u64::MAX, None),
        entry("b.jpg", 0b0000_0011, None),
        entry("c.jpg", 0b1010_0000, None),
        entry("d.jpg", 0b0000_0011, None),
    ];
    let report = find_duplicates(&entries, 4);
    let group_of = |path: &str| report.groups.iter().position(|g| g.files.iter().any(|f| f.path == path));
    assert!(group_of("a.jpg").is_some());
    assert_eq!(group_of("a.jpg"), group_of("c.jpg"));
    assert!(group_of("b.jpg").is_some());
    assert_eq!(group_of("b.jpg"), group_of("d.jpg"));
    assert_eq!(group_of("lonely.jpg"), None);
}

#[test]
fn zero_distance_only_between_equal_values() {
    assert_eq!(hamming_distance(0x1234, 0x1234), 0);
    assert_ne!(hamming_distance(0x1234, 0x1235), 0);
    assert_ne!(hamming_distance(1 << 63, 0), 0);
}

#[test]
fn test_hamming_distance() {
    assert_eq!(hamming_distance(0b0000, 0b0000), 0);
    assert_eq!(hamming_distance(0b1111, 0b0000), 4);
    assert_eq!(hamming_distance(0b1010, 0b0101), 4);
    assert_eq!(hamming_distance(0b1100, 0b1010), 2);
}

#[test]
fn reported_distances_stay_within_twice_the_threshold() {
    let entries = vec![
        entry("opener.jpg", 0b0000_0000, Some(10)),
        entry("left.jpg", 0b0000_0011, Some(30)),
        entry("right.jpg", 0b0000_1100, Some(20)),
    ];
    let report = find_duplicates(&entries, 2);
    assert_eq!(report.total_groups, 1);
    assert_eq!(report.total_duplicates, 2);
    let files = &report.groups[0].files;
    assert_eq!(files[0].path, "left.jpg");
    assert!(files[0].is_original);
    assert_eq!(files[1].path, "right.jpg");
    assert_eq!(files[1].distance_from_first, 4);
    assert_eq!(files[2].path, "opener.jpg");
    assert_eq!(files[2].distance_from_first, 2);
    assert!(files.iter().all(|f| f.distance_from_first <= 2 * report.threshold));
}
