use symlinker::errors::SymlinkerError;
use symlinker::inspect::{
    bytes_to_human_readable, find_disk, get_disk_size_info, get_files_in_dir, path_to_relative,
    FsEntry,
};

fn file(path: &str) -> FsEntry {
    FsEntry::File { path: path.to_string() }
}

fn dir(path: &str, entries: Vec<FsEntry>) -> FsEntry {
    FsEntry::Dir { path: path.to_string(), readable: true, entries }
}

#[test]
fn enumerates_files_and_subdirectories_in_order() {
    let tree = dir(
        "C:\\data",
        vec![
            file("C:\\data\\a.txt"),
            dir(
                "C:\\data\\sub",
                vec![file("C:\\data\\sub\\b.txt"), file("C:\\data\\sub\\c.txt")],
            ),
            file("C:\\data\\d.txt"),
        ],
    );
    let files = get_files_in_dir(&tree, 0).expect("a readable tree enumerates");
    assert_eq!(
        files,
        vec![
            "C:\\data\\a.txt".to_string(),
            "C:\\data\\sub\\b.txt".to_string(),
            "C:\\data\\sub\\c.txt".to_string(),
            "C:\\data\\d.txt".to_string(),
        ]
    );
}

#[test]
fn enumerating_a_file_root_is_invalid() {
    assert!(matches!(
        get_files_in_dir(&file("C:\\data\\a.txt"), 0),
        Err(SymlinkerError::InvalidInput)
    ));
}

#[test]
fn unreadable_subdirectory_fails_whole_enumeration() {
    let tree = dir(
        "C:\\data",
        vec![
            file("C:\\data\\a.txt"),
            FsEntry::Dir { path: "C:\\data\\locked".to_string(), readable: false, entries: vec![] },
        ],
    );
    match get_files_in_dir(&tree, 0) {
        Err(SymlinkerError::Traversal { path }) => assert_eq!(path, "C:\\data\\locked"),
        other => panic!("expected a traversal failure, got {:?}", other),
    }
}

#[test]
fn deep_nesting_within_the_ceiling_enumerates() {
    let mut node = dir("d", vec![file("f")]);
    for _ in 0..127 {
        node = dir("d", vec![node]);
    }
    let files = get_files_in_dir(&node, 0).expect("a chain of 128 directories is within the ceiling");
    assert_eq!(files, vec!["f".to_string()]);
}

#[test]
fn nesting_at_the_ceiling_is_rejected() {
    let mut node = dir("d", vec![file("f")]);
    for _ in 0..128 {
        node = dir("d", vec![node]);
    }
    assert!(matches!(
        get_files_in_dir(&node, 0),
        Err(SymlinkerError::DepthExceeded)
    ));
}

#[test]
fn human_readable_uses_base_1000_units() {
    assert_eq!(bytes_to_human_readable(0), "0b");
    assert_eq!(bytes_to_human_readable(999), "999b");
    assert_eq!(bytes_to_human_readable(1000), "1kb");
    assert_eq!(bytes_to_human_readable(999_999), "999kb");
    assert_eq!(bytes_to_human_readable(1_000_000), "1mb");
    assert_eq!(bytes_to_human_readable(1_500_000_000), "1gb");
    assert_eq!(bytes_to_human_readable(1_000_000_000_000), "1tb");
}

#[test]
fn human_readable_truncates_and_caps_at_terabytes() {
    assert_eq!(bytes_to_human_readable(1_999), "1kb");
    assert_eq!(bytes_to_human_readable(2_500_000_000_000_000), "2500tb");
}

#[test]
fn path_to_relative_strips_base_and_normalizes() {
    assert_eq!(
        path_to_relative("C:\\data\\sub\\file.txt", "C:\\data"),
        "./sub/file.txt"
    );
    assert_eq!(path_to_relative("C:\\data", "C:\\data"), "./");
    assert_eq!(path_to_relative("D:\\other\\x", "C:\\data"), "./D:/other/x");
}

#[test]
fn find_disk_matches_mount_point_exactly() {
    let disks = vec![
        ("/".to_string(), 10u64, 100u64),
        ("/data".to_string(), 5u64, 50u64),
        ("/data".to_string(), 6u64, 60u64),
    ];
    assert_eq!(find_disk(&disks, "/data").unwrap(), (5, 50));
    assert_eq!(find_disk(&disks, "/").unwrap(), (10, 100));
    match find_disk(&disks, "/nope") {
        Err(SymlinkerError::NotFound { mount }) => assert_eq!(mount, "/nope"),
        other => panic!("expected a miss, got {:?}", other),
    }
}

#[test]
fn disk_lookup_miss_names_the_mount_point() {
    match get_disk_size_info("/very/unlikely/mount/point/xyzzy") {
        Err(SymlinkerError::NotFound { mount }) => {
            assert_eq!(mount, "/very/unlikely/mount/point/xyzzy")
        }
        Ok(_) => panic!("an implausible mount point should not exist"),
        Err(other) => panic!("unexpected failure {:?}", other),
    }
}
