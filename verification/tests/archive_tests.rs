use std::io::Read;

use mmbackup::archive::{build_and_extract, build_archive_bytes, FsNode};

fn file(name: &str, data: &[u8]) -> FsNode {
    FsNode::File { name: name.to_string(), data: data.to_vec() }
}

fn dir(name: &str, children: Vec<FsNode>) -> FsNode {
    FsNode::Dir { name: name.to_string(), children }
}

/// Extracts with the tar and flate2 crates used directly, the way any
/// standard tool reads such an archive.
fn extract_with_standard_tools(bytes: &[u8]) -> Vec<(String, Vec<u8>)> {
    let mut archive = tar::Archive::new(flate2::read::GzDecoder::new(bytes));
    let mut out = Vec::new();
    for entry in archive.entries().unwrap() {
        let mut entry = entry.unwrap();
        let path = entry.path().unwrap().to_string_lossy().into_owned();
        let mut data = Vec::new();
        entry.read_to_end(&mut data).unwrap();
        out.push((path, data));
    }
    out
}

#[test]
fn single_file_archive_holds_one_entry() {
    let tree = file("c.txt", b"hello backup");
    let bytes = build_archive_bytes(&tree).unwrap();
    let entries = extract_with_standard_tools(&bytes);
    assert_eq!(entries.len(), 1);
    assert_eq!(entries[0].0, "c.txt");
    assert_eq!(entries[0].1, b"hello backup".to_vec());
}

#[test]
fn archive_stream_is_gzip() {
    let tree = file("c.txt", b"hello backup");
    let bytes = build_archive_bytes(&tree).unwrap();
    assert_eq!(bytes[0], 0x1f);
    assert_eq!(bytes[1], 0x8b);
    assert_ne!(bytes, b"hello backup".to_vec());
}

#[test]
fn directory_tree_round_trips() {
    let tree = dir(
        "project",
        vec![
            file("a.txt", b"alpha"),
            dir("sub", vec![file("b.bin", &[0u8, 1, 2, 255]), file("empty", b"")]),
            file("z.txt", b"omega"),
        ],
    );
    let bytes = build_archive_bytes(&tree).unwrap();
    let entries = extract_with_standard_tools(&bytes);
    let expected: Vec<(String, Vec<u8>)> = vec![
        ("project/a.txt".to_string(), b"alpha".to_vec()),
        ("project/sub/b.bin".to_string(), vec![0u8, 1, 2, 255]),
        ("project/sub/empty".to_string(), Vec::new()),
        ("project/z.txt".to_string(), b"omega".to_vec()),
    ];
    assert_eq!(entries, expected);
}

#[test]
fn non_regular_nodes_are_skipped() {
    let tree = dir(
        "project",
        vec![
            FsNode::Other { name: "socket".to_string() },
            file("a.txt", b"alpha"),
        ],
    );
    let bytes = build_archive_bytes(&tree).unwrap();
    let entries = extract_with_standard_tools(&bytes);
    assert_eq!(entries, vec![("project/a.txt".to_string(), b"alpha".to_vec())]);
}

#[test]
fn empty_directory_gives_well_formed_empty_archive() {
    let tree = dir("project", Vec::new());
    let bytes = build_archive_bytes(&tree).unwrap();
    let entries = extract_with_standard_tools(&bytes);
    assert!(entries.is_empty());
}

#[test]
fn library_extraction_matches_standard_tools() {
    let tree = dir("project", vec![file("a.txt", b"alpha"), file("b.txt", b"beta")]);
    let bytes = build_archive_bytes(&tree).unwrap();
    let ours = build_and_extract(&tree).unwrap();
    let standard = extract_with_standard_tools(&bytes);
    assert_eq!(ours, standard);
}
