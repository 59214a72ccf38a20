use std::io::Write;

use runtime_provisioner::extract::{extract_archive, ArchiveKind, ExtractError, RawEntry};
use runtime_provisioner::progress::ProgressTracker;
use runtime_provisioner::tree::{flatten, FsEntry, FsNode};

fn zip_bytes(entries: &[(&str, Option<&[u8]>)]) -> Vec<u8> {
    let options = zip::write::SimpleFileOptions::default();
    let mut w = zip::ZipWriter::new(std::io::Cursor::new(Vec::new()));
    for (name, data) in entries {
        match data {
            Some(bytes) => {
                w.start_file(*name, options).unwrap();
                w.write_all(bytes).unwrap();
            },
            None => {
                w.add_directory(*name, options).unwrap();
            },
        }
    }
    w.finish().unwrap().into_inner()
}

fn tgz_bytes(entries: &[(&str, Option<&[u8]>)]) -> Vec<u8> {
    let gz = flate2::write::GzEncoder::new(Vec::new(), flate2::Compression::default());
    let mut b = tar::Builder::new(gz);
    for (name, data) in entries {
        let mut header = tar::Header::new_gnu();
        match data {
            Some(bytes) => {
                header.set_size(bytes.len() as u64);
                header.set_cksum();
                b.append_data(&mut header, name, *bytes).unwrap();
            },
            None => {
                header.set_entry_type(tar::EntryType::dir());
                header.set_size(0);
                header.set_cksum();
                b.append_data(&mut header, name, &[][..]).unwrap();
            },
        }
    }
    b.into_inner().unwrap().finish().unwrap()
}

fn child<'a>(es: &'a [FsEntry], name: &str) -> &'a FsNode {
    for e in es {
        if e.name == name.as_bytes() {
            return &e.node;
        }
    }
    panic!("no child named {name}");
}

fn file_data<'a>(n: &'a FsNode) -> &'a [u8] {
    match n {
        FsNode::File { data } => data,
        FsNode::Dir { .. } => panic!("expected a file"),
    }
}

fn dir_entries<'a>(n: &'a FsNode) -> &'a [FsEntry] {
    match n {
        FsNode::Dir { entries } => entries,
        FsNode::File { .. } => panic!("expected a directory"),
    }
}

#[test]
fn zip_extraction_lists_files_and_contents() {
    let bytes = zip_bytes(&[("a.txt", Some(b"alpha")), ("d/", None), ("d/b.txt", Some(b"beta"))]);
    let root = extract_archive(&bytes, ArchiveKind::Zip).unwrap();
    assert_eq!(root.len(), 2);
    assert_eq!(file_data(child(&root, "a.txt")), b"alpha");
    assert_eq!(file_data(child(dir_entries(child(&root, "d")), "b.txt")), b"beta");
}

#[test]
fn tgz_extraction_lists_files_and_contents() {
    let bytes = tgz_bytes(&[("pkg/", None), ("pkg/run.sh", Some(b"#!/bin/sh\n"))]);
    let root = extract_archive(&bytes, ArchiveKind::TarGz).unwrap();
    assert_eq!(root.len(), 1);
    assert_eq!(file_data(child(dir_entries(child(&root, "pkg")), "run.sh")), b"#!/bin/sh\n");
}

#[test]
fn garbage_bytes_are_a_bad_archive() {
    let r = extract_archive(&b"not an archive at all".to_vec(), ArchiveKind::Zip);
    assert_eq!(r.unwrap_err(), ExtractError::BadArchive);
    let r = extract_archive(&b"not an archive at all".to_vec(), ArchiveKind::TarGz);
    assert_eq!(r.unwrap_err(), ExtractError::BadArchive);
}

#[test]
fn traversal_entries_are_skipped() {
    // Path-escaping names are dropped without aborting the extraction.
    let entries = vec![
        RawEntry { name: b"../evil".to_vec(), is_dir: false, data: b"boom".to_vec() },
        RawEntry { name: b"/abs".to_vec(), is_dir: false, data: b"boom".to_vec() },
        RawEntry { name: b"a/./b".to_vec(), is_dir: false, data: b"boom".to_vec() },
        RawEntry { name: b"ok.txt".to_vec(), is_dir: false, data: b"fine".to_vec() },
    ];
    let root = runtime_provisioner::extract::build_tree(entries).unwrap();
    assert_eq!(root.len(), 1);
    assert_eq!(file_data(child(&root, "ok.txt")), b"fine");
}

#[test]
fn conflicting_entries_are_an_error() {
    let entries = vec![
        RawEntry { name: b"a".to_vec(), is_dir: false, data: b"x".to_vec() },
        RawEntry { name: b"a/b".to_vec(), is_dir: false, data: b"y".to_vec() },
    ];
    let r = runtime_provisioner::extract::build_tree(entries);
    assert!(r.is_err());
}

#[test]
fn conflicting_zip_entries_surface_as_conflict() {
    let bytes = zip_bytes(&[("a", Some(b"x")), ("a/b", Some(b"y"))]);
    let r = extract_archive(&bytes, ArchiveKind::Zip);
    assert_eq!(r.unwrap_err(), ExtractError::Conflict);
}

#[test]
fn empty_archive_extracts_to_empty_root() {
    let bytes = zip_bytes(&[]);
    let mut root = extract_archive(&bytes, ArchiveKind::Zip).unwrap();
    assert!(root.is_empty());
    let fired = flatten(&mut root).unwrap();
    assert!(!fired);
    assert!(root.is_empty());
}

#[test]
fn flatten_collision_is_an_error_and_changes_nothing() {
    // One wrapper directory holding `.x`, with a hidden sibling `.x` at the
    // root: the move would land on the sibling, so nothing moves.
    let entries = vec![
        RawEntry { name: b"pkg/.x".to_vec(), is_dir: false, data: b"inner".to_vec() },
        RawEntry { name: b".x".to_vec(), is_dir: false, data: b"outer".to_vec() },
    ];
    let mut root = runtime_provisioner::extract::build_tree(entries).unwrap();
    let r = flatten(&mut root);
    assert!(r.is_err());
    assert_eq!(root.len(), 2);
    assert_eq!(file_data(child(dir_entries(child(&root, "pkg")), ".x")), b"inner");
    assert_eq!(file_data(child(&root, ".x")), b"outer");
}

#[test]
fn single_wrapper_directory_is_flattened() {
    let bytes = zip_bytes(&[
        ("pkg-1.2.3/", None),
        ("pkg-1.2.3/bin/tool", Some(b"bits")),
        ("pkg-1.2.3/README", Some(b"docs")),
    ]);
    let mut root = extract_archive(&bytes, ArchiveKind::Zip).unwrap();
    let fired = flatten(&mut root).unwrap();
    assert!(fired);
    assert_eq!(root.len(), 2);
    assert_eq!(file_data(child(dir_entries(child(&root, "bin")), "tool")), b"bits");
    assert_eq!(file_data(child(&root, "README")), b"docs");
    assert!(root.iter().all(|e| e.name != b"pkg-1.2.3"));
}

#[test]
fn two_top_level_directories_stay_untouched() {
    let bytes = zip_bytes(&[("one/a", Some(b"1")), ("two/b", Some(b"2"))]);
    let mut root = extract_archive(&bytes, ArchiveKind::Zip).unwrap();
    let fired = flatten(&mut root).unwrap();
    assert!(!fired);
    assert_eq!(root.len(), 2);
    assert_eq!(file_data(child(dir_entries(child(&root, "one")), "a")), b"1");
    assert_eq!(file_data(child(dir_entries(child(&root, "two")), "b")), b"2");
}

#[test]
fn no_top_level_directory_stays_untouched() {
    let bytes = zip_bytes(&[("a.txt", Some(b"1")), ("b.txt", Some(b"2"))]);
    let mut root = extract_archive(&bytes, ArchiveKind::Zip).unwrap();
    let fired = flatten(&mut root).unwrap();
    assert!(!fired);
    assert_eq!(root.len(), 2);
}

#[test]
fn hidden_directories_do_not_count_as_wrappers() {
    // One hidden directory beside one visible one: still a single wrapper.
    let bytes = zip_bytes(&[(".meta/info", Some(b"m")), ("pkg/tool", Some(b"t"))]);
    let mut root = extract_archive(&bytes, ArchiveKind::Zip).unwrap();
    let fired = flatten(&mut root).unwrap();
    assert!(fired);
    assert!(root.iter().any(|e| e.name == b".meta"));
    assert_eq!(file_data(child(&root, "tool")), b"t");
    assert!(root.iter().all(|e| e.name != b"pkg"));
}

#[test]
fn ten_megabyte_zip_scenario() {
    // A sizeable zip with one wrapper directory: after extraction and
    // flattening, `bin/tool` and `README` sit directly under the root, and
    // the progress notifications end exactly at one hundred percent.
    let payload = vec![0u8; 10 * 1024 * 1024];
    let bytes = zip_bytes(&[
        ("pkg/bin/tool", Some(payload.as_slice())),
        ("pkg/README", Some(b"read me")),
    ]);

    let total = bytes.len() as u64;
    let mut tracker = ProgressTracker::new(total, 0);
    let mut sent: Vec<u64> = Vec::new();
    let chunk = 1024 * 1024u64;
    let mut got = 0u64;
    let mut now = 0u64;
    while got < total {
        got = (got + chunk).min(total);
        now += 40;
        if let Some(bp) = tracker.note_chunk(now, got) {
            sent.push(bp);
        }
    }

    let mut root = extract_archive(&bytes, ArchiveKind::Zip).unwrap();
    let fired = flatten(&mut root).unwrap();
    assert!(fired);
    sent.push(tracker.finish());

    assert_eq!(root.len(), 2);
    assert_eq!(file_data(child(dir_entries(child(&root, "bin")), "tool")).len(), payload.len());
    assert_eq!(file_data(child(&root, "README")), b"read me");
    assert!(sent.windows(2).all(|w| w[0] <= w[1]), "progress went backwards: {sent:?}");
    assert_eq!(*sent.last().unwrap(), 10000);
}
