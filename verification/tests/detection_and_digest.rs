use runtime_provisioner::digest::sha256_hex;
use runtime_provisioner::extract::{archive_kind_of_url, download_plan, ArchiveKind,
    DownloadDisposition};

fn kind_of(url: &str) -> ArchiveKind {
    archive_kind_of_url(&url.as_bytes().to_vec())
}

#[test]
fn detects_zip_suffix() {
    assert_eq!(kind_of("https://host/pkg/node-v20.zip"), ArchiveKind::Zip);
}

#[test]
fn detects_tar_gz_suffix() {
    assert_eq!(kind_of("https://host/pkg/node-v20.tar.gz"), ArchiveKind::TarGz);
}

#[test]
fn detects_tgz_suffix() {
    assert_eq!(kind_of("https://host/pkg/node-v20.tgz"), ArchiveKind::TarGz);
}

#[test]
fn detection_is_case_insensitive() {
    assert_eq!(kind_of("https://host/PKG/NODE.ZIP"), ArchiveKind::Zip);
    assert_eq!(kind_of("https://host/NODE.TAR.GZ"), ArchiveKind::TarGz);
}

#[test]
fn detection_ignores_query_string() {
    assert_eq!(kind_of("https://host/a.zip?token=.tar.gz"), ArchiveKind::Zip);
    assert_eq!(kind_of("https://host/a.tgz?x=1"), ArchiveKind::TarGz);
}

#[test]
fn flat_resource_is_not_an_archive() {
    assert_eq!(kind_of("https://host/README.md"), ArchiveKind::Flat);
    assert_eq!(kind_of("https://host/zipper"), ArchiveKind::Flat);
}

#[test]
fn plan_extracts_archive_into_directory_target() {
    assert_eq!(download_plan(ArchiveKind::Zip, false), DownloadDisposition::ExtractToDir);
    assert_eq!(download_plan(ArchiveKind::TarGz, false), DownloadDisposition::ExtractToDir);
}

#[test]
fn plan_writes_flat_or_file_targets_verbatim() {
    assert_eq!(download_plan(ArchiveKind::Flat, false), DownloadDisposition::WriteFile);
    assert_eq!(download_plan(ArchiveKind::Zip, true), DownloadDisposition::WriteFile);
}

#[test]
fn sha256_hex_of_empty_input() {
    let d = sha256_hex(&Vec::new());
    assert_eq!(
        String::from_utf8(d).unwrap(),
        "e3b0c44298fc1c149afbf4c8996fb92427ae41e4649b934ca495991b7852b855"
    );
}

#[test]
fn sha256_hex_of_known_input() {
    let d = sha256_hex(&b"abc".to_vec());
    assert_eq!(
        String::from_utf8(d).unwrap(),
        "ba7816bf8f01cfea414140de5dae2223b00361a396177a9cb410ff61f20015ad"
    );
}

#[test]
fn digest_is_deterministic() {
    let payload: Vec<u8> = (0..4096u32).map(|i| (i % 251) as u8).collect();
    let first = sha256_hex(&payload.clone());
    let second = sha256_hex(&payload);
    assert_eq!(first, second);
}

#[test]
fn single_byte_mutation_changes_digest() {
    let payload: Vec<u8> = (0..4096u32).map(|i| (i % 251) as u8).collect();
    let original = sha256_hex(&payload);
    for pos in [0usize, 1, 2047, 4095] {
        let mut mutated = payload.clone();
        mutated[pos] ^= 1;
        assert_ne!(sha256_hex(&mutated), original, "mutation at {pos} went unnoticed");
    }
}
