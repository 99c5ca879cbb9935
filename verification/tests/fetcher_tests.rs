use yamcl::fetcher::needs_download;

#[test]
fn fetch_skipped_when_checksum_matches() {
    let content: Vec<u8> = b"some cached artifact".to_vec();
    let digest = sha1_smol::Sha1::from(&content).digest().to_string();
    assert!(!needs_download(Some(&content), Some(&digest)));
}

#[test]
fn fetch_needed_when_checksum_differs() {
    let content: Vec<u8> = b"some cached artifact".to_vec();
    let wrong = "0000000000000000000000000000000000000000".to_string();
    assert!(needs_download(Some(&content), Some(&wrong)));
}

#[test]
fn fetch_needed_without_local_file() {
    assert!(needs_download(None, None));
    let digest = "da39a3ee5e6b4b0d3255bfef95601890afd80709".to_string();
    assert!(needs_download(None, Some(&digest)));
}

#[test]
fn fetch_skipped_without_expected_checksum() {
    let content: Vec<u8> = b"whatever is on disk".to_vec();
    assert!(!needs_download(Some(&content), None));
}

#[test]
fn fetch_idempotent_after_download() {
    // After a download wrote the remote bytes, the digest matches and the
    // second call needs no network.
    let remote: Vec<u8> = b"remote resource body".to_vec();
    let expected = sha1_smol::Sha1::from(&remote).digest().to_string();
    // first call: file absent
    assert!(needs_download(None, Some(&expected)));
    // the fetcher writes `remote`; second call sees it
    assert!(!needs_download(Some(&remote), Some(&expected)));
}

#[test]
fn sha1_of_empty_input() {
    let empty: Vec<u8> = Vec::new();
    let digest = sha1_smol::Sha1::from(&empty).digest().to_string();
    assert_eq!(digest, "da39a3ee5e6b4b0d3255bfef95601890afd80709");
    assert!(!needs_download(Some(&empty), Some(&digest)));
}
