use vstd::prelude::*;

verus! {

/// One download the fetcher is asked to materialize: the local target path,
/// the remote source, and the digest the local file must have, when one is
/// known.
#[derive(Clone, Debug)]
pub struct DownloadRequest {
    pub path: String,
    pub url: String,
    pub sha1: Option<String>,
}

/// The lower-case hex digest sha1_smol computes for the given bytes; it
/// depends on the bytes alone.
pub uninterp spec fn sha1_hex_of(data: Seq<u8>) -> Seq<char>;

/// Relies on sha1_smol: `Sha1::from(data).digest().to_string()` renders the
/// digest as 5 groups of 8 lower-case hex digits, a function of `data` alone.
#[verifier::external_body]
fn sha1_hex(data: &Vec<u8>) -> (r: String)
    ensures
        r@ == sha1_hex_of(data@),
        r@.len() == 40,
{
    sha1_smol::Sha1::from(data.as_slice()).digest().to_string()
}

/// The fetcher contacts the network exactly when there is no usable local
/// file: none exists, or a digest is expected and the local content's digest
/// differs.
pub open spec fn spec_needs_download(
    local_content: Option<Seq<u8>>,
    expected_checksum: Option<Seq<char>>,
) -> bool {
    match local_content {
        None => true,
        Some(content) => match expected_checksum {
            None => false,
            Some(checksum) => sha1_hex_of(content) != checksum,
        },
    }
}

/// Decides whether a download must happen, exactly as `spec_needs_download`
/// states; `local_content` is the target file's current content, when the
/// file exists and is readable.
pub fn needs_download(local_content: Option<&Vec<u8>>, expected_checksum: Option<&String>) -> (r:
    bool)
    ensures
        r == spec_needs_download(
            match local_content {
                Some(c) => Some(c@),
                None => None,
            },
            match expected_checksum {
                Some(c) => Some(c@),
                None => None,
            },
        ),
{
    match local_content {
        None => true,
        Some(content) => match expected_checksum {
            None => false,
            Some(checksum) => {
                let digest = sha1_hex(content);
                !crate::strutil::str_eq(digest.as_str(), checksum.as_str())
            },
        },
    }
}

/// Fetching is idempotent: once a file holds content whose digest is the
/// expected checksum, a second fetch of the same request needs no network
/// call.
pub proof fn lemma_fetch_idempotent(content: Seq<u8>, checksum: Seq<char>)
    requires
        checksum == sha1_hex_of(content),
    ensures
        !spec_needs_download(Some(content), Some(checksum)),
{
}

/// A file that does not exist is always downloaded, and a file that exists
/// with no expected checksum is never downloaded.
pub proof fn lemma_fetch_gate_edges(content: Seq<u8>)
    ensures
        spec_needs_download(None, None),
        !spec_needs_download(Some(content), None),
{
}

} // verus!
