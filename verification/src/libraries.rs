use vstd::prelude::*;
use crate::fetcher::DownloadRequest;
use crate::mc_structs::{MCLibrary, MCLibraryDownloadsArtifacts, MCLibraryDownloadsClassifiers};
use crate::paths::path_join;
use crate::rules::{spec_all_rules_apply, all_rules_apply, Host, HostOs};

verus! {

/// The native classifier the host selects: windows and osx get their own,
/// every other platform falls back to the linux natives.
pub open spec fn spec_native_for(
    classifiers: MCLibraryDownloadsClassifiers,
    os: HostOs,
) -> Option<MCLibraryDownloadsArtifacts> {
    match os {
        HostOs::Windows => classifiers.natives_windows,
        HostOs::Osx => classifiers.natives_osx,
        _ => classifiers.natives_linux,
    }
}

/// The artifacts of a library the host needs: the generic artifact when
/// present, then the host's native classifier when present.
pub open spec fn spec_lib_downloads(lib: MCLibrary, host: Host) -> Seq<
    MCLibraryDownloadsArtifacts,
> {
    (match lib.downloads.artifact {
        Some(a) => seq![a],
        None => Seq::empty(),
    }) + (match lib.downloads.classifiers {
        Some(c) => match spec_native_for(c, host.os) {
            Some(n) => seq![n],
            None => Seq::empty(),
        },
        None => Seq::empty(),
    })
}

/// `req` asks the fetcher for artifact `d`: same source, same digest, the
/// artifact's path under `lib_dir` as target.
pub open spec fn spec_request_for(
    req: DownloadRequest,
    d: MCLibraryDownloadsArtifacts,
    lib_dir: Seq<char>,
) -> bool {
    req.path@ == lib_dir + seq!['/'] + d.path@ && req.url@ == d.url@ && (match (req.sha1, d.sha1) {
        (Some(a), Some(b)) => a@ == b@,
        (None, None) => true,
        _ => false,
    })
}

/// A library applies when it has no rules or every rule applies on the host.
pub open spec fn spec_lib_applies(lib: MCLibrary, host: Host) -> bool {
    match lib.rules {
        None => true,
        Some(rules) => spec_all_rules_apply(rules@, host),
    }
}

impl MCLibrary {
    /// The artifacts the host needs of this library, exactly as
    /// `spec_lib_downloads` states.
    pub fn get_downloads(&self, host: &Host) -> (r: Vec<&MCLibraryDownloadsArtifacts>)
        ensures
            r@.len() == spec_lib_downloads(*self, *host).len(),
            forall|i: int|
                0 <= i < r@.len() ==> *r@[i] == spec_lib_downloads(*self, *host)[i],
    {
        let mut paths: Vec<&MCLibraryDownloadsArtifacts> = Vec::new();
        if let Some(artifact) = &self.downloads.artifact {
            paths.push(artifact);
        }
        if let Some(classifiers) = &self.downloads.classifiers {
            let natives: &Option<MCLibraryDownloadsArtifacts> = match host.os {
                HostOs::Windows => &classifiers.natives_windows,
                HostOs::Osx => &classifiers.natives_osx,
                _ => &classifiers.natives_linux,
            };
            if let Some(n) = natives {
                paths.push(n);
            }
        }
        paths
    }

    /// Whether this library applies on the host.
    pub fn applies(&self, host: &Host) -> (r: bool)
        ensures
            r == spec_lib_applies(*self, *host),
    {
        match &self.rules {
            None => true,
            Some(rules) => all_rules_apply(rules, host),
        }
    }

    /// The local cache paths of the artifacts the host needs, under
    /// `lib_dir`.
    pub fn get_paths(&self, host: &Host, lib_dir: &str) -> (r: Vec<String>)
        ensures
            r@.len() == spec_lib_downloads(*self, *host).len(),
            forall|i: int|
                0 <= i < r@.len() ==> r@[i]@ == lib_dir@ + seq!['/'] + spec_lib_downloads(
                    *self,
                    *host,
                )[i].path@,
    {
        let downloads = self.get_downloads(host);
        let mut out: Vec<String> = Vec::new();
        let n = downloads.len();
        let mut i: usize = 0;
        while i < n
            invariant
                n == downloads@.len(),
                n == spec_lib_downloads(*self, *host).len(),
                forall|k: int|
                    0 <= k < n ==> *downloads@[k] == spec_lib_downloads(*self, *host)[k],
                0 <= i <= n,
                out@.len() == i,
                forall|k: int|
                    0 <= k < i ==> out@[k]@ == lib_dir@ + seq!['/'] + spec_lib_downloads(
                        *self,
                        *host,
                    )[k].path@,
            decreases n - i,
        {
            out.push(path_join(lib_dir, downloads[i].path.as_str()));
            i = i + 1;
        }
        out
    }

    /// The downloads that fetching this library on the host asks of the
    /// content fetcher: one request per needed artifact, targeting its cache
    /// path.
    pub fn download_requests(&self, host: &Host, lib_dir: &str) -> (r: Vec<DownloadRequest>)
        ensures
            r@.len() == spec_lib_downloads(*self, *host).len(),
            forall|i: int|
                0 <= i < r@.len() ==> spec_request_for(
                    #[trigger] r@[i],
                    spec_lib_downloads(*self, *host)[i],
                    lib_dir@,
                ),
    {
        let downloads = self.get_downloads(host);
        let mut out: Vec<DownloadRequest> = Vec::new();
        let n = downloads.len();
        let mut i: usize = 0;
        while i < n
            invariant
                n == downloads@.len(),
                n == spec_lib_downloads(*self, *host).len(),
                forall|k: int|
                    0 <= k < n ==> *downloads@[k] == spec_lib_downloads(*self, *host)[k],
                0 <= i <= n,
                out@.len() == i,
                forall|k: int|
                    0 <= k < i ==> spec_request_for(
                        #[trigger] out@[k],
                        spec_lib_downloads(*self, *host)[k],
                        lib_dir@,
                    ),
            decreases n - i,
        {
            let d = downloads[i];
            let sha1: Option<String> = match &d.sha1 {
                Some(s) => Some(s.clone()),
                None => None,
            };
            out.push(
                DownloadRequest {
                    path: path_join(lib_dir, d.path.as_str()),
                    url: d.url.clone(),
                    sha1,
                },
            );
            i = i + 1;
        }
        out
    }
}

} // verus!
