use vstd::prelude::*;
use crate::fetcher::DownloadRequest;
use crate::libraries::{spec_lib_applies, spec_lib_downloads, spec_request_for};
use crate::mc_structs::{
    AssetIndexFile, MCArguments, MCGameArg, MCJvmArg, MCLibrary, MCLibraryDownloads,
    MCLibraryDownloadsArtifacts, MCValue, MCVersionDetails, MCVersionList, MCVersionManifest,
};
use crate::modloaders::{FabricLibrary, FabricVersionManifest, ForgeVersionManifest, LoaderManifests};
use crate::rules::{spec_all_rules_apply, all_rules_apply, Host, HostOs};
use crate::strutil::{
    views, spec_contains, spec_join, spec_replace, spec_split_ws, str_contains, join_strings,
    replace_all, split_whitespace,
};
use crate::paths::{coord_well_formed, maven_identifier_to_path, path_join, spec_maven_path};

verus! {

/// The argument strings a guarded value contributes once its rules passed.
pub open spec fn spec_value_items(v: MCValue) -> Seq<Seq<char>> {
    match v {
        MCValue::Single(s) => seq![s@],
        MCValue::StringList(l) => views(l@),
    }
}

/// What one JVM argument entry contributes on `host`: a literal always, a
/// guarded value only when every rule applies.
pub open spec fn spec_jvm_contribution(arg: MCJvmArg, host: Host) -> Seq<Seq<char>> {
    match arg {
        MCJvmArg::JvmArg(s) => seq![s@],
        MCJvmArg::JvmRule(rule) => if spec_all_rules_apply(rule.rules@, host) {
            spec_value_items(rule.value)
        } else {
            Seq::empty()
        },
    }
}

/// What one game argument entry contributes on `host`.
pub open spec fn spec_game_contribution(arg: MCGameArg, host: Host) -> Seq<Seq<char>> {
    match arg {
        MCGameArg::GameArg(s) => seq![s@],
        MCGameArg::GameRule(rule) => if spec_all_rules_apply(rule.rules@, host) {
            spec_value_items(rule.value)
        } else {
            Seq::empty()
        },
    }
}

/// All JVM argument entries evaluated on `host`, in order.
pub open spec fn spec_jvm_args_list(args: Seq<MCJvmArg>, host: Host) -> Seq<Seq<char>>
    decreases args.len(),
{
    if args.len() == 0 {
        Seq::empty()
    } else {
        spec_jvm_args_list(args.drop_last(), host) + spec_jvm_contribution(args.last(), host)
    }
}

/// All game argument entries evaluated on `host`, in order.
pub open spec fn spec_game_args_list(args: Seq<MCGameArg>, host: Host) -> Seq<Seq<char>>
    decreases args.len(),
{
    if args.len() == 0 {
        Seq::empty()
    } else {
        spec_game_args_list(args.drop_last(), host) + spec_game_contribution(args.last(), host)
    }
}

/// Some derived argument mentions `-cp` (so no implicit classpath pair is
/// needed).
pub open spec fn spec_has_cp(args: Seq<Seq<char>>) -> bool {
    exists|i: int| 0 <= i < args.len() && spec_contains(#[trigger] args[i], "-cp"@)
}

/// The derived JVM argument list of a manifest on `host`: every evaluated
/// entry, then an implicit `-cp ${classpath}` pair when no entry mentions
/// `-cp`, then the logging argument with `${path}` resolved to the logging
/// configuration's cache path under `log4j_dir`.
pub open spec fn spec_jvm_args(mf: MCVersionManifest, host: Host, log4j_dir: Seq<char>) -> Seq<
    Seq<char>,
> {
    let base = match mf.arguments {
        Some(a) => spec_jvm_args_list(a.jvm@, host),
        None => Seq::empty(),
    };
    let with_cp = if !spec_has_cp(base) {
        base + seq!["-cp"@, "${classpath}"@]
    } else {
        base
    };
    match mf.logging {
        Some(l) => with_cp.push(
            spec_replace(l.client.argument@, "${path}"@, log4j_dir + seq!['/'] + l.client.file.id@),
        ),
        None => with_cp,
    }
}

/// The derived game argument list of a manifest on `host`: the evaluated
/// structured entries when present, else the whitespace-tokenized legacy
/// argument string.
pub open spec fn spec_game_args(mf: MCVersionManifest, host: Host) -> Seq<Seq<char>> {
    match mf.arguments {
        Some(a) => spec_game_args_list(a.game@, host),
        None => spec_split_ws(mf.minecraft_arguments->Some_0@),
    }
}

/// Appends the strings a guarded value contributes to `out`.
fn push_value_items(out: &mut Vec<String>, v: &MCValue)
    ensures
        views(final(out)@) == views(old(out)@) + spec_value_items(*v),
{
    match v {
        MCValue::Single(s) => {
            out.push(s.clone());
            proof {
                assert(views(out@) =~= views(old(out)@) + spec_value_items(*v));
            }
        },
        MCValue::StringList(l) => {
            let n = l.len();
            let mut j: usize = 0;
            proof {
                assert(views(out@) =~= views(old(out)@) + views(l@.take(0)));
            }
            while j < n
                invariant
                    n == l@.len(),
                    0 <= j <= n,
                    views(out@) == views(old(out)@) + views(l@.take(j as int)),
                decreases n - j,
            {
                let ghost before = out@;
                out.push(l[j].clone());
                proof {
                    assert(views(out@) =~= views(before).push(l@[j as int]@));
                    assert(l@.take(j + 1) =~= l@.take(j as int).push(l@[j as int]));
                    assert(views(l@.take(j + 1)) =~= views(l@.take(j as int)).push(l@[j as int]@));
                    assert(views(out@) =~= views(old(out)@) + views(l@.take(j + 1)));
                }
                j = j + 1;
            }
            proof {
                assert(l@.take(n as int) =~= l@);
            }
        },
    }
}

impl MCVersionManifest {
    /// The manifest's entry-point class.
    pub fn get_main_class(&self) -> (r: String)
        ensures
            r@ == self.main_class@,
    {
        self.main_class.clone()
    }

    /// The JVM arguments of this manifest on `host`, exactly as
    /// `spec_jvm_args` states; downloading the logging configuration is the
    /// caller's business (see `get_log4j_config`).
    pub fn get_jvm_args(&self, host: &Host, log4j_dir: &str) -> (r: Vec<String>)
        ensures
            views(r@) == spec_jvm_args(*self, *host, log4j_dir@),
    {
        let mut out: Vec<String> = Vec::new();
        if let Some(args) = &self.arguments {
            let n = args.jvm.len();
            let mut i: usize = 0;
            proof {
                assert(views(out@) =~= spec_jvm_args_list(args.jvm@.take(0), *host));
            }
            while i < n
                invariant
                    n == args.jvm@.len(),
                    0 <= i <= n,
                    views(out@) == spec_jvm_args_list(args.jvm@.take(i as int), *host),
                decreases n - i,
            {
                proof {
                    assert(args.jvm@.take(i + 1).drop_last() =~= args.jvm@.take(i as int));
                    assert(args.jvm@.take(i + 1).last() == args.jvm@[i as int]);
                }
                match &args.jvm[i] {
                    MCJvmArg::JvmArg(s) => {
                        out.push(s.clone());
                        proof {
                            assert(views(out@) =~= spec_jvm_args_list(
                                args.jvm@.take(i as int),
                                *host,
                            ) + spec_jvm_contribution(args.jvm@[i as int], *host));
                        }
                    },
                    MCJvmArg::JvmRule(rule) => {
                        if all_rules_apply(&rule.rules, host) {
                            push_value_items(&mut out, &rule.value);
                        } else {
                            proof {
                                assert(views(out@) =~= spec_jvm_args_list(
                                    args.jvm@.take(i as int),
                                    *host,
                                ) + spec_jvm_contribution(args.jvm@[i as int], *host));
                            }
                        }
                    },
                }
                i = i + 1;
            }
            proof {
                assert(args.jvm@.take(n as int) =~= args.jvm@);
            }
        }
        let ghost base = views(out@);
        let has_cp = any_contains(&out, "-cp");
        if !has_cp {
            out.push(String::from_str("-cp"));
            out.push(String::from_str("${classpath}"));
            proof {
                assert(views(out@) =~= base + seq!["-cp"@, "${classpath}"@]);
            }
        }
        let ghost with_cp = views(out@);
        if let Some(logging) = &self.logging {
            let path = path_join(log4j_dir, logging.client.file.id.as_str());
            proof {
                reveal_strlit("${path}");
            }
            let arg = replace_all(logging.client.argument.as_str(), "${path}", path.as_str());
            out.push(arg);
            proof {
                assert(views(out@) =~= with_cp.push(
                    spec_replace(
                        logging.client.argument@,
                        "${path}"@,
                        log4j_dir@ + seq!['/'] + logging.client.file.id@,
                    ),
                ));
            }
        }
        out
    }

    /// The game arguments of this manifest on `host`, exactly as
    /// `spec_game_args` states. A manifest carries structured arguments or
    /// the legacy argument string; one of the two must be present.
    pub fn get_game_args(&self, host: &Host) -> (r: Vec<String>)
        requires
            self.arguments is Some || self.minecraft_arguments is Some,
        ensures
            views(r@) == spec_game_args(*self, *host),
    {
        let mut out: Vec<String> = Vec::new();
        match &self.arguments {
            Some(args) => {
                let n = args.game.len();
                let mut i: usize = 0;
                proof {
                    assert(views(out@) =~= spec_game_args_list(args.game@.take(0), *host));
                }
                while i < n
                    invariant
                        n == args.game@.len(),
                        0 <= i <= n,
                        views(out@) == spec_game_args_list(args.game@.take(i as int), *host),
                    decreases n - i,
                {
                    proof {
                        assert(args.game@.take(i + 1).drop_last() =~= args.game@.take(i as int));
                        assert(args.game@.take(i + 1).last() == args.game@[i as int]);
                    }
                    match &args.game[i] {
                        MCGameArg::GameArg(s) => {
                            out.push(s.clone());
                            proof {
                                assert(views(out@) =~= spec_game_args_list(
                                    args.game@.take(i as int),
                                    *host,
                                ) + spec_game_contribution(args.game@[i as int], *host));
                            }
                        },
                        MCGameArg::GameRule(rule) => {
                            if all_rules_apply(&rule.rules, host) {
                                push_value_items(&mut out, &rule.value);
                            } else {
                                proof {
                                    assert(views(out@) =~= spec_game_args_list(
                                        args.game@.take(i as int),
                                        *host,
                                    ) + spec_game_contribution(args.game@[i as int], *host));
                                }
                            }
                        },
                    }
                    i = i + 1;
                }
                proof {
                    assert(args.game@.take(n as int) =~= args.game@);
                }
                out
            },
            None => {
                match &self.minecraft_arguments {
                    Some(args_string) => split_whitespace(args_string.as_str()),
                    None => {
                        proof {
                            assert(false);
                        }
                        out
                    },
                }
            },
        }
    }

    /// The client jar's cache path under `client_jar_dir`, and the download
    /// request that materializes it.
    pub fn get_client_jar(&self, client_jar_dir: &str) -> (r: (String, DownloadRequest))
        ensures
            r.0@ == client_jar_dir@ + seq!['/'] + self.id@ + ".jar"@,
            r.1.path@ == r.0@,
            r.1.url@ == self.downloads.client.url@,
            r.1.sha1 matches Some(s) && s@ == self.downloads.client.sha1@,
    {
        let mut name = self.id.clone();
        name.append(".jar");
        let path = path_join(client_jar_dir, name.as_str());
        let request = DownloadRequest {
            path: path.clone(),
            url: self.downloads.client.url.clone(),
            sha1: Some(self.downloads.client.sha1.clone()),
        };
        (path, request)
    }

    /// The logging configuration, when the manifest carries one: the JVM
    /// argument template, the config file's cache path under `log4j_dir`,
    /// and the download request that materializes it.
    pub fn get_log4j_config(&self, log4j_dir: &str) -> (r: Option<(String, String, DownloadRequest)>)
        ensures
            match r {
                Some(c) => self.logging matches Some(l) && c.0@ == l.client.argument@ && c.1@
                    == log4j_dir@ + seq!['/'] + l.client.file.id@ && c.2.path@ == c.1@ && c.2.url@
                    == l.client.file.url@ && (c.2.sha1 matches Some(s) && s@ == l.client.file.sha1@),
                None => self.logging is None,
            },
    {
        match &self.logging {
            Some(logging) => {
                let path = path_join(log4j_dir, logging.client.file.id.as_str());
                let request = DownloadRequest {
                    path: path.clone(),
                    url: logging.client.file.url.clone(),
                    sha1: Some(logging.client.file.sha1.clone()),
                };
                Some((logging.client.argument.clone(), path, request))
            },
            None => None,
        }
    }

    /// The asset index's cache path under `assets_dir`, and the download
    /// request that materializes it.
    pub fn get_client_assets(&self, assets_dir: &str) -> (r: (String, DownloadRequest))
        ensures
            r.0@ == assets_dir@ + seq!['/'] + "indexes"@ + seq!['/'] + self.asset_index.id@
                + ".json"@,
            r.1.path@ == r.0@,
            r.1.url@ == self.asset_index.url@,
            r.1.sha1 matches Some(s) && s@ == self.asset_index.sha1@,
    {
        let indexes = path_join(assets_dir, "indexes");
        proof {
            reveal_strlit("indexes");
        }
        let mut name = self.asset_index.id.clone();
        name.append(".json");
        let path = path_join(indexes.as_str(), name.as_str());
        let request = DownloadRequest {
            path: path.clone(),
            url: self.asset_index.url.clone(),
            sha1: Some(self.asset_index.sha1.clone()),
        };
        (path, request)
    }
}

/// The libraries of `libs` whose rules accept `host`, in order.
pub open spec fn spec_filtered_libs(libs: Seq<MCLibrary>, host: Host) -> Seq<MCLibrary>
    decreases libs.len(),
{
    if libs.len() == 0 {
        Seq::empty()
    } else {
        let rest = spec_filtered_libs(libs.drop_last(), host);
        if spec_lib_applies(libs.last(), host) {
            rest.push(libs.last())
        } else {
            rest
        }
    }
}

/// The cache paths of the artifacts one library contributes on `host`.
pub open spec fn spec_lib_paths(lib: MCLibrary, host: Host, lib_dir: Seq<char>) -> Seq<Seq<char>> {
    spec_lib_downloads(lib, host).map_values(
        |d: MCLibraryDownloadsArtifacts| lib_dir + seq!['/'] + d.path@,
    )
}

/// The cache paths all of `libs` contribute on `host`, in order.
pub open spec fn spec_libs_paths(libs: Seq<MCLibrary>, host: Host, lib_dir: Seq<char>) -> Seq<
    Seq<char>,
>
    decreases libs.len(),
{
    if libs.len() == 0 {
        Seq::empty()
    } else {
        spec_libs_paths(libs.drop_last(), host, lib_dir) + spec_lib_paths(
            libs.last(),
            host,
            lib_dir,
        )
    }
}

/// The artifacts all of `libs` need on `host`, in order.
pub open spec fn spec_libs_downloads(libs: Seq<MCLibrary>, host: Host) -> Seq<
    MCLibraryDownloadsArtifacts,
>
    decreases libs.len(),
{
    if libs.len() == 0 {
        Seq::empty()
    } else {
        spec_libs_downloads(libs.drop_last(), host) + spec_lib_downloads(libs.last(), host)
    }
}

/// The classpath entries of a manifest on `host`: the cache paths of every
/// applying library's artifacts, then the client jar's cache path.
pub open spec fn spec_classpath_entries(
    mf: MCVersionManifest,
    host: Host,
    lib_dir: Seq<char>,
    client_jar_dir: Seq<char>,
) -> Seq<Seq<char>> {
    spec_libs_paths(spec_filtered_libs(mf.libraries@, host), host, lib_dir).push(
        client_jar_dir + seq!['/'] + mf.id@ + ".jar"@,
    )
}

/// The host's path-list separator.
pub open spec fn spec_classpath_sep(host: Host) -> Seq<char> {
    if host.os == HostOs::Windows {
        ";"@
    } else {
        ":"@
    }
}

/// A library whose rules reject the host contributes nothing: filtering the
/// list is the same as filtering the list without it, so neither a classpath
/// entry nor a download can come from it.
pub proof fn lemma_excluded_lib_contributes_nothing(libs: Seq<MCLibrary>, i: int, host: Host)
    requires
        0 <= i < libs.len(),
        !spec_lib_applies(libs[i], host),
    ensures
        spec_filtered_libs(libs, host) == spec_filtered_libs(libs.remove(i), host),
    decreases libs.len(),
{
    if i == libs.len() - 1 {
        assert(libs.remove(i) =~= libs.drop_last());
    } else {
        lemma_excluded_lib_contributes_nothing(libs.drop_last(), i, host);
        assert(libs.remove(i).drop_last() =~= libs.drop_last().remove(i));
        assert(libs.remove(i).last() == libs.last());
    }
}

impl MCVersionManifest {
    /// The applying libraries of this manifest on `host`.
    fn filtered_libraries(&self, host: &Host) -> (r: Vec<&MCLibrary>)
        ensures
            r@.len() == spec_filtered_libs(self.libraries@, *host).len(),
            forall|i: int|
                0 <= i < r@.len() ==> *r@[i] == spec_filtered_libs(self.libraries@, *host)[i],
    {
        let mut out: Vec<&MCLibrary> = Vec::new();
        let n = self.libraries.len();
        let mut i: usize = 0;
        while i < n
            invariant
                n == self.libraries@.len(),
                0 <= i <= n,
                out@.len() == spec_filtered_libs(self.libraries@.take(i as int), *host).len(),
                forall|k: int|
                    0 <= k < out@.len() ==> *out@[k] == spec_filtered_libs(
                        self.libraries@.take(i as int),
                        *host,
                    )[k],
            decreases n - i,
        {
            proof {
                assert(self.libraries@.take(i + 1).drop_last() =~= self.libraries@.take(i as int));
                assert(self.libraries@.take(i + 1).last() == self.libraries@[i as int]);
            }
            let lib = &self.libraries[i];
            if lib.applies(host) {
                out.push(lib);
            }
            i = i + 1;
        }
        proof {
            assert(self.libraries@.take(n as int) =~= self.libraries@);
        }
        out
    }

    /// The classpath of this manifest on `host`: the cache paths of every
    /// applying library joined with the host's separator, the client jar
    /// last, exactly as `spec_classpath_entries` and `spec_join` state.
    pub fn get_classpath(&self, host: &Host, lib_dir: &str, client_jar_dir: &str) -> (r: String)
        ensures
            r@ == spec_join(
                spec_classpath_entries(*self, *host, lib_dir@, client_jar_dir@),
                spec_classpath_sep(*host),
            ),
    {
        let filtered = self.filtered_libraries(host);
        let ghost sfl = spec_filtered_libs(self.libraries@, *host);
        let mut entries: Vec<String> = Vec::new();
        let n = filtered.len();
        let mut i: usize = 0;
        proof {
            assert(views(entries@) =~= spec_libs_paths(sfl.take(0), *host, lib_dir@));
        }
        while i < n
            invariant
                n == filtered@.len(),
                n == sfl.len(),
                forall|k: int| 0 <= k < n ==> *filtered@[k] == sfl[k],
                0 <= i <= n,
                views(entries@) == spec_libs_paths(sfl.take(i as int), *host, lib_dir@),
            decreases n - i,
        {
            let ghost before = entries@;
            let mut paths = filtered[i].get_paths(host, lib_dir);
            let ghost added = paths@;
            entries.append(&mut paths);
            proof {
                assert(sfl.take(i + 1).drop_last() =~= sfl.take(i as int));
                assert(sfl.take(i + 1).last() == sfl[i as int]);
                assert(views(added) =~= spec_lib_paths(sfl[i as int], *host, lib_dir@));
                assert(views(entries@) =~= views(before) + views(added));
            }
            i = i + 1;
        }
        proof {
            assert(sfl.take(n as int) =~= sfl);
        }
        let (jar_path, _request) = self.get_client_jar(client_jar_dir);
        let ghost before = entries@;
        entries.push(jar_path);
        proof {
            assert(views(entries@) =~= views(before).push(
                client_jar_dir@ + seq!['/'] + self.id@ + ".jar"@,
            ));
        }
        let sep: &str = if host.os == HostOs::Windows {
            ";"
        } else {
            ":"
        };
        join_strings(&entries, sep)
    }

    /// Every download that building the classpath on `host` asks of the
    /// content fetcher: one request per artifact of every applying library.
    /// A library whose rules reject `host` contributes no request.
    pub fn classpath_download_requests(&self, host: &Host, lib_dir: &str) -> (r: Vec<
        DownloadRequest,
    >)
        ensures
            r@.len() == spec_libs_downloads(
                spec_filtered_libs(self.libraries@, *host),
                *host,
            ).len(),
            forall|i: int|
                0 <= i < r@.len() ==> spec_request_for(
                    #[trigger] r@[i],
                    spec_libs_downloads(spec_filtered_libs(self.libraries@, *host), *host)[i],
                    lib_dir@,
                ),
    {
        let filtered = self.filtered_libraries(host);
        let ghost sfl = spec_filtered_libs(self.libraries@, *host);
        let mut out: Vec<DownloadRequest> = Vec::new();
        let n = filtered.len();
        let mut i: usize = 0;
        while i < n
            invariant
                n == filtered@.len(),
                n == sfl.len(),
                forall|k: int| 0 <= k < n ==> *filtered@[k] == sfl[k],
                0 <= i <= n,
                out@.len() == spec_libs_downloads(sfl.take(i as int), *host).len(),
                forall|k: int|
                    0 <= k < out@.len() ==> spec_request_for(
                        #[trigger] out@[k],
                        spec_libs_downloads(sfl.take(i as int), *host)[k],
                        lib_dir@,
                    ),
            decreases n - i,
        {
            let ghost before = out@;
            let mut reqs = filtered[i].download_requests(host, lib_dir);
            let ghost added = reqs@;
            out.append(&mut reqs);
            proof {
                assert(sfl.take(i + 1).drop_last() =~= sfl.take(i as int));
                assert(sfl.take(i + 1).last() == sfl[i as int]);
                assert(spec_libs_downloads(sfl.take(i + 1), *host) =~= spec_libs_downloads(
                    sfl.take(i as int),
                    *host,
                ) + spec_lib_downloads(sfl[i as int], *host));
            }
            i = i + 1;
        }
        proof {
            assert(sfl.take(n as int) =~= sfl);
        }
        out
    }
}

/// An appended Fabric library: the coordinate resolved to a path, the
/// download URL pointing into the overlay's repository, no rules, no
/// classifiers, no digest.
pub open spec fn spec_fabric_lib_converted(out: MCLibrary, f: FabricLibrary) -> bool {
    &&& out.name@ == f.name@
    &&& out.rules is None
    &&& out.downloads.classifiers is None
    &&& out.downloads.artifact matches Some(a) && a.path@ == spec_maven_path(f.name@) && a.url@
        == f.url@ + seq!['/'] + spec_maven_path(f.name@) && a.size == 0 && a.sha1 is None
}

/// A Forge overlay library whose artifact lacks a URL and whose coordinate
/// names the Forge repository gets its URL patched there.
pub open spec fn spec_forge_lib_needs_patch(l: MCLibrary) -> bool {
    l.downloads.artifact matches Some(a) && a.url@.len() == 0 && spec_contains(
        l.name@,
        "minecraftforge"@,
    )
}

/// An appended Forge library: unchanged, except that a patched artifact's
/// URL now points into the Forge repository.
pub open spec fn spec_forge_lib_patched(out: MCLibrary, l: MCLibrary) -> bool {
    if spec_forge_lib_needs_patch(l) {
        &&& out.name == l.name
        &&& out.rules == l.rules
        &&& out.downloads.classifiers == l.downloads.classifiers
        &&& out.downloads.artifact matches Some(b) && b.path == l.downloads.artifact->Some_0.path
            && b.size == l.downloads.artifact->Some_0.size && b.sha1
            == l.downloads.artifact->Some_0.sha1 && b.url@ == "https://maven.minecraftforge.net/"@
            + spec_maven_path(l.name@)
    } else {
        out == l
    }
}

/// What merging never touches: every manifest field but id, main class,
/// arguments, the legacy argument string and the library list.
pub open spec fn spec_merge_keeps(pre: MCVersionManifest, post: MCVersionManifest) -> bool {
    &&& post.asset_index == pre.asset_index
    &&& post.assets == pre.assets
    &&& post.compliance_level == pre.compliance_level
    &&& post.downloads == pre.downloads
    &&& post.java_version == pre.java_version
    &&& post.minimum_launcher_version == pre.minimum_launcher_version
    &&& post.release_time == pre.release_time
    &&& post.time == pre.time
    &&& post.logging == pre.logging
    &&& post.typ == pre.typ
}

/// Merging a Fabric overlay: id and main class are the overlay's; the
/// overlay's argument fragments are appended to the structured lists when
/// the base has them; the overlay's libraries are converted and appended;
/// the legacy argument string and everything else stay.
pub open spec fn spec_merged_fabric(
    pre: MCVersionManifest,
    post: MCVersionManifest,
    f: FabricVersionManifest,
) -> bool {
    &&& spec_merge_keeps(pre, post)
    &&& post.id == f.id
    &&& post.main_class == f.main_class
    &&& post.minecraft_arguments == pre.minecraft_arguments
    &&& match pre.arguments {
        Some(a) => post.arguments matches Some(b) && b.game@ == a.game@ + f.arguments.game@
            && b.jvm@ == a.jvm@ + f.arguments.jvm@,
        None => post.arguments is None,
    }
    &&& post.libraries@.len() == pre.libraries@.len() + f.libraries@.len()
    &&& (forall|i: int|
        0 <= i < pre.libraries@.len() ==> post.libraries@[i] == pre.libraries@[i])
    &&& (forall|i: int|
        0 <= i < f.libraries@.len() ==> spec_fabric_lib_converted(
            #[trigger] post.libraries@[pre.libraries@.len() + i],
            f.libraries@[i],
        ))
}

/// Merging a Forge overlay: id and main class are the overlay's; argument
/// fragments are appended when both sides have structured lists; the
/// overlay's legacy argument string, when present, replaces the base's; the
/// overlay's libraries are appended with empty Forge URLs patched.
pub open spec fn spec_merged_forge(
    pre: MCVersionManifest,
    post: MCVersionManifest,
    g: ForgeVersionManifest,
) -> bool {
    &&& spec_merge_keeps(pre, post)
    &&& post.id == g.id
    &&& post.main_class == g.main_class
    &&& post.minecraft_arguments == (if g.minecraft_arguments is Some {
        g.minecraft_arguments
    } else {
        pre.minecraft_arguments
    })
    &&& match (pre.arguments, g.arguments) {
        (Some(a), Some(ga)) => post.arguments matches Some(b) && b.game@ == a.game@ + ga.game@
            && b.jvm@ == a.jvm@ + ga.jvm@,
        _ => post.arguments == pre.arguments,
    }
    &&& post.libraries@.len() == pre.libraries@.len() + g.libraries@.len()
    &&& (forall|i: int|
        0 <= i < pre.libraries@.len() ==> post.libraries@[i] == pre.libraries@[i])
    &&& (forall|i: int|
        0 <= i < g.libraries@.len() ==> spec_forge_lib_patched(
            #[trigger] post.libraries@[pre.libraries@.len() + i],
            g.libraries@[i],
        ))
}

impl MCVersionManifest {
    /// Merges a loader overlay into this manifest, destructively and
    /// one-directionally: the overlay wins on id, main class and (for
    /// Forge) the legacy argument string; overlay libraries and argument
    /// fragments are appended, exactly as `spec_merged_fabric` and
    /// `spec_merged_forge` state.
    pub fn merge_with(&mut self, other: LoaderManifests)
        requires
            other matches LoaderManifests::Fabric(f) ==> forall|i: int|
                0 <= i < f.libraries@.len() ==> coord_well_formed(
                    #[trigger] f.libraries@[i].name@,
                ),
            other matches LoaderManifests::Forge(g) ==> forall|i: int|
                0 <= i < g.libraries@.len() ==> spec_forge_lib_needs_patch(
                    #[trigger] g.libraries@[i],
                ) ==> coord_well_formed(g.libraries@[i].name@),
        ensures
            other matches LoaderManifests::Fabric(f) ==> spec_merged_fabric(
                *old(self),
                *final(self),
                f,
            ),
            other matches LoaderManifests::Forge(g) ==> spec_merged_forge(
                *old(self),
                *final(self),
                g,
            ),
    {
        match other {
            LoaderManifests::Fabric(fabric) => {
                let FabricVersionManifest { arguments, id, libraries, main_class, .. } = fabric;
                let ghost flibs = libraries@;
                let mut rest = libraries;
                let mut converted: Vec<MCLibrary> = Vec::new();
                let ghost total = flibs.len();
                while rest.len() > 0
                    invariant
                        total == flibs.len(),
                        converted@.len() <= total,
                        converted@.len() + rest@.len() == total,
                        rest@ == flibs.skip(converted@.len() as int),
                        forall|t: int|
                            0 <= t < flibs.len() ==> coord_well_formed(
                                #[trigger] flibs[t].name@,
                            ),
                        forall|t: int|
                            0 <= t < converted@.len() ==> spec_fabric_lib_converted(
                                #[trigger] converted@[t],
                                flibs[t],
                            ),
                    decreases rest@.len(),
                {
                    let ghost k = converted@.len() as int;
                    let ghost pre = rest@;
                    let flib = rest.remove(0);
                    proof {
                        assert(pre == flibs.skip(k));
                        assert(flib == flibs.skip(k)[0]);
                        assert(flibs.skip(k)[0] == flibs[k]);
                        assert(rest@ =~= flibs.skip(k).skip(1));
                        assert(flibs.skip(k).skip(1) =~= flibs.skip(k + 1));
                    }
                    let path = maven_identifier_to_path(flib.name.as_str());
                    let url = path_join(flib.url.as_str(), path.as_str());
                    converted.push(
                        MCLibrary {
                            downloads: MCLibraryDownloads {
                                artifact: Some(
                                    MCLibraryDownloadsArtifacts {
                                        path,
                                        url,
                                        size: 0,
                                        sha1: None,
                                    },
                                ),
                                classifiers: None,
                            },
                            name: flib.name,
                            rules: None,
                        },
                    );
                }
                proof {
                    assert(converted@.len() == total);
                }
                self.id = id;
                self.main_class = main_class;
                let MCArguments { mut game, mut jvm } = arguments;
                match &mut self.arguments {
                    Some(args) => {
                        args.game.append(&mut game);
                        args.jvm.append(&mut jvm);
                    },
                    None => {},
                }
                self.libraries.append(&mut converted);
            },
            LoaderManifests::Forge(forge) => {
                let ForgeVersionManifest {
                    arguments,
                    minecraft_arguments,
                    id,
                    libraries,
                    main_class,
                    ..
                } = forge;
                let ghost glibs = libraries@;
                let mut rest = libraries;
                let mut patched: Vec<MCLibrary> = Vec::new();
                let ghost total = glibs.len();
                while rest.len() > 0
                    invariant
                        total == glibs.len(),
                        patched@.len() <= total,
                        patched@.len() + rest@.len() == total,
                        rest@ == glibs.skip(patched@.len() as int),
                        forall|t: int|
                            0 <= t < glibs.len() ==> spec_forge_lib_needs_patch(
                                #[trigger] glibs[t],
                            ) ==> coord_well_formed(glibs[t].name@),
                        forall|t: int|
                            0 <= t < patched@.len() ==> spec_forge_lib_patched(
                                #[trigger] patched@[t],
                                glibs[t],
                            ),
                    decreases rest@.len(),
                {
                    let ghost k = patched@.len() as int;
                    let ghost pre = rest@;
                    let lib = rest.remove(0);
                    proof {
                        assert(pre == glibs.skip(k));
                        assert(lib == glibs.skip(k)[0]);
                        assert(glibs.skip(k)[0] == glibs[k]);
                        assert(rest@ =~= glibs.skip(k).skip(1));
                        assert(glibs.skip(k).skip(1) =~= glibs.skip(k + 1));
                    }
                    let needs_patch: bool = match &lib.downloads.artifact {
                        Some(a) => a.url.as_str().is_empty() && str_contains(
                            lib.name.as_str(),
                            "minecraftforge",
                        ),
                        None => false,
                    };
                    if needs_patch {
                        let MCLibrary { downloads, name, rules } = lib;
                        let MCLibraryDownloads { artifact, classifiers } = downloads;
                        let art = match artifact {
                            Some(a) => a,
                            None => {
                                proof {
                                    assert(false);
                                }
                                unreached()
                            },
                        };
                        let mut url = String::from_str("https://maven.minecraftforge.net/");
                        let mp = maven_identifier_to_path(name.as_str());
                        url.append(mp.as_str());
                        patched.push(
                            MCLibrary {
                                downloads: MCLibraryDownloads {
                                    artifact: Some(
                                        MCLibraryDownloadsArtifacts {
                                            path: art.path,
                                            url,
                                            size: art.size,
                                            sha1: art.sha1,
                                        },
                                    ),
                                    classifiers,
                                },
                                name,
                                rules,
                            },
                        );
                    } else {
                        patched.push(lib);
                    }
                }
                self.id = id;
                self.main_class = main_class;
                match arguments {
                    Some(ga) => {
                        let MCArguments { mut game, mut jvm } = ga;
                        match &mut self.arguments {
                            Some(args) => {
                                args.game.append(&mut game);
                                args.jvm.append(&mut jvm);
                            },
                            None => {},
                        }
                    },
                    None => {},
                }
                match minecraft_arguments {
                    Some(m) => {
                        self.minecraft_arguments = Some(m);
                    },
                    None => {},
                }
                self.libraries.append(&mut patched);
            },
        }
    }
}

/// Merging an overlay adds exactly the overlay's argument fragments: when
/// the base manifest has structured arguments, the merged game list holds
/// the base's entries followed by the overlay's, and likewise for the JVM
/// list; id and main class are the overlay's.
pub proof fn lemma_merge_argument_counts(
    pre: MCVersionManifest,
    post: MCVersionManifest,
    f: FabricVersionManifest,
)
    requires
        spec_merged_fabric(pre, post, f),
        pre.arguments is Some,
    ensures
        post.arguments is Some,
        post.arguments->Some_0.game@.len() == pre.arguments->Some_0.game@.len()
            + f.arguments.game@.len(),
        post.arguments->Some_0.jvm@.len() == pre.arguments->Some_0.jvm@.len()
            + f.arguments.jvm@.len(),
        post.id == f.id,
        post.main_class == f.main_class,
{
}

/// The same counting law for a Forge overlay: when both sides carry
/// structured arguments, the merged lists hold the base's entries followed
/// by the overlay's, and id and main class are the overlay's.
pub proof fn lemma_merge_argument_counts_forge(
    pre: MCVersionManifest,
    post: MCVersionManifest,
    g: ForgeVersionManifest,
)
    requires
        spec_merged_forge(pre, post, g),
        pre.arguments is Some,
        g.arguments is Some,
    ensures
        post.arguments is Some,
        post.arguments->Some_0.game@.len() == pre.arguments->Some_0.game@.len()
            + g.arguments->Some_0.game@.len(),
        post.arguments->Some_0.jvm@.len() == pre.arguments->Some_0.jvm@.len()
            + g.arguments->Some_0.jvm@.len(),
        post.id == g.id,
        post.main_class == g.main_class,
{
}

/// A library whose rules reject the host leaves no trace in what the
/// classpath build produces: the classpath entries and the download list of
/// a manifest are those of the same manifest without that library.
pub proof fn lemma_excluded_lib_invisible(
    mf: MCVersionManifest,
    mf_without: MCVersionManifest,
    i: int,
    host: Host,
    lib_dir: Seq<char>,
    client_jar_dir: Seq<char>,
)
    requires
        0 <= i < mf.libraries@.len(),
        !spec_lib_applies(mf.libraries@[i], host),
        mf_without.libraries@ == mf.libraries@.remove(i),
        mf_without.id == mf.id,
    ensures
        spec_classpath_entries(mf, host, lib_dir, client_jar_dir) == spec_classpath_entries(
            mf_without,
            host,
            lib_dir,
            client_jar_dir,
        ),
        spec_libs_downloads(spec_filtered_libs(mf.libraries@, host), host) == spec_libs_downloads(
            spec_filtered_libs(mf_without.libraries@, host),
            host,
        ),
{
    lemma_excluded_lib_contributes_nothing(mf.libraries@, i, host);
}

/// `req` fetches one asset object: both the cache path and the fixed
/// resource URL address the object by its digest, sharded by the digest's
/// first two characters, and the digest gates the download.
pub open spec fn spec_asset_request(req: DownloadRequest, hash: Seq<char>, assets_dir: Seq<char>) -> bool {
    &&& req.path@ == assets_dir + "/objects/"@ + hash.take(2) + seq!['/'] + hash
    &&& req.url@ == "https://resources.download.minecraft.net/"@ + hash.take(2) + seq!['/'] + hash
    &&& req.sha1 matches Some(s) && s@ == hash
}

/// The downloads that materialize every object of an asset index under
/// `assets_dir`, in index order.
pub fn asset_object_requests(index: &AssetIndexFile, assets_dir: &str) -> (r: Vec<DownloadRequest>)
    requires
        index.wf(),
        forall|i: int| 0 <= i < index.objects@.len() ==> (#[trigger] index.objects@[i]).1.hash@.len() >= 2,
    ensures
        r@.len() == index.objects@.len(),
        forall|i: int|
            0 <= i < r@.len() ==> spec_asset_request(
                #[trigger] r@[i],
                index.objects@[i].1.hash@,
                assets_dir@,
            ),
{
    let n = index.objects.len();
    let mut out: Vec<DownloadRequest> = Vec::new();
    let mut i: usize = 0;
    while i < n
        invariant
            n == index.objects@.len(),
            forall|k: int|
                0 <= k < n ==> (#[trigger] index.objects@[k]).1.hash@.len() >= 2,
            0 <= i <= n,
            out@.len() == i,
            forall|k: int|
                0 <= k < i ==> spec_asset_request(
                    #[trigger] out@[k],
                    index.objects@[k].1.hash@,
                    assets_dir@,
                ),
        decreases n - i,
    {
        let hash = &index.objects[i].1.hash;
        let hn: usize = hash.as_str().unicode_len();
        let shard = hash.as_str().substring_char(0, 2);
        proof {
            assert(shard@ =~= hash@.take(2));
        }
        let mut path = String::from_str(assets_dir);
        path.append("/objects/");
        path.append(shard);
        path.append("/");
        path.append(hash.as_str());
        let mut url = String::from_str("https://resources.download.minecraft.net/");
        url.append(shard);
        url.append("/");
        url.append(hash.as_str());
        proof {
            reveal_strlit("/");
            assert("/"@ =~= seq!['/']);
        }
        out.push(DownloadRequest { path, url, sha1: Some(hash.clone()) });
        i = i + 1;
    }
    out
}

/// Whether any string of `args` has `pat` as a substring.
fn any_contains(args: &Vec<String>, pat: &str) -> (r: bool)
    ensures
        r == exists|i: int|
            0 <= i < args@.len() && spec_contains(#[trigger] views(args@)[i], pat@),
{
    let n = args.len();
    let mut i: usize = 0;
    while i < n
        invariant
            n == args@.len(),
            0 <= i <= n,
            forall|k: int| 0 <= k < i ==> !spec_contains(#[trigger] views(args@)[k], pat@),
        decreases n - i,
    {
        proof {
            assert(views(args@)[i as int] == args@[i as int]@);
        }
        if str_contains(args[i].as_str(), pat) {
            return true;
        }
        i = i + 1;
    }
    false
}

/// Index of the first version entry whose id is `id`, or -1 when the index
/// lacks it.
pub open spec fn spec_version_idx(vs: Seq<MCVersionDetails>, id: Seq<char>) -> int
    decreases vs.len(),
{
    if vs.len() == 0 {
        -1
    } else if vs[0].id@ == id {
        0
    } else {
        if spec_version_idx(vs.skip(1), id) < 0 {
            -1
        } else {
            spec_version_idx(vs.skip(1), id) + 1
        }
    }
}

/// The first version of the index whose id is `id`, if any.
pub open spec fn spec_find_version(vs: Seq<MCVersionDetails>, id: Seq<char>) -> Option<
    MCVersionDetails,
> {
    if spec_version_idx(vs, id) < 0 {
        None
    } else {
        Some(vs[spec_version_idx(vs, id)])
    }
}

/// Pins `spec_version_idx` by exhibiting the first match, or its absence.
proof fn lemma_version_idx(vs: Seq<MCVersionDetails>, id: Seq<char>, i: int)
    requires
        0 <= i <= vs.len(),
        forall|k: int| 0 <= k < i ==> #[trigger] vs[k].id@ != id,
    ensures
        i < vs.len() && vs[i as int].id@ == id ==> spec_version_idx(vs, id) == i,
        i == vs.len() ==> spec_version_idx(vs, id) == -1,
    decreases i,
{
    if i == 0 {
        if vs.len() > 0 && vs[0].id@ != id {
            assert(vs.skip(1).len() == vs.len() - 1);
        }
    } else {
        assert(vs[0].id@ != id);
        lemma_version_idx(vs.skip(1), id, i - 1);
        assert(forall|k: int| 0 <= k < vs.skip(1).len() ==> vs.skip(1)[k] == vs[k + 1]);
    }
}

impl MCVersionDetails {
    /// Resolves a version id against the version index: the first entry
    /// carrying the id is taken out of the list and returned; a list
    /// without the id stays whole and yields nothing.
    pub fn from_id(list: &mut MCVersionList, version_id: &str) -> (r: Option<MCVersionDetails>)
        ensures
            r == spec_find_version(old(list).versions@, version_id@),
            final(list).latest == old(list).latest,
            ({
                let idx = spec_version_idx(old(list).versions@, version_id@);
                if idx >= 0 {
                    final(list).versions@ == old(list).versions@.remove(idx)
                } else {
                    final(list).versions@ == old(list).versions@
                }
            }),
    {
        let ghost vs = list.versions@;
        let n = list.versions.len();
        let mut i: usize = 0;
        while i < n
            invariant
                vs == list.versions@,
                vs == old(list).versions@,
                list.latest == old(list).latest,
                n == list.versions@.len(),
                0 <= i <= n,
                forall|k: int| 0 <= k < i ==> #[trigger] list.versions@[k].id@ != version_id@,
            decreases n - i,
        {
            if crate::strutil::str_eq(list.versions[i].id.as_str(), version_id) {
                proof {
                    assert(vs[i as int].id@ == version_id@);
                    lemma_version_idx(vs, version_id@, i as int);
                    assert(spec_version_idx(vs, version_id@) == i as int);
                    assert(spec_find_version(vs, version_id@) == Some(vs[i as int]));
                }
                let v = list.versions.remove(i);
                return Some(v);
            }
            i = i + 1;
        }
        proof {
            lemma_version_idx(vs, version_id@, n as int);
        }
        None
    }
}

} // verus!
