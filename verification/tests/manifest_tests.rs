use yamcl::mc_structs::{
    MCArguments, MCAssetIndex, MCDownload, MCDownloads, MCGameArg, MCGameRule, MCJavaVersion,
    MCJvmArg, MCLatest, MCLibrary, MCLibraryDownloads, MCLibraryDownloadsArtifacts,
    MCLibraryDownloadsClassifiers, MCValue, MCVersionDetails, MCVersionList, MCVersionManifest,
};
use yamcl::modloaders::{FabricLibrary, FabricVersionManifest, ForgeVersionManifest, LoaderManifests};
use yamcl::rules::{Action, Host, HostArch, HostOs, MCRule, OSRule};

fn host() -> Host {
    Host { os: HostOs::Linux, arch: HostArch::X86_64 }
}

fn download(url: &str) -> MCDownload {
    MCDownload { url: url.to_string(), size: 10, sha1: "aa".repeat(20) }
}

fn base_manifest() -> MCVersionManifest {
    MCVersionManifest {
        arguments: Some(MCArguments {
            game: vec![
                MCGameArg::GameArg("--username".to_string()),
                MCGameArg::GameArg("${auth_player_name}".to_string()),
            ],
            jvm: vec![
                MCJvmArg::JvmArg("-Xss1M".to_string()),
                MCJvmArg::JvmArg("-Dlog4j2.formatMsgNoLookups=true".to_string()),
            ],
        }),
        minecraft_arguments: None,
        asset_index: MCAssetIndex {
            id: "5".to_string(),
            url: "https://example.invalid/assets/5.json".to_string(),
            size: 10,
            total_size: 100,
            sha1: "bb".repeat(20),
        },
        assets: "5".to_string(),
        compliance_level: 1,
        downloads: MCDownloads {
            client: download("https://example.invalid/client.jar"),
            client_mappings: None,
            server: download("https://example.invalid/server.jar"),
            server_mappings: None,
        },
        id: "1.20.1".to_string(),
        java_version: MCJavaVersion { component: "java-runtime-gamma".to_string(), major_version: 17 },
        libraries: Vec::new(),
        main_class: "net.minecraft.client.main.Main".to_string(),
        minimum_launcher_version: 21,
        release_time: "2023-06-12T13:25:51+00:00".to_string(),
        time: "2023-06-12T13:25:51+00:00".to_string(),
        logging: None,
        typ: "release".to_string(),
    }
}

fn plain_lib(name: &str, path: &str) -> MCLibrary {
    MCLibrary {
        downloads: MCLibraryDownloads {
            artifact: Some(MCLibraryDownloadsArtifacts {
                path: path.to_string(),
                url: format!("https://libraries.example.invalid/{path}"),
                size: 1,
                sha1: Some("cc".repeat(20)),
            }),
            classifiers: None,
        },
        name: name.to_string(),
        rules: None,
    }
}

fn windows_only_native_lib() -> MCLibrary {
    MCLibrary {
        downloads: MCLibraryDownloads {
            artifact: None,
            classifiers: Some(MCLibraryDownloadsClassifiers {
                natives_linux: None,
                natives_osx: None,
                natives_windows: Some(MCLibraryDownloadsArtifacts {
                    path: "native/win.jar".to_string(),
                    url: "https://libraries.example.invalid/native/win.jar".to_string(),
                    size: 1,
                    sha1: Some("dd".repeat(20)),
                }),
            }),
        },
        name: "example:native:1.0".to_string(),
        rules: Some(vec![MCRule {
            action: Action::Allow,
            os: Some(OSRule { name: Some("windows".to_string()), arch: None }),
            features: None,
        }]),
    }
}

#[test]
fn jvm_args_add_implicit_classpath_pair() {
    let mf = base_manifest();
    let args = mf.get_jvm_args(&host(), "/data/log4j_configs");
    assert_eq!(
        args,
        vec![
            "-Xss1M".to_string(),
            "-Dlog4j2.formatMsgNoLookups=true".to_string(),
            "-cp".to_string(),
            "${classpath}".to_string(),
        ]
    );
}

#[test]
fn jvm_args_keep_explicit_classpath() {
    let mut mf = base_manifest();
    mf.arguments = Some(MCArguments {
        game: Vec::new(),
        jvm: vec![
            MCJvmArg::JvmArg("-cp".to_string()),
            MCJvmArg::JvmArg("${classpath}".to_string()),
        ],
    });
    let args = mf.get_jvm_args(&host(), "/data/log4j_configs");
    assert_eq!(args, vec!["-cp".to_string(), "${classpath}".to_string()]);
}

#[test]
fn jvm_rule_filtered_by_host() {
    let mut mf = base_manifest();
    mf.arguments = Some(MCArguments {
        game: Vec::new(),
        jvm: vec![MCJvmArg::JvmRule(yamcl::mc_structs::MCJvmRule {
            rules: vec![MCRule {
                action: Action::Allow,
                os: Some(OSRule { name: Some("osx".to_string()), arch: None }),
                features: None,
            }],
            value: MCValue::StringList(vec![
                "-XstartOnFirstThread".to_string(),
            ]),
        })],
    });
    let args = mf.get_jvm_args(&host(), "/d");
    // the osx-only entry is dropped; only the implicit pair remains
    assert_eq!(args, vec!["-cp".to_string(), "${classpath}".to_string()]);
}

#[test]
fn game_args_structured() {
    let mf = base_manifest();
    let args = mf.get_game_args(&host());
    assert_eq!(args, vec!["--username".to_string(), "${auth_player_name}".to_string()]);
}

#[test]
fn game_args_legacy_tokenized() {
    let mut mf = base_manifest();
    mf.arguments = None;
    mf.minecraft_arguments = Some("--username ${auth_player_name} --gameDir ${game_directory}".to_string());
    let args = mf.get_game_args(&host());
    assert_eq!(
        args,
        vec![
            "--username".to_string(),
            "${auth_player_name}".to_string(),
            "--gameDir".to_string(),
            "${game_directory}".to_string(),
        ]
    );
}

#[test]
fn merge_fabric_overlay_counts_and_identity() {
    let mut mf = base_manifest();
    let overlay = FabricVersionManifest {
        arguments: MCArguments {
            game: vec![
                MCGameArg::GameArg("--g1".to_string()),
                MCGameArg::GameArg("--g2".to_string()),
                MCGameArg::GameArg("--g3".to_string()),
            ],
            jvm: vec![MCJvmArg::JvmArg("-Dfabric=1".to_string())],
        },
        id: "fabric-loader-0.15.6-1.20.1".to_string(),
        libraries: vec![FabricLibrary {
            name: "net.fabricmc:fabric-loader:0.15.6".to_string(),
            url: "https://maven.fabricmc.net".to_string(),
        }],
        main_class: "net.fabricmc.loader.impl.launch.knot.KnotClient".to_string(),
        inherits_from: "1.20.1".to_string(),
        release_time: "t".to_string(),
        time: "t".to_string(),
        typ: "release".to_string(),
    };
    mf.merge_with(LoaderManifests::Fabric(overlay));
    assert_eq!(mf.id, "fabric-loader-0.15.6-1.20.1");
    assert_eq!(mf.main_class, "net.fabricmc.loader.impl.launch.knot.KnotClient");
    let args = mf.arguments.as_ref().unwrap();
    assert_eq!(args.jvm.len(), 3); // 2 base + 1 overlay
    assert_eq!(args.game.len(), 5); // 2 base + 3 overlay
    assert_eq!(mf.libraries.len(), 1);
    let lib = &mf.libraries[0];
    assert_eq!(lib.name, "net.fabricmc:fabric-loader:0.15.6");
    let art = lib.downloads.artifact.as_ref().unwrap();
    assert_eq!(
        art.path,
        "net/fabricmc/fabric-loader/0.15.6/fabric-loader-0.15.6.jar"
    );
    assert_eq!(
        art.url,
        "https://maven.fabricmc.net/net/fabricmc/fabric-loader/0.15.6/fabric-loader-0.15.6.jar"
    );
}

#[test]
fn merge_forge_overlay_patches_empty_repository_urls() {
    let mut mf = base_manifest();
    let forge_lib = MCLibrary {
        downloads: MCLibraryDownloads {
            artifact: Some(MCLibraryDownloadsArtifacts {
                path: "net/minecraftforge/forge/1.20.1-47.2.0/forge-1.20.1-47.2.0.jar".to_string(),
                url: String::new(),
                size: 0,
                sha1: None,
            }),
            classifiers: None,
        },
        name: "net.minecraftforge:forge:1.20.1-47.2.0".to_string(),
        rules: None,
    };
    let plain = plain_lib("c:d:2", "c/d/2/d-2.jar");
    let overlay = ForgeVersionManifest {
        arguments: Some(MCArguments {
            game: vec![MCGameArg::GameArg("--fml.forgeVersion".to_string())],
            jvm: Vec::new(),
        }),
        minecraft_arguments: Some("--legacy".to_string()),
        id: "1.20.1-forge-47.2.0".to_string(),
        libraries: vec![forge_lib, plain],
        main_class: "cpw.mods.bootstraplauncher.BootstrapLauncher".to_string(),
        inherits_from: "1.20.1".to_string(),
        release_time: "t".to_string(),
        time: "t".to_string(),
        typ: "release".to_string(),
    };
    mf.merge_with(LoaderManifests::Forge(overlay));
    assert_eq!(mf.id, "1.20.1-forge-47.2.0");
    assert_eq!(mf.main_class, "cpw.mods.bootstraplauncher.BootstrapLauncher");
    assert_eq!(mf.minecraft_arguments, Some("--legacy".to_string()));
    let args = mf.arguments.as_ref().unwrap();
    assert_eq!(args.game.len(), 3); // 2 base + 1 overlay
    assert_eq!(args.jvm.len(), 2); // 2 base + 0 overlay
    assert_eq!(mf.libraries.len(), 2);
    let patched = mf.libraries[0].downloads.artifact.as_ref().unwrap();
    assert_eq!(
        patched.url,
        "https://maven.minecraftforge.net/net/minecraftforge/forge/1.20.1-47.2.0/forge-1.20.1-47.2.0.jar"
    );
    // a library with its own URL passes through unchanged
    let untouched = mf.libraries[1].downloads.artifact.as_ref().unwrap();
    assert_eq!(untouched.url, "https://libraries.example.invalid/c/d/2/d-2.jar");
}

#[test]
fn library_downloads_select_host_natives() {
    let lib = MCLibrary {
        downloads: MCLibraryDownloads {
            artifact: Some(MCLibraryDownloadsArtifacts {
                path: "a/b/1/b-1.jar".to_string(),
                url: "https://libraries.example.invalid/a/b/1/b-1.jar".to_string(),
                size: 1,
                sha1: None,
            }),
            classifiers: Some(MCLibraryDownloadsClassifiers {
                natives_linux: Some(MCLibraryDownloadsArtifacts {
                    path: "a/b/1/b-1-natives-linux.jar".to_string(),
                    url: "https://libraries.example.invalid/a/b/1/b-1-natives-linux.jar".to_string(),
                    size: 1,
                    sha1: None,
                }),
                natives_osx: None,
                natives_windows: None,
            }),
        },
        name: "a:b:1".to_string(),
        rules: None,
    };
    let paths = lib.get_paths(&host(), "/lib");
    assert_eq!(
        paths,
        vec![
            "/lib/a/b/1/b-1.jar".to_string(),
            "/lib/a/b/1/b-1-natives-linux.jar".to_string(),
        ]
    );
    // on a host without matching natives, only the generic artifact remains
    let osx = Host { os: HostOs::Osx, arch: HostArch::X86_64 };
    assert_eq!(lib.get_paths(&osx, "/lib"), vec!["/lib/a/b/1/b-1.jar".to_string()]);
    let requests = lib.download_requests(&host(), "/lib");
    assert_eq!(requests.len(), 2);
    assert_eq!(requests[1].url, "https://libraries.example.invalid/a/b/1/b-1-natives-linux.jar");
}

#[test]
fn excluded_native_library_contributes_nothing() {
    let mut mf = base_manifest();
    mf.libraries = vec![
        plain_lib("a:b:1", "a/b/1/b-1.jar"),
        windows_only_native_lib(),
    ];
    let cp = mf.get_classpath(&host(), "/data/libraries", "/data/client_jars");
    assert_eq!(
        cp,
        "/data/libraries/a/b/1/b-1.jar:/data/client_jars/1.20.1.jar"
    );
    let requests = mf.classpath_download_requests(&host(), "/data/libraries");
    assert_eq!(requests.len(), 1);
    assert_eq!(requests[0].path, "/data/libraries/a/b/1/b-1.jar");
    assert_eq!(requests[0].url, "https://libraries.example.invalid/a/b/1/b-1.jar");
}

#[test]
fn native_library_included_on_matching_host() {
    let mut mf = base_manifest();
    mf.libraries = vec![windows_only_native_lib()];
    let win = Host { os: HostOs::Windows, arch: HostArch::X86_64 };
    let cp = mf.get_classpath(&win, "/data/libraries", "/data/client_jars");
    assert_eq!(
        cp,
        "/data/libraries/native/win.jar;/data/client_jars/1.20.1.jar"
    );
    let requests = mf.classpath_download_requests(&win, "/data/libraries");
    assert_eq!(requests.len(), 1);
}

#[test]
fn client_jar_request() {
    let mf = base_manifest();
    let (path, req) = mf.get_client_jar("/data/client_jars");
    assert_eq!(path, "/data/client_jars/1.20.1.jar");
    assert_eq!(req.path, path);
    assert_eq!(req.url, "https://example.invalid/client.jar");
    assert_eq!(req.sha1, Some("aa".repeat(20)));
}

#[test]
fn version_lookup_by_id() {
    let mut list = MCVersionList {
        latest: MCLatest { release: "1.20.1".to_string(), snapshot: "23w31a".to_string() },
        versions: vec![
            MCVersionDetails {
                id: "1.20.1".to_string(),
                typ: "release".to_string(),
                url: "https://example.invalid/1.20.1.json".to_string(),
                time: "t".to_string(),
                release_time: "t".to_string(),
                sha1: "ee".repeat(20),
                compliance_level: 1,
            },
            MCVersionDetails {
                id: "1.19.4".to_string(),
                typ: "release".to_string(),
                url: "https://example.invalid/1.19.4.json".to_string(),
                time: "t".to_string(),
                release_time: "t".to_string(),
                sha1: "ff".repeat(20),
                compliance_level: 1,
            },
        ],
    };
    let found = MCVersionDetails::from_id(&mut list, "1.19.4").unwrap();
    assert_eq!(found.url, "https://example.invalid/1.19.4.json");
    let missing = MCVersionDetails::from_id(&mut list, "1.8.9");
    assert!(missing.is_none());
}
