use yamcl::arguments::{build_replacements, parse_arguments, Args};
use yamcl::auth_structs::{
    MCAccount, MCProfile, MCResponse2, MSAResponse2, XBLDisplayClaims, XBLResponse, XBLXUIClaims,
};
use yamcl::mc_structs::{
    AssetIndexFile, MCArguments, MCAsset, MCAssetIndex, MCDownload, MCDownloads, MCJavaVersion,
    MCLogging, MCLoggingClient, MCLoggingClientFile, MCVersionManifest,
};
use yamcl::manifests::asset_object_requests;
use yamcl::rules::{Host, HostArch, HostOs};

fn account() -> MCAccount {
    MCAccount {
        msa_response: MSAResponse2 {
            token_type: "bearer".to_string(),
            expires_at: 10,
            scope: "scope".to_string(),
            access_token: "msa".to_string(),
            refresh_token: "refresh".to_string(),
            user_id: "uid".to_string(),
        },
        xbl_response: XBLResponse {
            issue_instant: 0,
            not_after: 10,
            token: "xbl".to_string(),
            display_claims: XBLDisplayClaims { xui: vec![XBLXUIClaims { uhs: "uhash".to_string() }] },
        },
        xsts_response: XBLResponse {
            issue_instant: 0,
            not_after: 10,
            token: "xsts".to_string(),
            display_claims: XBLDisplayClaims { xui: vec![XBLXUIClaims { uhs: "xhash".to_string() }] },
        },
        mc_response: MCResponse2 {
            access_token: "game-token".to_string(),
            expires_at: 10,
            username: "user".to_string(),
            token_type: "bearer".to_string(),
        },
        mc_profile: MCProfile {
            id: "uuid-alice".to_string(),
            name: "Alice".to_string(),
            skins: Vec::new(),
            capes: Vec::new(),
        },
    }
}

fn manifest_with_logging() -> MCVersionManifest {
    MCVersionManifest {
        arguments: Some(MCArguments { game: Vec::new(), jvm: Vec::new() }),
        minecraft_arguments: None,
        asset_index: MCAssetIndex {
            id: "5".to_string(),
            url: "https://example.invalid/assets/5.json".to_string(),
            size: 10,
            total_size: 100,
            sha1: "ab".repeat(20),
        },
        assets: "5".to_string(),
        compliance_level: 1,
        downloads: MCDownloads {
            client: MCDownload {
                url: "https://example.invalid/client.jar".to_string(),
                size: 1,
                sha1: "cd".repeat(20),
            },
            client_mappings: None,
            server: MCDownload {
                url: "https://example.invalid/server.jar".to_string(),
                size: 1,
                sha1: "ef".repeat(20),
            },
            server_mappings: None,
        },
        id: "1.20.1".to_string(),
        java_version: MCJavaVersion { component: "gamma".to_string(), major_version: 17 },
        libraries: Vec::new(),
        main_class: "Main".to_string(),
        minimum_launcher_version: 21,
        release_time: "t".to_string(),
        time: "t".to_string(),
        logging: Some(MCLogging {
            client: MCLoggingClient {
                argument: "-Dlog4j.configurationFile=${path}".to_string(),
                file: MCLoggingClientFile {
                    id: "client-1.12.xml".to_string(),
                    size: 1,
                    url: "https://example.invalid/log4j.xml".to_string(),
                    sha1: "01".repeat(20),
                },
                typ: "log4j2-xml".to_string(),
            },
        }),
        typ: "release".to_string(),
    }
}

#[test]
fn log4j_config_resolved_and_requested() {
    let mf = manifest_with_logging();
    let (arg, path, req) = mf.get_log4j_config("/data/log4j_configs").unwrap();
    assert_eq!(arg, "-Dlog4j.configurationFile=${path}");
    assert_eq!(path, "/data/log4j_configs/client-1.12.xml");
    assert_eq!(req.path, path);
    assert_eq!(req.url, "https://example.invalid/log4j.xml");
    assert_eq!(req.sha1, Some("01".repeat(20)));
}

#[test]
fn jvm_args_append_resolved_logging_argument() {
    let mf = manifest_with_logging();
    let host = Host { os: HostOs::Linux, arch: HostArch::X86_64 };
    let args = mf.get_jvm_args(&host, "/data/log4j_configs");
    assert_eq!(
        args,
        vec![
            "-cp".to_string(),
            "${classpath}".to_string(),
            "-Dlog4j.configurationFile=/data/log4j_configs/client-1.12.xml".to_string(),
        ]
    );
}

#[test]
fn asset_index_and_object_requests() {
    let mf = manifest_with_logging();
    let (index_path, req) = mf.get_client_assets("/data/assets");
    assert_eq!(index_path, "/data/assets/indexes/5.json");
    assert_eq!(req.url, "https://example.invalid/assets/5.json");
    assert_eq!(req.sha1, Some("ab".repeat(20)));

    let index = AssetIndexFile {
        objects: vec![(
            "minecraft/sounds/ambient.ogg".to_string(),
            MCAsset { hash: "00112233445566778899aabbccddeeff00112233".to_string(), size: 4 },
        )],
    };
    let reqs = asset_object_requests(&index, "/data/assets");
    assert_eq!(reqs.len(), 1);
    assert_eq!(
        reqs[0].path,
        "/data/assets/objects/00/00112233445566778899aabbccddeeff00112233"
    );
    assert_eq!(
        reqs[0].url,
        "https://resources.download.minecraft.net/00/00112233445566778899aabbccddeeff00112233"
    );
    assert_eq!(reqs[0].sha1, Some("00112233445566778899aabbccddeeff00112233".to_string()));
}

#[test]
fn replacement_set_drives_substitution() {
    let acc = account();
    let mf = manifest_with_logging();
    let reps = build_replacements(
        &acc,
        &mf,
        "/a.jar:/b.jar",
        "/data/assets",
        "1.20.1",
        "/inst/natives",
        "/inst",
        ":",
        "/data/libraries",
    );
    assert_eq!(reps.len(), 19);
    let args = Args {
        jvm: vec!["-cp".to_string(), "${classpath}".to_string()],
        game: vec![
            "--username".to_string(),
            "${auth_player_name}".to_string(),
            "--uuid".to_string(),
            "${auth_uuid}".to_string(),
            "--accessToken".to_string(),
            "${auth_access_token}".to_string(),
            "--xuid".to_string(),
            "${auth_xuid}".to_string(),
            "--demo".to_string(),
        ],
        main_class: "Main".to_string(),
    };
    let out = parse_arguments(args, &reps);
    assert_eq!(out.jvm, vec!["-cp".to_string(), "/a.jar:/b.jar".to_string()]);
    assert_eq!(
        out.game,
        vec![
            "--username".to_string(),
            "Alice".to_string(),
            "--uuid".to_string(),
            "uuid-alice".to_string(),
            "--accessToken".to_string(),
            "game-token".to_string(),
            "--xuid".to_string(),
            "xhash".to_string(),
        ]
    );
}
