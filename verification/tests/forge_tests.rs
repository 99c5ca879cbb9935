use yamcl::forge_installer::{
    get_install_profile_path, get_installer_extracts_dir, get_jar_main_class, get_manifest_path,
    select_extract_entries, str_trim, ForgeInstallProfile, ForgeInstaller, ForgeMappings,
    ForgeProcessor, Side,
};

fn profile() -> ForgeInstallProfile {
    ForgeInstallProfile {
        spec_version: Some(1),
        version: "1.20.1-forge-47.2.0".to_string(),
        minecraft: "1.20.1".to_string(),
        server_jar_path: None,
        data: vec![
            (
                "MAPPINGS".to_string(),
                ForgeMappings {
                    client: "[de.oceanlabs.mcp:mcp_config:1.20.1:mappings@txt]".to_string(),
                    server: "[de.oceanlabs.mcp:mcp_config:1.20.1:mappings-server@txt]".to_string(),
                },
            ),
            (
                "BINPATCH".to_string(),
                ForgeMappings {
                    client: "/data/client.lzma".to_string(),
                    server: "/data/server.lzma".to_string(),
                },
            ),
        ],
        processors: Vec::new(),
        libraries: Vec::new(),
    }
}

#[test]
fn installer_cache_paths() {
    let cache = "/data/forge_cache";
    assert_eq!(
        get_installer_extracts_dir(cache, "1.20.1", "47.2.0"),
        "/data/forge_cache/forge-1.20.1-47.2.0"
    );
    assert_eq!(
        get_manifest_path(cache, "1.20.1", "47.2.0"),
        "/data/forge_cache/forge-1.20.1-47.2.0/version.json"
    );
    assert_eq!(
        get_install_profile_path(cache, "1.20.1", "47.2.0"),
        "/data/forge_cache/forge-1.20.1-47.2.0/install_profile.json"
    );
}

#[test]
fn installer_download_request() {
    let req = ForgeInstaller::download_request("/data/forge_cache", "1.20.1", "47.2.0");
    assert_eq!(req.path, "/data/forge_cache/forge-1.20.1-47.2.0-installer.jar");
    assert_eq!(
        req.url,
        "https://maven.minecraftforge.net/net/minecraftforge/forge/1.20.1-47.2.0/forge-1.20.1-47.2.0-installer.jar"
    );
    assert!(req.sha1.is_none());
}

#[test]
fn patched_client_jar_location() {
    assert_eq!(
        ForgeInstaller::client_jar_target("/data/libraries", "1.20.1", "47.2.0"),
        "/data/libraries/net/minecraftforge/forge/1.20.1-47.2.0/forge-1.20.1-47.2.0-client.jar"
    );
}

#[test]
fn mapping_value_resolution() {
    let m = ForgeMappings {
        client: "[de.oceanlabs.mcp:mcp_config:1.20.1:mappings@txt]".to_string(),
        server: "literal-value".to_string(),
    };
    assert_eq!(
        m.get_value(&Side::Client, "/data/libraries"),
        "/data/libraries/de/oceanlabs/mcp/mcp_config/1.20.1/mcp_config-1.20.1-mappings.txt"
    );
    assert_eq!(m.get_value(&Side::Server, "/data/libraries"), "literal-value");
}

#[test]
fn processor_side_restriction() {
    let p = ForgeProcessor {
        sides: Some(vec![Side::Server]),
        jar: "a:b:1".to_string(),
        classpath: Vec::new(),
        args: Vec::new(),
    };
    assert!(!p.should_run(&Side::Client));
    assert!(p.should_run(&Side::Server));
    let unrestricted = ForgeProcessor {
        sides: None,
        jar: "a:b:1".to_string(),
        classpath: Vec::new(),
        args: Vec::new(),
    };
    assert!(unrestricted.should_run(&Side::Client));
}

#[test]
fn processor_classpath_joins_jar_last() {
    let p = ForgeProcessor {
        sides: None,
        jar: "net.minecraftforge:installertools:1.3.0".to_string(),
        classpath: vec!["org.ow2.asm:asm:9.5".to_string()],
        args: Vec::new(),
    };
    let cp = p.build_classpath("/data/libraries", ":");
    assert_eq!(
        cp,
        "/data/libraries/org/ow2/asm/asm/9.5/asm-9.5.jar:/data/libraries/net/minecraftforge/installertools/1.3.0/installertools-1.3.0.jar"
    );
}

#[test]
fn processor_argument_templates() {
    let p = ForgeProcessor {
        sides: None,
        jar: "a:b:1".to_string(),
        classpath: Vec::new(),
        args: vec![
            "{SIDE}".to_string(),
            "{MINECRAFT_JAR}".to_string(),
            "{MAPPINGS}".to_string(),
            "[org.ow2.asm:asm:9.5]".to_string(),
            "--literal".to_string(),
            "/data/client.lzma".to_string(),
        ],
    };
    let resolved = p.parse_args(
        &profile(),
        &Side::Client,
        "/home/u/.local/share/yamcl",
        "/home/u/.local/share/yamcl/client_jars",
        "/home/u/.local/share/yamcl/libraries",
        "/home/u/.local/share/yamcl/forge_cache",
    );
    assert_eq!(resolved.len(), 6);
    assert_eq!(resolved[0], ("client".to_string(), false));
    assert_eq!(
        resolved[1],
        ("/home/u/.local/share/yamcl/client_jars/1.20.1.jar".to_string(), false)
    );
    assert_eq!(
        resolved[2],
        (
            "/home/u/.local/share/yamcl/libraries/de/oceanlabs/mcp/mcp_config/1.20.1/mcp_config-1.20.1-mappings.txt"
                .to_string(),
            false
        )
    );
    assert_eq!(
        resolved[3],
        ("/home/u/.local/share/yamcl/libraries/org/ow2/asm/asm/9.5/asm-9.5.jar".to_string(), true)
    );
    assert_eq!(resolved[4], ("--literal".to_string(), false));
    // an absolute path outside the data directory is redirected into the
    // extraction cache, via the version split on "-forge-"
    assert_eq!(
        resolved[5],
        (
            "/home/u/.local/share/yamcl/forge_cache/forge-1.20.1-47.2.0/data/client.lzma".to_string(),
            false
        )
    );
}

#[test]
fn absolute_path_inside_data_dir_kept() {
    let p = ForgeProcessor {
        sides: None,
        jar: "a:b:1".to_string(),
        classpath: Vec::new(),
        args: vec!["/home/u/.local/share/yamcl/libraries/x.jar".to_string()],
    };
    let resolved = p.parse_args(
        &profile(),
        &Side::Client,
        "/home/u/.local/share/yamcl",
        "/cj",
        "/lib",
        "/fc",
    );
    assert_eq!(
        resolved[0],
        ("/home/u/.local/share/yamcl/libraries/x.jar".to_string(), false)
    );
}

#[test]
fn jar_manifest_main_class() {
    let mf = "Manifest-Version: 1.0\r\nMain-Class: net.minecraftforge.installertools.ConsoleTool\r\nBuild-Jdk: 17\r\n";
    let main = get_jar_main_class(mf).unwrap();
    assert_eq!(main, "net.minecraftforge.installertools.ConsoleTool");
}

#[test]
fn jar_manifest_without_main_class() {
    let mf = "Manifest-Version: 1.0\nBuild-Jdk: 17\n";
    assert!(get_jar_main_class(mf).is_none());
}

#[test]
fn trim_strips_surrounding_whitespace() {
    assert_eq!(str_trim("  value\r\n"), "value");
    assert_eq!(str_trim("plain"), "plain");
    assert_eq!(str_trim("   "), "");
}

#[test]
fn extract_selection_skips_empty_entries() {
    let files = vec![
        ("version.json".to_string(), b"{}".to_vec()),
        ("data/".to_string(), Vec::new()),
        ("data/client.lzma".to_string(), vec![1, 2, 3]),
    ];
    let selected = select_extract_entries(files);
    assert_eq!(selected.len(), 2);
    assert_eq!(selected[0].0, "version.json");
    assert_eq!(selected[1].0, "data/client.lzma");
}
