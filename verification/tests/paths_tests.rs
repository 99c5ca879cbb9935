use yamcl::paths::{
    get_assets_dir, get_client_jar_dir, get_config_dir, get_data_dir, get_forge_cache_dir,
    get_library_dir, get_log4j_dir, maven_identifier_to_path, path_join,
};
use yamcl::get_classpath_separator;

#[test]
fn maven_path_plain_coordinate() {
    let p = maven_identifier_to_path("net.minecraftforge:forge:1.20.1-47.2.0");
    assert_eq!(
        p,
        "net/minecraftforge/forge/1.20.1-47.2.0/forge-1.20.1-47.2.0.jar"
    );
}

#[test]
fn maven_path_extension_changes_only_extension() {
    let plain = maven_identifier_to_path("net.minecraftforge:forge:1.20.1-47.2.0");
    let zipped = maven_identifier_to_path("net.minecraftforge:forge:1.20.1-47.2.0@zip");
    assert!(plain.ends_with(".jar"));
    assert!(zipped.ends_with(".zip"));
    assert_eq!(plain[..plain.len() - 3], zipped[..zipped.len() - 3]);
    assert_eq!(
        zipped,
        "net/minecraftforge/forge/1.20.1-47.2.0/forge-1.20.1-47.2.0.zip"
    );
}

#[test]
fn maven_path_classifier_changes_only_suffix() {
    let plain = maven_identifier_to_path("org.lwjgl:lwjgl:3.3.1");
    let classified = maven_identifier_to_path("org.lwjgl:lwjgl:3.3.1:natives-linux");
    assert_eq!(plain, "org/lwjgl/lwjgl/3.3.1/lwjgl-3.3.1.jar");
    assert_eq!(
        classified,
        "org/lwjgl/lwjgl/3.3.1/lwjgl-3.3.1-natives-linux.jar"
    );
}

#[test]
fn maven_path_classifier_and_extension() {
    let p = maven_identifier_to_path("de.oceanlabs.mcp:mcp_config:1.20.1:mappings@txt");
    assert_eq!(
        p,
        "de/oceanlabs/mcp/mcp_config/1.20.1/mcp_config-1.20.1-mappings.txt"
    );
}

#[test]
fn maven_url_round_trips_path_component() {
    let base = "https://maven.fabricmc.net";
    let p = maven_identifier_to_path("net.fabricmc:fabric-loader:0.15.6");
    let url = path_join(base, &p);
    assert_eq!(url, format!("{base}/{p}"));
    assert_eq!(&url[base.len() + 1..], p);
    let again = maven_identifier_to_path("net.fabricmc:fabric-loader:0.15.6");
    assert_eq!(&url[base.len() + 1..], again);
}

#[test]
fn classpath_separator_by_host() {
    assert_eq!(get_classpath_separator(true), ";");
    assert_eq!(get_classpath_separator(false), ":");
}

#[test]
fn launcher_directories() {
    assert_eq!(get_config_dir("/home/u/.config"), "/home/u/.config/yamcl");
    assert_eq!(get_data_dir("/home/u/.local/share"), "/home/u/.local/share/yamcl");
    let data = "/home/u/.local/share/yamcl";
    assert_eq!(get_client_jar_dir(data), format!("{data}/client_jars"));
    assert_eq!(get_library_dir(data), format!("{data}/libraries"));
    assert_eq!(get_assets_dir(data), format!("{data}/assets"));
    assert_eq!(get_log4j_dir(data), format!("{data}/log4j_configs"));
    assert_eq!(get_forge_cache_dir(data), format!("{data}/forge_cache"));
}
