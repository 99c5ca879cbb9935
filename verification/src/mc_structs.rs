use vstd::prelude::*;
use crate::rules::MCRule;

verus! {

/// The version index: the newest ids plus one entry per published version.
#[derive(Debug)]
pub struct MCVersionList {
    pub latest: MCLatest,
    pub versions: Vec<MCVersionDetails>,
}

/// One entry of the version index.
#[derive(Clone, Debug)]
pub struct MCVersionDetails {
    pub id: String,
    pub typ: String,
    pub url: String,
    pub time: String,
    pub release_time: String,
    pub sha1: String,
    pub compliance_level: u32,
}

/// The newest release and snapshot ids.
#[derive(Debug)]
pub struct MCLatest {
    pub release: String,
    pub snapshot: String,
}

/// A full version manifest: what to run and what to download.
#[derive(Debug)]
pub struct MCVersionManifest {
    pub arguments: Option<MCArguments>,
    pub minecraft_arguments: Option<String>,
    pub asset_index: MCAssetIndex,
    pub assets: String,
    pub compliance_level: u16,
    pub downloads: MCDownloads,
    pub id: String,
    pub java_version: MCJavaVersion,
    pub libraries: Vec<MCLibrary>,
    pub main_class: String,
    pub minimum_launcher_version: u16,
    pub release_time: String,
    pub time: String,
    pub logging: Option<MCLogging>,
    pub typ: String,
}

/// Structured argument lists of a manifest.
#[derive(Debug)]
pub struct MCArguments {
    pub game: Vec<MCGameArg>,
    pub jvm: Vec<MCJvmArg>,
}

/// A game argument: a literal, or a value guarded by rules.
#[derive(Debug)]
pub enum MCGameArg {
    GameArg(String),
    GameRule(MCGameRule),
}

/// A JVM argument: a literal, or a value guarded by rules.
#[derive(Debug)]
pub enum MCJvmArg {
    JvmArg(String),
    JvmRule(MCJvmRule),
}

/// A rule-guarded game argument value.
#[derive(Debug)]
pub struct MCGameRule {
    pub rules: Vec<MCRule>,
    pub value: MCValue,
}

/// A rule-guarded JVM argument value.
#[derive(Debug)]
pub struct MCJvmRule {
    pub rules: Vec<MCRule>,
    pub value: MCValue,
}

/// A guarded value: one argument or a list of arguments.
#[derive(Debug)]
pub enum MCValue {
    Single(String),
    StringList(Vec<String>),
}

/// Reference to the asset index this version uses.
#[derive(Debug)]
pub struct MCAssetIndex {
    pub id: String,
    pub url: String,
    pub size: u64,
    pub total_size: u64,
    pub sha1: String,
}

/// The downloadable jars of a version.
#[derive(Debug)]
pub struct MCDownloads {
    pub client: MCDownload,
    pub client_mappings: Option<MCDownload>,
    pub server: MCDownload,
    pub server_mappings: Option<MCDownload>,
}

/// One downloadable file: where from, how large, and its digest.
#[derive(Debug)]
pub struct MCDownload {
    pub url: String,
    pub size: u64,
    pub sha1: String,
}

/// The Java runtime a version asks for.
#[derive(Debug)]
pub struct MCJavaVersion {
    pub component: String,
    pub major_version: u16,
}

/// Logging configuration of a version.
#[derive(Debug)]
pub struct MCLogging {
    pub client: MCLoggingClient,
}

/// Client-side logging configuration: the JVM argument and the config file.
#[derive(Debug)]
pub struct MCLoggingClient {
    pub argument: String,
    pub file: MCLoggingClientFile,
    pub typ: String,
}

/// The downloadable logging configuration file.
#[derive(Debug)]
pub struct MCLoggingClientFile {
    pub id: String,
    pub size: u64,
    pub url: String,
    pub sha1: String,
}

/// The asset index contents: one entry per asset object.
#[derive(Debug)]
pub struct AssetIndexFile {
    pub objects: Vec<(String, MCAsset)>,
}

impl AssetIndexFile {
    /// A well-formed index names each asset object once, as the keyed index
    /// document holds them.
    pub open spec fn wf(&self) -> bool {
        forall|i: int, j: int|
            0 <= i < j < self.objects@.len() ==> (#[trigger] self.objects@[i]).0@ != (
            #[trigger] self.objects@[j]).0@
    }
}

/// One asset object, addressed by its digest.
#[derive(Clone, Debug)]
pub struct MCAsset {
    pub hash: String,
    pub size: u32,
}

/// A library of a version: its coordinate, optional applicability rules, and
/// its downloadable artifacts.
#[derive(Debug)]
pub struct MCLibrary {
    pub downloads: MCLibraryDownloads,
    pub name: String,
    pub rules: Option<Vec<MCRule>>,
}

/// The artifacts of a library: a generic artifact and/or platform natives.
#[derive(Debug)]
pub struct MCLibraryDownloads {
    pub artifact: Option<MCLibraryDownloadsArtifacts>,
    pub classifiers: Option<MCLibraryDownloadsClassifiers>,
}

/// One downloadable library artifact.
#[derive(Clone, Debug)]
pub struct MCLibraryDownloadsArtifacts {
    pub path: String,
    pub url: String,
    pub size: u32,
    pub sha1: Option<String>,
}

/// Platform-specific native artifacts of a library.
#[derive(Debug)]
pub struct MCLibraryDownloadsClassifiers {
    pub natives_linux: Option<MCLibraryDownloadsArtifacts>,
    pub natives_osx: Option<MCLibraryDownloadsArtifacts>,
    pub natives_windows: Option<MCLibraryDownloadsArtifacts>,
}

} // verus!
