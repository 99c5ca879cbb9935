use vstd::prelude::*;
use crate::mc_structs::MCVersionDetails;
use crate::strutil::{spec_dec, u32_to_string};

verus! {

/// One configured Java installation and the flags it is launched with.
#[derive(Debug)]
pub struct JavaDetails {
    pub path: String,
    pub label: String,
    pub version: String,
    pub minecraft_versions: JavaMCRange,
    pub xmx: u32,
    pub xms: u32,
    pub args: String,
}

/// The game versions a Java installation is configured for.
#[derive(Debug)]
pub struct JavaMCRange {
    pub min: MCVersionDetails,
    pub max: MCVersionDetails,
}

impl JavaDetails {
    /// The extra JVM flags this installation contributes: the heap bounds,
    /// then the user's own flags.
    pub fn get_args(&self) -> (r: String)
        ensures
            r@ == "-Xmx"@ + spec_dec(self.xmx as nat) + "M -Xms"@ + spec_dec(self.xms as nat)
                + "M "@ + self.args@,
    {
        let mut out = String::from_str("-Xmx");
        let xmx = u32_to_string(self.xmx);
        out.append(xmx.as_str());
        out.append("M -Xms");
        let xms = u32_to_string(self.xms);
        out.append(xms.as_str());
        out.append("M ");
        out.append(self.args.as_str());
        out
    }
}

/// The launcher's persisted settings.
#[derive(Debug)]
pub struct AppSettings {
    pub instance_size: u16,
    pub instance_path: Option<String>,
    pub icon_path: Option<String>,
    pub java_settings: Vec<JavaDetails>,
}

impl AppSettings {
    /// The settings a fresh installation starts from.
    pub fn generate() -> (r: AppSettings)
        ensures
            r.instance_size == 16,
            r.instance_path is None,
            r.icon_path is None,
            r.java_settings@.len() == 0,
    {
        AppSettings {
            instance_size: 16,
            instance_path: None,
            icon_path: None,
            java_settings: Vec::new(),
        }
    }
}

} // verus!
