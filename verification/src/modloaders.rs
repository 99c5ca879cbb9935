use vstd::prelude::*;
use crate::mc_structs::{MCArguments, MCLibrary};
use crate::strutil::str_eq;
use crate::paths::{first_idx, lemma_first_idx, find_char};

verus! {

/// The loader families an instance may declare.
#[derive(Clone, Copy, Debug, PartialEq, Eq, Structural)]
pub enum ModLoaders {
    Vanilla,
    Forge,
    NeoForge,
    Fabric,
    Quilt,
    LiteLoader,
    Rift,
}

/// The loader a MultiMC pack component uid stands for, when any.
pub open spec fn spec_loader_from_uid(uid: Seq<char>) -> Option<ModLoaders> {
    if uid == "net.minecraftforge"@ {
        Some(ModLoaders::Forge)
    } else if uid == "net.neoforged"@ {
        Some(ModLoaders::NeoForge)
    } else if uid == "net.fabricmc.fabric-loader"@ {
        Some(ModLoaders::Fabric)
    } else {
        None
    }
}

/// The prefix of `s` before its first `-`, or all of `s`.
pub open spec fn spec_dash_prefix(s: Seq<char>) -> Seq<char> {
    if first_idx(s, '-') < 0 {
        s
    } else {
        s.take(first_idx(s, '-'))
    }
}

/// The loader a CurseForge loader name stands for, when any: the part
/// before the first `-` names the family.
pub open spec fn spec_loader_from_cf(name: Seq<char>) -> Option<ModLoaders> {
    if spec_dash_prefix(name) == "forge"@ {
        Some(ModLoaders::Forge)
    } else if spec_dash_prefix(name) == "fabric"@ {
        Some(ModLoaders::Fabric)
    } else {
        None
    }
}

impl ModLoaders {
    /// Looks the loader up by MultiMC component uid, exactly as
    /// `spec_loader_from_uid` states.
    pub fn from_uid(mmc_uid: &str) -> (r: Option<ModLoaders>)
        ensures
            r == spec_loader_from_uid(mmc_uid@),
    {
        if str_eq(mmc_uid, "net.minecraftforge") {
            Some(ModLoaders::Forge)
        } else if str_eq(mmc_uid, "net.neoforged") {
            Some(ModLoaders::NeoForge)
        } else if str_eq(mmc_uid, "net.fabricmc.fabric-loader") {
            Some(ModLoaders::Fabric)
        } else {
            None
        }
    }

    /// Looks the loader up by CurseForge loader name, exactly as
    /// `spec_loader_from_cf` states.
    pub fn from_cf(cf_name: &str) -> (r: Option<ModLoaders>)
        ensures
            r == spec_loader_from_cf(cf_name@),
    {
        let n: usize = cf_name.unicode_len();
        proof {
            lemma_first_idx(cf_name@, '-');
        }
        let prefix: &str = match find_char(cf_name, '-') {
            Some(i) => cf_name.substring_char(0, i),
            None => cf_name,
        };
        proof {
            if first_idx(cf_name@, '-') >= 0 {
                assert(cf_name@.take(first_idx(cf_name@, '-')) =~= cf_name@.subrange(
                    0,
                    first_idx(cf_name@, '-'),
                ));
            }
            assert(prefix@ == spec_dash_prefix(cf_name@));
        }
        if str_eq(prefix, "forge") {
            Some(ModLoaders::Forge)
        } else if str_eq(prefix, "fabric") {
            Some(ModLoaders::Fabric)
        } else {
            None
        }
    }

    /// The loader family's display name.
    pub fn name_str(&self) -> (r: String)
        ensures
            *self == ModLoaders::Vanilla ==> r@ == "Vanilla"@,
            *self == ModLoaders::Forge ==> r@ == "Forge"@,
            *self == ModLoaders::NeoForge ==> r@ == "NeoForge"@,
            *self == ModLoaders::Fabric ==> r@ == "Fabric"@,
            *self == ModLoaders::Quilt ==> r@ == "Quilt"@,
            *self == ModLoaders::LiteLoader ==> r@ == "LiteLoader"@,
            *self == ModLoaders::Rift ==> r@ == "Rift"@,
    {
        match self {
            ModLoaders::Vanilla => String::from_str("Vanilla"),
            ModLoaders::Forge => String::from_str("Forge"),
            ModLoaders::NeoForge => String::from_str("NeoForge"),
            ModLoaders::Fabric => String::from_str("Fabric"),
            ModLoaders::Quilt => String::from_str("Quilt"),
            ModLoaders::LiteLoader => String::from_str("LiteLoader"),
            ModLoaders::Rift => String::from_str("Rift"),
        }
    }

    /// Whether the family contributes an overlay manifest to merge.
    pub fn has_overlay(&self) -> (r: bool)
        ensures
            r == (*self == ModLoaders::Forge || *self == ModLoaders::Fabric),
    {
        match self {
            ModLoaders::Forge => true,
            ModLoaders::Fabric => true,
            _ => false,
        }
    }

    /// Whether the family needs a host-side installer run before launch.
    pub fn needs_install(&self) -> (r: bool)
        ensures
            r == (*self == ModLoaders::Forge),
    {
        match self {
            ModLoaders::Forge => true,
            _ => false,
        }
    }
}

/// The overlay manifest a loader family contributes.
#[derive(Debug)]
pub enum LoaderManifests {
    Fabric(FabricVersionManifest),
    Forge(ForgeVersionManifest),
}

/// The Fabric loader's overlay manifest.
#[derive(Debug)]
pub struct FabricVersionManifest {
    pub arguments: MCArguments,
    pub id: String,
    pub libraries: Vec<FabricLibrary>,
    pub main_class: String,
    pub inherits_from: String,
    pub release_time: String,
    pub time: String,
    pub typ: String,
}

/// A Fabric library: a coordinate plus the repository holding it.
#[derive(Debug)]
pub struct FabricLibrary {
    pub name: String,
    pub url: String,
}

/// The Forge loader's overlay manifest.
#[derive(Debug)]
pub struct ForgeVersionManifest {
    pub arguments: Option<MCArguments>,
    pub minecraft_arguments: Option<String>,
    pub id: String,
    pub libraries: Vec<MCLibrary>,
    pub main_class: String,
    pub inherits_from: String,
    pub release_time: String,
    pub time: String,
    pub typ: String,
}

/// Where the Fabric meta service serves the overlay manifest for a game
/// version and loader version.
pub fn fabric_manifest_url(mc_ver: &str, fabric_loader_ver: &str) -> (r: String)
    ensures
        r@ == "https://meta.fabricmc.net/v2/versions/loader/"@ + mc_ver@ + seq!['/']
            + fabric_loader_ver@ + "/profile/json"@,
{
    let mut out = String::from_str("https://meta.fabricmc.net/v2/versions/loader/");
    proof {
        reveal_strlit("/");
        assert("/"@ =~= seq!['/']);
    }
    out.append(mc_ver);
    out.append("/");
    out.append(fabric_loader_ver);
    out.append("/profile/json");
    out
}

} // verus!
