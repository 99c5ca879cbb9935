use vstd::prelude::*;
use vstd::multiset::Multiset;
use crate::modloaders::{spec_loader_from_cf, spec_loader_from_uid, ModLoaders};
use crate::strutil::str_eq;

verus! {

/// The launcher's own per-instance metadata file.
pub const META_FILENAME: &'static str = "yamcl-data.json";

/// The instance-folder formats the gatherer recognizes.
#[derive(Clone, Copy, Debug, PartialEq, Eq, Structural)]
pub enum InstanceType {
    CurseForge,
    MultiMC,
}

/// The loader an instance declares.
#[derive(Debug)]
pub struct ModLoader {
    pub name: String,
    pub typ: ModLoaders,
    pub version: String,
}

/// A gathered instance, as the launch request consumes it. Paths are the
/// instance's directories; `last_played` counts milliseconds since the unix
/// epoch.
#[derive(Debug)]
pub struct SimpleInstance {
    pub name: String,
    pub icon_path: String,
    pub minecraft_path: String,
    pub instance_path: String,
    pub id: u32,
    pub mc_version: String,
    pub modloader: ModLoader,
    pub last_played: Option<i64>,
    pub instance_type: InstanceType,
}

/// What can go wrong while gathering instances; each variant carries the
/// paths and the underlying failure as text.
#[derive(Debug)]
pub enum InstanceGatherError {
    Unknown,
    PathUnset,
    PathUnlockFailed(String, String),
    DirectoryReadFailed(String),
    FileTypeFailed(String, String),
    FileReadFailed(String, String),
    FileWriteFailed(String, String),
    ParseFailedIni(InstanceType, String, String),
    ParseFailedJson(InstanceType, String, String),
    ParseFailed(String, String),
    NaiveDateTimeParseFailed(String, String),
    IconPathParseFailed(String, String),
    MinecraftNotFound(String),
}

/// The result of one gathering step.
pub type IResult<T> = core::result::Result<T, InstanceGatherError>;

/// A CurseForge instance file.
#[derive(Debug)]
pub struct CFInstance {
    pub last_played: String,
    pub name: String,
    pub game_version: String,
    pub base_mod_loader: Option<CFBaseLoader>,
    pub installed_modpack: Option<CFInstalledPack>,
}

/// The loader a CurseForge instance declares.
#[derive(Debug)]
pub struct CFBaseLoader {
    pub version: String,
    pub minecraft_version: String,
    pub name: String,
}

/// The modpack a CurseForge instance was installed from.
#[derive(Debug)]
pub struct CFInstalledPack {
    pub thumbnail_url: Option<String>,
    pub addon_i_d: u64,
}

/// The launcher's metadata for a CurseForge instance.
#[derive(Debug)]
pub struct CFMetadata {
    pub instance_id: u32,
    pub saved_icon: String,
}

/// A MultiMC instance configuration file. `last_played` counts milliseconds
/// since the unix epoch.
#[derive(Debug)]
pub struct MMCConfig {
    pub name: String,
    pub last_played: Option<i64>,
    pub icon_key: Option<String>,
}

/// A MultiMC pack file.
#[derive(Debug)]
pub struct MMCPack {
    pub components: Vec<MMCPackComponent>,
}

/// One component of a MultiMC pack.
#[derive(Debug)]
pub struct MMCPackComponent {
    pub cached_name: Option<String>,
    pub cached_version: Option<String>,
    pub dependency_only: Option<bool>,
    pub uid: String,
    pub version: Option<String>,
}

/// The launcher's metadata for a MultiMC instance.
#[derive(Debug)]
pub struct MMCMetadata {
    pub instance_id: u32,
}

/// An icon key MultiMC ships built in; such icons cannot be displayed from
/// the instance folder.
pub open spec fn spec_is_builtin_icon(k: Seq<char>) -> bool {
    ||| k == "default"@
    ||| k == "bee"@
    ||| k == "brick"@
    ||| k == "chicken"@
    ||| k == "creeper"@
    ||| k == "diamond"@
    ||| k == "dirt"@
    ||| k == "enderman"@
    ||| k == "enderpearl"@
    ||| k == "flame"@
    ||| k == "fox"@
    ||| k == "gear"@
    ||| k == "herobrine"@
    ||| k == "gold"@
    ||| k == "grass"@
    ||| k == "iron"@
    ||| k == "magitech"@
    ||| k == "meat"@
    ||| k == "modrinth"@
    ||| k == "netherstar"@
    ||| k == "planks"@
    ||| k == "prismlauncher"@
    ||| k == "squarecreeper"@
    ||| k == "steve"@
    ||| k == "stone"@
    ||| k == "tnt"@
    ||| k == "bee_legacy"@
    ||| k == "brick_legacy"@
    ||| k == "chicken_legacy"@
    ||| k == "creeper_legacy"@
    ||| k == "diamond_legacy"@
    ||| k == "dirt_legacy"@
    ||| k == "enderman_legacy"@
    ||| k == "enderpearl_legacy"@
    ||| k == "flame_legacy"@
    ||| k == "fox_legacy"@
    ||| k == "gear_legacy"@
    ||| k == "herobrine_legacy"@
    ||| k == "gold_legacy"@
    ||| k == "grass_legacy"@
    ||| k == "iron_legacy"@
    ||| k == "magitech_legacy"@
    ||| k == "meat_legacy"@
    ||| k == "modrinth_legacy"@
    ||| k == "netherstar_legacy"@
    ||| k == "planks_legacy"@
    ||| k == "prismlauncher_legacy"@
    ||| k == "squarecreeper_legacy"@
    ||| k == "steve_legacy"@
    ||| k == "stone_legacy"@
    ||| k == "tnt_legacy"@
}

impl MMCConfig {
    /// The icon key, unless it names a built-in icon: those cannot be shown
    /// and yield nothing.
    pub fn check_icon(icon_key: &str) -> (r: Option<String>)
        ensures
            match r {
                Some(k) => !spec_is_builtin_icon(icon_key@) && k@ == icon_key@,
                None => spec_is_builtin_icon(icon_key@),
            },
    {
        let builtin = str_eq(icon_key, "default") || str_eq(icon_key, "bee") || str_eq(
            icon_key,
            "brick",
        ) || str_eq(icon_key, "chicken") || str_eq(icon_key, "creeper") || str_eq(
            icon_key,
            "diamond",
        ) || str_eq(icon_key, "dirt") || str_eq(icon_key, "enderman") || str_eq(
            icon_key,
            "enderpearl",
        ) || str_eq(icon_key, "flame") || str_eq(icon_key, "fox") || str_eq(icon_key, "gear")
            || str_eq(icon_key, "herobrine") || str_eq(icon_key, "gold") || str_eq(
            icon_key,
            "grass",
        ) || str_eq(icon_key, "iron") || str_eq(icon_key, "magitech") || str_eq(icon_key, "meat")
            || str_eq(icon_key, "modrinth") || str_eq(icon_key, "netherstar") || str_eq(
            icon_key,
            "planks",
        ) || str_eq(icon_key, "prismlauncher") || str_eq(icon_key, "squarecreeper") || str_eq(
            icon_key,
            "steve",
        ) || str_eq(icon_key, "stone") || str_eq(icon_key, "tnt") || str_eq(
            icon_key,
            "bee_legacy",
        ) || str_eq(icon_key, "brick_legacy") || str_eq(icon_key, "chicken_legacy") || str_eq(
            icon_key,
            "creeper_legacy",
        ) || str_eq(icon_key, "diamond_legacy") || str_eq(icon_key, "dirt_legacy") || str_eq(
            icon_key,
            "enderman_legacy",
        ) || str_eq(icon_key, "enderpearl_legacy") || str_eq(icon_key, "flame_legacy") || str_eq(
            icon_key,
            "fox_legacy",
        ) || str_eq(icon_key, "gear_legacy") || str_eq(icon_key, "herobrine_legacy") || str_eq(
            icon_key,
            "gold_legacy",
        ) || str_eq(icon_key, "grass_legacy") || str_eq(icon_key, "iron_legacy") || str_eq(
            icon_key,
            "magitech_legacy",
        ) || str_eq(icon_key, "meat_legacy") || str_eq(icon_key, "modrinth_legacy") || str_eq(
            icon_key,
            "netherstar_legacy",
        ) || str_eq(icon_key, "planks_legacy") || str_eq(icon_key, "prismlauncher_legacy")
            || str_eq(icon_key, "squarecreeper_legacy") || str_eq(icon_key, "steve_legacy")
            || str_eq(icon_key, "stone_legacy") || str_eq(icon_key, "tnt_legacy");
        if builtin {
            None
        } else {
            Some(String::from_str(icon_key))
        }
    }
}

/// The milliseconds since the unix epoch that the fixed timestamp format
/// `%Y-%m-%dT%H:%M:%S` parses a string to; a function of the string alone.
pub uninterp spec fn parsed_instant_ms(s: Seq<char>) -> Option<i64>;

/// Relies on chrono's `NaiveDateTime::parse_and_remainder` with the fixed
/// format `%Y-%m-%dT%H:%M:%S`, and `and_utc().timestamp_millis()`: both
/// depend on the input string alone. The error case carries chrono's message.
#[verifier::external_body]
fn parse_instant_ms(s: &str) -> (r: Result<i64, String>)
    ensures
        r is Ok <==> parsed_instant_ms(s@) is Some,
        r matches Ok(ms) ==> parsed_instant_ms(s@) == Some(ms),
{
    match chrono::NaiveDateTime::parse_and_remainder(s, "%Y-%m-%dT%H:%M:%S") {
        Ok((dt, _rest)) => Ok(dt.and_utc().timestamp_millis()),
        Err(e) => Err(e.to_string()),
    }
}

/// The loader family's display name.
pub open spec fn spec_loader_name(l: ModLoaders) -> Seq<char> {
    match l {
        ModLoaders::Vanilla => "Vanilla"@,
        ModLoaders::Forge => "Forge"@,
        ModLoaders::NeoForge => "NeoForge"@,
        ModLoaders::Fabric => "Fabric"@,
        ModLoaders::Quilt => "Quilt"@,
        ModLoaders::LiteLoader => "LiteLoader"@,
        ModLoaders::Rift => "Rift"@,
    }
}

/// The loader record a CurseForge instance yields: the declared loader when
/// its name resolves to a known family, else vanilla with an empty version.
pub open spec fn spec_cf_modloader(m: ModLoader, bml: Option<CFBaseLoader>) -> bool {
    match bml {
        Some(b) => match spec_loader_from_cf(b.name@) {
            Some(l) => m.typ == l && m.name@ == spec_loader_name(l) && m.version == b.version,
            None => m.typ == ModLoaders::Vanilla && m.name@ == "Vanilla"@ && m.version@.len() == 0,
        },
        None => m.typ == ModLoaders::Vanilla && m.name@ == "Vanilla"@ && m.version@.len() == 0,
    }
}

impl SimpleInstance {
    /// Assembles a CurseForge instance from its parsed files. The played-at
    /// string is parsed with the fixed timestamp format; timestamps at the
    /// epoch's edge (10 seconds or less) count as never played.
    pub fn get_from_cf(path: &str, meta: CFMetadata, instance_json: CFInstance) -> (r: IResult<
        SimpleInstance,
    >)
        ensures
            match r {
                Ok(inst) => parsed_instant_ms(instance_json.last_played@) matches Some(ms) && {
                    &&& inst.name == instance_json.name
                    &&& inst.icon_path == meta.saved_icon
                    &&& inst.minecraft_path@ == path@
                    &&& inst.instance_path@ == path@
                    &&& inst.id == meta.instance_id
                    &&& inst.mc_version == instance_json.game_version
                    &&& inst.last_played == (if ms >= 11000 {
                        Some(ms)
                    } else {
                        None::<i64>
                    })
                    &&& spec_cf_modloader(inst.modloader, instance_json.base_mod_loader)
                    &&& inst.instance_type == InstanceType::CurseForge
                },
                Err(e) => parsed_instant_ms(instance_json.last_played@) is None && (e matches
                    InstanceGatherError::NaiveDateTimeParseFailed(s, _) && s@
                    == instance_json.last_played@),
            },
    {
        let ms = match parse_instant_ms(instance_json.last_played.as_str()) {
            Ok(ms) => ms,
            Err(e) => {
                return Err(
                    InstanceGatherError::NaiveDateTimeParseFailed(instance_json.last_played, e),
                );
            },
        };
        let modloader: ModLoader = match &instance_json.base_mod_loader {
            Some(base_loader) => {
                match ModLoaders::from_cf(base_loader.name.as_str()) {
                    Some(loader) => ModLoader {
                        name: loader.name_str(),
                        typ: loader,
                        version: base_loader.version.clone(),
                    },
                    None => ModLoader {
                        name: String::from_str("Vanilla"),
                        typ: ModLoaders::Vanilla,
                        version: String::new(),
                    },
                }
            },
            None => ModLoader {
                name: String::from_str("Vanilla"),
                typ: ModLoaders::Vanilla,
                version: String::new(),
            },
        };
        Ok(
            SimpleInstance {
                name: instance_json.name,
                icon_path: meta.saved_icon,
                minecraft_path: String::from_str(path),
                instance_path: String::from_str(path),
                id: meta.instance_id,
                mc_version: instance_json.game_version,
                last_played: if ms >= 11000 {
                    Some(ms)
                } else {
                    None
                },
                modloader,
                instance_type: InstanceType::CurseForge,
            },
        )
    }
}

/// Index of the first pack component with uid `net.minecraft`, or -1.
pub open spec fn spec_first_mc_comp(comps: Seq<MMCPackComponent>) -> int
    decreases comps.len(),
{
    if comps.len() == 0 {
        -1
    } else if comps[0].uid@ == "net.minecraft"@ {
        0
    } else {
        if spec_first_mc_comp(comps.skip(1)) < 0 {
            -1
        } else {
            spec_first_mc_comp(comps.skip(1)) + 1
        }
    }
}

proof fn lemma_first_mc_comp(comps: Seq<MMCPackComponent>)
    ensures
        spec_first_mc_comp(comps) == -1 <==> (forall|k: int|
            0 <= k < comps.len() ==> (#[trigger] comps[k]).uid@ != "net.minecraft"@),
        spec_first_mc_comp(comps) != -1 ==> 0 <= spec_first_mc_comp(comps) < comps.len()
            && comps[spec_first_mc_comp(comps)].uid@ == "net.minecraft"@ && (forall|k: int|
            0 <= k < spec_first_mc_comp(comps) ==> (#[trigger] comps[k]).uid@
                != "net.minecraft"@),
    decreases comps.len(),
{
    if comps.len() == 0 {
    } else if comps[0].uid@ == "net.minecraft"@ {
    } else {
        lemma_first_mc_comp(comps.skip(1));
        let r = spec_first_mc_comp(comps.skip(1));
        assert(forall|k: int| 1 <= k < comps.len() ==> comps[k] == comps.skip(1)[k - 1]);
        if r != -1 {
            assert(comps[r + 1] == comps.skip(1)[r]);
        }
    }
}

/// Index of the first pack component whose uid names a known loader, or -1.
pub open spec fn spec_first_loader_comp(comps: Seq<MMCPackComponent>) -> int
    decreases comps.len(),
{
    if comps.len() == 0 {
        -1
    } else if spec_loader_from_uid(comps[0].uid@) is Some {
        0
    } else {
        if spec_first_loader_comp(comps.skip(1)) < 0 {
            -1
        } else {
            spec_first_loader_comp(comps.skip(1)) + 1
        }
    }
}

proof fn lemma_first_loader_comp(comps: Seq<MMCPackComponent>)
    ensures
        spec_first_loader_comp(comps) == -1 <==> (forall|k: int|
            0 <= k < comps.len() ==> spec_loader_from_uid((#[trigger] comps[k]).uid@) is None),
        spec_first_loader_comp(comps) != -1 ==> 0 <= spec_first_loader_comp(comps) < comps.len()
            && spec_loader_from_uid(comps[spec_first_loader_comp(comps)].uid@) is Some && (
        forall|k: int|
            0 <= k < spec_first_loader_comp(comps) ==> spec_loader_from_uid(
                (#[trigger] comps[k]).uid@,
            ) is None),
    decreases comps.len(),
{
    if comps.len() == 0 {
    } else if spec_loader_from_uid(comps[0].uid@) is Some {
    } else {
        lemma_first_loader_comp(comps.skip(1));
        let r = spec_first_loader_comp(comps.skip(1));
        assert(forall|k: int| 1 <= k < comps.len() ==> comps[k] == comps.skip(1)[k - 1]);
        if r != -1 {
            assert(comps[r + 1] == comps.skip(1)[r]);
        }
    }
}

/// Position of the first pack component with uid `net.minecraft`, if any.
fn find_mc_comp(comps: &Vec<MMCPackComponent>) -> (r: Option<usize>)
    ensures
        match r {
            Some(i) => spec_first_mc_comp(comps@) == i as int,
            None => spec_first_mc_comp(comps@) == -1,
        },
{
    let n = comps.len();
    let mut i: usize = 0;
    while i < n
        invariant
            n == comps@.len(),
            0 <= i <= n,
            forall|k: int| 0 <= k < i ==> (#[trigger] comps@[k]).uid@ != "net.minecraft"@,
        decreases n - i,
    {
        if str_eq(comps[i].uid.as_str(), "net.minecraft") {
            proof {
                lemma_first_mc_comp(comps@);
            }
            return Some(i);
        }
        i = i + 1;
    }
    proof {
        lemma_first_mc_comp(comps@);
    }
    None
}

/// Position of the first pack component whose uid names a known loader, if
/// any.
fn find_loader_comp(comps: &Vec<MMCPackComponent>) -> (r: Option<usize>)
    ensures
        match r {
            Some(i) => spec_first_loader_comp(comps@) == i as int,
            None => spec_first_loader_comp(comps@) == -1,
        },
{
    let n = comps.len();
    let mut i: usize = 0;
    while i < n
        invariant
            n == comps@.len(),
            0 <= i <= n,
            forall|k: int|
                0 <= k < i ==> spec_loader_from_uid((#[trigger] comps@[k]).uid@) is None,
        decreases n - i,
    {
        if ModLoaders::from_uid(comps[i].uid.as_str()).is_some() {
            proof {
                lemma_first_loader_comp(comps@);
            }
            return Some(i);
        }
        i = i + 1;
    }
    proof {
        lemma_first_loader_comp(comps@);
    }
    None
}

/// The loader record a MultiMC pack yields: the first component whose uid
/// names a known family, with its cached name (empty when absent) and its
/// version (a fixed placeholder when absent); vanilla when no component
/// matches.
pub open spec fn spec_mmc_modloader(m: ModLoader, comps: Seq<MMCPackComponent>) -> bool {
    let li = spec_first_loader_comp(comps);
    if li >= 0 {
        let c = comps[li];
        &&& m.typ == spec_loader_from_uid(c.uid@)->Some_0
        &&& (match c.cached_name {
            Some(n) => m.name@ == n@,
            None => m.name@.len() == 0,
        })
        &&& (match c.version {
            Some(v) => m.version@ == v@,
            None => m.version@ == "Unknown Version!"@,
        })
    } else {
        m.typ == ModLoaders::Vanilla && m.name@ == "Vanilla"@ && m.version@.len() == 0
    }
}

impl SimpleInstance {
    /// Assembles a MultiMC instance from its parsed files; the game
    /// directory is `.minecraft` under the instance when that exists, else
    /// `minecraft`. A pack without a resolvable `net.minecraft` component
    /// version is rejected.
    pub fn get_from_mmc(
        path: &str,
        dot_minecraft_exists: bool,
        meta: MMCMetadata,
        instance_cfg: MMCConfig,
        pack_json: MMCPack,
    ) -> (r: IResult<SimpleInstance>)
        ensures
            ({
                let mi = spec_first_mc_comp(pack_json.components@);
                match r {
                    Ok(inst) => mi >= 0 && (pack_json.components@[mi].version is Some) && {
                        &&& inst.name == instance_cfg.name
                        &&& (match instance_cfg.icon_key {
                            Some(k) => inst.icon_path@ == k@,
                            None => inst.icon_path@.len() == 0,
                        })
                        &&& inst.minecraft_path@ == path@ + (if dot_minecraft_exists {
                            "/.minecraft"@
                        } else {
                            "/minecraft"@
                        })
                        &&& inst.instance_path@ == path@
                        &&& inst.id == meta.instance_id
                        &&& inst.mc_version@ == pack_json.components@[mi].version->Some_0@
                        &&& inst.last_played == instance_cfg.last_played
                        &&& spec_mmc_modloader(inst.modloader, pack_json.components@)
                        &&& inst.instance_type == InstanceType::MultiMC
                    },
                    Err(e) => (mi < 0 || pack_json.components@[mi].version is None) && (e matches
                        InstanceGatherError::MinecraftNotFound(p) && p@ == path@),
                }
            }),
    {
        let comps = &pack_json.components;
        let n = comps.len();
        proof {
            lemma_first_mc_comp(comps@);
            lemma_first_loader_comp(comps@);
        }
        let mc_idx = find_mc_comp(comps);
        let mc_version: String = match mc_idx {
            Some(idx) => {
                proof {
                    lemma_first_mc_comp(comps@);
                }
                match &comps[idx].version {
                    Some(v) => v.clone(),
                    None => {
                        return Err(InstanceGatherError::MinecraftNotFound(String::from_str(path)));
                    },
                }
            },
            None => {
                proof {
                    lemma_first_mc_comp(comps@);
                }
                return Err(InstanceGatherError::MinecraftNotFound(String::from_str(path)));
            },
        };
        let loader_idx = find_loader_comp(comps);
        let modloader: ModLoader = match loader_idx {
            Some(idx) => {
                proof {
                    lemma_first_loader_comp(comps@);
                    assert(spec_first_loader_comp(comps@) == idx as int);
                }
                let c = &comps[idx];
                let typ = match ModLoaders::from_uid(c.uid.as_str()) {
                    Some(l) => l,
                    None => ModLoaders::Vanilla,
                };
                let name = match &c.cached_name {
                    Some(cn) => cn.clone(),
                    None => String::new(),
                };
                let version = match &c.version {
                    Some(v) => v.clone(),
                    None => String::from_str("Unknown Version!"),
                };
                ModLoader { name, typ, version }
            },
            None => {
                proof {
                    lemma_first_loader_comp(comps@);
                }
                ModLoader {
                    name: String::from_str("Vanilla"),
                    typ: ModLoaders::Vanilla,
                    version: String::new(),
                }
            },
        };
        let icon_path = match instance_cfg.icon_key {
            Some(k) => k,
            None => String::new(),
        };
        let mut minecraft_path = String::from_str(path);
        if dot_minecraft_exists {
            minecraft_path.append("/.minecraft");
        } else {
            minecraft_path.append("/minecraft");
        }
        Ok(
            SimpleInstance {
                name: instance_cfg.name,
                icon_path,
                minecraft_path,
                instance_path: String::from_str(path),
                id: meta.instance_id,
                mc_version,
                last_played: instance_cfg.last_played,
                modloader,
                instance_type: InstanceType::MultiMC,
            },
        )
    }
}

/// The icon a gathered instance is shown with: a MultiMC instance's
/// non-built-in icon key resolved under the configured icon directory, the
/// stock icon when the key is built in or no directory is configured; a
/// CurseForge instance keeps its saved icon.
pub fn resolved_icon(instance: &SimpleInstance, icon_dir: &Option<String>) -> (r: String)
    ensures
        instance.instance_type == InstanceType::CurseForge ==> r@ == instance.icon_path@,
        instance.instance_type == InstanceType::MultiMC ==> (match icon_dir {
            Some(d) => if !spec_is_builtin_icon(instance.icon_path@) {
                r@ == d@ + seq!['/'] + instance.icon_path@
            } else {
                r@ == "default_instance.png"@
            },
            None => r@ == "default_instance.png"@,
        }),
{
    match instance.instance_type {
        InstanceType::CurseForge => instance.icon_path.clone(),
        InstanceType::MultiMC => {
            match icon_dir {
                Some(d) => {
                    match MMCConfig::check_icon(instance.icon_path.as_str()) {
                        Some(icon) => crate::paths::path_join(d.as_str(), icon.as_str()),
                        None => String::from_str("default_instance.png"),
                    }
                },
                None => String::from_str("default_instance.png"),
            }
        },
    }
}

/// Display order of gathered instances: most recently played first, the
/// never-played after every played one.
pub open spec fn inst_le(a: SimpleInstance, b: SimpleInstance) -> bool {
    match (a.last_played, b.last_played) {
        (Some(x), Some(y)) => x >= y,
        (Some(_), None) => true,
        (None, Some(_)) => false,
        (None, None) => true,
    }
}

/// The display order relates every two instances.
pub proof fn lemma_inst_le_total(a: SimpleInstance, b: SimpleInstance)
    ensures
        inst_le(a, b) || inst_le(b, a),
{
}

/// The display order is transitive.
pub proof fn lemma_inst_le_trans(a: SimpleInstance, b: SimpleInstance, c: SimpleInstance)
    ensures
        inst_le(a, b) && inst_le(b, c) ==> inst_le(a, c),
{
}

/// Position of a least remaining instance under the display order.
fn min_index(rest: &Vec<SimpleInstance>) -> (mi: usize)
    requires
        rest@.len() > 0,
    ensures
        mi < rest@.len(),
        forall|k: int| 0 <= k < rest@.len() ==> inst_le(rest@[mi as int], #[trigger] rest@[k]),
{
    let n = rest.len();
    let mut mi: usize = 0;
    let mut i: usize = 1;
    while i < n
        invariant
            n == rest@.len(),
            0 <= mi < n,
            1 <= i <= n,
            forall|k: int| 0 <= k < i ==> inst_le(rest@[mi as int], #[trigger] rest@[k]),
        decreases n - i,
    {
        let le = match (rest[mi].last_played, rest[i].last_played) {
            (Some(x), Some(y)) => x >= y,
            (Some(_), None) => true,
            (None, Some(_)) => false,
            (None, None) => true,
        };
        if !le {
            proof {
                lemma_inst_le_total(rest@[mi as int], rest@[i as int]);
                assert forall|k: int| 0 <= k < i + 1 implies inst_le(
                    rest@[i as int],
                    #[trigger] rest@[k],
                ) by {
                    lemma_inst_le_trans(rest@[i as int], rest@[mi as int], rest@[k]);
                }
            }
            mi = i;
        }
        i = i + 1;
    }
    mi
}

/// Sorts gathered instances for display: most recently played first,
/// never-played last; the result holds exactly the given instances.
pub fn sort_instances(instances: Vec<SimpleInstance>) -> (r: Vec<SimpleInstance>)
    ensures
        r@.len() == instances@.len(),
        r@.to_multiset() == instances@.to_multiset(),
        forall|i: int, j: int| 0 <= i < j < r@.len() ==> inst_le(#[trigger] r@[i], #[trigger] r@[j]),
{
    broadcast use vstd::seq_lib::group_to_multiset_ensures;

    let ghost orig = instances@;
    let mut rest = instances;
    let mut out: Vec<SimpleInstance> = Vec::new();
    while rest.len() > 0
        invariant
            out@.len() + rest@.len() == orig.len(),
            out@.to_multiset().add(rest@.to_multiset()) == orig.to_multiset(),
            forall|i: int, j: int|
                0 <= i < j < out@.len() ==> inst_le(#[trigger] out@[i], #[trigger] out@[j]),
            forall|i: int, j: int|
                0 <= i < out@.len() && 0 <= j < rest@.len() ==> inst_le(
                    #[trigger] out@[i],
                    #[trigger] rest@[j],
                ),
        decreases rest@.len(),
    {
        let mi = min_index(&rest);
        let ghost rest_pre = rest@;
        let picked = rest.remove(mi);
        let ghost out_pre = out@;
        out.push(picked);
        proof {
            rest_pre.to_multiset_ensures();
            out_pre.to_multiset_ensures();
            assert(picked == rest_pre[mi as int]);
            assert(rest@ == rest_pre.remove(mi as int));
            assert(rest_pre.remove(mi as int).to_multiset() =~= rest_pre.to_multiset().remove(
                rest_pre[mi as int],
            ));
            assert(rest@.to_multiset() =~= rest_pre.to_multiset().remove(picked));
            assert(out@ == out_pre.push(picked));
            assert(out_pre.push(picked).to_multiset() =~= out_pre.to_multiset().insert(picked));
            assert(out@.to_multiset() =~= out_pre.to_multiset().insert(picked));
            assert(rest_pre.to_multiset().count(picked) > 0) by {
                assert(rest_pre.contains(picked));
            }
            assert(out@.to_multiset().add(rest@.to_multiset()) =~= orig.to_multiset());
            assert forall|i: int, j: int|
                0 <= i < j < out@.len() implies inst_le(#[trigger] out@[i], #[trigger] out@[j]) by {
                if j == out@.len() - 1 {
                    assert(out@[j] == rest_pre[mi as int]);
                }
            }
            assert forall|i: int, j: int|
                0 <= i < out@.len() && 0 <= j < rest@.len() implies inst_le(
                #[trigger] out@[i],
                #[trigger] rest@[j],
            ) by {
                assert(rest@[j] == rest_pre.remove(mi as int)[j]);
                if j < mi {
                    assert(rest@[j] == rest_pre[j]);
                } else {
                    assert(rest@[j] == rest_pre[j + 1]);
                }
                if i == out@.len() - 1 {
                    assert(out@[i] == rest_pre[mi as int]);
                }
            }
        }
    }
    proof {
        assert(rest@.to_multiset() =~= Multiset::<SimpleInstance>::empty()) by {
            assert(rest@.len() == 0);
            assert(rest@ =~= Seq::<SimpleInstance>::empty());
        }
        assert(out@.to_multiset() =~= out@.to_multiset().add(rest@.to_multiset()));
    }
    out
}

} // verus!
