use yamcl::instances::{
    resolved_icon, sort_instances, CFBaseLoader, CFInstance, CFMetadata, InstanceType, MMCConfig,
    MMCMetadata, MMCPack, MMCPackComponent, ModLoader, SimpleInstance,
};
use yamcl::modloaders::ModLoaders;

fn cf_instance(loader: Option<CFBaseLoader>) -> CFInstance {
    CFInstance {
        last_played: "2023-06-01T12:30:00".to_string(),
        name: "My Pack".to_string(),
        game_version: "1.20.1".to_string(),
        base_mod_loader: loader,
        installed_modpack: None,
    }
}

fn simple(name: &str, last_played: Option<i64>) -> SimpleInstance {
    SimpleInstance {
        name: name.to_string(),
        icon_path: "icon.png".to_string(),
        minecraft_path: "/i".to_string(),
        instance_path: "/i".to_string(),
        id: 1,
        mc_version: "1.20.1".to_string(),
        modloader: ModLoader {
            name: "Vanilla".to_string(),
            typ: ModLoaders::Vanilla,
            version: String::new(),
        },
        last_played,
        instance_type: InstanceType::MultiMC,
    }
}

#[test]
fn cf_instance_assembly() {
    let meta = CFMetadata { instance_id: 42, saved_icon: "/icons/pack.png".to_string() };
    let json = cf_instance(Some(CFBaseLoader {
        version: "47.2.0".to_string(),
        minecraft_version: "1.20.1".to_string(),
        name: "forge-47.2.0".to_string(),
    }));
    let inst = SimpleInstance::get_from_cf("/instances/pack", meta, json).unwrap();
    assert_eq!(inst.name, "My Pack");
    assert_eq!(inst.icon_path, "/icons/pack.png");
    assert_eq!(inst.minecraft_path, "/instances/pack");
    assert_eq!(inst.id, 42);
    assert_eq!(inst.mc_version, "1.20.1");
    assert_eq!(inst.instance_type, InstanceType::CurseForge);
    assert_eq!(inst.modloader.typ, ModLoaders::Forge);
    assert_eq!(inst.modloader.name, "Forge");
    assert_eq!(inst.modloader.version, "47.2.0");
    let expected_ms = chrono::NaiveDateTime::parse_from_str(
        "2023-06-01T12:30:00",
        "%Y-%m-%dT%H:%M:%S",
    )
    .unwrap()
    .and_utc()
    .timestamp_millis();
    assert_eq!(inst.last_played, Some(expected_ms));
}

#[test]
fn cf_instance_unknown_loader_is_vanilla() {
    let meta = CFMetadata { instance_id: 7, saved_icon: "i.png".to_string() };
    let json = cf_instance(Some(CFBaseLoader {
        version: "9".to_string(),
        minecraft_version: "1.20.1".to_string(),
        name: "rift-9".to_string(),
    }));
    let inst = SimpleInstance::get_from_cf("/p", meta, json).unwrap();
    assert_eq!(inst.modloader.typ, ModLoaders::Vanilla);
    assert_eq!(inst.modloader.name, "Vanilla");
    assert_eq!(inst.modloader.version, "");
}

#[test]
fn cf_instance_bad_timestamp_is_error() {
    let meta = CFMetadata { instance_id: 7, saved_icon: "i.png".to_string() };
    let mut json = cf_instance(None);
    json.last_played = "not a date".to_string();
    assert!(SimpleInstance::get_from_cf("/p", meta, json).is_err());
}

#[test]
fn cf_instance_epoch_edge_counts_as_never_played() {
    let meta = CFMetadata { instance_id: 7, saved_icon: "i.png".to_string() };
    let mut json = cf_instance(None);
    json.last_played = "1970-01-01T00:00:05".to_string();
    let inst = SimpleInstance::get_from_cf("/p", meta, json).unwrap();
    assert_eq!(inst.last_played, None);
}

#[test]
fn mmc_instance_assembly() {
    let meta = MMCMetadata { instance_id: 9 };
    let cfg = MMCConfig {
        name: "MMC Pack".to_string(),
        last_played: Some(1_700_000_000_000),
        icon_key: Some("flame".to_string()),
    };
    let pack = MMCPack {
        components: vec![
            MMCPackComponent {
                cached_name: Some("Minecraft".to_string()),
                cached_version: None,
                dependency_only: None,
                uid: "net.minecraft".to_string(),
                version: Some("1.20.1".to_string()),
            },
            MMCPackComponent {
                cached_name: Some("Fabric Loader".to_string()),
                cached_version: None,
                dependency_only: None,
                uid: "net.fabricmc.fabric-loader".to_string(),
                version: Some("0.15.6".to_string()),
            },
        ],
    };
    let inst = SimpleInstance::get_from_mmc("/instances/mmc", true, meta, cfg, pack).unwrap();
    assert_eq!(inst.name, "MMC Pack");
    assert_eq!(inst.minecraft_path, "/instances/mmc/.minecraft");
    assert_eq!(inst.instance_path, "/instances/mmc");
    assert_eq!(inst.mc_version, "1.20.1");
    assert_eq!(inst.modloader.typ, ModLoaders::Fabric);
    assert_eq!(inst.modloader.name, "Fabric Loader");
    assert_eq!(inst.modloader.version, "0.15.6");
    assert_eq!(inst.last_played, Some(1_700_000_000_000));
    assert_eq!(inst.instance_type, InstanceType::MultiMC);
}

#[test]
fn mmc_instance_without_minecraft_component_is_error() {
    let meta = MMCMetadata { instance_id: 9 };
    let cfg = MMCConfig { name: "x".to_string(), last_played: None, icon_key: None };
    let pack = MMCPack { components: Vec::new() };
    assert!(SimpleInstance::get_from_mmc("/p", false, meta, cfg, pack).is_err());
}

#[test]
fn mmc_game_dir_fallback() {
    let meta = MMCMetadata { instance_id: 9 };
    let cfg = MMCConfig { name: "x".to_string(), last_played: None, icon_key: None };
    let pack = MMCPack {
        components: vec![MMCPackComponent {
            cached_name: None,
            cached_version: None,
            dependency_only: None,
            uid: "net.minecraft".to_string(),
            version: Some("1.19.4".to_string()),
        }],
    };
    let inst = SimpleInstance::get_from_mmc("/p", false, meta, cfg, pack).unwrap();
    assert_eq!(inst.minecraft_path, "/p/minecraft");
    assert_eq!(inst.modloader.typ, ModLoaders::Vanilla);
}

#[test]
fn builtin_icons_are_hidden() {
    assert!(MMCConfig::check_icon("flame").is_none());
    assert!(MMCConfig::check_icon("tnt_legacy").is_none());
    assert_eq!(MMCConfig::check_icon("my_custom.png"), Some("my_custom.png".to_string()));
}

#[test]
fn icon_resolution() {
    let mut inst = simple("a", None);
    inst.icon_path = "custom.png".to_string();
    let dir = Some("/icons".to_string());
    assert_eq!(resolved_icon(&inst, &dir), "/icons/custom.png");
    inst.icon_path = "flame".to_string();
    assert_eq!(resolved_icon(&inst, &dir), "default_instance.png");
    assert_eq!(resolved_icon(&inst, &None), "default_instance.png");
    let mut cf = simple("b", None);
    cf.instance_type = InstanceType::CurseForge;
    cf.icon_path = "/saved/icon.png".to_string();
    assert_eq!(resolved_icon(&cf, &dir), "/saved/icon.png");
}

#[test]
fn instances_sorted_most_recent_first() {
    let list = vec![
        simple("never", None),
        simple("old", Some(1_000)),
        simple("new", Some(2_000)),
        simple("also-never", None),
    ];
    let sorted = sort_instances(list);
    assert_eq!(sorted.len(), 4);
    assert_eq!(sorted[0].name, "new");
    assert_eq!(sorted[1].name, "old");
    assert_eq!(sorted[2].last_played, None);
    assert_eq!(sorted[3].last_played, None);
}
