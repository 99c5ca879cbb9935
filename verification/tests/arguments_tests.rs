use yamcl::arguments::{normalized_version_name, parse_arguments, substitute_and_filter, Args};

fn reps(pairs: &[(&str, &str)]) -> Vec<(String, String)> {
    pairs.iter().map(|(a, b)| (a.to_string(), b.to_string())).collect()
}

#[test]
fn substitution_then_denylist_filtering() {
    let args = vec![
        "--demo".to_string(),
        "--username".to_string(),
        "${auth_player_name}".to_string(),
    ];
    let replacements = reps(&[("${auth_player_name}", "Alice")]);
    let out = substitute_and_filter(&args, &replacements);
    assert_eq!(out, vec!["--username".to_string(), "Alice".to_string()]);
}

#[test]
fn filtering_applies_to_substituted_text() {
    // the placeholder expands to denylisted text: filtered after substitution
    let args = vec!["${flag}".to_string()];
    let replacements = reps(&[("${flag}", "--demo")]);
    let out = substitute_and_filter(&args, &replacements);
    assert!(out.is_empty());
}

#[test]
fn quick_play_arguments_are_stripped() {
    let args = vec![
        "--quickPlayPath".to_string(),
        "${quickPlayPath}".to_string(),
        "--gameDir".to_string(),
    ];
    let out = substitute_and_filter(&args, &reps(&[]));
    assert_eq!(out, vec!["--gameDir".to_string()]);
}

#[test]
fn replacements_apply_in_list_order() {
    let args = vec!["${a}".to_string()];
    let replacements = reps(&[("${a}", "${b}"), ("${b}", "final")]);
    let out = substitute_and_filter(&args, &replacements);
    assert_eq!(out, vec!["final".to_string()]);
}

#[test]
fn parse_arguments_keeps_main_class() {
    let args = Args {
        jvm: vec!["-cp".to_string(), "${classpath}".to_string()],
        game: vec!["${auth_player_name}".to_string()],
        main_class: "net.minecraft.client.main.Main".to_string(),
    };
    let replacements = reps(&[
        ("${classpath}", "/a.jar:/b.jar"),
        ("${auth_player_name}", "Alice"),
    ]);
    let out = parse_arguments(args, &replacements);
    assert_eq!(out.jvm, vec!["-cp".to_string(), "/a.jar:/b.jar".to_string()]);
    assert_eq!(out.game, vec!["Alice".to_string()]);
    assert_eq!(out.main_class, "net.minecraft.client.main.Main");
}

#[test]
fn version_name_normalization() {
    assert_eq!(normalized_version_name("1.20.1 OptiFine:HD"), "1.20.1_OptiFine_HD");
    assert_eq!(normalized_version_name("1.20.1"), "1.20.1");
}
