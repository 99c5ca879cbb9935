use vstd::prelude::*;
use crate::auth_structs::MCAccount;
use crate::mc_structs::MCVersionManifest;
use crate::strutil::{
    lemma_replace_absent, spec_contains, spec_replace, str_contains, replace_all, views,
};

verus! {

/// The three pieces of a process invocation the launcher assembles.
#[derive(Debug)]
pub struct Args {
    pub jvm: Vec<String>,
    pub game: Vec<String>,
    pub main_class: String,
}

/// `arg` with every replacement pair applied in list order.
pub open spec fn spec_apply_replacements(arg: Seq<char>, reps: Seq<(String, String)>) -> Seq<char>
    decreases reps.len(),
{
    if reps.len() == 0 {
        arg
    } else {
        spec_apply_replacements(spec_replace(arg, reps[0].0@, reps[0].1@), reps.skip(1))
    }
}

/// An argument survives the denylist when its final text mentions neither
/// denied fragment.
pub open spec fn spec_keep_arg(arg: Seq<char>) -> bool {
    !spec_contains(arg, "quickPlay"@) && !spec_contains(arg, "--demo"@)
}

/// The arguments of `args` after substitution (each replacement pair in
/// order) and then denylist filtering of the substituted text, in order.
pub open spec fn spec_parsed_args(args: Seq<String>, reps: Seq<(String, String)>) -> Seq<Seq<char>>
    decreases args.len(),
{
    if args.len() == 0 {
        Seq::empty()
    } else {
        let rest = spec_parsed_args(args.drop_last(), reps);
        let sub = spec_apply_replacements(args.last()@, reps);
        if spec_keep_arg(sub) {
            rest.push(sub)
        } else {
            rest
        }
    }
}

/// Every placeholder is a non-empty string.
pub open spec fn spec_reps_wf(reps: Seq<(String, String)>) -> bool {
    forall|i: int| 0 <= i < reps.len() ==> (#[trigger] reps[i]).0@.len() >= 1
}

/// Applies every replacement pair to `arg`, in list order.
fn apply_replacements(arg: &str, reps: &Vec<(String, String)>) -> (r: String)
    requires
        spec_reps_wf(reps@),
    ensures
        r@ == spec_apply_replacements(arg@, reps@),
{
    let n = reps.len();
    let mut cur = String::from_str(arg);
    let mut i: usize = 0;
    proof {
        assert(reps@.skip(0) =~= reps@);
    }
    while i < n
        invariant
            n == reps@.len(),
            spec_reps_wf(reps@),
            0 <= i <= n,
            spec_apply_replacements(arg@, reps@) == spec_apply_replacements(
                cur@,
                reps@.skip(i as int),
            ),
        decreases n - i,
    {
        let (from, to) = (&reps[i].0, &reps[i].1);
        proof {
            assert(reps@.skip(i as int)[0] == reps@[i as int]);
            assert(reps@.skip(i as int).skip(1) =~= reps@.skip(i + 1));
        }
        cur = replace_all(cur.as_str(), from.as_str(), to.as_str());
        i = i + 1;
    }
    proof {
        assert(reps@.skip(n as int) =~= Seq::<(String, String)>::empty());
    }
    cur
}

/// Substitutes every replacement pair into every argument, then drops each
/// argument whose substituted text still holds a denylisted fragment —
/// filtering happens after substitution, against the final text. Exactly as
/// `spec_parsed_args` states.
pub fn substitute_and_filter(args: &Vec<String>, reps: &Vec<(String, String)>) -> (r: Vec<String>)
    requires
        spec_reps_wf(reps@),
    ensures
        views(r@) == spec_parsed_args(args@, reps@),
{
    let n = args.len();
    let mut out: Vec<String> = Vec::new();
    let mut i: usize = 0;
    proof {
        assert(views(out@) =~= spec_parsed_args(args@.take(0), reps@));
    }
    while i < n
        invariant
            n == args@.len(),
            spec_reps_wf(reps@),
            0 <= i <= n,
            views(out@) == spec_parsed_args(args@.take(i as int), reps@),
        decreases n - i,
    {
        proof {
            assert(args@.take(i + 1).drop_last() =~= args@.take(i as int));
            assert(args@.take(i + 1).last() == args@[i as int]);
        }
        let sub = apply_replacements(args[i].as_str(), reps);
        let keep = !str_contains(sub.as_str(), "quickPlay") && !str_contains(sub.as_str(), "--demo");
        if keep {
            let ghost before = out@;
            out.push(sub);
            proof {
                assert(views(out@) =~= views(before).push(
                    spec_apply_replacements(args@[i as int]@, reps@),
                ));
            }
        }
        i = i + 1;
    }
    proof {
        assert(args@.take(n as int) =~= args@);
    }
    out
}

/// Substitutes launch placeholders into the JVM and game argument lists and
/// strips denylisted arguments; the main class passes through.
pub fn parse_arguments(args_struct: Args, reps: &Vec<(String, String)>) -> (r: Args)
    requires
        spec_reps_wf(reps@),
    ensures
        views(r.jvm@) == spec_parsed_args(args_struct.jvm@, reps@),
        views(r.game@) == spec_parsed_args(args_struct.game@, reps@),
        r.main_class == args_struct.main_class,
{
    let jvm = substitute_and_filter(&args_struct.jvm, reps);
    let game = substitute_and_filter(&args_struct.game, reps);
    Args { jvm, game, main_class: args_struct.main_class }
}

/// No parsed argument mentions a denylisted fragment: whatever the inputs,
/// substitution happens first and anything whose final text still holds
/// `quickPlay` or `--demo` is dropped.
pub proof fn lemma_parsed_args_filtered(args: Seq<String>, reps: Seq<(String, String)>, i: int)
    requires
        0 <= i < spec_parsed_args(args, reps).len(),
    ensures
        !spec_contains(spec_parsed_args(args, reps)[i], "quickPlay"@),
        !spec_contains(spec_parsed_args(args, reps)[i], "--demo"@),
    decreases args.len(),
{
    if args.len() == 0 {
    } else {
        let rest = spec_parsed_args(args.drop_last(), reps);
        if i < rest.len() {
            lemma_parsed_args_filtered(args.drop_last(), reps, i);
        }
    }
}

/// A literal argument that no replacement touches and no denylist entry
/// matches passes through unchanged; in particular a placeholder-only
/// argument becomes exactly the replacement's value.
pub proof fn lemma_untouched_literal(arg: Seq<char>, reps: Seq<(String, String)>)
    requires
        forall|i: int| 0 <= i < reps.len() ==> !spec_contains(arg, (#[trigger] reps[i]).0@),
        forall|i: int| 0 <= i < reps.len() ==> (#[trigger] reps[i]).0@.len() >= 1,
    ensures
        spec_apply_replacements(arg, reps) == arg,
    decreases reps.len(),
{
    if reps.len() == 0 {
    } else {
        lemma_replace_absent(arg, reps[0].0@, reps[0].1@);
        assert(forall|i: int|
            0 <= i < reps.skip(1).len() ==> reps.skip(1)[i] == reps[i + 1]);
        lemma_untouched_literal(arg, reps.skip(1));
    }
}

/// Builds the fixed launch-time replacement set: player identity and tokens
/// from the account, classpath/assets/version values from the manifest and
/// precomputed context, launcher constants, and the loader-specific path
/// values.
pub fn build_replacements(
    account: &MCAccount,
    version: &MCVersionManifest,
    classpath: &str,
    assets_root: &str,
    version_name: &str,
    natives_dir: &str,
    game_dir: &str,
    classpath_separator: &str,
    library_dir: &str,
) -> (r: Vec<(String, String)>)
    requires
        account.xsts_response.display_claims.xui@.len() > 0,
    ensures
        spec_reps_wf(r@),
        r@.len() == 19,
        r@[0].0@ == "${auth_player_name}"@ && r@[0].1@ == account.mc_profile.name@,
        r@[1].0@ == "${auth_uuid}"@ && r@[1].1@ == account.mc_profile.id@,
        r@[2].0@ == "${auth_access_token}"@ && r@[2].1@ == account.mc_response.access_token@,
        r@[3].0@ == "${auth_xuid}"@ && r@[3].1@
            == account.xsts_response.display_claims.xui@[0].uhs@,
        r@[4].0@ == "${user_properties}"@ && r@[4].1@ == "something"@,
        r@[5].0@ == "${classpath}"@ && r@[5].1@ == classpath@,
        r@[6].0@ == "${assets_root}"@ && r@[6].1@ == assets_root@,
        r@[7].0@ == "${version_name}"@ && r@[7].1@ == version_name@,
        r@[8].0@ == "${assets_index_name}"@ && r@[8].1@ == version.asset_index.id@,
        r@[9].0@ == "${version_type}"@ && r@[9].1@ == version.typ@,
        r@[10].0@ == "${natives_directory}"@ && r@[10].1@ == natives_dir@,
        r@[11].0@ == "${launcher_name}"@ && r@[11].1@ == "yamcl"@,
        r@[12].0@ == "${launcher_version}"@ && r@[12].1@ == "323"@,
        r@[13].0@ == "${game_directory}"@ && r@[13].1@ == game_dir@,
        r@[14].0@ == "${user_type}"@ && r@[14].1@ == "msa"@,
        r@[15].0@ == "${resolution_width}"@ && r@[15].1@ == "1200"@,
        r@[16].0@ == "${resolution_height}"@ && r@[16].1@ == "800"@,
        r@[17].0@ == "${classpath_separator}"@ && r@[17].1@ == classpath_separator@,
        r@[18].0@ == "${library_directory}"@ && r@[18].1@ == library_dir@,
{
    let mut out: Vec<(String, String)> = Vec::new();
    out.push((String::from_str("${auth_player_name}"), account.mc_profile.name.clone()));
    out.push((String::from_str("${auth_uuid}"), account.mc_profile.id.clone()));
    out.push((String::from_str("${auth_access_token}"), account.mc_response.access_token.clone()));
    out.push(
        (
            String::from_str("${auth_xuid}"),
            account.xsts_response.display_claims.xui[0].uhs.clone(),
        ),
    );
    out.push((String::from_str("${user_properties}"), String::from_str("something")));
    out.push((String::from_str("${classpath}"), String::from_str(classpath)));
    out.push((String::from_str("${assets_root}"), String::from_str(assets_root)));
    out.push((String::from_str("${version_name}"), String::from_str(version_name)));
    out.push((String::from_str("${assets_index_name}"), version.asset_index.id.clone()));
    out.push((String::from_str("${version_type}"), version.typ.clone()));
    out.push((String::from_str("${natives_directory}"), String::from_str(natives_dir)));
    out.push((String::from_str("${launcher_name}"), String::from_str("yamcl")));
    out.push((String::from_str("${launcher_version}"), String::from_str("323")));
    out.push((String::from_str("${game_directory}"), String::from_str(game_dir)));
    out.push((String::from_str("${user_type}"), String::from_str("msa")));
    out.push((String::from_str("${resolution_width}"), String::from_str("1200")));
    out.push((String::from_str("${resolution_height}"), String::from_str("800")));
    out.push((String::from_str("${classpath_separator}"), String::from_str(classpath_separator)));
    out.push((String::from_str("${library_directory}"), String::from_str(library_dir)));
    proof {
        reveal_strlit("${auth_player_name}");
        reveal_strlit("${auth_uuid}");
        reveal_strlit("${auth_access_token}");
        reveal_strlit("${auth_xuid}");
        reveal_strlit("${user_properties}");
        reveal_strlit("${classpath}");
        reveal_strlit("${assets_root}");
        reveal_strlit("${version_name}");
        reveal_strlit("${assets_index_name}");
        reveal_strlit("${version_type}");
        reveal_strlit("${natives_directory}");
        reveal_strlit("${launcher_name}");
        reveal_strlit("${launcher_version}");
        reveal_strlit("${game_directory}");
        reveal_strlit("${user_type}");
        reveal_strlit("${resolution_width}");
        reveal_strlit("${resolution_height}");
        reveal_strlit("${classpath_separator}");
        reveal_strlit("${library_directory}");
    }
    out
}

/// The version name a manifest id yields for the `${version_name}`
/// placeholder: spaces and colons become underscores.
pub fn normalized_version_name(id: &str) -> (r: String)
    ensures
        r@ == spec_replace(spec_replace(id@, " "@, "_"@), ":"@, "_"@),
{
    proof {
        reveal_strlit(" ");
        reveal_strlit(":");
        reveal_strlit("_");
    }
    let pass = replace_all(id, " ", "_");
    replace_all(pass.as_str(), ":", "_")
}

} // verus!
