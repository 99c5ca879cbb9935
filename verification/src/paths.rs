use vstd::prelude::*;
use crate::strutil::{replace_all, spec_replace, string_push};

verus! {

/// Index of the first occurrence of `c` in `s`, or -1 when absent.
pub open spec fn first_idx(s: Seq<char>, c: char) -> int
    decreases s.len(),
{
    if s.len() == 0 {
        -1
    } else if s[0] == c {
        0
    } else {
        if first_idx(s.skip(1), c) < 0 {
            -1
        } else {
            first_idx(s.skip(1), c) + 1
        }
    }
}

/// What `first_idx` returns: -1 exactly when `c` is absent, else the least
/// position holding `c`.
pub proof fn lemma_first_idx(s: Seq<char>, c: char)
    ensures
        first_idx(s, c) == -1 <==> (forall|k: int| 0 <= k < s.len() ==> s[k] != c),
        first_idx(s, c) != -1 ==> 0 <= first_idx(s, c) < s.len() && s[first_idx(s, c)] == c && (
        forall|k: int| 0 <= k < first_idx(s, c) ==> s[k] != c),
    decreases s.len(),
{
    if s.len() == 0 {
    } else if s[0] == c {
    } else {
        lemma_first_idx(s.skip(1), c);
        let r = first_idx(s.skip(1), c);
        if r == -1 {
            assert(forall|k: int| 0 <= k < s.len() ==> s[k] != c) by {
                assert(forall|k: int| 1 <= k < s.len() ==> s[k] == s.skip(1)[k - 1]);
            }
        } else {
            assert(s[r + 1] == s.skip(1)[r]);
            assert(forall|k: int| 1 <= k < r + 1 ==> s[k] == s.skip(1)[k - 1]);
        }
    }
}

/// Position of the first occurrence of `c` in `s`, if any.
pub fn find_char(s: &str, c: char) -> (r: Option<usize>)
    ensures
        match r {
            Some(i) => first_idx(s@, c) == i as int,
            None => first_idx(s@, c) == -1,
        },
{
    let n: usize = s.unicode_len();
    let mut i: usize = 0;
    while i < n
        invariant
            n == s@.len(),
            0 <= i <= n,
            forall|k: int| 0 <= k < i ==> s@[k] != c,
        decreases n - i,
    {
        if s.get_char(i) == c {
            proof {
                lemma_first_idx(s@, c);
            }
            return Some(i);
        }
        i = i + 1;
    }
    proof {
        lemma_first_idx(s@, c);
    }
    None
}

/// A package coordinate `group:artifact:version[:classifier][@extension]` is
/// syntactically valid when the part before any `@` has at least three
/// colon-separated segments and at most one `@` occurs.
pub open spec fn coord_well_formed(s: Seq<char>) -> bool {
    let base = coord_base(s);
    first_idx(base, ':') >= 0 && first_idx(base.skip(first_idx(base, ':') + 1), ':') >= 0
        && first_idx(coord_ext(s), '@') == -1
}

/// The coordinate without its `@extension` suffix.
pub open spec fn coord_base(s: Seq<char>) -> Seq<char> {
    if first_idx(s, '@') < 0 {
        s
    } else {
        s.take(first_idx(s, '@'))
    }
}

/// The extension of the coordinate; `jar` when none is given.
pub open spec fn coord_ext(s: Seq<char>) -> Seq<char> {
    if first_idx(s, '@') < 0 {
        seq!['j', 'a', 'r']
    } else {
        s.skip(first_idx(s, '@') + 1)
    }
}

/// The relative repository path a well-formed coordinate resolves to:
/// `group/with/dots/as/slashes/artifact/version/artifact-version[-classifier].ext`.
pub open spec fn spec_maven_path(s: Seq<char>) -> Seq<char> {
    let base = coord_base(s);
    let ext = coord_ext(s);
    let c1 = first_idx(base, ':');
    let group = base.take(c1);
    let rest = base.skip(c1 + 1);
    let c2 = first_idx(rest, ':');
    let name = rest.take(c2);
    let version = rest.skip(c2 + 1);
    let vp = if first_idx(version, ':') < 0 {
        version
    } else {
        version.take(first_idx(version, ':'))
    };
    spec_replace(group, seq!['.'], seq!['/']) + seq!['/'] + name + seq!['/'] + vp + seq!['/']
        + name + seq!['-'] + spec_replace(version, seq![':'], seq!['-']) + seq!['.'] + ext
}

/// Resolves a package coordinate to the relative path of its artifact file,
/// exactly as `spec_maven_path` states.
pub fn maven_identifier_to_path(identifier: &str) -> (r: String)
    requires
        coord_well_formed(identifier@),
    ensures
        r@ == spec_maven_path(identifier@),
{
    let n: usize = identifier.unicode_len();
    proof {
        lemma_first_idx(identifier@, '@');
    }
    let (base, ext): (&str, String) = match find_char(identifier, '@') {
        Some(i) => (
            identifier.substring_char(0, i),
            String::from_str(identifier.substring_char(i + 1, n)),
        ),
        None => (identifier, String::from_str("jar")),
    };
    proof {
        lemma_first_idx(identifier@, '@');
        assert(identifier@.take(first_idx(identifier@, '@')) =~= identifier@.subrange(
            0,
            first_idx(identifier@, '@'),
        ));
        if first_idx(identifier@, '@') >= 0 {
            assert(identifier@.skip(first_idx(identifier@, '@') + 1) =~= identifier@.subrange(
                first_idx(identifier@, '@') + 1,
                n as int,
            ));
        } else {
            reveal_strlit("jar");
        }
        assert(base@ == coord_base(identifier@));
        assert(ext@ == coord_ext(identifier@));
    }
    let bn: usize = base.unicode_len();
    proof {
        lemma_first_idx(base@, ':');
    }
    let c1: usize = match find_char(base, ':') {
        Some(i) => i,
        None => {
            proof {
                assert(false);
            }
            0
        },
    };
    let group: &str = base.substring_char(0, c1);
    let rest: &str = base.substring_char(c1 + 1, bn);
    proof {
        assert(base@.take(c1 as int) =~= base@.subrange(0, c1 as int));
        assert(base@.skip(c1 + 1) =~= base@.subrange(c1 + 1, bn as int));
    }
    let rn: usize = rest.unicode_len();
    proof {
        lemma_first_idx(rest@, ':');
    }
    let c2: usize = match find_char(rest, ':') {
        Some(i) => i,
        None => {
            proof {
                assert(false);
            }
            0
        },
    };
    let name: &str = rest.substring_char(0, c2);
    let version: &str = rest.substring_char(c2 + 1, rn);
    proof {
        assert(rest@.take(c2 as int) =~= rest@.subrange(0, c2 as int));
        assert(rest@.skip(c2 + 1) =~= rest@.subrange(c2 + 1, rn as int));
    }
    let vn: usize = version.unicode_len();
    proof {
        lemma_first_idx(version@, ':');
    }
    let version_path: &str = match find_char(version, ':') {
        Some(i) => version.substring_char(0, i),
        None => version,
    };
    proof {
        if first_idx(version@, ':') >= 0 {
            assert(version@.take(first_idx(version@, ':')) =~= version@.subrange(
                0,
                first_idx(version@, ':'),
            ));
        }
        reveal_strlit(".");
        reveal_strlit("/");
        reveal_strlit(":");
        reveal_strlit("-");
        assert("."@ =~= seq!['.']);
        assert("/"@ =~= seq!['/']);
        assert(":"@ =~= seq![':']);
        assert("-"@ =~= seq!['-']);
    }
    let mut out: String = replace_all(group, ".", "/");
    out.append("/");
    out.append(name);
    out.append("/");
    out.append(version_path);
    out.append("/");
    out.append(name);
    out.append("-");
    let version_dashed = replace_all(version, ":", "-");
    out.append(version_dashed.as_str());
    out.append(".");
    out.append(ext.as_str());
    proof {
        assert(out@ =~= spec_maven_path(identifier@));
    }
    out
}

/// The download URL of a coordinate's artifact in the repository at `base`.
pub open spec fn spec_resolve_to_url(base: Seq<char>, coord: Seq<char>) -> Seq<char> {
    base + seq!['/'] + spec_maven_path(coord)
}

/// The URL a coordinate resolves to round-trips: its path component past
/// the repository base is exactly the coordinate's relative path, whatever
/// the coordinate holds.
pub proof fn lemma_resolve_to_url_round_trip(base: Seq<char>, coord: Seq<char>)
    ensures
        spec_resolve_to_url(base, coord).skip(base.len() as int + 1) == spec_maven_path(coord),
        spec_resolve_to_url(base, coord).take(base.len() as int) == base,
{
    assert(spec_resolve_to_url(base, coord).skip(base.len() as int + 1) =~= spec_maven_path(coord));
    assert(spec_resolve_to_url(base, coord).take(base.len() as int) =~= base);
}

/// Appending `@ext` to a coordinate without an extension changes only the
/// extension of the resolved path: the path keeps its stem (everything up
/// to and including the final dot) and swaps the default `jar` for `ext`.
pub proof fn lemma_maven_ext_changes_only_extension(s: Seq<char>, e: Seq<char>)
    requires
        coord_well_formed(s),
        first_idx(s, '@') == -1,
        first_idx(e, '@') == -1,
    ensures
        ({
            let plain = spec_maven_path(s);
            let with_ext = spec_maven_path(s + seq!['@'] + e);
            &&& plain.len() >= 3
            &&& plain.skip(plain.len() - 3) == "jar"@
            &&& with_ext == plain.take(plain.len() - 3) + e
        }),
{
    let s2 = s + seq!['@'] + e;
    lemma_first_idx(s, '@');
    lemma_first_idx(s2, '@');
    assert(s2[s.len() as int] == '@');
    let fi = first_idx(s2, '@');
    assert(fi != -1);
    assert(forall|k: int| 0 <= k < s.len() ==> s2[k] == s[k]);
    assert(fi == s.len()) by {
        if fi < s.len() {
            assert(s2[fi] == s[fi]);
        }
        if fi > s.len() {
            assert(s2[s.len() as int] != '@');
        }
    }
    assert(coord_base(s2) =~= s);
    assert(coord_ext(s2) =~= e);
    assert(coord_base(s) == s);
    reveal_strlit("jar");
    let base = s;
    let ext1 = coord_ext(s);
    assert(ext1 =~= "jar"@);
    let c1 = first_idx(base, ':');
    let group = base.take(c1);
    let rest = base.skip(c1 + 1);
    let c2 = first_idx(rest, ':');
    let name = rest.take(c2);
    let version = rest.skip(c2 + 1);
    let vp = if first_idx(version, ':') < 0 {
        version
    } else {
        version.take(first_idx(version, ':'))
    };
    let stem = crate::strutil::spec_replace(group, seq!['.'], seq!['/']) + seq!['/'] + name
        + seq!['/'] + vp + seq!['/'] + name + seq!['-'] + crate::strutil::spec_replace(
        version,
        seq![':'],
        seq!['-'],
    ) + seq!['.'];
    assert(spec_maven_path(s) =~= stem + "jar"@);
    assert(spec_maven_path(s2) =~= stem + e);
    assert((stem + "jar"@).skip((stem + "jar"@).len() - 3) =~= "jar"@);
    assert((stem + "jar"@).take((stem + "jar"@).len() - 3) =~= stem);
    assert(spec_maven_path(s2) =~= spec_maven_path(s).take(spec_maven_path(s).len() - 3) + e);
}

/// `first_idx` is pinned by exhibiting the least position of `ch`.
pub proof fn lemma_first_idx_is(s: Seq<char>, ch: char, i: int)
    requires
        0 <= i < s.len(),
        s[i] == ch,
        forall|k: int| 0 <= k < i ==> s[k] != ch,
    ensures
        first_idx(s, ch) == i,
{
    lemma_first_idx(s, ch);
    let fi = first_idx(s, ch);
    if fi == -1 {
        assert(s[i] != ch);
    } else {
        if fi < i {
            assert(s[fi] != ch);
        }
        if fi > i {
            assert(s[i] != ch);
        }
    }
}

/// The version segment of a coordinate: what stands after the second colon
/// of the base (classifier included).
pub open spec fn coord_version(s: Seq<char>) -> Seq<char> {
    let base = coord_base(s);
    let rest = base.skip(first_idx(base, ':') + 1);
    rest.skip(first_idx(rest, ':') + 1)
}

/// Replacing the single separator of `x + ':' + y` yields `x + '-' + y`
/// when neither side holds a colon.
proof fn lemma_replace_single_colon(x: Seq<char>, y: Seq<char>)
    requires
        forall|k: int| 0 <= k < x.len() ==> x[k] != ':',
        forall|k: int| 0 <= k < y.len() ==> y[k] != ':',
    ensures
        spec_replace(x + seq![':'] + y, seq![':'], seq!['-']) == x + seq!['-'] + y,
    decreases x.len(),
{
    let s = x + seq![':'] + y;
    if x.len() == 0 {
        assert(s[0] == ':');
        assert(crate::strutil::match_at(s, seq![':'], 0));
        assert(s.skip(1) =~= y);
        assert forall|k: int| !#[trigger] crate::strutil::match_at(y, seq![':'], k) by {
            if crate::strutil::match_at(y, seq![':'], k) {
                assert(y[k] == ':');
            }
        }
        crate::strutil::lemma_replace_absent(y, seq![':'], seq!['-']);
        assert(spec_replace(s, seq![':'], seq!['-']) =~= x + seq!['-'] + y);
    } else {
        assert(x[0] != ':');
        assert(s[0] == x[0]);
        assert(!crate::strutil::match_at(s, seq![':'], 0)) by {
            assert(seq![':'][0] == ':');
            assert(s[0] != ':');
        }
        assert(s.len() >= 1);
        assert(s.skip(1) =~= x.skip(1) + seq![':'] + y);
        assert(forall|k: int| 0 <= k < x.skip(1).len() ==> x.skip(1)[k] == x[k + 1]);
        lemma_replace_single_colon(x.skip(1), y);
        assert(spec_replace(s, seq![':'], seq!['-']) =~= x + seq!['-'] + y);
    }
}

/// Appending `:classifier` to a three-segment coordinate changes only the
/// file name's suffix: the resolved path keeps everything up to the default
/// extension and gains `-classifier` before it.
pub proof fn lemma_maven_classifier_changes_only_suffix(s: Seq<char>, c: Seq<char>)
    requires
        coord_well_formed(s),
        first_idx(s, '@') == -1,
        first_idx(c, '@') == -1,
        first_idx(c, ':') == -1,
        first_idx(coord_version(s), ':') == -1,
    ensures
        ({
            let plain = spec_maven_path(s);
            let classified = spec_maven_path(s + seq![':'] + c);
            &&& plain.len() >= 4
            &&& plain.skip(plain.len() - 4) == ".jar"@
            &&& classified == plain.take(plain.len() - 4) + seq!['-'] + c + ".jar"@
        }),
{
    let s2 = s + seq![':'] + c;
    lemma_first_idx(s, '@');
    lemma_first_idx(c, '@');
    lemma_first_idx(c, ':');
    // no '@' anywhere in s2, so base and default extension carry over
    assert forall|k: int| 0 <= k < s2.len() implies s2[k] != '@' by {
        if k < s.len() {
            assert(s2[k] == s[k]);
        } else if k == s.len() {
            assert(s2[k] == ':');
        } else {
            assert(s2[k] == c[k - s.len() - 1]);
        }
    }
    lemma_first_idx(s2, '@');
    assert(first_idx(s2, '@') == -1);
    assert(coord_base(s2) == s2);
    assert(coord_base(s) == s);
    reveal_strlit("jar");
    reveal_strlit(".jar");
    let ext = coord_ext(s);
    assert(ext =~= "jar"@);
    assert(coord_ext(s2) =~= "jar"@);
    // the first two colons sit where they sat
    let c1 = first_idx(s, ':');
    lemma_first_idx(s, ':');
    assert(s2[c1] == s[c1]);
    lemma_first_idx_is(s2, ':', c1);
    let rest = s.skip(c1 + 1);
    let rest2 = s2.skip(c1 + 1);
    assert(rest2 =~= rest + seq![':'] + c);
    let c2 = first_idx(rest, ':');
    lemma_first_idx(rest, ':');
    assert(forall|k: int| 0 <= k < rest.len() ==> rest2[k] == rest[k]);
    lemma_first_idx_is(rest2, ':', c2);
    let version = rest.skip(c2 + 1);
    let version2 = rest2.skip(c2 + 1);
    assert(version2 =~= version + seq![':'] + c);
    // the version of s holds no colon, so the classifier starts the third
    assert(version == coord_version(s));
    lemma_first_idx(version, ':');
    assert(version2[version.len() as int] == ':');
    lemma_first_idx_is(version2, ':', version.len() as int);
    let vp2 = version2.take(version.len() as int);
    assert(vp2 =~= version);
    // group and name carry over
    assert(s2.take(c1) =~= s.take(c1));
    assert(rest2.take(c2) =~= rest.take(c2));
    // the dashed version gains exactly `-classifier`
    assert forall|k: int| 0 <= k < version.len() implies version[k] != ':' by {}
    assert forall|k: int| 0 <= k < c.len() implies c[k] != ':' by {}
    lemma_replace_single_colon(version, c);
    assert forall|k: int| !#[trigger] crate::strutil::match_at(version, seq![':'], k) by {
        if crate::strutil::match_at(version, seq![':'], k) {
            assert(version[k] == ':');
        }
    }
    crate::strutil::lemma_replace_absent(version, seq![':'], seq!['-']);
    let group_part = spec_replace(s.take(c1), seq!['.'], seq!['/']);
    let name = rest.take(c2);
    let stem = group_part + seq!['/'] + name + seq!['/'] + version + seq!['/'] + name + seq!['-']
        + version;
    assert(spec_maven_path(s) =~= stem + seq!['.'] + "jar"@);
    assert(spec_maven_path(s2) =~= stem + seq!['-'] + c + seq!['.'] + "jar"@);
    let plain = spec_maven_path(s);
    assert(plain.len() >= 4);
    assert(seq!['.'] + "jar"@ =~= ".jar"@);
    assert(plain.skip(plain.len() - 4) =~= ".jar"@);
    assert(plain.take(plain.len() - 4) =~= stem);
    assert(spec_maven_path(s2) =~= plain.take(plain.len() - 4) + seq!['-'] + c + ".jar"@);
}

/// `base` and `name` joined with a single `/`.
pub fn path_join(base: &str, name: &str) -> (r: String)
    ensures
        r@ == base@ + seq!['/'] + name@,
{
    let mut out = String::from_str(base);
    proof {
        reveal_strlit("/");
        assert("/"@ =~= seq!['/']);
    }
    out.append("/");
    out.append(name);
    out
}

/// The launcher's own directory under the platform configuration root.
pub fn get_config_dir(config_root: &str) -> (r: String)
    ensures
        r@ == config_root@ + seq!['/'] + "yamcl"@,
{
    path_join(config_root, "yamcl")
}

/// The launcher's own directory under the platform data root.
pub fn get_data_dir(data_root: &str) -> (r: String)
    ensures
        r@ == data_root@ + seq!['/'] + "yamcl"@,
{
    path_join(data_root, "yamcl")
}

/// Where client jars are cached, under the launcher data directory.
pub fn get_client_jar_dir(data_dir: &str) -> (r: String)
    ensures
        r@ == data_dir@ + seq!['/'] + "client_jars"@,
{
    path_join(data_dir, "client_jars")
}

/// Where libraries are cached, under the launcher data directory.
pub fn get_library_dir(data_dir: &str) -> (r: String)
    ensures
        r@ == data_dir@ + seq!['/'] + "libraries"@,
{
    path_join(data_dir, "libraries")
}

/// Where assets are cached, under the launcher data directory.
pub fn get_assets_dir(data_dir: &str) -> (r: String)
    ensures
        r@ == data_dir@ + seq!['/'] + "assets"@,
{
    path_join(data_dir, "assets")
}

/// Where logging configurations are cached, under the launcher data directory.
pub fn get_log4j_dir(data_dir: &str) -> (r: String)
    ensures
        r@ == data_dir@ + seq!['/'] + "log4j_configs"@,
{
    path_join(data_dir, "log4j_configs")
}

/// Where installer downloads and extracts are cached, under the launcher data
/// directory.
pub fn get_forge_cache_dir(data_dir: &str) -> (r: String)
    ensures
        r@ == data_dir@ + seq!['/'] + "forge_cache"@,
{
    path_join(data_dir, "forge_cache")
}

} // verus!
