use vstd::prelude::*;
use crate::fetcher::DownloadRequest;
use crate::mc_structs::MCLibrary;
use crate::paths::{
    coord_well_formed, first_idx, lemma_first_idx, maven_identifier_to_path, path_join,
    spec_maven_path,
};
use crate::strutil::{
    match_at, matches_at, spec_contains, spec_is_space, spec_join, str_contains, str_eq,
    str_starts_with, join_strings, views,
};

verus! {

/// Which variant of the game a processor or data value serves.
#[derive(Clone, Copy, Debug, PartialEq, Eq, Structural)]
pub enum Side {
    Server,
    Client,
}

impl Side {
    /// The side's lower-case name, as substituted for the `SIDE` key.
    pub fn name_lower(&self) -> (r: String)
        ensures
            *self == Side::Client ==> r@ == "client"@,
            *self == Side::Server ==> r@ == "server"@,
    {
        match self {
            Side::Client => String::from_str("client"),
            Side::Server => String::from_str("server"),
        }
    }
}

/// Index of the first occurrence of `pat` in `s`, or -1 when absent.
pub open spec fn first_match(s: Seq<char>, pat: Seq<char>) -> int
    decreases s.len(),
{
    if s.len() < pat.len() {
        -1
    } else if match_at(s, pat, 0) {
        0
    } else {
        if first_match(s.skip(1), pat) < 0 {
            -1
        } else {
            first_match(s.skip(1), pat) + 1
        }
    }
}

/// What `first_match` returns: -1 exactly when `pat` occurs nowhere, else
/// the least position where it occurs.
pub proof fn lemma_first_match(s: Seq<char>, pat: Seq<char>)
    ensures
        first_match(s, pat) == -1 <==> (forall|k: int| !#[trigger] match_at(s, pat, k)),
        first_match(s, pat) != -1 ==> 0 <= first_match(s, pat) && first_match(s, pat) + pat.len()
            <= s.len() && match_at(s, pat, first_match(s, pat)) && (forall|k: int|
            0 <= k < first_match(s, pat) ==> !#[trigger] match_at(s, pat, k)),
    decreases s.len(),
{
    if s.len() < pat.len() {
        assert forall|k: int| !#[trigger] match_at(s, pat, k) by {}
    } else if match_at(s, pat, 0) {
    } else {
        lemma_first_match(s.skip(1), pat);
        let r = first_match(s.skip(1), pat);
        if r == -1 {
            assert forall|k: int| !#[trigger] match_at(s, pat, k) by {
                if 1 <= k && k + pat.len() <= s.len() {
                    if match_at(s, pat, k) {
                        assert(forall|j: int|
                            0 <= j < pat.len() ==> #[trigger] s.skip(1)[k - 1 + j] == s[k + j]);
                        assert(match_at(s.skip(1), pat, k - 1));
                    }
                }
            }
        } else {
            assert(forall|j: int|
                0 <= j < pat.len() ==> #[trigger] s.skip(1)[r + j] == s[r + 1 + j]);
            assert(match_at(s, pat, r + 1));
            assert forall|k: int| 0 <= k < r + 1 implies !#[trigger] match_at(s, pat, k) by {
                if 1 <= k && match_at(s, pat, k) {
                    assert(forall|j: int|
                        0 <= j < pat.len() ==> #[trigger] s.skip(1)[k - 1 + j] == s[k + j]);
                    assert(match_at(s.skip(1), pat, k - 1));
                }
            }
        }
    }
}

/// Position of the first occurrence of `pat` in `s`, if any.
pub fn find_submatch(s: &str, pat: &str) -> (r: Option<usize>)
    ensures
        match r {
            Some(i) => first_match(s@, pat@) == i as int,
            None => first_match(s@, pat@) == -1,
        },
{
    let n: usize = s.unicode_len();
    let m: usize = pat.unicode_len();
    proof {
        lemma_first_match(s@, pat@);
    }
    if m > n {
        return None;
    }
    let mut i: usize = 0;
    while i <= n - m
        invariant
            n == s@.len(),
            m == pat@.len(),
            m <= n,
            0 <= i <= n - m + 1,
            forall|k: int| 0 <= k < i ==> !#[trigger] match_at(s@, pat@, k),
        decreases n - m - i + 1,
    {
        if matches_at(s, pat, i) {
            proof {
                lemma_first_match(s@, pat@);
            }
            return Some(i);
        }
        i = i + 1;
    }
    proof {
        lemma_first_match(s@, pat@);
        assert(forall|k: int| #[trigger] match_at(s@, pat@, k) ==> 0 <= k && k + m <= n);
    }
    None
}

/// `s` without leading whitespace.
pub open spec fn spec_trim_start(s: Seq<char>) -> Seq<char>
    decreases s.len(),
{
    if s.len() > 0 && spec_is_space(s[0]) {
        spec_trim_start(s.skip(1))
    } else {
        s
    }
}

/// `s` without trailing whitespace.
pub open spec fn spec_trim_end(s: Seq<char>) -> Seq<char>
    decreases s.len(),
{
    if s.len() > 0 && spec_is_space(s.last()) {
        spec_trim_end(s.drop_last())
    } else {
        s
    }
}

/// `s` without leading and trailing whitespace.
pub open spec fn spec_trim(s: Seq<char>) -> Seq<char> {
    spec_trim_end(spec_trim_start(s))
}

proof fn lemma_trim_start_at(s: Seq<char>, a: int)
    requires
        0 <= a <= s.len(),
        forall|k: int| 0 <= k < a ==> spec_is_space(s[k]),
        a < s.len() ==> !spec_is_space(s[a]),
    ensures
        spec_trim_start(s) == s.skip(a),
    decreases a,
{
    if a == 0 {
        assert(s.skip(0) =~= s);
    } else {
        lemma_trim_start_at(s.skip(1), a - 1);
        assert(forall|k: int| 0 <= k < s.skip(1).len() ==> s.skip(1)[k] == s[k + 1]);
        assert(s.skip(1).skip(a - 1) =~= s.skip(a));
    }
}

proof fn lemma_trim_end_at(s: Seq<char>, b: int)
    requires
        0 <= b <= s.len(),
        forall|k: int| b <= k < s.len() ==> spec_is_space(s[k]),
        b > 0 ==> !spec_is_space(s[b - 1]),
    ensures
        spec_trim_end(s) == s.take(b),
    decreases s.len() - b,
{
    if b == s.len() {
        assert(s.take(b) =~= s);
    } else {
        lemma_trim_end_at(s.drop_last(), b);
        assert(s.drop_last().take(b) =~= s.take(b));
    }
}

/// Position of the first non-whitespace character, or `n` when none.
fn skip_ws_start(s: &str, n: usize) -> (a: usize)
    requires
        n == s@.len(),
    ensures
        0 <= a <= n,
        forall|k: int| 0 <= k < a ==> spec_is_space(s@[k]),
        a < n ==> !spec_is_space(s@[a as int]),
{
    let mut a: usize = 0;
    while a < n
        invariant
            n == s@.len(),
            0 <= a <= n,
            forall|k: int| 0 <= k < a ==> spec_is_space(s@[k]),
        decreases n - a,
    {
        let c = s.get_char(a);
        if !(c == ' ' || c == '\t' || c == '\n' || c == '\r' || c == '\x0C') {
            return a;
        }
        a = a + 1;
    }
    n
}

/// Position right after the last non-whitespace character at or past `a`,
/// or `a` when none.
fn skip_ws_end(s: &str, n: usize, a: usize) -> (b: usize)
    requires
        n == s@.len(),
        a <= n,
    ensures
        a <= b <= n,
        forall|k: int| b <= k < n ==> spec_is_space(s@[k]),
        b > a ==> !spec_is_space(s@[b - 1]),
{
    let mut b: usize = n;
    while b > a
        invariant
            n == s@.len(),
            a <= b <= n,
            forall|k: int| b <= k < n ==> spec_is_space(s@[k]),
        decreases b,
    {
        let c = s.get_char(b - 1);
        if !(c == ' ' || c == '\t' || c == '\n' || c == '\r' || c == '\x0C') {
            return b;
        }
        b = b - 1;
    }
    a
}

/// `s` with surrounding whitespace removed, exactly as `spec_trim` states.
pub fn str_trim(s: &str) -> (r: String)
    ensures
        r@ == spec_trim(s@),
{
    let n: usize = s.unicode_len();
    let a = skip_ws_start(s, n);
    proof {
        lemma_trim_start_at(s@, a as int);
    }
    let ghost st = s@.skip(a as int);
    let b = skip_ws_end(s, n, a);
    proof {
        assert(forall|k: int| 0 <= k < st.len() ==> st[k] == s@[k + a]);
        lemma_trim_end_at(st, b - a);
        assert(st.take(b - a) =~= s@.subrange(a as int, b as int));
    }
    String::from_str(s.substring_char(a, b))
}

/// The lines of `s`, split on `\n`; a string without `\n` is one line.
pub open spec fn spec_lines(s: Seq<char>) -> Seq<Seq<char>>
    decreases s.len(),
    via spec_lines_decreases
{
    if first_idx(s, '\n') < 0 {
        seq![s]
    } else {
        seq![s.take(first_idx(s, '\n'))] + spec_lines(s.skip(first_idx(s, '\n') + 1))
    }
}

#[via_fn]
proof fn spec_lines_decreases(s: Seq<char>) {
    lemma_first_idx(s, '\n');
}

/// A jar manifest line that declares the entry point.
pub open spec fn spec_is_mc_line(line: Seq<char>) -> bool {
    "Main-Class:"@.len() <= line.len() && line.subrange(0, "Main-Class:"@.len() as int)
        == "Main-Class:"@
}

/// Index of the first entry-point line, or -1.
pub open spec fn spec_first_mc_line(lines: Seq<Seq<char>>) -> int
    decreases lines.len(),
{
    if lines.len() == 0 {
        -1
    } else if spec_is_mc_line(lines[0]) {
        0
    } else {
        if spec_first_mc_line(lines.skip(1)) < 0 {
            -1
        } else {
            spec_first_mc_line(lines.skip(1)) + 1
        }
    }
}

proof fn lemma_first_mc_line(lines: Seq<Seq<char>>)
    ensures
        spec_first_mc_line(lines) == -1 <==> (forall|k: int|
            0 <= k < lines.len() ==> !spec_is_mc_line(#[trigger] lines[k])),
        spec_first_mc_line(lines) != -1 ==> 0 <= spec_first_mc_line(lines) < lines.len()
            && spec_is_mc_line(lines[spec_first_mc_line(lines)]) && (forall|k: int|
            0 <= k < spec_first_mc_line(lines) ==> !spec_is_mc_line(#[trigger] lines[k])),
    decreases lines.len(),
{
    if lines.len() == 0 {
    } else if spec_is_mc_line(lines[0]) {
    } else {
        lemma_first_mc_line(lines.skip(1));
        let r = spec_first_mc_line(lines.skip(1));
        assert(forall|k: int| 1 <= k < lines.len() ==> lines[k] == lines.skip(1)[k - 1]);
        if r != -1 {
            assert(lines[r + 1] == lines.skip(1)[r]);
        }
    }
}

/// The entry-point class a jar manifest text names: on the first line
/// beginning `Main-Class:`, the trimmed text after the first `: `; nothing
/// when no such line exists or the line lacks `: `.
pub open spec fn spec_main_class(mf_text: Seq<char>) -> Option<Seq<char>> {
    let lines = spec_lines(mf_text);
    let li = spec_first_mc_line(lines);
    if li < 0 {
        None
    } else {
        let line = lines[li];
        let m = first_match(line, ": "@);
        if m < 0 {
            None
        } else {
            Some(spec_trim(line.skip(m + 2)))
        }
    }
}

/// Splits `s` into lines on `\n`, exactly as `spec_lines` states.
pub fn split_lines(s: &str) -> (r: Vec<String>)
    ensures
        views(r@) == spec_lines(s@),
{
    let n: usize = s.unicode_len();
    let mut out: Vec<String> = Vec::new();
    let mut i: usize = 0;
    proof {
        assert(s@.skip(0) =~= s@);
        assert(views(out@) + spec_lines(s@) =~= spec_lines(s@));
    }
    loop
        invariant
            n == s@.len(),
            0 <= i <= n,
            spec_lines(s@) == views(out@) + spec_lines(s@.skip(i as int)),
        decreases n - i,
    {
        let ghost rest = s@.skip(i as int);
        let mut j: usize = i;
        let mut found: bool = false;
        while j < n && !found
            invariant
                n == s@.len(),
                i <= j <= n,
                rest == s@.skip(i as int),
                forall|k: int| i <= k < j ==> s@[k] != '\n',
                found ==> j < n && s@[j as int] == '\n',
            decreases n - j + (if found {
                0int
            } else {
                1int
            }),
        {
            if s.get_char(j) == '\n' {
                found = true;
            } else {
                j = j + 1;
            }
        }
        proof {
            lemma_first_idx(rest, '\n');
            assert(forall|k: int| 0 <= k < rest.len() ==> rest[k] == s@[i + k]);
            if found {
                assert(rest[j - i] == '\n');
                assert(first_idx(rest, '\n') == j - i);
                assert(rest.take(j - i) =~= s@.subrange(i as int, j as int));
                assert(rest.skip((j - i) + 1) =~= s@.skip(j + 1));
            } else {
                assert(first_idx(rest, '\n') == -1);
                assert(rest =~= s@.subrange(i as int, n as int));
            }
        }
        let line = String::from_str(s.substring_char(i, j));
        out.push(line);
        if found {
            proof {
                let ghost prev = out@.drop_last();
                assert(views(out@) =~= views(prev) + seq![rest.take(j - i)]);
                assert((views(prev) + seq![rest.take(j - i)]) + spec_lines(s@.skip(j + 1)) =~= views(
                    prev,
                ) + (seq![rest.take(j - i)] + spec_lines(s@.skip(j + 1))));
            }
            i = j + 1;
        } else {
            proof {
                assert(spec_lines(rest) =~= seq![rest]);
                assert(views(out@) =~= views(out@.drop_last()) + seq![rest]);
            }
            return out;
        }
    }
}

/// Reads the entry-point class out of a jar manifest's text, exactly as
/// `spec_main_class` states.
pub fn get_jar_main_class(mf_text: &str) -> (r: Option<String>)
    ensures
        match r {
            Some(v) => spec_main_class(mf_text@) == Some(v@),
            None => spec_main_class(mf_text@) is None,
        },
{
    let lines = split_lines(mf_text);
    let n = lines.len();
    let mut i: usize = 0;
    proof {
        lemma_first_mc_line(views(lines@));
    }
    while i < n
        invariant
            n == lines@.len(),
            views(lines@) == spec_lines(mf_text@),
            0 <= i <= n,
            forall|k: int| 0 <= k < i ==> !spec_is_mc_line(#[trigger] views(lines@)[k]),
        decreases n - i,
    {
        proof {
            assert(views(lines@)[i as int] == lines@[i as int]@);
        }
        if str_starts_with(lines[i].as_str(), "Main-Class:") {
            proof {
                lemma_first_mc_line(views(lines@));
                assert(spec_first_mc_line(views(lines@)) == i as int);
            }
            let line = lines[i].as_str();
            let ln: usize = line.unicode_len();
            match find_submatch(line, ": ") {
                Some(m) => {
                    proof {
                        lemma_first_match(line@, ": "@);
                        reveal_strlit(": ");
                    }
                    let value = line.substring_char(m + 2, ln);
                    proof {
                        assert(value@ =~= line@.skip(m + 2));
                    }
                    let trimmed = str_trim(value);
                    return Some(trimmed);
                },
                None => {
                    return None;
                },
            }
        }
        i = i + 1;
    }
    proof {
        lemma_first_mc_line(views(lines@));
    }
    None
}

/// A per-side data value of an install profile.
#[derive(Debug)]
pub struct ForgeMappings {
    pub client: String,
    pub server: String,
}

/// The value a mapping holds for a side.
pub open spec fn spec_side_value(m: ForgeMappings, side: Side) -> Seq<char> {
    match side {
        Side::Client => m.client@,
        Side::Server => m.server@,
    }
}

/// A bracketed value `[coordinate]`.
pub open spec fn spec_bracketed(v: Seq<char>) -> bool {
    v.len() >= 2 && v[0] == '[' && v[v.len() - 1] == ']'
}

/// A braced value `{KEY}`.
pub open spec fn spec_braced(v: Seq<char>) -> bool {
    v.len() >= 2 && v[0] == '{' && v[v.len() - 1] == '}'
}

/// What a data value resolves to: a bracketed coordinate becomes the
/// coordinate's absolute path under `library_dir`, anything else passes
/// through.
pub open spec fn spec_mapping_value(v: Seq<char>, library_dir: Seq<char>) -> Seq<char> {
    if spec_bracketed(v) {
        library_dir + seq!['/'] + spec_maven_path(v.subrange(1, v.len() - 1))
    } else {
        v
    }
}

impl ForgeMappings {
    /// Resolves this mapping for `side`, exactly as `spec_mapping_value`
    /// states.
    pub fn get_value(&self, side: &Side, library_dir: &str) -> (r: String)
        requires
            spec_bracketed(spec_side_value(*self, *side)) ==> coord_well_formed(
                spec_side_value(*self, *side).subrange(
                    1,
                    spec_side_value(*self, *side).len() - 1,
                ),
            ),
        ensures
            r@ == spec_mapping_value(spec_side_value(*self, *side), library_dir@),
    {
        let val: &str = match side {
            Side::Client => self.client.as_str(),
            Side::Server => self.server.as_str(),
        };
        let n: usize = val.unicode_len();
        if n >= 2 && val.get_char(0) == '[' && val.get_char(n - 1) == ']' {
            let inner = val.substring_char(1, n - 1);
            proof {
                assert(inner@ =~= val@.subrange(1, val@.len() - 1));
            }
            let p = maven_identifier_to_path(inner);
            path_join(library_dir, p.as_str())
        } else {
            String::from_str(val)
        }
    }
}

/// One post-download processing step of an install profile.
#[derive(Debug)]
pub struct ForgeProcessor {
    pub sides: Option<Vec<Side>>,
    pub jar: String,
    pub classpath: Vec<String>,
    pub args: Vec<String>,
}

/// An install profile: per-side data values, the ordered processors, and
/// the libraries only the installer needs.
#[derive(Debug)]
pub struct ForgeInstallProfile {
    pub spec_version: Option<u16>,
    pub version: String,
    pub minecraft: String,
    pub server_jar_path: Option<String>,
    pub data: Vec<(String, ForgeMappings)>,
    pub processors: Vec<ForgeProcessor>,
    pub libraries: Vec<MCLibrary>,
}

/// The data map's keys are pairwise distinct, as a keyed map holds them;
/// lookup by first match is then lookup by the only match.
pub open spec fn spec_data_keys_unique(data: Seq<(String, ForgeMappings)>) -> bool {
    forall|i: int, j: int|
        0 <= i < j < data.len() ==> (#[trigger] data[i]).0@ != (#[trigger] data[j]).0@
}

impl ForgeInstallProfile {
    /// A well-formed profile: its data map holds each key once.
    pub open spec fn wf(&self) -> bool {
        spec_data_keys_unique(self.data@)
    }
}

/// The first data entry stored under `key`, if any.
pub open spec fn spec_data_lookup(data: Seq<(String, ForgeMappings)>, key: Seq<char>) -> Option<
    ForgeMappings,
>
    decreases data.len(),
{
    if data.len() == 0 {
        None
    } else if data[0].0@ == key {
        Some(data[0].1)
    } else {
        spec_data_lookup(data.skip(1), key)
    }
}

proof fn lemma_data_lookup(data: Seq<(String, ForgeMappings)>, key: Seq<char>, i: int)
    requires
        0 <= i <= data.len(),
        forall|k: int| 0 <= k < i ==> (#[trigger] data[k]).0@ != key,
    ensures
        i < data.len() && data[i].0@ == key ==> spec_data_lookup(data, key) == Some(data[i].1),
        i == data.len() ==> spec_data_lookup(data, key) is None,
    decreases i,
{
    if i == 0 {
    } else {
        assert(data[0].0@ != key);
        lemma_data_lookup(data.skip(1), key, i - 1);
        assert(forall|k: int| 0 <= k < data.skip(1).len() ==> data.skip(1)[k] == data[k + 1]);
    }
}

impl ForgeInstallProfile {
    /// The entry stored under `key`, exactly as `spec_data_lookup` states;
    /// on a well-formed profile the first match is the only one.
    pub fn get_mapping(&self, key: &str) -> (r: Option<&ForgeMappings>)
        requires
            self.wf(),
        ensures
            match r {
                Some(m) => spec_data_lookup(self.data@, key@) == Some(*m),
                None => spec_data_lookup(self.data@, key@) is None,
            },
    {
        let n = self.data.len();
        let mut i: usize = 0;
        while i < n
            invariant
                n == self.data@.len(),
                0 <= i <= n,
                forall|k: int| 0 <= k < i ==> (#[trigger] self.data@[k]).0@ != key@,
            decreases n - i,
        {
            if str_eq(self.data[i].0.as_str(), key) {
                proof {
                    lemma_data_lookup(self.data@, key@, i as int);
                }
                return Some(&self.data[i].1);
            }
            i = i + 1;
        }
        proof {
            lemma_data_lookup(self.data@, key@, n as int);
        }
        None
    }
}

/// The side's name as the `SIDE` key resolves it.
pub open spec fn spec_side_lower(side: Side) -> Seq<char> {
    match side {
        Side::Client => "client"@,
        Side::Server => "server"@,
    }
}

/// The per-version directory the installer's files are extracted to.
pub open spec fn spec_extracts_dir(
    forge_cache_dir: Seq<char>,
    mc_ver: Seq<char>,
    forge_ver: Seq<char>,
) -> Seq<char> {
    forge_cache_dir + "/forge-"@ + mc_ver + "-"@ + forge_ver
}

/// What one processor argument template resolves to, before the absolute
/// path rewrite: a braced key via the built-ins or the data map, a
/// bracketed coordinate via the library directory (and the file must then
/// exist), anything else verbatim.
pub open spec fn spec_resolved_arg(
    arg: Seq<char>,
    profile: ForgeInstallProfile,
    side: Side,
    library_dir: Seq<char>,
    client_jar_dir: Seq<char>,
) -> (Seq<char>, bool) {
    if spec_braced(arg) {
        let key = arg.subrange(1, arg.len() - 1);
        if key == "SIDE"@ {
            (spec_side_lower(side), false)
        } else if key == "MINECRAFT_JAR"@ {
            (client_jar_dir + seq!['/'] + profile.minecraft@ + ".jar"@, false)
        } else {
            (
                spec_mapping_value(
                    spec_side_value(spec_data_lookup(profile.data@, key)->Some_0, side),
                    library_dir,
                ),
                false,
            )
        }
    } else if spec_bracketed(arg) {
        (library_dir + seq!['/'] + spec_maven_path(arg.subrange(1, arg.len() - 1)), true)
    } else {
        (arg, false)
    }
}

/// A resolved argument that names an absolute path outside the managed data
/// directory is redirected into the extraction cache.
pub open spec fn spec_needs_rewrite(text: Seq<char>, data_dir: Seq<char>) -> bool {
    text.len() >= 1 && text[0] == '/' && !spec_contains(text, data_dir)
}

/// The absolute-path rewrite: the leading `/` is replaced by the extraction
/// directory of the profile's version, derived by splitting the version on
/// the fixed `-forge-` marker.
pub open spec fn spec_rewritten_arg(
    text: Seq<char>,
    version: Seq<char>,
    data_dir: Seq<char>,
    forge_cache_dir: Seq<char>,
) -> Seq<char> {
    if spec_needs_rewrite(text, data_dir) {
        let i = first_match(version, "-forge-"@);
        spec_extracts_dir(forge_cache_dir, version.take(i), version.skip(i + 7)) + seq!['/']
            + text.skip(1)
    } else {
        text
    }
}

/// One processor argument template, fully resolved: substitution first,
/// then the absolute-path rewrite of the substituted text; the flag says
/// the named file must already exist.
pub open spec fn spec_processor_arg(
    arg: Seq<char>,
    profile: ForgeInstallProfile,
    side: Side,
    library_dir: Seq<char>,
    client_jar_dir: Seq<char>,
    data_dir: Seq<char>,
    forge_cache_dir: Seq<char>,
) -> (Seq<char>, bool) {
    let (text, must_exist) = spec_resolved_arg(arg, profile, side, library_dir, client_jar_dir);
    (spec_rewritten_arg(text, profile.version@, data_dir, forge_cache_dir), must_exist)
}

/// An argument template the resolver is defined on: braced keys are a
/// built-in or present in the data map with a well-formed coordinate when
/// bracketed; bracketed coordinates are well-formed; a text that triggers
/// the rewrite finds the version marker.
pub open spec fn spec_parg_wf(
    arg: Seq<char>,
    profile: ForgeInstallProfile,
    side: Side,
    library_dir: Seq<char>,
    client_jar_dir: Seq<char>,
    data_dir: Seq<char>,
) -> bool {
    let resolvable = if spec_braced(arg) {
        let key = arg.subrange(1, arg.len() - 1);
        key == "SIDE"@ || key == "MINECRAFT_JAR"@ || (spec_data_lookup(profile.data@, key)
            matches Some(m) && (spec_bracketed(spec_side_value(m, side)) ==> coord_well_formed(
            spec_side_value(m, side).subrange(1, spec_side_value(m, side).len() - 1),
        )))
    } else if spec_bracketed(arg) {
        coord_well_formed(arg.subrange(1, arg.len() - 1))
    } else {
        true
    };
    resolvable && (spec_needs_rewrite(
        spec_resolved_arg(arg, profile, side, library_dir, client_jar_dir).0,
        data_dir,
    ) ==> first_match(profile.version@, "-forge-"@) >= 0)
}

/// The classpath entries a processor runs with: its declared classpath
/// coordinates, then its own jar, each under the library directory.
pub open spec fn spec_processor_cp(proc: ForgeProcessor, library_dir: Seq<char>) -> Seq<Seq<char>> {
    proc.classpath@.map_values(|c: String| library_dir + seq!['/'] + spec_maven_path(c@)).push(
        library_dir + seq!['/'] + spec_maven_path(proc.jar@),
    )
}

impl ForgeProcessor {
    /// A processor runs when it declares no side restriction, or its
    /// restriction includes the requested side.
    pub fn should_run(&self, side: &Side) -> (r: bool)
        ensures
            r == (self.sides is None || self.sides->Some_0@.contains(*side)),
    {
        match &self.sides {
            None => true,
            Some(sides) => {
                let n = sides.len();
                let mut i: usize = 0;
                while i < n
                    invariant
                        self.sides == Some(*sides),
                        n == sides@.len(),
                        0 <= i <= n,
                        forall|k: int| 0 <= k < i ==> sides@[k] != *side,
                    decreases n - i,
                {
                    if sides[i] == *side {
                        proof {
                            assert(*sides == self.sides->Some_0);
                            assert(self.sides->Some_0@[i as int] == *side);
                            assert(self.sides->Some_0@.contains(*side));
                        }
                        return true;
                    }
                    i = i + 1;
                }
                false
            },
        }
    }

    /// The classpath the processor's process runs with, exactly as
    /// `spec_processor_cp` and `spec_join` state.
    pub fn build_classpath(&self, library_dir: &str, separator: &str) -> (r: String)
        requires
            forall|i: int|
                0 <= i < self.classpath@.len() ==> coord_well_formed(
                    (#[trigger] self.classpath@[i])@,
                ),
            coord_well_formed(self.jar@),
        ensures
            r@ == spec_join(spec_processor_cp(*self, library_dir@), separator@),
    {
        let mut parts: Vec<String> = Vec::new();
        let n = self.classpath.len();
        let mut i: usize = 0;
        while i < n
            invariant
                n == self.classpath@.len(),
                forall|k: int|
                    0 <= k < n ==> coord_well_formed((#[trigger] self.classpath@[k])@),
                0 <= i <= n,
                parts@.len() == i,
                forall|k: int|
                    0 <= k < i ==> (#[trigger] parts@[k])@ == library_dir@ + seq!['/']
                        + spec_maven_path(self.classpath@[k]@),
            decreases n - i,
        {
            let p = maven_identifier_to_path(self.classpath[i].as_str());
            parts.push(path_join(library_dir, p.as_str()));
            i = i + 1;
        }
        let jp = maven_identifier_to_path(self.jar.as_str());
        parts.push(path_join(library_dir, jp.as_str()));
        proof {
            assert(views(parts@) =~= spec_processor_cp(*self, library_dir@));
        }
        join_strings(&parts, separator)
    }

    /// Resolves every argument template of the processor, exactly as
    /// `spec_processor_arg` states: the string to pass, and whether the
    /// named file must already exist on disk.
    pub fn parse_args(
        &self,
        install_profile: &ForgeInstallProfile,
        side: &Side,
        data_dir: &str,
        client_jar_dir: &str,
        library_dir: &str,
        forge_cache_dir: &str,
    ) -> (r: Vec<(String, bool)>)
        requires
            install_profile.wf(),
            forall|i: int|
                0 <= i < self.args@.len() ==> spec_parg_wf(
                    (#[trigger] self.args@[i])@,
                    *install_profile,
                    *side,
                    library_dir@,
                    client_jar_dir@,
                    data_dir@,
                ),
        ensures
            r@.len() == self.args@.len(),
            forall|i: int|
                0 <= i < r@.len() ==> ((#[trigger] r@[i]).0@, r@[i].1) == spec_processor_arg(
                    self.args@[i]@,
                    *install_profile,
                    *side,
                    library_dir@,
                    client_jar_dir@,
                    data_dir@,
                    forge_cache_dir@,
                ),
    {
        let n = self.args.len();
        let mut out: Vec<(String, bool)> = Vec::new();
        let mut i: usize = 0;
        while i < n
            invariant
                install_profile.wf(),
                n == self.args@.len(),
                forall|k: int|
                    0 <= k < n ==> spec_parg_wf(
                        (#[trigger] self.args@[k])@,
                        *install_profile,
                        *side,
                        library_dir@,
                        client_jar_dir@,
                        data_dir@,
                    ),
                0 <= i <= n,
                out@.len() == i,
                forall|k: int|
                    0 <= k < i ==> ((#[trigger] out@[k]).0@, out@[k].1) == spec_processor_arg(
                        self.args@[k]@,
                        *install_profile,
                        *side,
                        library_dir@,
                        client_jar_dir@,
                        data_dir@,
                        forge_cache_dir@,
                    ),
            decreases n - i,
        {
            let resolved = resolve_one_arg(
                self.args[i].as_str(),
                install_profile,
                side,
                data_dir,
                client_jar_dir,
                library_dir,
                forge_cache_dir,
            );
            out.push(resolved);
            i = i + 1;
        }
        out
    }
}

/// Resolves one argument template.
fn resolve_one_arg(
    arg: &str,
    profile: &ForgeInstallProfile,
    side: &Side,
    data_dir: &str,
    client_jar_dir: &str,
    library_dir: &str,
    forge_cache_dir: &str,
) -> (r: (String, bool))
    requires
        profile.wf(),
        spec_parg_wf(arg@, *profile, *side, library_dir@, client_jar_dir@, data_dir@),
    ensures
        (r.0@, r.1) == spec_processor_arg(
            arg@,
            *profile,
            *side,
            library_dir@,
            client_jar_dir@,
            data_dir@,
            forge_cache_dir@,
        ),
{
    let n: usize = arg.unicode_len();
    let braced = n >= 2 && arg.get_char(0) == '{' && arg.get_char(n - 1) == '}';
    let bracketed = n >= 2 && arg.get_char(0) == '[' && arg.get_char(n - 1) == ']';
    let (text, must_exist): (String, bool) = if braced {
        let key = arg.substring_char(1, n - 1);
        proof {
            assert(key@ =~= arg@.subrange(1, arg@.len() - 1));
        }
        if str_eq(key, "SIDE") {
            (side.name_lower(), false)
        } else if str_eq(key, "MINECRAFT_JAR") {
            let mut name = profile.minecraft.clone();
            name.append(".jar");
            (path_join(client_jar_dir, name.as_str()), false)
        } else {
            match profile.get_mapping(key) {
                Some(m) => (m.get_value(side, library_dir), false),
                None => {
                    proof {
                        assert(false);
                    }
                    (String::new(), false)
                },
            }
        }
    } else if bracketed {
        let inner = arg.substring_char(1, n - 1);
        proof {
            assert(inner@ =~= arg@.subrange(1, arg@.len() - 1));
        }
        let p = maven_identifier_to_path(inner);
        (path_join(library_dir, p.as_str()), true)
    } else {
        (String::from_str(arg), false)
    };
    proof {
        assert((text@, must_exist) == spec_resolved_arg(
            arg@,
            *profile,
            *side,
            library_dir@,
            client_jar_dir@,
        ));
    }
    let tn: usize = text.unicode_len();
    let rewrite = tn >= 1 && text.as_str().get_char(0) == '/' && !str_contains(
        text.as_str(),
        data_dir,
    );
    if rewrite {
        let vn: usize = profile.version.unicode_len();
        match find_submatch(profile.version.as_str(), "-forge-") {
            Some(m) => {
                proof {
                    lemma_first_match(profile.version@, "-forge-"@);
                    reveal_strlit("-forge-");
                }
                let mc = profile.version.as_str().substring_char(0, m);
                let fv = profile.version.as_str().substring_char(m + 7, vn);
                proof {
                    assert(mc@ =~= profile.version@.take(m as int));
                    assert(fv@ =~= profile.version@.skip(m + 7));
                }
                let extracts = get_installer_extracts_dir(forge_cache_dir, mc, fv);
                let tail = text.as_str().substring_char(1, tn);
                proof {
                    assert(tail@ =~= text@.skip(1));
                }
                (path_join(extracts.as_str(), tail), must_exist)
            },
            None => {
                proof {
                    assert(false);
                }
                (text, must_exist)
            },
        }
    } else {
        (text, must_exist)
    }
}

/// The per-version directory the installer's files are extracted to,
/// exactly as `spec_extracts_dir` states.
pub fn get_installer_extracts_dir(forge_cache_dir: &str, mc_ver: &str, forge_ver: &str) -> (r:
    String)
    ensures
        r@ == spec_extracts_dir(forge_cache_dir@, mc_ver@, forge_ver@),
{
    let mut out = String::from_str(forge_cache_dir);
    out.append("/forge-");
    out.append(mc_ver);
    out.append("-");
    out.append(forge_ver);
    out
}

/// Where the extracted overlay manifest lives.
pub fn get_manifest_path(forge_cache_dir: &str, mc_ver: &str, forge_ver: &str) -> (r: String)
    ensures
        r@ == spec_extracts_dir(forge_cache_dir@, mc_ver@, forge_ver@) + seq!['/']
            + "version.json"@,
{
    let d = get_installer_extracts_dir(forge_cache_dir, mc_ver, forge_ver);
    path_join(d.as_str(), "version.json")
}

/// Where the extracted install profile lives.
pub fn get_install_profile_path(forge_cache_dir: &str, mc_ver: &str, forge_ver: &str) -> (r: String)
    ensures
        r@ == spec_extracts_dir(forge_cache_dir@, mc_ver@, forge_ver@) + seq!['/']
            + "install_profile.json"@,
{
    let d = get_installer_extracts_dir(forge_cache_dir, mc_ver, forge_ver);
    path_join(d.as_str(), "install_profile.json")
}

/// The installer pipeline's fixed locations and downloads.
#[derive(Debug)]
pub struct ForgeInstaller;

impl ForgeInstaller {
    /// The download that fetches the installer archive into the cache; the
    /// installer URL is trusted, so no checksum gates it.
    pub fn download_request(forge_cache_dir: &str, mc_ver: &str, forge_ver: &str) -> (r:
        DownloadRequest)
        ensures
            r.path@ == forge_cache_dir@ + seq!['/'] + "forge-"@ + mc_ver@ + "-"@ + forge_ver@
                + "-installer.jar"@,
            r.url@ == "https://maven.minecraftforge.net/net/minecraftforge/forge/"@ + mc_ver@
                + "-"@ + forge_ver@ + "/forge-"@ + mc_ver@ + "-"@ + forge_ver@
                + "-installer.jar"@,
            r.sha1 is None,
    {
        let mut name = String::from_str("forge-");
        name.append(mc_ver);
        name.append("-");
        name.append(forge_ver);
        name.append("-installer.jar");
        let mut url = String::from_str("https://maven.minecraftforge.net/net/minecraftforge/forge/");
        url.append(mc_ver);
        url.append("-");
        url.append(forge_ver);
        url.append("/forge-");
        url.append(mc_ver);
        url.append("-");
        url.append(forge_ver);
        url.append("-installer.jar");
        DownloadRequest { path: path_join(forge_cache_dir, name.as_str()), url, sha1: None }
    }

    /// Where the patched client jar must lie for the loader to be runnable;
    /// the installer pipeline runs only while this file is absent.
    pub fn client_jar_target(library_dir: &str, mc_ver: &str, forge_ver: &str) -> (r: String)
        ensures
            r@ == library_dir@ + "/net/minecraftforge/forge/"@ + mc_ver@ + "-"@ + forge_ver@
                + "/forge-"@ + mc_ver@ + "-"@ + forge_ver@ + "-client.jar"@,
    {
        let mut out = String::from_str(library_dir);
        out.append("/net/minecraftforge/forge/");
        out.append(mc_ver);
        out.append("-");
        out.append(forge_ver);
        out.append("/forge-");
        out.append(mc_ver);
        out.append("-");
        out.append(forge_ver);
        out.append("-client.jar");
        out
    }
}

/// The archive entries worth extracting, in order: the empty ones are
/// skipped.
pub open spec fn spec_nonempty_entries(files: Seq<(String, Vec<u8>)>) -> Seq<(String, Vec<u8>)>
    decreases files.len(),
{
    if files.len() == 0 {
        Seq::empty()
    } else {
        let rest = spec_nonempty_entries(files.drop_last());
        if files.last().1@.len() > 0 {
            rest.push(files.last())
        } else {
            rest
        }
    }
}

/// Keeps the archive entries whose contents are non-empty, exactly as
/// `spec_nonempty_entries` states.
pub fn select_extract_entries(files: Vec<(String, Vec<u8>)>) -> (r: Vec<(String, Vec<u8>)>)
    ensures
        r@ == spec_nonempty_entries(files@),
{
    let ghost all = files@;
    let mut rest = files;
    let mut out: Vec<(String, Vec<u8>)> = Vec::new();
    let ghost total = all.len();
    proof {
        assert(all.take(0) =~= Seq::<(String, Vec<u8>)>::empty());
    }
    while rest.len() > 0
        invariant
            total == all.len(),
            out@.len() + rest@.len() <= total + out@.len(),
            rest@ == all.skip((total - rest@.len()) as int),
            rest@.len() <= total,
            out@ == spec_nonempty_entries(all.take((total - rest@.len()) as int)),
        decreases rest@.len(),
    {
        let ghost k = total - rest@.len();
        let ghost pre = rest@;
        let entry = rest.remove(0);
        proof {
            assert(pre == all.skip(k as int));
            assert(entry == all.skip(k as int)[0]);
            assert(all.skip(k as int)[0] == all[k as int]);
            assert(rest@ =~= all.skip(k as int).skip(1));
            assert(all.skip(k as int).skip(1) =~= all.skip(k as int + 1));
            assert(all.take(k as int + 1).drop_last() =~= all.take(k as int));
            assert(all.take(k as int + 1).last() == all[k as int]);
        }
        if entry.1.len() > 0 {
            out.push(entry);
        }
    }
    proof {
        assert(all.take(total as int) =~= all);
    }
    out
}

} // verus!
