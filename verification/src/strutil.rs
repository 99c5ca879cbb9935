use vstd::prelude::*;

verus! {

/// `pat` occurs in `s` starting at position `i`.
pub open spec fn match_at(s: Seq<char>, pat: Seq<char>, i: int) -> bool {
    0 <= i && i + pat.len() <= s.len() && (forall|j: int| 0 <= j < pat.len() ==> s[i + j] == pat[j])
}

/// `pat` occurs somewhere in `s`.
pub open spec fn spec_contains(s: Seq<char>, pat: Seq<char>) -> bool {
    exists|i: int| #[trigger] match_at(s, pat, i)
}

/// `s`, with every non-overlapping occurrence of `from` (scanned left to
/// right) replaced by `to`; `s` unchanged when `from` is empty.
pub open spec fn spec_replace(s: Seq<char>, from: Seq<char>, to: Seq<char>) -> Seq<char>
    decreases s.len(),
{
    if from.len() == 0 || s.len() < from.len() {
        s
    } else if match_at(s, from, 0) {
        to + spec_replace(s.skip(from.len() as int), from, to)
    } else {
        seq![s[0]] + spec_replace(s.skip(1), from, to)
    }
}

/// Whether `pat` occurs in `s` at position `i`.
pub fn matches_at(s: &str, pat: &str, i: usize) -> (r: bool)
    requires
        i + pat@.len() <= s@.len(),
    ensures
        r == match_at(s@, pat@, i as int),
{
    let n: usize = s.unicode_len();
    let m: usize = pat.unicode_len();
    let mut j: usize = 0;
    while j < m
        invariant
            n == s@.len(),
            m == pat@.len(),
            i + m <= n,
            0 <= j <= m,
            forall|k: int| 0 <= k < j ==> s@[i + k] == pat@[k],
        decreases m - j,
    {
        if s.get_char(i + j) != pat.get_char(j) {
            return false;
        }
        j = j + 1;
    }
    true
}

/// Whether `pat` occurs somewhere in `s` (substring search).
pub fn str_contains(s: &str, pat: &str) -> (r: bool)
    ensures
        r == spec_contains(s@, pat@),
{
    let n: usize = s.unicode_len();
    let m: usize = pat.unicode_len();
    if m > n {
        assert(forall|i: int| !match_at(s@, pat@, i));
        return false;
    }
    let mut i: usize = 0;
    while i <= n - m
        invariant
            n == s@.len(),
            m == pat@.len(),
            m <= n,
            0 <= i,
            i + m <= n + 1,
            forall|k: int| 0 <= k < i ==> !#[trigger] match_at(s@, pat@, k),
        decreases n + 1 - i,
    {
        if matches_at(s, pat, i) {
            return true;
        }
        i = i + 1;
    }
    assert(forall|k: int| #[trigger] match_at(s@, pat@, k) ==> 0 <= k < i);
    false
}

/// Whether `s` begins with `pat`.
pub fn str_starts_with(s: &str, pat: &str) -> (r: bool)
    ensures
        r == (pat@.len() <= s@.len() && s@.subrange(0, pat@.len() as int) == pat@),
{
    let n: usize = s.unicode_len();
    let m: usize = pat.unicode_len();
    if m > n {
        return false;
    }
    let r = matches_at(s, pat, 0);
    proof {
        if r {
            assert(s@.subrange(0, m as int) =~= pat@);
        } else {
            if s@.subrange(0, m as int) == pat@ {
                assert(forall|j: int| 0 <= j < m ==> s@[j] == s@.subrange(0, m as int)[j]);
                assert(match_at(s@, pat@, 0));
            }
        }
    }
    r
}

/// Whether `s` ends with `pat`.
pub fn str_ends_with(s: &str, pat: &str) -> (r: bool)
    ensures
        r == (pat@.len() <= s@.len() && s@.subrange(
            s@.len() - pat@.len(),
            s@.len() as int,
        ) == pat@),
{
    let n: usize = s.unicode_len();
    let m: usize = pat.unicode_len();
    if m > n {
        return false;
    }
    let r = matches_at(s, pat, n - m);
    proof {
        if r {
            assert(s@.subrange(n - m, n as int) =~= pat@);
        } else {
            if s@.subrange(n - m, n as int) == pat@ {
                assert(forall|j: int| 0 <= j < m ==> s@[n - m + j] == #[trigger] s@.subrange(
                    n - m,
                    n as int,
                )[j]);
                assert(match_at(s@, pat@, n - m));
            }
        }
    }
    r
}

/// Replacing a pattern that does not occur changes nothing.
pub proof fn lemma_replace_absent(s: Seq<char>, from: Seq<char>, to: Seq<char>)
    requires
        !spec_contains(s, from),
        from.len() >= 1,
    ensures
        spec_replace(s, from, to) == s,
    decreases s.len(),
{
    if s.len() < from.len() {
    } else {
        if match_at(s, from, 0) {
            assert(spec_contains(s, from));
        }
        assert forall|k: int| !#[trigger] match_at(s.skip(1), from, k) by {
            if match_at(s.skip(1), from, k) {
                assert(forall|j: int| 0 <= j < from.len() ==> #[trigger] s.skip(1)[k + j] == s[k + 1
                    + j]);
                assert(match_at(s, from, k + 1));
            }
        }
        lemma_replace_absent(s.skip(1), from, to);
        assert(seq![s[0]] + s.skip(1) =~= s);
    }
}

/// Whether two strings hold the same characters.
pub fn str_eq(a: &str, b: &str) -> (r: bool)
    ensures
        r == (a@ == b@),
{
    let n: usize = a.unicode_len();
    if n != b.unicode_len() {
        return false;
    }
    let r = matches_at(a, b, 0);
    proof {
        if r {
            assert(a@ =~= b@);
        } else {
            if a@ == b@ {
                assert(match_at(a@, b@, 0));
            }
        }
    }
    r
}

/// Appends one character to a string.
/// Relies on std's String::push, which appends the character at the end.
#[verifier::external_body]
pub fn string_push(s: &mut String, c: char)
    ensures
        final(s)@ == old(s)@.push(c),
{
    s.push(c);
}

/// `s`, with every non-overlapping occurrence of `from` replaced by `to`,
/// scanning left to right, exactly as `spec_replace` states.
pub fn replace_all(s: &str, from: &str, to: &str) -> (r: String)
    requires
        from@.len() >= 1,
    ensures
        r@ == spec_replace(s@, from@, to@),
{
    let n: usize = s.unicode_len();
    let m: usize = from.unicode_len();
    let mut out: String = String::new();
    let mut i: usize = 0;
    proof {
        assert(s@.skip(0) =~= s@);
        assert(out@ + spec_replace(s@, from@, to@) =~= spec_replace(s@, from@, to@));
    }
    while i < n
        invariant
            n == s@.len(),
            m == from@.len(),
            m >= 1,
            0 <= i <= n,
            spec_replace(s@, from@, to@) == out@ + spec_replace(s@.skip(i as int), from@, to@),
        decreases n - i,
    {
        if m <= n - i && matches_at(s, from, i) {
            proof {
                let rest = s@.skip(i as int);
                assert(forall|j: int| 0 <= j < m ==> rest[j] == s@[i + j]);
                assert(match_at(rest, from@, 0));
                assert(rest.skip(m as int) =~= s@.skip(i + m));
            }
            out.append(to);
            i = i + m;
        } else {
            proof {
                let rest = s@.skip(i as int);
                if m <= n - i {
                    if match_at(rest, from@, 0) {
                        assert(forall|j: int| 0 <= j < m ==> s@[i + j] == rest[j]);
                        assert(match_at(s@, from@, i as int));
                    }
                } else {
                    assert(rest.len() < m);
                }
                assert(rest.skip(1) =~= s@.skip(i + 1));
                assert(seq![rest[0]] + rest.skip(1) =~= rest);
            }
            let c = s.get_char(i);
            string_push(&mut out, c);
            proof {
                assert(out@ == (out@.subrange(0, out@.len() - 1)).push(s@[i as int]));
                assert(out@.subrange(0, out@.len() - 1).push(s@[i as int]) =~= out@.subrange(
                    0,
                    out@.len() - 1,
                ) + seq![s@[i as int]]);
            }
            i = i + 1;
        }
    }
    proof {
        assert(s@.skip(n as int) =~= Seq::<char>::empty());
        assert(out@ + Seq::<char>::empty() =~= out@);
    }
    out
}

pub const DIGITS: [char; 10] = ['0', '1', '2', '3', '4', '5', '6', '7', '8', '9'];

/// The decimal rendering of `n`, most significant digit first, no leading
/// zeros (a single `'0'` for zero).
pub open spec fn spec_dec(n: nat) -> Seq<char>
    decreases n,
{
    if n < 10 {
        seq![DIGITS@[n as int]]
    } else {
        spec_dec(n / 10).push(DIGITS@[(n % 10) as int])
    }
}

/// Renders `n` in decimal.
pub fn u32_to_string(n: u32) -> (r: String)
    ensures
        r@ == spec_dec(n as nat),
    decreases n,
{
    if n < 10 {
        let mut s = String::new();
        string_push(&mut s, DIGITS[n as usize]);
        s
    } else {
        let mut s = u32_to_string(n / 10);
        string_push(&mut s, DIGITS[(n % 10) as usize]);
        s
    }
}

/// The views of a list of strings.
pub open spec fn views(ss: Seq<String>) -> Seq<Seq<char>> {
    ss.map_values(|s: String| s@)
}

/// The strings of `parts` joined with `sep` between neighbours.
pub open spec fn spec_join(parts: Seq<Seq<char>>, sep: Seq<char>) -> Seq<char>
    decreases parts.len(),
{
    if parts.len() == 0 {
        Seq::empty()
    } else if parts.len() == 1 {
        parts[0]
    } else {
        spec_join(parts.drop_last(), sep) + sep + parts.last()
    }
}

/// Joins `parts` with `sep`, exactly as `spec_join` states.
pub fn join_strings(parts: &Vec<String>, sep: &str) -> (r: String)
    ensures
        r@ == spec_join(views(parts@), sep@),
{
    let n = parts.len();
    let mut out = String::new();
    let mut i: usize = 0;
    while i < n
        invariant
            n == parts@.len(),
            0 <= i <= n,
            out@ == spec_join(views(parts@).take(i as int), sep@),
        decreases n - i,
    {
        if i > 0 {
            out.append(sep);
        }
        out.append(parts[i].as_str());
        proof {
            let vs = views(parts@);
            assert(vs.take(i + 1).drop_last() =~= vs.take(i as int));
            assert(vs.take(i + 1).last() == vs[i as int]);
            if i == 0 {
                assert(out@ =~= spec_join(vs.take(1), sep@));
            }
        }
        i = i + 1;
    }
    proof {
        assert(views(parts@).take(n as int) =~= views(parts@));
    }
    out
}

/// An ASCII whitespace character, as the legacy argument string is split on.
pub open spec fn spec_is_space(c: char) -> bool {
    c == ' ' || c == '\t' || c == '\n' || c == '\r' || c == '\x0C'
}

/// Index of the first whitespace character of `s`, or `s.len()` when none.
pub open spec fn first_space(s: Seq<char>) -> int
    decreases s.len(),
{
    if s.len() == 0 {
        0
    } else if spec_is_space(s[0]) {
        0
    } else {
        1 + first_space(s.skip(1))
    }
}

/// What `first_space` returns: the least position holding whitespace, or the
/// length when there is none.
pub proof fn lemma_first_space(s: Seq<char>)
    ensures
        0 <= first_space(s) <= s.len(),
        forall|k: int| 0 <= k < first_space(s) ==> !spec_is_space(s[k]),
        first_space(s) < s.len() ==> spec_is_space(s[first_space(s)]),
    decreases s.len(),
{
    if s.len() == 0 {
    } else if spec_is_space(s[0]) {
    } else {
        lemma_first_space(s.skip(1));
        assert(forall|k: int| 1 <= k < first_space(s) ==> s[k] == s.skip(1)[k - 1]);
        if first_space(s) < s.len() {
            assert(s[first_space(s)] == s.skip(1)[first_space(s.skip(1))]);
        }
    }
}

/// The maximal non-empty runs of non-whitespace characters of `s`, in order.
pub open spec fn spec_split_ws(s: Seq<char>) -> Seq<Seq<char>>
    decreases s.len(),
    via spec_split_ws_decreases
{
    if s.len() == 0 {
        Seq::empty()
    } else if spec_is_space(s[0]) {
        spec_split_ws(s.skip(1))
    } else {
        seq![s.take(first_space(s))] + spec_split_ws(s.skip(first_space(s)))
    }
}

#[via_fn]
proof fn spec_split_ws_decreases(s: Seq<char>) {
    lemma_first_space(s);
}

/// Position right after the whitespace-free token starting at `i`.
fn token_end(s: &str, n: usize, i: usize) -> (j: usize)
    requires
        n == s@.len(),
        i < n,
        !spec_is_space(s@[i as int]),
    ensures
        i < j <= n,
        forall|k: int| i <= k < j ==> !spec_is_space(s@[k]),
        j < n ==> spec_is_space(s@[j as int]),
{
    let mut j: usize = i + 1;
    while j < n
        invariant
            n == s@.len(),
            i < j <= n,
            forall|k: int| i <= k < j ==> !spec_is_space(s@[k]),
        decreases n - j,
    {
        let cj = s.get_char(j);
        if cj == ' ' || cj == '\t' || cj == '\n' || cj == '\r' || cj == '\x0C' {
            return j;
        }
        j = j + 1;
    }
    n
}

/// Splits `s` on ASCII whitespace into its non-empty tokens, exactly as
/// `spec_split_ws` states.
pub fn split_whitespace(s: &str) -> (r: Vec<String>)
    ensures
        views(r@) == spec_split_ws(s@),
{
    let n: usize = s.unicode_len();
    let mut out: Vec<String> = Vec::new();
    let mut i: usize = 0;
    proof {
        assert(s@.skip(0) =~= s@);
        assert(views(out@) + spec_split_ws(s@) =~= spec_split_ws(s@));
    }
    while i < n
        invariant
            n == s@.len(),
            0 <= i <= n,
            spec_split_ws(s@) == views(out@) + spec_split_ws(s@.skip(i as int)),
        decreases n - i,
    {
        let c = s.get_char(i);
        let space = c == ' ' || c == '\t' || c == '\n' || c == '\r' || c == '\x0C';
        if space {
            proof {
                assert(s@.skip(i as int).skip(1) =~= s@.skip(i + 1));
            }
            i = i + 1;
        } else {
            let ghost rest = s@.skip(i as int);
            let j = token_end(s, n, i);
            proof {
                lemma_first_space(rest);
                assert(forall|k: int| 0 <= k < rest.len() ==> rest[k] == s@[i + k]);
                assert(forall|k: int| 0 <= k < j - i ==> !spec_is_space(rest[k]));
                if j < n {
                    assert(spec_is_space(rest[j - i]));
                }
                assert(first_space(rest) == j - i);
                assert(rest.take(j - i) =~= s@.subrange(i as int, j as int));
                assert(rest.skip(j - i) =~= s@.skip(j as int));
            }
            let token = String::from_str(s.substring_char(i, j));
            out.push(token);
            proof {
                assert(views(out@) =~= views(out@.drop_last()) + seq![rest.take(j - i)]);
                assert(views(out@.drop_last()) + (seq![rest.take(j - i)] + spec_split_ws(
                    s@.skip(j as int),
                )) =~= (views(out@.drop_last()) + seq![rest.take(j - i)]) + spec_split_ws(
                    s@.skip(j as int),
                ));
            }
            i = j;
        }
    }
    proof {
        assert(s@.skip(n as int) =~= Seq::<char>::empty());
        assert(views(out@) + Seq::<Seq<char>>::empty() =~= views(out@));
    }
    out
}

/// The ASCII code point of `c`, with upper-case letters folded to lower case.
pub open spec fn lower_code(c: char) -> int {
    if 'A' <= c && c <= 'Z' {
        c as u32 + 32
    } else {
        c as u32 as int
    }
}

/// Character sequences equal up to ASCII case.
pub open spec fn eq_ignore_case(a: Seq<char>, b: Seq<char>) -> bool {
    a.len() == b.len() && (forall|i: int| 0 <= i < a.len() ==> lower_code(a[i]) == lower_code(b[i]))
}

/// Whether two strings are equal ignoring ASCII case.
pub fn str_eq_ignore_ascii_case(a: &str, b: &str) -> (r: bool)
    ensures
        r == eq_ignore_case(a@, b@),
{
    let n: usize = a.unicode_len();
    if n != b.unicode_len() {
        return false;
    }
    let mut i: usize = 0;
    while i < n
        invariant
            n == a@.len(),
            n == b@.len(),
            0 <= i <= n,
            forall|k: int| 0 <= k < i ==> lower_code(a@[k]) == lower_code(b@[k]),
        decreases n - i,
    {
        let ca = a.get_char(i);
        let cb = b.get_char(i);
        let la: u32 = if 'A' <= ca && ca <= 'Z' {
            ca as u32 + 32
        } else {
            ca as u32
        };
        let lb: u32 = if 'A' <= cb && cb <= 'Z' {
            cb as u32 + 32
        } else {
            cb as u32
        };
        if la != lb {
            return false;
        }
        i = i + 1;
    }
    true
}

} // verus!
