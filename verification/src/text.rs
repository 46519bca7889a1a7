//! Character and string helpers shared by the whole crate: ASCII case
//! folding, substring search, lexicographic ordering and decimal rendering.

use vstd::prelude::*;

verus! {


/// ASCII uppercase letters fold to their lowercase twin; every other
/// character is unchanged.
pub open spec fn lower_char(c: char) -> char {
    match c {
        'A' => 'a',
        'B' => 'b',
        'C' => 'c',
        'D' => 'd',
        'E' => 'e',
        'F' => 'f',
        'G' => 'g',
        'H' => 'h',
        'I' => 'i',
        'J' => 'j',
        'K' => 'k',
        'L' => 'l',
        'M' => 'm',
        'N' => 'n',
        'O' => 'o',
        'P' => 'p',
        'Q' => 'q',
        'R' => 'r',
        'S' => 's',
        'T' => 't',
        'U' => 'u',
        'V' => 'v',
        'W' => 'w',
        'X' => 'x',
        'Y' => 'y',
        'Z' => 'z',
        _ => c,
    }
}

/// The string with every character case-folded by `lower_char`.
pub open spec fn lower_seq(s: Seq<char>) -> Seq<char> {
    s.map_values(|c: char| lower_char(c))
}

/// Case-folds one character.
pub fn fold_char(c: char) -> (r: char)
    ensures
        r == lower_char(c),
{
    match c {
        'A' => 'a',
        'B' => 'b',
        'C' => 'c',
        'D' => 'd',
        'E' => 'e',
        'F' => 'f',
        'G' => 'g',
        'H' => 'h',
        'I' => 'i',
        'J' => 'j',
        'K' => 'k',
        'L' => 'l',
        'M' => 'm',
        'N' => 'n',
        'O' => 'o',
        'P' => 'p',
        'Q' => 'q',
        'R' => 'r',
        'S' => 's',
        'T' => 't',
        'U' => 'u',
        'V' => 'v',
        'W' => 'w',
        'X' => 'x',
        'Y' => 'y',
        'Z' => 'z',
        _ => c,
    }
}

/// True exactly when the two strings hold the same characters.
pub fn str_eq(a: &str, b: &str) -> (r: bool)
    ensures
        r == (a@ == b@),
{
    let n = a.unicode_len();
    let m = b.unicode_len();
    if n != m {
        return false;
    }
    let mut i: usize = 0;
    while i < n
        invariant
            n == a@.len(),
            n == b@.len(),
            0 <= i <= n,
            forall|k: int| 0 <= k < i ==> a@[k] == b@[k],
        decreases n - i,
    {
        if a.get_char(i) != b.get_char(i) {
            return false;
        }
        i = i + 1;
    }
    proof {
        assert(a@ =~= b@);
    }
    true
}

/// The pattern occurs in `hay` at position `i`.
pub open spec fn contains_at(hay: Seq<char>, pat: Seq<char>, i: int) -> bool {
    0 <= i && i + pat.len() <= hay.len() && hay.subrange(i, i + pat.len()) == pat
}

/// The pattern occurs somewhere in `hay`.
pub open spec fn contains_seq(hay: Seq<char>, pat: Seq<char>) -> bool {
    exists|i: int| contains_at(hay, pat, i)
}

/// The pattern (given in lowercase) occurs in `hay`, comparing
/// case-insensitively by ASCII folding.
pub open spec fn contains_ci(hay: Seq<char>, pat: Seq<char>) -> bool {
    contains_seq(lower_seq(hay), pat)
}

fn match_ci_at(hay: &str, pat: &str, i: usize) -> (r: bool)
    requires
        i + pat@.len() <= hay@.len(),
        hay@.len() <= usize::MAX,
    ensures
        r == contains_at(lower_seq(hay@), pat@, i as int),
{
    let m = pat.unicode_len();
    let mut j: usize = 0;
    while j < m
        invariant
            m == pat@.len(),
            i + m <= hay@.len() <= usize::MAX,
            0 <= j <= m,
            forall|k: int| 0 <= k < j ==> lower_char(hay@[i + k]) == pat@[k],
        decreases m - j,
    {
        if fold_char(hay.get_char(i + j)) != pat.get_char(j) {
            proof {
                assert(lower_seq(hay@).subrange(i as int, i + m)[j as int] == lower_char(
                    hay@[i + j],
                ));
            }
            return false;
        }
        j = j + 1;
    }
    proof {
        assert(lower_seq(hay@).subrange(i as int, i + m) =~= pat@);
    }
    true
}

/// Case-insensitive substring search; the pattern is given in lowercase.
pub fn str_contains_ci(hay: &str, pat: &str) -> (r: bool)
    ensures
        r == contains_ci(hay@, pat@),
{
    let n = hay.unicode_len();
    let m = pat.unicode_len();
    if m > n {
        proof {
            assert(lower_seq(hay@).len() == hay@.len());
            assert forall|i: int| !contains_at(lower_seq(hay@), pat@, i) by {}
        }
        return false;
    }
    if m == 0 {
        proof {
            assert(contains_at(lower_seq(hay@), pat@, 0)) by {
                assert(lower_seq(hay@).subrange(0, 0) =~= pat@);
            }
        }
        return true;
    }
    let mut i: usize = 0;
    while i <= n - m
        invariant
            n == hay@.len(),
            m == pat@.len(),
            1 <= m <= n,
            0 <= i <= n - m + 1,
            forall|k: int| 0 <= k < i ==> !contains_at(lower_seq(hay@), pat@, k),
        decreases n - m - i + 1,
    {
        if match_ci_at(hay, pat, i) {
            return true;
        }
        i = i + 1;
    }
    proof {
        assert forall|k: int| !contains_at(lower_seq(hay@), pat@, k) by {
            if 0 <= k && k + pat@.len() <= hay@.len() {
                assert(!contains_at(lower_seq(hay@), pat@, k));
            }
        }
    }
    false
}

/// Case-insensitive equality against a lowercase pattern.
pub fn str_eq_ci(a: &str, lower: &str) -> (r: bool)
    ensures
        r == (lower_seq(a@) == lower@),
{
    let n = a.unicode_len();
    let m = lower.unicode_len();
    if n != m {
        return false;
    }
    let mut i: usize = 0;
    while i < n
        invariant
            n == a@.len(),
            n == lower@.len(),
            0 <= i <= n,
            forall|k: int| 0 <= k < i ==> lower_char(a@[k]) == lower@[k],
        decreases n - i,
    {
        if fold_char(a.get_char(i)) != lower.get_char(i) {
            proof {
                assert(lower_seq(a@)[i as int] == lower_char(a@[i as int]));
            }
            return false;
        }
        i = i + 1;
    }
    proof {
        assert(lower_seq(a@) =~= lower@);
    }
    true
}

/// `s` begins with `prefix`.
pub open spec fn starts_with_seq(s: Seq<char>, prefix: Seq<char>) -> bool {
    s.len() >= prefix.len() && s.subrange(0, prefix.len() as int) == prefix
}

/// `s` ends with `suffix`.
pub open spec fn ends_with_seq(s: Seq<char>, suffix: Seq<char>) -> bool {
    s.len() >= suffix.len() && s.subrange(s.len() - suffix.len(), s.len() as int) == suffix
}

/// Executable prefix test.
pub fn str_starts_with(s: &str, prefix: &str) -> (r: bool)
    ensures
        r == starts_with_seq(s@, prefix@),
{
    let n = s.unicode_len();
    let m = prefix.unicode_len();
    if m > n {
        return false;
    }
    let mut i: usize = 0;
    while i < m
        invariant
            n == s@.len(),
            m == prefix@.len(),
            m <= n,
            0 <= i <= m,
            forall|k: int| 0 <= k < i ==> s@[k] == prefix@[k],
        decreases m - i,
    {
        if s.get_char(i) != prefix.get_char(i) {
            proof {
                assert(s@.subrange(0, m as int)[i as int] == s@[i as int]);
            }
            return false;
        }
        i = i + 1;
    }
    proof {
        assert(s@.subrange(0, m as int) =~= prefix@);
    }
    true
}

/// Executable suffix test.
pub fn str_ends_with(s: &str, suffix: &str) -> (r: bool)
    ensures
        r == ends_with_seq(s@, suffix@),
{
    let n = s.unicode_len();
    let m = suffix.unicode_len();
    if m > n {
        return false;
    }
    let off = n - m;
    let mut i: usize = 0;
    while i < m
        invariant
            n == s@.len(),
            m == suffix@.len(),
            m <= n,
            off == n - m,
            0 <= i <= m,
            forall|k: int| 0 <= k < i ==> s@[off + k] == suffix@[k],
        decreases m - i,
    {
        if s.get_char(off + i) != suffix.get_char(i) {
            proof {
                assert(s@.subrange(n - m, n as int)[i as int] == s@[off + i]);
            }
            return false;
        }
        i = i + 1;
    }
    proof {
        assert(s@.subrange(n - m, n as int) =~= suffix@);
    }
    true
}

/// `path` lies at or below the directory `dir`: it equals `dir` or continues
/// it with a path separator.
pub open spec fn path_under(path: Seq<char>, dir: Seq<char>) -> bool {
    path == dir || starts_with_seq(path, dir.push('/'))
}

/// Executable test of `path_under`.
pub fn str_path_under(path: &str, dir: &str) -> (r: bool)
    ensures
        r == path_under(path@, dir@),
{
    if str_eq(path, dir) {
        return true;
    }
    let n = path.unicode_len();
    let m = dir.unicode_len();
    if n <= m {
        proof {
            assert(!starts_with_seq(path@, dir@.push('/'))) by {
                assert(dir@.push('/').len() == m + 1);
            }
        }
        return false;
    }
    if !str_eq(path.substring_char(0, m), dir) {
        proof {
            assert(!starts_with_seq(path@, dir@.push('/'))) by {
                if starts_with_seq(path@, dir@.push('/')) {
                    assert forall|k: int| 0 <= k < m implies path@[k] == dir@[k] by {
                        assert(path@.subrange(0, m + 1)[k] == dir@.push('/')[k]);
                    }
                    assert(path@.subrange(0, m as int) =~= dir@);
                }
            }
        }
        return false;
    }
    let sep = path.get_char(m);
    proof {
        assert forall|k: int| 0 <= k < m implies path@[k] == dir@[k] by {
            assert(path@.subrange(0, m as int)[k] == dir@[k]);
        }
        if sep == '/' {
            assert(path@.subrange(0, m + 1) =~= dir@.push('/'));
        } else {
            if starts_with_seq(path@, dir@.push('/')) {
                assert(path@.subrange(0, m + 1)[m as int] == dir@.push('/')[m as int]);
            }
        }
    }
    sep == '/'
}

/// The final component of a path: everything after the last `/`, the whole
/// path when it has no separator, and empty for a path that ends in `/`.
pub open spec fn base_name_of(p: Seq<char>) -> Seq<char>
    decreases p.len(),
{
    if p.len() == 0 {
        p
    } else if p[p.len() - 1] == '/' {
        Seq::<char>::empty()
    } else {
        base_name_of(p.drop_last()).push(p[p.len() - 1])
    }
}

proof fn lemma_base_name_suffix(p: Seq<char>, cut: int)
    requires
        0 <= cut <= p.len(),
        forall|k: int| cut <= k < p.len() ==> p[k] != '/',
        cut > 0 ==> p[cut - 1] == '/',
    ensures
        base_name_of(p) == p.subrange(cut, p.len() as int),
    decreases p.len(),
{
    if p.len() == 0 {
        assert(p.subrange(0, 0) =~= p);
    } else if cut == p.len() {
        assert(p.subrange(cut, p.len() as int) =~= Seq::<char>::empty());
    } else {
        lemma_base_name_suffix(p.drop_last(), cut);
        assert(p.subrange(cut, p.len() as int) =~= p.drop_last().subrange(
            cut,
            p.drop_last().len() as int,
        ).push(p[p.len() - 1]));
    }
}

fn name_cut(path: &str) -> (cut: usize)
    ensures
        0 <= cut <= path@.len(),
        forall|k: int| cut <= k < path@.len() ==> path@[k] != '/',
        cut > 0 ==> path@[cut - 1] == '/',
{
    let n = path.unicode_len();
    let mut cut: usize = n;
    while cut > 0
        invariant
            n == path@.len(),
            0 <= cut <= n,
            forall|k: int| cut <= k < n ==> path@[k] != '/',
        decreases cut,
    {
        if path.get_char(cut - 1) == '/' {
            return cut;
        }
        cut = cut - 1;
    }
    0
}

/// Executable form of `base_name_of`.
pub fn base_name(path: &str) -> (r: String)
    ensures
        r@ == base_name_of(path@),
{
    let n = path.unicode_len();
    let cut = name_cut(path);
    let tail = path.substring_char(cut, n);
    proof {
        lemma_base_name_suffix(path@, cut as int);
    }
    tail.to_owned()
}

/// Index of the last `.` of the name, `-1` when it has none.
pub open spec fn last_dot(name: Seq<char>) -> int
    decreases name.len(),
{
    if name.len() == 0 {
        -1
    } else if name[name.len() - 1] == '.' {
        name.len() - 1
    } else {
        last_dot(name.drop_last())
    }
}

/// The extension of a file name: what follows the last `.`. A dot in first
/// position marks a hidden file, not an extension, and a name without a dot
/// has none.
pub open spec fn ext_of_name(name: Seq<char>) -> Option<Seq<char>> {
    if last_dot(name) >= 1 {
        Some(name.subrange(last_dot(name) + 1, name.len() as int))
    } else {
        None
    }
}

/// The extension of the final component of a path.
pub open spec fn ext_of_path(p: Seq<char>) -> Option<Seq<char>> {
    ext_of_name(base_name_of(p))
}

proof fn lemma_last_dot_props(name: Seq<char>)
    ensures
        -1 <= last_dot(name) < name.len(),
        last_dot(name) >= 0 ==> name[last_dot(name)] == '.',
        forall|k: int| last_dot(name) < k < name.len() ==> name[k] != '.',
    decreases name.len(),
{
    if name.len() == 0 {
    } else if name[name.len() - 1] == '.' {
    } else {
        lemma_last_dot_props(name.drop_last());
        assert forall|k: int| last_dot(name) < k < name.len() implies name[k] != '.' by {
            if k < name.len() - 1 {
                assert(name.drop_last()[k] == name[k]);
            }
        }
    }
}

proof fn lemma_last_dot_at(name: Seq<char>, j: int)
    requires
        -1 <= j < name.len(),
        j >= 0 ==> name[j] == '.',
        forall|k: int| j < k < name.len() ==> name[k] != '.',
    ensures
        last_dot(name) == j,
    decreases name.len(),
{
    if name.len() == 0 {
    } else if name[name.len() - 1] == '.' {
        assert(j == name.len() - 1);
    } else {
        lemma_last_dot_at(name.drop_last(), j);
    }
}

fn dot_cut(path: &str, cut: usize) -> (dot: usize)
    requires
        cut <= path@.len(),
    ensures
        cut <= dot <= path@.len(),
        forall|k: int| dot <= k < path@.len() ==> path@[k] != '.',
        dot > cut ==> path@[dot - 1] == '.',
{
    let n = path.unicode_len();
    let mut dot: usize = n;
    while dot > cut
        invariant
            n == path@.len(),
            cut <= dot <= n,
            forall|k: int| dot <= k < n ==> path@[k] != '.',
        decreases dot,
    {
        if path.get_char(dot - 1) == '.' {
            return dot;
        }
        dot = dot - 1;
    }
    cut
}

/// Executable form of `ext_of_path`.
pub fn path_extension(path: &str) -> (r: Option<String>)
    ensures
        r.deep_view() == ext_of_path(path@),
{
    let n = path.unicode_len();
    let cut = name_cut(path);
    let dot = dot_cut(path, cut);
    proof {
        lemma_base_name_suffix(path@, cut as int);
    }
    let ghost name = path@.subrange(cut as int, n as int);
    if dot - cut >= 2 {
        // the dot stands at `dot - 1`, past the name's first character
        proof {
            assert forall|k: int| (dot - 1 - cut) < k < name.len() implies name[k] != '.' by {
                assert(name[k] == path@[cut + k]);
            }
            lemma_last_dot_at(name, dot - 1 - cut);
            assert(name.subrange(dot - cut, name.len() as int) =~= path@.subrange(
                dot as int,
                n as int,
            ));
        }
        Some(path.substring_char(dot, n).to_owned())
    } else {
        proof {
            if dot == cut {
                assert forall|k: int| 0 <= k < name.len() implies name[k] != '.' by {
                    assert(name[k] == path@[cut + k]);
                }
                lemma_last_dot_props(name);
                if last_dot(name) >= 1 {
                    assert(name[last_dot(name)] == '.');
                }
            } else {
                // dot == cut + 1: the name starts with its only dot
                assert(name[0] == path@[cut as int]);
                assert forall|k: int| 0 < k < name.len() implies name[k] != '.' by {
                    assert(name[k] == path@[cut + k]);
                }
                lemma_last_dot_at(name, 0);
            }
        }
        None
    }
}

/// Bridges the length of a string vector's deep view to its view.
pub broadcast proof fn lemma_vec_string_dv_len(v: Vec<String>)
    ensures
        #![trigger v.deep_view()]
        v.deep_view().len() == v@.len(),
{
}

/// Bridges one element of a string vector's deep view to its view.
pub broadcast proof fn lemma_vec_string_dv_index(v: Vec<String>, i: int)
    requires
        0 <= i < v@.len(),
    ensures
        #![trigger v.deep_view()[i]]
        v.deep_view()[i] == v@[i]@,
{
}

/// The two bridges together.
pub broadcast group group_vec_string_view {
    lemma_vec_string_dv_len,
    lemma_vec_string_dv_index,
}

pub(crate) fn push_all(dst: &mut Vec<String>, src: &Vec<String>)
    ensures
        final(dst).deep_view() == old(dst).deep_view() + src.deep_view(),
{
    let mut i: usize = 0;
    proof {
        assert(dst.deep_view() =~= old(dst).deep_view() + src.deep_view().subrange(0, 0));
    }
    while i < src.len()
        invariant
            0 <= i <= src@.len(),
            dst.deep_view() == old(dst).deep_view() + src.deep_view().subrange(0, i as int),
        decreases src@.len() - i,
    {
        let ghost pre = dst.deep_view();
        dst.push(src[i].clone());
        proof {
            assert(dst.deep_view() =~= pre.push(src@[i as int]@));
            assert(pre.push(src@[i as int]@) =~= old(dst).deep_view() + src.deep_view().subrange(
                0,
                i + 1,
            ));
        }
        i = i + 1;
    }
    proof {
        assert(src.deep_view().subrange(0, src@.len() as int) =~= src.deep_view());
    }
}

pub(crate) fn push_owned(dst: &mut Vec<String>, s: String)
    ensures
        final(dst).deep_view() == old(dst).deep_view().push(s@),
{
    let ghost sv = s@;
    dst.push(s);
    proof {
        assert(dst.deep_view() =~= old(dst).deep_view().push(sv));
    }
}

pub(crate) fn push_str(dst: &mut Vec<String>, s: &str)
    ensures
        final(dst).deep_view() == old(dst).deep_view().push(s@),
{
    let ghost pre = dst.deep_view();
    dst.push(s.to_owned());
    proof {
        assert(dst.deep_view() =~= pre.push(s@));
    }
}

/// Lexicographic order on character sequences by code point; this is the
/// order in which discovered test names are reported.
pub open spec fn lex_leq(a: Seq<char>, b: Seq<char>) -> bool
    decreases a.len(),
{
    if a.len() == 0 {
        true
    } else if b.len() == 0 {
        false
    } else if a[0] == b[0] {
        lex_leq(a.drop_first(), b.drop_first())
    } else {
        (a[0] as int) < (b[0] as int)
    }
}

/// Any two names are ordered one way or the other.
pub proof fn lemma_lex_total(a: Seq<char>, b: Seq<char>)
    ensures
        lex_leq(a, b) || lex_leq(b, a),
    decreases a.len(),
{
    if a.len() == 0 {
    } else if b.len() == 0 {
    } else if a[0] == b[0] {
        lemma_lex_total(a.drop_first(), b.drop_first());
    }
}

/// The order is transitive.
pub proof fn lemma_lex_trans(a: Seq<char>, b: Seq<char>, c: Seq<char>)
    requires
        lex_leq(a, b),
        lex_leq(b, c),
    ensures
        lex_leq(a, c),
    decreases a.len(),
{
    if a.len() == 0 {
    } else {
        if a[0] == b[0] && b[0] == c[0] {
            lemma_lex_trans(a.drop_first(), b.drop_first(), c.drop_first());
        }
    }
}

/// Executable comparison realizing `lex_leq`.
pub fn str_lex_leq(a: &str, b: &str) -> (r: bool)
    ensures
        r == lex_leq(a@, b@),
{
    let n = a.unicode_len();
    let m = b.unicode_len();
    let mut i: usize = 0;
    proof {
        assert(a@.skip(0) =~= a@);
        assert(b@.skip(0) =~= b@);
    }
    while i < n && i < m
        invariant
            n == a@.len(),
            m == b@.len(),
            0 <= i <= n,
            i <= m,
            lex_leq(a@, b@) == lex_leq(a@.skip(i as int), b@.skip(i as int)),
        decreases n - i,
    {
        let ca = a.get_char(i);
        let cb = b.get_char(i);
        if ca != cb {
            proof {
                assert(a@.skip(i as int)[0] == ca);
                assert(b@.skip(i as int)[0] == cb);
                assert(ca as u32 == ca as int);
                assert(cb as u32 == cb as int);
            }
            return (ca as u32) < (cb as u32);
        }
        proof {
            assert(a@.skip(i as int)[0] == ca);
            assert(b@.skip(i as int)[0] == cb);
            assert(a@.skip(i as int).drop_first() =~= a@.skip(i + 1));
            assert(b@.skip(i as int).drop_first() =~= b@.skip(i + 1));
        }
        i = i + 1;
    }
    proof {
        assert(a@.skip(i as int).len() == n - i);
        assert(b@.skip(i as int).len() == m - i);
    }
    i >= n
}

/// The names are in ascending lexicographic order.
pub open spec fn sorted_lex(s: Seq<Seq<char>>) -> bool {
    forall|i: int, j: int| 0 <= i < j < s.len() ==> lex_leq(s[i], s[j])
}

proof fn lemma_insert_to_multiset(s: Seq<Seq<char>>, j: int, x: Seq<char>)
    requires
        0 <= j <= s.len(),
    ensures
        s.insert(j, x).to_multiset() == s.to_multiset().insert(x),
{
    broadcast use vstd::seq_lib::group_to_multiset_ensures;
    broadcast use vstd::multiset::group_multiset_axioms;

    let t = s.insert(j, x);
    s.insert_ensures(j, x);
    assert(t.remove(j) =~= s);
    assert(t.remove(j).to_multiset() =~= t.to_multiset().remove(t[j]));
    assert(t[j] == x);
    assert(t.to_multiset().count(x) > 0) by {
        assert(t.contains(x));
    }
    assert(t.to_multiset() =~= s.to_multiset().insert(x)) by {
        assert(forall|v: Seq<char>|
            s.to_multiset().count(v) == t.to_multiset().remove(x).count(v));
    }
}

fn insert_pos(r: &Vec<String>, x: &str) -> (j: usize)
    requires
        sorted_lex(r.deep_view()),
    ensures
        j <= r@.len(),
        forall|k: int| 0 <= k < j ==> lex_leq(r.deep_view()[k], x@),
        forall|k: int| j <= k < r@.len() ==> lex_leq(x@, r.deep_view()[k]),
{
    let mut j: usize = 0;
    while j < r.len()
        invariant
            sorted_lex(r.deep_view()),
            0 <= j <= r@.len(),
            forall|k: int| 0 <= k < j ==> lex_leq(r.deep_view()[k], x@),
        decreases r@.len() - j,
    {
        if !str_lex_leq(r[j].as_str(), x) {
            proof {
                lemma_lex_total(r.deep_view()[j as int], x@);
                assert forall|k: int| j <= k < r@.len() implies lex_leq(x@, r.deep_view()[k]) by {
                    if k > j {
                        lemma_lex_trans(x@, r.deep_view()[j as int], r.deep_view()[k]);
                    }
                }
            }
            return j;
        }
        j = j + 1;
    }
    j
}

/// Sorts names into ascending lexicographic order; the result holds exactly
/// the input names.
pub fn sort_names(v: &Vec<String>) -> (r: Vec<String>)
    ensures
        sorted_lex(r.deep_view()),
        r.deep_view().to_multiset() == v.deep_view().to_multiset(),
{
    let mut r: Vec<String> = Vec::new();
    let mut idx: usize = 0;
    proof {
        broadcast use vstd::seq_lib::group_to_multiset_ensures;

        assert(v.deep_view().subrange(0, 0) =~= Seq::<Seq<char>>::empty());
        assert(r.deep_view() =~= Seq::<Seq<char>>::empty());
    }
    while idx < v.len()
        invariant
            0 <= idx <= v@.len(),
            sorted_lex(r.deep_view()),
            r.deep_view().to_multiset() == v.deep_view().subrange(0, idx as int).to_multiset(),
        decreases v@.len() - idx,
    {
        let x = v[idx].clone();
        let j = insert_pos(&r, x.as_str());
        let ghost old_dv = r.deep_view();
        r.insert(j, x);
        proof {
            broadcast use vstd::seq_lib::group_to_multiset_ensures;

            assert(x@ == v.deep_view()[idx as int]);
            assert(r.deep_view() =~= old_dv.insert(j as int, x@));
            old_dv.insert_ensures(j as int, x@);
            let dv = old_dv.insert(j as int, x@);
            assert forall|p: int, q: int| 0 <= p < q < dv.len() implies lex_leq(dv[p], dv[q]) by {
                if q < j {
                } else if p > j {
                    assert(dv[p] == old_dv[p - 1]);
                    assert(dv[q] == old_dv[q - 1]);
                } else if p < j && q == j {
                } else if p == j {
                    assert(dv[q] == old_dv[q - 1]);
                } else {
                    // p < j < q
                    assert(dv[p] == old_dv[p]);
                    assert(dv[q] == old_dv[q - 1]);
                    lemma_lex_trans(old_dv[p], x@, old_dv[q - 1]);
                }
            }
            lemma_insert_to_multiset(old_dv, j as int, x@);
            assert(v.deep_view().subrange(0, idx + 1) =~= v.deep_view().subrange(
                0,
                idx as int,
            ).push(x@));
        }
        idx = idx + 1;
    }
    proof {
        assert(v.deep_view().subrange(0, v@.len() as int) =~= v.deep_view());
    }
    r
}

/// The numeric value of a digit character; ten marks a non-digit.
pub open spec fn digit_val(c: char) -> int {
    match c {
        '0' => 0,
        '1' => 1,
        '2' => 2,
        '3' => 3,
        '4' => 4,
        '5' => 5,
        '6' => 6,
        '7' => 7,
        '8' => 8,
        '9' => 9,
        _ => 10,
    }
}

/// The text is one or more decimal digits.
pub open spec fn is_digits(s: Seq<char>) -> bool {
    s.len() > 0 && forall|i: int| 0 <= i < s.len() ==> digit_val(#[trigger] s[i]) < 10
}

/// The number the digits denote, most significant first.
pub open spec fn dec_value(s: Seq<char>) -> int
    decreases s.len(),
{
    if s.len() == 0 {
        0
    } else {
        dec_value(s.drop_last()) * 10 + digit_val(s.last())
    }
}

proof fn lemma_dec_value_nonneg(s: Seq<char>)
    ensures
        dec_value(s) >= 0,
    decreases s.len(),
{
    if s.len() > 0 {
        lemma_dec_value_nonneg(s.drop_last());
    }
}

proof fn lemma_dec_value_take_le(s: Seq<char>, i: int)
    requires
        0 <= i <= s.len(),
    ensures
        dec_value(s.take(i)) <= dec_value(s),
    decreases s.len(),
{
    if i == s.len() {
        assert(s.take(i) =~= s);
    } else {
        assert(s.take(i) =~= s.drop_last().take(i));
        lemma_dec_value_take_le(s.drop_last(), i);
        lemma_dec_value_nonneg(s.drop_last());
    }
}

fn digit_of(c: char) -> (d: u64)
    ensures
        d == digit_val(c),
{
    match c {
        '0' => 0,
        '1' => 1,
        '2' => 2,
        '3' => 3,
        '4' => 4,
        '5' => 5,
        '6' => 6,
        '7' => 7,
        '8' => 8,
        '9' => 9,
        _ => 10,
    }
}

/// Reads a decimal number. Nothing comes back for empty text, for any
/// non-digit character, or for a value too large for the machine word.
pub fn parse_u64(s: &str) -> (r: Option<u64>)
    ensures
        match r {
            Some(n) => is_digits(s@) && n == dec_value(s@),
            None => !is_digits(s@) || dec_value(s@) > u64::MAX,
        },
{
    let n = s.unicode_len();
    if n == 0 {
        return None;
    }
    let mut acc: u64 = 0;
    let mut i: usize = 0;
    proof {
        assert(s@.take(0) =~= Seq::<char>::empty());
    }
    while i < n
        invariant
            n == s@.len(),
            0 < n,
            0 <= i <= n,
            forall|k: int| 0 <= k < i ==> digit_val(#[trigger] s@[k]) < 10,
            acc == dec_value(s@.take(i as int)),
        decreases n - i,
    {
        let d = digit_of(s.get_char(i));
        if d >= 10 {
            return None;
        }
        proof {
            assert(s@.take(i + 1).drop_last() =~= s@.take(i as int));
            assert(s@.take(i + 1).last() == s@[i as int]);
        }
        if acc > u64::MAX / 10 {
            proof {
                assert(acc as int * 10 > u64::MAX) by {
                    assert(acc as int >= (u64::MAX as int) / 10 + 1);
                    assert((u64::MAX as int) / 10 * 10 + 10 > u64::MAX);
                }
                assert(dec_value(s@.take(i + 1)) > u64::MAX);
                lemma_dec_value_take_le(s@, i + 1);
            }
            return None;
        }
        let acc10 = acc * 10;
        if d > u64::MAX - acc10 {
            proof {
                assert(dec_value(s@.take(i + 1)) > u64::MAX);
                lemma_dec_value_take_le(s@, i + 1);
            }
            return None;
        }
        acc = acc10 + d;
        i = i + 1;
    }
    proof {
        assert(s@.take(n as int) =~= s@);
    }
    Some(acc)
}

/// The digit character of a value below ten.
pub open spec fn digit_char(d: int) -> char {
    if d == 0 {
        '0'
    } else if d == 1 {
        '1'
    } else if d == 2 {
        '2'
    } else if d == 3 {
        '3'
    } else if d == 4 {
        '4'
    } else if d == 5 {
        '5'
    } else if d == 6 {
        '6'
    } else if d == 7 {
        '7'
    } else if d == 8 {
        '8'
    } else {
        '9'
    }
}

/// Decimal text of a non-negative number, without leading zeros.
pub open spec fn dec_text(n: int) -> Seq<char>
    decreases n,
{
    if n < 10 {
        seq![digit_char(n)]
    } else {
        dec_text(n / 10).push(digit_char(n % 10))
    }
}

/// Decimal text of an integer, with a leading minus sign when negative.
pub open spec fn int_text(n: int) -> Seq<char> {
    if n < 0 {
        seq!['-'] + dec_text(-n)
    } else {
        dec_text(n)
    }
}

fn digit_str(d: u64) -> (r: &'static str)
    requires
        d < 10,
    ensures
        r@ == seq![digit_char(d as int)],
{
    proof {
        reveal_strlit("0");
        reveal_strlit("1");
        reveal_strlit("2");
        reveal_strlit("3");
        reveal_strlit("4");
        reveal_strlit("5");
        reveal_strlit("6");
        reveal_strlit("7");
        reveal_strlit("8");
        reveal_strlit("9");
    }
    let r = match d {
        0 => "0",
        1 => "1",
        2 => "2",
        3 => "3",
        4 => "4",
        5 => "5",
        6 => "6",
        7 => "7",
        8 => "8",
        _ => "9",
    };
    proof {
        assert(r@ =~= seq![digit_char(d as int)]);
    }
    r
}

/// Renders a number in decimal.
pub fn u64_text(n: u64) -> (r: String)
    ensures
        r@ == dec_text(n as int),
    decreases n,
{
    if n < 10 {
        digit_str(n).to_owned()
    } else {
        let mut s = u64_text(n / 10);
        s.append(digit_str(n % 10));
        proof {
            assert(dec_text(n as int) =~= dec_text((n / 10) as int) + seq![digit_char(
                (n % 10) as int,
            )]);
        }
        s
    }
}

/// Renders a signed number in decimal.
pub fn i64_text(n: i64) -> (r: String)
    ensures
        r@ == int_text(n as int),
{
    if n >= 0 {
        u64_text(n as u64)
    } else {
        let mag: u64 = (-(n as i128)) as u64;
        proof {
            assert(mag as int == -(n as int));
            reveal_strlit("-");
        }
        let mut s = "-".to_owned();
        let t = u64_text(mag);
        s.append(t.as_str());
        proof {
            assert(s@ =~= seq!['-'] + dec_text(-(n as int)));
        }
        s
    }
}

} // verus!
