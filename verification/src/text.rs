//! Verified text utilities.
//!
//! All probe logic works on `Vec<char>` / `&[char]` values whose mathematical
//! model is `Seq<char>`; the helpers here convert between `String` and char
//! slices and provide the trimming, searching and splitting primitives that
//! the probes' parse rules are built from.

use vstd::prelude::*;
use vstd::std_specs::iter::IteratorSpec;

verus! {

broadcast use vstd::string::group_string_axioms, vstd::slice::group_slice_axioms;

/// Characters treated as whitespace by the trimming and splitting helpers:
/// space, tab, carriage return and line feed.
pub open spec fn is_space_char(c: char) -> bool {
    c == ' ' || c == '\t' || c == '\r' || c == '\n'
}

/// Executable mirror of [`is_space_char`].
pub fn is_space(c: char) -> (r: bool)
    ensures
        r == is_space_char(c),
{
    c == ' ' || c == '\t' || c == '\r' || c == '\n'
}

/// Convert a string slice into the vector of its characters.
pub fn to_chars(s: &str) -> (r: Vec<char>)
    ensures
        r@ == s@,
{
    let mut r: Vec<char> = Vec::new();
    for c in it: s.chars()
        invariant
            it.seq() == s@,
            r@ == it.seq().take(it.index() as int),
    {
        r.push(c);
    }
    proof {
        assert(r@ =~= s@);
    }
    r
}

/// Relies on `String::from_iter` over `Iterator::copied`: collecting a char
/// slice yields the string of exactly those characters.
#[verifier::external_body]
pub fn chars_to_string(v: &[char]) -> (s: String)
    ensures
        s@ == v@,
{
    v.iter().copied().collect()
}

/// Equality of two char slices, decided element by element.
pub fn slice_eq(a: &[char], b: &[char]) -> (r: bool)
    ensures
        r == (a@ == b@),
{
    if a.len() != b.len() {
        return false;
    }
    let n: usize = a.len();
    let mut i: usize = 0;
    while i < n
        invariant
            0 <= i <= n,
            n == a@.len() == b@.len(),
            forall|k: int| 0 <= k < i ==> a@[k] == b@[k],
        decreases n - i,
    {
        if a[i] != b[i] {
            return false;
        }
        i = i + 1;
    }
    proof {
        assert(a@ =~= b@);
    }
    true
}

/// Equality of two string slices.
pub fn str_eq(a: &str, b: &str) -> (r: bool)
    ensures
        r == (a@ == b@),
{
    let av = to_chars(a);
    let bv = to_chars(b);
    slice_eq(av.as_slice(), bv.as_slice())
}

/// A sequence with its leading whitespace removed.
pub open spec fn spec_trim_start(s: Seq<char>) -> Seq<char>
    decreases s.len(),
{
    if s.len() > 0 && is_space_char(s[0]) {
        spec_trim_start(s.drop_first())
    } else {
        s
    }
}

/// A sequence with its trailing whitespace removed.
pub open spec fn spec_trim_end(s: Seq<char>) -> Seq<char>
    decreases s.len(),
{
    if s.len() > 0 && is_space_char(s.last()) {
        spec_trim_end(s.drop_last())
    } else {
        s
    }
}

/// A sequence with whitespace removed from both ends.
pub open spec fn spec_trim(s: Seq<char>) -> Seq<char> {
    spec_trim_end(spec_trim_start(s))
}

/// Trim whitespace from both ends of a char slice.
pub fn trim(v: &[char]) -> (r: &[char])
    ensures
        r@ == spec_trim(v@),
{
    let n: usize = v.len();
    let mut i: usize = 0;
    proof {
        assert(v@.skip(0) =~= v@);
    }
    while i < n && is_space(v[i])
        invariant
            0 <= i <= n,
            n == v@.len(),
            spec_trim_start(v@) == spec_trim_start(v@.skip(i as int)),
        decreases n - i,
    {
        proof {
            assert(v@.skip(i as int).drop_first() =~= v@.skip(i + 1));
        }
        i = i + 1;
    }
    proof {
        if i < n {
            assert(spec_trim_start(v@.skip(i as int)) == v@.skip(i as int));
        } else {
            assert(v@.skip(i as int) =~= Seq::<char>::empty());
        }
        assert(spec_trim_start(v@) == v@.skip(i as int));
        assert(v@.skip(i as int) =~= v@.subrange(i as int, n as int));
    }
    let mut j: usize = n;
    while j > i && is_space(v[j - 1])
        invariant
            i <= j <= n,
            n == v@.len(),
            spec_trim_start(v@) == v@.subrange(i as int, n as int),
            spec_trim_end(v@.subrange(i as int, n as int)) == spec_trim_end(
                v@.subrange(i as int, j as int),
            ),
        decreases j,
    {
        proof {
            assert(v@.subrange(i as int, j as int).last() == v@[j - 1]);
            assert(v@.subrange(i as int, j as int).drop_last() =~= v@.subrange(
                i as int,
                j - 1,
            ));
        }
        j = j - 1;
    }
    proof {
        if j > i {
            assert(v@.subrange(i as int, j as int).last() == v@[j - 1]);
            assert(spec_trim_end(v@.subrange(i as int, j as int)) == v@.subrange(
                i as int,
                j as int,
            ));
        } else {
            assert(v@.subrange(i as int, j as int) =~= Seq::<char>::empty());
        }
    }
    vstd::slice::slice_subrange(v, i, j)
}

/// The views of a sequence of char vectors.
pub open spec fn views_of(vs: Seq<Vec<char>>) -> Seq<Seq<char>> {
    vs.map_values(|v: Vec<char>| v@)
}

/// Append all characters of a slice to a vector.
pub fn push_chars(out: &mut Vec<char>, s: &[char])
    ensures
        final(out)@ == old(out)@ + s@,
{
    let n: usize = s.len();
    let mut i: usize = 0;
    while i < n
        invariant
            0 <= i <= n,
            n == s@.len(),
            out@ == old(out)@ + s@.take(i as int),
        decreases n - i,
    {
        proof {
            assert(s@.take(i + 1) =~= s@.take(i as int).push(s@[i as int]));
        }
        out.push(s[i]);
        i = i + 1;
    }
    proof {
        assert(s@.take(n as int) =~= s@);
    }
}

/// Index of the first occurrence of a character, if any.
pub open spec fn spec_find_char(s: Seq<char>, c: char) -> Option<int>
    decreases s.len(),
{
    if s.len() == 0 {
        None
    } else if s[0] == c {
        Some(0int)
    } else {
        match spec_find_char(s.drop_first(), c) {
            None => None,
            Some(i) => Some(i + 1),
        }
    }
}

/// What a [`spec_find_char`] result means, occurrence by occurrence.
pub proof fn lemma_find_char(s: Seq<char>, c: char)
    ensures
        match spec_find_char(s, c) {
            None => forall|k: int| 0 <= k < s.len() ==> s[k] != c,
            Some(i) => 0 <= i < s.len() && s[i] == c && (forall|k: int| 0 <= k < i ==> s[k] != c),
        },
    decreases s.len(),
{
    if s.len() > 0 && s[0] != c {
        lemma_find_char(s.drop_first(), c);
        assert(forall|k: int| 1 <= k < s.len() ==> s[k] == s.drop_first()[k - 1]);
    }
}

/// Find the first occurrence of a character in a char slice.
pub fn find_char(v: &[char], c: char) -> (r: Option<usize>)
    ensures
        match r {
            None => spec_find_char(v@, c) is None,
            Some(i) => spec_find_char(v@, c) == Some(i as int),
        },
{
    let n: usize = v.len();
    let mut i: usize = 0;
    while i < n
        invariant
            0 <= i <= n,
            n == v@.len(),
            forall|k: int| 0 <= k < i ==> v@[k] != c,
        decreases n - i,
    {
        if v[i] == c {
            proof {
                lemma_find_char(v@, c);
            }
            return Some(i);
        }
        i = i + 1;
    }
    proof {
        lemma_find_char(v@, c);
    }
    None
}

/// The pieces before and after the first occurrence of a separator.
pub open spec fn spec_split_once(s: Seq<char>, c: char) -> Option<(Seq<char>, Seq<char>)> {
    match spec_find_char(s, c) {
        None => None,
        Some(i) => Some((s.take(i), s.skip(i + 1))),
    }
}

/// Split a char slice at the first occurrence of a separator.
pub fn split_once<'a>(v: &'a [char], c: char) -> (r: Option<(&'a [char], &'a [char])>)
    ensures
        match r {
            None => spec_split_once(v@, c) is None,
            Some((a, b)) => spec_split_once(v@, c) == Some((a@, b@)),
        },
{
    match find_char(v, c) {
        None => None,
        Some(i) => {
            let n: usize = v.len();
            proof {
                lemma_find_char(v@, c);
                assert(v@.subrange(0, i as int) =~= v@.take(i as int));
                assert(v@.subrange(i + 1, n as int) =~= v@.skip(i + 1));
            }
            let a = vstd::slice::slice_subrange(v, 0, i);
            let b = vstd::slice::slice_subrange(v, i + 1, n);
            Some((a, b))
        },
    }
}

/// Does `s` begin with `p`?
pub open spec fn spec_starts_with(s: Seq<char>, p: Seq<char>) -> bool {
    s.len() >= p.len() && s.take(p.len() as int) == p
}

/// Does the text match `p` when read from position `at`?
pub fn match_at(v: &[char], p: &[char], at: usize) -> (r: bool)
    requires
        at <= v@.len(),
    ensures
        r == spec_starts_with(v@.skip(at as int), p@),
{
    let n: usize = v.len();
    let m: usize = p.len();
    if n - at < m {
        return false;
    }
    let mut k: usize = 0;
    while k < m
        invariant
            0 <= k <= m,
            at + m <= n,
            n == v@.len(),
            m == p@.len(),
            forall|t: int| 0 <= t < k ==> v@[at + t] == p@[t],
        decreases m - k,
    {
        if v[at + k] != p[k] {
            return false;
        }
        k = k + 1;
    }
    proof {
        assert(v@.skip(at as int).take(m as int) =~= p@);
    }
    true
}

/// Does `s` begin with `p`?  Executable form of [`spec_starts_with`].
pub fn starts_with(v: &[char], p: &[char]) -> (r: bool)
    ensures
        r == spec_starts_with(v@, p@),
{
    proof {
        assert(v@.skip(0) =~= v@);
    }
    match_at(v, p, 0)
}

/// Index of the first position where `p` occurs inside `s`, if any.
pub open spec fn spec_find_sub(s: Seq<char>, p: Seq<char>) -> Option<int>
    decreases s.len(),
{
    if spec_starts_with(s, p) {
        Some(0int)
    } else if s.len() == 0 {
        None
    } else {
        match spec_find_sub(s.drop_first(), p) {
            None => None,
            Some(i) => Some(i + 1),
        }
    }
}

/// Does `p` occur somewhere inside `s`?
pub open spec fn spec_contains(s: Seq<char>, p: Seq<char>) -> bool {
    spec_find_sub(s, p) is Some
}

/// What a [`spec_find_sub`] result means, occurrence by occurrence.
pub proof fn lemma_find_sub(s: Seq<char>, p: Seq<char>)
    ensures
        match spec_find_sub(s, p) {
            None => forall|k: int| 0 <= k <= s.len() ==> !spec_starts_with(#[trigger] s.skip(k), p),
            Some(i) => 0 <= i <= s.len() && spec_starts_with(s.skip(i), p) && (forall|k: int|
                0 <= k < i ==> !spec_starts_with(#[trigger] s.skip(k), p)),
        },
    decreases s.len(),
{
    assert(s.skip(0) =~= s);
    if !spec_starts_with(s, p) && s.len() > 0 {
        lemma_find_sub(s.drop_first(), p);
        assert(forall|k: int|
            1 <= k <= s.len() ==> #[trigger] s.skip(k) =~= s.drop_first().skip(k - 1));
    }
}

/// Find the first occurrence of `p` inside `v`.
pub fn find_sub(v: &[char], p: &[char]) -> (r: Option<usize>)
    ensures
        match r {
            None => spec_find_sub(v@, p@) is None,
            Some(i) => spec_find_sub(v@, p@) == Some(i as int),
        },
{
    let n: usize = v.len();
    let m: usize = p.len();
    if m > n {
        proof {
            assert(forall|k: int| 0 <= k <= n ==> (#[trigger] v@.skip(k)).len() < p@.len());
            lemma_find_sub(v@, p@);
        }
        return None;
    }
    if m == 0 {
        proof {
            assert(v@.skip(0) =~= v@);
            assert(v@.take(0) =~= p@);
        }
        return Some(0);
    }
    let mut i: usize = 0;
    while i <= n - m
        invariant
            1 <= m <= n,
            0 <= i <= n - m + 1,
            n == v@.len(),
            m == p@.len(),
            forall|k: int| 0 <= k < i ==> !spec_starts_with(#[trigger] v@.skip(k), p@),
        decreases n - m + 1 - i,
    {
        if match_at(v, p, i) {
            proof {
                lemma_find_sub(v@, p@);
            }
            return Some(i);
        }
        i = i + 1;
    }
    proof {
        assert(forall|k: int|
            n - m + 1 <= k <= n ==> (#[trigger] v@.skip(k)).len() < p@.len());
        lemma_find_sub(v@, p@);
    }
    None
}

/// Does `p` occur somewhere inside `v`?
pub fn contains_sub(v: &[char], p: &[char]) -> (r: bool)
    ensures
        r == spec_contains(v@, p@),
{
    find_sub(v, p).is_some()
}

/// A line with a trailing carriage return removed.
pub open spec fn spec_strip_cr(l: Seq<char>) -> Seq<char> {
    if l.len() > 0 && l.last() == '\r' {
        l.drop_last()
    } else {
        l
    }
}

/// Remove a trailing carriage return, copying the rest.
pub fn strip_cr(l: &[char]) -> (r: Vec<char>)
    ensures
        r@ == spec_strip_cr(l@),
{
    let n: usize = l.len();
    if n > 0 && l[n - 1] == '\r' {
        proof {
            assert(l@.subrange(0, n - 1) =~= l@.drop_last());
        }
        vstd::slice::slice_to_vec(vstd::slice::slice_subrange(l, 0, n - 1))
    } else {
        vstd::slice::slice_to_vec(l)
    }
}

/// The lines of a text: pieces between line feeds, each with a trailing
/// carriage return removed, and no final empty piece after a trailing
/// line feed.
pub open spec fn spec_lines(s: Seq<char>) -> Seq<Seq<char>>
    decreases s.len(),
    via spec_lines_decreases
{
    if s.len() == 0 {
        Seq::empty()
    } else {
        match spec_find_char(s, '\n') {
            None => seq![spec_strip_cr(s)],
            Some(i) => seq![spec_strip_cr(s.take(i))] + spec_lines(s.skip(i + 1)),
        }
    }
}

#[via_fn]
proof fn spec_lines_decreases(s: Seq<char>) {
    lemma_find_char(s, '\n');
}

/// Split a text into its lines.
pub fn lines(v: &[char]) -> (r: Vec<Vec<char>>)
    ensures
        views_of(r@) == spec_lines(v@),
{
    let n: usize = v.len();
    let mut out: Vec<Vec<char>> = Vec::new();
    let mut p: usize = 0;
    proof {
        assert(v@.skip(0) =~= v@);
        assert(views_of(out@) + spec_lines(v@) =~= spec_lines(v@));
    }
    while p < n
        invariant
            0 <= p <= n,
            n == v@.len(),
            views_of(out@) + spec_lines(v@.skip(p as int)) == spec_lines(v@),
        decreases n - p,
    {
        let rest = vstd::slice::slice_subrange(v, p, n);
        proof {
            assert(rest@ =~= v@.skip(p as int));
        }
        match find_char(rest, '\n') {
            None => {
                let line = strip_cr(rest);
                proof {
                    assert(views_of(out@.push(line)) =~= views_of(out@) + seq![
                        spec_strip_cr(rest@),
                    ]);
                    assert(v@.skip(n as int) =~= Seq::<char>::empty());
                }
                out.push(line);
                p = n;
            },
            Some(i) => {
                proof {
                    lemma_find_char(rest@, '\n');
                }
                let piece = vstd::slice::slice_subrange(rest, 0, i);
                proof {
                    assert(piece@ =~= rest@.take(i as int));
                }
                let line = strip_cr(piece);
                proof {
                    assert(views_of(out@.push(line)) =~= views_of(out@) + seq![
                        spec_strip_cr(rest@.take(i as int)),
                    ]);
                    assert(rest@.skip(i + 1) =~= v@.skip(p + i + 1));
                }
                out.push(line);
                p = p + i + 1;
            },
        }
    }
    proof {
        assert(v@.skip(n as int) =~= Seq::<char>::empty());
        assert(views_of(out@) + spec_lines(v@.skip(n as int)) =~= views_of(out@));
    }
    out
}

/// The pieces of `s` between occurrences of the separator, in order; there
/// is always at least one piece, and empty pieces are kept.
pub open spec fn spec_split(s: Seq<char>, c: char) -> Seq<Seq<char>>
    decreases s.len(),
    via spec_split_decreases
{
    match spec_find_char(s, c) {
        None => seq![s],
        Some(i) => seq![s.take(i)] + spec_split(s.skip(i + 1), c),
    }
}

#[via_fn]
proof fn spec_split_decreases(s: Seq<char>, c: char) {
    lemma_find_char(s, c);
}

/// Split a char slice on every occurrence of a separator.
pub fn split_all(v: &[char], c: char) -> (r: Vec<Vec<char>>)
    ensures
        views_of(r@) == spec_split(v@, c),
{
    let n: usize = v.len();
    let mut out: Vec<Vec<char>> = Vec::new();
    let mut p: usize = 0;
    proof {
        assert(v@.skip(0) =~= v@);
        assert(views_of(out@) + spec_split(v@, c) =~= spec_split(v@, c));
    }
    loop
        invariant_except_break
            views_of(out@) + spec_split(v@.skip(p as int), c) == spec_split(v@, c),
        invariant
            0 <= p <= n,
            n == v@.len(),
        ensures
            views_of(out@) == spec_split(v@, c),
        decreases n - p,
    {
        let rest = vstd::slice::slice_subrange(v, p, n);
        proof {
            assert(rest@ =~= v@.skip(p as int));
        }
        match find_char(rest, c) {
            None => {
                let piece = vstd::slice::slice_to_vec(rest);
                proof {
                    assert(views_of(out@.push(piece)) =~= views_of(out@) + seq![rest@]);
                }
                out.push(piece);
                break ;
            },
            Some(i) => {
                proof {
                    lemma_find_char(rest@, c);
                }
                let piece = vstd::slice::slice_to_vec(vstd::slice::slice_subrange(rest, 0, i));
                proof {
                    assert(piece@ =~= rest@.take(i as int));
                    assert(views_of(out@.push(piece)) =~= views_of(out@) + seq![
                        rest@.take(i as int),
                    ]);
                    assert(rest@.skip(i + 1) =~= v@.skip(p + i + 1));
                }
                out.push(piece);
                p = p + i + 1;
            },
        }
    }
    out
}

/// Length of the maximal whitespace-free prefix of `s`.
pub open spec fn spec_token_len(s: Seq<char>) -> int
    decreases s.len(),
{
    if s.len() > 0 && !is_space_char(s[0]) {
        1 + spec_token_len(s.drop_first())
    } else {
        0
    }
}

/// Bounds and contents of the maximal whitespace-free prefix.
pub proof fn lemma_token_len(s: Seq<char>)
    ensures
        0 <= spec_token_len(s) <= s.len(),
        forall|k: int| 0 <= k < spec_token_len(s) ==> !is_space_char(s[k]),
        spec_token_len(s) < s.len() ==> is_space_char(s[spec_token_len(s)]),
    decreases s.len(),
{
    if s.len() > 0 && !is_space_char(s[0]) {
        lemma_token_len(s.drop_first());
        assert(forall|k: int| 1 <= k < s.len() ==> s[k] == s.drop_first()[k - 1]);
    }
}

/// The whitespace-separated tokens of `s`, in order.
pub open spec fn spec_split_ws(s: Seq<char>) -> Seq<Seq<char>>
    decreases s.len(),
    via spec_split_ws_decreases
{
    if s.len() == 0 {
        Seq::empty()
    } else if is_space_char(s[0]) {
        spec_split_ws(s.drop_first())
    } else {
        seq![s.take(spec_token_len(s))] + spec_split_ws(s.skip(spec_token_len(s)))
    }
}

#[via_fn]
proof fn spec_split_ws_decreases(s: Seq<char>) {
    lemma_token_len(s);
}

/// Split a char slice into its whitespace-separated tokens.
pub fn split_ws(v: &[char]) -> (r: Vec<Vec<char>>)
    ensures
        views_of(r@) == spec_split_ws(v@),
{
    let n: usize = v.len();
    let mut out: Vec<Vec<char>> = Vec::new();
    let mut p: usize = 0;
    proof {
        assert(v@.skip(0) =~= v@);
        assert(views_of(out@) + spec_split_ws(v@) =~= spec_split_ws(v@));
    }
    while p < n
        invariant
            0 <= p <= n,
            n == v@.len(),
            views_of(out@) + spec_split_ws(v@.skip(p as int)) == spec_split_ws(v@),
        decreases n - p,
    {
        if is_space(v[p]) {
            proof {
                assert(v@.skip(p as int).drop_first() =~= v@.skip(p + 1));
            }
            p = p + 1;
        } else {
            let mut q: usize = p + 1;
            while q < n && !is_space(v[q])
                invariant
                    p < q <= n,
                    n == v@.len(),
                    forall|k: int| p <= k < q ==> !is_space_char(v@[k]),
                decreases n - q,
            {
                q = q + 1;
            }
            proof {
                let rest = v@.skip(p as int);
                lemma_token_len(rest);
                assert(forall|k: int| 0 <= k < q - p ==> rest[k] == v@[p + k]);
                assert(forall|k: int| 0 <= k < q - p ==> !is_space_char(rest[k]));
                if q < n {
                    assert(is_space_char(rest[q - p]));
                }
                assert(spec_token_len(rest) == q - p);
            }
            let token = vstd::slice::slice_to_vec(vstd::slice::slice_subrange(v, p, q));
            proof {
                let rest = v@.skip(p as int);
                assert(token@ =~= rest.take(q - p));
                assert(views_of(out@.push(token)) =~= views_of(out@) + seq![
                    rest.take(q - p),
                ]);
                assert(rest.skip(q - p) =~= v@.skip(q as int));
            }
            out.push(token);
            p = q;
        }
    }
    proof {
        assert(v@.skip(n as int) =~= Seq::<char>::empty());
        assert(views_of(out@) + spec_split_ws(v@.skip(n as int)) =~= views_of(out@));
    }
    out
}

/// `s` with every occurrence of `from` replaced by `to`, scanning left to
/// right without revisiting replaced text.
pub open spec fn spec_replace(s: Seq<char>, from: Seq<char>, to: Seq<char>) -> Seq<char>
    decreases s.len(),
    when from.len() > 0
{
    if s.len() == 0 {
        s
    } else if spec_starts_with(s, from) {
        to + spec_replace(s.skip(from.len() as int), from, to)
    } else {
        seq![s[0]] + spec_replace(s.drop_first(), from, to)
    }
}

/// Replace every occurrence of `from` by `to`.
pub fn replace_all(v: &[char], from: &[char], to: &[char]) -> (r: Vec<char>)
    requires
        from@.len() > 0,
    ensures
        r@ == spec_replace(v@, from@, to@),
{
    let n: usize = v.len();
    let m: usize = from.len();
    let mut out: Vec<char> = Vec::new();
    let mut p: usize = 0;
    proof {
        assert(v@.skip(0) =~= v@);
        assert(out@ + spec_replace(v@, from@, to@) =~= spec_replace(v@, from@, to@));
    }
    while p < n
        invariant
            0 <= p <= n,
            n == v@.len(),
            m == from@.len(),
            m > 0,
            out@ + spec_replace(v@.skip(p as int), from@, to@) == spec_replace(v@, from@, to@),
        decreases n - p,
    {
        if match_at(v, from, p) {
            proof {
                assert(v@.skip(p as int).skip(m as int) =~= v@.skip(p + m));
            }
            push_chars(&mut out, to);
            p = p + m;
        } else {
            proof {
                assert(v@.skip(p as int)[0] == v@[p as int]);
                assert(v@.skip(p as int).drop_first() =~= v@.skip(p + 1));
                assert(out@.push(v@[p as int]) + spec_replace(v@.skip(p + 1), from@, to@) =~= out@
                    + spec_replace(v@.skip(p as int), from@, to@));
            }
            out.push(v[p]);
            p = p + 1;
        }
    }
    proof {
        assert(v@.skip(n as int) =~= Seq::<char>::empty());
    }
    out
}

} // verus!
