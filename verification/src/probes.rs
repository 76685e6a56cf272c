//! Source probes: per-fact detectors.
//!
//! Each host fact is detected by trying an ordered list of sources and
//! taking the first one that yields a non-empty, semantically valid value;
//! unavailable or malformed sources are silently skipped and a missing fact
//! falls back to the type's zero value.  The probes here are the pure parse
//! and selection rules: a source's raw content arrives as an optional
//! string (absent when the file or utility was unavailable) and the probe
//! returns the detected value.

use vstd::prelude::*;

use crate::numerals::{parse_u32, parse_u64, spec_parse_u32, spec_parse_u64};
use crate::text::{
    chars_to_string, lines, slice_eq, spec_lines, spec_starts_with, spec_trim, starts_with,
    to_chars, trim, views_of,
};

verus! {

broadcast use vstd::slice::group_slice_axioms;

/// The first present value in a priority-ordered list of source results.
pub open spec fn spec_first_some(s: Seq<Option<Seq<char>>>) -> Option<Seq<char>>
    decreases s.len(),
{
    if s.len() == 0 {
        None
    } else if s[0] is Some {
        s[0]
    } else {
        spec_first_some(s.drop_first())
    }
}

/// Priority is respected: when the first source yields nothing and the
/// second yields a value, the second source's value is the result.
pub proof fn lemma_priority_order(s: Seq<Option<Seq<char>>>)
    requires
        s.len() >= 2,
        s[0] is None,
        s[1] is Some,
    ensures
        spec_first_some(s) == s[1],
{
    reveal_with_fuel(spec_first_some, 2);
    assert(s.drop_first()[0] == s[1]);
}

/// When every source is absent, the chain yields nothing.
pub proof fn lemma_all_absent(s: Seq<Option<Seq<char>>>)
    requires
        forall|k: int| 0 <= k < s.len() ==> s[k] is None,
    ensures
        spec_first_some(s) is None,
    decreases s.len(),
{
    if s.len() > 0 {
        assert(forall|k: int| 0 <= k < s.drop_first().len() ==> s.drop_first()[k] is None);
        lemma_all_absent(s.drop_first());
    }
}

/// Take the first present value from a priority-ordered list of source
/// results.
pub fn first_usable(sources: &Vec<Option<String>>) -> (r: Option<String>)
    ensures
        r.deep_view() == spec_first_some(sources.deep_view()),
{
    let n: usize = sources.len();
    let mut i: usize = 0;
    proof {
        assert(sources.deep_view().skip(0) =~= sources.deep_view());
    }
    while i < n
        invariant
            0 <= i <= n,
            n == sources@.len(),
            sources.deep_view().len() == n,
            spec_first_some(sources.deep_view()) == spec_first_some(
                sources.deep_view().skip(i as int),
            ),
        decreases n - i,
    {
        match &sources[i] {
            Some(s) => {
                proof {
                    assert(sources.deep_view().skip(i as int)[0] == sources.deep_view()[i as int]);
                }
                return Some(s.clone());
            },
            None => {
                proof {
                    assert(sources.deep_view().skip(i as int)[0] == sources.deep_view()[i as int]);
                    assert(sources.deep_view().skip(i as int).drop_first() =~= sources.deep_view()
                        .skip(i + 1));
                }
                i = i + 1;
            },
        }
    }
    proof {
        assert(sources.deep_view().skip(n as int) =~= Seq::<Option<Seq<char>>>::empty());
    }
    None
}

/// A sequence with every leading occurrence of `q` removed.
pub open spec fn spec_trim_char_start(s: Seq<char>, q: char) -> Seq<char>
    decreases s.len(),
{
    if s.len() > 0 && s[0] == q {
        spec_trim_char_start(s.drop_first(), q)
    } else {
        s
    }
}

/// A sequence with every trailing occurrence of `q` removed.
pub open spec fn spec_trim_char_end(s: Seq<char>, q: char) -> Seq<char>
    decreases s.len(),
{
    if s.len() > 0 && s.last() == q {
        spec_trim_char_end(s.drop_last(), q)
    } else {
        s
    }
}

/// A sequence with every occurrence of `q` removed from both ends.
pub open spec fn spec_trim_char(s: Seq<char>, q: char) -> Seq<char> {
    spec_trim_char_end(spec_trim_char_start(s, q), q)
}

/// Trim every occurrence of one character from both ends of a slice.
pub fn trim_char<'a>(v: &'a [char], q: char) -> (r: &'a [char])
    ensures
        r@ == spec_trim_char(v@, q),
{
    let n: usize = v.len();
    let mut i: usize = 0;
    proof {
        assert(v@.skip(0) =~= v@);
    }
    while i < n && v[i] == q
        invariant
            0 <= i <= n,
            n == v@.len(),
            spec_trim_char_start(v@, q) == spec_trim_char_start(v@.skip(i as int), q),
        decreases n - i,
    {
        proof {
            assert(v@.skip(i as int).drop_first() =~= v@.skip(i + 1));
        }
        i = i + 1;
    }
    proof {
        if i < n {
            assert(spec_trim_char_start(v@.skip(i as int), q) == v@.skip(i as int));
        } else {
            assert(v@.skip(i as int) =~= Seq::<char>::empty());
        }
        assert(spec_trim_char_start(v@, q) == v@.skip(i as int));
        assert(v@.skip(i as int) =~= v@.subrange(i as int, n as int));
    }
    let mut j: usize = n;
    while j > i && v[j - 1] == q
        invariant
            i <= j <= n,
            n == v@.len(),
            spec_trim_char_start(v@, q) == v@.subrange(i as int, n as int),
            spec_trim_char_end(v@.subrange(i as int, n as int), q) == spec_trim_char_end(
                v@.subrange(i as int, j as int),
                q,
            ),
        decreases j,
    {
        proof {
            assert(v@.subrange(i as int, j as int).last() == v@[j - 1]);
            assert(v@.subrange(i as int, j as int).drop_last() =~= v@.subrange(i as int, j - 1));
        }
        j = j - 1;
    }
    proof {
        if j > i {
            assert(v@.subrange(i as int, j as int).last() == v@[j - 1]);
            assert(spec_trim_char_end(v@.subrange(i as int, j as int), q) == v@.subrange(
                i as int,
                j as int,
            ));
        } else {
            assert(v@.subrange(i as int, j as int) =~= Seq::<char>::empty());
        }
    }
    vstd::slice::slice_subrange(v, i, j)
}

/// The value of the first `ID=` line of a release file, with surrounding
/// quotes removed; nothing when no such line exists.
pub open spec fn spec_os_release_id(content: Seq<char>) -> Option<Seq<char>> {
    spec_id_from_lines(spec_lines(content))
}

/// Helper for [`spec_os_release_id`]: scan the lines in order.
pub open spec fn spec_id_from_lines(ls: Seq<Seq<char>>) -> Option<Seq<char>>
    decreases ls.len(),
{
    if ls.len() == 0 {
        None
    } else if spec_starts_with(ls[0], "ID="@) {
        Some(spec_trim_char(ls[0].skip(3), '"'))
    } else {
        spec_id_from_lines(ls.drop_first())
    }
}

/// Extract the distribution identifier from a `key=value` release file.
pub fn parse_os_release_id(content: &str) -> (r: Option<String>)
    ensures
        r.deep_view() == spec_os_release_id(content@),
{
    let cv = to_chars(content);
    let ls = lines(cv.as_slice());
    let prefix = to_chars("ID=");
    let n: usize = ls.len();
    let mut i: usize = 0;
    proof {
        reveal_strlit("ID=");
        assert(views_of(ls@).skip(0) =~= views_of(ls@));
    }
    while i < n
        invariant
            0 <= i <= n,
            n == ls@.len(),
            views_of(ls@).len() == n,
            prefix@ == "ID="@,
            prefix@.len() == 3,
            views_of(ls@) == spec_lines(content@),
            spec_id_from_lines(views_of(ls@)) == spec_id_from_lines(
                views_of(ls@).skip(i as int),
            ),
        decreases n - i,
    {
        let line: &Vec<char> = &ls[i];
        proof {
            assert(views_of(ls@).skip(i as int)[0] == views_of(ls@)[i as int]);
            assert(views_of(ls@)[i as int] == line@);
        }
        if starts_with(line.as_slice(), prefix.as_slice()) {
            let rest = vstd::slice::slice_subrange(line.as_slice(), 3, line.len());
            proof {
                assert(rest@ =~= line@.skip(3));
            }
            let value = trim_char(rest, '"');
            return Some(chars_to_string(value));
        }
        proof {
            assert(views_of(ls@).skip(i as int).drop_first() =~= views_of(ls@).skip(i + 1));
        }
        i = i + 1;
    }
    proof {
        assert(views_of(ls@).skip(n as int) =~= Seq::<Seq<char>>::empty());
    }
    None
}

/// The detected OS identity: the release file's `ID` value when present and
/// non-empty, else the first present distribution marker, else the
/// compiled-in platform identifier, else the literal `unknown`.
pub open spec fn spec_detect_distro(
    os_release: Option<Seq<char>>,
    has_debian: bool,
    has_arch: bool,
    has_fedora: bool,
    platform_id: Option<Seq<char>>,
) -> Seq<char> {
    let from_release = match os_release {
        Some(c) => spec_os_release_id(c),
        None => None,
    };
    match from_release {
        Some(id) => if id.len() > 0 {
            id
        } else {
            spec_distro_fallback(has_debian, has_arch, has_fedora, platform_id)
        },
        None => spec_distro_fallback(has_debian, has_arch, has_fedora, platform_id),
    }
}

/// The marker-file and platform-constant tail of the OS identity chain.
pub open spec fn spec_distro_fallback(
    has_debian: bool,
    has_arch: bool,
    has_fedora: bool,
    platform_id: Option<Seq<char>>,
) -> Seq<char> {
    if has_debian {
        "debian"@
    } else if has_arch {
        "arch"@
    } else if has_fedora {
        "fedora"@
    } else {
        match platform_id {
            Some(p) => p,
            None => "unknown"@,
        }
    }
}

/// The OS identity probe never yields an empty name.
pub proof fn lemma_distro_nonempty(
    os_release: Option<Seq<char>>,
    has_debian: bool,
    has_arch: bool,
    has_fedora: bool,
    platform_id: Option<Seq<char>>,
)
    requires
        platform_id is Some ==> platform_id->0.len() > 0,
    ensures
        spec_detect_distro(os_release, has_debian, has_arch, has_fedora, platform_id).len() > 0,
{
    reveal_strlit("debian");
    reveal_strlit("arch");
    reveal_strlit("fedora");
    reveal_strlit("unknown");
}

/// Detect the OS identity from its ordered sources.
pub fn detect_distro(
    os_release: Option<&String>,
    has_debian: bool,
    has_arch: bool,
    has_fedora: bool,
    platform_id: Option<&String>,
) -> (r: String)
    ensures
        r@ == spec_detect_distro(
            os_release.deep_view(),
            has_debian,
            has_arch,
            has_fedora,
            platform_id.deep_view(),
        ),
{
    let id = match os_release {
        Some(c) => parse_os_release_id(c.as_str()),
        None => None,
    };
    match id {
        Some(id) => {
            if !id.as_str().is_empty() {
                return id;
            }
        },
        None => {},
    }
    if has_debian {
        return String::from_str("debian");
    }
    if has_arch {
        return String::from_str("arch");
    }
    if has_fedora {
        return String::from_str("fedora");
    }
    match platform_id {
        Some(p) => p.clone(),
        None => String::from_str("unknown"),
    }
}

/// The hardware-model placeholder that sources may report instead of a real
/// model name.
pub open spec fn spec_model_sentinel() -> Seq<char> {
    "To Be Filled By O.E.M."@
}

/// A hardware-model source's usable value: its trimmed content when that is
/// non-empty and not the placeholder sentinel.
pub open spec fn spec_accept_model(content: Seq<char>) -> Option<Seq<char>> {
    let t = spec_trim(content);
    if t.len() > 0 && t != spec_model_sentinel() {
        Some(t)
    } else {
        None
    }
}

/// Check one hardware-model source.
pub fn accept_model(content: &str) -> (r: Option<String>)
    ensures
        r.deep_view() == spec_accept_model(content@),
{
    let cv = to_chars(content);
    let t = trim(cv.as_slice());
    let sentinel = to_chars("To Be Filled By O.E.M.");
    if t.len() > 0 && !slice_eq(t, sentinel.as_slice()) {
        Some(chars_to_string(t))
    } else {
        None
    }
}

/// The usable values of a list of hardware-model sources, in order.
pub open spec fn spec_accepted_models(srcs: Seq<Option<Seq<char>>>) -> Seq<Option<Seq<char>>> {
    srcs.map_values(
        |o: Option<Seq<char>>|
            match o {
                Some(c) => spec_accept_model(c),
                None => None,
            },
    )
}

/// The detected hardware model: the first source whose content is non-empty
/// after trimming and is not the placeholder sentinel; empty when no source
/// is usable.
pub open spec fn spec_pick_model(srcs: Seq<Option<Seq<char>>>) -> Seq<char> {
    match spec_first_some(spec_accepted_models(srcs)) {
        Some(m) => m,
        None => Seq::empty(),
    }
}

/// Detect the hardware model from an ordered list of descriptor sources.
pub fn pick_model(sources: &Vec<Option<String>>) -> (r: String)
    ensures
        r@ == spec_pick_model(sources.deep_view()),
{
    let n: usize = sources.len();
    let mut accepted: Vec<Option<String>> = Vec::new();
    let mut i: usize = 0;
    while i < n
        invariant
            0 <= i <= n,
            n == sources@.len(),
            sources.deep_view().len() == n,
            accepted.deep_view() =~= spec_accepted_models(sources.deep_view().take(i as int)),
        decreases n - i,
    {
        let a = match &sources[i] {
            Some(c) => accept_model(c.as_str()),
            None => None,
        };
        proof {
            assert(sources.deep_view().take(i + 1).drop_last() =~= sources.deep_view().take(
                i as int,
            ));
            assert(sources.deep_view().take(i + 1).last() == sources.deep_view()[i as int]);
            assert(spec_accepted_models(sources.deep_view().take(i + 1)) =~= spec_accepted_models(
                sources.deep_view().take(i as int),
            ).push(
                match sources.deep_view()[i as int] {
                    Some(c) => spec_accept_model(c),
                    None => None,
                },
            ));
        }
        accepted.push(a);
        i = i + 1;
    }
    proof {
        assert(sources.deep_view().take(n as int) =~= sources.deep_view());
    }
    match first_usable(&accepted) {
        Some(m) => m,
        None => String::new(),
    }
}

/// A source's usable value under the default rule: its trimmed content when
/// that is non-empty.
pub open spec fn spec_usable_trimmed(o: Option<Seq<char>>) -> Option<Seq<char>> {
    match o {
        Some(c) => if spec_trim(c).len() > 0 {
            Some(spec_trim(c))
        } else {
            None
        },
        None => None,
    }
}

/// The first source whose trimmed content is non-empty, or the empty string.
pub open spec fn spec_first_trimmed(srcs: Seq<Option<Seq<char>>>) -> Seq<char> {
    match spec_first_some(srcs.map_values(|o: Option<Seq<char>>| spec_usable_trimmed(o))) {
        Some(v) => v,
        None => Seq::empty(),
    }
}

/// Detect a fact under the default rule: the first source whose trimmed
/// content is non-empty wins; all sources failing yields the empty string.
pub fn first_trimmed(sources: &Vec<Option<String>>) -> (r: String)
    ensures
        r@ == spec_first_trimmed(sources.deep_view()),
{
    let n: usize = sources.len();
    let mut usable: Vec<Option<String>> = Vec::new();
    let mut i: usize = 0;
    while i < n
        invariant
            0 <= i <= n,
            n == sources@.len(),
            sources.deep_view().len() == n,
            usable.deep_view() =~= sources.deep_view().take(i as int).map_values(
                |o: Option<Seq<char>>| spec_usable_trimmed(o),
            ),
        decreases n - i,
    {
        let a: Option<String> = match &sources[i] {
            Some(c) => {
                let cv = to_chars(c.as_str());
                let t = trim(cv.as_slice());
                if t.len() > 0 {
                    Some(chars_to_string(t))
                } else {
                    None
                }
            },
            None => None,
        };
        proof {
            assert(sources.deep_view().take(i + 1).drop_last() =~= sources.deep_view().take(
                i as int,
            ));
            assert(sources.deep_view().take(i + 1).last() == sources.deep_view()[i as int]);
            assert(sources.deep_view().take(i + 1).map_values(
                |o: Option<Seq<char>>| spec_usable_trimmed(o),
            ) =~= sources.deep_view().take(i as int).map_values(
                |o: Option<Seq<char>>| spec_usable_trimmed(o),
            ).push(spec_usable_trimmed(sources.deep_view()[i as int])));
        }
        usable.push(a);
        i = i + 1;
    }
    proof {
        assert(sources.deep_view().take(n as int) =~= sources.deep_view());
    }
    match first_usable(&usable) {
        Some(v) => v,
        None => String::new(),
    }
}

/// The detected kernel version: the pseudo-file first, then the
/// version-reporting utility, each used via its trimmed content.
pub open spec fn spec_detect_kernel(file: Option<Seq<char>>, cmd: Option<Seq<char>>) -> Seq<char> {
    spec_first_trimmed(seq![file, cmd])
}

/// Detect the kernel version from its two sources.
pub fn detect_kernel(file: Option<&String>, cmd: Option<&String>) -> (r: String)
    ensures
        r@ == spec_detect_kernel(file.deep_view(), cmd.deep_view()),
{
    let mut sources: Vec<Option<String>> = Vec::new();
    sources.push(clone_opt(file));
    sources.push(clone_opt(cmd));
    proof {
        assert(sources.deep_view() =~= seq![file.deep_view(), cmd.deep_view()]);
    }
    first_trimmed(&sources)
}

/// The detected host name: the kernel pseudo-file, then the static
/// configuration file, then the utility, each used via its trimmed content.
pub open spec fn spec_detect_host(
    proc_file: Option<Seq<char>>,
    etc_file: Option<Seq<char>>,
    cmd: Option<Seq<char>>,
) -> Seq<char> {
    spec_first_trimmed(seq![proc_file, etc_file, cmd])
}

/// Detect the host name from its three sources.
pub fn detect_host(
    proc_file: Option<&String>,
    etc_file: Option<&String>,
    cmd: Option<&String>,
) -> (r: String)
    ensures
        r@ == spec_detect_host(proc_file.deep_view(), etc_file.deep_view(), cmd.deep_view()),
{
    let mut sources: Vec<Option<String>> = Vec::new();
    sources.push(clone_opt(proc_file));
    sources.push(clone_opt(etc_file));
    sources.push(clone_opt(cmd));
    proof {
        assert(sources.deep_view() =~= seq![
            proc_file.deep_view(),
            etc_file.deep_view(),
            cmd.deep_view(),
        ]);
    }
    first_trimmed(&sources)
}

/// The detected user name: the environment value as it stands, or empty.
pub open spec fn spec_detect_user(env: Option<Seq<char>>) -> Seq<char> {
    match env {
        Some(u) => u,
        None => Seq::empty(),
    }
}

/// Detect the user name from the environment value.
pub fn detect_user(env: Option<&String>) -> (r: String)
    ensures
        r@ == spec_detect_user(env.deep_view()),
{
    match env {
        Some(u) => u.clone(),
        None => String::new(),
    }
}

/// Clone an optional borrowed string into an owned optional string.
fn clone_opt(o: Option<&String>) -> (r: Option<String>)
    ensures
        r.deep_view() == o.deep_view(),
{
    match o {
        Some(s) => Some(s.clone()),
        None => None,
    }
}

} // verus!

verus! {

/// Index of the last occurrence of a character, if any.
pub open spec fn spec_rfind_char(s: Seq<char>, c: char) -> Option<int>
    decreases s.len(),
{
    if s.len() == 0 {
        None
    } else if s.last() == c {
        Some(s.len() - 1)
    } else {
        spec_rfind_char(s.drop_last(), c)
    }
}

/// What a [`spec_rfind_char`] result means.
pub proof fn lemma_rfind_char(s: Seq<char>, c: char)
    ensures
        match spec_rfind_char(s, c) {
            None => forall|k: int| 0 <= k < s.len() ==> s[k] != c,
            Some(i) => 0 <= i < s.len() && s[i] == c && (forall|k: int|
                i < k < s.len() ==> s[k] != c),
        },
    decreases s.len(),
{
    if s.len() > 0 && s.last() != c {
        lemma_rfind_char(s.drop_last(), c);
        assert(forall|k: int| 0 <= k < s.len() - 1 ==> s[k] == s.drop_last()[k]);
    }
}

/// Find the last occurrence of a character in a char slice.
pub fn rfind_char(v: &[char], c: char) -> (r: Option<usize>)
    ensures
        match r {
            None => spec_rfind_char(v@, c) is None,
            Some(i) => spec_rfind_char(v@, c) == Some(i as int),
        },
{
    let n: usize = v.len();
    let mut j: usize = n;
    while j > 0
        invariant
            0 <= j <= n,
            n == v@.len(),
            forall|k: int| j <= k < n ==> v@[k] != c,
        decreases j,
    {
        if v[j - 1] == c {
            proof {
                lemma_rfind_char(v@, c);
            }
            return Some(j - 1);
        }
        j = j - 1;
    }
    proof {
        lemma_rfind_char(v@, c);
    }
    None
}

/// The piece of a path after its last separator: the whole path when no
/// separator occurs.
pub open spec fn spec_basename(s: Seq<char>) -> Seq<char>
    decreases s.len(),
{
    if s.len() == 0 {
        s
    } else if s.last() == '/' {
        Seq::empty()
    } else {
        spec_basename(s.drop_last()).push(s.last())
    }
}

/// The basename is the text after the last separator.
pub proof fn lemma_basename(s: Seq<char>)
    ensures
        spec_basename(s) == match spec_rfind_char(s, '/') {
            None => s,
            Some(i) => s.skip(i + 1),
        },
    decreases s.len(),
{
    if s.len() == 0 {
    } else if s.last() == '/' {
        assert(s.skip(s.len() as int) =~= Seq::<char>::empty());
    } else {
        lemma_basename(s.drop_last());
        match spec_rfind_char(s.drop_last(), '/') {
            None => {
                assert(s.drop_last().push(s.last()) =~= s);
            },
            Some(i) => {
                lemma_rfind_char(s.drop_last(), '/');
                assert(s.drop_last().skip(i + 1).push(s.last()) =~= s.skip(i + 1));
            },
        }
    }
}

/// The detected shell: the basename of the interactive shell path from the
/// environment, or empty when that is unset.
pub open spec fn spec_detect_shell(env: Option<Seq<char>>) -> Seq<char> {
    match env {
        Some(p) => spec_basename(p),
        None => Seq::empty(),
    }
}

/// Detect the shell from the environment's shell path.
pub fn detect_shell(env: Option<&String>) -> (r: String)
    ensures
        r@ == spec_detect_shell(env.deep_view()),
{
    match env {
        Some(p) => {
            let cv = to_chars(p.as_str());
            let n: usize = cv.len();
            proof {
                lemma_basename(cv@);
            }
            match rfind_char(cv.as_slice(), '/') {
                None => p.clone(),
                Some(i) => {
                    proof {
                        lemma_rfind_char(cv@, '/');
                        assert(cv@.subrange(i + 1, n as int) =~= cv@.skip(i + 1));
                    }
                    let tail = vstd::slice::slice_subrange(cv.as_slice(), i + 1, n);
                    chars_to_string(tail)
                },
            }
        },
        None => String::new(),
    }
}

} // verus!

verus! {

/// Number of lines that report a logical processor.
pub open spec fn spec_cpu_count(ls: Seq<Seq<char>>) -> int
    decreases ls.len(),
{
    if ls.len() == 0 {
        0
    } else {
        spec_cpu_count(ls.drop_last()) + if spec_starts_with(ls.last(), "model name"@) {
            1int
        } else {
            0int
        }
    }
}

/// The brand string reported by the first processor line that carries a
/// value: the trimmed text between the first and second colon.
pub open spec fn spec_cpu_brand(ls: Seq<Seq<char>>) -> Option<Seq<char>>
    decreases ls.len(),
{
    if ls.len() == 0 {
        None
    } else if spec_starts_with(ls[0], "model name"@) && crate::text::spec_split(
        ls[0],
        ':',
    ).len() >= 2 {
        Some(spec_trim(crate::text::spec_split(ls[0], ':')[1]))
    } else {
        spec_cpu_brand(ls.drop_first())
    }
}

/// The detected CPU model: the brand string from the processor info file,
/// or `<count> Cores` when no non-empty brand string is present.
pub open spec fn spec_parse_cpu(content: Seq<char>) -> Seq<char> {
    let ls = spec_lines(content);
    let cores = crate::numerals::spec_fmt_nat(spec_cpu_count(ls)) + " Cores"@;
    match spec_cpu_brand(ls) {
        Some(b) => if b.len() > 0 {
            b
        } else {
            cores
        },
        None => cores,
    }
}

/// Parse the processor info file: brand string and logical processor count.
pub fn parse_cpu(content: &str) -> (r: String)
    ensures
        r@ == spec_parse_cpu(content@),
{
    let cv = to_chars(content);
    let ls = lines(cv.as_slice());
    let prefix = to_chars("model name");
    let n: usize = ls.len();
    let mut count: usize = 0;
    let mut brand: Option<Vec<char>> = None;
    let mut i: usize = 0;
    proof {
        assert(views_of(ls@).take(0) =~= Seq::<Seq<char>>::empty());
        assert(views_of(ls@).skip(0) =~= views_of(ls@));
    }
    while i < n
        invariant
            0 <= i <= n,
            n == ls@.len(),
            views_of(ls@).len() == n,
            prefix@ == "model name"@,
            count <= i,
            count == spec_cpu_count(views_of(ls@).take(i as int)),
            match brand {
                Some(b) => spec_cpu_brand(views_of(ls@)) == Some(b@),
                None => spec_cpu_brand(views_of(ls@)) == spec_cpu_brand(
                    views_of(ls@).skip(i as int),
                ),
            },
        decreases n - i,
    {
        let line: &Vec<char> = &ls[i];
        proof {
            assert(views_of(ls@).take(i + 1).drop_last() =~= views_of(ls@).take(i as int));
            assert(views_of(ls@).take(i + 1).last() == views_of(ls@)[i as int]);
            assert(views_of(ls@).skip(i as int)[0] == views_of(ls@)[i as int]);
            assert(views_of(ls@).skip(i as int).drop_first() =~= views_of(ls@).skip(i + 1));
            assert(views_of(ls@)[i as int] == line@);
        }
        if starts_with(line.as_slice(), prefix.as_slice()) {
            count = count + 1;
            let pieces = crate::text::split_all(line.as_slice(), ':');
            if pieces.len() >= 2 {
                proof {
                    assert(views_of(pieces@)[1] == pieces@[1]@);
                }
                if brand.is_none() {
                    let value = trim(pieces[1].as_slice());
                    brand = Some(vstd::slice::slice_to_vec(value));
                }
            }
        }
        i = i + 1;
    }
    proof {
        assert(views_of(ls@).take(n as int) =~= views_of(ls@));
        assert(views_of(ls@).skip(n as int) =~= Seq::<Seq<char>>::empty());
    }
    match brand {
        Some(b) => {
            if b.len() > 0 {
                return chars_to_string(b.as_slice());
            }
            let mut out = crate::numerals::fmt_u64(count as u64);
            let suffix = to_chars(" Cores");
            crate::text::push_chars(&mut out, suffix.as_slice());
            chars_to_string(out.as_slice())
        },
        None => {
            let mut out = crate::numerals::fmt_u64(count as u64);
            let suffix = to_chars(" Cores");
            crate::text::push_chars(&mut out, suffix.as_slice());
            chars_to_string(out.as_slice())
        },
    }
}

/// The value carried by the last line with the given prefix and a second
/// whitespace token; a token that is not a decimal numeral counts as zero.
pub open spec fn spec_mem_field(ls: Seq<Seq<char>>, p: Seq<char>) -> Option<int>
    decreases ls.len(),
{
    if ls.len() == 0 {
        None
    } else if spec_starts_with(ls.last(), p) && crate::text::spec_split_ws(ls.last()).len() >= 2 {
        Some(
            match spec_parse_u64(crate::text::spec_split_ws(ls.last())[1]) {
                Some(v) => v as int,
                None => 0int,
            },
        )
    } else {
        spec_mem_field(ls.drop_last(), p)
    }
}

/// The detected memory figures in mebibytes: total, and used as total
/// minus available; a missing field counts as zero, and used saturates at
/// zero rather than going negative.
pub open spec fn spec_parse_meminfo(content: Seq<char>) -> (u64, u64) {
    let ls = spec_lines(content);
    let total = match spec_mem_field(ls, "MemTotal:"@) {
        Some(v) => v,
        None => 0int,
    };
    let available = match spec_mem_field(ls, "MemAvailable:"@) {
        Some(v) => v,
        None => 0int,
    };
    (
        (total / 1024) as u64,
        if available <= total {
            ((total - available) / 1024) as u64
        } else {
            0u64
        },
    )
}

/// Scan the lines of the memory info file for one named field.
fn mem_field(ls: &Vec<Vec<char>>, p: &[char]) -> (r: Option<u64>)
    ensures
        match r {
            Some(v) => spec_mem_field(views_of(ls@), p@) == Some(v as int),
            None => spec_mem_field(views_of(ls@), p@) is None,
        },
{
    let n: usize = ls.len();
    let mut cur: Option<u64> = None;
    let mut i: usize = 0;
    proof {
        assert(views_of(ls@).take(0) =~= Seq::<Seq<char>>::empty());
    }
    while i < n
        invariant
            0 <= i <= n,
            n == ls@.len(),
            views_of(ls@).len() == n,
            match cur {
                Some(v) => spec_mem_field(views_of(ls@).take(i as int), p@) == Some(v as int),
                None => spec_mem_field(views_of(ls@).take(i as int), p@) is None,
            },
        decreases n - i,
    {
        let line: &Vec<char> = &ls[i];
        proof {
            assert(views_of(ls@).take(i + 1).drop_last() =~= views_of(ls@).take(i as int));
            assert(views_of(ls@).take(i + 1).last() == views_of(ls@)[i as int]);
            assert(views_of(ls@)[i as int] == line@);
        }
        if starts_with(line.as_slice(), p) {
            let toks = crate::text::split_ws(line.as_slice());
            if toks.len() >= 2 {
                proof {
                    assert(views_of(toks@)[1] == toks@[1]@);
                }
                cur = Some(
                    match parse_u64(toks[1].as_slice()) {
                        Some(v) => v,
                        None => 0,
                    },
                );
            }
        }
        i = i + 1;
    }
    proof {
        assert(views_of(ls@).take(n as int) =~= views_of(ls@));
    }
    cur
}

/// Parse the memory info file into total and used mebibytes.
pub fn parse_meminfo(content: &str) -> (r: (u64, u64))
    ensures
        r == spec_parse_meminfo(content@),
{
    let cv = to_chars(content);
    let ls = lines(cv.as_slice());
    let total_p = to_chars("MemTotal:");
    let avail_p = to_chars("MemAvailable:");
    let total: u64 = match mem_field(&ls, total_p.as_slice()) {
        Some(v) => v,
        None => 0,
    };
    let available: u64 = match mem_field(&ls, avail_p.as_slice()) {
        Some(v) => v,
        None => 0,
    };
    let used: u64 = if available <= total {
        (total - available) / 1024
    } else {
        0
    };
    (total / 1024, used)
}

/// The framebuffer geometry `W,H`, parsed from the trimmed content.
pub open spec fn spec_parse_fb(content: Seq<char>) -> Option<(u32, u32)> {
    let ps = crate::text::spec_split(spec_trim(content), ',');
    if ps.len() >= 2 {
        match (spec_parse_u32(ps[0]), spec_parse_u32(ps[1])) {
            (Some(w), Some(h)) => Some((w, h)),
            _ => None,
        }
    } else {
        None
    }
}

/// Parse the framebuffer geometry file.
pub fn parse_fb(content: &str) -> (r: Option<(u32, u32)>)
    ensures
        r == spec_parse_fb(content@),
{
    let cv = to_chars(content);
    let t = trim(cv.as_slice());
    let ps = crate::text::split_all(t, ',');
    if ps.len() >= 2 {
        proof {
            assert(views_of(ps@)[0] == ps@[0]@);
            assert(views_of(ps@)[1] == ps@[1]@);
        }
        let w = parse_u32(ps[0].as_slice());
        let h = parse_u32(ps[1].as_slice());
        match (w, h) {
            (Some(w), Some(h)) => Some((w, h)),
            _ => None,
        }
    } else {
        None
    }
}

/// Trim every trailing occurrence of one character.
pub fn trim_char_end<'a>(v: &'a [char], q: char) -> (r: &'a [char])
    ensures
        r@ == spec_trim_char_end(v@, q),
{
    let n: usize = v.len();
    let mut j: usize = n;
    proof {
        assert(v@.subrange(0, n as int) =~= v@);
    }
    while j > 0 && v[j - 1] == q
        invariant
            0 <= j <= n,
            n == v@.len(),
            spec_trim_char_end(v@, q) == spec_trim_char_end(v@.subrange(0, j as int), q),
        decreases j,
    {
        proof {
            assert(v@.subrange(0, j as int).last() == v@[j - 1]);
            assert(v@.subrange(0, j as int).drop_last() =~= v@.subrange(0, j - 1));
        }
        j = j - 1;
    }
    proof {
        if j > 0 {
            assert(v@.subrange(0, j as int).last() == v@[j - 1]);
            assert(spec_trim_char_end(v@.subrange(0, j as int), q) == v@.subrange(0, j as int));
        } else {
            assert(v@.subrange(0, j as int) =~= Seq::<char>::empty());
        }
    }
    vstd::slice::slice_subrange(v, 0, j)
}

/// The geometry reported by one line of the display-config utility: the
/// two numeric tokens after the token `current`, the second stripped of
/// trailing commas.
pub open spec fn spec_xrandr_line(l: Seq<char>) -> Option<(u32, u32)> {
    match crate::text::spec_find_sub(l, "current"@) {
        None => None,
        Some(idx) => {
            let toks = crate::text::spec_split_ws(l.skip(idx + 7));
            if toks.len() >= 3 {
                match (spec_parse_u32(toks[0]), spec_parse_u32(spec_trim_char_end(toks[2], ','))) {
                    (Some(w), Some(h)) => Some((w, h)),
                    _ => None,
                }
            } else {
                None
            }
        },
    }
}

/// The geometry from the first usable line of the display-config output.
pub open spec fn spec_parse_xrandr(ls: Seq<Seq<char>>) -> Option<(u32, u32)>
    decreases ls.len(),
{
    if ls.len() == 0 {
        None
    } else {
        match spec_xrandr_line(ls[0]) {
            Some(wh) => Some(wh),
            None => spec_parse_xrandr(ls.drop_first()),
        }
    }
}

/// Read the geometry from one line of the display-config output.
fn xrandr_line(l: &[char]) -> (r: Option<(u32, u32)>)
    ensures
        r == spec_xrandr_line(l@),
{
    let needle = to_chars("current");
    proof {
        reveal_strlit("current");
    }
    match crate::text::find_sub(l, needle.as_slice()) {
        None => None,
        Some(idx) => {
            proof {
                crate::text::lemma_find_sub(l@, "current"@);
            }
            let n: usize = l.len();
            let tail = vstd::slice::slice_subrange(l, idx + 7, n);
            proof {
                assert(tail@ =~= l@.skip(idx + 7));
            }
            let toks = crate::text::split_ws(tail);
            if toks.len() >= 3 {
                proof {
                    assert(views_of(toks@)[0] == toks@[0]@);
                    assert(views_of(toks@)[2] == toks@[2]@);
                }
                let w = parse_u32(toks[0].as_slice());
                let h = parse_u32(trim_char_end(toks[2].as_slice(), ','));
                match (w, h) {
                    (Some(w), Some(h)) => Some((w, h)),
                    _ => None,
                }
            } else {
                None
            }
        },
    }
}

/// Parse the display-config utility's output.
pub fn parse_xrandr(content: &str) -> (r: Option<(u32, u32)>)
    ensures
        r == spec_parse_xrandr(spec_lines(content@)),
{
    let cv = to_chars(content);
    let ls = lines(cv.as_slice());
    let n: usize = ls.len();
    let mut i: usize = 0;
    proof {
        assert(views_of(ls@).skip(0) =~= views_of(ls@));
    }
    while i < n
        invariant
            0 <= i <= n,
            n == ls@.len(),
            views_of(ls@).len() == n,
            views_of(ls@) == spec_lines(cv@),
            cv@ == content@,
            spec_parse_xrandr(views_of(ls@)) == spec_parse_xrandr(views_of(ls@).skip(i as int)),
        decreases n - i,
    {
        proof {
            assert(views_of(ls@).skip(i as int)[0] == views_of(ls@)[i as int]);
            assert(views_of(ls@)[i as int] == ls@[i as int]@);
            assert(views_of(ls@).skip(i as int).drop_first() =~= views_of(ls@).skip(i + 1));
        }
        match xrandr_line(ls[i].as_slice()) {
            Some(wh) => {
                return Some(wh);
            },
            None => {},
        }
        i = i + 1;
    }
    proof {
        assert(views_of(ls@).skip(n as int) =~= Seq::<Seq<char>>::empty());
    }
    None
}

/// The detected screen geometry: the framebuffer file first, then the
/// display-config utility; `(0, 0)` when neither yields a geometry.
pub open spec fn spec_detect_resolution(
    fb: Option<Seq<char>>,
    xrandr: Option<Seq<char>>,
) -> (u32, u32) {
    let from_xrandr = match xrandr {
        Some(o) => match spec_parse_xrandr(spec_lines(o)) {
            Some(wh) => wh,
            None => (0u32, 0u32),
        },
        None => (0u32, 0u32),
    };
    match fb {
        Some(c) => match spec_parse_fb(c) {
            Some(wh) => wh,
            None => from_xrandr,
        },
        None => from_xrandr,
    }
}

/// Detect the screen geometry from its two sources.
pub fn detect_resolution(fb: Option<&String>, xrandr: Option<&String>) -> (r: (u32, u32))
    ensures
        r == spec_detect_resolution(fb.deep_view(), xrandr.deep_view()),
{
    match fb {
        Some(c) => match parse_fb(c.as_str()) {
            Some(wh) => {
                return wh;
            },
            None => {},
        },
        None => {},
    }
    match xrandr {
        Some(o) => match parse_xrandr(o.as_str()) {
            Some(wh) => wh,
            None => (0, 0),
        },
        None => (0, 0),
    }
}

/// The whole seconds at the start of the uptime file: the first
/// whitespace-separated token, up to its decimal point.
pub open spec fn spec_parse_uptime(content: Seq<char>) -> Option<u64> {
    let toks = crate::text::spec_split_ws(content);
    if toks.len() >= 1 {
        let ip = match crate::text::spec_split_once(toks[0], '.') {
            Some(p) => p.0,
            None => toks[0],
        };
        spec_parse_u64(ip)
    } else {
        None
    }
}

/// Parse the uptime file's whole seconds.
pub fn parse_uptime(content: &str) -> (r: Option<u64>)
    ensures
        r == spec_parse_uptime(content@),
{
    let cv = to_chars(content);
    let toks = crate::text::split_ws(cv.as_slice());
    if toks.len() >= 1 {
        proof {
            assert(views_of(toks@)[0] == toks@[0]@);
        }
        let ip = match crate::text::split_once(toks[0].as_slice(), '.') {
            Some(p) => p.0,
            None => toks[0].as_slice(),
        };
        parse_u64(ip)
    } else {
        None
    }
}

/// The detected uptime in seconds: the pseudo-file first, then the value
/// from the system's uptime interface; zero when neither is available.
pub open spec fn spec_detect_uptime(file: Option<Seq<char>>, api: Option<u64>) -> u64 {
    let from_api = match api {
        Some(v) => v,
        None => 0u64,
    };
    match file {
        Some(c) => match spec_parse_uptime(c) {
            Some(v) => v,
            None => from_api,
        },
        None => from_api,
    }
}

/// Detect the uptime from its two sources.
pub fn detect_uptime(file: Option<&String>, api: Option<u64>) -> (r: u64)
    ensures
        r == spec_detect_uptime(file.deep_view(), api),
{
    match file {
        Some(c) => match parse_uptime(c.as_str()) {
            Some(v) => {
                return v;
            },
            None => {},
        },
        None => {},
    }
    match api {
        Some(v) => v,
        None => 0,
    }
}

} // verus!

verus! {

/// Does an enumeration line describe a display device?
pub open spec fn spec_gpu_class_match(l: Seq<char>) -> bool {
    crate::text::spec_contains(l, "VGA compatible controller"@) || crate::text::spec_contains(
        l,
        "3D controller"@,
    ) || crate::text::spec_contains(l, "Display controller"@)
}

/// The description drawn from one display-device line: vendor and device
/// name taken from the quoted fields by position, or the whole line when
/// the fields are missing or empty.
pub open spec fn spec_lspci_entry(l: Seq<char>) -> Seq<char> {
    let ps = crate::text::spec_split(l, '"');
    if ps.len() >= 10 {
        let combo = spec_trim(spec_trim(ps[5]) + seq![' '] + spec_trim(ps[7]));
        if combo.len() > 0 {
            combo
        } else {
            l
        }
    } else {
        l
    }
}

/// The GPU descriptions of the PCI-enumeration output, in discovery order.
pub open spec fn spec_parse_lspci(ls: Seq<Seq<char>>) -> Seq<Seq<char>>
    decreases ls.len(),
{
    if ls.len() == 0 {
        Seq::empty()
    } else {
        let prev = spec_parse_lspci(ls.drop_last());
        if spec_gpu_class_match(ls.last()) {
            prev.push(spec_lspci_entry(ls.last()))
        } else {
            prev
        }
    }
}

/// Check one enumeration line for a display device class.
fn gpu_class_match(l: &[char]) -> (r: bool)
    ensures
        r == spec_gpu_class_match(l@),
{
    let vga = to_chars("VGA compatible controller");
    let three_d = to_chars("3D controller");
    let display = to_chars("Display controller");
    crate::text::contains_sub(l, vga.as_slice()) || crate::text::contains_sub(
        l,
        three_d.as_slice(),
    ) || crate::text::contains_sub(l, display.as_slice())
}

/// Extract the description from one display-device line.
fn lspci_entry(l: &[char]) -> (r: Vec<char>)
    ensures
        r@ == spec_lspci_entry(l@),
{
    let ps = crate::text::split_all(l, '"');
    if ps.len() >= 10 {
        proof {
            assert(views_of(ps@)[5] == ps@[5]@);
            assert(views_of(ps@)[7] == ps@[7]@);
        }
        let vendor = trim(ps[5].as_slice());
        let device = trim(ps[7].as_slice());
        let mut raw: Vec<char> = vstd::slice::slice_to_vec(vendor);
        raw.push(' ');
        crate::text::push_chars(&mut raw, device);
        proof {
            assert(raw@ =~= vendor@ + seq![' '] + device@);
        }
        let combo = trim(raw.as_slice());
        if combo.len() > 0 {
            vstd::slice::slice_to_vec(combo)
        } else {
            vstd::slice::slice_to_vec(l)
        }
    } else {
        vstd::slice::slice_to_vec(l)
    }
}

/// Parse the PCI-enumeration output into GPU descriptions.
pub fn parse_lspci_gpus(output: &str) -> (r: Vec<String>)
    ensures
        r.deep_view() == spec_parse_lspci(spec_lines(output@)),
{
    let cv = to_chars(output);
    let ls = lines(cv.as_slice());
    let n: usize = ls.len();
    let mut out: Vec<String> = Vec::new();
    let mut i: usize = 0;
    proof {
        assert(views_of(ls@).take(0) =~= Seq::<Seq<char>>::empty());
        assert(out.deep_view() =~= spec_parse_lspci(views_of(ls@).take(0)));
    }
    while i < n
        invariant
            0 <= i <= n,
            n == ls@.len(),
            views_of(ls@).len() == n,
            views_of(ls@) == spec_lines(cv@),
            cv@ == output@,
            out.deep_view() == spec_parse_lspci(views_of(ls@).take(i as int)),
        decreases n - i,
    {
        proof {
            assert(views_of(ls@).take(i + 1).drop_last() =~= views_of(ls@).take(i as int));
            assert(views_of(ls@).take(i + 1).last() == views_of(ls@)[i as int]);
            assert(views_of(ls@)[i as int] == ls@[i as int]@);
        }
        if gpu_class_match(ls[i].as_slice()) {
            let entry = lspci_entry(ls[i].as_slice());
            let s = chars_to_string(entry.as_slice());
            proof {
                assert(out.deep_view().push(s@) =~= spec_parse_lspci(
                    views_of(ls@).take(i + 1),
                ));
            }
            out.push(s);
        }
        i = i + 1;
    }
    proof {
        assert(views_of(ls@).take(n as int) =~= views_of(ls@));
    }
    out
}

/// The driver named by the last `DRIVER=` line of a device's description
/// file, trimmed.
pub open spec fn spec_uevent_driver(ls: Seq<Seq<char>>) -> Option<Seq<char>>
    decreases ls.len(),
{
    if ls.len() == 0 {
        None
    } else if spec_starts_with(ls.last(), "DRIVER="@) {
        Some(spec_trim(ls.last().skip(7)))
    } else {
        spec_uevent_driver(ls.drop_last())
    }
}

/// Read the driver name from a device description file.
pub fn uevent_driver(content: &str) -> (r: Option<String>)
    ensures
        r.deep_view() == spec_uevent_driver(spec_lines(content@)),
{
    let cv = to_chars(content);
    let ls = lines(cv.as_slice());
    let prefix = to_chars("DRIVER=");
    let n: usize = ls.len();
    let mut cur: Option<String> = None;
    let mut i: usize = 0;
    proof {
        reveal_strlit("DRIVER=");
        assert(views_of(ls@).take(0) =~= Seq::<Seq<char>>::empty());
    }
    while i < n
        invariant
            0 <= i <= n,
            n == ls@.len(),
            views_of(ls@).len() == n,
            prefix@ == "DRIVER="@,
            prefix@.len() == 7,
            cur.deep_view() == spec_uevent_driver(views_of(ls@).take(i as int)),
        decreases n - i,
    {
        let line: &Vec<char> = &ls[i];
        proof {
            assert(views_of(ls@).take(i + 1).drop_last() =~= views_of(ls@).take(i as int));
            assert(views_of(ls@).take(i + 1).last() == views_of(ls@)[i as int]);
            assert(views_of(ls@)[i as int] == line@);
        }
        if starts_with(line.as_slice(), prefix.as_slice()) {
            let rest = vstd::slice::slice_subrange(line.as_slice(), 7, line.len());
            proof {
                assert(rest@ =~= line@.skip(7));
            }
            let value = trim(rest);
            cur = Some(chars_to_string(value));
        }
        i = i + 1;
    }
    proof {
        assert(views_of(ls@).take(n as int) =~= views_of(ls@));
    }
    cur
}

/// The GPU driver names drawn from device description files, first
/// occurrence kept and duplicates dropped.
pub open spec fn spec_drm_gpus(uevents: Seq<Seq<char>>) -> Seq<Seq<char>>
    decreases uevents.len(),
{
    if uevents.len() == 0 {
        Seq::empty()
    } else {
        let prev = spec_drm_gpus(uevents.drop_last());
        match spec_uevent_driver(spec_lines(uevents.last())) {
            Some(d) => if prev.contains(d) {
                prev
            } else {
                prev.push(d)
            },
            None => prev,
        }
    }
}

/// Is a string already among the collected values?
fn vec_contains_str(v: &Vec<String>, s: &String) -> (r: bool)
    ensures
        r == v.deep_view().contains(s@),
{
    let n: usize = v.len();
    let mut i: usize = 0;
    while i < n
        invariant
            0 <= i <= n,
            n == v@.len(),
            v.deep_view().len() == n,
            forall|k: int| 0 <= k < i ==> v.deep_view()[k] != s@,
        decreases n - i,
    {
        if crate::text::str_eq(v[i].as_str(), s.as_str()) {
            proof {
                assert(v.deep_view()[i as int] == s@);
            }
            return true;
        }
        i = i + 1;
    }
    false
}

/// The detected GPU list: the PCI-enumeration output when the utility ran,
/// else the deduplicated driver names of the device-class directory tree.
pub open spec fn spec_detect_gpus(
    lspci: Option<Seq<char>>,
    uevents: Seq<Seq<char>>,
) -> Seq<Seq<char>> {
    match lspci {
        Some(o) => spec_parse_lspci(spec_lines(o)),
        None => spec_drm_gpus(uevents),
    }
}

/// Detect the GPU list from its two sources.
pub fn detect_gpus(lspci: Option<&String>, uevents: &Vec<String>) -> (r: Vec<String>)
    ensures
        r.deep_view() == spec_detect_gpus(lspci.deep_view(), uevents.deep_view()),
{
    match lspci {
        Some(o) => parse_lspci_gpus(o.as_str()),
        None => {
            let n: usize = uevents.len();
            let mut out: Vec<String> = Vec::new();
            let mut i: usize = 0;
            proof {
                assert(uevents.deep_view().take(0) =~= Seq::<Seq<char>>::empty());
                assert(out.deep_view() =~= spec_drm_gpus(uevents.deep_view().take(0)));
            }
            while i < n
                invariant
                    0 <= i <= n,
                    n == uevents@.len(),
                    uevents.deep_view().len() == n,
                    out.deep_view() == spec_drm_gpus(uevents.deep_view().take(i as int)),
                decreases n - i,
            {
                proof {
                    assert(uevents.deep_view().take(i + 1).drop_last() =~= uevents.deep_view()
                        .take(i as int));
                    assert(uevents.deep_view().take(i + 1).last() == uevents.deep_view()[
                        i as int
                    ]);
                    assert(uevents.deep_view()[i as int] == uevents@[i as int]@);
                }
                match uevent_driver(uevents[i].as_str()) {
                    Some(d) => {
                        if !vec_contains_str(&out, &d) {
                            proof {
                                assert(out.deep_view().push(d@) =~= spec_drm_gpus(
                                    uevents.deep_view().take(i + 1),
                                ));
                            }
                            out.push(d);
                        }
                    },
                    None => {},
                }
                i = i + 1;
            }
            proof {
                assert(uevents.deep_view().take(n as int) =~= uevents.deep_view());
            }
            out
        },
    }
}

} // verus!

verus! {

/// Number of lines equal to the given text.
pub open spec fn spec_count_lines_eq(ls: Seq<Seq<char>>, target: Seq<char>) -> int
    decreases ls.len(),
{
    if ls.len() == 0 {
        0
    } else {
        spec_count_lines_eq(ls.drop_last(), target) + if ls.last() == target {
            1int
        } else {
            0int
        }
    }
}

/// Number of lines that are non-empty after trimming.
pub open spec fn spec_count_nonempty(ls: Seq<Seq<char>>) -> int
    decreases ls.len(),
{
    if ls.len() == 0 {
        0
    } else {
        spec_count_nonempty(ls.drop_last()) + if spec_trim(ls.last()).len() > 0 {
            1int
        } else {
            0int
        }
    }
}

/// The installed-entry count of a status-file manager: lines stating an
/// installed status.
pub open spec fn spec_count_status(content: Seq<char>) -> int {
    spec_count_lines_eq(spec_lines(content), "Status: install ok installed"@)
}

/// Count the installed entries of a status-file package database.
pub fn count_status_lines(content: &str) -> (r: usize)
    ensures
        r == spec_count_status(content@),
{
    let cv = to_chars(content);
    let ls = lines(cv.as_slice());
    let target = to_chars("Status: install ok installed");
    let n: usize = ls.len();
    let mut count: usize = 0;
    let mut i: usize = 0;
    proof {
        assert(views_of(ls@).take(0) =~= Seq::<Seq<char>>::empty());
    }
    while i < n
        invariant
            0 <= i <= n,
            n == ls@.len(),
            views_of(ls@).len() == n,
            target@ == "Status: install ok installed"@,
            count <= i,
            count == spec_count_lines_eq(views_of(ls@).take(i as int), target@),
        decreases n - i,
    {
        proof {
            assert(views_of(ls@).take(i + 1).drop_last() =~= views_of(ls@).take(i as int));
            assert(views_of(ls@).take(i + 1).last() == views_of(ls@)[i as int]);
            assert(views_of(ls@)[i as int] == ls@[i as int]@);
        }
        if slice_eq(ls[i].as_slice(), target.as_slice()) {
            count = count + 1;
        }
        i = i + 1;
    }
    proof {
        assert(views_of(ls@).take(n as int) =~= views_of(ls@));
    }
    count
}

/// Count the lines of a listing that are non-empty after trimming.
pub fn count_nonempty_lines(content: &str) -> (r: usize)
    ensures
        r == spec_count_nonempty(spec_lines(content@)),
{
    let cv = to_chars(content);
    let ls = lines(cv.as_slice());
    let n: usize = ls.len();
    let mut count: usize = 0;
    let mut i: usize = 0;
    proof {
        assert(views_of(ls@).take(0) =~= Seq::<Seq<char>>::empty());
    }
    while i < n
        invariant
            0 <= i <= n,
            n == ls@.len(),
            views_of(ls@).len() == n,
            count <= i,
            count == spec_count_nonempty(views_of(ls@).take(i as int)),
        decreases n - i,
    {
        proof {
            assert(views_of(ls@).take(i + 1).drop_last() =~= views_of(ls@).take(i as int));
            assert(views_of(ls@).take(i + 1).last() == views_of(ls@)[i as int]);
            assert(views_of(ls@)[i as int] == ls@[i as int]@);
        }
        let t = trim(ls[i].as_slice());
        if t.len() > 0 {
            count = count + 1;
        }
        i = i + 1;
    }
    proof {
        assert(views_of(ls@).take(n as int) =~= views_of(ls@));
    }
    count
}

/// The non-empty lines of a listing after its header line.
pub open spec fn spec_count_tail_nonempty(content: Seq<char>) -> int {
    let ls = spec_lines(content);
    if ls.len() > 0 {
        spec_count_nonempty(ls.drop_first())
    } else {
        0
    }
}

/// Count the non-empty lines of a listing, skipping one header line.
pub fn count_lines_after_header(content: &str) -> (r: usize)
    ensures
        r == spec_count_tail_nonempty(content@),
{
    let cv = to_chars(content);
    let ls = lines(cv.as_slice());
    let n: usize = ls.len();
    if n == 0 {
        return 0;
    }
    let mut count: usize = 0;
    let mut i: usize = 1;
    proof {
        assert(views_of(ls@).drop_first().take(0) =~= Seq::<Seq<char>>::empty());
    }
    while i < n
        invariant
            1 <= i <= n,
            n == ls@.len(),
            n >= 1,
            views_of(ls@).len() == n,
            count <= i,
            count == spec_count_nonempty(views_of(ls@).drop_first().take(i - 1)),
        decreases n - i,
    {
        proof {
            let tail = views_of(ls@).drop_first();
            assert(tail.take(i as int).drop_last() =~= tail.take(i - 1));
            assert(tail.take(i as int).last() == tail[i - 1]);
            assert(tail[i - 1] == views_of(ls@)[i as int]);
            assert(views_of(ls@)[i as int] == ls@[i as int]@);
        }
        let t = trim(ls[i].as_slice());
        if t.len() > 0 {
            count = count + 1;
        }
        i = i + 1;
    }
    proof {
        assert(views_of(ls@).drop_first().take(n - 1) =~= views_of(ls@).drop_first());
    }
    count
}

/// Clamp an entry count into the registry's 32-bit package counter.
pub fn clamp_u32(n: usize) -> (r: u32)
    ensures
        r as int == if n <= u32::MAX as int {
            n as int
        } else {
            u32::MAX as int
        },
{
    if n <= u32::MAX as usize {
        n as u32
    } else {
        u32::MAX
    }
}

/// One detected package manager: its display name and how many entries it
/// reported.
#[derive(Debug, Clone)]
pub struct PkgEntry {
    pub name: String,
    pub count: u32,
}

/// The mathematical view of a manager list: name and count pairs.
pub open spec fn pkg_views(s: Seq<PkgEntry>) -> Seq<(Seq<char>, u32)> {
    s.map_values(|e: PkgEntry| (e.name@, e.count))
}

/// The sum of all reported counts.
pub open spec fn spec_pkg_total(s: Seq<(Seq<char>, u32)>) -> int
    decreases s.len(),
{
    if s.len() == 0 {
        0
    } else {
        spec_pkg_total(s.drop_last()) + s.last().1
    }
}

/// The label fragment of one manager: `<count> (<name>)`.
pub open spec fn spec_pkg_fragment(e: (Seq<char>, u32)) -> Seq<char> {
    crate::numerals::spec_fmt_nat(e.1 as int) + seq![' ', '('] + e.0 + seq![')']
}

/// The label fragments of the managers that reported entries, in probe
/// order.
pub open spec fn spec_pkg_fragments(s: Seq<(Seq<char>, u32)>) -> Seq<Seq<char>>
    decreases s.len(),
{
    if s.len() == 0 {
        Seq::empty()
    } else {
        let prev = spec_pkg_fragments(s.drop_last());
        if s.last().1 > 0 {
            prev.push(spec_pkg_fragment(s.last()))
        } else {
            prev
        }
    }
}

/// Pieces joined by a separator.
pub open spec fn spec_join(parts: Seq<Seq<char>>, sep: Seq<char>) -> Seq<char>
    decreases parts.len(),
{
    if parts.len() == 0 {
        Seq::empty()
    } else if parts.len() == 1 {
        parts[0]
    } else {
        spec_join(parts.drop_last(), sep) + sep + parts.last()
    }
}

/// The human-readable package summary: the non-zero managers' fragments
/// joined by a comma.
pub open spec fn spec_pkg_label(s: Seq<(Seq<char>, u32)>) -> Seq<char> {
    spec_join(spec_pkg_fragments(s), seq![',', ' '])
}

/// Aggregate the managers' reports: the total entry count, saturating at
/// the counter's maximum, and the joined label of the non-zero managers.
pub fn aggregate_packages(entries: &Vec<PkgEntry>) -> (r: (u32, String))
    ensures
        r.0 as int == if spec_pkg_total(pkg_views(entries@)) <= u32::MAX as int {
            spec_pkg_total(pkg_views(entries@))
        } else {
            u32::MAX as int
        },
        r.1@ == spec_pkg_label(pkg_views(entries@)),
{
    let n: usize = entries.len();
    let mut total: u32 = 0;
    let mut label: Vec<char> = Vec::new();
    let mut any: bool = false;
    let mut i: usize = 0;
    proof {
        assert(pkg_views(entries@).take(0) =~= Seq::<(Seq<char>, u32)>::empty());
    }
    while i < n
        invariant
            0 <= i <= n,
            n == entries@.len(),
            pkg_views(entries@).len() == n,
            total as int == (if spec_pkg_total(pkg_views(entries@).take(i as int)) <= u32::MAX
                as int {
                spec_pkg_total(pkg_views(entries@).take(i as int))
            } else {
                u32::MAX as int
            }),
            any == (spec_pkg_fragments(pkg_views(entries@).take(i as int)).len() > 0),
            label@ == spec_join(
                spec_pkg_fragments(pkg_views(entries@).take(i as int)),
                seq![',', ' '],
            ),
        decreases n - i,
    {
        let e: &PkgEntry = &entries[i];
        proof {
            assert(pkg_views(entries@).take(i + 1).drop_last() =~= pkg_views(entries@).take(
                i as int,
            ));
            assert(pkg_views(entries@).take(i + 1).last() == pkg_views(entries@)[i as int]);
            let ge = entries@[i as int];
            assert(pkg_views(entries@)[i as int] == (ge.name@, ge.count));
        }
        if e.count > 0 {
            total = total.saturating_add(e.count);
            let mut frag = crate::numerals::fmt_u64(e.count as u64);
            frag.push(' ');
            frag.push('(');
            let name_chars = to_chars(e.name.as_str());
            crate::text::push_chars(&mut frag, name_chars.as_slice());
            frag.push(')');
            proof {
                assert(frag@ =~= spec_pkg_fragment(pkg_views(entries@)[i as int]));
                let fs = spec_pkg_fragments(pkg_views(entries@).take(i as int));
                let f = spec_pkg_fragment(pkg_views(entries@)[i as int]);
                assert(spec_pkg_fragments(pkg_views(entries@).take(i + 1)) =~= fs.push(f));
                assert(fs.push(f).drop_last() =~= fs);
                assert(fs.push(f).last() == f);
            }
            if any {
                label.push(',');
                label.push(' ');
                crate::text::push_chars(&mut label, frag.as_slice());
            } else {
                crate::text::push_chars(&mut label, frag.as_slice());
                any = true;
            }
            proof {
                let fs = spec_pkg_fragments(pkg_views(entries@).take(i as int));
                let f = spec_pkg_fragment(pkg_views(entries@)[i as int]);
                if fs.len() == 0 {
                    assert(label@ =~= f);
                } else {
                    assert(label@ =~= spec_join(fs, seq![',', ' ']) + seq![',', ' '] + f);
                }
            }
        } else {
            proof {
                assert(spec_pkg_fragments(pkg_views(entries@).take(i + 1)) =~=
                    spec_pkg_fragments(pkg_views(entries@).take(i as int)));
            }
        }
        i = i + 1;
    }
    proof {
        assert(pkg_views(entries@).take(n as int) =~= pkg_views(entries@));
    }
    (total, chars_to_string(label.as_slice()))
}

} // verus!

verus! {

/// The value of a `key: value` utility line: the trimmed text between the
/// first and second colon.
pub open spec fn spec_parse_colon_value(s: Seq<char>) -> Option<Seq<char>> {
    let ps = crate::text::spec_split(s, ':');
    if ps.len() >= 2 {
        Some(spec_trim(ps[1]))
    } else {
        None
    }
}

/// Read the value of a `key: value` line, as the sysctl-style utilities
/// print one.
pub fn parse_colon_value(s: &str) -> (r: Option<String>)
    ensures
        r.deep_view() == spec_parse_colon_value(s@),
{
    let cv = to_chars(s);
    let ps = crate::text::split_all(cv.as_slice(), ':');
    if ps.len() >= 2 {
        proof {
            assert(views_of(ps@)[1] == ps@[1]@);
        }
        let t = trim(ps[1].as_slice());
        Some(chars_to_string(t))
    } else {
        None
    }
}

/// The memory figures of one data row of the columnar CSV listing: free
/// and total kibibytes in the second and third comma-separated fields.
pub open spec fn spec_csv_mem_row(l: Seq<char>) -> Option<(u64, u64)> {
    let ps = crate::text::spec_split(l, ',');
    if ps.len() >= 3 {
        match (spec_parse_u64(ps[1]), spec_parse_u64(ps[2])) {
            (Some(free), Some(total)) => Some((free, total)),
            _ => None,
        }
    } else {
        None
    }
}

/// The memory figures in mebibytes from a columnar CSV listing: the first
/// non-empty data row after the header with two numeric fields decides;
/// used is total minus free, saturating at zero.
pub open spec fn spec_parse_csv_memory(ls: Seq<Seq<char>>) -> Option<(u64, u64)>
    decreases ls.len(),
{
    if ls.len() == 0 {
        None
    } else {
        match spec_csv_row_value(ls[0]) {
            Some(tu) => Some(tu),
            None => spec_parse_csv_memory(ls.drop_first()),
        }
    }
}

/// The total and used mebibytes a usable CSV data row yields.
pub open spec fn spec_csv_row_value(l: Seq<char>) -> Option<(u64, u64)> {
    if spec_trim(l).len() > 0 {
        match spec_csv_mem_row(l) {
            Some((free, total)) => Some(
                (
                    (total as int / 1024) as u64,
                    if free <= total {
                        ((total as int - free) / 1024) as u64
                    } else {
                        0u64
                    },
                ),
            ),
            None => None,
        }
    } else {
        None
    }
}

/// Read one data row of the columnar CSV listing.
fn csv_row_value(l: &[char]) -> (r: Option<(u64, u64)>)
    ensures
        r == spec_csv_row_value(l@),
{
    let t = trim(l);
    if t.len() == 0 {
        return None;
    }
    let ps = crate::text::split_all(l, ',');
    if ps.len() >= 3 {
        proof {
            assert(views_of(ps@)[1] == ps@[1]@);
            assert(views_of(ps@)[2] == ps@[2]@);
        }
        let free = parse_u64(ps[1].as_slice());
        let total = parse_u64(ps[2].as_slice());
        match (free, total) {
            (Some(free), Some(total)) => {
                let used: u64 = if free <= total {
                    (total - free) / 1024
                } else {
                    0
                };
                Some((total / 1024, used))
            },
            _ => None,
        }
    } else {
        None
    }
}

/// Parse the memory utility's columnar CSV output, skipping its header
/// line.
pub fn parse_csv_memory(content: &str) -> (r: Option<(u64, u64)>)
    ensures
        ({
            let ls = spec_lines(content@);
            if ls.len() > 0 {
                r == spec_parse_csv_memory(ls.drop_first())
            } else {
                r is None
            }
        }),
{
    let cv = to_chars(content);
    let ls = lines(cv.as_slice());
    let n: usize = ls.len();
    if n == 0 {
        return None;
    }
    let mut i: usize = 1;
    proof {
        assert(views_of(ls@).drop_first().skip(0) =~= views_of(ls@).drop_first());
    }
    while i < n
        invariant
            1 <= i <= n,
            n == ls@.len(),
            n >= 1,
            views_of(ls@).len() == n,
            views_of(ls@) == spec_lines(cv@),
            cv@ == content@,
            spec_parse_csv_memory(views_of(ls@).drop_first()) == spec_parse_csv_memory(
                views_of(ls@).drop_first().skip(i - 1),
            ),
        decreases n - i,
    {
        proof {
            let tail = views_of(ls@).drop_first();
            assert(tail.skip(i - 1)[0] == tail[i - 1]);
            assert(tail[i - 1] == views_of(ls@)[i as int]);
            assert(views_of(ls@)[i as int] == ls@[i as int]@);
            assert(tail.skip(i - 1).drop_first() =~= tail.skip(i as int));
        }
        match csv_row_value(ls[i].as_slice()) {
            Some(tu) => {
                return Some(tu);
            },
            None => {},
        }
        i = i + 1;
    }
    proof {
        assert(views_of(ls@).drop_first().skip(n - 1) =~= Seq::<Seq<char>>::empty());
    }
    None
}

} // verus!

verus! {

/// The page count of the first statistics line that carries the label:
/// the line's last whitespace token, stripped of a trailing period.
pub open spec fn spec_vm_stat_field(ls: Seq<Seq<char>>, label: Seq<char>) -> Option<u64>
    decreases ls.len(),
{
    if ls.len() == 0 {
        None
    } else {
        match spec_vm_stat_line(ls[0], label) {
            Some(v) => Some(v),
            None => spec_vm_stat_field(ls.drop_first(), label),
        }
    }
}

/// The page count one statistics line yields for the label, if any.
pub open spec fn spec_vm_stat_line(l: Seq<char>, label: Seq<char>) -> Option<u64> {
    if crate::text::spec_contains(l, label) {
        let toks = crate::text::spec_split_ws(l);
        if toks.len() >= 1 {
            spec_parse_u64(spec_trim_char_end(toks.last(), '.'))
        } else {
            None
        }
    } else {
        None
    }
}

/// Read one statistics line for a labelled page count.
fn vm_stat_line(l: &[char], label: &[char]) -> (r: Option<u64>)
    ensures
        r == spec_vm_stat_line(l@, label@),
{
    if !crate::text::contains_sub(l, label) {
        return None;
    }
    let toks = crate::text::split_ws(l);
    let m: usize = toks.len();
    if m >= 1 {
        proof {
            assert(views_of(toks@)[m - 1] == toks@[m - 1]@);
            assert(views_of(toks@)[m - 1] == views_of(toks@).last());
        }
        parse_u64(trim_char_end(toks[m - 1].as_slice(), '.'))
    } else {
        None
    }
}

/// Scan the statistics lines for one labelled page count.
fn vm_stat_field(ls: &Vec<Vec<char>>, label: &[char]) -> (r: Option<u64>)
    ensures
        r == spec_vm_stat_field(views_of(ls@), label@),
{
    let n: usize = ls.len();
    let mut i: usize = 0;
    proof {
        assert(views_of(ls@).skip(0) =~= views_of(ls@));
    }
    while i < n
        invariant
            0 <= i <= n,
            n == ls@.len(),
            views_of(ls@).len() == n,
            spec_vm_stat_field(views_of(ls@), label@) == spec_vm_stat_field(
                views_of(ls@).skip(i as int),
                label@,
            ),
        decreases n - i,
    {
        proof {
            assert(views_of(ls@).skip(i as int)[0] == views_of(ls@)[i as int]);
            assert(views_of(ls@)[i as int] == ls@[i as int]@);
            assert(views_of(ls@).skip(i as int).drop_first() =~= views_of(ls@).skip(i + 1));
        }
        match vm_stat_line(ls[i].as_slice(), label) {
            Some(v) => {
                return Some(v);
            },
            None => {},
        }
        i = i + 1;
    }
    proof {
        assert(views_of(ls@).skip(n as int) =~= Seq::<Seq<char>>::empty());
    }
    None
}

/// The used memory in mebibytes from the page-statistics utility: active,
/// wired and compressor-occupied pages at 4096 bytes each; a missing
/// label counts as zero pages.
pub open spec fn spec_parse_vm_stat(content: Seq<char>) -> u64 {
    let ls = spec_lines(content);
    let active = match spec_vm_stat_field(ls, "Pages active:"@) {
        Some(v) => v as int,
        None => 0int,
    };
    let wired = match spec_vm_stat_field(ls, "Pages wired down:"@) {
        Some(v) => v as int,
        None => 0int,
    };
    let compressed = match spec_vm_stat_field(ls, "Pages occupied by compressor:"@) {
        Some(v) => v as int,
        None => 0int,
    };
    (((active + wired + compressed) * 4096) / 1024 / 1024) as u64
}

/// A page count at 4096 bytes per page is so many whole mebibytes.
proof fn lemma_pages_to_mib(pages: int)
    requires
        pages >= 0,
    ensures
        ((pages * 4096) / 1024 / 1024) == pages / 256,
        0 <= pages / 256 <= pages,
{
    vstd::arithmetic::div_mod::lemma_div_denominator(pages * 4096, 1024, 1024);
    vstd::arithmetic::div_mod::lemma_fundamental_div_mod(pages, 256);
    let q = pages / 256;
    let r = pages % 256;
    assert(pages * 4096 == q * (1024 * 1024) + r * 4096) by (nonlinear_arith)
        requires
            pages == 256 * q + r,
    ;
    vstd::arithmetic::div_mod::lemma_fundamental_div_mod_converse(
        pages * 4096,
        1048576int,
        q,
        r * 4096,
    );
    vstd::arithmetic::div_mod::lemma_div_is_ordered_by_denominator(pages, 1, 256);
    vstd::arithmetic::div_mod::lemma_div_by_multiple(pages, 1);
}

/// Parse the page-statistics utility's output into used mebibytes.
pub fn parse_vm_stat(content: &str) -> (r: u64)
    ensures
        r == spec_parse_vm_stat(content@),
{
    let cv = to_chars(content);
    let ls = lines(cv.as_slice());
    let active_l = to_chars("Pages active:");
    let wired_l = to_chars("Pages wired down:");
    let compressed_l = to_chars("Pages occupied by compressor:");
    let active: u64 = match vm_stat_field(&ls, active_l.as_slice()) {
        Some(v) => v,
        None => 0,
    };
    let wired: u64 = match vm_stat_field(&ls, wired_l.as_slice()) {
        Some(v) => v,
        None => 0,
    };
    let compressed: u64 = match vm_stat_field(&ls, compressed_l.as_slice()) {
        Some(v) => v,
        None => 0,
    };
    let ghost pages = active + wired + compressed;
    let qa: u64 = active / 256;
    let qw: u64 = wired / 256;
    let qc: u64 = compressed / 256;
    let rest: u64 = (active % 256 + wired % 256 + compressed % 256) / 256;
    proof {
        lemma_pages_to_mib(pages);
        vstd::arithmetic::div_mod::lemma_fundamental_div_mod(active as int, 256);
        vstd::arithmetic::div_mod::lemma_fundamental_div_mod(wired as int, 256);
        vstd::arithmetic::div_mod::lemma_fundamental_div_mod(compressed as int, 256);
        vstd::arithmetic::div_mod::lemma_fundamental_div_mod(
            active as int % 256 + wired as int % 256 + compressed as int % 256,
            256,
        );
        vstd::arithmetic::div_mod::lemma_fundamental_div_mod_converse(
            pages,
            256,
            qa + qw + qc + rest,
            (active as int % 256 + wired as int % 256 + compressed as int % 256) % 256,
        );
    }
    qa + qw + qc + rest
}

/// The GPU descriptions of the hardware-profile utility's output: the
/// trimmed remainder of every chipset line, in order.
pub open spec fn spec_profiler_gpus(ls: Seq<Seq<char>>) -> Seq<Seq<char>>
    decreases ls.len(),
{
    if ls.len() == 0 {
        Seq::empty()
    } else {
        let prev = spec_profiler_gpus(ls.drop_last());
        if spec_starts_with(ls.last(), "      Chipset Model: "@) {
            prev.push(spec_trim(ls.last().skip(21)))
        } else {
            prev
        }
    }
}

/// Parse the hardware-profile utility's output into GPU descriptions.
pub fn parse_profiler_gpus(output: &str) -> (r: Vec<String>)
    ensures
        r.deep_view() == spec_profiler_gpus(spec_lines(output@)),
{
    let cv = to_chars(output);
    let ls = lines(cv.as_slice());
    let prefix = to_chars("      Chipset Model: ");
    let n: usize = ls.len();
    let mut out: Vec<String> = Vec::new();
    let mut i: usize = 0;
    proof {
        reveal_strlit("      Chipset Model: ");
        assert(views_of(ls@).take(0) =~= Seq::<Seq<char>>::empty());
        assert(out.deep_view() =~= spec_profiler_gpus(views_of(ls@).take(0)));
    }
    while i < n
        invariant
            0 <= i <= n,
            n == ls@.len(),
            views_of(ls@).len() == n,
            views_of(ls@) == spec_lines(cv@),
            cv@ == output@,
            prefix@ == "      Chipset Model: "@,
            prefix@.len() == 21,
            out.deep_view() == spec_profiler_gpus(views_of(ls@).take(i as int)),
        decreases n - i,
    {
        let line: &Vec<char> = &ls[i];
        proof {
            assert(views_of(ls@).take(i + 1).drop_last() =~= views_of(ls@).take(i as int));
            assert(views_of(ls@).take(i + 1).last() == views_of(ls@)[i as int]);
            assert(views_of(ls@)[i as int] == line@);
        }
        if starts_with(line.as_slice(), prefix.as_slice()) {
            let rest = vstd::slice::slice_subrange(line.as_slice(), 21, line.len());
            proof {
                assert(rest@ =~= line@.skip(21));
            }
            let entry = chars_to_string(trim(rest));
            proof {
                assert(out.deep_view().push(entry@) =~= spec_profiler_gpus(
                    views_of(ls@).take(i + 1),
                ));
            }
            out.push(entry);
        }
        i = i + 1;
    }
    proof {
        assert(views_of(ls@).take(n as int) =~= views_of(ls@));
    }
    out
}

/// The geometry one hardware-profile line yields: the first and third
/// whitespace tokens after the resolution prefix, both numeric.
pub open spec fn spec_profiler_res_line(l: Seq<char>) -> Option<(u32, u32)> {
    if spec_starts_with(l, "          Resolution: "@) {
        let toks = crate::text::spec_split_ws(l.skip(22));
        if toks.len() >= 3 {
            match (spec_parse_u32(toks[0]), spec_parse_u32(toks[2])) {
                (Some(w), Some(h)) => Some((w, h)),
                _ => None,
            }
        } else {
            None
        }
    } else {
        None
    }
}

/// The geometry from the first usable resolution line of the
/// hardware-profile output.
pub open spec fn spec_parse_profiler_resolution(ls: Seq<Seq<char>>) -> Option<(u32, u32)>
    decreases ls.len(),
{
    if ls.len() == 0 {
        None
    } else {
        match spec_profiler_res_line(ls[0]) {
            Some(wh) => Some(wh),
            None => spec_parse_profiler_resolution(ls.drop_first()),
        }
    }
}

/// Read the geometry from one hardware-profile line.
fn profiler_res_line(l: &[char]) -> (r: Option<(u32, u32)>)
    ensures
        r == spec_profiler_res_line(l@),
{
    let prefix = to_chars("          Resolution: ");
    proof {
        reveal_strlit("          Resolution: ");
    }
    if !starts_with(l, prefix.as_slice()) {
        return None;
    }
    let n: usize = l.len();
    let rest = vstd::slice::slice_subrange(l, 22, n);
    proof {
        assert(rest@ =~= l@.skip(22));
    }
    let toks = crate::text::split_ws(rest);
    if toks.len() >= 3 {
        proof {
            assert(views_of(toks@)[0] == toks@[0]@);
            assert(views_of(toks@)[2] == toks@[2]@);
        }
        let w = parse_u32(toks[0].as_slice());
        let h = parse_u32(toks[2].as_slice());
        match (w, h) {
            (Some(w), Some(h)) => Some((w, h)),
            _ => None,
        }
    } else {
        None
    }
}

/// Parse the hardware-profile utility's output for the display geometry.
pub fn parse_profiler_resolution(content: &str) -> (r: Option<(u32, u32)>)
    ensures
        r == spec_parse_profiler_resolution(spec_lines(content@)),
{
    let cv = to_chars(content);
    let ls = lines(cv.as_slice());
    let n: usize = ls.len();
    let mut i: usize = 0;
    proof {
        assert(views_of(ls@).skip(0) =~= views_of(ls@));
    }
    while i < n
        invariant
            0 <= i <= n,
            n == ls@.len(),
            views_of(ls@).len() == n,
            views_of(ls@) == spec_lines(cv@),
            cv@ == content@,
            spec_parse_profiler_resolution(views_of(ls@)) == spec_parse_profiler_resolution(
                views_of(ls@).skip(i as int),
            ),
        decreases n - i,
    {
        proof {
            assert(views_of(ls@).skip(i as int)[0] == views_of(ls@)[i as int]);
            assert(views_of(ls@)[i as int] == ls@[i as int]@);
            assert(views_of(ls@).skip(i as int).drop_first() =~= views_of(ls@).skip(i + 1));
        }
        match profiler_res_line(ls[i].as_slice()) {
            Some(wh) => {
                return Some(wh);
            },
            None => {},
        }
        i = i + 1;
    }
    proof {
        assert(views_of(ls@).skip(n as int) =~= Seq::<Seq<char>>::empty());
    }
    None
}

/// The registry-based platform's kernel label: the build number, stripped
/// of trailing string terminators, under its fixed caption.
pub open spec fn spec_format_nt_kernel(build: Seq<char>) -> Seq<char> {
    "Windows NT Build "@ + spec_trim_char_end(build, '\u{0}')
}

/// Format the registry-based platform's kernel version label.
pub fn format_nt_kernel(build: &str) -> (r: String)
    ensures
        r@ == spec_format_nt_kernel(build@),
{
    let bv = to_chars(build);
    let trimmed = trim_char_end(bv.as_slice(), '\u{0}');
    let mut out = to_chars("Windows NT Build ");
    crate::text::push_chars(&mut out, trimmed);
    chars_to_string(out.as_slice())
}

} // verus!
