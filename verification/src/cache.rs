//! The cache codec: a flat `key=value` text image of a fact registry.
//!
//! Writing puts one line per scalar fact plus one `gpu=` line per GPU
//! entry.  Reading folds the lines back into a registry, ignoring unknown
//! keys, and re-derives the memory and uptime figures live instead of
//! trusting cached values; the caller hands those three live figures in.
//! The round-trip law at the end proves that reading back a written
//! registry reproduces every cached field exactly.

use vstd::prelude::*;

use crate::info::{spec_empty_registry, RegView, SystemInfo};
use crate::numerals::{
    fmt_u64, lemma_parse_fmt_u32, parse_u32, spec_fmt_nat, spec_parse_u32,
};
use crate::text::{
    chars_to_string, lemma_find_char, lines, push_chars, slice_eq, spec_find_char, spec_lines,
    spec_split_once, spec_strip_cr, split_once, to_chars, views_of,
};

verus! {

/// One cache line: `key=value` and a line feed.
pub open spec fn spec_cache_line(k: Seq<char>, v: Seq<char>) -> Seq<char> {
    k + seq!['='] + v + seq!['\n']
}

/// The `gpu=` lines of a GPU list, in order.
pub open spec fn spec_gpu_lines(gpus: Seq<Seq<char>>) -> Seq<char>
    decreases gpus.len(),
{
    if gpus.len() == 0 {
        Seq::empty()
    } else {
        spec_cache_line("gpu"@, gpus[0]) + spec_gpu_lines(gpus.drop_first())
    }
}

/// The full text image of a registry.
pub open spec fn spec_encode_cache(r: RegView) -> Seq<char> {
    spec_cache_line("user"@, r.user) + spec_cache_line("host"@, r.host) + spec_cache_line(
        "version_name"@,
        r.os_name,
    ) + spec_cache_line("host_model"@, r.model) + spec_cache_line("kernel"@, r.kernel)
        + spec_cache_line("cpu"@, r.cpu_model) + spec_cache_line(
        "screen_width"@,
        spec_fmt_nat(r.screen_width as int),
    ) + spec_cache_line("screen_height"@, spec_fmt_nat(r.screen_height as int)) + spec_cache_line(
        "shell"@,
        r.shell,
    ) + spec_cache_line("pkgs"@, spec_fmt_nat(r.pkgs as int)) + spec_cache_line(
        "pkgman_name"@,
        r.pkgman_name,
    ) + spec_gpu_lines(r.gpu_models)
}

/// Append one cache line.
fn push_line(out: &mut Vec<char>, k: &str, v: &[char])
    ensures
        final(out)@ == old(out)@ + spec_cache_line(k@, v@),
{
    let kv = to_chars(k);
    push_chars(out, kv.as_slice());
    out.push('=');
    push_chars(out, v);
    out.push('\n');
    proof {
        assert(final(out)@ =~= old(out)@ + spec_cache_line(k@, v@));
    }
}

/// Extending a GPU list appends one `gpu=` line to its text.
proof fn lemma_gpu_lines_snoc(gpus: Seq<Seq<char>>, g: Seq<char>)
    ensures
        spec_gpu_lines(gpus.push(g)) == spec_gpu_lines(gpus) + spec_cache_line("gpu"@, g),
    decreases gpus.len(),
{
    reveal_with_fuel(spec_gpu_lines, 2);
    if gpus.len() == 0 {
        assert(gpus.push(g).drop_first() =~= gpus);
        assert(gpus.push(g)[0] == g);
        assert(spec_gpu_lines(gpus.push(g)) =~= spec_gpu_lines(gpus) + spec_cache_line(
            "gpu"@,
            g,
        ));
    } else {
        lemma_gpu_lines_snoc(gpus.drop_first(), g);
        assert(gpus.push(g).drop_first() =~= gpus.drop_first().push(g));
        assert(gpus.push(g)[0] == gpus[0]);
        assert(spec_gpu_lines(gpus) + spec_cache_line("gpu"@, g) =~= spec_cache_line(
            "gpu"@,
            gpus[0],
        ) + (spec_gpu_lines(gpus.drop_first()) + spec_cache_line("gpu"@, g)));
    }
}

/// Write a registry as its cache text.
pub fn encode_cache(info: &SystemInfo) -> (r: String)
    ensures
        r@ == spec_encode_cache(info@),
{
    let mut out: Vec<char> = Vec::new();
    let user = to_chars(info.user.as_str());
    push_line(&mut out, "user", user.as_slice());
    let host = to_chars(info.host.as_str());
    push_line(&mut out, "host", host.as_slice());
    let os_name = to_chars(info.os_name.as_str());
    push_line(&mut out, "version_name", os_name.as_slice());
    let model = to_chars(info.model.as_str());
    push_line(&mut out, "host_model", model.as_slice());
    let kernel = to_chars(info.kernel.as_str());
    push_line(&mut out, "kernel", kernel.as_slice());
    let cpu = to_chars(info.cpu_model.as_str());
    push_line(&mut out, "cpu", cpu.as_slice());
    let width = fmt_u64(info.screen_width as u64);
    push_line(&mut out, "screen_width", width.as_slice());
    let height = fmt_u64(info.screen_height as u64);
    push_line(&mut out, "screen_height", height.as_slice());
    let shell = to_chars(info.shell.as_str());
    push_line(&mut out, "shell", shell.as_slice());
    let pkgs = fmt_u64(info.pkgs as u64);
    push_line(&mut out, "pkgs", pkgs.as_slice());
    let pkgman = to_chars(info.pkgman_name.as_str());
    push_line(&mut out, "pkgman_name", pkgman.as_slice());
    let ghost fixed = out@;
    let n: usize = info.gpu_models.len();
    let mut i: usize = 0;
    proof {
        assert(info@.gpu_models.take(0) =~= Seq::<Seq<char>>::empty());
        assert(out@ =~= fixed + spec_gpu_lines(info@.gpu_models.take(0)));
    }
    while i < n
        invariant
            0 <= i <= n,
            n == info.gpu_models@.len(),
            info@.gpu_models.len() == n,
            out@ == fixed + spec_gpu_lines(info@.gpu_models.take(i as int)),
        decreases n - i,
    {
        proof {
            assert(info@.gpu_models[i as int] == info.gpu_models@[i as int]@);
            assert(info@.gpu_models.take(i + 1) =~= info@.gpu_models.take(i as int).push(
                info@.gpu_models[i as int],
            ));
            lemma_gpu_lines_snoc(info@.gpu_models.take(i as int), info@.gpu_models[i as int]);
        }
        let g = to_chars(info.gpu_models[i].as_str());
        push_line(&mut out, "gpu", g.as_slice());
        i = i + 1;
    }
    proof {
        assert(info@.gpu_models.take(n as int) =~= info@.gpu_models);
    }
    chars_to_string(out.as_slice())
}

/// Fold one cache line into a registry under construction.
pub open spec fn spec_apply_cache_line(acc: RegView, l: Seq<char>) -> RegView {
    match spec_split_once(l, '=') {
        None => acc,
        Some((k, v)) => {
            if k == "user"@ {
                RegView { user: v, ..acc }
            } else if k == "host"@ {
                RegView { host: v, ..acc }
            } else if k == "version_name"@ {
                RegView { os_name: v, ..acc }
            } else if k == "host_model"@ {
                RegView { model: v, ..acc }
            } else if k == "kernel"@ {
                RegView { kernel: v, ..acc }
            } else if k == "cpu"@ {
                RegView { cpu_model: v, ..acc }
            } else if k == "gpu"@ {
                RegView { gpu_models: acc.gpu_models.push(v), ..acc }
            } else if k == "screen_width"@ {
                RegView {
                    screen_width: match spec_parse_u32(v) {
                        Some(x) => x,
                        None => 0u32,
                    },
                    ..acc
                }
            } else if k == "screen_height"@ {
                RegView {
                    screen_height: match spec_parse_u32(v) {
                        Some(x) => x,
                        None => 0u32,
                    },
                    ..acc
                }
            } else if k == "shell"@ {
                RegView { shell: v, ..acc }
            } else if k == "pkgs"@ {
                RegView {
                    pkgs: match spec_parse_u32(v) {
                        Some(x) => x,
                        None => 0u32,
                    },
                    ..acc
                }
            } else if k == "pkgman_name"@ {
                RegView { pkgman_name: v, ..acc }
            } else {
                acc
            }
        },
    }
}

/// Fold a line sequence into a registry.
pub open spec fn spec_decode_lines(ls: Seq<Seq<char>>, acc: RegView) -> RegView
    decreases ls.len(),
{
    if ls.len() == 0 {
        acc
    } else {
        spec_decode_lines(ls.drop_first(), spec_apply_cache_line(acc, ls[0]))
    }
}

/// What reading a cache text yields: the folded lines over the empty
/// registry, with the memory and uptime figures taken live.
pub open spec fn spec_decode_cache(
    content: Seq<char>,
    ram_total: u64,
    ram_used: u64,
    uptime: u64,
) -> RegView {
    RegView {
        ram_total: ram_total,
        ram_used: ram_used,
        uptime: uptime,
        ..spec_decode_lines(spec_lines(content), spec_empty_registry())
    }
}

/// Folding one more line applies it to the folded prefix.
proof fn lemma_decode_lines_snoc(ls: Seq<Seq<char>>, l: Seq<char>, acc: RegView)
    ensures
        spec_decode_lines(ls.push(l), acc) == spec_apply_cache_line(
            spec_decode_lines(ls, acc),
            l,
        ),
    decreases ls.len(),
{
    reveal_with_fuel(spec_decode_lines, 2);
    if ls.len() == 0 {
        assert(ls.push(l).drop_first() =~= ls);
        assert(ls.push(l)[0] == l);
    } else {
        assert(ls.push(l)[0] == ls[0]);
        assert(ls.push(l).drop_first() =~= ls.drop_first().push(l));
        lemma_decode_lines_snoc(ls.drop_first(), l, spec_apply_cache_line(acc, ls[0]));
    }
}

/// Apply one parsed cache line to a registry under construction.
fn apply_cache_line(info: &mut SystemInfo, line: &[char])
    ensures
        final(info)@ == spec_apply_cache_line(old(info)@, line@),
{
    let ghost before = info@;
    match split_once(line, '=') {
        None => {
            proof {
                assert(final(info)@ =~= spec_apply_cache_line(before, line@));
            }
        },
        Some((k, v)) => {
            let user_k = to_chars("user");
            let host_k = to_chars("host");
            let version_k = to_chars("version_name");
            let model_k = to_chars("host_model");
            let kernel_k = to_chars("kernel");
            let cpu_k = to_chars("cpu");
            let gpu_k = to_chars("gpu");
            let width_k = to_chars("screen_width");
            let height_k = to_chars("screen_height");
            let shell_k = to_chars("shell");
            let pkgs_k = to_chars("pkgs");
            let pkgman_k = to_chars("pkgman_name");
            if slice_eq(k, user_k.as_slice()) {
                info.user = chars_to_string(v);
            } else if slice_eq(k, host_k.as_slice()) {
                info.host = chars_to_string(v);
            } else if slice_eq(k, version_k.as_slice()) {
                info.os_name = chars_to_string(v);
            } else if slice_eq(k, model_k.as_slice()) {
                info.model = chars_to_string(v);
            } else if slice_eq(k, kernel_k.as_slice()) {
                info.kernel = chars_to_string(v);
            } else if slice_eq(k, cpu_k.as_slice()) {
                info.cpu_model = chars_to_string(v);
            } else if slice_eq(k, gpu_k.as_slice()) {
                info.gpu_models.push(chars_to_string(v));
            } else if slice_eq(k, width_k.as_slice()) {
                info.screen_width = match parse_u32(v) {
                    Some(x) => x,
                    None => 0,
                };
            } else if slice_eq(k, height_k.as_slice()) {
                info.screen_height = match parse_u32(v) {
                    Some(x) => x,
                    None => 0,
                };
            } else if slice_eq(k, shell_k.as_slice()) {
                info.shell = chars_to_string(v);
            } else if slice_eq(k, pkgs_k.as_slice()) {
                info.pkgs = match parse_u32(v) {
                    Some(x) => x,
                    None => 0,
                };
            } else if slice_eq(k, pkgman_k.as_slice()) {
                info.pkgman_name = chars_to_string(v);
            }
            proof {
                assert(final(info)@ =~= spec_apply_cache_line(before, line@));
            }
        },
    }
}

/// Read a cache text back into a registry; the memory and uptime figures
/// are handed in live and never taken from the text.
pub fn decode_cache(content: &str, ram_total: u64, ram_used: u64, uptime: u64) -> (r: SystemInfo)
    ensures
        r@ == spec_decode_cache(content@, ram_total, ram_used, uptime),
{
    let mut info = SystemInfo::default();
    let cv = to_chars(content);
    let ls = lines(cv.as_slice());
    let n: usize = ls.len();
    let mut i: usize = 0;
    proof {
        assert(views_of(ls@).take(0) =~= Seq::<Seq<char>>::empty());
    }
    while i < n
        invariant
            0 <= i <= n,
            n == ls@.len(),
            views_of(ls@).len() == n,
            info@ == spec_decode_lines(views_of(ls@).take(i as int), spec_empty_registry()),
        decreases n - i,
    {
        proof {
            assert(views_of(ls@).take(i + 1) =~= views_of(ls@).take(i as int).push(
                views_of(ls@)[i as int],
            ));
            assert(views_of(ls@)[i as int] == ls@[i as int]@);
            lemma_decode_lines_snoc(
                views_of(ls@).take(i as int),
                views_of(ls@)[i as int],
                spec_empty_registry(),
            );
        }
        apply_cache_line(&mut info, ls[i].as_slice());
        i = i + 1;
    }
    proof {
        assert(views_of(ls@).take(n as int) =~= views_of(ls@));
    }
    info.ram_total = ram_total;
    info.ram_used = ram_used;
    info.uptime = uptime;
    proof {
        assert(info@ =~= spec_decode_cache(content@, ram_total, ram_used, uptime));
    }
    info
}

} // verus!

verus! {

/// Text that the flat cache format stores faithfully: no line breaks.
pub open spec fn cache_safe_text(s: Seq<char>) -> bool {
    forall|k: int| 0 <= k < s.len() ==> s[k] != '\n' && s[k] != '\r'
}

/// A registry whose cached string fields the flat format stores
/// faithfully.
pub open spec fn cache_safe(r: RegView) -> bool {
    &&& cache_safe_text(r.user)
    &&& cache_safe_text(r.host)
    &&& cache_safe_text(r.os_name)
    &&& cache_safe_text(r.model)
    &&& cache_safe_text(r.kernel)
    &&& cache_safe_text(r.cpu_model)
    &&& cache_safe_text(r.shell)
    &&& cache_safe_text(r.pkgman_name)
    &&& forall|k: int| 0 <= k < r.gpu_models.len() ==> cache_safe_text(#[trigger] r.gpu_models[k])
}

/// The first line of a text that starts with a break-free piece and a
/// line feed is that piece.
proof fn lemma_lines_peel(a: Seq<char>, rest: Seq<char>)
    requires
        cache_safe_text(a),
    ensures
        spec_lines(a + seq!['\n'] + rest) == seq![a] + spec_lines(rest),
{
    let s = a + seq!['\n'] + rest;
    assert(s[a.len() as int] == '\n');
    assert(forall|k: int| 0 <= k < a.len() ==> s[k] == a[k]);
    lemma_find_char(s, '\n');
    let found = spec_find_char(s, '\n');
    assert(found is Some);
    let j = found->0;
    assert(s[j] == '\n');
    assert(j == a.len());
    assert(s.take(a.len() as int) =~= a);
    if a.len() > 0 {
        assert(a.last() != '\r');
    }
    assert(spec_strip_cr(a) == a);
    assert(s.skip(a.len() as int + 1) =~= rest);
    assert(spec_lines(s) =~= seq![a] + spec_lines(rest));
}

/// A `key=value` piece whose key holds no separator splits back into key
/// and value.
proof fn lemma_cache_line_split(k: Seq<char>, v: Seq<char>)
    requires
        forall|t: int| 0 <= t < k.len() ==> k[t] != '=',
    ensures
        spec_split_once(k + seq!['='] + v, '=') == Some((k, v)),
{
    let s = k + seq!['='] + v;
    assert(s[k.len() as int] == '=');
    assert(forall|t: int| 0 <= t < k.len() ==> s[t] == k[t]);
    lemma_find_char(s, '=');
    let found = spec_find_char(s, '=');
    assert(found is Some);
    let j = found->0;
    assert(s[j] == '=');
    assert(j == k.len());
    assert(s.take(k.len() as int) =~= k);
    assert(s.skip(k.len() as int + 1) =~= v);
}

/// Folding the lines of one `key=value` piece and the remaining text
/// applies the piece first.
proof fn lemma_decode_peel(a: Seq<char>, rest: Seq<char>, acc: RegView)
    requires
        cache_safe_text(a),
    ensures
        spec_decode_lines(spec_lines(a + seq!['\n'] + rest), acc) == spec_decode_lines(
            spec_lines(rest),
            spec_apply_cache_line(acc, a),
        ),
{
    lemma_lines_peel(a, rest);
    let ls = seq![a] + spec_lines(rest);
    assert(ls.len() > 0);
    assert(ls[0] == a);
    assert(ls.drop_first() =~= spec_lines(rest));
}

/// Decoding the `gpu=` lines appends every entry, in order.
proof fn lemma_decode_gpu_lines(gpus: Seq<Seq<char>>, acc: RegView)
    requires
        forall|k: int| 0 <= k < gpus.len() ==> cache_safe_text(#[trigger] gpus[k]),
    ensures
        spec_decode_lines(spec_lines(spec_gpu_lines(gpus)), acc) == (RegView {
            gpu_models: acc.gpu_models + gpus,
            ..acc
        }),
    decreases gpus.len(),
{
    reveal_strlit("gpu");
    reveal_strlit("user");
    reveal_strlit("host");
    reveal_strlit("version_name");
    reveal_strlit("host_model");
    reveal_strlit("kernel");
    reveal_strlit("cpu");
    reveal_strlit("screen_width");
    reveal_strlit("screen_height");
    reveal_strlit("shell");
    reveal_strlit("pkgs");
    reveal_strlit("pkgman_name");
    if gpus.len() == 0 {
        assert(spec_lines(spec_gpu_lines(gpus)) =~= Seq::<Seq<char>>::empty());
        assert(acc.gpu_models + gpus =~= acc.gpu_models);
        assert((RegView { gpu_models: acc.gpu_models + gpus, ..acc }) =~= acc);
    } else {
        let g = gpus[0];
        let a = "gpu"@ + seq!['='] + g;
        assert(cache_safe_text(a));
        assert(spec_gpu_lines(gpus) =~= a + seq!['\n'] + spec_gpu_lines(gpus.drop_first()));
        lemma_decode_peel(a, spec_gpu_lines(gpus.drop_first()), acc);
        lemma_cache_line_split("gpu"@, g);
        let acc1 = spec_apply_cache_line(acc, a);
        assert(acc1 == (RegView { gpu_models: acc.gpu_models.push(g), ..acc }));
        assert(forall|k: int|
            0 <= k < gpus.drop_first().len() ==> cache_safe_text(
                #[trigger] gpus.drop_first()[k],
            ));
        lemma_decode_gpu_lines(gpus.drop_first(), acc1);
        assert(acc.gpu_models.push(g) + gpus.drop_first() =~= acc.gpu_models + gpus);
        assert((RegView { gpu_models: acc.gpu_models.push(g) + gpus.drop_first(), ..acc1 }) =~= (
        RegView { gpu_models: acc.gpu_models + gpus, ..acc }));
    }
}

/// Round trip: reading back a written registry reproduces every cached
/// field exactly; the memory and uptime figures are the live ones handed
/// to the reader, and the image override is not cached.
#[verifier::rlimit(100)]
pub proof fn lemma_cache_round_trip(r: RegView, ram_total: u64, ram_used: u64, uptime: u64)
    requires
        cache_safe(r),
    ensures
        spec_decode_cache(spec_encode_cache(r), ram_total, ram_used, uptime) == (RegView {
            ram_total: ram_total,
            ram_used: ram_used,
            uptime: uptime,
            image_name: None,
            gpu_models: r.gpu_models,
            ..r
        }),
{
    reveal_strlit("gpu");
    reveal_strlit("user");
    reveal_strlit("host");
    reveal_strlit("version_name");
    reveal_strlit("host_model");
    reveal_strlit("kernel");
    reveal_strlit("cpu");
    reveal_strlit("screen_width");
    reveal_strlit("screen_height");
    reveal_strlit("shell");
    reveal_strlit("pkgs");
    reveal_strlit("pkgman_name");
    crate::numerals::lemma_fmt_nat_digits(r.screen_width as int);
    crate::numerals::lemma_fmt_nat_digits(r.screen_height as int);
    crate::numerals::lemma_fmt_nat_digits(r.pkgs as int);
    lemma_fmt_nat_line_safe(r.screen_width as int);
    lemma_fmt_nat_line_safe(r.screen_height as int);
    lemma_fmt_nat_line_safe(r.pkgs as int);
    let a1 = "user"@ + seq!['='] + r.user;
    let a2 = "host"@ + seq!['='] + r.host;
    let a3 = "version_name"@ + seq!['='] + r.os_name;
    let a4 = "host_model"@ + seq!['='] + r.model;
    let a5 = "kernel"@ + seq!['='] + r.kernel;
    let a6 = "cpu"@ + seq!['='] + r.cpu_model;
    let a7 = "screen_width"@ + seq!['='] + spec_fmt_nat(r.screen_width as int);
    let a8 = "screen_height"@ + seq!['='] + spec_fmt_nat(r.screen_height as int);
    let a9 = "shell"@ + seq!['='] + r.shell;
    let a10 = "pkgs"@ + seq!['='] + spec_fmt_nat(r.pkgs as int);
    let a11 = "pkgman_name"@ + seq!['='] + r.pkgman_name;
    let tail = spec_gpu_lines(r.gpu_models);
    let e11 = a11 + seq!['\n'] + tail;
    let e10 = a10 + seq!['\n'] + e11;
    let e9 = a9 + seq!['\n'] + e10;
    let e8 = a8 + seq!['\n'] + e9;
    let e7 = a7 + seq!['\n'] + e8;
    let e6 = a6 + seq!['\n'] + e7;
    let e5 = a5 + seq!['\n'] + e6;
    let e4 = a4 + seq!['\n'] + e5;
    let e3 = a3 + seq!['\n'] + e4;
    let e2 = a2 + seq!['\n'] + e3;
    let e1 = a1 + seq!['\n'] + e2;
    assert(spec_encode_cache(r) =~= e1);
    let acc0 = spec_empty_registry();
    lemma_cache_line_split("user"@, r.user);
    lemma_decode_peel(a1, e2, acc0);
    let acc1 = spec_apply_cache_line(acc0, a1);
    lemma_cache_line_split("host"@, r.host);
    lemma_decode_peel(a2, e3, acc1);
    let acc2 = spec_apply_cache_line(acc1, a2);
    lemma_cache_line_split("version_name"@, r.os_name);
    lemma_decode_peel(a3, e4, acc2);
    let acc3 = spec_apply_cache_line(acc2, a3);
    lemma_cache_line_split("host_model"@, r.model);
    lemma_decode_peel(a4, e5, acc3);
    let acc4 = spec_apply_cache_line(acc3, a4);
    lemma_cache_line_split("kernel"@, r.kernel);
    lemma_decode_peel(a5, e6, acc4);
    let acc5 = spec_apply_cache_line(acc4, a5);
    lemma_cache_line_split("cpu"@, r.cpu_model);
    lemma_decode_peel(a6, e7, acc5);
    let acc6 = spec_apply_cache_line(acc5, a6);
    lemma_cache_line_split("screen_width"@, spec_fmt_nat(r.screen_width as int));
    lemma_decode_peel(a7, e8, acc6);
    let acc7 = spec_apply_cache_line(acc6, a7);
    lemma_cache_line_split("screen_height"@, spec_fmt_nat(r.screen_height as int));
    lemma_decode_peel(a8, e9, acc7);
    let acc8 = spec_apply_cache_line(acc7, a8);
    lemma_cache_line_split("shell"@, r.shell);
    lemma_decode_peel(a9, e10, acc8);
    let acc9 = spec_apply_cache_line(acc8, a9);
    lemma_cache_line_split("pkgs"@, spec_fmt_nat(r.pkgs as int));
    lemma_decode_peel(a10, e11, acc9);
    let acc10 = spec_apply_cache_line(acc9, a10);
    lemma_cache_line_split("pkgman_name"@, r.pkgman_name);
    lemma_decode_peel(a11, tail, acc10);
    let acc11 = spec_apply_cache_line(acc10, a11);
    lemma_parse_fmt_u32(r.screen_width);
    lemma_parse_fmt_u32(r.screen_height);
    lemma_parse_fmt_u32(r.pkgs);
    assert(acc11.gpu_models =~= Seq::<Seq<char>>::empty());
    lemma_decode_gpu_lines(r.gpu_models, acc11);
    assert(acc11.gpu_models + r.gpu_models =~= r.gpu_models);
    assert(spec_decode_cache(spec_encode_cache(r), ram_total, ram_used, uptime) =~= (RegView {
        ram_total: ram_total,
        ram_used: ram_used,
        uptime: uptime,
        image_name: None,
        gpu_models: r.gpu_models,
        ..r
    }));
}

/// A decimal numeral holds no line break.
proof fn lemma_fmt_nat_line_safe(n: int)
    requires
        n >= 0,
    ensures
        cache_safe_text(spec_fmt_nat(n)),
{
    crate::numerals::lemma_fmt_nat_digits(n);
    assert(forall|k: int|
        0 <= k < spec_fmt_nat(n).len() ==> crate::numerals::is_digit_char(
            #[trigger] spec_fmt_nat(n)[k],
        ));
}

} // verus!
