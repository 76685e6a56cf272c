//! Display options and overrides.
//!
//! A `Configuration` says which facts the caller wants displayed; the
//! orchestrator uses the flags of the three costly facts to decide whether
//! their detection results are applied.  A configuration file can switch
//! individual facts off and supply overrides for the OS name and the art
//! image; parsing its `key=value` lines is verified here, while reading the
//! file itself stays outside the library.

use vstd::prelude::*;

use crate::info::SystemInfo;
use crate::numerals::spec_parse_u64;
use crate::text::{
    chars_to_string, lines, slice_eq, spec_lines, spec_split_once, spec_trim, split_once, to_chars,
    trim, views_of,
};

verus! {

/// Which facts to display, and which GPU entries to single out.
#[derive(Debug, Clone)]
pub struct Configuration {
    pub show_user: bool,
    pub show_os: bool,
    pub show_host: bool,
    pub show_kernel: bool,
    pub show_cpu: bool,
    pub show_gpu: bool,
    pub show_ram: bool,
    pub show_resolution: bool,
    pub show_shell: bool,
    pub show_pkgs: bool,
    pub show_uptime: bool,
    pub show_colors: bool,
    pub show_image: bool,
    pub gpu_indexes: Vec<usize>,
}

/// The mathematical view of a configuration.
#[verifier::ext_equal]
pub ghost struct CfgView {
    pub show_user: bool,
    pub show_os: bool,
    pub show_host: bool,
    pub show_kernel: bool,
    pub show_cpu: bool,
    pub show_gpu: bool,
    pub show_ram: bool,
    pub show_resolution: bool,
    pub show_shell: bool,
    pub show_pkgs: bool,
    pub show_uptime: bool,
    pub show_colors: bool,
    pub show_image: bool,
    pub gpu_indexes: Seq<usize>,
}

impl View for Configuration {
    type V = CfgView;

    open spec fn view(&self) -> CfgView {
        CfgView {
            show_user: self.show_user,
            show_os: self.show_os,
            show_host: self.show_host,
            show_kernel: self.show_kernel,
            show_cpu: self.show_cpu,
            show_gpu: self.show_gpu,
            show_ram: self.show_ram,
            show_resolution: self.show_resolution,
            show_shell: self.show_shell,
            show_pkgs: self.show_pkgs,
            show_uptime: self.show_uptime,
            show_colors: self.show_colors,
            show_image: self.show_image,
            gpu_indexes: self.gpu_indexes@,
        }
    }
}

/// The configuration with every fact shown and no image.
pub open spec fn spec_default_config() -> CfgView {
    CfgView {
        show_user: true,
        show_os: true,
        show_host: true,
        show_kernel: true,
        show_cpu: true,
        show_gpu: true,
        show_ram: true,
        show_resolution: true,
        show_shell: true,
        show_pkgs: true,
        show_uptime: true,
        show_colors: true,
        show_image: false,
        gpu_indexes: Seq::empty(),
    }
}

impl Default for Configuration {
    /// Every fact shown, image rendering off, no GPU entries singled out.
    fn default() -> (r: Self)
        ensures
            r@ == spec_default_config(),
    {
        let r = Configuration {
            show_user: true,
            show_os: true,
            show_host: true,
            show_kernel: true,
            show_cpu: true,
            show_gpu: true,
            show_ram: true,
            show_resolution: true,
            show_shell: true,
            show_pkgs: true,
            show_uptime: true,
            show_colors: true,
            show_image: false,
            gpu_indexes: Vec::new(),
        };
        proof {
            assert(r@ =~= spec_default_config());
        }
        r
    }
}

} // verus!

verus! {

/// Which configuration key a trimmed key text names: an index into the
/// fixed key table, with the table's length for an unknown key.
pub open spec fn spec_key_index(k: Seq<char>) -> int {
    if k == "distro"@ {
        0
    } else if k == "image"@ {
        1
    } else if k == "user"@ {
        2
    } else if k == "os"@ {
        3
    } else if k == "host"@ {
        4
    } else if k == "kernel"@ {
        5
    } else if k == "cpu"@ {
        6
    } else if k == "gpu"@ {
        7
    } else if k == "gpus"@ {
        8
    } else if k == "ram"@ {
        9
    } else if k == "resolution"@ {
        10
    } else if k == "shell"@ {
        11
    } else if k == "pkgs"@ {
        12
    } else if k == "uptime"@ {
        13
    } else if k == "colors"@ {
        14
    } else {
        15
    }
}

/// Decide which configuration key a trimmed key text names.
fn key_index(k: &[char]) -> (r: usize)
    ensures
        r as int == spec_key_index(k@),
{
    if slice_eq(k, to_chars("distro").as_slice()) {
        0
    } else if slice_eq(k, to_chars("image").as_slice()) {
        1
    } else if slice_eq(k, to_chars("user").as_slice()) {
        2
    } else if slice_eq(k, to_chars("os").as_slice()) {
        3
    } else if slice_eq(k, to_chars("host").as_slice()) {
        4
    } else if slice_eq(k, to_chars("kernel").as_slice()) {
        5
    } else if slice_eq(k, to_chars("cpu").as_slice()) {
        6
    } else if slice_eq(k, to_chars("gpu").as_slice()) {
        7
    } else if slice_eq(k, to_chars("gpus").as_slice()) {
        8
    } else if slice_eq(k, to_chars("ram").as_slice()) {
        9
    } else if slice_eq(k, to_chars("resolution").as_slice()) {
        10
    } else if slice_eq(k, to_chars("shell").as_slice()) {
        11
    } else if slice_eq(k, to_chars("pkgs").as_slice()) {
        12
    } else if slice_eq(k, to_chars("uptime").as_slice()) {
        13
    } else if slice_eq(k, to_chars("colors").as_slice()) {
        14
    } else {
        15
    }
}

/// What a configuration line with a recognized key and a prepared value
/// does to the options and the overrides.
pub open spec fn spec_apply_keyed(
    cfg: CfgView,
    os: Seq<char>,
    img: Option<Seq<char>>,
    ki: int,
    v: Seq<char>,
    home: Option<Seq<char>>,
) -> (CfgView, Seq<char>, Option<Seq<char>>) {
    if ki == 0 {
        (cfg, v, img)
    } else if ki == 1 {
        let path = if v.len() > 0 && v[0] == '~' && home is Some {
            home->0 + v.drop_first()
        } else {
            v
        };
        (CfgView { show_image: true, ..cfg }, os, Some(path))
    } else if ki == 2 {
        (CfgView { show_user: v == "true"@, ..cfg }, os, img)
    } else if ki == 3 {
        (CfgView { show_os: v != "false"@, ..cfg }, os, img)
    } else if ki == 4 {
        (CfgView { show_host: v != "false"@, ..cfg }, os, img)
    } else if ki == 5 {
        (CfgView { show_kernel: v != "false"@, ..cfg }, os, img)
    } else if ki == 6 {
        (CfgView { show_cpu: v != "false"@, ..cfg }, os, img)
    } else if ki == 7 {
        match spec_parse_u64(v) {
            Some(x) => if x <= usize::MAX as u64 {
                (
                    CfgView {
                        gpu_indexes: cfg.gpu_indexes.push(x as usize),
                        ..cfg
                    },
                    os,
                    img,
                )
            } else {
                (cfg, os, img)
            },
            None => (cfg, os, img),
        }
    } else if ki == 8 {
        (CfgView { show_gpu: v != "false"@, ..cfg }, os, img)
    } else if ki == 9 {
        (CfgView { show_ram: v != "false"@, ..cfg }, os, img)
    } else if ki == 10 {
        (CfgView { show_resolution: v != "false"@, ..cfg }, os, img)
    } else if ki == 11 {
        (CfgView { show_shell: v != "false"@, ..cfg }, os, img)
    } else if ki == 12 {
        (CfgView { show_pkgs: v != "false"@, ..cfg }, os, img)
    } else if ki == 13 {
        (CfgView { show_uptime: v != "false"@, ..cfg }, os, img)
    } else if ki == 14 {
        (CfgView { show_colors: v != "false"@, ..cfg }, os, img)
    } else {
        (cfg, os, img)
    }
}

/// What one configuration line does to the options and the overrides.
/// The result bundles the options, the OS-name override and the image
/// override after the line.
pub open spec fn spec_apply_config_line(
    cfg: CfgView,
    os: Seq<char>,
    img: Option<Seq<char>>,
    line: Seq<char>,
    home: Option<Seq<char>>,
) -> (CfgView, Seq<char>, Option<Seq<char>>) {
    let t = spec_trim(line);
    if t.len() == 0 || t[0] == '#' {
        (cfg, os, img)
    } else {
        match spec_split_once(t, '=') {
            None => (cfg, os, img),
            Some((k0, v0)) => {
                let k = spec_trim(k0);
                let v = crate::probes::spec_trim_char(spec_trim(v0), '"');
                spec_apply_keyed(cfg, os, img, spec_key_index(k), v, home)
            },
        }
    }
}

/// Fold a configuration text's lines over options and overrides.
pub open spec fn spec_parse_config(
    ls: Seq<Seq<char>>,
    home: Option<Seq<char>>,
    cfg: CfgView,
    os: Seq<char>,
    img: Option<Seq<char>>,
) -> (CfgView, Seq<char>, Option<Seq<char>>)
    decreases ls.len(),
{
    if ls.len() == 0 {
        (cfg, os, img)
    } else {
        let step = spec_apply_config_line(cfg, os, img, ls[0], home);
        spec_parse_config(ls.drop_first(), home, step.0, step.1, step.2)
    }
}

/// Folding one more line applies it to the folded prefix.
proof fn lemma_parse_config_snoc(
    ls: Seq<Seq<char>>,
    l: Seq<char>,
    home: Option<Seq<char>>,
    cfg: CfgView,
    os: Seq<char>,
    img: Option<Seq<char>>,
)
    ensures
        ({
            let prev = spec_parse_config(ls, home, cfg, os, img);
            spec_parse_config(ls.push(l), home, cfg, os, img) == spec_apply_config_line(
                prev.0,
                prev.1,
                prev.2,
                l,
                home,
            )
        }),
    decreases ls.len(),
{
    reveal_with_fuel(spec_parse_config, 2);
    if ls.len() == 0 {
        assert(ls.push(l).drop_first() =~= ls);
        assert(ls.push(l)[0] == l);
    } else {
        assert(ls.push(l)[0] == ls[0]);
        assert(ls.push(l).drop_first() =~= ls.drop_first().push(l));
        let step = spec_apply_config_line(cfg, os, img, ls[0], home);
        lemma_parse_config_snoc(ls.drop_first(), l, home, step.0, step.1, step.2);
    }
}

/// Apply a recognized key's effect to the options and the overrides:
/// the overriding and toggling keys.
#[verifier::rlimit(100)]
fn apply_keyed_low(
    cfg: &mut Configuration,
    info: &mut SystemInfo,
    ki: usize,
    v: &[char],
    home: Option<&String>,
)
    requires
        ki < 8,
    ensures
        ({
            let step = spec_apply_keyed(
                old(cfg)@,
                old(info)@.os_name,
                old(info)@.image_name,
                ki as int,
                v@,
                home.deep_view(),
            );
            final(cfg)@ == step.0 && final(info)@ == (crate::info::RegView {
                os_name: step.1,
                image_name: step.2,
                ..old(info)@
            })
        }),
{
    let ghost step = spec_apply_keyed(
        old(cfg)@,
        old(info)@.os_name,
        old(info)@.image_name,
        ki as int,
        v@,
        home.deep_view(),
    );
    let true_v = to_chars("true");
    let false_v = to_chars("false");
    if ki == 0 {
        info.os_name = chars_to_string(v);
    } else if ki == 1 {
        let path: String = if v.len() > 0 && v[0] == '~' && home.is_some() {
            let h = match home {
                Some(h) => h,
                None => unreached(),
            };
            let mut p = to_chars(h.as_str());
            let rest = vstd::slice::slice_subrange(v, 1, v.len());
            proof {
                assert(rest@ =~= v@.drop_first());
            }
            crate::text::push_chars(&mut p, rest);
            chars_to_string(p.as_slice())
        } else {
            chars_to_string(v)
        };
        info.image_name = Some(path);
        cfg.show_image = true;
    } else if ki == 2 {
        cfg.show_user = slice_eq(v, true_v.as_slice());
    } else if ki == 3 {
        cfg.show_os = !slice_eq(v, false_v.as_slice());
    } else if ki == 4 {
        cfg.show_host = !slice_eq(v, false_v.as_slice());
    } else if ki == 5 {
        cfg.show_kernel = !slice_eq(v, false_v.as_slice());
    } else if ki == 6 {
        cfg.show_cpu = !slice_eq(v, false_v.as_slice());
    } else {
        match crate::numerals::parse_u64(v) {
            Some(x) => {
                if x <= usize::MAX as u64 {
                    cfg.gpu_indexes.push(x as usize);
                }
            },
            None => {},
        }
    }
    proof {
        assert(final(cfg)@ =~= step.0);
        assert(final(info)@ =~= (crate::info::RegView {
            os_name: step.1,
            image_name: step.2,
            ..old(info)@
        }));
    }
}

/// Apply a recognized key's effect to the options: the remaining toggling
/// keys, and no effect for an unknown key.
#[verifier::rlimit(100)]
fn apply_keyed_high(cfg: &mut Configuration, ki: usize, v: &[char])
    requires
        ki >= 8,
    ensures
        ({
            let step = spec_apply_keyed(
                old(cfg)@,
                Seq::<char>::empty(),
                None,
                ki as int,
                v@,
                None,
            );
            final(cfg)@ == step.0
        }),
{
    let ghost step = spec_apply_keyed(
        old(cfg)@,
        Seq::<char>::empty(),
        None,
        ki as int,
        v@,
        None,
    );
    let false_v = to_chars("false");
    if ki == 8 {
        cfg.show_gpu = !slice_eq(v, false_v.as_slice());
    } else if ki == 9 {
        cfg.show_ram = !slice_eq(v, false_v.as_slice());
    } else if ki == 10 {
        cfg.show_resolution = !slice_eq(v, false_v.as_slice());
    } else if ki == 11 {
        cfg.show_shell = !slice_eq(v, false_v.as_slice());
    } else if ki == 12 {
        cfg.show_pkgs = !slice_eq(v, false_v.as_slice());
    } else if ki == 13 {
        cfg.show_uptime = !slice_eq(v, false_v.as_slice());
    } else if ki == 14 {
        cfg.show_colors = !slice_eq(v, false_v.as_slice());
    }
    proof {
        assert(final(cfg)@ =~= step.0);
    }
}

/// Apply a recognized key's effect to the options and the overrides.
fn apply_keyed(
    cfg: &mut Configuration,
    info: &mut SystemInfo,
    ki: usize,
    v: &[char],
    home: Option<&String>,
)
    ensures
        ({
            let step = spec_apply_keyed(
                old(cfg)@,
                old(info)@.os_name,
                old(info)@.image_name,
                ki as int,
                v@,
                home.deep_view(),
            );
            final(cfg)@ == step.0 && final(info)@ == (crate::info::RegView {
                os_name: step.1,
                image_name: step.2,
                ..old(info)@
            })
        }),
{
    if ki < 8 {
        apply_keyed_low(cfg, info, ki, v, home);
    } else {
        apply_keyed_high(cfg, ki, v);
        proof {
            assert(final(info)@ =~= (crate::info::RegView {
                os_name: old(info)@.os_name,
                image_name: old(info)@.image_name,
                ..old(info)@
            }));
        }
    }
}

/// Apply one configuration line to the options and the overrides.
fn apply_config_line(
    cfg: &mut Configuration,
    info: &mut SystemInfo,
    line: &[char],
    home: Option<&String>,
)
    ensures
        ({
            let step = spec_apply_config_line(
                old(cfg)@,
                old(info)@.os_name,
                old(info)@.image_name,
                line@,
                home.deep_view(),
            );
            final(cfg)@ == step.0 && final(info)@ == (crate::info::RegView {
                os_name: step.1,
                image_name: step.2,
                ..old(info)@
            })
        }),
{
    let t = trim(line);
    if t.len() == 0 || t[0] == '#' {
        proof {
            assert(final(info)@ =~= (crate::info::RegView {
                os_name: old(info)@.os_name,
                image_name: old(info)@.image_name,
                ..old(info)@
            }));
        }
        return ;
    }
    match split_once(t, '=') {
        None => {
            proof {
                assert(final(info)@ =~= (crate::info::RegView {
                    os_name: old(info)@.os_name,
                    image_name: old(info)@.image_name,
                    ..old(info)@
                }));
            }
        },
        Some((k0, v0)) => {
            let k = trim(k0);
            let v = crate::probes::trim_char(trim(v0), '"');
            let ki = key_index(k);
            apply_keyed(cfg, info, ki, v, home);
        },
    }
}

impl Configuration {
    /// Parse a configuration text: fold its lines over the default
    /// options, writing the OS-name and image overrides into the registry.
    /// An absent text leaves the defaults and the registry untouched.
    pub fn parse_config(
        content: Option<&str>,
        home: Option<&String>,
        user_info: &mut SystemInfo,
    ) -> (r: Configuration)
        ensures
            ({
                match content {
                    None => r@ == spec_default_config() && final(user_info)@ == old(user_info)@,
                    Some(c) => {
                        let folded = spec_parse_config(
                            spec_lines(c@),
                            home.deep_view(),
                            spec_default_config(),
                            old(user_info)@.os_name,
                            old(user_info)@.image_name,
                        );
                        r@ == folded.0 && final(user_info)@ == (crate::info::RegView {
                            os_name: folded.1,
                            image_name: folded.2,
                            ..old(user_info)@
                        })
                    },
                }
            }),
    {
        let mut cfg = Configuration::default();
        let c: &str = match content {
            Some(c) => c,
            None => {
                proof {
                    assert(cfg@ =~= spec_default_config());
                }
                return cfg;
            },
        };
        let cv = to_chars(c);
        let ls = lines(cv.as_slice());
        let n: usize = ls.len();
        let ghost os0 = user_info@.os_name;
        let ghost img0 = user_info@.image_name;
        let ghost before = user_info@;
        let mut i: usize = 0;
        proof {
            assert(views_of(ls@).take(0) =~= Seq::<Seq<char>>::empty());
            assert(cfg@ =~= spec_default_config());
        }
        while i < n
            invariant
                0 <= i <= n,
                n == ls@.len(),
                views_of(ls@).len() == n,
                ({
                    let folded = spec_parse_config(
                        views_of(ls@).take(i as int),
                        home.deep_view(),
                        spec_default_config(),
                        os0,
                        img0,
                    );
                    cfg@ == folded.0 && user_info@ == (crate::info::RegView {
                        os_name: folded.1,
                        image_name: folded.2,
                        ..before
                    })
                }),
            decreases n - i,
        {
            proof {
                assert(views_of(ls@).take(i + 1) =~= views_of(ls@).take(i as int).push(
                    views_of(ls@)[i as int],
                ));
                assert(views_of(ls@)[i as int] == ls@[i as int]@);
                lemma_parse_config_snoc(
                    views_of(ls@).take(i as int),
                    views_of(ls@)[i as int],
                    home.deep_view(),
                    spec_default_config(),
                    os0,
                    img0,
                );
            }
            apply_config_line(&mut cfg, user_info, ls[i].as_slice(), home);
            proof {
                let folded = spec_parse_config(
                    views_of(ls@).take(i + 1),
                    home.deep_view(),
                    spec_default_config(),
                    os0,
                    img0,
                );
                assert(user_info@ =~= (crate::info::RegView {
                    os_name: folded.1,
                    image_name: folded.2,
                    ..before
                }));
            }
            i = i + 1;
        }
        proof {
            assert(views_of(ls@).take(n as int) =~= views_of(ls@));
        }
        cfg
    }
}

} // verus!
