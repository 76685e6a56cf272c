//! The fact registry and the collection orchestrator.
//!
//! `SystemInfo` is the aggregate record of every collected host fact.  It
//! starts empty, is populated once from a snapshot of the host's raw
//! sources together with the results of the three costly detection tasks,
//! and is then read-only for presentation.  `spec_populate` is the exact
//! mathematical description of that population pass; the laws proved at
//! the end of this module state its idempotence, the isolation of the
//! parallel tasks from each other, and the zero-value defaults of probes
//! whose sources are all absent.

use vstd::prelude::*;

use crate::config::Configuration;
use crate::probes::{
    detect_distro, detect_host, detect_kernel, detect_shell, detect_uptime, detect_user,
    lemma_all_absent, lemma_distro_nonempty, parse_cpu, parse_meminfo, pick_model,
    spec_accepted_models, spec_detect_distro, spec_detect_gpus, spec_detect_host,
    spec_detect_kernel, spec_detect_resolution, spec_detect_shell, spec_detect_uptime,
    spec_detect_user, spec_parse_cpu, spec_parse_fb, spec_parse_meminfo, spec_pick_model,
};

verus! {

/// The aggregate record of all collected host facts.
#[derive(Debug, Clone, PartialEq)]
pub struct SystemInfo {
    pub user: String,
    pub host: String,
    pub os_name: String,
    pub kernel: String,
    pub model: String,
    pub cpu_model: String,
    pub gpu_models: Vec<String>,
    pub ram_total: u64,
    pub ram_used: u64,
    pub screen_width: u32,
    pub screen_height: u32,
    pub shell: String,
    pub pkgs: u32,
    pub pkgman_name: String,
    pub uptime: u64,
    pub image_name: Option<String>,
}

/// The mathematical view of a fact registry.
#[verifier::ext_equal]
pub ghost struct RegView {
    pub user: Seq<char>,
    pub host: Seq<char>,
    pub os_name: Seq<char>,
    pub kernel: Seq<char>,
    pub model: Seq<char>,
    pub cpu_model: Seq<char>,
    pub gpu_models: Seq<Seq<char>>,
    pub ram_total: u64,
    pub ram_used: u64,
    pub screen_width: u32,
    pub screen_height: u32,
    pub shell: Seq<char>,
    pub pkgs: u32,
    pub pkgman_name: Seq<char>,
    pub uptime: u64,
    pub image_name: Option<Seq<char>>,
}

impl View for SystemInfo {
    type V = RegView;

    open spec fn view(&self) -> RegView {
        RegView {
            user: self.user@,
            host: self.host@,
            os_name: self.os_name@,
            kernel: self.kernel@,
            model: self.model@,
            cpu_model: self.cpu_model@,
            gpu_models: self.gpu_models.deep_view(),
            ram_total: self.ram_total,
            ram_used: self.ram_used,
            screen_width: self.screen_width,
            screen_height: self.screen_height,
            shell: self.shell@,
            pkgs: self.pkgs,
            pkgman_name: self.pkgman_name@,
            uptime: self.uptime,
            image_name: self.image_name.deep_view(),
        }
    }
}

/// The empty registry: every string empty, every number zero, no GPU
/// entries and no image override.
pub open spec fn spec_empty_registry() -> RegView {
    RegView {
        user: Seq::empty(),
        host: Seq::empty(),
        os_name: Seq::empty(),
        kernel: Seq::empty(),
        model: Seq::empty(),
        cpu_model: Seq::empty(),
        gpu_models: Seq::empty(),
        ram_total: 0,
        ram_used: 0,
        screen_width: 0,
        screen_height: 0,
        shell: Seq::empty(),
        pkgs: 0,
        pkgman_name: Seq::empty(),
        uptime: 0,
        image_name: None,
    }
}

impl Default for SystemInfo {
    /// The empty registry all runs start from.
    fn default() -> (r: Self)
        ensures
            r@ == spec_empty_registry(),
    {
        let r = SystemInfo {
            user: String::new(),
            host: String::new(),
            os_name: String::new(),
            kernel: String::new(),
            model: String::new(),
            cpu_model: String::new(),
            gpu_models: Vec::new(),
            ram_total: 0,
            ram_used: 0,
            screen_width: 0,
            screen_height: 0,
            shell: String::new(),
            pkgs: 0,
            pkgman_name: String::new(),
            uptime: 0,
            image_name: None,
        };
        proof {
            assert(r.gpu_models.deep_view() =~= Seq::<Seq<char>>::empty());
            assert(r@ =~= spec_empty_registry());
        }
        r
    }
}

/// A snapshot of the cheap sources' raw contents.  Every field is the
/// content of one concrete source, absent when that source was unavailable
/// on the host; the probes decide what each content means.
pub struct HostSnapshot {
    /// The login name from the environment.
    pub user_env: Option<String>,
    /// The kernel's hostname pseudo-file.
    pub hostname_file: Option<String>,
    /// The static hostname configuration file.
    pub etc_hostname: Option<String>,
    /// The hostname utility's output.
    pub hostname_cmd: Option<String>,
    /// The `key=value` OS release file.
    pub os_release: Option<String>,
    /// Is the first distribution marker file present?
    pub has_debian_marker: bool,
    /// Is the second distribution marker file present?
    pub has_arch_marker: bool,
    /// Is the third distribution marker file present?
    pub has_fedora_marker: bool,
    /// The compiled-in platform identifier, where the platform has one.
    pub platform_id: Option<String>,
    /// The kernel version pseudo-file.
    pub kernel_file: Option<String>,
    /// The version-reporting utility's output.
    pub kernel_cmd: Option<String>,
    /// Hardware descriptor file contents, in priority order.
    pub model_sources: Vec<Option<String>>,
    /// The processor info pseudo-file.
    pub cpuinfo: Option<String>,
    /// The brand-string utility's `key: value` output.
    pub cpu_cmd: Option<String>,
    /// The memory info pseudo-file.
    pub meminfo: Option<String>,
    /// The memory utility's columnar CSV output.
    pub mem_csv: Option<String>,
    /// The framebuffer geometry pseudo-file.
    pub fb_size: Option<String>,
    /// The interactive shell path from the environment.
    pub shell_env: Option<String>,
    /// The uptime pseudo-file.
    pub uptime_file: Option<String>,
    /// Whole seconds of uptime from the system's native interface.
    pub uptime_api: Option<u64>,
}

/// The mathematical view of a host snapshot.
#[verifier::ext_equal]
pub ghost struct SnapView {
    pub user_env: Option<Seq<char>>,
    pub hostname_file: Option<Seq<char>>,
    pub etc_hostname: Option<Seq<char>>,
    pub hostname_cmd: Option<Seq<char>>,
    pub os_release: Option<Seq<char>>,
    pub has_debian_marker: bool,
    pub has_arch_marker: bool,
    pub has_fedora_marker: bool,
    pub platform_id: Option<Seq<char>>,
    pub kernel_file: Option<Seq<char>>,
    pub kernel_cmd: Option<Seq<char>>,
    pub model_sources: Seq<Option<Seq<char>>>,
    pub cpuinfo: Option<Seq<char>>,
    pub cpu_cmd: Option<Seq<char>>,
    pub meminfo: Option<Seq<char>>,
    pub mem_csv: Option<Seq<char>>,
    pub fb_size: Option<Seq<char>>,
    pub shell_env: Option<Seq<char>>,
    pub uptime_file: Option<Seq<char>>,
    pub uptime_api: Option<u64>,
}

impl View for HostSnapshot {
    type V = SnapView;

    open spec fn view(&self) -> SnapView {
        SnapView {
            user_env: self.user_env.deep_view(),
            hostname_file: self.hostname_file.deep_view(),
            etc_hostname: self.etc_hostname.deep_view(),
            hostname_cmd: self.hostname_cmd.deep_view(),
            os_release: self.os_release.deep_view(),
            has_debian_marker: self.has_debian_marker,
            has_arch_marker: self.has_arch_marker,
            has_fedora_marker: self.has_fedora_marker,
            platform_id: self.platform_id.deep_view(),
            kernel_file: self.kernel_file.deep_view(),
            kernel_cmd: self.kernel_cmd.deep_view(),
            model_sources: self.model_sources.deep_view(),
            cpuinfo: self.cpuinfo.deep_view(),
            cpu_cmd: self.cpu_cmd.deep_view(),
            meminfo: self.meminfo.deep_view(),
            mem_csv: self.mem_csv.deep_view(),
            fb_size: self.fb_size.deep_view(),
            shell_env: self.shell_env.deep_view(),
            uptime_file: self.uptime_file.deep_view(),
            uptime_api: self.uptime_api,
        }
    }
}

impl HostSnapshot {
    /// A snapshot of a host on which every source is absent.
    pub fn absent() -> (r: Self)
        ensures
            r@ == spec_absent_snapshot(),
    {
        let r = HostSnapshot {
            user_env: None,
            hostname_file: None,
            etc_hostname: None,
            hostname_cmd: None,
            os_release: None,
            has_debian_marker: false,
            has_arch_marker: false,
            has_fedora_marker: false,
            platform_id: None,
            kernel_file: None,
            kernel_cmd: None,
            model_sources: Vec::new(),
            cpuinfo: None,
            cpu_cmd: None,
            meminfo: None,
            mem_csv: None,
            fb_size: None,
            shell_env: None,
            uptime_file: None,
            uptime_api: None,
        };
        proof {
            assert(r.model_sources.deep_view() =~= Seq::<Option<Seq<char>>>::empty());
            assert(r@ =~= spec_absent_snapshot());
        }
        r
    }
}

/// The snapshot of a host on which every source is absent.
pub open spec fn spec_absent_snapshot() -> SnapView {
    SnapView {
        user_env: None,
        hostname_file: None,
        etc_hostname: None,
        hostname_cmd: None,
        os_release: None,
        has_debian_marker: false,
        has_arch_marker: false,
        has_fedora_marker: false,
        platform_id: None,
        kernel_file: None,
        kernel_cmd: None,
        model_sources: Seq::empty(),
        cpuinfo: None,
        cpu_cmd: None,
        meminfo: None,
        mem_csv: None,
        fb_size: None,
        shell_env: None,
        uptime_file: None,
        uptime_api: None,
    }
}

/// The results the three costly detection tasks handed back.  A task that
/// was not launched, or whose join reported a failure, contributes
/// nothing and its registry field keeps its prior value.
pub struct ParallelResults {
    pub gpus: Option<Vec<String>>,
    pub resolution: Option<(u32, u32)>,
    pub packages: Option<(u32, String)>,
}

/// The mathematical view of the three task results.
#[verifier::ext_equal]
pub ghost struct TaskView {
    pub gpus: Option<Seq<Seq<char>>>,
    pub resolution: Option<(u32, u32)>,
    pub packages: Option<(u32, Seq<char>)>,
}

impl View for ParallelResults {
    type V = TaskView;

    open spec fn view(&self) -> TaskView {
        TaskView {
            gpus: match self.gpus {
                Some(ref g) => Some(g.deep_view()),
                None => None,
            },
            resolution: self.resolution,
            packages: match self.packages {
                Some(ref p) => Some((p.0, p.1@)),
                None => None,
            },
        }
    }
}

impl ParallelResults {
    /// No task was launched, or none handed back a result.
    pub fn none() -> (r: Self)
        ensures
            r@ == (TaskView { gpus: None, resolution: None, packages: None }),
    {
        ParallelResults { gpus: None, resolution: None, packages: None }
    }
}

/// The detected CPU model: the processor info file first, then the
/// brand-string utility's `key: value` output; empty when neither yields
/// a value.
pub open spec fn spec_detect_cpu(
    cpuinfo: Option<Seq<char>>,
    cpu_cmd: Option<Seq<char>>,
) -> Seq<char> {
    let from_cmd = match cpu_cmd {
        Some(o) => match crate::probes::spec_parse_colon_value(o) {
            Some(v) => v,
            None => Seq::<char>::empty(),
        },
        None => Seq::<char>::empty(),
    };
    match cpuinfo {
        Some(c) => spec_parse_cpu(c),
        None => from_cmd,
    }
}

/// The detected memory figures: the memory info file first, then the
/// utility's columnar CSV output; zeros when neither yields figures.
pub open spec fn spec_detect_memory(
    meminfo: Option<Seq<char>>,
    mem_csv: Option<Seq<char>>,
) -> (u64, u64) {
    let from_csv = match mem_csv {
        Some(o) => {
            let ls = crate::text::spec_lines(o);
            if ls.len() > 0 {
                match crate::probes::spec_parse_csv_memory(ls.drop_first()) {
                    Some(tu) => tu,
                    None => (0u64, 0u64),
                }
            } else {
                (0u64, 0u64)
            }
        },
        None => (0u64, 0u64),
    };
    match meminfo {
        Some(c) => spec_parse_meminfo(c),
        None => from_csv,
    }
}

/// The cheap-pass geometry: the framebuffer file alone.
pub open spec fn spec_cheap_resolution(fb: Option<Seq<char>>) -> (u32, u32) {
    match fb {
        Some(c) => match spec_parse_fb(c) {
            Some(wh) => wh,
            None => (0u32, 0u32),
        },
        None => (0u32, 0u32),
    }
}

/// What one population pass makes of a registry: every cheap fact is
/// overwritten with its probe's result, the OS name keeps a non-empty
/// prior value (an override), and each costly fact is overwritten exactly
/// when its task was wanted and handed back a result.
pub open spec fn spec_populate(
    prev: RegView,
    show_gpu: bool,
    show_resolution: bool,
    show_pkgs: bool,
    host: SnapView,
    tasks: TaskView,
) -> RegView {
    let cheap_res = spec_cheap_resolution(host.fb_size);
    RegView {
        user: spec_detect_user(host.user_env),
        host: spec_detect_host(host.hostname_file, host.etc_hostname, host.hostname_cmd),
        os_name: if prev.os_name.len() == 0 {
            spec_detect_distro(
                host.os_release,
                host.has_debian_marker,
                host.has_arch_marker,
                host.has_fedora_marker,
                host.platform_id,
            )
        } else {
            prev.os_name
        },
        kernel: spec_detect_kernel(host.kernel_file, host.kernel_cmd),
        model: spec_pick_model(host.model_sources),
        cpu_model: spec_detect_cpu(host.cpuinfo, host.cpu_cmd),
        gpu_models: if show_gpu && tasks.gpus is Some {
            tasks.gpus->0
        } else {
            prev.gpu_models
        },
        ram_total: spec_detect_memory(host.meminfo, host.mem_csv).0,
        ram_used: spec_detect_memory(host.meminfo, host.mem_csv).1,
        screen_width: match tasks.resolution {
            Some(wh) => if show_resolution {
                wh.0
            } else {
                cheap_res.0
            },
            None => cheap_res.0,
        },
        screen_height: match tasks.resolution {
            Some(wh) => if show_resolution {
                wh.1
            } else {
                cheap_res.1
            },
            None => cheap_res.1,
        },
        shell: spec_detect_shell(host.shell_env),
        pkgs: match tasks.packages {
            Some(p) => if show_pkgs {
                p.0
            } else {
                prev.pkgs
            },
            None => prev.pkgs,
        },
        pkgman_name: match tasks.packages {
            Some(p) => if show_pkgs {
                p.1
            } else {
                prev.pkgman_name
            },
            None => prev.pkgman_name,
        },
        uptime: spec_detect_uptime(host.uptime_file, host.uptime_api),
        image_name: prev.image_name,
    }
}

impl SystemInfo {
    /// Identity facts: user from the environment, host from its ordered
    /// sources.
    pub fn get_user_host_fast(&mut self, host: &HostSnapshot)
        ensures
            final(self)@ == (RegView {
                user: spec_detect_user(host@.user_env),
                host: spec_detect_host(
                    host@.hostname_file,
                    host@.etc_hostname,
                    host@.hostname_cmd,
                ),
                ..old(self)@
            }),
    {
        self.user = detect_user(self::opt_ref(&host.user_env));
        self.host = detect_host(
            self::opt_ref(&host.hostname_file),
            self::opt_ref(&host.etc_hostname),
            self::opt_ref(&host.hostname_cmd),
        );
        proof {
            assert(final(self)@ =~= (RegView {
                user: spec_detect_user(host@.user_env),
                host: spec_detect_host(
                    host@.hostname_file,
                    host@.etc_hostname,
                    host@.hostname_cmd,
                ),
                ..old(self)@
            }));
        }
    }

    /// The OS identity from its ordered sources.
    pub fn get_os_info(&mut self, host: &HostSnapshot)
        ensures
            final(self)@ == (RegView {
                os_name: spec_detect_distro(
                    host@.os_release,
                    host@.has_debian_marker,
                    host@.has_arch_marker,
                    host@.has_fedora_marker,
                    host@.platform_id,
                ),
                ..old(self)@
            }),
    {
        self.os_name = detect_distro(
            self::opt_ref(&host.os_release),
            host.has_debian_marker,
            host.has_arch_marker,
            host.has_fedora_marker,
            self::opt_ref(&host.platform_id),
        );
        proof {
            assert(final(self)@ =~= (RegView {
                os_name: spec_detect_distro(
                    host@.os_release,
                    host@.has_debian_marker,
                    host@.has_arch_marker,
                    host@.has_fedora_marker,
                    host@.platform_id,
                ),
                ..old(self)@
            }));
        }
    }

    /// The kernel version from its ordered sources.
    pub fn get_kernel_fast(&mut self, host: &HostSnapshot)
        ensures
            final(self)@ == (RegView {
                kernel: spec_detect_kernel(host@.kernel_file, host@.kernel_cmd),
                ..old(self)@
            }),
    {
        self.kernel = detect_kernel(
            self::opt_ref(&host.kernel_file),
            self::opt_ref(&host.kernel_cmd),
        );
        proof {
            assert(final(self)@ =~= (RegView {
                kernel: spec_detect_kernel(host@.kernel_file, host@.kernel_cmd),
                ..old(self)@
            }));
        }
    }

    /// The hardware model from its ordered descriptor files.
    pub fn get_model(&mut self, host: &HostSnapshot)
        ensures
            final(self)@ == (RegView {
                model: spec_pick_model(host@.model_sources),
                ..old(self)@
            }),
    {
        self.model = pick_model(&host.model_sources);
        proof {
            assert(final(self)@ =~= (RegView {
                model: spec_pick_model(host@.model_sources),
                ..old(self)@
            }));
        }
    }

    /// The CPU model from its ordered sources, or the core-count
    /// fallback.
    pub fn get_cpu(&mut self, host: &HostSnapshot)
        ensures
            final(self)@ == (RegView {
                cpu_model: spec_detect_cpu(host@.cpuinfo, host@.cpu_cmd),
                ..old(self)@
            }),
    {
        self.cpu_model = match &host.cpuinfo {
            Some(c) => parse_cpu(c.as_str()),
            None => match &host.cpu_cmd {
                Some(o) => match crate::probes::parse_colon_value(o.as_str()) {
                    Some(v) => v,
                    None => String::new(),
                },
                None => String::new(),
            },
        };
        proof {
            assert(final(self)@ =~= (RegView {
                cpu_model: spec_detect_cpu(host@.cpuinfo, host@.cpu_cmd),
                ..old(self)@
            }));
        }
    }

    /// Total and used memory from the memory sources.
    pub fn get_memory(&mut self, host: &HostSnapshot)
        ensures
            final(self)@ == (RegView {
                ram_total: spec_detect_memory(host@.meminfo, host@.mem_csv).0,
                ram_used: spec_detect_memory(host@.meminfo, host@.mem_csv).1,
                ..old(self)@
            }),
    {
        let (total, used) = match &host.meminfo {
            Some(c) => parse_meminfo(c.as_str()),
            None => match &host.mem_csv {
                Some(o) => match crate::probes::parse_csv_memory(o.as_str()) {
                    Some(tu) => tu,
                    None => (0, 0),
                },
                None => (0, 0),
            },
        };
        self.ram_total = total;
        self.ram_used = used;
        proof {
            assert(final(self)@ =~= (RegView {
                ram_total: spec_detect_memory(host@.meminfo, host@.mem_csv).0,
                ram_used: spec_detect_memory(host@.meminfo, host@.mem_csv).1,
                ..old(self)@
            }));
        }
    }

    /// The cheap first-pass geometry from the framebuffer file.
    pub fn get_resolution(&mut self, host: &HostSnapshot)
        ensures
            final(self)@ == (RegView {
                screen_width: spec_cheap_resolution(host@.fb_size).0,
                screen_height: spec_cheap_resolution(host@.fb_size).1,
                ..old(self)@
            }),
    {
        let (w, h) = match &host.fb_size {
            Some(c) => match crate::probes::parse_fb(c.as_str()) {
                Some(wh) => wh,
                None => (0, 0),
            },
            None => (0, 0),
        };
        self.screen_width = w;
        self.screen_height = h;
        proof {
            assert(final(self)@ =~= (RegView {
                screen_width: spec_cheap_resolution(host@.fb_size).0,
                screen_height: spec_cheap_resolution(host@.fb_size).1,
                ..old(self)@
            }));
        }
    }

    /// The shell's basename from the environment.
    pub fn get_shell(&mut self, host: &HostSnapshot)
        ensures
            final(self)@ == (RegView {
                shell: spec_detect_shell(host@.shell_env),
                ..old(self)@
            }),
    {
        self.shell = detect_shell(self::opt_ref(&host.shell_env));
        proof {
            assert(final(self)@ =~= (RegView {
                shell: spec_detect_shell(host@.shell_env),
                ..old(self)@
            }));
        }
    }

    /// The uptime from its ordered sources.
    pub fn get_uptime(&mut self, host: &HostSnapshot)
        ensures
            final(self)@ == (RegView {
                uptime: spec_detect_uptime(host@.uptime_file, host@.uptime_api),
                ..old(self)@
            }),
    {
        self.uptime = detect_uptime(self::opt_ref(&host.uptime_file), host.uptime_api);
        proof {
            assert(final(self)@ =~= (RegView {
                uptime: spec_detect_uptime(host@.uptime_file, host@.uptime_api),
                ..old(self)@
            }));
        }
    }

    /// Apply the costly tasks' results: a field is overwritten exactly
    /// when its task was wanted and handed back a result, so one task's
    /// failure never touches the others' facts.
    pub fn apply_tasks(&mut self, config: &Configuration, tasks: ParallelResults)
        ensures
            final(self)@ == (RegView {
                gpu_models: if config.show_gpu && tasks@.gpus is Some {
                    tasks@.gpus->0
                } else {
                    old(self)@.gpu_models
                },
                screen_width: match tasks@.resolution {
                    Some(wh) => if config.show_resolution {
                        wh.0
                    } else {
                        old(self)@.screen_width
                    },
                    None => old(self)@.screen_width,
                },
                screen_height: match tasks@.resolution {
                    Some(wh) => if config.show_resolution {
                        wh.1
                    } else {
                        old(self)@.screen_height
                    },
                    None => old(self)@.screen_height,
                },
                pkgs: match tasks@.packages {
                    Some(p) => if config.show_pkgs {
                        p.0
                    } else {
                        old(self)@.pkgs
                    },
                    None => old(self)@.pkgs,
                },
                pkgman_name: match tasks@.packages {
                    Some(p) => if config.show_pkgs {
                        p.1
                    } else {
                        old(self)@.pkgman_name
                    },
                    None => old(self)@.pkgman_name,
                },
                ..old(self)@
            }),
    {
        let ghost before = self@;
        if config.show_gpu {
            match tasks.gpus {
                Some(g) => {
                    self.gpu_models = g;
                },
                None => {},
            }
        }
        if config.show_resolution {
            match tasks.resolution {
                Some((w, h)) => {
                    self.screen_width = w;
                    self.screen_height = h;
                },
                None => {},
            }
        }
        if config.show_pkgs {
            match tasks.packages {
                Some((count, label)) => {
                    self.pkgs = count;
                    self.pkgman_name = label;
                },
                None => {},
            }
        }
        proof {
            assert(final(self)@ =~= (RegView {
                gpu_models: if config.show_gpu && tasks@.gpus is Some {
                    tasks@.gpus->0
                } else {
                    before.gpu_models
                },
                screen_width: match tasks@.resolution {
                    Some(wh) => if config.show_resolution {
                        wh.0
                    } else {
                        before.screen_width
                    },
                    None => before.screen_width,
                },
                screen_height: match tasks@.resolution {
                    Some(wh) => if config.show_resolution {
                        wh.1
                    } else {
                        before.screen_height
                    },
                    None => before.screen_height,
                },
                pkgs: match tasks@.packages {
                    Some(p) => if config.show_pkgs {
                        p.0
                    } else {
                        before.pkgs
                    },
                    None => before.pkgs,
                },
                pkgman_name: match tasks@.packages {
                    Some(p) => if config.show_pkgs {
                        p.1
                    } else {
                        before.pkgman_name
                    },
                    None => before.pkgman_name,
                },
                ..before
            }));
        }
    }

    /// One population pass: the cheap probes run in order, the OS identity
    /// is probed only where no override already stands, and the costly
    /// tasks' results are merged last.
    pub fn populate(&mut self, config: &Configuration, host: &HostSnapshot, tasks: ParallelResults)
        ensures
            final(self)@ == spec_populate(
                old(self)@,
                config.show_gpu,
                config.show_resolution,
                config.show_pkgs,
                host@,
                tasks@,
            ),
    {
        self.get_user_host_fast(host);
        if self.os_name.as_str().is_empty() {
            self.get_os_info(host);
        }
        self.get_kernel_fast(host);
        self.get_resolution(host);
        self.get_model(host);
        self.get_cpu(host);
        self.get_memory(host);
        self.get_shell(host);
        self.get_uptime(host);
        self.apply_tasks(config, tasks);
        proof {
            assert(final(self)@ =~= spec_populate(
                old(self)@,
                config.show_gpu,
                config.show_resolution,
                config.show_pkgs,
                host@,
                tasks@,
            ));
        }
    }
}

/// Borrow the inside of an optional owned string.
fn opt_ref(o: &Option<String>) -> (r: Option<&String>)
    ensures
        r.deep_view() == o.deep_view(),
{
    match o {
        Some(s) => Some(s),
        None => None,
    }
}

/// Population is idempotent: populating an unchanged host a second time
/// leaves every field exactly as the first pass wrote it.
pub proof fn lemma_populate_idempotent(
    prev: RegView,
    show_gpu: bool,
    show_resolution: bool,
    show_pkgs: bool,
    host: SnapView,
    tasks: TaskView,
)
    requires
        host.platform_id is Some ==> host.platform_id->0.len() > 0,
    ensures
        spec_populate(
            spec_populate(prev, show_gpu, show_resolution, show_pkgs, host, tasks),
            show_gpu,
            show_resolution,
            show_pkgs,
            host,
            tasks,
        ) == spec_populate(prev, show_gpu, show_resolution, show_pkgs, host, tasks),
{
    let r1 = spec_populate(prev, show_gpu, show_resolution, show_pkgs, host, tasks);
    if prev.os_name.len() == 0 {
        lemma_distro_nonempty(
            host.os_release,
            host.has_debian_marker,
            host.has_arch_marker,
            host.has_fedora_marker,
            host.platform_id,
        );
    }
    assert(r1.os_name.len() > 0 || prev.os_name.len() > 0);
    assert(spec_populate(r1, show_gpu, show_resolution, show_pkgs, host, tasks) =~= r1);
}

/// Task isolation: two runs whose resolution and package results agree
/// produce the same registry in every field but the GPU list, however the
/// GPU task fared.
pub proof fn lemma_task_isolation(
    prev: RegView,
    show_gpu: bool,
    show_resolution: bool,
    show_pkgs: bool,
    host: SnapView,
    t1: TaskView,
    t2: TaskView,
)
    requires
        t1.resolution == t2.resolution,
        t1.packages == t2.packages,
    ensures
        ({
            let r1 = spec_populate(prev, show_gpu, show_resolution, show_pkgs, host, t1);
            let r2 = spec_populate(prev, show_gpu, show_resolution, show_pkgs, host, t2);
            r1.user == r2.user && r1.host == r2.host && r1.os_name == r2.os_name && r1.kernel
                == r2.kernel && r1.model == r2.model && r1.cpu_model == r2.cpu_model
                && r1.ram_total == r2.ram_total && r1.ram_used == r2.ram_used && r1.screen_width
                == r2.screen_width && r1.screen_height == r2.screen_height && r1.shell == r2.shell
                && r1.pkgs == r2.pkgs && r1.pkgman_name == r2.pkgman_name && r1.uptime == r2.uptime
                && r1.image_name == r2.image_name
        }),
{
}

/// Probes on a host with every source absent yield their zero-value
/// defaults: empty strings, zeros, empty lists, and the literal `unknown`
/// for the OS identity, whose chain documents that final constant.
pub proof fn lemma_absent_sources_yield_defaults()
    ensures
        spec_detect_user(None) == Seq::<char>::empty(),
        spec_detect_host(None, None, None) == Seq::<char>::empty(),
        spec_detect_kernel(None, None) == Seq::<char>::empty(),
        spec_detect_distro(None, false, false, false, None) == "unknown"@,
        spec_pick_model(Seq::empty()) == Seq::<char>::empty(),
        spec_detect_resolution(None, None) == (0u32, 0u32),
        spec_detect_uptime(None, None) == 0u64,
        spec_detect_cpu(None, None) == Seq::<char>::empty(),
        spec_detect_memory(None, None) == (0u64, 0u64),
        spec_detect_gpus(None, Seq::empty()) == Seq::<Seq<char>>::empty(),
        spec_detect_shell(None) == Seq::<char>::empty(),
        forall|srcs: Seq<Option<Seq<char>>>|
            (forall|k: int| 0 <= k < srcs.len() ==> srcs[k] is None) ==> #[trigger] spec_pick_model(
                srcs,
            ) == Seq::<char>::empty(),
{
    assert forall|srcs: Seq<Option<Seq<char>>>|
        (forall|k: int| 0 <= k < srcs.len() ==> srcs[k] is None) implies #[trigger] spec_pick_model(
        srcs,
    ) == Seq::<char>::empty() by {
        assert(forall|k: int|
            0 <= k < spec_accepted_models(srcs).len() ==> spec_accepted_models(srcs)[k] is None);
        lemma_all_absent(spec_accepted_models(srcs));
    }
    assert(spec_accepted_models(Seq::empty()) =~= Seq::<Option<Seq<char>>>::empty());
    lemma_hosts_sources_map_none();
}

/// The mapped source list the default-rule probes build from three absent
/// sources is three absent entries.
proof fn lemma_hosts_sources_map_none()
    ensures
        spec_detect_host(None, None, None) == Seq::<char>::empty(),
        spec_detect_kernel(None, None) == Seq::<char>::empty(),
{
    let m2 = seq![Option::<Seq<char>>::None, Option::<Seq<char>>::None].map_values(
        |o: Option<Seq<char>>| crate::probes::spec_usable_trimmed(o),
    );
    assert(forall|k: int| 0 <= k < m2.len() ==> m2[k] is None);
    lemma_all_absent(m2);
    let m3 = seq![
        Option::<Seq<char>>::None,
        Option::<Seq<char>>::None,
        Option::<Seq<char>>::None,
    ].map_values(|o: Option<Seq<char>>| crate::probes::spec_usable_trimmed(o));
    assert(forall|k: int| 0 <= k < m3.len() ==> m3[k] is None);
    lemma_all_absent(m3);
}

} // verus!
