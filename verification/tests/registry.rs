use uwufetch::config::Configuration;
use uwufetch::info::{HostSnapshot, ParallelResults, SystemInfo};

fn s(x: &str) -> String {
    x.to_string()
}

fn sample_snapshot() -> HostSnapshot {
    HostSnapshot {
        user_env: Some(s("alice")),
        hostname_file: Some(s("box\n")),
        etc_hostname: None,
        hostname_cmd: None,
        os_release: Some(s("NAME=Arch\nID=arch\n")),
        has_debian_marker: false,
        has_arch_marker: true,
        has_fedora_marker: false,
        platform_id: None,
        kernel_file: Some(s("6.1.0\n")),
        kernel_cmd: None,
        model_sources: vec![Some(s("To Be Filled By O.E.M.")), Some(s("ThinkPad X1\n"))],
        cpuinfo: Some(s("model name\t: AMD Ryzen 7\nmodel name\t: AMD Ryzen 7\n")),
        cpu_cmd: None,
        meminfo: Some(s("MemTotal: 2048000 kB\nMemAvailable: 1024000 kB\n")),
        mem_csv: None,
        fb_size: Some(s("1920,1080\n")),
        shell_env: Some(s("/bin/zsh")),
        uptime_file: Some(s("3725.88 9999.0\n")),
        uptime_api: None,
    }
}

fn sample_tasks() -> ParallelResults {
    ParallelResults {
        gpus: Some(vec![s("UHD Graphics Lenovo")]),
        resolution: Some((2560, 1440)),
        packages: Some((160, s("120 (dpkg), 40 (flatpak)"))),
    }
}

#[test]
fn populate_fills_every_fact() {
    let mut info = SystemInfo::default();
    let config = Configuration::default();
    info.populate(&config, &sample_snapshot(), sample_tasks());

    assert_eq!(info.user, "alice");
    assert_eq!(info.host, "box");
    assert_eq!(info.os_name, "arch");
    assert_eq!(info.kernel, "6.1.0");
    assert_eq!(info.model, "ThinkPad X1");
    assert_eq!(info.cpu_model, "AMD Ryzen 7");
    assert_eq!(info.gpu_models, vec![s("UHD Graphics Lenovo")]);
    assert_eq!(info.ram_total, 2000);
    assert_eq!(info.ram_used, 1000);
    assert_eq!((info.screen_width, info.screen_height), (2560, 1440));
    assert_eq!(info.shell, "zsh");
    assert_eq!(info.pkgs, 160);
    assert_eq!(info.pkgman_name, "120 (dpkg), 40 (flatpak)");
    assert_eq!(info.uptime, 3725);
    assert_eq!(info.image_name, None);
}

#[test]
fn populate_keeps_an_os_override() {
    let mut info = SystemInfo::default();
    info.os_name = s("debian");
    let config = Configuration::default();
    info.populate(&config, &sample_snapshot(), sample_tasks());
    assert_eq!(info.os_name, "debian");
}

#[test]
fn populate_on_an_absent_host_yields_defaults() {
    let mut info = SystemInfo::default();
    let config = Configuration::default();
    info.populate(&config, &HostSnapshot::absent(), ParallelResults::none());

    assert_eq!(info.user, "");
    assert_eq!(info.host, "");
    assert_eq!(info.os_name, "unknown");
    assert_eq!(info.kernel, "");
    assert_eq!(info.model, "");
    assert_eq!(info.cpu_model, "");
    assert!(info.gpu_models.is_empty());
    assert_eq!((info.ram_total, info.ram_used), (0, 0));
    assert_eq!((info.screen_width, info.screen_height), (0, 0));
    assert_eq!(info.shell, "");
    assert_eq!(info.pkgs, 0);
    assert_eq!(info.pkgman_name, "");
    assert_eq!(info.uptime, 0);
}

#[test]
fn populate_twice_is_idempotent() {
    let snapshot = sample_snapshot();
    let config = Configuration::default();

    let mut once = SystemInfo::default();
    once.populate(&config, &snapshot, sample_tasks());

    let mut twice = once.clone();
    twice.populate(&config, &snapshot, sample_tasks());

    assert_eq!(once, twice);
}

#[test]
fn failed_gpu_task_leaves_other_results_applied() {
    // The GPU task failed: its field keeps the default, while the
    // resolution and package results still land in the registry.
    let tasks = ParallelResults {
        gpus: None,
        resolution: Some((2560, 1440)),
        packages: Some((160, s("120 (dpkg), 40 (flatpak)"))),
    };
    let mut info = SystemInfo::default();
    let config = Configuration::default();
    info.populate(&config, &sample_snapshot(), tasks);

    assert!(info.gpu_models.is_empty());
    assert_eq!((info.screen_width, info.screen_height), (2560, 1440));
    assert_eq!(info.pkgs, 160);
    assert_eq!(info.pkgman_name, "120 (dpkg), 40 (flatpak)");
}

#[test]
fn disabled_facts_ignore_task_results() {
    let mut config = Configuration::default();
    config.show_gpu = false;
    config.show_pkgs = false;
    let mut info = SystemInfo::default();
    info.populate(&config, &sample_snapshot(), sample_tasks());

    assert!(info.gpu_models.is_empty());
    assert_eq!(info.pkgs, 0);
    assert_eq!(info.pkgman_name, "");
    // The resolution task was still wanted and applied.
    assert_eq!((info.screen_width, info.screen_height), (2560, 1440));
}

#[test]
fn default_configuration_shows_everything_but_the_image() {
    let c = Configuration::default();
    assert!(c.show_user && c.show_os && c.show_host && c.show_kernel);
    assert!(c.show_cpu && c.show_gpu && c.show_ram && c.show_resolution);
    assert!(c.show_shell && c.show_pkgs && c.show_uptime && c.show_colors);
    assert!(!c.show_image);
    assert!(c.gpu_indexes.is_empty());
}
