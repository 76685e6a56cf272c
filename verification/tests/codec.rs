use uwufetch::cache::{decode_cache, encode_cache};
use uwufetch::config::Configuration;
use uwufetch::display::format_uptime;
use uwufetch::info::SystemInfo;

fn s(x: &str) -> String {
    x.to_string()
}

fn populated_registry() -> SystemInfo {
    SystemInfo {
        user: s("alice"),
        host: s("box"),
        os_name: s("arch"),
        kernel: s("6.1.0"),
        model: s("ThinkPad X1"),
        cpu_model: s("AMD Ryzen 7"),
        gpu_models: vec![s("UHD Graphics"), s("GeForce RTX 3060")],
        ram_total: 2000,
        ram_used: 1000,
        screen_width: 2560,
        screen_height: 1440,
        shell: s("zsh"),
        pkgs: 160,
        pkgman_name: s("120 (dpkg), 40 (flatpak)"),
        uptime: 3725,
        image_name: None,
    }
}

#[test]
fn cache_text_is_one_line_per_fact() {
    let text = encode_cache(&populated_registry());
    let expected = "user=alice\nhost=box\nversion_name=arch\nhost_model=ThinkPad X1\nkernel=6.1.0\ncpu=AMD Ryzen 7\nscreen_width=2560\nscreen_height=1440\nshell=zsh\npkgs=160\npkgman_name=120 (dpkg), 40 (flatpak)\ngpu=UHD Graphics\ngpu=GeForce RTX 3060\n";
    assert_eq!(text, expected);
}

#[test]
fn cache_round_trip_reproduces_cached_fields() {
    let original = populated_registry();
    let text = encode_cache(&original);
    // Memory and uptime are re-derived live, never read from the text.
    let back = decode_cache(&text, 4000, 2000, 99);

    assert_eq!(back.user, original.user);
    assert_eq!(back.host, original.host);
    assert_eq!(back.os_name, original.os_name);
    assert_eq!(back.model, original.model);
    assert_eq!(back.kernel, original.kernel);
    assert_eq!(back.cpu_model, original.cpu_model);
    assert_eq!(back.gpu_models, original.gpu_models);
    assert_eq!(back.screen_width, original.screen_width);
    assert_eq!(back.screen_height, original.screen_height);
    assert_eq!(back.shell, original.shell);
    assert_eq!(back.pkgs, original.pkgs);
    assert_eq!(back.pkgman_name, original.pkgman_name);
    assert_eq!(back.ram_total, 4000);
    assert_eq!(back.ram_used, 2000);
    assert_eq!(back.uptime, 99);
    assert_eq!(back.image_name, None);
}

#[test]
fn decode_ignores_unknown_keys_and_broken_lines() {
    let text = "color=purple\nnot a pair\nuser=bob\n\npkgs=oops\n";
    let back = decode_cache(text, 1, 2, 3);
    assert_eq!(back.user, "bob");
    // A package count that is not a numeral decodes to zero.
    assert_eq!(back.pkgs, 0);
    assert_eq!(back.os_name, "");
}

#[test]
fn uptime_formatting_brackets() {
    assert_eq!(format_uptime(0), "0m");
    assert_eq!(format_uptime(59), "0m");
    assert_eq!(format_uptime(3599), "59m");
    assert_eq!(format_uptime(3725), "1h, 2m");
    assert_eq!(format_uptime(86399), "23h, 59m");
    assert_eq!(format_uptime(90061), "1d, 1h, 1m");
}

#[test]
fn config_text_sets_options_and_overrides() {
    let content = "# a comment line\n\ndistro=arch\nimage=~/pic.png\nuser=true\nram=\"false\"\ngpu=1\ngpu=zero\nunknown=value\n";
    let mut info = SystemInfo::default();
    let home = s("/home/alice");
    let config = Configuration::parse_config(Some(content), Some(&home), &mut info);

    assert_eq!(info.os_name, "arch");
    assert_eq!(info.image_name, Some(s("/home/alice/pic.png")));
    assert!(config.show_image);
    assert!(config.show_user);
    assert!(!config.show_ram);
    assert_eq!(config.gpu_indexes, vec![1]);
    assert!(config.show_os && config.show_pkgs);
}

#[test]
fn config_user_flag_needs_the_literal_true() {
    let mut info = SystemInfo::default();
    let config = Configuration::parse_config(Some("user=yes\n"), None, &mut info);
    assert!(!config.show_user);
}

#[test]
fn absent_config_text_keeps_the_defaults() {
    let mut info = SystemInfo::default();
    info.os_name = s("debian");
    let config = Configuration::parse_config(None, None, &mut info);
    assert!(config.show_user && !config.show_image);
    assert_eq!(info.os_name, "debian");
}
