use uwufetch::probes::{
    accept_model, aggregate_packages, count_lines_after_header, count_nonempty_lines,
    count_status_lines, detect_distro, detect_gpus, detect_host, detect_kernel, detect_resolution,
    detect_shell, detect_uptime, detect_user, format_nt_kernel, parse_colon_value, parse_cpu,
    parse_csv_memory, parse_fb, parse_meminfo, parse_os_release_id, parse_profiler_gpus,
    parse_profiler_resolution, parse_uptime, parse_vm_stat, parse_xrandr, pick_model, PkgEntry,
};

fn s(x: &str) -> String {
    x.to_string()
}

#[test]
fn absent_sources_yield_defaults() {
    assert_eq!(detect_user(None), "");
    assert_eq!(detect_host(None, None, None), "");
    assert_eq!(detect_kernel(None, None), "");
    assert_eq!(detect_distro(None, false, false, false, None), "unknown");
    assert_eq!(pick_model(&Vec::new()), "");
    assert_eq!(detect_resolution(None, None), (0, 0));
    assert_eq!(detect_uptime(None, None), 0);
    assert_eq!(detect_shell(None), "");
    assert!(detect_gpus(None, &Vec::new()).is_empty());
    let (total, label) = aggregate_packages(&Vec::new());
    assert_eq!(total, 0);
    assert_eq!(label, "");
}

#[test]
fn second_source_wins_when_first_is_invalid() {
    // The kernel pseudo-file is present but blank; the utility's output is
    // taken instead.
    let blank = s("   \n");
    let uname = s("6.1.0-generic\n");
    assert_eq!(detect_kernel(Some(&blank), Some(&uname)), "6.1.0-generic");

    // A release file without an ID line falls through to the first marker.
    let garbage = s("NAME=Something\nPRETTY_NAME=Something Else\n");
    assert_eq!(detect_distro(Some(&garbage), true, false, false, None), "debian");
}

#[test]
fn os_release_id_is_extracted_and_unquoted() {
    let content = s("NAME=Arch\nID=arch\nBUILD_ID=rolling\n");
    assert_eq!(parse_os_release_id("NAME=Arch\nID=arch\n"), Some(s("arch")));
    assert_eq!(parse_os_release_id("ID=\"ubuntu\"\n"), Some(s("ubuntu")));
    assert_eq!(parse_os_release_id("NAME=X\n"), None);
    assert_eq!(detect_distro(Some(&content), false, true, false, None), "arch");
}

#[test]
fn distro_marker_priority_order() {
    assert_eq!(detect_distro(None, true, true, true, None), "debian");
    assert_eq!(detect_distro(None, false, true, true, None), "arch");
    assert_eq!(detect_distro(None, false, false, true, None), "fedora");
    let mac = s("macos");
    assert_eq!(detect_distro(None, false, false, false, Some(&mac)), "macos");
}

#[test]
fn model_placeholder_is_rejected() {
    assert_eq!(accept_model("To Be Filled By O.E.M."), None);
    assert_eq!(accept_model("  To Be Filled By O.E.M.  "), None);
    assert_eq!(accept_model("   "), None);
    assert_eq!(accept_model(" ThinkPad X1 "), Some(s("ThinkPad X1")));

    let sources = vec![
        Some(s("To Be Filled By O.E.M.\n")),
        None,
        Some(s(" ThinkPad X1 Carbon\n")),
    ];
    assert_eq!(pick_model(&sources), "ThinkPad X1 Carbon");
}

#[test]
fn cpu_brand_is_taken_from_info_file() {
    let content = "processor\t: 0\nmodel name\t: AMD Ryzen 7 5800X\nprocessor\t: 1\nmodel name\t: AMD Ryzen 7 5800X\n";
    assert_eq!(parse_cpu(content), "AMD Ryzen 7 5800X");
}

#[test]
fn cpu_brand_comes_from_the_first_valued_line() {
    let content = "model name\t: First CPU\nmodel name\t: Second CPU\n";
    assert_eq!(parse_cpu(content), "First CPU");
    // A matching line without a value does not decide the brand.
    let content = "model name\nmodel name\t: Real CPU\n";
    assert_eq!(parse_cpu(content), "Real CPU");
}

#[test]
fn cpu_core_count_fallback() {
    // Three logical-processor entries without a brand value.
    let content = "model name\nmodel name\nmodel name\n";
    assert_eq!(parse_cpu(content), "3 Cores");
    assert_eq!(parse_cpu(""), "0 Cores");
}

#[test]
fn meminfo_total_and_used() {
    let content = "MemTotal:       2048000 kB\nMemFree:         300000 kB\nMemAvailable:   1024000 kB\n";
    assert_eq!(parse_meminfo(content), (2000, 1000));
    // A missing available field counts as zero, so everything is used.
    assert_eq!(parse_meminfo("MemTotal: 1024 kB\n"), (1, 1));
    assert_eq!(parse_meminfo(""), (0, 0));
}

#[test]
fn framebuffer_geometry() {
    assert_eq!(parse_fb("1920,1080\n"), Some((1920, 1080)));
    assert_eq!(parse_fb("1920"), None);
    assert_eq!(parse_fb("w,h"), None);
}

#[test]
fn xrandr_current_line() {
    let out = "Screen 0: minimum 320 x 200, current 2560 x 1440, maximum 16384 x 16384\nHDMI-1 connected\n";
    assert_eq!(parse_xrandr(out), Some((2560, 1440)));
    assert_eq!(parse_xrandr("no geometry here\n"), None);
}

#[test]
fn resolution_prefers_framebuffer() {
    let fb = s("800,600");
    let xr = s("Screen 0: current 2560 x 1440, maximum 8192 x 8192\n");
    assert_eq!(detect_resolution(Some(&fb), Some(&xr)), (800, 600));
    let bad_fb = s("oops");
    assert_eq!(detect_resolution(Some(&bad_fb), Some(&xr)), (2560, 1440));
}

#[test]
fn gpu_lines_from_pci_enumeration() {
    let mut out = String::new();
    out.push_str("00:00.0 \"Host bridge\" \"Intel Corporation\" \"Device 9b61\" -r0c \"Lenovo\" \"Device 2292\"\n");
    out.push_str("00:02.0 \"VGA compatible controller\" \"Intel Corporation\" \"UHD Graphics\" -r02 \"Lenovo\" \"Device 2292\"\n");
    let lspci = out;
    let gpus = detect_gpus(Some(&lspci), &Vec::new());
    assert_eq!(gpus.len(), 1);
    assert_eq!(gpus[0], "UHD Graphics Lenovo");
}

#[test]
fn gpu_line_without_fields_is_kept_whole() {
    let lspci = s("01:00.0 \"3D controller\" \"NVIDIA\"\n");
    let gpus = detect_gpus(Some(&lspci), &Vec::new());
    assert_eq!(gpus, vec![s("01:00.0 \"3D controller\" \"NVIDIA\"")]);
}

#[test]
fn gpu_drivers_are_deduplicated() {
    let uevents = vec![
        s("MAJOR=226\nDRIVER=i915\n"),
        s("DRIVER=i915\n"),
        s("DRIVER=amdgpu\n"),
        s("MINOR=1\n"),
    ];
    let gpus = detect_gpus(None, &uevents);
    assert_eq!(gpus, vec![s("i915"), s("amdgpu")]);
}

#[test]
fn package_database_counts() {
    let status = "Package: a\nStatus: install ok installed\n\nPackage: b\nStatus: deinstall ok config-files\n\nPackage: c\nStatus: install ok installed\n";
    assert_eq!(count_status_lines(status), 2);
    assert_eq!(count_nonempty_lines("app.one\n\napp.two\n  \n"), 2);
    assert_eq!(count_lines_after_header("Name  Version\nsnapd  2.61\ncore  16\n"), 2);
    assert_eq!(count_lines_after_header(""), 0);
}

#[test]
fn package_totals_and_label() {
    let entries = vec![
        PkgEntry { name: s("dpkg"), count: 120 },
        PkgEntry { name: s("flatpak"), count: 40 },
    ];
    let (total, label) = aggregate_packages(&entries);
    assert_eq!(total, 160);
    assert_eq!(label, "120 (dpkg), 40 (flatpak)");
}

#[test]
fn zero_count_managers_are_left_out_of_the_label() {
    let entries = vec![
        PkgEntry { name: s("dpkg"), count: 0 },
        PkgEntry { name: s("pacman"), count: 7 },
        PkgEntry { name: s("snap"), count: 0 },
    ];
    let (total, label) = aggregate_packages(&entries);
    assert_eq!(total, 7);
    assert_eq!(label, "7 (pacman)");
}

#[test]
fn uptime_whole_seconds() {
    assert_eq!(parse_uptime("12345.67 23456.78\n"), Some(12345));
    assert_eq!(parse_uptime("800\n"), Some(800));
    assert_eq!(parse_uptime("soon\n"), None);
    let good = s("42.5 1.0\n");
    let bad = s("???\n");
    assert_eq!(detect_uptime(Some(&good), Some(7)), 42);
    assert_eq!(detect_uptime(Some(&bad), Some(7)), 7);
    assert_eq!(detect_uptime(None, Some(7)), 7);
}

#[test]
fn shell_is_the_path_basename() {
    let bash = s("/usr/bin/bash");
    let fish = s("fish");
    let odd = s("/usr/bin/");
    assert_eq!(detect_shell(Some(&bash)), "bash");
    assert_eq!(detect_shell(Some(&fish)), "fish");
    assert_eq!(detect_shell(Some(&odd)), "");
}

#[test]
fn colon_values_from_utility_lines() {
    assert_eq!(parse_colon_value("hw.model: Mac14,2\n"), Some(s("Mac14,2")));
    assert_eq!(
        parse_colon_value("machdep.cpu.brand_string: Apple M2 "),
        Some(s("Apple M2"))
    );
    assert_eq!(parse_colon_value("no separator here"), None);
}

#[test]
fn csv_memory_rows_after_the_header() {
    let out = "Node,FreePhysicalMemory,TotalVisibleMemorySize\n\nBOX,1024000,2048000\n";
    assert_eq!(parse_csv_memory(out), Some((2000, 1000)));
    assert_eq!(parse_csv_memory("header only\n"), None);
    assert_eq!(parse_csv_memory("h\nBOX,oops,2048000\n"), None);
}

#[test]
fn vm_stat_pages_become_used_mebibytes() {
    let mut out = String::new();
    out.push_str("Mach Virtual Memory Statistics: (page size of 4096 bytes)\n");
    out.push_str("Pages free:                               11111.\n");
    out.push_str("Pages active:                            102400.\n");
    out.push_str("Pages wired down:                         51200.\n");
    out.push_str("Pages occupied by compressor:             25600.\n");
    // (102400 + 51200 + 25600) pages at 4096 bytes are 700 MiB.
    assert_eq!(parse_vm_stat(&out), 700);
    // Missing labels count as zero pages.
    assert_eq!(parse_vm_stat("Pages active: 256.\n"), 1);
    assert_eq!(parse_vm_stat(""), 0);
}

#[test]
fn profiler_chipset_lines_become_gpus() {
    let mut out = String::new();
    out.push_str("Graphics/Displays:\n");
    out.push_str("      Chipset Model: Apple M2\n");
    out.push_str("      Bus: Built-In\n");
    out.push_str("      Chipset Model: Other GPU\n");
    assert_eq!(
        parse_profiler_gpus(&out),
        vec!["Apple M2".to_string(), "Other GPU".to_string()]
    );
}

#[test]
fn profiler_resolution_line_is_parsed() {
    let out = "        Displays:\n          Resolution: 2560 x 1664 Retina\n";
    assert_eq!(parse_profiler_resolution(out), Some((2560, 1664)));
    assert_eq!(parse_profiler_resolution("          Resolution: wide\n"), None);
}

#[test]
fn nt_kernel_label_is_formatted() {
    assert_eq!(format_nt_kernel("22631\u{0}\u{0}"), "Windows NT Build 22631");
    assert_eq!(format_nt_kernel("22631"), "Windows NT Build 22631");
}

#[test]
fn user_is_taken_verbatim() {
    let me = s("alice");
    assert_eq!(detect_user(Some(&me)), "alice");
}

#[test]
fn host_sources_are_trimmed_in_order() {
    let proc_name = s("box1\n");
    let etc_name = s("box2\n");
    assert_eq!(detect_host(Some(&proc_name), Some(&etc_name), None), "box1");
    assert_eq!(detect_host(None, Some(&etc_name), None), "box2");
    let blank = s("\n");
    let cmd = s("box3\n");
    assert_eq!(detect_host(Some(&blank), None, Some(&cmd)), "box3");
}
