use uwufetch::info::SystemInfo;
use uwufetch::uwufy::{uwu_hw, uwu_kernel, uwu_name, uwu_pkgman, uwufy_all};

fn s(x: &str) -> String {
    x.to_string()
}

#[test]
fn os_names_map_to_their_counterparts() {
    let mut name = s("arch");
    uwu_name(&mut name);
    assert_eq!(name, "Nyarch Linuwu");

    let mut name = s("ubuntu");
    uwu_name(&mut name);
    assert_eq!(name, "Uwuntu");

    let mut name = s("EndeavourOS");
    uwu_name(&mut name);
    assert_eq!(name, "endeavOwO");

    let mut name = s("plan9");
    uwu_name(&mut name);
    assert_eq!(name, "unknown");
}

#[test]
fn kernel_fragments_are_replaced_in_table_order() {
    let mut kernel = s("Linux 5.10-arch");
    uwu_kernel(&mut kernel);
    assert_eq!(kernel, "Linuwu 5.10-Nyarch Linuwu");

    let mut untouched = s("BSD 14");
    uwu_kernel(&mut untouched);
    assert_eq!(untouched, "BSD 14");
}

#[test]
fn hardware_fragments_are_replaced() {
    let mut cpu = s("Intel Core i7");
    uwu_hw(&mut cpu);
    assert_eq!(cpu, "Inteww Cowe i7");

    let mut gpu = s("NVIDIA GeForce RTX");
    uwu_hw(&mut gpu);
    assert_eq!(gpu, "NyaVIDIA GeFOwOce RTX");
}

#[test]
fn package_manager_names_are_replaced() {
    let mut label = s("120 (dpkg), 40 (flatpak)");
    uwu_pkgman(&mut label);
    assert_eq!(label, "120 (dpkg), 40 (fwatpakkies)");
}

#[test]
fn the_whole_registry_is_rewritten_at_once() {
    let mut info = SystemInfo::default();
    info.kernel = s("Linux 6.1");
    info.cpu_model = s("Intel Core i5");
    info.model = s("Lenovo ThinkPad");
    info.gpu_models = vec![s("Intel Graphics"), s("NVIDIA card")];
    info.pkgman_name = s("7 (pacman)");
    info.user = s("alice");

    uwufy_all(&mut info);

    assert_eq!(info.kernel, "Linuwu 6.1");
    assert_eq!(info.cpu_model, "Inteww Cowe i5");
    assert_eq!(info.model, "LenOwO ThinkPad");
    assert_eq!(info.gpu_models, vec![s("Inteww Gwaphics"), s("NyaVIDIA card")]);
    assert_eq!(info.pkgman_name, "7 (pacnyan)");
    // Fields outside the substitution pass stay as they were.
    assert_eq!(info.user, "alice");
}
