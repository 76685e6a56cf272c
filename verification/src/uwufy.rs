//! The playful text-substitution pass.
//!
//! After collection the registry's strings are rewritten for display: the
//! OS name is mapped to its whimsical counterpart, and the kernel,
//! hardware and package-manager strings have a fixed table of fragments
//! replaced, each table applied in order.

use vstd::prelude::*;

use crate::info::{RegView, SystemInfo};
use crate::text::{chars_to_string, replace_all, spec_replace, str_eq, to_chars};

verus! {

/// Apply an ordered list of replacement pairs: each pair rewrites every
/// occurrence of its first component to its second, and a pair with an
/// empty pattern changes nothing.
pub open spec fn spec_apply_replacements(
    s: Seq<char>,
    pairs: Seq<(Seq<char>, Seq<char>)>,
) -> Seq<char>
    decreases pairs.len(),
{
    if pairs.len() == 0 {
        s
    } else {
        let next = if pairs[0].0.len() > 0 {
            spec_replace(s, pairs[0].0, pairs[0].1)
        } else {
            s
        };
        spec_apply_replacements(next, pairs.drop_first())
    }
}

/// The views of an owned replacement table.
pub open spec fn pair_views(s: Seq<(String, String)>) -> Seq<(Seq<char>, Seq<char>)> {
    s.map_values(|p: (String, String)| (p.0@, p.1@))
}

/// Apply an owned replacement table to a string.
fn apply_replacements(s: &str, pairs: &Vec<(String, String)>) -> (r: String)
    ensures
        r@ == spec_apply_replacements(s@, pair_views(pairs@)),
{
    let n: usize = pairs.len();
    let mut cur: Vec<char> = to_chars(s);
    let mut i: usize = 0;
    proof {
        assert(pair_views(pairs@).skip(0) =~= pair_views(pairs@));
    }
    while i < n
        invariant
            0 <= i <= n,
            n == pairs@.len(),
            pair_views(pairs@).len() == n,
            spec_apply_replacements(s@, pair_views(pairs@)) == spec_apply_replacements(
                cur@,
                pair_views(pairs@).skip(i as int),
            ),
        decreases n - i,
    {
        proof {
            assert(pair_views(pairs@).skip(i as int)[0] == pair_views(pairs@)[i as int]);
            assert(pair_views(pairs@)[i as int] == (pairs@[i as int].0@, pairs@[i as int].1@));
            assert(pair_views(pairs@).skip(i as int).drop_first() =~= pair_views(pairs@).skip(
                i + 1,
            ));
        }
        let from = to_chars(pairs[i].0.as_str());
        let to = to_chars(pairs[i].1.as_str());
        if from.len() > 0 {
            cur = replace_all(cur.as_slice(), from.as_slice(), to.as_slice());
        }
        i = i + 1;
    }
    proof {
        assert(pair_views(pairs@).skip(n as int) =~= Seq::<(Seq<char>, Seq<char>)>::empty());
    }
    chars_to_string(cur.as_slice())
}

/// Push one replacement pair onto an owned table.
fn push_pair(v: &mut Vec<(String, String)>, from: &str, to: &str)
    ensures
        final(v)@.len() == old(v)@.len() + 1,
        pair_views(final(v)@) =~= pair_views(old(v)@).push((from@, to@)),
{
    v.push((String::from_str(from), String::from_str(to)));
    proof {
        assert(pair_views(final(v)@) =~= pair_views(old(v)@).push((from@, to@)));
    }
}

/// The whimsical counterpart of a normalized OS identifier; identifiers
/// outside the table map to `unknown`.
pub open spec fn spec_uwu_name(s: Seq<char>) -> Seq<char> {
    if s == "alpine"@ {
        "Nyalpine"@
    } else if s == "amogos"@ {
        "AmogOwOS"@
    } else if s == "android"@ {
        "Nyandroid"@
    } else if s == "arch"@ {
        "Nyarch Linuwu"@
    } else if s == "arcolinux"@ {
        "ArcOwO Linuwu"@
    } else if s == "artix"@ {
        "Nyartix Linuwu"@
    } else if s == "debian"@ {
        "Debinyan"@
    } else if s == "devuan"@ {
        "Devunyan"@
    } else if s == "deepin"@ {
        "Dewepyn"@
    } else if s == "endeavouros"@ {
        "endeavOwO"@
    } else if s == "EndeavourOS"@ {
        "endeavOwO"@
    } else if s == "fedora"@ {
        "Fedowa"@
    } else if s == "femboyos"@ {
        "FemboyOWOS"@
    } else if s == "gentoo"@ {
        "GentOwO"@
    } else if s == "gnu"@ {
        "gnUwU"@
    } else if s == "guix"@ {
        "gnUwU gUwUix"@
    } else if s == "linuxmint"@ {
        "LinUWU Miwint"@
    } else if s == "manjaro"@ {
        "Myanjawo"@
    } else if s == "manjaro-arm"@ {
        "Myanjawo AWM"@
    } else if s == "neon"@ {
        "KDE NeOwOn"@
    } else if s == "nixos"@ {
        "nixOwOs"@
    } else if s == "opensuse-leap"@ {
        "OwOpenSUSE Leap"@
    } else if s == "opensuse-tumbleweed"@ {
        "OwOpenSUSE Tumbleweed"@
    } else if s == "pop"@ {
        "PopOwOS"@
    } else if s == "raspbian"@ {
        "RaspNyan"@
    } else if s == "rocky"@ {
        "Wocky Linuwu"@
    } else if s == "slackware"@ {
        "Swackwawe"@
    } else if s == "solus"@ {
        "sOwOlus"@
    } else if s == "ubuntu"@ {
        "Uwuntu"@
    } else if s == "void"@ {
        "OwOid"@
    } else if s == "xerolinux"@ {
        "xuwulinux"@
    } else if s == "freebsd"@ {
        "FweeBSD"@
    } else if s == "openbsd"@ {
        "OwOpenBSD"@
    } else if s == "macos"@ {
        "macOwOS"@
    } else if s == "ios"@ {
        "iOwOS"@
    } else if s == "windows"@ {
        "WinyandOwOws"@
    } else {
        "unknown"@
    }
}

/// Replace the OS name by its whimsical counterpart.
pub fn uwu_name(os_name: &mut String)
    ensures
        final(os_name)@ == spec_uwu_name(old(os_name)@),
{
    if str_eq(os_name.as_str(), "alpine") {
        *os_name = String::from_str("Nyalpine");
    } else if str_eq(os_name.as_str(), "amogos") {
        *os_name = String::from_str("AmogOwOS");
    } else if str_eq(os_name.as_str(), "android") {
        *os_name = String::from_str("Nyandroid");
    } else if str_eq(os_name.as_str(), "arch") {
        *os_name = String::from_str("Nyarch Linuwu");
    } else if str_eq(os_name.as_str(), "arcolinux") {
        *os_name = String::from_str("ArcOwO Linuwu");
    } else if str_eq(os_name.as_str(), "artix") {
        *os_name = String::from_str("Nyartix Linuwu");
    } else if str_eq(os_name.as_str(), "debian") {
        *os_name = String::from_str("Debinyan");
    } else if str_eq(os_name.as_str(), "devuan") {
        *os_name = String::from_str("Devunyan");
    } else if str_eq(os_name.as_str(), "deepin") {
        *os_name = String::from_str("Dewepyn");
    } else if str_eq(os_name.as_str(), "endeavouros") {
        *os_name = String::from_str("endeavOwO");
    } else if str_eq(os_name.as_str(), "EndeavourOS") {
        *os_name = String::from_str("endeavOwO");
    } else if str_eq(os_name.as_str(), "fedora") {
        *os_name = String::from_str("Fedowa");
    } else if str_eq(os_name.as_str(), "femboyos") {
        *os_name = String::from_str("FemboyOWOS");
    } else if str_eq(os_name.as_str(), "gentoo") {
        *os_name = String::from_str("GentOwO");
    } else if str_eq(os_name.as_str(), "gnu") {
        *os_name = String::from_str("gnUwU");
    } else if str_eq(os_name.as_str(), "guix") {
        *os_name = String::from_str("gnUwU gUwUix");
    } else if str_eq(os_name.as_str(), "linuxmint") {
        *os_name = String::from_str("LinUWU Miwint");
    } else if str_eq(os_name.as_str(), "manjaro") {
        *os_name = String::from_str("Myanjawo");
    } else if str_eq(os_name.as_str(), "manjaro-arm") {
        *os_name = String::from_str("Myanjawo AWM");
    } else if str_eq(os_name.as_str(), "neon") {
        *os_name = String::from_str("KDE NeOwOn");
    } else if str_eq(os_name.as_str(), "nixos") {
        *os_name = String::from_str("nixOwOs");
    } else if str_eq(os_name.as_str(), "opensuse-leap") {
        *os_name = String::from_str("OwOpenSUSE Leap");
    } else if str_eq(os_name.as_str(), "opensuse-tumbleweed") {
        *os_name = String::from_str("OwOpenSUSE Tumbleweed");
    } else if str_eq(os_name.as_str(), "pop") {
        *os_name = String::from_str("PopOwOS");
    } else if str_eq(os_name.as_str(), "raspbian") {
        *os_name = String::from_str("RaspNyan");
    } else if str_eq(os_name.as_str(), "rocky") {
        *os_name = String::from_str("Wocky Linuwu");
    } else if str_eq(os_name.as_str(), "slackware") {
        *os_name = String::from_str("Swackwawe");
    } else if str_eq(os_name.as_str(), "solus") {
        *os_name = String::from_str("sOwOlus");
    } else if str_eq(os_name.as_str(), "ubuntu") {
        *os_name = String::from_str("Uwuntu");
    } else if str_eq(os_name.as_str(), "void") {
        *os_name = String::from_str("OwOid");
    } else if str_eq(os_name.as_str(), "xerolinux") {
        *os_name = String::from_str("xuwulinux");
    } else if str_eq(os_name.as_str(), "freebsd") {
        *os_name = String::from_str("FweeBSD");
    } else if str_eq(os_name.as_str(), "openbsd") {
        *os_name = String::from_str("OwOpenBSD");
    } else if str_eq(os_name.as_str(), "macos") {
        *os_name = String::from_str("macOwOS");
    } else if str_eq(os_name.as_str(), "ios") {
        *os_name = String::from_str("iOwOS");
    } else if str_eq(os_name.as_str(), "windows") {
        *os_name = String::from_str("WinyandOwOws");
    } else {
        *os_name = String::from_str("unknown");
    }
}

/// The kernel string's replacement table.
pub open spec fn spec_kernel_pairs() -> Seq<(Seq<char>, Seq<char>)> {
    seq![
        ("Linux"@, "Linuwu"@),
        ("linux"@, "linuwu"@),
        ("alpine"@, "Nyalpine"@),
        ("amogos"@, "AmogOwOS"@),
        ("android"@, "Nyandroid"@),
        ("arch"@, "Nyarch Linuwu"@),
        ("artix"@, "Nyartix Linuwu"@),
        ("debian"@, "Debinyan"@),
        ("deepin"@, "Dewepyn"@),
        ("endeavouros"@, "endeavOwO"@),
        ("EndeavourOS"@, "endeavOwO"@),
        ("fedora"@, "Fedowa"@),
        ("femboyos"@, "FemboyOWOS"@),
        ("gentoo"@, "GentOwO"@),
        ("gnu"@, "gnUwU"@),
        ("guix"@, "gnUwU gUwUix"@),
        ("linuxmint"@, "LinUWU Miwint"@),
        ("manjaro"@, "Myanjawo"@),
        ("manjaro-arm"@, "Myanjawo AWM"@),
        ("neon"@, "KDE NeOwOn"@),
        ("nixos"@, "nixOwOs"@),
        ("opensuse-leap"@, "OwOpenSUSE Leap"@),
        ("opensuse-tumbleweed"@, "OwOpenSUSE Tumbleweed"@),
        ("pop"@, "PopOwOS"@),
        ("raspbian"@, "RaspNyan"@),
        ("rocky"@, "Wocky Linuwu"@),
        ("slackware"@, "Swackwawe"@),
        ("solus"@, "sOwOlus"@),
        ("ubuntu"@, "Uwuntu"@),
        ("void"@, "OwOid"@),
        ("xerolinux"@, "xuwulinux"@),
        ("freebsd"@, "FweeBSD"@),
        ("openbsd"@, "OwOpenBSD"@),
        ("macos"@, "macOwOS"@),
        ("ios"@, "iOwOS"@),
        ("windows"@, "WinyandOwOws"@),
    ]
}

/// What the kernel substitution pass yields.
pub open spec fn spec_uwu_kernel(s: Seq<char>) -> Seq<char> {
    spec_apply_replacements(s, spec_kernel_pairs())
}

/// Build the kernel replacement table.
fn kernel_pairs() -> (r: Vec<(String, String)>)
    ensures
        pair_views(r@) == spec_kernel_pairs(),
{
    let mut v: Vec<(String, String)> = Vec::new();
    push_pair(&mut v, "Linux", "Linuwu");
    push_pair(&mut v, "linux", "linuwu");
    push_pair(&mut v, "alpine", "Nyalpine");
    push_pair(&mut v, "amogos", "AmogOwOS");
    push_pair(&mut v, "android", "Nyandroid");
    push_pair(&mut v, "arch", "Nyarch Linuwu");
    push_pair(&mut v, "artix", "Nyartix Linuwu");
    push_pair(&mut v, "debian", "Debinyan");
    push_pair(&mut v, "deepin", "Dewepyn");
    push_pair(&mut v, "endeavouros", "endeavOwO");
    push_pair(&mut v, "EndeavourOS", "endeavOwO");
    push_pair(&mut v, "fedora", "Fedowa");
    push_pair(&mut v, "femboyos", "FemboyOWOS");
    push_pair(&mut v, "gentoo", "GentOwO");
    push_pair(&mut v, "gnu", "gnUwU");
    push_pair(&mut v, "guix", "gnUwU gUwUix");
    push_pair(&mut v, "linuxmint", "LinUWU Miwint");
    push_pair(&mut v, "manjaro", "Myanjawo");
    push_pair(&mut v, "manjaro-arm", "Myanjawo AWM");
    push_pair(&mut v, "neon", "KDE NeOwOn");
    push_pair(&mut v, "nixos", "nixOwOs");
    push_pair(&mut v, "opensuse-leap", "OwOpenSUSE Leap");
    push_pair(&mut v, "opensuse-tumbleweed", "OwOpenSUSE Tumbleweed");
    push_pair(&mut v, "pop", "PopOwOS");
    push_pair(&mut v, "raspbian", "RaspNyan");
    push_pair(&mut v, "rocky", "Wocky Linuwu");
    push_pair(&mut v, "slackware", "Swackwawe");
    push_pair(&mut v, "solus", "sOwOlus");
    push_pair(&mut v, "ubuntu", "Uwuntu");
    push_pair(&mut v, "void", "OwOid");
    push_pair(&mut v, "xerolinux", "xuwulinux");
    push_pair(&mut v, "freebsd", "FweeBSD");
    push_pair(&mut v, "openbsd", "OwOpenBSD");
    push_pair(&mut v, "macos", "macOwOS");
    push_pair(&mut v, "ios", "iOwOS");
    push_pair(&mut v, "windows", "WinyandOwOws");
    proof {
        assert(pair_views(v@) =~= spec_kernel_pairs());
    }
    v
}

/// Rewrite the kernel string through its replacement table.
pub fn uwu_kernel(kernel: &mut String)
    ensures
        final(kernel)@ == spec_uwu_kernel(old(kernel)@),
{
    let pairs = kernel_pairs();
    *kernel = apply_replacements(kernel.as_str(), &pairs);
}

/// The hardware string's replacement table.
pub open spec fn spec_hw_pairs() -> Seq<(Seq<char>, Seq<char>)> {
    seq![
        ("lenovo"@, "LenOwO"@),
        ("Lenovo"@, "LenOwO"@),
        ("cpu"@, "CPUwU"@),
        ("CPU"@, "CPUwU"@),
        ("core"@, "Cowe"@),
        ("Core"@, "Cowe"@),
        ("gpu"@, "GPUwU"@),
        ("GPU"@, "GPUwU"@),
        ("graphics"@, "Gwaphics"@),
        ("Graphics"@, "Gwaphics"@),
        ("corporation"@, "COwOpowation"@),
        ("Corporation"@, "COwOpowation"@),
        ("nvidia"@, "NyaVIDIA"@),
        ("NVIDIA"@, "NyaVIDIA"@),
        ("mobile"@, "Mwobile"@),
        ("Mobile"@, "Mwobile"@),
        ("intel"@, "Inteww"@),
        ("Intel"@, "Inteww"@),
        ("celeron"@, "Celewon"@),
        ("Celeron"@, "Celewon"@),
        ("radeon"@, "Radenyan"@),
        ("Radeon"@, "Radenyan"@),
        ("geforce"@, "GeFOwOce"@),
        ("GeForce"@, "GeFOwOce"@),
        ("raspberry"@, "Nyasberry"@),
        ("Raspberry"@, "Nyasberry"@),
        ("broadcom"@, "Bwoadcom"@),
        ("Broadcom"@, "Bwoadcom"@),
        ("motorola"@, "MotOwOwa"@),
        ("Motorola"@, "MotOwOwa"@),
        ("proliant"@, "ProLinyant"@),
        ("ProLiant"@, "ProLinyant"@),
        ("poweredge"@, "POwOwEdge"@),
        ("PowerEdge"@, "POwOwEdge"@),
        ("apple"@, "Nyapple"@),
        ("Apple"@, "Nyapple"@),
        ("electronic"@, "ElectrOwOnic"@),
        ("Electronic"@, "ElectrOwOnic"@),
        ("processor"@, "Pwocessow"@),
        ("Processor"@, "Pwocessow"@),
        ("microsoft"@, "MicOwOsoft"@),
        ("Microsoft"@, "MicOwOsoft"@),
        ("ryzen"@, "Wyzen"@),
        ("Ryzen"@, "Wyzen"@),
        ("advanced"@, "Adwanced"@),
        ("Advanced"@, "Adwanced"@),
        ("micro"@, "Micwo"@),
        ("Micro"@, "Micwo"@),
        ("devices"@, "Dewices"@),
        ("Devices"@, "Dewices"@),
        ("inc."@, "Nyanc."@),
        ("Inc."@, "Nyanc."@),
        ("lucienne"@, "Lucienyan"@),
        ("Lucienne"@, "Lucienyan"@),
        ("tuxedo"@, "TUWUXEDO"@),
        ("TUXEDO"@, "TUWUXEDO"@),
        ("aura"@, "Uwura"@),
        ("Aura"@, "Uwura"@),
    ]
}

/// What the hardware substitution pass yields.
pub open spec fn spec_uwu_hw(s: Seq<char>) -> Seq<char> {
    spec_apply_replacements(s, spec_hw_pairs())
}

/// Build the hardware replacement table.
fn hw_pairs() -> (r: Vec<(String, String)>)
    ensures
        pair_views(r@) == spec_hw_pairs(),
{
    let mut v: Vec<(String, String)> = Vec::new();
    push_pair(&mut v, "lenovo", "LenOwO");
    push_pair(&mut v, "Lenovo", "LenOwO");
    push_pair(&mut v, "cpu", "CPUwU");
    push_pair(&mut v, "CPU", "CPUwU");
    push_pair(&mut v, "core", "Cowe");
    push_pair(&mut v, "Core", "Cowe");
    push_pair(&mut v, "gpu", "GPUwU");
    push_pair(&mut v, "GPU", "GPUwU");
    push_pair(&mut v, "graphics", "Gwaphics");
    push_pair(&mut v, "Graphics", "Gwaphics");
    push_pair(&mut v, "corporation", "COwOpowation");
    push_pair(&mut v, "Corporation", "COwOpowation");
    push_pair(&mut v, "nvidia", "NyaVIDIA");
    push_pair(&mut v, "NVIDIA", "NyaVIDIA");
    push_pair(&mut v, "mobile", "Mwobile");
    push_pair(&mut v, "Mobile", "Mwobile");
    push_pair(&mut v, "intel", "Inteww");
    push_pair(&mut v, "Intel", "Inteww");
    push_pair(&mut v, "celeron", "Celewon");
    push_pair(&mut v, "Celeron", "Celewon");
    push_pair(&mut v, "radeon", "Radenyan");
    push_pair(&mut v, "Radeon", "Radenyan");
    push_pair(&mut v, "geforce", "GeFOwOce");
    push_pair(&mut v, "GeForce", "GeFOwOce");
    push_pair(&mut v, "raspberry", "Nyasberry");
    push_pair(&mut v, "Raspberry", "Nyasberry");
    push_pair(&mut v, "broadcom", "Bwoadcom");
    push_pair(&mut v, "Broadcom", "Bwoadcom");
    push_pair(&mut v, "motorola", "MotOwOwa");
    push_pair(&mut v, "Motorola", "MotOwOwa");
    push_pair(&mut v, "proliant", "ProLinyant");
    push_pair(&mut v, "ProLiant", "ProLinyant");
    push_pair(&mut v, "poweredge", "POwOwEdge");
    push_pair(&mut v, "PowerEdge", "POwOwEdge");
    push_pair(&mut v, "apple", "Nyapple");
    push_pair(&mut v, "Apple", "Nyapple");
    push_pair(&mut v, "electronic", "ElectrOwOnic");
    push_pair(&mut v, "Electronic", "ElectrOwOnic");
    push_pair(&mut v, "processor", "Pwocessow");
    push_pair(&mut v, "Processor", "Pwocessow");
    push_pair(&mut v, "microsoft", "MicOwOsoft");
    push_pair(&mut v, "Microsoft", "MicOwOsoft");
    push_pair(&mut v, "ryzen", "Wyzen");
    push_pair(&mut v, "Ryzen", "Wyzen");
    push_pair(&mut v, "advanced", "Adwanced");
    push_pair(&mut v, "Advanced", "Adwanced");
    push_pair(&mut v, "micro", "Micwo");
    push_pair(&mut v, "Micro", "Micwo");
    push_pair(&mut v, "devices", "Dewices");
    push_pair(&mut v, "Devices", "Dewices");
    push_pair(&mut v, "inc.", "Nyanc.");
    push_pair(&mut v, "Inc.", "Nyanc.");
    push_pair(&mut v, "lucienne", "Lucienyan");
    push_pair(&mut v, "Lucienne", "Lucienyan");
    push_pair(&mut v, "tuxedo", "TUWUXEDO");
    push_pair(&mut v, "TUXEDO", "TUWUXEDO");
    push_pair(&mut v, "aura", "Uwura");
    push_pair(&mut v, "Aura", "Uwura");
    proof {
        assert(pair_views(v@) =~= spec_hw_pairs());
    }
    v
}

/// Rewrite a hardware string (model, CPU or GPU) through its table.
pub fn uwu_hw(hw: &mut String)
    ensures
        final(hw)@ == spec_uwu_hw(old(hw)@),
{
    let pairs = hw_pairs();
    *hw = apply_replacements(hw.as_str(), &pairs);
}

/// The package-manager label's replacement table.
pub open spec fn spec_pkgman_pairs() -> Seq<(Seq<char>, Seq<char>)> {
    seq![
        ("brew-cask"@, "bwew-cawsk"@),
        ("brew-cellar"@, "bwew-cewwaw"@),
        ("emerge"@, "emewge"@),
        ("flatpak"@, "fwatpakkies"@),
        ("pacman"@, "pacnyan"@),
        ("port"@, "powt"@),
        ("snap"@, "snyap"@),
    ]
}

/// What the package-manager substitution pass yields.
pub open spec fn spec_uwu_pkgman(s: Seq<char>) -> Seq<char> {
    spec_apply_replacements(s, spec_pkgman_pairs())
}

/// Build the package-manager replacement table.
fn pkgman_pairs() -> (r: Vec<(String, String)>)
    ensures
        pair_views(r@) == spec_pkgman_pairs(),
{
    let mut v: Vec<(String, String)> = Vec::new();
    push_pair(&mut v, "brew-cask", "bwew-cawsk");
    push_pair(&mut v, "brew-cellar", "bwew-cewwaw");
    push_pair(&mut v, "emerge", "emewge");
    push_pair(&mut v, "flatpak", "fwatpakkies");
    push_pair(&mut v, "pacman", "pacnyan");
    push_pair(&mut v, "port", "powt");
    push_pair(&mut v, "snap", "snyap");
    proof {
        assert(pair_views(v@) =~= spec_pkgman_pairs());
    }
    v
}

/// Rewrite the package-manager label through its table.
pub fn uwu_pkgman(pkgman: &mut String)
    ensures
        final(pkgman)@ == spec_uwu_pkgman(old(pkgman)@),
{
    let pairs = pkgman_pairs();
    *pkgman = apply_replacements(pkgman.as_str(), &pairs);
}

/// Rewrite every hardware-flavoured field of a populated registry: the
/// kernel, the CPU model, the hardware model, each GPU entry and the
/// package-manager label; the OS name is rewritten separately at display
/// time.
pub fn uwufy_all(info: &mut SystemInfo)
    ensures
        final(info)@ == (RegView {
            kernel: spec_uwu_kernel(old(info)@.kernel),
            cpu_model: spec_uwu_hw(old(info)@.cpu_model),
            model: spec_uwu_hw(old(info)@.model),
            gpu_models: old(info)@.gpu_models.map_values(|g: Seq<char>| spec_uwu_hw(g)),
            pkgman_name: spec_uwu_pkgman(old(info)@.pkgman_name),
            ..old(info)@
        }),
{
    uwu_kernel(&mut info.kernel);
    uwu_hw(&mut info.cpu_model);
    uwu_hw(&mut info.model);
    let n: usize = info.gpu_models.len();
    let mut rewritten: Vec<String> = Vec::new();
    let ghost orig = info@.gpu_models;
    let mut i: usize = 0;
    proof {
        assert(rewritten.deep_view() =~= orig.take(0).map_values(|g: Seq<char>| spec_uwu_hw(g)));
    }
    while i < n
        invariant
            0 <= i <= n,
            n == info.gpu_models@.len(),
            info.gpu_models.deep_view() == orig,
            orig.len() == n,
            rewritten.deep_view() == orig.take(i as int).map_values(
                |g: Seq<char>| spec_uwu_hw(g),
            ),
        decreases n - i,
    {
        let mut g = info.gpu_models[i].clone();
        proof {
            assert(info.gpu_models.deep_view()[i as int] == info.gpu_models@[i as int]@);
        }
        uwu_hw(&mut g);
        proof {
            assert(rewritten.deep_view().push(g@) =~= orig.take(i + 1).map_values(
                |gv: Seq<char>| spec_uwu_hw(gv),
            ));
        }
        rewritten.push(g);
        i = i + 1;
    }
    proof {
        assert(orig.take(n as int) =~= orig);
    }
    info.gpu_models = rewritten;
    uwu_pkgman(&mut info.pkgman_name);
    proof {
        assert(final(info)@ =~= (RegView {
            kernel: spec_uwu_kernel(old(info)@.kernel),
            cpu_model: spec_uwu_hw(old(info)@.cpu_model),
            model: spec_uwu_hw(old(info)@.model),
            gpu_models: old(info)@.gpu_models.map_values(|g: Seq<char>| spec_uwu_hw(g)),
            pkgman_name: spec_uwu_pkgman(old(info)@.pkgman_name),
            ..old(info)@
        }));
    }
}

} // verus!
