//! Configuring the kernel build: which executables to use, found from
//! assignments on the command line, the environment or the search path,
//! and the kernel's own configuration.

use vstd::prelude::*;
use crate::arch::SupportedArch;
use crate::options::Endianness;
use crate::runnable::opt_string_view;
use crate::pattern::{capture_group, compile_pattern, pattern_capture, pattern_compiles};
use crate::runnable::string_views;
use crate::text::{chars_of, join_with, join_strings, string_of, trim_chars, trimmed};

verus! {

/// An executable that the build may run.
#[derive(Clone, Copy, PartialEq, Eq, Debug, Structural)]
pub enum Executable {
    Clang,
    Cargo,
    Xorriso,
    Strip,
    EuStrip,
    Objcopy,
    /// The QEMU system emulator of an architecture, in a byte order where it matters.
    Qemu(SupportedArch, Option<Endianness>),
}

/// The views of a sequence of string slices.
pub open spec fn str_views(v: Seq<&str>) -> Seq<Seq<char>> {
    v.map_values(|s: &str| s@)
}

/// The executables that have a default: each with its usual file name and
/// the environment variables that may name it, in the order they are read.
pub open spec fn default_entry(exe: Executable) -> Option<(Seq<char>, Seq<Seq<char>>)> {
    match exe {
        Executable::Clang => Some(("clang"@, seq!["CC"@, "CLANG"@])),
        Executable::Cargo => Some(("cargo"@, seq!["CARGO"@])),
        Executable::Xorriso => Some(("xorriso"@, seq!["XORRISO"@])),
        Executable::Strip => Some(("strip"@, seq!["STRIP"@])),
        Executable::Objcopy => Some(("objcopy"@, seq!["OBJCOPY"@])),
        Executable::EuStrip => Some(("eu-strip"@, seq!["EU_STRIP"@, "EUSTRIP"@])),
        Executable::Qemu(SupportedArch::Amd64, None) => Some(
            (
                "qemu-system-x86_64"@,
                seq![
                    "QEMU"@,
                    "QEMU_X86_64"@,
                    "QEMUX86_64"@,
                    "QEMUX64"@,
                    "QEMU_X64"@,
                    "QEMUAMD64"@,
                    "QEMU_AMD64"@,
                ],
            ),
        ),
        Executable::Qemu(SupportedArch::AArch64, None) => Some(
            ("qemu-system-aarch64"@, seq!["QEMU"@, "QEMU_AARCH64"@, "QEMUAARCH64"@]),
        ),
        Executable::Qemu(SupportedArch::Arm32, None) => Some(
            ("qemu-system-arm"@, seq!["QEMU"@, "QEMU_ARM"@, "QEMUARM"@]),
        ),
        Executable::Qemu(SupportedArch::Avr32, None) => Some(
            ("qemu-system-avr"@, seq!["QEMU"@, "QEMU_AVR"@, "QEMUAVR"@]),
        ),
        Executable::Qemu(SupportedArch::Riscv32, None) => Some(
            ("qemu-system-riscv32"@, seq!["QEMU"@, "QEMU_RISCV32"@, "QEMURISCV32"@]),
        ),
        Executable::Qemu(SupportedArch::Riscv64, None) => Some(
            ("qemu-system-riscv64"@, seq!["QEMU"@, "QEMU_RISCV64"@, "QEMURISCV64"@]),
        ),
        Executable::Qemu(SupportedArch::PowerPC32, None) => Some(
            ("qemu-system-ppc"@, seq!["QEMU"@, "QEMU_PPC"@, "QEMUPPC"@]),
        ),
        Executable::Qemu(SupportedArch::PowerPC64, None) => Some(
            ("qemu-system-ppc64"@, seq!["QEMU"@, "QEMU_PPC64"@, "QEMUPPC64"@]),
        ),
        Executable::Qemu(SupportedArch::Sparc32, None) => Some(
            ("qemu-system-sparc"@, seq!["QEMU"@, "QEMU_SPARC"@, "QEMUSPARC"@]),
        ),
        Executable::Qemu(SupportedArch::Sparc64, None) => Some(
            ("qemu-system-sparc64"@, seq!["QEMU"@, "QEMU_SPARC64"@, "QEMUSPARC64"@]),
        ),
        Executable::Qemu(SupportedArch::Mips32, Some(Endianness::Big)) => Some(
            ("qemu-system-mips"@, seq!["QEMU"@, "QEMU_MIPS"@, "QEMUMIPS"@]),
        ),
        Executable::Qemu(SupportedArch::Mips64, Some(Endianness::Big)) => Some(
            ("qemu-system-mips64"@, seq!["QEMU"@, "QEMU_MIPS64"@, "QEMUMIPS64"@]),
        ),
        Executable::Qemu(SupportedArch::Mips32, Some(Endianness::Little)) => Some(
            ("qemu-system-mipsel"@, seq!["QEMU"@, "QEMU_MIPSEL"@, "QEMUMIPSEL"@]),
        ),
        Executable::Qemu(SupportedArch::Mips64, Some(Endianness::Little)) => Some(
            ("qemu-system-mips64el"@, seq!["QEMU"@, "QEMU_MIPS64EL"@, "QEMUMIPS64EL"@]),
        ),
        Executable::Qemu(SupportedArch::LoongArch64, None) => Some(
            ("qemu-system-loongarch64"@, seq!["QEMU"@, "QEMU_LOONGARCH64"@, "QEMULOONGARCH64"@]),
        ),
        _ => None,
    }
}

/// The usual file name of an executable and the environment variables that may name it.
pub struct ExecutableDefault {
    pub name: &'static str,
    pub vars: Vec<&'static str>,
}

/// The default of an executable, where it has one (see [`default_entry`]).
pub fn default_executable(exe: &Executable) -> (res: Option<ExecutableDefault>)
    ensures
        match default_entry(*exe) {
            Some((n, vs)) => res matches Some(d) && d.name@ == n && str_views(d.vars@) == vs,
            None => res is None,
        },
{
    let (name, vars): (&'static str, Vec<&'static str>) = match exe {
        Executable::Clang => ("clang", vec!["CC", "CLANG"]),
        Executable::Cargo => ("cargo", vec!["CARGO"]),
        Executable::Xorriso => ("xorriso", vec!["XORRISO"]),
        Executable::Strip => ("strip", vec!["STRIP"]),
        Executable::Objcopy => ("objcopy", vec!["OBJCOPY"]),
        Executable::EuStrip => ("eu-strip", vec!["EU_STRIP", "EUSTRIP"]),
        Executable::Qemu(SupportedArch::Amd64, None) => (
            "qemu-system-x86_64",
            vec![
                "QEMU",
                "QEMU_X86_64",
                "QEMUX86_64",
                "QEMUX64",
                "QEMU_X64",
                "QEMUAMD64",
                "QEMU_AMD64",
            ],
        ),
        Executable::Qemu(SupportedArch::AArch64, None) => (
            "qemu-system-aarch64",
            vec!["QEMU", "QEMU_AARCH64", "QEMUAARCH64"],
        ),
        Executable::Qemu(SupportedArch::Arm32, None) => (
            "qemu-system-arm",
            vec!["QEMU", "QEMU_ARM", "QEMUARM"],
        ),
        Executable::Qemu(SupportedArch::Avr32, None) => (
            "qemu-system-avr",
            vec!["QEMU", "QEMU_AVR", "QEMUAVR"],
        ),
        Executable::Qemu(SupportedArch::Riscv32, None) => (
            "qemu-system-riscv32",
            vec!["QEMU", "QEMU_RISCV32", "QEMURISCV32"],
        ),
        Executable::Qemu(SupportedArch::Riscv64, None) => (
            "qemu-system-riscv64",
            vec!["QEMU", "QEMU_RISCV64", "QEMURISCV64"],
        ),
        Executable::Qemu(SupportedArch::PowerPC32, None) => (
            "qemu-system-ppc",
            vec!["QEMU", "QEMU_PPC", "QEMUPPC"],
        ),
        Executable::Qemu(SupportedArch::PowerPC64, None) => (
            "qemu-system-ppc64",
            vec!["QEMU", "QEMU_PPC64", "QEMUPPC64"],
        ),
        Executable::Qemu(SupportedArch::Sparc32, None) => (
            "qemu-system-sparc",
            vec!["QEMU", "QEMU_SPARC", "QEMUSPARC"],
        ),
        Executable::Qemu(SupportedArch::Sparc64, None) => (
            "qemu-system-sparc64",
            vec!["QEMU", "QEMU_SPARC64", "QEMUSPARC64"],
        ),
        Executable::Qemu(SupportedArch::Mips32, Some(Endianness::Big)) => (
            "qemu-system-mips",
            vec!["QEMU", "QEMU_MIPS", "QEMUMIPS"],
        ),
        Executable::Qemu(SupportedArch::Mips64, Some(Endianness::Big)) => (
            "qemu-system-mips64",
            vec!["QEMU", "QEMU_MIPS64", "QEMUMIPS64"],
        ),
        Executable::Qemu(SupportedArch::Mips32, Some(Endianness::Little)) => (
            "qemu-system-mipsel",
            vec!["QEMU", "QEMU_MIPSEL", "QEMUMIPSEL"],
        ),
        Executable::Qemu(SupportedArch::Mips64, Some(Endianness::Little)) => (
            "qemu-system-mips64el",
            vec!["QEMU", "QEMU_MIPS64EL", "QEMUMIPS64EL"],
        ),
        Executable::Qemu(SupportedArch::LoongArch64, None) => (
            "qemu-system-loongarch64",
            vec!["QEMU", "QEMU_LOONGARCH64", "QEMULOONGARCH64"],
        ),
        _ => {
            return None;
        },
    };
    Some(ExecutableDefault { name, vars })
}

/// The usual file name of an executable that has a default.
pub fn get_default_executable_short_name(exe: &Executable) -> (res: &'static str)
    requires
        default_entry(*exe) is Some,
    ensures
        res@ == default_entry(*exe)->Some_0.0,
{
    match default_executable(exe) {
        Some(d) => d.name,
        None => vstd::pervasive::unreached(),
    }
}

/// The executables that configuring looks for, in order.
pub open spec fn executables_to_find_spec() -> Seq<Executable> {
    seq![
        Executable::Clang,
        Executable::Cargo,
        Executable::Xorriso,
        Executable::Strip,
        Executable::EuStrip,
        Executable::Objcopy,
        Executable::Qemu(SupportedArch::Amd64, None),
        Executable::Qemu(SupportedArch::AArch64, None),
        Executable::Qemu(SupportedArch::Arm32, None),
        Executable::Qemu(SupportedArch::Avr32, None),
        Executable::Qemu(SupportedArch::Riscv32, None),
        Executable::Qemu(SupportedArch::Riscv64, None),
        Executable::Qemu(SupportedArch::PowerPC32, None),
        Executable::Qemu(SupportedArch::PowerPC64, None),
        Executable::Qemu(SupportedArch::Sparc32, None),
        Executable::Qemu(SupportedArch::Sparc64, None),
        Executable::Qemu(SupportedArch::Mips32, Some(Endianness::Big)),
        Executable::Qemu(SupportedArch::Mips64, Some(Endianness::Big)),
        Executable::Qemu(SupportedArch::Mips32, Some(Endianness::Little)),
        Executable::Qemu(SupportedArch::Mips64, Some(Endianness::Little)),
        Executable::Qemu(SupportedArch::LoongArch64, None),
    ]
}

/// The executables that configuring looks for, in order.
pub fn executables_to_find() -> (res: Vec<Executable>)
    ensures
        res@ == executables_to_find_spec(),
{
    vec![
        Executable::Clang,
        Executable::Cargo,
        Executable::Xorriso,
        Executable::Strip,
        Executable::EuStrip,
        Executable::Objcopy,
        Executable::Qemu(SupportedArch::Amd64, None),
        Executable::Qemu(SupportedArch::AArch64, None),
        Executable::Qemu(SupportedArch::Arm32, None),
        Executable::Qemu(SupportedArch::Avr32, None),
        Executable::Qemu(SupportedArch::Riscv32, None),
        Executable::Qemu(SupportedArch::Riscv64, None),
        Executable::Qemu(SupportedArch::PowerPC32, None),
        Executable::Qemu(SupportedArch::PowerPC64, None),
        Executable::Qemu(SupportedArch::Sparc32, None),
        Executable::Qemu(SupportedArch::Sparc64, None),
        Executable::Qemu(SupportedArch::Mips32, Some(Endianness::Big)),
        Executable::Qemu(SupportedArch::Mips64, Some(Endianness::Big)),
        Executable::Qemu(SupportedArch::Mips32, Some(Endianness::Little)),
        Executable::Qemu(SupportedArch::Mips64, Some(Endianness::Little)),
        Executable::Qemu(SupportedArch::LoongArch64, None),
    ]
}

/// The pattern of an assignment `NAME=path` to one of the variables: the
/// names as alternatives in group 1, the path (a run of non-white-space) in group 2.
pub open spec fn assignment_pattern(vars: Seq<Seq<char>>) -> Seq<char> {
    "("@ + join_with(vars, '|') + ")\\=(\\S+)"@
}

/// The pattern of an assignment to one of the variables.
pub fn assignment_pattern_of(vars: &Vec<&'static str>) -> (res: String)
    ensures
        res@ == assignment_pattern(str_views(vars@)),
{
    let mut owned: Vec<String> = Vec::new();
    let mut i: usize = 0;
    while i < vars.len()
        invariant
            i <= vars.len(),
            string_views(owned@) == str_views(vars@.take(i as int)),
        decreases vars.len() - i,
    {
        let ghost prev = owned@;
        let piece = vars[i].to_owned();
        assert(piece@ == vars@[i as int]@);
        owned.push(piece);
        assert(vars@.take(i + 1) =~= vars@.take(i as int).push(vars@[i as int]));
        assert(string_views(owned@) =~= string_views(prev).push(piece@));
        i += 1;
        assert(string_views(owned@) =~= str_views(vars@.take(i as int)));
    }
    assert(vars@.take(vars.len() as int) =~= vars@);
    let joined = join_strings(&owned, '|');
    let mut raw = "(".to_owned();
    raw.append(joined.as_str());
    raw.append(")\\=(\\S+)");
    raw
}

/// The views of a sequence of optional strings.
pub open spec fn opt_views(v: Seq<Option<String>>) -> Seq<Option<Seq<char>>> {
    v.map_values(|o: Option<String>| opt_string_view(o))
}

/// The first value held at or after position `i`.
pub open spec fn first_some_from(s: Seq<Option<Seq<char>>>, i: int) -> Option<Seq<char>>
    decreases s.len() - i,
{
    if 0 <= i < s.len() {
        if s[i] is Some {
            s[i]
        } else {
            first_some_from(s, i + 1)
        }
    } else {
        None
    }
}

/// The path an executable is taken from: the first assignment that names
/// it, else the first of its environment variables that is set, else the
/// one found on the search path.
pub open spec fn chosen_path(
    captures: Seq<Option<Seq<char>>>,
    env: Seq<Option<Seq<char>>>,
    on_path: Option<Seq<char>>,
) -> Option<Seq<char>> {
    match first_some_from(captures, 0) {
        Some(p) => Some(p),
        None => match first_some_from(env, 0) {
            Some(p) => Some(p),
            None => on_path,
        },
    }
}

fn first_some(v: &Vec<Option<String>>) -> (res: Option<String>)
    ensures
        opt_string_view(res) == first_some_from(opt_views(v@), 0),
{
    let ghost views = opt_views(v@);
    let mut i: usize = 0;
    while i < v.len()
        invariant
            i <= v.len(),
            views == opt_views(v@),
            first_some_from(views, i as int) == first_some_from(views, 0),
        decreases v.len() - i,
    {
        if let Some(p) = &v[i] {
            return Some(p.clone());
        }
        i += 1;
    }
    None
}

/// Picks the path of an executable (see [`chosen_path`]).
pub fn choose_path(captures: &Vec<Option<String>>, env: &Vec<Option<String>>, on_path: Option<String>) -> (res: Option<String>)
    ensures
        opt_string_view(res) == chosen_path(opt_views(captures@), opt_views(env@), opt_string_view(on_path)),
{
    match first_some(captures) {
        Some(p) => Some(p),
        None => match first_some(env) {
            Some(p) => Some(p),
            None => on_path,
        },
    }
}

/// What each assignment gives for the pattern: group 2 of its first match,
/// the assignment trimmed of white space.
pub open spec fn assignment_captures(pattern: Seq<char>, assignments: Seq<Seq<char>>) -> Seq<Option<Seq<char>>> {
    assignments.map_values(|a: Seq<char>| pattern_capture(pattern, trimmed(a), 2))
}

/// Why configuring failed.
#[derive(Clone, Copy, PartialEq, Eq, Debug, Structural)]
pub enum ConfigureError {
    /// The pattern built from an executable's variables does not compile.
    PatternRejected,
}

/// The path of an executable with the given environment variables: from
/// the assignments, else from `env` (the variables' values, in order), else
/// `on_path` (what a search of the path found for its usual name).
pub fn find_exe(
    vars: &Vec<&'static str>,
    assignments: &Vec<String>,
    env: &Vec<Option<String>>,
    on_path: Option<String>,
) -> (res: Result<Option<String>, ConfigureError>)
    ensures
        ({
            let pattern = assignment_pattern(str_views(vars@));
            &&& pattern_compiles(pattern) ==> (res matches Ok(found) && opt_string_view(found)
                == chosen_path(
                assignment_captures(pattern, string_views(assignments@)),
                opt_views(env@),
                opt_string_view(on_path),
            ))
            &&& !pattern_compiles(pattern) ==> res == Err::<Option<String>, ConfigureError>(
                ConfigureError::PatternRejected,
            )
        }),
{
    let raw = assignment_pattern_of(vars);
    let compiled = match compile_pattern(raw.as_str()) {
        Some(c) => c,
        None => {
            return Err(ConfigureError::PatternRejected);
        },
    };
    let ghost expected = assignment_captures(raw@, string_views(assignments@));
    let mut captures: Vec<Option<String>> = Vec::new();
    let mut i: usize = 0;
    while i < assignments.len()
        invariant
            i <= assignments.len(),
            compiled@ == raw@,
            expected == assignment_captures(raw@, string_views(assignments@)),
            opt_views(captures@) == expected.take(i as int),
        decreases assignments.len() - i,
    {
        let trimmed_text = string_of(&trim_chars(&chars_of(assignments[i].as_str())));
        let c = capture_group(&compiled, trimmed_text.as_str(), 2);
        assert(string_views(assignments@)[i as int] == assignments@[i as int]@);
        assert(expected[i as int] == opt_string_view(c));
        let ghost prev = captures@;
        captures.push(c);
        assert(opt_views(captures@) =~= opt_views(prev).push(opt_string_view(c)));
        assert(expected.take(i + 1) =~= expected.take(i as int).push(expected[i as int]));
        i += 1;
        assert(opt_views(captures@) =~= expected.take(i as int));
    }
    assert(expected.take(assignments.len() as int) =~= expected);
    Ok(choose_path(&captures, env, on_path))
}

/// The bootloaders the kernel image can be booted with.
#[derive(Clone, Copy, PartialEq, Eq, Debug, Structural)]
pub enum KConfigBootBootloader {
    Limine,
    GRUB2,
    UEFI,
}

/// The kebab-case name of a bootloader.
pub open spec fn bootloader_name(b: KConfigBootBootloader) -> Seq<char> {
    match b {
        KConfigBootBootloader::Limine => "limine"@,
        KConfigBootBootloader::GRUB2 => "grub2"@,
        KConfigBootBootloader::UEFI => "uefi"@,
    }
}

impl KConfigBootBootloader {
    /// The default bootloader: Limine.
    pub fn default_bootloader() -> (res: KConfigBootBootloader)
        ensures
            res == KConfigBootBootloader::Limine,
    {
        KConfigBootBootloader::Limine
    }

    /// The kebab-case name of the bootloader.
    pub fn as_str(&self) -> (res: &'static str)
        ensures
            res@ == bootloader_name(*self),
    {
        match self {
            KConfigBootBootloader::Limine => "limine",
            KConfigBootBootloader::GRUB2 => "grub2",
            KConfigBootBootloader::UEFI => "uefi",
        }
    }
}

/// The boot section of the kernel configuration.
#[derive(Clone, Copy, PartialEq, Eq, Debug, Structural)]
pub struct KConfigBoot {
    pub bootloader: KConfigBootBootloader,
}

impl Default for KConfigBoot {
    fn default() -> (res: Self)
        ensures
            res.bootloader == KConfigBootBootloader::Limine,
    {
        KConfigBoot { bootloader: KConfigBootBootloader::Limine }
    }
}

/// The kernel configuration.
#[derive(Clone, Copy, PartialEq, Eq, Debug, Structural)]
pub struct KConfig {
    pub boot: KConfigBoot,
}

impl Default for KConfig {
    fn default() -> (res: Self)
        ensures
            res.boot.bootloader == KConfigBootBootloader::Limine,
    {
        KConfig { boot: KConfigBoot::default() }
    }
}

/// What configuring found: the path of each executable found, and the
/// kernel configuration.
pub struct ZerosConfig {
    pub executables: Vec<(Executable, String)>,
    pub kcfg: KConfig,
}

/// The abstract value of a [`ZerosConfig`].
pub struct ConfigModel {
    pub executables: Seq<(Executable, Seq<char>)>,
    pub kcfg: KConfig,
}

/// The views of executable entries.
pub open spec fn entry_views(v: Seq<(Executable, String)>) -> Seq<(Executable, Seq<char>)> {
    v.map_values(|e: (Executable, String)| (e.0, e.1@))
}

impl View for ZerosConfig {
    type V = ConfigModel;

    open spec fn view(&self) -> ConfigModel {
        ConfigModel { executables: entry_views(self.executables@), kcfg: self.kcfg }
    }
}

/// The path recorded for an executable at or after position `i`: the first
/// entry for it.
pub open spec fn lookup_from(es: Seq<(Executable, Seq<char>)>, exe: Executable, i: int) -> Option<Seq<char>>
    decreases es.len() - i,
{
    if 0 <= i < es.len() {
        if es[i].0 == exe {
            Some(es[i].1)
        } else {
            lookup_from(es, exe, i + 1)
        }
    } else {
        None
    }
}

/// The path recorded for an executable.
pub open spec fn lookup_executable(es: Seq<(Executable, Seq<char>)>, exe: Executable) -> Option<Seq<char>> {
    lookup_from(es, exe, 0)
}

impl ZerosConfig {
    /// The path recorded for an executable, if any.
    pub fn find(&self, name: &Executable) -> (res: Option<&String>)
        ensures
            match lookup_executable(self@.executables, *name) {
                Some(p) => res matches Some(r) && r@ == p,
                None => res is None,
            },
    {
        let ghost es = self@.executables;
        let mut i: usize = 0;
        while i < self.executables.len()
            invariant
                i <= self.executables.len(),
                es == entry_views(self.executables@),
                lookup_from(es, *name, i as int) == lookup_executable(es, *name),
            decreases self.executables.len() - i,
        {
            if self.executables[i].0 == *name {
                return Some(&self.executables[i].1);
            }
            i += 1;
        }
        None
    }

    /// The path recorded for an executable that configuring found.
    pub fn get(&self, name: &Executable) -> (res: &String)
        requires
            lookup_executable(self@.executables, *name) is Some,
        ensures
            res@ == lookup_executable(self@.executables, *name)->Some_0,
    {
        match self.find(name) {
            Some(p) => p,
            None => vstd::pervasive::unreached(),
        }
    }
}

/// What the environment and the search path give for one executable: the
/// values of its variables, in the order of its defaults, and the result of
/// a search of the path for its usual name.
pub struct ExecutableProbe {
    pub env: Vec<Option<String>>,
    pub on_path: Option<String>,
}

/// The variables of an executable that has a default.
pub open spec fn default_vars(exe: Executable) -> Seq<Seq<char>> {
    default_entry(exe)->Some_0.1
}

/// The path found for an executable.
pub open spec fn found_path(exe: Executable, assignments: Seq<Seq<char>>, probe: ExecutableProbe) -> Option<Seq<char>> {
    chosen_path(
        assignment_captures(assignment_pattern(default_vars(exe)), assignments),
        opt_views(probe.env@),
        opt_string_view(probe.on_path),
    )
}

/// The entries found for the first `n` executables to find, in order,
/// leaving out those found nowhere.
pub open spec fn found_entries(assignments: Seq<Seq<char>>, probes: Seq<ExecutableProbe>, n: int) -> Seq<(Executable, Seq<char>)>
    decreases n,
{
    if n <= 0 {
        Seq::empty()
    } else {
        let before = found_entries(assignments, probes, n - 1);
        let exe = executables_to_find_spec()[n - 1];
        match found_path(exe, assignments, probes[n - 1]) {
            Some(p) => before.push((exe, p)),
            None => before,
        }
    }
}

/// Whether the assignment patterns of the first `n` executables to find all compile.
pub open spec fn patterns_compile(n: int) -> bool {
    forall|i: int| 0 <= i < n ==> pattern_compiles(
        #[trigger] assignment_pattern(default_vars(executables_to_find_spec()[i])),
    )
}

proof fn lemma_to_find_have_defaults()
    ensures
        forall|i: int| 0 <= i < executables_to_find_spec().len() ==> default_entry(
            #[trigger] executables_to_find_spec()[i],
        ) is Some,
{
}

/// Where an executable with a default stands among the executables to find.
pub open spec fn to_find_index(exe: Executable) -> int {
    match exe {
        Executable::Clang => 0,
        Executable::Cargo => 1,
        Executable::Xorriso => 2,
        Executable::Strip => 3,
        Executable::EuStrip => 4,
        Executable::Objcopy => 5,
        Executable::Qemu(SupportedArch::Amd64, None) => 6,
        Executable::Qemu(SupportedArch::AArch64, None) => 7,
        Executable::Qemu(SupportedArch::Arm32, None) => 8,
        Executable::Qemu(SupportedArch::Avr32, None) => 9,
        Executable::Qemu(SupportedArch::Riscv32, None) => 10,
        Executable::Qemu(SupportedArch::Riscv64, None) => 11,
        Executable::Qemu(SupportedArch::PowerPC32, None) => 12,
        Executable::Qemu(SupportedArch::PowerPC64, None) => 13,
        Executable::Qemu(SupportedArch::Sparc32, None) => 14,
        Executable::Qemu(SupportedArch::Sparc64, None) => 15,
        Executable::Qemu(SupportedArch::Mips32, Some(Endianness::Big)) => 16,
        Executable::Qemu(SupportedArch::Mips64, Some(Endianness::Big)) => 17,
        Executable::Qemu(SupportedArch::Mips32, Some(Endianness::Little)) => 18,
        Executable::Qemu(SupportedArch::Mips64, Some(Endianness::Little)) => 19,
        Executable::Qemu(SupportedArch::LoongArch64, None) => 20,
        _ => -1,
    }
}

/// The executables that have a default are exactly those that configuring
/// looks for.
pub proof fn lemma_defaults_are_what_is_looked_for(exe: Executable)
    ensures
        default_entry(exe) is Some <==> executables_to_find_spec().contains(exe),
{
    let s = executables_to_find_spec();
    lemma_to_find_have_defaults();
    if s.contains(exe) {
        let i = choose|i: int| 0 <= i < s.len() && s[i] == exe;
        assert(default_entry(s[i]) is Some);
    }
    if default_entry(exe) is Some {
        let i = to_find_index(exe);
        assert(0 <= i < s.len() && s[i] == exe);
    }
}

/// Configures the kernel build: the bootloader, and the path of each
/// executable to find (see [`find_exe`]), where `probes` holds what the
/// environment and the search path give for each, in the order of
/// [`executables_to_find`].
pub fn configure_zeros(
    bootloader: KConfigBootBootloader,
    assignments: &Vec<String>,
    probes: &Vec<ExecutableProbe>,
) -> (res: Result<ZerosConfig, ConfigureError>)
    requires
        probes@.len() == executables_to_find_spec().len(),
    ensures
        res is Ok <==> patterns_compile(executables_to_find_spec().len() as int),
        res matches Ok(cfg) ==> cfg@.kcfg.boot.bootloader == bootloader && cfg@.executables
            == found_entries(string_views(assignments@), probes@, executables_to_find_spec().len() as int),
        res matches Err(e) ==> e == ConfigureError::PatternRejected,
{
    let mut kcfg = KConfig::default();
    kcfg.boot.bootloader = bootloader;
    let to_find = executables_to_find();
    let ghost assigns = string_views(assignments@);
    let mut executables: Vec<(Executable, String)> = Vec::new();
    let mut i: usize = 0;
    proof {
        lemma_to_find_have_defaults();
    }
    while i < to_find.len()
        invariant
            i <= to_find.len(),
            to_find@ == executables_to_find_spec(),
            probes@.len() == to_find.len(),
            assigns == string_views(assignments@),
            forall|k: int| 0 <= k < executables_to_find_spec().len() ==> default_entry(
                #[trigger] executables_to_find_spec()[k],
            ) is Some,
            patterns_compile(i as int),
            entry_views(executables@) == found_entries(assigns, probes@, i as int),
        decreases to_find.len() - i,
    {
        let exe = to_find[i];
        assert(default_entry(executables_to_find_spec()[i as int]) is Some);
        let d = match default_executable(&exe) {
            Some(d) => d,
            None => vstd::pervasive::unreached(),
        };
        let probe = &probes[i];
        let found = match find_exe(&d.vars, assignments, &probe.env, probe.on_path.clone()) {
            Ok(f) => f,
            Err(e) => {
                proof {
                    assert(!pattern_compiles(assignment_pattern(default_vars(executables_to_find_spec()[i as int]))));
                }
                return Err(e);
            },
        };
        let ghost prev = executables@;
        match found {
            Some(p) => {
                executables.push((exe, p));
                assert(entry_views(executables@) =~= entry_views(prev).push((exe, p@)));
            },
            None => {},
        }
        i += 1;
    }
    Ok(ZerosConfig { executables, kcfg })
}

/// The subprojects that can be configured: the kernel, with its bootloader
/// and the `NAME=path` assignments of executables.
pub enum XtaskConfigurableSubproj {
    Zeros { bootloader: KConfigBootBootloader, assignments: Vec<String> },
}

impl XtaskConfigurableSubproj {
    /// Configures the subproject (see [`configure_zeros`]).
    pub fn execute(&self, probes: &Vec<ExecutableProbe>) -> (res: Result<ZerosConfig, ConfigureError>)
        requires
            probes@.len() == executables_to_find_spec().len(),
        ensures
            match self {
                XtaskConfigurableSubproj::Zeros { bootloader, assignments } => {
                    &&& res is Ok <==> patterns_compile(executables_to_find_spec().len() as int)
                    &&& res matches Ok(cfg) ==> cfg@.kcfg.boot.bootloader == *bootloader && cfg@.executables
                        == found_entries(string_views(assignments@), probes@, executables_to_find_spec().len() as int)
                },
            },
    {
        match self {
            XtaskConfigurableSubproj::Zeros { bootloader, assignments } => configure_zeros(*bootloader, assignments, probes),
        }
    }
}

proof fn lemma_to_find_distinct()
    ensures
        forall|i: int, j: int|
            0 <= i < j < executables_to_find_spec().len() ==> executables_to_find_spec()[i]
                != executables_to_find_spec()[j],
{
    let t = executables_to_find_spec();
    assert forall|i: int, j: int| 0 <= i < j < t.len() implies t[i] != t[j] by {
        assert(t.len() == 21);
    }
}

proof fn lemma_lookup_from_push(es: Seq<(Executable, Seq<char>)>, x: (Executable, Seq<char>), e: Executable, i: int)
    requires
        0 <= i <= es.len(),
    ensures
        lookup_from(es.push(x), e, i) == match lookup_from(es, e, i) {
            Some(p) => Some(p),
            None => if x.0 == e {
                Some(x.1)
            } else {
                None
            },
        },
    decreases es.len() - i,
{
    if i < es.len() {
        lemma_lookup_from_push(es, x, e, i + 1);
        assert(es.push(x)[i] == es[i]);
    } else {
        assert(es.push(x)[i] == x);
        assert(lookup_from(es.push(x), e, i + 1) is None);
    }
}

proof fn lemma_lookup_found(assignments: Seq<Seq<char>>, probes: Seq<ExecutableProbe>, n: int, k: int)
    requires
        0 <= n <= executables_to_find_spec().len(),
        0 <= k < executables_to_find_spec().len(),
        forall|i: int, j: int|
            0 <= i < j < executables_to_find_spec().len() ==> executables_to_find_spec()[i]
                != executables_to_find_spec()[j],
    ensures
        lookup_executable(found_entries(assignments, probes, n), executables_to_find_spec()[k]) == if k < n {
            found_path(executables_to_find_spec()[k], assignments, probes[k])
        } else {
            None
        },
    decreases n,
{
    let t = executables_to_find_spec();
    if n > 0 {
        lemma_lookup_found(assignments, probes, n - 1, k);
        let before = found_entries(assignments, probes, n - 1);
        match found_path(t[n - 1], assignments, probes[n - 1]) {
            Some(p) => {
                lemma_lookup_from_push(before, (t[n - 1], p), t[k], 0);
                if k != n - 1 {
                    if k < n - 1 {
                        assert(t[k] != t[n - 1]);
                    } else {
                        assert(t[n - 1] != t[k]);
                    }
                }
            },
            None => {},
        }
    }
}

/// Once configuring succeeded, the path recorded for each executable it
/// looks for is the one found for it: from the assignments, else the
/// environment, else the search path (see [`found_path`]); none where it was
/// found nowhere.
pub proof fn lemma_get_after_configure(assignments: Seq<Seq<char>>, probes: Seq<ExecutableProbe>, k: int)
    requires
        probes.len() == executables_to_find_spec().len(),
        0 <= k < executables_to_find_spec().len(),
    ensures
        lookup_executable(
            found_entries(assignments, probes, executables_to_find_spec().len() as int),
            executables_to_find_spec()[k],
        ) == found_path(executables_to_find_spec()[k], assignments, probes[k]),
{
    lemma_to_find_distinct();
    lemma_lookup_found(assignments, probes, executables_to_find_spec().len() as int, k);
}

} // verus!
