//! Helpers of the kernel's build script: the values Cargo hands it, the
//! paths of its scripts, the command line that compiles C code, and the
//! names of the archives it links.

use vstd::prelude::*;
use crate::text::{
    str_eq,
    contains_str, decimal, ends_with, is_prefix, is_suffix, joined_path, occurs_in, parse_isize,
    parse_usize, parsed_integer, path_join, starts_with, strip_prefix, strip_suffix, u64_to_decimal,
};
use crate::runnable::{clone_strings, extend_strings, string_views, opt_string_view, CommandLine};

verus! {

/// A variable of the build script's environment, read once: the first
/// reading is kept, and every later read gives it, whatever the environment
/// holds by then.
pub struct CachedVar {
    kept: Option<Option<String>>,
}

impl View for CachedVar {
    type V = Option<Option<Seq<char>>>;

    /// The reading kept, once there is one.
    closed spec fn view(&self) -> Option<Option<Seq<char>>> {
        match self.kept {
            Some(v) => Some(opt_string_view(v)),
            None => None,
        }
    }
}

/// The value a read gives: the reading kept before, else the current one.
pub open spec fn kept_reading(before: Option<Option<Seq<char>>>, reading: Option<Seq<char>>) -> Option<Seq<char>> {
    match before {
        Some(v) => v,
        None => reading,
    }
}

impl CachedVar {
    /// A variable not read yet.
    pub fn new() -> (res: CachedVar)
        ensures
            res@ is None,
    {
        CachedVar { kept: None }
    }

    /// Reads the variable, given what the environment holds now: the first
    /// reading is kept and returned by every read.
    pub fn read(&mut self, reading: Option<String>) -> (res: Option<String>)
        ensures
            opt_string_view(res) == kept_reading(old(self)@, opt_string_view(reading)),
            final(self)@ == Some(kept_reading(old(self)@, opt_string_view(reading))),
    {
        match &self.kept {
            Some(v) => v.clone(),
            None => {
                let kept = reading.clone();
                self.kept = Some(reading);
                kept
            },
        }
    }
}

/// Reading a variable twice gives the first reading both times.
pub proof fn lemma_first_reading_kept(before: Option<Option<Seq<char>>>, first: Option<Seq<char>>, second: Option<Seq<char>>)
    ensures
        kept_reading(Some(kept_reading(before, first)), second) == kept_reading(before, first),
{
}

/// The build directory that Cargo gives in `OUT_DIR`, read once.
pub fn get_outdir(cache: &mut CachedVar, out_dir: Option<String>) -> (res: Option<String>)
    ensures
        opt_string_view(res) == kept_reading(old(cache)@, opt_string_view(out_dir)),
        final(cache)@ == Some(kept_reading(old(cache)@, opt_string_view(out_dir))),
{
    cache.read(out_dir)
}

/// The target triple that Cargo gives in `TARGET`, read once.
pub fn get_target_triple(cache: &mut CachedVar, target: Option<String>) -> (res: Option<String>)
    ensures
        opt_string_view(res) == kept_reading(old(cache)@, opt_string_view(target)),
        final(cache)@ == Some(kept_reading(old(cache)@, opt_string_view(target))),
{
    cache.read(target)
}

/// The target architecture that Cargo gives in `CARGO_CFG_TARGET_ARCH`,
/// read once.
pub fn get_target_arch(cache: &mut CachedVar, target_arch: Option<String>) -> (res: Option<String>)
    ensures
        opt_string_view(res) == kept_reading(old(cache)@, opt_string_view(target_arch)),
        final(cache)@ == Some(kept_reading(old(cache)@, opt_string_view(target_arch))),
{
    cache.read(target_arch)
}

/// The profile that Cargo gives in `PROFILE`, read once.
pub fn get_profile(cache: &mut CachedVar, profile: Option<String>) -> (res: Option<String>)
    ensures
        opt_string_view(res) == kept_reading(old(cache)@, opt_string_view(profile)),
        final(cache)@ == Some(kept_reading(old(cache)@, opt_string_view(profile))),
{
    cache.read(profile)
}

/// The CPU that the kernel is built for, given in `ZEROS_TARGET_CPU`, read once.
pub fn get_target_cpu(cache: &mut CachedVar, target_cpu: Option<String>) -> (res: Option<String>)
    ensures
        opt_string_view(res) == kept_reading(old(cache)@, opt_string_view(target_cpu)),
        final(cache)@ == Some(kept_reading(old(cache)@, opt_string_view(target_cpu))),
{
    cache.read(target_cpu)
}

/// The value is absent or reads as an `isize`.
pub open spec fn reads_as_isize(v: Option<Seq<char>>) -> bool {
    match v {
        None => true,
        Some(s) => parsed_integer(s, true) matches Some(x) && isize::MIN <= x <= isize::MAX,
    }
}

/// The value is absent or reads as a `usize`.
pub open spec fn reads_as_usize(v: Option<Seq<char>>) -> bool {
    match v {
        None => true,
        Some(s) => parsed_integer(s, false) matches Some(x) && 0 <= x <= usize::MAX,
    }
}

/// The optimisation level that Cargo gives in `OPT_LEVEL`, read once as a
/// number.
pub fn get_opt_lvl(cache: &mut CachedVar, opt_level: Option<String>) -> (res: Option<isize>)
    requires
        reads_as_isize(kept_reading(old(cache)@, opt_string_view(opt_level))),
    ensures
        match kept_reading(old(cache)@, opt_string_view(opt_level)) {
            None => res is None,
            Some(s) => res == Some(parsed_integer(s, true).unwrap() as isize),
        },
        final(cache)@ == Some(kept_reading(old(cache)@, opt_string_view(opt_level))),
{
    match cache.read(opt_level) {
        None => None,
        Some(s) => parse_isize(s.as_str()),
    }
}

/// The pointer width that Cargo gives in `CARGO_CFG_TARGET_POINTER_WIDTH`,
/// read once as a number.
pub fn get_target_ptr_width(cache: &mut CachedVar, width: Option<String>) -> (res: Option<usize>)
    requires
        reads_as_usize(kept_reading(old(cache)@, opt_string_view(width))),
    ensures
        match kept_reading(old(cache)@, opt_string_view(width)) {
            None => res is None,
            Some(s) => res == Some(parsed_integer(s, false).unwrap() as usize),
        },
        final(cache)@ == Some(kept_reading(old(cache)@, opt_string_view(width))),
{
    match cache.read(width) {
        None => None,
        Some(s) => parse_usize(s.as_str()),
    }
}

/// The kernel's `scripts` directory under the top directory.
pub fn get_scripts(topdir: &str) -> (res: String)
    ensures
        res@ == joined_path(topdir@, "scripts"@),
{
    path_join(topdir, "scripts")
}

/// The name of the linker script for an architecture, of its template when
/// `template` holds.
pub open spec fn linker_script_name(arch: Seq<char>, template: bool) -> Seq<char> {
    "linker-"@ + arch + ".ld"@ + if template { ".template"@ } else { ""@ }
}

/// The path of the kernel's linker script (or of its template) for the
/// target architecture: `<topdir>/zerOS/linker/linker-<arch>.ld[.template]`.
pub fn linker_script(topdir: &str, arch: &str, template: bool) -> (res: String)
    ensures
        res@ == joined_path(joined_path(joined_path(topdir@, "zerOS"@), "linker"@), linker_script_name(arch@, template)),
{
    let mut name = "linker-".to_owned();
    name.append(arch);
    name.append(".ld");
    if template {
        name.append(".template");
    } else {
        name.append("");
    }
    let a = path_join(topdir, "zerOS");
    let b = path_join(a.as_str(), "linker");
    path_join(b.as_str(), name.as_str())
}

/// Which options C code is compiled with.
#[derive(Clone, Copy, PartialEq, Eq, Debug)]
pub enum COptsConfig {
    /// Early boot code: generic CPU, general registers only, soft floats.
    InitCode,
    /// Ordinary kernel code, tuned for the target CPU.
    Normal,
}

/// The target given to clang: the architecture, with `-elf` added when it
/// ends with `-none`.
pub open spec fn clang_target(arch: Seq<char>) -> Seq<char> {
    if is_suffix("-none"@, arch) {
        arch + "-elf"@
    } else {
        arch
    }
}

/// The optimisation flags: link-time optimised `-O3` for an `lto` profile or
/// a non-zero level, debug-friendly flags otherwise.
pub open spec fn optimisation_flags(profile: Seq<char>, opt_lvl: isize) -> Seq<Seq<char>> {
    if occurs_in("lto"@, profile) || opt_lvl != 0 {
        seq!["-flto"@, "-O3"@]
    } else {
        seq!["-ggdb3"@, "-Og"@]
    }
}

/// The code-generation flags of a configuration.
pub open spec fn config_flags(config: COptsConfig, target: Seq<char>, cpu: Seq<char>) -> Seq<Seq<char>> {
    match config {
        COptsConfig::InitCode => {
            let c = if is_prefix("x86_64"@, target) { "x86-64"@ } else { "generic"@ };
            seq![
                "-march="@ + c,
                "-mtune="@ + c,
                "-mgeneral-regs-only"@,
                "-mno-mmx"@,
                "-mno-sse"@,
                "-mno-sse2"@,
                "-mno-red-zone"@,
                "-mno-avx"@,
                "-mno-avx2"@,
                "-mno-avx512f"@,
                "-mno-fp-ret-in-387"@,
                "-msoft-float"@,
            ]
        },
        COptsConfig::Normal => seq!["-march="@ + cpu, "-mtune="@ + cpu],
    }
}

/// The flags that every kernel C file is compiled with.
pub open spec fn common_flags(target: Seq<char>, ptr_width: usize) -> Seq<Seq<char>> {
    seq![
        "-I./include"@,
        "--target="@ + target,
        "-xc"@,
        "-std=gnu23"@,
        "-Wall"@,
        "-Wextra"@,
        "-Werror"@,
        "-ffreestanding"@,
        "-funwind-tables"@,
        "-fno-stack-protector"@,
        "-fno-stack-check"@,
        "-fcolor-diagnostics"@,
        "-m"@ + decimal(ptr_width as nat),
        "-masm=att"@,
        "-mcmodel=kernel"@,
        "-nodefaultlibs"@,
        "-nostdlib"@,
        "-c"@,
    ]
}

/// The arguments given to clang to compile one C file.
pub open spec fn c_compile_args_spec(
    arch: Seq<char>,
    cpu: Seq<char>,
    profile: Seq<char>,
    opt_lvl: isize,
    ptr_width: usize,
    config: COptsConfig,
    additional: Seq<Seq<char>>,
    infile: Seq<char>,
    outfile: Seq<char>,
) -> Seq<Seq<char>> {
    optimisation_flags(profile, opt_lvl) + config_flags(config, clang_target(arch), cpu) + additional
        + common_flags(clang_target(arch), ptr_width) + seq![infile, "-o"@, outfile]
}

pub(crate) fn push_str(v: &mut Vec<String>, s: &str)
    ensures
        string_views(final(v)@) == string_views(old(v)@).push(s@),
{
    let ghost before = v@;
    v.push(s.to_owned());
    assert(string_views(v@) =~= string_views(before).push(s@));
}

pub(crate) fn push_joined(v: &mut Vec<String>, a: &str, b: &str)
    ensures
        string_views(final(v)@) == string_views(old(v)@).push(a@ + b@),
{
    let ghost before = v@;
    let mut s = a.to_owned();
    s.append(b);
    v.push(s);
    assert(string_views(v@) =~= string_views(before).push(a@ + b@));
}

fn optimisation_args(profile: &str, opt_lvl: isize) -> (res: Vec<String>)
    ensures
        string_views(res@) == optimisation_flags(profile@, opt_lvl),
{
    let mut v: Vec<String> = Vec::new();
    if contains_str(profile, "lto") || opt_lvl != 0 {
        push_str(&mut v, "-flto");
        push_str(&mut v, "-O3");
    } else {
        push_str(&mut v, "-ggdb3");
        push_str(&mut v, "-Og");
    }
    assert(string_views(v@) =~= optimisation_flags(profile@, opt_lvl));
    v
}

fn config_args(config: COptsConfig, target: &str, cpu: &str) -> (res: Vec<String>)
    ensures
        string_views(res@) == config_flags(config, target@, cpu@),
{
    let mut v: Vec<String> = Vec::new();
    match config {
        COptsConfig::InitCode => {
            let c = if starts_with(target, "x86_64") { "x86-64" } else { "generic" };
            push_joined(&mut v, "-march=", c);
            push_joined(&mut v, "-mtune=", c);
            push_str(&mut v, "-mgeneral-regs-only");
            push_str(&mut v, "-mno-mmx");
            push_str(&mut v, "-mno-sse");
            push_str(&mut v, "-mno-sse2");
            push_str(&mut v, "-mno-red-zone");
            push_str(&mut v, "-mno-avx");
            push_str(&mut v, "-mno-avx2");
            push_str(&mut v, "-mno-avx512f");
            push_str(&mut v, "-mno-fp-ret-in-387");
            push_str(&mut v, "-msoft-float");
        },
        COptsConfig::Normal => {
            push_joined(&mut v, "-march=", cpu);
            push_joined(&mut v, "-mtune=", cpu);
        },
    }
    assert(string_views(v@) =~= config_flags(config, target@, cpu@));
    v
}

fn common_args(target: &str, ptr_width: usize) -> (res: Vec<String>)
    ensures
        string_views(res@) == common_flags(target@, ptr_width),
{
    let mut v: Vec<String> = Vec::new();
    push_str(&mut v, "-I./include");
    push_joined(&mut v, "--target=", target);
    push_str(&mut v, "-xc");
    push_str(&mut v, "-std=gnu23");
    push_str(&mut v, "-Wall");
    push_str(&mut v, "-Wextra");
    push_str(&mut v, "-Werror");
    push_str(&mut v, "-ffreestanding");
    push_str(&mut v, "-funwind-tables");
    push_str(&mut v, "-fno-stack-protector");
    push_str(&mut v, "-fno-stack-check");
    push_str(&mut v, "-fcolor-diagnostics");
    let width = u64_to_decimal(ptr_width as u64);
    push_joined(&mut v, "-m", width.as_str());
    push_str(&mut v, "-masm=att");
    push_str(&mut v, "-mcmodel=kernel");
    push_str(&mut v, "-nodefaultlibs");
    push_str(&mut v, "-nostdlib");
    push_str(&mut v, "-c");
    assert(string_views(v@) =~= common_flags(target@, ptr_width));
    v
}

/// The clang arguments that compile `infile` into `outfile` for the target
/// Cargo describes (`arch`, `cpu`, `profile`, `opt_lvl`, `ptr_width`), as the
/// build script's `compile_c_code` runs it.
pub fn c_compile_args(
    arch: &str,
    cpu: &str,
    profile: &str,
    opt_lvl: isize,
    ptr_width: usize,
    config: COptsConfig,
    additional: &Vec<String>,
    infile: &str,
    outfile: &str,
) -> (res: Vec<String>)
    ensures
        string_views(res@) == c_compile_args_spec(
            arch@,
            cpu@,
            profile@,
            opt_lvl,
            ptr_width,
            config,
            string_views(additional@),
            infile@,
            outfile@,
        ),
{
    let mut target = arch.to_owned();
    if ends_with(arch, "-none") {
        target.append("-elf");
    }
    let t = target.as_str();
    let mut v = optimisation_args(profile, opt_lvl);
    extend_strings(&mut v, config_args(config, t, cpu));
    extend_strings(&mut v, clone_strings(additional));
    extend_strings(&mut v, common_args(t, ptr_width));
    let mut tail: Vec<String> = Vec::new();
    push_str(&mut tail, infile);
    push_str(&mut tail, "-o");
    push_str(&mut tail, outfile);
    assert(string_views(tail@) =~= seq![infile@, "-o"@, outfile@]);
    extend_strings(&mut v, tail);
    v
}

/// Whether a file is C source or a C header, by its name.
pub fn is_c_source_name(file_name: &str) -> (res: bool)
    ensures
        res == (is_suffix(".c"@, file_name@) || is_suffix(".h"@, file_name@)),
{
    ends_with(file_name, ".c") || ends_with(file_name, ".h")
}

/// The name a static archive is linked by: its file name without a leading
/// `lib` and a trailing `.a`.
pub open spec fn archive_name(file_name: Seq<char>) -> Seq<char> {
    let a = if is_prefix("lib"@, file_name) {
        file_name.subrange("lib"@.len() as int, file_name.len() as int)
    } else {
        file_name
    };
    if is_suffix(".a"@, a) {
        a.subrange(0, a.len() - ".a"@.len())
    } else {
        a
    }
}

/// The `rustc-link-lib` value that links the archive `file_name` statically.
pub fn static_link_directive(file_name: &str) -> (res: String)
    ensures
        res@ == "static="@ + archive_name(file_name@),
{
    let a = match strip_prefix(file_name, "lib") {
        Some(r) => r,
        None => file_name.to_owned(),
    };
    let b = match strip_suffix(a.as_str(), ".a") {
        Some(r) => r,
        None => a,
    };
    let mut d = "static=".to_owned();
    d.append(b.as_str());
    d
}

/// The alias `name` when it holds.
pub open spec fn alias_if(name: Seq<char>, holds: bool) -> Seq<Seq<char>> {
    if holds {
        seq![name]
    } else {
        Seq::empty()
    }
}

/// The names of the architecture aliases that hold for a target
/// architecture, in order: `x86_alike` for x86 and x86_64, `avr_alike`,
/// `sparc_alike`, `loongarch_alike`, `mips_alike` (mips, mips64, mips32r6,
/// mips64r6), `ppc_alike`, `riscv_alike`, `arm_alike` (aarch64, arm,
/// arm64ec) and `zarch_alike` (s390, s390x).
pub open spec fn active_aliases_spec(t: Seq<char>) -> Seq<Seq<char>> {
    alias_if("x86_alike"@, t == "x86"@ || t == "x86_64"@) + alias_if("avr_alike"@, t == "avr"@) + alias_if(
        "sparc_alike"@,
        t == "sparc"@ || t == "sparc64"@,
    ) + alias_if("loongarch_alike"@, t == "loongarch64"@) + alias_if(
        "mips_alike"@,
        t == "mips"@ || t == "mips64"@ || t == "mips32r6"@ || t == "mips64r6"@,
    ) + alias_if("ppc_alike"@, t == "powerpc"@ || t == "powerpc64"@) + alias_if(
        "riscv_alike"@,
        t == "riscv32"@ || t == "riscv64"@,
    ) + alias_if("arm_alike"@, t == "aarch64"@ || t == "arm"@ || t == "arm64ec"@) + alias_if(
        "zarch_alike"@,
        t == "s390"@ || t == "s390x"@,
    )
}

fn push_alias_if(res: &mut Vec<&'static str>, name: &'static str, holds: bool)
    ensures
        final(res)@.map_values(|s: &str| s@) == old(res)@.map_values(|s: &str| s@) + alias_if(name@, holds),
{
    let ghost before = res@;
    if holds {
        res.push(name);
    }
    assert(res@.map_values(|s: &str| s@) =~= before.map_values(|s: &str| s@) + alias_if(name@, holds));
}

/// The architecture aliases that hold for a target architecture (see
/// [`active_aliases_spec`]).
pub fn generate_config_arch_aliases(target_arch: &str) -> (res: Vec<&'static str>)
    ensures
        res@.map_values(|s: &str| s@) == active_aliases_spec(target_arch@),
{
    let t = target_arch;
    let mut res: Vec<&'static str> = Vec::new();
    assert(res@.map_values(|s: &str| s@) =~= Seq::<Seq<char>>::empty());
    push_alias_if(&mut res, "x86_alike", str_eq(t, "x86") || str_eq(t, "x86_64"));
    push_alias_if(&mut res, "avr_alike", str_eq(t, "avr"));
    push_alias_if(&mut res, "sparc_alike", str_eq(t, "sparc") || str_eq(t, "sparc64"));
    push_alias_if(&mut res, "loongarch_alike", str_eq(t, "loongarch64"));
    push_alias_if(
        &mut res,
        "mips_alike",
        str_eq(t, "mips") || str_eq(t, "mips64") || str_eq(t, "mips32r6") || str_eq(t, "mips64r6"),
    );
    push_alias_if(&mut res, "ppc_alike", str_eq(t, "powerpc") || str_eq(t, "powerpc64"));
    push_alias_if(&mut res, "riscv_alike", str_eq(t, "riscv32") || str_eq(t, "riscv64"));
    push_alias_if(&mut res, "arm_alike", str_eq(t, "aarch64") || str_eq(t, "arm") || str_eq(t, "arm64ec"));
    push_alias_if(&mut res, "zarch_alike", str_eq(t, "s390") || str_eq(t, "s390x"));
    res
}

/// The arguments of `ar` that put the object files into the archive `outlib`.
pub fn ar_args(outlib: &str, files: &Vec<String>) -> (res: Vec<String>)
    ensures
        string_views(res@) == seq!["-rcv"@, outlib@] + string_views(files@),
{
    let mut args: Vec<String> = Vec::new();
    push_str(&mut args, "-rcv");
    push_str(&mut args, outlib);
    let ghost head = string_views(args@);
    assert(head =~= seq!["-rcv"@, outlib@]);
    extend_strings(&mut args, clone_strings(files));
    args
}
/// The command that compiles one C file of the kernel: `clang` with
/// [`c_compile_args_spec`].
pub fn compile_c_code(
    arch: &str,
    cpu: &str,
    profile: &str,
    opt_lvl: isize,
    ptr_width: usize,
    infile: &str,
    outfile: &str,
    config: COptsConfig,
    additional_params: &Vec<String>,
) -> (res: CommandLine)
    ensures
        res.program@ == "clang"@,
        string_views(res.args@) == c_compile_args_spec(
            arch@,
            cpu@,
            profile@,
            opt_lvl,
            ptr_width,
            config,
            string_views(additional_params@),
            infile@,
            outfile@,
        ),
{
    let args = c_compile_args(arch, cpu, profile, opt_lvl, ptr_width, config, additional_params, infile, outfile);
    CommandLine { program: "clang".to_owned(), args }
}

/// The command that formats a generated Rust file with `rustfmt` and a
/// configuration file.
pub fn format_rust_file(config_file: &str, source_file: &str) -> (res: CommandLine)
    ensures
        res.program@ == "rustfmt"@,
        string_views(res.args@) == seq!["--config-path"@, config_file@, source_file@],
{
    let mut args: Vec<String> = Vec::new();
    push_str(&mut args, "--config-path");
    push_str(&mut args, config_file);
    push_str(&mut args, source_file);
    assert(string_views(args@) =~= seq!["--config-path"@, config_file@, source_file@]);
    CommandLine { program: "rustfmt".to_owned(), args }
}

/// Whether a feature is activated, given the value of the variable that
/// Cargo sets for it: whenever the variable is set.
pub fn feature_activated(value: Option<&str>) -> (res: bool)
    ensures
        res == value is Some,
{
    value.is_some()
}

/// What `Path::parent` gives for a path: the path without its last
/// component, or `None` where the path ends in a root or is empty.
pub uninterp spec fn parent_of(path: Seq<char>) -> Option<Seq<char>>;

/// What `Path::file_name` gives for a path: its last component, or `None`
/// where the path ends in `..` or has none.
pub uninterp spec fn file_name_of(path: Seq<char>) -> Option<Seq<char>>;

/// `Path::parent` on a path held as a string. The contract names the
/// result; the component rules that decide it are not restated here.
#[verifier::external_body]
fn path_parent(path: &str) -> (res: Option<String>)
    ensures
        match res {
            Some(d) => parent_of(path@) == Some(d@),
            None => parent_of(path@) is None,
        },
{
    match std::path::Path::new(path).parent() {
        Some(d) => Some(d.to_string_lossy().into_owned()),
        None => None,
    }
}

/// `Path::file_name` on a path held as a string. The contract names the
/// result; the component rules that decide it are not restated here.
#[verifier::external_body]
fn path_file_name(path: &str) -> (res: Option<String>)
    ensures
        match res {
            Some(n) => file_name_of(path@) == Some(n@),
            None => file_name_of(path@) is None,
        },
{
    match std::path::Path::new(path).file_name() {
        Some(n) => Some(n.to_string_lossy().into_owned()),
        None => None,
    }
}

/// What linking the object files as a static archive takes: the directory
/// Cargo searches, the archive's `rustc-link-lib` value, and the `ar`
/// command that makes the archive.
pub struct LibPlan {
    pub search_dir: String,
    pub link_lib: String,
    pub ar: CommandLine,
}

/// Plans the static archive `outlib` made of `files`: it is searched for in
/// its parent directory and linked by its [`archive_name`]; `None` where the
/// path has no parent or no file name.
pub fn make_lib_with(files: &Vec<String>, outlib: &str) -> (res: Option<LibPlan>)
    ensures
        match (parent_of(outlib@), file_name_of(outlib@)) {
            (Some(d), Some(n)) => res matches Some(p) && p.search_dir@ == d && p.link_lib@ == "static="@
                + archive_name(n) && p.ar.program@ == "ar"@ && string_views(p.ar.args@) == seq!["-rcv"@, outlib@]
                + string_views(files@),
            _ => res is None,
        },
{
    let search_dir = match path_parent(outlib) {
        Some(d) => d,
        None => return None,
    };
    let name = match path_file_name(outlib) {
        Some(n) => n,
        None => return None,
    };
    let link_lib = static_link_directive(name.as_str());
    let args = ar_args(outlib, files);
    Some(LibPlan { search_dir, link_lib, ar: CommandLine { program: "ar".to_owned(), args } })
}

} // verus!
