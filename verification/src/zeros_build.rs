//! Building the kernel: generating its target specification, compiling it,
//! stripping it and packing it into a bootable image.

use vstd::prelude::*;
use crate::arch::{arch_name, SupportedArch};
use crate::buildrs::{push_joined, push_str};
use crate::configure::{
    bootloader_name, default_entry, get_default_executable_short_name, lookup_executable, Executable,
    KConfigBootBootloader, ZerosConfig,
};
use crate::options::{profile_name, ZerosBuildProfile};
use crate::runnable::{clone_strings, extend_strings, opt_string_view, string_views, CommandLine};
use crate::tasks::{env_views, CmdIn};
use crate::text::{joined_path, path_join};

verus! {

/// The variables that the kernel's build script reads: the target CPU, the
/// architecture and the profile.
pub open spec fn build_env_spec(arch: SupportedArch, profile: ZerosBuildProfile, cpu: Seq<char>) -> Seq<(Seq<char>, Seq<char>)> {
    seq![
        ("ZEROS_TARGET_CPU"@, cpu),
        ("ZEROS_TARGET_ARCH"@, arch_name(arch)),
        ("ZEROS_PROFILE"@, profile_name(profile)),
    ]
}

/// The variables that the kernel's build script reads (see [`build_env_spec`]).
pub fn build_env(arch: SupportedArch, profile: ZerosBuildProfile, cpu: &str) -> (res: Vec<(String, String)>)
    ensures
        env_views(res@) == build_env_spec(arch, profile, cpu@),
{
    let mut env: Vec<(String, String)> = Vec::new();
    env.push(("ZEROS_TARGET_CPU".to_owned(), cpu.to_owned()));
    env.push(("ZEROS_TARGET_ARCH".to_owned(), arch.as_str().to_owned()));
    env.push(("ZEROS_PROFILE".to_owned(), profile.as_str().to_owned()));
    assert(env_views(env@) =~= build_env_spec(arch, profile, cpu@));
    env
}

/// The cache directory of the build driver under the top directory.
pub open spec fn cache_dir(topdir: Seq<char>) -> Seq<char> {
    joined_path(topdir, ".xtask-cache"@)
}

/// The target specification generated for amd64.
pub open spec fn amd64_target_file(topdir: Seq<char>) -> Seq<char> {
    joined_path(cache_dir(topdir), "x86_64-unknown-kernel.json"@)
}

/// The arguments that generate the amd64 target specification into `outfile`.
pub open spec fn gentarget_args(cpu: Seq<char>, outfile: Seq<char>) -> Seq<Seq<char>> {
    seq![
        "run"@,
        "--release"@,
        "--"@,
        "--debug"@,
        "--arch=amd64"@,
        "--cpu="@ + cpu,
        "--override=all"@,
        "--frame-pointer=never"@,
        outfile,
    ]
}

/// The command that generates the default target specification of an
/// architecture, run in the `generate-target` subproject, and the file it
/// writes. Only amd64 is supported.
pub fn generate_target_default(cargo: &str, arch: SupportedArch, cpu: &str, topdir: &str) -> (res: (CmdIn, String))
    requires
        arch == SupportedArch::Amd64,
    ensures
        res.0@.dir == joined_path(topdir@, "generate-target"@),
        res.0@.program == cargo@,
        res.0@.args == gentarget_args(cpu@, amd64_target_file(topdir@)),
        res.0@.env.len() == 0,
        res.1@ == amd64_target_file(topdir@),
{
    let cache = path_join(topdir, ".xtask-cache");
    let outfile = path_join(cache.as_str(), "x86_64-unknown-kernel.json");
    let mut args: Vec<String> = Vec::new();
    push_str(&mut args, "run");
    push_str(&mut args, "--release");
    push_str(&mut args, "--");
    push_str(&mut args, "--debug");
    push_str(&mut args, "--arch=amd64");
    push_joined(&mut args, "--cpu=", cpu);
    push_str(&mut args, "--override=all");
    push_str(&mut args, "--frame-pointer=never");
    push_str(&mut args, outfile.as_str());
    assert(string_views(args@) =~= gentarget_args(cpu@, amd64_target_file(topdir@)));
    let cmd = CmdIn { dir: path_join(topdir, "generate-target"), program: cargo.to_owned(), args, env: Vec::new() };
    (cmd, outfile)
}

/// The arguments of the kernel's `cargo build`.
pub open spec fn cargo_build_args(json_target: Seq<char>, profile: ZerosBuildProfile) -> Seq<Seq<char>> {
    seq![
        "build"@,
        "--target="@ + json_target,
        "-Z"@,
        "unstable-options"@,
        "--artifact-dir"@,
        "./bin"@,
        "--profile="@ + profile_name(profile),
    ]
}

/// The flags handed to `rustc` through `RUSTFLAGS` for the kernel.
pub open spec fn kernel_rustflags(cpu: Seq<char>) -> Seq<char> {
    "--cfg getrandom_backend=\"rdrand\" -Cforce-unwind-tables -Zmacro-backtrace -Ctarget-cpu="@ + cpu
}

/// The command that compiles the kernel, in the `zerOS` subproject.
pub fn cargo_build(cargo: &str, json_target: &str, profile: ZerosBuildProfile, cpu: &str, topdir: &str) -> (res: CmdIn)
    ensures
        res@.dir == joined_path(topdir@, "zerOS"@),
        res@.program == cargo@,
        res@.args == cargo_build_args(json_target@, profile),
        res@.env == seq![("RUSTFLAGS"@, kernel_rustflags(cpu@))],
{
    let mut args: Vec<String> = Vec::new();
    push_str(&mut args, "build");
    push_joined(&mut args, "--target=", json_target);
    push_str(&mut args, "-Z");
    push_str(&mut args, "unstable-options");
    push_str(&mut args, "--artifact-dir");
    push_str(&mut args, "./bin");
    push_joined(&mut args, "--profile=", profile.as_str());
    assert(string_views(args@) =~= cargo_build_args(json_target@, profile));
    let mut flags = "--cfg getrandom_backend=\"rdrand\" -Cforce-unwind-tables -Zmacro-backtrace -Ctarget-cpu=".to_owned();
    flags.append(cpu);
    let mut env: Vec<(String, String)> = Vec::new();
    env.push(("RUSTFLAGS".to_owned(), flags));
    assert(env_views(env@) =~= seq![("RUSTFLAGS"@, kernel_rustflags(cpu@))]);
    CmdIn { dir: path_join(topdir, "zerOS"), program: cargo.to_owned(), args, env }
}

/// How the kernel is stripped: with `strip` and `objcopy`, or with
/// elfutils' `eu-strip`.
pub enum StripFlavor {
    Unix { objcopy: String },
    ElfUtils,
}

/// The stripping tool and its flavour.
pub struct StripChoice {
    pub strip: String,
    pub flavor: StripFlavor,
}

/// The message given when no stripping tool was configured.
pub open spec fn no_strip_message() -> Seq<char> {
    "none of the following executables could be found: `strip` or `eu-strip`"@
}

/// The stripping tool to use: `eu-strip` where configured, else `strip`
/// together with `objcopy` where both are; `None` otherwise.
pub open spec fn strip_choice(cfg: Seq<(Executable, Seq<char>)>) -> Option<(Seq<char>, Option<Seq<char>>)> {
    match lookup_executable(cfg, Executable::EuStrip) {
        Some(eu) => Some((eu, None)),
        None => match (lookup_executable(cfg, Executable::Strip), lookup_executable(cfg, Executable::Objcopy)) {
            (Some(s), Some(o)) => Some((s, Some(o))),
            _ => None,
        },
    }
}

/// The tick-quoted usual names of the stripping tools, listed with commas
/// and a final "or".
fn strip_alternatives() -> (res: String)
    ensures
        res@ == "`strip` or `eu-strip`"@,
{
    proof {
        assert(default_entry(Executable::Strip) is Some);
        assert(default_entry(Executable::EuStrip) is Some);
    }
    let mut first = "`".to_owned();
    first.append(get_default_executable_short_name(&Executable::Strip));
    first.append("`");
    let mut last = "`".to_owned();
    last.append(get_default_executable_short_name(&Executable::EuStrip));
    last.append("`");
    let mut res = first;
    res.append(" or ");
    res.append(last.as_str());
    proof {
        reveal_strlit("`strip` or `eu-strip`");
        reveal_strlit("strip");
        reveal_strlit("eu-strip");
        reveal_strlit("`");
        reveal_strlit(" or ");
        assert(res@ =~= "`strip` or `eu-strip`"@);
    }
    res
}

/// Picks the stripping tool from the configuration (see [`strip_choice`]);
/// the error holds the message that names the tools looked for.
pub fn choose_strip(cfg: &ZerosConfig) -> (res: Result<StripChoice, String>)
    ensures
        match strip_choice(cfg@.executables) {
            Some((s, o)) => res matches Ok(c) && c.strip@ == s && match o {
                Some(obj) => c.flavor matches StripFlavor::Unix { objcopy } && objcopy@ == obj,
                None => c.flavor is ElfUtils,
            },
            None => res matches Err(m) && m@ == no_strip_message(),
        },
{
    let alt_str = strip_alternatives();
    match cfg.find(&Executable::EuStrip) {
        Some(eu) => Ok(StripChoice { strip: eu.clone(), flavor: StripFlavor::ElfUtils }),
        None => match (cfg.find(&Executable::Strip), cfg.find(&Executable::Objcopy)) {
            (Some(s), Some(o)) => Ok(StripChoice { strip: s.clone(), flavor: StripFlavor::Unix { objcopy: o.clone() } }),
            _ => {
                let mut msg = "none of the following executables could be found: ".to_owned();
                msg.append(alt_str.as_str());
                proof {
                    reveal_strlit("none of the following executables could be found: ");
                    reveal_strlit("none of the following executables could be found: `strip` or `eu-strip`");
                    reveal_strlit("`strip` or `eu-strip`");
                    assert(msg@ =~= no_strip_message());
                }
                Err(msg)
            },
        },
    }
}

/// The commands that strip `infile` into `stripped`, keeping its debugging
/// information in `debuginfo` when asked: with `objcopy` then `strip -S`,
/// or with `eu-strip -f`.
pub open spec fn strip_plan(
    strip: Seq<char>,
    objcopy: Option<Seq<char>>,
    infile: Seq<char>,
    stripped: Seq<char>,
    debuginfo: Option<Seq<char>>,
) -> Seq<(Seq<char>, Seq<Seq<char>>)> {
    match (debuginfo, objcopy) {
        (Some(dbg), Some(obj)) => seq![
            (obj, seq!["--only-keep-debug"@, infile, dbg]),
            (strip, seq!["-S"@, infile, "-o"@, stripped]),
        ],
        (None, Some(_)) => seq![(strip, seq!["-S"@, infile, "-o"@, stripped])],
        (Some(dbg), None) => seq![(strip, seq!["-f"@, dbg, infile, "-o"@, stripped])],
        (None, None) => seq![(strip, seq![infile, "-o"@, stripped])],
    }
}

/// The `objcopy` that a flavour of stripping uses, if any.
pub open spec fn flavor_objcopy(f: StripFlavor) -> Option<Seq<char>> {
    match f {
        StripFlavor::Unix { objcopy } => Some(objcopy@),
        StripFlavor::ElfUtils => None,
    }
}

/// The views of command lines.
pub open spec fn command_views(v: Seq<CommandLine>) -> Seq<(Seq<char>, Seq<Seq<char>>)> {
    v.map_values(|c: CommandLine| (c.program@, string_views(c.args@)))
}

fn strs(a: &str, b: &str, c: &str) -> (res: Vec<String>)
    ensures
        string_views(res@) == seq![a@, b@, c@],
{
    let mut v: Vec<String> = Vec::new();
    push_str(&mut v, a);
    push_str(&mut v, b);
    push_str(&mut v, c);
    assert(string_views(v@) =~= seq![a@, b@, c@]);
    v
}

fn strs4(a: &str, b: &str, c: &str, d: &str) -> (res: Vec<String>)
    ensures
        string_views(res@) == seq![a@, b@, c@, d@],
{
    let mut v = strs(a, b, c);
    push_str(&mut v, d);
    assert(string_views(v@) =~= seq![a@, b@, c@, d@]);
    v
}

fn strs5(a: &str, b: &str, c: &str, d: &str, e: &str) -> (res: Vec<String>)
    ensures
        string_views(res@) == seq![a@, b@, c@, d@, e@],
{
    let mut v = strs4(a, b, c, d);
    push_str(&mut v, e);
    assert(string_views(v@) =~= seq![a@, b@, c@, d@, e@]);
    v
}

/// The commands that strip the kernel (see [`strip_plan`]).
pub fn strip_commands(choice: &StripChoice, infile: &str, stripped: &str, debuginfo: Option<&str>) -> (res: Vec<CommandLine>)
    ensures
        command_views(res@) == strip_plan(
            choice.strip@,
            flavor_objcopy(choice.flavor),
            infile@,
            stripped@,
            match debuginfo {
                Some(d) => Some(d@),
                None => None,
            },
        ),
{
    let mut cmds: Vec<CommandLine> = Vec::new();
    match (debuginfo, &choice.flavor) {
        (Some(dbg), StripFlavor::Unix { objcopy }) => {
            cmds.push(CommandLine { program: objcopy.clone(), args: strs("--only-keep-debug", infile, dbg) });
            cmds.push(CommandLine { program: choice.strip.clone(), args: strs4("-S", infile, "-o", stripped) });
        },
        (None, StripFlavor::Unix { .. }) => {
            cmds.push(CommandLine { program: choice.strip.clone(), args: strs4("-S", infile, "-o", stripped) });
        },
        (Some(dbg), StripFlavor::ElfUtils) => {
            cmds.push(CommandLine { program: choice.strip.clone(), args: strs5("-f", dbg, infile, "-o", stripped) });
        },
        (None, StripFlavor::ElfUtils) => {
            cmds.push(CommandLine { program: choice.strip.clone(), args: strs(infile, "-o", stripped) });
        },
    }
    proof {
        let expected = strip_plan(
            choice.strip@,
            flavor_objcopy(choice.flavor),
            infile@,
            stripped@,
            match debuginfo {
                Some(d) => Some(d@),
                None => None,
            },
        );
        assert(command_views(cmds@) =~= expected);
    }
    cmds
}

/// The arguments of the image-packing script.
pub open spec fn mk_iso_args(
    infile: Seq<char>,
    outfile: Seq<char>,
    iso_root: Seq<char>,
    bootloader: KConfigBootBootloader,
    arch: SupportedArch,
    boot_modules_dir: Seq<char>,
    bootloader_config: Option<Seq<char>>,
) -> Seq<Seq<char>> {
    seq![
        "-o"@,
        outfile,
        "--iso-root"@,
        iso_root,
        "-b"@,
        bootloader_name(bootloader),
        "-a"@,
        arch_name(arch),
        "-m"@,
        boot_modules_dir,
    ] + match bootloader_config {
        Some(c) => seq!["-c"@, c],
        None => Seq::empty(),
    } + seq![infile]
}

/// The command that packs the stripped kernel into a bootable image: the
/// repository's `scripts/mk_iso.py`, run in `pwd`.
pub fn mk_iso_run_in(
    topdir: &str,
    pwd: &str,
    infile: &str,
    outfile: &str,
    iso_root: &str,
    bootloader: KConfigBootBootloader,
    arch: SupportedArch,
    boot_modules_dir: &str,
    bootloader_config: Option<&str>,
) -> (res: CmdIn)
    ensures
        res@.dir == pwd@,
        res@.program == joined_path(joined_path(topdir@, "scripts"@), "mk_iso.py"@),
        res@.args == mk_iso_args(
            infile@,
            outfile@,
            iso_root@,
            bootloader,
            arch,
            boot_modules_dir@,
            match bootloader_config {
                Some(c) => Some(c@),
                None => None,
            },
        ),
        res@.env.len() == 0,
{
    let scripts = path_join(topdir, "scripts");
    let program = path_join(scripts.as_str(), "mk_iso.py");
    let mut args: Vec<String> = Vec::new();
    push_str(&mut args, "-o");
    push_str(&mut args, outfile);
    push_str(&mut args, "--iso-root");
    push_str(&mut args, iso_root);
    push_str(&mut args, "-b");
    push_str(&mut args, bootloader.as_str());
    push_str(&mut args, "-a");
    push_str(&mut args, arch.as_str());
    push_str(&mut args, "-m");
    push_str(&mut args, boot_modules_dir);
    if let Some(bcfg) = bootloader_config {
        push_str(&mut args, "-c");
        push_str(&mut args, bcfg);
    }
    push_str(&mut args, infile);
    proof {
        let expected = mk_iso_args(
            infile@,
            outfile@,
            iso_root@,
            bootloader,
            arch,
            boot_modules_dir@,
            match bootloader_config {
                Some(c) => Some(c@),
                None => None,
            },
        );
        assert(string_views(args@) =~= expected);
    }
    CmdIn { dir: pwd.to_owned(), program, args, env: Vec::new() }
}

/// The arguments of `xorriso` that make a bootable image of `iso_root`
/// into `outfile`, followed by the caller's own.
pub open spec fn xorriso_args(iso_root: Seq<char>, outfile: Seq<char>, other: Seq<Seq<char>>) -> Seq<Seq<char>> {
    seq![
        "-as"@,
        "mkisofs"@,
        "-no-emul-boot"@,
        "-boot-load-size"@,
        "4"@,
        "-boot-info-table"@,
        "-efi-boot-part"@,
        "--efi-boot-image"@,
        "--protective-msdos-label"@,
        iso_root,
        "-o"@,
        outfile,
    ] + other
}

/// The `xorriso` command that packs an image for the Limine bootloader,
/// run in `pwd`, once the kernel, its modules and the bootloader's
/// configuration were copied under `iso_root`. Only Limine is supported.
pub fn mk_iso_from_rust(
    xorriso: &str,
    pwd: &str,
    outfile: &str,
    iso_root: &str,
    bootloader: KConfigBootBootloader,
    other_args: &Vec<String>,
) -> (res: CmdIn)
    requires
        bootloader == KConfigBootBootloader::Limine,
    ensures
        res@.dir == pwd@,
        res@.program == xorriso@,
        res@.args == xorriso_args(iso_root@, outfile@, string_views(other_args@)),
        res@.env.len() == 0,
{
    let mut args: Vec<String> = Vec::new();
    push_str(&mut args, "-as");
    push_str(&mut args, "mkisofs");
    push_str(&mut args, "-no-emul-boot");
    push_str(&mut args, "-boot-load-size");
    push_str(&mut args, "4");
    push_str(&mut args, "-boot-info-table");
    push_str(&mut args, "-efi-boot-part");
    push_str(&mut args, "--efi-boot-image");
    push_str(&mut args, "--protective-msdos-label");
    push_str(&mut args, iso_root);
    push_str(&mut args, "-o");
    push_str(&mut args, outfile);
    let ghost head = string_views(args@);
    extend_strings(&mut args, clone_strings(other_args));
    assert(head =~= seq![
        "-as"@,
        "mkisofs"@,
        "-no-emul-boot"@,
        "-boot-load-size"@,
        "4"@,
        "-boot-info-table"@,
        "-efi-boot-part"@,
        "--efi-boot-image"@,
        "--protective-msdos-label"@,
        iso_root@,
        "-o"@,
        outfile@,
    ]);
    CmdIn { dir: pwd.to_owned(), program: xorriso.to_owned(), args, env: Vec::new() }
}

/// The subprojects that can be built. Only the kernel is supported.
pub enum XtaskBuildableSubproj {
    Zeros { arch: SupportedArch, profile: ZerosBuildProfile, cpu: String },
    UnwindTool,
    Docs,
}

/// Everything building the kernel does, in order: set the variables, run
/// the target generator, remove then create the output directories,
/// compile, strip (or fail with the message), pack the image.
pub struct ZerosBuildPlan {
    pub env: Vec<(String, String)>,
    pub gentarget: CmdIn,
    pub json_target: String,
    pub remove_dirs: Vec<String>,
    pub make_dirs: Vec<String>,
    pub build: CmdIn,
    pub strip: Result<Vec<CommandLine>, String>,
    pub iso: CmdIn,
}

/// The kernel's subproject directory.
pub open spec fn zeros_dir(topdir: Seq<char>) -> Seq<char> {
    joined_path(topdir, "zerOS"@)
}

/// The kernel's output directory.
pub open spec fn zeros_bin(topdir: Seq<char>) -> Seq<char> {
    joined_path(zeros_dir(topdir), "bin"@)
}

/// The directory of the kernel's boot modules.
pub open spec fn boot_modules_dir(topdir: Seq<char>) -> Seq<char> {
    joined_path(zeros_bin(topdir), "zerOS-boot-modules"@)
}

/// The root of the image's file tree.
pub open spec fn iso_root_dir(topdir: Seq<char>) -> Seq<char> {
    joined_path(zeros_dir(topdir), "iso-root"@)
}

/// Where the kernel's debugging information goes under a development profile.
pub open spec fn debug_info_file(topdir: Seq<char>, profile: ZerosBuildProfile) -> Option<Seq<char>> {
    if profile == ZerosBuildProfile::Dev || profile == ZerosBuildProfile::DevLTO {
        Some(joined_path(boot_modules_dir(topdir), "debug-info.zko"@))
    } else {
        None
    }
}

/// The configuration of the bootloader, for Limine only.
pub open spec fn bootloader_config_file(topdir: Seq<char>, b: KConfigBootBootloader) -> Option<Seq<char>> {
    if b == KConfigBootBootloader::Limine {
        Some(joined_path(joined_path(zeros_dir(topdir), "config"@), "limine.conf"@))
    } else {
        None
    }
}

/// The plan of building the kernel for an architecture with a profile and
/// a target CPU, from the configuration, with `topdir` the repository and
/// `pwd` the working directory. Only amd64 is supported, and `cargo` must
/// have been configured.
pub fn zeros_build_plan(
    cfg: &ZerosConfig,
    arch: SupportedArch,
    profile: ZerosBuildProfile,
    cpu: &str,
    topdir: &str,
    pwd: &str,
) -> (res: ZerosBuildPlan)
    requires
        arch == SupportedArch::Amd64,
        lookup_executable(cfg@.executables, Executable::Cargo) is Some,
    ensures
        ({
            let cargo = lookup_executable(cfg@.executables, Executable::Cargo)->Some_0;
            let bin = zeros_bin(topdir@);
            &&& env_views(res.env@) == build_env_spec(arch, profile, cpu@)
            &&& res.gentarget@.dir == joined_path(topdir@, "generate-target"@)
            &&& res.gentarget@.program == cargo
            &&& res.gentarget@.args == gentarget_args(cpu@, amd64_target_file(topdir@))
            &&& res.json_target@ == amd64_target_file(topdir@)
            &&& string_views(res.remove_dirs@) == seq![bin, iso_root_dir(topdir@)]
            &&& string_views(res.make_dirs@) == seq![boot_modules_dir(topdir@), iso_root_dir(topdir@)]
            &&& res.build@.dir == zeros_dir(topdir@)
            &&& res.build@.program == cargo
            &&& res.build@.args == cargo_build_args(amd64_target_file(topdir@), profile)
            &&& res.build@.env == seq![("RUSTFLAGS"@, kernel_rustflags(cpu@))]
            &&& match strip_choice(cfg@.executables) {
                Some((s, o)) => res.strip matches Ok(cmds) && command_views(cmds@) == strip_plan(
                    s,
                    o,
                    joined_path(bin, "zerOS"@),
                    joined_path(bin, "zerOS.stripped"@),
                    debug_info_file(topdir@, profile),
                ),
                None => res.strip matches Err(m) && m@ == no_strip_message(),
            }
            &&& res.iso@.dir == pwd@
            &&& res.iso@.program == joined_path(joined_path(topdir@, "scripts"@), "mk_iso.py"@)
            &&& res.iso@.args == mk_iso_args(
                joined_path(bin, "zerOS.stripped"@),
                joined_path(bin, "zerOS.iso"@),
                iso_root_dir(topdir@),
                cfg.kcfg.boot.bootloader,
                arch,
                boot_modules_dir(topdir@),
                bootloader_config_file(topdir@, cfg.kcfg.boot.bootloader),
            )
        }),
{
    let env = build_env(arch, profile, cpu);
    let cargo = cfg.get(&Executable::Cargo);
    let (gentarget, json_target) = generate_target_default(cargo.as_str(), arch, cpu, topdir);
    let zdir = path_join(topdir, "zerOS");
    let bin = path_join(zdir.as_str(), "bin");
    let iso_root = path_join(zdir.as_str(), "iso-root");
    let mods = path_join(bin.as_str(), "zerOS-boot-modules");
    let mut remove_dirs: Vec<String> = Vec::new();
    push_str(&mut remove_dirs, bin.as_str());
    push_str(&mut remove_dirs, iso_root.as_str());
    let mut make_dirs: Vec<String> = Vec::new();
    push_str(&mut make_dirs, mods.as_str());
    push_str(&mut make_dirs, iso_root.as_str());
    assert(string_views(remove_dirs@) =~= seq![bin@, iso_root@]);
    assert(string_views(make_dirs@) =~= seq![mods@, iso_root@]);
    let build = cargo_build(cargo.as_str(), json_target.as_str(), profile, cpu, topdir);
    let kernel = path_join(bin.as_str(), "zerOS");
    let stripped = path_join(bin.as_str(), "zerOS.stripped");
    let dbg: Option<String> = if profile.is_dev() {
        Some(path_join(mods.as_str(), "debug-info.zko"))
    } else {
        None
    };
    let strip = match choose_strip(cfg) {
        Ok(choice) => {
            let d: Option<&str> = match &dbg {
                Some(p) => Some(p.as_str()),
                None => None,
            };
            Ok(strip_commands(&choice, kernel.as_str(), stripped.as_str(), d))
        },
        Err(m) => Err(m),
    };
    let image = path_join(bin.as_str(), "zerOS.iso");
    let bootloader = cfg.kcfg.boot.bootloader;
    let conf: Option<String> = match bootloader {
        KConfigBootBootloader::Limine => {
            let c = path_join(zdir.as_str(), "config");
            Some(path_join(c.as_str(), "limine.conf"))
        },
        _ => None,
    };
    let conf_ref: Option<&str> = match &conf {
        Some(c) => Some(c.as_str()),
        None => None,
    };
    let iso = mk_iso_run_in(
        topdir,
        pwd,
        stripped.as_str(),
        image.as_str(),
        iso_root.as_str(),
        bootloader,
        arch,
        mods.as_str(),
        conf_ref,
    );
    ZerosBuildPlan { env, gentarget, json_target, remove_dirs, make_dirs, build, strip, iso }
}

} // verus!
