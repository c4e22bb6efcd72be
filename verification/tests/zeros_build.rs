use zeros_tooling::arch::SupportedArch;
use zeros_tooling::configure::{Executable, KConfig, KConfigBoot, KConfigBootBootloader, ZerosConfig};
use zeros_tooling::options::ZerosBuildProfile;
use zeros_tooling::zeros_build::{
    build_env, cargo_build, choose_strip, generate_target_default, mk_iso_from_rust, mk_iso_run_in, strip_commands,
    zeros_build_plan, StripChoice, StripFlavor,
};

fn config(entries: &[(Executable, &str)], bootloader: KConfigBootBootloader) -> ZerosConfig {
    ZerosConfig {
        executables: entries.iter().map(|(e, p)| (*e, p.to_string())).collect(),
        kcfg: KConfig { boot: KConfigBoot { bootloader } },
    }
}

#[test]
fn build_environment() {
    let env = build_env(SupportedArch::Amd64, ZerosBuildProfile::DevLTO, "skylake");
    let expected = vec![
        ("ZEROS_TARGET_CPU".to_string(), "skylake".to_string()),
        ("ZEROS_TARGET_ARCH".to_string(), "amd64".to_string()),
        ("ZEROS_PROFILE".to_string(), "dev-lto".to_string()),
    ];
    assert_eq!(env, expected);
}

#[test]
fn target_generation_command() {
    let (cmd, out) = generate_target_default("cargo", SupportedArch::Amd64, "native", "/repo");
    assert_eq!(out, "/repo/.xtask-cache/x86_64-unknown-kernel.json");
    assert_eq!(cmd.dir, "/repo/generate-target");
    assert_eq!(
        cmd.args,
        vec![
            "run",
            "--release",
            "--",
            "--debug",
            "--arch=amd64",
            "--cpu=native",
            "--override=all",
            "--frame-pointer=never",
            "/repo/.xtask-cache/x86_64-unknown-kernel.json"
        ]
    );
}

#[test]
fn kernel_compile_command() {
    let cmd = cargo_build("cargo", "t.json", ZerosBuildProfile::ReleaseLTO, "znver4", "/repo");
    assert_eq!(cmd.dir, "/repo/zerOS");
    assert_eq!(
        cmd.args,
        vec!["build", "--target=t.json", "-Z", "unstable-options", "--artifact-dir", "./bin", "--profile=release-lto"]
    );
    assert_eq!(
        cmd.env,
        vec![(
            "RUSTFLAGS".to_string(),
            "--cfg getrandom_backend=\"rdrand\" -Cforce-unwind-tables -Zmacro-backtrace -Ctarget-cpu=znver4".to_string()
        )]
    );
}

#[test]
fn stripping_tool_choice() {
    let eu = config(&[(Executable::EuStrip, "/eu"), (Executable::Strip, "/s")], KConfigBootBootloader::Limine);
    let c = choose_strip(&eu).ok().unwrap();
    assert_eq!(c.strip, "/eu");
    assert!(matches!(c.flavor, StripFlavor::ElfUtils));
    let unix = config(&[(Executable::Strip, "/s"), (Executable::Objcopy, "/o")], KConfigBootBootloader::Limine);
    let c = choose_strip(&unix).ok().unwrap();
    assert_eq!(c.strip, "/s");
    assert!(matches!(c.flavor, StripFlavor::Unix { ref objcopy } if objcopy == "/o"));
    let lonely = config(&[(Executable::Strip, "/s")], KConfigBootBootloader::Limine);
    assert_eq!(
        choose_strip(&lonely).err().unwrap(),
        "none of the following executables could be found: `strip` or `eu-strip`"
    );
}

#[test]
fn stripping_commands() {
    let unix = StripChoice { strip: "strip".to_string(), flavor: StripFlavor::Unix { objcopy: "objcopy".to_string() } };
    let cmds = strip_commands(&unix, "k", "k.s", Some("dbg"));
    assert_eq!(cmds.len(), 2);
    assert_eq!(cmds[0].program, "objcopy");
    assert_eq!(cmds[0].args, vec!["--only-keep-debug", "k", "dbg"]);
    assert_eq!(cmds[1].args, vec!["-S", "k", "-o", "k.s"]);
    let eu = StripChoice { strip: "eu-strip".to_string(), flavor: StripFlavor::ElfUtils };
    assert_eq!(strip_commands(&eu, "k", "k.s", Some("dbg"))[0].args, vec!["-f", "dbg", "k", "-o", "k.s"]);
    assert_eq!(strip_commands(&eu, "k", "k.s", None)[0].args, vec!["k", "-o", "k.s"]);
    assert_eq!(strip_commands(&unix, "k", "k.s", None).len(), 1);
}

#[test]
fn image_commands() {
    let cmd = mk_iso_run_in(
        "/repo",
        "/work",
        "in",
        "out.iso",
        "root",
        KConfigBootBootloader::Limine,
        SupportedArch::Amd64,
        "mods",
        Some("limine.conf"),
    );
    assert_eq!(cmd.program, "/repo/scripts/mk_iso.py");
    assert_eq!(cmd.dir, "/work");
    assert_eq!(
        cmd.args,
        vec!["-o", "out.iso", "--iso-root", "root", "-b", "limine", "-a", "amd64", "-m", "mods", "-c", "limine.conf", "in"]
    );
    let x = mk_iso_from_rust("xorriso", "/work", "o.iso", "root", KConfigBootBootloader::Limine, &vec!["-v".to_string()]);
    assert_eq!(x.args.first().map(String::as_str), Some("-as"));
    assert_eq!(x.args.last().map(String::as_str), Some("-v"));
    assert_eq!(x.args.len(), 13);
}

#[test]
fn whole_build_plan() {
    let cfg = config(
        &[(Executable::Cargo, "/bin/cargo"), (Executable::EuStrip, "/bin/eu-strip")],
        KConfigBootBootloader::Limine,
    );
    let plan = zeros_build_plan(&cfg, SupportedArch::Amd64, ZerosBuildProfile::Dev, "native", "/repo", "/work");
    assert_eq!(plan.gentarget.program, "/bin/cargo");
    assert_eq!(plan.json_target, "/repo/.xtask-cache/x86_64-unknown-kernel.json");
    assert_eq!(plan.remove_dirs, vec!["/repo/zerOS/bin", "/repo/zerOS/iso-root"]);
    assert_eq!(plan.make_dirs, vec!["/repo/zerOS/bin/zerOS-boot-modules", "/repo/zerOS/iso-root"]);
    assert_eq!(plan.build.args[1], "--target=/repo/.xtask-cache/x86_64-unknown-kernel.json");
    let strip = plan.strip.ok().unwrap();
    assert_eq!(
        strip[0].args,
        vec![
            "-f",
            "/repo/zerOS/bin/zerOS-boot-modules/debug-info.zko",
            "/repo/zerOS/bin/zerOS",
            "-o",
            "/repo/zerOS/bin/zerOS.stripped"
        ]
    );
    assert!(plan.iso.args.contains(&"/repo/zerOS/config/limine.conf".to_string()));
    let release = zeros_build_plan(&cfg, SupportedArch::Amd64, ZerosBuildProfile::Release, "native", "/repo", "/w");
    assert_eq!(release.strip.ok().unwrap()[0].args.len(), 3);
}
