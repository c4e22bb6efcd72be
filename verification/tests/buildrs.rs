use zeros_tooling::buildrs::{
    ar_args, compile_c_code, make_lib_with, feature_activated, format_rust_file, generate_config_arch_aliases, c_compile_args, get_opt_lvl, get_outdir, get_profile, get_scripts, get_target_arch, get_target_cpu,
    get_target_ptr_width, get_target_triple, is_c_source_name, linker_script, static_link_directive, CachedVar, COptsConfig,
};

fn fresh() -> CachedVar {
    CachedVar::new()
}

#[test]
fn cargo_values() {
    assert_eq!(get_outdir(&mut fresh(), Some("/out".to_string())).as_deref(), Some("/out"));
    assert_eq!(get_target_triple(&mut fresh(), None), None);
    assert_eq!(get_target_arch(&mut fresh(), Some("x86_64".to_string())).as_deref(), Some("x86_64"));
    assert_eq!(get_profile(&mut fresh(), Some("release".to_string())).as_deref(), Some("release"));
    assert_eq!(get_target_cpu(&mut fresh(), Some("native".to_string())).as_deref(), Some("native"));
    assert_eq!(get_opt_lvl(&mut fresh(), Some("3".to_string())), Some(3));
    assert_eq!(get_opt_lvl(&mut fresh(), Some("-1".to_string())), Some(-1));
    assert_eq!(get_opt_lvl(&mut fresh(), None), None);
    assert_eq!(get_target_ptr_width(&mut fresh(), Some("64".to_string())), Some(64));
}

#[test]
fn cargo_values_keep_their_first_reading() {
    let mut outdir = fresh();
    assert_eq!(get_outdir(&mut outdir, Some("/first".to_string())).as_deref(), Some("/first"));
    assert_eq!(get_outdir(&mut outdir, Some("/second".to_string())).as_deref(), Some("/first"));
    assert_eq!(get_outdir(&mut outdir, None).as_deref(), Some("/first"));
    let mut target = fresh();
    assert_eq!(get_target_triple(&mut target, None), None);
    assert_eq!(get_target_triple(&mut target, Some("x86_64-unknown-none".to_string())), None);
    let mut opt = fresh();
    assert_eq!(get_opt_lvl(&mut opt, Some("2".to_string())), Some(2));
    assert_eq!(get_opt_lvl(&mut opt, Some("not a number".to_string())), Some(2));
}

#[test]
fn kernel_paths() {
    assert_eq!(get_scripts("/repo"), "/repo/scripts");
    assert_eq!(linker_script("/repo", "x86_64", false), "/repo/zerOS/linker/linker-x86_64.ld");
    assert_eq!(linker_script("/repo/", "x86_64", true), "/repo/zerOS/linker/linker-x86_64.ld.template");
}

#[test]
fn c_compilation() {
    let args = c_compile_args(
        "x86_64-unknown-none",
        "native",
        "release-lto",
        0,
        64,
        COptsConfig::InitCode,
        &vec!["-DX".to_string()],
        "a.c",
        "a.o",
    );
    assert_eq!(&args[0..2], &["-flto".to_string(), "-O3".to_string()]);
    assert_eq!(args[2], "-march=x86-64");
    assert!(args.contains(&"-DX".to_string()));
    assert!(args.contains(&"--target=x86_64-unknown-none-elf".to_string()));
    assert!(args.contains(&"-m64".to_string()));
    assert_eq!(&args[args.len() - 3..], &["a.c".to_string(), "-o".to_string(), "a.o".to_string()]);
    let debug = c_compile_args("riscv64", "rocket", "dev", 0, 32, COptsConfig::Normal, &vec![], "b.c", "b.o");
    assert_eq!(&debug[0..4], &["-ggdb3".to_string(), "-Og".to_string(), "-march=rocket".to_string(), "-mtune=rocket".to_string()]);
    assert!(debug.contains(&"--target=riscv64".to_string()));
}

#[test]
fn archives_and_sources() {
    assert!(is_c_source_name("boot.c"));
    assert!(is_c_source_name("boot.h"));
    assert!(!is_c_source_name("boot.rs"));
    assert_eq!(static_link_directive("libfoo.a"), "static=foo");
    assert_eq!(static_link_directive("bar.a"), "static=bar");
    assert_eq!(static_link_directive("libbaz"), "static=baz");
}

#[test]
fn architecture_aliases() {
    assert_eq!(generate_config_arch_aliases("x86_64"), vec!["x86_alike"]);
    assert_eq!(generate_config_arch_aliases("mips32r6"), vec!["mips_alike"]);
    assert_eq!(generate_config_arch_aliases("arm64ec"), vec!["arm_alike"]);
    assert_eq!(generate_config_arch_aliases("s390x"), vec!["zarch_alike"]);
    assert!(generate_config_arch_aliases("wasm32").is_empty());
}

#[test]
fn build_script_commands() {
    assert_eq!(ar_args("libk.a", &vec!["a.o".to_string(), "b.o".to_string()]), vec!["-rcv", "libk.a", "a.o", "b.o"]);
    let cc = compile_c_code("x86_64", "native", "dev", 1, 64, "a.c", "a.o", COptsConfig::Normal, &vec![]);
    assert_eq!(cc.program, "clang");
    assert_eq!(cc.args[0], "-flto");
    let fmt = format_rust_file("rustfmt.toml", "gen.rs");
    assert_eq!(fmt.program, "rustfmt");
    assert_eq!(fmt.args, vec!["--config-path", "rustfmt.toml", "gen.rs"]);
    assert!(feature_activated(Some("1")));
    assert!(!feature_activated(None));
}

#[test]
fn archives_are_searched_for_in_their_directory() {
    let files = vec!["a.o".to_string(), "b.o".to_string()];
    let plan = make_lib_with(&files, "/build/out/libkernel.a").unwrap();
    assert_eq!(plan.search_dir, "/build/out");
    assert_eq!(plan.link_lib, "static=kernel");
    assert_eq!(plan.ar.program, "ar");
    assert_eq!(plan.ar.args, vec!["-rcv", "/build/out/libkernel.a", "a.o", "b.o"]);
    assert_eq!(make_lib_with(&files, "libc.a").unwrap().search_dir, "");
    assert!(make_lib_with(&files, "/").is_none());
    assert!(make_lib_with(&files, "/build/..").is_none());
}
