use zeros_tooling::arch::SupportedArch;
use zeros_tooling::configure::{
    assignment_pattern_of, choose_path, configure_zeros, default_executable, executables_to_find, find_exe,
    get_default_executable_short_name, Executable, ExecutableProbe, KConfig, KConfigBoot, KConfigBootBootloader,
    XtaskConfigurableSubproj, ZerosConfig,
};
use zeros_tooling::options::Endianness;

#[test]
fn defaults_of_executables() {
    let clang = default_executable(&Executable::Clang).unwrap();
    assert_eq!(clang.name, "clang");
    assert_eq!(clang.vars, vec!["CC", "CLANG"]);
    let qemu = default_executable(&Executable::Qemu(SupportedArch::Amd64, None)).unwrap();
    assert_eq!(qemu.name, "qemu-system-x86_64");
    assert_eq!(qemu.vars.len(), 7);
    assert_eq!(
        get_default_executable_short_name(&Executable::Qemu(SupportedArch::Mips64, Some(Endianness::Little))),
        "qemu-system-mips64el"
    );
    assert_eq!(get_default_executable_short_name(&Executable::EuStrip), "eu-strip");
    assert!(default_executable(&Executable::Qemu(SupportedArch::X86, None)).is_none());
    assert!(default_executable(&Executable::Qemu(SupportedArch::Amd64, Some(Endianness::Big))).is_none());
}

#[test]
fn every_executable_to_find_has_a_default() {
    let all = executables_to_find();
    assert_eq!(all.len(), 21);
    assert!(all.iter().all(|e| default_executable(e).is_some()));
}

#[test]
fn assignment_patterns() {
    assert_eq!(assignment_pattern_of(&vec!["CC", "CLANG"]), "(CC|CLANG)\\=(\\S+)");
    assert_eq!(assignment_pattern_of(&vec!["CARGO"]), "(CARGO)\\=(\\S+)");
}

#[test]
fn executables_found_from_assignments_first() {
    let vars = vec!["QEMU", "QEMU_X86_64"];
    let assignments = vec!["CARGO=/bin/cargo".to_string(), "  QEMU_X86_64=/opt/qemu extra ".to_string()];
    let env = vec![Some("/env/qemu".to_string()), None];
    let found = find_exe(&vars, &assignments, &env, Some("/usr/bin/qemu".to_string())).unwrap();
    assert_eq!(found.as_deref(), Some("/opt/qemu"));
}

#[test]
fn executables_found_from_the_environment_then_the_path() {
    let vars = vec!["CC", "CLANG"];
    let none: Vec<String> = vec!["CARGO=/bin/cargo".to_string()];
    let env = vec![None, Some("/env/clang".to_string())];
    assert_eq!(find_exe(&vars, &none, &env, Some("/usr/bin/clang".to_string())).unwrap().as_deref(), Some("/env/clang"));
    let unset = vec![None, None];
    assert_eq!(find_exe(&vars, &none, &unset, Some("/usr/bin/clang".to_string())).unwrap().as_deref(), Some("/usr/bin/clang"));
    assert_eq!(find_exe(&vars, &none, &unset, None).unwrap(), None);
}

#[test]
fn choosing_a_path() {
    let caps = vec![None, Some("a".to_string()), Some("b".to_string())];
    assert_eq!(choose_path(&caps, &vec![Some("e".to_string())], None).as_deref(), Some("a"));
    assert_eq!(choose_path(&vec![None], &vec![None, Some("e".to_string())], None).as_deref(), Some("e"));
    assert_eq!(choose_path(&vec![], &vec![], Some("w".to_string())).as_deref(), Some("w"));
}

fn empty_probes() -> Vec<ExecutableProbe> {
    executables_to_find()
        .iter()
        .map(|e| ExecutableProbe { env: vec![None; default_executable(e).unwrap().vars.len()], on_path: None })
        .collect()
}

#[test]
fn configuring_records_what_was_found() {
    let mut probes = empty_probes();
    probes[1].on_path = Some("/usr/bin/cargo".to_string());
    let assignments = vec!["CLANG=/opt/clang".to_string()];
    let cfg = configure_zeros(KConfigBootBootloader::GRUB2, &assignments, &probes).unwrap();
    assert_eq!(cfg.kcfg.boot.bootloader, KConfigBootBootloader::GRUB2);
    assert_eq!(cfg.executables.len(), 2);
    assert_eq!(cfg.get(&Executable::Clang), "/opt/clang");
    assert_eq!(cfg.get(&Executable::Cargo), "/usr/bin/cargo");
    assert!(cfg.find(&Executable::Xorriso).is_none());
    let task = XtaskConfigurableSubproj::Zeros { bootloader: KConfigBootBootloader::Limine, assignments };
    let again = task.execute(&probes).unwrap();
    assert_eq!(again.kcfg.boot.bootloader, KConfigBootBootloader::Limine);
}

#[test]
fn kernel_configuration_defaults() {
    let k: KConfig = Default::default();
    assert_eq!(k.boot.bootloader, KConfigBootBootloader::Limine);
    let b: KConfigBoot = Default::default();
    assert_eq!(b.bootloader, KConfigBootBootloader::Limine);
    assert_eq!(KConfigBootBootloader::default_bootloader().as_str(), "limine");
    assert_eq!(KConfigBootBootloader::GRUB2.as_str(), "grub2");
    assert_eq!(KConfigBootBootloader::UEFI.as_str(), "uefi");
}

#[test]
fn lookups_in_a_configuration() {
    let cfg = ZerosConfig {
        executables: vec![(Executable::Strip, "/a".to_string()), (Executable::Strip, "/b".to_string())],
        kcfg: Default::default(),
    };
    assert_eq!(cfg.find(&Executable::Strip).map(String::as_str), Some("/a"));
    assert!(cfg.find(&Executable::Objcopy).is_none());
}

#[test]
fn every_executable_gets_the_path_found_for_it() {
    let mut probes = empty_probes();
    probes[6].env[3] = Some("/env/qemu-x64".to_string());
    probes[20].on_path = Some("/usr/bin/qemu-system-loongarch64".to_string());
    let assignments = vec!["QEMU=/opt/any-qemu".to_string(), "EU_STRIP=/opt/eu-strip".to_string()];
    let cfg = configure_zeros(KConfigBootBootloader::Limine, &assignments, &probes).unwrap();
    assert_eq!(cfg.get(&Executable::Qemu(SupportedArch::Amd64, None)), "/opt/any-qemu");
    assert_eq!(cfg.get(&Executable::Qemu(SupportedArch::LoongArch64, None)), "/opt/any-qemu");
    assert_eq!(cfg.get(&Executable::EuStrip), "/opt/eu-strip");
    // The pattern is not anchored: `EU_STRIP=..` also names `strip`.
    assert_eq!(cfg.get(&Executable::Strip), "/opt/eu-strip");
    assert!(cfg.find(&Executable::Objcopy).is_none());
    let mut seen = std::collections::HashSet::new();
    assert!(cfg.executables.iter().all(|(e, _)| seen.insert(format!("{e:?}"))));
}
