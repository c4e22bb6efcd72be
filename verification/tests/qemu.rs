use zeros_tooling::arch::SupportedArch;
use zeros_tooling::configure::{Executable, KConfig, KConfigBoot, KConfigBootBootloader, ZerosConfig};
use zeros_tooling::options::{Endianness, XtaskGlobalOptions};
use zeros_tooling::qemu::{
    parse_qemu_mem, qemu_args, qemu_mem_bytes, run_zeros_qemu_cmd, Accelerator, Emulator, Maybe, XtaskRunnableSubproj,
};

#[test]
fn test_parse_qemu_mem() {
    assert_eq!(parse_qemu_mem("1213456789".to_string()), "1213M".to_string());
    assert_eq!(parse_qemu_mem("1213456789B".to_string()), "1213M".to_string());
    assert_eq!(parse_qemu_mem("1213456789K".to_string()), "1213457M".to_string());
    assert_eq!(parse_qemu_mem("1213456789KiB".to_string()), "1242580M".to_string());
}

#[test]
fn memory_units() {
    assert_eq!(qemu_mem_bytes("1500M"), Some(1_500_000_000));
    assert_eq!(qemu_mem_bytes("2GiB"), Some(2 * 1024 * 1024 * 1024));
    assert_eq!(qemu_mem_bytes("3KB"), Some(3000));
    assert_eq!(qemu_mem_bytes("1T"), Some(1_000_000_000_000));
    assert_eq!(qemu_mem_bytes("  42  "), Some(42));
    assert_eq!(qemu_mem_bytes("+7B"), Some(7));
}

#[test]
fn memory_sizes_outside_the_grammar() {
    assert_eq!(qemu_mem_bytes(""), None);
    assert_eq!(qemu_mem_bytes("M"), None);
    assert_eq!(qemu_mem_bytes("12Ki"), None);
    assert_eq!(qemu_mem_bytes("12X"), None);
    assert_eq!(qemu_mem_bytes("12MBB"), None);
    assert_eq!(qemu_mem_bytes("99999999999999999999"), None);
    assert_eq!(qemu_mem_bytes("20000000TiB"), None);
}

#[test]
fn memory_rounds_halves_upwards() {
    assert_eq!(parse_qemu_mem("1500000".to_string()), "2M");
    assert_eq!(parse_qemu_mem("1499999".to_string()), "1M");
    assert_eq!(parse_qemu_mem("1500M".to_string()), "1500M");
    assert_eq!(parse_qemu_mem("0".to_string()), "0M");
}

#[test]
fn maybe_combinators() {
    let nested: Maybe<Maybe<u8>> = Maybe::Just(Maybe::Just(3));
    assert!(matches!(nested.flatten(), Maybe::Just(3)));
    let empty: Maybe<Maybe<u8>> = Maybe::Nothing;
    assert!(matches!(empty.flatten(), Maybe::Nothing));
    assert!(matches!(Maybe::Nothing.bitor(Maybe::Just(1u8)), Maybe::Just(1)));
    assert!(matches!(Maybe::Just(2u8).bitor(Maybe::Just(1)), Maybe::Just(2)));
    assert!(matches!(Maybe::Nothing.bitor_value(1000u64), Maybe::Just(1000)));
    assert!(matches!(Maybe::Just(1024u64).bitor_value(1000), Maybe::Just(1024)));
    let mut m: Maybe<u8> = Maybe::with_capacity(4);
    assert!(matches!(m, Maybe::Nothing));
    m.push(9);
    assert_eq!(m.unwrap(), 9);
}

#[test]
fn qemu_arguments() {
    let extra = vec!["-nographic".to_string()];
    let args = qemu_args(&extra, "1500M", 4, "host", true, false, true);
    let expected: Vec<&str> = vec![
        "-nographic",
        "-fw_cfg",
        "name=opt/dev.nullware.zerOS,string=testing=0",
        "-m",
        "1500M",
        "-smp",
        "4",
        "-cpu",
        "host",
        "-smbios",
        "type=0,uefi=on",
        "-device",
        "isa-debug-exit,iobase=0xf4,iosize=0x04",
        "-debugcon",
        "file:debugcon.log",
        "-serial",
        "stdio",
        "-enable-kvm",
        "-accel",
        "kvm",
        "-S",
        "-bios",
        "zerOS/vendor/OVMF.fd",
        "-cdrom",
        "./zerOS/bin/zerOS.iso",
    ];
    assert_eq!(args, expected);
    let debug = qemu_args(&vec![], "1M", 1, "max", false, true, false);
    assert_eq!(debug.last().map(String::as_str), Some("-s"));
    assert!(debug.iter().any(|a| a == "-S"));
    assert!(!debug.iter().any(|a| a == "-enable-kvm"));
}

#[test]
fn memory_text_reads_back() {
    for input in ["1213456789KiB", "3GB", "  512M ", "999999"] {
        let once = parse_qemu_mem(input.to_string());
        let twice = parse_qemu_mem(once.clone());
        assert_eq!(once, twice);
    }
}

fn qemu_config() -> ZerosConfig {
    ZerosConfig {
        executables: vec![
            (Executable::Qemu(SupportedArch::Amd64, None), "/usr/bin/qemu-system-x86_64".to_string()),
            (Executable::Qemu(SupportedArch::Mips32, Some(Endianness::Big)), "/usr/bin/qemu-system-mips".to_string()),
        ],
        kcfg: KConfig { boot: KConfigBoot { bootloader: KConfigBootBootloader::Limine } },
    }
}

#[test]
fn running_the_kernel() {
    let globals = XtaskGlobalOptions { debug: true, verbose: 0, quiet: 0 };
    let task = XtaskRunnableSubproj::Zeros {
        emulator: Emulator::Qemu,
        accelerator: Accelerator::Disabled,
        arch: SupportedArch::Amd64,
        cpu: "host".to_string(),
        num_cpus: 2,
        gdb_window: false,
        memory: "2G".to_string(),
        initial_wait: false,
        emulator_args: vec![],
    };
    let cmd = task.command(&qemu_config(), &globals);
    assert_eq!(cmd.program, "/usr/bin/qemu-system-x86_64");
    assert_eq!(cmd.args[3], "2000M");
    assert_eq!(cmd.args[5], "2");
    assert!(cmd.args.iter().any(|a| a == "-S"));
    assert_eq!(cmd.args.last().map(String::as_str), Some("-s"));
    assert!(!cmd.args.iter().any(|a| a == "kvm"));
    let mips = run_zeros_qemu_cmd(
        &qemu_config(),
        &XtaskGlobalOptions { debug: false, verbose: 0, quiet: 0 },
        Emulator::Qemu,
        Accelerator::Kvm,
        SupportedArch::Mips32,
        "24Kf",
        1,
        false,
        "512MiB",
        true,
        &vec!["-nographic".to_string()],
    );
    assert_eq!(mips.program, "/usr/bin/qemu-system-mips");
    assert_eq!(mips.args[0], "-nographic");
    assert_eq!(mips.args[4], "537M");
    assert!(mips.args.iter().any(|a| a == "-enable-kvm"));
    assert_ne!(mips.args.last().map(String::as_str), Some("-s"));
}
