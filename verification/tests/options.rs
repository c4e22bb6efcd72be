use zeros_tooling::arch::SupportedArch;
use zeros_tooling::options::{Endianness, XtaskGlobalOptions, ZerosBuildProfile};

#[test]
fn verbosity_is_increases_less_decreases() {
    let g = XtaskGlobalOptions { debug: false, verbose: 3, quiet: 1 };
    assert_eq!(g.verbosity(), 2);
    assert_eq!(g.to_verbose_flags(), vec!["--verbose", "--verbose"]);
    let q = XtaskGlobalOptions { debug: true, verbose: 1, quiet: 4 };
    assert_eq!(q.verbosity(), 0);
    assert!(q.to_verbose_flags().is_empty());
}

#[test]
fn qemu_byte_orders() {
    assert_eq!(Endianness::qemu_default_for(SupportedArch::Mips32), Some(Endianness::Big));
    assert_eq!(Endianness::qemu_default_for(SupportedArch::Mips64), Some(Endianness::Big));
    assert_eq!(Endianness::qemu_default_for(SupportedArch::Amd64), None);
    assert_eq!(Endianness::qemu_default_for(SupportedArch::PowerPC64), None);
}

#[test]
fn build_profiles() {
    assert_eq!(ZerosBuildProfile::default_profile(), ZerosBuildProfile::ReleaseLTO);
    assert_eq!(ZerosBuildProfile::DevLTO.as_str(), "dev-lto");
    assert_eq!(ZerosBuildProfile::Release.as_str(), "release");
    assert!(ZerosBuildProfile::Dev.is_dev());
    assert!(!ZerosBuildProfile::ReleaseLTO.is_dev());
    assert_eq!(SupportedArch::LoongArch64.as_str(), "loongarch64");
}
