use zeros_tooling::arch::SupportedArch;
use zeros_tooling::limine::{
    bin_release_version, classify_tag, needed_file, redirect_step, select_latest, uefi_suffix, DetectCycle, MajorBound,
    MajorRange, RedirectAction, RedirectStep, ReleaseTag,
};

#[test]
fn uefi_suffixes() {
    assert_eq!(uefi_suffix(SupportedArch::Amd64), "X64");
    assert_eq!(uefi_suffix(SupportedArch::X86), "IA32");
    assert_eq!(uefi_suffix(SupportedArch::AArch64), "AA64");
    assert_eq!(uefi_suffix(SupportedArch::Riscv64), "RISCV64");
    assert_eq!(uefi_suffix(SupportedArch::LoongArch64), "LOONGARCH64");
}

#[test]
fn files_needed_from_a_release() {
    assert_eq!(
        needed_file(SupportedArch::Amd64, "/iso", "BOOTX64.EFI"),
        Some((None, "/iso/EFI/BOOT/BOOTX64.EFI".to_string()))
    );
    assert_eq!(needed_file(SupportedArch::X86, "/iso", "BOOTX64.EFI"), None);
    assert_eq!(
        needed_file(SupportedArch::X86, "/iso", "limine-bios-cd.bin"),
        Some((Some("-b"), "/iso/boot/limine/limine-bios-cd.bin".to_string()))
    );
    assert_eq!(
        needed_file(SupportedArch::Amd64, "/iso", "limine-uefi-cd.bin"),
        Some((Some("--efi-boot"), "/iso/boot/limine/limine-uefi-cd.bin".to_string()))
    );
    assert_eq!(needed_file(SupportedArch::Amd64, "/iso", "README.md"), None);
}

#[test]
fn binary_release_tags() {
    assert_eq!(bin_release_version("v8.0.1-binary"), Some(Some("8.0.1".to_string())));
    assert_eq!(bin_release_version("v10.4-binary"), Some(Some("10.4".to_string())));
    assert_eq!(bin_release_version("v8.0.1"), Some(None));
    assert_eq!(bin_release_version("release-8"), Some(None));
}

#[test]
fn redirections() {
    assert!(matches!(redirect_step(200, None), RedirectStep::Arrived));
    assert!(matches!(redirect_step(404, Some("x".to_string())), RedirectStep::Arrived));
    assert!(matches!(redirect_step(302, Some("https://b".to_string())), RedirectStep::Follow(ref t) if t == "https://b"));
    assert!(matches!(redirect_step(301, None), RedirectStep::MissingLocation));
}

#[test]
fn redirection_cycles_stop() {
    let mut policy = DetectCycle::new();
    assert_eq!(policy.redirect("https://b", "https://a"), RedirectAction::Follow);
    assert_eq!(policy.redirect("https://c", "https://b"), RedirectAction::Follow);
    assert_eq!(policy.redirect("https://a", "https://c"), RedirectAction::Stop);
    assert_eq!(policy.redirect("https://d", "https://c"), RedirectAction::Follow);
}

fn from_eight() -> MajorRange {
    MajorRange { start: MajorBound::Included(8), end: MajorBound::Unbounded }
}

#[test]
fn release_tags_are_sorted() {
    let only_eight = MajorRange { start: MajorBound::Included(8), end: MajorBound::Excluded(9) };
    assert!(only_eight.contains(8) && !only_eight.contains(9) && !only_eight.contains(7));
    assert!(matches!(classify_tag("v8.0.1-binary", &only_eight), ReleaseTag::Candidate(_)));
    assert!(matches!(classify_tag("v9.1-binary", &only_eight), ReleaseTag::OtherMajor));
    assert!(matches!(classify_tag("v8.0.1", &only_eight), ReleaseTag::NotBinary));
}

#[test]
fn the_latest_release_is_chosen() {
    let tags = ["v7.0.0-binary", "v8.1.0-binary", "v8.0.5-binary", "v8.1.0-binary", "v8.10.0"];
    let cands: Vec<_> = tags
        .iter()
        .filter_map(|t| match classify_tag(t, &from_eight()) {
            ReleaseTag::Candidate(v) => Some(v),
            _ => None,
        })
        .collect();
    assert_eq!(cands.len(), 3);
    assert_eq!(select_latest(&cands), Some(0));
    let more: Vec<_> = ["v8.0.5-binary", "v8.2.0-binary"]
        .iter()
        .filter_map(|t| match classify_tag(t, &from_eight()) {
            ReleaseTag::Candidate(v) => Some(v),
            _ => None,
        })
        .collect();
    assert_eq!(select_latest(&more), Some(1));
    assert_eq!(select_latest(&vec![]), None);
}

#[test]
fn no_candidate_comes_after_the_latest() {
    let tags = ["v8.0.5-binary", "v9.3.1-binary", "v8.10.0-binary", "v9.3.0-binary", "v10.0-binary", "v9.12.2-binary"];
    let cands: Vec<_> = tags
        .iter()
        .filter_map(|t| match classify_tag(t, &from_eight()) {
            ReleaseTag::Candidate(v) => Some(v),
            _ => None,
        })
        .collect();
    assert_eq!(cands.len(), 6);
    assert_eq!(select_latest(&cands), Some(4));
}
