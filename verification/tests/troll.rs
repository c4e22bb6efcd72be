use zeros_tooling::troll::{
    dwarf_report, eh_frame_total, executable_size, symbol_report, table_capacity, u64_to_hex, ReportEnd, TrollData, TrollLocation,
    TrollRegisterSet, SHF_EXECINSTR,
};

#[test]
fn executable_sections_are_summed() {
    let sections = vec![(SHF_EXECINSTR | 0x2, 100u64), (0x2, 50), (SHF_EXECINSTR, 23)];
    assert_eq!(executable_size(&sections), 123);
    assert_eq!(table_capacity(123), 13);
    assert_eq!(table_capacity(0), 1);
}

#[test]
fn hexadecimal() {
    assert_eq!(u64_to_hex(0), "0");
    assert_eq!(u64_to_hex(255), "ff");
    assert_eq!(u64_to_hex(0xdead_beef), "deadbeef");
    assert_eq!(u64_to_hex(u64::MAX), "ffffffffffffffff");
}

#[test]
fn unwinding_report() {
    let r = symbol_report("kmain", "_ZN5kmain", 0x1000, 42, 0x1000, 0x102a);
    assert_eq!(
        r,
        "  kmain:\n    mangled: _ZN5kmain\n    address: 0x1000\n    size: 42\n    unwind info:\n      start: 0x1000\n      size: 42"
    );
    assert_eq!(eh_frame_total(4096), "total .eh_frame size: 4096");
}

#[test]
fn table_records() {
    let d = TrollData {
        regs: TrollRegisterSet::Amd64 { rsp: 1, rbp: 2, ret: 3 },
        source_location: TrollLocation { file: "main.rs".to_string(), line: 10, column: 4 },
    };
    assert!(matches!(d.regs, TrollRegisterSet::Amd64 { ret: 3, .. }));
    assert_eq!(d.source_location.line, 10);
}

fn elf_header(class: u8) -> Vec<u8> {
    let mut h = vec![0x7f, b'E', b'L', b'F', class, 1, 1, 0, 0, 0, 0, 0, 0, 0, 0, 0];
    if class == 2 {
        h.extend_from_slice(&2u16.to_le_bytes());
        h.extend_from_slice(&62u16.to_le_bytes());
        h.extend_from_slice(&1u32.to_le_bytes());
        h.extend_from_slice(&[0u8; 24]);
        h.extend_from_slice(&0u32.to_le_bytes());
        for v in [64u16, 56, 0, 64, 0, 0] {
            h.extend_from_slice(&v.to_le_bytes());
        }
    } else {
        h.extend_from_slice(&2u16.to_le_bytes());
        h.extend_from_slice(&3u16.to_le_bytes());
        h.extend_from_slice(&1u32.to_le_bytes());
        h.extend_from_slice(&[0u8; 12]);
        h.extend_from_slice(&0u32.to_le_bytes());
        for v in [52u16, 32, 0, 40, 0, 0] {
            h.extend_from_slice(&v.to_le_bytes());
        }
    }
    h
}

#[test]
fn dwarf_reports_stop_at_the_first_error() {
    let (lines, end) = dwarf_report(&vec![1, 2, 3]);
    assert!(lines.is_empty());
    assert!(matches!(end, ReportEnd::Failed(ref m) if !m.is_empty()));
    let elf64 = elf_header(2);
    assert_eq!(elf64.len(), 64);
    let (lines, end) = dwarf_report(&elf64);
    assert!(lines.is_empty());
    assert!(matches!(end, ReportEnd::Failed(ref m) if m == "couldn't find \".eh_frame_hdr\" section"));
    let elf32 = elf_header(1);
    assert_eq!(elf32.len(), 52);
    let (lines, end) = dwarf_report(&elf32);
    assert!(lines.is_empty());
    assert!(matches!(end, ReportEnd::Failed(ref m) if m == "unsupported format !"));
}
