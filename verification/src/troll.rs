//! The unwinding tables of the kernel: the records of its own format, the
//! sizing of the table, and the report that inspecting DWARF unwinding
//! information prints.

use vstd::prelude::*;
use gimli::UnwindSection;
use object::{Endian, Object, ObjectSection, ObjectSymbol};
use object::read::elf::Sym;
use crate::runnable::string_views;
use crate::text::{decimal, push_char, u64_to_decimal};

verus! {

/// The registers that unwinding restores, per architecture.
#[derive(Clone, Copy, PartialEq, Eq, Debug, Structural)]
pub enum TrollRegisterSet {
    Amd64 {
        rsp: u64,
        rbp: u64,
        /// The return address (`RA` in DWARF's terms).
        ret: u64,
    },
    X86,
    AArch64,
    Arm32,
    Riscv32,
    Riscv64,
    PowerPC32,
    PowerPC64,
    Sparc32,
    Sparc64,
    Mips32,
    Mips64,
    Avr32,
    LoongArch64,
    ZArch,
}

/// A place in the source code.
pub struct TrollLocation {
    pub file: String,
    pub line: usize,
    pub column: usize,
}

/// What the table records for a range of code addresses.
pub struct TrollData {
    pub regs: TrollRegisterSet,
    pub source_location: TrollLocation,
}

/// The flag of an ELF section that holds executable code.
pub const SHF_EXECINSTR: u64 = 0x4;

/// The summed size of the executable sections among `(flags, size)` pairs.
pub open spec fn executable_size_spec(sections: Seq<(u64, u64)>) -> nat
    decreases sections.len(),
{
    if sections.len() == 0 {
        0
    } else {
        executable_size_spec(sections.drop_last()) + if sections.last().0 & SHF_EXECINSTR == SHF_EXECINSTR {
            sections.last().1 as nat
        } else {
            0
        }
    }
}

proof fn lemma_executable_size_prefix(sections: Seq<(u64, u64)>, k: int)
    requires
        0 <= k <= sections.len(),
    ensures
        executable_size_spec(sections.take(k)) <= executable_size_spec(sections),
    decreases sections.len() - k,
{
    if k < sections.len() {
        lemma_executable_size_prefix(sections, k + 1);
        assert(sections.take(k + 1).drop_last() =~= sections.take(k));
    } else {
        assert(sections.take(k) =~= sections);
    }
}

/// The summed size of the executable sections, as the table is sized from.
pub fn executable_size(sections: &Vec<(u64, u64)>) -> (res: usize)
    requires
        executable_size_spec(sections@) <= usize::MAX,
    ensures
        res == executable_size_spec(sections@),
{
    let mut total: usize = 0;
    let mut i: usize = 0;
    while i < sections.len()
        invariant
            i <= sections.len(),
            executable_size_spec(sections@) <= usize::MAX,
            total == executable_size_spec(sections@.take(i as int)),
        decreases sections.len() - i,
    {
        let (flags, size) = sections[i];
        proof {
            lemma_executable_size_prefix(sections@, i + 1);
            assert(sections@.take(i + 1).drop_last() =~= sections@.take(i as int));
        }
        if flags & SHF_EXECINSTR == SHF_EXECINSTR {
            total = total + size as usize;
        }
        i += 1;
    }
    assert(sections@.take(sections.len() as int) =~= sections@);
    total
}

/// The number of entries the table is first made room for: one per ten
/// bytes of code, plus one.
pub fn table_capacity(executable_size: usize) -> (res: usize)
    ensures
        res == executable_size / 10 + 1,
{
    executable_size / 10 + 1
}

/// The lowercase hexadecimal digits of `n`, most significant first, with
/// no leading zero.
pub open spec fn hex(n: nat) -> Seq<char>
    decreases n,
{
    if n < 16 {
        seq![hex_digit(n)]
    } else {
        hex(n / 16).push(hex_digit(n % 16))
    }
}

/// The character of a hexadecimal digit, in lowercase.
pub open spec fn hex_digit(d: nat) -> char {
    if d < 10 {
        ((d + 48) as u8) as char
    } else {
        ((d + 87) as u8) as char
    }
}

fn hex_char(d: u64) -> (c: char)
    requires
        d < 16,
    ensures
        c == hex_digit(d as nat),
{
    if d < 10 {
        ((d + 48) as u8) as char
    } else {
        ((d + 87) as u8) as char
    }
}

/// The lowercase hexadecimal representation of `n`, as `{:x}` writes it.
pub fn u64_to_hex(n: u64) -> (res: String)
    ensures
        res@ == hex(n as nat),
{
    let mut digits: Vec<char> = Vec::new();
    let mut m: u64 = n;
    loop
        invariant_except_break
            hex(n as nat) == hex(m as nat) + digits@.reverse(),
        ensures
            hex(n as nat) == digits@.reverse(),
        decreases m,
    {
        let c = hex_char(m % 16);
        if m < 16 {
            assert(hex(m as nat) == seq![c]);
            let ghost old_digits = digits@;
            digits.push(c);
            assert(digits@.reverse() =~= seq![c] + old_digits.reverse());
            break;
        }
        assert(hex(m as nat) == hex((m / 16) as nat).push(c));
        let ghost old_digits = digits@;
        digits.push(c);
        assert(digits@.reverse() =~= seq![c] + old_digits.reverse());
        assert(hex((m / 16) as nat) + digits@.reverse() =~= hex((m / 16) as nat).push(c) + old_digits.reverse());
        m = m / 16;
    }
    let mut res = String::new();
    let mut i: usize = digits.len();
    while i > 0
        invariant
            i <= digits.len(),
            res@ == digits@.reverse().take(digits.len() - i),
        decreases i,
    {
        i -= 1;
        push_char(&mut res, digits[i]);
        assert(digits@.reverse().take(digits.len() - i) =~= digits@.reverse().take(digits.len() - i - 1).push(
            digits@[i as int],
        ));
    }
    assert(digits@.reverse().take(digits.len() as int) =~= digits@.reverse());
    res
}

/// The report of one function's unwinding information.
pub open spec fn symbol_report_spec(
    demangled: Seq<char>,
    mangled: Seq<char>,
    address: nat,
    size: nat,
    start: nat,
    end: nat,
) -> Seq<char> {
    "  "@ + demangled + ":\n    mangled: "@ + mangled + "\n    address: 0x"@ + hex(address) + "\n    size: "@ + decimal(
        size,
    ) + "\n    unwind info:\n      start: 0x"@ + hex(start) + "\n      size: "@ + decimal((end - start) as nat)
}

/// Reports one function's unwinding information: its names, address and
/// size, and the start and length of the code its unwinding row covers.
pub fn symbol_report(demangled: &str, mangled: &str, address: u64, size: u64, start: u64, end: u64) -> (res: String)
    requires
        start <= end,
    ensures
        res@ == symbol_report_spec(demangled@, mangled@, address as nat, size as nat, start as nat, end as nat),
{
    let mut s = "  ".to_owned();
    s.append(demangled);
    s.append(":\n    mangled: ");
    s.append(mangled);
    s.append("\n    address: 0x");
    s.append(u64_to_hex(address).as_str());
    s.append("\n    size: ");
    s.append(u64_to_decimal(size).as_str());
    s.append("\n    unwind info:\n      start: 0x");
    s.append(u64_to_hex(start).as_str());
    s.append("\n      size: ");
    s.append(u64_to_decimal(end - start).as_str());
    s
}

/// The closing line of the report: the size of the `.eh_frame` section.
pub fn eh_frame_total(size: u64) -> (res: String)
    ensures
        res@ == "total .eh_frame size: "@ + decimal(size as nat),
{
    let mut s = "total .eh_frame size: ".to_owned();
    s.append(u64_to_decimal(size).as_str());
    s
}

/// What `object::File::parse` makes of a file's bytes: whether it is a
/// 64-bit ELF file, or the error it reports.
pub uninterp spec fn elf64_parse(bytes: Seq<u8>) -> Result<bool, Seq<char>>;

/// What `section_by_name` finds in a 64-bit ELF file: the address and size
/// of the named section.
pub uninterp spec fn elf_section(bytes: Seq<u8>, name: Seq<char>) -> Option<(u64, u64)>;

/// What `uncompressed_data` gives for the named section of a 64-bit ELF
/// file: its contents, or the error it reports.
pub uninterp spec fn section_contents(bytes: Seq<u8>, name: Seq<char>) -> Result<Seq<u8>, Seq<char>>;

/// Whether a 64-bit ELF file is little endian, as its `endian()` says.
pub uninterp spec fn elf64_little_endian(bytes: Seq<u8>) -> bool;

/// The symbols of a 64-bit ELF file, as `symbols()` lists them: each with
/// its type, its name as `name()` reads it from the string table (or the
/// error it reports), its address and its size.
pub uninterp spec fn elf64_symbols(bytes: Seq<u8>) -> Seq<(u8, Result<Seq<u8>, Seq<char>>, u64, u64)>;

/// What `std::str::from_utf8` makes of bytes: their text, or the error it
/// reports.
pub uninterp spec fn utf8_decoding(bytes: Seq<u8>) -> Result<Seq<char>, Seq<char>>;

/// What gimli's `unwind_info_for_address` finds in `.eh_frame` contents
/// read with the given byte order and section addresses: the start and end
/// address of the row that covers `address`, or the error it reports.
pub uninterp spec fn unwind_range(
    frame: Seq<u8>,
    little: bool,
    hdr_address: u64,
    frame_address: u64,
    text_address: u64,
    address: u64,
) -> Result<(u64, u64), Seq<char>>;

/// What `symbolic_demangle::demangle` makes of a symbol name.
pub uninterp spec fn demangled(name: Seq<char>) -> Seq<char>;

/// A symbol of an ELF file, in plain values.
pub struct ElfSymbol {
    pub kind: u8,
    pub name: Result<Vec<u8>, String>,
    pub address: u64,
    pub size: u64,
}

impl View for ElfSymbol {
    type V = (u8, Result<Seq<u8>, Seq<char>>, u64, u64);

    open spec fn view(&self) -> (u8, Result<Seq<u8>, Seq<char>>, u64, u64) {
        (self.kind, match self.name {
            Ok(n) => Ok(n@),
            Err(e) => Err(e@),
        }, self.address, self.size)
    }
}

/// The views of a sequence of symbols.
pub open spec fn symbol_views(v: Seq<ElfSymbol>) -> Seq<(u8, Result<Seq<u8>, Seq<char>>, u64, u64)> {
    v.map_values(|s: ElfSymbol| s@)
}

/// `object::File::parse`: `Ok(true)` for a 64-bit ELF file, `Ok(false)`
/// for another format, or the error's message. The contract names the result.
#[verifier::external_body]
fn elf64_kind(bytes: &Vec<u8>) -> (res: Result<bool, String>)
    ensures
        match res {
            Ok(b) => elf64_parse(bytes@) == Ok::<bool, Seq<char>>(b),
            Err(e) => elf64_parse(bytes@) == Err::<bool, Seq<char>>(e@),
        },
{
    match object::File::parse(bytes.as_slice()) {
        Ok(object::File::Elf64(_)) => Ok(true),
        Ok(_) => Ok(false),
        Err(e) => Err(e.to_string()),
    }
}

/// `section_by_name` on a 64-bit ELF file: the section's address and size;
/// `None` where there is no such section or the bytes are no such file.
/// The contract names the result.
#[verifier::external_body]
fn section_of(bytes: &Vec<u8>, name: &str) -> (res: Option<(u64, u64)>)
    ensures
        res == elf_section(bytes@, name@),
{
    match object::File::parse(bytes.as_slice()) {
        Ok(object::File::Elf64(f)) => match f.section_by_name(name) {
            Some(s) => Some((s.address(), s.size())),
            None => None,
        },
        _ => None,
    }
}

/// `uncompressed_data` of a section of a 64-bit ELF file, or the error's
/// message; no bytes where there is no such section or file. The contract
/// names the result.
#[verifier::external_body]
fn section_data(bytes: &Vec<u8>, name: &str) -> (res: Result<Vec<u8>, String>)
    ensures
        match res {
            Ok(d) => section_contents(bytes@, name@) == Ok::<Seq<u8>, Seq<char>>(d@),
            Err(e) => section_contents(bytes@, name@) == Err::<Seq<u8>, Seq<char>>(e@),
        },
{
    match object::File::parse(bytes.as_slice()) {
        Ok(object::File::Elf64(f)) => match f.section_by_name(name) {
            Some(s) => match s.uncompressed_data() {
                Ok(d) => Ok(d.into_owned()),
                Err(e) => Err(e.to_string()),
            },
            None => Ok(Vec::new()),
        },
        _ => Ok(Vec::new()),
    }
}

/// The byte order of a 64-bit ELF file (`endian().is_little_endian()`);
/// little where the bytes are no such file. The contract names the result.
#[verifier::external_body]
fn little_endian(bytes: &Vec<u8>) -> (res: bool)
    ensures
        res == elf64_little_endian(bytes@),
{
    match object::File::parse(bytes.as_slice()) {
        Ok(object::File::Elf64(f)) => f.endian().is_little_endian(),
        _ => true,
    }
}

/// The symbols of a 64-bit ELF file (`symbols()`), each with its type,
/// name, address and size; none where the bytes are no such file. The
/// contract names the result.
#[verifier::external_body]
fn elf_symbols(bytes: &Vec<u8>) -> (res: Vec<ElfSymbol>)
    ensures
        symbol_views(res@) == elf64_symbols(bytes@),
{
    let mut out = Vec::new();
    if let Ok(object::File::Elf64(f)) = object::File::parse(bytes.as_slice()) {
        let strings = f.elf_symbol_table().strings();
        for sym in f.symbols() {
            let name = match sym.elf_symbol().name(object::Endianness::Little, strings) {
                Ok(n) => Ok(n.to_vec()),
                Err(e) => Err(e.to_string()),
            };
            out.push(ElfSymbol { kind: sym.elf_symbol().st_type().0, name, address: sym.address(), size: sym.size() });
        }
    }
    out
}

/// `std::str::from_utf8`: the text, or the error's message. The contract
/// names the result.
#[verifier::external_body]
fn utf8_text(bytes: &Vec<u8>) -> (res: Result<String, String>)
    ensures
        match res {
            Ok(t) => utf8_decoding(bytes@) == Ok::<Seq<char>, Seq<char>>(t@),
            Err(e) => utf8_decoding(bytes@) == Err::<Seq<char>, Seq<char>>(e@),
        },
{
    match std::str::from_utf8(bytes.as_slice()) {
        Ok(t) => Ok(t.to_owned()),
        Err(e) => Err(e.to_string()),
    }
}

/// gimli's `unwind_info_for_address` on `.eh_frame` contents with the
/// given byte order and section addresses: the covering row's start and
/// end address, or the error's message. The contract names the result.
#[verifier::external_body]
fn unwind_range_of(
    frame: &Vec<u8>,
    little: bool,
    hdr_address: u64,
    frame_address: u64,
    text_address: u64,
    address: u64,
) -> (res: Result<(u64, u64), String>)
    ensures
        match res {
            Ok(r) => unwind_range(frame@, little, hdr_address, frame_address, text_address, address) == Ok::<
                (u64, u64),
                Seq<char>,
            >(r),
            Err(e) => unwind_range(frame@, little, hdr_address, frame_address, text_address, address) == Err::<
                (u64, u64),
                Seq<char>,
            >(e@),
        },
{
    let endian = if little { gimli::RunTimeEndian::Little } else { gimli::RunTimeEndian::Big };
    let bases = gimli::BaseAddresses::default().set_eh_frame_hdr(hdr_address).set_eh_frame(frame_address).set_text(text_address);
    let eh_frame = gimli::EhFrame::new(frame.as_slice(), endian);
    let mut ctx = gimli::UnwindContext::new();
    match eh_frame.unwind_info_for_address(&bases, &mut ctx, address, gimli::EhFrame::cie_from_offset) {
        Ok(row) => Ok((row.start_address(), row.end_address())),
        Err(e) => Err(e.to_string()),
    }
}

/// `symbolic_demangle::demangle`. The contract names the result.
#[verifier::external_body]
fn demangle(name: &str) -> (res: String)
    ensures
        res@ == demangled(name@),
{
    symbolic_demangle::demangle(name).into_owned()
}

/// How the DWARF report ends: with the total size of `.eh_frame`, with an
/// error, or where a row's end lies before its start (the original's
/// arithmetic overflow).
pub enum ReportEnd {
    Total(String),
    Failed(String),
    Overflow,
}

/// The abstract value of how a report ends.
pub enum ReportEndModel {
    Total(Seq<char>),
    Failed(Seq<char>),
    Overflow,
}

impl View for ReportEnd {
    type V = ReportEndModel;

    open spec fn view(&self) -> ReportEndModel {
        match self {
            ReportEnd::Total(t) => ReportEndModel::Total(t@),
            ReportEnd::Failed(e) => ReportEndModel::Failed(e@),
            ReportEnd::Overflow => ReportEndModel::Overflow,
        }
    }
}

/// The symbol type of a function (`STT_FUNC`).
pub open spec fn function_symbol_type() -> u8 {
    2
}

/// The section addresses and `.eh_frame` contents that the unwinding rows
/// are read with.
pub struct UnwindSource {
    pub frame: Seq<u8>,
    pub little: bool,
    pub hdr_address: u64,
    pub frame_address: u64,
    pub text_address: u64,
}

/// What one symbol adds to the report: nothing for a symbol that is not a
/// function, else its report line, or what stops the report.
pub open spec fn symbol_outcome(
    sym: (u8, Result<Seq<u8>, Seq<char>>, u64, u64),
    src: UnwindSource,
) -> Option<Result<Seq<char>, ReportEndModel>> {
    if sym.0 != function_symbol_type() {
        None
    } else {
        match sym.1 {
            Err(e) => Some(Err(ReportEndModel::Failed(e))),
            Ok(bytes) => match utf8_decoding(bytes) {
                Err(e) => Some(Err(ReportEndModel::Failed(e))),
                Ok(mangled) => {
                    let d = demangled(mangled);
                    match unwind_range(src.frame, src.little, src.hdr_address, src.frame_address, src.text_address, sym.2) {
                        Err(e) => Some(
                            Err(
                                ReportEndModel::Failed(
                                    e + " (function: "@ + d + ", address: "@ + decimal(sym.2 as nat) + ")"@,
                                ),
                            ),
                        ),
                        Ok((start, end)) => if end < start {
                            Some(Err(ReportEndModel::Overflow))
                        } else {
                            Some(Ok(symbol_report_spec(d, mangled, sym.2 as nat, sym.3 as nat, start as nat, end as nat)))
                        },
                    }
                },
            },
        }
    }
}

/// The report lines of the symbols in order, and what stopped the report
/// before its end, if anything: no line follows a stop.
pub open spec fn symbol_lines(syms: Seq<(u8, Result<Seq<u8>, Seq<char>>, u64, u64)>, src: UnwindSource) -> (
    Seq<Seq<char>>,
    Option<ReportEndModel>,
)
    decreases syms.len(),
{
    if syms.len() == 0 {
        (Seq::empty(), None)
    } else {
        let prev = symbol_lines(syms.drop_last(), src);
        if prev.1 is Some {
            prev
        } else {
            match symbol_outcome(syms.last(), src) {
                None => prev,
                Some(Ok(line)) => (prev.0.push(line), None),
                Some(Err(stop)) => (prev.0, Some(stop)),
            }
        }
    }
}

proof fn lemma_stopped_lines_stay(syms: Seq<(u8, Result<Seq<u8>, Seq<char>>, u64, u64)>, src: UnwindSource, n: int)
    requires
        0 <= n <= syms.len(),
        symbol_lines(syms.take(n), src).1 is Some,
    ensures
        symbol_lines(syms, src) == symbol_lines(syms.take(n), src),
    decreases syms.len() - n,
{
    if n < syms.len() {
        assert(syms.take(n + 1).drop_last() =~= syms.take(n));
        lemma_stopped_lines_stay(syms, src, n + 1);
    } else {
        assert(syms.take(n) =~= syms);
    }
}

/// The DWARF report of an executable's bytes: nothing but an error unless
/// they are a 64-bit ELF file with `.eh_frame_hdr`, `.eh_frame` and `.text`
/// sections whose `.eh_frame` can be read; else the line of each function
/// symbol in order, then the total size of `.eh_frame`, the lines stopping
/// at the first error.
pub open spec fn dwarf_report_spec(bytes: Seq<u8>) -> (Seq<Seq<char>>, ReportEndModel) {
    match elf64_parse(bytes) {
        Err(e) => (Seq::empty(), ReportEndModel::Failed(e)),
        Ok(false) => (Seq::empty(), ReportEndModel::Failed("unsupported format !"@)),
        Ok(true) => match elf_section(bytes, ".eh_frame_hdr"@) {
            None => (Seq::empty(), ReportEndModel::Failed("couldn't find \".eh_frame_hdr\" section"@)),
            Some(hdr) => match elf_section(bytes, ".eh_frame"@) {
                None => (Seq::empty(), ReportEndModel::Failed("couldn't find \".eh_frame\" section"@)),
                Some(frame) => match elf_section(bytes, ".text"@) {
                    None => (Seq::empty(), ReportEndModel::Failed("couldn't find \".text\" section"@)),
                    Some(text) => match section_contents(bytes, ".eh_frame"@) {
                        Err(e) => (Seq::empty(), ReportEndModel::Failed(e)),
                        Ok(data) => {
                            let src = UnwindSource {
                                frame: data,
                                little: elf64_little_endian(bytes),
                                hdr_address: hdr.0,
                                frame_address: frame.0,
                                text_address: text.0,
                            };
                            let r = symbol_lines(elf64_symbols(bytes), src);
                            match r.1 {
                                Some(stop) => (r.0, stop),
                                None => (r.0, ReportEndModel::Total("total .eh_frame size: "@ + decimal(frame.1 as nat))),
                            }
                        },
                    },
                },
            },
        },
    }
}

/// Builds the DWARF report of an executable's bytes (see [`dwarf_report_spec`]).
pub fn dwarf_report(bytes: &Vec<u8>) -> (res: (Vec<String>, ReportEnd))
    ensures
        (string_views(res.0@), res.1@) == dwarf_report_spec(bytes@),
{
    let no_lines: Vec<String> = Vec::new();
    assert(string_views(no_lines@) =~= Seq::<Seq<char>>::empty());
    match elf64_kind(bytes) {
        Err(e) => return (no_lines, ReportEnd::Failed(e)),
        Ok(false) => return (no_lines, ReportEnd::Failed("unsupported format !".to_owned())),
        Ok(true) => {},
    }
    let hdr = match section_of(bytes, ".eh_frame_hdr") {
        Some(h) => h,
        None => return (no_lines, ReportEnd::Failed("couldn't find \".eh_frame_hdr\" section".to_owned())),
    };
    let frame = match section_of(bytes, ".eh_frame") {
        Some(f) => f,
        None => return (no_lines, ReportEnd::Failed("couldn't find \".eh_frame\" section".to_owned())),
    };
    let text = match section_of(bytes, ".text") {
        Some(t) => t,
        None => return (no_lines, ReportEnd::Failed("couldn't find \".text\" section".to_owned())),
    };
    let data = match section_data(bytes, ".eh_frame") {
        Ok(d) => d,
        Err(e) => return (no_lines, ReportEnd::Failed(e)),
    };
    let little = little_endian(bytes);
    let ghost src = UnwindSource {
        frame: data@,
        little,
        hdr_address: hdr.0,
        frame_address: frame.0,
        text_address: text.0,
    };
    let syms = elf_symbols(bytes);
    let ghost sv = symbol_views(syms@);
    let mut lines: Vec<String> = Vec::new();
    let mut i: usize = 0;
    assert(sv.take(0) =~= Seq::<(u8, Result<Seq<u8>, Seq<char>>, u64, u64)>::empty());
    while i < syms.len()
        invariant
            i <= syms.len(),
            sv == symbol_views(syms@),
            sv == elf64_symbols(bytes@),
            src == (UnwindSource {
                frame: data@,
                little,
                hdr_address: hdr.0,
                frame_address: frame.0,
                text_address: text.0,
            }),
            symbol_lines(sv.take(i as int), src) == (string_views(lines@), None::<ReportEndModel>),
            elf64_parse(bytes@) == Ok::<bool, Seq<char>>(true),
            elf_section(bytes@, ".eh_frame_hdr"@) == Some(hdr),
            elf_section(bytes@, ".eh_frame"@) == Some(frame),
            elf_section(bytes@, ".text"@) == Some(text),
            section_contents(bytes@, ".eh_frame"@) == Ok::<Seq<u8>, Seq<char>>(data@),
            little == elf64_little_endian(bytes@),
        decreases syms.len() - i,
    {
        assert(sv.take(i + 1).drop_last() =~= sv.take(i as int));
        assert(sv.take(i + 1).last() == syms@[i as int]@);
        let ghost before = lines@;
        let sym = &syms[i];
        if sym.kind == 2 {
            let name_bytes = match &sym.name {
                Ok(n) => n,
                Err(e) => {
                    proof {
                        assert(sv[i as int].1 == Err::<Seq<u8>, Seq<char>>(e@));
                        assert(symbol_outcome(sv[i as int], src) == Some(
                            Err::<Seq<char>, ReportEndModel>(ReportEndModel::Failed(e@)),
                        ));
                        lemma_stopped_lines_stay(sv, src, i + 1);
                    }
                    return (lines, ReportEnd::Failed(e.clone()));
                },
            };
            let mangled = match utf8_text(name_bytes) {
                Ok(t) => t,
                Err(e) => {
                    proof {
                        lemma_stopped_lines_stay(sv, src, i + 1);
                    }
                    return (lines, ReportEnd::Failed(e));
                },
            };
            let d = demangle(mangled.as_str());
            match unwind_range_of(&data, little, hdr.0, frame.0, text.0, sym.address) {
                Err(e) => {
                    let mut m = e;
                    m.append(" (function: ");
                    m.append(d.as_str());
                    m.append(", address: ");
                    m.append(u64_to_decimal(sym.address).as_str());
                    m.append(")");
                    proof {
                        lemma_stopped_lines_stay(sv, src, i + 1);
                    }
                    return (lines, ReportEnd::Failed(m));
                },
                Ok((start, end)) => {
                    if end < start {
                        proof {
                            lemma_stopped_lines_stay(sv, src, i + 1);
                        }
                        return (lines, ReportEnd::Overflow);
                    }
                    let line = symbol_report(d.as_str(), mangled.as_str(), sym.address, sym.size, start, end);
                    lines.push(line);
                    assert(string_views(lines@) =~= string_views(before).push(line@));
                },
            }
        }
        i += 1;
    }
    assert(sv.take(syms.len() as int) =~= sv);
    (lines, ReportEnd::Total(eh_frame_total(frame.1)))
}

} // verus!
