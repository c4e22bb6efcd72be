//! Running the kernel under an emulator: the memory-size grammar and the
//! emulator's command line.

use vstd::prelude::*;
use crate::arch::SupportedArch;
use crate::buildrs::push_str;
use crate::configure::{lookup_executable, Executable, ZerosConfig};
use crate::options::{qemu_default_endianness, Endianness, XtaskGlobalOptions};
use crate::runnable::{clone_strings, extend_strings, string_views, CommandLine};
use crate::text::{
    chars_of, decimal, digit_char, digits_value, is_digit, is_white_space, push_char, trim_chars, trim_end, trim_start,
    trimmed, u64_to_decimal,
};

verus! {

/// An optional value that a parser fills at most once.
pub enum Maybe<T> {
    Just(T),
    Nothing,
}

impl<T> Maybe<Maybe<T>> {
    /// The inner value of a nested `Maybe`, `None` where either level is.
    pub fn flatten(self) -> (res: Maybe<T>)
        ensures
            res == (match self {
                Maybe::Just(inner) => inner,
                Maybe::Nothing => Maybe::Nothing,
            }),
    {
        match self {
            Maybe::Just(inner) => inner,
            Maybe::Nothing => Maybe::Nothing,
        }
    }
}

impl<T> Maybe<T> {
    /// The held value.
    pub fn unwrap(self) -> (res: T)
        requires
            self is Just,
        ensures
            Maybe::Just(res) == self,
    {
        match self {
            Maybe::Just(val) => val,
            Maybe::Nothing => vstd::pervasive::unreached(),
        }
    }

    /// `self` where it holds a value, `rhs` otherwise.
    pub fn bitor(self, rhs: Self) -> (res: Self)
        ensures
            res == (match self {
                Maybe::Nothing => rhs,
                Maybe::Just(_) => self,
            }),
    {
        match self {
            Maybe::Nothing => rhs,
            Maybe::Just(_) => self,
        }
    }

    /// `self` where it holds a value, `rhs` as a held value otherwise.
    pub fn bitor_value(self, rhs: T) -> (res: Self)
        ensures
            res == (match self {
                Maybe::Nothing => Maybe::Just(rhs),
                Maybe::Just(_) => self,
            }),
    {
        match self {
            Maybe::Nothing => Maybe::Just(rhs),
            Maybe::Just(_) => self,
        }
    }

    /// An empty `Maybe`, whatever capacity is asked for.
    pub fn with_capacity(n: usize) -> (res: Self)
        ensures
            res is Nothing,
    {
        Maybe::Nothing
    }

    /// Fills an empty `Maybe`.
    pub fn push(&mut self, item: T)
        requires
            *old(self) is Nothing,
        ensures
            *final(self) == Maybe::Just(item),
    {
        *self = Maybe::Just(item);
    }
}

/// `base` to the power `e`.
pub open spec fn power(base: nat, e: nat) -> nat
    decreases e,
{
    if e == 0 {
        1
    } else {
        base * power(base, (e - 1) as nat)
    }
}

/// The power that a unit letter stands for: `K`, `M`, `G` or `T`.
pub open spec fn unit_exponent(c: char) -> Option<nat> {
    if c == 'K' {
        Some(1)
    } else if c == 'M' {
        Some(2)
    } else if c == 'G' {
        Some(3)
    } else if c == 'T' {
        Some(4)
    } else {
        None
    }
}

/// The multiplier of a unit suffix: nothing or `B` for bytes; a unit letter
/// alone or followed by `B` for a power of 1000; a unit letter followed by
/// `iB` for a power of 1024; no multiplier for anything else.
pub open spec fn unit_multiplier(u: Seq<char>) -> Option<nat> {
    if u.len() == 0 || (u.len() == 1 && u[0] == 'B') {
        Some(1)
    } else {
        match unit_exponent(u[0]) {
            None => None,
            Some(e) => if u.len() == 1 || (u.len() == 2 && u[1] == 'B') {
                Some(power(1000, e))
            } else if u.len() == 3 && u[1] == 'i' && u[2] == 'B' {
                Some(power(1024, e))
            } else {
                None
            },
        }
    }
}

/// The length of an optional leading `+`.
pub open spec fn sign_len(s: Seq<char>) -> int {
    if s.len() > 0 && s[0] == '+' {
        1
    } else {
        0
    }
}

/// The end of the run of decimal digits that starts at `i`.
pub open spec fn digits_end(s: Seq<char>, i: int) -> int
    decreases s.len() - i,
{
    if 0 <= i < s.len() && is_digit(s[i]) {
        digits_end(s, i + 1)
    } else {
        i
    }
}

/// The number of bytes that a memory size means: after white space is
/// trimmed, an optional `+`, at least one decimal digit and a unit suffix.
/// `None` where the text does not follow that grammar, or where the number
/// or the number of bytes does not fit in 64 bits.
pub open spec fn mem_size_bytes(input: Seq<char>) -> Option<nat> {
    let t = trimmed(input);
    let start = sign_len(t);
    let end = digits_end(t, start);
    let n = digits_value(t.subrange(start, end));
    if end == start || n > u64::MAX {
        None
    } else {
        match unit_multiplier(t.subrange(end, t.len() as int)) {
            Some(m) => if n * m <= u64::MAX {
                Some(n * m)
            } else {
                None
            },
            None => None,
        }
    }
}

/// A number of bytes in megabytes (of 1000 * 1000 bytes), rounded to the
/// nearest whole number, halves upwards.
pub open spec fn megabytes(bytes: nat) -> nat {
    (bytes + 500000) / 1000000
}

proof fn lemma_power_mono(b: nat, e: nat)
    requires
        b <= 1024,
    ensures
        power(b, e) <= power(1024, e),
    decreases e,
{
    if e > 0 {
        lemma_power_mono(b, (e - 1) as nat);
        let p = power(b, (e - 1) as nat);
        let q = power(1024, (e - 1) as nat);
        assert(b * p <= 1024 * q) by (nonlinear_arith)
            requires
                b <= 1024,
                p <= q,
        ;
    }
}

proof fn lemma_power_bound(b: nat, e: nat)
    requires
        b <= 1024,
        e <= 4,
    ensures
        power(b, e) <= 1099511627776,
{
    lemma_power_mono(b, e);
    reveal_with_fuel(power, 5);
    if e == 0 {
    } else if e == 1 {
    } else if e == 2 {
    } else if e == 3 {
    } else {
    }
}

/// `base` to the power `exp`, by repeated multiplication.
fn scale(base: u64, exp: u64) -> (res: u64)
    requires
        base <= 1024,
        exp <= 4,
    ensures
        res == power(base as nat, exp as nat),
        res <= 1099511627776,
{
    let mut mult: u64 = 1;
    let mut k: u64 = 0;
    while k < exp
        invariant
            k <= exp <= 4,
            base <= 1024,
            mult == power(base as nat, k as nat),
        decreases exp - k,
    {
        proof {
            lemma_power_bound(base as nat, (k + 1) as nat);
            assert(power(base as nat, (k + 1) as nat) == base * power(base as nat, k as nat));
        }
        mult = base * mult;
        k += 1;
    }
    proof {
        lemma_power_bound(base as nat, exp as nat);
    }
    mult
}

/// The multiplier of the unit suffix that starts at `i`.
fn suffix_multiplier(t: &Vec<char>, i: usize) -> (res: Option<u64>)
    requires
        i <= t.len(),
    ensures
        match unit_multiplier(t@.subrange(i as int, t@.len() as int)) {
            Some(m) => res == Some(m as u64) && m <= 1099511627776,
            None => res is None,
        },
{
    let ghost u = t@.subrange(i as int, t@.len() as int);
    let n = t.len() - i;
    if n == 0 || (n == 1 && t[i] == 'B') {
        return Some(1);
    }
    let c = t[i];
    let exp: u64 = if c == 'K' {
        1
    } else if c == 'M' {
        2
    } else if c == 'G' {
        3
    } else if c == 'T' {
        4
    } else {
        0
    };
    assert(u[0] == c);
    if exp == 0 {
        return None;
    }
    assert(unit_exponent(c) == Some(exp as nat));
    let base: u64 = if n == 1 || (n == 2 && t[i + 1] == 'B') {
        1000
    } else if n == 3 && t[i + 1] == 'i' && t[i + 2] == 'B' {
        1024
    } else {
        0
    };
    if base == 0 {
        return None;
    }
    Some(scale(base, exp))
}

/// The number of bytes that a memory size means (see [`mem_size_bytes`]).
pub fn qemu_mem_bytes(input: &str) -> (res: Option<u64>)
    ensures
        match mem_size_bytes(input@) {
            Some(n) => res == Some(n as u64),
            None => res is None,
        },
{
    let all = chars_of(input);
    let t = trim_chars(&all);
    let mut i: usize = 0;
    if t.len() > 0 && t[0] == '+' {
        i = 1;
    }
    let start = i;
    let mut value: u128 = 0;
    assert(t@.subrange(start as int, start as int) =~= Seq::<char>::empty());
    while i < t.len() && '0' <= t[i] && t[i] <= '9'
        invariant
            start <= i <= t.len(),
            start as int == sign_len(t@),
            digits_end(t@, i as int) == digits_end(t@, start as int),
            value == if digits_value(t@.subrange(start as int, i as int)) <= u64::MAX {
                digits_value(t@.subrange(start as int, i as int)) as int
            } else {
                u64::MAX + 1
            },
        decreases t.len() - i,
    {
        let d = (t[i] as u32 - 48) as u128;
        assert(t@.subrange(start as int, i + 1).drop_last() =~= t@.subrange(start as int, i as int));
        assert(t@.subrange(start as int, i + 1).last() == t@[i as int]);
        if value <= u64::MAX as u128 {
            value = value * 10 + d;
        }
        if value > u64::MAX as u128 {
            value = u64::MAX as u128 + 1;
        }
        i += 1;
    }
    let end = i;
    assert(digits_end(t@, end as int) == end);
    assert(trimmed(input@) == t@);
    if end == start || value > u64::MAX as u128 {
        return None;
    }
    match suffix_multiplier(&t, end) {
        None => None,
        Some(m) => {
            let m128 = m as u128;
            assert(value * m128 <= 0xffff_ffff_ffff_ffff * 1099511627776) by (nonlinear_arith)
                requires
                    value <= 0xffff_ffff_ffff_ffff,
                    m128 <= 1099511627776,
            ;
            let product = value * m128;
            if product > u64::MAX as u128 {
                None
            } else {
                Some(product as u64)
            }
        },
    }
}

/// The memory size handed to QEMU's `-m`: the number of megabytes that the
/// size means, rounded to the nearest, followed by `M`.
pub fn parse_qemu_mem(input: String) -> (res: String)
    requires
        mem_size_bytes(input@) is Some,
    ensures
        res@ == decimal(megabytes(mem_size_bytes(input@)->Some_0)).push('M'),
{
    let bytes = qemu_mem_bytes(input.as_str()).unwrap();
    let ram: u64 = ((bytes as u128 + 500000) / 1000000) as u64;
    let mut ret = u64_to_decimal(ram);
    push_char(&mut ret, 'M');
    ret
}

/// The emulators the kernel can run on.
#[derive(Clone, Copy, PartialEq, Eq, Debug, Structural)]
pub enum Emulator {
    Qemu,
    Bochs,
}

/// The accelerators the emulator may use.
#[derive(Clone, Copy, PartialEq, Eq, Debug, Structural)]
pub enum Accelerator {
    /// No accelerator (`none` on the command line).
    Disabled,
    Kvm,
}

/// The arguments of QEMU: the user's own first, then the machine's
/// settings, the accelerator, a halt at start-up when a debugger is to
/// attach or when asked, the firmware and the image, and the debugger stub.
pub open spec fn qemu_arg_list(
    extra: Seq<Seq<char>>,
    mem: Seq<char>,
    num_cpus: nat,
    cpu: Seq<char>,
    kvm: bool,
    gdb_stub: bool,
    initial_wait: bool,
) -> Seq<Seq<char>> {
    extra + seq![
        "-fw_cfg"@,
        "name=opt/dev.nullware.zerOS,string=testing=0"@,
        "-m"@,
        mem,
        "-smp"@,
        decimal(num_cpus),
        "-cpu"@,
        cpu,
        "-smbios"@,
        "type=0,uefi=on"@,
        "-device"@,
        "isa-debug-exit,iobase=0xf4,iosize=0x04"@,
        "-debugcon"@,
        "file:debugcon.log"@,
        "-serial"@,
        "stdio"@,
    ] + (if kvm {
        seq!["-enable-kvm"@, "-accel"@, "kvm"@]
    } else {
        Seq::empty()
    }) + (if gdb_stub || initial_wait {
        seq!["-S"@]
    } else {
        Seq::empty()
    }) + seq!["-bios"@, "zerOS/vendor/OVMF.fd"@, "-cdrom"@, "./zerOS/bin/zerOS.iso"@] + (if gdb_stub {
        seq!["-s"@]
    } else {
        Seq::empty()
    })
}

/// The arguments of QEMU (see [`qemu_arg_list`]).
pub fn qemu_args(
    extra: &Vec<String>,
    mem: &str,
    num_cpus: usize,
    cpu: &str,
    kvm: bool,
    gdb_stub: bool,
    initial_wait: bool,
) -> (res: Vec<String>)
    ensures
        string_views(res@) == qemu_arg_list(
            string_views(extra@),
            mem@,
            num_cpus as nat,
            cpu@,
            kvm,
            gdb_stub,
            initial_wait,
        ),
{
    let mut args = clone_strings(extra);
    let ghost a0 = string_views(args@);
    push_str(&mut args, "-fw_cfg");
    push_str(&mut args, "name=opt/dev.nullware.zerOS,string=testing=0");
    push_str(&mut args, "-m");
    push_str(&mut args, mem);
    push_str(&mut args, "-smp");
    let cpus = u64_to_decimal(num_cpus as u64);
    push_str(&mut args, cpus.as_str());
    push_str(&mut args, "-cpu");
    push_str(&mut args, cpu);
    push_str(&mut args, "-smbios");
    push_str(&mut args, "type=0,uefi=on");
    push_str(&mut args, "-device");
    push_str(&mut args, "isa-debug-exit,iobase=0xf4,iosize=0x04");
    push_str(&mut args, "-debugcon");
    push_str(&mut args, "file:debugcon.log");
    push_str(&mut args, "-serial");
    push_str(&mut args, "stdio");
    let ghost a1 = string_views(args@);
    assert(a1 =~= a0 + seq![
        "-fw_cfg"@,
        "name=opt/dev.nullware.zerOS,string=testing=0"@,
        "-m"@,
        mem@,
        "-smp"@,
        decimal(num_cpus as nat),
        "-cpu"@,
        cpu@,
        "-smbios"@,
        "type=0,uefi=on"@,
        "-device"@,
        "isa-debug-exit,iobase=0xf4,iosize=0x04"@,
        "-debugcon"@,
        "file:debugcon.log"@,
        "-serial"@,
        "stdio"@,
    ]);
    if kvm {
        push_str(&mut args, "-enable-kvm");
        push_str(&mut args, "-accel");
        push_str(&mut args, "kvm");
    }
    let ghost a2 = string_views(args@);
    assert(a2 =~= a1 + (if kvm {
        seq!["-enable-kvm"@, "-accel"@, "kvm"@]
    } else {
        Seq::<Seq<char>>::empty()
    }));
    if gdb_stub || initial_wait {
        push_str(&mut args, "-S");
    }
    let ghost a3 = string_views(args@);
    assert(a3 =~= a2 + (if gdb_stub || initial_wait {
        seq!["-S"@]
    } else {
        Seq::<Seq<char>>::empty()
    }));
    push_str(&mut args, "-bios");
    push_str(&mut args, "zerOS/vendor/OVMF.fd");
    push_str(&mut args, "-cdrom");
    push_str(&mut args, "./zerOS/bin/zerOS.iso");
    let ghost a4 = string_views(args@);
    assert(a4 =~= a3 + seq!["-bios"@, "zerOS/vendor/OVMF.fd"@, "-cdrom"@, "./zerOS/bin/zerOS.iso"@]);
    if gdb_stub {
        push_str(&mut args, "-s");
    }
    assert(string_views(args@) =~= a4 + (if gdb_stub {
        seq!["-s"@]
    } else {
        Seq::<Seq<char>>::empty()
    }));
    args
}

/// The QEMU executable that runs an architecture: the one for its default
/// byte order.
pub open spec fn qemu_for(arch: SupportedArch) -> Executable {
    Executable::Qemu(arch, qemu_default_endianness(arch))
}

/// The command that runs the kernel under QEMU: the configured QEMU of the
/// architecture, with [`qemu_arg_list`] for the memory size given and a
/// debugger stub when debugging or when a debugger window is asked for.
/// Only QEMU is supported.
pub fn run_zeros_qemu_cmd(
    cfg: &ZerosConfig,
    globals: &XtaskGlobalOptions,
    emulator: Emulator,
    accelerator: Accelerator,
    arch: SupportedArch,
    cpu: &str,
    num_cpus: usize,
    gdb_window: bool,
    memory: &str,
    initial_wait: bool,
    emulator_args: &Vec<String>,
) -> (res: CommandLine)
    requires
        emulator == Emulator::Qemu,
        mem_size_bytes(memory@) is Some,
        lookup_executable(cfg@.executables, qemu_for(arch)) is Some,
    ensures
        res.program@ == lookup_executable(cfg@.executables, qemu_for(arch))->Some_0,
        string_views(res.args@) == qemu_arg_list(
            string_views(emulator_args@),
            decimal(megabytes(mem_size_bytes(memory@)->Some_0)).push('M'),
            num_cpus as nat,
            cpu@,
            accelerator == Accelerator::Kvm,
            globals.debug || gdb_window,
            initial_wait,
        ),
{
    let gdb_stub = globals.debug || gdb_window;
    let mem = parse_qemu_mem(memory.to_owned());
    let kvm = match accelerator {
        Accelerator::Kvm => true,
        Accelerator::Disabled => false,
    };
    let args = qemu_args(emulator_args, mem.as_str(), num_cpus, cpu, kvm, gdb_stub, initial_wait);
    let exe = Executable::Qemu(arch, Endianness::qemu_default_for(arch));
    let program = cfg.get(&exe).clone();
    CommandLine { program, args }
}

/// The subprojects that can be run: the kernel under an emulator, or the
/// unwinding tool (which is not supported).
pub enum XtaskRunnableSubproj {
    Zeros {
        emulator: Emulator,
        accelerator: Accelerator,
        arch: SupportedArch,
        cpu: String,
        num_cpus: usize,
        gdb_window: bool,
        memory: String,
        initial_wait: bool,
        emulator_args: Vec<String>,
    },
    UnwindTool { args: Vec<String> },
}

impl XtaskRunnableSubproj {
    /// The command that runs the kernel (see [`run_zeros_qemu_cmd`]).
    pub fn command(&self, cfg: &ZerosConfig, globals: &XtaskGlobalOptions) -> (res: CommandLine)
        requires
            self matches XtaskRunnableSubproj::Zeros { emulator, arch, memory, .. } && *emulator == Emulator::Qemu
                && mem_size_bytes(memory@) is Some && lookup_executable(cfg@.executables, qemu_for(*arch)) is Some,
        ensures
            match self {
                XtaskRunnableSubproj::Zeros {
                    accelerator,
                    arch,
                    cpu,
                    num_cpus,
                    gdb_window,
                    memory,
                    initial_wait,
                    emulator_args,
                    ..
                } => {
                    &&& res.program@ == lookup_executable(cfg@.executables, qemu_for(*arch))->Some_0
                    &&& string_views(res.args@) == qemu_arg_list(
                        string_views(emulator_args@),
                        decimal(megabytes(mem_size_bytes(memory@)->Some_0)).push('M'),
                        *num_cpus as nat,
                        cpu@,
                        *accelerator == Accelerator::Kvm,
                        globals.debug || *gdb_window,
                        *initial_wait,
                    )
                },
                XtaskRunnableSubproj::UnwindTool { .. } => false,
            },
    {
        match self {
            XtaskRunnableSubproj::Zeros {
                emulator,
                accelerator,
                arch,
                cpu,
                num_cpus,
                gdb_window,
                memory,
                initial_wait,
                emulator_args,
            } => run_zeros_qemu_cmd(
                cfg,
                globals,
                *emulator,
                *accelerator,
                *arch,
                cpu.as_str(),
                *num_cpus,
                *gdb_window,
                memory.as_str(),
                *initial_wait,
                emulator_args,
            ),
            XtaskRunnableSubproj::UnwindTool { .. } => vstd::pervasive::unreached(),
        }
    }
}

proof fn lemma_decimal_digits(n: nat)
    ensures
        decimal(n).len() > 0,
        forall|i: int| 0 <= i < decimal(n).len() ==> is_digit(#[trigger] decimal(n)[i]),
        digits_value(decimal(n)) == n,
    decreases n,
{
    let c = digit_char(n % 10);
    assert((c as u32) == n % 10 + 48);
    if n >= 10 {
        lemma_decimal_digits(n / 10);
        let d = decimal(n / 10);
        assert(decimal(n) == d.push(c));
        assert(decimal(n).drop_last() =~= d);
        assert(decimal(n).last() == c);
        assert(((c as u32) - 48) as nat == n % 10);
        assert(digits_value(decimal(n)) == digits_value(d) * 10 + n % 10);
        assert forall|i: int| 0 <= i < decimal(n).len() implies is_digit(#[trigger] decimal(n)[i]) by {
            if i < d.len() {
                assert(decimal(n)[i] == d[i]);
            }
        }
    } else {
        assert(decimal(n) == seq![c]);
        assert(decimal(n).drop_last() =~= Seq::<char>::empty());
        assert(digits_value(decimal(n).drop_last()) == 0);
        assert(decimal(n).last() == c);
        assert(((c as u32) - 48) as nat == n % 10);
    }
}

proof fn lemma_digits_end_at(t: Seq<char>, len: int, i: int)
    requires
        0 <= i <= len < t.len(),
        forall|k: int| 0 <= k < len ==> is_digit(#[trigger] t[k]),
        !is_digit(t[len]),
    ensures
        digits_end(t, i) == len,
    decreases len - i,
{
    if i < len {
        lemma_digits_end_at(t, len, i + 1);
    }
}

/// The memory size that [`parse_qemu_mem`] produces reads back as the same
/// number of megabytes, as long as that many megabytes fit in 64 bits:
/// handing the result to it again gives the same result.
pub proof fn lemma_mem_text_reads_back(input: Seq<char>)
    requires
        mem_size_bytes(input) is Some,
        megabytes(mem_size_bytes(input)->Some_0) * 1000000 <= u64::MAX,
    ensures
        ({
            let m = megabytes(mem_size_bytes(input)->Some_0);
            let out = decimal(m).push('M');
            &&& mem_size_bytes(out) == Some(m * 1000000)
            &&& megabytes(m * 1000000) == m
        }),
{
    let m = megabytes(mem_size_bytes(input)->Some_0);
    let d = decimal(m);
    let out = d.push('M');
    lemma_decimal_digits(m);
    let l = d.len() as int;
    assert(out[l] == 'M');
    assert forall|k: int| 0 <= k < l implies is_digit(#[trigger] out[k]) by {
        assert(out[k] == d[k]);
    }
    assert(!is_white_space(out[0])) by {
        assert(is_digit(out[0]));
    }
    assert(trim_start(out) == out);
    assert(out.last() == 'M');
    assert(trim_end(out) == out);
    assert(trimmed(out) == out);
    assert(sign_len(out) == 0) by {
        assert(is_digit(out[0]));
    }
    lemma_digits_end_at(out, l, 0);
    assert(out.subrange(0, l) =~= d);
    let suffix = out.subrange(l, out.len() as int);
    assert(suffix =~= seq!['M']);
    assert(unit_multiplier(suffix) == Some(power(1000, 2))) by {
        assert(unit_exponent('M') == Some(2nat));
    }
    assert(power(1000, 2) == 1000000) by {
        reveal_with_fuel(power, 3);
    }
    assert(m <= u64::MAX) by (nonlinear_arith)
        requires
            m * 1000000 <= u64::MAX,
    ;
    assert(megabytes(m * 1000000) == m) by (nonlinear_arith);
}

} // verus!
