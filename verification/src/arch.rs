//! The architectures the kernel knows of.

use vstd::prelude::*;

verus! {

/// An architecture the kernel may be built for.
#[derive(Clone, Copy, PartialEq, Eq, Debug, Structural)]
pub enum SupportedArch {
    AArch64,
    Amd64,
    Arm32,
    Avr32,
    LoongArch64,
    Mips32,
    Mips64,
    PowerPC32,
    PowerPC64,
    Riscv32,
    Riscv64,
    Sparc32,
    Sparc64,
    X86,
    ZArch,
}

/// The lowercase name of an architecture.
pub open spec fn arch_name(a: SupportedArch) -> Seq<char> {
    match a {
        SupportedArch::AArch64 => "aarch64"@,
        SupportedArch::Amd64 => "amd64"@,
        SupportedArch::Arm32 => "arm32"@,
        SupportedArch::Avr32 => "avr32"@,
        SupportedArch::LoongArch64 => "loongarch64"@,
        SupportedArch::Mips32 => "mips32"@,
        SupportedArch::Mips64 => "mips64"@,
        SupportedArch::PowerPC32 => "powerpc32"@,
        SupportedArch::PowerPC64 => "powerpc64"@,
        SupportedArch::Riscv32 => "riscv32"@,
        SupportedArch::Riscv64 => "riscv64"@,
        SupportedArch::Sparc32 => "sparc32"@,
        SupportedArch::Sparc64 => "sparc64"@,
        SupportedArch::X86 => "x86"@,
        SupportedArch::ZArch => "zarch"@,
    }
}

impl SupportedArch {
    /// The lowercase name of the architecture.
    pub fn as_str(&self) -> (res: &'static str)
        ensures
            res@ == arch_name(*self),
    {
        match self {
            SupportedArch::AArch64 => "aarch64",
            SupportedArch::Amd64 => "amd64",
            SupportedArch::Arm32 => "arm32",
            SupportedArch::Avr32 => "avr32",
            SupportedArch::LoongArch64 => "loongarch64",
            SupportedArch::Mips32 => "mips32",
            SupportedArch::Mips64 => "mips64",
            SupportedArch::PowerPC32 => "powerpc32",
            SupportedArch::PowerPC64 => "powerpc64",
            SupportedArch::Riscv32 => "riscv32",
            SupportedArch::Riscv64 => "riscv64",
            SupportedArch::Sparc32 => "sparc32",
            SupportedArch::Sparc64 => "sparc64",
            SupportedArch::X86 => "x86",
            SupportedArch::ZArch => "zarch",
        }
    }
}

} // verus!
