//! Options shared by every task of the build driver.

use vstd::prelude::*;
use crate::arch::SupportedArch;

verus! {

/// The options given before any task.
pub struct XtaskGlobalOptions {
    /// Debugging mode, for developers.
    pub debug: bool,
    /// How many times verbosity was increased.
    pub verbose: u8,
    /// How many times verbosity was decreased.
    pub quiet: u8,
}

/// The verbosity level: the increases less the decreases, never below zero.
pub open spec fn verbosity_level(verbose: u8, quiet: u8) -> nat {
    if verbose >= quiet {
        (verbose - quiet) as nat
    } else {
        0
    }
}

impl XtaskGlobalOptions {
    /// The verbosity level.
    pub fn verbosity(&self) -> (res: u8)
        ensures
            res == verbosity_level(self.verbose, self.quiet),
    {
        self.verbose.saturating_sub(self.quiet)
    }

    /// One `--verbose` flag per verbosity level, to hand on to `cargo`.
    pub fn to_verbose_flags(&self) -> (res: Vec<&'static str>)
        ensures
            res@.len() == verbosity_level(self.verbose, self.quiet),
            forall|i: int| 0 <= i < res@.len() ==> (#[trigger] res@[i])@ == "--verbose"@,
    {
        let verbosity = self.verbosity();
        let mut ret: Vec<&'static str> = Vec::new();
        let mut i: u8 = 0;
        while i < verbosity
            invariant
                i <= verbosity,
                ret@.len() == i,
                forall|k: int| 0 <= k < ret@.len() ==> (#[trigger] ret@[k])@ == "--verbose"@,
            decreases verbosity - i,
        {
            ret.push("--verbose");
            i += 1;
        }
        ret
    }
}

/// A byte order.
#[derive(Clone, Copy, PartialEq, Eq, Debug, Structural)]
pub enum Endianness {
    Little,
    Big,
}

/// The byte order that QEMU assumes for an architecture when none is named:
/// big-endian for the MIPS family, none otherwise.
pub open spec fn qemu_default_endianness(arch: SupportedArch) -> Option<Endianness> {
    match arch {
        SupportedArch::Mips32 | SupportedArch::Mips64 => Some(Endianness::Big),
        _ => None,
    }
}

impl Endianness {
    /// The byte order that QEMU assumes for an architecture.
    pub fn qemu_default_for(arch: SupportedArch) -> (res: Option<Endianness>)
        ensures
            res == qemu_default_endianness(arch),
    {
        match arch {
            SupportedArch::AArch64 => None,
            SupportedArch::Amd64 => None,
            SupportedArch::Arm32 => None,
            SupportedArch::Avr32 => None,
            SupportedArch::LoongArch64 => None,
            SupportedArch::Mips32 => Some(Endianness::Big),
            SupportedArch::Mips64 => Some(Endianness::Big),
            SupportedArch::PowerPC32 => None,
            SupportedArch::PowerPC64 => None,
            SupportedArch::Riscv32 => None,
            SupportedArch::Riscv64 => None,
            SupportedArch::Sparc32 => None,
            SupportedArch::Sparc64 => None,
            SupportedArch::X86 => None,
            SupportedArch::ZArch => None,
        }
    }
}

/// The profiles the kernel can be built with.
#[derive(Clone, Copy, PartialEq, Eq, Debug, Structural)]
pub enum ZerosBuildProfile {
    Dev,
    DevLTO,
    Release,
    ReleaseLTO,
}

/// The kebab-case name of a build profile, as `cargo --profile` takes it.
pub open spec fn profile_name(p: ZerosBuildProfile) -> Seq<char> {
    match p {
        ZerosBuildProfile::Dev => "dev"@,
        ZerosBuildProfile::DevLTO => "dev-lto"@,
        ZerosBuildProfile::Release => "release"@,
        ZerosBuildProfile::ReleaseLTO => "release-lto"@,
    }
}

impl ZerosBuildProfile {
    /// The default profile: release with link-time optimisation.
    pub fn default_profile() -> (res: ZerosBuildProfile)
        ensures
            res == ZerosBuildProfile::ReleaseLTO,
    {
        ZerosBuildProfile::ReleaseLTO
    }

    /// The kebab-case name of the profile.
    pub fn as_str(&self) -> (res: &'static str)
        ensures
            res@ == profile_name(*self),
    {
        match self {
            ZerosBuildProfile::Dev => "dev",
            ZerosBuildProfile::DevLTO => "dev-lto",
            ZerosBuildProfile::Release => "release",
            ZerosBuildProfile::ReleaseLTO => "release-lto",
        }
    }

    /// Whether the profile keeps debugging information apart from the kernel.
    pub fn is_dev(&self) -> (res: bool)
        ensures
            res == (*self == ZerosBuildProfile::Dev || *self == ZerosBuildProfile::DevLTO),
    {
        match self {
            ZerosBuildProfile::Dev | ZerosBuildProfile::DevLTO => true,
            _ => false,
        }
    }
}

} // verus!
