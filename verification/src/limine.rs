//! Fetching the Limine bootloader: which release tags are binary releases,
//! which of a release's files the image needs and where they go, and how
//! redirections are followed.

use vstd::prelude::*;
use crate::arch::SupportedArch;
use crate::pattern::{capture_group, compile_pattern, pattern_capture, pattern_compiles};
use crate::runnable::opt_string_view;
use crate::text::{joined_path, path_join, str_eq};

verus! {

/// The suffix of the UEFI boot file of an architecture, for the
/// architectures that UEFI supports.
pub open spec fn uefi_suffix_spec(arch: SupportedArch) -> Option<Seq<char>> {
    match arch {
        SupportedArch::Amd64 => Some("X64"@),
        SupportedArch::X86 => Some("IA32"@),
        SupportedArch::LoongArch64 => Some("LOONGARCH64"@),
        SupportedArch::AArch64 => Some("AA64"@),
        SupportedArch::Riscv64 => Some("RISCV64"@),
        _ => None,
    }
}

/// The suffix of the UEFI boot file of an architecture that UEFI supports.
pub fn uefi_suffix(arch: SupportedArch) -> (res: &'static str)
    requires
        uefi_suffix_spec(arch) is Some,
    ensures
        res@ == uefi_suffix_spec(arch)->Some_0,
{
    match arch {
        SupportedArch::Amd64 => "X64",
        SupportedArch::X86 => "IA32",
        SupportedArch::LoongArch64 => "LOONGARCH64",
        SupportedArch::AArch64 => "AA64",
        SupportedArch::Riscv64 => "RISCV64",
        _ => vstd::pervasive::unreached(),
    }
}

/// Where a file of a Limine release goes under the image's root, with the
/// flag that hands it to the image builder, for the x86 family: the UEFI
/// boot file in `EFI/BOOT`, the BIOS and UEFI CD images in `boot/limine`;
/// other files are not needed.
pub open spec fn needed_file_spec(arch: SupportedArch, root: Seq<char>, name: Seq<char>) -> Option<(Option<Seq<char>>, Seq<char>)> {
    if name == "BOOT"@ + uefi_suffix_spec(arch)->Some_0 + ".EFI"@ {
        Some((None, joined_path(joined_path(joined_path(root, "EFI"@), "BOOT"@), name)))
    } else if name == "limine-bios-cd.bin"@ {
        Some((Some("-b"@), joined_path(joined_path(joined_path(root, "boot"@), "limine"@), "limine-bios-cd.bin"@)))
    } else if name == "limine-uefi-cd.bin"@ {
        Some(
            (
                Some("--efi-boot"@),
                joined_path(joined_path(joined_path(root, "boot"@), "limine"@), "limine-uefi-cd.bin"@),
            ),
        )
    } else {
        None
    }
}

/// Where a file of a Limine release goes (see [`needed_file_spec`]); only
/// amd64 and x86 are supported.
pub fn needed_file(arch: SupportedArch, root: &str, name: &str) -> (res: Option<(Option<&'static str>, String)>)
    requires
        arch == SupportedArch::Amd64 || arch == SupportedArch::X86,
    ensures
        match needed_file_spec(arch, root@, name@) {
            Some((flag, path)) => res matches Some((f, p)) && p@ == path && match flag {
                Some(fl) => f matches Some(x) && x@ == fl,
                None => f is None,
            },
            None => res is None,
        },
{
    let mut efi = "BOOT".to_owned();
    efi.append(uefi_suffix(arch));
    efi.append(".EFI");
    if str_eq(name, efi.as_str()) {
        let a = path_join(root, "EFI");
        let b = path_join(a.as_str(), "BOOT");
        Some((None, path_join(b.as_str(), name)))
    } else if str_eq(name, "limine-bios-cd.bin") {
        let a = path_join(root, "boot");
        let b = path_join(a.as_str(), "limine");
        Some((Some("-b"), path_join(b.as_str(), "limine-bios-cd.bin")))
    } else if str_eq(name, "limine-uefi-cd.bin") {
        let a = path_join(root, "boot");
        let b = path_join(a.as_str(), "limine");
        Some((Some("--efi-boot"), path_join(b.as_str(), "limine-uefi-cd.bin")))
    } else {
        None
    }
}

/// The pattern of the tag of a binary release; its first group (named
/// `version`) is the version.
pub open spec fn bin_release_pattern() -> Seq<char> {
    "v(?<version>\\d+.\\d+(.\\d+)?)-binary"@
}

/// The version that a release tag names, if it is the tag of a binary
/// release; `None` as the error where the pattern does not compile.
pub fn bin_release_version(tag: &str) -> (res: Option<Option<String>>)
    ensures
        pattern_compiles(bin_release_pattern()) ==> (res matches Some(v) && opt_string_view(v)
            == pattern_capture(bin_release_pattern(), tag@, 1)),
        !pattern_compiles(bin_release_pattern()) ==> res is None,
{
    match compile_pattern("v(?<version>\\d+.\\d+(.\\d+)?)-binary") {
        Some(re) => Some(capture_group(&re, tag, 1)),
        None => None,
    }
}

/// What to do after a `HEAD` request while looking for a file's final
/// address.
pub enum RedirectStep {
    /// The address answered: stop here.
    Arrived,
    /// The address redirects to another.
    Follow(String),
    /// A redirection named no new address.
    MissingLocation,
}

/// Decides how to go on after a response with the given status and
/// `location` header: a redirection (3xx) is followed to its location.
pub fn redirect_step(status: u16, location: Option<String>) -> (res: RedirectStep)
    ensures
        !(300 <= status < 400) ==> res is Arrived,
        300 <= status < 400 ==> match location {
            Some(l) => res matches RedirectStep::Follow(t) && t@ == l@,
            None => res is MissingLocation,
        },
{
    if status >= 300 && status < 400 {
        match location {
            Some(l) => RedirectStep::Follow(l),
            None => RedirectStep::MissingLocation,
        }
    } else {
        RedirectStep::Arrived
    }
}

/// The addresses held by a vector of strings.
pub open spec fn uri_set(v: Seq<String>) -> Set<Seq<char>> {
    Set::new(|u: Seq<char>| exists|i: int| 0 <= i < v.len() && (#[trigger] v[i])@ == u)
}

/// A redirection policy that stops at the first address it has already
/// come from.
pub struct DetectCycle {
    uris: Vec<String>,
}

/// What a redirection policy decides.
#[derive(Clone, Copy, PartialEq, Eq, Debug, Structural)]
pub enum RedirectAction {
    Follow,
    Stop,
}

impl View for DetectCycle {
    type V = Set<Seq<char>>;

    /// The addresses already come from.
    closed spec fn view(&self) -> Set<Seq<char>> {
        uri_set(self.uris@)
    }
}

impl DetectCycle {
    /// A policy that has seen no address yet.
    pub fn new() -> (res: DetectCycle)
        ensures
            res@ == Set::<Seq<char>>::empty(),
    {
        let res = DetectCycle { uris: Vec::new() };
        assert(res@ =~= Set::<Seq<char>>::empty());
        res
    }

    fn holds(&self, uri: &str) -> (res: bool)
        ensures
            res == self@.contains(uri@),
    {
        let mut i: usize = 0;
        while i < self.uris.len()
            invariant
                i <= self.uris.len(),
                forall|k: int| 0 <= k < i ==> (#[trigger] self.uris@[k])@ != uri@,
            decreases self.uris.len() - i,
        {
            if str_eq(self.uris[i].as_str(), uri) {
                assert(uri_set(self.uris@).contains(uri@));
                return true;
            }
            i += 1;
        }
        false
    }

    /// Decides on a redirection from `previous` to `location`: stop where
    /// `location` was already come from; otherwise remember `previous` and follow.
    pub fn redirect(&mut self, location: &str, previous: &str) -> (res: RedirectAction)
        ensures
            old(self)@.contains(location@) ==> res == RedirectAction::Stop && final(self)@ == old(self)@,
            !old(self)@.contains(location@) ==> res == RedirectAction::Follow && final(self)@ == old(self)@.insert(
                previous@,
            ),
    {
        if self.holds(location) {
            RedirectAction::Stop
        } else {
            if !self.holds(previous) {
                let ghost before = self.uris@;
                self.uris.push(previous.to_owned());
                assert(uri_set(self.uris@) =~= uri_set(before).insert(previous@)) by {
                    assert(self.uris@[before.len() as int]@ == previous@);
                    assert forall|u: Seq<char>| uri_set(before).insert(previous@).contains(u) implies uri_set(
                        self.uris@,
                    ).contains(u) by {
                        if u != previous@ {
                            let i = choose|i: int| 0 <= i < before.len() && (#[trigger] before[i])@ == u;
                            assert(self.uris@[i] == before[i]);
                        }
                    }
                }
            } else {
                assert(self@.insert(previous@) =~= self@);
            }
            RedirectAction::Follow
        }
    }
}

#[verifier::external_type_specification]
#[verifier::external_body]
pub struct ExVersion(versions::Version);

/// Whether `versions::Version::from_str` reads a text as a version.
pub uninterp spec fn version_parses(text: Seq<char>) -> bool;

/// The first number of a version, as `versions::Version::nth(0)` gives it.
pub uninterp spec fn version_major(text: Seq<char>) -> Option<u32>;

/// Whether the version of text `a` comes before that of text `b` in the
/// order of `versions::Version`.
pub uninterp spec fn version_precedes(a: Seq<char>, b: Seq<char>) -> bool;

/// A version read by the `versions` crate, with the text it was read from.
pub struct ReleaseVersion {
    text: String,
    v: versions::Version,
}

impl View for ReleaseVersion {
    type V = Seq<char>;

    /// The text the version was read from.
    closed spec fn view(&self) -> Seq<char> {
        self.text@
    }
}

/// Reads a version with `versions::Version::from_str`; `None` where the
/// crate returns an error. The contract claims that the crate reads exactly
/// the texts of [`version_parses`], and that the result remembers its text.
#[verifier::external_body]
fn parse_version(text: &str) -> (res: Option<ReleaseVersion>)
    ensures
        res is Some <==> version_parses(text@),
        res matches Some(v) ==> v@ == text@,
{
    match <versions::Version as std::str::FromStr>::from_str(text) {
        Ok(v) => Some(ReleaseVersion { text: text.to_string(), v }),
        Err(_) => None,
    }
}

/// The first number of a version, through `versions::Version::nth`. The
/// contract claims that it is [`version_major`] of the version's text.
#[verifier::external_body]
fn major_of(v: &ReleaseVersion) -> (res: Option<u32>)
    ensures
        res == version_major(v@),
{
    v.v.nth(0)
}

/// Whether `a` comes before `b`, through `<` on `versions::Version`. The
/// contract claims that it is [`version_precedes`] of their texts, and that
/// no version comes before one read from the same text (the crate's `cmp`
/// finds equal values equal). Transitivity is not claimed: the crate's
/// lenient comparison of mixed chunks does not show it.
#[verifier::external_body]
fn precedes(a: &ReleaseVersion, b: &ReleaseVersion) -> (res: bool)
    ensures
        res == version_precedes(a@, b@),
        a@ == b@ ==> !res,
{
    a.v < b.v
}

/// One end of a range of major versions.
#[derive(Clone, Copy, PartialEq, Eq, Debug, Structural)]
pub enum MajorBound {
    Included(usize),
    Excluded(usize),
    Unbounded,
}

/// A range of major versions, as `RangeBounds` gives one.
#[derive(Clone, Copy, PartialEq, Eq, Debug, Structural)]
pub struct MajorRange {
    pub start: MajorBound,
    pub end: MajorBound,
}

/// Whether a major version lies in the range.
pub open spec fn in_range(r: MajorRange, x: int) -> bool {
    &&& match r.start {
        MajorBound::Included(s) => s <= x,
        MajorBound::Excluded(s) => s < x,
        MajorBound::Unbounded => true,
    }
    &&& match r.end {
        MajorBound::Included(e) => x <= e,
        MajorBound::Excluded(e) => x < e,
        MajorBound::Unbounded => true,
    }
}

/// A range of major versions admits exactly the versions between its ends:
/// an included end admits itself, an excluded end does not, and an
/// unbounded end admits every version on its side.
pub proof fn lemma_range_admits_between_ends(s: usize, e: usize, x: int)
    ensures
        in_range(MajorRange { start: MajorBound::Included(s), end: MajorBound::Included(e) }, x) <==> s <= x && x <= e,
        in_range(MajorRange { start: MajorBound::Included(s), end: MajorBound::Excluded(e) }, x) <==> s <= x && x < e,
        in_range(MajorRange { start: MajorBound::Included(s), end: MajorBound::Unbounded }, x) <==> s <= x,
        in_range(MajorRange { start: MajorBound::Excluded(s), end: MajorBound::Included(e) }, x) <==> s < x && x <= e,
        in_range(MajorRange { start: MajorBound::Excluded(s), end: MajorBound::Excluded(e) }, x) <==> s < x && x < e,
        in_range(MajorRange { start: MajorBound::Excluded(s), end: MajorBound::Unbounded }, x) <==> s < x,
        in_range(MajorRange { start: MajorBound::Unbounded, end: MajorBound::Included(e) }, x) <==> x <= e,
        in_range(MajorRange { start: MajorBound::Unbounded, end: MajorBound::Excluded(e) }, x) <==> x < e,
        in_range(MajorRange { start: MajorBound::Unbounded, end: MajorBound::Unbounded }, x),
{
}

impl MajorRange {
    /// Whether a major version lies in the range (`RangeBounds::contains`).
    pub fn contains(&self, x: usize) -> (res: bool)
        ensures
            res == in_range(*self, x as int),
    {
        let above = match self.start {
            MajorBound::Included(s) => s <= x,
            MajorBound::Excluded(s) => s < x,
            MajorBound::Unbounded => true,
        };
        let below = match self.end {
            MajorBound::Included(e) => x <= e,
            MajorBound::Excluded(e) => x < e,
            MajorBound::Unbounded => true,
        };
        above && below
    }
}

/// What a release tag is to the search for a binary release.
pub enum ReleaseTag {
    /// Not the tag of a binary release.
    NotBinary,
    /// The release pattern does not compile.
    PatternRejected,
    /// The version of a binary release cannot be read (the version's text).
    IllegalVersion(String),
    /// A binary release whose major version lies outside the range.
    OtherMajor,
    /// A binary release in the range, with its version.
    Candidate(ReleaseVersion),
}

/// Sorts a release tag: binary releases are read for their version, and
/// kept when their major version lies in the range.
pub fn classify_tag(tag: &str, range: &MajorRange) -> (res: ReleaseTag)
    ensures
        !pattern_compiles(bin_release_pattern()) ==> res is PatternRejected,
        pattern_compiles(bin_release_pattern()) ==> match pattern_capture(bin_release_pattern(), tag@, 1) {
            None => res is NotBinary,
            Some(v) => if !version_parses(v) {
                res matches ReleaseTag::IllegalVersion(t) && t@ == v
            } else if version_major(v) matches Some(m) && in_range(*range, m as int) {
                res matches ReleaseTag::Candidate(c) && c@ == v
            } else {
                res is OtherMajor
            },
        },
{
    let captured = match bin_release_version(tag) {
        None => return ReleaseTag::PatternRejected,
        Some(c) => c,
    };
    let text = match captured {
        None => return ReleaseTag::NotBinary,
        Some(t) => t,
    };
    let v = match parse_version(text.as_str()) {
        None => return ReleaseTag::IllegalVersion(text),
        Some(v) => v,
    };
    match major_of(&v) {
        Some(m) => if range.contains(m as usize) {
            ReleaseTag::Candidate(v)
        } else {
            ReleaseTag::OtherMajor
        },
        None => ReleaseTag::OtherMajor,
    }
}

/// The position of the latest of the first `n` candidates: a candidate
/// replaces the latest so far only when that one comes before it, so the
/// first of equal versions stays.
pub open spec fn latest_index(cands: Seq<Seq<char>>, n: int) -> Option<int>
    decreases n,
{
    if n <= 0 {
        None
    } else {
        match latest_index(cands, n - 1) {
            None => Some(n - 1),
            Some(i) => if version_precedes(cands[i], cands[n - 1]) {
                Some(n - 1)
            } else {
                Some(i)
            },
        }
    }
}

/// Whether `version_precedes` is a strict order on the given versions:
/// none comes before itself, and coming before is transitive.
pub open spec fn strict_order_on(vs: Seq<Seq<char>>) -> bool {
    &&& forall|i: int| 0 <= i < vs.len() ==> !version_precedes(#[trigger] vs[i], vs[i])
    &&& forall|i: int, j: int, k: int|
        0 <= i < vs.len() && 0 <= j < vs.len() && 0 <= k < vs.len() && #[trigger] version_precedes(vs[i], vs[j])
            && #[trigger] version_precedes(vs[j], vs[k]) ==> version_precedes(vs[i], vs[k])
}

/// Where the order of the versions is a strict order on the candidates, the
/// latest candidate is one that no candidate comes after, and there is one
/// whenever there is a candidate.
pub proof fn lemma_latest_is_maximal(cands: Seq<Seq<char>>, n: int)
    requires
        0 <= n <= cands.len(),
        strict_order_on(cands),
    ensures
        latest_index(cands, n) is Some <==> n > 0,
        latest_index(cands, n) matches Some(l) ==> 0 <= l < n && forall|j: int|
            0 <= j < n ==> !version_precedes(cands[l], #[trigger] cands[j]),
    decreases n,
{
    if n > 0 {
        lemma_latest_is_maximal(cands, n - 1);
        match latest_index(cands, n - 1) {
            None => {},
            Some(i) => {
                if version_precedes(cands[i], cands[n - 1]) {
                    assert forall|j: int| 0 <= j < n implies !version_precedes(cands[n - 1], #[trigger] cands[j]) by {
                        if j < n - 1 && version_precedes(cands[n - 1], cands[j]) {
                            assert(version_precedes(cands[i], cands[j]));
                        }
                    }
                }
            },
        }
    }
}

/// The views of versions.
pub open spec fn version_views(v: Seq<ReleaseVersion>) -> Seq<Seq<char>> {
    v.map_values(|r: ReleaseVersion| r@)
}

/// The position of the latest candidate (see [`latest_index`]); `None` when
/// there is none.
pub fn select_latest(cands: &Vec<ReleaseVersion>) -> (res: Option<usize>)
    ensures
        match latest_index(version_views(cands@), cands@.len() as int) {
            Some(i) => res == Some(i as usize),
            None => res is None,
        },
{
    let ghost views = version_views(cands@);
    let mut latest: Option<usize> = None;
    let mut k: usize = 0;
    while k < cands.len()
        invariant
            k <= cands.len(),
            views == version_views(cands@),
            match latest_index(views, k as int) {
                Some(i) => latest == Some(i as usize) && 0 <= i < k,
                None => latest is None,
            },
        decreases cands.len() - k,
    {
        match latest {
            None => {
                latest = Some(k);
            },
            Some(i) => {
                assert(views[i as int] == cands@[i as int]@);
                assert(views[k as int] == cands@[k as int]@);
                if precedes(&cands[i], &cands[k]) {
                    latest = Some(k);
                }
            },
        }
        k += 1;
    }
    latest
}

} // verus!
