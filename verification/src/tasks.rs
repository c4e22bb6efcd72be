//! The commands that the build driver's tasks run: formatting, linting and
//! expanding a subproject.

use vstd::prelude::*;
use crate::buildrs::push_str;
use crate::options::{verbosity_level, XtaskGlobalOptions};
use crate::runnable::{clone_strings, extend_strings, opt_string_view, string_views};
use crate::text::{decimal, joined_path, path_join, u64_to_decimal};

verus! {

/// A command with the directory it runs in and the variables it adds to
/// the environment.
pub struct CmdIn {
    pub dir: String,
    pub program: String,
    pub args: Vec<String>,
    pub env: Vec<(String, String)>,
}

/// The abstract value of a [`CmdIn`].
pub struct CmdModel {
    pub dir: Seq<char>,
    pub program: Seq<char>,
    pub args: Seq<Seq<char>>,
    pub env: Seq<(Seq<char>, Seq<char>)>,
}

/// The views of environment pairs.
pub open spec fn env_views(v: Seq<(String, String)>) -> Seq<(Seq<char>, Seq<char>)> {
    v.map_values(|p: (String, String)| (p.0@, p.1@))
}

impl View for CmdIn {
    type V = CmdModel;

    open spec fn view(&self) -> CmdModel {
        CmdModel { dir: self.dir@, program: self.program@, args: string_views(self.args@), env: env_views(self.env@) }
    }
}

/// The subprojects of the repository.
#[derive(Clone, Copy, PartialEq, Eq, Debug, Structural)]
pub enum Subproject {
    Zeros,
    UnwindTool,
    MacroUtils,
    ProcMacroUtils,
    Docs,
    GenerateTarget,
}

/// The directory of a subproject under the top directory.
pub open spec fn subproject_dir(p: Subproject) -> Seq<char> {
    match p {
        Subproject::Zeros => "zerOS"@,
        Subproject::UnwindTool => "unwindtool"@,
        Subproject::MacroUtils => "macro-utils"@,
        Subproject::ProcMacroUtils => "proc-macro-utils"@,
        Subproject::Docs => "docs"@,
        Subproject::GenerateTarget => "generate-target"@,
    }
}

/// The location of a subproject: its directory under the top directory.
pub fn subproj_location(topdir: &str, p: Subproject) -> (res: String)
    ensures
        res@ == joined_path(topdir@, subproject_dir(p)),
{
    let dir = match p {
        Subproject::Zeros => "zerOS",
        Subproject::UnwindTool => "unwindtool",
        Subproject::MacroUtils => "macro-utils",
        Subproject::ProcMacroUtils => "proc-macro-utils",
        Subproject::Docs => "docs",
        Subproject::GenerateTarget => "generate-target",
    };
    path_join(topdir, dir)
}

/// The subprojects that can be formatted, each with whether only to check
/// the formatting and an alternative configuration file.
pub enum XtaskFormattableSubproj {
    Zeros { check: bool, config: Option<String> },
    UnwindTool { check: bool, config: Option<String> },
    MacroUtils { check: bool, config: Option<String> },
    ProcMacroUtils { check: bool, config: Option<String> },
    Docs { check: bool, config: Option<String> },
    GenerateTarget { check: bool, config: Option<String> },
}

/// The subproject, the check flag and the configuration file of a formatting task.
pub open spec fn format_parts(t: XtaskFormattableSubproj) -> (Subproject, bool, Option<Seq<char>>) {
    match t {
        XtaskFormattableSubproj::Zeros { check, config } => (Subproject::Zeros, check, opt_string_view(config)),
        XtaskFormattableSubproj::UnwindTool { check, config } => (Subproject::UnwindTool, check, opt_string_view(config)),
        XtaskFormattableSubproj::MacroUtils { check, config } => (Subproject::MacroUtils, check, opt_string_view(config)),
        XtaskFormattableSubproj::ProcMacroUtils { check, config } => (
            Subproject::ProcMacroUtils,
            check,
            opt_string_view(config),
        ),
        XtaskFormattableSubproj::Docs { check, config } => (Subproject::Docs, check, opt_string_view(config)),
        XtaskFormattableSubproj::GenerateTarget { check, config } => (
            Subproject::GenerateTarget,
            check,
            opt_string_view(config),
        ),
    }
}

/// `n` copies of `--verbose`.
pub open spec fn verbose_flags(n: nat) -> Seq<Seq<char>> {
    Seq::new(n, |i: int| "--verbose"@)
}

/// The arguments of `cargo fmt`: the verbosity flags, `--check` when only
/// checking, then the configuration path for `rustfmt`, the top directory
/// unless another was given.
pub open spec fn fmt_args(verbosity: nat, check: bool, config: Option<Seq<char>>, topdir: Seq<char>) -> Seq<Seq<char>> {
    seq!["fmt"@] + verbose_flags(verbosity) + (if check {
        seq!["--check"@]
    } else {
        Seq::empty()
    }) + seq![
        "--"@,
        "--config-path"@,
        match config {
            Some(c) => c,
            None => topdir,
        },
    ]
}

fn push_verbose_flags(args: &mut Vec<String>, globals: &XtaskGlobalOptions)
    ensures
        string_views(final(args)@) == string_views(old(args)@) + verbose_flags(
            verbosity_level(globals.verbose, globals.quiet),
        ),
{
    let flags = globals.to_verbose_flags();
    let ghost before = string_views(args@);
    let mut i: usize = 0;
    while i < flags.len()
        invariant
            i <= flags.len(),
            flags@.len() == verbosity_level(globals.verbose, globals.quiet),
            forall|k: int| 0 <= k < flags@.len() ==> (#[trigger] flags@[k])@ == "--verbose"@,
            string_views(args@) == before + verbose_flags(i as nat),
        decreases flags.len() - i,
    {
        push_str(args, flags[i]);
        i += 1;
        assert(string_views(args@) =~= before + verbose_flags(i as nat));
    }
}

impl XtaskFormattableSubproj {
    /// The formatting command of the subproject: `cargo fmt` in its
    /// directory (see [`fmt_args`]). Formatting the documentation is not
    /// supported.
    pub fn execute(&self, globals: &XtaskGlobalOptions, topdir: &str, cargo: &str) -> (res: CmdIn)
        requires
            format_parts(*self).0 != Subproject::Docs,
        ensures
            res@.dir == joined_path(topdir@, subproject_dir(format_parts(*self).0)),
            res@.program == cargo@,
            res@.args == fmt_args(
                verbosity_level(globals.verbose, globals.quiet),
                format_parts(*self).1,
                format_parts(*self).2,
                topdir@,
            ),
            res@.env.len() == 0,
    {
        let (proj, check_mode, config) = match self {
            XtaskFormattableSubproj::Zeros { check, config } => (Subproject::Zeros, *check, config),
            XtaskFormattableSubproj::UnwindTool { check, config } => (Subproject::UnwindTool, *check, config),
            XtaskFormattableSubproj::MacroUtils { check, config } => (Subproject::MacroUtils, *check, config),
            XtaskFormattableSubproj::ProcMacroUtils { check, config } => (Subproject::ProcMacroUtils, *check, config),
            XtaskFormattableSubproj::Docs { check, config } => (Subproject::Docs, *check, config),
            XtaskFormattableSubproj::GenerateTarget { check, config } => (Subproject::GenerateTarget, *check, config),
        };
        let path = subproj_location(topdir, proj);
        let cfg: String = match config {
            Some(c) => c.clone(),
            None => topdir.to_owned(),
        };
        let mut args: Vec<String> = Vec::new();
        push_str(&mut args, "fmt");
        push_verbose_flags(&mut args, globals);
        if check_mode {
            push_str(&mut args, "--check");
        }
        push_str(&mut args, "--");
        push_str(&mut args, "--config-path");
        push_str(&mut args, cfg.as_str());
        let ghost expected = fmt_args(
            verbosity_level(globals.verbose, globals.quiet),
            check_mode,
            opt_string_view(*config),
            topdir@,
        );
        assert(string_views(args@) =~= expected);
        CmdIn { dir: path, program: cargo.to_owned(), args, env: Vec::new() }
    }
}

/// The subprojects that can be linted.
#[derive(Clone, Copy, PartialEq, Eq, Debug, Structural)]
pub enum XtaskClippyableSubproj {
    Zeros,
    UnwindTool,
    MacroUtils,
    ProcMacroUtils,
    GenerateTarget,
}

/// The subproject that a linting task names.
pub open spec fn clippy_subproject(t: XtaskClippyableSubproj) -> Subproject {
    match t {
        XtaskClippyableSubproj::Zeros => Subproject::Zeros,
        XtaskClippyableSubproj::UnwindTool => Subproject::UnwindTool,
        XtaskClippyableSubproj::MacroUtils => Subproject::MacroUtils,
        XtaskClippyableSubproj::ProcMacroUtils => Subproject::ProcMacroUtils,
        XtaskClippyableSubproj::GenerateTarget => Subproject::GenerateTarget,
    }
}

impl XtaskClippyableSubproj {
    /// The linting command of the subproject: `cargo clippy` in its directory.
    pub fn execute(&self, topdir: &str, cargo: &str) -> (res: CmdIn)
        ensures
            res@.dir == joined_path(topdir@, subproject_dir(clippy_subproject(*self))),
            res@.program == cargo@,
            res@.args == seq!["clippy"@],
            res@.env.len() == 0,
    {
        let proj = match self {
            XtaskClippyableSubproj::Zeros => Subproject::Zeros,
            XtaskClippyableSubproj::UnwindTool => Subproject::UnwindTool,
            XtaskClippyableSubproj::MacroUtils => Subproject::MacroUtils,
            XtaskClippyableSubproj::ProcMacroUtils => Subproject::ProcMacroUtils,
            XtaskClippyableSubproj::GenerateTarget => Subproject::GenerateTarget,
        };
        let mut args: Vec<String> = Vec::new();
        push_str(&mut args, "clippy");
        assert(string_views(args@) =~= seq!["clippy"@]);
        CmdIn { dir: subproj_location(topdir, proj), program: cargo.to_owned(), args, env: Vec::new() }
    }
}

/// The subprojects whose macros can be expanded, each with the arguments
/// for `cargo expand`.
pub enum XtaskExpandableSubproj {
    Zeros { args: Vec<String> },
    UnwindTool { args: Vec<String> },
    MacroUtils { args: Vec<String> },
    ProcMacroUtils { args: Vec<String> },
    GenerateTarget { args: Vec<String> },
}

/// The subproject and the arguments of an expansion task.
pub open spec fn expand_parts(t: XtaskExpandableSubproj) -> (Subproject, Seq<Seq<char>>) {
    match t {
        XtaskExpandableSubproj::Zeros { args } => (Subproject::Zeros, string_views(args@)),
        XtaskExpandableSubproj::UnwindTool { args } => (Subproject::UnwindTool, string_views(args@)),
        XtaskExpandableSubproj::MacroUtils { args } => (Subproject::MacroUtils, string_views(args@)),
        XtaskExpandableSubproj::ProcMacroUtils { args } => (Subproject::ProcMacroUtils, string_views(args@)),
        XtaskExpandableSubproj::GenerateTarget { args } => (Subproject::GenerateTarget, string_views(args@)),
    }
}

impl XtaskExpandableSubproj {
    /// The expansion command of the subproject: `cargo expand` with the
    /// given arguments, in its directory.
    pub fn execute(&self, topdir: &str, cargo: &str) -> (res: CmdIn)
        ensures
            res@.dir == joined_path(topdir@, subproject_dir(expand_parts(*self).0)),
            res@.program == cargo@,
            res@.args == seq!["expand"@] + expand_parts(*self).1,
            res@.env.len() == 0,
    {
        let (proj, extra) = match self {
            XtaskExpandableSubproj::Zeros { args } => (Subproject::Zeros, args),
            XtaskExpandableSubproj::UnwindTool { args } => (Subproject::UnwindTool, args),
            XtaskExpandableSubproj::MacroUtils { args } => (Subproject::MacroUtils, args),
            XtaskExpandableSubproj::ProcMacroUtils { args } => (Subproject::ProcMacroUtils, args),
            XtaskExpandableSubproj::GenerateTarget { args } => (Subproject::GenerateTarget, args),
        };
        let mut args: Vec<String> = Vec::new();
        push_str(&mut args, "expand");
        extend_strings(&mut args, clone_strings(extra));
        CmdIn { dir: subproj_location(topdir, proj), program: cargo.to_owned(), args, env: Vec::new() }
    }
}

/// The line of the `i`-th error of a chain: its position, a colon and its message.
pub open spec fn chain_entry(i: nat, msg: Seq<char>) -> Seq<char> {
    decimal(i) + ": "@ + msg
}

/// The first `n` errors of a chain, each after the first preceded by `sep`.
pub open spec fn chain_text(chain: Seq<Seq<char>>, sep: Seq<char>, n: nat) -> Seq<char>
    decreases n,
{
    if n == 0 {
        Seq::empty()
    } else if n == 1 {
        chain_entry(0, chain[0])
    } else {
        chain_text(chain, sep, (n - 1) as nat) + sep + chain_entry((n - 1) as nat, chain[n - 1])
    }
}

/// The report of an error and the errors that caused it, numbered from 0:
/// after the prefix and a colon, one per line indented by a tab; without a
/// prefix, one per line.
pub open spec fn error_report(chain: Seq<Seq<char>>, prefix: Option<Seq<char>>) -> Seq<char> {
    match prefix {
        Some(p) => p + ":\n\t"@ + chain_text(chain, "\n\t"@, chain.len()),
        None => chain_text(chain, "\n"@, chain.len()),
    }
}

/// Reports an error with the chain of its sources (see [`error_report`]):
/// `chain` holds the messages of the error and of each source in turn.
pub fn report_error(chain: &Vec<String>, prefix: Option<&str>) -> (res: String)
    requires
        chain.len() > 0,
    ensures
        res@ == error_report(string_views(chain@), match prefix {
            Some(p) => Some(p@),
            None => None,
        }),
{
    let ghost msgs = string_views(chain@);
    let (mut s, sep) = match prefix {
        Some(p) => {
            let mut s = p.to_owned();
            s.append(":\n\t");
            (s, "\n\t")
        },
        None => (String::new(), "\n"),
    };
    let ghost head = s@;
    let mut i: usize = 0;
    while i < chain.len()
        invariant
            i <= chain.len(),
            msgs == string_views(chain@),
            s@ == head + chain_text(msgs, sep@, i as nat),
        decreases chain.len() - i,
    {
        if i > 0 {
            s.append(sep);
        }
        let num = u64_to_decimal(i as u64);
        s.append(num.as_str());
        s.append(": ");
        s.append(chain[i].as_str());
        proof {
            assert(msgs[i as int] == chain@[i as int]@);
            if i == 0 {
                assert(chain_text(msgs, sep@, 0) =~= Seq::<char>::empty());
            }
        }
        i += 1;
        assert(s@ =~= head + chain_text(msgs, sep@, i as nat));
    }
    s
}

/// Reports an error that has no sources: after the prefix and a colon.
pub fn report_error_with_prefix(msg: &str, prefix: &str) -> (res: String)
    ensures
        res@ == prefix@ + ": "@ + msg@,
{
    let mut s = prefix.to_owned();
    s.append(": ");
    s.append(msg);
    s
}

} // verus!
