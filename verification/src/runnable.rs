//! Parameters of a `#[runnable(..)]` item: the language and tools its code
//! runs with, and the rules by which its parameters are read.

use vstd::prelude::*;
use crate::random::random_u64;
use crate::text::{join_strings, join_with, joined_path, path_join, push_char, chars_of, lossy_utf8, utf8_lossy, chars_spell, split_whitespace, string_of, to_uppercase, unicode_upper, views, words};

verus! {

/// The views of a vector of strings.
pub open spec fn string_views(v: Seq<String>) -> Seq<Seq<char>> {
    v.map_values(|s: String| s@)
}

/// A copy of a vector of strings.
pub fn clone_strings(v: &Vec<String>) -> (res: Vec<String>)
    ensures
        string_views(res@) == string_views(v@),
{
    let mut res: Vec<String> = Vec::new();
    let mut i: usize = 0;
    while i < v.len()
        invariant
            i <= v.len(),
            res@.len() == i,
            forall|k: int| 0 <= k < i ==> (#[trigger] res@[k])@ == v@[k]@,
        decreases v.len() - i,
    {
        let c = v[i].clone();
        res.push(c);
        i += 1;
    }
    assert(string_views(res@) =~= string_views(v@));
    res
}

/// How the code of a runnable item is built and run.
pub enum RunnableLang {
    /// C code, built with `compiler -std=<std>`.
    C { compiler: String, std: String, cc_opts: Vec<String> },
    /// C++ code, built with `compiler -std=<std>`.
    Cxx { compiler: String, std: String, cc_opts: Vec<String> },
    /// Rust code, built with `compiler`.
    Rust { compiler: String, rustc_opts: Vec<String> },
    /// A shell script, run by `shell`.
    Shell { shell: String, shell_opts: Vec<String> },
}

/// The abstract value of a [`RunnableLang`].
pub enum LangModel {
    C { compiler: Seq<char>, std: Seq<char>, opts: Seq<Seq<char>> },
    Cxx { compiler: Seq<char>, std: Seq<char>, opts: Seq<Seq<char>> },
    Rust { compiler: Seq<char>, opts: Seq<Seq<char>> },
    Shell { shell: Seq<char>, opts: Seq<Seq<char>> },
}

impl View for RunnableLang {
    type V = LangModel;

    open spec fn view(&self) -> LangModel {
        match self {
            RunnableLang::C { compiler, std, cc_opts } => LangModel::C {
                compiler: compiler@,
                std: std@,
                opts: string_views(cc_opts@),
            },
            RunnableLang::Cxx { compiler, std, cc_opts } => LangModel::Cxx {
                compiler: compiler@,
                std: std@,
                opts: string_views(cc_opts@),
            },
            RunnableLang::Rust { compiler, rustc_opts } => LangModel::Rust {
                compiler: compiler@,
                opts: string_views(rustc_opts@),
            },
            RunnableLang::Shell { shell, shell_opts } => LangModel::Shell {
                shell: shell@,
                opts: string_views(shell_opts@),
            },
        }
    }
}

/// The language after `set_std`: C and C++ take the new standard.
pub open spec fn with_std(m: LangModel, new_std: Option<Seq<char>>) -> LangModel {
    match new_std {
        None => m,
        Some(s) => match m {
            LangModel::C { compiler, std, opts } => LangModel::C { compiler, std: s, opts },
            LangModel::Cxx { compiler, std, opts } => LangModel::Cxx { compiler, std: s, opts },
            _ => m,
        },
    }
}

/// The view of an optional borrowed string.
pub open spec fn opt_view(o: Option<&String>) -> Option<Seq<char>> {
    match o {
        Some(s) => Some(s@),
        None => None,
    }
}

/// The language after `set_cc_opts`: C and C++ take the new options.
pub open spec fn with_cc_opts(m: LangModel, o: Seq<Seq<char>>) -> LangModel {
    match m {
        LangModel::C { compiler, std, opts } => LangModel::C { compiler, std, opts: o },
        LangModel::Cxx { compiler, std, opts } => LangModel::Cxx { compiler, std, opts: o },
        _ => m,
    }
}

/// The language after `set_rustc_opts`: Rust takes the new options.
pub open spec fn with_rustc_opts(m: LangModel, o: Seq<Seq<char>>) -> LangModel {
    match m {
        LangModel::Rust { compiler, opts } => LangModel::Rust { compiler, opts: o },
        _ => m,
    }
}

/// The language after `set_shell_opts`: a shell takes the new options.
pub open spec fn with_shell_opts(m: LangModel, o: Seq<Seq<char>>) -> LangModel {
    match m {
        LangModel::Shell { shell, opts } => LangModel::Shell { shell, opts: o },
        _ => m,
    }
}

/// The language after `set_shell`: a shell takes the new interpreter.
pub open spec fn with_shell(m: LangModel, new_shell: Option<Seq<char>>) -> LangModel {
    match new_shell {
        None => m,
        Some(s) => match m {
            LangModel::Shell { shell, opts } => LangModel::Shell { shell: s, opts },
            _ => m,
        },
    }
}

/// The language after `set_compiler`: C, C++ and Rust take the new compiler.
pub open spec fn with_compiler(m: LangModel, new_compiler: Option<Seq<char>>) -> LangModel {
    match new_compiler {
        None => m,
        Some(c) => match m {
            LangModel::C { compiler, std, opts } => LangModel::C { compiler: c, std, opts },
            LangModel::Cxx { compiler, std, opts } => LangModel::Cxx { compiler: c, std, opts },
            LangModel::Rust { compiler, opts } => LangModel::Rust { compiler: c, opts },
            _ => m,
        },
    }
}

/// The file extension that the code of a language is written with.
pub open spec fn extension_of(m: LangModel) -> Seq<char> {
    match m {
        LangModel::C { .. } => "c"@,
        LangModel::Cxx { .. } => "cc"@,
        LangModel::Rust { .. } => "rs"@,
        LangModel::Shell { shell, .. } => shell,
    }
}

/// The default settings of a language, by its uppercased name.
pub open spec fn default_lang(name: Seq<char>) -> Option<LangModel> {
    if name == "C"@ {
        Some(LangModel::C { compiler: "gcc"@, std: "gnu23"@, opts: seq![] })
    } else if name == "C++"@ || name == "CXX"@ {
        Some(LangModel::Cxx { compiler: "g++"@, std: "gnu++23"@, opts: seq![] })
    } else if name == "RUST"@ {
        Some(LangModel::Rust { compiler: "rustc"@, opts: seq![] })
    } else if name == "SHELL"@ {
        Some(LangModel::Shell { shell: "bash"@, opts: seq![] })
    } else {
        None
    }
}

impl RunnableLang {
    /// The file extension that the code is written with.
    pub fn format_extension(&self) -> (res: &str)
        ensures
            res@ == extension_of(self@),
    {
        match self {
            RunnableLang::C { .. } => "c",
            RunnableLang::Cxx { .. } => "cc",
            RunnableLang::Rust { .. } => "rs",
            RunnableLang::Shell { shell, .. } => shell.as_str(),
        }
    }

    /// Replaces the language standard of C and C++ code when one is given.
    pub fn set_std(&mut self, new_std: Option<&String>) -> (res: &mut Self)
        ensures
            (*res)@ == with_std(old(self)@, opt_view(new_std)),
            *final(self) == *final(res),
    {
        if let Some(new_value) = new_std {
            match self {
                RunnableLang::C { std, .. } => {
                    *std = new_value.clone();
                },
                RunnableLang::Cxx { std, .. } => {
                    *std = new_value.clone();
                },
                _ => {},
            }
        }
        self
    }

    /// Replaces the options of C and C++ compilers.
    pub fn set_cc_opts(&mut self, new_cc_opts: &Vec<String>) -> (res: &mut Self)
        ensures
            (*res)@ == with_cc_opts(old(self)@, string_views(new_cc_opts@)),
            *final(self) == *final(res),
    {
        match self {
            RunnableLang::C { cc_opts, .. } => {
                *cc_opts = clone_strings(new_cc_opts);
            },
            RunnableLang::Cxx { cc_opts, .. } => {
                *cc_opts = clone_strings(new_cc_opts);
            },
            _ => {},
        }
        self
    }

    /// Replaces the options of the Rust compiler.
    pub fn set_rustc_opts(&mut self, new_rustc_opts: &Vec<String>) -> (res: &mut Self)
        ensures
            (*res)@ == with_rustc_opts(old(self)@, string_views(new_rustc_opts@)),
            *final(self) == *final(res),
    {
        match self {
            RunnableLang::Rust { rustc_opts, .. } => {
                *rustc_opts = clone_strings(new_rustc_opts);
            },
            _ => {},
        }
        self
    }

    /// Replaces the options of the shell.
    pub fn set_shell_opts(&mut self, new_shell_opts: &Vec<String>) -> (res: &mut Self)
        ensures
            (*res)@ == with_shell_opts(old(self)@, string_views(new_shell_opts@)),
            *final(self) == *final(res),
    {
        match self {
            RunnableLang::Shell { shell_opts, .. } => {
                *shell_opts = clone_strings(new_shell_opts);
            },
            _ => {},
        }
        self
    }

    /// Replaces the shell when one is given.
    pub fn set_shell(&mut self, new_shell: Option<&String>) -> (res: &mut Self)
        ensures
            (*res)@ == with_shell(old(self)@, opt_view(new_shell)),
            *final(self) == *final(res),
    {
        if let Some(new_value) = new_shell {
            match self {
                RunnableLang::Shell { shell, .. } => {
                    *shell = new_value.clone();
                },
                _ => {},
            }
        }
        self
    }

    /// Replaces the compiler of C, C++ and Rust code when one is given.
    pub fn set_compiler(&mut self, new_compiler: Option<&String>) -> (res: &mut Self)
        ensures
            (*res)@ == with_compiler(old(self)@, opt_view(new_compiler)),
            *final(self) == *final(res),
    {
        if let Some(new_value) = new_compiler {
            match self {
                RunnableLang::C { compiler, .. } => {
                    *compiler = new_value.clone();
                },
                RunnableLang::Cxx { compiler, .. } => {
                    *compiler = new_value.clone();
                },
                RunnableLang::Rust { compiler, .. } => {
                    *compiler = new_value.clone();
                },
                _ => {},
            }
        }
        self
    }

    /// The default settings of a language given by its uppercased name, or
    /// the message `unknown language <name>`.
    pub fn default_for(lang: &str) -> (res: Result<Self, String>)
        ensures
            match default_lang(lang@) {
                Some(m) => res matches Ok(l) && l@ == m,
                None => res matches Err(msg) && msg@ == "unknown language "@ + lang@,
            },
    {
        let name = chars_of(lang);
        let no_opts: Vec<String> = Vec::new();
        assert(string_views(no_opts@) =~= Seq::<Seq<char>>::empty());
        if chars_spell(&name, "C") {
            Ok(RunnableLang::C { compiler: "gcc".to_owned(), std: "gnu23".to_owned(), cc_opts: no_opts })
        } else if chars_spell(&name, "C++") || chars_spell(&name, "CXX") {
            Ok(RunnableLang::Cxx { compiler: "g++".to_owned(), std: "gnu++23".to_owned(), cc_opts: no_opts })
        } else if chars_spell(&name, "RUST") {
            Ok(RunnableLang::Rust { compiler: "rustc".to_owned(), rustc_opts: no_opts })
        } else if chars_spell(&name, "SHELL") {
            Ok(RunnableLang::Shell { shell: "bash".to_owned(), shell_opts: no_opts })
        } else {
            let mut msg = "unknown language ".to_owned();
            msg.append(lang);
            Err(msg)
        }
    }
}

/// What the item's expansion is made of once its code has run.
#[derive(Clone, Copy, PartialEq, Eq, Debug)]
pub enum RunnableExpandKind {
    /// Standard error followed by standard output.
    Output,
    /// Standard output.
    StdOut,
    /// Standard error.
    StdErr,
    /// The exit code.
    ExitCode,
}

/// One parameter of `#[runnable(..)]`: its name and, when one follows it,
/// the text of the parenthesised group after it.
pub struct RunnableParam {
    pub name: String,
    pub group: Option<String>,
}

/// The abstract value of a [`RunnableParam`].
pub struct ParamModel {
    pub name: Seq<char>,
    pub group: Option<Seq<char>>,
}

impl View for RunnableParam {
    type V = ParamModel;

    open spec fn view(&self) -> ParamModel {
        ParamModel {
            name: self.name@,
            group: match self.group {
                Some(g) => Some(g@),
                None => None,
            },
        }
    }
}

/// Why the parameters of `#[runnable(..)]` are refused.
pub enum RunnableArgsError {
    /// A parameter lacks its parenthesised group.
    MissingGroup,
    /// `expand` is given twice.
    DuplicateExpand,
    /// `expand` names no known output (the uppercased value).
    UnknownExpandValue(String),
    /// The language is given twice.
    DuplicateLanguage,
    /// The language is unknown (the message `unknown language <NAME>`).
    UnknownLanguage(String),
    /// The standard is given twice.
    DuplicateStandard,
    /// The compiler or interpreter is given twice (the parameter's name).
    DuplicateCompiler(String),
    /// The parameter is unknown (its name).
    UnknownParameter(String),
}

/// The abstract value of a [`RunnableArgsError`].
pub enum ArgsErrorModel {
    MissingGroup,
    DuplicateExpand,
    UnknownExpandValue(Seq<char>),
    DuplicateLanguage,
    UnknownLanguage(Seq<char>),
    DuplicateStandard,
    DuplicateCompiler(Seq<char>),
    UnknownParameter(Seq<char>),
}

impl View for RunnableArgsError {
    type V = ArgsErrorModel;

    open spec fn view(&self) -> ArgsErrorModel {
        match self {
            RunnableArgsError::MissingGroup => ArgsErrorModel::MissingGroup,
            RunnableArgsError::DuplicateExpand => ArgsErrorModel::DuplicateExpand,
            RunnableArgsError::UnknownExpandValue(v) => ArgsErrorModel::UnknownExpandValue(v@),
            RunnableArgsError::DuplicateLanguage => ArgsErrorModel::DuplicateLanguage,
            RunnableArgsError::UnknownLanguage(v) => ArgsErrorModel::UnknownLanguage(v@),
            RunnableArgsError::DuplicateStandard => ArgsErrorModel::DuplicateStandard,
            RunnableArgsError::DuplicateCompiler(v) => ArgsErrorModel::DuplicateCompiler(v@),
            RunnableArgsError::UnknownParameter(v) => ArgsErrorModel::UnknownParameter(v@),
        }
    }
}

/// The settings of a runnable item.
pub struct RunnableArgs {
    pub lang: RunnableLang,
    pub args: Vec<String>,
    pub expand: RunnableExpandKind,
}

/// The abstract value of [`RunnableArgs`].
pub struct ArgsModel {
    pub lang: LangModel,
    pub args: Seq<Seq<char>>,
    pub expand: RunnableExpandKind,
}

impl View for RunnableArgs {
    type V = ArgsModel;

    open spec fn view(&self) -> ArgsModel {
        ArgsModel { lang: self.lang@, args: string_views(self.args@), expand: self.expand }
    }
}

/// What has been read of the parameters so far.
pub struct ParseState {
    pub comp: Option<Seq<char>>,
    pub opts: Seq<Seq<char>>,
    pub lang: LangModel,
    pub std: Option<Seq<char>>,
    pub args: Seq<Seq<char>>,
    pub found_lang: bool,
    pub expand: Option<RunnableExpandKind>,
}

/// The state before any parameter: a shell language and nothing else given.
pub open spec fn initial_state() -> ParseState {
    ParseState {
        comp: None,
        opts: seq![],
        lang: LangModel::Shell { shell: "bash"@, opts: seq![] },
        std: None,
        args: seq![],
        found_lang: false,
        expand: None,
    }
}

/// The output that an uppercased `expand(..)` value names.
pub open spec fn expand_kind(v: Seq<char>) -> Option<RunnableExpandKind> {
    if v == "OUTPUT"@ {
        Some(RunnableExpandKind::Output)
    } else if v == "STDOUT"@ {
        Some(RunnableExpandKind::StdOut)
    } else if v == "STDERR"@ {
        Some(RunnableExpandKind::StdErr)
    } else if v == "EXITCODE"@ || v == "EXIT_CODE"@ {
        Some(RunnableExpandKind::ExitCode)
    } else {
        None
    }
}

/// The uppercased names of the parameters that add compiler or interpreter options.
pub open spec fn is_opts_name(n: Seq<char>) -> bool {
    n == "CCOPTS"@ || n == "CC_OPTS"@ || n == "RUSTC_OPTS"@ || n == "RUSTCOPTS"@ || n == "SH_OPTS"@
        || n == "SHOPTS"@ || n == "SHELL_OPTS"@ || n == "SHELLOPTS"@ || n == "COMPILER_OPTIONS"@
        || n == "INTERPRETER_OPTIONS"@
}

/// The uppercased names of the parameters that give the compiler or interpreter.
pub open spec fn is_compiler_name(n: Seq<char>) -> bool {
    n == "CC"@ || n == "RUSTC"@ || n == "SH"@ || n == "SHELL"@ || n == "COMPILER"@ || n == "INTERPRETER"@
}

/// A language's defaults with every option, standard and tool given so far.
pub open spec fn configured(d: LangModel, opts: Seq<Seq<char>>, std: Option<Seq<char>>, comp: Option<Seq<char>>) -> LangModel {
    with_compiler(with_shell(with_std(with_shell_opts(with_rustc_opts(with_cc_opts(d, opts), opts), opts), std), comp), comp)
}

/// The effect of one parameter on what has been read.
pub open spec fn param_step(st: ParseState, p: ParamModel) -> Result<ParseState, ArgsErrorModel> {
    let up = unicode_upper(p.name);
    if up == "EXPAND"@ {
        if st.expand is Some {
            Err(ArgsErrorModel::DuplicateExpand)
        } else {
            match p.group {
                None => Err(ArgsErrorModel::MissingGroup),
                Some(g) => match expand_kind(unicode_upper(g)) {
                    Some(k) => Ok(ParseState { expand: Some(k), ..st }),
                    None => Err(ArgsErrorModel::UnknownExpandValue(unicode_upper(g))),
                },
            }
        }
    } else if up == "LANG"@ || up == "LANGUAGE"@ {
        if st.found_lang {
            Err(ArgsErrorModel::DuplicateLanguage)
        } else {
            match p.group {
                None => Err(ArgsErrorModel::MissingGroup),
                Some(g) => match default_lang(unicode_upper(g)) {
                    Some(d) => Ok(ParseState { found_lang: true, lang: configured(d, st.opts, st.std, st.comp), ..st }),
                    None => Err(ArgsErrorModel::UnknownLanguage("unknown language "@ + unicode_upper(g))),
                },
            }
        }
    } else if up == "STD"@ || up == "STANDARD"@ {
        if st.std is Some {
            Err(ArgsErrorModel::DuplicateStandard)
        } else {
            match p.group {
                None => Err(ArgsErrorModel::MissingGroup),
                Some(g) => Ok(ParseState {
                    std: Some(g),
                    lang: if st.found_lang { with_std(st.lang, Some(g)) } else { st.lang },
                    ..st
                }),
            }
        }
    } else if is_opts_name(up) {
        match p.group {
            None => Err(ArgsErrorModel::MissingGroup),
            Some(g) => {
                let o = st.opts + words(g);
                Ok(ParseState {
                    opts: o,
                    lang: if st.found_lang {
                        with_shell_opts(with_rustc_opts(with_cc_opts(st.lang, o), o), o)
                    } else {
                        st.lang
                    },
                    ..st
                })
            },
        }
    } else if is_compiler_name(up) {
        if st.comp is Some {
            Err(ArgsErrorModel::DuplicateCompiler(p.name))
        } else {
            match p.group {
                None => Err(ArgsErrorModel::MissingGroup),
                Some(g) => Ok(ParseState {
                    comp: Some(g),
                    lang: if st.found_lang {
                        with_shell(with_compiler(st.lang, Some(g)), Some(g))
                    } else {
                        st.lang
                    },
                    ..st
                }),
            }
        }
    } else if up == "ARGS"@ {
        match p.group {
            None => Err(ArgsErrorModel::MissingGroup),
            Some(g) => Ok(ParseState { args: st.args + words(g), ..st }),
        }
    } else {
        Err(ArgsErrorModel::UnknownParameter(p.name))
    }
}

/// The state after reading all the parameters in order, or the first refusal.
pub open spec fn parse_state(params: Seq<ParamModel>) -> Result<ParseState, ArgsErrorModel>
    decreases params.len(),
{
    if params.len() == 0 {
        Ok(initial_state())
    } else {
        match parse_state(params.drop_last()) {
            Ok(st) => param_step(st, params.last()),
            Err(e) => Err(e),
        }
    }
}

/// The settings that the parameters give, or why they are refused.
pub open spec fn parse_args_spec(params: Seq<ParamModel>) -> Result<ArgsModel, ArgsErrorModel> {
    match parse_state(params) {
        Ok(st) => Ok(ArgsModel {
            lang: st.lang,
            args: st.args,
            expand: match st.expand {
                Some(k) => k,
                None => RunnableExpandKind::Output,
            },
        }),
        Err(e) => Err(e),
    }
}

/// The view of an optional string.
pub open spec fn opt_string_view(o: Option<String>) -> Option<Seq<char>> {
    match o {
        Some(s) => Some(s@),
        None => None,
    }
}

struct ParseStateExec {
    comp: Option<String>,
    opts: Vec<String>,
    lang: RunnableLang,
    std: Option<String>,
    args: Vec<String>,
    found_lang: bool,
    expand: Option<RunnableExpandKind>,
}

impl View for ParseStateExec {
    type V = ParseState;

    closed spec fn view(&self) -> ParseState {
        ParseState {
            comp: opt_string_view(self.comp),
            opts: string_views(self.opts@),
            lang: self.lang@,
            std: opt_string_view(self.std),
            args: string_views(self.args@),
            found_lang: self.found_lang,
            expand: self.expand,
        }
    }
}

/// The white-space separated words of a string, as strings.
pub fn words_of(s: &str) -> (res: Vec<String>)
    ensures
        string_views(res@) == words(s@),
{
    let chars = chars_of(s);
    let ws = split_whitespace(&chars);
    let mut res: Vec<String> = Vec::new();
    let mut i: usize = 0;
    while i < ws.len()
        invariant
            i <= ws.len(),
            res@.len() == i,
            forall|k: int| 0 <= k < i ==> (#[trigger] res@[k])@ == ws@[k]@,
        decreases ws.len() - i,
    {
        res.push(string_of(&ws[i]));
        i += 1;
    }
    assert(string_views(res@) =~= views(ws@));
    res
}

pub(crate) fn extend_strings(v: &mut Vec<String>, more: Vec<String>)
    ensures
        string_views(final(v)@) == string_views(old(v)@) + string_views(more@),
{
    let ghost start = v@;
    let mut i: usize = 0;
    while i < more.len()
        invariant
            i <= more.len(),
            v@.len() == start.len() + i,
            forall|k: int| 0 <= k < start.len() ==> (#[trigger] v@[k])@ == start[k]@,
            forall|k: int| 0 <= k < i ==> (#[trigger] v@[start.len() + k])@ == more@[k]@,
        decreases more.len() - i,
    {
        let c = more[i].clone();
        v.push(c);
        i += 1;
    }
    assert(string_views(v@) =~= string_views(start) + string_views(more@)) by {
        assert forall|k: int| 0 <= k < v@.len() implies #[trigger] string_views(v@)[k] == (string_views(start)
            + string_views(more@))[k] by {
            if k >= start.len() {
                assert(v@[start.len() + (k - start.len())] == v@[k]);
            }
        }
    }
}

fn expand_kind_of(v: &Vec<char>) -> (res: Option<RunnableExpandKind>)
    ensures
        res == expand_kind(v@),
{
    if chars_spell(v, "OUTPUT") {
        Some(RunnableExpandKind::Output)
    } else if chars_spell(v, "STDOUT") {
        Some(RunnableExpandKind::StdOut)
    } else if chars_spell(v, "STDERR") {
        Some(RunnableExpandKind::StdErr)
    } else if chars_spell(v, "EXITCODE") || chars_spell(v, "EXIT_CODE") {
        Some(RunnableExpandKind::ExitCode)
    } else {
        None
    }
}

fn opts_name(n: &Vec<char>) -> (res: bool)
    ensures
        res == is_opts_name(n@),
{
    chars_spell(n, "CCOPTS") || chars_spell(n, "CC_OPTS") || chars_spell(n, "RUSTC_OPTS") || chars_spell(
        n,
        "RUSTCOPTS",
    ) || chars_spell(n, "SH_OPTS") || chars_spell(n, "SHOPTS") || chars_spell(n, "SHELL_OPTS")
        || chars_spell(n, "SHELLOPTS") || chars_spell(n, "COMPILER_OPTIONS") || chars_spell(
        n,
        "INTERPRETER_OPTIONS",
    )
}

fn compiler_name(n: &Vec<char>) -> (res: bool)
    ensures
        res == is_compiler_name(n@),
{
    chars_spell(n, "CC") || chars_spell(n, "RUSTC") || chars_spell(n, "SH") || chars_spell(n, "SHELL")
        || chars_spell(n, "COMPILER") || chars_spell(n, "INTERPRETER")
}

fn read_param(st: &mut ParseStateExec, p: &RunnableParam) -> (res: Result<(), RunnableArgsError>)
    ensures
        match param_step(old(st)@, p@) {
            Ok(n) => res is Ok && final(st)@ == n,
            Err(e) => res matches Err(x) && x@ == e,
        },
{
    let up = chars_of(to_uppercase(p.name.as_str()).as_str());
    if chars_spell(&up, "EXPAND") {
        if st.expand.is_some() {
            return Err(RunnableArgsError::DuplicateExpand);
        }
        match &p.group {
            None => Err(RunnableArgsError::MissingGroup),
            Some(g) => {
                let gu = to_uppercase(g.as_str());
                let gc = chars_of(gu.as_str());
                match expand_kind_of(&gc) {
                    Some(k) => {
                        st.expand = Some(k);
                        Ok(())
                    },
                    None => Err(RunnableArgsError::UnknownExpandValue(gu)),
                }
            },
        }
    } else if chars_spell(&up, "LANG") || chars_spell(&up, "LANGUAGE") {
        if st.found_lang {
            return Err(RunnableArgsError::DuplicateLanguage);
        }
        match &p.group {
            None => Err(RunnableArgsError::MissingGroup),
            Some(g) => {
                let gu = to_uppercase(g.as_str());
                match RunnableLang::default_for(gu.as_str()) {
                    Ok(d) => {
                        let mut l = d;
                        l.set_cc_opts(&st.opts).set_rustc_opts(&st.opts).set_shell_opts(&st.opts).set_std(
                            st.std.as_ref(),
                        ).set_shell(st.comp.as_ref()).set_compiler(st.comp.as_ref());
                        st.lang = l;
                        st.found_lang = true;
                        Ok(())
                    },
                    Err(msg) => Err(RunnableArgsError::UnknownLanguage(msg)),
                }
            },
        }
    } else if chars_spell(&up, "STD") || chars_spell(&up, "STANDARD") {
        if st.std.is_some() {
            return Err(RunnableArgsError::DuplicateStandard);
        }
        match &p.group {
            None => Err(RunnableArgsError::MissingGroup),
            Some(g) => {
                st.std = Some(g.clone());
                if st.found_lang {
                    st.lang.set_std(Some(g));
                }
                Ok(())
            },
        }
    } else if opts_name(&up) {
        match &p.group {
            None => Err(RunnableArgsError::MissingGroup),
            Some(g) => {
                let more = words_of(g.as_str());
                extend_strings(&mut st.opts, more);
                if st.found_lang {
                    st.lang.set_cc_opts(&st.opts).set_rustc_opts(&st.opts).set_shell_opts(&st.opts);
                }
                Ok(())
            },
        }
    } else if compiler_name(&up) {
        if st.comp.is_some() {
            return Err(RunnableArgsError::DuplicateCompiler(p.name.clone()));
        }
        match &p.group {
            None => Err(RunnableArgsError::MissingGroup),
            Some(g) => {
                st.comp = Some(g.clone());
                if st.found_lang {
                    st.lang.set_compiler(Some(g)).set_shell(Some(g));
                }
                Ok(())
            },
        }
    } else if chars_spell(&up, "ARGS") {
        match &p.group {
            None => Err(RunnableArgsError::MissingGroup),
            Some(g) => {
                let more = words_of(g.as_str());
                extend_strings(&mut st.args, more);
                Ok(())
            },
        }
    } else {
        Err(RunnableArgsError::UnknownParameter(p.name.clone()))
    }
}

/// The views of a vector of parameters.
pub open spec fn param_views(v: Seq<RunnableParam>) -> Seq<ParamModel> {
    v.map_values(|p: RunnableParam| p@)
}

impl RunnableArgs {
    /// Reads the parameters of `#[runnable(..)]` in order. A parameter names
    /// the language (`lang`), its standard (`std`), the compiler or
    /// interpreter (`cc`, `shell`, ..), options for it (`cc_opts`, ..), the
    /// program's arguments (`args`) or what the item expands to (`expand`);
    /// settings given before the language are applied to it once it is named.
    /// The list holds at least one parameter.
    pub fn parse(params: &Vec<RunnableParam>) -> (res: Result<RunnableArgs, RunnableArgsError>)
        requires
            params@.len() > 0,
        ensures
            match parse_args_spec(param_views(params@)) {
                Ok(m) => res matches Ok(a) && a@ == m,
                Err(e) => res matches Err(x) && x@ == e,
            },
    {
        let no_strings: Vec<String> = Vec::new();
        assert(string_views(no_strings@) =~= Seq::<Seq<char>>::empty());
        let mut st = ParseStateExec {
            comp: None,
            opts: Vec::new(),
            lang: RunnableLang::Shell { shell: "bash".to_owned(), shell_opts: no_strings },
            std: None,
            args: Vec::new(),
            found_lang: false,
            expand: None,
        };
        assert(st@ == initial_state()) by {
            assert(string_views(st.opts@) =~= Seq::<Seq<char>>::empty());
            assert(string_views(st.args@) =~= Seq::<Seq<char>>::empty());
        }
        let mut i: usize = 0;
        while i < params.len()
            invariant
                i <= params.len(),
                parse_state(param_views(params@).take(i as int)) == Ok::<ParseState, ArgsErrorModel>(st@),
            decreases params.len() - i,
        {
            assert(param_views(params@).take(i + 1).drop_last() =~= param_views(params@).take(i as int));
            assert(param_views(params@).take(i + 1).last() == params@[i as int]@);
            match read_param(&mut st, &params[i]) {
                Ok(()) => {},
                Err(e) => {
                    proof {
                        lemma_parse_state_stays_refused(param_views(params@), i as int + 1);
                    }
                    return Err(e);
                },
            }
            i += 1;
        }
        assert(param_views(params@).take(params.len() as int) =~= param_views(params@));
        let expand = match st.expand {
            Some(k) => k,
            None => RunnableExpandKind::Output,
        };
        Ok(RunnableArgs { lang: st.lang, args: st.args, expand })
    }
}

proof fn lemma_parse_state_stays_refused(params: Seq<ParamModel>, n: int)
    requires
        0 <= n <= params.len(),
        parse_state(params.take(n)) is Err,
    ensures
        parse_state(params) == parse_state(params.take(n)),
    decreases params.len() - n,
{
    if n < params.len() {
        assert(params.take(n + 1).drop_last() =~= params.take(n));
        lemma_parse_state_stays_refused(params, n + 1);
    } else {
        assert(params.take(n) =~= params);
    }
}

/// The language is what some named language's defaults become with the
/// given options, standard and tool.
pub open spec fn configured_from_default(lang: LangModel, opts: Seq<Seq<char>>, std: Option<Seq<char>>, comp: Option<Seq<char>>) -> bool {
    exists|n: Seq<char>| #[trigger] default_lang(n) matches Some(d) && lang == configured(d, opts, std, comp)
}

proof fn lemma_step_keeps_configuration(st: ParseState, p: ParamModel)
    requires
        st.found_lang ==> configured_from_default(st.lang, st.opts, st.std, st.comp),
        param_step(st, p) is Ok,
    ensures
        param_step(st, p) matches Ok(n) && (n.found_lang ==> configured_from_default(n.lang, n.opts, n.std, n.comp)),
{
    let n = param_step(st, p)->Ok_0;
    let up = unicode_upper(p.name);
    if up == "LANG"@ || up == "LANGUAGE"@ {
        if up != "EXPAND"@ {
            let g = p.group.unwrap();
            assert(default_lang(unicode_upper(g)) is Some);
        }
    } else if n.found_lang {
        let name = choose|name: Seq<char>| #[trigger] default_lang(name) matches Some(d) && st.lang == configured(
            d,
            st.opts,
            st.std,
            st.comp,
        );
        let d = default_lang(name).unwrap();
        assert(default_lang(name) matches Some(d0) && n.lang == configured(d0, n.opts, n.std, n.comp)) by {
            match d {
                LangModel::C { .. } => {},
                LangModel::Cxx { .. } => {},
                LangModel::Rust { .. } => {},
                LangModel::Shell { .. } => {},
            }
            match st.comp {
                Some(c) => {},
                None => {},
            }
            match st.std {
                Some(c) => {},
                None => {},
            }
        }
    }
}

proof fn lemma_configuration_invariant(params: Seq<ParamModel>)
    requires
        parse_state(params) is Ok,
    ensures
        parse_state(params) matches Ok(st) && (st.found_lang ==> configured_from_default(st.lang, st.opts, st.std, st.comp)),
    decreases params.len(),
{
    if params.len() > 0 {
        lemma_configuration_invariant(params.drop_last());
        lemma_step_keeps_configuration(parse_state(params.drop_last())->Ok_0, params.last());
    }
}

/// Once a language is named, the options, standard and compiler or
/// interpreter apply to it in the same way whether they were given before or
/// after it: the resulting language is the named language's defaults with
/// all the options gathered, the standard and the tool.
pub proof fn lemma_settings_apply_in_any_order(params: Seq<ParamModel>)
    requires
        parse_state(params) matches Ok(st) && st.found_lang,
    ensures
        parse_state(params) matches Ok(st) && configured_from_default(st.lang, st.opts, st.std, st.comp),
{
    lemma_configuration_invariant(params);
}

/// The language names select their languages' defaults: `C++` and `CXX`
/// both select C++ built by `g++` with the `gnu++23` standard and no
/// options, written in `.cc` files; `C` selects C built by `gcc` with
/// `gnu23`; `RUST` selects Rust built by `rustc`; `SHELL` selects `bash`.
pub proof fn lemma_language_names_select_defaults()
    ensures
        default_lang("C++"@) == default_lang("CXX"@),
        default_lang("CXX"@) == Some(LangModel::Cxx { compiler: "g++"@, std: "gnu++23"@, opts: seq![] }),
        extension_of(default_lang("C++"@)->Some_0) == "cc"@,
        default_lang("C"@) == Some(LangModel::C { compiler: "gcc"@, std: "gnu23"@, opts: seq![] }),
        default_lang("RUST"@) == Some(LangModel::Rust { compiler: "rustc"@, opts: seq![] }),
        default_lang("SHELL"@) == Some(LangModel::Shell { shell: "bash"@, opts: seq![] }),
{
    reveal_strlit("C");
    reveal_strlit("C++");
    reveal_strlit("CXX");
    reveal_strlit("RUST");
    reveal_strlit("SHELL");
    assert("C++"@.len() != "C"@.len());
    assert("CXX"@.len() != "C"@.len());
    assert("CXX"@[1] != "C++"@[1]);
    assert("RUST"@.len() != "C"@.len() && "RUST"@.len() != "C++"@.len() && "RUST"@.len() != "CXX"@.len());
    assert("SHELL"@.len() != "C"@.len() && "SHELL"@.len() != "C++"@.len() && "SHELL"@.len() != "CXX"@.len()
        && "SHELL"@.len() != "RUST"@.len());
}

/// Whether a parameter names the language.
pub open spec fn is_lang_param(p: ParamModel) -> bool {
    unicode_upper(p.name) == "LANG"@ || unicode_upper(p.name) == "LANGUAGE"@
}

proof fn lemma_same_state_after_more(a: Seq<ParamModel>, b: Seq<ParamModel>, post: Seq<ParamModel>)
    requires
        parse_state(a) == parse_state(b),
    ensures
        parse_state(a + post) == parse_state(b + post),
    decreases post.len(),
{
    if post.len() == 0 {
        assert(a + post =~= a);
        assert(b + post =~= b);
    } else {
        lemma_same_state_after_more(a, b, post.drop_last());
        assert((a + post).drop_last() =~= a + post.drop_last());
        assert((b + post).drop_last() =~= b + post.drop_last());
    }
}

proof fn lemma_language_step_commutes(s: ParseState, l: ParamModel, p: ParamModel)
    requires
        is_lang_param(l),
        !is_lang_param(p),
        !s.found_lang,
        param_step(s, l) is Ok,
    ensures
        match param_step(s, p) {
            Err(e) => param_step(param_step(s, l)->Ok_0, p) == Err::<ParseState, ArgsErrorModel>(e),
            Ok(n) => !n.found_lang && param_step(n, l) is Ok && param_step(param_step(s, l)->Ok_0, p) == param_step(
                n,
                l,
            ),
        },
{
    let d = default_lang(unicode_upper(l.group->Some_0))->Some_0;
    let t = param_step(s, l)->Ok_0;
    let up = unicode_upper(p.name);
    if param_step(s, p) is Ok {
        let n = param_step(s, p)->Ok_0;
        let lhs = param_step(t, p)->Ok_0;
        let rhs = param_step(n, l)->Ok_0;
        assert(lhs.lang == rhs.lang) by {
            match d {
                LangModel::C { .. } => {},
                LangModel::Cxx { .. } => {},
                LangModel::Rust { .. } => {},
                LangModel::Shell { .. } => {},
            }
            match s.comp {
                Some(c) => {},
                None => {},
            }
            match s.std {
                Some(c) => {},
                None => {},
            }
        }
        assert(lhs == rhs);
    }
}

proof fn lemma_language_first(l: ParamModel, pre: Seq<ParamModel>)
    requires
        is_lang_param(l),
        param_step(initial_state(), l) is Ok,
        forall|i: int| 0 <= i < pre.len() ==> !is_lang_param(#[trigger] pre[i]),
    ensures
        match parse_state(pre) {
            Err(e) => parse_state(seq![l] + pre) == Err::<ParseState, ArgsErrorModel>(e),
            Ok(s) => !s.found_lang && param_step(s, l) is Ok && parse_state(seq![l] + pre) == param_step(s, l),
        },
    decreases pre.len(),
{
    if pre.len() == 0 {
        assert(seq![l] + pre =~= seq![l]);
        assert(seq![l].drop_last() =~= Seq::<ParamModel>::empty());
        assert(parse_state(Seq::<ParamModel>::empty()) == Ok::<ParseState, ArgsErrorModel>(initial_state()));
        assert(parse_state(seq![l]) == param_step(initial_state(), l));
    } else {
        let init = pre.drop_last();
        assert forall|i: int| 0 <= i < init.len() implies !is_lang_param(#[trigger] init[i]) by {
            assert(init[i] == pre[i]);
        }
        lemma_language_first(l, init);
        assert((seq![l] + pre).drop_last() =~= seq![l] + init);
        assert((seq![l] + pre).last() == pre.last());
        assert(!is_lang_param(pre[pre.len() - 1]));
        assert(pre.drop_last() == init);
        match parse_state(init) {
            Err(e) => {
                assert(parse_state(pre) == Err::<ParseState, ArgsErrorModel>(e));
            },
            Ok(s) => {
                lemma_language_step_commutes(s, l, pre.last());
                assert(parse_state(pre) == param_step(s, pre.last()));
                assert(parse_state(seq![l] + pre) == param_step(param_step(s, l)->Ok_0, pre.last()));
            },
        }
    }
}

/// A language parameter that is valid on its own may stand anywhere among
/// the other parameters: read first, or after any of them (none of which
/// names the language), it gives the same settings, or the same refusal.
pub proof fn lemma_language_may_stand_anywhere(pre: Seq<ParamModel>, l: ParamModel, post: Seq<ParamModel>)
    requires
        is_lang_param(l),
        param_step(initial_state(), l) is Ok,
        forall|i: int| 0 <= i < pre.len() ==> !is_lang_param(#[trigger] pre[i]),
    ensures
        parse_args_spec(seq![l] + pre + post) == parse_args_spec(pre.push(l) + post),
{
    lemma_language_first(l, pre);
    assert(pre.push(l).drop_last() =~= pre);
    assert(parse_state(seq![l] + pre) == parse_state(pre.push(l)));
    lemma_same_state_after_more(seq![l] + pre, pre.push(l), post);
}

/// The kinds of parameters, told apart by their uppercased names.
pub enum ParamKind {
    Expand,
    Lang,
    Std,
    Opts,
    Compiler,
    Args,
    Unknown,
}

/// The kind of a parameter.
pub open spec fn param_kind(p: ParamModel) -> ParamKind {
    let up = unicode_upper(p.name);
    if up == "EXPAND"@ {
        ParamKind::Expand
    } else if up == "LANG"@ || up == "LANGUAGE"@ {
        ParamKind::Lang
    } else if up == "STD"@ || up == "STANDARD"@ {
        ParamKind::Std
    } else if is_opts_name(up) {
        ParamKind::Opts
    } else if is_compiler_name(up) {
        ParamKind::Compiler
    } else if up == "ARGS"@ {
        ParamKind::Args
    } else {
        ParamKind::Unknown
    }
}

/// Whether each known kind of parameter is given at most once.
pub open spec fn kinds_once(ps: Seq<ParamModel>) -> bool {
    forall|i: int, j: int|
        0 <= i < ps.len() && 0 <= j < ps.len() && i != j && !(param_kind(ps[i]) is Unknown) ==> param_kind(
            #[trigger] ps[i],
        ) != param_kind(#[trigger] ps[j])
}

/// Whether a parameter is read without refusal where none of its kind came
/// before it.
pub open spec fn param_valid(p: ParamModel) -> bool {
    match param_kind(p) {
        ParamKind::Expand => p.group matches Some(g) && expand_kind(unicode_upper(g)) is Some,
        ParamKind::Lang => p.group matches Some(g) && default_lang(unicode_upper(g)) is Some,
        ParamKind::Unknown => false,
        _ => p.group is Some,
    }
}

/// The last parameter of a kind.
pub open spec fn last_of_kind(ps: Seq<ParamModel>, k: ParamKind) -> Option<ParamModel>
    decreases ps.len(),
{
    if ps.len() == 0 {
        None
    } else if param_kind(ps.last()) == k {
        Some(ps.last())
    } else {
        last_of_kind(ps.drop_last(), k)
    }
}

/// The text given to a parameter, if it is there.
pub open spec fn group_text(o: Option<ParamModel>) -> Option<Seq<char>> {
    match o {
        Some(p) => p.group,
        None => None,
    }
}

/// The words given to a parameter, or none if it is not there.
pub open spec fn group_words(o: Option<ParamModel>) -> Seq<Seq<char>> {
    match o {
        Some(p) => match p.group {
            Some(g) => words(g),
            None => Seq::empty(),
        },
        None => Seq::empty(),
    }
}

/// What parameters of distinct kinds set: each setting is that of the
/// parameter of its kind, and a named language takes its defaults with the
/// options, standard and tool given.
pub open spec fn settled_state(ps: Seq<ParamModel>) -> ParseState {
    let comp = group_text(last_of_kind(ps, ParamKind::Compiler));
    let std = group_text(last_of_kind(ps, ParamKind::Std));
    let opts = group_words(last_of_kind(ps, ParamKind::Opts));
    ParseState {
        comp,
        opts,
        lang: match last_of_kind(ps, ParamKind::Lang) {
            Some(l) => configured(default_lang(unicode_upper(l.group->Some_0))->Some_0, opts, std, comp),
            None => initial_state().lang,
        },
        std,
        args: group_words(last_of_kind(ps, ParamKind::Args)),
        found_lang: last_of_kind(ps, ParamKind::Lang) is Some,
        expand: match last_of_kind(ps, ParamKind::Expand) {
            Some(e) => expand_kind(unicode_upper(e.group->Some_0)),
            None => None,
        },
    }
}

proof fn lemma_last_of_kind(ps: Seq<ParamModel>, k: ParamKind)
    ensures
        last_of_kind(ps, k) matches Some(x) ==> param_kind(x) == k && exists|i: int|
            0 <= i < ps.len() && #[trigger] ps[i] == x,
        last_of_kind(ps, k) is None ==> forall|i: int| 0 <= i < ps.len() ==> param_kind(#[trigger] ps[i]) != k,
    decreases ps.len(),
{
    if ps.len() > 0 {
        let init = ps.drop_last();
        lemma_last_of_kind(init, k);
        if param_kind(ps.last()) == k {
            assert(ps[ps.len() - 1] == ps.last());
        } else {
            if let Some(x) = last_of_kind(init, k) {
                let i = choose|i: int| 0 <= i < init.len() && #[trigger] init[i] == x;
                assert(ps[i] == x);
            } else {
                assert forall|i: int| 0 <= i < ps.len() implies param_kind(#[trigger] ps[i]) != k by {
                    if i < init.len() {
                        assert(ps[i] == init[i]);
                    }
                }
            }
        }
    }
}

proof fn lemma_only_of_kind(ps: Seq<ParamModel>, i: int)
    requires
        kinds_once(ps),
        0 <= i < ps.len(),
        !(param_kind(ps[i]) is Unknown),
    ensures
        last_of_kind(ps, param_kind(ps[i])) == Some(ps[i]),
{
    let k = param_kind(ps[i]);
    lemma_last_of_kind(ps, k);
    if let Some(x) = last_of_kind(ps, k) {
        let j = choose|j: int| 0 <= j < ps.len() && #[trigger] ps[j] == x;
        if j != i {
            assert(param_kind(ps[i]) != param_kind(ps[j]));
        }
    } else {
        assert(param_kind(ps[i]) != k);
    }
}

proof fn lemma_parse_settles(ps: Seq<ParamModel>)
    requires
        kinds_once(ps),
    ensures
        parse_state(ps) is Ok <==> forall|i: int| 0 <= i < ps.len() ==> param_valid(#[trigger] ps[i]),
        parse_state(ps) is Ok ==> parse_state(ps) == Ok::<ParseState, ArgsErrorModel>(settled_state(ps)),
    decreases ps.len(),
{
    if ps.len() == 0 {
        assert(settled_state(ps) == initial_state()) by {
            assert(group_words(None) =~= Seq::<Seq<char>>::empty());
        }
    } else {
        let init = ps.drop_last();
        let p = ps.last();
        assert(p == ps[ps.len() - 1]);
        assert forall|i: int, j: int|
            0 <= i < init.len() && 0 <= j < init.len() && i != j && !(param_kind(init[i]) is Unknown) implies param_kind(
            #[trigger] init[i],
        ) != param_kind(#[trigger] init[j]) by {
            assert(init[i] == ps[i] && init[j] == ps[j]);
        }
        lemma_parse_settles(init);
        match parse_state(init) {
            Err(e) => {
                let i = choose|i: int| 0 <= i < init.len() && !param_valid(#[trigger] init[i]);
                assert(ps[i] == init[i]);
            },
            Ok(st) => {
                let k = param_kind(p);
                lemma_last_of_kind(init, k);
                if !(k is Unknown) {
                    if let Some(x) = last_of_kind(init, k) {
                        let j = choose|j: int| 0 <= j < init.len() && #[trigger] init[j] == x;
                        assert(ps[j] == x);
                        assert(param_kind(ps[ps.len() - 1]) != param_kind(ps[j]));
                    }
                }
                assert(forall|i: int| 0 <= i < ps.len() - 1 ==> ps[i] == #[trigger] init[i]);
                if param_step(st, p) is Err {
                    assert(!param_valid(ps[ps.len() - 1]));
                } else {
                    assert(param_valid(p));
                    assert forall|i: int| 0 <= i < ps.len() implies param_valid(#[trigger] ps[i]) by {
                        if i < ps.len() - 1 {
                            assert(ps[i] == init[i]);
                        }
                    }
                }
                if param_step(st, p) is Ok {
                    let n = param_step(st, p)->Ok_0;
                    let t = settled_state(ps);
                    assert(n.opts =~= t.opts);
                    assert(n.args =~= t.args);
                    assert(n.lang == t.lang) by {
                        match last_of_kind(ps, ParamKind::Lang) {
                            Some(l) => {
                                match default_lang(unicode_upper(l.group->Some_0))->Some_0 {
                                    LangModel::C { .. } => {},
                                    LangModel::Cxx { .. } => {},
                                    LangModel::Rust { .. } => {},
                                    LangModel::Shell { .. } => {},
                                }
                            },
                            None => {},
                        }
                        match st.comp {
                            Some(c) => {},
                            None => {},
                        }
                        match st.std {
                            Some(c) => {},
                            None => {},
                        }
                    }
                    assert(n == t);
                }
            },
        }
    }
}

/// The order of the parameters does not matter where each kind is given at
/// most once: the same parameters in any two orders are both read or both
/// refused, and when read they give the same language, arguments and
/// expansion.
pub proof fn lemma_parameter_order_does_not_matter(ps: Seq<ParamModel>, qs: Seq<ParamModel>)
    requires
        ps.to_multiset() == qs.to_multiset(),
        kinds_once(ps),
        kinds_once(qs),
    ensures
        parse_args_spec(ps) is Ok <==> parse_args_spec(qs) is Ok,
        parse_args_spec(ps) is Ok ==> parse_args_spec(ps) == parse_args_spec(qs),
{
    assert forall|x: ParamModel| ps.contains(x) <==> qs.contains(x) by {
        vstd::seq_lib::to_multiset_contains(ps, x);
        vstd::seq_lib::to_multiset_contains(qs, x);
    }
    lemma_parse_settles(ps);
    lemma_parse_settles(qs);
    if forall|i: int| 0 <= i < ps.len() ==> param_valid(#[trigger] ps[i]) {
        assert forall|j: int| 0 <= j < qs.len() implies param_valid(#[trigger] qs[j]) by {
            assert(qs.contains(qs[j]));
            assert(ps.contains(qs[j]));
        }
    }
    if forall|j: int| 0 <= j < qs.len() ==> param_valid(#[trigger] qs[j]) {
        assert forall|i: int| 0 <= i < ps.len() implies param_valid(#[trigger] ps[i]) by {
            assert(ps.contains(ps[i]));
            assert(qs.contains(ps[i]));
        }
    }
    if parse_state(ps) is Ok {
        lemma_same_kinds_same_last(ps, qs, ParamKind::Expand);
        lemma_same_kinds_same_last(ps, qs, ParamKind::Lang);
        lemma_same_kinds_same_last(ps, qs, ParamKind::Std);
        lemma_same_kinds_same_last(ps, qs, ParamKind::Opts);
        lemma_same_kinds_same_last(ps, qs, ParamKind::Compiler);
        lemma_same_kinds_same_last(ps, qs, ParamKind::Args);
        assert(settled_state(ps) == settled_state(qs));
    }
}

proof fn lemma_same_kinds_same_last(ps: Seq<ParamModel>, qs: Seq<ParamModel>, k: ParamKind)
    requires
        forall|x: ParamModel| ps.contains(x) <==> qs.contains(x),
        kinds_once(ps),
        kinds_once(qs),
        !(k is Unknown),
    ensures
        last_of_kind(ps, k) == last_of_kind(qs, k),
{
    lemma_last_of_kind(ps, k);
    lemma_last_of_kind(qs, k);
    if let Some(x) = last_of_kind(ps, k) {
        let i = choose|i: int| 0 <= i < ps.len() && #[trigger] ps[i] == x;
        assert(ps.contains(x));
        let j = choose|j: int| 0 <= j < qs.len() && #[trigger] qs[j] == x;
        lemma_only_of_kind(qs, j);
    } else if let Some(y) = last_of_kind(qs, k) {
        let j = choose|j: int| 0 <= j < qs.len() && #[trigger] qs[j] == y;
        assert(qs.contains(y));
        let i = choose|i: int| 0 <= i < ps.len() && #[trigger] ps[i] == y;
        assert(param_kind(ps[i]) != k);
    }
}

/// A lowercase hexadecimal digit.
pub open spec fn is_hex_digit(c: char) -> bool {
    ('0' <= c && c <= '9') || ('a' <= c && c <= 'f')
}

/// `filled` is `template` with every `X` replaced by a hexadecimal digit.
pub open spec fn is_filled(template: Seq<char>, filled: Seq<char>) -> bool {
    &&& filled.len() == template.len()
    &&& forall|i: int|
        0 <= i < template.len() ==> if template[i] == 'X' {
            is_hex_digit(#[trigger] filled[i])
        } else {
            filled[i] == template[i]
        }
}

/// The path made of `base` and the components pushed onto it in order.
pub open spec fn joined_all(base: Seq<char>, parts: Seq<Seq<char>>) -> Seq<char>
    decreases parts.len(),
{
    if parts.len() == 0 {
        base
    } else {
        joined_path(joined_all(base, parts.drop_last()), parts.last())
    }
}

/// The lowercase hexadecimal digit of a number below 16.
pub open spec fn hex_digit_of(d: u64) -> char {
    if d < 10 {
        (48 + d) as char
    } else {
        (87 + d) as char
    }
}

fn hex_digit(d: u64) -> (res: char)
    requires
        d < 16,
    ensures
        res == hex_digit_of(d),
        is_hex_digit(res),
{
    let b: u8 = if d < 10 { 48 + d as u8 } else { 97 + (d - 10) as u8 };
    b as char
}

/// Where the filling of placeholders stands: the random number whose
/// hexadecimal digits are taken next, and how many numbers have been drawn.
pub struct FillState {
    pub rand: u64,
    pub used: nat,
}

/// One character of a template: an `X` becomes the lowest hexadecimal digit
/// of the current number, which is then shifted by one digit; once it is
/// used up, the next drawn number takes its place. Other characters stay.
pub open spec fn fill_step(c: char, st: FillState, draws: Seq<u64>) -> (char, FillState) {
    if c == 'X' {
        let r = st.rand / 16;
        (hex_digit_of(st.rand % 16), if r == 0 {
            FillState { rand: draws[st.used as int], used: st.used + 1 }
        } else {
            FillState { rand: r, used: st.used }
        })
    } else {
        (c, st)
    }
}

/// A template filled character by character from a state, and the state
/// after it.
pub open spec fn fill_chars(t: Seq<char>, st: FillState, draws: Seq<u64>) -> (Seq<char>, FillState)
    decreases t.len(),
{
    if t.len() == 0 {
        (t, st)
    } else {
        let prev = fill_chars(t.drop_last(), st, draws);
        let next = fill_step(t.last(), prev.1, draws);
        (prev.0.push(next.0), next.1)
    }
}

/// The templates filled one after another, the state running on from one
/// to the next, and the state after the last.
pub open spec fn fills(comps: Seq<Seq<char>>, st: FillState, draws: Seq<u64>) -> (Seq<Seq<char>>, FillState)
    decreases comps.len(),
{
    if comps.len() == 0 {
        (Seq::empty(), st)
    } else {
        let prev = fills(comps.drop_last(), st, draws);
        let next = fill_chars(comps.last(), prev.1, draws);
        (prev.0.push(next.0), next.1)
    }
}

/// The state before the first placeholder: the first number drawn.
pub open spec fn first_fill_state(draws: Seq<u64>) -> FillState {
    FillState { rand: draws[0], used: 1 }
}

/// The templates filled from the given drawn numbers, in order.
pub open spec fn fills_from(comps: Seq<Seq<char>>, draws: Seq<u64>) -> Seq<Seq<char>> {
    fills(comps, first_fill_state(draws), draws).0
}

/// How many numbers filling the templates draws, the first included.
pub open spec fn draws_needed(comps: Seq<Seq<char>>, draws: Seq<u64>) -> nat {
    fills(comps, first_fill_state(draws), draws).1.used
}

proof fn lemma_fill_chars_prefix(t: Seq<char>, st: FillState, draws: Seq<u64>, i: int)
    requires
        0 <= i <= t.len(),
    ensures
        st.used <= fill_chars(t.take(i), st, draws).1.used <= fill_chars(t, st, draws).1.used,
    decreases t.len(),
{
    if i == t.len() {
        assert(t.take(i) =~= t);
        if t.len() > 0 {
            lemma_fill_chars_prefix(t.drop_last(), st, draws, 0);
        } else {
        }
    } else {
        assert(t.take(i) =~= t.drop_last().take(i));
        lemma_fill_chars_prefix(t.drop_last(), st, draws, i);
    }
}

proof fn lemma_fills_prefix(comps: Seq<Seq<char>>, st: FillState, draws: Seq<u64>, c: int)
    requires
        0 <= c <= comps.len(),
    ensures
        st.used <= fills(comps.take(c), st, draws).1.used <= fills(comps, st, draws).1.used,
    decreases comps.len(),
{
    if c == comps.len() {
        assert(comps.take(c) =~= comps);
        if comps.len() > 0 {
            lemma_fills_prefix(comps.drop_last(), st, draws, 0);
            let prev = fills(comps.drop_last(), st, draws);
            lemma_fill_chars_prefix(comps.last(), prev.1, draws, 0);
        } else {
        }
    } else {
        assert(comps.take(c) =~= comps.drop_last().take(c));
        lemma_fills_prefix(comps.drop_last(), st, draws, c);
        let prev = fills(comps.drop_last(), st, draws);
        lemma_fill_chars_prefix(comps.last(), prev.1, draws, 0);
    }
}

proof fn lemma_fill_chars_more_draws(t: Seq<char>, st: FillState, draws: Seq<u64>, more: Seq<u64>)
    requires
        fill_chars(t, st, draws).1.used <= draws.len(),
        more.len() >= draws.len(),
        forall|k: int| 0 <= k < draws.len() ==> more[k] == draws[k],
    ensures
        fill_chars(t, st, more) == fill_chars(t, st, draws),
    decreases t.len(),
{
    if t.len() > 0 {
        lemma_fill_chars_prefix(t, st, draws, t.len() - 1);
        assert(t.take(t.len() - 1) =~= t.drop_last());
        lemma_fill_chars_more_draws(t.drop_last(), st, draws, more);
    }
}

proof fn lemma_fills_more_draws(comps: Seq<Seq<char>>, st: FillState, draws: Seq<u64>, more: Seq<u64>)
    requires
        fills(comps, st, draws).1.used <= draws.len(),
        more.len() >= draws.len(),
        forall|k: int| 0 <= k < draws.len() ==> more[k] == draws[k],
    ensures
        fills(comps, st, more) == fills(comps, st, draws),
    decreases comps.len(),
{
    if comps.len() > 0 {
        lemma_fills_prefix(comps, st, draws, comps.len() - 1);
        assert(comps.take(comps.len() - 1) =~= comps.drop_last());
        lemma_fills_more_draws(comps.drop_last(), st, draws, more);
        let prev = fills(comps.drop_last(), st, draws);
        lemma_fill_chars_more_draws(comps.last(), prev.1, draws, more);
    }
}

/// One character of a template and the number after it: an `X` gives the
/// number's lowest hexadecimal digit and the number shifted by one digit.
fn fill_char(c: char, rand: u64) -> (res: (char, u64))
    ensures
        c == 'X' ==> res == (hex_digit_of(rand % 16), rand / 16),
        c != 'X' ==> res == (c, rand),
{
    if c == 'X' {
        (hex_digit(rand % 16), rand / 16)
    } else {
        (c, rand)
    }
}

/// The path made of `base` and the templates, each `X` filled from the
/// given random numbers (see [`fills_from`]).
pub fn fill_template(base: &str, components: &Vec<String>, draws: &Vec<u64>) -> (res: String)
    requires
        draws@.len() >= 1,
        draws_needed(string_views(components@), draws@) <= draws@.len(),
    ensures
        res@ == joined_all(base@, fills_from(string_views(components@), draws@)),
{
    let ghost comps = string_views(components@);
    let ghost st0 = first_fill_state(draws@);
    let mut buf = base.to_owned();
    let mut rand: u64 = draws[0];
    let mut used: usize = 1;
    let ghost mut done: Seq<Seq<char>> = seq![];
    let mut c: usize = 0;
    while c < components.len()
        invariant
            c <= components.len(),
            comps == string_views(components@),
            st0 == first_fill_state(draws@),
            draws_needed(comps, draws@) <= draws@.len(),
            fills(comps.take(c as int), st0, draws@) == (done, FillState { rand, used: used as nat }),
            buf@ == joined_all(base@, done),
        decreases components.len() - c,
    {
        proof {
            lemma_fills_prefix(comps, st0, draws@, c + 1);
            assert(comps.take(c + 1).drop_last() =~= comps.take(c as int));
            assert(comps.take(c + 1).last() == components@[c as int]@);
        }
        let ghost sc = FillState { rand, used: used as nat };
        let ghost bound = fills(comps.take(c + 1), st0, draws@).1.used;
        let template = chars_of(components[c].as_str());
        let mut filled = String::new();
        let mut i: usize = 0;
        while i < template.len()
            invariant
                i <= template.len(),
                c < components.len(),
                template@ == components@[c as int]@,
                bound == fill_chars(template@, sc, draws@).1.used,
                bound <= draws@.len(),
                fill_chars(template@.take(i as int), sc, draws@) == (filled@, FillState { rand, used: used as nat }),
            decreases template.len() - i,
        {
            proof {
                lemma_fill_chars_prefix(template@, sc, draws@, i + 1);
                assert(template@.take(i + 1).drop_last() =~= template@.take(i as int));
            }
            let ch = template[i];
            let (d, r) = fill_char(ch, rand);
            push_char(&mut filled, d);
            if ch == 'X' && r == 0 {
                assert(fill_chars(template@.take(i + 1), sc, draws@).1.used == used + 1);
                let total: usize = draws.len();
                assert(used + 1 <= total);
                rand = draws[used];
                used = used + 1;
            } else {
                rand = r;
            }
            i += 1;
        }
        assert(template@.take(template.len() as int) =~= template@);
        let next = path_join(buf.as_str(), filled.as_str());
        proof {
            let new_done = done.push(filled@);
            assert(new_done.drop_last() =~= done);
            done = new_done;
        }
        buf = next;
        c += 1;
    }
    assert(comps.take(components.len() as int) =~= comps);
    buf
}

/// Builds the path of a fresh temporary file: each component of the template
/// is pushed onto `base` with every `X` replaced by a hexadecimal digit taken
/// from random numbers, as [`fill_template`] does with the numbers drawn.
/// `None` when the random source fails.
pub fn make_tempfile_path(base: &str, components: &Vec<String>) -> (res: Option<String>)
    ensures
        res matches Some(p) ==> exists|draws: Seq<u64>|
            #![trigger fills_from(string_views(components@), draws)]
            draws.len() >= 1 && draws_needed(string_views(components@), draws) == draws.len() && p@ == joined_all(
                base@,
                fills_from(string_views(components@), draws),
            ),
        res matches Some(p) ==> exists|fills: Seq<Seq<char>>|
            #![trigger joined_all(base@, fills)]
            fills.len() == components@.len() && (forall|k: int|
                0 <= k < fills.len() ==> is_filled(components@[k]@, #[trigger] fills[k])) && p@ == joined_all(base@, fills),
{
    let ghost comps = string_views(components@);
    let mut buf = base.to_owned();
    let mut rand = match random_u64() {
        Some(r) => r,
        None => return None,
    };
    let ghost mut drawn: Seq<u64> = seq![rand];
    let ghost mut done: Seq<Seq<char>> = seq![];
    let mut c: usize = 0;
    while c < components.len()
        invariant
            c <= components.len(),
            comps == string_views(components@),
            drawn.len() >= 1,
            fills(comps.take(c as int), first_fill_state(drawn), drawn) == (done, FillState { rand, used: drawn.len() }),
            done.len() == c,
            forall|k: int| 0 <= k < c ==> is_filled(components@[k]@, #[trigger] done[k]),
            buf@ == joined_all(base@, done),
        decreases components.len() - c,
    {
        proof {
            assert(comps.take(c + 1).drop_last() =~= comps.take(c as int));
            assert(comps.take(c + 1).last() == components@[c as int]@);
        }
        let ghost sc = FillState { rand, used: drawn.len() };
        let ghost drawn_c = drawn;
        let template = chars_of(components[c].as_str());
        let mut filled = String::new();
        let mut i: usize = 0;
        while i < template.len()
            invariant
                i <= template.len(),
                c < components.len(),
                template@ == components@[c as int]@,
                    drawn.len() >= drawn_c.len(),
                forall|k: int| 0 <= k < drawn_c.len() ==> drawn[k] == drawn_c[k],
                fill_chars(template@.take(i as int), sc, drawn) == (filled@, FillState { rand, used: drawn.len() }),
                filled@.len() == i,
                forall|j: int| 0 <= j < i ==> if template@[j] == 'X' {
                    is_hex_digit(#[trigger] filled@[j])
                } else {
                    filled@[j] == template@[j]
                },
            decreases template.len() - i,
        {
            proof {
                assert(template@.take(i + 1).drop_last() =~= template@.take(i as int));
            }
            let ch = template[i];
            let (d, r) = fill_char(ch, rand);
            push_char(&mut filled, d);
            if ch == 'X' && r == 0 {
                let fresh = match random_u64() {
                    Some(x) => x,
                    None => return None,
                };
                proof {
                    let more = drawn.push(fresh);
                    lemma_fill_chars_more_draws(template@.take(i as int), sc, drawn, more);
                    drawn = more;
                }
                rand = fresh;
            } else {
                rand = r;
            }
            i += 1;
        }
        assert(template@.take(template.len() as int) =~= template@);
        proof {
            lemma_fills_more_draws(comps.take(c as int), first_fill_state(drawn_c), drawn_c, drawn);
            assert(first_fill_state(drawn) == first_fill_state(drawn_c));
        }
        let next = path_join(buf.as_str(), filled.as_str());
        proof {
            let new_done = done.push(filled@);
            assert(new_done.drop_last() =~= done);
            done = new_done;
        }
        buf = next;
        c += 1;
    }
    assert(comps.take(components.len() as int) =~= comps);
    assert(fills_from(comps, drawn) == done);
    assert(draws_needed(comps, drawn) == drawn.len());
    Some(buf)
}

/// The bytes that an item expands to, or `None` when it expands to the exit
/// code: standard error then standard output, one of them, or neither.
pub fn expansion_bytes(expand: RunnableExpandKind, stdout: &Vec<u8>, stderr: &Vec<u8>) -> (res: Option<Vec<u8>>)
    ensures
        match expand {
            RunnableExpandKind::Output => res matches Some(b) && b@ == stderr@ + stdout@,
            RunnableExpandKind::StdOut => res matches Some(b) && b@ == stdout@,
            RunnableExpandKind::StdErr => res matches Some(b) && b@ == stderr@,
            RunnableExpandKind::ExitCode => res is None,
        },
{
    match expand {
        RunnableExpandKind::Output => {
            let mut out = stderr.clone();
            let mut more = stdout.clone();
            out.append(&mut more);
            Some(out)
        },
        RunnableExpandKind::StdOut => Some(stdout.clone()),
        RunnableExpandKind::StdErr => Some(stderr.clone()),
        RunnableExpandKind::ExitCode => None,
    }
}

/// What a runnable item expands to: a string literal or the exit code.
pub enum Expansion {
    /// A string literal holding the text of the output.
    Str(String),
    /// An integer literal holding the exit code.
    Int(i32),
}

/// The message given when the program was stopped by a signal.
pub open spec fn abnormal_exit_message() -> Seq<char> {
    "the process didn't terminate normally"@
}

/// What an item expands to once its program has run, from the program's
/// exit code (`None` when a signal stopped it), its standard output and its
/// standard error.
pub fn expansion(status: Option<i32>, stdout: &Vec<u8>, stderr: &Vec<u8>, expand: RunnableExpandKind) -> (res: Result<Expansion, String>)
    ensures
        match status {
            None => res matches Err(m) && m@ == abnormal_exit_message(),
            Some(c) => match expand {
                RunnableExpandKind::Output => res matches Ok(Expansion::Str(t)) && t@ == lossy_utf8(stderr@ + stdout@),
                RunnableExpandKind::StdOut => res matches Ok(Expansion::Str(t)) && t@ == lossy_utf8(stdout@),
                RunnableExpandKind::StdErr => res matches Ok(Expansion::Str(t)) && t@ == lossy_utf8(stderr@),
                RunnableExpandKind::ExitCode => res matches Ok(Expansion::Int(n)) && n == c,
            },
        },
{
    let code = match status {
        Some(c) => c,
        None => return Err("the process didn't terminate normally".to_owned()),
    };
    match expansion_bytes(expand, stdout, stderr) {
        Some(bytes) => Ok(Expansion::Str(utf8_lossy(&bytes))),
        None => Ok(Expansion::Int(code)),
    }
}

/// A program and its arguments.
pub struct CommandLine {
    pub program: String,
    pub args: Vec<String>,
}

/// The template of the temporary source file of a runnable item.
pub fn source_template(extension: &str) -> (res: String)
    ensures
        res@ == "proc-macro-utils/generated/runnable-XXXXXXXX."@ + extension@,
{
    let mut t = "proc-macro-utils/generated/runnable-XXXXXXXX.".to_owned();
    t.append(extension);
    t
}

/// The template of the temporary executable of a runnable item.
pub fn executable_template() -> (res: String)
    ensures
        res@ == "proc-macro-utils/generated/runnable-XXXXXXXX"@,
{
    "proc-macro-utils/generated/runnable-XXXXXXXX".to_owned()
}

/// The arguments that build the code of a compiled language: the source, the
/// output and the language's options, with the standard first for C and C++.
pub open spec fn build_args(lang: LangModel, src: Seq<char>, out: Seq<char>) -> Option<(Seq<char>, Seq<Seq<char>>)> {
    match lang {
        LangModel::C { compiler, std, opts } => Some((compiler, seq!["-std="@ + std, src, "-o"@, out] + opts)),
        LangModel::Cxx { compiler, std, opts } => Some((compiler, seq!["-std="@ + std, src, "-o"@, out] + opts)),
        LangModel::Rust { compiler, opts } => Some((compiler, seq![src, "-o"@, out] + opts)),
        LangModel::Shell { .. } => None,
    }
}

/// The command that builds the item's code, or `None` for a shell script,
/// which runs as it is.
pub fn build_command(lang: &RunnableLang, src: &str, out: &str) -> (res: Option<CommandLine>)
    ensures
        match build_args(lang@, src@, out@) {
            Some((p, a)) => res matches Some(c) && c.program@ == p && string_views(c.args@) == a,
            None => res is None,
        },
{
    match lang {
        RunnableLang::C { compiler, std, cc_opts } | RunnableLang::Cxx { compiler, std, cc_opts } => {
            let mut flag = "-std=".to_owned();
            flag.append(std.as_str());
            let mut args: Vec<String> = Vec::new();
            args.push(flag);
            args.push(src.to_owned());
            args.push("-o".to_owned());
            args.push(out.to_owned());
            let ghost head = string_views(args@);
            extend_strings(&mut args, clone_strings(cc_opts));
            proof {
                assert(head =~= seq!["-std="@ + std@, src@, "-o"@, out@]);
            }
            Some(CommandLine { program: compiler.clone(), args })
        },
        RunnableLang::Rust { compiler, rustc_opts } => {
            let mut args: Vec<String> = Vec::new();
            args.push(src.to_owned());
            args.push("-o".to_owned());
            args.push(out.to_owned());
            let ghost head = string_views(args@);
            extend_strings(&mut args, clone_strings(rustc_opts));
            proof {
                assert(head =~= seq![src@, "-o"@, out@]);
            }
            Some(CommandLine { program: compiler.clone(), args })
        },
        RunnableLang::Shell { .. } => None,
    }
}

/// The first lines of a shell script: an `env -S` interpreter line naming
/// the shell and its options, then an empty line.
pub fn shell_header(env: &str, shell: &str, shell_opts: &Vec<String>) -> (res: String)
    ensures
        res@ == "#!"@ + env@ + " -S "@ + shell@ + " "@ + join_with(string_views(shell_opts@), ' ') + "\n\n"@,
{
    let mut h = "#!".to_owned();
    h.append(env);
    h.append(" -S ");
    h.append(shell);
    h.append(" ");
    let opts = join_strings(shell_opts, ' ');
    h.append(opts.as_str());
    h.append("\n\n");
    h
}

/// The message given when the temporary source file cannot be written.
pub fn write_error_message(err: &str) -> (res: String)
    ensures
        res@ == "unable to write to temporary source file: "@ + err@,
{
    let mut m = "unable to write to temporary source file: ".to_owned();
    m.append(err);
    m
}

/// The message given when the built program or the script cannot be started.
pub fn spawn_error_message(err: &str) -> (res: String)
    ensures
        res@ == "couldn't spawn process: "@ + err@,
{
    let mut m = "couldn't spawn process: ".to_owned();
    m.append(err);
    m
}

/// What running the compiler decides: `spawned` is the compiler's exit
/// (whether it succeeded, and its standard error), or why it could not be
/// started. The program is run only after a successful build.
pub fn build_outcome(spawned: &Result<(bool, Vec<u8>), String>) -> (res: Result<(), String>)
    ensures
        match spawned {
            Err(e) => res matches Err(m) && m@ == "unable to execute compiler: "@ + e@,
            Ok((true, _)) => res is Ok,
            Ok((false, err)) => res matches Err(m) && m@ == "compilation failed:\n"@ + lossy_utf8(err@),
        },
{
    match spawned {
        Err(e) => {
            let mut m = "unable to execute compiler: ".to_owned();
            m.append(e.as_str());
            Err(m)
        },
        Ok((success, err)) => {
            if *success {
                Ok(())
            } else {
                let mut m = "compilation failed:\n".to_owned();
                let text = utf8_lossy(err);
                m.append(text.as_str());
                Err(m)
            }
        },
    }
}

/// The permission bits of a script once it is made executable: the owner's
/// execute bit is added and every other bit is kept.
pub fn executable_mode(mode: u32) -> (res: u32)
    ensures
        res == mode | 0o100u32,
{
    mode | 0o100
}

} // verus!
