//! Finding the user's preferred terminal emulators: the desktop
//! environment, and the walk through the lists of preferred terminals.

use vstd::prelude::*;
use crate::text::{chars_of, joined_path, path_join, str_eq, string_of, to_lowercase, trim_chars, trimmed, unicode_lower};

verus! {

/// A desktop environment.
#[derive(Clone, Copy, PartialEq, Eq, Debug, Structural)]
pub enum DesktopEnv {
    Unknown,
    Kde,
    Gnome,
    Xfce,
}

/// The desktop environment that a lowercased name stands for.
pub open spec fn desktop_named(lower: Seq<char>) -> DesktopEnv {
    if lower == "kde"@ || lower == "plasma"@ {
        DesktopEnv::Kde
    } else if lower == "gnome"@ {
        DesktopEnv::Gnome
    } else if lower == "xfce"@ {
        DesktopEnv::Xfce
    } else {
        DesktopEnv::Unknown
    }
}

impl DesktopEnv {
    /// The desktop environment a name stands for, whatever its case:
    /// `kde` or `plasma`, `gnome`, `xfce`; any other name is unknown.
    pub fn from_str(s: &str) -> (res: DesktopEnv)
        ensures
            res == desktop_named(unicode_lower(s@)),
    {
        let lower = to_lowercase(s);
        let l = lower.as_str();
        if str_eq(l, "kde") || str_eq(l, "plasma") {
            DesktopEnv::Kde
        } else if str_eq(l, "gnome") {
            DesktopEnv::Gnome
        } else if str_eq(l, "xfce") {
            DesktopEnv::Xfce
        } else {
            DesktopEnv::Unknown
        }
    }

    /// The desktop environment's own list of preferred terminals under the
    /// configuration directory; only KDE's is known.
    pub fn to_path_buf(&self, base: &str) -> (res: String)
        requires
            *self == DesktopEnv::Kde,
        ensures
            res@ == joined_path(base@, "KDE-xdg-terminals.list"@),
    {
        path_join(base, "KDE-xdg-terminals.list")
    }
}

/// The desktop environment named by `XDG_CURRENT_DESKTOP`, given its value;
/// unknown where it is not set.
pub fn get_de(current_desktop: Option<&str>) -> (res: DesktopEnv)
    ensures
        res == match current_desktop {
            Some(s) => desktop_named(unicode_lower(s@)),
            None => DesktopEnv::Unknown,
        },
{
    match current_desktop {
        Some(s) => DesktopEnv::from_str(s),
        None => DesktopEnv::Unknown,
    }
}

/// The standard list of preferred terminals under the configuration directory.
pub fn standard_list_path(cfgdir: &str) -> (res: String)
    ensures
        res@ == joined_path(cfgdir@, "xdg-terminals.list"@),
{
    path_join(cfgdir, "xdg-terminals.list")
}

/// The list that is read once the standard list is used up: KDE's own list
/// under the configuration directory, and none for an unknown desktop
/// environment. GNOME and Xfce have no known list.
pub fn desktop_list_path(de: DesktopEnv, cfgdir: &str) -> (res: Option<String>)
    requires
        de == DesktopEnv::Kde || de == DesktopEnv::Unknown,
    ensures
        de == DesktopEnv::Kde ==> (res matches Some(p) && p@ == joined_path(cfgdir@, "KDE-xdg-terminals.list"@)),
        de == DesktopEnv::Unknown ==> res is None,
{
    match de {
        DesktopEnv::Kde => Some(de.to_path_buf(cfgdir)),
        _ => None,
    }
}

/// Where the walk through the preferred terminals stands.
pub enum TermListState {
    /// Nothing read yet.
    Start,
    /// The lines left of the standard list.
    Standard(Vec<String>),
    /// The lines left of the desktop environment's own list.
    DeSpecific(DesktopEnv, Vec<String>),
    /// The built-in list, from a position.
    Predefined(usize, Vec<String>),
}

/// What the walk needs next.
pub enum TermListAction {
    /// The next preferred terminal.
    Yield(String),
    /// The lines of the standard list (see [`standard_list_path`]), or none
    /// where it cannot be read.
    ReadStandardList,
    /// The desktop environment, and the lines of the list that
    /// [`desktop_list_path`] gives for it, or none where it gives none or the
    /// list cannot be read.
    ReadDesktopList,
    /// The built-in list, which is not supported.
    PredefinedUnsupported,
}

impl TermListState {
    /// Hands the lines of the standard list to the walk.
    pub fn load_standard(&mut self, lines: Vec<String>)
        ensures
            *final(self) == TermListState::Standard(lines),
    {
        *self = TermListState::Standard(lines);
    }

    /// Hands the desktop environment and the lines of its list to the walk:
    /// KDE's own list, or no lines for an unknown environment.
    pub fn load_desktop(&mut self, de: DesktopEnv, lines: Vec<String>)
        requires
            de == DesktopEnv::Kde || de == DesktopEnv::Unknown,
            de == DesktopEnv::Unknown ==> lines@.len() == 0,
        ensures
            *final(self) == TermListState::DeSpecific(de, lines),
    {
        *self = TermListState::DeSpecific(de, lines);
    }

    /// One step of the walk: the next line of the current list, trimmed of
    /// white space, or what is needed to go on.
    pub fn next_step(&mut self) -> (res: TermListAction)
        ensures
            match *old(self) {
                TermListState::Start => res is ReadStandardList && *final(self) == *old(self),
                TermListState::Standard(lines) => if lines@.len() > 0 {
                    (res matches TermListAction::Yield(t) && t@ == trimmed(lines@[0]@))
                        && (*final(self) matches TermListState::Standard(rest) && rest@ == lines@.drop_first())
                } else {
                    res is ReadDesktopList && *final(self) == *old(self)
                },
                TermListState::DeSpecific(de, lines) => if lines@.len() > 0 {
                    (res matches TermListAction::Yield(t) && t@ == trimmed(lines@[0]@))
                        && (*final(self) matches TermListState::DeSpecific(d, rest) && d == de && rest@
                        == lines@.drop_first())
                } else {
                    res is PredefinedUnsupported && (*final(self) matches TermListState::Predefined(i, l) && i
                        == 0 && l@.len() == 0)
                },
                TermListState::Predefined(_, _) => res is PredefinedUnsupported && *final(self) == *old(self),
            },
    {
        match self {
            TermListState::Start => TermListAction::ReadStandardList,
            TermListState::Standard(lines) => {
                if lines.len() > 0 {
                    let first = lines.remove(0);
                    TermListAction::Yield(string_of(&trim_chars(&chars_of(first.as_str()))))
                } else {
                    TermListAction::ReadDesktopList
                }
            },
            TermListState::DeSpecific(_, lines) => {
                if lines.len() > 0 {
                    let first = lines.remove(0);
                    TermListAction::Yield(string_of(&trim_chars(&chars_of(first.as_str()))))
                } else {
                    *self = TermListState::Predefined(0, Vec::new());
                    TermListAction::PredefinedUnsupported
                }
            },
            TermListState::Predefined(_, _) => TermListAction::PredefinedUnsupported,
        }
    }
}

} // verus!
