use zeros_tooling::term::{desktop_list_path, get_de, standard_list_path, DesktopEnv, TermListAction, TermListState};

#[test]
fn desktop_environments() {
    assert_eq!(DesktopEnv::from_str("KDE"), DesktopEnv::Kde);
    assert_eq!(DesktopEnv::from_str("Plasma"), DesktopEnv::Kde);
    assert_eq!(DesktopEnv::from_str("GNOME"), DesktopEnv::Gnome);
    assert_eq!(DesktopEnv::from_str("xfce"), DesktopEnv::Xfce);
    assert_eq!(DesktopEnv::from_str("sway"), DesktopEnv::Unknown);
    assert_eq!(get_de(None), DesktopEnv::Unknown);
    assert_eq!(get_de(Some("KDE")), DesktopEnv::Kde);
    assert_eq!(DesktopEnv::Kde.to_path_buf("/home/u/.config"), "/home/u/.config/KDE-xdg-terminals.list");
}

#[test]
fn walking_the_terminal_lists() {
    let mut state = TermListState::Start;
    assert!(matches!(state.next_step(), TermListAction::ReadStandardList));
    state.load_standard(vec!["  foot.desktop ".to_string()]);
    assert!(matches!(state.next_step(), TermListAction::Yield(ref t) if t == "foot.desktop"));
    assert!(matches!(state.next_step(), TermListAction::ReadDesktopList));
    state.load_desktop(DesktopEnv::Kde, vec!["konsole.desktop".to_string(), "\txterm ".to_string()]);
    assert!(matches!(state.next_step(), TermListAction::Yield(ref t) if t == "konsole.desktop"));
    assert!(matches!(state.next_step(), TermListAction::Yield(ref t) if t == "xterm"));
    assert!(matches!(state.next_step(), TermListAction::PredefinedUnsupported));
    assert!(matches!(state, TermListState::Predefined(0, _)));
}

#[test]
fn lists_read_for_each_desktop() {
    assert_eq!(standard_list_path("/home/u/.config"), "/home/u/.config/xdg-terminals.list");
    assert_eq!(desktop_list_path(DesktopEnv::Kde, "/home/u/.config"), Some("/home/u/.config/KDE-xdg-terminals.list".to_string()));
    assert_eq!(desktop_list_path(DesktopEnv::Unknown, "/home/u/.config"), None);
    let mut state = TermListState::Standard(vec![]);
    assert!(matches!(state.next_step(), TermListAction::ReadDesktopList));
    state.load_desktop(DesktopEnv::Unknown, vec![]);
    assert!(matches!(state.next_step(), TermListAction::PredefinedUnsupported));
}
