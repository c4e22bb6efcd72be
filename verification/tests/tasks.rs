use zeros_tooling::options::XtaskGlobalOptions;
use zeros_tooling::tasks::{
    report_error, report_error_with_prefix, subproj_location, Subproject, XtaskClippyableSubproj,
    XtaskExpandableSubproj, XtaskFormattableSubproj,
};

fn globals(verbose: u8, quiet: u8) -> XtaskGlobalOptions {
    XtaskGlobalOptions { debug: false, verbose, quiet }
}

#[test]
fn subproject_locations() {
    assert_eq!(subproj_location("/repo", Subproject::Zeros), "/repo/zerOS");
    assert_eq!(subproj_location("/repo/", Subproject::GenerateTarget), "/repo/generate-target");
}

#[test]
fn formatting_commands() {
    let task = XtaskFormattableSubproj::MacroUtils { check: true, config: None };
    let cmd = task.execute(&globals(2, 0), "/repo", "/bin/cargo");
    assert_eq!(cmd.dir, "/repo/macro-utils");
    assert_eq!(cmd.program, "/bin/cargo");
    assert_eq!(cmd.args, vec!["fmt", "--verbose", "--verbose", "--check", "--", "--config-path", "/repo"]);
    let task = XtaskFormattableSubproj::Zeros { check: false, config: Some("/etc/rustfmt.toml".to_string()) };
    let cmd = task.execute(&globals(0, 3), "/repo", "cargo");
    assert_eq!(cmd.args, vec!["fmt", "--", "--config-path", "/etc/rustfmt.toml"]);
    assert!(cmd.env.is_empty());
}

#[test]
fn linting_and_expanding_commands() {
    let cmd = XtaskClippyableSubproj::UnwindTool.execute("/repo", "cargo");
    assert_eq!(cmd.dir, "/repo/unwindtool");
    assert_eq!(cmd.args, vec!["clippy"]);
    let task = XtaskExpandableSubproj::ProcMacroUtils { args: vec!["--lib".to_string(), "foo".to_string()] };
    let cmd = task.execute("/repo", "cargo");
    assert_eq!(cmd.dir, "/repo/proc-macro-utils");
    assert_eq!(cmd.args, vec!["expand", "--lib", "foo"]);
}

#[test]
fn error_reports() {
    let chain = vec!["top".to_string(), "middle".to_string(), "root".to_string()];
    assert_eq!(report_error(&chain, Some("failed")), "failed:\n\t0: top\n\t1: middle\n\t2: root");
    assert_eq!(report_error(&chain, None), "0: top\n1: middle\n2: root");
    assert_eq!(report_error(&vec!["only".to_string()], None), "0: only");
    assert_eq!(report_error_with_prefix("boom", "could not build"), "could not build: boom");
}
