use zeros_tooling::runnable::{
    build_command, build_outcome, executable_mode, executable_template, expansion, expansion_bytes, fill_template,
    make_tempfile_path, shell_header, source_template, spawn_error_message, words_of, write_error_message, Expansion,
    RunnableArgs, RunnableArgsError, RunnableExpandKind, RunnableLang, RunnableParam,
};

fn param(name: &str, group: Option<&str>) -> RunnableParam {
    RunnableParam { name: name.to_string(), group: group.map(str::to_string) }
}

#[test]
fn language_defaults() {
    assert!(matches!(RunnableLang::default_for("C"), Ok(RunnableLang::C { ref compiler, ref std, .. }) if compiler == "gcc" && std == "gnu23"));
    assert!(matches!(RunnableLang::default_for("CXX"), Ok(RunnableLang::Cxx { ref compiler, .. }) if compiler == "g++"));
    assert!(matches!(RunnableLang::default_for("RUST"), Ok(RunnableLang::Rust { ref compiler, .. }) if compiler == "rustc"));
    assert!(matches!(RunnableLang::default_for("SHELL"), Ok(RunnableLang::Shell { ref shell, .. }) if shell == "bash"));
    assert!(matches!(RunnableLang::default_for("COBOL"), Err(ref m) if m == "unknown language COBOL"));
    assert_eq!(RunnableLang::default_for("RUST").ok().unwrap().format_extension(), "rs");
}

#[test]
fn parameters_of_a_runnable_item() {
    let params = vec![
        param("cc_opts", Some("-O2 -Wall")),
        param("lang", Some("c")),
        param("std", Some("c11")),
        param("args", Some("one two")),
        param("expand", Some("stdout")),
    ];
    let parsed = RunnableArgs::parse(&params).ok().unwrap();
    assert!(matches!(parsed.expand, RunnableExpandKind::StdOut));
    assert_eq!(parsed.args, vec!["one", "two"]);
    match parsed.lang {
        RunnableLang::C { compiler, std, cc_opts } => {
            assert_eq!(compiler, "gcc");
            assert_eq!(std, "c11");
            assert_eq!(cc_opts, vec!["-O2", "-Wall"]);
        },
        _ => panic!("expected C"),
    }
}

#[test]
fn refused_parameters() {
    let dup = vec![param("expand", Some("output")), param("EXPAND", Some("stderr"))];
    assert!(matches!(RunnableArgs::parse(&dup), Err(RunnableArgsError::DuplicateExpand)));
    let missing = vec![param("lang", None)];
    assert!(matches!(RunnableArgs::parse(&missing), Err(RunnableArgsError::MissingGroup)));
    let unknown = vec![param("colour", Some("red"))];
    assert!(matches!(RunnableArgs::parse(&unknown), Err(RunnableArgsError::UnknownParameter(ref n)) if n == "colour"));
    let lang = vec![param("lang", Some("cobol"))];
    assert!(matches!(RunnableArgs::parse(&lang), Err(RunnableArgsError::UnknownLanguage(ref m)) if m == "unknown language COBOL"));
    let exp = vec![param("expand", Some("nothing"))];
    assert!(matches!(RunnableArgs::parse(&exp), Err(RunnableArgsError::UnknownExpandValue(ref v)) if v == "NOTHING"));
    let two_langs = vec![param("lang", Some("c")), param("language", Some("rust"))];
    assert!(matches!(RunnableArgs::parse(&two_langs), Err(RunnableArgsError::DuplicateLanguage)));
    let two_std = vec![param("std", Some("c11")), param("standard", Some("c17"))];
    assert!(matches!(RunnableArgs::parse(&two_std), Err(RunnableArgsError::DuplicateStandard)));
    let two_cc = vec![param("cc", Some("clang")), param("compiler", Some("gcc"))];
    assert!(matches!(RunnableArgs::parse(&two_cc), Err(RunnableArgsError::DuplicateCompiler(ref n)) if n == "compiler"));
}

#[test]
fn default_parameters_run_a_shell() {
    let parsed = RunnableArgs::parse(&vec![param("args", Some("x"))]).ok().unwrap();
    assert_eq!(parsed.args, vec!["x"]);
    assert!(matches!(parsed.expand, RunnableExpandKind::Output));
    assert!(matches!(parsed.lang, RunnableLang::Shell { ref shell, .. } if shell == "bash"));
}

#[test]
fn commands_and_expansions() {
    let lang = RunnableLang::Rust { compiler: "rustc".to_string(), rustc_opts: vec!["-O".to_string()] };
    let cmd = build_command(&lang, "a.rs", "a").unwrap();
    assert_eq!(cmd.program, "rustc");
    assert_eq!(cmd.args, vec!["a.rs", "-o", "a", "-O"]);
    let c = RunnableLang::C { compiler: "cc".to_string(), std: "c99".to_string(), cc_opts: vec![] };
    assert_eq!(build_command(&c, "a.c", "a").unwrap().args, vec!["-std=c99", "a.c", "-o", "a"]);
    let sh = RunnableLang::Shell { shell: "bash".to_string(), shell_opts: vec![] };
    assert!(build_command(&sh, "a.sh", "a").is_none());
    assert_eq!(expansion_bytes(RunnableExpandKind::Output, &b"out".to_vec(), &b"err".to_vec()), Some(b"errout".to_vec()));
    assert_eq!(expansion_bytes(RunnableExpandKind::StdErr, &b"out".to_vec(), &b"err".to_vec()), Some(b"err".to_vec()));
    assert_eq!(expansion_bytes(RunnableExpandKind::ExitCode, &vec![], &vec![]), None);
    assert_eq!(
        shell_header("/usr/bin/env", "bash", &vec!["-e".to_string(), "-u".to_string()]),
        "#!/usr/bin/env -S bash -e -u\n\n"
    );
    assert_eq!(source_template("c"), "proc-macro-utils/generated/runnable-XXXXXXXX.c");
    assert_eq!(executable_template(), "proc-macro-utils/generated/runnable-XXXXXXXX");
    assert_eq!(words_of("  a  b\tc "), vec!["a", "b", "c"]);
}

#[test]
fn temporary_paths_fill_the_placeholders() {
    let comps = vec!["gen".to_string(), "run-XXXX.c".to_string()];
    let p = make_tempfile_path("/tmp", &comps).unwrap();
    assert!(p.starts_with("/tmp/gen/run-"));
    assert!(p.ends_with(".c"));
    let middle = &p["/tmp/gen/run-".len()..p.len() - 2];
    assert_eq!(middle.len(), 4);
    assert!(middle.chars().all(|c| c.is_ascii_hexdigit() && !c.is_ascii_uppercase()));
    assert_ne!(middle, "XXXX");
}

#[test]
fn language_settings() {
    let mut lang = RunnableLang::default_for("C").ok().unwrap();
    lang.set_std(Some(&"c17".to_string())).set_cc_opts(&vec!["-g".to_string()]).set_compiler(Some(&"clang".to_string()));
    match lang {
        RunnableLang::C { compiler, std, cc_opts } => {
            assert_eq!(compiler, "clang");
            assert_eq!(std, "c17");
            assert_eq!(cc_opts, vec!["-g"]);
        },
        _ => panic!("expected C"),
    }
}

#[test]
fn expansions_of_a_finished_program() {
    let out = b"out".to_vec();
    let err = b"err".to_vec();
    assert!(matches!(expansion(Some(0), &out, &err, RunnableExpandKind::Output), Ok(Expansion::Str(ref t)) if t == "errout"));
    assert!(matches!(expansion(Some(0), &out, &err, RunnableExpandKind::StdOut), Ok(Expansion::Str(ref t)) if t == "out"));
    assert!(matches!(expansion(Some(0), &out, &err, RunnableExpandKind::StdErr), Ok(Expansion::Str(ref t)) if t == "err"));
    assert!(matches!(expansion(Some(3), &out, &err, RunnableExpandKind::ExitCode), Ok(Expansion::Int(3))));
    assert!(matches!(expansion(None, &out, &err, RunnableExpandKind::Output), Err(ref m) if m == "the process didn't terminate normally"));
    let bad = vec![b'a', 0xff, b'b'];
    assert!(matches!(expansion(Some(0), &bad, &vec![], RunnableExpandKind::StdOut), Ok(Expansion::Str(ref t)) if t == "a\u{fffd}b"));
}

#[test]
fn build_outcomes_and_messages() {
    assert!(build_outcome(&Ok((true, b"warning".to_vec()))).is_ok());
    assert_eq!(build_outcome(&Ok((false, b"bad code".to_vec()))), Err("compilation failed:\nbad code".to_string()));
    assert_eq!(build_outcome(&Err("not found".to_string())), Err("unable to execute compiler: not found".to_string()));
    assert_eq!(write_error_message("disk full"), "unable to write to temporary source file: disk full");
    assert_eq!(spawn_error_message("denied"), "couldn't spawn process: denied");
    assert_eq!(executable_mode(0o644), 0o744);
    assert_eq!(executable_mode(0o755), 0o755);
}

#[test]
fn templates_filled_from_given_numbers() {
    let comps = vec!["gen".to_string(), "run-XXXX.c".to_string()];
    assert_eq!(fill_template("/tmp", &comps, &vec![0xabcd, 7]), "/tmp/gen/run-dcba.c");
    let two = vec!["XX".to_string(), "X".to_string()];
    assert_eq!(fill_template("/t", &two, &vec![0x10, 0x2f]), "/t/01/f");
    assert_eq!(fill_template("/t", &vec!["plain".to_string()], &vec![5]), "/t/plain");
}

#[test]
fn language_may_stand_anywhere() {
    let later = vec![
        param("std", Some("c99")),
        param("cc", Some("clang")),
        param("lang", Some("C")),
        param("cc_opts", Some("-g")),
    ];
    let first = vec![
        param("lang", Some("C")),
        param("std", Some("c99")),
        param("cc", Some("clang")),
        param("cc_opts", Some("-g")),
    ];
    for params in [later, first] {
        match RunnableArgs::parse(&params).ok().unwrap().lang {
            RunnableLang::C { compiler, std, cc_opts } => {
                assert_eq!(compiler, "clang");
                assert_eq!(std, "c99");
                assert_eq!(cc_opts, vec!["-g"]);
            },
            _ => panic!("expected C"),
        }
    }
}

#[test]
fn parameter_order_does_not_matter() {
    let items = [
        ("expand", "stderr"),
        ("args", "a b"),
        ("compiler", "clang++"),
        ("cc_opts", "-O1 -g"),
        ("language", "cxx"),
        ("standard", "c++17"),
    ];
    let one: Vec<RunnableParam> = items.iter().map(|(n, g)| param(n, Some(g))).collect();
    let other: Vec<RunnableParam> = [3, 5, 0, 4, 1, 2].iter().map(|&i| param(items[i].0, Some(items[i].1))).collect();
    for params in [one, other] {
        let parsed = RunnableArgs::parse(&params).ok().unwrap();
        assert!(matches!(parsed.expand, RunnableExpandKind::StdErr));
        assert_eq!(parsed.args, vec!["a", "b"]);
        match parsed.lang {
            RunnableLang::Cxx { compiler, std, cc_opts } => {
                assert_eq!(compiler, "clang++");
                assert_eq!(std, "c++17");
                assert_eq!(cc_opts, vec!["-O1", "-g"]);
            },
            _ => panic!("expected C++"),
        }
    }
    let bad = vec![param("lang", Some("c")), param("colour", Some("red"))];
    let bad_swapped = vec![param("colour", Some("red")), param("lang", Some("c"))];
    assert!(RunnableArgs::parse(&bad).is_err() && RunnableArgs::parse(&bad_swapped).is_err());
}
