use zeros_tooling::target_spec::{
    amd64_base_template, find_ascii_case_insensitive, gen_x86_64, load_template, template_source, ArchitectureOptions, CodeModel,
    Config, Endian, FramePointer, JsonEntry, JsonSource, RelocModel, ResultTargetSpec, RustcAbi, TargetJson, TargetValue,
};

fn str_of(doc: &TargetJson, key: &str) -> Option<String> {
    match doc {
        TargetJson::Object(es) => es.iter().find(|e| e.key == key).and_then(|e| match &e.value {
            TargetValue::Str(s) => Some(s.clone()),
            _ => None,
        }),
        TargetJson::Scalar(_) => None,
    }
}

fn options(cpu: &str) -> ArchitectureOptions {
    ArchitectureOptions {
        cpu: cpu.to_string(),
        frame_pointer: FramePointer::Always,
        endian: Some(Endian::Little),
        pointer_width: Some(64),
        int_width: None,
        data_layout: None,
        linker: None,
        linker_flavor: None,
        features: Some("+sse".to_string()),
        reloc_model: RelocModel::Static,
        code_model: CodeModel::Kernel,
        abi: None,
        llvm_abiname: None,
        llvm_floatabi: None,
        rustc_abi: None,
        entry_abi: None,
    }
}

#[test]
fn base_specifications() {
    let kernel = amd64_base_template(Config::Kernel);
    assert_eq!(str_of(&kernel, "llvm-target").as_deref(), Some("x86_64-unknown-none"));
    assert_eq!(str_of(&kernel, "cpu").as_deref(), Some("generic"));
    assert_eq!(str_of(&kernel, "features"), None);
    let init = amd64_base_template(Config::Init);
    assert_eq!(str_of(&init, "rustc-abi").as_deref(), Some("x86-softfloat"));
    assert!(str_of(&init, "features").unwrap().contains("+soft-float"));
}

#[test]
fn updates_from_the_base() {
    let mut spec = ResultTargetSpec { json: amd64_base_template(Config::Kernel), json_source: JsonSource::FromBase };
    let changed = spec.generate_amd64(&options("skylake"));
    assert_eq!(str_of(&spec.json, "cpu").as_deref(), Some("skylake"));
    assert_eq!(str_of(&spec.json, "frame-pointer").as_deref(), Some("always"));
    assert_eq!(str_of(&spec.json, "features").as_deref(), Some("+sse"));
    assert_eq!(changed, 3);
    assert!(!spec.maybe_update("cpu", "skylake"));
    assert!(spec.maybe_update("cpu", "znver4"));
}

#[test]
fn templates_guard_their_keys() {
    let doc = TargetJson::Object(vec![
        JsonEntry { key: "cpu".to_string(), value: TargetValue::Str("generic".to_string()) },
        JsonEntry { key: "os".to_string(), value: TargetValue::Str("none".to_string()) },
    ]);
    let mut spec = ResultTargetSpec { json: doc, json_source: template_source(Some("os")) };
    assert!(!spec.maybe_update("cpu", "native"));
    assert_eq!(str_of(&spec.json, "cpu").as_deref(), Some("generic"));
    assert!(spec.maybe_update("os", "zeros"));
    assert!(spec.maybe_update("linker", "ld"));
    assert_eq!(str_of(&spec.json, "linker").as_deref(), Some("ld"));
    let mut any = ResultTargetSpec {
        json: TargetJson::Scalar(TargetValue::Null),
        json_source: template_source(Some("cpu,EveryThing")),
    };
    assert!(any.maybe_update("cpu", "native"));
    assert_eq!(str_of(&any.json, "cpu").as_deref(), Some("native"));
}

#[test]
fn override_lists() {
    assert!(matches!(template_source(None), JsonSource::FromTemplate(ref k, false) if k.is_empty()));
    assert!(matches!(template_source(Some("a,b")), JsonSource::FromTemplate(ref k, false) if k == &vec!["a".to_string(), "b".to_string()]));
    assert!(matches!(template_source(Some("ALL")), JsonSource::FromTemplate(_, true)));
    let hay = vec!["Foo".to_string(), "bar".to_string(), "BAR".to_string()];
    assert_eq!(find_ascii_case_insensitive(&hay, "bAr"), Some(1));
    assert_eq!(find_ascii_case_insensitive(&hay, "baz"), None);
}

#[test]
fn older_x86_64_target() {
    let t = gen_x86_64();
    assert_eq!(t.llvm_target, "x86_64-unknown-none");
    assert_eq!(t.pointer_width, 64);
    assert_eq!(t.endian, Endian::Little);
    assert_eq!(t.os, "none");
    assert_eq!(t.env, "");
    assert_eq!(t.vendor, "unknown");
    assert_eq!(t.linker.as_deref(), Some("rust-lld"));
    assert_eq!(t.linker_flavor.as_deref(), Some("gnu-lld"));
    assert_eq!(t.features, "-mmx,-sse,-sse2,-sse3,-ssse3,-sse4.1,-sse4.2,-avx,-avx2,+soft-float");
    assert!(!t.dynamic_linking && t.executables && t.disable_redzone && t.no_default_libraries);
    assert!(!t.has_rpath && !t.position_independent_executables);
    assert_eq!(t.relocation_model, RelocModel::Static);
    assert_eq!(t.code_model, Some(CodeModel::Kernel));
    assert_eq!(t.frame_pointer, FramePointer::Always);
    assert_eq!(t.exe_suffix, "");
    assert_eq!(t.rustc_abi, Some(RustcAbi::X86Softfloat));
    assert_eq!(FramePointer::NonLeaf.as_str(), "non-leaf");
    assert_eq!(RelocModel::DynamicNoPic.as_str(), "dynamic-no-pic");
}

#[test]
fn templates_are_read_and_written_as_json() {
    let text = r#"{"cpu": "generic", "max-atomic-width": 64, "pre-link-args": ["-x"], "static": true, "abi": null}"#;
    let mut spec = load_template(text, Some("cpu")).ok().unwrap();
    match &spec.json {
        TargetJson::Object(es) => {
            let keys: Vec<&str> = es.iter().map(|e| e.key.as_str()).collect();
            assert_eq!(keys, vec!["cpu", "max-atomic-width", "pre-link-args", "static", "abi"]);
            assert!(matches!(es[0].value, TargetValue::Str(ref s) if s == "generic"));
            assert!(matches!(es[1].value, TargetValue::Raw(ref s) if s == "64"));
            assert!(matches!(es[2].value, TargetValue::Raw(ref s) if s == "[\"-x\"]"));
            assert!(matches!(es[3].value, TargetValue::Bool(true)));
            assert!(matches!(es[4].value, TargetValue::Null));
        },
        _ => panic!("expected an object"),
    }
    assert!(matches!(spec.json_source, JsonSource::FromTemplate(ref keys, false) if keys == &vec!["cpu".to_string()]));
    assert!(spec.maybe_update("cpu", "native"));
    let out = spec.render().ok().unwrap();
    assert_eq!(
        out,
        "{\n    \"cpu\": \"native\",\n    \"max-atomic-width\": 64,\n    \"pre-link-args\": [\n        \"-x\"\n    ],\n    \"static\": true,\n    \"abi\": null\n}"
    );
    assert!(load_template("{\"os\": ", None).is_err());
    let scalar = load_template("3", None).ok().unwrap();
    assert!(matches!(scalar.json, TargetJson::Scalar(TargetValue::Raw(ref s)) if s == "3"));
}
