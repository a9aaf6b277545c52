use cargo_wizard::dialog::{
    is_builtin_profile, item_description, item_row_label, kind_name, on_template_applied,
    pad_left, pad_right, parse_value, profile_from_str, starting_cursor, validate_custom_value,
    template_requires_nightly,
};
use cargo_wizard::known_options::{
    KnownCargoOptions, SelectedPossibleValue, TomlValueKind,
};
use cargo_wizard::template::{dev_profile, release_profile};
use cargo_wizard::{
    fast_compile_template, fast_runtime_template, min_size_template, BuildEnvironment,
    BuiltinProfile, CompilerInfo, PredefinedTemplateKind, Profile, Template, TemplateBuilder,
    TemplateItemId, TomlValue, WizardOptions,
};

fn options() -> KnownCargoOptions {
    KnownCargoOptions::create(12, vec!["native".to_string(), "skylake".to_string()])
}

fn compiler(major: u64, minor: u64, patch: u64, prerelease: bool, host: &str) -> CompilerInfo {
    CompilerInfo { major, minor, patch, prerelease, host: host.to_string() }
}

fn environment(unix: bool, compiler: Option<CompilerInfo>) -> BuildEnvironment {
    BuildEnvironment { unix, compiler, core_count: 12 }
}

fn items(template: &Template) -> Vec<(TemplateItemId, TomlValue)> {
    template.iter_items()
}

fn lines(options: &KnownCargoOptions, kind: PredefinedTemplateKind, template: &Template, profile: &Profile) -> Vec<String> {
    on_template_applied(options, kind, template, profile)
        .iter()
        .map(|line| line.iter().map(|span| span.text.as_str()).collect::<String>())
        .collect()
}

#[test]
fn create_fast_compile_template() {
    let template = fast_compile_template(&WizardOptions::default(), &environment(true, None));
    assert_eq!(
        items(&template),
        [
            (TemplateItemId::DebugInfo, TomlValue::Int(0)),
            (TemplateItemId::Linker, TomlValue::String("lld".to_string())),
        ]
    );
    assert_eq!(template.inherits(), BuiltinProfile::Dev);
}

#[test]
fn create_fast_runtime_template() {
    let template = fast_runtime_template();
    assert_eq!(
        items(&template),
        [
            (TemplateItemId::Lto, TomlValue::Bool(true)),
            (TemplateItemId::CodegenUnits, TomlValue::Int(1)),
            (TemplateItemId::Panic, TomlValue::String("abort".to_string())),
            (TemplateItemId::TargetCpuInstructionSet, TomlValue::String("native".to_string())),
        ]
    );
    assert_eq!(template.inherits(), BuiltinProfile::Release);
}

#[test]
fn create_min_size_template() {
    let template = min_size_template();
    assert_eq!(
        items(&template),
        [
            (TemplateItemId::DebugInfo, TomlValue::Int(0)),
            (TemplateItemId::Strip, TomlValue::Bool(true)),
            (TemplateItemId::Lto, TomlValue::Bool(true)),
            (TemplateItemId::OptimizationLevel, TomlValue::String("z".to_string())),
            (TemplateItemId::CodegenUnits, TomlValue::Int(1)),
            (TemplateItemId::Panic, TomlValue::String("abort".to_string())),
        ]
    );
    assert_eq!(template.inherits(), BuiltinProfile::Release);
}

#[test]
fn nightly_adds_backend_and_threads_to_fast_compilation() {
    let nightly = WizardOptions::default().with_nightly_items();
    assert!(nightly.nightly_items_enabled());
    assert!(!WizardOptions::default().nightly_items_enabled());
    let template = fast_compile_template(&nightly, &environment(false, None));
    assert_eq!(
        items(&template),
        [
            (TemplateItemId::DebugInfo, TomlValue::Int(0)),
            (TemplateItemId::CodegenBackend, TomlValue::String("cranelift".to_string())),
            (TemplateItemId::FrontendThreads, TomlValue::Int(12)),
        ]
    );
}

#[test]
fn lld_is_asked_for_where_the_compiler_does_not_use_it_by_itself() {
    let linux = "x86_64-unknown-linux-gnu";
    let wants = |unix: bool, compiler: Option<CompilerInfo>| {
        let template = fast_compile_template(&WizardOptions::default(), &environment(unix, compiler));
        template.get_item(TemplateItemId::Linker).is_some()
    };
    assert!(wants(true, None));
    assert!(!wants(false, None));
    assert!(wants(true, Some(compiler(1, 89, 0, false, linux))));
    assert!(!wants(true, Some(compiler(1, 90, 0, false, linux))));
    assert!(wants(true, Some(compiler(1, 90, 0, true, linux))));
    assert!(!wants(true, Some(compiler(1, 90, 1, true, linux))));
    assert!(!wants(true, Some(compiler(2, 0, 0, false, linux))));
    assert!(wants(true, Some(compiler(0, 99, 0, false, linux))));
    assert!(wants(true, Some(compiler(1, 95, 0, false, "aarch64-unknown-linux-gnu"))));
    assert!(!wants(true, Some(compiler(1, 70, 0, false, "aarch64-apple-darwin"))));
    assert!(!wants(false, Some(compiler(1, 70, 0, false, linux))));
}

#[test]
fn kinds_build_their_templates() {
    let options = WizardOptions::default();
    let environment = environment(false, None);
    let built = PredefinedTemplateKind::MinSize.build_template(&options, &environment);
    assert_eq!(items(&built), items(&min_size_template()));
    let built = PredefinedTemplateKind::FastRuntime.build_template(&options, &environment);
    assert_eq!(items(&built), items(&fast_runtime_template()));
    let built = PredefinedTemplateKind::FastCompile.build_template(&options, &environment);
    assert_eq!(items(&built), [(TemplateItemId::DebugInfo, TomlValue::Int(0))]);
    assert_eq!(PredefinedTemplateKind::FastCompile.name(), "FastCompile");
    assert_eq!(PredefinedTemplateKind::FastRuntime.name(), "FastRuntime");
    assert_eq!(PredefinedTemplateKind::MinSize.name(), "MinSize");
}

#[test]
fn defaults_of_the_builtin_profiles() {
    assert_eq!(
        items(&dev_profile().build()),
        [
            (TemplateItemId::OptimizationLevel, TomlValue::Int(0)),
            (TemplateItemId::DebugInfo, TomlValue::Bool(true)),
            (TemplateItemId::Strip, TomlValue::String("none".to_string())),
            (TemplateItemId::Lto, TomlValue::Bool(false)),
            (TemplateItemId::CodegenUnits, TomlValue::Int(256)),
            (TemplateItemId::Incremental, TomlValue::Bool(true)),
        ]
    );
    assert_eq!(
        items(&release_profile().build()),
        [
            (TemplateItemId::OptimizationLevel, TomlValue::Int(3)),
            (TemplateItemId::DebugInfo, TomlValue::Bool(false)),
            (TemplateItemId::Strip, TomlValue::String("none".to_string())),
            (TemplateItemId::Lto, TomlValue::Bool(false)),
            (TemplateItemId::CodegenUnits, TomlValue::Int(16)),
            (TemplateItemId::Incremental, TomlValue::Bool(false)),
        ]
    );
}

#[test]
fn template_keeps_one_value_for_an_item_in_the_place_of_the_first() {
    let mut template = TemplateBuilder::new(BuiltinProfile::Dev)
        .item(TemplateItemId::Lto, TomlValue::bool(false))
        .item(TemplateItemId::Panic, TomlValue::string("abort"))
        .item(TemplateItemId::Lto, TomlValue::string("thin"))
        .build();
    assert_eq!(
        items(&template),
        [
            (TemplateItemId::Lto, TomlValue::String("thin".to_string())),
            (TemplateItemId::Panic, TomlValue::String("abort".to_string())),
        ]
    );
    assert_eq!(template.get_item(TemplateItemId::Lto), Some(&TomlValue::String("thin".to_string())));
    assert_eq!(template.get_item(TemplateItemId::Strip), None);
    template.insert_item(TemplateItemId::Strip, TomlValue::bool(true));
    template.insert_item(TemplateItemId::Panic, TomlValue::string("unwind"));
    template.remove_item(TemplateItemId::Lto);
    template.remove_item(TemplateItemId::CodegenUnits);
    assert_eq!(
        items(&template),
        [
            (TemplateItemId::Panic, TomlValue::String("unwind".to_string())),
            (TemplateItemId::Strip, TomlValue::Bool(true)),
        ]
    );
}

#[test]
fn values_of_different_kinds_are_never_equal() {
    assert_ne!(TomlValue::integer(1), TomlValue::bool(true));
    assert_ne!(TomlValue::integer(0), TomlValue::string("0"));
    assert_ne!(TomlValue::bool(true), TomlValue::string("true"));
    assert_eq!(TomlValue::string("a"), TomlValue::String("a".to_string()));
    assert_eq!(TomlValue::integer(5).duplicate(), TomlValue::Int(5));
}

#[test]
fn values_are_written_in_the_form_of_the_writer() {
    assert_eq!(TomlValue::integer(-7).to_toml_value().to_string(), "-7");
    assert_eq!(TomlValue::bool(true).to_toml_value().to_string(), "true");
    assert_eq!(TomlValue::string("abort").to_toml_value().to_string(), "\"abort\"");
}

#[test]
fn metadata_tells_what_needs_nightly() {
    let options = options();
    for id in KnownCargoOptions::get_all_ids() {
        let nightly = matches!(id, TemplateItemId::CodegenBackend | TemplateItemId::FrontendThreads);
        assert_eq!(options.get_metadata(id).requires_nightly(), nightly);
    }
    assert!(!options.get_metadata(TemplateItemId::Incremental).requires_nightly());
    assert!(options.get_metadata(TemplateItemId::SplitDebugInfo).get_possible_values().is_empty());
}

#[test]
fn items_are_shown_in_a_fixed_order() {
    assert_eq!(
        KnownCargoOptions::get_all_ids(),
        [
            TemplateItemId::OptimizationLevel,
            TemplateItemId::Lto,
            TemplateItemId::CodegenUnits,
            TemplateItemId::TargetCpuInstructionSet,
            TemplateItemId::Panic,
            TemplateItemId::DebugInfo,
            TemplateItemId::Strip,
            TemplateItemId::Linker,
            TemplateItemId::CodegenBackend,
            TemplateItemId::FrontendThreads,
        ]
    );
}

#[test]
fn offered_values_come_with_their_descriptions() {
    let options = options();
    let panic = options.get_metadata(TemplateItemId::Panic);
    let offered: Vec<(&str, &TomlValue)> =
        panic.get_possible_values().iter().map(|v| (v.description(), v.value())).collect();
    assert_eq!(
        offered,
        [
            ("Unwind", &TomlValue::String("unwind".to_string())),
            ("Abort", &TomlValue::String("abort".to_string())),
        ]
    );
    assert!(panic.get_custom_value().is_none());
    let threads = options.get_metadata(TemplateItemId::FrontendThreads);
    let offered = threads.get_possible_values();
    assert_eq!(offered.len(), 1);
    assert_eq!(offered[0].description(), "12 (local core count)");
    assert_eq!(offered[0].value(), &TomlValue::Int(12));
    let cpu = options.get_metadata(TemplateItemId::TargetCpuInstructionSet);
    let custom = cpu.get_custom_value().unwrap();
    assert_eq!(custom.kind(), TomlValueKind::String);
    assert_eq!(custom.possible_entries(), ["native", "skylake"]);
    let units = options.get_metadata(TemplateItemId::CodegenUnits);
    let custom = units.get_custom_value().unwrap();
    assert_eq!(custom.kind(), TomlValueKind::Int);
    assert!(custom.possible_entries().is_empty());
}

#[test]
fn selected_value_is_found_among_the_offered_ones() {
    let options = options();
    let lto = options.get_metadata(TemplateItemId::Lto);
    assert!(matches!(
        lto.get_selected_value(TomlValue::bool(true)),
        SelectedPossibleValue::Constant { index: 3, value: TomlValue::Bool(true) }
    ));
    assert!(matches!(
        lto.get_selected_value(TomlValue::string("off")),
        SelectedPossibleValue::Constant { index: 0, .. }
    ));
    assert!(matches!(
        lto.get_selected_value(TomlValue::string("fat")),
        SelectedPossibleValue::Unmatched
    ));
    let units = options.get_metadata(TemplateItemId::CodegenUnits);
    assert!(matches!(
        units.get_selected_value(TomlValue::integer(1)),
        SelectedPossibleValue::Constant { index: 0, .. }
    ));
    assert!(matches!(
        units.get_selected_value(TomlValue::integer(7)),
        SelectedPossibleValue::Custom { value: TomlValue::Int(7) }
    ));
    assert!(matches!(
        units.get_selected_value(TomlValue::string("7")),
        SelectedPossibleValue::Unmatched
    ));
}

#[test]
fn kinds_match_values_of_their_kind_only() {
    assert!(TomlValueKind::Int.matches_value(&TomlValue::integer(3)));
    assert!(!TomlValueKind::Int.matches_value(&TomlValue::string("3")));
    assert!(!TomlValueKind::Int.matches_value(&TomlValue::bool(true)));
    assert!(TomlValueKind::String.matches_value(&TomlValue::string("3")));
    assert!(!TomlValueKind::String.matches_value(&TomlValue::integer(3)));
    assert!(!TomlValueKind::String.matches_value(&TomlValue::bool(false)));
    assert_eq!(kind_name(TomlValueKind::Int), "int");
    assert_eq!(kind_name(TomlValueKind::String), "string");
}

#[test]
fn list_of_values_opens_on_the_value_that_is_held() {
    let options = options();
    let units = options.get_metadata(TemplateItemId::CodegenUnits);
    let constant = units.get_selected_value(TomlValue::integer(1));
    assert_eq!(starting_cursor(&units, &constant, true), Some(0));
    let custom = units.get_selected_value(TomlValue::integer(9));
    assert_eq!(starting_cursor(&units, &custom, true), Some(1));
    // one offered value, the custom row, then "go back"
    assert_eq!(starting_cursor(&units, &SelectedPossibleValue::Unmatched, false), Some(2));
    // with a value that is none of these there is also a row that unsets it
    assert_eq!(starting_cursor(&units, &SelectedPossibleValue::Unmatched, true), Some(3));
    let panic = options.get_metadata(TemplateItemId::Panic);
    assert_eq!(starting_cursor(&panic, &SelectedPossibleValue::Unmatched, false), Some(2));
}

#[test]
fn profile_names_are_read() {
    assert!(matches!(profile_from_str("dev"), Ok(Profile::Builtin(BuiltinProfile::Dev))));
    assert!(matches!(profile_from_str("release"), Ok(Profile::Builtin(BuiltinProfile::Release))));
    assert!(matches!(profile_from_str("Dev"), Ok(Profile::Custom(name)) if name == "Dev"));
    assert_eq!(profile_from_str("").unwrap_err(), "Profile cannot be empty");
    assert!(is_builtin_profile("dev"));
    assert!(is_builtin_profile("release"));
    assert!(!is_builtin_profile("debug"));
    assert!(!is_builtin_profile(""));
    assert_eq!(Profile::dev().name(), "dev");
    assert_eq!(Profile::release().name(), "release");
    assert_eq!(Profile::Custom("x".to_string()).name(), "x");
    assert!(Profile::dev().is_builtin());
    assert!(!Profile::Custom("dev".to_string()).is_builtin());
    assert_eq!(BuiltinProfile::Dev.name(), "dev");
    assert_eq!(BuiltinProfile::Release.name(), "release");
}

#[test]
fn entered_values_are_read() {
    assert_eq!(parse_value("true"), Ok(TomlValue::Bool(true)));
    assert_eq!(parse_value("false"), Ok(TomlValue::Bool(false)));
    assert_eq!(parse_value("True"), Ok(TomlValue::String("True".to_string())));
    assert_eq!(parse_value("42"), Ok(TomlValue::Int(42)));
    assert_eq!(parse_value("+42"), Ok(TomlValue::Int(42)));
    assert_eq!(parse_value("-42"), Ok(TomlValue::Int(-42)));
    assert_eq!(parse_value("4 2"), Ok(TomlValue::String("4 2".to_string())));
    assert_eq!(parse_value("native"), Ok(TomlValue::String("native".to_string())));
    assert_eq!(parse_value(""), Err("Value must not be empty"));
}

#[test]
fn entered_values_of_the_wrong_kind_are_refused() {
    assert_eq!(validate_custom_value(TomlValueKind::Int, "16"), Ok(()));
    assert_eq!(validate_custom_value(TomlValueKind::String, "znver4"), Ok(()));
    assert_eq!(
        validate_custom_value(TomlValueKind::Int, "many"),
        Err("Invalid TOML type, expected `int`, got string".to_string())
    );
    assert_eq!(
        validate_custom_value(TomlValueKind::Int, "true"),
        Err("Invalid TOML type, expected `int`, got bool".to_string())
    );
    assert_eq!(
        validate_custom_value(TomlValueKind::String, "3"),
        Err("Invalid TOML type, expected `string`, got int".to_string())
    );
    assert_eq!(
        validate_custom_value(TomlValueKind::String, ""),
        Err("Value must not be empty".to_string())
    );
}

#[test]
fn rows_show_description_mark_and_value() {
    let options = options();
    let template = fast_runtime_template();
    let row = |id: TemplateItemId| item_row_label(id, &options.get_metadata(id), &template);
    assert_eq!(row(TemplateItemId::Lto), "Link-time optimizations           [true]");
    assert_eq!(row(TemplateItemId::CodegenUnits), "Number of codegen units (CGUs)       [1]");
    assert_eq!(row(TemplateItemId::Panic), "Panic handling mechanism         [abort]");
    assert_eq!(row(TemplateItemId::CodegenBackend), "Codegen backend *                      -");
    assert_eq!(row(TemplateItemId::Strip), "Strip symbols                          -");
    let long = TemplateBuilder::new(BuiltinProfile::Dev)
        .item(TemplateItemId::TargetCpuInstructionSet, TomlValue::string("x86-64-v3"))
        .build();
    let id = TemplateItemId::TargetCpuInstructionSet;
    assert_eq!(
        item_row_label(id, &options.get_metadata(id), &long),
        "Target CPU instruction set    [x86-64-v3]"
    );
    assert_eq!(item_description(TemplateItemId::Incremental), "Incremental compilation");
    assert_eq!(item_description(TemplateItemId::SplitDebugInfo), "Split debug info");
}

#[test]
fn texts_are_padded_to_a_width() {
    assert_eq!(pad_right("ab", 4), "ab  ");
    assert_eq!(pad_right("abcd", 4), "abcd");
    assert_eq!(pad_right("abcde", 4), "abcde");
    assert_eq!(pad_right("é", 3), "é  ");
    assert_eq!(pad_left("ab", 4), "  ab");
    assert_eq!(pad_left("abcde", 4), "abcde");
    assert_eq!(pad_left("", 2), "  ");
}

#[test]
fn report_for_the_dev_profile_has_no_reminder() {
    let template = fast_compile_template(&WizardOptions::default(), &environment(false, None));
    let report = lines(&options(), PredefinedTemplateKind::FastCompile, &template, &Profile::dev());
    assert_eq!(
        report,
        [
            "\u{2705} Template FastCompile applied to profile dev.",
            "Tip: run `cargo-wizard` with the `--nightly` flag to discover nightly-only configuration options.",
            "Tip: find more information at https://nnethercote.github.io/perf-book/build-configuration.html.",
        ]
    );
}

#[test]
fn report_for_a_custom_profile_names_the_flag() {
    let template = fast_runtime_template();
    let profile = Profile::Custom("fast".to_string());
    let report = lines(&options(), PredefinedTemplateKind::FastRuntime, &template, &profile);
    assert_eq!(
        report,
        [
            "\u{2705} Template FastRuntime applied to profile fast.",
            "\u{26a0}\u{fe0f}  Do not forget to run `cargo <cmd> --profile=fast` to use the selected profile.",
            "Tip: consider using the cargo-pgo subcommand to further optimize your binary.",
            "Tip: find more information at https://nnethercote.github.io/perf-book/build-configuration.html.",
        ]
    );
}

#[test]
fn report_for_nightly_items_warns() {
    let nightly = WizardOptions::default().with_nightly_items();
    let template = fast_compile_template(&nightly, &environment(false, None));
    assert!(template_requires_nightly(&options(), &template));
    assert!(!template_requires_nightly(&options(), &min_size_template()));
    let report =
        lines(&options(), PredefinedTemplateKind::FastCompile, &template, &Profile::release());
    assert_eq!(
        report,
        [
            "\u{2705} Template FastCompile applied to profile release.",
            "\u{26a0}\u{fe0f}  Do not forget to run `cargo +nightly <cmd> --release` to use the selected profile.",
            "\u{26a0}\u{fe0f}  You will have to use a nightly compiler.",
            "Tip: find more information at https://nnethercote.github.io/perf-book/build-configuration.html.",
        ]
    );
}

#[test]
fn report_for_small_programs_points_elsewhere() {
    let report =
        lines(&options(), PredefinedTemplateKind::MinSize, &min_size_template(), &Profile::dev());
    assert_eq!(
        report,
        [
            "\u{2705} Template MinSize applied to profile dev.",
            "Tip: find more information at https://github.com/johnthagen/min-sized-rust.",
        ]
    );
}
