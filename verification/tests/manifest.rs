use cargo_wizard::{
    classify, BuiltinProfile, CargoConfig, CargoManifest, CargoWorkspace, Decision,
    ModificationResult, Profile, Template, TemplateBuilder, TemplateItemId, TomlValue,
    WizardError,
};

const PACKAGE: &str = "[package]\nname = \"foo\"\nversion = \"0.1.0\"\n";

fn manifest(text: &str) -> CargoManifest {
    match CargoManifest::from_text(text) {
        Ok(manifest) => manifest,
        Err(error) => panic!("{}", error.message()),
    }
}

fn applied(text: &str, profile: &Profile, template: &Template) -> String {
    match manifest(text).apply_template(profile, template) {
        Ok(manifest) => manifest.get_text(),
        Err(error) => panic!("{}", error.message()),
    }
}

fn custom(name: &str) -> Profile {
    Profile::Custom(name.to_string())
}

/// Link-time optimization, one codegen unit and aborting panics, relative to
/// `release`.
fn runtime_template() -> Template {
    TemplateBuilder::new(BuiltinProfile::Release)
        .item(TemplateItemId::Lto, TomlValue::bool(true))
        .item(TemplateItemId::CodegenUnits, TomlValue::integer(1))
        .item(TemplateItemId::Panic, TomlValue::string("abort"))
        .build()
}

#[test]
fn custom_profile_gets_inherits_then_the_items_in_order() {
    let workspace = CargoWorkspace::new(manifest(PACKAGE), CargoConfig::empty());
    match workspace.apply_template(&custom("custom"), &runtime_template()) {
        Ok(modified) => assert!(matches!(
            modified.manifest(),
            ModificationResult::Modified { .. }
        )),
        Err(error) => panic!("{}", error.message()),
    }
    let text = applied(PACKAGE, &custom("custom"), &runtime_template());
    assert_eq!(
        text,
        "[package]\nname = \"foo\"\nversion = \"0.1.0\"\n\n[profile.custom]\ninherits = \"release\"\nlto = true\ncodegen-units = 1\npanic = \"abort\"\n"
    );
}

#[test]
fn first_application_modifies_and_second_does_not() {
    let template = runtime_template();
    let profile = custom("custom");
    let workspace = CargoWorkspace::new(manifest(PACKAGE), CargoConfig::empty());
    let first = workspace.apply_template(&profile, &template);
    let first = match first {
        Ok(first) => first,
        Err(error) => panic!("{}", error.message()),
    };
    let merged = match first.manifest() {
        ModificationResult::Modified { old, new } => {
            assert_eq!(old.get_text(), PACKAGE);
            new.clone()
        }
        ModificationResult::NoChange => panic!("the first application changes the manifest"),
    };
    let again = CargoWorkspace::new(merged, CargoConfig::empty());
    match again.apply_template(&profile, &template) {
        Ok(second) => {
            assert!(matches!(second.manifest(), ModificationResult::NoChange));
            assert!(matches!(second.config(), ModificationResult::NoChange));
            assert!(second.is_unchanged());
            assert_eq!(second.texts_to_write(), (None, None));
        }
        Err(error) => panic!("{}", error.message()),
    }
}

#[test]
fn second_application_to_a_builtin_profile_changes_nothing() {
    let template = runtime_template();
    let once = applied(PACKAGE, &Profile::release(), &template);
    let twice = applied(&once, &Profile::release(), &template);
    assert_eq!(once, twice);
}

#[test]
fn second_application_to_a_reread_custom_profile_changes_nothing() {
    let template = runtime_template();
    let once = applied(PACKAGE, &custom("fast"), &template);
    let twice = applied(&once, &custom("fast"), &template);
    assert_eq!(once, twice);
}

#[test]
fn replaced_value_keeps_spacing_and_comment() {
    let text = "[profile.release]\nlto   =    \"thin\"    # keep me\ncodegen-units=16\n";
    let template = runtime_template();
    assert_eq!(
        applied(text, &Profile::release(), &template),
        "[profile.release]\nlto   =    true    # keep me\ncodegen-units=1\npanic = \"abort\"\n"
    );
}

#[test]
fn foreign_keys_stay_untouched() {
    let text = "[profile.release]\n# tuned by hand\nrpath = true   # why not\n\n[profile.release.package.foo]\nopt-level = 1\n";
    let template = TemplateBuilder::new(BuiltinProfile::Release)
        .item(TemplateItemId::Strip, TomlValue::bool(true))
        .build();
    assert_eq!(
        applied(text, &Profile::release(), &template),
        "[profile.release]\n# tuned by hand\nrpath = true   # why not\nstrip = true\n\n[profile.release.package.foo]\nopt-level = 1\n"
    );
}

#[test]
fn value_equal_to_the_default_is_not_written_to_a_builtin_profile() {
    let template = TemplateBuilder::new(BuiltinProfile::Dev)
        .item(TemplateItemId::DebugInfo, TomlValue::bool(true))
        .item(TemplateItemId::CodegenUnits, TomlValue::integer(256))
        .item(TemplateItemId::Lto, TomlValue::bool(true))
        .build();
    let text = applied(PACKAGE, &Profile::dev(), &template);
    assert_eq!(
        text,
        "[package]\nname = \"foo\"\nversion = \"0.1.0\"\n\n[profile.dev]\nlto = true\n"
    );
}

#[test]
fn value_equal_to_the_default_replaces_an_override() {
    let template = TemplateBuilder::new(BuiltinProfile::Dev)
        .item(TemplateItemId::DebugInfo, TomlValue::bool(true))
        .build();
    let text = applied("[profile.dev]\ndebug = 0 # off\n", &Profile::dev(), &template);
    assert_eq!(text, "[profile.dev]\ndebug = true # off\n");
}

#[test]
fn value_equal_to_the_existing_one_is_not_written_to_a_builtin_profile() {
    let template = TemplateBuilder::new(BuiltinProfile::Dev)
        .item(TemplateItemId::OptimizationLevel, TomlValue::integer(1))
        .build();
    let text = "[profile.dev]\nopt-level = 0x1\n";
    assert_eq!(applied(text, &Profile::dev(), &template), text);
}

#[test]
fn custom_profile_gets_the_defaults_too() {
    let template = TemplateBuilder::new(BuiltinProfile::Dev)
        .item(TemplateItemId::DebugInfo, TomlValue::bool(true))
        .build();
    assert_eq!(
        applied("", &custom("mine"), &template),
        "[profile.mine]\ninherits = \"dev\"\ndebug = true\n"
    );
}

#[test]
fn inherits_of_an_existing_custom_profile_is_set_in_place() {
    let template = TemplateBuilder::new(BuiltinProfile::Release)
        .item(TemplateItemId::Panic, TomlValue::string("abort"))
        .build();
    assert_eq!(
        applied("[profile.mine]\ndebug = 1\ninherits = \"dev\" # base\n", &custom("mine"), &template),
        "[profile.mine]\ndebug = 1\ninherits = \"release\" # base\npanic = \"abort\"\n"
    );
}

#[test]
fn flag_items_do_not_reach_the_manifest() {
    let template = TemplateBuilder::new(BuiltinProfile::Release)
        .item(TemplateItemId::TargetCpuInstructionSet, TomlValue::string("native"))
        .item(TemplateItemId::Linker, TomlValue::string("lld"))
        .item(TemplateItemId::FrontendThreads, TomlValue::integer(4))
        .build();
    assert_eq!(applied("", &Profile::release(), &template), "[profile.release]\n");
}

#[test]
fn every_profile_key_is_written_under_its_name() {
    let template = TemplateBuilder::new(BuiltinProfile::Release)
        .item(TemplateItemId::DebugInfo, TomlValue::integer(2))
        .item(TemplateItemId::SplitDebugInfo, TomlValue::string("packed"))
        .item(TemplateItemId::Strip, TomlValue::string("symbols"))
        .item(TemplateItemId::Lto, TomlValue::string("fat"))
        .item(TemplateItemId::CodegenUnits, TomlValue::integer(4))
        .item(TemplateItemId::Panic, TomlValue::string("unwind"))
        .item(TemplateItemId::OptimizationLevel, TomlValue::integer(2))
        .item(TemplateItemId::Incremental, TomlValue::bool(true))
        .build();
    assert_eq!(
        applied("", &Profile::release(), &template),
        "[profile.release]\ndebug = 2\nsplit-debuginfo = \"packed\"\nstrip = \"symbols\"\nlto = \"fat\"\ncodegen-units = 4\npanic = \"unwind\"\nopt-level = 2\nincremental = true\n"
    );
}

#[test]
fn codegen_backend_is_not_added_twice_to_the_features() {
    let template = TemplateBuilder::new(BuiltinProfile::Dev)
        .item(TemplateItemId::CodegenBackend, TomlValue::string("cranelift"))
        .build();
    let text = "cargo-features = [\"edition2024\", \"codegen-backend\"]\n\n[profile.dev]\ncodegen-backend = \"cranelift\"\n";
    assert_eq!(applied(text, &Profile::dev(), &template), text);
}

#[test]
fn codegen_backend_joins_the_other_features() {
    let template = TemplateBuilder::new(BuiltinProfile::Dev)
        .item(TemplateItemId::CodegenBackend, TomlValue::string("cranelift"))
        .build();
    let text = "cargo-features = [\"edition2024\"]\n";
    assert_eq!(
        applied(text, &Profile::dev(), &template),
        "cargo-features = [\"edition2024\", \"codegen-backend\"]\n\n[profile.dev]\ncodegen-backend = \"cranelift\"\n"
    );
}

#[test]
fn features_that_are_no_array_are_left_alone() {
    let template = TemplateBuilder::new(BuiltinProfile::Dev)
        .item(TemplateItemId::CodegenBackend, TomlValue::string("cranelift"))
        .build();
    let text = "cargo-features = \"none\"\n";
    assert_eq!(
        applied(text, &Profile::dev(), &template),
        "cargo-features = \"none\"\n\n[profile.dev]\ncodegen-backend = \"cranelift\"\n"
    );
}

#[test]
fn profile_item_that_is_no_table_is_refused() {
    let result = manifest("profile = 1\n").apply_template(&Profile::dev(), &runtime_template());
    match result {
        Err(error) => {
            assert!(matches!(error, WizardError::ProfilesNotTable));
            assert_eq!(error.message(), "The profile item in Cargo.toml is not a table");
        }
        Ok(_) => panic!("a `profile` that is no table must be refused"),
    }
}

#[test]
fn named_profile_that_is_no_table_is_refused() {
    let result =
        manifest("[profile]\nfast = \"yes\"\n").apply_template(&custom("fast"), &runtime_template());
    match result {
        Err(error) => {
            assert!(matches!(&error, WizardError::ProfileNotTable { name } if name == "fast"));
            assert_eq!(
                error.message(),
                "The profile.fast table in Cargo.toml is not a table"
            );
        }
        Ok(_) => panic!("a profile that is no table must be refused"),
    }
}

#[test]
fn inline_profile_table_is_refused() {
    let result =
        manifest("profile = { dev = { debug = 1 } }\n").apply_template(&Profile::dev(), &runtime_template());
    assert!(matches!(result, Err(WizardError::ProfilesNotTable)));
}

#[test]
fn text_that_is_no_toml_is_refused() {
    match CargoManifest::from_text("[package\n") {
        Err(error) => {
            assert!(matches!(error, WizardError::ManifestParse(_)));
            assert_eq!(error.message(), "Cannot parse Cargo.toml manifest");
            assert!(error.parse_error().is_some());
        }
        Ok(_) => panic!("an unclosed header is no TOML"),
    }
}

#[test]
fn text_is_given_back_as_it_was_read() {
    let text = "# a comment\n[package]\nname   = 'foo' # odd\n\n\n[profile.dev]\ndebug=1\n";
    assert_eq!(manifest(text).get_text(), text);
}

#[test]
fn profiles_are_listed_in_the_order_of_the_manifest() {
    let text = "[profile.release]\nlto = true\n\n[profile.mine]\ninherits = \"dev\"\n\n[profile.dev]\ndebug = 1\n";
    assert_eq!(manifest(text).get_profiles(), ["release", "mine", "dev"]);
}

#[test]
fn profiles_of_an_inline_table_are_listed() {
    let text = "profile = { dev = { debug = 1 }, quick = { inherits = \"dev\" } }\n";
    assert_eq!(manifest(text).get_profiles(), ["dev", "quick"]);
}

#[test]
fn manifest_without_profiles_lists_none() {
    assert!(manifest(PACKAGE).get_profiles().is_empty());
    assert!(manifest("profile = 3\n").get_profiles().is_empty());
}

/// The key keeps the spelling it had in the header of the table.
#[test]
fn table_in_the_place_of_a_value_gives_way() {
    let template = TemplateBuilder::new(BuiltinProfile::Dev)
        .item(TemplateItemId::DebugInfo, TomlValue::integer(1))
        .build();
    let text = "[profile.dev]\n\n[profile.dev.debug]\nlevel = 2\n";
    assert_eq!(applied(text, &Profile::dev(), &template), "[profile.dev]\ndebug= 1\n");
}

#[test]
fn clone_of_a_manifest_reads_the_same() {
    let first = manifest(PACKAGE);
    let copy = first.clone();
    assert_eq!(copy.get_text(), first.get_text());
}

#[test]
fn backend_that_is_not_written_asks_for_no_feature() {
    let template = TemplateBuilder::new(BuiltinProfile::Dev)
        .item(TemplateItemId::CodegenBackend, TomlValue::string("cranelift"))
        .build();
    let text = "[profile.dev]\ncodegen-backend = \"cranelift\"\n";
    assert_eq!(applied(text, &Profile::dev(), &template), text);
}

#[test]
fn files_are_compared_by_their_text() {
    let same = classify(1, 2, &"a = 1\n".to_string(), &"a = 1\n".to_string());
    assert!(matches!(same, ModificationResult::NoChange));
    let spaced = classify(1, 2, &"a = 1\n".to_string(), &"a=1\n".to_string());
    assert!(matches!(spaced, ModificationResult::Modified { old: 1, new: 2 }));
}

#[test]
fn accepted_changes_are_written_and_refused_ones_are_not() {
    let template = TemplateBuilder::new(BuiltinProfile::Release)
        .item(TemplateItemId::Lto, TomlValue::bool(true))
        .item(TemplateItemId::TargetCpuInstructionSet, TomlValue::string("native"))
        .build();
    let apply = |manifest_text: &str, config: CargoConfig| {
        let workspace = CargoWorkspace::new(manifest(manifest_text), config);
        match workspace.apply_template(&Profile::release(), &template) {
            Ok(modified) => modified,
            Err(error) => panic!("{}", error.message()),
        }
    };
    let both = apply("", CargoConfig::empty());
    assert!(matches!(both.decide(false), Decision::Denied));
    match both.decide(true) {
        Decision::Accepted { manifest, config } => {
            assert_eq!(manifest.unwrap(), "[profile.release]\nlto = true\n");
            assert_eq!(config.unwrap(), "[build]\nrustflags = [\"-Ctarget-cpu=native\"]\n");
        }
        _ => panic!("accepted changes are to be written"),
    }
    let flags = "[build]\nrustflags = [\"-Ctarget-cpu=native\"]\n";
    let settled = match CargoConfig::from_text(flags) {
        Ok(config) => config,
        Err(error) => panic!("{}", error.message()),
    };
    let manifest_only = apply("", settled.clone());
    match manifest_only.decide(true) {
        Decision::Accepted { manifest, config } => {
            assert!(manifest.is_some());
            assert!(config.is_none());
        }
        _ => panic!("accepted changes are to be written"),
    }
    let neither = apply("[profile.release]\nlto = true\n", settled);
    assert!(matches!(neither.decide(true), Decision::NoDiff));
    assert!(matches!(neither.decide(false), Decision::NoDiff));
}
