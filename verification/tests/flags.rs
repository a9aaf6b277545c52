use cargo_wizard::workspace::config::{flag_stem, rustflags, value_text};
use cargo_wizard::{
    BuiltinProfile, CargoConfig, Template, TemplateBuilder, TemplateItemId, TomlValue, WizardError,
};

fn config(text: &str) -> CargoConfig {
    match CargoConfig::from_text(text) {
        Ok(config) => config,
        Err(error) => panic!("{}", error.message()),
    }
}

fn applied(text: &str, template: &Template) -> String {
    match config(text).apply_template(template) {
        Ok(config) => config.get_text(),
        Err(error) => panic!("{}", error.message()),
    }
}

fn native() -> Template {
    TemplateBuilder::new(BuiltinProfile::Release)
        .item(TemplateItemId::TargetCpuInstructionSet, TomlValue::string("native"))
        .build()
}

#[test]
fn absent_flags_are_made_as_an_array() {
    let made = match CargoConfig::empty().apply_template(&native()) {
        Ok(config) => config.get_text(),
        Err(error) => panic!("{}", error.message()),
    };
    assert_eq!(made, "[build]\nrustflags = [\"-Ctarget-cpu=native\"]\n");
}

#[test]
fn empty_configuration_is_written_as_nothing() {
    assert_eq!(CargoConfig::empty().get_text(), "");
}

#[test]
fn flag_with_the_key_of_an_element_replaces_its_value() {
    let text = "[build]\nrustflags = [\"-Cdebuginfo=1\",   \"-Ctarget-cpu=haswell\" ,\"-g\"]\n";
    assert_eq!(
        applied(text, &native()),
        "[build]\nrustflags = [\"-Cdebuginfo=1\",   \"-Ctarget-cpu=native\" ,\"-g\"]\n"
    );
}

#[test]
fn every_element_with_the_key_takes_the_value() {
    let text = "[build]\nrustflags = [\"-Ctarget-cpu=a\", \"-Ctarget-cpu=b\"]\n";
    assert_eq!(
        applied(text, &native()),
        "[build]\nrustflags = [\"-Ctarget-cpu=native\", \"-Ctarget-cpu=native\"]\n"
    );
}

#[test]
fn element_that_is_no_string_stays() {
    let text = "[build]\nrustflags = [1, \"-Ctarget-cpu=a\"]\n";
    assert_eq!(
        applied(text, &native()),
        "[build]\nrustflags = [1, \"-Ctarget-cpu=native\"]\n"
    );
}

#[test]
fn flags_come_in_the_order_of_the_items() {
    let template = TemplateBuilder::new(BuiltinProfile::Dev)
        .item(TemplateItemId::Linker, TomlValue::string("mold"))
        .item(TemplateItemId::DebugInfo, TomlValue::integer(0))
        .item(TemplateItemId::FrontendThreads, TomlValue::integer(8))
        .item(TemplateItemId::TargetCpuInstructionSet, TomlValue::string("native"))
        .build();
    assert_eq!(
        rustflags(&template),
        ["-Clink-arg=-fuse-ld=mold", "-Zthreads=8", "-Ctarget-cpu=native"]
    );
    assert_eq!(
        applied("", &template),
        "[build]\nrustflags = [\"-Clink-arg=-fuse-ld=mold\", \"-Zthreads=8\", \"-Ctarget-cpu=native\"]\n"
    );
}

#[test]
fn linker_flag_is_keyed_by_what_stands_before_the_first_equals_sign() {
    let template = TemplateBuilder::new(BuiltinProfile::Dev)
        .item(TemplateItemId::Linker, TomlValue::string("lld"))
        .build();
    let text = "[build]\nrustflags = [\"-Clink-arg=-fuse-ld=mold\"]\n";
    assert_eq!(
        applied(text, &template),
        "[build]\nrustflags = [\"-Clink-arg=-fuse-ld=lld\"]\n"
    );
}

#[test]
fn template_without_flags_leaves_the_configuration_alone() {
    let template = TemplateBuilder::new(BuiltinProfile::Dev)
        .item(TemplateItemId::DebugInfo, TomlValue::integer(0))
        .build();
    assert_eq!(applied("", &template), "");
    assert_eq!(applied("build = 1\n", &template), "build = 1\n");
    assert!(rustflags(&template).is_empty());
}

#[test]
fn string_of_flags_takes_the_missing_ones_at_its_end() {
    let template = TemplateBuilder::new(BuiltinProfile::Dev)
        .item(TemplateItemId::TargetCpuInstructionSet, TomlValue::string("native"))
        .item(TemplateItemId::FrontendThreads, TomlValue::integer(8))
        .build();
    assert_eq!(
        applied("[build]\nrustflags =   '-g'   # mine\n", &template),
        "[build]\nrustflags =   \"-g -Ctarget-cpu=native -Zthreads=8\"   # mine\n"
    );
}

#[test]
fn string_that_ends_in_a_space_gets_no_second_one() {
    assert_eq!(
        applied("[build]\nrustflags = \"-g \"\n", &native()),
        "[build]\nrustflags = \"-g -Ctarget-cpu=native\"\n"
    );
}

#[test]
fn string_that_mentions_the_flag_stays_as_it_is() {
    let text = "[build]\nrustflags = '-g -Ctarget-cpu=native -O'\n";
    assert_eq!(applied(text, &native()), text);
}

#[test]
fn second_merge_into_an_array_changes_nothing() {
    let once = applied("[build]\nrustflags = [\"-Ctarget-cpu=haswell\"]\n", &native());
    assert_eq!(applied(&once, &native()), once);
}

#[test]
fn second_merge_into_a_string_changes_nothing() {
    let once = applied("[build]\nrustflags = \"-g\"\n", &native());
    assert_eq!(applied(&once, &native()), once);
}

#[test]
fn build_that_is_no_table_is_refused() {
    match config("build = \"fast\"\n").apply_template(&native()) {
        Err(error) => {
            assert!(matches!(error, WizardError::BuildNotTable));
            assert_eq!(error.message(), "The build item in config.toml is not a table");
        }
        Ok(_) => panic!("a `build` that is no table must be refused"),
    }
}

#[test]
fn flags_that_are_neither_array_nor_string_are_refused() {
    for text in [
        "[build]\nrustflags = 3\n",
        "[build]\nrustflags = true\n",
        "[build.rustflags]\nx = 1\n",
        "[build]\nrustflags = { x = 1 }\n",
    ] {
        match config(text).apply_template(&native()) {
            Err(error) => {
                assert!(matches!(error, WizardError::FlagsNotStringOrArray));
                assert_eq!(
                    error.message(),
                    "build.rustflags in config.toml is not a string or an array"
                );
            }
            Ok(_) => panic!("such flags must be refused"),
        }
    }
}

#[test]
fn configuration_that_is_no_toml_is_refused() {
    match CargoConfig::from_text("build = \n") {
        Err(error) => {
            assert!(matches!(error, WizardError::ConfigParse(_)));
            assert_eq!(error.message(), "Cannot parse config.toml file");
        }
        Ok(_) => panic!("a key without a value is no TOML"),
    }
}

#[test]
fn values_are_written_into_flags_as_text() {
    assert_eq!(value_text(&TomlValue::string("x86-64-v3")), "x86-64-v3");
    assert_eq!(value_text(&TomlValue::integer(16)), "16");
    assert_eq!(value_text(&TomlValue::integer(-3)), "-3");
    assert_eq!(value_text(&TomlValue::bool(true)), "true");
    assert_eq!(value_text(&TomlValue::bool(false)), "false");
}

#[test]
fn only_three_items_have_a_flag() {
    assert_eq!(flag_stem(TemplateItemId::TargetCpuInstructionSet), Some("-Ctarget-cpu="));
    assert_eq!(flag_stem(TemplateItemId::FrontendThreads), Some("-Zthreads="));
    assert_eq!(flag_stem(TemplateItemId::Linker), Some("-Clink-arg=-fuse-ld="));
    for id in [
        TemplateItemId::DebugInfo,
        TemplateItemId::SplitDebugInfo,
        TemplateItemId::Strip,
        TemplateItemId::Lto,
        TemplateItemId::CodegenUnits,
        TemplateItemId::Panic,
        TemplateItemId::OptimizationLevel,
        TemplateItemId::Incremental,
        TemplateItemId::CodegenBackend,
    ] {
        assert_eq!(flag_stem(id), None);
    }
}
