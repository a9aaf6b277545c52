use cargo_wizard::{CargoConfig, Template, TemplateBuilder, TemplateItemId, TomlValue};
use cargo_wizard::BuiltinProfile;

fn create_template(items: &[(TemplateItemId, &str)]) -> Template {
    let mut builder = TemplateBuilder::new(BuiltinProfile::Release);
    for (id, value) in items {
        builder = builder.item(*id, TomlValue::String(value.to_string()));
    }
    builder.build()
}

fn create_config(text: &str) -> CargoConfig {
    match CargoConfig::from_text(text) {
        Ok(config) => config,
        Err(error) => panic!("{}", error.message()),
    }
}

fn apply(config: CargoConfig, template: &Template) -> String {
    match config.apply_template(template) {
        Ok(config) => config.get_text(),
        Err(error) => panic!("{}", error.message()),
    }
}

#[test]
fn create_rustflags() {
    let template = create_template(&[(TemplateItemId::TargetCpuInstructionSet, "native")]);
    let text = apply(CargoConfig::empty(), &template);
    assert_eq!(text, "[build]\nrustflags = [\"-Ctarget-cpu=native\"]\n");
}

#[test]
fn append_to_array_rustflags() {
    let template = create_template(&[(TemplateItemId::TargetCpuInstructionSet, "native")]);
    let config = create_config(
        r#"
[build]
rustflags = ["-Cbar=foo"]
"#,
    );
    let text = apply(config, &template);
    assert_eq!(
        text,
        r#"
[build]
rustflags = ["-Cbar=foo", "-Ctarget-cpu=native"]
"#
    );
}

#[test]
fn ignore_existing_entry() {
    let template = create_template(&[(TemplateItemId::TargetCpuInstructionSet, "foo")]);
    let config = create_config(
        r#"
[build]
rustflags = ["-Ctarget-cpu=foo"]
"#,
    );
    let text = apply(config, &template);
    assert_eq!(
        text,
        r#"
[build]
rustflags = ["-Ctarget-cpu=foo"]
"#
    );
}

#[test]
fn append_to_empty_string_rustflags() {
    let template = create_template(&[(TemplateItemId::TargetCpuInstructionSet, "native")]);
    let config = create_config(
        r#"
[build]
rustflags = ""
"#,
    );
    let text = apply(config, &template);
    assert_eq!(
        text,
        r#"
[build]
rustflags = "-Ctarget-cpu=native"
"#
    );
}

#[test]
fn append_to_string_rustflags() {
    let template = create_template(&[(TemplateItemId::TargetCpuInstructionSet, "native")]);
    let config = create_config(
        r#"
[build]
rustflags = "-Cfoo=bar"
"#,
    );
    let text = apply(config, &template);
    assert_eq!(
        text,
        r#"
[build]
rustflags = "-Cfoo=bar -Ctarget-cpu=native"
"#
    );
}

#[test]
fn append_to_string_rustflags_keep_formatting() {
    let template = create_template(&[(TemplateItemId::TargetCpuInstructionSet, "native")]);
    let config = create_config(
        r#"
[build]
rustflags = "-Cfoo=bar" # Foo
"#,
    );
    let text = apply(config, &template);
    assert_eq!(
        text,
        r#"
[build]
rustflags = "-Cfoo=bar -Ctarget-cpu=native" # Foo
"#
    );
}

#[test]
fn replace_rustflag_value() {
    let template = create_template(&[(TemplateItemId::TargetCpuInstructionSet, "native")]);
    let config = create_config(
        r#"
[build]
rustflags = [
    # Foo
    "-Ctarget-cpu=foo", # Foo
    "-Cbar=baz", # Foo
]
"#,
    );
    let text = apply(config, &template);
    assert_eq!(
        text,
        r#"
[build]
rustflags = [
    # Foo
    "-Ctarget-cpu=native", # Foo
    "-Cbar=baz", # Foo
]
"#
    );
}
