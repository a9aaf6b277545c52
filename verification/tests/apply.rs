use cargo_wizard::{
    BuildEnvironment, CargoConfig, CargoManifest, PredefinedTemplateKind, Profile, Template,
    WizardOptions,
};
use cargo_wizard::dialog::profile_from_str;

const MANIFEST: &str = r#"[package]
name = "foo"
version = "0.1.0"
edition = "2021"
"#;

fn template(kind: PredefinedTemplateKind) -> Template {
    let environment = BuildEnvironment { unix: true, compiler: None, core_count: 8 };
    kind.build_template(&WizardOptions::default(), &environment)
}

fn profile(name: &str) -> Profile {
    profile_from_str(name).unwrap()
}

/// The manifest after `cargo wizard apply <profile> <template> --nightly=off`.
fn apply(manifest: &str, profile_name: &str, kind: PredefinedTemplateKind) -> String {
    let manifest = match CargoManifest::from_text(manifest) {
        Ok(manifest) => manifest,
        Err(error) => panic!("{}", error.message()),
    };
    match manifest.apply_template(&profile(profile_name), &template(kind)) {
        Ok(manifest) => manifest.get_text(),
        Err(error) => panic!("{}", error.message()),
    }
}

#[test]
fn apply_explicit_manifest_path() {
    let text = apply(
        r#"
[package]
name = "foo"
version = "0.1.0"
edition = "2021"
"#,
        "dev",
        PredefinedTemplateKind::FastCompile,
    );
    assert_eq!(
        text,
        r#"
[package]
name = "foo"
version = "0.1.0"
edition = "2021"

[profile.dev]
debug = 0
"#
    );
}

#[test]
fn resolve_workspace_root() {
    let text = apply(
        r#"
[workspace]
members = ["bar"]
"#,
        "dev",
        PredefinedTemplateKind::FastCompile,
    );
    assert_eq!(
        text,
        r#"
[workspace]
members = ["bar"]

[profile.dev]
debug = 0
"#
    );
}

#[test]
fn apply_missing_builtin() {
    let text = apply(MANIFEST, "dev", PredefinedTemplateKind::FastCompile);
    assert_eq!(
        text,
        r#"[package]
name = "foo"
version = "0.1.0"
edition = "2021"

[profile.dev]
debug = 0
"#
    );
}

#[test]
fn apply_existing_builtin() {
    let text = apply(
        r#"
[package]
name = "foo"
version = "0.1.0"
edition = "2021"

[profile.dev]
debug = 1
"#,
        "dev",
        PredefinedTemplateKind::FastCompile,
    );
    assert_eq!(
        text,
        r#"
[package]
name = "foo"
version = "0.1.0"
edition = "2021"

[profile.dev]
debug = 0
"#
    );
}

#[test]
fn apply_missing_custom() {
    let text = apply(MANIFEST, "custom1", PredefinedTemplateKind::FastCompile);
    assert_eq!(
        text,
        r#"[package]
name = "foo"
version = "0.1.0"
edition = "2021"

[profile.custom1]
inherits = "dev"
debug = 0
"#
    );
}

#[test]
fn apply_existing_custom() {
    let text = apply(
        r#"
[package]
name = "foo"
version = "0.1.0"
edition = "2021"

[profile.custom1]
inherits = "dev"
debug = 1
"#,
        "custom1",
        PredefinedTemplateKind::FastCompile,
    );
    assert_eq!(
        text,
        r#"
[package]
name = "foo"
version = "0.1.0"
edition = "2021"

[profile.custom1]
inherits = "dev"
debug = 0
"#
    );
}

#[test]
fn apply_existing_keep_formatting() {
    let text = apply(
        r#"
[package]
name = "foo"
version = "0.1.0"
edition = "2021"

[profile.dev]

lto =      "thin"

debug = 1   # Foo

codegen-units    = 10
"#,
        "dev",
        PredefinedTemplateKind::FastCompile,
    );
    assert_eq!(
        text,
        r#"
[package]
name = "foo"
version = "0.1.0"
edition = "2021"

[profile.dev]

lto =      "thin"

debug = 0   # Foo

codegen-units    = 10
"#
    );
}

#[test]
fn apply_fast_runtime_template() {
    let text = apply(MANIFEST, "custom", PredefinedTemplateKind::FastRuntime);
    assert_eq!(
        text,
        r#"[package]
name = "foo"
version = "0.1.0"
edition = "2021"

[profile.custom]
inherits = "release"
lto = true
codegen-units = 1
panic = "abort"
"#
    );
    let config = CargoConfig::empty();
    let config = match config.apply_template(&template(PredefinedTemplateKind::FastRuntime)) {
        Ok(config) => config.get_text(),
        Err(error) => panic!("{}", error.message()),
    };
    assert_eq!(
        config,
        r#"[build]
rustflags = ["-Ctarget-cpu=native"]
"#
    );
}

#[test]
fn apply_min_size_template() {
    let text = apply(MANIFEST, "custom", PredefinedTemplateKind::MinSize);
    assert_eq!(
        text,
        r#"[package]
name = "foo"
version = "0.1.0"
edition = "2021"

[profile.custom]
inherits = "release"
debug = 0
strip = true
lto = true
opt-level = "z"
codegen-units = 1
panic = "abort"
"#
    );
}
