use cargo_wizard::dialog::{item_row_label, on_template_applied, Span};
use cargo_wizard::known_options::KnownCargoOptions;
use cargo_wizard::{
    BuildEnvironment, BuiltinProfile, CargoConfig, CargoManifest, CargoWorkspace, Decision,
    ModificationResult, PredefinedTemplateKind, Profile, Template, TemplateItemId, TomlValue,
    WizardOptions,
};

const MANIFEST: &str = r#"[package]
name = "foo"
version = "0.1.0"
edition = "2021"
"#;

fn options() -> KnownCargoOptions {
    KnownCargoOptions::create(8, vec!["native".to_string()])
}

/// A Unix machine whose compiler is unknown: fast compilation asks for `lld`.
fn environment() -> BuildEnvironment {
    BuildEnvironment { unix: true, compiler: None, core_count: 8 }
}

fn template(kind: PredefinedTemplateKind, nightly: bool) -> Template {
    let options = if nightly {
        WizardOptions::default().with_nightly_items()
    } else {
        WizardOptions::default()
    };
    kind.build_template(&options, &environment())
}

fn workspace(manifest: &str, config: Option<&str>) -> CargoWorkspace {
    let manifest = match CargoManifest::from_text(manifest) {
        Ok(manifest) => manifest,
        Err(error) => panic!("{}", error.message()),
    };
    let config = match config {
        Some(text) => match CargoConfig::from_text(text) {
            Ok(config) => config,
            Err(error) => panic!("{}", error.message()),
        },
        None => CargoConfig::empty(),
    };
    CargoWorkspace::new(manifest, config)
}

/// The texts of the manifest and of the configuration once the template was
/// applied and the diff accepted; `None` for a file that is not written.
fn run(
    workspace: CargoWorkspace,
    profile: &Profile,
    template: &Template,
) -> (Option<String>, Option<String>) {
    match workspace.apply_template(profile, template) {
        Ok(modified) => modified.texts_to_write(),
        Err(error) => panic!("{}", error.message()),
    }
}

fn plain(lines: &[Vec<Span>]) -> String {
    let mut out = String::new();
    for line in lines {
        for span in line {
            out.push_str(&span.text);
        }
        out.push('\n');
    }
    out
}

#[test]
fn dialog_fast_compile_to_dev() {
    let template = template(PredefinedTemplateKind::FastCompile, false);
    let (manifest, config) = run(workspace(MANIFEST, None), &Profile::dev(), &template);
    assert_eq!(
        manifest.unwrap(),
        r#"[package]
name = "foo"
version = "0.1.0"
edition = "2021"

[profile.dev]
debug = 0
"#
    );
    assert_eq!(
        config.unwrap(),
        r#"[build]
rustflags = ["-Clink-arg=-fuse-ld=lld"]
"#
    );
}

#[test]
fn dialog_min_size_to_release() {
    let template = template(PredefinedTemplateKind::MinSize, false);
    let (manifest, config) = run(workspace(MANIFEST, None), &Profile::release(), &template);
    assert_eq!(
        manifest.unwrap(),
        r#"[package]
name = "foo"
version = "0.1.0"
edition = "2021"

[profile.release]
debug = 0
strip = true
lto = true
opt-level = "z"
codegen-units = 1
panic = "abort"
"#
    );
    assert!(config.is_none());
}

/// A refused diff leaves both files as they are: nothing is handed out to be
/// written.
#[test]
fn dialog_deny_diff() {
    let template = template(PredefinedTemplateKind::FastCompile, false);
    let modified = workspace(MANIFEST, None).apply_template(&Profile::release(), &template);
    let modified = match modified {
        Ok(modified) => modified,
        Err(error) => panic!("{}", error.message()),
    };
    assert!(!modified.is_unchanged());
    assert!(matches!(modified.decide(false), Decision::Denied));
    match modified.manifest() {
        ModificationResult::Modified { old, .. } => assert_eq!(old.get_text(), MANIFEST),
        ModificationResult::NoChange => panic!("the template changes the manifest"),
    }
}

#[test]
fn dialog_find_custom_profile() {
    let workspace = workspace(
        r#"
[package]
name = "foo"
version = "0.1.0"
edition = "2021"

[profile.custom1]
inherits = "dev"
debug = 1
"#,
        None,
    );
    assert_eq!(workspace.existing_profiles(), vec!["custom1".to_string()]);
}

#[test]
fn dialog_fast_compile_to_custom_profile() {
    let workspace = workspace(
        r#"
[package]
name = "foo"
version = "0.1.0"
edition = "2021"

[profile.custom1]
inherits = "dev"
debug = 1
"#,
        None,
    );
    let template = template(PredefinedTemplateKind::FastCompile, false);
    let (manifest, _) = run(workspace, &Profile::Custom("custom1".to_string()), &template);
    assert_eq!(
        manifest.unwrap(),
        r#"
[package]
name = "foo"
version = "0.1.0"
edition = "2021"

[profile.custom1]
inherits = "dev"
debug = 0
"#
    );
}

#[test]
fn dialog_fast_compile_to_new_profile() {
    let template = template(PredefinedTemplateKind::FastCompile, false);
    let profile = Profile::Custom("custom1".to_string());
    let (manifest, _) = run(workspace(MANIFEST, None), &profile, &template);
    assert_eq!(
        manifest.unwrap(),
        r#"[package]
name = "foo"
version = "0.1.0"
edition = "2021"

[profile.custom1]
inherits = "dev"
debug = 0
"#
    );
}

#[test]
fn dialog_create_config() {
    let template = template(PredefinedTemplateKind::FastRuntime, false);
    let (_, config) = run(workspace(MANIFEST, None), &Profile::release(), &template);
    assert_eq!(
        config.unwrap(),
        r#"[build]
rustflags = ["-Ctarget-cpu=native"]
"#
    );
}

#[test]
fn dialog_append_to_config() {
    let workspace = workspace(
        MANIFEST,
        Some(
            r#"
[build]
rustflags = ["-Ccodegen-units=1"]
"#,
        ),
    );
    let template = template(PredefinedTemplateKind::FastRuntime, false);
    let (_, config) = run(workspace, &Profile::release(), &template);
    assert_eq!(
        config.unwrap(),
        r#"
[build]
rustflags = ["-Ccodegen-units=1", "-Ctarget-cpu=native"]
"#
    );
}

#[test]
fn dialog_skip_existing_flags_in_config() {
    let config = r#"
[build]
rustflags = ["-Ctarget-cpu=native"]
"#;
    let workspace = workspace(MANIFEST, Some(config));
    let template = template(PredefinedTemplateKind::FastRuntime, false);
    let modified = workspace.apply_template(&Profile::release(), &template);
    let modified = match modified {
        Ok(modified) => modified,
        Err(error) => panic!("{}", error.message()),
    };
    assert!(matches!(modified.config(), ModificationResult::NoChange));
    assert_eq!(modified.texts_to_write().1, None);
}

#[test]
fn dialog_codegen_backend_add_cargo_features() {
    let mut template = template(PredefinedTemplateKind::FastCompile, false);
    template.insert_item(TemplateItemId::CodegenBackend, TomlValue::string("cranelift"));
    let (manifest, _) = run(workspace(MANIFEST, None), &Profile::dev(), &template);
    assert_eq!(
        manifest.unwrap(),
        r#"cargo-features = ["codegen-backend"]
[package]
name = "foo"
version = "0.1.0"
edition = "2021"

[profile.dev]
debug = 0
codegen-backend = "cranelift"
"#
    );
}

#[test]
fn dialog_codegen_backend_append_to_cargo_features() {
    let workspace = workspace(
        r#"cargo-features = []

[package]
name = "foo"
version = "0.1.0"
edition = "2021"
"#,
        None,
    );
    let mut template = template(PredefinedTemplateKind::FastCompile, false);
    template.insert_item(TemplateItemId::CodegenBackend, TomlValue::string("cranelift"));
    let (manifest, _) = run(workspace, &Profile::dev(), &template);
    assert_eq!(
        manifest.unwrap(),
        r#"cargo-features = ["codegen-backend"]

[package]
name = "foo"
version = "0.1.0"
edition = "2021"

[profile.dev]
debug = 0
codegen-backend = "cranelift"
"#
    );
}

#[test]
fn dialog_check_nightly_output() {
    let mut template = template(PredefinedTemplateKind::FastCompile, false);
    template.insert_item(TemplateItemId::CodegenBackend, TomlValue::string("cranelift"));
    let profile = Profile::release();
    let lines =
        on_template_applied(&options(), PredefinedTemplateKind::FastCompile, &template, &profile);
    let text = plain(&lines);
    assert!(text.contains("Template FastCompile applied to profile release"));
    assert!(text.contains("cargo +nightly <cmd>"));
    assert!(text.contains("You will have to use a nightly compiler"));
}

#[test]
fn dialog_codegen_backend_nightly_mark() {
    let template = template(PredefinedTemplateKind::FastCompile, false);
    let options = options();
    let id = TemplateItemId::CodegenBackend;
    let label = item_row_label(id, &options.get_metadata(id), &template);
    assert!(label.starts_with("Codegen backend *"));
}

#[test]
fn dialog_fast_compile_nightly() {
    let mut template = template(PredefinedTemplateKind::FastCompile, true);
    template.insert_item(TemplateItemId::FrontendThreads, TomlValue::integer(4));
    let (manifest, config) = run(workspace(MANIFEST, None), &Profile::dev(), &template);
    assert_eq!(
        manifest.unwrap(),
        r#"cargo-features = ["codegen-backend"]
[package]
name = "foo"
version = "0.1.0"
edition = "2021"

[profile.dev]
debug = 0
codegen-backend = "cranelift"
"#
    );
    assert_eq!(
        config.unwrap(),
        r#"[build]
rustflags = ["-Clink-arg=-fuse-ld=lld", "-Zthreads=4"]
"#
    );
}

#[test]
fn dialog_unset_item() {
    let mut template = template(PredefinedTemplateKind::FastRuntime, false);
    template.remove_item(TemplateItemId::Panic);
    let (manifest, _) = run(workspace(MANIFEST, None), &Profile::dev(), &template);
    assert_eq!(
        manifest.unwrap(),
        r#"[package]
name = "foo"
version = "0.1.0"
edition = "2021"

[profile.dev]
lto = true
codegen-units = 1
"#
    );
}
