//! Applies build-profile templates to a Cargo workspace: a manifest
//! (`Cargo.toml`) and a compiler-flag configuration (`.cargo/config.toml`),
//! keeping whatever formatting the files already have.

pub mod dialog;
pub mod diff;
pub mod document;
pub mod error;
pub mod known_options;
pub mod predefined;
pub mod template;
pub mod text;
pub mod toml;
pub mod workspace;

pub use error::WizardError;
pub use predefined::{
    fast_compile_template, fast_runtime_template, min_size_template, BuildEnvironment,
    CompilerInfo, PredefinedTemplateKind,
};
pub use template::{Template, TemplateBuilder, TemplateItemId, WizardOptions};
pub use workspace::config::CargoConfig;
pub use workspace::manifest::{BuiltinProfile, CargoManifest, Profile};
pub use workspace::{classify, CargoWorkspace, Decision, ModificationResult, ModifiedWorkspace};
pub use toml::{Scalar, TableItem, TomlTableTemplate, TomlValue};
