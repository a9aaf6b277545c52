//! What can go wrong when a template is applied.

use vstd::prelude::*;
use vstd::string::StringExecFns;
use toml_edit::TomlError;

verus! {

/// Why a manifest or a configuration could not be read or changed. A file
/// that was edited into a shape this library does not expect is left alone.
pub enum WizardError {
    /// The `profile` item of the manifest is not a table.
    ProfilesNotTable,
    /// The item of the named profile is not a table.
    ProfileNotTable { name: String },
    /// The `build` item of the configuration is not a table.
    BuildNotTable,
    /// `build.rustflags` is neither a string nor an array.
    FlagsNotStringOrArray,
    /// The manifest is not a TOML document.
    ManifestParse(TomlError),
    /// The configuration is not a TOML document.
    ConfigParse(TomlError),
}

/// The text that describes an error.
pub open spec fn message_of(error: WizardError) -> Seq<char> {
    match error {
        WizardError::ProfilesNotTable => "The profile item in Cargo.toml is not a table"@,
        WizardError::ProfileNotTable { name } => "The profile."@ + name@
            + " table in Cargo.toml is not a table"@,
        WizardError::BuildNotTable => "The build item in config.toml is not a table"@,
        WizardError::FlagsNotStringOrArray =>
            "build.rustflags in config.toml is not a string or an array"@,
        WizardError::ManifestParse(_) => "Cannot parse Cargo.toml manifest"@,
        WizardError::ConfigParse(_) => "Cannot parse config.toml file"@,
    }
}

impl WizardError {
    /// A sentence for the user.
    pub fn message(&self) -> (r: String)
        ensures
            r@ == message_of(*self),
    {
        match self {
            WizardError::ProfilesNotTable => String::from_str(
                "The profile item in Cargo.toml is not a table",
            ),
            WizardError::ProfileNotTable { name } => {
                let head = String::from_str("The profile.");
                head.concat(name.as_str()).concat(" table in Cargo.toml is not a table")
            },
            WizardError::BuildNotTable => String::from_str(
                "The build item in config.toml is not a table",
            ),
            WizardError::FlagsNotStringOrArray => String::from_str(
                "build.rustflags in config.toml is not a string or an array",
            ),
            WizardError::ManifestParse(_) => String::from_str("Cannot parse Cargo.toml manifest"),
            WizardError::ConfigParse(_) => String::from_str("Cannot parse config.toml file"),
        }
    }

    /// The parser's own error, where the text was not a TOML document.
    pub fn parse_error(&self) -> (r: Option<&TomlError>)
        ensures
            match *self {
                WizardError::ManifestParse(e) => r == Some(&e),
                WizardError::ConfigParse(e) => r == Some(&e),
                _ => r is None,
            },
    {
        match self {
            WizardError::ManifestParse(e) => Some(e),
            WizardError::ConfigParse(e) => Some(e),
            _ => None,
        }
    }
}

} // verus!
