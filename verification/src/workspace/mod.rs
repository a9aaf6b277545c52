//! A Cargo workspace: its manifest and its compiler-flag configuration.

use vstd::prelude::*;
use crate::document::Nodes;
use crate::error::WizardError;
use crate::template::Template;
use crate::workspace::config::{config_applied, holds_flags, template_flags, CargoConfig, Merged};
use crate::workspace::manifest::{
    holds_template, manifest_applied, profile_names, Applied, CargoManifest, Profile,
};

pub mod config;
pub mod config_lemmas;
pub mod manifest;
pub mod manifest_lemmas;

verus! {

/// Result of modification of a manifest or a config.
pub enum ModificationResult<T> {
    /// The file would be written out as it is.
    NoChange,
    /// The file as it was and as it would be.
    Modified { old: T, new: T },
}

/// Says whether a file changed: `old` was written out as `old_text`, `new`
/// would be written out as `new_text`. Only the texts count: files that mean
/// the same and are spelled differently count as changed.
pub fn classify<T>(old: T, new: T, old_text: &String, new_text: &String) -> (r: ModificationResult<
    T,
>)
    ensures
        r == if old_text@ == new_text@ {
            ModificationResult::NoChange
        } else {
            ModificationResult::Modified { old, new }
        },
{
    if *old_text == *new_text {
        ModificationResult::NoChange
    } else {
        ModificationResult::Modified { old, new }
    }
}

/// What follows from the user's answer to the changes shown.
pub enum Decision {
    /// Nothing changed: there was nothing to ask.
    NoDiff,
    /// The user accepted: the texts are to be written, that of the manifest
    /// and that of the configuration, each only if it changed.
    Accepted { manifest: Option<String>, config: Option<String> },
    /// The user refused: nothing is written.
    Denied,
}

/// `result` says how `new` differs from a manifest that held `nodes` and was
/// written out as `text`: not at all if it is written out the same, else with
/// both at hand.
pub open spec fn classifies_manifest(
    result: ModificationResult<CargoManifest>,
    nodes: Nodes,
    text: Seq<char>,
    new: CargoManifest,
) -> bool {
    if new.text() == text {
        result is NoChange
    } else {
        result matches ModificationResult::Modified { old: o, new: n } && n == new && o.nodes()
            == nodes && o.text() == text
    }
}

/// As [`classifies_manifest`], for a configuration.
pub open spec fn classifies_config(
    result: ModificationResult<CargoConfig>,
    nodes: Nodes,
    text: Seq<char>,
    new: CargoConfig,
) -> bool {
    if new.text() == text {
        result is NoChange
    } else {
        result matches ModificationResult::Modified { old: o, new: n } && n == new && o.nodes()
            == nodes && o.text() == text
    }
}

/// Cargo workspace project.
pub struct CargoWorkspace {
    manifest: CargoManifest,
    config: CargoConfig,
}

impl Clone for CargoWorkspace {
    fn clone(&self) -> (r: Self)
        ensures
            r.manifest_spec().nodes() == self.manifest_spec().nodes(),
            r.manifest_spec().text() == self.manifest_spec().text(),
            r.config_spec().nodes() == self.config_spec().nodes(),
            r.config_spec().text() == self.config_spec().text(),
    {
        Self { manifest: self.manifest.clone(), config: self.config.clone() }
    }
}

impl CargoWorkspace {
    /// The manifest of the workspace.
    pub closed spec fn manifest_spec(&self) -> CargoManifest {
        self.manifest
    }

    /// The configuration of the workspace.
    pub closed spec fn config_spec(&self) -> CargoConfig {
        self.config
    }

    /// The workspace of a manifest and the configuration beside it.
    pub fn new(manifest: CargoManifest, config: CargoConfig) -> (r: Self)
        ensures
            r.manifest_spec() == manifest,
            r.config_spec() == config,
    {
        Self { manifest, config }
    }

    /// Applies `template` to the profile in the manifest and to the
    /// configuration, both in memory, and says of each whether it changed.
    ///
    /// Fails as [`CargoManifest::apply_template`] does or, where that
    /// succeeds, as [`CargoConfig::apply_template`] does.
    ///
    /// What comes out holds the template, and what holds the template comes
    /// out unchanged: whatever the first application says, a second one says
    /// `NoChange` of both files.
    pub fn apply_template(self, profile: &Profile, template: &Template) -> (r: Result<
        ModifiedWorkspace,
        WizardError,
    >)
        ensures
            match manifest_applied(
                self.manifest_spec().nodes(),
                profile.name_spec(),
                profile.is_builtin_spec(),
                template@,
            ) {
                Applied::ProfilesNotTable => r matches Err(WizardError::ProfilesNotTable),
                Applied::ProfileNotTable => r matches Err(WizardError::ProfileNotTable { name })
                    && name@ == profile.name_spec(),
                Applied::Done(manifest_nodes) => match config_applied(
                    self.config_spec().nodes(),
                    template_flags(template@.items),
                ) {
                    Merged::BuildNotTable => r matches Err(WizardError::BuildNotTable),
                    Merged::FlagsNotStringOrArray => r matches Err(
                        WizardError::FlagsNotStringOrArray,
                    ),
                    Merged::Done(config_nodes) => r matches Ok(modified) && (exists|
                        manifest: CargoManifest,
                        config: CargoConfig,
                    |
                        {
                            &&& manifest.nodes() == manifest_nodes
                            &&& holds_template(
                                manifest.nodes(),
                                profile.name_spec(),
                                profile.is_builtin_spec(),
                                template@,
                            )
                            &&& config.nodes() == config_nodes
                            &&& holds_flags(config.nodes(), template_flags(template@.items))
                            &&& #[trigger] classifies_manifest(
                                modified.manifest_spec(),
                                self.manifest_spec().nodes(),
                                self.manifest_spec().text(),
                                manifest,
                            )
                            &&& #[trigger] classifies_config(
                                modified.config_spec(),
                                self.config_spec().nodes(),
                                self.config_spec().text(),
                                config,
                            )
                        }),
                },
            },
            holds_template(
                self.manifest_spec().nodes(),
                profile.name_spec(),
                profile.is_builtin_spec(),
                template@,
            ) ==> (r matches Ok(modified) ==> modified.manifest_spec() is NoChange),
            holds_flags(self.config_spec().nodes(), template_flags(template@.items)) ==> (
            r matches Ok(modified) ==> modified.config_spec() is NoChange),
    {
        let old_manifest = self.manifest.clone();
        let old_manifest_text = old_manifest.get_text();
        let new_manifest = self.manifest.apply_template(profile, template)?;
        let new_manifest_text = new_manifest.get_text();
        let ghost manifest_witness = new_manifest;
        let manifest = classify(old_manifest, new_manifest, &old_manifest_text, &new_manifest_text);
        let old_config = self.config.clone();
        let old_config_text = old_config.get_text();
        let new_config = self.config.apply_template(template)?;
        let new_config_text = new_config.get_text();
        let ghost config_witness = new_config;
        let config = classify(old_config, new_config, &old_config_text, &new_config_text);
        let modified = ModifiedWorkspace { manifest, config };
        proof {
            assert(classifies_manifest(
                modified.manifest_spec(),
                self.manifest_spec().nodes(),
                self.manifest_spec().text(),
                manifest_witness,
            ));
            assert(classifies_config(
                modified.config_spec(),
                self.config_spec().nodes(),
                self.config_spec().text(),
                config_witness,
            ));
        }
        Ok(modified)
    }

    /// The names of the profiles that the manifest declares.
    pub fn existing_profiles(&self) -> (r: Vec<String>)
        ensures
            r@.map_values(|name: String| name@) == profile_names(self.manifest_spec().nodes()),
    {
        self.manifest.get_profiles()
    }
}

/// Workspace that was modified through a template.
pub struct ModifiedWorkspace {
    manifest: ModificationResult<CargoManifest>,
    config: ModificationResult<CargoConfig>,
}

impl ModifiedWorkspace {
    /// What became of the manifest.
    pub closed spec fn manifest_spec(&self) -> ModificationResult<CargoManifest> {
        self.manifest
    }

    /// What became of the configuration.
    pub closed spec fn config_spec(&self) -> ModificationResult<CargoConfig> {
        self.config
    }

    pub fn manifest(&self) -> (r: &ModificationResult<CargoManifest>)
        ensures
            *r == self.manifest_spec(),
    {
        &self.manifest
    }

    pub fn config(&self) -> (r: &ModificationResult<CargoConfig>)
        ensures
            *r == self.config_spec(),
    {
        &self.config
    }

    /// Whether neither file changed: there is nothing to ask the user about
    /// and nothing to write.
    pub fn is_unchanged(&self) -> (r: bool)
        ensures
            r == (self.manifest_spec() is NoChange && self.config_spec() is NoChange),
    {
        let manifest = match &self.manifest {
            ModificationResult::NoChange => true,
            ModificationResult::Modified { .. } => false,
        };
        let config = match &self.config {
            ModificationResult::NoChange => true,
            ModificationResult::Modified { .. } => false,
        };
        manifest && config
    }

    /// The texts to write once the user has accepted the changes: that of the
    /// manifest and that of the configuration, each only if it changed.
    pub fn texts_to_write(&self) -> (r: (Option<String>, Option<String>))
        ensures
            match self.manifest_spec() {
                ModificationResult::NoChange => r.0 is None,
                ModificationResult::Modified { new, .. } => r.0 matches Some(text) && text@
                    == new.text(),
            },
            match self.config_spec() {
                ModificationResult::NoChange => r.1 is None,
                ModificationResult::Modified { new, .. } => r.1 matches Some(text) && text@
                    == new.text(),
            },
    {
        let manifest = match &self.manifest {
            ModificationResult::NoChange => None,
            ModificationResult::Modified { new, .. } => Some(new.get_text()),
        };
        let config = match &self.config {
            ModificationResult::NoChange => None,
            ModificationResult::Modified { new, .. } => Some(new.get_text()),
        };
        (manifest, config)
    }

    /// What is to be done once the changes were shown: without changes there
    /// is nothing to ask and nothing to write, whatever `accepted` says; with
    /// changes the texts of [`Self::texts_to_write`] are written if the user
    /// accepted, and nothing if not.
    pub fn decide(&self, accepted: bool) -> (r: Decision)
        ensures
            match r {
                Decision::NoDiff => self.manifest_spec() is NoChange && self.config_spec()
                    is NoChange,
                Decision::Denied => !accepted && !(self.manifest_spec() is NoChange
                    && self.config_spec() is NoChange),
                Decision::Accepted { manifest, config } => {
                    &&& accepted
                    &&& !(self.manifest_spec() is NoChange && self.config_spec() is NoChange)
                    &&& match self.manifest_spec() {
                        ModificationResult::NoChange => manifest is None,
                        ModificationResult::Modified { new, .. } => manifest matches Some(text)
                            && text@ == new.text(),
                    }
                    &&& match self.config_spec() {
                        ModificationResult::NoChange => config is None,
                        ModificationResult::Modified { new, .. } => config matches Some(text)
                            && text@ == new.text(),
                    }
                },
            },
    {
        if self.is_unchanged() {
            Decision::NoDiff
        } else if accepted {
            let (manifest, config) = self.texts_to_write();
            Decision::Accepted { manifest, config }
        } else {
            Decision::Denied
        }
    }
}

} // verus!
