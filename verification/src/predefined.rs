//! The templates that come with the wizard.

use vstd::prelude::*;
use vstd::string::StringExecFns;
use crate::template::{
    lemma_with_new_entry, with_entry, Template, TemplateBuilder, TemplateItemId, WizardOptions,
};
use crate::toml::{Scalar, TomlValue};
use crate::workspace::manifest::BuiltinProfile;

verus! {

/// Enumeration of predefined templates.
#[derive(Clone, Copy, Debug, PartialEq, Eq, Structural)]
pub enum PredefinedTemplateKind {
    /// Profile designed for fast compilation times.
    FastCompile,
    /// Profile designed for fast runtime performance.
    FastRuntime,
    /// Profile designed for minimal binary size.
    MinSize,
}

/// What is known of the compiler in use.
pub struct CompilerInfo {
    pub major: u64,
    pub minor: u64,
    pub patch: u64,
    /// The version is a pre-release, such as a nightly build.
    pub prerelease: bool,
    /// The target triple of the host.
    pub host: String,
}

/// What the templates need to know of the machine.
pub struct BuildEnvironment {
    /// The machine runs a Unix.
    pub unix: bool,
    /// The compiler, if its version could be found.
    pub compiler: Option<CompilerInfo>,
    /// The number of cores.
    pub core_count: i64,
}

/// The compiler is older than 1.90.0. A pre-release of a version comes before
/// the version.
pub open spec fn before_1_90(compiler: CompilerInfo) -> bool {
    compiler.major < 1 || (compiler.major == 1 && (compiler.minor < 90 || (compiler.minor == 90
        && compiler.patch == 0 && compiler.prerelease)))
}

/// Whether fast compilation asks for the linker `lld`: on a Unix where the
/// compiler does not link with it by itself (from 1.90.0 on it does on
/// `x86_64-unknown-linux-gnu`) and the host is not `aarch64-apple-darwin`;
/// also where the compiler is unknown.
pub open spec fn wants_lld(environment: BuildEnvironment) -> bool {
    environment.unix && match environment.compiler {
        Some(compiler) => (before_1_90(compiler) || compiler.host@
            != "x86_64-unknown-linux-gnu"@) && compiler.host@ != "aarch64-apple-darwin"@,
        None => true,
    }
}

/// Whether fast compilation asks for the linker `lld`.
pub fn prefers_lld(environment: &BuildEnvironment) -> (r: bool)
    ensures
        r == wants_lld(*environment),
{
    if !environment.unix {
        return false;
    }
    match &environment.compiler {
        Some(compiler) => {
            let old = compiler.major < 1 || (compiler.major == 1 && (compiler.minor < 90 || (
            compiler.minor == 90 && compiler.patch == 0 && compiler.prerelease)));
            let linux = compiler.host == String::from_str("x86_64-unknown-linux-gnu");
            let apple = compiler.host == String::from_str("aarch64-apple-darwin");
            (old || !linux) && !apple
        },
        None => true,
    }
}

/// The items of the template for fast compilation.
pub open spec fn fast_compile_items(nightly: bool, environment: BuildEnvironment) -> Seq<
    (TemplateItemId, Scalar),
> {
    let base = seq![(TemplateItemId::DebugInfo, Scalar::Int(0))];
    let linked = if wants_lld(environment) {
        with_entry(base, TemplateItemId::Linker, Scalar::Str("lld"@))
    } else {
        base
    };
    if nightly {
        with_entry(
            with_entry(linked, TemplateItemId::CodegenBackend, Scalar::Str("cranelift"@)),
            TemplateItemId::FrontendThreads,
            Scalar::Int(environment.core_count),
        )
    } else {
        linked
    }
}

/// The items of the template for fast programs.
pub open spec fn fast_runtime_items() -> Seq<(TemplateItemId, Scalar)> {
    seq![
        (TemplateItemId::Lto, Scalar::Bool(true)),
        (TemplateItemId::CodegenUnits, Scalar::Int(1)),
        (TemplateItemId::Panic, Scalar::Str("abort"@)),
        (TemplateItemId::TargetCpuInstructionSet, Scalar::Str("native"@)),
    ]
}

/// The items of the template for small programs.
pub open spec fn min_size_items() -> Seq<(TemplateItemId, Scalar)> {
    seq![
        (TemplateItemId::DebugInfo, Scalar::Int(0)),
        (TemplateItemId::Strip, Scalar::Bool(true)),
        (TemplateItemId::Lto, Scalar::Bool(true)),
        (TemplateItemId::OptimizationLevel, Scalar::Str("z"@)),
        (TemplateItemId::CodegenUnits, Scalar::Int(1)),
        (TemplateItemId::Panic, Scalar::Str("abort"@)),
    ]
}

impl PredefinedTemplateKind {
    /// The items of the template of the kind.
    pub open spec fn items(self, nightly: bool, environment: BuildEnvironment) -> Seq<
        (TemplateItemId, Scalar),
    > {
        match self {
            PredefinedTemplateKind::FastCompile => fast_compile_items(nightly, environment),
            PredefinedTemplateKind::FastRuntime => fast_runtime_items(),
            PredefinedTemplateKind::MinSize => min_size_items(),
        }
    }

    /// The built-in profile that the template of the kind is relative to.
    pub open spec fn base(self) -> BuiltinProfile {
        match self {
            PredefinedTemplateKind::FastCompile => BuiltinProfile::Dev,
            _ => BuiltinProfile::Release,
        }
    }

    /// The name of the kind.
    pub open spec fn name_spec(self) -> Seq<char> {
        match self {
            PredefinedTemplateKind::FastCompile => "FastCompile"@,
            PredefinedTemplateKind::FastRuntime => "FastRuntime"@,
            PredefinedTemplateKind::MinSize => "MinSize"@,
        }
    }

    pub fn name(&self) -> (r: &'static str)
        ensures
            r@ == self.name_spec(),
    {
        match self {
            PredefinedTemplateKind::FastCompile => "FastCompile",
            PredefinedTemplateKind::FastRuntime => "FastRuntime",
            PredefinedTemplateKind::MinSize => "MinSize",
        }
    }

    pub fn build_template(&self, options: &WizardOptions, environment: &BuildEnvironment) -> (r:
        Template)
        ensures
            r@.inherits == self.base(),
            r@.items == self.items(options.nightly(), *environment),
    {
        match self {
            PredefinedTemplateKind::FastCompile => fast_compile_template(options, environment),
            PredefinedTemplateKind::FastRuntime => fast_runtime_template(),
            PredefinedTemplateKind::MinSize => min_size_template(),
        }
    }
}

/// Template that focuses on quick compile time.
pub fn fast_compile_template(options: &WizardOptions, environment: &BuildEnvironment) -> (r:
    Template)
    ensures
        r@.inherits == BuiltinProfile::Dev,
        r@.items == fast_compile_items(options.nightly(), *environment),
{
    let empty = TemplateBuilder::new(BuiltinProfile::Dev);
    let mut builder = empty.item(TemplateItemId::DebugInfo, TomlValue::integer(0));
    proof {
        lemma_with_new_entry(empty@.items, TemplateItemId::DebugInfo, Scalar::Int(0));
        assert(builder@.items =~= seq![(TemplateItemId::DebugInfo, Scalar::Int(0))]);
    }
    if prefers_lld(environment) {
        builder = builder.item(TemplateItemId::Linker, TomlValue::string("lld"));
    }
    if options.nightly_items_enabled() {
        builder = builder.item(TemplateItemId::CodegenBackend, TomlValue::string("cranelift"));
        builder = builder.item(
            TemplateItemId::FrontendThreads,
            TomlValue::Int(environment.core_count),
        );
    }
    builder.build()
}

/// Template that focuses on maximum runtime performance.
pub fn fast_runtime_template() -> (r: Template)
    ensures
        r@.inherits == BuiltinProfile::Release,
        r@.items == fast_runtime_items(),
{
    let b0 = TemplateBuilder::new(BuiltinProfile::Release);
    let b1 = b0.item(TemplateItemId::Lto, TomlValue::bool(true));
    let b2 = b1.item(TemplateItemId::CodegenUnits, TomlValue::integer(1));
    let b3 = b2.item(TemplateItemId::Panic, TomlValue::string("abort"));
    let b4 = b3.item(TemplateItemId::TargetCpuInstructionSet, TomlValue::string("native"));
    proof {
        lemma_with_new_entry(b0@.items, TemplateItemId::Lto, Scalar::Bool(true));
        lemma_with_new_entry(b1@.items, TemplateItemId::CodegenUnits, Scalar::Int(1));
        lemma_with_new_entry(b2@.items, TemplateItemId::Panic, Scalar::Str("abort"@));
        lemma_with_new_entry(
            b3@.items,
            TemplateItemId::TargetCpuInstructionSet,
            Scalar::Str("native"@),
        );
        assert(b4@.items =~= fast_runtime_items());
    }
    b4.build()
}

/// Template that focuses on minimal binary size.
pub fn min_size_template() -> (r: Template)
    ensures
        r@.inherits == BuiltinProfile::Release,
        r@.items == min_size_items(),
{
    let b0 = TemplateBuilder::new(BuiltinProfile::Release);
    let b1 = b0.item(TemplateItemId::DebugInfo, TomlValue::integer(0));
    let b2 = b1.item(TemplateItemId::Strip, TomlValue::bool(true));
    let b3 = b2.item(TemplateItemId::Lto, TomlValue::bool(true));
    let b4 = b3.item(TemplateItemId::OptimizationLevel, TomlValue::string("z"));
    let b5 = b4.item(TemplateItemId::CodegenUnits, TomlValue::integer(1));
    let b6 = b5.item(TemplateItemId::Panic, TomlValue::string("abort"));
    proof {
        lemma_with_new_entry(b0@.items, TemplateItemId::DebugInfo, Scalar::Int(0));
        lemma_with_new_entry(b1@.items, TemplateItemId::Strip, Scalar::Bool(true));
        lemma_with_new_entry(b2@.items, TemplateItemId::Lto, Scalar::Bool(true));
        lemma_with_new_entry(b3@.items, TemplateItemId::OptimizationLevel, Scalar::Str("z"@));
        lemma_with_new_entry(b4@.items, TemplateItemId::CodegenUnits, Scalar::Int(1));
        lemma_with_new_entry(b5@.items, TemplateItemId::Panic, Scalar::Str("abort"@));
        assert(b6@.items =~= min_size_items());
    }
    b6.build()
}

} // verus!
