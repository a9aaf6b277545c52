//! What is known about each template item: the values offered for it, whether
//! a value of the user's own is accepted, and whether it needs a nightly
//! compiler.

use vstd::prelude::*;
use vstd::string::{StrSliceExecFns, StringExecFns};
use crate::template::TemplateItemId;
use crate::text::{
    before_first, behind_first, chars_of, copy_texts, decimal, first_word, first_word_bounds,
    has_char, integer_text, lemma_first_index, lemma_first_index_is, texts_of,
};
use crate::toml::{Scalar, TomlValue};

verus! {

/// The kind of value that the user may enter for an item.
#[derive(Copy, Clone, Debug, PartialEq, Eq, Structural)]
pub enum TomlValueKind {
    Int,
    String,
}

impl TomlValueKind {
    /// Whether a scalar is of the kind.
    pub open spec fn matches_spec(self, value: Scalar) -> bool {
        match self {
            TomlValueKind::Int => value is Int,
            TomlValueKind::String => value is Str,
        }
    }

    pub fn matches_value(&self, value: &TomlValue) -> (r: bool)
        ensures
            r == self.matches_spec(value@),
    {
        match self {
            TomlValueKind::Int => match value {
                TomlValue::Int(_) => true,
                _ => false,
            },
            TomlValueKind::String => match value {
                TomlValue::String(_) => true,
                _ => false,
            },
        }
    }
}

/// How a value relates to what is offered for an item.
pub enum SelectedPossibleValue {
    /// The value is the offered value at `index`.
    Constant { index: usize, value: TomlValue },
    /// The value is none of the offered ones, and of the kind that the user
    /// may enter.
    Custom { value: TomlValue },
    /// The value is none of the offered ones and not of that kind.
    Unmatched,
}

/// Possible value of a Cargo profile or a Cargo config, along with a
/// description of what it does.
#[derive(Debug, Clone)]
pub struct PossibleValue {
    description: String,
    value: TomlValue,
}

impl PossibleValue {
    pub closed spec fn description_spec(&self) -> Seq<char> {
        self.description@
    }

    pub closed spec fn value_spec(&self) -> Scalar {
        self.value@
    }

    fn new(description: &str, value: TomlValue) -> (r: Self)
        ensures
            r.description_spec() == description@,
            r.value_spec() == value@,
    {
        Self { value, description: String::from_str(description) }
    }

    pub fn description(&self) -> (r: &str)
        ensures
            r@ == self.description_spec(),
    {
        self.description.as_str()
    }

    pub fn value(&self) -> (r: &TomlValue)
        ensures
            r@ == self.value_spec(),
    {
        &self.value
    }
}

/// The scalars of `values`, in their order.
pub open spec fn scalars_of(values: Seq<PossibleValue>) -> Seq<Scalar> {
    Seq::new(values.len(), |i: int| values[i].value_spec())
}

/// The descriptions of `values`, in their order.
pub open spec fn descriptions_of(values: Seq<PossibleValue>) -> Seq<Seq<char>> {
    Seq::new(values.len(), |i: int| values[i].description_spec())
}

/// A value of the user's own: its kind, and entries to suggest.
pub struct CustomPossibleValue {
    kind: TomlValueKind,
    possible_entries: Vec<String>,
}

impl CustomPossibleValue {
    pub closed spec fn kind_spec(&self) -> TomlValueKind {
        self.kind
    }

    pub closed spec fn entries_spec(&self) -> Seq<Seq<char>> {
        texts_of(self.possible_entries@)
    }

    /// A value of the kind, with entries to suggest.
    pub fn new(kind: TomlValueKind, possible_entries: Vec<String>) -> (r: Self)
        ensures
            r.kind_spec() == kind,
            r.entries_spec() == texts_of(possible_entries@),
    {
        Self { kind, possible_entries }
    }

    /// A value of the kind, with nothing to suggest.
    pub fn of_kind(kind: TomlValueKind) -> (r: Self)
        ensures
            r.kind_spec() == kind,
            r.entries_spec() == Seq::<Seq<char>>::empty(),
    {
        let possible_entries: Vec<String> = Vec::new();
        assert(texts_of(possible_entries@) =~= Seq::<Seq<char>>::empty());
        Self { kind, possible_entries }
    }

    pub fn kind(&self) -> (r: TomlValueKind)
        ensures
            r == self.kind_spec(),
    {
        self.kind
    }

    pub fn possible_entries(&self) -> (r: &[String])
        ensures
            texts_of(r@) == self.entries_spec(),
    {
        self.possible_entries.as_slice()
    }
}

/// The values offered for an item. The number of frontend threads is offered
/// as the number of cores of the machine.
pub open spec fn offered_values(id: TemplateItemId, core_count: i64) -> Seq<Scalar> {
    match id {
        TemplateItemId::OptimizationLevel => seq![
            Scalar::Int(0),
            Scalar::Int(1),
            Scalar::Int(2),
            Scalar::Int(3),
            Scalar::Str("s"@),
            Scalar::Str("z"@),
        ],
        TemplateItemId::Lto => seq![
            Scalar::Str("off"@),
            Scalar::Bool(false),
            Scalar::Str("thin"@),
            Scalar::Bool(true),
        ],
        TemplateItemId::CodegenUnits => seq![Scalar::Int(1)],
        TemplateItemId::Panic => seq![Scalar::Str("unwind"@), Scalar::Str("abort"@)],
        TemplateItemId::DebugInfo => seq![
            Scalar::Bool(false),
            Scalar::Str("line-directives-only"@),
            Scalar::Str("line-tables-only"@),
            Scalar::Int(1),
            Scalar::Bool(true),
        ],
        TemplateItemId::Strip => seq![
            Scalar::Bool(false),
            Scalar::Str("debuginfo"@),
            Scalar::Str("symbols"@),
            Scalar::Bool(true),
        ],
        TemplateItemId::TargetCpuInstructionSet => seq![Scalar::Str("native"@)],
        TemplateItemId::CodegenBackend => seq![Scalar::Str("llvm"@), Scalar::Str("cranelift"@)],
        TemplateItemId::FrontendThreads => seq![Scalar::Int(core_count)],
        TemplateItemId::Linker => seq![Scalar::Str("lld"@), Scalar::Str("mold"@)],
        TemplateItemId::Incremental | TemplateItemId::SplitDebugInfo => Seq::empty(),
    }
}

/// How the values offered for an item are described, in the order of
/// [`offered_values`]. The number of cores is described by itself in decimal,
/// followed by ` (local core count)`.
pub open spec fn offered_descriptions(id: TemplateItemId, core_count: i64) -> Seq<Seq<char>> {
    match id {
        TemplateItemId::OptimizationLevel => seq![
            "No optimizations"@,
            "Basic optimizations"@,
            "Some optimizations"@,
            "All optimizations"@,
            "Optimize for small size"@,
            "Optimize for even smaller size"@,
        ],
        TemplateItemId::Lto => seq![
            "Disable LTO"@,
            "Thin local LTO"@,
            "Thin LTO"@,
            "Fat LTO"@,
        ],
        TemplateItemId::CodegenUnits => seq!["1 CGU"@],
        TemplateItemId::Panic => seq!["Unwind"@, "Abort"@],
        TemplateItemId::DebugInfo => seq![
            "Disable debuginfo"@,
            "Enable line directives"@,
            "Enable line tables"@,
            "Limited debuginfo"@,
            "Full debuginfo"@,
        ],
        TemplateItemId::Strip => seq![
            "Do not strip anything"@,
            "Strip debug info"@,
            "Strip symbols"@,
            "Strip debug info and symbols"@,
        ],
        TemplateItemId::TargetCpuInstructionSet => seq!["Native (best for the local CPU)"@],
        TemplateItemId::CodegenBackend => seq!["LLVM"@, "Cranelift"@],
        TemplateItemId::FrontendThreads => seq![
            decimal(core_count as int) + " (local core count)"@,
        ],
        TemplateItemId::Linker => seq!["LLD"@, "MOLD"@],
        TemplateItemId::Incremental | TemplateItemId::SplitDebugInfo => Seq::empty(),
    }
}

/// The kind of value that the user may enter for an item, if any.
pub open spec fn custom_kind(id: TemplateItemId) -> Option<TomlValueKind> {
    match id {
        TemplateItemId::CodegenUnits | TemplateItemId::FrontendThreads => Some(TomlValueKind::Int),
        TemplateItemId::TargetCpuInstructionSet => Some(TomlValueKind::String),
        _ => None,
    }
}

/// Whether an item needs a nightly compiler.
pub open spec fn needs_nightly(id: TemplateItemId) -> bool {
    id == TemplateItemId::CodegenBackend || id == TemplateItemId::FrontendThreads
}

/// What is known about a template item.
pub struct TemplateItemMedata {
    values: Vec<PossibleValue>,
    custom_value: Option<CustomPossibleValue>,
    requires_nightly: bool,
}

/// The place of the first of `values` that is `value`, if there is one.
pub open spec fn first_match(values: Seq<Scalar>, value: Scalar) -> Option<int> {
    if exists|i: int| 0 <= i < values.len() && values[i] == value {
        Some(
            choose|i: int|
                0 <= i < values.len() && values[i] == value && forall|j: int|
                    0 <= j < i ==> values[j] != value,
        )
    } else {
        None
    }
}

impl TemplateItemMedata {
    /// The offered values.
    pub closed spec fn values_spec(&self) -> Seq<PossibleValue> {
        self.values@
    }

    /// The value of the user's own, if one is accepted.
    pub closed spec fn custom_spec(&self) -> Option<CustomPossibleValue> {
        self.custom_value
    }

    /// Whether the item needs a nightly compiler.
    pub closed spec fn nightly_spec(&self) -> bool {
        self.requires_nightly
    }

    /// How `value` relates to what is offered: the first offered value that
    /// equals it; else a value of the user's own, if one of its kind is
    /// accepted.
    pub fn get_selected_value(&self, value: TomlValue) -> (r: SelectedPossibleValue)
        ensures
            match first_match(scalars_of(self.values_spec()), value@) {
                Some(i) => r matches SelectedPossibleValue::Constant { index, value: v } && index
                    == i && v@ == value@,
                None => match self.custom_spec() {
                    Some(custom) => if custom.kind_spec().matches_spec(value@) {
                        r matches SelectedPossibleValue::Custom { value: v } && v@ == value@
                    } else {
                        r is Unmatched
                    },
                    None => r is Unmatched,
                },
            },
    {
        let ghost scalars = scalars_of(self.values@);
        let mut i: usize = 0;
        while i < self.values.len()
            invariant
                i <= self.values.len(),
                scalars == scalars_of(self.values@),
                forall|j: int| 0 <= j < i ==> scalars[j] != value@,
            decreases self.values.len() - i,
        {
            if self.values[i].value == value {
                proof {
                    assert(scalars[i as int] == value@);
                    let k = first_match(scalars, value@)->0;
                    if k < i {
                        assert(scalars[k] != value@);
                    }
                }
                return SelectedPossibleValue::Constant { value, index: i };
            }
            i += 1;
        }
        match &self.custom_value {
            Some(custom) => {
                if custom.kind().matches_value(&value) {
                    return SelectedPossibleValue::Custom { value };
                }
            },
            None => {},
        }
        SelectedPossibleValue::Unmatched
    }

    pub fn get_possible_values(&self) -> (r: &[PossibleValue])
        ensures
            r@ == self.values_spec(),
    {
        self.values.as_slice()
    }

    pub fn get_custom_value(&self) -> (r: Option<&CustomPossibleValue>)
        ensures
            match r {
                Some(custom) => self.custom_spec() == Some(*custom),
                None => self.custom_spec() is None,
            },
    {
        self.custom_value.as_ref()
    }

    pub fn requires_nightly(&self) -> (r: bool)
        ensures
            r == self.nightly_spec(),
    {
        self.requires_nightly
    }
}

/// Collects what is known about an item.
struct MetadataBuilder {
    values: Vec<PossibleValue>,
    custom_value: Option<CustomPossibleValue>,
    requires_nightly: bool,
}

impl MetadataBuilder {
    fn new() -> (r: Self)
        ensures
            scalars_of(r.values@) == Seq::<Scalar>::empty(),
            descriptions_of(r.values@) == Seq::<Seq<char>>::empty(),
            r.custom_value is None,
            !r.requires_nightly,
    {
        let values: Vec<PossibleValue> = Vec::new();
        assert(scalars_of(values@) =~= Seq::<Scalar>::empty());
        assert(descriptions_of(values@) =~= Seq::<Seq<char>>::empty());
        Self { values, custom_value: None, requires_nightly: false }
    }

    fn build(self) -> (r: TemplateItemMedata)
        ensures
            r.values_spec() == self.values@,
            r.custom_spec() == self.custom_value,
            r.nightly_spec() == self.requires_nightly,
    {
        let MetadataBuilder { values, custom_value, requires_nightly } = self;
        TemplateItemMedata { values, custom_value, requires_nightly }
    }

    fn value(self, description: &str, value: TomlValue) -> (r: Self)
        ensures
            scalars_of(r.values@) == scalars_of(self.values@).push(value@),
            r.values@.len() == self.values@.len() + 1,
            descriptions_of(r.values@) == descriptions_of(self.values@).push(description@),
            r.custom_value == self.custom_value,
            r.requires_nightly == self.requires_nightly,
    {
        let mut builder = self;
        builder.values.push(PossibleValue::new(description, value));
        assert(scalars_of(builder.values@) =~= scalars_of(self.values@).push(value@));
        assert(descriptions_of(builder.values@) =~= descriptions_of(self.values@).push(
            description@,
        ));
        builder
    }

    fn integer(self, description: &str, value: i64) -> (r: Self)
        ensures
            scalars_of(r.values@) == scalars_of(self.values@).push(Scalar::Int(value)),
            r.values@.len() == self.values@.len() + 1,
            descriptions_of(r.values@) == descriptions_of(self.values@).push(description@),
            r.custom_value == self.custom_value,
            r.requires_nightly == self.requires_nightly,
    {
        self.value(description, TomlValue::Int(value))
    }

    fn bool(self, description: &str, value: bool) -> (r: Self)
        ensures
            scalars_of(r.values@) == scalars_of(self.values@).push(Scalar::Bool(value)),
            r.values@.len() == self.values@.len() + 1,
            descriptions_of(r.values@) == descriptions_of(self.values@).push(description@),
            r.custom_value == self.custom_value,
            r.requires_nightly == self.requires_nightly,
    {
        self.value(description, TomlValue::Bool(value))
    }

    fn string(self, description: &str, value: &str) -> (r: Self)
        ensures
            scalars_of(r.values@) == scalars_of(self.values@).push(Scalar::Str(value@)),
            r.values@.len() == self.values@.len() + 1,
            descriptions_of(r.values@) == descriptions_of(self.values@).push(description@),
            r.custom_value == self.custom_value,
            r.requires_nightly == self.requires_nightly,
    {
        self.value(description, TomlValue::String(String::from_str(value)))
    }

    fn custom_value(self, value: CustomPossibleValue) -> (r: Self)
        ensures
            r.values@ == self.values@,
            r.custom_value == Some(value),
            r.requires_nightly == self.requires_nightly,
    {
        let mut builder = self;
        builder.custom_value = Some(value);
        builder
    }

    fn requires_nightly(self) -> (r: Self)
        ensures
            r.values@ == self.values@,
            r.custom_value == self.custom_value,
            r.requires_nightly,
    {
        let mut builder = self;
        builder.requires_nightly = true;
        builder
    }
}

/// The first words of the lines of `text`, for the lines that have one.
#[verifier::opaque]
pub open spec fn names_in(text: Seq<char>) -> Seq<Seq<char>>
    decreases text.len(),
{
    if has_char(text, '\n') {
        proof {
            lemma_first_index(text, '\n');
        }
        named(before_first(text, '\n')) + names_in(behind_first(text, '\n'))
    } else {
        named(text)
    }
}

/// The first word of a line, if it has one.
#[verifier::opaque]
pub open spec fn named(line: Seq<char>) -> Seq<Seq<char>> {
    if first_word(line).len() > 0 {
        seq![first_word(line)]
    } else {
        Seq::empty()
    }
}

/// The target CPUs in what the compiler prints when asked for them: a
/// heading, then one CPU to a line, its name first.
pub open spec fn cpu_names(text: Seq<char>) -> Seq<Seq<char>> {
    if has_char(text, '\n') {
        names_in(behind_first(text, '\n'))
    } else {
        Seq::empty()
    }
}

/// The place of the first line feed at or behind `from`, or the end of the
/// text.
fn line_end(chars: &Vec<char>, from: usize) -> (r: usize)
    requires
        from <= chars@.len(),
    ensures
        from <= r <= chars@.len(),
        forall|j: int| from <= j < r ==> chars@[j] != '\n',
        r < chars@.len() ==> chars@[r as int] == '\n',
{
    let mut i: usize = from;
    while i < chars.len() && chars[i] != '\n'
        invariant
            from <= i <= chars@.len(),
            forall|j: int| from <= j < i ==> chars@[j] != '\n',
        decreases chars.len() - i,
    {
        i += 1;
    }
    i
}

/// The names in what stands behind `from`: that in the line up to `end`,
/// then those behind the line feed at `end`, if there is one.
proof fn lemma_names_from(text: Seq<char>, from: int, end: int)
    requires
        0 <= from <= end <= text.len(),
        forall|j: int| from <= j < end ==> text[j] != '\n',
        end < text.len() ==> text[end] == '\n',
    ensures
        names_in(text.subrange(from, text.len() as int)) == if end < text.len() {
            named(text.subrange(from, end)) + names_in(
                text.subrange(end + 1, text.len() as int),
            )
        } else {
            named(text.subrange(from, end))
        },
{
    let rest = text.subrange(from, text.len() as int);
    reveal_with_fuel(names_in, 1);
    if end < text.len() {
        assert(rest[end - from] == text[end]);
        assert forall|j: int| 0 <= j < end - from implies rest[j] != '\n' by {
            assert(rest[j] == text[from + j]);
        }
        lemma_first_index_is(rest, '\n', end - from);
        assert(before_first(rest, '\n') =~= text.subrange(from, end));
        assert(behind_first(rest, '\n') =~= text.subrange(end + 1, text.len() as int));
    } else {
        assert forall|j: int| 0 <= j < rest.len() implies rest[j] != '\n' by {
            assert(rest[j] == text[from + j]);
        }
        assert(!has_char(rest, '\n'));
        assert(rest =~= text.subrange(from, end));
    }
}

/// The names in what stands behind the first line.
proof fn lemma_names_behind_heading(text: Seq<char>, end: int)
    requires
        0 <= end <= text.len(),
        forall|j: int| 0 <= j < end ==> text[j] != '\n',
        end < text.len() ==> text[end] == '\n',
    ensures
        cpu_names(text) == if end < text.len() {
            names_in(text.subrange(end + 1, text.len() as int))
        } else {
            Seq::empty()
        },
{
    if end < text.len() {
        lemma_first_index_is(text, '\n', end);
    }
}

/// Adds the first word of the line from `from` up to `end`, if the line has
/// one, to `names`.
fn push_first_word(names: &mut Vec<String>, input: &str, chars: &Vec<char>, from: usize, end: usize)
    requires
        chars@ == input@,
        from <= end <= chars@.len(),
    ensures
        texts_of(final(names)@) == texts_of(old(names)@) + named(
            input@.subrange(from as int, end as int),
        ),
{
    let word = first_word_bounds(chars, from, end);
    let ghost before = texts_of(names@);
    reveal(named);
    if word.1 > word.0 {
        let name = String::from_str(input.substring_char(word.0, word.1));
        names.push(name);
        assert(texts_of(names@) =~= before.push(input@.subrange(word.0 as int, word.1 as int)));
    }
    assert(texts_of(names@) =~= before + named(input@.subrange(from as int, end as int)));
}

/// The target CPUs in what the compiler prints when asked for them.
#[verifier::rlimit(30)]
pub fn parse_target_cpu_list(input: &str) -> (r: Vec<String>)
    ensures
        texts_of(r@) == cpu_names(input@),
{
    let chars = chars_of(input);
    let len = chars.len();
    let mut names: Vec<String> = Vec::new();
    assert(texts_of(names@) =~= Seq::<Seq<char>>::empty());
    let first = line_end(&chars, 0);
    proof {
        lemma_names_behind_heading(chars@, first as int);
    }
    if first == len {
        return names;
    }
    let mut start: usize = first + 1;
    let mut finished = false;
    assert(texts_of(names@) + names_in(chars@.subrange(start as int, len as int)) =~= names_in(
        chars@.subrange(start as int, len as int),
    ));
    while !finished
        invariant
            start <= len,
            len == chars@.len(),
            chars@ == input@,
            finished ==> texts_of(names@) == cpu_names(input@),
            !finished ==> cpu_names(input@) == texts_of(names@) + names_in(
                chars@.subrange(start as int, len as int),
            ),
        decreases
                if finished {
                    0
                } else {
                    len - start + 1
                },
    {
        let end = line_end(&chars, start);
        let ghost before = texts_of(names@);
        let ghost line = named(chars@.subrange(start as int, end as int));
        proof {
            lemma_names_from(chars@, start as int, end as int);
        }
        push_first_word(&mut names, input, &chars, start, end);
        if end == len {
            finished = true;
        } else {
            proof {
                let next = names_in(chars@.subrange(end + 1, len as int));
                assert(before + (line + next) =~= (before + line) + next);
            }
            start = end + 1;
        }
    }
    names
}

/// Known options from Cargo, containing descriptions and possible values.
pub struct KnownCargoOptions {
    core_count: i64,
    cpu_list: Vec<String>,
}

/// The items that the user may set, in the order in which they are shown.
pub open spec fn all_ids() -> Seq<TemplateItemId> {
    seq![
        TemplateItemId::OptimizationLevel,
        TemplateItemId::Lto,
        TemplateItemId::CodegenUnits,
        TemplateItemId::TargetCpuInstructionSet,
        TemplateItemId::Panic,
        TemplateItemId::DebugInfo,
        TemplateItemId::Strip,
        TemplateItemId::Linker,
        TemplateItemId::CodegenBackend,
        TemplateItemId::FrontendThreads,
    ]
}

impl KnownCargoOptions {
    /// The number of cores of the machine.
    pub closed spec fn core_count_spec(&self) -> i64 {
        self.core_count
    }

    /// The target CPUs that the compiler knows.
    pub closed spec fn cpu_list_spec(&self) -> Seq<Seq<char>> {
        texts_of(self.cpu_list@)
    }

    /// The options for a machine with `core_count` cores and a compiler that
    /// knows the target CPUs of `cpu_list`.
    pub fn create(core_count: i64, cpu_list: Vec<String>) -> (r: Self)
        ensures
            r.core_count_spec() == core_count,
            r.cpu_list_spec() == texts_of(cpu_list@),
    {
        Self { core_count, cpu_list }
    }

    pub fn get_all_ids() -> (r: Vec<TemplateItemId>)
        ensures
            r@ == all_ids(),
    {
        let mut ids: Vec<TemplateItemId> = Vec::new();
        ids.push(TemplateItemId::OptimizationLevel);
        ids.push(TemplateItemId::Lto);
        ids.push(TemplateItemId::CodegenUnits);
        ids.push(TemplateItemId::TargetCpuInstructionSet);
        ids.push(TemplateItemId::Panic);
        ids.push(TemplateItemId::DebugInfo);
        ids.push(TemplateItemId::Strip);
        ids.push(TemplateItemId::Linker);
        ids.push(TemplateItemId::CodegenBackend);
        ids.push(TemplateItemId::FrontendThreads);
        assert(ids@ =~= all_ids());
        ids
    }

    /// What is known about an item: the values of [`offered_values`], described
    /// as [`offered_descriptions`] says, a value of the user's own of the kind
    /// of [`custom_kind`] (for the target CPU with the known CPUs to suggest),
    /// and whether [`needs_nightly`].
    pub fn get_metadata(&self, id: TemplateItemId) -> (r: TemplateItemMedata)
        ensures
            scalars_of(r.values_spec()) == offered_values(id, self.core_count_spec()),
            descriptions_of(r.values_spec()) == offered_descriptions(id, self.core_count_spec()),
            r.nightly_spec() == needs_nightly(id),
            match custom_kind(id) {
                Some(kind) => r.custom_spec() matches Some(custom) && custom.kind_spec() == kind
                    && custom.entries_spec() == if id == TemplateItemId::TargetCpuInstructionSet {
                    self.cpu_list_spec()
                } else {
                    Seq::empty()
                },
                None => r.custom_spec() is None,
            },
    {
        let b = MetadataBuilder::new();
        let b = match id {
            TemplateItemId::OptimizationLevel => {
                let b = b.integer("No optimizations", 0);
                let b = b.integer("Basic optimizations", 1);
                let b = b.integer("Some optimizations", 2);
                let b = b.integer("All optimizations", 3);
                let b = b.string("Optimize for small size", "s");
                b.string("Optimize for even smaller size", "z")
            },
            TemplateItemId::Lto => {
                let b = b.string("Disable LTO", "off");
                let b = b.bool("Thin local LTO", false);
                let b = b.string("Thin LTO", "thin");
                b.bool("Fat LTO", true)
            },
            TemplateItemId::CodegenUnits => {
                let b = b.integer("1 CGU", 1);
                b.custom_value(CustomPossibleValue::of_kind(TomlValueKind::Int))
            },
            TemplateItemId::Panic => {
                let b = b.string("Unwind", "unwind");
                b.string("Abort", "abort")
            },
            TemplateItemId::DebugInfo => {
                let b = b.bool("Disable debuginfo", false);
                let b = b.string("Enable line directives", "line-directives-only");
                let b = b.string("Enable line tables", "line-tables-only");
                let b = b.integer("Limited debuginfo", 1);
                b.bool("Full debuginfo", true)
            },
            TemplateItemId::Strip => {
                let b = b.bool("Do not strip anything", false);
                let b = b.string("Strip debug info", "debuginfo");
                let b = b.string("Strip symbols", "symbols");
                b.bool("Strip debug info and symbols", true)
            },
            TemplateItemId::TargetCpuInstructionSet => {
                let b = b.string("Native (best for the local CPU)", "native");
                let entries = copy_texts(&self.cpu_list);
                b.custom_value(CustomPossibleValue::new(TomlValueKind::String, entries))
            },
            TemplateItemId::CodegenBackend => {
                let b = b.string("LLVM", "llvm");
                let b = b.string("Cranelift", "cranelift");
                b.requires_nightly()
            },
            TemplateItemId::FrontendThreads => {
                let description = integer_text(self.core_count).concat(" (local core count)");
                let b = b.integer(description.as_str(), self.core_count);
                let b = b.requires_nightly();
                b.custom_value(CustomPossibleValue::of_kind(TomlValueKind::Int))
            },
            TemplateItemId::Linker => {
                let b = b.string("LLD", "lld");
                b.string("MOLD", "mold")
            },
            TemplateItemId::Incremental | TemplateItemId::SplitDebugInfo => b,
        };
        assert(scalars_of(b.values@) =~= offered_values(id, self.core_count));
        assert(descriptions_of(b.values@) =~= offered_descriptions(id, self.core_count));
        b.build()
    }
}

} // verus!
