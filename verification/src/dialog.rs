//! What the wizard tells the user, as far as it can be said without a
//! terminal: how a profile name is read, how an item is shown in a list, and
//! what is reported once a template was applied.

use vstd::prelude::*;
use vstd::string::{StrSliceExecFns, StringExecFns};
use crate::known_options::{
    needs_nightly, KnownCargoOptions, SelectedPossibleValue, TemplateItemMedata, TomlValueKind,
};
use crate::predefined::PredefinedTemplateKind;
use crate::template::{Template, TemplateItemId};
use crate::text::{integer_of, parse_integer};
use crate::toml::{Scalar, TomlValue};
use crate::workspace::config::{scalar_text, value_text};
use crate::workspace::manifest::{BuiltinProfile, Profile};

verus! {

/// Whether `name` is the name of one of Cargo's own profiles.
pub fn is_builtin_profile(name: &str) -> (r: bool)
    ensures
        r == (name@ == "dev"@ || name@ == "release"@),
{
    let name = String::from_str(name);
    name == String::from_str("dev") || name == String::from_str("release")
}

/// Why a text is no profile name.
pub open spec fn empty_profile_message() -> Seq<char> {
    "Profile cannot be empty"@
}

/// The profile that a text names: `dev` and `release` are Cargo's own, any
/// other text names a profile of the user's. The empty text names none.
pub fn profile_from_str(text: &str) -> (r: Result<Profile, String>)
    ensures
        match r {
            Ok(profile) => text@.len() > 0 && profile.name_spec() == text@
                && profile.is_builtin_spec() == (text@ == "dev"@ || text@ == "release"@),
            Err(message) => text@.len() == 0 && message@ == empty_profile_message(),
        },
{
    if text.unicode_len() == 0 {
        return Err(String::from_str("Profile cannot be empty"));
    }
    let name = String::from_str(text);
    if name == String::from_str("dev") {
        Ok(Profile::dev())
    } else if name == String::from_str("release") {
        Ok(Profile::release())
    } else {
        Ok(Profile::Custom(name))
    }
}

/// How an item is called in the wizard.
pub open spec fn description_of(id: TemplateItemId) -> Seq<char> {
    match id {
        TemplateItemId::DebugInfo => "Debug info"@,
        TemplateItemId::Strip => "Strip symbols"@,
        TemplateItemId::Lto => "Link-time optimizations"@,
        TemplateItemId::CodegenUnits => "Number of codegen units (CGUs)"@,
        TemplateItemId::Panic => "Panic handling mechanism"@,
        TemplateItemId::OptimizationLevel => "Optimization level"@,
        TemplateItemId::CodegenBackend => "Codegen backend"@,
        TemplateItemId::TargetCpuInstructionSet => "Target CPU instruction set"@,
        TemplateItemId::FrontendThreads => "Number of frontend threads"@,
        TemplateItemId::Linker => "Linker"@,
        TemplateItemId::Incremental => "Incremental compilation"@,
        TemplateItemId::SplitDebugInfo => "Split debug info"@,
    }
}

/// How an item is called in the wizard.
pub fn item_description(id: TemplateItemId) -> (r: &'static str)
    ensures
        r@ == description_of(id),
{
    match id {
        TemplateItemId::DebugInfo => "Debug info",
        TemplateItemId::Strip => "Strip symbols",
        TemplateItemId::Lto => "Link-time optimizations",
        TemplateItemId::CodegenUnits => "Number of codegen units (CGUs)",
        TemplateItemId::Panic => "Panic handling mechanism",
        TemplateItemId::OptimizationLevel => "Optimization level",
        TemplateItemId::CodegenBackend => "Codegen backend",
        TemplateItemId::TargetCpuInstructionSet => "Target CPU instruction set",
        TemplateItemId::FrontendThreads => "Number of frontend threads",
        TemplateItemId::Linker => "Linker",
        TemplateItemId::Incremental => "Incremental compilation",
        TemplateItemId::SplitDebugInfo => "Split debug info",
    }
}

/// `count` spaces.
pub open spec fn spaces(count: nat) -> Seq<char> {
    Seq::new(count, |i: int| ' ')
}

/// `text` with spaces behind it up to `width` characters; a longer text as it
/// is.
pub open spec fn padded_right(text: Seq<char>, width: nat) -> Seq<char> {
    if text.len() >= width {
        text
    } else {
        text + spaces((width - text.len()) as nat)
    }
}

/// `text` with spaces before it up to `width` characters; a longer text as it
/// is.
pub open spec fn padded_left(text: Seq<char>, width: nat) -> Seq<char> {
    if text.len() >= width {
        text
    } else {
        spaces((width - text.len()) as nat) + text
    }
}

/// `count` spaces.
fn blank(count: usize) -> (r: String)
    ensures
        r@ == spaces(count as nat),
{
    let mut out = String::new();
    let mut i: usize = 0;
    assert(out@ =~= spaces(0));
    while i < count
        invariant
            i <= count,
            out@ == spaces(i as nat),
        decreases count - i,
    {
        proof {
            reveal_strlit(" ");
            assert(spaces(i as nat) + " "@ =~= spaces((i + 1) as nat));
        }
        out.append(" ");
        i += 1;
    }
    out
}

/// `text` with spaces behind it up to `width` characters.
pub fn pad_right(text: &str, width: usize) -> (r: String)
    ensures
        r@ == padded_right(text@, width as nat),
{
    let len = text.unicode_len();
    let out = String::from_str(text);
    if len >= width {
        out
    } else {
        out.concat(blank(width - len).as_str())
    }
}

/// `text` with spaces before it up to `width` characters.
pub fn pad_left(text: &str, width: usize) -> (r: String)
    ensures
        r@ == padded_left(text@, width as nat),
{
    let len = text.unicode_len();
    if len >= width {
        String::from_str(text)
    } else {
        blank(width - len).concat(text)
    }
}

/// The line that shows an item in the list of a template's items: its
/// description, marked with ` *` if it needs a nightly compiler, in a column
/// of 30 characters; then its value in square brackets, or `-` if the
/// template holds none, at the right of a column of 10.
pub open spec fn row_label(id: TemplateItemId, nightly: bool, value: Option<Scalar>) -> Seq<char> {
    let name = if nightly {
        description_of(id) + " *"@
    } else {
        description_of(id)
    };
    let shown = match value {
        Some(v) => padded_left("["@ + scalar_text(v) + "]"@, 10),
        None => "         -"@,
    };
    padded_right(name, 30) + shown
}

/// The line that shows an item in the list of a template's items.
pub fn item_row_label(id: TemplateItemId, metadata: &TemplateItemMedata, template: &Template) -> (r:
    String)
    ensures
        r@ == row_label(
            id,
            metadata.nightly_spec(),
            crate::template::entry_value(template@.items, id),
        ),
{
    let mut name = String::from_str(item_description(id));
    if metadata.requires_nightly() {
        name.append(" *");
    }
    let column = pad_right(name.as_str(), 30);
    match template.get_item(id) {
        Some(value) => {
            let text = value_text(value);
            let shown = String::from_str("[").concat(text.as_str()).concat("]");
            column.concat(pad_left(shown.as_str(), 10).as_str())
        },
        None => column.concat("         -"),
    }
}

/// How a piece of a message is set off from the rest.
#[derive(Clone, Copy, Debug, PartialEq, Eq, Structural)]
pub enum TextStyle {
    Plain,
    /// The name of a template.
    Template,
    /// The name of a profile.
    Profile,
    /// A command, a flag or an address.
    Command,
}

/// A piece of a message.
#[derive(Debug)]
pub struct Span {
    pub text: String,
    pub style: TextStyle,
}

/// What a piece of a message says, and how.
pub type SpanView = (Seq<char>, TextStyle);

/// What each piece of `line` says.
pub open spec fn line_view(line: Seq<Span>) -> Seq<SpanView> {
    Seq::new(line.len(), |i: int| (line[i].text@, line[i].style))
}

/// What each line of `lines` says.
pub open spec fn lines_view(lines: Seq<Vec<Span>>) -> Seq<Seq<SpanView>> {
    Seq::new(lines.len(), |i: int| line_view(lines[i]@))
}

/// Whether one of `items` needs a nightly compiler.
pub open spec fn any_needs_nightly(items: Seq<(TemplateItemId, Scalar)>) -> bool {
    exists|i: int| 0 <= i < items.len() && needs_nightly((#[trigger] items[i]).0)
}

/// The flag that makes Cargo use a profile. `dev` needs none.
pub open spec fn profile_flag(profile: Profile) -> Option<Seq<char>> {
    match profile {
        Profile::Builtin(BuiltinProfile::Dev) => None,
        Profile::Builtin(BuiltinProfile::Release) => Some("--release"@),
        Profile::Custom(name) => Some("--profile="@ + name@),
    }
}

/// The command that uses a profile.
pub open spec fn run_command(nightly: bool, flag: Seq<char>) -> Seq<char> {
    if nightly {
        "cargo +nightly <cmd> "@ + flag
    } else {
        "cargo <cmd> "@ + flag
    }
}

/// Where to read more about the templates of a kind.
pub open spec fn info_url(kind: PredefinedTemplateKind) -> Seq<char> {
    match kind {
        PredefinedTemplateKind::MinSize => "https://github.com/johnthagen/min-sized-rust"@,
        _ => "https://nnethercote.github.io/perf-book/build-configuration.html"@,
    }
}

/// The line that says what was done.
pub open spec fn applied_line(kind: PredefinedTemplateKind, profile: Profile) -> Seq<SpanView> {
    seq![
        ("\u{2705} Template "@, TextStyle::Plain),
        (kind.name_spec(), TextStyle::Template),
        (" applied to profile "@, TextStyle::Plain),
        (profile.name_spec(), TextStyle::Profile),
        ("."@, TextStyle::Plain),
    ]
}

/// The line that reminds of the flag without which Cargo does not use the
/// profile.
pub open spec fn reminder_line(nightly: bool, flag: Seq<char>) -> Seq<SpanView> {
    seq![
        ("\u{26a0}\u{fe0f}  Do not forget to run `"@, TextStyle::Plain),
        (run_command(nightly, flag), TextStyle::Command),
        ("` to use the selected profile."@, TextStyle::Plain),
    ]
}

/// The line that warns of the need for a nightly compiler.
pub open spec fn nightly_line() -> Seq<SpanView> {
    seq![("\u{26a0}\u{fe0f}  You will have to use a nightly compiler."@, TextStyle::Plain)]
}

/// The line that points to the items that need a nightly compiler.
pub open spec fn nightly_tip_line() -> Seq<SpanView> {
    seq![
        ("Tip: run `cargo-wizard` with the `"@, TextStyle::Plain),
        ("--nightly"@, TextStyle::Command),
        ("` flag to discover nightly-only configuration options."@, TextStyle::Plain),
    ]
}

/// The line that points to profile-guided optimization.
pub open spec fn pgo_tip_line() -> Seq<SpanView> {
    seq![
        ("Tip: consider using the "@, TextStyle::Plain),
        ("cargo-pgo"@, TextStyle::Command),
        (" subcommand to further optimize your binary."@, TextStyle::Plain),
    ]
}

/// The line that says where to read more.
pub open spec fn info_line(kind: PredefinedTemplateKind) -> Seq<SpanView> {
    seq![
        ("Tip: find more information at "@, TextStyle::Plain),
        (info_url(kind), TextStyle::Command),
        ("."@, TextStyle::Plain),
    ]
}

/// The lines that `line` adds to a report if `wanted`.
pub open spec fn optional(wanted: bool, line: Seq<SpanView>) -> Seq<Seq<SpanView>> {
    if wanted {
        seq![line]
    } else {
        Seq::empty()
    }
}

/// What the user is told once a template was applied: what was done; how to
/// use the profile, unless it is `dev`; that a nightly compiler is needed, if
/// an item of the template needs one; a tip that goes with the kind of
/// template; and where to read more.
pub open spec fn applied_report(
    kind: PredefinedTemplateKind,
    nightly: bool,
    profile: Profile,
) -> Seq<Seq<SpanView>> {
    seq![applied_line(kind, profile)] + optional(
        profile_flag(profile) is Some,
        reminder_line(nightly, profile_flag(profile)->0),
    ) + optional(nightly, nightly_line()) + optional(
        kind == PredefinedTemplateKind::FastCompile && !nightly,
        nightly_tip_line(),
    ) + optional(kind == PredefinedTemplateKind::FastRuntime, pgo_tip_line()) + seq![
        info_line(kind),
    ]
}

/// A piece of a message.
fn span(text: &str, style: TextStyle) -> (r: Span)
    ensures
        r.text@ == text@,
        r.style == style,
{
    Span { text: String::from_str(text), style }
}

/// A line of three pieces, the middle one set off.
fn framed(before: &str, middle: &str, style: TextStyle, after: &str) -> (r: Vec<Span>)
    ensures
        line_view(r@) == seq![
            (before@, TextStyle::Plain),
            (middle@, style),
            (after@, TextStyle::Plain),
        ],
{
    let mut line: Vec<Span> = Vec::new();
    line.push(span(before, TextStyle::Plain));
    line.push(span(middle, style));
    line.push(span(after, TextStyle::Plain));
    assert(line_view(line@) =~= seq![
        (before@, TextStyle::Plain),
        (middle@, style),
        (after@, TextStyle::Plain),
    ]);
    line
}

/// A line of one plain piece.
fn plain(text: &str) -> (r: Vec<Span>)
    ensures
        line_view(r@) == seq![(text@, TextStyle::Plain)],
{
    let mut line: Vec<Span> = Vec::new();
    line.push(span(text, TextStyle::Plain));
    assert(line_view(line@) =~= seq![(text@, TextStyle::Plain)]);
    line
}

/// Whether an item of the template needs a nightly compiler.
pub fn template_requires_nightly(options: &KnownCargoOptions, template: &Template) -> (r: bool)
    ensures
        r == any_needs_nightly(template@.items),
{
    let items = template.iter_items();
    let mut i: usize = 0;
    while i < items.len()
        invariant
            i <= items.len(),
            items@.len() == template@.items.len(),
            forall|k: int|
                0 <= k < items@.len() ==> (#[trigger] items@[k]).0 == template@.items[k].0,
            forall|k: int| 0 <= k < i ==> !needs_nightly((#[trigger] template@.items[k]).0),
        decreases items.len() - i,
    {
        if options.get_metadata(items[i].0).requires_nightly() {
            assert(needs_nightly(template@.items[i as int].0));
            return true;
        }
        i += 1;
    }
    false
}

/// The flag that makes Cargo use a profile.
fn flag_of(profile: &Profile) -> (r: Option<String>)
    ensures
        match r {
            Some(flag) => profile_flag(*profile) == Some(flag@),
            None => profile_flag(*profile) is None,
        },
{
    match profile {
        Profile::Builtin(BuiltinProfile::Dev) => None,
        Profile::Builtin(BuiltinProfile::Release) => Some(String::from_str("--release")),
        Profile::Custom(name) => Some(String::from_str("--profile=").concat(name.as_str())),
    }
}

/// What the user is told once a template was applied, line by line.
pub fn on_template_applied(
    options: &KnownCargoOptions,
    template_kind: PredefinedTemplateKind,
    template: &Template,
    profile: &Profile,
) -> (r: Vec<Vec<Span>>)
    ensures
        lines_view(r@) == applied_report(
            template_kind,
            any_needs_nightly(template@.items),
            *profile,
        ),
{
    let requires_nightly = template_requires_nightly(options, template);
    let mut lines: Vec<Vec<Span>> = Vec::new();
    let mut first: Vec<Span> = Vec::new();
    first.push(span("\u{2705} Template ", TextStyle::Plain));
    first.push(span(template_kind.name(), TextStyle::Template));
    first.push(span(" applied to profile ", TextStyle::Plain));
    first.push(span(profile.name(), TextStyle::Profile));
    first.push(span(".", TextStyle::Plain));
    assert(line_view(first@) =~= applied_line(template_kind, *profile));
    lines.push(first);
    let ghost l1 = seq![applied_line(template_kind, *profile)];
    assert(lines_view(lines@) =~= l1);
    match flag_of(profile) {
        Some(flag) => {
            let command = if requires_nightly {
                String::from_str("cargo +nightly <cmd> ").concat(flag.as_str())
            } else {
                String::from_str("cargo <cmd> ").concat(flag.as_str())
            };
            lines.push(
                framed(
                    "\u{26a0}\u{fe0f}  Do not forget to run `",
                    command.as_str(),
                    TextStyle::Command,
                    "` to use the selected profile.",
                ),
            );
        },
        None => {},
    }
    let ghost l2 = l1 + optional(
        profile_flag(*profile) is Some,
        reminder_line(requires_nightly, profile_flag(*profile)->0),
    );
    assert(lines_view(lines@) =~= l2);
    if requires_nightly {
        lines.push(plain("\u{26a0}\u{fe0f}  You will have to use a nightly compiler."));
    }
    let ghost l3 = l2 + optional(requires_nightly, nightly_line());
    assert(lines_view(lines@) =~= l3);
    match template_kind {
        PredefinedTemplateKind::FastCompile => {
            if !requires_nightly {
                lines.push(
                    framed(
                        "Tip: run `cargo-wizard` with the `",
                        "--nightly",
                        TextStyle::Command,
                        "` flag to discover nightly-only configuration options.",
                    ),
                );
            }
        },
        PredefinedTemplateKind::FastRuntime => {
            lines.push(
                framed(
                    "Tip: consider using the ",
                    "cargo-pgo",
                    TextStyle::Command,
                    " subcommand to further optimize your binary.",
                ),
            );
        },
        PredefinedTemplateKind::MinSize => {},
    }
    let ghost l4 = l3 + optional(
        template_kind == PredefinedTemplateKind::FastCompile && !requires_nightly,
        nightly_tip_line(),
    ) + optional(template_kind == PredefinedTemplateKind::FastRuntime, pgo_tip_line());
    assert(lines_view(lines@) =~= l4);
    let url = match template_kind {
        PredefinedTemplateKind::MinSize => "https://github.com/johnthagen/min-sized-rust",
        _ => "https://nnethercote.github.io/perf-book/build-configuration.html",
    };
    lines.push(framed("Tip: find more information at ", url, TextStyle::Command, "."));
    assert(lines_view(lines@) =~= l4 + seq![info_line(template_kind)]);
    lines
}

/// How a kind of value is called.
pub open spec fn kind_name_of(kind: TomlValueKind) -> Seq<char> {
    match kind {
        TomlValueKind::Int => "int"@,
        TomlValueKind::String => "string"@,
    }
}

/// How a kind of value is called.
pub fn kind_name(kind: TomlValueKind) -> (r: &'static str)
    ensures
        r@ == kind_name_of(kind),
{
    match kind {
        TomlValueKind::Int => "int",
        TomlValueKind::String => "string",
    }
}

/// How the kind of a scalar is called.
pub open spec fn scalar_kind_name(value: Scalar) -> Seq<char> {
    match value {
        Scalar::Int(_) => "int"@,
        Scalar::Bool(_) => "bool"@,
        Scalar::Str(_) => "string"@,
    }
}

/// The scalar that a text entered by the user stands for: `true` and `false`
/// are booleans, a text that [`integer_of`] reads is an integer, any other
/// text is a string.
pub open spec fn entered_scalar(text: Seq<char>) -> Scalar {
    if text == "true"@ {
        Scalar::Bool(true)
    } else if text == "false"@ {
        Scalar::Bool(false)
    } else {
        match integer_of(text) {
            Some(number) => Scalar::Int(number),
            None => Scalar::Str(text),
        }
    }
}

/// Why the empty text is no value.
pub open spec fn empty_value_message() -> Seq<char> {
    "Value must not be empty"@
}

/// Reads a value that the user entered. The empty text is none.
pub fn parse_value(text: &str) -> (r: Result<TomlValue, &'static str>)
    ensures
        match r {
            Ok(value) => text@.len() > 0 && value@ == entered_scalar(text@),
            Err(message) => text@.len() == 0 && message@ == empty_value_message(),
        },
{
    if text.unicode_len() == 0 {
        return Err("Value must not be empty");
    }
    let entered = String::from_str(text);
    if entered == String::from_str("true") {
        Ok(TomlValue::Bool(true))
    } else if entered == String::from_str("false") {
        Ok(TomlValue::Bool(false))
    } else {
        match parse_integer(text) {
            Some(number) => Ok(TomlValue::Int(number)),
            None => Ok(TomlValue::String(entered)),
        }
    }
}

/// Why a value of another kind than the one asked for is refused.
pub open spec fn wrong_kind_message(kind: TomlValueKind, value: Scalar) -> Seq<char> {
    "Invalid TOML type, expected `"@ + kind_name_of(kind) + "`, got "@ + scalar_kind_name(value)
}

/// Whether a text that the user entered is a value of the kind asked for;
/// if not, why not.
pub fn validate_custom_value(kind: TomlValueKind, text: &str) -> (r: Result<(), String>)
    ensures
        match r {
            Ok(_) => text@.len() > 0 && kind.matches_spec(entered_scalar(text@)),
            Err(message) => if text@.len() == 0 {
                message@ == empty_value_message()
            } else {
                !kind.matches_spec(entered_scalar(text@)) && message@ == wrong_kind_message(
                    kind,
                    entered_scalar(text@),
                )
            },
        },
{
    match parse_value(text) {
        Err(message) => Err(String::from_str(message)),
        Ok(value) => {
            if kind.matches_value(&value) {
                Ok(())
            } else {
                let got = match value {
                    TomlValue::Int(_) => "int",
                    TomlValue::Bool(_) => "bool",
                    TomlValue::String(_) => "string",
                };
                let message = String::from_str("Invalid TOML type, expected `").concat(
                    kind_name(kind),
                ).concat("`, got ").concat(got);
                Err(message)
            }
        },
    }
}

/// The row on which the list of values for an item opens: that of the value
/// which the template holds, if it is one of the offered ones; the row for a
/// value of the user's own, which follows the offered ones, if it is such a
/// value; else the last row, which leads back. Between these stands, where
/// the template holds a value, a row that unsets it.
pub open spec fn cursor_row(
    offered: nat,
    custom: bool,
    selected: SelectedPossibleValue,
    has_value: bool,
) -> nat {
    match selected {
        SelectedPossibleValue::Constant { index, .. } => index as nat,
        SelectedPossibleValue::Custom { .. } => offered,
        SelectedPossibleValue::Unmatched => offered + (if custom {
            1nat
        } else {
            0nat
        }) + (if has_value {
            1nat
        } else {
            0nat
        }),
    }
}

/// The row on which the list of values for an item opens. `None` where the
/// list is too long for its rows to be counted.
pub fn starting_cursor(
    metadata: &TemplateItemMedata,
    selected: &SelectedPossibleValue,
    has_value: bool,
) -> (r: Option<usize>)
    ensures
        match r {
            Some(row) => row == cursor_row(
                metadata.values_spec().len(),
                metadata.custom_spec() is Some,
                *selected,
                has_value,
            ),
            None => cursor_row(
                metadata.values_spec().len(),
                metadata.custom_spec() is Some,
                *selected,
                has_value,
            ) > usize::MAX,
        },
{
    let offered = metadata.get_possible_values().len();
    match selected {
        SelectedPossibleValue::Constant { index, .. } => Some(*index),
        SelectedPossibleValue::Custom { .. } => Some(offered),
        SelectedPossibleValue::Unmatched => {
            let custom: usize = if metadata.get_custom_value().is_some() {
                1
            } else {
                0
            };
            let unset: usize = if has_value {
                1
            } else {
                0
            };
            if offered <= usize::MAX - 2 {
                Some(offered + custom + unset)
            } else {
                match offered.checked_add(custom) {
                    Some(rows) => rows.checked_add(unset),
                    None => None,
                }
            }
        },
    }
}

} // verus!
