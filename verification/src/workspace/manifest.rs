//! The manifest of a workspace and the profiles it declares.

use vstd::prelude::*;
use vstd::string::StringExecFns;
use toml_edit::DocumentMut;
use crate::document::{
    array_items, array_push, array_texts, default_decor, doc_nodes, doc_text, document_text,
    entry_names, holds_string, holds_text, insert_array, insert_table, is_array, is_table,
    item_shape, lemma_holds_text, lemma_with_value_keeps_table, parse_document, parsed_nodes,
    parsed_text, path_of, set_dotted, shape_of, table_names, toml_parses, with_child,
    with_pushed, with_table, with_value, write_scalar, Content, ItemShape, Node, Nodes, Path,
    Shape,
};
use crate::error::WizardError;
use crate::template::{
    dev_profile, distinct_keys, entry_value, release_profile, stock_defaults, Template,
    TemplateItemId, TemplateView,
};
use crate::toml::{Scalar, TableItem, TomlValue};
use crate::workspace::manifest_lemmas::{
    lemma_applied_holds, lemma_held_write, lemma_item_writes_step, lemma_with_values_above,
    lemma_with_values_step,
};

verus! {

/// A profile that Cargo defines by itself.
#[derive(Clone, Copy, Debug, PartialEq, Eq, Structural)]
pub enum BuiltinProfile {
    Dev,
    Release,
}

impl BuiltinProfile {
    /// The name Cargo knows the profile by.
    pub open spec fn name_spec(self) -> Seq<char> {
        match self {
            BuiltinProfile::Dev => "dev"@,
            BuiltinProfile::Release => "release"@,
        }
    }

    pub fn name(&self) -> (r: &'static str)
        ensures
            r@ == self.name_spec(),
    {
        match self {
            BuiltinProfile::Dev => "dev",
            BuiltinProfile::Release => "release",
        }
    }
}

/// A profile of a manifest: one of Cargo's own, or one that the user named.
#[derive(Clone, Debug)]
pub enum Profile {
    Builtin(BuiltinProfile),
    Custom(String),
}

impl Profile {
    /// The name of the profile's section.
    pub open spec fn name_spec(&self) -> Seq<char> {
        match self {
            Profile::Builtin(builtin) => builtin.name_spec(),
            Profile::Custom(name) => name@,
        }
    }

    /// Whether the profile is one of Cargo's own.
    pub open spec fn is_builtin_spec(&self) -> bool {
        self is Builtin
    }

    pub fn dev() -> (r: Self)
        ensures
            r == Profile::Builtin(BuiltinProfile::Dev),
    {
        Self::Builtin(BuiltinProfile::Dev)
    }

    pub fn release() -> (r: Self)
        ensures
            r == Profile::Builtin(BuiltinProfile::Release),
    {
        Self::Builtin(BuiltinProfile::Release)
    }

    pub fn name(&self) -> (r: &str)
        ensures
            r@ == self.name_spec(),
    {
        match self {
            Profile::Builtin(builtin) => builtin.name(),
            Profile::Custom(name) => name.as_str(),
        }
    }

    pub fn is_builtin(&self) -> (r: bool)
        ensures
            r == self.is_builtin_spec(),
    {
        match self {
            Profile::Builtin(_) => true,
            Profile::Custom(_) => false,
        }
    }
}

/// The key under which a profile holds an item. The items without one are
/// compiler flags: they go to the configuration.
pub open spec fn item_key(id: TemplateItemId) -> Option<Seq<char>> {
    match id {
        TemplateItemId::DebugInfo => Some("debug"@),
        TemplateItemId::SplitDebugInfo => Some("split-debuginfo"@),
        TemplateItemId::Strip => Some("strip"@),
        TemplateItemId::Lto => Some("lto"@),
        TemplateItemId::CodegenUnits => Some("codegen-units"@),
        TemplateItemId::Panic => Some("panic"@),
        TemplateItemId::OptimizationLevel => Some("opt-level"@),
        TemplateItemId::CodegenBackend => Some("codegen-backend"@),
        TemplateItemId::Incremental => Some("incremental"@),
        TemplateItemId::TargetCpuInstructionSet
        | TemplateItemId::FrontendThreads
        | TemplateItemId::Linker => None,
    }
}

/// The key under which a profile holds an item, if it holds it.
pub fn id_to_item_name(id: TemplateItemId) -> (r: Option<&'static str>)
    ensures
        match r {
            Some(name) => item_key(id) == Some(name@),
            None => item_key(id) is None,
        },
{
    match id {
        TemplateItemId::DebugInfo => Some("debug"),
        TemplateItemId::SplitDebugInfo => Some("split-debuginfo"),
        TemplateItemId::Strip => Some("strip"),
        TemplateItemId::Lto => Some("lto"),
        TemplateItemId::CodegenUnits => Some("codegen-units"),
        TemplateItemId::Panic => Some("panic"),
        TemplateItemId::OptimizationLevel => Some("opt-level"),
        TemplateItemId::CodegenBackend => Some("codegen-backend"),
        TemplateItemId::Incremental => Some("incremental"),
        TemplateItemId::TargetCpuInstructionSet
        | TemplateItemId::FrontendThreads
        | TemplateItemId::Linker => None,
    }
}

/// A key with the scalar to store under it.
pub type Write = (Seq<char>, Scalar);

/// The path of the table that holds the profiles.
pub open spec fn profiles_path() -> Path {
    seq!["profile"@]
}

/// The path of the table of the profile `name`.
pub open spec fn profile_path(name: Seq<char>) -> Path {
    seq!["profile"@, name]
}

/// The path of the array of unstable features that the manifest opts into.
pub open spec fn features_path() -> Path {
    seq!["cargo-features"@]
}

/// The scalar that the table at `table` holds under `key`.
pub open spec fn existing_scalar(nodes: Nodes, table: Path, key: Seq<char>) -> Option<Scalar> {
    match shape_of(nodes, table.push(key)) {
        Shape::Scalar(value) => Some(value),
        _ => None,
    }
}

/// Writing `item` into a built-in profile would change nothing that Cargo
/// sees: the profile holds the value already, or holds none and the value is
/// the one Cargo gives the item of `base` by itself.
pub open spec fn is_noop(
    nodes: Nodes,
    table: Path,
    base: BuiltinProfile,
    item: (TemplateItemId, Scalar),
) -> bool {
    match existing_scalar(nodes, table, item_key(item.0)->0) {
        Some(value) => value == item.1,
        None => entry_value(stock_defaults(base), item.0) == Some(item.1),
    }
}

/// Whether `item` is written to the profile: it has a key there, and, in a
/// built-in profile, writing it is no no-op.
pub open spec fn is_written(
    nodes: Nodes,
    table: Path,
    builtin: bool,
    base: BuiltinProfile,
    item: (TemplateItemId, Scalar),
) -> bool {
    item_key(item.0) is Some && !(builtin && is_noop(nodes, table, base, item))
}

/// The writes that come of `items`, in the order of `items`.
pub open spec fn item_writes(
    nodes: Nodes,
    table: Path,
    builtin: bool,
    base: BuiltinProfile,
    items: Seq<(TemplateItemId, Scalar)>,
) -> Seq<Write>
    decreases items.len(),
{
    if items.len() == 0 {
        Seq::empty()
    } else {
        let rest = item_writes(nodes, table, builtin, base, items.drop_last());
        let item = items.last();
        if is_written(nodes, table, builtin, base, item) {
            rest.push((item_key(item.0)->0, item.1))
        } else {
            rest
        }
    }
}

/// What `inherits` is set to in a profile of the user's.
pub open spec fn inherits_write(base: BuiltinProfile) -> Write {
    ("inherits"@, Scalar::Str(base.name_spec()))
}

/// All that is written to the profile's table: for a profile of the user's
/// `inherits` first; then the template's items in their order.
pub open spec fn planned_writes(
    nodes: Nodes,
    table: Path,
    builtin: bool,
    template: TemplateView,
) -> Seq<Write> {
    let writes = item_writes(nodes, table, builtin, template.inherits, template.items);
    if builtin {
        writes
    } else {
        seq![inherits_write(template.inherits)] + writes
    }
}

/// `nodes` after the writes, first to last.
pub open spec fn with_values(nodes: Nodes, table: Path, writes: Seq<Write>) -> Nodes
    decreases writes.len(),
{
    if writes.len() == 0 {
        nodes
    } else {
        with_value(
            with_values(nodes, table, writes.drop_last()),
            table,
            writes.last().0,
            writes.last().1,
        )
    }
}

/// `nodes` with the table at `path` marked as one of dotted keys.
pub open spec fn with_dotted(nodes: Nodes, path: Path) -> Nodes {
    nodes.insert(path, Node::Table { dotted: true, keys: nodes[path]->keys })
}

/// `nodes` with the feature `codegen-backend` among `cargo-features`: the
/// array is made if the key is new, and the name added unless it is there. A
/// `cargo-features` that is no array is left as it is.
pub open spec fn with_feature(nodes: Nodes) -> Nodes {
    let made = if nodes.contains_key(features_path()) {
        nodes
    } else {
        with_child(
            nodes,
            Seq::empty(),
            "cargo-features"@,
            Node::Value { content: Content::Array { items: Seq::empty() }, decor: default_decor() },
        )
    };
    if is_array(made, features_path()) && !holds_text(
        array_items(made, features_path()),
        "codegen-backend"@,
    ) {
        with_pushed(made, features_path(), "codegen-backend"@)
    } else {
        made
    }
}

/// How applying a template to a manifest ends.
pub enum Applied {
    /// The `profile` item is not a table.
    ProfilesNotTable,
    /// The item of the profile is not a table.
    ProfileNotTable,
    /// The manifest holds the template.
    Done(Nodes),
}

/// `nodes` with the tables `profile`, marked as one of dotted keys, and
/// `profile.<name>`, each made where the key is new.
pub open spec fn prepared(nodes: Nodes, name: Seq<char>) -> Nodes {
    with_table(
        with_dotted(with_table(nodes, Seq::empty(), "profile"@), profiles_path()),
        profiles_path(),
        name,
    )
}

/// Whether one of `writes` names the key `key`.
pub open spec fn names_key(writes: Seq<Write>, key: Seq<char>) -> bool {
    exists|j: int| 0 <= j < writes.len() && (#[trigger] writes[j]).0 == key
}

/// What applying `template` writes to the table of the profile `name`.
pub open spec fn writes_for(
    nodes: Nodes,
    name: Seq<char>,
    builtin: bool,
    template: TemplateView,
) -> Seq<Write> {
    planned_writes(prepared(nodes, name), profile_path(name), builtin, template)
}

/// What applying `template` to the profile `name` makes of `nodes`.
pub open spec fn manifest_applied(
    nodes: Nodes,
    name: Seq<char>,
    builtin: bool,
    template: TemplateView,
) -> Applied {
    if !(with_table(nodes, Seq::empty(), "profile"@)[profiles_path()] is Table) {
        Applied::ProfilesNotTable
    } else if !(prepared(nodes, name)[profile_path(name)] is Table) {
        Applied::ProfileNotTable
    } else {
        let written = with_values(
            prepared(nodes, name),
            profile_path(name),
            writes_for(nodes, name, builtin, template),
        );
        if names_key(writes_for(nodes, name, builtin, template), "codegen-backend"@) {
            Applied::Done(with_feature(written))
        } else {
            Applied::Done(written)
        }
    }
}

/// What each of `items` writes.
pub open spec fn writes_of(items: Seq<TableItem>) -> Seq<Write> {
    items.map_values(|item: TableItem| (item.name@, item.value@))
}

/// Whether writing the item into a built-in profile would change nothing
/// that Cargo sees.
fn item_is_noop(
    doc: &DocumentMut,
    name: &str,
    defaults: &Template,
    id: TemplateItemId,
    key: &str,
    value: &TomlValue,
) -> (r: bool)
    requires
        item_key(id) == Some(key@),
        defaults@.items == stock_defaults(defaults@.inherits),
    ensures
        r == is_noop(
            doc_nodes(*doc),
            profile_path(name@),
            defaults@.inherits,
            (id, value@),
        ),
{
    let table = ["profile", name];
    assert(path_of(table@) =~= profile_path(name@));
    match item_shape(doc, &table, key) {
        ItemShape::Scalar(existing) => existing == *value,
        _ => match defaults.get_item(id) {
            Some(default) => *default == *value,
            None => false,
        },
    }
}

/// The writes that applying `template` to the profile `name` asks for, in
/// the order in which they are made.
fn plan_writes(doc: &DocumentMut, name: &str, builtin: bool, template: &Template) -> (r: Vec<
    TableItem,
>)
    ensures
        writes_of(r@) == planned_writes(doc_nodes(*doc), profile_path(name@), builtin, template@),
        distinct_keys(template@.items),
{
    let base = template.inherits();
    let defaults = match base {
        BuiltinProfile::Dev => dev_profile().build(),
        BuiltinProfile::Release => release_profile().build(),
    };
    let items = template.iter_items();
    let mut values: Vec<TableItem> = Vec::new();
    if !builtin {
        values.push(TableItem::string("inherits", base.name()));
    }
    let ghost nodes = doc_nodes(*doc);
    let ghost table = profile_path(name@);
    let ghost head = writes_of(values@);
    proof {
        if builtin {
            assert(head =~= Seq::<Write>::empty());
        } else {
            assert(head =~= seq![inherits_write(base)]);
        }
        assert(template@.items.take(0) =~= Seq::empty());
        assert(writes_of(values@) =~= head + item_writes(
            nodes,
            table,
            builtin,
            base,
            template@.items.take(0),
        ));
    }
    let mut i: usize = 0;
    while i < items.len()
        invariant
            i <= items.len(),
            nodes == doc_nodes(*doc),
            table == profile_path(name@),
            base == template@.inherits,
            defaults@.inherits == base,
            defaults@.items == stock_defaults(base),
            items@.len() == template@.items.len(),
            forall|k: int|
                0 <= k < items@.len() ==> (#[trigger] items@[k]).0 == template@.items[k].0
                    && items@[k].1@ == template@.items[k].1,
            writes_of(values@) == head + item_writes(
                nodes,
                table,
                builtin,
                base,
                template@.items.take(i as int),
            ),
        decreases items.len() - i,
    {
        let id = items[i].0;
        let value = &items[i].1;
        proof {
            lemma_item_writes_step(nodes, table, builtin, base, template@.items, i as int);
        }
        let ghost before = writes_of(values@);
        match id_to_item_name(id) {
            Some(key) => {
                let skip = builtin && item_is_noop(doc, name, &defaults, id, key, value);
                if !skip {
                    let item = TableItem { name: String::from_str(key), value: value.duplicate() };
                    values.push(item);
                    assert(writes_of(values@) =~= before.push((key@, value@)));
                }
            },
            None => {},
        }
        assert(writes_of(values@) =~= head + item_writes(
            nodes,
            table,
            builtin,
            base,
            template@.items.take(i + 1),
        ));
        i += 1;
    }
    assert(template@.items.take(items@.len() as int) =~= template@.items);
    values
}

/// The table at `table` holds the scalar of `write` under its key, in the
/// writer's own form: writing it again changes nothing.
pub open spec fn is_held(nodes: Nodes, table: Path, write: Write) -> bool {
    &&& nodes.contains_key(table.push(write.0))
    &&& nodes[table.push(write.0)] matches Node::Value {
        content: Content::Scalar { value, plain: true },
        ..
    } && value == write.1
}

/// Every one of `writes` is held.
pub open spec fn all_held(nodes: Nodes, table: Path, writes: Seq<Write>) -> bool {
    forall|i: int| 0 <= i < writes.len() ==> is_held(nodes, table, #[trigger] writes[i])
}

/// Makes the writes, first to last.
fn apply_writes(doc: &mut DocumentMut, name: &str, writes: &Vec<TableItem>)
    requires
        is_table(doc_nodes(*old(doc)), profile_path(name@)),
    ensures
        doc_nodes(*final(doc)) == with_values(
            doc_nodes(*old(doc)),
            profile_path(name@),
            writes_of(writes@),
        ),
        all_held(doc_nodes(*old(doc)), profile_path(name@), writes_of(writes@)) ==> doc_nodes(
            *final(doc),
        ) == doc_nodes(*old(doc)) && doc_text(*final(doc)) == doc_text(*old(doc)),
{
    let table = ["profile", name];
    let ghost path = profile_path(name@);
    let ghost start = doc_nodes(*doc);
    let ghost all = writes_of(writes@);
    assert(path_of(table@) =~= path);
    assert(all.take(0) =~= Seq::empty());
    let mut i: usize = 0;
    while i < writes.len()
        invariant
            i <= writes.len(),
            path == profile_path(name@),
            path_of(table@) == path,
            all == writes_of(writes@),
            start == doc_nodes(*old(doc)),
            is_table(doc_nodes(*doc), path),
            doc_nodes(*doc) == with_values(start, path, all.take(i as int)),
            all_held(start, path, all) ==> doc_nodes(*doc) == start && doc_text(*doc) == doc_text(
                *old(doc),
            ),
        decreases writes.len() - i,
    {
        proof {
            lemma_with_values_step(start, path, all, i as int);
            lemma_with_value_keeps_table(doc_nodes(*doc), path, all[i as int].0, all[i as int].1);
            if all_held(start, path, all) {
                lemma_held_write(start, path, all[i as int]);
            }
        }
        write_scalar(doc, &table, writes[i].name.as_str(), &writes[i].value);
        i += 1;
    }
    assert(all.take(writes@.len() as int) =~= all);
}

/// Whether one of `writes` names the key `key`.
fn names_written(writes: &Vec<TableItem>, key: &str) -> (r: bool)
    ensures
        r == names_key(writes_of(writes@), key@),
{
    let wanted = String::from_str(key);
    let mut i: usize = 0;
    while i < writes.len()
        invariant
            i <= writes.len(),
            wanted@ == key@,
            forall|j: int| 0 <= j < i ==> (#[trigger] writes_of(writes@)[j]).0 != key@,
        decreases writes.len() - i,
    {
        if writes[i].name == wanted {
            assert(writes_of(writes@)[i as int].0 == key@);
            return true;
        }
        i += 1;
    }
    false
}

/// Opts the manifest into the unstable feature `codegen-backend`.
fn add_feature(doc: &mut DocumentMut)
    requires
        is_table(doc_nodes(*old(doc)), Seq::empty()),
    ensures
        doc_nodes(*final(doc)) == with_feature(doc_nodes(*old(doc))),
        doc_nodes(*final(doc)) == doc_nodes(*old(doc)) ==> doc_text(*final(doc)) == doc_text(
            *old(doc),
        ),
{
    let root: [&str; 0] = [];
    assert(path_of(root@) =~= Seq::<Seq<char>>::empty());
    assert(path_of(root@).push("cargo-features"@) =~= features_path());
    let ghost start = doc_nodes(*doc);
    insert_array(doc, &root, "cargo-features");
    let ghost made = doc_nodes(*doc);
    match item_shape(doc, &root, "cargo-features") {
        ItemShape::Array => {
            let texts = array_texts(doc, &root, "cargo-features");
            let present = holds_string(&texts, "codegen-backend");
            proof {
                lemma_holds_text(texts@, array_items(made, features_path()), "codegen-backend"@);
            }
            if !present {
                array_push(doc, &root, "cargo-features", "codegen-backend");
                proof {
                    let before = array_items(made, features_path());
                    let after = array_items(doc_nodes(*doc), features_path());
                    assert(after.len() == before.len() + 1);
                    assert(doc_nodes(*doc)[features_path()] != made[features_path()]);
                    if made == start {
                        assert(doc_nodes(*doc) != start);
                    } else {
                        assert(!start.contains_key(features_path()));
                        assert(doc_nodes(*doc).contains_key(features_path()));
                    }
                }
            }
        },
        _ => {},
    }
}

/// The manifest holds the template for the profile already: applying the
/// template asks for nothing that is not there.
pub open spec fn holds_template(
    nodes: Nodes,
    name: Seq<char>,
    builtin: bool,
    template: TemplateView,
) -> bool {
    let table = profile_path(name);
    &&& nodes.contains_key(profiles_path())
    &&& nodes[profiles_path()] matches Node::Table { dotted: true, .. }
    &&& is_table(nodes, table)
    &&& all_held(nodes, table, planned_writes(nodes, table, builtin, template))
    &&& names_key(planned_writes(nodes, table, builtin, template), "codegen-backend"@) ==> {
        &&& nodes.contains_key(features_path())
        &&& is_array(nodes, features_path()) ==> holds_text(
            array_items(nodes, features_path()),
            "codegen-backend"@,
        )
    }
}

/// Manifest parsed out of a `Cargo.toml` file.
pub struct CargoManifest {
    document: DocumentMut,
}

impl Clone for CargoManifest {
    fn clone(&self) -> (r: Self)
        ensures
            r.nodes() == self.nodes(),
            r.text() == self.text(),
    {
        proof {
            use_type_invariant(self);
        }
        Self { document: self.document.clone() }
    }
}

impl CargoManifest {
    #[verifier::type_invariant]
    spec fn well_formed(self) -> bool {
        is_table(doc_nodes(self.document), Seq::empty())
    }

    /// What the manifest holds, by path.
    pub closed spec fn nodes(&self) -> Nodes {
        doc_nodes(self.document)
    }

    /// The manifest written out.
    pub closed spec fn text(&self) -> Seq<char> {
        doc_text(self.document)
    }

    /// Reads a manifest: the document that the parser makes of the text. Fails
    /// exactly on a text that is no TOML document.
    pub fn from_text(text: &str) -> (r: Result<Self, WizardError>)
        ensures
            r is Ok == toml_parses(text@),
            r matches Ok(manifest) ==> manifest.nodes() == parsed_nodes(text@),
            r matches Ok(manifest) ==> manifest.text() == parsed_text(text@),
            r matches Ok(manifest) ==> is_table(manifest.nodes(), Seq::empty()),
            r matches Err(error) ==> error is ManifestParse,
    {
        match parse_document(text) {
            Ok(document) => Ok(Self { document }),
            Err(error) => Err(WizardError::ManifestParse(error)),
        }
    }

    /// The manifest written out.
    pub fn get_text(&self) -> (r: String)
        ensures
            r@ == self.text(),
    {
        document_text(&self.document)
    }

    /// The names of the profiles that the manifest declares, in its order.
    pub fn get_profiles(&self) -> (r: Vec<String>)
        ensures
            r@.map_values(|name: String| name@) == profile_names(self.nodes()),
    {
        let root: [&str; 0] = [];
        assert(path_of(root@).push("profile"@) =~= profiles_path());
        match item_shape(&self.document, &root, "profile") {
            ItemShape::Table | ItemShape::Inline => table_names(&self.document, &root, "profile"),
            _ => {
                let names: Vec<String> = Vec::new();
                assert(names@.map_values(|name: String| name@) =~= Seq::<Seq<char>>::empty());
                names
            },
        }
    }

    /// Applies `template` to the profile.
    ///
    /// The tables `profile` and `profile.<name>` are made where they are
    /// missing. A built-in profile gets the items whose value differs from
    /// what it holds or, where it holds none, from Cargo's default; a profile
    /// of the user's gets `inherits` and every item. A value that is replaced
    /// hands its decoration on. Where a codegen backend is written the
    /// manifest is also opted into the feature of that name.
    ///
    /// Fails where `profile` or `profile.<name>` is there and is no table.
    ///
    /// The manifest that comes out holds the template. Applied to a manifest
    /// that holds the template, this leaves the text as it is: a second
    /// application changes nothing.
    pub fn apply_template(self, profile: &Profile, template: &Template) -> (r: Result<
        Self,
        WizardError,
    >)
        ensures
            match manifest_applied(
                self.nodes(),
                profile.name_spec(),
                profile.is_builtin_spec(),
                template@,
            ) {
                Applied::Done(nodes) => r matches Ok(manifest) && manifest.nodes() == nodes,
                Applied::ProfilesNotTable => r matches Err(WizardError::ProfilesNotTable),
                Applied::ProfileNotTable => r matches Err(WizardError::ProfileNotTable { name })
                    && name@ == profile.name_spec(),
            },
            holds_template(
                self.nodes(),
                profile.name_spec(),
                profile.is_builtin_spec(),
                template@,
            ) ==> (r matches Ok(manifest) && manifest.nodes() == self.nodes() && manifest.text()
                == self.text()),
            r matches Ok(manifest) ==> holds_template(
                manifest.nodes(),
                profile.name_spec(),
                profile.is_builtin_spec(),
                template@,
            ),
    {
        proof {
            use_type_invariant(&self);
        }
        let ghost start = doc_nodes(self.document);
        let mut document = self.document;
        let name = profile.name();
        let builtin = profile.is_builtin();
        let root: [&str; 0] = [];
        let profiles = ["profile"];
        let ghost table = profile_path(name@);
        let ghost held = holds_template(start, name@, builtin, template@);
        proof {
            assert(path_of(root@) =~= Seq::<Seq<char>>::empty());
            assert(path_of(root@).push("profile"@) =~= profiles_path());
            assert(path_of(profiles@) =~= profiles_path());
            assert(path_of(profiles@).push(name@) =~= table);
            assert(profiles_path().len() == 1);
            assert(table.len() == 2);
        }
        insert_table(&mut document, &root, "profile");
        match item_shape(&document, &root, "profile") {
            ItemShape::Table => {},
            _ => {
                return Err(WizardError::ProfilesNotTable);
            },
        }
        set_dotted(&mut document, &root, "profile");
        proof {
            if held {
                assert(doc_nodes(document) =~= start);
            }
        }
        insert_table(&mut document, &profiles, name);
        match item_shape(&document, &profiles, name) {
            ItemShape::Table => {},
            _ => {
                return Err(WizardError::ProfileNotTable { name: String::from_str(name) });
            },
        }
        let ghost n2 = doc_nodes(document);
        assert(is_table(n2, Seq::empty()));
        let writes = plan_writes(&document, name, builtin, template);
        apply_writes(&mut document, name, &writes);
        proof {
            lemma_with_values_above(n2, table, writes_of(writes@), Seq::empty());
            lemma_applied_holds(start, name@, builtin, template@);
        }
        if names_written(&writes, "codegen-backend") {
            let ghost n3 = doc_nodes(document);
            add_feature(&mut document);
            proof {
                if held {
                    assert(with_feature(n3) =~= n3);
                }
            }
        }
        Ok(Self { document })
    }
}

/// The names of the profiles that a manifest declares: the names under which
/// its `profile` table, or inline table, holds an item.
pub open spec fn profile_names(nodes: Nodes) -> Seq<Seq<char>> {
    match shape_of(nodes, profiles_path()) {
        Shape::Table | Shape::Inline => entry_names(nodes, profiles_path()),
        _ => Seq::empty(),
    }
}

/// No key occurs twice among `writes`.
pub open spec fn distinct_writes(writes: Seq<Write>) -> bool {
    forall|i: int, j: int|
        0 <= i < writes.len() && 0 <= j < writes.len() && i != j ==> (#[trigger] writes[i]).0 != (
        #[trigger] writes[j]).0
}

} // verus!
