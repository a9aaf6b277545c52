//! The compiler flags of a workspace, kept in `.cargo/config.toml`.

use vstd::prelude::*;

use toml_edit::DocumentMut;
use crate::document::{
    array_items, array_push, array_replace, array_texts, doc_nodes, doc_text, document_text,
    element_texts, holds_string, holds_text, insert_array, insert_table, is_array, is_table,
    item_shape, lemma_holds_text, new_document, parse_document, parsed_nodes, parsed_text,
    path_of, root_only, shape_of, text_view, text_views, toml_parses, with_array, with_items,
    with_pushed_all, with_table, with_value, write_scalar, Element, ItemShape, Nodes, Path,
    Shape,
};
use crate::error::WizardError;
use crate::template::{distinct_keys, Template, TemplateItemId};
use crate::text::{
    contains_text, decimal, integer_text, is_substring, join_texts, joined, split_at_first,
    split_once, texts_of,
};
use crate::toml::{Scalar, TomlValue};
use crate::workspace::config_lemmas::{
    lemma_absent_prefix, lemma_all_replaced, lemma_merged_holds, lemma_replace_skip,
    lemma_replace_step,
};

verus! {

/// A scalar as it is written into a flag.
pub open spec fn scalar_text(value: Scalar) -> Seq<char> {
    match value {
        Scalar::Str(text) => text,
        Scalar::Int(number) => decimal(number as int),
        Scalar::Bool(true) => "true"@,
        Scalar::Bool(false) => "false"@,
    }
}

/// What stands before the value in the flag of an item. Items without a flag
/// are settings of a profile: they go to the manifest.
pub open spec fn flag_prefix(id: TemplateItemId) -> Option<Seq<char>> {
    match id {
        TemplateItemId::TargetCpuInstructionSet => Some("-Ctarget-cpu="@),
        TemplateItemId::FrontendThreads => Some("-Zthreads="@),
        TemplateItemId::Linker => Some("-Clink-arg=-fuse-ld="@),
        _ => None,
    }
}

/// The flags of `items`, in the order of `items`.
pub open spec fn template_flags(items: Seq<(TemplateItemId, Scalar)>) -> Seq<Seq<char>>
    decreases items.len(),
{
    if items.len() == 0 {
        Seq::empty()
    } else {
        let rest = template_flags(items.drop_last());
        match flag_prefix(items.last().0) {
            Some(prefix) => rest.push(prefix + scalar_text(items.last().1)),
            None => rest,
        }
    }
}

/// The value that `flags` give the key `key`: that of the last flag of the
/// form `key=value`.
pub open spec fn new_value(flags: Seq<Seq<char>>, key: Seq<char>) -> Option<Seq<char>>
    decreases flags.len(),
{
    if flags.len() == 0 {
        None
    } else {
        match split_once(flags.last(), '=') {
            Some((k, v)) => if k == key {
                Some(v)
            } else {
                new_value(flags.drop_last(), key)
            },
            None => new_value(flags.drop_last(), key),
        }
    }
}

/// The text that takes the place of an element: where the element is a string
/// `key=old` and `flags` give `key` a value, `key=` with that value.
pub open spec fn replacement(text: Option<Seq<char>>, flags: Seq<Seq<char>>) -> Option<Seq<char>> {
    match text {
        Some(s) => match split_once(s, '=') {
            Some((key, _)) => match new_value(flags, key) {
                Some(value) => Some(key + seq!['='] + value),
                None => None,
            },
            None => None,
        },
        None => None,
    }
}

/// An element after the flags were merged in: its text replaced where
/// [`replacement`] gives one, its decoration kept.
pub open spec fn replaced(element: Element, flags: Seq<Seq<char>>) -> Element {
    match replacement(element.text, flags) {
        Some(text) => Element { text: Some(text), plain: true, decor: element.decor },
        None => element,
    }
}

/// The first `done` of `items` replaced, the others as they were.
pub open spec fn replaced_prefix(items: Seq<Element>, flags: Seq<Seq<char>>, done: int) -> Seq<
    Element,
> {
    Seq::new(
        items.len(),
        |i: int|
            if i < done {
                replaced(items[i], flags)
            } else {
                items[i]
            },
    )
}

/// The flags that are no element of `items`, in their order.
pub open spec fn absent_flags(items: Seq<Element>, flags: Seq<Seq<char>>) -> Seq<Seq<char>>
    decreases flags.len(),
{
    if flags.len() == 0 {
        Seq::empty()
    } else if holds_text(items, flags.last()) {
        absent_flags(items, flags.drop_last())
    } else {
        absent_flags(items, flags.drop_last()).push(flags.last())
    }
}

/// The flags that do not stand in `text`, in their order.
pub open spec fn unmentioned_flags(text: Seq<char>, flags: Seq<Seq<char>>) -> Seq<Seq<char>>
    decreases flags.len(),
{
    if flags.len() == 0 {
        Seq::empty()
    } else if is_substring(flags.last(), text) {
        unmentioned_flags(text, flags.drop_last())
    } else {
        unmentioned_flags(text, flags.drop_last()).push(flags.last())
    }
}

/// `text` with `more` behind it, set off by a space unless `text` is empty or
/// ends in one.
pub open spec fn appended(text: Seq<char>, more: Seq<char>) -> Seq<char> {
    if text.len() > 0 && text.last() != ' ' {
        text + seq![' '] + more
    } else {
        text + more
    }
}

/// The path of the table `build`.
pub open spec fn build_path() -> Path {
    seq!["build"@]
}

/// The path of the flags.
pub open spec fn flags_path() -> Path {
    seq!["build"@, "rustflags"@]
}

/// An array of flags after `flags` were merged in: an element `key=old` whose
/// key one of the flags has takes that flag's value, and the flags that are no
/// element then are added at the end.
pub open spec fn merged_array(nodes: Nodes, flags: Seq<Seq<char>>) -> Nodes {
    let items = replaced_prefix(
        array_items(nodes, flags_path()),
        flags,
        array_items(nodes, flags_path()).len() as int,
    );
    with_pushed_all(
        with_items(nodes, flags_path(), items),
        flags_path(),
        absent_flags(items, flags),
    )
}

/// A string of flags after `flags` were merged in: the flags that do not
/// stand in it are added at its end, with a space between each two. The
/// string keeps its decoration.
pub open spec fn merged_string(nodes: Nodes, text: Seq<char>, flags: Seq<Seq<char>>) -> Nodes {
    let missing = unmentioned_flags(text, flags);
    if missing.len() == 0 {
        nodes
    } else {
        with_value(
            nodes,
            build_path(),
            "rustflags"@,
            Scalar::Str(appended(text, joined(missing, seq![' ']))),
        )
    }
}

/// How applying a template to a configuration ends.
pub enum Merged {
    /// The `build` item is not a table.
    BuildNotTable,
    /// `build.rustflags` is neither a string nor an array.
    FlagsNotStringOrArray,
    /// The configuration holds the flags.
    Done(Nodes),
}

/// What merging `flags` into the configuration makes of `nodes`. Without
/// flags nothing is touched.
pub open spec fn config_applied(nodes: Nodes, flags: Seq<Seq<char>>) -> Merged {
    if flags.len() == 0 {
        Merged::Done(nodes)
    } else {
        let n1 = with_table(nodes, Seq::empty(), "build"@);
        if !(n1[build_path()] is Table) {
            Merged::BuildNotTable
        } else {
            let n2 = with_array(n1, build_path(), "rustflags"@);
            match shape_of(n2, flags_path()) {
                Shape::Array => Merged::Done(merged_array(n2, flags)),
                Shape::Scalar(Scalar::Str(text)) => Merged::Done(merged_string(n2, text, flags)),
                _ => Merged::FlagsNotStringOrArray,
            }
        }
    }
}

/// A scalar as it is written into a flag.
pub fn value_text(value: &TomlValue) -> (r: String)
    ensures
        r@ == scalar_text(value@),
{
    match value {
        TomlValue::String(text) => text.clone(),
        TomlValue::Int(number) => integer_text(*number),
        TomlValue::Bool(true) => String::from_str("true"),
        TomlValue::Bool(false) => String::from_str("false"),
    }
}

/// What stands before the value in the flag of an item.
pub fn flag_stem(id: TemplateItemId) -> (r: Option<&'static str>)
    ensures
        match r {
            Some(prefix) => flag_prefix(id) == Some(prefix@),
            None => flag_prefix(id) is None,
        },
{
    match id {
        TemplateItemId::TargetCpuInstructionSet => Some("-Ctarget-cpu="),
        TemplateItemId::FrontendThreads => Some("-Zthreads="),
        TemplateItemId::Linker => Some("-Clink-arg=-fuse-ld="),
        _ => None,
    }
}

/// The compiler flags that a template asks for, in the order of its items.
pub fn rustflags(template: &Template) -> (r: Vec<String>)
    ensures
        texts_of(r@) == template_flags(template@.items),
        distinct_keys(template@.items),
{
    let items = template.iter_items();
    let mut flags: Vec<String> = Vec::new();
    assert(template@.items.take(0) =~= Seq::empty());
    assert(texts_of(flags@) =~= Seq::<Seq<char>>::empty());
    let mut i: usize = 0;
    while i < items.len()
        invariant
            i <= items.len(),
            items@.len() == template@.items.len(),
            forall|k: int|
                0 <= k < items@.len() ==> (#[trigger] items@[k]).0 == template@.items[k].0
                    && items@[k].1@ == template@.items[k].1,
            texts_of(flags@) == template_flags(template@.items.take(i as int)),
        decreases items.len() - i,
    {
        proof {
            assert(template@.items.take(i + 1).drop_last() =~= template@.items.take(i as int));
            assert(template@.items.take(i + 1).last() == template@.items[i as int]);
        }
        let ghost before = texts_of(flags@);
        match flag_stem(items[i].0) {
            Some(prefix) => {
                let text = value_text(&items[i].1);
                let flag = String::from_str(prefix).concat(text.as_str());
                flags.push(flag);
                assert(texts_of(flags@) =~= before.push(prefix@ + text@));
            },
            None => {},
        }
        i += 1;
    }
    assert(template@.items.take(items@.len() as int) =~= template@.items);
    flags
}

/// The value that `flags` give a key.
fn lookup_value(flags: &Vec<String>, key: &String) -> (r: Option<String>)
    ensures
        match r {
            Some(value) => new_value(texts_of(flags@), key@) == Some(value@),
            None => new_value(texts_of(flags@), key@) is None,
        },
{
    let ghost all = texts_of(flags@);
    let mut i: usize = flags.len();
    assert(all.take(i as int) =~= all);
    while i > 0
        invariant
            i <= flags.len(),
            all == texts_of(flags@),
            new_value(all, key@) == new_value(all.take(i as int), key@),
        decreases i,
    {
        proof {
            assert(all.take(i as int).drop_last() =~= all.take(i - 1));
            assert(all.take(i as int).last() == flags@[i - 1]@);
        }
        match split_at_first(flags[i - 1].as_str(), '=') {
            Some((k, v)) => {
                if k == *key {
                    return Some(v);
                }
            },
            None => {},
        }
        i -= 1;
    }
    None
}

/// The text that takes the place of an element.
fn replacement_text(text: &Option<String>, flags: &Vec<String>) -> (r: Option<String>)
    ensures
        match r {
            Some(new) => replacement(text_view(*text), texts_of(flags@)) == Some(new@),
            None => replacement(text_view(*text), texts_of(flags@)) is None,
        },
{
    match text {
        Some(s) => match split_at_first(s.as_str(), '=') {
            Some((key, _)) => match lookup_value(flags, &key) {
                Some(value) => {
                    proof {
                        reveal_strlit("=");
                        assert("="@ =~= seq!['=']);
                    }
                    Some(key.concat("=").concat(value.as_str()))
                },
                None => None,
            },
            None => None,
        },
        None => None,
    }
}

/// No element of `items` would change if `flags` were merged in.
pub open spec fn all_replaced(items: Seq<Element>, flags: Seq<Seq<char>>) -> bool {
    forall|i: int| 0 <= i < items.len() ==> replaced(#[trigger] items[i], flags) == items[i]
}

/// The configuration holds the flags already: merging them in asks for
/// nothing that is not there.
pub open spec fn holds_flags(nodes: Nodes, flags: Seq<Seq<char>>) -> bool {
    flags.len() == 0 || (is_table(nodes, build_path()) && match shape_of(nodes, flags_path()) {
        Shape::Array => {
            &&& all_replaced(array_items(nodes, flags_path()), flags)
            &&& absent_flags(array_items(nodes, flags_path()), flags).len() == 0
        },
        Shape::Scalar(Scalar::Str(text)) => unmentioned_flags(text, flags).len() == 0,
        _ => false,
    })
}

/// Replaces, in the array of flags, the value of each element whose key one
/// of `flags` has.
fn replace_values(doc: &mut DocumentMut, flags: &Vec<String>)
    requires
        is_array(doc_nodes(*old(doc)), flags_path()),
        is_table(doc_nodes(*old(doc)), Seq::empty()),
    ensures
        is_table(doc_nodes(*final(doc)), Seq::empty()),
        doc_nodes(*final(doc)) == with_items(
            doc_nodes(*old(doc)),
            flags_path(),
            replaced_prefix(
                array_items(doc_nodes(*old(doc)), flags_path()),
                texts_of(flags@),
                array_items(doc_nodes(*old(doc)), flags_path()).len() as int,
            ),
        ),
        all_replaced(array_items(doc_nodes(*old(doc)), flags_path()), texts_of(flags@))
            ==> doc_nodes(*final(doc)) == doc_nodes(*old(doc)) && doc_text(*final(doc))
            == doc_text(*old(doc)),
{
    let build = ["build"];
    let ghost start = doc_nodes(*doc);
    let ghost items = array_items(start, flags_path());
    let ghost wanted = texts_of(flags@);
    let ghost held = all_replaced(items, wanted);
    assert(path_of(build@).push("rustflags"@) =~= flags_path());
    let texts = array_texts(doc, &build, "rustflags");
    proof {
        assert(text_views(texts@).len() == texts@.len());
        assert(element_texts(items).len() == items.len());
        assert(replaced_prefix(items, wanted, 0) =~= items);
        assert(with_items(start, flags_path(), items) =~= start);
        assert(flags_path().len() == 2);
    }
    let mut i: usize = 0;
    while i < texts.len()
        invariant
            i <= texts.len(),
            texts@.len() == items.len(),
            text_views(texts@) == element_texts(items),
            path_of(build@).push("rustflags"@) == flags_path(),
            flags_path().len() == 2,
            start == doc_nodes(*old(doc)),
            items == array_items(start, flags_path()),
            wanted == texts_of(flags@),
            held == all_replaced(items, wanted),
            is_array(start, flags_path()),
            is_table(start, Seq::empty()),
            doc_nodes(*doc) == with_items(
                start,
                flags_path(),
                replaced_prefix(items, wanted, i as int),
            ),
            held ==> doc_text(*doc) == doc_text(*old(doc)),
        decreases texts.len() - i,
    {
        proof {
            assert(text_views(texts@)[i as int] == element_texts(items)[i as int]);
            assert(text_view(texts@[i as int]) == items[i as int].text);
            if held {
                lemma_all_replaced(start, items, wanted, i as int);
                lemma_all_replaced(start, items, wanted, i + 1);
            }
        }
        match replacement_text(&texts[i], flags) {
            Some(text) => {
                array_replace(doc, &build, "rustflags", i, text.as_str());
                proof {
                    lemma_replace_step(start, items, wanted, i as int, doc_nodes(*doc));
                }
            },
            None => {
                proof {
                    lemma_replace_skip(items, wanted, i as int);
                }
            },
        }
        i += 1;
    }
    proof {
        if held {
            lemma_all_replaced(start, items, wanted, items.len() as int);
        }
    }
}

/// Adds, at the end of the array of flags, each of `flags` that is no element
/// of it.
fn push_absent(doc: &mut DocumentMut, flags: &Vec<String>)
    requires
        is_array(doc_nodes(*old(doc)), flags_path()),
        is_table(doc_nodes(*old(doc)), Seq::empty()),
    ensures
        is_table(doc_nodes(*final(doc)), Seq::empty()),
        doc_nodes(*final(doc)) == with_pushed_all(
            doc_nodes(*old(doc)),
            flags_path(),
            absent_flags(array_items(doc_nodes(*old(doc)), flags_path()), texts_of(flags@)),
        ),
        absent_flags(array_items(doc_nodes(*old(doc)), flags_path()), texts_of(flags@)).len() == 0
            ==> doc_nodes(*final(doc)) == doc_nodes(*old(doc)) && doc_text(*final(doc))
            == doc_text(*old(doc)),
{
    let build = ["build"];
    let ghost start = doc_nodes(*doc);
    let ghost items = array_items(start, flags_path());
    let ghost wanted = texts_of(flags@);
    assert(path_of(build@).push("rustflags"@) =~= flags_path());
    let existing = array_texts(doc, &build, "rustflags");
    assert(wanted.take(0) =~= Seq::empty());
    assert(flags_path().len() == 2);
    let mut j: usize = 0;
    while j < flags.len()
        invariant
            j <= flags.len(),
            path_of(build@).push("rustflags"@) == flags_path(),
            start == doc_nodes(*old(doc)),
            items == array_items(start, flags_path()),
            wanted == texts_of(flags@),
            text_views(existing@) == element_texts(items),
            is_array(doc_nodes(*doc), flags_path()),
            is_table(doc_nodes(*doc), Seq::empty()),
            flags_path().len() == 2,
            doc_nodes(*doc) == with_pushed_all(
                start,
                flags_path(),
                absent_flags(items, wanted.take(j as int)),
            ),
            absent_flags(items, wanted).len() == 0 ==> doc_nodes(*doc) == start && doc_text(*doc)
                == doc_text(*old(doc)),
        decreases flags.len() - j,
    {
        proof {
            assert(wanted.take(j + 1).drop_last() =~= wanted.take(j as int));
            assert(wanted.take(j + 1).last() == flags@[j as int]@);
            lemma_holds_text(existing@, items, flags@[j as int]@);
            lemma_absent_prefix(items, wanted, j + 1);
        }
        if !holds_string(&existing, flags[j].as_str()) {
            let ghost before = absent_flags(items, wanted.take(j as int));
            array_push(doc, &build, "rustflags", flags[j].as_str());
            proof {
                assert(before.push(flags@[j as int]@).drop_last() =~= before);
            }
        }
        j += 1;
    }
    assert(wanted.take(flags@.len() as int) =~= wanted);
}

/// The flags that do not stand in `text`, in their order.
fn unmentioned(text: &str, flags: &Vec<String>) -> (r: Vec<String>)
    ensures
        texts_of(r@) == unmentioned_flags(text@, texts_of(flags@)),
{
    let ghost wanted = texts_of(flags@);
    let mut missing: Vec<String> = Vec::new();
    assert(wanted.take(0) =~= Seq::empty());
    assert(texts_of(missing@) =~= Seq::<Seq<char>>::empty());
    let mut j: usize = 0;
    while j < flags.len()
        invariant
            j <= flags.len(),
            wanted == texts_of(flags@),
            texts_of(missing@) == unmentioned_flags(text@, wanted.take(j as int)),
        decreases flags.len() - j,
    {
        proof {
            assert(wanted.take(j + 1).drop_last() =~= wanted.take(j as int));
            assert(wanted.take(j + 1).last() == flags@[j as int]@);
        }
        if !contains_text(text, flags[j].as_str()) {
            let ghost before = texts_of(missing@);
            missing.push(flags[j].clone());
            assert(texts_of(missing@) =~= before.push(flags@[j as int]@));
        }
        j += 1;
    }
    assert(wanted.take(flags@.len() as int) =~= wanted);
    missing
}

/// `text` with `more` behind it, set off by a space unless `text` is empty or
/// ends in one.
fn append_spaced(text: &String, more: &str) -> (r: String)
    ensures
        r@ == appended(text@, more@),
{
    let len = text.as_str().unicode_len();
    let mut out = text.clone();
    if len > 0 && text.as_str().get_char(len - 1) != ' ' {
        proof {
            reveal_strlit(" ");
            assert(" "@ =~= seq![' ']);
        }
        out.append(" ");
    }
    out.append(more);
    out
}

/// Adds, at the end of the string of flags, each of `flags` that does not
/// stand in it.
fn append_unmentioned(doc: &mut DocumentMut, current: &String, flags: &Vec<String>)
    requires
        is_table(doc_nodes(*old(doc)), build_path()),
        is_table(doc_nodes(*old(doc)), Seq::empty()),
        shape_of(doc_nodes(*old(doc)), flags_path()) == Shape::Scalar(Scalar::Str(current@)),
    ensures
        is_table(doc_nodes(*final(doc)), Seq::empty()),
        doc_nodes(*final(doc)) == merged_string(
            doc_nodes(*old(doc)),
            current@,
            texts_of(flags@),
        ),
        unmentioned_flags(current@, texts_of(flags@)).len() == 0 ==> doc_nodes(*final(doc))
            == doc_nodes(*old(doc)) && doc_text(*final(doc)) == doc_text(*old(doc)),
{
    let build = ["build"];
    assert(path_of(build@) =~= build_path());
    assert(build_path().push("rustflags"@) =~= flags_path());
    assert(flags_path().len() == 2);
    let missing = unmentioned(current.as_str(), flags);
    assert(texts_of(missing@).len() == missing@.len());
    if missing.len() == 0 {
        return ;
    }
    proof {
        reveal_strlit(" ");
        assert(" "@ =~= seq![' ']);
    }
    let more = join_texts(&missing, " ");
    let text = append_spaced(current, more.as_str());
    write_scalar(doc, &build, "rustflags", &TomlValue::String(text));
}

/// Config stored in a `.cargo/config.toml` file.
pub struct CargoConfig {
    document: DocumentMut,
}

impl Clone for CargoConfig {
    fn clone(&self) -> (r: Self)
        ensures
            r.nodes() == self.nodes(),
            r.text() == self.text(),
    {
        proof {
            use_type_invariant(self);
        }
        Self { document: self.document.clone() }
    }
}

impl CargoConfig {
    #[verifier::type_invariant]
    spec fn well_formed(self) -> bool {
        is_table(doc_nodes(self.document), Seq::empty())
    }

    /// What the configuration holds, by path.
    pub closed spec fn nodes(&self) -> Nodes {
        doc_nodes(self.document)
    }

    /// The configuration written out.
    pub closed spec fn text(&self) -> Seq<char> {
        doc_text(self.document)
    }

    /// A configuration without entries, for a workspace that has none yet.
    pub fn empty() -> (r: Self)
        ensures
            r.nodes() == root_only(),
            r.text() == Seq::<char>::empty(),
    {
        Self { document: new_document() }
    }

    /// Reads a configuration: the document that the parser makes of the text.
    /// Fails exactly on a text that is no TOML document.
    pub fn from_text(text: &str) -> (r: Result<Self, WizardError>)
        ensures
            r is Ok == toml_parses(text@),
            r matches Ok(config) ==> config.nodes() == parsed_nodes(text@),
            r matches Ok(config) ==> config.text() == parsed_text(text@),
            r matches Ok(config) ==> is_table(config.nodes(), Seq::empty()),
            r matches Err(error) ==> error is ConfigParse,
    {
        match parse_document(text) {
            Ok(document) => Ok(Self { document }),
            Err(error) => Err(WizardError::ConfigParse(error)),
        }
    }

    /// The configuration written out.
    pub fn get_text(&self) -> (r: String)
        ensures
            r@ == self.text(),
    {
        document_text(&self.document)
    }

    /// Merges the compiler flags of `template` into `build.rustflags`.
    ///
    /// A template without flags leaves the configuration untouched. Else the
    /// table `build` and, as an empty array, `rustflags` are made where they
    /// are missing. In an array, an element `key=old` whose key a flag has
    /// takes the flag's value and keeps its decoration, and the flags that
    /// are no element then are added. To a string, the flags that do not
    /// stand in it are added at the end; it keeps its decoration.
    ///
    /// Fails where `build` is there and is no table, or `rustflags` is
    /// neither an array nor a string.
    ///
    /// The configuration that comes out holds the flags. Applied to a
    /// configuration that holds the flags, this leaves the text as it is: a
    /// second application changes nothing.
    pub fn apply_template(self, template: &Template) -> (r: Result<Self, WizardError>)
        ensures
            match config_applied(self.nodes(), template_flags(template@.items)) {
                Merged::Done(nodes) => r matches Ok(config) && config.nodes() == nodes,
                Merged::BuildNotTable => r matches Err(WizardError::BuildNotTable),
                Merged::FlagsNotStringOrArray => r matches Err(WizardError::FlagsNotStringOrArray),
            },
            holds_flags(self.nodes(), template_flags(template@.items)) ==> (r matches Ok(config)
                && config.nodes() == self.nodes() && config.text() == self.text()),
            r matches Ok(config) ==> holds_flags(config.nodes(), template_flags(template@.items)),
    {
        proof {
            use_type_invariant(&self);
        }
        let flags = rustflags(template);
        proof {
            lemma_merged_holds(self.nodes(), template@.items);
        }
        assert(texts_of(flags@).len() == flags@.len());
        if flags.len() == 0 {
            return Ok(self);
        }
        let mut document = self.document;
        let root: [&str; 0] = [];
        let build = ["build"];
        proof {
            assert(path_of(root@) =~= Seq::<Seq<char>>::empty());
            assert(path_of(root@).push("build"@) =~= build_path());
            assert(path_of(build@) =~= build_path());
            assert(path_of(build@).push("rustflags"@) =~= flags_path());
            assert(build_path().len() == 1);
            assert(flags_path().len() == 2);
        }
        insert_table(&mut document, &root, "build");
        match item_shape(&document, &root, "build") {
            ItemShape::Table => {},
            _ => {
                return Err(WizardError::BuildNotTable);
            },
        }
        insert_array(&mut document, &build, "rustflags");
        match item_shape(&document, &build, "rustflags") {
            ItemShape::Array => {
                replace_values(&mut document, &flags);
                push_absent(&mut document, &flags);
            },
            ItemShape::Scalar(TomlValue::String(current)) => {
                append_unmentioned(&mut document, &current, &flags);
            },
            _ => {
                return Err(WizardError::FlagsNotStringOrArray);
            },
        }
        Ok(Self { document })
    }
}

/// Whether `flag` has the form `key=value` with the key `key`.
pub open spec fn has_flag_key(flag: Seq<char>, key: Seq<char>) -> bool {
    split_once(flag, '=') matches Some((k, _)) && k == key
}

/// The key of the flag of an item: what stands in the flag before its first
/// `=`.
pub open spec fn flag_name(id: TemplateItemId) -> Option<Seq<char>> {
    match id {
        TemplateItemId::TargetCpuInstructionSet => Some("-Ctarget-cpu"@),
        TemplateItemId::FrontendThreads => Some("-Zthreads"@),
        TemplateItemId::Linker => Some("-Clink-arg"@),
        _ => None,
    }
}

/// The place in `items` of the item whose flag is the flag at `j`.
pub open spec fn flag_source(items: Seq<(TemplateItemId, Scalar)>, j: int) -> int
    decreases items.len(),
{
    if items.len() == 0 {
        0
    } else if flag_prefix(items.last().0) is Some && j == template_flags(items.drop_last()).len() {
        items.len() - 1
    } else {
        flag_source(items.drop_last(), j)
    }
}

} // verus!
