//! What holds of the merge of compiler flags, with the proofs.

use vstd::prelude::*;
use crate::document::{
    array_items, holds_text, is_array, is_table, lemma_with_value_keeps_table, shape_of,
    with_array, with_items, with_pushed_all, with_table, Content, Element, Node, Nodes, Path,
    Shape,
};
use crate::template::{distinct_keys, TemplateItemId};
use crate::text::{
    before_first, behind_first, has_char, is_substring, joined, lemma_before_first_lacks,
    lemma_first_index_is, lemma_joined_holds, lemma_split_joined, lemma_split_once_joins,
    lemma_substring_within,
};
use crate::toml::Scalar;
use crate::workspace::config::{
    absent_flags, all_replaced, appended, build_path, config_applied, flag_name, flag_prefix,
    flag_source, flags_path, has_flag_key, holds_flags, merged_array, merged_string, new_value,
    replaced, replaced_prefix, replacement, scalar_text, template_flags,
    unmentioned_flags, Merged,
};

verus! {

/// Among the first flags no more are absent than among all.
pub proof fn lemma_absent_prefix(items: Seq<Element>, flags: Seq<Seq<char>>, k: int)
    requires
        0 <= k <= flags.len(),
    ensures
        absent_flags(items, flags.take(k)).len() <= absent_flags(items, flags).len(),
    decreases flags.len(),
{
    if k == flags.len() {
        assert(flags.take(k) =~= flags);
    } else {
        lemma_absent_prefix(items, flags.drop_last(), k);
        assert(flags.drop_last().take(k) =~= flags.take(k));
    }
}

/// Elements that would not change are what the replacement leaves.
pub(crate) proof fn lemma_all_replaced(
    nodes: Nodes,
    items: Seq<Element>,
    flags: Seq<Seq<char>>,
    done: int,
)
    requires
        is_array(nodes, flags_path()),
        items == array_items(nodes, flags_path()),
        all_replaced(items, flags),
    ensures
        replaced_prefix(items, flags, done) == items,
        with_items(nodes, flags_path(), items) == nodes,
{
    assert(replaced_prefix(items, flags, done) =~= items);
    assert(with_items(nodes, flags_path(), items) =~= nodes);
}

/// One more element replaced.
pub(crate) proof fn lemma_replace_step(
    start: Nodes,
    items: Seq<Element>,
    flags: Seq<Seq<char>>,
    i: int,
    after: Nodes,
)
    requires
        is_array(start, flags_path()),
        items == array_items(start, flags_path()),
        0 <= i < items.len(),
        after == with_items(start, flags_path(), replaced_prefix(items, flags, i)).insert(
            flags_path(),
            Node::Value {
                content: Content::Array {
                    items: replaced_prefix(items, flags, i).update(i, replaced(items[i], flags)),
                },
                decor: start[flags_path()]->decor,
            },
        ),
    ensures
        after == with_items(start, flags_path(), replaced_prefix(items, flags, i + 1)),
{
    assert(replaced_prefix(items, flags, i).update(i, replaced(items[i], flags))
        =~= replaced_prefix(items, flags, i + 1));
    assert(after =~= with_items(start, flags_path(), replaced_prefix(items, flags, i + 1)));
}

/// An element that stays as it is.
pub(crate) proof fn lemma_replace_skip(items: Seq<Element>, flags: Seq<Seq<char>>, i: int)
    requires
        0 <= i < items.len(),
        replaced(items[i], flags) == items[i],
    ensures
        replaced_prefix(items, flags, i) == replaced_prefix(items, flags, i + 1),
{
    assert(replaced_prefix(items, flags, i) =~= replaced_prefix(items, flags, i + 1));
}

/// The value that flags give a key is that of the last flag with the key.
pub proof fn lemma_new_value_is_last(flags: Seq<Seq<char>>, key: Seq<char>, j: int)
    requires
        0 <= j < flags.len(),
        has_flag_key(flags[j], key),
        forall|l: int| j < l < flags.len() ==> !has_flag_key(#[trigger] flags[l], key),
    ensures
        new_value(flags, key) == Some(behind_first(flags[j], '=')),
    decreases flags.len(),
{
    if j < flags.len() - 1 {
        let front = flags.drop_last();
        assert(!has_flag_key(flags[flags.len() - 1], key));
        assert(front[j] == flags[j]);
        assert forall|l: int| j < l < front.len() implies !has_flag_key(
            #[trigger] front[l],
            key,
        ) by {
            assert(front[l] == flags[l]);
        }
        lemma_new_value_is_last(front, key, j);
    }
}

/// New last elements leave the elements before them, and the decoration of
/// the array, as they are.
pub proof fn lemma_pushed_all(nodes: Nodes, path: Path, texts: Seq<Seq<char>>)
    requires
        is_array(nodes, path),
    ensures
        is_array(with_pushed_all(nodes, path, texts), path),
        array_items(with_pushed_all(nodes, path, texts), path).len() == array_items(
            nodes,
            path,
        ).len() + texts.len(),
        forall|i: int|
            0 <= i < array_items(nodes, path).len() ==> array_items(
                with_pushed_all(nodes, path, texts),
                path,
            )[i] == array_items(nodes, path)[i],
        with_pushed_all(nodes, path, texts)[path]->decor == nodes[path]->decor,
    decreases texts.len(),
{
    if texts.len() > 0 {
        lemma_pushed_all(nodes, path, texts.drop_last());
    }
}

/// Flags that are all elements of the array are none of them absent.
pub proof fn lemma_absent_none(items: Seq<Element>, flags: Seq<Seq<char>>)
    requires
        forall|j: int| 0 <= j < flags.len() ==> holds_text(items, #[trigger] flags[j]),
    ensures
        absent_flags(items, flags) == Seq::<Seq<char>>::empty(),
    decreases flags.len(),
{
    if flags.len() > 0 {
        let front = flags.drop_last();
        assert forall|j: int| 0 <= j < front.len() implies holds_text(
            items,
            #[trigger] front[j],
        ) by {
            assert(front[j] == flags[j]);
        }
        lemma_absent_none(items, front);
        assert(holds_text(items, flags[flags.len() - 1]));
    }
}

/// A flag replaces the value of an element with its key, and is not
/// duplicated: where the element at `i` is a string `key=old` and the flag at
/// `j` is the last of the flags with that key, the element becomes the flag,
/// in the element's decoration, and the flag is none of those that are added.
pub proof fn lemma_flag_replaces_value(items: Seq<Element>, flags: Seq<Seq<char>>, i: int, j: int)
    requires
        0 <= i < items.len(),
        0 <= j < flags.len(),
        items[i].text is Some,
        has_char(items[i].text->0, '='),
        has_flag_key(flags[j], before_first(items[i].text->0, '=')),
        forall|l: int|
            j < l < flags.len() ==> !has_flag_key(
                #[trigger] flags[l],
                before_first(items[i].text->0, '='),
            ),
    ensures
        replaced(items[i], flags) == (Element {
            text: Some(flags[j]),
            plain: true,
            decor: items[i].decor,
        }),
        holds_text(replaced_prefix(items, flags, items.len() as int), flags[j]),
{
    let key = before_first(items[i].text->0, '=');
    lemma_new_value_is_last(flags, key, j);
    lemma_split_once_joins(flags[j], '=');
    let after = replaced_prefix(items, flags, items.len() as int);
    assert(after[i] == replaced(items[i], flags));
    assert(after[i].text == Some(flags[j]));
}

/// Merging flags into an array replaces and adds, and does nothing else: the
/// elements that were there stand where they stood, each as [`replaced`]
/// gives it; behind them stand the flags that were no element. Where every
/// flag is an element after the replacement the array keeps its length.
pub proof fn lemma_merged_array(nodes: Nodes, flags: Seq<Seq<char>>)
    requires
        is_array(nodes, flags_path()),
    ensures
        is_array(merged_array(nodes, flags), flags_path()),
        merged_array(nodes, flags)[flags_path()]->decor == nodes[flags_path()]->decor,
        array_items(merged_array(nodes, flags), flags_path()).len() >= array_items(
            nodes,
            flags_path(),
        ).len(),
        forall|i: int|
            0 <= i < array_items(nodes, flags_path()).len() ==> array_items(
                merged_array(nodes, flags),
                flags_path(),
            )[i] == replaced(#[trigger] array_items(nodes, flags_path())[i], flags),
        (forall|j: int|
            0 <= j < flags.len() ==> holds_text(
                replaced_prefix(
                    array_items(nodes, flags_path()),
                    flags,
                    array_items(nodes, flags_path()).len() as int,
                ),
                #[trigger] flags[j],
            )) ==> array_items(merged_array(nodes, flags), flags_path()).len() == array_items(
            nodes,
            flags_path(),
        ).len(),
{
    let items = array_items(nodes, flags_path());
    let after = replaced_prefix(items, flags, items.len() as int);
    let swapped = with_items(nodes, flags_path(), after);
    assert(array_items(swapped, flags_path()) == after);
    lemma_pushed_all(swapped, flags_path(), absent_flags(after, flags));
    if forall|j: int| 0 <= j < flags.len() ==> holds_text(after, #[trigger] flags[j]) {
        lemma_absent_none(after, flags);
    }
    assert forall|i: int| 0 <= i < items.len() implies array_items(
        merged_array(nodes, flags),
        flags_path(),
    )[i] == replaced(#[trigger] items[i], flags) by {
        assert(after[i] == replaced(items[i], flags));
    }
}

/// Merging flags into a string adds to its end and keeps its decoration: the
/// string becomes itself, a space unless it is empty or ends in one, and the
/// flags that did not stand in it, with a space between each two; a string in
/// which all flags stand stays as it is.
pub proof fn lemma_merged_string(nodes: Nodes, text: Seq<char>, flags: Seq<Seq<char>>)
    requires
        shape_of(nodes, flags_path()) == Shape::Scalar(Scalar::Str(text)),
    ensures
        shape_of(merged_string(nodes, text, flags), flags_path()) == Shape::Scalar(
            Scalar::Str(
                if unmentioned_flags(text, flags).len() == 0 {
                    text
                } else {
                    appended(text, joined(unmentioned_flags(text, flags), seq![' ']))
                },
            ),
        ),
        merged_string(nodes, text, flags)[flags_path()]->decor == nodes[flags_path()]->decor,
{
    assert(build_path().push("rustflags"@) =~= flags_path());
}

/// The flag of the target CPU has the key `-Ctarget-cpu`.
pub(crate) proof fn lemma_cpu_flag(text: Seq<char>)
    ensures
        has_flag_key("-Ctarget-cpu="@ + text, "-Ctarget-cpu"@),
{
    reveal_strlit("-Ctarget-cpu");
    reveal_strlit("-Ctarget-cpu=");
    let name = "-Ctarget-cpu"@;
    assert(!has_char(name, '=')) by {
        assert forall|j: int| 0 <= j < name.len() implies name[j] != '=' by {}
    }
    lemma_split_joined(name, '=', text);
    assert("-Ctarget-cpu="@ + text =~= name + seq!['='] + text);
}

/// The flag of the frontend threads has the key `-Zthreads`.
pub(crate) proof fn lemma_threads_flag(text: Seq<char>)
    ensures
        has_flag_key("-Zthreads="@ + text, "-Zthreads"@),
{
    reveal_strlit("-Zthreads");
    reveal_strlit("-Zthreads=");
    let name = "-Zthreads"@;
    assert(!has_char(name, '=')) by {
        assert forall|j: int| 0 <= j < name.len() implies name[j] != '=' by {}
    }
    lemma_split_joined(name, '=', text);
    assert("-Zthreads="@ + text =~= name + seq!['='] + text);
}

/// The flag of the linker has the key `-Clink-arg`: its value holds an `=` of
/// its own.
pub(crate) proof fn lemma_linker_flag(text: Seq<char>)
    ensures
        has_flag_key("-Clink-arg=-fuse-ld="@ + text, "-Clink-arg"@),
{
    reveal_strlit("-Clink-arg");
    reveal_strlit("-Clink-arg=-fuse-ld=");
    let prefix = "-Clink-arg=-fuse-ld="@;
    let flag = prefix + text;
    assert(prefix.len() == 20);
    assert forall|j: int| 0 <= j < 10 implies flag[j] != '=' by {
        assert(flag[j] == prefix[j]);
    }
    assert(flag[10] == prefix[10]);
    lemma_first_index_is(flag, '=', 10);
    assert(before_first(flag, '=') =~= "-Clink-arg"@) by {
        assert forall|j: int| 0 <= j < 10 implies flag.subrange(0, 10)[j] == "-Clink-arg"@[j] by {
            assert(flag[j] == prefix[j]);
        }
    }
}

/// The flag of an item has the item's key, whatever its value.
pub proof fn lemma_flag_has_name(id: TemplateItemId, text: Seq<char>)
    requires
        flag_prefix(id) is Some,
    ensures
        has_flag_key(flag_prefix(id)->0 + text, flag_name(id)->0),
{
    match id {
        TemplateItemId::TargetCpuInstructionSet => lemma_cpu_flag(text),
        TemplateItemId::FrontendThreads => lemma_threads_flag(text),
        _ => lemma_linker_flag(text),
    }
}

/// No two items share the key of their flag.
pub proof fn lemma_flag_names_differ(id: TemplateItemId, other: TemplateItemId)
    requires
        flag_name(id) is Some,
        id != other,
    ensures
        flag_name(id) != flag_name(other),
{
    reveal_strlit("-Ctarget-cpu");
    reveal_strlit("-Zthreads");
    reveal_strlit("-Clink-arg");
    assert("-Ctarget-cpu"@.len() == 12);
    assert("-Zthreads"@.len() == 9);
    assert("-Clink-arg"@.len() == 10);
}

/// Every flag of `items` is that of an item which has one.
pub proof fn lemma_flag_source(items: Seq<(TemplateItemId, Scalar)>, j: int)
    requires
        0 <= j < template_flags(items).len(),
    ensures
        0 <= flag_source(items, j) < items.len(),
        flag_prefix(items[flag_source(items, j)].0) is Some,
        template_flags(items)[j] == flag_prefix(items[flag_source(items, j)].0)->0 + scalar_text(
            items[flag_source(items, j)].1,
        ),
    decreases items.len(),
{
    let rest = template_flags(items.drop_last());
    if !(flag_prefix(items.last().0) is Some && j == rest.len()) {
        lemma_flag_source(items.drop_last(), j);
        assert(items.drop_last()[flag_source(items.drop_last(), j)] == items[flag_source(
            items.drop_last(),
            j,
        )]);
    }
}

/// Flags stand in the order of the items that they come of.
pub proof fn lemma_flag_source_grows(items: Seq<(TemplateItemId, Scalar)>, a: int, b: int)
    requires
        0 <= a < b < template_flags(items).len(),
    ensures
        flag_source(items, a) < flag_source(items, b),
    decreases items.len(),
{
    let rest = template_flags(items.drop_last());
    if flag_prefix(items.last().0) is Some && b == rest.len() {
        lemma_flag_source(items.drop_last(), a);
    } else {
        lemma_flag_source_grows(items.drop_last(), a, b);
    }
}

/// The flags of a template have each a key of its own.
pub proof fn lemma_flag_keys_differ(items: Seq<(TemplateItemId, Scalar)>, a: int, b: int)
    requires
        distinct_keys(items),
        0 <= a < template_flags(items).len(),
        0 <= b < template_flags(items).len(),
        a != b,
    ensures
        has_char(template_flags(items)[a], '='),
        !has_flag_key(template_flags(items)[b], before_first(template_flags(items)[a], '=')),
{
    let ia = flag_source(items, a);
    let ib = flag_source(items, b);
    lemma_flag_source(items, a);
    lemma_flag_source(items, b);
    assert(ia != ib) by {
        if a < b {
            lemma_flag_source_grows(items, a, b);
        } else {
            lemma_flag_source_grows(items, b, a);
        }
    }
    assert(items[ia].0 != items[ib].0);
    lemma_flag_has_name(items[ia].0, scalar_text(items[ia].1));
    lemma_flag_has_name(items[ib].0, scalar_text(items[ib].1));
    lemma_flag_names_differ(items[ia].0, items[ib].0);
}

/// An element that was replaced stays as it is when it is replaced again.
pub proof fn lemma_replaced_twice(element: Element, flags: Seq<Seq<char>>)
    ensures
        replaced(replaced(element, flags), flags) == replaced(element, flags),
{
    match replacement(element.text, flags) {
        Some(text) => {
            let old = element.text->0;
            let key = before_first(old, '=');
            let value = new_value(flags, key)->0;
            lemma_before_first_lacks(old, '=');
            lemma_split_joined(key, '=', value);
        },
        None => {},
    }
}

/// A flag that is the only one with its key stays as it is when the flags
/// are merged in.
pub proof fn lemma_flag_stays(element: Element, flags: Seq<Seq<char>>, j: int)
    requires
        0 <= j < flags.len(),
        element.text == Some(flags[j]),
        element.plain,
        has_char(flags[j], '=') ==> forall|l: int|
            0 <= l < flags.len() && l != j ==> !has_flag_key(
                #[trigger] flags[l],
                before_first(flags[j], '='),
            ),
    ensures
        replaced(element, flags) == element,
{
    if has_char(flags[j], '=') {
        let key = before_first(flags[j], '=');
        lemma_new_value_is_last(flags, key, j);
        lemma_split_once_joins(flags[j], '=');
    }
}

/// Every absent flag is one of the flags, and no element of `items`.
pub proof fn lemma_absent_origin(items: Seq<Element>, flags: Seq<Seq<char>>, j: int) -> (m: int)
    requires
        0 <= j < absent_flags(items, flags).len(),
    ensures
        0 <= m < flags.len(),
        absent_flags(items, flags)[j] == flags[m],
        !holds_text(items, flags[m]),
    decreases flags.len(),
{
    let rest = absent_flags(items, flags.drop_last());
    if !holds_text(items, flags.last()) && j == rest.len() {
        flags.len() - 1
    } else {
        let m = lemma_absent_origin(items, flags.drop_last(), j);
        assert(flags.drop_last()[m] == flags[m]);
        m
    }
}

/// Every flag that is no element of `items` is among the absent ones.
pub proof fn lemma_absent_has(items: Seq<Element>, flags: Seq<Seq<char>>, m: int) -> (j: int)
    requires
        0 <= m < flags.len(),
        !holds_text(items, flags[m]),
    ensures
        0 <= j < absent_flags(items, flags).len(),
        absent_flags(items, flags)[j] == flags[m],
    decreases flags.len(),
{
    let rest = absent_flags(items, flags.drop_last());
    if m == flags.len() - 1 {
        rest.len() as int
    } else {
        assert(flags.drop_last()[m] == flags[m]);
        lemma_absent_has(items, flags.drop_last(), m)
    }
}

/// The new last elements are the strings that were pushed, in the writer's
/// own form; nothing else of the document is touched.
pub proof fn lemma_pushed_elements(nodes: Nodes, path: Path, texts: Seq<Seq<char>>, other: Path)
    requires
        is_array(nodes, path),
    ensures
        forall|j: int|
            0 <= j < texts.len() ==> (#[trigger] array_items(
                with_pushed_all(nodes, path, texts),
                path,
            )[array_items(nodes, path).len() + j]).text == Some(texts[j]) && array_items(
                with_pushed_all(nodes, path, texts),
                path,
            )[array_items(nodes, path).len() + j].plain,
        other != path ==> with_pushed_all(nodes, path, texts).contains_key(other)
            == nodes.contains_key(other),
        other != path && nodes.contains_key(other) ==> with_pushed_all(nodes, path, texts)[other]
            == nodes[other],
    decreases texts.len(),
{
    lemma_pushed_all(nodes, path, texts);
    if texts.len() > 0 {
        let front = texts.drop_last();
        lemma_pushed_elements(nodes, path, front, other);
        lemma_pushed_all(nodes, path, front);
        let before = array_items(with_pushed_all(nodes, path, front), path);
        let after = array_items(with_pushed_all(nodes, path, texts), path);
        assert forall|j: int| 0 <= j < texts.len() implies (#[trigger] after[array_items(
            nodes,
            path,
        ).len() + j]).text == Some(texts[j]) && after[array_items(nodes, path).len() + j].plain by {
            if j < front.len() {
                assert(after[array_items(nodes, path).len() + j] == before[array_items(
                    nodes,
                    path,
                ).len() + j]);
                assert(front[j] == texts[j]);
            }
        }
    }
}

/// Every flag that does not stand in `text` is among the unmentioned ones.
pub proof fn lemma_unmentioned_has(text: Seq<char>, flags: Seq<Seq<char>>, m: int) -> (j: int)
    requires
        0 <= m < flags.len(),
        !is_substring(flags[m], text),
    ensures
        0 <= j < unmentioned_flags(text, flags).len(),
        unmentioned_flags(text, flags)[j] == flags[m],
    decreases flags.len(),
{
    let rest = unmentioned_flags(text, flags.drop_last());
    if m == flags.len() - 1 {
        rest.len() as int
    } else {
        assert(flags.drop_last()[m] == flags[m]);
        lemma_unmentioned_has(text, flags.drop_last(), m)
    }
}

/// Flags that all stand in `text` are none of them unmentioned.
pub proof fn lemma_unmentioned_none(text: Seq<char>, flags: Seq<Seq<char>>)
    requires
        forall|m: int| 0 <= m < flags.len() ==> is_substring(#[trigger] flags[m], text),
    ensures
        unmentioned_flags(text, flags) == Seq::<Seq<char>>::empty(),
    decreases flags.len(),
{
    if flags.len() > 0 {
        let front = flags.drop_last();
        assert forall|m: int| 0 <= m < front.len() implies is_substring(
            #[trigger] front[m],
            text,
        ) by {
            assert(front[m] == flags[m]);
        }
        lemma_unmentioned_none(text, front);
        assert(is_substring(flags[flags.len() - 1], text));
    }
}

/// Once flags were added to a string, all of them stand in it.
pub(crate) proof fn lemma_appended_mentions(text: Seq<char>, flags: Seq<Seq<char>>)
    requires
        unmentioned_flags(text, flags).len() > 0,
    ensures
        unmentioned_flags(
            appended(text, joined(unmentioned_flags(text, flags), seq![' '])),
            flags,
        ).len() == 0,
{
    let missing = unmentioned_flags(text, flags);
    let more = joined(missing, seq![' ']);
    let whole = appended(text, more);
    let gap = if text.len() > 0 && text.last() != ' ' {
        seq![' ']
    } else {
        Seq::<char>::empty()
    };
    assert(whole =~= text + gap + more);
    assert forall|m: int| 0 <= m < flags.len() implies is_substring(
        #[trigger] flags[m],
        whole,
    ) by {
        if is_substring(flags[m], text) {
            lemma_substring_within(flags[m], Seq::empty(), text, gap + more);
            assert(Seq::<char>::empty() + text + (gap + more) =~= whole);
        } else {
            let j = lemma_unmentioned_has(text, flags, m);
            lemma_joined_holds(missing, seq![' '], j);
            lemma_substring_within(flags[m], text + gap, more, Seq::empty());
            assert(text + gap + more + Seq::<char>::empty() =~= whole);
        }
    }
    lemma_unmentioned_none(whole, flags);
}

/// Once flags were merged into an array, merging them in again asks for
/// nothing.
pub(crate) proof fn lemma_merged_array_holds(nodes: Nodes, items: Seq<(TemplateItemId, Scalar)>)
    requires
        distinct_keys(items),
        is_array(nodes, flags_path()),
    ensures
        is_array(merged_array(nodes, template_flags(items)), flags_path()),
        all_replaced(
            array_items(merged_array(nodes, template_flags(items)), flags_path()),
            template_flags(items),
        ),
        absent_flags(
            array_items(merged_array(nodes, template_flags(items)), flags_path()),
            template_flags(items),
        ).len() == 0,
{
    let flags = template_flags(items);
    let before = array_items(nodes, flags_path());
    let swapped_items = replaced_prefix(before, flags, before.len() as int);
    let swapped = with_items(nodes, flags_path(), swapped_items);
    let absent = absent_flags(swapped_items, flags);
    let after = array_items(merged_array(nodes, flags), flags_path());
    assert(array_items(swapped, flags_path()) == swapped_items);
    lemma_pushed_all(swapped, flags_path(), absent);
    lemma_pushed_elements(swapped, flags_path(), absent, flags_path());
    assert forall|i: int| 0 <= i < after.len() implies replaced(#[trigger] after[i], flags)
        == after[i] by {
        if i < swapped_items.len() {
            assert(after[i] == swapped_items[i]);
            assert(swapped_items[i] == replaced(before[i], flags));
            lemma_replaced_twice(before[i], flags);
        } else {
            let j = i - swapped_items.len();
            assert(after[swapped_items.len() + j].text == Some(absent[j]));
            let m = lemma_absent_origin(swapped_items, flags, j);
            assert forall|l: int| 0 <= l < flags.len() && l != m implies !has_flag_key(
                #[trigger] flags[l],
                before_first(flags[m], '='),
            ) by {
                lemma_flag_keys_differ(items, m, l);
            }
            lemma_flag_stays(after[i], flags, m);
        }
    }
    assert forall|m: int| 0 <= m < flags.len() implies holds_text(after, #[trigger] flags[m]) by {
        if holds_text(swapped_items, flags[m]) {
            let i = choose|i: int|
                0 <= i < swapped_items.len() && (#[trigger] swapped_items[i]).text == Some(
                    flags[m],
                );
            assert(after[i] == swapped_items[i]);
        } else {
            let j = lemma_absent_has(swapped_items, flags, m);
            assert(after[swapped_items.len() + j].text == Some(absent[j]));
        }
    }
    lemma_absent_none(after, flags);
}

/// A configuration into which the flags of a template were merged holds the
/// flags: merging them in again asks for nothing that is not there and, by
/// the contract of [`CargoConfig::apply_template`], leaves the text as it is.
pub proof fn lemma_merged_holds(nodes: Nodes, items: Seq<(TemplateItemId, Scalar)>)
    requires
        distinct_keys(items),
    ensures
        config_applied(nodes, template_flags(items)) matches Merged::Done(after) ==> holds_flags(
            after,
            template_flags(items),
        ),
{
    let flags = template_flags(items);
    if flags.len() > 0 {
        let n1 = with_table(nodes, Seq::empty(), "build"@);
        assert(Seq::<Seq<char>>::empty().push("build"@) =~= build_path());
        assert(build_path().push("rustflags"@) =~= flags_path());
        assert(build_path().len() == 1 && flags_path().len() == 2);
        if n1[build_path()] is Table {
            let n2 = with_array(n1, build_path(), "rustflags"@);
            assert(is_table(n2, build_path()));
            match shape_of(n2, flags_path()) {
                Shape::Array => {
                    let before = array_items(n2, flags_path());
                    let swapped = with_items(
                        n2,
                        flags_path(),
                        replaced_prefix(before, flags, before.len() as int),
                    );
                    lemma_merged_array_holds(n2, items);
                    lemma_pushed_elements(
                        swapped,
                        flags_path(),
                        absent_flags(replaced_prefix(before, flags, before.len() as int), flags),
                        build_path(),
                    );
                },
                Shape::Scalar(Scalar::Str(text)) => {
                    if unmentioned_flags(text, flags).len() > 0 {
                        lemma_appended_mentions(text, flags);
                        lemma_with_value_keeps_table(
                            n2,
                            build_path(),
                            "rustflags"@,
                            Scalar::Str(
                                appended(text, joined(unmentioned_flags(text, flags), seq![' '])),
                            ),
                        );
                    }
                },
                _ => {},
            }
        }
    }
}

} // verus!
