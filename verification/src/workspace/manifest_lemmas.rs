//! What holds of the writes to a profile, with the proofs.

use vstd::prelude::*;
use crate::document::{
    array_items, below, default_decor, holds_text, is_array, is_table, is_value,
    lemma_with_value_keeps_table, with_child, with_table, with_value, Content, Node, Nodes,
    Path,
};
use crate::template::{distinct_keys, entry_value, stock_defaults, TemplateItemId, TemplateView};
use crate::toml::Scalar;
use crate::workspace::manifest::{
    all_held, distinct_writes, existing_scalar, features_path, holds_template, inherits_write,
    is_held, is_written, item_key, item_writes, manifest_applied, names_key, planned_writes,
    prepared, profile_path, profiles_path, with_dotted, with_feature, with_values, writes_for,
    Applied, BuiltinProfile, Write,
};

verus! {

/// One more item gives one more write, or none.
pub(crate) proof fn lemma_item_writes_step(
    nodes: Nodes,
    table: Path,
    builtin: bool,
    base: BuiltinProfile,
    items: Seq<(TemplateItemId, Scalar)>,
    i: int,
)
    requires
        0 <= i < items.len(),
    ensures
        item_writes(nodes, table, builtin, base, items.take(i + 1)) == if is_written(
            nodes,
            table,
            builtin,
            base,
            items[i],
        ) {
            item_writes(nodes, table, builtin, base, items.take(i)).push(
                (item_key(items[i].0)->0, items[i].1),
            )
        } else {
            item_writes(nodes, table, builtin, base, items.take(i))
        },
{
    assert(items.take(i + 1).drop_last() =~= items.take(i));
    assert(items.take(i + 1).last() == items[i]);
}

/// A write that is held leaves everything as it is.
pub proof fn lemma_held_write(nodes: Nodes, table: Path, write: Write)
    requires
        is_held(nodes, table, write),
    ensures
        with_value(nodes, table, write.0, write.1) == nodes,
{
    assert(with_value(nodes, table, write.0, write.1) =~= nodes);
}

/// One more write is made on what the writes before it left.
pub(crate) proof fn lemma_with_values_step(nodes: Nodes, table: Path, writes: Seq<Write>, i: int)
    requires
        0 <= i < writes.len(),
    ensures
        with_values(nodes, table, writes.take(i + 1)) == with_value(
            with_values(nodes, table, writes.take(i)),
            table,
            writes[i].0,
            writes[i].1,
        ),
{
    assert(writes.take(i + 1).drop_last() =~= writes.take(i));
    assert(writes.take(i + 1).last() == writes[i]);
}

/// Writes to a table leave alone what lies above the table.
pub proof fn lemma_with_values_above(nodes: Nodes, table: Path, writes: Seq<Write>, other: Path)
    requires
        other.len() < table.len(),
    ensures
        with_values(nodes, table, writes).contains_key(other) == nodes.contains_key(other),
        nodes.contains_key(other) ==> with_values(nodes, table, writes)[other] == nodes[other],
    decreases writes.len(),
{
    if writes.len() > 0 {
        lemma_with_values_above(nodes, table, writes.drop_last(), other);
        let path = table.push(writes.last().0);
        assert(path.len() == table.len() + 1);
        assert(!below(path, other));
    }
}

/// No two items share a key, and no item has the key `inherits`.
pub proof fn lemma_item_keys_differ(a: TemplateItemId, b: TemplateItemId)
    requires
        item_key(a) is Some,
    ensures
        item_key(a) == item_key(b) ==> a == b,
        item_key(a) != Some("inherits"@),
{
    reveal_strlit("debug");
    reveal_strlit("split-debuginfo");
    reveal_strlit("strip");
    reveal_strlit("lto");
    reveal_strlit("codegen-units");
    reveal_strlit("panic");
    reveal_strlit("opt-level");
    reveal_strlit("codegen-backend");
    reveal_strlit("incremental");
    reveal_strlit("inherits");
    let ka = item_key(a)->0;
    if item_key(b) is Some {
        let kb = item_key(b)->0;
        if a != b {
            assert(ka.len() != kb.len() || ka[0] != kb[0]);
        }
    }
    assert(ka.len() != "inherits"@.len());
}

/// A write leaves alone what the table holds under other keys.
pub proof fn lemma_with_value_other(
    nodes: Nodes,
    table: Path,
    key: Seq<char>,
    value: Scalar,
    other: Seq<char>,
)
    requires
        other != key,
    ensures
        with_value(nodes, table, key, value).contains_key(table.push(other)) == nodes.contains_key(
            table.push(other),
        ),
        nodes.contains_key(table.push(other)) ==> with_value(nodes, table, key, value)[table.push(
            other,
        )] == nodes[table.push(other)],
{
    let path = table.push(key);
    let there = table.push(other);
    assert(path.len() == there.len());
    assert(!below(path, there));
    assert(there != table);
    assert(there != path) by {
        if there == path {
            assert(there[table.len() as int] == path[table.len() as int]);
        }
    }
}

/// A write makes the table hold its scalar, in the decoration of the value
/// that it replaces.
pub proof fn lemma_with_value_held(nodes: Nodes, table: Path, key: Seq<char>, value: Scalar)
    ensures
        is_held(with_value(nodes, table, key, value), table, (key, value)),
        is_value(nodes, table.push(key)) ==> with_value(nodes, table, key, value)[table.push(
            key,
        )]->decor == nodes[table.push(key)]->decor,
{
    let path = table.push(key);
    assert(path != table) by {
        assert(path.len() == table.len() + 1);
    }
}

/// Writes leave alone what the table holds under a key that none of them
/// names.
pub proof fn lemma_with_values_other(
    nodes: Nodes,
    table: Path,
    writes: Seq<Write>,
    other: Seq<char>,
)
    requires
        forall|i: int| 0 <= i < writes.len() ==> (#[trigger] writes[i]).0 != other,
    ensures
        with_values(nodes, table, writes).contains_key(table.push(other)) == nodes.contains_key(
            table.push(other),
        ),
        nodes.contains_key(table.push(other)) ==> with_values(nodes, table, writes)[table.push(
            other,
        )] == nodes[table.push(other)],
    decreases writes.len(),
{
    if writes.len() > 0 {
        let rest = writes.drop_last();
        assert forall|i: int| 0 <= i < rest.len() implies (#[trigger] rest[i]).0 != other by {
            assert(rest[i] == writes[i]);
        }
        lemma_with_values_other(nodes, table, rest, other);
        lemma_with_value_other(
            with_values(nodes, table, rest),
            table,
            writes.last().0,
            writes.last().1,
            other,
        );
    }
}

/// After writes to distinct keys the table holds the scalar of each, in the
/// decoration of the value that the write replaced.
pub proof fn lemma_with_values_held(nodes: Nodes, table: Path, writes: Seq<Write>, i: int)
    requires
        distinct_writes(writes),
        0 <= i < writes.len(),
    ensures
        is_held(with_values(nodes, table, writes), table, writes[i]),
        is_value(nodes, table.push(writes[i].0)) ==> with_values(nodes, table, writes)[table.push(
            writes[i].0,
        )]->decor == nodes[table.push(writes[i].0)]->decor,
    decreases writes.len(),
{
    let rest = writes.drop_last();
    let before = with_values(nodes, table, rest);
    let last = writes.last();
    if i == writes.len() - 1 {
        assert forall|k: int| 0 <= k < rest.len() implies (#[trigger] rest[k]).0 != last.0 by {
            assert(rest[k] == writes[k]);
        }
        lemma_with_values_other(nodes, table, rest, last.0);
        lemma_with_value_held(before, table, last.0, last.1);
    } else {
        assert(rest[i] == writes[i]);
        assert(distinct_writes(rest)) by {
            assert forall|a: int, b: int|
                0 <= a < rest.len() && 0 <= b < rest.len() && a != b implies (#[trigger] rest[a]).0
                != (#[trigger] rest[b]).0 by {
                assert(rest[a] == writes[a]);
                assert(rest[b] == writes[b]);
            }
        }
        lemma_with_values_held(nodes, table, rest, i);
        lemma_with_value_other(before, table, last.0, last.1, writes[i].0);
    }
}

/// Every write that comes of `items` is that of an item which is written.
pub proof fn lemma_item_writes_origin(
    nodes: Nodes,
    table: Path,
    builtin: bool,
    base: BuiltinProfile,
    items: Seq<(TemplateItemId, Scalar)>,
    j: int,
) -> (i: int)
    requires
        0 <= j < item_writes(nodes, table, builtin, base, items).len(),
    ensures
        0 <= i < items.len(),
        is_written(nodes, table, builtin, base, items[i]),
        item_writes(nodes, table, builtin, base, items)[j] == (item_key(items[i].0)->0, items[i].1),
    decreases items.len(),
{
    let rest = item_writes(nodes, table, builtin, base, items.drop_last());
    if is_written(nodes, table, builtin, base, items.last()) && j == rest.len() {
        items.len() - 1
    } else {
        let i = lemma_item_writes_origin(nodes, table, builtin, base, items.drop_last(), j);
        assert(items.drop_last()[i] == items[i]);
        i
    }
}

/// Every item that is written has its write among those that come of
/// `items`.
pub proof fn lemma_item_writes_has(
    nodes: Nodes,
    table: Path,
    builtin: bool,
    base: BuiltinProfile,
    items: Seq<(TemplateItemId, Scalar)>,
    i: int,
) -> (j: int)
    requires
        0 <= i < items.len(),
        is_written(nodes, table, builtin, base, items[i]),
    ensures
        0 <= j < item_writes(nodes, table, builtin, base, items).len(),
        item_writes(nodes, table, builtin, base, items)[j] == (item_key(items[i].0)->0, items[i].1),
    decreases items.len(),
{
    let rest = item_writes(nodes, table, builtin, base, items.drop_last());
    if i == items.len() - 1 {
        rest.len() as int
    } else {
        assert(items.drop_last()[i] == items[i]);
        lemma_item_writes_has(nodes, table, builtin, base, items.drop_last(), i)
    }
}

/// The writes of a template name no key twice.
pub proof fn lemma_planned_distinct(
    nodes: Nodes,
    table: Path,
    builtin: bool,
    template: TemplateView,
)
    requires
        distinct_keys(template.items),
    ensures
        distinct_writes(planned_writes(nodes, table, builtin, template)),
{
    let base = template.inherits;
    let items = template.items;
    let own = item_writes(nodes, table, builtin, base, items);
    let all = planned_writes(nodes, table, builtin, template);
    assert forall|a: int, b: int| 0 <= a < own.len() && 0 <= b < own.len() && a != b implies (
    #[trigger] own[a]).0 != (#[trigger] own[b]).0 by {
        let ia = lemma_item_writes_origin(nodes, table, builtin, base, items, a);
        let ib = lemma_item_writes_origin(nodes, table, builtin, base, items, b);
        lemma_item_keys_differ(items[ia].0, items[ib].0);
        if ia == ib {
            lemma_item_writes_order(nodes, table, builtin, base, items, a, b);
        }
    }
    if !builtin {
        assert forall|a: int, b: int| 0 <= a < all.len() && 0 <= b < all.len() && a != b implies (
        #[trigger] all[a]).0 != (#[trigger] all[b]).0 by {
            if a > 0 {
                assert(all[a] == own[a - 1]);
                let ia = lemma_item_writes_origin(nodes, table, builtin, base, items, a - 1);
                lemma_item_keys_differ(items[ia].0, items[ia].0);
            }
            if b > 0 {
                assert(all[b] == own[b - 1]);
                let ib = lemma_item_writes_origin(nodes, table, builtin, base, items, b - 1);
                lemma_item_keys_differ(items[ib].0, items[ib].0);
            }
        }
    }
}

/// Writes that come of one and the same item are one and the same write.
pub(crate) proof fn lemma_item_writes_order(
    nodes: Nodes,
    table: Path,
    builtin: bool,
    base: BuiltinProfile,
    items: Seq<(TemplateItemId, Scalar)>,
    a: int,
    b: int,
)
    requires
        distinct_keys(items),
        0 <= a < item_writes(nodes, table, builtin, base, items).len(),
        0 <= b < item_writes(nodes, table, builtin, base, items).len(),
        item_writes(nodes, table, builtin, base, items)[a].0 == item_writes(
            nodes,
            table,
            builtin,
            base,
            items,
        )[b].0,
    ensures
        a == b,
    decreases items.len(),
{
    let rest = item_writes(nodes, table, builtin, base, items.drop_last());
    let front = items.drop_last();
    assert(distinct_keys(front)) by {
        assert forall|x: int, y: int|
            0 <= x < front.len() && 0 <= y < front.len() && x != y implies (#[trigger] front[x]).0
            != (#[trigger] front[y]).0 by {
            assert(front[x] == items[x]);
            assert(front[y] == items[y]);
        }
    }
    if a < rest.len() && b < rest.len() {
        lemma_item_writes_order(nodes, table, builtin, base, front, a, b);
    } else if a != b {
        let low = if a < b {
            a
        } else {
            b
        };
        let i = lemma_item_writes_origin(nodes, table, builtin, base, front, low);
        assert(front[i] == items[i]);
        lemma_item_keys_differ(items[i].0, items.last().0);
        assert(items[i].0 != items[items.len() - 1].0);
    }
}

/// Writes leave the table that they write to a table.
pub proof fn lemma_with_values_keeps_table(nodes: Nodes, table: Path, writes: Seq<Write>)
    requires
        is_table(nodes, table),
    ensures
        is_table(with_values(nodes, table, writes), table),
    decreases writes.len(),
{
    if writes.len() > 0 {
        lemma_with_values_keeps_table(nodes, table, writes.drop_last());
        lemma_with_value_keeps_table(
            with_values(nodes, table, writes.drop_last()),
            table,
            writes.last().0,
            writes.last().1,
        );
    }
}

/// Opting into the feature touches the root table and `cargo-features`, and
/// nothing else.
pub proof fn lemma_with_feature_elsewhere(nodes: Nodes, path: Path)
    requires
        path.len() > 0,
        path != features_path(),
    ensures
        with_feature(nodes).contains_key(path) == nodes.contains_key(path),
        nodes.contains_key(path) ==> with_feature(nodes)[path] == nodes[path],
{
    assert(Seq::<Seq<char>>::empty().push("cargo-features"@) =~= features_path());
}

/// Once the manifest is opted into the feature, opting in again asks for
/// nothing.
pub proof fn lemma_with_feature_done(nodes: Nodes)
    ensures
        with_feature(nodes).contains_key(features_path()),
        is_array(with_feature(nodes), features_path()) ==> holds_text(
            array_items(with_feature(nodes), features_path()),
            "codegen-backend"@,
        ),
{
    assert(Seq::<Seq<char>>::empty().push("cargo-features"@) =~= features_path());
    let made = if nodes.contains_key(features_path()) {
        nodes
    } else {
        with_child(
            nodes,
            Seq::empty(),
            "cargo-features"@,
            Node::Value { content: Content::Array { items: Seq::empty() }, decor: default_decor() },
        )
    };
    assert(features_path() != Seq::<Seq<char>>::empty()) by {
        assert(features_path().len() == 1);
    }
    assert(made.contains_key(features_path()));
    if is_array(made, features_path()) && !holds_text(
        array_items(made, features_path()),
        "codegen-backend"@,
    ) {
        let items = array_items(with_feature(nodes), features_path());
        assert(items[items.len() - 1].text == Some("codegen-backend"@));
    }
}

/// In a profile of the user's, what is written does not depend on what the
/// manifest holds.
pub proof fn lemma_custom_writes(
    a: Nodes,
    b: Nodes,
    table: Path,
    base: BuiltinProfile,
    items: Seq<(TemplateItemId, Scalar)>,
)
    ensures
        item_writes(a, table, false, base, items) == item_writes(b, table, false, base, items),
    decreases items.len(),
{
    if items.len() > 0 {
        lemma_custom_writes(a, b, table, base, items.drop_last());
    }
}

/// Items of which none is written give no writes.
pub proof fn lemma_no_writes(
    nodes: Nodes,
    table: Path,
    builtin: bool,
    base: BuiltinProfile,
    items: Seq<(TemplateItemId, Scalar)>,
)
    requires
        forall|i: int|
            0 <= i < items.len() ==> !is_written(nodes, table, builtin, base, #[trigger] items[i]),
    ensures
        item_writes(nodes, table, builtin, base, items) == Seq::<Write>::empty(),
    decreases items.len(),
{
    if items.len() > 0 {
        let front = items.drop_last();
        assert forall|i: int| 0 <= i < front.len() implies !is_written(
            nodes,
            table,
            builtin,
            base,
            #[trigger] front[i],
        ) by {
            assert(front[i] == items[i]);
        }
        lemma_no_writes(nodes, table, builtin, base, front);
        assert(items.last() == items[items.len() - 1]);
    }
}

/// A manifest to which a template was applied holds the template: applying
/// it again asks for nothing that is not there and, by the contract of
/// [`CargoManifest::apply_template`], leaves the text as it is.
pub proof fn lemma_applied_holds(
    nodes: Nodes,
    name: Seq<char>,
    builtin: bool,
    template: TemplateView,
)
    requires
        distinct_keys(template.items),
    ensures
        manifest_applied(nodes, name, builtin, template) matches Applied::Done(after)
            ==> holds_template(after, name, builtin, template),
{
    let pp = profiles_path();
    let table = profile_path(name);
    let base = template.inherits;
    let items = template.items;
    let n1 = with_table(nodes, Seq::empty(), "profile"@);
    assert(Seq::<Seq<char>>::empty().push("profile"@) =~= pp);
    assert(pp.push(name) =~= table);
    assert(pp.len() == 1 && table.len() == 2);
    if n1[pp] is Table {
        let n2 = with_table(with_dotted(n1, pp), pp, name);
        if n2[table] is Table {
            let writes = planned_writes(n2, table, builtin, template);
            let n3 = with_values(n2, table, writes);
            let backend = names_key(writes, "codegen-backend"@);
            let n4 = if backend {
                with_feature(n3)
            } else {
                n3
            };
            assert(manifest_applied(nodes, name, builtin, template) == Applied::Done(n4));
            assert(pp != features_path()) by {
                reveal_strlit("profile");
                reveal_strlit("cargo-features");
                assert(pp[0].len() != features_path()[0].len());
            }
            assert(pp != table);
            // the tables
            assert(n2.contains_key(pp) && n2[pp] matches Node::Table { dotted: true, .. });
            assert(is_table(n2, table));
            lemma_with_values_above(n2, table, writes, pp);
            lemma_with_values_keeps_table(n2, table, writes);
            lemma_with_feature_elsewhere(n3, pp);
            lemma_with_feature_elsewhere(n3, table);
            // what was written is held
            lemma_planned_distinct(n2, table, builtin, template);
            assert forall|i: int| 0 <= i < writes.len() implies is_held(
                n4,
                table,
                #[trigger] writes[i],
            ) by {
                lemma_with_values_held(n2, table, writes, i);
                assert(table.push(writes[i].0).len() == 3);
                lemma_with_feature_elsewhere(n3, table.push(writes[i].0));
            }
            // what would be written now is held
            let again = planned_writes(n4, table, builtin, template);
            if builtin {
                assert forall|i: int| 0 <= i < items.len() implies !is_written(
                    n4,
                    table,
                    builtin,
                    base,
                    #[trigger] items[i],
                ) by {
                    if item_key(items[i].0) is Some {
                        let key = item_key(items[i].0)->0;
                        assert(table.push(key).len() == 3);
                        lemma_with_feature_elsewhere(n3, table.push(key));
                        if is_written(n2, table, builtin, base, items[i]) {
                            let j = lemma_item_writes_has(n2, table, builtin, base, items, i);
                            assert(is_held(n4, table, writes[j]));
                        } else {
                            assert forall|j: int| 0 <= j < writes.len() implies (
                            #[trigger] writes[j]).0 != key by {
                                let k = lemma_item_writes_origin(
                                    n2,
                                    table,
                                    builtin,
                                    base,
                                    items,
                                    j,
                                );
                                lemma_item_keys_differ(items[k].0, items[i].0);
                            }
                            lemma_with_values_other(n2, table, writes, key);
                        }
                    }
                }
                lemma_no_writes(n4, table, builtin, base, items);
                assert(again =~= Seq::<Write>::empty());
            } else {
                lemma_custom_writes(n2, n4, table, base, items);
                assert(again =~= writes);
            }
            assert(all_held(n4, table, again));
            if backend {
                lemma_with_feature_done(n3);
            }
        }
    }
}

/// Making the tables of a profile leaves alone what the profile holds.
pub(crate) proof fn lemma_prepared_keeps(nodes: Nodes, name: Seq<char>, key: Seq<char>)
    ensures
        nodes.contains_key(profile_path(name).push(key)) ==> prepared(nodes, name).contains_key(
            profile_path(name).push(key),
        ) && prepared(nodes, name)[profile_path(name).push(key)] == nodes[profile_path(name).push(
            key,
        )],
{
    let path = profile_path(name).push(key);
    assert(path.len() == 3);
    assert(Seq::<Seq<char>>::empty().push("profile"@) =~= profiles_path());
    assert(profiles_path().push(name) =~= profile_path(name));
    assert(profiles_path().len() == 1 && profile_path(name).len() == 2);
}

/// Applying a template keeps the decoration of every value that the profile
/// holds, replaced or not, and leaves alone each value under a key that is
/// not written.
pub proof fn lemma_applied_keeps_decor(
    nodes: Nodes,
    name: Seq<char>,
    builtin: bool,
    template: TemplateView,
    key: Seq<char>,
)
    requires
        distinct_keys(template.items),
        is_value(nodes, profile_path(name).push(key)),
    ensures
        manifest_applied(nodes, name, builtin, template) matches Applied::Done(after) ==> {
            &&& is_value(after, profile_path(name).push(key))
            &&& after[profile_path(name).push(key)]->decor == nodes[profile_path(name).push(
                key,
            )]->decor
            &&& (forall|j: int|
                0 <= j < writes_for(nodes, name, builtin, template).len() ==> (
                #[trigger] writes_for(nodes, name, builtin, template)[j]).0 != key)
                ==> after[profile_path(name).push(key)] == nodes[profile_path(name).push(key)]
        },
{
    let table = profile_path(name);
    let path = table.push(key);
    let n2 = prepared(nodes, name);
    let writes = writes_for(nodes, name, builtin, template);
    let n3 = with_values(n2, table, writes);
    assert(path.len() == 3);
    lemma_prepared_keeps(nodes, name, key);
    lemma_planned_distinct(n2, table, builtin, template);
    if exists|j: int| 0 <= j < writes.len() && (#[trigger] writes[j]).0 == key {
        let j = choose|j: int| 0 <= j < writes.len() && (#[trigger] writes[j]).0 == key;
        lemma_with_values_held(n2, table, writes, j);
    } else {
        lemma_with_values_other(n2, table, writes, key);
    }
    lemma_with_feature_elsewhere(n3, path);
}

/// A built-in profile is not given a value that Cargo gives the item by
/// itself: where the profile holds no value for an item and the template's
/// value is the default of the template's base, no write names the item's
/// key.
pub proof fn lemma_default_suppressed(nodes: Nodes, table: Path, template: TemplateView, i: int)
    requires
        distinct_keys(template.items),
        0 <= i < template.items.len(),
        item_key(template.items[i].0) is Some,
        existing_scalar(nodes, table, item_key(template.items[i].0)->0) is None,
        entry_value(stock_defaults(template.inherits), template.items[i].0) == Some(
            template.items[i].1,
        ),
    ensures
        forall|j: int|
            0 <= j < planned_writes(nodes, table, true, template).len() ==> (
            #[trigger] planned_writes(nodes, table, true, template)[j]).0 != item_key(
                template.items[i].0,
            )->0,
{
    let items = template.items;
    let base = template.inherits;
    let writes = planned_writes(nodes, table, true, template);
    assert forall|j: int| 0 <= j < writes.len() implies (#[trigger] writes[j]).0 != item_key(
        items[i].0,
    )->0 by {
        let k = lemma_item_writes_origin(nodes, table, true, base, items, j);
        lemma_item_keys_differ(items[k].0, items[i].0);
    }
}

/// A profile of the user's is given `inherits` before anything else, with the
/// name of the template's base; once the template is applied the profile
/// holds it.
pub proof fn lemma_inherits_first(nodes: Nodes, name: Seq<char>, template: TemplateView)
    requires
        distinct_keys(template.items),
    ensures
        writes_for(nodes, name, false, template).len() > 0,
        writes_for(nodes, name, false, template)[0] == inherits_write(template.inherits),
        manifest_applied(nodes, name, false, template) matches Applied::Done(after) ==> is_held(
            after,
            profile_path(name),
            inherits_write(template.inherits),
        ),
{
    lemma_applied_holds(nodes, name, false, template);
    match manifest_applied(nodes, name, false, template) {
        Applied::Done(after) => {
            let again = planned_writes(after, profile_path(name), false, template);
            assert(again[0] == inherits_write(template.inherits));
        },
        _ => {},
    }
}

} // verus!
