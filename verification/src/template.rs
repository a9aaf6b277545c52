//! Templates: an ordered set of profile and configuration items.

use vstd::prelude::*;
use indexmap::IndexMap;
use crate::toml::{Scalar, TomlValue};
use crate::workspace::manifest::BuiltinProfile;

verus! {

/// `indexmap::IndexMap`: a map that keeps its pairs in the order in which
/// their keys came.
#[verifier::external_type_specification]
#[verifier::external_body]
#[verifier::reject_recursive_types(K)]
#[verifier::reject_recursive_types(V)]
#[verifier::reject_recursive_types(S)]
pub struct ExIndexMap<K, V, S>(indexmap::IndexMap<K, V, S>);

/// The key-value pairs of an ordered map, in the order it keeps them. A map
/// holds a key once, so no key occurs twice among them.
pub uninterp spec fn map_entries(map: IndexMap<u8, TomlValue>) -> Seq<(u8, Scalar)>;

/// Whether some pair of `entries` has the key `key`.
pub open spec fn has_key<K, V>(entries: Seq<(K, V)>, key: K) -> bool {
    exists|i: int| 0 <= i < entries.len() && (#[trigger] entries[i]).0 == key
}

/// The place of a pair with the key `key`, where there is one.
pub open spec fn key_index<K, V>(entries: Seq<(K, V)>, key: K) -> int {
    choose|i: int| 0 <= i < entries.len() && (#[trigger] entries[i]).0 == key
}

/// No key occurs twice.
pub open spec fn distinct_keys<K, V>(entries: Seq<(K, V)>) -> bool {
    forall|i: int, j: int|
        0 <= i < entries.len() && 0 <= j < entries.len() && i != j ==> (#[trigger] entries[i]).0
            != (#[trigger] entries[j]).0
}

/// `entries` with `value` stored under `key`: in the place of the pair that
/// had the key, or at the end where none had it.
pub open spec fn with_entry<K, V>(entries: Seq<(K, V)>, key: K, value: V) -> Seq<(K, V)> {
    if has_key(entries, key) {
        entries.update(key_index(entries, key), (key, value))
    } else {
        entries.push((key, value))
    }
}

/// `entries` without the pair that has the key `key`.
pub open spec fn without_entry<K, V>(entries: Seq<(K, V)>, key: K) -> Seq<(K, V)> {
    if has_key(entries, key) {
        entries.remove(key_index(entries, key))
    } else {
        entries
    }
}

/// The value stored under `key`.
pub open spec fn entry_value<K, V>(entries: Seq<(K, V)>, key: K) -> Option<V> {
    if has_key(entries, key) {
        Some(entries[key_index(entries, key)].1)
    } else {
        None
    }
}

/// `IndexMap::default`: a map without pairs.
#[verifier::external_body]
fn map_new() -> (map: IndexMap<u8, TomlValue>)
    ensures
        map_entries(map) == Seq::<(u8, Scalar)>::empty(),
{
    IndexMap::default()
}

/// `IndexMap::insert`: the value of a key that the map holds is replaced where
/// it stands; a new key goes to the end.
#[verifier::external_body]
fn map_insert(map: &mut IndexMap<u8, TomlValue>, key: u8, value: TomlValue)
    ensures
        map_entries(*final(map)) == with_entry(map_entries(*old(map)), key, value@),
{
    map.insert(key, value);
}

/// `IndexMap::shift_remove`: the pair of the key leaves, the pairs behind it
/// keep their order.
#[verifier::external_body]
fn map_shift_remove(map: &mut IndexMap<u8, TomlValue>, key: u8)
    ensures
        map_entries(*final(map)) == without_entry(map_entries(*old(map)), key),
{
    map.shift_remove(&key);
}

/// `IndexMap::get`: the value stored under the key, if the map holds the key.
#[verifier::external_body]
fn map_get(map: &IndexMap<u8, TomlValue>, key: u8) -> (r: Option<&TomlValue>)
    ensures
        match r {
            Some(value) => Some(value@) == entry_value(map_entries(*map), key),
            None => entry_value(map_entries(*map), key) is None,
        },
{
    map.get(&key)
}

/// `IndexMap::iter`: the pairs in the map's order, each value copied.
#[verifier::external_body]
fn map_pairs(map: &IndexMap<u8, TomlValue>) -> (r: Vec<(u8, TomlValue)>)
    ensures
        r@.len() == map_entries(*map).len(),
        forall|i: int|
            0 <= i < r@.len() ==> (#[trigger] r@[i]).0 == map_entries(*map)[i].0 && r@[i].1@
                == map_entries(*map)[i].1,
{
    map.iter().map(|(key, value)| (*key, value.clone())).collect()
}

/// Identifier of a specific item of a template.
#[derive(Clone, Copy, Debug, PartialEq, Eq, Hash, Structural)]
pub enum TemplateItemId {
    DebugInfo,
    SplitDebugInfo,
    Strip,
    Lto,
    CodegenUnits,
    Panic,
    OptimizationLevel,
    Incremental,
    CodegenBackend,
    FrontendThreads,
    TargetCpuInstructionSet,
    Linker,
}

pub const ITEM_COUNT: u8 = 12;

impl TemplateItemId {
    /// The number under which the identifier is stored.
    pub open spec fn code_spec(self) -> u8 {
        match self {
            TemplateItemId::DebugInfo => 0,
            TemplateItemId::SplitDebugInfo => 1,
            TemplateItemId::Strip => 2,
            TemplateItemId::Lto => 3,
            TemplateItemId::CodegenUnits => 4,
            TemplateItemId::Panic => 5,
            TemplateItemId::OptimizationLevel => 6,
            TemplateItemId::Incremental => 7,
            TemplateItemId::CodegenBackend => 8,
            TemplateItemId::FrontendThreads => 9,
            TemplateItemId::TargetCpuInstructionSet => 10,
            TemplateItemId::Linker => 11,
        }
    }

    /// The identifier stored under a number below [`ITEM_COUNT`].
    pub open spec fn of_code(code: u8) -> TemplateItemId {
        if code == 0 {
            TemplateItemId::DebugInfo
        } else if code == 1 {
            TemplateItemId::SplitDebugInfo
        } else if code == 2 {
            TemplateItemId::Strip
        } else if code == 3 {
            TemplateItemId::Lto
        } else if code == 4 {
            TemplateItemId::CodegenUnits
        } else if code == 5 {
            TemplateItemId::Panic
        } else if code == 6 {
            TemplateItemId::OptimizationLevel
        } else if code == 7 {
            TemplateItemId::Incremental
        } else if code == 8 {
            TemplateItemId::CodegenBackend
        } else if code == 9 {
            TemplateItemId::FrontendThreads
        } else if code == 10 {
            TemplateItemId::TargetCpuInstructionSet
        } else {
            TemplateItemId::Linker
        }
    }

    /// The number under which the identifier is stored.
    pub fn code(self) -> (r: u8)
        ensures
            r == self.code_spec(),
            r < ITEM_COUNT,
            TemplateItemId::of_code(r) == self,
    {
        match self {
            TemplateItemId::DebugInfo => 0,
            TemplateItemId::SplitDebugInfo => 1,
            TemplateItemId::Strip => 2,
            TemplateItemId::Lto => 3,
            TemplateItemId::CodegenUnits => 4,
            TemplateItemId::Panic => 5,
            TemplateItemId::OptimizationLevel => 6,
            TemplateItemId::Incremental => 7,
            TemplateItemId::CodegenBackend => 8,
            TemplateItemId::FrontendThreads => 9,
            TemplateItemId::TargetCpuInstructionSet => 10,
            TemplateItemId::Linker => 11,
        }
    }

    /// The identifier stored under a number.
    pub fn from_code(code: u8) -> (r: TemplateItemId)
        requires
            code < ITEM_COUNT,
        ensures
            r == TemplateItemId::of_code(code),
            r.code_spec() == code,
    {
        if code == 0 {
            TemplateItemId::DebugInfo
        } else if code == 1 {
            TemplateItemId::SplitDebugInfo
        } else if code == 2 {
            TemplateItemId::Strip
        } else if code == 3 {
            TemplateItemId::Lto
        } else if code == 4 {
            TemplateItemId::CodegenUnits
        } else if code == 5 {
            TemplateItemId::Panic
        } else if code == 6 {
            TemplateItemId::OptimizationLevel
        } else if code == 7 {
            TemplateItemId::Incremental
        } else if code == 8 {
            TemplateItemId::CodegenBackend
        } else if code == 9 {
            TemplateItemId::FrontendThreads
        } else if code == 10 {
            TemplateItemId::TargetCpuInstructionSet
        } else {
            TemplateItemId::Linker
        }
    }
}

/// What a [`Template`] stands for in contracts.
pub struct TemplateView {
    /// The built-in profile the template is defined relative to.
    pub inherits: BuiltinProfile,
    /// The items in the order of their first insertion.
    pub items: Seq<(TemplateItemId, Scalar)>,
}

/// The stored pairs, each key read as the identifier it stands for.
pub open spec fn decoded(entries: Seq<(u8, Scalar)>) -> Seq<(TemplateItemId, Scalar)> {
    entries.map_values(|e: (u8, Scalar)| (TemplateItemId::of_code(e.0), e.1))
}

/// Every key stands for an identifier.
pub open spec fn codes_in_range(entries: Seq<(u8, Scalar)>) -> bool {
    forall|i: int| 0 <= i < entries.len() ==> (#[trigger] entries[i]).0 < ITEM_COUNT
}

/// Different numbers stand for different identifiers.
proof fn lemma_code_injective(a: u8, b: u8)
    requires
        a < ITEM_COUNT,
        b < ITEM_COUNT,
        TemplateItemId::of_code(a) == TemplateItemId::of_code(b),
    ensures
        a == b,
{
}

/// Pairs read by identifier have a key where the stored pairs have its
/// number, and in the same place.
proof fn lemma_decoded_key(entries: Seq<(u8, Scalar)>, key: u8)
    requires
        codes_in_range(entries),
        distinct_keys(entries),
        key < ITEM_COUNT,
    ensures
        distinct_keys(decoded(entries)),
        has_key(decoded(entries), TemplateItemId::of_code(key)) == has_key(entries, key),
        has_key(entries, key) ==> key_index(decoded(entries), TemplateItemId::of_code(key))
            == key_index(entries, key),
{
    let d = decoded(entries);
    let id = TemplateItemId::of_code(key);
    assert forall|i: int, j: int| 0 <= i < d.len() && 0 <= j < d.len() && i != j implies (
    #[trigger] d[i]).0 != (#[trigger] d[j]).0 by {
        if d[i].0 == d[j].0 {
            lemma_code_injective(entries[i].0, entries[j].0);
        }
    }
    if has_key(entries, key) {
        let i = key_index(entries, key);
        assert(d[i].0 == id);
        let j = key_index(d, id);
        if j != i {
            lemma_code_injective(entries[j].0, key);
        }
    }
    if has_key(d, id) {
        let j = key_index(d, id);
        lemma_code_injective(entries[j].0, key);
        assert(entries[j].0 == key);
    }
}

/// Storing under a number is storing under the identifier it stands for, and
/// keeps the stored pairs in order.
proof fn lemma_with_entry(entries: Seq<(u8, Scalar)>, key: u8, value: Scalar)
    requires
        codes_in_range(entries),
        distinct_keys(entries),
        key < ITEM_COUNT,
    ensures
        codes_in_range(with_entry(entries, key, value)),
        distinct_keys(with_entry(entries, key, value)),
        decoded(with_entry(entries, key, value)) == with_entry(
            decoded(entries),
            TemplateItemId::of_code(key),
            value,
        ),
{
    lemma_decoded_key(entries, key);
    let after = with_entry(entries, key, value);
    if has_key(entries, key) {
        let i = key_index(entries, key);
        assert forall|a: int, b: int|
            0 <= a < after.len() && 0 <= b < after.len() && a != b implies (#[trigger] after[a]).0
            != (#[trigger] after[b]).0 by {
            assert(after[a].0 == entries[a].0);
            assert(after[b].0 == entries[b].0);
        }
    } else {
        assert forall|a: int, b: int|
            0 <= a < after.len() && 0 <= b < after.len() && a != b implies (#[trigger] after[a]).0
            != (#[trigger] after[b]).0 by {
            if a < entries.len() {
                assert(after[a] == entries[a]);
            }
            if b < entries.len() {
                assert(after[b] == entries[b]);
            }
        }
    }
    assert(decoded(after) =~= with_entry(decoded(entries), TemplateItemId::of_code(key), value));
}

/// Removing a number is removing the identifier it stands for, and keeps the
/// stored pairs in order.
proof fn lemma_without_entry(entries: Seq<(u8, Scalar)>, key: u8)
    requires
        codes_in_range(entries),
        distinct_keys(entries),
        key < ITEM_COUNT,
    ensures
        codes_in_range(without_entry(entries, key)),
        distinct_keys(without_entry(entries, key)),
        decoded(without_entry(entries, key)) == without_entry(
            decoded(entries),
            TemplateItemId::of_code(key),
        ),
{
    lemma_decoded_key(entries, key);
    let after = without_entry(entries, key);
    if has_key(entries, key) {
        let i = key_index(entries, key);
        assert forall|a: int| 0 <= a < after.len() implies (#[trigger] after[a]).0
            < ITEM_COUNT by {
            if a < i {
                assert(after[a] == entries[a]);
            } else {
                assert(after[a] == entries[a + 1]);
            }
        }
        assert forall|a: int, b: int|
            0 <= a < after.len() && 0 <= b < after.len() && a != b implies (#[trigger] after[a]).0
            != (#[trigger] after[b]).0 by {
            let a0 = if a < i {
                a
            } else {
                a + 1
            };
            let b0 = if b < i {
                b
            } else {
                b + 1
            };
            assert(after[a] == entries[a0]);
            assert(after[b] == entries[b0]);
        }
    }
    assert(decoded(after) =~= without_entry(decoded(entries), TemplateItemId::of_code(key)));
}

/// A set of Cargo profile items and `.cargo/config.toml` items that can be
/// applied to a Cargo workspace. It holds at most one value for an item.
#[derive(Debug)]
pub struct Template {
    inherits: BuiltinProfile,
    items: IndexMap<u8, TomlValue>,
}

impl View for Template {
    type V = TemplateView;

    closed spec fn view(&self) -> TemplateView {
        TemplateView { inherits: self.inherits, items: decoded(map_entries(self.items)) }
    }
}

impl Template {
    #[verifier::type_invariant]
    spec fn well_formed(self) -> bool {
        codes_in_range(map_entries(self.items)) && distinct_keys(map_entries(self.items))
    }

    /// The built-in profile the template is defined relative to.
    pub fn inherits(&self) -> (r: BuiltinProfile)
        ensures
            r == self@.inherits,
    {
        self.inherits
    }

    /// The items with their values, in the template's order. No item occurs
    /// twice.
    pub fn iter_items(&self) -> (r: Vec<(TemplateItemId, TomlValue)>)
        ensures
            distinct_keys(self@.items),
            r@.len() == self@.items.len(),
            forall|i: int|
                0 <= i < r@.len() ==> (#[trigger] r@[i]).0 == self@.items[i].0 && r@[i].1@
                    == self@.items[i].1,
    {
        proof {
            use_type_invariant(self);
            lemma_decoded_key(map_entries(self.items), 0);
        }
        let pairs = map_pairs(&self.items);
        let mut out: Vec<(TemplateItemId, TomlValue)> = Vec::new();
        let mut i: usize = 0;
        while i < pairs.len()
            invariant
                i <= pairs.len(),
                pairs@.len() == map_entries(self.items).len(),
                codes_in_range(map_entries(self.items)),
                forall|k: int|
                    0 <= k < pairs@.len() ==> (#[trigger] pairs@[k]).0 == map_entries(
                        self.items,
                    )[k].0 && pairs@[k].1@ == map_entries(self.items)[k].1,
                out@.len() == i,
                forall|k: int|
                    0 <= k < i ==> (#[trigger] out@[k]).0 == self@.items[k].0 && out@[k].1@
                        == self@.items[k].1,
            decreases pairs.len() - i,
        {
            let code = pairs[i].0;
            assert(code == map_entries(self.items)[i as int].0);
            let id = TemplateItemId::from_code(code);
            out.push((id, pairs[i].1.duplicate()));
            i += 1;
        }
        out
    }

    /// The value of an item, if the template holds the item.
    pub fn get_item(&self, id: TemplateItemId) -> (r: Option<&TomlValue>)
        ensures
            match r {
                Some(value) => Some(value@) == entry_value(self@.items, id),
                None => entry_value(self@.items, id) is None,
            },
    {
        proof {
            use_type_invariant(self);
            lemma_decoded_key(map_entries(self.items), id.code_spec());
        }
        map_get(&self.items, id.code())
    }

    /// Stores `value` for the item: in the item's place if the template holds
    /// it, else behind all others.
    pub fn insert_item(&mut self, id: TemplateItemId, value: TomlValue)
        ensures
            final(self)@.inherits == old(self)@.inherits,
            final(self)@.items == with_entry(old(self)@.items, id, value@),
    {
        proof {
            use_type_invariant(&*self);
            lemma_with_entry(map_entries(self.items), id.code_spec(), value@);
        }
        let mut items = map_new();
        core::mem::swap(&mut self.items, &mut items);
        map_insert(&mut items, id.code(), value);
        self.items = items;
    }

    /// Takes the item out; the others keep their order.
    pub fn remove_item(&mut self, id: TemplateItemId)
        ensures
            final(self)@.inherits == old(self)@.inherits,
            final(self)@.items == without_entry(old(self)@.items, id),
    {
        proof {
            use_type_invariant(&*self);
            lemma_without_entry(map_entries(self.items), id.code_spec());
        }
        let mut items = map_new();
        core::mem::swap(&mut self.items, &mut items);
        map_shift_remove(&mut items, id.code());
        self.items = items;
    }
}

/// Collects the items of a template one by one.
pub struct TemplateBuilder {
    template: Template,
}

impl View for TemplateBuilder {
    type V = TemplateView;

    closed spec fn view(&self) -> TemplateView {
        self.template@
    }
}

impl TemplateBuilder {
    /// A builder without items, for a template relative to `inherits`.
    pub fn new(inherits: BuiltinProfile) -> (r: Self)
        ensures
            r@.inherits == inherits,
            r@.items == Seq::<(TemplateItemId, Scalar)>::empty(),
    {
        let items = map_new();
        assert(decoded(map_entries(items)) =~= Seq::<(TemplateItemId, Scalar)>::empty());
        Self { template: Template { inherits, items } }
    }

    /// Stores `value` for the item; a value stored before is replaced.
    pub fn item(self, id: TemplateItemId, value: TomlValue) -> (r: Self)
        ensures
            r@.inherits == self@.inherits,
            r@.items == with_entry(self@.items, id, value@),
    {
        let mut template = self.template;
        template.insert_item(id, value);
        Self { template }
    }

    /// The template that holds what was collected.
    pub fn build(self) -> (r: Template)
        ensures
            r@ == self@,
    {
        self.template
    }
}

/// The values Cargo gives the items of the `dev` profile.
pub open spec fn dev_defaults() -> Seq<(TemplateItemId, Scalar)> {
    seq![
        (TemplateItemId::OptimizationLevel, Scalar::Int(0)),
        (TemplateItemId::DebugInfo, Scalar::Bool(true)),
        (TemplateItemId::Strip, Scalar::Str("none"@)),
        (TemplateItemId::Lto, Scalar::Bool(false)),
        (TemplateItemId::CodegenUnits, Scalar::Int(256)),
        (TemplateItemId::Incremental, Scalar::Bool(true)),
    ]
}

/// The values Cargo gives the items of the `release` profile.
pub open spec fn release_defaults() -> Seq<(TemplateItemId, Scalar)> {
    seq![
        (TemplateItemId::OptimizationLevel, Scalar::Int(3)),
        (TemplateItemId::DebugInfo, Scalar::Bool(false)),
        (TemplateItemId::Strip, Scalar::Str("none"@)),
        (TemplateItemId::Lto, Scalar::Bool(false)),
        (TemplateItemId::CodegenUnits, Scalar::Int(16)),
        (TemplateItemId::Incremental, Scalar::Bool(false)),
    ]
}

/// The values Cargo gives the items of a built-in profile.
pub open spec fn stock_defaults(base: BuiltinProfile) -> Seq<(TemplateItemId, Scalar)> {
    match base {
        BuiltinProfile::Dev => dev_defaults(),
        BuiltinProfile::Release => release_defaults(),
    }
}

/// A value that was stored is found again, in the place of the value that the
/// key had before; what other keys hold is found as before, and no key comes
/// to occur twice.
pub proof fn lemma_stored_is_found<K, V>(entries: Seq<(K, V)>, key: K, value: V, other: K)
    requires
        distinct_keys(entries),
    ensures
        distinct_keys(with_entry(entries, key, value)),
        entry_value(with_entry(entries, key, value), key) == Some(value),
        has_key(entries, key) ==> with_entry(entries, key, value).len() == entries.len()
            && key_index(with_entry(entries, key, value), key) == key_index(entries, key),
        other != key ==> entry_value(with_entry(entries, key, value), other) == entry_value(
            entries,
            other,
        ),
{
    let after = with_entry(entries, key, value);
    let at = if has_key(entries, key) {
        key_index(entries, key)
    } else {
        entries.len() as int
    };
    assert(after[at] == (key, value));
    assert forall|i: int, j: int|
        0 <= i < after.len() && 0 <= j < after.len() && i != j implies (#[trigger] after[i]).0 != (
    #[trigger] after[j]).0 by {
        if i < entries.len() && i != at {
            assert(after[i] == entries[i]);
        }
        if j < entries.len() && j != at {
            assert(after[j] == entries[j]);
        }
        if has_key(entries, key) {
            assert(entries[at].0 == key);
        }
    }
    assert(has_key(after, key));
    if other != key {
        if has_key(entries, other) {
            let i = key_index(entries, other);
            assert(after[i] == entries[i]);
            assert(has_key(after, other));
            let j = key_index(after, other);
            assert(j != at);
            assert(after[j] == entries[j]);
        } else if has_key(after, other) {
            let j = key_index(after, other);
            assert(j != at);
            assert(after[j] == entries[j]);
        }
    }
}

/// A key that was removed is found no more; what other keys hold is found as
/// before.
pub proof fn lemma_removed_is_gone<K, V>(entries: Seq<(K, V)>, key: K, other: K)
    requires
        distinct_keys(entries),
    ensures
        distinct_keys(without_entry(entries, key)),
        entry_value(without_entry(entries, key), key) is None,
        other != key ==> entry_value(without_entry(entries, key), other) == entry_value(
            entries,
            other,
        ),
{
    let after = without_entry(entries, key);
    if has_key(entries, key) {
        let at = key_index(entries, key);
        assert forall|i: int| 0 <= i < after.len() implies #[trigger] after[i] == entries[if i
            < at {
            i
        } else {
            i + 1
        }] by {}
        assert forall|i: int, j: int|
            0 <= i < after.len() && 0 <= j < after.len() && i != j implies (#[trigger] after[i]).0
            != (#[trigger] after[j]).0 by {}
        if has_key(after, key) {
            let i = key_index(after, key);
            assert(after[i].0 == key);
        }
        if other != key {
            if has_key(entries, other) {
                let i = key_index(entries, other);
                let moved = if i < at {
                    i
                } else {
                    i - 1
                };
                assert(after[moved] == entries[i]);
                assert(has_key(after, other));
                let j = key_index(after, other);
                let back = if j < at {
                    j
                } else {
                    j + 1
                };
                assert(after[j] == entries[back]);
            } else if has_key(after, other) {
                let j = key_index(after, other);
                let back = if j < at {
                    j
                } else {
                    j + 1
                };
                assert(after[j] == entries[back]);
            }
        }
    }
}

/// `entries` takes `key` as a new last pair when no pair has the key yet.
pub proof fn lemma_with_new_entry<K, V>(entries: Seq<(K, V)>, key: K, value: V)
    requires
        forall|i: int| 0 <= i < entries.len() ==> (#[trigger] entries[i]).0 != key,
    ensures
        with_entry(entries, key, value) == entries.push((key, value)),
{
}

/// Default properties of the dev profile.
pub fn dev_profile() -> (r: TemplateBuilder)
    ensures
        r@.inherits == BuiltinProfile::Dev,
        r@.items == dev_defaults(),
{
    let b0 = TemplateBuilder::new(BuiltinProfile::Dev);
    let b1 = b0.item(TemplateItemId::OptimizationLevel, TomlValue::Int(0));
    proof {
        lemma_with_new_entry(b0@.items, TemplateItemId::OptimizationLevel, Scalar::Int(0));
    }
    let b2 = b1.item(TemplateItemId::DebugInfo, TomlValue::Bool(true));
    proof {
        lemma_with_new_entry(b1@.items, TemplateItemId::DebugInfo, Scalar::Bool(true));
    }
    let b3 = b2.item(TemplateItemId::Strip, TomlValue::string("none"));
    proof {
        lemma_with_new_entry(b2@.items, TemplateItemId::Strip, Scalar::Str("none"@));
    }
    let b4 = b3.item(TemplateItemId::Lto, TomlValue::Bool(false));
    proof {
        lemma_with_new_entry(b3@.items, TemplateItemId::Lto, Scalar::Bool(false));
    }
    let b5 = b4.item(TemplateItemId::CodegenUnits, TomlValue::Int(256));
    proof {
        lemma_with_new_entry(b4@.items, TemplateItemId::CodegenUnits, Scalar::Int(256));
    }
    let b6 = b5.item(TemplateItemId::Incremental, TomlValue::Bool(true));
    proof {
        lemma_with_new_entry(b5@.items, TemplateItemId::Incremental, Scalar::Bool(true));
        assert(b6@.items =~= dev_defaults());
    }
    b6
}

/// Default properties of the release profile.
pub fn release_profile() -> (r: TemplateBuilder)
    ensures
        r@.inherits == BuiltinProfile::Release,
        r@.items == release_defaults(),
{
    let b0 = TemplateBuilder::new(BuiltinProfile::Release);
    let b1 = b0.item(TemplateItemId::OptimizationLevel, TomlValue::Int(3));
    proof {
        lemma_with_new_entry(b0@.items, TemplateItemId::OptimizationLevel, Scalar::Int(3));
    }
    let b2 = b1.item(TemplateItemId::DebugInfo, TomlValue::Bool(false));
    proof {
        lemma_with_new_entry(b1@.items, TemplateItemId::DebugInfo, Scalar::Bool(false));
    }
    let b3 = b2.item(TemplateItemId::Strip, TomlValue::string("none"));
    proof {
        lemma_with_new_entry(b2@.items, TemplateItemId::Strip, Scalar::Str("none"@));
    }
    let b4 = b3.item(TemplateItemId::Lto, TomlValue::Bool(false));
    proof {
        lemma_with_new_entry(b3@.items, TemplateItemId::Lto, Scalar::Bool(false));
    }
    let b5 = b4.item(TemplateItemId::CodegenUnits, TomlValue::Int(16));
    proof {
        lemma_with_new_entry(b4@.items, TemplateItemId::CodegenUnits, Scalar::Int(16));
    }
    let b6 = b5.item(TemplateItemId::Incremental, TomlValue::Bool(false));
    proof {
        lemma_with_new_entry(b5@.items, TemplateItemId::Incremental, Scalar::Bool(false));
        assert(b6@.items =~= release_defaults());
    }
    b6
}

/// Describes options for applying templates.
#[derive(Debug)]
pub struct WizardOptions {
    /// Include template items that require a nightly compiler.
    nightly_items: bool,
}

impl Default for WizardOptions {
    fn default() -> (r: Self)
        ensures
            !r.nightly(),
    {
        Self { nightly_items: false }
    }
}

impl WizardOptions {
    /// Whether items that need a nightly compiler are included.
    pub closed spec fn nightly(&self) -> bool {
        self.nightly_items
    }

    pub fn nightly_items_enabled(&self) -> (r: bool)
        ensures
            r == self.nightly(),
    {
        self.nightly_items
    }

    pub fn with_nightly_items(self) -> (r: Self)
        ensures
            r.nightly(),
    {
        let mut options = self;
        options.nightly_items = true;
        options
    }
}

} // verus!
