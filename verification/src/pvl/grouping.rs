//! Key-value pairs and the two named property containers, `GROUP` and
//! `OBJECT`. The containers are structurally identical apart from their type
//! tag and share one read-only capability set.

use vstd::prelude::*;

use crate::text::{chars_of, string_eq_chars};
use super::symbol::{Symbol, SymbolModel};
use super::value::{Value, ValueModel};

verus! {

/// The basic `KEY = VALUE` pair of a label line.
#[derive(Debug)]
pub struct KeyValuePair {
    pub key: Symbol,
    pub value: Value,
}

/// The mathematical shape of a `KeyValuePair`.
pub struct KeyValuePairModel {
    pub key: SymbolModel,
    pub value: ValueModel,
}

impl View for KeyValuePair {
    type V = KeyValuePairModel;

    open spec fn view(&self) -> KeyValuePairModel {
        KeyValuePairModel { key: self.key@, value: self.value@ }
    }
}

impl Clone for KeyValuePair {
    /// An equal pair.
    fn clone(&self) -> (r: KeyValuePair)
        ensures
            r@ == self@,
    {
        KeyValuePair { key: self.key.clone(), value: self.value.clone() }
    }
}

/// The pair's key is a `Key` or `Pointer` symbol whose text is `name`.
pub open spec fn pair_matches_name(p: KeyValuePairModel, name: Seq<char>) -> bool {
    (p.key matches SymbolModel::Key(n) && n == name) || (p.key matches SymbolModel::Pointer(n)
        && n == name)
}

/// The index of the first pair whose key or pointer text is `name`.
pub open spec fn property_lookup(ps: Seq<KeyValuePairModel>, name: Seq<char>) -> Option<int>
    decreases ps.len(),
{
    if ps.len() == 0 {
        None
    } else if pair_matches_name(ps[0], name) {
        Some(0)
    } else {
        match property_lookup(ps.drop_first(), name) {
            Some(i) => Some(i + 1),
            None => None,
        }
    }
}

pub proof fn lemma_property_lookup_at(ps: Seq<KeyValuePairModel>, name: Seq<char>, i: int)
    requires
        0 <= i < ps.len(),
        pair_matches_name(ps[i], name),
        forall|j: int| 0 <= j < i ==> !pair_matches_name(ps[j], name),
    ensures
        property_lookup(ps, name) == Some(i),
    decreases ps.len(),
{
    if i > 0 {
        assert forall|j: int| 0 <= j < i - 1 implies !pair_matches_name(
            ps.drop_first()[j],
            name,
        ) by {
            assert(ps.drop_first()[j] == ps[j + 1]);
        }
        assert(ps.drop_first()[i - 1] == ps[i]);
        lemma_property_lookup_at(ps.drop_first(), name, i - 1);
    }
}

pub proof fn lemma_property_lookup_none(ps: Seq<KeyValuePairModel>, name: Seq<char>)
    requires
        forall|j: int| 0 <= j < ps.len() ==> !pair_matches_name(ps[j], name),
    ensures
        property_lookup(ps, name) is None,
    decreases ps.len(),
{
    if ps.len() > 0 {
        assert forall|j: int| 0 <= j < ps.drop_first().len() implies !pair_matches_name(
            ps.drop_first()[j],
            name,
        ) by {
            assert(ps.drop_first()[j] == ps[j + 1]);
        }
        lemma_property_lookup_none(ps.drop_first(), name);
    }
}

pub proof fn lemma_property_lookup_some(ps: Seq<KeyValuePairModel>, name: Seq<char>)
    requires
        property_lookup(ps, name) is Some,
    ensures
        0 <= property_lookup(ps, name)->0 < ps.len(),
        pair_matches_name(ps[property_lookup(ps, name)->0], name),
    decreases ps.len(),
{
    if ps.len() > 0 && !pair_matches_name(ps[0], name) {
        lemma_property_lookup_some(ps.drop_first(), name);
        assert(ps.drop_first()[property_lookup(ps.drop_first(), name)->0] == ps[property_lookup(
            ps,
            name,
        )->0]);
    }
}

/// The mathematical shape of a `Group` or an `Object`: its name and its
/// properties in insertion order.
pub struct GroupingModel {
    pub name: Seq<char>,
    pub properties: Seq<KeyValuePairModel>,
}

/// The index of the first container named `name`.
pub open spec fn grouping_lookup(gs: Seq<GroupingModel>, name: Seq<char>) -> Option<int>
    decreases gs.len(),
{
    if gs.len() == 0 {
        None
    } else if gs[0].name == name {
        Some(0)
    } else {
        match grouping_lookup(gs.drop_first(), name) {
            Some(i) => Some(i + 1),
            None => None,
        }
    }
}

pub proof fn lemma_grouping_lookup_at(gs: Seq<GroupingModel>, name: Seq<char>, i: int)
    requires
        0 <= i < gs.len(),
        gs[i].name == name,
        forall|j: int| 0 <= j < i ==> gs[j].name != name,
    ensures
        grouping_lookup(gs, name) == Some(i),
    decreases gs.len(),
{
    if i > 0 {
        assert forall|j: int| 0 <= j < i - 1 implies gs.drop_first()[j].name != name by {
            assert(gs.drop_first()[j] == gs[j + 1]);
        }
        assert(gs.drop_first()[i - 1] == gs[i]);
        lemma_grouping_lookup_at(gs.drop_first(), name, i - 1);
    }
}

pub proof fn lemma_grouping_lookup_none(gs: Seq<GroupingModel>, name: Seq<char>)
    requires
        forall|j: int| 0 <= j < gs.len() ==> gs[j].name != name,
    ensures
        grouping_lookup(gs, name) is None,
    decreases gs.len(),
{
    if gs.len() > 0 {
        assert forall|j: int| 0 <= j < gs.drop_first().len() implies gs.drop_first()[j].name
            != name by {
            assert(gs.drop_first()[j] == gs[j + 1]);
        }
        lemma_grouping_lookup_none(gs.drop_first(), name);
    }
}

/// The shared read-only capability set of `Group` and `Object`.
pub trait PropertyGrouping {
    /// The container's name and ordered properties.
    spec fn model(&self) -> GroupingModel;

    /// The container's type tag.
    spec fn type_tag(&self) -> SymbolModel;

    /// The container's name.
    fn name(&self) -> (r: String)
        ensures
            r@ == self.model().name,
    ;

    /// The container's properties, in insertion order.
    fn properties(&self) -> (r: Vec<KeyValuePair>)
        ensures
            r@.map_values(|p: KeyValuePair| p@) == self.model().properties,
    ;

    /// The container's type tag as a symbol.
    fn type_of(&self) -> (r: Symbol)
        ensures
            r@ == self.type_tag(),
    ;

    /// The first property whose key or pointer text equals `name`,
    /// case-sensitively.
    fn get_property(&self, name: &str) -> (r: Option<KeyValuePair>)
        ensures
            match property_lookup(self.model().properties, name@) {
                Some(i) => r matches Some(p) && p@ == self.model().properties[i],
                None => r is None,
            },
    ;

    /// Whether a property of that name exists.
    fn has_property(&self, name: &str) -> (r: bool)
        ensures
            r == (property_lookup(self.model().properties, name@) is Some),
    ;
}

/// Looks up the first matching pair in a property vector.
pub(crate) fn lookup_in_properties(properties: &Vec<KeyValuePair>, name: &str) -> (r: Option<
    KeyValuePair,
>)
    ensures
        match property_lookup(properties@.map_values(|p: KeyValuePair| p@), name@) {
            Some(i) => r matches Some(p) && p@ == properties@.map_values(|p: KeyValuePair| p@)[i],
            None => r is None,
        },
{
    let ghost ps = properties@.map_values(|p: KeyValuePair| p@);
    let q = chars_of(name);
    let mut i: usize = 0;
    loop
        invariant
            i <= properties@.len(),
            ps == properties@.map_values(|p: KeyValuePair| p@),
            ps.len() == properties@.len(),
            q@ == name@,
            forall|j: int| 0 <= j < i ==> !pair_matches_name(ps[j], name@),
        ensures
            i == ps.len(),
            forall|j: int| 0 <= j < ps.len() ==> !pair_matches_name(ps[j], name@),
        decreases properties@.len() - i,
    {
        if i < properties.len() {
            let p = &properties[i];
            let hit = key_matches(&p.key, &q);
            proof {
                assert(ps[i as int] == properties@[i as int]@);
                assert(hit == pair_matches_name(ps[i as int], name@));
            }
            if hit {
                proof {
                    lemma_property_lookup_at(ps, name@, i as int);
                }
                return Some(p.clone());
            }
            i = i + 1;
        } else {
            break ;
        }
    }
    proof {
        lemma_property_lookup_none(ps, name@);
    }
    None
}

/// Whether `key` is a `Key` or `Pointer` symbol whose text is `q`.
fn key_matches(key: &Symbol, q: &Vec<char>) -> (r: bool)
    ensures
        r == ((key@ matches SymbolModel::Key(n) && n == q@) || (key@ matches SymbolModel::Pointer(
            n,
        ) && n == q@)),
{
    match key {
        Symbol::Key(n) => string_eq_chars(n, q),
        Symbol::Pointer(n) => string_eq_chars(n, q),
        _ => false,
    }
}

/// The `GROUP ... END_GROUP` container.
#[derive(Debug)]
pub struct Group {
    pub name: String,
    pub properties: Vec<KeyValuePair>,
}

impl PropertyGrouping for Group {
    open spec fn model(&self) -> GroupingModel {
        GroupingModel {
            name: self.name@,
            properties: self.properties@.map_values(|p: KeyValuePair| p@),
        }
    }

    open spec fn type_tag(&self) -> SymbolModel {
        SymbolModel::Group
    }

    fn name(&self) -> (r: String) {
        self.name.clone()
    }

    fn properties(&self) -> (r: Vec<KeyValuePair>) {
        clone_properties(&self.properties)
    }

    fn type_of(&self) -> (r: Symbol) {
        Symbol::Group
    }

    fn get_property(&self, name: &str) -> (r: Option<KeyValuePair>) {
        lookup_in_properties(&self.properties, name)
    }

    fn has_property(&self, name: &str) -> (r: bool) {
        match lookup_in_properties(&self.properties, name) {
            Some(_) => {
                true
            },
            None => false,
        }
    }
}

/// The `OBJECT ... END_OBJECT` container.
#[derive(Debug)]
pub struct Object {
    pub name: String,
    pub properties: Vec<KeyValuePair>,
}

impl PropertyGrouping for Object {
    open spec fn model(&self) -> GroupingModel {
        GroupingModel {
            name: self.name@,
            properties: self.properties@.map_values(|p: KeyValuePair| p@),
        }
    }

    open spec fn type_tag(&self) -> SymbolModel {
        SymbolModel::Object
    }

    fn name(&self) -> (r: String) {
        self.name.clone()
    }

    fn properties(&self) -> (r: Vec<KeyValuePair>) {
        clone_properties(&self.properties)
    }

    fn type_of(&self) -> (r: Symbol) {
        Symbol::Object
    }

    fn get_property(&self, name: &str) -> (r: Option<KeyValuePair>) {
        lookup_in_properties(&self.properties, name)
    }

    fn has_property(&self, name: &str) -> (r: bool) {
        match lookup_in_properties(&self.properties, name) {
            Some(_) => {
                true
            },
            None => false,
        }
    }
}

/// An element-wise copy of a property vector.
pub(crate) fn clone_properties(properties: &Vec<KeyValuePair>) -> (r: Vec<KeyValuePair>)
    ensures
        r@.map_values(|p: KeyValuePair| p@) == properties@.map_values(|p: KeyValuePair| p@),
{
    let mut r: Vec<KeyValuePair> = Vec::new();
    let mut i: usize = 0;
    loop
        invariant
            i <= properties@.len(),
            r@.len() == i,
            forall|j: int| 0 <= j < i ==> (#[trigger] r@[j])@ == properties@[j]@,
        ensures
            r@.len() == properties@.len(),
            forall|j: int| 0 <= j < properties@.len() ==> (#[trigger] r@[j])@ == properties@[j]@,
        decreases properties@.len() - i,
    {
        if i < properties.len() {
            r.push(properties[i].clone());
            i = i + 1;
        } else {
            break ;
        }
    }
    proof {
        assert(r@.map_values(|p: KeyValuePair| p@) =~= properties@.map_values(
            |p: KeyValuePair| p@,
        ));
    }
    r
}

} // verus!
