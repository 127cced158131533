//! Documents as the JSON library holds them, and the way from one form to
//! the other.

use vstd::prelude::*;
use crate::document::{
    distinct_keys, has_key, lemma_list_of, lemma_table_entry, lemma_table_keys, list_of, table_of,
    Document, Member, NumberView, Object, Node,
};
use crate::keyed::{distinct, keyed, lemma_keyed_at, position, present};

verus! {

/// The JSON value `serde_json::Value`. What it holds is known here by
/// `json_content` only.
#[verifier::external_type_specification]
#[verifier::external_body]
pub struct ExJsonValue(serde_json::Value);

/// The JSON number `serde_json::Number`. What it holds is known here by
/// `number_content` only.
#[verifier::external_type_specification]
#[verifier::external_body]
pub struct ExJsonNumber(serde_json::Number);

/// The document that a JSON value holds.
pub uninterp spec fn json_content(j: serde_json::Value) -> Document;

/// The number that a JSON number holds.
pub uninterp spec fn number_content(n: serde_json::Number) -> NumberView;

/// The documents that a list of JSON values holds.
pub open spec fn json_contents(items: Seq<serde_json::Value>) -> Seq<Document> {
    items.map_values(|j: serde_json::Value| json_content(j))
}

/// The key of a pair of a key and a JSON value.
pub open spec fn pair_key() -> spec_fn((String, serde_json::Value)) -> Seq<char> {
    |p: (String, serde_json::Value)| p.0@
}

/// The document of a pair of a key and a JSON value.
pub open spec fn pair_content() -> spec_fn((String, serde_json::Value)) -> Document {
    |p: (String, serde_json::Value)| json_content(p.1)
}

/// The table that pairs of keys and JSON values hold.
pub open spec fn json_table(pairs: Seq<(String, serde_json::Value)>) -> Map<Seq<char>, Document> {
    keyed(pairs, pair_key(), pair_content())
}

/// Makes `serde_json::Value::Null`. Trusted: it holds the null document.
#[verifier::external_body]
fn json_null() -> (j: serde_json::Value)
    ensures
        json_content(j) == Document::Null,
{
    serde_json::Value::Null
}

/// Makes `serde_json::Value::Bool`. Trusted: it holds the given truth value.
#[verifier::external_body]
fn json_bool(b: bool) -> (j: serde_json::Value)
    ensures
        json_content(j) == Document::Bool(b),
{
    serde_json::Value::Bool(b)
}

/// Makes `serde_json::Value::Number`. Trusted: it holds the given number.
#[verifier::external_body]
fn json_number(n: serde_json::Number) -> (j: serde_json::Value)
    ensures
        json_content(j) == Document::Number(number_content(n)),
{
    serde_json::Value::Number(n)
}

/// Makes `serde_json::Value::String`. Trusted: it holds the given text.
#[verifier::external_body]
pub(crate) fn json_string(s: String) -> (j: serde_json::Value)
    ensures
        json_content(j) == Document::Text(s@),
{
    serde_json::Value::String(s)
}

/// Makes `serde_json::Value::Array`. Trusted: it holds what the given values
/// hold, in their order.
#[verifier::external_body]
fn json_array(items: Vec<serde_json::Value>) -> (j: serde_json::Value)
    ensures
        json_content(j) == Document::List(json_contents(items@)),
{
    serde_json::Value::Array(items)
}

/// Makes `serde_json::Value::Object` of a `serde_json::Map` that is
/// collected from the given pairs. Trusted, for pairs with distinct keys:
/// the map has each key of the pairs, with what its value holds.
#[verifier::external_body]
fn json_object(pairs: Vec<(String, serde_json::Value)>) -> (j: serde_json::Value)
    requires
        distinct(pairs@, pair_key()),
    ensures
        json_content(j) == Document::Table(json_table(pairs@)),
{
    serde_json::Value::Object(pairs.into_iter().collect())
}

/// Calls `Clone::clone` of `serde_json::Number`. Trusted: the copy holds the
/// same number.
#[verifier::external_body]
pub(crate) fn number_clone(n: &serde_json::Number) -> (r: serde_json::Number)
    ensures
        number_content(r) == number_content(*n),
{
    n.clone()
}

/// Calls `serde_json::Value::as_u64`. Trusted: it gives the number where
/// the value holds an unsigned integer, and nothing where it holds any other
/// number or no number.
#[verifier::external_body]
pub(crate) fn json_as_u64(j: &serde_json::Value) -> (r: Option<u64>)
    ensures
        r == match json_content(*j) {
            Document::Number(NumberView::PosInt(k)) => Some(k),
            _ => None::<u64>,
        },
{
    j.as_u64()
}

/// Calls `serde_json::Value::as_str`. Trusted: it gives the text where the
/// value holds a text, and nothing where it holds anything else.
#[verifier::external_body]
pub(crate) fn json_as_str(j: &serde_json::Value) -> (r: Option<&str>)
    ensures
        match json_content(*j) {
            Document::Text(s) => r is Some && r->0@ == s,
            _ => r is None,
        },
{
    j.as_str()
}

/// What a JSON value is, one level deep.
pub enum JsonParts {
    Null,
    Bool(bool),
    Number(serde_json::Number),
    String(String),
    Array(Vec<serde_json::Value>),
    Object(Vec<(String, serde_json::Value)>),
}

/// The document that the parts of a JSON value hold.
pub open spec fn parts_content(parts: JsonParts) -> Document {
    match parts {
        JsonParts::Null => Document::Null,
        JsonParts::Bool(b) => Document::Bool(b),
        JsonParts::Number(n) => Document::Number(number_content(n)),
        JsonParts::String(s) => Document::Text(s@),
        JsonParts::Array(items) => Document::List(json_contents(items@)),
        JsonParts::Object(pairs) => Document::Table(json_table(pairs@)),
    }
}

/// Takes a `serde_json::Value` apart, one variant each; the entries of a
/// `serde_json::Map` are collected with its `into_iter`. Trusted: the parts
/// hold what the value held, and the keys of a map differ from one another.
#[verifier::external_body]
fn json_parts(j: serde_json::Value) -> (r: JsonParts)
    ensures
        parts_content(r) == json_content(j),
        r matches JsonParts::Object(pairs) ==> distinct(pairs@, pair_key()),
{
    match j {
        serde_json::Value::Null => JsonParts::Null,
        serde_json::Value::Bool(b) => JsonParts::Bool(b),
        serde_json::Value::Number(n) => JsonParts::Number(n),
        serde_json::Value::String(s) => JsonParts::String(s),
        serde_json::Value::Array(items) => JsonParts::Array(items),
        serde_json::Value::Object(map) => JsonParts::Object(map.into_iter().collect()),
    }
}

/// The keys and documents of the entries of a table and of pairs of keys and
/// JSON values agree, place by place.
pub open spec fn same_entries(members: Seq<Member>, pairs: Seq<(String, serde_json::Value)>) -> bool {
    &&& members.len() == pairs.len()
    &&& forall|i: int|
        0 <= i < members.len() ==> (#[trigger] members[i]).key@ == pairs[i].0@ && members[i].value@
            == json_content(pairs[i].1)
}

/// Entries and pairs that agree place by place stand for the same table,
/// where the keys differ from one another.
pub proof fn lemma_same_table(members: Seq<Member>, pairs: Seq<(String, serde_json::Value)>)
    requires
        same_entries(members, pairs),
        distinct_keys(members) || distinct(pairs, pair_key()),
    ensures
        distinct_keys(members),
        distinct(pairs, pair_key()),
        table_of(members) == json_table(pairs),
{
    assert forall|a: int, b: int| 0 <= a < b < members.len() implies (#[trigger] members[a]).key@
        != (#[trigger] members[b]).key@ by {
        if !distinct_keys(members) {
            assert(pair_key()(pairs[a]) != pair_key()(pairs[b]));
        }
    }
    assert forall|a: int, b: int| 0 <= a < b < pairs.len() implies pair_key()(#[trigger] pairs[a])
        != pair_key()(#[trigger] pairs[b]) by {
        assert(members[a].key@ != members[b].key@);
    }
    lemma_table_keys(members);
    assert forall|k: Seq<char>| table_of(members).contains_key(k) <==> json_table(
        pairs,
    ).contains_key(k) by {
        if has_key(members, k) {
            let i = choose|i: int| 0 <= i < members.len() && (#[trigger] members[i]).key@ == k;
            assert(pair_key()(pairs[i]) == k);
        }
        if present(pairs, pair_key(), k) {
            let i = position(pairs, pair_key(), k);
            assert(members[i].key@ == k);
        }
    }
    assert forall|k: Seq<char>| table_of(members).contains_key(k) implies #[trigger] table_of(
        members,
    )[k] == json_table(pairs)[k] by {
        let i = choose|i: int| 0 <= i < members.len() && (#[trigger] members[i]).key@ == k;
        lemma_table_entry(members, i);
        assert(pair_key()(pairs[i]) == k);
        lemma_keyed_at(pairs, pair_key(), pair_content(), i);
    }
    assert(table_of(members) =~= json_table(pairs));
}

impl Node {
    /// The JSON value that holds the document.
    pub fn to_json(&self) -> (j: serde_json::Value)
        ensures
            json_content(j) == self@,
        decreases self,
    {
        match self {
            Node::Null => json_null(),
            Node::Bool(b) => json_bool(*b),
            Node::Number(n) => json_number(number_clone(n)),
            Node::String(s) => json_string(s.clone()),
            Node::Array(items) => {
                let mut values: Vec<serde_json::Value> = Vec::new();
                let mut i: usize = 0;
                while i < items.len()
                    invariant
                        i <= items.len(),
                        values.len() == i,
                        *self is Array,
                        self->Array_0 == *items,
                        forall|k: int| 0 <= k < i ==> json_content(#[trigger] values[k]) == items[k]@,
                    decreases items.len() - i,
                {
                    let item = &items[i];
                    proof {
                        vstd::std_specs::vec::axiom_vec_index_decreases(*items, i as int);
                        assert(decreases_to!(*self => self->Array_0));
                    }
                    values.push(item.to_json());
                    i = i + 1;
                }
                proof {
                    lemma_list_of(items@);
                    assert(json_contents(values@) =~= list_of(items@));
                }
                json_array(values)
            },
            Node::Object(object) => {
                let mut pairs: Vec<(String, serde_json::Value)> = Vec::new();
                let n = object.len();
                let mut i: usize = 0;
                while i < n
                    invariant
                        i <= n,
                        n == object.members().len(),
                        distinct_keys(object.members()),
                        pairs.len() == i,
                        *self is Object,
                        self->Object_0 == *object,
                        forall|k: int|
                            0 <= k < i ==> (#[trigger] pairs[k]).0@ == object.members()[k].key@
                                && json_content(pairs[k].1) == object.members()[k].value@,
                    decreases n - i,
                {
                    let member = object.member(i);
                    proof {
                        crate::document::lemma_member_decreases(*object, i as int);
                        assert(decreases_to!(*self => self->Object_0));
                    }
                    pairs.push((member.key.clone(), member.value.to_json()));
                    i = i + 1;
                }
                proof {
                    lemma_same_table(object.members(), pairs@);
                }
                json_object(pairs)
            },
        }
    }

    /// The document that a JSON value holds.
    pub fn from_json(j: serde_json::Value) -> (r: Node)
        ensures
            r@ == json_content(j),
        decreases json_content(j),
    {
        let ghost whole = json_content(j);
        match json_parts(j) {
            JsonParts::Null => Node::Null,
            JsonParts::Bool(b) => Node::Bool(b),
            JsonParts::Number(n) => Node::Number(n),
            JsonParts::String(s) => Node::String(s),
            JsonParts::Array(items) => {
                let ghost all = items@;
                let mut items = items;
                let mut nodes: Vec<Node> = Vec::new();
                while items.len() > 0
                    invariant
                        whole == json_content(j),
                        whole == Document::List(json_contents(all)),
                        items.len() <= all.len(),
                        items@ == all.subrange(0, items.len() as int),
                        nodes.len() == all.len() - items.len(),
                        forall|k: int|
                            0 <= k < nodes.len() ==> (#[trigger] nodes[k])@ == json_content(
                                all[all.len() - 1 - k],
                            ),
                    decreases items.len(),
                {
                    let ghost n = items.len() as int;
                    let item = items.pop().unwrap();
                    proof {
                        assert(item == all[n - 1]);
                        assert(items@ =~= all.subrange(0, n - 1));
                        assert(json_contents(all)[n - 1] == json_content(item));
                        assert(decreases_to!(whole => whole->List_0));
                        assert(decreases_to!(json_contents(all) => json_contents(all)[n - 1]));
                    }
                    nodes.push(Node::from_json(item));
                }
                let mut ordered: Vec<Node> = Vec::new();
                while nodes.len() > 0
                    invariant
                        nodes.len() + ordered.len() == all.len(),
                        forall|k: int|
                            0 <= k < nodes.len() ==> (#[trigger] nodes[k])@ == json_content(
                                all[all.len() - 1 - k],
                            ),
                        forall|k: int|
                            0 <= k < ordered.len() ==> (#[trigger] ordered[k])@ == json_content(
                                all[k],
                            ),
                    decreases nodes.len(),
                {
                    let node = nodes.pop().unwrap();
                    ordered.push(node);
                }
                proof {
                    lemma_list_of(ordered@);
                    assert(list_of(ordered@) =~= json_contents(all));
                }
                Node::Array(ordered)
            },
            JsonParts::Object(pairs) => {
                let ghost all = pairs@;
                let mut pairs = pairs;
                let mut members: Vec<Member> = Vec::new();
                proof {
                    crate::keyed::lemma_keyed_finite(all, pair_key(), pair_content());
                }
                while pairs.len() > 0
                    invariant
                        whole == json_content(j),
                        whole == Document::Table(json_table(all)),
                        json_table(all).dom().finite(),
                        distinct(all, pair_key()),
                        pairs.len() <= all.len(),
                        pairs@ == all.subrange(0, pairs.len() as int),
                        members.len() == all.len() - pairs.len(),
                        forall|k: int|
                            0 <= k < members.len() ==> (#[trigger] members[k]).key@ == all[all.len()
                                - 1 - k].0@ && members[k].value@ == json_content(
                                all[all.len() - 1 - k].1,
                            ),
                    decreases pairs.len(),
                {
                    let ghost n = pairs.len() as int;
                    let pair = pairs.pop().unwrap();
                    proof {
                        assert(pair == all[n - 1]);
                        assert(pairs@ =~= all.subrange(0, n - 1));
                        lemma_keyed_at(all, pair_key(), pair_content(), n - 1);
                        assert(json_table(all)[pair.0@] == json_content(pair.1));
                        assert(decreases_to!(whole => whole->Table_0));
                        vstd::map::axiom_map_index_decreases_finite(json_table(all), pair.0@);
                    }
                    let (key, value) = pair;
                    members.push(Member { key, value: Node::from_json(value) });
                }
                proof {
                    let reversed = all.reverse();
                    assert forall|a: int, b: int| 0 <= a < b < reversed.len() implies pair_key()(
                        #[trigger] reversed[a],
                    ) != pair_key()(#[trigger] reversed[b]) by {
                        assert(pair_key()(all[all.len() - 1 - b]) != pair_key()(
                            all[all.len() - 1 - a],
                        ));
                    }
                    assert(same_entries(members@, reversed));
                    lemma_same_table(members@, reversed);
                    crate::keyed::lemma_keyed_reverse(all, pair_key(), pair_content());
                }
                Node::Object(Object::from_members(members))
            },
        }
    }
}

} // verus!
