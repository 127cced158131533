//! Option documents: trees of tables, lists and scalars, as configuration and
//! metadata files hold them.

use vstd::prelude::*;
use crate::json::{number_clone, number_content};

verus! {

broadcast use {vstd::seq::axiom_seq_index_decreases, vstd::seq::axiom_seq_subrange_decreases, vstd::std_specs::vec::group_vec_axioms};

/// A number of a document: an unsigned integer, a negative integer, or a
/// number with a fraction or an exponent, which stands here as its text.
pub enum NumberView {
    PosInt(u64),
    NegInt(i64),
    Float(Seq<char>),
}

/// A document as a mathematical tree: what `Node` stands for.
pub enum Document {
    Null,
    Bool(bool),
    Number(NumberView),
    Text(Seq<char>),
    List(Seq<Document>),
    Table(Map<Seq<char>, Document>),
}

/// A document: null, a truth value, a number, a text, a list of documents,
/// or a table of documents.
#[derive(Debug)]
pub enum Node {
    Null,
    Bool(bool),
    Number(serde_json::Number),
    String(String),
    Array(Vec<Node>),
    Object(Object),
}

/// One entry of a table: a key and the document under it.
#[derive(Debug)]
pub struct Member {
    pub key: String,
    pub value: Node,
}

/// A table of a document: documents under distinct keys.
#[derive(Debug)]
pub struct Object {
    entries: Vec<Member>,
}

impl Object {
    /// The entries in the order in which they are held.
    pub closed spec fn members(&self) -> Seq<Member> {
        self.entries@
    }

    #[verifier::type_invariant]
    spec fn well_formed(&self) -> bool {
        distinct_keys(self.entries@)
    }

    /// The table that the entries stand for.
    pub open spec fn table(&self) -> Map<Seq<char>, Document> {
        table_of(self.members())
    }
}

/// True of entries whose keys differ from one another.
pub open spec fn distinct_keys(entries: Seq<Member>) -> bool {
    forall|i: int, j: int|
        0 <= i < j < entries.len() ==> (#[trigger] entries[i]).key@ != (#[trigger] entries[j]).key@
}

/// True where some entry has the key.
pub open spec fn has_key(entries: Seq<Member>, key: Seq<char>) -> bool {
    exists|i: int| 0 <= i < entries.len() && (#[trigger] entries[i]).key@ == key
}

/// The documents that a list of nodes stands for.
pub open spec fn list_of(items: Seq<Node>) -> Seq<Document>
    decreases items,
{
    if items.len() == 0 {
        Seq::empty()
    } else {
        list_of(items.drop_last()).push(items.last()@)
    }
}

/// The table that a list of entries stands for. Where a key occurs twice, the
/// later entry counts.
pub open spec fn table_of(entries: Seq<Member>) -> Map<Seq<char>, Document>
    decreases entries,
{
    if entries.len() == 0 {
        Map::empty()
    } else {
        table_of(entries.drop_last()).insert(entries.last().key@, entries.last().value@)
    }
}

impl View for Node {
    type V = Document;

    open spec fn view(&self) -> Document
        decreases self,
    {
        match self {
            Node::Null => Document::Null,
            Node::Bool(b) => Document::Bool(*b),
            Node::Number(n) => Document::Number(number_content(*n)),
            Node::String(s) => Document::Text(s@),
            Node::Array(items) => Document::List(list_of(items@)),
            Node::Object(object) => Document::Table(table_of(object.members())),
        }
    }
}

/// A table has exactly the keys of its entries.
pub proof fn lemma_table_keys(entries: Seq<Member>)
    ensures
        forall|k: Seq<char>| #[trigger] table_of(entries).contains_key(k) <==> has_key(entries, k),
        table_of(entries).dom().finite(),
    decreases entries.len(),
{
    if entries.len() > 0 {
        let front = entries.drop_last();
        let last = entries.last();
        lemma_table_keys(front);
        assert(table_of(entries) == table_of(front).insert(last.key@, last.value@));
        assert forall|k: Seq<char>| #[trigger] table_of(entries).contains_key(k) <==> has_key(
            entries,
            k,
        ) by {
            if has_key(front, k) {
                let i = choose|i: int| 0 <= i < front.len() && (#[trigger] front[i]).key@ == k;
                assert(entries[i].key@ == k);
            }
            if k == last.key@ {
                assert(entries[entries.len() - 1].key@ == k);
            }
            if has_key(entries, k) {
                let i = choose|i: int| 0 <= i < entries.len() && (#[trigger] entries[i]).key@ == k;
                if i < front.len() {
                    assert(front[i].key@ == k);
                }
            }
        }
    } else {
        assert forall|k: Seq<char>| !has_key(entries, k) by {}
    }
}

/// Entries with distinct keys stand for a table with as many keys.
pub proof fn lemma_table_len(entries: Seq<Member>)
    requires
        distinct_keys(entries),
    ensures
        table_of(entries).dom().finite(),
        table_of(entries).len() == entries.len(),
    decreases entries.len(),
{
    lemma_table_keys(entries);
    if entries.len() > 0 {
        let front = entries.drop_last();
        let last = entries.last();
        assert forall|a: int, b: int| 0 <= a < b < front.len() implies (#[trigger] front[a]).key@
            != (#[trigger] front[b]).key@ by {
            assert(front[a] == entries[a] && front[b] == entries[b]);
        }
        lemma_table_len(front);
        lemma_table_keys(front);
        assert(table_of(entries) == table_of(front).insert(last.key@, last.value@));
        assert(!table_of(front).contains_key(last.key@)) by {
            if has_key(front, last.key@) {
                let i = choose|i: int| 0 <= i < front.len() && (#[trigger] front[i]).key@ == last.key@;
                assert(front[i] == entries[i]);
                assert(entries[entries.len() - 1] == last);
            }
        }
    } else {
        assert(table_of(entries) =~= Map::<Seq<char>, Document>::empty());
    }
}

/// Where the keys are distinct, each entry's document stands under its key.
pub proof fn lemma_table_entry(entries: Seq<Member>, i: int)
    requires
        distinct_keys(entries),
        0 <= i < entries.len(),
    ensures
        table_of(entries).contains_key(entries[i].key@),
        table_of(entries)[entries[i].key@] == entries[i].value@,
    decreases entries.len(),
{
    let front = entries.drop_last();
    assert(table_of(entries) == table_of(front).insert(entries.last().key@, entries.last().value@));
    if i < entries.len() - 1 {
        assert(front[i] == entries[i]);
        assert(distinct_keys(front)) by {
            assert forall|a: int, b: int| 0 <= a < b < front.len() implies (#[trigger] front[a]).key@
                != (#[trigger] front[b]).key@ by {
                assert(front[a] == entries[a] && front[b] == entries[b]);
            }
        }
        lemma_table_entry(front, i);
        assert(entries[i].key@ != entries[entries.len() - 1].key@);
    }
}

/// Taking one entry out of entries with distinct keys takes its key out of
/// the table and leaves the rest as it is.
pub proof fn lemma_table_remove(entries: Seq<Member>, i: int)
    requires
        distinct_keys(entries),
        0 <= i < entries.len(),
    ensures
        distinct_keys(entries.remove(i)),
        table_of(entries.remove(i)) == table_of(entries).remove(entries[i].key@),
{
    let rest = entries.remove(i);
    assert forall|a: int, b: int| 0 <= a < b < rest.len() implies (#[trigger] rest[a]).key@
        != (#[trigger] rest[b]).key@ by {
        let a0 = if a < i { a } else { a + 1 };
        let b0 = if b < i { b } else { b + 1 };
        assert(rest[a] == entries[a0] && rest[b] == entries[b0]);
    }
    lemma_table_keys(entries);
    lemma_table_keys(rest);
    let key = entries[i].key@;
    assert forall|k: Seq<char>| #[trigger] table_of(rest).contains_key(k) <==> (table_of(
        entries,
    ).contains_key(k) && k != key) by {
        if has_key(rest, k) {
            let a = choose|a: int| 0 <= a < rest.len() && (#[trigger] rest[a]).key@ == k;
            let a0 = if a < i { a } else { a + 1 };
            assert(rest[a] == entries[a0]);
            assert(entries[a0].key@ == k);
        }
        if has_key(entries, k) && k != key {
            let a0 = choose|a: int| 0 <= a < entries.len() && (#[trigger] entries[a]).key@ == k;
            let a = if a0 < i { a0 } else { a0 - 1 };
            assert(rest[a] == entries[a0]);
        }
    }
    assert forall|k: Seq<char>| table_of(rest).contains_key(k) implies #[trigger] table_of(rest)[k]
        == table_of(entries)[k] by {
        assert(has_key(rest, k));
        let a = choose|a: int| 0 <= a < rest.len() && (#[trigger] rest[a]).key@ == k;
        let a0 = if a < i { a } else { a + 1 };
        assert(rest[a] == entries[a0]);
        lemma_table_entry(rest, a);
        lemma_table_entry(entries, a0);
    }
    assert(table_of(rest) =~= table_of(entries).remove(key));
}

/// Adding an entry under a new key keeps the keys distinct.
pub proof fn lemma_table_push(entries: Seq<Member>, member: Member)
    requires
        distinct_keys(entries),
        !has_key(entries, member.key@),
    ensures
        distinct_keys(entries.push(member)),
        table_of(entries.push(member)) == table_of(entries).insert(member.key@, member.value@),
{
    let all = entries.push(member);
    assert(all.drop_last() =~= entries);
    assert forall|a: int, b: int| 0 <= a < b < all.len() implies (#[trigger] all[a]).key@ != (
    #[trigger] all[b]).key@ by {
        assert(all[a] == entries[a]);
        if b < entries.len() {
            assert(all[b] == entries[b]);
        }
    }
}

/// The documents of a list stand at the places of their values.
pub proof fn lemma_list_of(items: Seq<Node>)
    ensures
        list_of(items).len() == items.len(),
        forall|i: int| 0 <= i < items.len() ==> (#[trigger] list_of(items)[i]) == items[i]@,
    decreases items.len(),
{
    if items.len() > 0 {
        let front = items.drop_last();
        lemma_list_of(front);
        assert(list_of(items) == list_of(front).push(items.last()@));
        assert forall|i: int| 0 <= i < items.len() implies (#[trigger] list_of(items)[i])
            == items[i]@ by {
            if i < front.len() {
                assert(front[i] == items[i]);
            }
        }
    }
}

/// Entries that agree in their keys and documents, place by place, stand for
/// the same table.
pub proof fn lemma_table_of_same(a: Seq<Member>, b: Seq<Member>)
    requires
        a.len() == b.len(),
        forall|i: int|
            0 <= i < a.len() ==> (#[trigger] a[i]).key@ == b[i].key@ && a[i].value@ == b[i].value@,
    ensures
        table_of(a) == table_of(b),
        distinct_keys(a) ==> distinct_keys(b),
    decreases a.len(),
{
    if a.len() > 0 {
        let fa = a.drop_last();
        let fb = b.drop_last();
        assert forall|i: int| 0 <= i < fa.len() implies (#[trigger] fa[i]).key@ == fb[i].key@
            && fa[i].value@ == fb[i].value@ by {
            assert(fa[i] == a[i] && fb[i] == b[i]);
        }
        lemma_table_of_same(fa, fb);
        assert(table_of(a) == table_of(fa).insert(a.last().key@, a.last().value@));
        assert(table_of(b) == table_of(fb).insert(b.last().key@, b.last().value@));
        assert(a[a.len() - 1].key@ == b[a.len() - 1].key@);
    }
    if distinct_keys(a) {
        assert forall|i: int, j: int| 0 <= i < j < b.len() implies (#[trigger] b[i]).key@ != (
        #[trigger] b[j]).key@ by {
            assert(a[i].key@ == b[i].key@ && a[j].key@ == b[j].key@);
        }
    }
}

/// Each entry of a table is smaller than the table, so that a function may
/// call itself on it.
pub proof fn lemma_member_decreases(object: Object, i: int)
    requires
        0 <= i < object.members().len(),
    ensures
        decreases_to!(object => object.members()[i].value),
{
    assert(decreases_to!(object => object.entries));
    assert(decreases_to!(object.entries => object.entries@[i]));
    assert(decreases_to!(object.entries@[i] => object.entries@[i].value));
}

/// Finds the entry with the given key.
pub fn find_key(entries: &Vec<Member>, key: &String) -> (r: Option<usize>)
    ensures
        match r {
            Some(i) => i < entries.len() && entries[i as int].key@ == key@,
            None => !has_key(entries@, key@),
        },
{
    let mut i: usize = 0;
    while i < entries.len()
        invariant
            i <= entries.len(),
            forall|j: int| 0 <= j < i ==> (#[trigger] entries[j]).key@ != key@,
        decreases entries.len() - i,
    {
        if entries[i].key == *key {
            return Some(i);
        }
        i = i + 1;
    }
    None
}

impl Object {
    /// The empty table.
    pub fn new() -> (r: Object)
        ensures
            r.table() == Map::<Seq<char>, Document>::empty(),
            r.members().len() == 0,
    {
        Object { entries: Vec::new() }
    }

    /// The table made of the given entries.
    pub(crate) fn from_members(entries: Vec<Member>) -> (r: Object)
        requires
            distinct_keys(entries@),
        ensures
            r.members() == entries@,
    {
        Object { entries }
    }

    /// The entries of the table, in the order in which it held them.
    pub fn into_members(self) -> (r: Vec<Member>)
        ensures
            r@ == self.members(),
            distinct_keys(r@),
    {
        proof {
            use_type_invariant(&self);
        }
        self.entries
    }

    /// The number of keys.
    pub fn len(&self) -> (r: usize)
        ensures
            r == self.members().len(),
            r == self.table().len(),
            distinct_keys(self.members()),
    {
        proof {
            use_type_invariant(self);
            lemma_table_len(self.entries@);
        }
        self.entries.len()
    }

    /// The entry at position `i`.
    pub fn member(&self, i: usize) -> (r: &Member)
        requires
            i < self.members().len(),
        ensures
            *r == self.members()[i as int],
            self.table().contains_key(r.key@),
            self.table()[r.key@] == r.value@,
    {
        proof {
            use_type_invariant(self);
            lemma_table_entry(self.entries@, i as int);
        }
        &self.entries[i]
    }

    /// The document under `key`, if the table has that key.
    pub fn get(&self, key: &String) -> (r: Option<&Node>)
        ensures
            match r {
                Some(value) => self.table().contains_key(key@) && self.table()[key@] == value@,
                None => !self.table().contains_key(key@),
            },
    {
        proof {
            use_type_invariant(self);
            lemma_table_keys(self.entries@);
        }
        match find_key(&self.entries, key) {
            Some(i) => {
                proof {
                    lemma_table_entry(self.entries@, i as int);
                }
                Some(&self.entries[i].value)
            },
            None => None,
        }
    }

    /// Puts `value` under `key`, in place of what the table held there.
    pub fn insert(&mut self, key: String, value: Node)
        ensures
            final(self).table() == old(self).table().insert(key@, value@),
    {
        proof {
            use_type_invariant(&*self);
        }
        let mut entries: Vec<Member> = Vec::new();
        core::mem::swap(&mut self.entries, &mut entries);
        let ghost before = entries@;
        match find_key(&entries, &key) {
            Some(i) => {
                entries.remove(i);
                proof {
                    lemma_table_remove(before, i as int);
                    lemma_table_keys(entries@);
                }
            },
            None => {},
        }
        let ghost middle = entries@;
        let member = Member { key, value };
        entries.push(member);
        proof {
            lemma_table_keys(middle);
            lemma_table_push(middle, member);
            assert(table_of(entries@) =~= table_of(before).insert(key@, value@));
        }
        core::mem::swap(&mut self.entries, &mut entries);
    }

    /// Takes `key` out of the table.
    pub fn remove(&mut self, key: &String)
        ensures
            final(self).table() == old(self).table().remove(key@),
    {
        proof {
            use_type_invariant(&*self);
        }
        let mut entries: Vec<Member> = Vec::new();
        core::mem::swap(&mut self.entries, &mut entries);
        let ghost before = entries@;
        match find_key(&entries, key) {
            Some(i) => {
                entries.remove(i);
                proof {
                    lemma_table_remove(before, i as int);
                }
            },
            None => {
                proof {
                    lemma_table_keys(before);
                    assert(table_of(before) =~= table_of(before).remove(key@));
                }
            },
        }
        core::mem::swap(&mut self.entries, &mut entries);
    }

    /// A copy of the table.
    pub fn duplicate(&self) -> (r: Object)
        ensures
            r.table() == self.table(),
        decreases self,
    {
        proof {
            use_type_invariant(self);
        }
        let mut entries: Vec<Member> = Vec::new();
        let mut i: usize = 0;
        while i < self.entries.len()
            invariant
                i <= self.entries.len(),
                entries.len() == i,
                forall|j: int|
                    0 <= j < i ==> (#[trigger] entries[j]).key@ == self.entries[j].key@
                        && entries[j].value@ == self.entries[j].value@,
            decreases self.entries.len() - i,
        {
            let member = &self.entries[i];
            entries.push(Member { key: member.key.clone(), value: member.value.duplicate() });
            i = i + 1;
        }
        proof {
            lemma_table_of_same(self.entries@, entries@);
        }
        Object { entries }
    }
}

impl Node {
    /// The document that is an empty table.
    pub fn empty_object() -> (r: Node)
        ensures
            r@ == Document::Table(Map::empty()),
    {
        Node::Object(Object::new())
    }

    /// Decides whether the document is the null document.
    pub fn is_null(&self) -> (r: bool)
        ensures
            r == (self@ is Null),
    {
        match self {
            Node::Null => true,
            _ => false,
        }
    }

    /// A copy of the document.
    pub fn duplicate(&self) -> (r: Node)
        ensures
            r@ == self@,
        decreases self,
    {
        match self {
            Node::Null => Node::Null,
            Node::Bool(b) => Node::Bool(*b),
            Node::Number(n) => Node::Number(number_clone(n)),
            Node::String(s) => Node::String(s.clone()),
            Node::Array(items) => {
                let mut copies: Vec<Node> = Vec::new();
                let mut i: usize = 0;
                while i < items.len()
                    invariant
                        i <= items.len(),
                        copies.len() == i,
                        *self == Node::Array(*items),
                        forall|j: int| 0 <= j < i ==> (#[trigger] copies[j])@ == items[j]@,
                    decreases items.len() - i,
                {
                    let item = &items[i];
                    proof {
                        vstd::std_specs::vec::axiom_vec_index_decreases(*items, i as int);
                        assert(self->Array_0 == *items);
                        assert(decreases_to!(*self => self->Array_0));
                        assert(decreases_to!(*items => *item));
                    }
                    copies.push(item.duplicate());
                    i = i + 1;
                }
                proof {
                    lemma_list_of(items@);
                    lemma_list_of(copies@);
                    assert(list_of(copies@) =~= list_of(items@));
                }
                Node::Array(copies)
            },
            Node::Object(object) => Node::Object(object.duplicate()),
        }
    }
}

} // verus!
