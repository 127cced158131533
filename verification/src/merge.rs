//! Layering one option document over another.

use vstd::prelude::*;
use crate::document::{
    distinct_keys, find_key, has_key, lemma_member_decreases, lemma_table_entry, lemma_table_keys,
    lemma_table_push, lemma_table_remove, table_of, Document, Member, Object, Node,
};

verus! {

/// The document under `key` of a table, or the null document where the table
/// has no such key.
pub open spec fn entry_or_null(table: Map<Seq<char>, Document>, key: Seq<char>) -> Document {
    if table.contains_key(key) {
        table[key]
    } else {
        Document::Null
    }
}

/// The overlay applied over the base. Where both are tables, each key of the
/// overlay decides: a null value removes the key, any other value is applied
/// over what the base holds under that key; the keys that the overlay does
/// not name stay as they are. In every other case the overlay takes the
/// place of the base.
pub open spec fn merged(base: Document, overlay: Document) -> Document
    decreases overlay,
{
    match (base, overlay) {
        (Document::Table(b), Document::Table(o)) => Document::Table(
            Map::new(
                |k: Seq<char>|
                    if o.contains_key(k) {
                        !(o[k] is Null)
                    } else {
                        b.contains_key(k)
                    },
                |k: Seq<char>|
                    if o.contains_key(k) {
                        merged(entry_or_null(b, k), o[k])
                    } else {
                        b[k]
                    },
            ),
        ),
        _ => overlay,
    }
}

/// The table that results where a table is applied over a table.
pub open spec fn merged_table(
    b: Map<Seq<char>, Document>,
    o: Map<Seq<char>, Document>,
) -> Map<Seq<char>, Document> {
    merged(Document::Table(b), Document::Table(o))->Table_0
}

/// A key that the overlay sets to null is absent from the result, whether or
/// not the base has it.
pub proof fn lemma_null_removes(
    b: Map<Seq<char>, Document>,
    o: Map<Seq<char>, Document>,
    key: Seq<char>,
)
    requires
        o.contains_key(key),
        o[key] is Null,
    ensures
        merged(Document::Table(b), Document::Table(o)) is Table,
        !merged_table(b, o).contains_key(key),
{
}

/// Under a key that the overlay sets to a value other than null, the result
/// holds that value applied over what the base holds there (over null, where
/// the base has no such key).
pub proof fn lemma_overlay_key_applies(
    b: Map<Seq<char>, Document>,
    o: Map<Seq<char>, Document>,
    key: Seq<char>,
)
    requires
        o.contains_key(key),
        !(o[key] is Null),
    ensures
        merged_table(b, o).contains_key(key),
        merged_table(b, o)[key] == merged(entry_or_null(b, key), o[key]),
{
}

/// An overlay that is no table takes the place of the base, whatever the
/// base is.
pub proof fn lemma_non_table_replaces(base: Document, overlay: Document)
    requires
        !(overlay is Table),
    ensures
        merged(base, overlay) == overlay,
{
}

/// Under a key that the overlay sets to a value that is neither null nor a
/// table, the result holds exactly that value.
pub proof fn lemma_non_table_key_replaces(
    b: Map<Seq<char>, Document>,
    o: Map<Seq<char>, Document>,
    key: Seq<char>,
)
    requires
        o.contains_key(key),
        !(o[key] is Null),
        !(o[key] is Table),
    ensures
        merged_table(b, o).contains_key(key),
        merged_table(b, o)[key] == o[key],
{
    lemma_overlay_key_applies(b, o, key);
    lemma_non_table_replaces(entry_or_null(b, key), o[key]);
}

/// A key that the overlay does not name stays as the base has it.
pub proof fn lemma_other_keys_stay(
    b: Map<Seq<char>, Document>,
    o: Map<Seq<char>, Document>,
    key: Seq<char>,
)
    requires
        !o.contains_key(key),
    ensures
        merged_table(b, o).contains_key(key) == b.contains_key(key),
        b.contains_key(key) ==> merged_table(b, o)[key] == b[key],
{
}

/// Applying the empty table over a table changes nothing.
pub proof fn lemma_empty_overlay(b: Map<Seq<char>, Document>)
    ensures
        merged(Document::Table(b), Document::Table(Map::empty())) == Document::Table(b),
{
    assert(merged_table(b, Map::empty()) =~= b);
}

/// The table in which the keys in `done` have been decided by the overlay
/// and the others are still as the base had them.
pub open spec fn partly_merged(
    b: Map<Seq<char>, Document>,
    o: Map<Seq<char>, Document>,
    done: Set<Seq<char>>,
) -> Map<Seq<char>, Document> {
    Map::new(
        |k: Seq<char>|
            if done.contains(k) {
                !(o[k] is Null)
            } else {
                b.contains_key(k)
            },
        |k: Seq<char>|
            if done.contains(k) {
                merged(entry_or_null(b, k), o[k])
            } else {
                b[k]
            },
    )
}

/// The keys of the entries from position `from` on.
pub open spec fn keys_from(entries: Seq<Member>, from: int) -> Set<Seq<char>> {
    Set::new(|k: Seq<char>| exists|i: int| from <= i < entries.len() && (#[trigger] entries[i]).key@ == k)
}

/// Applies the table `overlay` over the table `base`.
fn merge_tables(base: Object, overlay: Object) -> (r: Object)
    ensures
        Document::Table(r.table()) == merged(
            Document::Table(base.table()),
            Document::Table(overlay.table()),
        ),
    decreases overlay, 0nat,
{
    let ghost b = base.table();
    let ghost o = overlay.table();
    let ghost orig = overlay.members();
    let mut result: Vec<Member> = base.into_members();
    let mut rest: Vec<Member> = overlay.into_members();
    proof {
        assert(keys_from(orig, orig.len() as int) =~= Set::<Seq<char>>::empty());
        assert(table_of(result@) =~= partly_merged(b, o, keys_from(orig, orig.len() as int)));
        assert(rest@ =~= orig.subrange(0, rest.len() as int));
    }
    while rest.len() > 0
        invariant
            orig == overlay.members(),
            o == table_of(orig),
            distinct_keys(orig),
            distinct_keys(result@),
            rest@ == orig.subrange(0, rest.len() as int),
            rest.len() <= orig.len(),
            table_of(result@) == partly_merged(b, o, keys_from(orig, rest.len() as int)),
        decreases rest.len(),
    {
        let ghost n = rest.len() as int;
        let ghost current = table_of(result@);
        let ghost done = keys_from(orig, n);
        let member = rest.pop().unwrap();
        let ghost kk = member.key@;
        proof {
            assert(member == orig[n - 1]);
            assert(rest@ =~= orig.subrange(0, n - 1));
            lemma_table_entry(orig, n - 1);
            lemma_member_decreases(overlay, n - 1);
            assert(!done.contains(kk)) by {
                if done.contains(kk) {
                    let i = choose|i: int| n <= i < orig.len() && (#[trigger] orig[i]).key@ == kk;
                    assert(orig[n - 1].key@ != orig[i].key@);
                }
            }
            assert(keys_from(orig, n - 1) =~= done.insert(kk)) by {
                assert forall|k: Seq<char>| keys_from(orig, n - 1).contains(k) <==> done.insert(
                    kk,
                ).contains(k) by {
                    if keys_from(orig, n - 1).contains(k) {
                        let i = choose|i: int|
                            n - 1 <= i < orig.len() && (#[trigger] orig[i]).key@ == k;
                        if i >= n {
                            assert(done.contains(k));
                        }
                    }
                    if done.contains(k) {
                        let i = choose|i: int| n <= i < orig.len() && (#[trigger] orig[i]).key@ == k;
                        assert(n - 1 <= i < orig.len() && orig[i].key@ == k);
                    }
                    if k == kk {
                        assert(orig[n - 1].key@ == k);
                    }
                }
            }
            lemma_table_keys(result@);
        }
        let Member { key, value } = member;
        let found = find_key(&result, &key);
        let ghost before = result@;
        match value {
            Node::Null => {
                match found {
                    Some(i) => {
                        result.remove(i);
                        proof {
                            lemma_table_remove(before, i as int);
                        }
                    },
                    None => {},
                }
                proof {
                    assert(table_of(result@) =~= partly_merged(b, o, done.insert(kk)));
                }
            },
            value => {
                let under = match found {
                    Some(i) => {
                        proof {
                            lemma_table_entry(before, i as int);
                            lemma_table_remove(before, i as int);
                        }
                        result.remove(i).value
                    },
                    None => Node::Null,
                };
                let ghost middle = result@;
                proof {
                    lemma_table_keys(middle);
                    assert(current.contains_key(kk) <==> b.contains_key(kk));
                    assert(current.contains_key(kk) <==> has_key(before, kk));
                    if current.contains_key(kk) {
                        assert(current[kk] == b[kk]);
                    } else {
                        assert(found is None);
                        assert(Node::Null@ == Document::Null);
                    }
                    assert(under@ == entry_or_null(b, kk));
                }
                let combined = merged_value(under, value);
                let entry = Member { key, value: combined };
                result.push(entry);
                proof {
                    lemma_table_push(middle, entry);
                    assert(table_of(result@) =~= partly_merged(b, o, done.insert(kk)));
                }
            },
        }
    }
    proof {
        lemma_table_keys(orig);
        assert(keys_from(orig, 0) =~= o.dom()) by {
            assert forall|k: Seq<char>| keys_from(orig, 0).contains(k) <==> o.dom().contains(k) by {
                assert(o.contains_key(k) <==> has_key(orig, k));
                if has_key(orig, k) {
                    let i = choose|i: int| 0 <= i < orig.len() && (#[trigger] orig[i]).key@ == k;
                    assert(0 <= i < orig.len() && orig[i].key@ == k);
                }
            }
        }
        assert(partly_merged(b, o, o.dom()) =~= merged(Document::Table(b), Document::Table(o))->Table_0);
    }
    Object::from_members(result)
}

/// The overlay applied over the base, as a new document.
pub fn merged_value(base: Node, overlay: Node) -> (r: Node)
    ensures
        r@ == merged(base@, overlay@),
    decreases overlay, 1nat,
{
    match overlay {
        Node::Object(o) => match base {
            Node::Object(b) => Node::Object(merge_tables(b, o)),
            _ => Node::Object(o),
        },
        other => other,
    }
}

/// Applies the overlay over the document `a`, in place.
pub fn merge(a: &mut Node, b: Node)
    ensures
        final(a)@ == merged(old(a)@, b@),
{
    let mut base = Node::Null;
    core::mem::swap(a, &mut base);
    *a = merged_value(base, b);
}

} // verus!
