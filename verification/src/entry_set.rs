//! A set of entries that remembers the order in which they first came.

use vstd::prelude::*;

verus! {

/// An entry that a set can hold: two entries are the same member when their
/// views are equal.
pub trait SetEntry: View + Sized {
    /// Decides whether two entries are the same member.
    fn same(&self, other: &Self) -> (r: bool)
        ensures
            r == (self@ == other@),
    ;

    /// A copy of the entry.
    fn duplicate(&self) -> (r: Self)
        ensures
            r@ == self@,
    ;
}

impl SetEntry for String {
    fn same(&self, other: &Self) -> (r: bool) {
        *self == *other
    }

    fn duplicate(&self) -> (r: Self) {
        self.clone()
    }
}

/// Inserting an entry a second time changes nothing, and a set into which
/// one entry was inserted, however often, has exactly one member.
pub proof fn lemma_insert_again<V>(members: Set<V>, entry: V)
    ensures
        members.insert(entry).insert(entry) == members.insert(entry),
        Set::<V>::empty().insert(entry).insert(entry).len() == 1,
{
    assert(members.insert(entry).insert(entry) =~= members.insert(entry));
    assert(Set::<V>::empty().insert(entry).insert(entry) =~= Set::<V>::empty().insert(entry));
}

/// A set of entries. No member is held twice, however often it is inserted.
#[derive(Debug)]
pub struct EntrySet<T: SetEntry> {
    items: Vec<T>,
}

impl<T: SetEntry> EntrySet<T> {
    /// The members in the order of their first insertion.
    pub closed spec fn order(&self) -> Seq<T::V> {
        self.items@.map_values(|t: T| t@)
    }

    #[verifier::type_invariant]
    spec fn distinct(&self) -> bool {
        self.order().no_duplicates()
    }

    /// The members.
    pub open spec fn members(&self) -> Set<T::V> {
        self.order().to_set()
    }

    /// The empty set.
    pub fn new() -> (r: Self)
        ensures
            r.order() == Seq::<T::V>::empty(),
            r.members() == Set::<T::V>::empty(),
    {
        let r = EntrySet { items: Vec::new() };
        assert(r.order() =~= Seq::<T::V>::empty());
        assert(r.members() =~= Set::<T::V>::empty());
        r
    }

    /// The number of members.
    pub fn len(&self) -> (r: usize)
        ensures
            r == self.members().len(),
            r == self.order().len(),
    {
        proof {
            use_type_invariant(self);
            self.order().unique_seq_to_set();
        }
        self.items.len()
    }

    /// Decides whether `item` is a member.
    pub fn contains(&self, item: &T) -> (r: bool)
        ensures
            r == self.members().contains(item@),
    {
        let mut i: usize = 0;
        while i < self.items.len()
            invariant
                i <= self.items.len(),
                forall|j: int| 0 <= j < i ==> self.order()[j] != item@,
            decreases self.items.len() - i,
        {
            if self.items[i].same(item) {
                assert(self.order()[i as int] == item@);
                return true;
            }
            i = i + 1;
        }
        false
    }

    /// Makes `item` a member. Returns whether it was none before.
    pub fn insert(&mut self, item: T) -> (r: bool)
        ensures
            final(self).members() == old(self).members().insert(item@),
            r == !old(self).members().contains(item@),
            r ==> final(self).order() == old(self).order().push(item@),
            !r ==> final(self).order() == old(self).order(),
    {
        if self.contains(&item) {
            assert(self.members().insert(item@) =~= self.members());
            false
        } else {
            proof {
                use_type_invariant(&*self);
            }
            let ghost before = self.order();
            let mut items: Vec<T> = Vec::new();
            assert(items@.map_values(|t: T| t@) =~= Seq::<T::V>::empty());
            core::mem::swap(&mut self.items, &mut items);
            items.push(item);
            assert(items@.map_values(|t: T| t@) =~= before.push(item@));
            core::mem::swap(&mut self.items, &mut items);
            proof {
                assert(self.order() =~= before.push(item@));
                assert(self.members() =~= before.to_set().insert(item@)) by {
                    assert forall|k: T::V| self.order().contains(k) <==> (before.contains(k) || k == item@) by {
                        if self.order().contains(k) {
                            let j = choose|j: int| 0 <= j < self.order().len() && self.order()[j] == k;
                            if j < before.len() {
                                assert(before[j] == k);
                            }
                        }
                        if before.contains(k) {
                            let j = choose|j: int| 0 <= j < before.len() && before[j] == k;
                            assert(self.order()[j] == k);
                        }
                        if k == item@ {
                            assert(self.order()[before.len() as int] == k);
                        }
                    }
                }
            }
            true
        }
    }

    /// A copy of the set, with the same members in the same order.
    pub fn duplicate(&self) -> (r: Self)
        ensures
            r.order() == self.order(),
            r.members() == self.members(),
    {
        proof {
            use_type_invariant(self);
        }
        let mut items: Vec<T> = Vec::new();
        let mut i: usize = 0;
        while i < self.items.len()
            invariant
                i <= self.items.len(),
                items@.map_values(|t: T| t@) == self.order().subrange(0, i as int),
            decreases self.items.len() - i,
        {
            let ghost before = items@.map_values(|t: T| t@);
            let item = self.items[i].duplicate();
            items.push(item);
            assert(items@.map_values(|t: T| t@) =~= before.push(item@));
            assert(before.push(item@) =~= self.order().subrange(0, i + 1));
            i = i + 1;
        }
        assert(self.order().subrange(0, i as int) =~= self.order());
        EntrySet { items }
    }

    /// The member at position `i` of the insertion order.
    pub fn get(&self, i: usize) -> (r: &T)
        requires
            i < self.order().len(),
        ensures
            r@ == self.order()[i as int],
    {
        &self.items[i]
    }
}

} // verus!
