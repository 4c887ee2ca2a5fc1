//! Which slot each key is bound to.

use vstd::prelude::*;

use crate::text::str_eq;

verus! {

/// A key and the slot it is bound to.
#[derive(Debug)]
pub struct SlotKey {
    pub key: String,
    pub slot: usize,
}

/// Bindings of keys to slots, each key and each slot at most once.
#[derive(Debug)]
pub struct SlotKeys {
    entries: Vec<SlotKey>,
}

/// The bindings that a list of entries stands for.
pub open spec fn bindings(entries: Seq<SlotKey>) -> Map<Seq<char>, usize>
    decreases entries.len(),
{
    if entries.len() == 0 {
        Map::empty()
    } else {
        bindings(entries.drop_last()).insert(entries.last().key@, entries.last().slot)
    }
}

/// No key and no slot occurs twice.
pub open spec fn distinct(entries: Seq<SlotKey>) -> bool {
    forall|i: int, j: int|
        #![trigger entries[i], entries[j]]
        0 <= i < j < entries.len() ==> entries[i].key@ != entries[j].key@ && entries[i].slot
            != entries[j].slot
}

impl View for SlotKeys {
    type V = Map<Seq<char>, usize>;

    closed spec fn view(&self) -> Map<Seq<char>, usize> {
        bindings(self.entries@)
    }
}

proof fn lemma_bindings(entries: Seq<SlotKey>)
    requires
        distinct(entries),
    ensures
        bindings(entries).dom().finite(),
        bindings(entries).dom().len() == entries.len(),
        forall|i: int|
            #![trigger entries[i]]
            0 <= i < entries.len() ==> bindings(entries).contains_pair(
                entries[i].key@,
                entries[i].slot,
            ),
        forall|k: Seq<char>| #[trigger]
            bindings(entries).contains_key(k) ==> exists|i: int|
                0 <= i < entries.len() && #[trigger] entries[i].key@ == k,
    decreases entries.len(),
{
    if entries.len() > 0 {
        let rest = entries.drop_last();
        let last = entries.last();
        lemma_bindings(rest);
        assert(!bindings(rest).contains_key(last.key@)) by {
            if bindings(rest).contains_key(last.key@) {
                let i = choose|i: int| 0 <= i < rest.len() && #[trigger] rest[i].key@ == last.key@;
                assert(entries[i].key@ == entries[entries.len() - 1].key@);
            }
        }
        assert forall|i: int| #![trigger entries[i]] 0 <= i < entries.len() implies bindings(
            entries,
        ).contains_pair(entries[i].key@, entries[i].slot) by {
            if i < rest.len() {
                assert(rest[i] == entries[i]);
            }
        }
        assert forall|k: Seq<char>| #[trigger] bindings(entries).contains_key(k) implies exists|
            i: int,
        |
            0 <= i < entries.len() && #[trigger] entries[i].key@ == k by {
            if k != last.key@ {
                let i = choose|i: int| 0 <= i < rest.len() && #[trigger] rest[i].key@ == k;
                assert(entries[i].key@ == k);
            } else {
                assert(entries[entries.len() - 1].key@ == k);
            }
        }
    }
}

proof fn lemma_remove(entries: Seq<SlotKey>, at: int)
    requires
        distinct(entries),
        0 <= at < entries.len(),
    ensures
        distinct(entries.remove(at)),
        bindings(entries.remove(at)) == bindings(entries).remove(entries[at].key@),
{
    let after = entries.remove(at);
    assert forall|i: int, j: int| #![trigger after[i], after[j]] 0 <= i < j < after.len() implies after[i].key@
        != after[j].key@ && after[i].slot != after[j].slot by {
        let a = if i < at {
            i
        } else {
            i + 1
        };
        let b = if j < at {
            j
        } else {
            j + 1
        };
        assert(after[i] == entries[a] && after[j] == entries[b]);
    }
    lemma_bindings(entries);
    lemma_bindings(after);
    let left = bindings(after);
    let right = bindings(entries).remove(entries[at].key@);
    assert forall|k: Seq<char>| left.contains_key(k) <==> right.contains_key(k) by {
        if left.contains_key(k) {
            let i = choose|i: int| 0 <= i < after.len() && #[trigger] after[i].key@ == k;
            let a = if i < at {
                i
            } else {
                i + 1
            };
            assert(entries[a] == after[i]);
            if a < at {
                assert(entries[a].key@ != entries[at].key@);
            } else {
                assert(entries[at].key@ != entries[a].key@);
            }
        }
        if right.contains_key(k) {
            let a = choose|a: int| 0 <= a < entries.len() && #[trigger] entries[a].key@ == k;
            let i = if a < at {
                a
            } else {
                a - 1
            };
            assert(a != at);
            assert(after[i] == entries[a]);
        }
    }
    assert forall|k: Seq<char>| left.contains_key(k) implies left[k] == right[k] by {
        let i = choose|i: int| 0 <= i < after.len() && #[trigger] after[i].key@ == k;
        let a = if i < at {
            i
        } else {
            i + 1
        };
        assert(entries[a] == after[i]);
        assert(left.contains_pair(after[i].key@, after[i].slot));
        assert(bindings(entries).contains_pair(entries[a].key@, entries[a].slot));
    }
    assert(left =~= right);
}

impl SlotKeys {
    /// Each key and each slot occurs at most once.
    pub closed spec fn well_formed(self) -> bool {
        distinct(self.entries@)
    }

    /// No bindings.
    pub fn new() -> (r: Self)
        ensures
            r.well_formed(),
            r@ == Map::<Seq<char>, usize>::empty(),
    {
        SlotKeys { entries: Vec::new() }
    }

    /// How many keys are bound.
    pub fn len(&self) -> (r: usize)
        requires
            self.well_formed(),
        ensures
            r == self@.dom().len(),
            self@.dom().finite(),
    {
        proof {
            lemma_bindings(self.entries@);
        }
        self.entries.len()
    }

    /// The slot that a key is bound to.
    pub fn get(&self, key: &str) -> (r: Option<usize>)
        requires
            self.well_formed(),
        ensures
            r is Some <==> self@.contains_key(key@),
            r matches Some(slot) ==> slot == self@[key@],
    {
        proof {
            lemma_bindings(self.entries@);
        }
        let mut i: usize = 0;
        while i < self.entries.len()
            invariant
                i <= self.entries@.len(),
                forall|j: int|
                    #![trigger self.entries@[j]]
                    0 <= j < i ==> self.entries@[j].key@ != key@,
                forall|j: int|
                    #![trigger self.entries@[j]]
                    0 <= j < self.entries@.len() ==> self@.contains_pair(
                        self.entries@[j].key@,
                        self.entries@[j].slot,
                    ),
                forall|k: Seq<char>| #[trigger]
                    self@.contains_key(k) ==> exists|j: int|
                        0 <= j < self.entries@.len() && #[trigger] self.entries@[j].key@ == k,
            decreases self.entries@.len() - i,
        {
            if str_eq(self.entries[i].key.as_str(), key) {
                return Some(self.entries[i].slot);
            }
            i = i + 1;
        }
        None
    }

    /// Bind a key that is not bound to a slot that is free.
    pub fn insert(&mut self, key: &str, slot: usize)
        requires
            old(self).well_formed(),
            !old(self)@.contains_key(key@),
            forall|k: Seq<char>| #[trigger] old(self)@.contains_key(k) ==> old(self)@[k] != slot,
        ensures
            final(self).well_formed(),
            final(self)@ == old(self)@.insert(key@, slot),
    {
        let entry = SlotKey { key: key.to_owned(), slot };
        let ghost before = self.entries@;
        proof {
            lemma_bindings(before);
        }
        self.entries.push(entry);
        proof {
            let after = self.entries@;
            assert(after.drop_last() =~= before);
            assert forall|i: int, j: int|
                #![trigger after[i], after[j]]
                0 <= i < j < after.len() implies after[i].key@ != after[j].key@ && after[i].slot
                != after[j].slot by {
                assert(after[i] == before[i]);
                if j < before.len() {
                    assert(after[j] == before[j]);
                } else {
                    assert(bindings(before).contains_pair(before[i].key@, before[i].slot));
                }
            }
        }
    }

    /// Unbind a key. Returns the slot it was bound to.
    pub fn remove(&mut self, key: &str) -> (r: Option<usize>)
        requires
            old(self).well_formed(),
        ensures
            final(self).well_formed(),
            r is Some <==> old(self)@.contains_key(key@),
            r matches Some(slot) ==> slot == old(self)@[key@],
            final(self)@ == old(self)@.remove(key@),
    {
        proof {
            lemma_bindings(self.entries@);
        }
        let mut i: usize = 0;
        while i < self.entries.len()
            invariant
                i <= self.entries@.len(),
                *self == *old(self),
                self.well_formed(),
                forall|j: int|
                    #![trigger self.entries@[j]]
                    0 <= j < i ==> self.entries@[j].key@ != key@,
                forall|j: int|
                    #![trigger self.entries@[j]]
                    0 <= j < self.entries@.len() ==> self@.contains_pair(
                        self.entries@[j].key@,
                        self.entries@[j].slot,
                    ),
                forall|k: Seq<char>| #[trigger]
                    self@.contains_key(k) ==> exists|j: int|
                        0 <= j < self.entries@.len() && #[trigger] self.entries@[j].key@ == k,
            decreases self.entries@.len() - i,
        {
            if str_eq(self.entries[i].key.as_str(), key) {
                proof {
                    lemma_remove(self.entries@, i as int);
                }
                let gone: SlotKey = self.entries.remove(i);
                return Some(gone.slot);
            }
            i = i + 1;
        }
        proof {
            assert(self@.remove(key@) =~= self@);
        }
        None
    }

    /// Unbind everything.
    pub fn clear(&mut self)
        ensures
            final(self).well_formed(),
            final(self)@ == Map::<Seq<char>, usize>::empty(),
    {
        self.entries.clear();
    }

    /// The bindings as pairs, in no particular order: every binding once.
    pub fn pairs(&self) -> (r: Vec<(String, usize)>)
        requires
            self.well_formed(),
        ensures
            r@.len() == self@.dom().len(),
            forall|i: int|
                #![trigger r@[i]]
                0 <= i < r@.len() ==> self@.contains_pair(r@[i].0@, r@[i].1),
            forall|i: int, j: int|
                #![trigger r@[i], r@[j]]
                0 <= i < j < r@.len() ==> r@[i].0@ != r@[j].0@,
            forall|k: Seq<char>| #[trigger]
                self@.contains_key(k) ==> exists|i: int|
                    0 <= i < r@.len() && #[trigger] r@[i].0@ == k,
    {
        proof {
            lemma_bindings(self.entries@);
        }
        let mut out: Vec<(String, usize)> = Vec::new();
        let mut i: usize = 0;
        while i < self.entries.len()
            invariant
                i <= self.entries@.len(),
                out@.len() == i,
                forall|j: int|
                    #![trigger out@[j]]
                    0 <= j < i ==> out@[j].0@ == self.entries@[j].key@ && out@[j].1
                        == self.entries@[j].slot,
            decreases self.entries@.len() - i,
        {
            out.push((self.entries[i].key.clone(), self.entries[i].slot));
            i = i + 1;
        }
        proof {
            assert forall|j: int| #![trigger out@[j]] 0 <= j < out@.len() implies self@.contains_pair(
                out@[j].0@,
                out@[j].1,
            ) by {
                assert(self@.contains_pair(self.entries@[j].key@, self.entries@[j].slot));
            }
            assert forall|a: int, b: int| #![trigger out@[a], out@[b]] 0 <= a < b < out@.len() implies out@[a].0@
                != out@[b].0@ by {
                assert(self.entries@[a].key@ != self.entries@[b].key@);
            }
            assert forall|k: Seq<char>| #[trigger] self@.contains_key(k) implies exists|j: int|
                0 <= j < out@.len() && #[trigger] out@[j].0@ == k by {
                let j = choose|j: int|
                    0 <= j < self.entries@.len() && #[trigger] self.entries@[j].key@ == k;
                assert(out@[j].0@ == k);
            }
        }
        out
    }
}

} // verus!
