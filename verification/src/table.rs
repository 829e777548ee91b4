//! A table from names to values, kept as a list of entries in the order in
//! which the names were first bound. Its model is a `Map` from the name's
//! characters to the value's view.

use vstd::prelude::*;

verus! {

/// One binding of a table.
#[derive(Debug)]
pub struct Entry<V> {
    pub key: String,
    pub value: V,
}

/// A table from names to values.
#[derive(Debug)]
pub struct Table<V> {
    pub entries: Vec<Entry<V>>,
}

/// The index of the first of `entries` whose key is `key`, or the number of
/// entries where there is none.
pub open spec fn position<V>(entries: Seq<Entry<V>>, key: Seq<char>) -> int
    decreases entries.len(),
{
    if entries.len() == 0 {
        0
    } else {
        let before = position(entries.drop_last(), key);
        if before < entries.len() - 1 {
            before
        } else if entries.last().key@ == key {
            entries.len() - 1
        } else {
            entries.len() as int
        }
    }
}

/// `position` is an index of an entry with the key, or the length.
pub proof fn lemma_position_bounds<V>(entries: Seq<Entry<V>>, key: Seq<char>)
    ensures
        0 <= position(entries, key) <= entries.len(),
        position(entries, key) < entries.len() ==> entries[position(entries, key)].key@ == key,
        forall|i: int| 0 <= i < position(entries, key) ==> (#[trigger] entries[i]).key@ != key,
    decreases entries.len(),
{
    if entries.len() > 0 {
        lemma_position_bounds(entries.drop_last(), key);
        let before = position(entries.drop_last(), key);
        assert forall|i: int| 0 <= i < position(entries, key) implies (#[trigger] entries[i]).key@
            != key by {
            if i < entries.len() - 1 {
                assert(entries.drop_last()[i] == entries[i]);
            }
        }
        if before < entries.len() - 1 {
            assert(entries.drop_last()[before] == entries[before]);
        }
    }
}

/// An index whose entry has the key, with no such entry before it, is the
/// key's position.
pub proof fn lemma_position_is<V>(entries: Seq<Entry<V>>, key: Seq<char>, at: int)
    requires
        0 <= at <= entries.len(),
        at < entries.len() ==> entries[at].key@ == key,
        forall|i: int| 0 <= i < at ==> (#[trigger] entries[i]).key@ != key,
    ensures
        position(entries, key) == at,
{
    lemma_position_bounds(entries, key);
    let found = position(entries, key);
    if found < at {
        assert(entries[found].key@ == key);
    } else if at < found {
        assert(entries[at].key@ == key);
    }
}

/// The position of a key depends on the keys of the entries alone.
pub proof fn lemma_position_same_keys<V>(a: Seq<Entry<V>>, b: Seq<Entry<V>>, key: Seq<char>)
    requires
        a.len() == b.len(),
        forall|i: int| 0 <= i < a.len() ==> (#[trigger] a[i]).key@ == b[i].key@,
    ensures
        position(a, key) == position(b, key),
{
    lemma_position_bounds(a, key);
    let at = position(a, key);
    assert forall|i: int| 0 <= i < at implies (#[trigger] b[i]).key@ != key by {
        assert(a[i].key@ != key);
    }
    lemma_position_is(b, key, at);
}

impl<V: View> View for Table<V> {
    type V = Map<Seq<char>, V::V>;

    open spec fn view(&self) -> Map<Seq<char>, V::V> {
        Map::new(
            |key: Seq<char>| position(self.entries@, key) < self.entries@.len(),
            |key: Seq<char>| self.entries@[position(self.entries@, key)].value@,
        )
    }
}

impl<V: View> Table<V> {
    /// The empty table.
    pub fn new() -> (r: Table<V>)
        ensures
            r@ == Map::<Seq<char>, V::V>::empty(),
    {
        let r = Table { entries: Vec::new() };
        assert(r@ =~= Map::<Seq<char>, V::V>::empty());
        r
    }

    /// The index of the entry that binds `key`, if the table binds it.
    pub fn find(&self, key: &str) -> (r: Option<usize>)
        ensures
            r is Some <==> self@.contains_key(key@),
            r matches Some(at) ==> at == position(self.entries@, key@) && at < self.entries@.len(),
    {
        let mut i: usize = 0;
        while i < self.entries.len()
            invariant
                i <= self.entries@.len(),
                forall|j: int| 0 <= j < i ==> (#[trigger] self.entries@[j]).key@ != key@,
            decreases self.entries@.len() - i,
        {
            if self.entries[i].key.as_str().eq(key) {
                proof {
                    lemma_position_is(self.entries@, key@, i as int);
                }
                return Some(i);
            }
            i += 1;
        }
        proof {
            lemma_position_is(self.entries@, key@, i as int);
        }
        None
    }

    /// Whether the table binds `key`.
    pub fn contains_key(&self, key: &str) -> (r: bool)
        ensures
            r == self@.contains_key(key@),
    {
        self.find(key).is_some()
    }

    /// The value bound to `key`, if the table binds it.
    pub fn get(&self, key: &str) -> (r: Option<&V>)
        ensures
            r is Some <==> self@.contains_key(key@),
            r matches Some(value) ==> value@ == self@[key@],
    {
        match self.find(key) {
            Some(at) => Some(&self.entries[at].value),
            None => None,
        }
    }

    /// Binds `key` to `value`, in place of an earlier binding of `key` if
    /// there is one.
    pub fn insert(&mut self, key: String, value: V)
        ensures
            final(self)@ == old(self)@.insert(key@, value@),
    {
        let ghost before = self.entries@;
        let ghost value_view = value@;
        let ghost key_view = key@;
        match self.find(key.as_str()) {
            Some(at) => {
                let entry = Entry { key, value };
                self.entries.set(at, entry);
                proof {
                    let after = self.entries@;
                    lemma_position_bounds(before, key_view);
                    assert forall|k: Seq<char>| #[trigger]
                        position(after, k) == position(before, k) && 0 <= position(before, k)
                            <= before.len() by {
                        lemma_position_same_keys(after, before, k);
                        lemma_position_bounds(before, k);
                    }
                    let target = old(self)@.insert(key_view, value_view);
                    assert forall|k: Seq<char>| self@.contains_key(k) == target.contains_key(
                        k,
                    ) by {
                        assert(position(after, k) == position(before, k));
                    }
                    assert forall|k: Seq<char>| self@.contains_key(k) implies self@[k]
                        == target[k] by {
                        assert(position(after, k) == position(before, k));
                        lemma_position_bounds(before, k);
                        if position(before, k) != at {
                            assert(after[position(before, k)] == before[position(before, k)]);
                        } else {
                            assert(k == key_view);
                            assert(after[at as int].value@ == value_view);
                        }
                    }
                    assert(self@ =~= target);
                }
            },
            None => {
                self.entries.push(Entry { key, value });
                proof {
                    let after = self.entries@;
                    assert(after.drop_last() =~= before);
                    assert forall|k: Seq<char>|
                        position(after, k) == (if position(before, k) < before.len() {
                            position(before, k)
                        } else if k == key_view {
                            before.len() as int
                        } else {
                            after.len() as int
                        }) by {
                        lemma_position_bounds(before, k);
                    }
                    let target = old(self)@.insert(key_view, value_view);
                    assert forall|k: Seq<char>| self@.contains_key(k) == target.contains_key(
                        k,
                    ) by {
                        lemma_position_bounds(before, k);
                    }
                    assert forall|k: Seq<char>| self@.contains_key(k) implies self@[k]
                        == target[k] by {
                        lemma_position_bounds(before, k);
                        if position(before, k) < before.len() {
                            assert(after[position(before, k)] == before[position(before, k)]);
                        }
                    }
                    assert(self@ =~= target);
                }
            },
        }
    }
}

} // verus!
