//! A table from names to values.
use std::sync::Arc;
use vstd::prelude::*;

verus! {

struct Slot<V> {
    value: V,
    key: String,
}

/// A table from names to values, each name at most once.
pub struct StringTable<V> {
    slots: Vec<Slot<V>>,
}

impl<V> StringTable<V> {
    spec fn holds(&self, i: int, key: Seq<char>) -> bool {
        0 <= i < self.slots@.len() && self.slots@[i].key@ == key
    }

    spec fn place(&self, key: Seq<char>) -> int {
        choose|i: int| self.holds(i, key)
    }

    /// No name stands twice in the table.
    pub closed spec fn wf(&self) -> bool {
        forall|i: int, j: int|
            0 <= i < j < self.slots@.len() ==> (#[trigger] self.slots@[i]).key@ != (
            #[trigger] self.slots@[j]).key@
    }
}

impl<V> View for StringTable<V> {
    type V = Map<Seq<char>, V>;

    closed spec fn view(&self) -> Map<Seq<char>, V> {
        Map::new(
            |key: Seq<char>| exists|i: int| self.holds(i, key),
            |key: Seq<char>| self.slots@[self.place(key)].value,
        )
    }
}

impl<V> StringTable<V> {
    proof fn lemma_holds(&self, i: int, key: Seq<char>)
        requires
            self.wf(),
            self.holds(i, key),
        ensures
            self@.contains_key(key),
            self@[key] == self.slots@[i].value,
    {
        let j = self.place(key);
        assert(self.holds(j, key));
        if i != j {
            if i < j {
                assert(self.slots@[i].key@ != self.slots@[j].key@);
            } else {
                assert(self.slots@[j].key@ != self.slots@[i].key@);
            }
        }
    }

    /// An empty table.
    pub fn new() -> (table: Self)
        ensures
            table.wf(),
            table@ == Map::<Seq<char>, V>::empty(),
    {
        let table = StringTable { slots: Vec::new() };
        assert(table@ =~= Map::<Seq<char>, V>::empty());
        table
    }

    /// How many names the table holds.
    pub fn len(&self) -> (n: usize)
        requires
            self.wf(),
        ensures
            self@.dom().finite(),
            n == self@.dom().len(),
    {
        proof {
            lemma_dom_len(*self);
        }
        self.slots.len()
    }

    fn position(&self, key: &str) -> (r: Option<usize>)
        requires
            self.wf(),
        ensures
            match r {
                Some(i) => self.holds(i as int, key@) && self@.contains_key(key@) && self@[key@]
                    == self.slots@[i as int].value,
                None => !self@.contains_key(key@),
            },
    {
        let wanted = key.to_owned();
        let n = self.slots.len();
        for i in 0..n
            invariant
                n == self.slots@.len(),
                self.wf(),
                wanted@ == key@,
                forall|j: int| 0 <= j < i ==> !self.holds(j, key@),
        {
            if self.slots[i].key == wanted {
                proof {
                    self.lemma_holds(i as int, key@);
                }
                return Some(i);
            }
        }
        None
    }

    /// Whether the table holds a name.
    pub fn contains_key(&self, key: &str) -> (r: bool)
        requires
            self.wf(),
        ensures
            r == self@.contains_key(key@),
    {
        self.position(key).is_some()
    }

    /// The value under a name.
    pub fn get(&self, key: &str) -> (r: Option<&V>)
        requires
            self.wf(),
        ensures
            match r {
                Some(value) => self@.contains_key(key@) && *value == self@[key@],
                None => !self@.contains_key(key@),
            },
    {
        match self.position(key) {
            Some(i) => Some(&self.slots[i].value),
            None => None,
        }
    }

    /// Enters a name that the table does not hold.
    pub fn insert_new(&mut self, key: String, value: V)
        requires
            old(self).wf(),
            !old(self)@.contains_key(key@),
        ensures
            final(self).wf(),
            final(self)@ == old(self)@.insert(key@, value),
    {
        let ghost before = *self;
        let ghost n = self.slots@.len() as int;
        self.slots.push(Slot { value, key });
        proof {
            assert forall|i: int| 0 <= i < n implies (#[trigger] self.slots@[i]).key@ != key@ by {
                if before.slots@[i].key@ == key@ {
                    assert(before.holds(i, key@));
                    before.lemma_holds(i, key@);
                }
            }
            assert(self.wf());
            assert forall|k: Seq<char>| #[trigger] self@.contains_key(k) <==> before@.contains_key(k)
                || k == key@ by {
                if before@.contains_key(k) {
                    let i = before.place(k);
                    assert(before.holds(i, k));
                    assert(self.holds(i, k));
                }
                assert(self.holds(n, key@));
                if self@.contains_key(k) && k != key@ {
                    let i = self.place(k);
                    assert(self.holds(i, k));
                    assert(before.holds(i, k));
                }
            }
            assert forall|k: Seq<char>| self@.contains_key(k) implies #[trigger] self@[k]
                == before@.insert(key@, value)[k] by {
                if k == key@ {
                    assert(self.holds(n, key@));
                    self.lemma_holds(n, key@);
                } else {
                    assert(before@.contains_key(k));
                    let i = before.place(k);
                    assert(before.holds(i, k));
                    before.lemma_holds(i, k);
                    assert(self.holds(i, k));
                    self.lemma_holds(i, k);
                }
            }
            assert(self@ =~= before@.insert(key@, value));
        }
    }

    /// Takes a name out of the table, with its value.
    pub fn remove(&mut self, key: &str) -> (r: Option<V>)
        requires
            old(self).wf(),
        ensures
            final(self).wf(),
            match r {
                Some(value) => {
                    &&& old(self)@.contains_key(key@)
                    &&& value == old(self)@[key@]
                    &&& final(self)@ == old(self)@.remove(key@)
                },
                None => !old(self)@.contains_key(key@) && final(self)@ == old(self)@,
            },
    {
        let ghost before = *self;
        match self.position(key) {
            None => None,
            Some(i) => {
                let slot = self.slots.remove(i);
                proof {
                    let at = i as int;
                    assert forall|j: int| 0 <= j < self.slots@.len() implies #[trigger] self.slots@[j]
                        == before.slots@[if j < at {
                        j
                    } else {
                        j + 1
                    }] by {}
                    assert forall|k: int, j: int|
                        0 <= k < j < self.slots@.len() implies (#[trigger] self.slots@[k]).key@ != (
                    #[trigger] self.slots@[j]).key@ by {
                        let k2 = if k < at {
                            k
                        } else {
                            k + 1
                        };
                        let j2 = if j < at {
                            j
                        } else {
                            j + 1
                        };
                        assert(before.slots@[k2].key@ != before.slots@[j2].key@);
                    }
                    assert forall|k: Seq<char>| #[trigger]
                        self@.contains_key(k) <==> before@.contains_key(k) && k != key@ by {
                        if before@.contains_key(k) && k != key@ {
                            let j = before.place(k);
                            assert(before.holds(j, k));
                            if j < at {
                                assert(self.holds(j, k));
                            } else {
                                assert(self.holds(j - 1, k));
                            }
                        }
                        if self@.contains_key(k) {
                            let j = self.place(k);
                            assert(self.holds(j, k));
                            let j2 = if j < at {
                                j
                            } else {
                                j + 1
                            };
                            assert(before.holds(j2, k));
                            if k == key@ {
                                if j2 < at {
                                    assert(before.slots@[j2].key@ != before.slots@[at].key@);
                                } else {
                                    assert(before.slots@[at].key@ != before.slots@[j2].key@);
                                }
                            }
                        }
                    }
                    assert forall|k: Seq<char>| self@.contains_key(k) implies #[trigger] self@[k]
                        == before@[k] by {
                        let j = self.place(k);
                        assert(self.holds(j, k));
                        let j2 = if j < at {
                            j
                        } else {
                            j + 1
                        };
                        assert(before.holds(j2, k));
                        self.lemma_holds(j, k);
                        before.lemma_holds(j2, k);
                    }
                    assert(self@ =~= before@.remove(key@));
                }
                Some(slot.value)
            },
        }
    }
}

/// The number of names is the number of slots.
proof fn lemma_dom_len<V>(table: StringTable<V>)
    requires
        table.wf(),
    ensures
        table@.dom().finite(),
        table@.dom().len() == table.slots@.len(),
{
    let keys = table.slots@.map_values(|slot: Slot<V>| slot.key@);
    assert(keys.no_duplicates()) by {
        assert forall|i: int, j: int|
            0 <= i < keys.len() && 0 <= j < keys.len() && i != j implies keys[i] != keys[j] by {
            if i < j {
                assert(table.slots@[i].key@ != table.slots@[j].key@);
            } else {
                assert(table.slots@[j].key@ != table.slots@[i].key@);
            }
        }
    }
    keys.unique_seq_to_set();
    assert forall|k: Seq<char>| #[trigger] keys.to_set().contains(k) <==> table@.dom().contains(
        k,
    ) by {
        if keys.contains(k) {
            let i = choose|i: int| 0 <= i < keys.len() && keys[i] == k;
            assert(table.holds(i, k));
        }
        if table@.contains_key(k) {
            let i = table.place(k);
            assert(table.holds(i, k));
            assert(keys[i] == k);
        }
    }
    assert(keys.to_set() =~= table@.dom());
}

/// `Arc::clone` makes another pointer to the same value.
#[verifier::external_body]
pub(crate) fn share<T>(shared: &Arc<T>) -> (copy: Arc<T>)
    ensures
        copy == *shared,
{
    shared.clone()
}

impl<T> Clone for StringTable<Arc<T>> {
    fn clone(&self) -> (copy: Self)
        ensures
            self.wf() ==> copy.wf() && copy@ == self@,
    {
        let mut slots: Vec<Slot<Arc<T>>> = Vec::new();
        let n = self.slots.len();
        for i in 0..n
            invariant
                n == self.slots@.len(),
                slots@.len() == i,
                forall|j: int| 0 <= j < i ==> (#[trigger] slots@[j]).key@ == self.slots@[j].key@,
                forall|j: int| 0 <= j < i ==> (#[trigger] slots@[j]).value == self.slots@[j].value,
        {
            slots.push(
                Slot { value: share(&self.slots[i].value), key: self.slots[i].key.clone() },
            );
        }
        let copy = StringTable { slots };
        proof {
            if self.wf() {
                lemma_same_slots(*self, copy);
            }
        }
        copy
    }
}

/// Tables with the same slots hold the same.
proof fn lemma_same_slots<V>(a: StringTable<V>, b: StringTable<V>)
    requires
        a.wf(),
        a.slots@.len() == b.slots@.len(),
        forall|i: int| 0 <= i < a.slots@.len() ==> (#[trigger] b.slots@[i]).key@ == a.slots@[i].key@,
        forall|i: int|
            0 <= i < a.slots@.len() ==> (#[trigger] b.slots@[i]).value == a.slots@[i].value,
    ensures
        b.wf(),
        b@ == a@,
{
    assert forall|i: int, j: int| 0 <= i < j < b.slots@.len() implies (
    #[trigger] b.slots@[i]).key@ != (#[trigger] b.slots@[j]).key@ by {
        assert(a.slots@[i].key@ != a.slots@[j].key@);
    }
    assert forall|i: int, k: Seq<char>| #[trigger] a.holds(i, k) == b.holds(i, k) by {
        if 0 <= i < b.slots@.len() {
            assert(b.slots@[i].key@ == a.slots@[i].key@);
        }
    }
    assert forall|k: Seq<char>| #[trigger] b@.contains_key(k) <==> a@.contains_key(k) by {
        if a@.contains_key(k) {
            assert(b.holds(a.place(k), k) == a.holds(a.place(k), k));
        }
        if b@.contains_key(k) {
            assert(a.holds(b.place(k), k));
        }
    }
    assert forall|k: Seq<char>| #[trigger] b@.contains_key(k) implies b@[k] == a@[k] by {
        assert(a@.contains_key(k));
        let i = a.place(k);
        assert(a.holds(i, k));
        a.lemma_holds(i, k);
        b.lemma_holds(i, k);
        assert(b.slots@[i].value == a.slots@[i].value);
    }
    assert(b@ =~= a@);
}

} // verus!
