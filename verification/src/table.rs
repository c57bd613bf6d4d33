//! A small map from strings to values, kept as a list without repeated keys.

use crate::text::first_index;
use crate::text::lemma_first_index;
use crate::text::lemma_first_index_is;
use vstd::prelude::*;

verus! {

/// The keys of a list of pairs, in order.
pub open spec fn keys_of<V>(items: Seq<(String, V)>) -> Seq<Seq<char>> {
    Seq::new(items.len(), |i: int| items[i].0@)
}

/// A map from strings to values.
pub struct Table<V> {
    items: Vec<(String, V)>,
}

impl<V> Table<V> {
    #[verifier::type_invariant]
    spec fn unique_keys(self) -> bool {
        keys_of(self.items@).no_duplicates()
    }

    /// The map that the table stands for.
    pub closed spec fn view(&self) -> Map<Seq<char>, V> {
        Map::new(
            |k: Seq<char>| keys_of(self.items@).contains(k),
            |k: Seq<char>| self.items@[first_index(keys_of(self.items@), k)].1,
        )
    }

    /// The empty table.
    pub fn new() -> (r: Self)
        ensures
            r@ == Map::<Seq<char>, V>::empty(),
    {
        let r = Table { items: Vec::new() };
        assert(r@ =~= Map::<Seq<char>, V>::empty());
        r
    }

    /// How many keys the table holds.
    pub fn len(&self) -> (n: usize)
        ensures
            n == self@.dom().len(),
            self@.dom().finite(),
    {
        proof {
            use_type_invariant(self);
            lemma_domain(self.items@);
        }
        self.items.len()
    }

    /// The position of `key` in the list; its length where the key is not there.
    fn position(&self, key: &str) -> (p: usize)
        ensures
            p <= self.items.len(),
            p == first_index(keys_of(self.items@), key@),
            p < self.items.len() <==> keys_of(self.items@).contains(key@),
            p < self.items.len() ==> self.items@[p as int].0@ == key@,
    {
        let wanted = String::from_str(key);
        let mut p: usize = 0;
        while p < self.items.len() && self.items[p].0 != wanted
            invariant
                p <= self.items.len(),
                wanted@ == key@,
                forall|j: int| 0 <= j < p ==> keys_of(self.items@)[j] != key@,
            decreases self.items.len() - p,
        {
            p += 1;
        }
        proof {
            lemma_first_index_is(keys_of(self.items@), key@, p as int);
            if p < self.items.len() {
                assert(keys_of(self.items@)[p as int] == key@);
            }
        }
        p
    }

    /// The value under `key`, if there is one.
    pub fn get(&self, key: &str) -> (r: Option<&V>)
        ensures
            match r {
                Some(v) => self@.contains_key(key@) && self@[key@] == *v,
                None => !self@.contains_key(key@),
            },
    {
        let p = self.position(key);
        if p < self.items.len() {
            Some(&self.items[p].1)
        } else {
            None
        }
    }

    /// A copy of every key.
    pub fn keys(&self) -> (r: Vec<String>)
        ensures
            forall|k: Seq<char>| #[trigger] r.deep_view().contains(k) <==> self@.contains_key(k),
            r.deep_view().no_duplicates(),
    {
        proof {
            use_type_invariant(self);
        }
        let mut r: Vec<String> = Vec::new();
        let mut i: usize = 0;
        while i < self.items.len()
            invariant
                i <= self.items.len(),
                r.len() == i,
                forall|j: int| 0 <= j < i ==> r@[j]@ == self.items@[j].0@,
            decreases self.items.len() - i,
        {
            r.push(self.items[i].0.clone());
            i += 1;
        }
        assert(r.deep_view() =~= keys_of(self.items@));
        r
    }

    /// Puts `value` under `key`, in place of any value that was there.
    pub fn insert(&mut self, key: String, value: V)
        ensures
            final(self)@ == old(self)@.insert(key@, value),
    {
        proof {
            use_type_invariant(&*self);
        }
        let p = self.position(key.as_str());
        let ghost before = self.items@;
        let ghost k = key@;
        let mut items: Vec<(String, V)> = Vec::new();
        assert(keys_of(items@) =~= Seq::<Seq<char>>::empty());
        core::mem::swap(&mut self.items, &mut items);
        if p < items.len() {
            items.set(p, (key, value));
            proof {
                assert(keys_of(items@) =~= keys_of(before));
            }
        } else {
            items.push((key, value));
            proof {
                assert(keys_of(items@) =~= keys_of(before).push(k));
                lemma_pushed(before, items@, k);
            }
        }
        core::mem::swap(&mut self.items, &mut items);
        proof {
            lemma_first_index(keys_of(self.items@), k);
            assert forall|x: Seq<char>| #[trigger]
                self@.contains_key(x) == old(self)@.insert(k, value).contains_key(x) by {
                if x != k {
                    if keys_of(before).contains(x) {
                        let j = choose|j: int| 0 <= j < before.len() && keys_of(before)[j] == x;
                        assert(keys_of(self.items@)[j] == x);
                    }
                    if keys_of(self.items@).contains(x) {
                        let j = choose|j: int|
                            0 <= j < self.items@.len() && keys_of(self.items@)[j] == x;
                        assert(j < before.len());
                        assert(keys_of(before)[j] == x);
                    }
                } else {
                    assert(keys_of(self.items@)[p as int] == k);
                }
            }
            assert forall|x: Seq<char>| #[trigger] self@.contains_key(x) implies self@[x] == old(
                self,
            )@.insert(k, value)[x] by {
                lemma_first_index(keys_of(self.items@), x);
                lemma_first_index(keys_of(before), x);
                let a = first_index(keys_of(self.items@), x);
                if x != k {
                    assert(a != p);
                    assert(keys_of(before)[a] == x);
                    lemma_unique_position(keys_of(before), x, a);
                } else {
                    lemma_unique_position(keys_of(self.items@), x, p as int);
                }
            }
            assert(self@ =~= old(self)@.insert(k, value));
        }
    }

    /// Takes out the value under `key`, if there is one.
    pub fn remove(&mut self, key: &str) -> (r: Option<V>)
        ensures
            match r {
                Some(v) => old(self)@.contains_key(key@) && old(self)@[key@] == v,
                None => !old(self)@.contains_key(key@),
            },
            final(self)@ == old(self)@.remove(key@),
    {
        proof {
            use_type_invariant(&*self);
        }
        let p = self.position(key);
        if p >= self.items.len() {
            assert(self@ =~= old(self)@.remove(key@));
            return None;
        }
        let ghost before = self.items@;
        let mut items: Vec<(String, V)> = Vec::new();
        assert(keys_of(items@) =~= Seq::<Seq<char>>::empty());
        core::mem::swap(&mut self.items, &mut items);
        let pair = items.remove(p);
        proof {
            let after = items@;
            assert(after =~= before.remove(p as int));
            assert forall|a: int, b: int|
                0 <= a < after.len() && 0 <= b < after.len() && a != b implies keys_of(after)[a]
                != keys_of(after)[b] by {
                let a0 = if a < p {
                    a
                } else {
                    a + 1
                };
                let b0 = if b < p {
                    b
                } else {
                    b + 1
                };
                assert(keys_of(before)[a0] != keys_of(before)[b0]);
            }
        }
        core::mem::swap(&mut self.items, &mut items);
        proof {
            let after = self.items@;
            assert forall|x: Seq<char>| #[trigger]
                self@.contains_key(x) == old(self)@.remove(key@).contains_key(x) by {
                if keys_of(after).contains(x) {
                    let j = choose|j: int| 0 <= j < after.len() && keys_of(after)[j] == x;
                    let j0 = if j < p {
                        j
                    } else {
                        j + 1
                    };
                    assert(keys_of(before)[j0] == x);
                    assert(keys_of(before)[p as int] == key@);
                }
                if x != key@ && keys_of(before).contains(x) {
                    let j = choose|j: int| 0 <= j < before.len() && keys_of(before)[j] == x;
                    let j1 = if j < p {
                        j
                    } else {
                        j - 1
                    };
                    assert(keys_of(after)[j1] == x);
                }
            }
            assert forall|x: Seq<char>| #[trigger] self@.contains_key(x) implies self@[x] == old(
                self,
            )@.remove(key@)[x] by {
                lemma_first_index(keys_of(after), x);
                let a = first_index(keys_of(after), x);
                let a0 = if a < p {
                    a
                } else {
                    a + 1
                };
                assert(keys_of(before)[a0] == x);
                lemma_unique_position(keys_of(before), x, a0);
            }
            assert(self@ =~= old(self)@.remove(key@));
        }
        Some(pair.1)
    }
}

/// In a list without repeated keys, a key stands only at its first index.
pub proof fn lemma_unique_position(keys: Seq<Seq<char>>, key: Seq<char>, at: int)
    requires
        keys.no_duplicates(),
        0 <= at < keys.len(),
        keys[at] == key,
    ensures
        first_index(keys, key) == at,
{
    lemma_first_index(keys, key);
}

/// A key that is new to a list without repeated keys leaves it so.
proof fn lemma_pushed<V>(before: Seq<(String, V)>, after: Seq<(String, V)>, key: Seq<char>)
    requires
        keys_of(before).no_duplicates(),
        !keys_of(before).contains(key),
        keys_of(after) == keys_of(before).push(key),
    ensures
        keys_of(after).no_duplicates(),
{
    assert forall|a: int, b: int|
        0 <= a < keys_of(after).len() && 0 <= b < keys_of(after).len() && a != b implies keys_of(
        after,
    )[a] != keys_of(after)[b] by {
        if a < before.len() && b < before.len() {
            assert(keys_of(before)[a] != keys_of(before)[b]);
        } else {
            let inner = if a < b {
                a
            } else {
                b
            };
            assert(keys_of(before).contains(keys_of(before)[inner]));
        }
    }
}

/// A list without repeated keys has as many keys as items.
proof fn lemma_domain<V>(items: Seq<(String, V)>)
    requires
        keys_of(items).no_duplicates(),
    ensures
        keys_of(items).to_set().finite(),
        keys_of(items).to_set().len() == items.len(),
        keys_of(items).to_set() =~= Set::new(|k: Seq<char>| keys_of(items).contains(k)),
{
    keys_of(items).unique_seq_to_set();
    vstd::seq_lib::seq_to_set_is_finite(keys_of(items));
}

} // verus!
