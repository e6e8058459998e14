//! A map from names to values that is walked in the order of its names.
use crate::text;
use vstd::prelude::*;

verus! {

/// A map with text keys, kept sorted by key.
#[derive(Debug)]
pub struct TextMap<V> {
    entries: Vec<(String, V)>,
}

/// Whether texts stand in strictly increasing order.
pub open spec fn increasing(keys: Seq<Seq<char>>) -> bool {
    forall|i: int, j: int| 0 <= i < j < keys.len() ==> text::lt(#[trigger] keys[i], #[trigger] keys[j])
}

impl<V> TextMap<V> {
    /// The keys, in increasing order.
    pub closed spec fn keys(self) -> Seq<Seq<char>> {
        Seq::new(self.entries@.len(), |i: int| self.entries@[i].0@)
    }

    closed spec fn position(self, key: Seq<char>) -> int {
        choose|i: int| 0 <= i < self.entries@.len() && self.entries@[i].0@ == key
    }

    #[verifier::type_invariant]
    spec fn inv(self) -> bool {
        increasing(self.keys())
    }
}

impl<V> View for TextMap<V> {
    type V = Map<Seq<char>, V>;

    closed spec fn view(&self) -> Map<Seq<char>, V> {
        Map::new(
            |key: Seq<char>| self.keys().contains(key),
            |key: Seq<char>| self.entries@[self.position(key)].1,
        )
    }
}

/// In an increasing list of texts, no two are the same.
pub proof fn increasing_is_distinct(keys: Seq<Seq<char>>, i: int, j: int)
    requires
        increasing(keys),
        0 <= i < keys.len(),
        0 <= j < keys.len(),
        keys[i] == keys[j],
    ensures
        i == j,
{
    if i < j {
        text::lt_irreflexive(keys[i]);
    } else if j < i {
        text::lt_irreflexive(keys[j]);
    }
}

impl<V> TextMap<V> {
    proof fn lookup(self, i: int)
        requires
            increasing(self.keys()),
            0 <= i < self.entries@.len(),
        ensures
            self@.contains_key(self.keys()[i]),
            self@[self.keys()[i]] == self.entries@[i].1,
    {
        let key = self.keys()[i];
        assert(self.entries@[i].0@ == key);
        assert(self.keys().contains(key));
        let p = self.position(key);
        assert(self.keys()[p] == key);
        increasing_is_distinct(self.keys(), i, p);
    }

    /// The map without entries.
    pub fn new() -> (r: Self)
        ensures
            r@ == Map::<Seq<char>, V>::empty(),
            r.keys() == Seq::<Seq<char>>::empty(),
    {
        let r = TextMap { entries: Vec::new() };
        assert(r.keys() =~= Seq::<Seq<char>>::empty());
        assert(r@ =~= Map::<Seq<char>, V>::empty());
        r
    }

    /// The number of entries.
    pub fn len(&self) -> (n: usize)
        ensures
            n == self.keys().len(),
            increasing(self.keys()),
            forall|key: Seq<char>| #[trigger]
                self@.contains_key(key) <==> self.keys().contains(key),
    {
        proof {
            use_type_invariant(self);
        }
        self.entries.len()
    }

    /// The key at a position of the order.
    pub fn key_at(&self, i: usize) -> (r: &String)
        requires
            i < self.keys().len(),
        ensures
            r@ == self.keys()[i as int],
            self@.contains_key(r@),
    {
        proof {
            use_type_invariant(self);
            self.lookup(i as int);
        }
        &self.entries[i].0
    }

    /// The value at a position of the order.
    pub fn value_at(&self, i: usize) -> (r: &V)
        requires
            i < self.keys().len(),
        ensures
            self@.contains_key(self.keys()[i as int]),
            *r == self@[self.keys()[i as int]],
    {
        proof {
            use_type_invariant(self);
            self.lookup(i as int);
        }
        &self.entries[i].1
    }

    /// The first position whose key is not below `key`.
    fn rank(&self, key: &str) -> (r: usize)
        ensures
            r <= self.keys().len(),
            forall|i: int| 0 <= i < r ==> text::lt(#[trigger] self.keys()[i], key@),
            forall|i: int|
                r <= i < self.keys().len() ==> text::le(key@, #[trigger] self.keys()[i]),
    {
        proof {
            use_type_invariant(self);
        }
        let mut r: usize = 0;
        while r < self.entries.len() && text::less(self.entries[r].0.as_str(), key)
            invariant
                increasing(self.keys()),
                r <= self.entries@.len(),
                forall|i: int| 0 <= i < r ==> text::lt(#[trigger] self.keys()[i], key@),
            decreases self.entries.len() - r,
        {
            assert(self.keys()[r as int] == self.entries@[r as int].0@);
            r = r + 1;
        }
        assert forall|i: int| r <= i < self.keys().len() implies text::le(
            key@,
            #[trigger] self.keys()[i],
        ) by {
            assert(self.keys()[r as int] == self.entries@[r as int].0@);
            text::lt_total(key@, self.keys()[r as int]);
            if r < i && key@ != self.keys()[r as int] {
                text::lt_transitive(key@, self.keys()[r as int], self.keys()[i]);
            }
        }
        r
    }

    /// The value under a key.
    pub fn get(&self, key: &str) -> (r: Option<&V>)
        ensures
            match r {
                Some(v) => self@.contains_key(key@) && *v == self@[key@],
                None => !self@.contains_key(key@),
            },
    {
        proof {
            use_type_invariant(self);
        }
        let at: usize = self.rank(key);
        if at < self.entries.len() && text::same(self.entries[at].0.as_str(), key) {
            proof {
                assert(self.keys()[at as int] == key@);
                self.lookup(at as int);
            }
            Some(&self.entries[at].1)
        } else {
            assert forall|i: int| 0 <= i < self.keys().len() implies self.keys()[i] != key@ by {
                if i < at {
                    text::lt_irreflexive(key@);
                } else if self.keys()[i] == key@ {
                    assert(self.keys()[at as int] == self.entries@[at as int].0@);
                    if at < i {
                        text::lt_asymmetric(self.keys()[at as int], self.keys()[i]);
                    }
                }
            }
            None
        }
    }

    /// Whether a key has a value.
    pub fn contains_key(&self, key: &str) -> (r: bool)
        ensures
            r == self@.contains_key(key@),
            r == self.keys().contains(key@),
    {
        proof {
            use_type_invariant(self);
        }
        self.get(key).is_some()
    }

    /// Gives a key a value; an earlier value is replaced.
    pub fn insert(&mut self, key: &str, value: V)
        ensures
            final(self)@ == old(self)@.insert(key@, value),
            forall|k: Seq<char>| #[trigger]
                final(self).keys().contains(k) <==> old(self).keys().contains(k) || k == key@,
    {
        proof {
            use_type_invariant(&*self);
        }
        let ghost before = *self;
        let at: usize = self.rank(key);
        let present: bool = at < self.entries.len() && text::same(
            self.entries[at].0.as_str(),
            key,
        );
        let owned = key.to_owned();
        let mut entries: Vec<(String, V)> = Vec::new();
        std::mem::swap(&mut entries, &mut self.entries);
        if present {
            entries.remove(at);
        }
        entries.insert(at, (owned, value));
        proof {
            let after = TextMap { entries };
            let keys = before.keys();
            let shift: int = if present { 0 } else { 1 };
            assert forall|i: int| 0 <= i < entries@.len() implies #[trigger] after.keys()[i] == (
            if i < at {
                keys[i]
            } else if i == at {
                key@
            } else {
                keys[i - shift]
            }) by {}
            assert forall|j: int| at < j < after.keys().len() implies text::lt(
                key@,
                #[trigger] after.keys()[j],
            ) by {
                let p = j - shift;
                if present {
                    assert(keys[at as int] == key@);
                } else {
                    assert(before.entries@[at as int].0@ == keys[at as int]);
                    if p > at {
                        text::lt_transitive(key@, keys[at as int], keys[p]);
                    }
                }
            }
            assert forall|i: int, j: int| 0 <= i < j < after.keys().len() implies text::lt(
                #[trigger] after.keys()[i],
                #[trigger] after.keys()[j],
            ) by {
                if i < at && j > at {
                    text::lt_transitive(keys[i], key@, after.keys()[j]);
                }
            }
            assert forall|k: Seq<char>| after@.contains_key(k) == (k == key@
                || before@.contains_key(k)) by {
                if after.keys().contains(k) {
                    let i = choose|i: int| 0 <= i < after.keys().len() && after.keys()[i] == k;
                    if i < at {
                        assert(keys[i] == k);
                    } else if i > at {
                        assert(keys[i - shift] == k);
                    }
                }
                if k == key@ {
                    assert(after.keys()[at as int] == k);
                }
                if keys.contains(k) {
                    let i = choose|i: int| 0 <= i < keys.len() && keys[i] == k;
                    if i < at {
                        assert(after.keys()[i] == k);
                    } else {
                        if present && i == at {
                            assert(after.keys()[at as int] == k);
                        } else {
                            assert(after.keys()[i + shift] == k);
                        }
                    }
                }
            }
            assert forall|k: Seq<char>| after@.contains_key(k) implies #[trigger] after@[k]
                == before@.insert(key@, value)[k] by {
                let i = choose|i: int| 0 <= i < after.keys().len() && after.keys()[i] == k;
                after.lookup(i);
                if i < at {
                    before.lookup(i);
                    text::lt_irreflexive(key@);
                } else if i > at {
                    before.lookup(i - shift);
                    if k == key@ {
                        increasing_is_distinct(after.keys(), i, at as int);
                    }
                } else {
                }
            }
            assert(after@ =~= before@.insert(key@, value));
        }
        self.entries = entries;
        proof {
            assert forall|k: Seq<char>| #[trigger]
                self.keys().contains(k) <==> before.keys().contains(k) || k == key@ by {
                assert(self@.contains_key(k) == self.keys().contains(k));
                assert(before@.contains_key(k) == before.keys().contains(k));
            }
        }
    }

    /// Takes a key and its value out.
    pub fn remove(&mut self, key: &str)
        ensures
            final(self)@ == old(self)@.remove(key@),
    {
        proof {
            use_type_invariant(&*self);
        }
        let ghost before = *self;
        let at: usize = self.rank(key);
        let present: bool = at < self.entries.len() && text::same(
            self.entries[at].0.as_str(),
            key,
        );
        if !present {
            let found = self.get(key);
            proof {
                if found is Some {
                    let i = choose|i: int| 0 <= i < before.keys().len() && before.keys()[i] == key@;
                    if i < at {
                        text::lt_irreflexive(key@);
                    } else {
                        assert(before.keys()[at as int] == before.entries@[at as int].0@);
                        if at < i {
                            text::lt_asymmetric(before.keys()[at as int], before.keys()[i]);
                        }
                    }
                }
                assert(before@.remove(key@) =~= before@);
            }
            return ;
        }
        let mut entries: Vec<(String, V)> = Vec::new();
        std::mem::swap(&mut entries, &mut self.entries);
        entries.remove(at);
        proof {
            let after = TextMap { entries };
            let keys = before.keys();
            assert(keys[at as int] == key@);
            assert forall|i: int| 0 <= i < entries@.len() implies #[trigger] after.keys()[i] == (
            if i < at {
                keys[i]
            } else {
                keys[i + 1]
            }) by {}
            assert forall|k: Seq<char>| after@.contains_key(k) == (k != key@
                && before@.contains_key(k)) by {
                if after.keys().contains(k) {
                    let i = choose|i: int| 0 <= i < after.keys().len() && after.keys()[i] == k;
                    let p = if i < at {
                        i
                    } else {
                        i + 1
                    };
                    assert(keys[p] == k);
                    if k == key@ {
                        increasing_is_distinct(keys, p, at as int);
                    }
                }
                if keys.contains(k) && k != key@ {
                    let i = choose|i: int| 0 <= i < keys.len() && keys[i] == k;
                    if i < at {
                        assert(after.keys()[i] == k);
                    } else {
                        assert(after.keys()[i - 1] == k);
                    }
                }
            }
            assert forall|k: Seq<char>| after@.contains_key(k) implies #[trigger] after@[k]
                == before@.remove(key@)[k] by {
                let i = choose|i: int| 0 <= i < after.keys().len() && after.keys()[i] == k;
                after.lookup(i);
                if i < at {
                    before.lookup(i);
                } else {
                    before.lookup(i + 1);
                }
            }
            assert(after@ =~= before@.remove(key@));
        }
        self.entries = entries;
    }
}

/// The registered rooms: name to path, as written in the registry.
pub type RoomMap = TextMap<String>;

/// The members of a channel: room to the time of joining.
pub type MemberMap = TextMap<String>;

} // verus!
