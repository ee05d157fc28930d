use vstd::prelude::*;

verus! {

/// A key of an association table, identified exactly by a byte sequence.
pub trait TableKey: Sized {
    /// The byte sequence that identifies this key.
    spec fn key_id(&self) -> Seq<u8>;

    /// Decides whether two keys carry the same identity.
    fn key_eq(&self, other: &Self) -> (r: bool)
        ensures
            r == (self.key_id() == other.key_id()),
    ;
}

/// The value recorded for `id` in `s`, scanning from the most recent entry.
pub open spec fn lookup<K: TableKey, V>(s: Seq<(K, V)>, id: Seq<u8>) -> Option<V>
    decreases s.len(),
{
    if s.len() == 0 {
        None
    } else if s.last().0.key_id() == id {
        Some(s.last().1)
    } else {
        lookup(s.drop_last(), id)
    }
}

/// Replacing the last-matching entry `i` rewrites exactly that key's value
/// and leaves every other identity's lookup unchanged.
proof fn lemma_lookup_update<K: TableKey, V>(s: Seq<(K, V)>, i: int, e: (K, V))
    requires
        0 <= i < s.len(),
        s[i].0.key_id() == e.0.key_id(),
        forall|j: int| i < j < s.len() ==> s[j].0.key_id() != e.0.key_id(),
    ensures
        lookup(s.update(i, e), e.0.key_id()) == Some(e.1),
        forall|id: Seq<u8>|
            id != e.0.key_id() ==> #[trigger] lookup(s.update(i, e), id) == lookup(s, id),
    decreases s.len(),
{
    let t = s.update(i, e);
    if i == s.len() - 1 {
        assert(t.last() == e);
        assert(t.drop_last() =~= s.drop_last());
        assert(lookup(t, e.0.key_id()) == Some(e.1));
        assert forall|id: Seq<u8>|
            id != e.0.key_id() implies #[trigger] lookup(t, id) == lookup(s, id) by {
            assert(s.last() == s[i]);
            assert(lookup(t, id) == lookup(t.drop_last(), id));
            assert(lookup(s, id) == lookup(s.drop_last(), id));
        }
    } else {
        assert(t.last() == s.last());
        assert(s.last().0.key_id() != e.0.key_id());
        assert(t.drop_last() =~= s.drop_last().update(i, e));
        lemma_lookup_update(s.drop_last(), i, e);
        assert(lookup(t, e.0.key_id()) == lookup(t.drop_last(), e.0.key_id()));
        assert forall|id: Seq<u8>|
            id != e.0.key_id() implies #[trigger] lookup(t, id) == lookup(s, id) by {
            if s.last().0.key_id() == id {
                assert(lookup(t, id) == Some(t.last().1));
                assert(lookup(s, id) == Some(s.last().1));
            } else {
                assert(lookup(t, id) == lookup(t.drop_last(), id));
                assert(lookup(s, id) == lookup(s.drop_last(), id));
                assert(lookup(t.drop_last(), id) == lookup(s.drop_last(), id));
            }
        }
    }
}

/// When entry `i` is the last one matching `id`, lookup returns its value.
proof fn lemma_lookup_at_match<K: TableKey, V>(s: Seq<(K, V)>, i: int, id: Seq<u8>)
    requires
        0 <= i < s.len(),
        s[i].0.key_id() == id,
        forall|j: int| i < j < s.len() ==> s[j].0.key_id() != id,
    ensures
        lookup(s, id) == Some(s[i].1),
    decreases s.len(),
{
    if i == s.len() - 1 {
    } else {
        assert(s.last().0.key_id() != id);
        lemma_lookup_at_match(s.drop_last(), i, id);
    }
}

/// When no entry matches `id`, lookup finds nothing.
proof fn lemma_lookup_none<K: TableKey, V>(s: Seq<(K, V)>, id: Seq<u8>)
    requires
        forall|j: int| 0 <= j < s.len() ==> s[j].0.key_id() != id,
    ensures
        lookup(s, id) is None,
    decreases s.len(),
{
    if s.len() > 0 {
        lemma_lookup_none(s.drop_last(), id);
    }
}

/// An association table stored as a vector of entries whose key
/// identities are pairwise distinct.
pub struct AssocMap<K, V> {
    pub entries: Vec<(K, V)>,
}

impl<K: TableKey, V> AssocMap<K, V> {
    /// Key identities are pairwise distinct.
    pub open spec fn wf(&self) -> bool {
        forall|i: int, j: int|
            0 <= i < j < self.entries@.len() ==> self.entries@[i].0.key_id()
                != self.entries@[j].0.key_id()
    }

    /// The value recorded for `id`, if any.
    pub open spec fn spec_get(&self, id: Seq<u8>) -> Option<V> {
        lookup(self.entries@, id)
    }

    pub fn new() -> (r: AssocMap<K, V>)
        ensures
            r.wf(),
            r.entries@.len() == 0,
            forall|id: Seq<u8>| #[trigger] lookup(r.entries@, id) is None,
    {
        let r = AssocMap::<K, V> { entries: Vec::new() };
        proof {
            assert forall|id: Seq<u8>| #[trigger] lookup(r.entries@, id) is None by {
                assert(r.entries@.len() == 0);
            }
        }
        r
    }

    /// Looks the key up; `None` means the table holds no entry for it.
    pub fn get<'a>(&'a self, key: &K) -> (res: Option<&'a V>)
        ensures
            match res {
                Some(v) => lookup(self.entries@, key.key_id()) == Some(*v),
                None => lookup(self.entries@, key.key_id()) is None,
            },
    {
        let ghost s = self.entries@;
        let ghost id = key.key_id();
        let mut i: usize = self.entries.len();
        proof {
            assert(s.take(i as int) =~= s);
        }
        while i > 0
            invariant
                i <= self.entries.len(),
                s == self.entries@,
                id == key.key_id(),
                lookup(s, id) == lookup(s.take(i as int), id),
            decreases i,
        {
            i = i - 1;
            proof {
                assert(s.take(i as int + 1).last() == s[i as int]);
                assert(s.take(i as int + 1).drop_last() =~= s.take(i as int));
            }
            let e = &self.entries[i];
            if e.0.key_eq(key) {
                return Some(&e.1);
            }
        }
        proof {
            assert(s.take(0) =~= Seq::<(K, V)>::empty());
        }
        None
    }

    /// Inserts or overwrites the entry for `key`; every other identity's
    /// lookup is untouched.
    pub fn set(&mut self, key: K, value: V)
        requires
            old(self).wf(),
        ensures
            final(self).wf(),
            lookup(final(self).entries@, key.key_id()) == Some(value),
            forall|id: Seq<u8>|
                id != key.key_id() ==> #[trigger] lookup(final(self).entries@, id) == lookup(
                    old(self).entries@,
                    id,
                ),
            final(self).entries@.len() <= old(self).entries@.len() + 1,
            (exists|i: int|
                0 <= i < old(self).entries@.len() && (#[trigger] old(self).entries@[i]).0.key_id()
                    == key.key_id() && lookup(old(self).entries@, key.key_id()) == Some(
                    old(self).entries@[i].1,
                ) && final(self).entries@ == old(self).entries@.update(i, (key, value))) || (lookup(
                old(self).entries@,
                key.key_id(),
            ) is None && final(self).entries@ == old(self).entries@.push((key, value))),
    {
        let ghost s0 = self.entries@;
        let ghost kid = key.key_id();
        let ghost gkey = key;
        let ghost gvalue = value;
        let mut i: usize = self.entries.len();
        while i > 0
            invariant
                i <= self.entries.len(),
                s0 == self.entries@,
                kid == key.key_id(),
                gkey == key,
                gvalue == value,
                forall|j: int| i <= j < s0.len() ==> s0[j].0.key_id() != kid,
                old(self).wf(),
                self.wf(),
                old(self).entries@ == s0,
            decreases i,
        {
            i = i - 1;
            let hit = self.entries[i].0.key_eq(&key);
            if hit {
                let slot = vstd::std_specs::vec::vec_index_mut(&mut self.entries, i);
                *slot = (key, value);
                proof {
                    assert(self.entries@ == s0.update(i as int, (gkey, gvalue)));
                    lemma_lookup_update(s0, i as int, (gkey, gvalue));
                    lemma_lookup_at_match(s0, i as int, kid);
                    assert forall|a: int, b: int|
                        0 <= a < b < self.entries@.len() implies self.entries@[a].0.key_id()
                        != self.entries@[b].0.key_id() by {
                        assert(s0[a].0.key_id() != s0[b].0.key_id());
                        assert(self.entries@[a].0.key_id() == if a == i as int {
                            kid
                        } else {
                            s0[a].0.key_id()
                        });
                        assert(self.entries@[b].0.key_id() == if b == i as int {
                            kid
                        } else {
                            s0[b].0.key_id()
                        });
                    }
                }
                return ;
            }
        }
        self.entries.push((key, value));
        proof {
            lemma_lookup_none(s0, kid);
            assert(self.entries@.last() == (gkey, gvalue));
            assert(self.entries@.drop_last() =~= s0);
            assert(lookup(self.entries@, kid) == Some(gvalue));
            assert forall|id: Seq<u8>|
                id != kid implies #[trigger] lookup(self.entries@, id) == lookup(s0, id) by {
                assert(lookup(self.entries@, id) == lookup(self.entries@.drop_last(), id));
            }
            assert forall|a: int, b: int|
                0 <= a < b < self.entries@.len() implies self.entries@[a].0.key_id()
                != self.entries@[b].0.key_id() by {
                if b == self.entries@.len() - 1 {
                    assert(self.entries@[a].0.key_id() == s0[a].0.key_id());
                    assert(s0[a].0.key_id() != kid);
                } else {
                    assert(s0[a].0.key_id() != s0[b].0.key_id());
                }
            }
        }
    }
}

} // verus!
