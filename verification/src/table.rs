//! A table from names to values that keeps its entries in insertion order.
use vstd::prelude::*;

use crate::text::chars_eq;
use crate::text::chars_of;

verus! {

/// The map that a list of (key, value) entries denotes; a later entry for a key
/// replaces an earlier one.
pub open spec fn entries_map<V>(s: Seq<(Seq<char>, V)>) -> Map<Seq<char>, V>
    decreases s.len(),
{
    if s.len() == 0 {
        Map::empty()
    } else {
        entries_map(s.drop_last()).insert(s.last().0, s.last().1)
    }
}

/// No key occurs twice.
pub open spec fn distinct_keys<V>(s: Seq<(Seq<char>, V)>) -> bool {
    forall|i: int, j: int| 0 <= i < j < s.len() ==> s[i].0 != s[j].0
}

/// Position of `k` among the keys, or -1.
pub open spec fn key_index<V>(s: Seq<(Seq<char>, V)>, k: Seq<char>) -> int
    decreases s.len(),
{
    if s.len() == 0 {
        -1
    } else if s.last().0 == k {
        s.len() - 1
    } else {
        key_index(s.drop_last(), k)
    }
}

pub proof fn lemma_key_index<V>(s: Seq<(Seq<char>, V)>, k: Seq<char>)
    requires
        distinct_keys(s),
    ensures
        -1 <= key_index(s, k) < s.len(),
        key_index(s, k) >= 0 ==> s[key_index(s, k)].0 == k,
        key_index(s, k) == -1 <==> (forall|i: int| 0 <= i < s.len() ==> s[i].0 != k),
        forall|i: int| 0 <= i < s.len() && s[i].0 == k ==> i == key_index(s, k),
        entries_map(s).contains_key(k) <==> key_index(s, k) >= 0,
        key_index(s, k) >= 0 ==> entries_map(s)[k] == s[key_index(s, k)].1,
    decreases s.len(),
{
    if s.len() > 0 {
        let t = s.drop_last();
        assert(distinct_keys(t));
        lemma_key_index(t, k);
        if s.last().0 != k {
            assert forall|i: int| 0 <= i < s.len() && s[i].0 == k implies i == key_index(s, k) by {
                assert(i < s.len() - 1);
                assert(t[i] == s[i]);
            }
        }
    }
}

pub proof fn lemma_entries_map_len<V>(s: Seq<(Seq<char>, V)>)
    requires
        distinct_keys(s),
    ensures
        entries_map(s).dom().finite(),
        entries_map(s).dom().len() == s.len(),
    decreases s.len(),
{
    if s.len() > 0 {
        let t = s.drop_last();
        assert(distinct_keys(t));
        lemma_entries_map_len(t);
        lemma_key_index(t, s.last().0);
        assert forall|i: int| 0 <= i < t.len() implies t[i].0 != s.last().0 by {
            assert(t[i] == s[i]);
        }
    }
}

/// Table from names to values, without duplicate names, in insertion order.
#[derive(Debug)]
pub struct NameTable<V> {
    entries: Vec<(String, V)>,
}

impl<V> NameTable<V> {
    /// The entries as (name, value) pairs, in insertion order.
    pub closed spec fn spec_entries(self) -> Seq<(Seq<char>, V)> {
        self.entries@.map_values(|e: (String, V)| (e.0@, e.1))
    }

    /// No name occurs twice.
    pub open spec fn wf(self) -> bool {
        distinct_keys(self.spec_entries())
    }

    #[verifier::type_invariant]
    closed spec fn inv(self) -> bool {
        distinct_keys(self.spec_entries())
    }

    /// An empty table.
    pub fn new() -> (t: Self)
        ensures
            t.spec_entries() == Seq::<(Seq<char>, V)>::empty(),
            t@ == Map::<Seq<char>, V>::empty(),
            t.wf(),
    {
        let t = NameTable { entries: Vec::new() };
        assert(t.spec_entries() =~= Seq::<(Seq<char>, V)>::empty());
        t
    }

    /// The table holds no invalid state.
    pub fn check_wf(&self)
        ensures
            self.wf(),
    {
        proof {
            use_type_invariant(self);
        }
    }

    /// Number of names in the table.
    pub fn len(&self) -> (n: usize)
        ensures
            n == self.spec_entries().len(),
            n == self@.dom().len(),
            self@.dom().finite(),
            self.wf(),
    {
        proof {
            use_type_invariant(self);
            lemma_entries_map_len(self.spec_entries());
        }
        self.entries.len()
    }

    pub fn is_empty(&self) -> (b: bool)
        ensures
            b == (self@.dom().len() == 0),
            b == (self.spec_entries().len() == 0),
    {
        self.len() == 0
    }

    /// The entry at position `i`.
    pub fn entry_at(&self, i: usize) -> (r: (&String, &V))
        requires
            i < self.spec_entries().len(),
        ensures
            r.0@ == self.spec_entries()[i as int].0,
            *r.1 == self.spec_entries()[i as int].1,
    {
        let e = &self.entries[i];
        (&e.0, &e.1)
    }

    /// Position of `key` in the table.
    pub fn index_of(&self, key: &str) -> (r: Option<usize>)
        ensures
            match r {
                Some(i) => i as int == key_index(self.spec_entries(), key@),
                None => key_index(self.spec_entries(), key@) == -1,
            },
            self.wf(),
    {
        proof {
            use_type_invariant(self);
            lemma_key_index(self.spec_entries(), key@);
        }
        let k = chars_of(key);
        let mut i: usize = 0;
        while i < self.entries.len()
            invariant
                i <= self.entries@.len(),
                forall|j: int| 0 <= j < i ==> self.spec_entries()[j].0 != key@,
                k@ == key@,
                distinct_keys(self.spec_entries()),
            decreases self.entries@.len() - i,
        {
            let name = chars_of(self.entries[i].0.as_str());
            if chars_eq(name.as_slice(), k.as_slice()) {
                proof {
                    lemma_key_index(self.spec_entries(), key@);
                    assert(self.spec_entries()[i as int].0 == key@);
                }
                return Some(i);
            }
            i = i + 1;
        }
        None
    }

    /// Whether `key` is in the table.
    pub fn contains_key(&self, key: &str) -> (b: bool)
        ensures
            b == self@.contains_key(key@),
    {
        proof {
            use_type_invariant(self);
            lemma_key_index(self.spec_entries(), key@);
        }
        match self.index_of(key) {
            Some(_) => true,
            None => false,
        }
    }

    /// The value stored under `key`.
    pub fn get(&self, key: &str) -> (r: Option<&V>)
        ensures
            match r {
                Some(v) => self@.contains_key(key@) && *v == self@[key@],
                None => !self@.contains_key(key@),
            },
    {
        proof {
            use_type_invariant(self);
            lemma_key_index(self.spec_entries(), key@);
        }
        match self.index_of(key) {
            Some(i) => Some(&self.entries[i].1),
            None => None,
        }
    }

    /// Stores `value` under `key`, replacing the value held there if any; a new
    /// name goes to the end.
    pub fn insert(&mut self, key: String, value: V)
        ensures
            final(self)@ == old(self)@.insert(key@, value),
            final(self).wf(),
            old(self)@.contains_key(key@) ==> final(self).spec_entries() == old(
                self,
            ).spec_entries().update(key_index(old(self).spec_entries(), key@), (key@, value)),
            !old(self)@.contains_key(key@) ==> final(self).spec_entries() == old(
                self,
            ).spec_entries().push((key@, value)),
    {
        proof {
            use_type_invariant(&*self);
            lemma_key_index(self.spec_entries(), key@);
        }
        let ghost old_entries = self.spec_entries();
        let idx = self.index_of(key.as_str());
        let mut entries = Vec::new();
        std::mem::swap(&mut entries, &mut self.entries);
        match idx {
            Some(i) => {
                entries.set(i, (key, value));
            },
            None => {
                entries.push((key, value));
            },
        }
        let ghost new_entries = entries@.map_values(|e: (String, V)| (e.0@, e.1));
        proof {
            match idx {
                Some(i) => {
                    assert(new_entries =~= old_entries.update(i as int, (key@, value)));
                    assert(distinct_keys(new_entries));
                    assert(entries_map(new_entries) =~= entries_map(old_entries).insert(
                        key@,
                        value,
                    )) by {
                        lemma_key_index(new_entries, key@);
                        assert forall|k: Seq<char>|
                            entries_map(new_entries).contains_key(k) <==> entries_map(
                                old_entries,
                            ).insert(key@, value).contains_key(k) by {
                            lemma_key_index(new_entries, k);
                            lemma_key_index(old_entries, k);
                            if k == key@ {
                                assert(new_entries[i as int].0 == key@);
                            }
                            if k != key@ && key_index(old_entries, k) >= 0 {
                                assert(new_entries[key_index(old_entries, k)].0 == k);
                            }
                            if k != key@ && key_index(new_entries, k) >= 0 {
                                assert(old_entries[key_index(new_entries, k)].0 == k);
                            }
                        }
                        assert forall|k: Seq<char>| #[trigger]
                            entries_map(new_entries).contains_key(k) implies entries_map(
                                new_entries,
                            )[k] == entries_map(old_entries).insert(key@, value)[k] by {
                            lemma_key_index(new_entries, k);
                            lemma_key_index(old_entries, k);
                            if k != key@ {
                                assert(old_entries[key_index(new_entries, k)].0 == k);
                            }
                        }
                    }
                },
                None => {
                    assert(new_entries =~= old_entries.push((key@, value)));
                    assert forall|a: int, b: int| 0 <= a < b < new_entries.len() implies new_entries[a].0
                        != new_entries[b].0 by {
                        if b == new_entries.len() - 1 {
                            assert(old_entries[a] == new_entries[a]);
                        }
                    }
                    assert(new_entries.drop_last() =~= old_entries);
                },
            }
        }
        self.entries = entries;
    }

    /// Removes `key` and gives back its value; the other entries keep their
    /// order.
    pub fn remove(&mut self, key: &str) -> (r: Option<V>)
        ensures
            final(self)@ == old(self)@.remove(key@),
            final(self).wf(),
            match r {
                Some(v) => old(self)@.contains_key(key@) && v == old(self)@[key@]
                    && final(self).spec_entries() == old(self).spec_entries().remove(
                    key_index(old(self).spec_entries(), key@),
                ),
                None => !old(self)@.contains_key(key@) && final(self).spec_entries() == old(
                    self,
                ).spec_entries(),
            },
    {
        proof {
            use_type_invariant(&*self);
            lemma_key_index(self.spec_entries(), key@);
        }
        let ghost old_entries = self.spec_entries();
        match self.index_of(key) {
            None => {
                assert(self@ =~= self@.remove(key@));
                None
            },
            Some(i) => {
                let mut entries = Vec::new();
                std::mem::swap(&mut entries, &mut self.entries);
                let (_, v) = entries.remove(i);
                let ghost new_entries = entries@.map_values(|e: (String, V)| (e.0@, e.1));
                proof {
                    assert(new_entries =~= old_entries.remove(i as int));
                    assert forall|a: int, b: int| 0 <= a < b < new_entries.len() implies new_entries[a].0
                        != new_entries[b].0 by {
                        let oa = if a < i { a } else { a + 1 };
                        let ob = if b < i { b } else { b + 1 };
                        assert(new_entries[a] == old_entries[oa]);
                        assert(new_entries[b] == old_entries[ob]);
                    }
                    assert forall|k: Seq<char>| #[trigger]
                        entries_map(new_entries).contains_key(k) <==> entries_map(old_entries).remove(
                            key@,
                        ).contains_key(k) by {
                        lemma_key_index(new_entries, k);
                        lemma_key_index(old_entries, k);
                        if key_index(new_entries, k) >= 0 {
                            let x = key_index(new_entries, k);
                            let ox = if x < i { x } else { x + 1 };
                            assert(new_entries[x] == old_entries[ox]);
                            assert(ox != i);
                        }
                        if k != key@ && key_index(old_entries, k) >= 0 {
                            let ox = key_index(old_entries, k);
                            assert(ox != i);
                            let x = if ox < i { ox } else { ox - 1 };
                            assert(new_entries[x] == old_entries[ox]);
                        }
                    }
                    assert forall|k: Seq<char>| #[trigger]
                        entries_map(new_entries).contains_key(k) implies entries_map(new_entries)[k]
                        == entries_map(old_entries)[k] by {
                        lemma_key_index(new_entries, k);
                        lemma_key_index(old_entries, k);
                        let x = key_index(new_entries, k);
                        let ox = if x < i { x } else { x + 1 };
                        assert(new_entries[x] == old_entries[ox]);
                    }
                    assert(entries_map(new_entries) =~= entries_map(old_entries).remove(key@));
                }
                self.entries = entries;
                Some(v)
            },
        }
    }

    /// Removes every entry.
    pub fn clear(&mut self)
        ensures
            final(self)@ == Map::<Seq<char>, V>::empty(),
            final(self).spec_entries() == Seq::<(Seq<char>, V)>::empty(),
            final(self).wf(),
    {
        let mut entries = Vec::new();
        std::mem::swap(&mut entries, &mut self.entries);
        entries.clear();
        proof {
            assert(entries@.map_values(|e: (String, V)| (e.0@, e.1)) =~= Seq::<
                (Seq<char>, V),
            >::empty());
        }
        self.entries = entries;
    }
}

impl<V: Clone> Clone for NameTable<V> {
    /// A copy with the same names in the same order; each value is a clone of the
    /// value it copies.
    fn clone(&self) -> (res: Self)
        ensures
            res.spec_entries().len() == self.spec_entries().len(),
            forall|i: int|
                0 <= i < self.spec_entries().len() ==> (#[trigger] res.spec_entries()[i]).0
                    == self.spec_entries()[i].0 && cloned(
                    self.spec_entries()[i].1,
                    res.spec_entries()[i].1,
                ),
    {
        proof {
            use_type_invariant(self);
        }
        let mut entries: Vec<(String, V)> = Vec::new();
        let mut i: usize = 0;
        while i < self.entries.len()
            invariant
                i <= self.entries@.len(),
                entries@.len() == i,
                distinct_keys(self.spec_entries()),
                forall|j: int|
                    0 <= j < i ==> (#[trigger] entries@[j]).0@ == self.entries@[j].0@ && cloned(
                        self.entries@[j].1,
                        entries@[j].1,
                    ),
            decreases self.entries@.len() - i,
        {
            let e = &self.entries[i];
            let k = e.0.clone();
            let v = e.1.clone();
            entries.push((k, v));
            i = i + 1;
        }
        let ghost copied = entries@.map_values(|e: (String, V)| (e.0@, e.1));
        proof {
            assert forall|a: int, b: int| 0 <= a < b < copied.len() implies copied[a].0
                != copied[b].0 by {
                assert(copied[a].0 == self.spec_entries()[a].0);
                assert(copied[b].0 == self.spec_entries()[b].0);
            }
        }
        NameTable { entries }
    }
}

impl<V> View for NameTable<V> {
    type V = Map<Seq<char>, V>;

    open spec fn view(&self) -> Map<Seq<char>, V> {
        entries_map(self.spec_entries())
    }
}

impl<T> NameTable<Vec<T>> {
    /// Appends `item` to the list stored under `key`, starting an empty list for a
    /// new name (`entry(key).or_insert_with(Vec::new).push(item)`).
    pub fn push_to(&mut self, key: String, item: T)
        ensures
            final(self)@.dom() == old(self)@.dom().insert(key@),
            final(self)@[key@]@ == (if old(self)@.contains_key(key@) {
                old(self)@[key@]@
            } else {
                Seq::<T>::empty()
            }).push(item),
            forall|k: Seq<char>|
                k != key@ && #[trigger] old(self)@.contains_key(k) ==> final(self)@[k] == old(
                    self,
                )@[k],
            final(self).wf(),
            old(self)@.contains_key(key@) ==> final(self).spec_entries() == old(
                self,
            ).spec_entries().update(
                key_index(old(self).spec_entries(), key@),
                (key@, final(self)@[key@]),
            ),
            !old(self)@.contains_key(key@) ==> final(self).spec_entries() == old(
                self,
            ).spec_entries().push((key@, final(self)@[key@])),
    {
        proof {
            use_type_invariant(&*self);
            lemma_key_index(self.spec_entries(), key@);
        }
        let idx = self.index_of(key.as_str());
        match idx {
            Some(i) => {
                let mut entries = Vec::new();
                std::mem::swap(&mut entries, &mut self.entries);
                let (k, mut list) = entries.remove(i);
                let ghost old_list = list@;
                list.push(item);
                entries.insert(i, (k, list));
                proof {
                    assert(k@ == key@);
                }
                let ghost updated = entries@.map_values(|e: (String, Vec<T>)| (e.0@, e.1));
                proof {
                    let old_e = old(self).spec_entries();
                    assert(updated =~= old_e.update(i as int, (key@, updated[i as int].1)));
                    assert(distinct_keys(updated)) by {
                        assert forall|a: int, b: int| 0 <= a < b < updated.len() implies updated[a].0
                            != updated[b].0 by {
                            assert(updated[a].0 == old_e[a].0);
                            assert(updated[b].0 == old_e[b].0);
                        }
                    }
                    assert forall|kk: Seq<char>|
                        #![auto]
                        entries_map(updated).contains_key(kk) <==> entries_map(
                            old_e,
                        ).contains_key(kk) by {
                        lemma_key_index(updated, kk);
                        lemma_key_index(old_e, kk);
                        if key_index(old_e, kk) >= 0 {
                            assert(updated[key_index(old_e, kk)].0 == kk);
                        }
                        if key_index(updated, kk) >= 0 {
                            assert(old_e[key_index(updated, kk)].0 == kk);
                        }
                    }
                    assert(entries_map(updated).dom() =~= entries_map(old_e).dom().insert(key@));
                    lemma_key_index(updated, key@);
                    lemma_key_index(old_e, key@);
                    assert forall|kk: Seq<char>|
                        kk != key@ && #[trigger] entries_map(old_e).contains_key(kk) implies entries_map(
                            updated,
                        )[kk] == entries_map(old_e)[kk] by {
                        lemma_key_index(updated, kk);
                        lemma_key_index(old_e, kk);
                        assert(updated[key_index(old_e, kk)].0 == kk);
                    }
                }
                self.entries = entries;
            },
            None => {
                let mut list = Vec::new();
                list.push(item);
                self.insert(key, list);
                proof {
                    assert(final(self)@[key@]@ == Seq::<T>::empty().push(item));
                }
            },
        }
    }
}

/// A table reads back what was written: after `insert(k, v)` the name `k`
/// gives `v` and every other name gives what it gave before; after
/// `remove(k)` the name `k` is absent and every other name is unchanged; after
/// `clear` no name is present.
pub proof fn lemma_write_then_read<V>(t: NameTable<V>, k: Seq<char>, other: Seq<char>, v: V)
    ensures
        t@.insert(k, v).contains_key(k) && t@.insert(k, v)[k] == v,
        !t@.remove(k).contains_key(k),
        other != k ==> (t@.insert(k, v).contains_key(other) == t@.contains_key(other)
            && t@.remove(k).contains_key(other) == t@.contains_key(other)),
        other != k && t@.contains_key(other) ==> t@.insert(k, v)[other] == t@[other] && t@.remove(
            k,
        )[other] == t@[other],
        !Map::<Seq<char>, V>::empty().contains_key(other),
{
}

} // verus!
