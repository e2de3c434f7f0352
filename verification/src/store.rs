//! A keyed store of short-lived records.
//!
//! Each record carries the moment it was written; a periodic sweep evicts
//! every record older than a caller-chosen bound. Writing a key that is
//! already present supersedes the old record. The store is viewed as a map
//! from key to a pair of write-time and payload.

use vstd::prelude::*;

verus! {

struct Entry<V> {
    key: String,
    created: i64,
    value: V,
}

/// Keyed store of records with their write times; the view is a map from
/// key to `(created, value)`.
pub struct VolatileRecordStore<V> {
    entries: Vec<Entry<V>>,
}

spec fn is_fresh<V>(e: Entry<V>, now: i64, max_age: i64) -> bool {
    now - e.created <= max_age
}

spec fn keys_unique<V>(s: Seq<Entry<V>>) -> bool {
    forall|i: int, j: int| 0 <= i < j < s.len() ==> s[i].key@ != s[j].key@
}

spec fn entries_map<V>(s: Seq<Entry<V>>) -> Map<Seq<char>, (i64, V)>
    decreases s.len(),
{
    if s.len() == 0 {
        Map::empty()
    } else {
        entries_map(s.drop_last()).insert(s.last().key@, (s.last().created, s.last().value))
    }
}

proof fn lemma_entries_map_index<V>(s: Seq<Entry<V>>, i: int)
    requires
        keys_unique(s),
        0 <= i < s.len(),
    ensures
        entries_map(s).contains_key(s[i].key@),
        entries_map(s)[s[i].key@] == (s[i].created, s[i].value),
    decreases s.len(),
{
    if i == s.len() - 1 {
    } else {
        lemma_entries_map_index(s.drop_last(), i);
        assert(s.drop_last()[i] == s[i]);
    }
}

proof fn lemma_entries_map_domain<V>(s: Seq<Entry<V>>, k: Seq<char>)
    requires
        entries_map(s).contains_key(k),
    ensures
        exists|i: int| 0 <= i < s.len() && s[i].key@ == k,
    decreases s.len(),
{
    if s.len() == 0 {
    } else {
        if s.last().key@ == k {
            assert(s[s.len() - 1].key@ == k);
        } else {
            lemma_entries_map_domain(s.drop_last(), k);
            let i = choose|i: int| 0 <= i < s.drop_last().len() && s.drop_last()[i].key@ == k;
            assert(s[i].key@ == k);
        }
    }
}

proof fn lemma_entries_map_update<V>(s: Seq<Entry<V>>, i: int, e: Entry<V>)
    requires
        keys_unique(s),
        0 <= i < s.len(),
        e.key@ == s[i].key@,
    ensures
        keys_unique(s.update(i, e)),
        entries_map(s.update(i, e)) =~= entries_map(s).insert(e.key@, (e.created, e.value)),
    decreases s.len(),
{
    let su = s.update(i, e);
    assert forall|p: int, q: int| 0 <= p < q < su.len() implies su[p].key@ != su[q].key@ by {
        assert(s[p].key@ != s[q].key@);
    }
    if i == s.len() - 1 {
        assert(su.drop_last() =~= s.drop_last());
        assert(su.last() == e);
    } else {
        lemma_entries_map_update(s.drop_last(), i, e);
        assert(su.drop_last() =~= s.drop_last().update(i, e));
        assert(su.last() == s.last());
        assert(s.last().key@ != e.key@);
    }
}

proof fn lemma_entries_map_push_fresh<V>(s: Seq<Entry<V>>, e: Entry<V>)
    requires
        keys_unique(s),
        forall|i: int| 0 <= i < s.len() ==> s[i].key@ != e.key@,
    ensures
        keys_unique(s.push(e)),
        entries_map(s.push(e)) == entries_map(s).insert(e.key@, (e.created, e.value)),
{
    let sp = s.push(e);
    assert forall|p: int, q: int| 0 <= p < q < sp.len() implies sp[p].key@ != sp[q].key@ by {
        if q < s.len() {
            assert(s[p].key@ != s[q].key@);
        }
    }
    assert(sp.drop_last() =~= s);
    assert(sp.last() == e);
}

proof fn lemma_entries_map_remove<V>(s: Seq<Entry<V>>, i: int)
    requires
        keys_unique(s),
        0 <= i < s.len(),
    ensures
        keys_unique(s.remove(i)),
        entries_map(s.remove(i)) =~= entries_map(s).remove(s[i].key@),
    decreases s.len(),
{
    let sr = s.remove(i);
    assert forall|p: int, q: int| 0 <= p < q < sr.len() implies sr[p].key@ != sr[q].key@ by {
        let p0 = if p < i { p } else { p + 1 };
        let q0 = if q < i { q } else { q + 1 };
        assert(sr[p] == s[p0]);
        assert(sr[q] == s[q0]);
        assert(s[p0].key@ != s[q0].key@);
    }
    if i == s.len() - 1 {
        assert(sr =~= s.drop_last());
        assert forall|j: int| 0 <= j < s.drop_last().len() implies s.drop_last()[j].key@ != s[i].key@ by {
            assert(s[j].key@ != s[i].key@);
        }
        if entries_map(s.drop_last()).contains_key(s[i].key@) {
            lemma_entries_map_domain(s.drop_last(), s[i].key@);
        }
        assert(entries_map(s.drop_last()) =~= entries_map(s).remove(s[i].key@));
    } else {
        lemma_entries_map_remove(s.drop_last(), i);
        assert(sr.drop_last() =~= s.drop_last().remove(i));
        assert(sr.last() == s.last());
        assert(s.last().key@ != s[i].key@);
        assert(entries_map(sr) =~= entries_map(s).remove(s[i].key@));
    }
}

spec fn sweep_seq<V>(s: Seq<Entry<V>>, now: i64, max_age: i64) -> Seq<Entry<V>>
    decreases s.len(),
{
    if s.len() == 0 {
        Seq::empty()
    } else if is_fresh(s.last(), now, max_age) {
        sweep_seq(s.drop_last(), now, max_age).push(s.last())
    } else {
        sweep_seq(s.drop_last(), now, max_age)
    }
}

proof fn lemma_sweep_seq<V>(s: Seq<Entry<V>>, now: i64, max_age: i64)
    requires
        keys_unique(s),
    ensures
        keys_unique(sweep_seq(s, now, max_age)),
        forall|k: Seq<char>| #[trigger] entries_map(sweep_seq(s, now, max_age)).contains_key(k)
            <==> (entries_map(s).contains_key(k) && now - entries_map(s)[k].0 <= max_age),
        forall|k: Seq<char>| #[trigger] entries_map(sweep_seq(s, now, max_age)).contains_key(k)
            ==> entries_map(sweep_seq(s, now, max_age))[k] == entries_map(s)[k],
    decreases s.len(),
{
    if s.len() == 0 {
    } else {
        let dl = s.drop_last();
        let last = s.last();
        lemma_sweep_seq(dl, now, max_age);
        let sw = sweep_seq(s, now, max_age);
        let swdl = sweep_seq(dl, now, max_age);
        assert forall|j: int| 0 <= j < swdl.len() implies swdl[j].key@ != last.key@ by {
            lemma_entries_map_index(swdl, j);
            lemma_entries_map_domain(dl, swdl[j].key@);
            let i = choose|i: int| 0 <= i < dl.len() && dl[i].key@ == swdl[j].key@;
            assert(s[i].key@ != s[s.len() - 1].key@);
        }
        if entries_map(dl).contains_key(last.key@) {
            lemma_entries_map_domain(dl, last.key@);
            let i = choose|i: int| 0 <= i < dl.len() && dl[i].key@ == last.key@;
            assert(s[i].key@ != s[s.len() - 1].key@);
            assert(false);
        }
        if is_fresh(last, now, max_age) {
            assert(sw.drop_last() =~= swdl);
            assert(sw.last() == last);
            assert forall|p: int, q: int| 0 <= p < q < sw.len() implies sw[p].key@
                != sw[q].key@ by {
                if q < sw.len() - 1 {
                    assert(swdl[p].key@ != swdl[q].key@);
                }
            }
        }
        assert forall|k: Seq<char>| #[trigger]
            entries_map(sw).contains_key(k) <==> (entries_map(s).contains_key(k) && now
                - entries_map(s)[k].0 <= max_age) by {
            if k == last.key@ {
                assert(entries_map(s)[k] == (last.created, last.value));
                if is_fresh(last, now, max_age) {
                    assert(entries_map(sw).contains_key(k));
                } else {
                    if entries_map(sw).contains_key(k) {
                        assert(entries_map(swdl).contains_key(k));
                        assert(entries_map(dl).contains_key(k));
                        assert(false);
                    }
                }
            } else {
                assert(entries_map(sw).contains_key(k) == entries_map(swdl).contains_key(k));
                assert(entries_map(s).contains_key(k) == entries_map(dl).contains_key(k));
                if entries_map(dl).contains_key(k) {
                    assert(entries_map(s)[k] == entries_map(dl)[k]);
                }
            }
        }
        assert forall|k: Seq<char>| #[trigger]
            entries_map(sw).contains_key(k) implies entries_map(sw)[k] == entries_map(s)[k] by {
            if is_fresh(last, now, max_age) {
                if k != last.key@ {
                    assert(entries_map(sw)[k] == entries_map(swdl)[k]);
                    assert(entries_map(s)[k] == entries_map(dl)[k]);
                }
            } else {
                assert(entries_map(swdl).contains_key(k));
                assert(entries_map(dl).contains_key(k));
                assert(k != last.key@);
                assert(entries_map(s)[k] == entries_map(dl)[k]);
            }
        }
    }
}

impl<V> View for VolatileRecordStore<V> {
    type V = Map<Seq<char>, (i64, V)>;

    closed spec fn view(&self) -> Map<Seq<char>, (i64, V)> {
        entries_map(self.entries@)
    }
}

impl<V> VolatileRecordStore<V> {
    /// The store's internal well-formedness: one entry per key.
    pub closed spec fn wf(&self) -> bool {
        keys_unique(self.entries@)
    }

    pub fn new() -> (r: Self)
        ensures
            r.wf(),
            r@ == Map::<Seq<char>, (i64, V)>::empty(),
    {
        let r = VolatileRecordStore { entries: Vec::new() };
        proof {
            assert(r@ =~= Map::<Seq<char>, (i64, V)>::empty());
        }
        r
    }

    /// Number of live records.
    pub closed spec fn spec_len(&self) -> nat {
        self.entries@.len()
    }

    /// The stored keys, in internal order.
    pub closed spec fn key_seq(&self) -> Seq<Seq<char>> {
        Seq::new(self.entries@.len(), |i: int| self.entries@[i].key@)
    }

    pub fn len(&self) -> (r: usize)
        ensures
            r == self.spec_len(),
    {
        self.entries.len()
    }

    /// The record at an internal position: its key, write time and payload.
    pub fn entry_at(&self, i: usize) -> (r: (&String, i64, &V))
        requires
            self.wf(),
            i < self.spec_len(),
        ensures
            r.0@ == self.key_seq()[i as int],
            self@.contains_key(r.0@),
            self@[r.0@] == (r.1, *r.2),
    {
        proof {
            lemma_entries_map_index(self.entries@, i as int);
        }
        let e = &self.entries[i];
        (&e.key, e.created, &e.value)
    }

    /// Every key of the view stands in `key_seq`, exactly once; `key_seq`
    /// holds no key outside the view.
    pub proof fn lemma_keys_cover(&self)
        requires
            self.wf(),
        ensures
            forall|k: Seq<char>| #[trigger] self@.contains_key(k) ==> exists|i: int|
                0 <= i < self.key_seq().len() && self.key_seq()[i] == k,
            forall|i: int, j: int| 0 <= i < j < self.key_seq().len() ==> self.key_seq()[i]
                != self.key_seq()[j],
            forall|i: int| 0 <= i < self.key_seq().len() ==> #[trigger] self@.contains_key(
                self.key_seq()[i],
            ),
            self.key_seq().len() == self.spec_len(),
    {
        assert forall|k: Seq<char>| #[trigger] self@.contains_key(k) implies exists|i: int|
            0 <= i < self.key_seq().len() && self.key_seq()[i] == k by {
            lemma_entries_map_domain(self.entries@, k);
            let i = choose|i: int| 0 <= i < self.entries@.len() && self.entries@[i].key@ == k;
            assert(self.key_seq()[i] == k);
        }
        assert forall|i: int| 0 <= i < self.key_seq().len() implies #[trigger] self@.contains_key(
            self.key_seq()[i],
        ) by {
            lemma_entries_map_index(self.entries@, i);
        }
    }

    /// Writes a record for `key`, superseding any record the key already had.
    pub fn put(&mut self, key: String, value: V, created: i64)
        requires
            old(self).wf(),
        ensures
            final(self).wf(),
            final(self)@ == old(self)@.insert(key@, (created, value)),
    {
        let len = self.entries.len();
        for i in 0..len
            invariant
                len == self.entries.len(),
                keys_unique(self.entries@),
                self.entries@ == old(self).entries@,
                forall|j: int| 0 <= j < i ==> self.entries@[j].key@ != key@,
        {
            if self.entries[i].key == key {
                let e = Entry { key, created, value };
                proof {
                    lemma_entries_map_update(self.entries@, i as int, e);
                }
                self.entries[i] = e;
                return ;
            }
        }
        let e = Entry { key, created, value };
        proof {
            lemma_entries_map_push_fresh(self.entries@, e);
        }
        self.entries.push(e);
    }

    /// Looks a key up, returning the record's write time and payload.
    pub fn get(&self, key: &String) -> (r: Option<(i64, &V)>)
        requires
            self.wf(),
        ensures
            match r {
                Some((c, v)) => self@.contains_key(key@) && c == self@[key@].0 && *v
                    == self@[key@].1,
                None => !self@.contains_key(key@),
            },
    {
        let len = self.entries.len();
        for i in 0..len
            invariant
                len == self.entries.len(),
                keys_unique(self.entries@),
                forall|j: int| 0 <= j < i ==> self.entries@[j].key@ != key@,
        {
            if self.entries[i].key == *key {
                proof {
                    lemma_entries_map_index(self.entries@, i as int);
                }
                return Some((self.entries[i].created, &self.entries[i].value));
            }
        }
        proof {
            if self@.contains_key(key@) {
                lemma_entries_map_domain(self.entries@, key@);
            }
        }
        None
    }

    /// Deletes the record for `key`; absence is a successful no-op.
    pub fn remove(&mut self, key: &String)
        requires
            old(self).wf(),
        ensures
            final(self).wf(),
            final(self)@ == old(self)@.remove(key@),
    {
        let len = self.entries.len();
        for i in 0..len
            invariant
                len == self.entries.len(),
                keys_unique(self.entries@),
                self.entries@ == old(self).entries@,
                forall|j: int| 0 <= j < i ==> self.entries@[j].key@ != key@,
        {
            if self.entries[i].key == *key {
                proof {
                    lemma_entries_map_remove(self.entries@, i as int);
                }
                self.entries.remove(i);
                return ;
            }
        }
        proof {
            if self@.contains_key(key@) {
                lemma_entries_map_domain(self.entries@, key@);
            }
            assert(old(self)@.remove(key@) =~= old(self)@);
        }
    }

    /// Evicts every record strictly older than `max_age` at time `now`;
    /// records whose age is exactly `max_age` stay.
    #[verifier::rlimit(50)]
    pub fn sweep(&mut self, now: i64, max_age: i64)
        requires
            old(self).wf(),
        ensures
            final(self).wf(),
            forall|k: Seq<char>| #[trigger] final(self)@.contains_key(k) <==> (old(
                self,
            )@.contains_key(k) && now - old(self)@[k].0 <= max_age),
            forall|k: Seq<char>| #[trigger] final(self)@.contains_key(k) ==> final(self)@[k]
                == old(self)@[k],
    {
        let ghost orig: Seq<Entry<V>> = self.entries@;
        let ghost mut done: int = 0;
        let mut kept: Vec<Entry<V>> = Vec::new();
        while self.entries.len() > 0
            invariant
                keys_unique(orig),
                0 <= done <= orig.len(),
                done + self.entries@.len() == orig.len(),
                self.entries@ == orig.subrange(done, orig.len() as int),
                kept@ == sweep_seq(orig.subrange(0, done), now, max_age),
            decreases self.entries@.len(),
        {
            let e = self.entries.remove(0);
            proof {
                assert(e == orig[done]);
                assert(self.entries@ =~= orig.subrange(done + 1, orig.len() as int));
            }
            let fresh = match now.checked_sub(e.created) {
                Some(age) => age <= max_age,
                None => now < e.created,
            };
            proof {
                assert(fresh == is_fresh(e, now, max_age));
                assert(orig.subrange(0, done + 1).drop_last() =~= orig.subrange(0, done));
                assert(orig.subrange(0, done + 1).last() == orig[done]);
            }
            if fresh {
                kept.push(e);
            }
            proof {
                done = done + 1;
                assert(kept@ == sweep_seq(orig.subrange(0, done), now, max_age));
            }
        }
        proof {
            assert(orig.subrange(0, orig.len() as int) =~= orig);
            lemma_sweep_seq(orig, now, max_age);
        }
        self.entries = kept;
    }
}

} // verus!
