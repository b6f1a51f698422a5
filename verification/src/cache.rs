//! The memo table: one entry per derived key, found by its key.

use std::collections::HashMap;
use vstd::prelude::*;
use vstd::relations::injective_on;
use vstd::set_lib::lemma_map_size;
use vstd::std_specs::iter::IteratorSpec;
use crate::pass::QueryKey;

verus! {

broadcast use vstd::std_specs::hash::group_hash_axioms;

/// One recorded read of a run: the key read, and the stamp of the value that
/// answered it. No stamp stands for the empty text: the file was absent, or
/// the read was not allowed.
#[derive(Clone, Copy, Debug)]
pub struct Dep {
    pub key: QueryKey,
    pub stamp: Option<u64>,
}

/// A memoized value with what is needed to revalidate it.
#[derive(Debug)]
pub struct Entry {
    /// The key that the value belongs to.
    pub key: QueryKey,
    /// The value that the last run yielded.
    pub value: String,
    /// The revision at which the value was last known to be current.
    pub verified_at: u64,
    /// The revision at which the value last became what it is.
    pub changed_at: u64,
    /// What the last run read, in the order in which it read it.
    pub deps: Vec<Dep>,
    /// The value rests on library files alone, which never change.
    pub durable: bool,
}

/// Mathematical model of an [`Entry`].
pub struct EntryModel {
    pub value: Seq<char>,
    pub verified_at: u64,
    pub changed_at: u64,
    pub deps: Seq<Dep>,
    pub durable: bool,
}

impl View for Entry {
    type V = EntryModel;

    open spec fn view(&self) -> EntryModel {
        EntryModel {
            value: self.value@,
            verified_at: self.verified_at,
            changed_at: self.changed_at,
            deps: self.deps@,
            durable: self.durable,
        }
    }
}

/// The memo table. Its view is the map from each key that has an entry to
/// the entry's model.
pub struct Cache {
    map: HashMap<u128, Entry>,
}

/// The number under which the entry of `key` is stored: the function in the
/// high bits, the argument in the low 64.
pub open spec fn code_of(key: QueryKey) -> u128 {
    (key.func * 0x1_0000_0000_0000_0000 + key.arg) as u128
}

/// Two keys with one code are one key.
pub proof fn lemma_code_injective(a: QueryKey, b: QueryKey)
    requires
        code_of(a) == code_of(b),
    ensures
        a == b,
{
}

/// The number under which the entry of `key` is stored.
fn code(key: QueryKey) -> (c: u128)
    ensures
        c == code_of(key),
{
    (key.func as u128) * 0x1_0000_0000_0000_0000u128 + (key.arg as u128)
}

/// What a sweep at `rev` leaves of a table: the entries verified at `rev`.
pub open spec fn swept(table: Map<QueryKey, EntryModel>, rev: u64) -> Map<QueryKey, EntryModel> {
    Map::new(
        |key: QueryKey| table.contains_key(key) && table[key].verified_at == rev,
        |key: QueryKey| table[key],
    )
}

impl Cache {
    /// Each entry is stored under the code of its key.
    pub closed spec fn wf(&self) -> bool {
        forall|c: u128| #[trigger] self.map@.contains_key(c) ==> code_of(self.map@[c].key) == c
    }

    /// The table as a map from key to entry.
    pub closed spec fn view(&self) -> Map<QueryKey, EntryModel> {
        Map::new(
            |key: QueryKey| self.map@.contains_key(code_of(key)),
            |key: QueryKey| self.map@[code_of(key)]@,
        )
    }

    /// The number of entries.
    pub closed spec fn count(&self) -> nat {
        self.map@.len()
    }

    /// The number of entries is the number of keys of the table.
    pub proof fn lemma_count(&self)
        requires
            self.wf(),
        ensures
            self@.dom().finite(),
            self.count() == self@.dom().len(),
    {
        let codes = self.map@.dom();
        let key_at = |c: u128| self.map@[c].key;
        assert(injective_on(key_at, codes)) by {
            assert forall|a: u128, b: u128|
                codes.contains(a) && codes.contains(b) && #[trigger] key_at(a) == #[trigger] key_at(
                    b,
                ) implies a == b by {
                assert(self.map@.contains_key(a) && self.map@.contains_key(b));
            }
        }
        assert forall|k: QueryKey| codes.map(key_at).contains(k) <==> self@.dom().contains(k) by {
            if codes.map(key_at).contains(k) {
                let c = choose|c: u128| codes.contains(c) && key_at(c) == k;
                assert(self.map@.contains_key(c));
            }
            if self@.dom().contains(k) {
                let c = code_of(k);
                assert(self.map@.contains_key(c));
                lemma_code_injective(key_at(c), k);
                assert(codes.contains(c) && key_at(c) == k);
            }
        }
        assert(codes.map(key_at) =~= self@.dom());
        lemma_map_size(codes, self@.dom(), key_at);
    }

    /// An empty table.
    pub fn new() -> (cache: Cache)
        ensures
            cache.wf(),
            cache@ == Map::<QueryKey, EntryModel>::empty(),
            cache.count() == 0,
    {
        let cache = Cache { map: HashMap::new() };
        assert(cache@ =~= Map::<QueryKey, EntryModel>::empty());
        cache
    }

    /// The number of entries.
    pub fn len(&self) -> (n: usize)
        ensures
            n == self.count(),
    {
        self.map.len()
    }

    /// The entry of `key`, if it has one.
    pub fn get(&self, key: QueryKey) -> (r: Option<&Entry>)
        requires
            self.wf(),
        ensures
            match r {
                Some(e) => self@.contains_key(key) && self@[key] == e@ && e.key == key,
                None => !self@.contains_key(key),
            },
    {
        let c = code(key);
        let r = self.map.get(&c);
        proof {
            if let Some(e) = r {
                lemma_code_injective(e.key, key);
            }
        }
        r
    }

    /// Stores `entry` under its key, in place of the entry that the key had.
    pub fn put(&mut self, entry: Entry)
        requires
            old(self).wf(),
        ensures
            final(self).wf(),
            final(self)@ == old(self)@.insert(entry.key, entry@),
    {
        let ghost key = entry.key;
        let ghost model = entry@;
        self.map.insert(code(entry.key), entry);
        proof {
            assert forall|k: QueryKey| k != key implies code_of(k) != code_of(key) by {
                if code_of(k) == code_of(key) {
                    lemma_code_injective(k, key);
                }
            }
            assert(self@ =~= old(self)@.insert(key, model));
        }
    }

    /// Marks the entry of `key` as verified at `rev`.
    pub fn restamp(&mut self, key: QueryKey, rev: u64)
        requires
            old(self).wf(),
            old(self)@.contains_key(key),
        ensures
            final(self).wf(),
            final(self)@ == old(self)@.insert(
                key,
                EntryModel { verified_at: rev, ..old(self)@[key] },
            ),
            final(self).count() == old(self).count(),
    {
        let c = code(key);
        match self.map.remove(&c) {
            Some(entry) => {
                let mut entry = entry;
                entry.verified_at = rev;
                let ghost model = entry@;
                self.map.insert(c, entry);
                proof {
                    assert forall|k: QueryKey| k != key implies code_of(k) != code_of(key) by {
                        if code_of(k) == code_of(key) {
                            lemma_code_injective(k, key);
                        }
                    }
                    assert(self.map@ =~= old(self).map@.insert(c, self.map@[c]));
                    assert(self@ =~= old(self)@.insert(key, model));
                    assert(old(self).map@.insert(c, self.map@[c]).dom() =~= old(self).map@.dom());
                }
            },
            None => {},
        }
    }

    /// The codes of the entries that were not verified at `rev`.
    fn stale_codes(&self, rev: u64) -> (codes: Vec<u128>)
        requires
            self.wf(),
        ensures
            forall|c: u128|
                codes@.contains(c) <==> self.map@.contains_key(c) && self.map@[c].verified_at
                    != rev,
    {
        let mut codes: Vec<u128> = Vec::new();
        for pair in it: self.map.iter()
            invariant
                it.seq() == self.map.iter().remaining(),
                forall|c: u128|
                    codes@.contains(c) <==> exists|i: int|
                        0 <= i < it.index() && *(#[trigger] it.seq()[i]).0 == c && it.seq()[i].1.verified_at
                            != rev,
        {
            let ghost n = it.index() as int;
            let ghost before = codes@;
            if pair.1.verified_at != rev {
                codes.push(*pair.0);
                proof {
                    assert forall|c: u128| codes@.contains(c) <==> exists|i: int|
                        0 <= i < n + 1 && *(#[trigger] it.seq()[i]).0 == c && it.seq()[i].1.verified_at
                            != rev by {
                        if codes@.contains(c) {
                            let j = choose|j: int| 0 <= j < codes@.len() && codes@[j] == c;
                            if j < before.len() {
                                assert(before[j] == c);
                                assert(before.contains(c));
                            } else {
                                assert(*it.seq()[n].0 == c);
                            }
                        }
                        if exists|i: int|
                            0 <= i < n + 1 && *(#[trigger] it.seq()[i]).0 == c && it.seq()[i].1.verified_at
                                != rev {
                            let i = choose|i: int|
                                0 <= i < n + 1 && *(#[trigger] it.seq()[i]).0 == c
                                    && it.seq()[i].1.verified_at != rev;
                            if i < n {
                                assert(before.contains(c));
                                let j = choose|j: int| 0 <= j < before.len() && before[j] == c;
                                assert(codes@[j] == c);
                            } else {
                                assert(codes@[before.len() as int] == c);
                            }
                        }
                    }
                }
            } else {
                proof {
                    assert forall|c: u128| codes@.contains(c) <==> exists|i: int|
                        0 <= i < n + 1 && *(#[trigger] it.seq()[i]).0 == c && it.seq()[i].1.verified_at
                            != rev by {
                        if exists|i: int|
                            0 <= i < n + 1 && *(#[trigger] it.seq()[i]).0 == c && it.seq()[i].1.verified_at
                                != rev {
                            let i = choose|i: int|
                                0 <= i < n + 1 && *(#[trigger] it.seq()[i]).0 == c
                                    && it.seq()[i].1.verified_at != rev;
                            assert(i < n);
                        }
                    }
                }
            }
        }
        proof {
            let all = self.map.iter().remaining();
            assert forall|c: u128| codes@.contains(c) <==> self.map@.contains_key(c)
                && self.map@[c].verified_at != rev by {
                if self.map@.contains_key(c) && self.map@[c].verified_at != rev {
                    assert(all.contains((&c, &self.map@[c])));
                    let i = choose|i: int| 0 <= i < all.len() && all[i] == (&c, &self.map@[c]);
                    assert(*all[i].0 == c);
                }
                if codes@.contains(c) {
                    let i = choose|i: int|
                        0 <= i < all.len() && *(#[trigger] all[i]).0 == c && all[i].1.verified_at
                            != rev;
                    assert(self.map@.contains_key(*all[i].0));
                }
            }
        }
        codes
    }

    /// Drops every entry that was not verified at `rev`.
    pub fn sweep(&mut self, rev: u64)
        requires
            old(self).wf(),
        ensures
            final(self).wf(),
            final(self)@ == swept(old(self)@, rev),
            final(self).count() <= old(self).count(),
    {
        let codes = self.stale_codes(rev);
        let ghost before = self.map@;
        let mut i: usize = 0;
        while i < codes.len()
            invariant
                i <= codes@.len(),
                before.dom().finite(),
                forall|c: u128| #[trigger] before.contains_key(c) ==> code_of(before[c].key) == c,
                forall|c: u128|
                    self.map@.contains_key(c) <==> before.contains_key(c) && !codes@.take(
                        i as int,
                    ).contains(c),
                forall|c: u128| self.map@.contains_key(c) ==> self.map@[c] == before[c],
                self.map@.len() <= before.len(),
            decreases codes@.len() - i,
        {
            let ghost earlier = self.map@;
            self.map.remove(&codes[i]);
            proof {
                let c0 = codes@[i as int];
                let fewer = codes@.take(i as int);
                let more = codes@.take(i + 1);
                assert(more =~= fewer.push(c0));
                assert(self.map@ == earlier.remove(c0));
                assert forall|c: u128| self.map@.contains_key(c) <==> before.contains_key(c)
                    && !more.contains(c) by {
                    assert(earlier.contains_key(c) <==> before.contains_key(c) && !fewer.contains(
                        c,
                    ));
                    if fewer.contains(c) {
                        let j = choose|j: int| 0 <= j < fewer.len() && fewer[j] == c;
                        assert(more[j] == c);
                    }
                    if c == c0 {
                        assert(more[i as int] == c);
                    }
                    if more.contains(c) {
                        let j = choose|j: int| 0 <= j < more.len() && more[j] == c;
                        if j < i {
                            assert(fewer[j] == c);
                        }
                    }
                }
                if earlier.contains_key(c0) {
                    earlier.lemma_remove_key_len(c0);
                } else {
                    assert(earlier.remove(c0) =~= earlier);
                }
            }
            i = i + 1;
        }
        proof {
            assert(codes@.take(i as int) =~= codes@);
            assert forall|c: u128| #[trigger] self.map@.contains_key(c) implies code_of(
                self.map@[c].key,
            ) == c by {
                assert(before.contains_key(c));
            }
            assert forall|k: QueryKey| self@.contains_key(k) <==> swept(
                old(self)@,
                rev,
            ).contains_key(k) by {
                let c = code_of(k);
                assert(before.contains_key(c) ==> before[c]@ == old(self)@[k]);
            }
            assert(self@ =~= swept(old(self)@, rev));
        }
    }
}

} // verus!
