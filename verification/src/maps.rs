//! Insertion-ordered key/value stores for the pool's collections, with a
//! stable iteration order so that encoding is deterministic. Keys are kept
//! unique; inserting an existing key overwrites its value in place.

use crate::host::Pubkey;
use crate::state::{Proposal, ProposalV};
use vstd::prelude::*;

verus! {

/// Whether some entry carries the key.
pub open spec fn map_has_key<K, V>(es: Seq<(K, V)>, k: K) -> bool
    decreases es.len(),
{
    if es.len() == 0 {
        false
    } else if es[0].0 == k {
        true
    } else {
        map_has_key(es.drop_first(), k)
    }
}

/// The value at the first entry carrying the key, if any.
pub open spec fn map_lookup<K, V>(es: Seq<(K, V)>, k: K) -> Option<V>
    decreases es.len(),
{
    if es.len() == 0 {
        None
    } else if es[0].0 == k {
        Some(es[0].1)
    } else {
        map_lookup(es.drop_first(), k)
    }
}

/// Overwrites the first entry carrying the key, or appends a new entry.
pub open spec fn map_upsert<K, V>(es: Seq<(K, V)>, k: K, v: V) -> Seq<(K, V)>
    decreases es.len(),
{
    if es.len() == 0 {
        seq![(k, v)]
    } else if es[0].0 == k {
        seq![(k, v)] + es.drop_first()
    } else {
        seq![es[0]] + map_upsert(es.drop_first(), k, v)
    }
}

/// Drops the first entry carrying the key, if any.
pub open spec fn map_erase<K, V>(es: Seq<(K, V)>, k: K) -> Seq<(K, V)>
    decreases es.len(),
{
    if es.len() == 0 {
        es
    } else if es[0].0 == k {
        es.drop_first()
    } else {
        seq![es[0]] + map_erase(es.drop_first(), k)
    }
}

/// No two entries carry the same key.
pub open spec fn unique_keys<K, V>(es: Seq<(K, V)>) -> bool {
    forall|i: int, j: int| 0 <= i < j < es.len() ==> es[i].0 != es[j].0
}

/// The sum of all stored amounts.
pub open spec fn sum_values<K>(es: Seq<(K, u64)>) -> int
    decreases es.len(),
{
    if es.len() == 0 {
        0
    } else {
        es[0].1 + sum_values(es.drop_first())
    }
}

pub proof fn lemma_map_has_key_index<K, V>(es: Seq<(K, V)>, k: K)
    ensures
        map_has_key(es, k) <==> exists|i: int| 0 <= i < es.len() && es[i].0 == k,
    decreases es.len(),
{
    if es.len() > 0 {
        lemma_map_has_key_index(es.drop_first(), k);
        if es[0].0 != k {
            if map_has_key(es.drop_first(), k) {
                let i = choose|i: int|
                    0 <= i < es.drop_first().len() && es.drop_first()[i].0 == k;
                assert(es[i + 1].0 == k);
            }
            if exists|i: int| 0 <= i < es.len() && es[i].0 == k {
                let i = choose|i: int| 0 <= i < es.len() && es[i].0 == k;
                assert(es.drop_first()[i - 1].0 == k);
            }
        }
    }
}

/// Looking a key up after the first `n` entries changes nothing when none of
/// the skipped entries carries it.
pub proof fn lemma_map_lookup_skip<K, V>(es: Seq<(K, V)>, k: K, n: int)
    requires
        0 <= n <= es.len(),
        forall|j: int| 0 <= j < n ==> es[j].0 != k,
    ensures
        map_lookup(es, k) == map_lookup(es.skip(n), k),
        map_has_key(es, k) == map_has_key(es.skip(n), k),
    decreases n,
{
    if n > 0 {
        assert(es.drop_first().skip(n - 1) =~= es.skip(n));
        lemma_map_lookup_skip(es.drop_first(), k, n - 1);
    } else {
        assert(es.skip(0) =~= es);
    }
}

/// When the first entry carrying the key stands at position `i`, an upsert
/// is an in-place update there.
pub proof fn lemma_map_upsert_found<K, V>(es: Seq<(K, V)>, k: K, v: V, i: int)
    requires
        0 <= i < es.len(),
        es[i].0 == k,
        forall|j: int| 0 <= j < i ==> es[j].0 != k,
    ensures
        map_upsert(es, k, v) == es.update(i, (k, v)),
    decreases i,
{
    if i == 0 {
        assert(map_upsert(es, k, v) =~= es.update(0, (k, v)));
    } else {
        lemma_map_upsert_found(es.drop_first(), k, v, i - 1);
        assert(seq![es[0]] + es.drop_first().update(i - 1, (k, v)) =~= es.update(i, (k, v)));
    }
}

/// When no entry carries the key, an upsert appends.
pub proof fn lemma_map_upsert_absent<K, V>(es: Seq<(K, V)>, k: K, v: V)
    requires
        forall|j: int| 0 <= j < es.len() ==> es[j].0 != k,
    ensures
        map_upsert(es, k, v) == es.push((k, v)),
    decreases es.len(),
{
    if es.len() == 0 {
        assert(map_upsert(es, k, v) =~= es.push((k, v)));
    } else {
        lemma_map_upsert_absent(es.drop_first(), k, v);
        assert(seq![es[0]] + es.drop_first().push((k, v)) =~= es.push((k, v)));
    }
}

/// When the first entry carrying the key stands at position `i`, erasing it
/// removes exactly that position.
pub proof fn lemma_map_erase_found<K, V>(es: Seq<(K, V)>, k: K, i: int)
    requires
        0 <= i < es.len(),
        es[i].0 == k,
        forall|j: int| 0 <= j < i ==> es[j].0 != k,
    ensures
        map_erase(es, k) == es.remove(i),
    decreases i,
{
    if i == 0 {
        assert(map_erase(es, k) =~= es.remove(0));
    } else {
        lemma_map_erase_found(es.drop_first(), k, i - 1);
        assert(seq![es[0]] + es.drop_first().remove(i - 1) =~= es.remove(i));
    }
}

/// When no entry carries the key, erasing it changes nothing.
pub proof fn lemma_map_erase_absent<K, V>(es: Seq<(K, V)>, k: K)
    requires
        forall|j: int| 0 <= j < es.len() ==> es[j].0 != k,
    ensures
        map_erase(es, k) == es,
    decreases es.len(),
{
    if es.len() > 0 {
        lemma_map_erase_absent(es.drop_first(), k);
        assert(seq![es[0]] + es.drop_first() =~= es);
    }
}

/// A lookup answers `Some` exactly when the key is present.
pub proof fn lemma_map_lookup_has<K, V>(es: Seq<(K, V)>, k: K)
    ensures
        map_lookup(es, k) is Some <==> map_has_key(es, k),
    decreases es.len(),
{
    if es.len() > 0 && es[0].0 != k {
        lemma_map_lookup_has(es.drop_first(), k);
    }
}

/// The cumulative pledge map: contributor identity to amount.
pub struct PubkeyMap {
    entries: Vec<(Pubkey, u64)>,
}

impl View for PubkeyMap {
    type V = Seq<(Seq<u8>, u64)>;

    closed spec fn view(&self) -> Seq<(Seq<u8>, u64)> {
        self.entries@.map_values(|e: (Pubkey, u64)| (e.0@, e.1))
    }
}

impl PubkeyMap {
    pub fn new() -> (r: PubkeyMap)
        ensures
            r@ == Seq::<(Seq<u8>, u64)>::empty(),
    {
        let r = PubkeyMap { entries: Vec::new() };
        proof {
            assert(r@ =~= Seq::<(Seq<u8>, u64)>::empty());
        }
        r
    }

    pub fn len(&self) -> (n: usize)
        ensures
            n == self@.len(),
    {
        self.entries.len()
    }

    pub fn is_empty(&self) -> (b: bool)
        ensures
            b == (self@.len() == 0),
    {
        self.entries.len() == 0
    }

    /// The position of the entry carrying the key, if any.
    fn find(&self, k: &Pubkey) -> (r: Option<usize>)
        ensures
            match r {
                Some(i) => i < self@.len() && self@[i as int].0 == k@ && forall|j: int|
                    0 <= j < i ==> self@[j].0 != k@,
                None => forall|j: int| 0 <= j < self@.len() ==> self@[j].0 != k@,
            },
    {
        let mut i: usize = 0;
        while i < self.entries.len()
            invariant
                i <= self.entries.len(),
                forall|j: int| 0 <= j < i ==> self@[j].0 != k@,
            decreases self.entries.len() - i,
        {
            if self.entries[i].0 == *k {
                return Some(i);
            }
            i += 1;
        }
        None
    }

    pub fn contains_key(&self, k: &Pubkey) -> (b: bool)
        ensures
            b == map_has_key(self@, k@),
    {
        proof {
            lemma_map_has_key_index(self@, k@);
        }
        match self.find(k) {
            Some(_) => true,
            None => false,
        }
    }

    pub fn get(&self, k: &Pubkey) -> (r: Option<u64>)
        ensures
            r == map_lookup(self@, k@),
    {
        match self.find(k) {
            Some(i) => {
                proof {
                    lemma_map_lookup_skip(self@, k@, i as int);
                    assert(self@.skip(i as int)[0] == self@[i as int]);
                }
                Some(self.entries[i].1)
            },
            None => {
                proof {
                    lemma_map_lookup_skip(self@, k@, self@.len() as int);
                }
                None
            },
        }
    }

    pub fn insert(&mut self, k: Pubkey, v: u64)
        ensures
            final(self)@ == map_upsert(old(self)@, k@, v),
    {
        let ghost pre = self@;
        match self.find(&k) {
            Some(i) => {
                self.entries[i] = (k, v);
                proof {
                    lemma_map_upsert_found(pre, k@, v, i as int);
                    assert(self@ =~= pre.update(i as int, (k@, v)));
                }
            },
            None => {
                self.entries.push((k, v));
                proof {
                    lemma_map_upsert_absent(pre, k@, v);
                    assert(self@ =~= pre.push((k@, v)));
                }
            },
        }
    }

    pub fn remove(&mut self, k: &Pubkey) -> (r: Option<u64>)
        ensures
            final(self)@ == map_erase(old(self)@, k@),
            r == map_lookup(old(self)@, k@),
    {
        let ghost pre = self@;
        match self.find(k) {
            Some(i) => {
                let v = self.entries[i].1;
                self.entries.remove(i);
                proof {
                    lemma_map_erase_found(pre, k@, i as int);
                    assert(self@ =~= pre.remove(i as int));
                    lemma_map_lookup_skip(pre, k@, i as int);
                    assert(pre.skip(i as int)[0] == pre[i as int]);
                }
                Some(v)
            },
            None => {
                proof {
                    lemma_map_erase_absent(pre, k@);
                    lemma_map_lookup_skip(pre, k@, pre.len() as int);
                }
                None
            },
        }
    }

    /// The entry at a position of the stable iteration order.
    pub fn entry_at(&self, i: usize) -> (r: (Pubkey, u64))
        requires
            i < self@.len(),
        ensures
            (r.0@, r.1) == self@[i as int],
    {
        self.entries[i]
    }
}

/// The proposal registry: proposal id to proposal.
pub struct ProposalMap {
    entries: Vec<(u64, Proposal)>,
}

impl View for ProposalMap {
    type V = Seq<(u64, ProposalV)>;

    closed spec fn view(&self) -> Seq<(u64, ProposalV)> {
        self.entries@.map_values(|e: (u64, Proposal)| (e.0, e.1@))
    }
}

impl ProposalMap {
    pub fn new() -> (r: ProposalMap)
        ensures
            r@ == Seq::<(u64, ProposalV)>::empty(),
    {
        let r = ProposalMap { entries: Vec::new() };
        proof {
            assert(r@ =~= Seq::<(u64, ProposalV)>::empty());
        }
        r
    }

    pub fn len(&self) -> (n: usize)
        ensures
            n == self@.len(),
    {
        self.entries.len()
    }

    pub fn is_empty(&self) -> (b: bool)
        ensures
            b == (self@.len() == 0),
    {
        self.entries.len() == 0
    }

    /// The position of the entry carrying the id, if any.
    fn find(&self, id: u64) -> (r: Option<usize>)
        ensures
            match r {
                Some(i) => i < self@.len() && self@[i as int].0 == id && forall|j: int|
                    0 <= j < i ==> self@[j].0 != id,
                None => forall|j: int| 0 <= j < self@.len() ==> self@[j].0 != id,
            },
    {
        let mut i: usize = 0;
        while i < self.entries.len()
            invariant
                i <= self.entries.len(),
                forall|j: int| 0 <= j < i ==> self@[j].0 != id,
            decreases self.entries.len() - i,
        {
            if self.entries[i].0 == id {
                return Some(i);
            }
            i += 1;
        }
        None
    }

    pub fn contains_key(&self, id: u64) -> (b: bool)
        ensures
            b == map_has_key(self@, id),
    {
        proof {
            lemma_map_has_key_index(self@, id);
        }
        match self.find(id) {
            Some(_) => true,
            None => false,
        }
    }

    /// A copy of the proposal registered under the id, if any.
    pub fn get(&self, id: u64) -> (r: Option<Proposal>)
        ensures
            match r {
                Some(p) => map_lookup(self@, id) == Some(p@),
                None => map_lookup(self@, id) is None,
            },
    {
        match self.find(id) {
            Some(i) => {
                proof {
                    lemma_map_lookup_skip(self@, id, i as int);
                    assert(self@.skip(i as int)[0] == self@[i as int]);
                }
                Some(self.entries[i].1.clone())
            },
            None => {
                proof {
                    lemma_map_lookup_skip(self@, id, self@.len() as int);
                }
                None
            },
        }
    }

    pub fn insert(&mut self, id: u64, p: Proposal)
        ensures
            final(self)@ == map_upsert(old(self)@, id, p@),
    {
        let ghost pre = self@;
        let ghost pv = p@;
        match self.find(id) {
            Some(i) => {
                self.entries[i] = (id, p);
                proof {
                    lemma_map_upsert_found(pre, id, pv, i as int);
                    assert(self@ =~= pre.update(i as int, (id, pv)));
                }
            },
            None => {
                self.entries.push((id, p));
                proof {
                    lemma_map_upsert_absent(pre, id, pv);
                    assert(self@ =~= pre.push((id, pv)));
                }
            },
        }
    }

    /// Bumps the vote count of the proposal registered under the id by one;
    /// an absent id changes nothing.
    pub fn add_vote(&mut self, id: u64)
        ensures
            final(self)@ == match map_lookup(old(self)@, id) {
                Some(p) => map_upsert(
                    old(self)@,
                    id,
                    ProposalV { votes: crate::state::wrap_inc(p.votes), ..p },
                ),
                None => old(self)@,
            },
    {
        let ghost pre = self@;
        match self.find(id) {
            Some(i) => {
                proof {
                    lemma_map_lookup_skip(pre, id, i as int);
                    assert(pre.skip(i as int)[0] == pre[i as int]);
                }
                let e = &mut self.entries[i];
                if e.1.votes == u64::MAX {
                    e.1.votes = 0;
                } else {
                    e.1.votes = e.1.votes + 1;
                }
                proof {
                    let p = pre[i as int].1;
                    let bumped = ProposalV { votes: crate::state::wrap_inc(p.votes), ..p };
                    lemma_map_upsert_found(pre, id, bumped, i as int);
                    assert(self@ =~= pre.update(i as int, (id, bumped)));
                }
            },
            None => {
                proof {
                    lemma_map_lookup_skip(pre, id, pre.len() as int);
                }
            },
        }
    }

    /// The entry at a position of the stable iteration order.
    pub fn entry_at(&self, i: usize) -> (r: (u64, Proposal))
        requires
            i < self@.len(),
        ensures
            (r.0, r.1@) == self@[i as int],
    {
        let id = self.entries[i].0;
        let p = self.entries[i].1.clone();
        (id, p)
    }

    /// Copies of all proposals, in the stable iteration order.
    pub fn values(&self) -> (r: Vec<Proposal>)
        ensures
            r@.len() == self@.len(),
            forall|j: int| 0 <= j < r@.len() ==> r@[j]@ == self@[j].1,
    {
        let mut out: Vec<Proposal> = Vec::new();
        let mut i: usize = 0;
        while i < self.entries.len()
            invariant
                i <= self.entries.len(),
                out@.len() == i,
                forall|j: int| 0 <= j < i ==> out@[j]@ == self@[j].1,
            decreases self.entries.len() - i,
        {
            out.push(self.entries[i].1.clone());
            i += 1;
        }
        out
    }
}

} // verus!
