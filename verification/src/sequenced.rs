//! An in-memory store of records keyed by their sequence number, kept in
//! ascending order of it: a later put under the same number replaces the
//! earlier record.
use vstd::prelude::*;

verus! {

/// A record that carries a sequence number.
pub trait Sequenced {
    spec fn spec_sequence(&self) -> u64;

    fn sequence_number(&self) -> (r: u64)
        ensures
            r == self.spec_sequence(),
    ;
}

/// The map that a sequence of records stands for: each record under its
/// sequence number, a later record replacing an earlier one.
pub open spec fn records_map<T: Sequenced>(s: Seq<T>) -> Map<u64, T>
    decreases s.len(),
{
    if s.len() == 0 {
        Map::empty()
    } else {
        records_map(s.drop_last()).insert(s.last().spec_sequence(), s.last())
    }
}

/// The records are in strictly ascending order of sequence number.
pub open spec fn ascending<T: Sequenced>(s: Seq<T>) -> bool {
    forall|i: int, j: int| 0 <= i < j < s.len() ==> s[i].spec_sequence() < s[j].spec_sequence()
}

/// With ascending sequence numbers, the map holds exactly the records of the
/// sequence, each under its number.
pub proof fn lemma_records_map<T: Sequenced>(s: Seq<T>)
    requires
        ascending(s),
    ensures
        forall|k: u64|
            #[trigger] records_map(s).contains_key(k) <==> exists|i: int|
                0 <= i < s.len() && s[i].spec_sequence() == k,
        forall|i: int| 0 <= i < s.len() ==> #[trigger] records_map(s)[s[i].spec_sequence()] == s[i],
        forall|i: int| 0 <= i < s.len() ==> records_map(s).contains_key(#[trigger] s[i].spec_sequence()),
    decreases s.len(),
{
    if s.len() > 0 {
        let t = s.drop_last();
        assert(ascending(t));
        lemma_records_map(t);
        assert forall|k: u64| #[trigger] records_map(s).contains_key(k) <==> exists|i: int|
            0 <= i < s.len() && s[i].spec_sequence() == k by {
            if records_map(s).contains_key(k) && k != s.last().spec_sequence() {
                assert(records_map(t).contains_key(k));
                let i = choose|i: int| 0 <= i < t.len() && t[i].spec_sequence() == k;
                assert(s[i].spec_sequence() == k);
            }
            if exists|i: int| 0 <= i < s.len() && s[i].spec_sequence() == k {
                let i = choose|i: int| 0 <= i < s.len() && s[i].spec_sequence() == k;
                if i < s.len() - 1 {
                    assert(t[i].spec_sequence() == k);
                }
            }
        }
        assert forall|i: int| 0 <= i < s.len() implies #[trigger] records_map(s)[s[i].spec_sequence()] == s[i]
            && records_map(s).contains_key(s[i].spec_sequence()) by {
            if i < s.len() - 1 {
                assert(t[i] == s[i]);
                assert(s[i].spec_sequence() < s.last().spec_sequence());
            }
        }
    }
}

/// Two ascending sequences whose records agree, key by key, give one map.
pub proof fn lemma_records_map_ext<T: Sequenced>(s: Seq<T>, m: Map<u64, T>)
    requires
        ascending(s),
        forall|k: u64|
            #[trigger] m.contains_key(k) <==> exists|i: int| 0 <= i < s.len() && s[i].spec_sequence() == k,
        forall|i: int| 0 <= i < s.len() ==> #[trigger] m[s[i].spec_sequence()] == s[i],
    ensures
        records_map(s) == m,
{
    lemma_records_map(s);
    assert forall|k: u64| #[trigger] records_map(s).contains_key(k) implies records_map(s)[k] == m[k] by {
        let i = choose|i: int| 0 <= i < s.len() && s[i].spec_sequence() == k;
        assert(records_map(s)[s[i].spec_sequence()] == s[i]);
    }
    assert(records_map(s) =~= m);
}

/// Putting `item` into an ascending sequence at `p`, in place of the record with the same number.
proof fn lemma_put_replace<T: Sequenced>(s: Seq<T>, p: int, item: T)
    requires
        ascending(s),
        0 <= p <= s.len(),
        forall|i: int| 0 <= i < p ==> s[i].spec_sequence() < item.spec_sequence(),
        p < s.len() ==> s[p].spec_sequence() >= item.spec_sequence(),
        p < s.len(),
        s[p].spec_sequence() == item.spec_sequence(),
    ensures
        ascending(s.update(p, item)),
        records_map(s.update(p, item)) == records_map(s).insert(item.spec_sequence(), item),
{
    let k = item.spec_sequence();
    lemma_records_map(s);
    let t = s.update(p, item);
    assert(ascending(t)) by {
        assert forall|i: int, j: int| 0 <= i < j < t.len() implies t[i].spec_sequence()
            < t[j].spec_sequence() by {
            if i != p && j != p {
                assert(s[i].spec_sequence() < s[j].spec_sequence());
            } else if i == p {
                assert(s[p].spec_sequence() < s[j].spec_sequence());
            } else {
                assert(s[i].spec_sequence() < s[p].spec_sequence());
            }
        }
    }
    let m = records_map(s).insert(k, item);
    assert forall|kk: u64| #[trigger] m.contains_key(kk) <==> exists|i: int|
        0 <= i < t.len() && t[i].spec_sequence() == kk by {
        if m.contains_key(kk) && kk != k {
            let i = choose|i: int| 0 <= i < s.len() && s[i].spec_sequence() == kk;
            assert(t[i].spec_sequence() == kk);
        }
        if kk == k {
            assert(t[p].spec_sequence() == kk);
        }
        if exists|i: int| 0 <= i < t.len() && t[i].spec_sequence() == kk {
            let i = choose|i: int| 0 <= i < t.len() && t[i].spec_sequence() == kk;
            if i != p {
                assert(s[i].spec_sequence() == kk);
            }
        }
    }
    assert forall|i: int| 0 <= i < t.len() implies #[trigger] m[t[i].spec_sequence()] == t[i] by {
        if i != p {
            assert(t[i] == s[i]);
            assert(s[i].spec_sequence() != k);
        }
    }
    lemma_records_map_ext(t, m);
}

/// Putting `item` into an ascending sequence at `p`, ahead of the records with higher numbers.
proof fn lemma_put_insert<T: Sequenced>(s: Seq<T>, p: int, item: T)
    requires
        ascending(s),
        0 <= p <= s.len(),
        forall|i: int| 0 <= i < p ==> s[i].spec_sequence() < item.spec_sequence(),
        p < s.len() ==> s[p].spec_sequence() >= item.spec_sequence(),
        p < s.len() ==> s[p].spec_sequence() != item.spec_sequence(),
    ensures
        ascending(s.insert(p, item)),
        records_map(s.insert(p, item)) == records_map(s).insert(item.spec_sequence(), item),
{
    let k = item.spec_sequence();
    lemma_records_map(s);
    let t = s.insert(p, item);
    assert forall|i: int| 0 <= i < s.len() && i >= p implies s[i].spec_sequence() > k by {
        if i > p {
            assert(s[p].spec_sequence() < s[i].spec_sequence());
        }
    }
    assert(ascending(t)) by {
        assert forall|i: int, j: int| 0 <= i < j < t.len() implies t[i].spec_sequence()
            < t[j].spec_sequence() by {
            if j < p {
                assert(t[i] == s[i] && t[j] == s[j]);
            } else if j == p {
                assert(t[i] == s[i]);
            } else if i < p {
                assert(t[i] == s[i] && t[j] == s[j - 1]);
            } else if i == p {
                assert(t[j] == s[j - 1]);
            } else {
                assert(t[i] == s[i - 1] && t[j] == s[j - 1]);
            }
        }
    }
    let m = records_map(s).insert(k, item);
    assert forall|kk: u64| #[trigger] m.contains_key(kk) <==> exists|i: int|
        0 <= i < t.len() && t[i].spec_sequence() == kk by {
        if m.contains_key(kk) && kk != k {
            let i = choose|i: int| 0 <= i < s.len() && s[i].spec_sequence() == kk;
            if i < p {
                assert(t[i].spec_sequence() == kk);
            } else {
                assert(t[i + 1].spec_sequence() == kk);
            }
        }
        if kk == k {
            assert(t[p].spec_sequence() == kk);
        }
        if exists|i: int| 0 <= i < t.len() && t[i].spec_sequence() == kk {
            let i = choose|i: int| 0 <= i < t.len() && t[i].spec_sequence() == kk;
            if i < p {
                assert(s[i].spec_sequence() == kk);
            } else if i > p {
                assert(s[i - 1].spec_sequence() == kk);
            }
        }
    }
    assert forall|i: int| 0 <= i < t.len() implies #[trigger] m[t[i].spec_sequence()] == t[i] by {
        if i < p {
            assert(t[i] == s[i]);
            assert(s[i].spec_sequence() != k);
        } else if i > p {
            assert(t[i] == s[i - 1]);
            assert(s[i - 1].spec_sequence() != k);
        }
    }
    lemma_records_map_ext(t, m);
}

/// A store of records keyed by sequence number.
#[derive(Debug)]
pub struct SequencedStore<T: Sequenced> {
    items: Vec<T>,
}

impl<T: Sequenced> View for SequencedStore<T> {
    type V = Map<u64, T>;

    closed spec fn view(&self) -> Map<u64, T> {
        records_map(self.items@)
    }
}

impl<T: Sequenced> SequencedStore<T> {
    #[verifier::type_invariant]
    closed spec fn ordered(&self) -> bool {
        ascending(self.items@)
    }

    /// An empty store.
    pub fn new() -> (s: SequencedStore<T>)
        ensures
            s@ == Map::<u64, T>::empty(),
    {
        SequencedStore { items: Vec::new() }
    }

    /// Position of the first record numbered `k` or above; `items.len()`
    /// when there is none.
    fn lower_bound(&self, k: u64) -> (p: usize)
        ensures
            p <= self.items@.len(),
            forall|i: int| 0 <= i < p ==> self.items@[i].spec_sequence() < k,
            p < self.items@.len() ==> self.items@[p as int].spec_sequence() >= k,
    {
        proof {
            use_type_invariant(self);
        }
        let n = self.items.len();
        let mut p: usize = 0;
        while p < n
            invariant
                n == self.items@.len(),
                p <= n,
                forall|i: int| 0 <= i < p ==> self.items@[i].spec_sequence() < k,
            decreases n - p,
        {
            if self.items[p].sequence_number() >= k {
                return p;
            }
            p = p + 1;
        }
        p
    }

    /// The record numbered `k`, if any.
    pub fn get(&self, k: u64) -> (r: Option<&T>)
        ensures
            match r {
                Some(x) => self@.contains_key(k) && self@[k] == *x,
                None => !self@.contains_key(k),
            },
    {
        proof {
            use_type_invariant(self);
            lemma_records_map(self.items@);
        }
        let p = self.lower_bound(k);
        if p < self.items.len() && self.items[p].sequence_number() == k {
            Some(&self.items[p])
        } else {
            proof {
                if self@.contains_key(k) {
                    let i = choose|i: int| 0 <= i < self.items@.len() && self.items@[i].spec_sequence() == k;
                    if i >= p {
                        if i > p {
                            assert(self.items@[p as int].spec_sequence() < self.items@[i].spec_sequence());
                        }
                    }
                }
            }
            None
        }
    }

    /// Put a record under its sequence number, replacing any record held
    /// under that number.
    pub fn put(&mut self, item: T)
        ensures
            final(self)@ == old(self)@.insert(item.spec_sequence(), item),
    {
        proof {
            use_type_invariant(&*self);
            lemma_records_map(self.items@);
        }
        let k = item.sequence_number();
        let p = self.lower_bound(k);
        let ghost s = self.items@;
        let mut items: Vec<T> = Vec::new();
        std::mem::swap(&mut items, &mut self.items);
        if p < items.len() && items[p].sequence_number() == k {
            proof {
                lemma_put_replace(s, p as int, item);
            }
            items.set(p, item);
        } else {
            proof {
                lemma_put_insert(s, p as int, item);
            }
            items.insert(p, item);
        }
        self.items = items;
    }

    /// Remove the record numbered `k`, if any.
    pub fn remove(&mut self, k: u64)
        ensures
            final(self)@ == old(self)@.remove(k),
    {
        proof {
            use_type_invariant(&*self);
            lemma_records_map(self.items@);
        }
        let p = self.lower_bound(k);
        let ghost s = self.items@;
        if p < self.items.len() && self.items[p].sequence_number() == k {
            let mut items: Vec<T> = Vec::new();
            std::mem::swap(&mut items, &mut self.items);
            items.remove(p);
            proof {
                let t = items@;
                assert(t == s.remove(p as int));
                assert(ascending(t)) by {
                    assert forall|i: int, j: int| 0 <= i < j < t.len() implies t[i].spec_sequence()
                        < t[j].spec_sequence() by {
                        if j < p {
                            assert(t[i] == s[i] && t[j] == s[j]);
                        } else if i < p {
                            assert(t[i] == s[i] && t[j] == s[j + 1]);
                        } else {
                            assert(t[i] == s[i + 1] && t[j] == s[j + 1]);
                        }
                    }
                }
                let m = records_map(s).remove(k);
                assert forall|kk: u64| #[trigger] m.contains_key(kk) <==> exists|i: int|
                    0 <= i < t.len() && t[i].spec_sequence() == kk by {
                    if m.contains_key(kk) {
                        let i = choose|i: int| 0 <= i < s.len() && s[i].spec_sequence() == kk;
                        if i < p {
                            assert(t[i].spec_sequence() == kk);
                        } else {
                            assert(i != p);
                            assert(t[i - 1].spec_sequence() == kk);
                        }
                    }
                    if exists|i: int| 0 <= i < t.len() && t[i].spec_sequence() == kk {
                        let i = choose|i: int| 0 <= i < t.len() && t[i].spec_sequence() == kk;
                        if i < p {
                            assert(s[i].spec_sequence() == kk);
                            assert(s[i].spec_sequence() < s[p as int].spec_sequence());
                        } else {
                            assert(s[i + 1].spec_sequence() == kk);
                            assert(s[p as int].spec_sequence() < s[i + 1].spec_sequence());
                        }
                    }
                }
                assert forall|i: int| 0 <= i < t.len() implies #[trigger] m[t[i].spec_sequence()] == t[i] by {
                    if i < p {
                        assert(t[i] == s[i]);
                        assert(s[i].spec_sequence() < s[p as int].spec_sequence());
                    } else {
                        assert(t[i] == s[i + 1]);
                        assert(s[p as int].spec_sequence() < s[i + 1].spec_sequence());
                    }
                }
                lemma_records_map_ext(t, m);
            }
            self.items = items;
        } else {
            proof {
                if self@.contains_key(k) {
                    let i = choose|i: int| 0 <= i < s.len() && s[i].spec_sequence() == k;
                    if i > p {
                        assert(s[p as int].spec_sequence() < s[i].spec_sequence());
                    }
                }
                assert(self@ =~= self@.remove(k));
            }
        }
    }

    /// The record with the highest sequence number, if any.
    pub fn latest(&self) -> (r: Option<&T>)
        ensures
            match r {
                Some(x) => self@.contains_key(x.spec_sequence()) && self@[x.spec_sequence()] == *x
                    && forall|k: u64| #[trigger] self@.contains_key(k) ==> k <= x.spec_sequence(),
                None => self@.dom() =~= Set::<u64>::empty(),
            },
    {
        proof {
            use_type_invariant(self);
            lemma_records_map(self.items@);
        }
        let n = self.items.len();
        if n == 0 {
            None
        } else {
            proof {
                let s = self.items@;
                assert forall|k: u64| #[trigger] self@.contains_key(k) implies k <= s[n - 1].spec_sequence() by {
                    let i = choose|i: int| 0 <= i < s.len() && s[i].spec_sequence() == k;
                    if i < n - 1 {
                        assert(s[i].spec_sequence() < s[n - 1].spec_sequence());
                    }
                }
            }
            Some(&self.items[n - 1])
        }
    }

    /// The records numbered from `start` to `end`, both included, in
    /// ascending order.
    pub fn range(&self, start: u64, end: u64) -> (r: Vec<&T>)
        ensures
            forall|i: int, j: int| 0 <= i < j < r@.len() ==> r@[i].spec_sequence() < r@[j].spec_sequence(),
            forall|i: int|
                0 <= i < r@.len() ==> start <= (#[trigger] r@[i]).spec_sequence() <= end && self@.contains_key(
                    r@[i].spec_sequence(),
                ) && self@[r@[i].spec_sequence()] == *r@[i],
            forall|k: u64|
                #[trigger] self@.contains_key(k) && start <= k <= end ==> exists|i: int|
                    0 <= i < r@.len() && r@[i].spec_sequence() == k,
    {
        proof {
            use_type_invariant(self);
            lemma_records_map(self.items@);
        }
        let ghost s = self.items@;
        let p = self.lower_bound(start);
        let n = self.items.len();
        let mut out: Vec<&T> = Vec::new();
        let mut i: usize = p;
        while i < n && self.items[i].sequence_number() <= end
            invariant
                n == s.len(),
                s == self.items@,
                ascending(s),
                p <= i <= n,
                forall|q: int| 0 <= q < p ==> s[q].spec_sequence() < start,
                p < n ==> s[p as int].spec_sequence() >= start,
                out@.len() == i - p,
                forall|q: int| 0 <= q < out@.len() ==> *(#[trigger] out@[q]) == s[p + q],
                forall|q: int| p <= q < i ==> s[q].spec_sequence() <= end,
            decreases n - i,
        {
            out.push(&self.items[i]);
            i = i + 1;
        }
        proof {
            assert forall|a: int, b: int| 0 <= a < b < out@.len() implies out@[a].spec_sequence()
                < out@[b].spec_sequence() by {
                assert(*out@[a] == s[p + a] && *out@[b] == s[p + b]);
            }
            assert forall|q: int| 0 <= q < out@.len() implies start <= (#[trigger] out@[q]).spec_sequence() <= end
                && self@.contains_key(out@[q].spec_sequence()) && self@[out@[q].spec_sequence()] == *out@[q] by {
                assert(*out@[q] == s[p + q]);
                if p + q > p {
                    assert(s[p as int].spec_sequence() < s[p + q].spec_sequence());
                }
            }
            assert forall|k: u64| #[trigger] self@.contains_key(k) && start <= k <= end implies exists|q: int|
                0 <= q < out@.len() && out@[q].spec_sequence() == k by {
                let j = choose|j: int| 0 <= j < s.len() && s[j].spec_sequence() == k;
                if j < p {
                    assert(false);
                }
                if j >= i {
                    assert(i < n);
                    assert(s[i as int].spec_sequence() > end);
                    if j > i {
                        assert(s[i as int].spec_sequence() < s[j].spec_sequence());
                    }
                    assert(false);
                }
                assert(*out@[j - p] == s[j]);
            }
        }
        out
    }
}

} // verus!
