//! The mempool: pending transactions, prioritised by gas price per encoded
//! byte, bounded in total and per sender.
use vstd::prelude::*;
use core::cmp::Ordering;
use crate::crypto::{PublicKey, SignatureScheme};
use crate::errors::MempoolError;
use crate::hashing::spec_sha256;
use crate::protocol::{SignedTransaction, TransactionDigest, enc_signed, enc_data, enc_key};

verus! {

/// Declares `std::time::Instant`, the monotonic clock reading that a pool
/// keeps as the origin of its timestamps.
#[verifier::external_type_specification]
#[verifier::external_body]
pub struct ExInstant(std::time::Instant);

/// Reads the monotonic clock through `std::time::Instant::now`. Trusted:
/// nothing is claimed of the value.
#[verifier::external_body]
fn clock_origin() -> std::time::Instant {
    std::time::Instant::now()
}

/// Nanoseconds elapsed on the monotonic clock since `origin`, through
/// `std::time::Instant::elapsed` and `Duration::as_nanos`. Trusted: nothing
/// is claimed of the value (it depends on when the call is made).
#[verifier::external_body]
fn nanos_since(origin: &std::time::Instant) -> u64 {
    origin.elapsed().as_nanos() as u64
}

/// Transaction priority
#[derive(Debug, Clone, Copy, PartialEq, Eq, Structural)]
pub struct Priority(pub u64);

/// The priority of a transaction: its gas price times one million
/// (saturating), divided by its encoded size.
pub open spec fn priority_of(tx: SignedTransaction) -> u64 {
    let g = tx.data.gas_price * 1_000_000;
    let sat: int = if g > u64::MAX {
        u64::MAX as int
    } else {
        g
    };
    (sat / (enc_signed(tx).len() as int)) as u64
}

/// A transaction's encoding is never empty: it starts with the sender's
/// scheme byte.
pub proof fn lemma_encoding_nonempty(tx: SignedTransaction)
    ensures
        enc_signed(tx).len() >= 1,
{
    assert(enc_key(tx.data.sender@).len() >= 1);
    assert(enc_data(tx.data).len() >= enc_key(tx.data.sender@).len());
}

/// Transaction prioritizer
pub struct TransactionPrioritizer {}

impl TransactionPrioritizer {
    pub fn new() -> (p: TransactionPrioritizer) {
        TransactionPrioritizer {}
    }

    /// Calculate transaction priority: gas price times one million
    /// (saturating), divided by the encoded size.
    pub fn calculate_priority(&self, transaction: &SignedTransaction) -> (p: Priority)
        ensures
            p.0 == priority_of(*transaction),
    {
        let gas_price = transaction.gas_price();
        let size = transaction.encoded_size();
        proof {
            lemma_encoding_nonempty(*transaction);
        }
        let scaled = match gas_price.checked_mul(1_000_000) {
            Some(v) => v,
            None => u64::MAX,
        };
        let base = scaled / (size as u64);
        Priority(base)
    }

    /// Compare two transactions by priority.
    pub fn compare(&self, tx1: &SignedTransaction, tx2: &SignedTransaction) -> (o: Ordering)
        ensures
            o == (if priority_of(*tx1) < priority_of(*tx2) {
                Ordering::Less
            } else if priority_of(*tx1) == priority_of(*tx2) {
                Ordering::Equal
            } else {
                Ordering::Greater
            }),
    {
        let p1 = self.calculate_priority(tx1);
        let p2 = self.calculate_priority(tx2);
        if p1.0 < p2.0 {
            Ordering::Less
        } else if p1.0 == p2.0 {
            Ordering::Equal
        } else {
            Ordering::Greater
        }
    }
}

/// The view of a key: its scheme and bytes.
pub type KeyView = (SignatureScheme, Seq<u8>);

/// Mempool configuration
pub struct MempoolConfig {
    /// Maximum number of transactions
    pub capacity: usize,
    /// Transaction timeout, in nanoseconds
    pub transaction_timeout: u64,
    /// Maximum number of transactions per sender
    pub per_account_limit: usize,
}

impl Default for MempoolConfig {
    fn default() -> (c: MempoolConfig)
        ensures
            c.capacity == 10_000,
            c.transaction_timeout == 30_000_000_000,
            c.per_account_limit == 100,
    {
        MempoolConfig { capacity: 10_000, transaction_timeout: 30_000_000_000, per_account_limit: 100 }
    }
}

/// A pooled transaction with its digest, priority and arrival time.
pub struct TransactionInfo {
    pub transaction: SignedTransaction,
    pub digest: TransactionDigest,
    pub priority: Priority,
    pub insertion_time: u64,
}

/// Number of pooled transactions sent by `k`.
pub open spec fn sender_count(txs: Seq<TransactionInfo>, k: KeyView) -> nat
    decreases txs.len(),
{
    if txs.len() == 0 {
        0
    } else {
        sender_count(txs.drop_last(), k) + (if txs.last().transaction.data.sender@ == k {
            1nat
        } else {
            0nat
        })
    }
}

/// The count recorded for `k`: that of its first entry, 0 if it has none.
pub open spec fn account_count(accts: Seq<(PublicKey, usize)>, k: KeyView) -> nat
    decreases accts.len(),
{
    if accts.len() == 0 {
        0
    } else if accts[0].0@ == k {
        accts[0].1 as nat
    } else {
        account_count(accts.drop_first(), k)
    }
}

/// Index of the first pooled transaction with digest `d`.
pub open spec fn find_digest(txs: Seq<TransactionInfo>, d: Seq<u8>) -> Option<int>
    decreases txs.len(),
{
    if txs.len() == 0 {
        None
    } else if txs[0].digest@ == d {
        Some(0)
    } else {
        match find_digest(txs.drop_first(), d) {
            Some(i) => Some(i + 1),
            None => None,
        }
    }
}

/// The digests queued under priority `p`, empty if there is no such bucket.
pub open spec fn bucket_of(q: Seq<(Priority, Vec<TransactionDigest>)>, p: u64) -> Seq<TransactionDigest>
    decreases q.len(),
{
    if q.len() == 0 {
        Seq::empty()
    } else if q[0].0.0 == p {
        q[0].1@
    } else {
        bucket_of(q.drop_first(), p)
    }
}

/// Priorities of the buckets strictly increase.
pub open spec fn queue_sorted(q: Seq<(Priority, Vec<TransactionDigest>)>) -> bool {
    forall|i: int, j: int| 0 <= i < j < q.len() ==> q[i].0.0 < q[j].0.0
}

/// A transaction has outlived the timeout at time `now` (all times in
/// nanoseconds; a time before the arrival counts as no time elapsed).
pub open spec fn expired(info: TransactionInfo, now: u64, timeout: u64) -> bool {
    now > info.insertion_time && now - info.insertion_time > timeout
}

/// The recorded count of a key is that of its entry, in a list without
/// repeated keys.
proof fn lemma_account_count_at(accts: Seq<(PublicKey, usize)>, i: int)
    requires
        0 <= i < accts.len(),
        forall|a: int, b: int| 0 <= a < b < accts.len() ==> accts[a].0@ != accts[b].0@,
    ensures
        account_count(accts, accts[i].0@) == accts[i].1,
    decreases accts.len(),
{
    if i > 0 {
        assert(accts[0].0@ != accts[i].0@);
        assert(accts.drop_first()[i - 1] == accts[i]);
        lemma_account_count_at(accts.drop_first(), i - 1);
    }
}

/// A key without entry has count 0.
proof fn lemma_account_count_absent(accts: Seq<(PublicKey, usize)>, k: KeyView)
    requires
        forall|j: int| 0 <= j < accts.len() ==> accts[j].0@ != k,
    ensures
        account_count(accts, k) == 0,
    decreases accts.len(),
{
    if accts.len() > 0 {
        lemma_account_count_absent(accts.drop_first(), k);
    }
}

/// Changing the count of one entry changes only that key's count.
proof fn lemma_account_count_update(accts: Seq<(PublicKey, usize)>, i: int, e: (PublicKey, usize), k: KeyView)
    requires
        0 <= i < accts.len(),
        e.0@ == accts[i].0@,
        forall|a: int, b: int| 0 <= a < b < accts.len() ==> accts[a].0@ != accts[b].0@,
    ensures
        account_count(accts.update(i, e), k) == if k == e.0@ {
            e.1 as nat
        } else {
            account_count(accts, k)
        },
    decreases accts.len(),
{
    let t = accts.update(i, e);
    if i == 0 {
        assert(t.drop_first() == accts.drop_first());
        if k == e.0@ {
        } else {
        }
    } else {
        assert(t.drop_first() == accts.drop_first().update(i - 1, e));
        assert(accts[0].0@ != accts[i].0@);
        lemma_account_count_update(accts.drop_first(), i - 1, e, k);
    }
}

/// Adding an entry for a new key gives that key the entry's count.
proof fn lemma_account_count_push(accts: Seq<(PublicKey, usize)>, e: (PublicKey, usize), k: KeyView)
    requires
        forall|j: int| 0 <= j < accts.len() ==> accts[j].0@ != e.0@,
    ensures
        account_count(accts.push(e), k) == if k == e.0@ {
            e.1 as nat
        } else {
            account_count(accts, k)
        },
    decreases accts.len(),
{
    if accts.len() == 0 {
        assert(accts.push(e).drop_first().len() == 0);
        assert(account_count(accts.push(e).drop_first(), k) == 0);
        assert(accts.push(e)[0] == e);
    } else {
        assert(accts.push(e).drop_first() == accts.drop_first().push(e));
        assert forall|j: int| 0 <= j < accts.drop_first().len() implies accts.drop_first()[j].0@ != e.0@ by {
            assert(accts.drop_first()[j] == accts[j + 1]);
        }
        lemma_account_count_push(accts.drop_first(), e, k);
        assert(accts.push(e)[0] == accts[0]);
    }
}

/// In a sorted queue, the bucket of a bucket's priority is that bucket.
proof fn lemma_bucket_at(q: Seq<(Priority, Vec<TransactionDigest>)>, b: int)
    requires
        queue_sorted(q),
        0 <= b < q.len(),
    ensures
        bucket_of(q, q[b].0.0) == q[b].1@,
    decreases q.len(),
{
    if b > 0 {
        assert(q.drop_first()[b - 1] == q[b]);
        lemma_bucket_at(q.drop_first(), b - 1);
    }
}

/// A priority that no bucket has gets the empty bucket.
proof fn lemma_bucket_absent(q: Seq<(Priority, Vec<TransactionDigest>)>, x: u64)
    requires
        forall|j: int| 0 <= j < q.len() ==> q[j].0.0 != x,
    ensures
        bucket_of(q, x) == Seq::<TransactionDigest>::empty(),
    decreases q.len(),
{
    if q.len() > 0 {
        lemma_bucket_absent(q.drop_first(), x);
    }
}

/// Replacing one bucket's digests changes only that priority's bucket.
proof fn lemma_bucket_update(
    q: Seq<(Priority, Vec<TransactionDigest>)>,
    b: int,
    e: (Priority, Vec<TransactionDigest>),
    x: u64,
)
    requires
        queue_sorted(q),
        0 <= b < q.len(),
        e.0 == q[b].0,
    ensures
        queue_sorted(q.update(b, e)),
        bucket_of(q.update(b, e), x) == if x == e.0.0 {
            e.1@
        } else {
            bucket_of(q, x)
        },
    decreases q.len(),
{
    let t = q.update(b, e);
    if b == 0 {
        assert(t.drop_first() == q.drop_first());
    } else {
        assert(t.drop_first() == q.drop_first().update(b - 1, e));
        lemma_bucket_update(q.drop_first(), b - 1, e, x);
    }
}

/// Inserting a bucket for a new priority at its sorted place keeps the queue
/// sorted and adds only that bucket.
proof fn lemma_bucket_insert(
    q: Seq<(Priority, Vec<TransactionDigest>)>,
    b: int,
    e: (Priority, Vec<TransactionDigest>),
    x: u64,
)
    requires
        queue_sorted(q),
        0 <= b <= q.len(),
        forall|j: int| 0 <= j < b ==> q[j].0.0 < e.0.0,
        forall|j: int| b <= j < q.len() ==> q[j].0.0 > e.0.0,
    ensures
        queue_sorted(q.insert(b, e)),
        bucket_of(q.insert(b, e), x) == if x == e.0.0 {
            e.1@
        } else {
            bucket_of(q, x)
        },
    decreases q.len(),
{
    let t = q.insert(b, e);
    if b == 0 {
        assert(t.drop_first() == q);
        if x != e.0.0 {
        }
    } else {
        assert(t.drop_first() == q.drop_first().insert(b - 1, e));
        lemma_bucket_insert(q.drop_first(), b - 1, e, x);
    }
}

/// The first transaction with a digest has that digest; with no such
/// transaction, none has it.
proof fn lemma_find_digest(txs: Seq<TransactionInfo>, d: Seq<u8>)
    ensures
        match find_digest(txs, d) {
            Some(i) => 0 <= i < txs.len() && txs[i].digest@ == d && forall|j: int|
                0 <= j < i ==> txs[j].digest@ != d,
            None => forall|j: int| 0 <= j < txs.len() ==> txs[j].digest@ != d,
        },
    decreases txs.len(),
{
    if txs.len() > 0 {
        lemma_find_digest(txs.drop_first(), d);
        if txs[0].digest@ != d {
            match find_digest(txs.drop_first(), d) {
                Some(i) => {
                    assert forall|j: int| 0 <= j < i + 1 implies txs[j].digest@ != d by {
                        if j > 0 {
                            assert(txs[j] == txs.drop_first()[j - 1]);
                        }
                    }
                },
                None => {
                    assert forall|j: int| 0 <= j < txs.len() implies txs[j].digest@ != d by {
                        if j > 0 {
                            assert(txs[j] == txs.drop_first()[j - 1]);
                        }
                    }
                },
            }
        }
    }
}

/// The queued digests from the highest priority bucket down to the lowest,
/// each bucket in arrival order.
pub open spec fn flatten_desc(q: Seq<(Priority, Vec<TransactionDigest>)>) -> Seq<TransactionDigest>
    decreases q.len(),
{
    if q.len() == 0 {
        Seq::empty()
    } else {
        q.last().1@ + flatten_desc(q.drop_last())
    }
}

/// One step of batch selection: once `max` transactions are picked nothing
/// more is; a digest whose transaction is pooled and not expired adds that
/// transaction (by its index in the pool).
pub open spec fn batch_step(
    acc: Seq<int>,
    d: Seq<u8>,
    txs: Seq<TransactionInfo>,
    now: u64,
    timeout: u64,
    max: usize,
) -> Seq<int> {
    if acc.len() >= max {
        acc
    } else {
        match find_digest(txs, d) {
            Some(i) => if expired(txs[i], now, timeout) {
                acc
            } else {
                acc.push(i)
            },
            None => acc,
        }
    }
}

/// Batch selection over a list of digests, starting from `acc`.
pub open spec fn batch_from(
    acc: Seq<int>,
    ds: Seq<TransactionDigest>,
    txs: Seq<TransactionInfo>,
    now: u64,
    timeout: u64,
    max: usize,
) -> Seq<int>
    decreases ds.len(),
{
    if ds.len() == 0 {
        acc
    } else {
        batch_from(batch_step(acc, ds[0]@, txs, now, timeout, max), ds.drop_first(), txs, now, timeout, max)
    }
}

proof fn lemma_batch_push(
    acc: Seq<int>,
    ds: Seq<TransactionDigest>,
    d: TransactionDigest,
    txs: Seq<TransactionInfo>,
    now: u64,
    timeout: u64,
    max: usize,
)
    ensures
        batch_from(acc, ds.push(d), txs, now, timeout, max) == batch_step(
            batch_from(acc, ds, txs, now, timeout, max),
            d@,
            txs,
            now,
            timeout,
            max,
        ),
    decreases ds.len(),
{
    if ds.len() == 0 {
        assert(ds.push(d).drop_first().len() == 0);
        assert(ds.push(d)[0] == d);
        let st = batch_step(acc, d@, txs, now, timeout, max);
        assert(batch_from(st, ds.push(d).drop_first(), txs, now, timeout, max) == st);
    } else {
        assert(ds.push(d).drop_first() == ds.drop_first().push(d));
        assert(ds.push(d)[0] == ds[0]);
        lemma_batch_push(batch_step(acc, ds[0]@, txs, now, timeout, max), ds.drop_first(), d, txs, now, timeout, max);
    }
}

proof fn lemma_batch_full_append(
    acc: Seq<int>,
    a: Seq<TransactionDigest>,
    b: Seq<TransactionDigest>,
    txs: Seq<TransactionInfo>,
    now: u64,
    timeout: u64,
    max: usize,
)
    requires
        batch_from(acc, a, txs, now, timeout, max).len() >= max,
    ensures
        batch_from(acc, a + b, txs, now, timeout, max) == batch_from(acc, a, txs, now, timeout, max),
    decreases b.len(),
{
    if b.len() > 0 {
        lemma_batch_full_append(acc, a, b.drop_last(), txs, now, timeout, max);
        assert(a + b == (a + b.drop_last()).push(b.last()));
        lemma_batch_push(acc, a + b.drop_last(), b.last(), txs, now, timeout, max);
    } else {
        assert(a + b == a);
    }
}

proof fn lemma_flatten_cons(x: (Priority, Vec<TransactionDigest>), r: Seq<(Priority, Vec<TransactionDigest>)>)
    ensures
        flatten_desc(seq![x] + r) == flatten_desc(r) + x.1@,
    decreases r.len(),
{
    if r.len() == 0 {
        assert(seq![x] + r == seq![x]);
        assert(seq![x].drop_last() == Seq::<(Priority, Vec<TransactionDigest>)>::empty());
        assert(flatten_desc(Seq::<(Priority, Vec<TransactionDigest>)>::empty()) == Seq::<TransactionDigest>::empty());
        assert(flatten_desc(seq![x]) == x.1@ + Seq::<TransactionDigest>::empty());
    } else {
        assert((seq![x] + r).drop_last() == seq![x] + r.drop_last());
        lemma_flatten_cons(x, r.drop_last());
    }
}

/// Removing a pooled transaction lowers its sender's count by one.
proof fn lemma_sender_count_remove(txs: Seq<TransactionInfo>, i: int, k: KeyView)
    requires
        0 <= i < txs.len(),
    ensures
        sender_count(txs.remove(i), k) + (if txs[i].transaction.data.sender@ == k {
            1nat
        } else {
            0nat
        }) == sender_count(txs, k),
    decreases txs.len(),
{
    if i == txs.len() - 1 {
        assert(txs.remove(i) == txs.drop_last());
    } else {
        assert(txs.remove(i).drop_last() == txs.drop_last().remove(i));
        assert(txs.remove(i).last() == txs.last());
        lemma_sender_count_remove(txs.drop_last(), i, k);
    }
}

/// A sender with a pooled transaction has a positive count.
proof fn lemma_sender_count_pos(txs: Seq<TransactionInfo>, i: int)
    requires
        0 <= i < txs.len(),
    ensures
        sender_count(txs, txs[i].transaction.data.sender@) >= 1,
{
    lemma_sender_count_remove(txs, i, txs[i].transaction.data.sender@);
}

/// Removing the entry with a given digest keeps digests distinct and
/// entries well formed, and removes exactly the entries with that digest.
proof fn lemma_remove_entry(cur: Seq<TransactionInfo>, i: int, d: Seq<u8>)
    requires
        0 <= i < cur.len(),
        cur[i].digest@ == d,
        forall|x: int, y: int| 0 <= x < y < cur.len() ==> cur[x].digest@ != cur[y].digest@,
        forall|x: int|
            0 <= x < cur.len() ==> {
                &&& (#[trigger] cur[x]).digest@ == spec_sha256(enc_signed(cur[x].transaction))
                &&& cur[x].priority.0 == priority_of(cur[x].transaction)
            },
    ensures
        forall|x: int, y: int|
            0 <= x < y < cur.remove(i).len() ==> cur.remove(i)[x].digest@ != cur.remove(i)[y].digest@,
        forall|x: int|
            0 <= x < cur.remove(i).len() ==> {
                &&& (#[trigger] cur.remove(i)[x]).digest@ == spec_sha256(
                    enc_signed(cur.remove(i)[x].transaction),
                )
                &&& cur.remove(i)[x].priority.0 == priority_of(cur.remove(i)[x].transaction)
            },
        forall|e: TransactionInfo|
            #[trigger] cur.remove(i).contains(e) <==> cur.contains(e) && e.digest@ != d,
{
    let t = cur.remove(i);
    assert forall|x: int, y: int| 0 <= x < y < t.len() implies t[x].digest@ != t[y].digest@ by {
        let x0 = if x < i { x } else { x + 1 };
        let y0 = if y < i { y } else { y + 1 };
        assert(t[x] == cur[x0]);
        assert(t[y] == cur[y0]);
    }
    assert forall|x: int| 0 <= x < t.len() implies {
        &&& (#[trigger] t[x]).digest@ == spec_sha256(enc_signed(t[x].transaction))
        &&& t[x].priority.0 == priority_of(t[x].transaction)
    } by {
        let x0 = if x < i { x } else { x + 1 };
        assert(t[x] == cur[x0]);
    }
    assert forall|e: TransactionInfo| #[trigger] t.contains(e) <==> cur.contains(e) && e.digest@ != d by {
        if t.contains(e) {
            let x = choose|x: int| 0 <= x < t.len() && t[x] == e;
            let x0 = if x < i { x } else { x + 1 };
            assert(t[x] == cur[x0]);
            assert(cur.contains(e));
            if x0 < i {
                assert(cur[x0].digest@ != cur[i].digest@);
            } else {
                assert(cur[i].digest@ != cur[x0].digest@);
            }
        }
        if cur.contains(e) && e.digest@ != d {
            let x0 = choose|x: int| 0 <= x < cur.len() && cur[x] == e;
            assert(x0 != i);
            let x = if x0 < i { x0 } else { x0 - 1 };
            assert(t[x] == e);
        }
    }
}

/// `new` holds exactly the transactions of `old` not expired at `now`.
pub open spec fn collected(new: Seq<TransactionInfo>, old: Seq<TransactionInfo>, now: u64, timeout: u64) -> bool {
    forall|e: TransactionInfo|
        #[trigger] new.contains(e) <==> old.contains(e) && !expired(e, now, timeout)
}

/// `r` is the batch that `get_batch_at` picks at time `now`.
pub open spec fn batch_matches(
    r: Seq<SignedTransaction>,
    q: Seq<(Priority, Vec<TransactionDigest>)>,
    txs: Seq<TransactionInfo>,
    now: u64,
    timeout: u64,
    max: usize,
) -> bool {
    let picked = batch_from(Seq::empty(), flatten_desc(q), txs, now, timeout, max);
    &&& r.len() == picked.len()
    &&& forall|k: int|
        0 <= k < r.len() ==> 0 <= picked[k] < txs.len() && enc_signed(#[trigger] r[k]) == enc_signed(
            txs[picked[k]].transaction,
        )
}

/// Main mempool structure
pub struct Mempool {
    /// Configuration
    config: MempoolConfig,
    /// Transaction storage
    transactions: Vec<TransactionInfo>,
    /// Priority queue: buckets of digests by priority, lowest first
    priority_queue: Vec<(Priority, Vec<TransactionDigest>)>,
    /// Per-account transaction count
    account_txs: Vec<(PublicKey, usize)>,
    /// Transaction prioritizer
    prioritizer: TransactionPrioritizer,
    /// The monotonic clock reading taken at creation; timestamps are
    /// nanoseconds since it.
    origin: std::time::Instant,
}

impl Mempool {
    /// The pooled transactions.
    pub closed spec fn entries(&self) -> Seq<TransactionInfo> {
        self.transactions@
    }

    /// The priority buckets.
    pub closed spec fn queue(&self) -> Seq<(Priority, Vec<TransactionDigest>)> {
        self.priority_queue@
    }

    /// The per-account counts.
    pub closed spec fn accounts(&self) -> Seq<(PublicKey, usize)> {
        self.account_txs@
    }

    /// Capacity, timeout and per-account limit.
    pub closed spec fn limits(&self) -> (usize, u64, usize) {
        (self.config.capacity, self.config.transaction_timeout, self.config.per_account_limit)
    }

    /// The mempool's invariant.
    pub open spec fn inv(&self) -> bool {
        &&& self.entries().len() <= self.limits().0
        &&& forall|i: int|
            0 <= i < self.entries().len() ==> {
                &&& (#[trigger] self.entries()[i]).digest@ == spec_sha256(
                    enc_signed(self.entries()[i].transaction),
                )
                &&& self.entries()[i].priority.0 == priority_of(self.entries()[i].transaction)
            }
        &&& forall|i: int, j: int|
            0 <= i < j < self.entries().len() ==> self.entries()[i].digest@ != self.entries()[j].digest@
        &&& forall|i: int, j: int|
            0 <= i < j < self.accounts().len() ==> self.accounts()[i].0@ != self.accounts()[j].0@
        &&& forall|k: KeyView|
            #[trigger] account_count(self.accounts(), k) == sender_count(self.entries(), k)
        &&& forall|k: KeyView| #[trigger] sender_count(self.entries(), k) <= self.limits().2
        &&& queue_sorted(self.queue())
    }

    /// Create new mempool
    pub fn new(config: MempoolConfig) -> (m: Mempool)
        ensures
            m.inv(),
            m.entries().len() == 0,
            m.queue().len() == 0,
            m.limits() == (config.capacity, config.transaction_timeout, config.per_account_limit),
    {
        Mempool {
            config,
            transactions: Vec::new(),
            priority_queue: Vec::new(),
            account_txs: Vec::new(),
            prioritizer: TransactionPrioritizer::new(),
            origin: clock_origin(),
        }
    }

    fn find(&self, digest: &TransactionDigest) -> (r: Option<usize>)
        ensures
            match r {
                Some(i) => find_digest(self.entries(), digest@) == Some(i as int),
                None => find_digest(self.entries(), digest@) is None,
            },
    {
        let n = self.transactions.len();
        let mut i: usize = 0;
        assert(self.transactions@.skip(0) == self.transactions@);
        while i < n
            invariant
                n == self.transactions@.len(),
                i <= n,
                forall|j: int| 0 <= j < i ==> self.transactions@[j].digest@ != digest@,
                find_digest(self.transactions@, digest@) == (match find_digest(
                    self.transactions@.skip(i as int),
                    digest@,
                ) {
                    Some(j) => Some(j + i),
                    None => None::<int>,
                }),
            decreases n - i,
        {
            assert(self.transactions@.skip(i as int).drop_first() == self.transactions@.skip(i + 1));
            if self.transactions[i].digest == *digest {
                return Some(i);
            }
            i = i + 1;
        }
        None
    }

    fn account_index(&self, sender: &PublicKey) -> (r: Option<usize>)
        ensures
            match r {
                Some(i) => i < self.accounts().len() && self.accounts()[i as int].0@ == sender@
                    && forall|j: int| 0 <= j < i ==> self.accounts()[j].0@ != sender@,
                None => forall|j: int|
                    0 <= j < self.accounts().len() ==> self.accounts()[j].0@ != sender@,
            },
    {
        let n = self.account_txs.len();
        let mut i: usize = 0;
        while i < n
            invariant
                n == self.account_txs@.len(),
                i <= n,
                forall|j: int| 0 <= j < i ==> self.account_txs@[j].0@ != sender@,
            decreases n - i,
        {
            if self.account_txs[i].0 == *sender {
                return Some(i);
            }
            i = i + 1;
        }
        None
    }

    fn queue_insert(&mut self, priority: Priority, digest: TransactionDigest)
        requires
            queue_sorted(old(self).queue()),
        ensures
            queue_sorted(final(self).queue()),
            forall|x: u64|
                #[trigger] bucket_of(final(self).queue(), x) == if x == priority.0 {
                    bucket_of(old(self).queue(), x).push(digest)
                } else {
                    bucket_of(old(self).queue(), x)
                },
            final(self).entries() == old(self).entries(),
            final(self).accounts() == old(self).accounts(),
            final(self).limits() == old(self).limits(),
    {
        let n = self.priority_queue.len();
        let mut b: usize = 0;
        while b < n && self.priority_queue[b].0.0 < priority.0
            invariant
                n == self.priority_queue@.len(),
                b <= n,
                forall|j: int| 0 <= j < b ==> self.priority_queue@[j].0.0 < priority.0,
            decreases n - b,
        {
            b = b + 1;
        }
        let ghost q = self.priority_queue@;
        if b < n && self.priority_queue[b].0.0 == priority.0 {
            let mut entry = self.priority_queue.remove(b);
            entry.1.push(digest);
            let ghost e = entry;
            self.priority_queue.insert(b, entry);
            proof {
                assert(self.priority_queue@ == q.update(b as int, e));
                lemma_bucket_at(q, b as int);
                assert forall|x: u64|
                    #[trigger] bucket_of(self.priority_queue@, x) == if x == priority.0 {
                        bucket_of(q, x).push(digest)
                    } else {
                        bucket_of(q, x)
                    } by {
                    lemma_bucket_update(q, b as int, e, x);
                }
                lemma_bucket_update(q, b as int, e, 0);
            }
        } else {
            let mut bucket: Vec<TransactionDigest> = Vec::new();
            bucket.push(digest);
            let ghost e = (priority, bucket);
            self.priority_queue.insert(b, (priority, bucket));
            proof {
                assert forall|j: int| b <= j < q.len() implies q[j].0.0 > priority.0 by {
                    assert(q[b as int].0.0 >= priority.0);
                    if j > b {
                        assert(q[b as int].0.0 < q[j].0.0);
                    }
                }
                assert forall|j: int| 0 <= j < q.len() implies q[j].0.0 != priority.0 by {}
                lemma_bucket_absent(q, priority.0);
                assert forall|x: u64|
                    #[trigger] bucket_of(self.priority_queue@, x) == if x == priority.0 {
                        bucket_of(q, x).push(digest)
                    } else {
                        bucket_of(q, x)
                    } by {
                    lemma_bucket_insert(q, b as int, e, x);
                    if x == priority.0 {
                        assert(e.1@ =~= Seq::<TransactionDigest>::empty().push(digest));
                    }
                }
                lemma_bucket_insert(q, b as int, e, 0);
            }
        }
    }

    /// Add transaction to the mempool at time `now` (nanoseconds): refused
    /// when the pool is full, when the transaction is already pooled, or when
    /// its sender has reached the per-account limit.
    pub fn add_transaction_at(&mut self, transaction: SignedTransaction, now: u64) -> (r: Result<(), MempoolError>)
        requires
            old(self).inv(),
        ensures
            final(self).inv(),
            final(self).limits() == old(self).limits(),
            ({
                let d = spec_sha256(enc_signed(transaction));
                let k = transaction.data.sender@;
                let full = old(self).entries().len() >= old(self).limits().0;
                let dup = find_digest(old(self).entries(), d) is Some;
                let over = sender_count(old(self).entries(), k) >= old(self).limits().2;
                match r {
                    Ok(()) => !full && !dup && !over && final(self).entries() == old(self).entries().push(
                        TransactionInfo {
                            transaction,
                            digest: final(self).entries().last().digest,
                            priority: Priority(priority_of(transaction)),
                            insertion_time: now,
                        },
                    ) && final(self).entries().last().digest@ == d
                      && forall|x: u64|
                        #[trigger] bucket_of(final(self).queue(), x) == if x == priority_of(transaction) {
                            bucket_of(old(self).queue(), x).push(final(self).entries().last().digest)
                        } else {
                            bucket_of(old(self).queue(), x)
                        },
                    Err(e) => final(self).entries() == old(self).entries() && final(self).queue()
                        == old(self).queue() && (if full {
                        e is MempoolFull
                    } else if dup {
                        e is DuplicateTransaction
                    } else {
                        over && e is MempoolFull
                    }),
                }
            }),
    {
        if self.transactions.len() >= self.config.capacity {
            return Err(MempoolError::MempoolFull);
        }
        let digest = transaction.digest();
        if self.find(&digest).is_some() {
            return Err(MempoolError::DuplicateTransaction);
        }
        let ghost k = transaction.data.sender@;
        let idx = self.account_index(transaction.sender());
        let count: usize = match idx {
            Some(i) => {
                proof {
                    lemma_account_count_at(self.account_txs@, i as int);
                }
                self.account_txs[i].1
            },
            None => {
                proof {
                    lemma_account_count_absent(self.account_txs@, k);
                }
                0
            },
        };
        assert(count == sender_count(self.transactions@, k));
        if count >= self.config.per_account_limit {
            return Err(MempoolError::MempoolFull);
        }
        let priority = self.prioritizer.calculate_priority(&transaction);
        let sender = transaction.sender().clone();
        let ghost old_accts = self.account_txs@;
        let ghost old_txs = self.transactions@;
        match idx {
            Some(i) => {
                let mut entry = self.account_txs.remove(i);
                entry.1 = count + 1;
                let ghost e = entry;
                self.account_txs.insert(i, entry);
                proof {
                    assert(self.account_txs@ == old_accts.update(i as int, e));
                    assert forall|kk: KeyView| #[trigger] account_count(self.account_txs@, kk)
                        == if kk == k { (count + 1) as nat } else { account_count(old_accts, kk) } by {
                        lemma_account_count_update(old_accts, i as int, e, kk);
                    }
                    assert forall|a: int, b: int| 0 <= a < b < self.account_txs@.len()
                        implies self.account_txs@[a].0@ != self.account_txs@[b].0@ by {
                        assert(old_accts[a].0@ != old_accts[b].0@);
                    }
                }
            },
            None => {
                let ghost e = (sender, 1usize);
                self.account_txs.push((sender, 1));
                proof {
                    assert forall|kk: KeyView| #[trigger] account_count(self.account_txs@, kk)
                        == if kk == k { 1nat } else { account_count(old_accts, kk) } by {
                        lemma_account_count_push(old_accts, e, kk);
                    }
                    assert forall|a: int, b: int| 0 <= a < b < self.account_txs@.len()
                        implies self.account_txs@[a].0@ != self.account_txs@[b].0@ by {
                        if b < old_accts.len() {
                            assert(old_accts[a].0@ != old_accts[b].0@);
                        }
                    }
                }
            },
        }
        let info = TransactionInfo { transaction, digest, priority, insertion_time: now };
        self.transactions.push(info);
        proof {
            assert(self.transactions@.drop_last() == old_txs);
            lemma_find_digest(old_txs, digest@);
            assert forall|a: int, b: int| 0 <= a < b < self.transactions@.len() implies self.transactions@[a].digest@ != self.transactions@[b].digest@ by {
                if b < old_txs.len() {
                    assert(old_txs[a].digest@ != old_txs[b].digest@);
                }
            }
            assert forall|kk: KeyView| #[trigger] sender_count(self.transactions@, kk) == if kk == k {
                sender_count(old_txs, kk) + 1
            } else {
                sender_count(old_txs, kk)
            } by {}
        }
        self.queue_insert(priority, digest);
        Ok(())
    }

    /// Get the next batch of transactions at time `now`: the highest
    /// priorities first, each priority in arrival order, skipping digests
    /// whose transaction was removed or has expired, at most `max_size`.
    /// Every queued digest is taken off the queue, including those past the
    /// point where the batch filled up; the pool itself is unchanged.
    pub fn get_batch_at(&mut self, max_size: usize, now: u64) -> (r: Vec<SignedTransaction>)
        requires
            old(self).inv(),
        ensures
            final(self).inv(),
            final(self).entries() == old(self).entries(),
            final(self).accounts() == old(self).accounts(),
            final(self).limits() == old(self).limits(),
            final(self).queue().len() == old(self).queue().len(),
            forall|j: int|
                0 <= j < final(self).queue().len() ==> (#[trigger] final(self).queue()[j]).0 == old(
                    self,
                ).queue()[j].0 && final(self).queue()[j].1@.len() == 0,
            batch_matches(r@, old(self).queue(), old(self).entries(), now, old(self).limits().1, max_size),
    {
        let ghost q0 = self.priority_queue@;
        let ghost txs = self.transactions@;
        let timeout = self.config.transaction_timeout;
        let mut batch: Vec<SignedTransaction> = Vec::new();
        let ghost mut acc: Seq<int> = Seq::empty();
        let n = self.priority_queue.len();
        let mut b: usize = n;
        assert(q0.skip(n as int).len() == 0);
        while b > 0
            invariant
                b <= n,
                n == q0.len(),
                self.priority_queue@.len() == n,
                self.transactions@ == txs,
                txs == old(self).entries(),
                q0 == old(self).queue(),
                timeout == old(self).limits().1,
                self.account_txs@ == old(self).accounts(),
                self.config.capacity == old(self).limits().0,
                self.config.transaction_timeout == timeout,
                self.config.per_account_limit == old(self).limits().2,
                forall|j: int| 0 <= j < b ==> self.priority_queue@[j] == q0[j],
                forall|j: int|
                    b <= j < n ==> (#[trigger] self.priority_queue@[j]).0 == q0[j].0
                        && self.priority_queue@[j].1@.len() == 0,
                acc == batch_from(Seq::empty(), flatten_desc(q0.skip(b as int)), txs, now, timeout, max_size),
                batch@.len() == acc.len(),
                forall|k: int|
                    #![trigger batch@[k]] #![trigger acc[k]] 0 <= k < batch@.len() ==> 0 <= acc[k] < txs.len() && enc_signed(batch@[k])
                        == enc_signed(txs[acc[k]].transaction),
            decreases b,
        {
            b = b - 1;
            let entry = self.priority_queue.remove(b);
            assert(entry == q0[b as int]);
            let prio = entry.0;
            let digests = entry.1;
            assert(digests@ == q0[b as int].1@);
            self.priority_queue.insert(b, (prio, Vec::new()));
            let ghost before = flatten_desc(q0.skip(b + 1));
            proof {
                assert(q0.skip(b as int) == seq![q0[b as int]] + q0.skip(b + 1));
                lemma_flatten_cons(q0[b as int], q0.skip(b + 1));
            }
            let m = digests.len();
            let mut j: usize = 0;
            assert(digests@.take(0) == Seq::<TransactionDigest>::empty());
            assert(before + digests@.take(0) == before);
            assert(acc == batch_from(Seq::empty(), before, txs, now, timeout, max_size));
            while j < m && batch.len() < max_size
                invariant
                    m == digests@.len(),
                    j <= m,
                    self.transactions@ == txs,
                    digests@ == q0[b as int].1@,
                    acc == batch_from(Seq::empty(), before + digests@.take(j as int), txs, now, timeout, max_size),
                    batch@.len() == acc.len(),
                    forall|k: int|
                        #![trigger batch@[k]] #![trigger acc[k]] 0 <= k < batch@.len() ==> 0 <= acc[k] < txs.len() && enc_signed(batch@[k])
                            == enc_signed(txs[acc[k]].transaction),
                    timeout == self.config.transaction_timeout,
                decreases m - j,
            {
                let d = digests[j];
                proof {
                    assert(before + digests@.take(j + 1) == (before + digests@.take(j as int)).push(d));
                    lemma_batch_push(Seq::empty(), before + digests@.take(j as int), d, txs, now, timeout, max_size);
                    lemma_find_digest(txs, d@);
                }
                match self.find(&d) {
                    Some(i) => {
                        let info = &self.transactions[i];
                        let is_expired = now > info.insertion_time && now - info.insertion_time > timeout;
                        if !is_expired {
                            let c = info.transaction.clone();
                            batch.push(c);
                            proof {
                                acc = acc.push(i as int);
                            }
                        }
                    },
                    None => {},
                }
                j = j + 1;
            }
            proof {
                if j < m {
                    lemma_batch_full_append(Seq::empty(), before + digests@.take(j as int), digests@.skip(j as int), txs, now, timeout, max_size);
                    assert(before + digests@.take(j as int) + digests@.skip(j as int) == before + digests@);
                } else {
                    assert(digests@.take(j as int) == digests@);
                }
            }
        }
        assert(q0.skip(0) == q0);
        assert(batch_matches(batch@, q0, txs, now, timeout, max_size));
        batch
    }

    /// Removes the pooled transaction with digest `d`, if any, lowering its
    /// sender's count.
    fn remove_one(&mut self, d: &TransactionDigest)
        requires
            old(self).inv(),
        ensures
            final(self).inv(),
            final(self).queue() == old(self).queue(),
            final(self).limits() == old(self).limits(),
            forall|e: TransactionInfo|
                #[trigger] final(self).entries().contains(e) <==> old(self).entries().contains(e)
                    && e.digest@ != d@,
    {
        let ghost cur = self.transactions@;
        proof {
            lemma_find_digest(cur, d@);
        }
        match self.find(d) {
            Some(i) => {
                let info = self.transactions.remove(i);
                let ghost sk = info.transaction.data.sender@;
                proof {
                    lemma_sender_count_pos(cur, i as int);
                    assert forall|kk: KeyView| #[trigger] sender_count(self.transactions@, kk)
                        + (if sk == kk { 1nat } else { 0nat }) == sender_count(cur, kk) by {
                        lemma_sender_count_remove(cur, i as int, kk);
                    }
                    lemma_remove_entry(cur, i as int, d@);
                }
                let idx = self.account_index(&info.transaction.data.sender);
                let ghost old_accts = self.account_txs@;
                assert(old_accts == old(self).accounts());
                assert(forall|x: int, y: int| 0 <= x < y < old_accts.len() ==> old_accts[x].0@ != old_accts[y].0@);
                match idx {
                    Some(a) => {
                        proof {
                            lemma_account_count_at(old_accts, a as int);
                        }
                        let mut entry = self.account_txs.remove(a);
                        entry.1 = if entry.1 > 0 { entry.1 - 1 } else { 0 };
                        let ghost e = entry;
                        self.account_txs.insert(a, entry);
                        proof {
                            assert(self.account_txs@ == old_accts.update(a as int, e));
                            assert forall|kk: KeyView| #[trigger] account_count(self.account_txs@, kk)
                                == sender_count(self.transactions@, kk) by {
                                lemma_account_count_update(old_accts, a as int, e, kk);
                            }
                            assert forall|x: int, y: int| 0 <= x < y < self.account_txs@.len()
                                implies self.account_txs@[x].0@ != self.account_txs@[y].0@ by {
                                assert(old_accts[x].0@ != old_accts[y].0@);
                            }
                        }
                    },
                    None => {
                        proof {
                            lemma_account_count_absent(old_accts, sk);
                            assert(account_count(old_accts, sk) == sender_count(cur, sk));
                        }
                    },
                }
            },
            None => {
                proof {
                    assert forall|e: TransactionInfo|
                        #[trigger] self.transactions@.contains(e) <==> cur.contains(e) && e.digest@ != d@ by {
                        if self.transactions@.contains(e) {
                            let x = choose|x: int| 0 <= x < cur.len() && cur[x] == e;
                            assert(cur[x].digest@ != d@);
                        }
                    }
                }
            },
        }
    }

    /// Remove the pooled transactions whose digests are listed, lowering
    /// their senders' counts; digests not pooled are ignored. The priority
    /// queue is left as it is.
    pub fn remove_transactions(&mut self, digests: &[TransactionDigest])
        requires
            old(self).inv(),
        ensures
            final(self).inv(),
            final(self).queue() == old(self).queue(),
            final(self).limits() == old(self).limits(),
            forall|e: TransactionInfo|
                #[trigger] final(self).entries().contains(e) <==> old(self).entries().contains(e)
                    && !(exists|j: int| 0 <= j < digests@.len() && digests@[j]@ == e.digest@),
    {
        let n = digests.len();
        let mut k: usize = 0;
        let ghost txs0 = self.entries();
        while k < n
            invariant
                n == digests@.len(),
                k <= n,
                self.inv(),
                self.queue() == old(self).queue(),
                self.limits() == old(self).limits(),
                txs0 == old(self).entries(),
                forall|e: TransactionInfo|
                    #[trigger] self.entries().contains(e) <==> txs0.contains(e) && !(exists|j: int|
                        0 <= j < k && digests@[j]@ == e.digest@),
            decreases n - k,
        {
            let ghost before = self.entries();
            self.remove_one(&digests[k]);
            proof {
                assert forall|e: TransactionInfo|
                    #[trigger] self.entries().contains(e) <==> txs0.contains(e) && !(exists|j: int|
                        0 <= j < k + 1 && digests@[j]@ == e.digest@) by {
                    assert(self.entries().contains(e) <==> before.contains(e) && e.digest@ != digests@[k as int]@);
                    assert(before.contains(e) <==> txs0.contains(e) && !(exists|j: int| 0 <= j < k && digests@[j]@ == e.digest@));
                    if exists|j: int| 0 <= j < k + 1 && digests@[j]@ == e.digest@ {
                        let j = choose|j: int| 0 <= j < k + 1 && digests@[j]@ == e.digest@;
                        if j < k {
                        }
                    }
                }
            }
            k = k + 1;
        }
    }

    /// Garbage collect the transactions that have expired at time `now`.
    pub fn garbage_collect_at(&mut self, now: u64)
        requires
            old(self).inv(),
        ensures
            final(self).inv(),
            final(self).queue() == old(self).queue(),
            final(self).limits() == old(self).limits(),
            forall|e: TransactionInfo|
                #[trigger] final(self).entries().contains(e) <==> old(self).entries().contains(e)
                    && !expired(e, now, old(self).limits().1),
    {
        let timeout = self.config.transaction_timeout;
        let mut to_remove: Vec<TransactionDigest> = Vec::new();
        let n = self.transactions.len();
        let ghost txs = self.transactions@;
        let ghost mut src: Seq<int> = Seq::empty();
        let mut i: usize = 0;
        while i < n
            invariant
                n == txs.len(),
                i <= n,
                txs == self.transactions@,
                timeout == self.limits().1,
                src.len() == to_remove@.len(),
                forall|j: int|
                    0 <= j < src.len() ==> 0 <= #[trigger] src[j] < i && expired(txs[src[j]], now, timeout)
                        && to_remove@[j]@ == txs[src[j]].digest@,
                forall|x: int|
                    0 <= x < i && expired(#[trigger] txs[x], now, timeout) ==> exists|j: int|
                        0 <= j < src.len() && src[j] == x,
            decreases n - i,
        {
            let info = &self.transactions[i];
            if now > info.insertion_time && now - info.insertion_time > timeout {
                to_remove.push(info.digest);
                proof {
                    let prev = src;
                    src = src.push(i as int);
                    assert forall|x: int| 0 <= x < i + 1 && expired(#[trigger] txs[x], now, timeout) implies exists|j: int|
                        0 <= j < src.len() && src[j] == x by {
                        if x < i {
                            let j = choose|j: int| 0 <= j < prev.len() && prev[j] == x;
                            assert(src[j] == x);
                        } else {
                            assert(src[src.len() - 1] == x);
                        }
                    }
                }
            } else {
                proof {
                    assert(!expired(txs[i as int], now, timeout));
                }
            }
            i = i + 1;
        }
        self.remove_transactions(to_remove.as_slice());
        proof {
            assert forall|e: TransactionInfo| #[trigger] self.entries().contains(e) <==> txs.contains(e)
                && !expired(e, now, timeout) by {
                if txs.contains(e) {
                    let x = choose|x: int| 0 <= x < txs.len() && txs[x] == e;
                    if expired(e, now, timeout) {
                        let j = choose|j: int| 0 <= j < src.len() && src[j] == x;
                        assert(to_remove@[j]@ == e.digest@);
                    }
                    if exists|j: int| 0 <= j < to_remove@.len() && to_remove@[j]@ == e.digest@ {
                        let j = choose|j: int| 0 <= j < to_remove@.len() && to_remove@[j]@ == e.digest@;
                        let y = src[j];
                        if y != x {
                            if x < y {
                                assert(txs[x].digest@ != txs[y].digest@);
                            } else {
                                assert(txs[y].digest@ != txs[x].digest@);
                            }
                        }
                    }
                }
            }
        }
    }

    /// Add transaction to mempool, timestamped with the nanoseconds elapsed
    /// on the pool's monotonic clock since the pool was created.
    pub fn add_transaction(&mut self, transaction: SignedTransaction) -> (r: Result<(), MempoolError>)
        requires
            old(self).inv(),
        ensures
            final(self).inv(),
            final(self).limits() == old(self).limits(),
            ({
                let d = spec_sha256(enc_signed(transaction));
                let k = transaction.data.sender@;
                let full = old(self).entries().len() >= old(self).limits().0;
                let dup = find_digest(old(self).entries(), d) is Some;
                let over = sender_count(old(self).entries(), k) >= old(self).limits().2;
                match r {
                    Ok(()) => !full && !dup && !over && final(self).entries() == old(self).entries().push(
                        TransactionInfo {
                            transaction,
                            digest: final(self).entries().last().digest,
                            priority: Priority(priority_of(transaction)),
                            insertion_time: final(self).entries().last().insertion_time,
                        },
                    ) && final(self).entries().last().digest@ == d
                      && forall|x: u64|
                        #[trigger] bucket_of(final(self).queue(), x) == if x == priority_of(transaction) {
                            bucket_of(old(self).queue(), x).push(final(self).entries().last().digest)
                        } else {
                            bucket_of(old(self).queue(), x)
                        },
                    Err(e) => final(self).entries() == old(self).entries() && final(self).queue()
                        == old(self).queue() && (if full {
                        e is MempoolFull
                    } else if dup {
                        e is DuplicateTransaction
                    } else {
                        over && e is MempoolFull
                    }),
                }
            }),
    {
        let now = nanos_since(&self.origin);
        self.add_transaction_at(transaction, now)
    }

    /// Get the next batch of transactions, judging expiry at the current
    /// time.
    pub fn get_batch(&mut self, max_size: usize) -> (r: Vec<SignedTransaction>)
        requires
            old(self).inv(),
        ensures
            final(self).inv(),
            final(self).entries() == old(self).entries(),
            final(self).limits() == old(self).limits(),
            final(self).queue().len() == old(self).queue().len(),
            forall|j: int|
                0 <= j < final(self).queue().len() ==> (#[trigger] final(self).queue()[j]).0 == old(
                    self,
                ).queue()[j].0 && final(self).queue()[j].1@.len() == 0,
            exists|now: u64|
                #[trigger] batch_matches(
                    r@,
                    old(self).queue(),
                    old(self).entries(),
                    now,
                    old(self).limits().1,
                    max_size,
                ),
    {
        let now = nanos_since(&self.origin);
        let r = self.get_batch_at(max_size, now);
        assert(batch_matches(r@, old(self).queue(), old(self).entries(), now, old(self).limits().1, max_size));
        r
    }

    /// Garbage collect the transactions expired at the current time.
    pub fn garbage_collect(&mut self)
        requires
            old(self).inv(),
        ensures
            final(self).inv(),
            final(self).queue() == old(self).queue(),
            final(self).limits() == old(self).limits(),
            exists|now: u64|
                #[trigger] collected(final(self).entries(), old(self).entries(), now, old(self).limits().1),
    {
        let now = nanos_since(&self.origin);
        self.garbage_collect_at(now);
        assert(collected(self.entries(), old(self).entries(), now, old(self).limits().1));
    }
}

/// Law: a pool that keeps its invariant never holds more transactions than
/// its capacity, nor more than the per-account limit from one sender, and
/// never holds two transactions with one digest.
pub proof fn law_pool_bounded(m: Mempool, k: KeyView)
    requires
        m.inv(),
    ensures
        m.entries().len() <= m.limits().0,
        sender_count(m.entries(), k) <= m.limits().2,
        forall|i: int, j: int|
            0 <= i < j < m.entries().len() ==> m.entries()[i].digest@ != m.entries()[j].digest@,
{
    assert(sender_count(m.entries(), k) <= m.limits().2);
}

/// Law: the count kept for each sender is the number of its pooled
/// transactions.
pub proof fn law_account_count_exact(m: Mempool, k: KeyView)
    requires
        m.inv(),
    ensures
        account_count(m.accounts(), k) == sender_count(m.entries(), k),
{
    assert(account_count(m.accounts(), k) == sender_count(m.entries(), k));
}

/// Law: a transaction whose digest is already pooled is refused (as a
/// duplicate, or because the pool is full).
pub proof fn law_pooled_digest_refused(m: Mempool, tx: SignedTransaction)
    requires
        m.inv(),
        exists|i: int| 0 <= i < m.entries().len() && m.entries()[i].digest@ == spec_sha256(enc_signed(tx)),
    ensures
        find_digest(m.entries(), spec_sha256(enc_signed(tx))) is Some,
{
    lemma_find_digest(m.entries(), spec_sha256(enc_signed(tx)));
}

} // verus!
