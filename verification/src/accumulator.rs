//! The state accumulator: a hash tree over appended leaves, with proofs of
//! inclusion.
use vstd::prelude::*;
use crate::errors::StateError;
use crate::hashing::{sha256, spec_sha256, append_bytes, digest_eq};

verus! {

/// Digest of a leaf: SHA-256 over the prefix byte 0 and the data.
pub open spec fn leaf_digest(data: Seq<u8>) -> Seq<u8> {
    spec_sha256(seq![0u8] + data)
}

/// Digest of an internal node: SHA-256 over the prefix byte 1 and the two
/// child digests.
pub open spec fn node_digest(left: Seq<u8>, right: Seq<u8>) -> Seq<u8> {
    spec_sha256(seq![1u8] + left + right)
}

/// One step of proof checking: combine the running digest with a sibling,
/// the running digest on the left for an even position.
pub open spec fn proof_step(cur: Seq<u8>, sibling: Seq<u8>, pos: nat) -> Seq<u8> {
    if pos % 2 == 0 {
        node_digest(cur, sibling)
    } else {
        node_digest(sibling, cur)
    }
}

/// The digest that `verify_proof` computes from a starting digest, the
/// siblings in the order given (from the bottom of the tree up), and the
/// position, halved after each step.
pub open spec fn fold_proof(cur: Seq<u8>, proof: Seq<[u8; 32]>, pos: nat) -> Seq<u8>
    decreases proof.len(),
{
    if proof.len() == 0 {
        cur
    } else {
        fold_proof(proof_step(cur, proof[0]@, pos), proof.drop_first(), pos / 2)
    }
}

/// Digest of a subtree that holds no leaf yet: 32 zero bytes.
pub open spec fn empty_digest() -> Seq<u8> {
    Seq::new(32, |_i: int| 0u8)
}

/// Two to the power `h`.
pub open spec fn pow2(h: nat) -> nat
    decreases h,
{
    if h == 0 {
        1
    } else {
        2 * pow2((h - 1) as nat)
    }
}

/// `pos` halved `k` times.
pub open spec fn halve(pos: nat, k: nat) -> nat
    decreases k,
{
    if k == 0 {
        pos
    } else {
        halve(pos / 2, (k - 1) as nat)
    }
}

/// Height of the tree over `n` leaves: the least `h` with `pow2(h) >= n`.
pub open spec fn height_for(n: nat) -> nat
    decreases n,
{
    if n <= 1 {
        0
    } else {
        1 + height_for(((n + 1) / 2) as nat)
    }
}

/// Digest of the subtree of height `h` over the positions from `start` to
/// `start + pow2(h)`: the empty digest when no leaf falls there, the leaf's
/// digest at height 0, and otherwise the digest of its two halves.
pub open spec fn tree_digest(leaves: Seq<Seq<u8>>, h: nat, start: nat) -> Seq<u8>
    decreases h,
{
    if start >= leaves.len() {
        empty_digest()
    } else if h == 0 {
        leaf_digest(leaves[start as int])
    } else {
        node_digest(
            tree_digest(leaves, (h - 1) as nat, start),
            tree_digest(leaves, (h - 1) as nat, start + pow2((h - 1) as nat)),
        )
    }
}

/// The root digest of the accumulator over `leaves`: none while no leaf was
/// appended, else the digest of the smallest tree that holds them all.
pub open spec fn accumulated(leaves: Seq<Seq<u8>>) -> Option<Seq<u8>> {
    if leaves.len() == 0 {
        None
    } else {
        Some(tree_digest(leaves, height_for(leaves.len()), 0))
    }
}

/// A node of the accumulator tree.
pub struct AccumulatorNode {
    /// Node hash
    pub hash: [u8; 32],
    /// Left child
    pub left: Option<Box<AccumulatorNode>>,
    /// Right child
    pub right: Option<Box<AccumulatorNode>>,
}

impl AccumulatorNode {
    /// This node is the subtree of height `h` over the positions from
    /// `start` on: a childless node with the empty digest when no leaf falls
    /// there, the leaf at `start` at height 0, and otherwise a node whose two
    /// children are the two halves and whose hash is their node digest.
    pub open spec fn models(self, leaves: Seq<Seq<u8>>, h: nat, start: nat) -> bool
        decreases h,
    {
        if start >= leaves.len() {
            self.hash@ == empty_digest() && self.left is None && self.right is None
        } else if h == 0 {
            self.hash@ == leaf_digest(leaves[start as int]) && self.left is None && self.right is None
        } else {
            match (self.left, self.right) {
                (Some(l), Some(r)) => {
                    &&& self.hash@ == node_digest(l.hash@, r.hash@)
                    &&& l.models(leaves, (h - 1) as nat, start)
                    &&& r.models(leaves, (h - 1) as nat, start + pow2((h - 1) as nat))
                },
                _ => false,
            }
        }
    }

    /// The sibling hashes on the way from the position `i` of this subtree
    /// (of height `h`, from `start` on) up to this node, the lowest first.
    pub open spec fn proof_of(self, h: nat, start: nat, i: nat) -> Seq<[u8; 32]>
        decreases h,
    {
        if h == 0 || self.left is None || self.right is None {
            Seq::empty()
        } else if i < start + pow2((h - 1) as nat) {
            self.left.unwrap().proof_of((h - 1) as nat, start, i).push(self.right.unwrap().hash)
        } else {
            self.right.unwrap().proof_of((h - 1) as nat, start + pow2((h - 1) as nat), i).push(
                self.left.unwrap().hash,
            )
        }
    }

    /// Create leaf node
    pub fn leaf(data: &[u8]) -> (node: AccumulatorNode)
        ensures
            node.hash@ == leaf_digest(data@),
            node.left is None,
            node.right is None,
    {
        let mut bytes: Vec<u8> = Vec::new();
        bytes.push(0u8);
        append_bytes(&mut bytes, data);
        assert(bytes@ == seq![0u8] + data@);
        AccumulatorNode { hash: sha256(bytes.as_slice()), left: None, right: None }
    }

    /// Create internal node
    pub fn internal(left: AccumulatorNode, right: AccumulatorNode) -> (node: AccumulatorNode)
        ensures
            node.hash@ == node_digest(left.hash@, right.hash@),
            node.left == Some(Box::new(left)),
            node.right == Some(Box::new(right)),
    {
        let mut bytes: Vec<u8> = Vec::new();
        bytes.push(1u8);
        append_bytes(&mut bytes, &left.hash);
        append_bytes(&mut bytes, &right.hash);
        assert(bytes@ == seq![1u8] + left.hash@ + right.hash@);
        let hash = sha256(bytes.as_slice());
        AccumulatorNode { hash, left: Some(Box::new(left)), right: Some(Box::new(right)) }
    }

    /// The node standing for a subtree that holds no leaf yet.
    fn empty() -> (node: AccumulatorNode)
        ensures
            node.hash@ == empty_digest(),
            node.left is None,
            node.right is None,
    {
        let node = AccumulatorNode { hash: [0u8; 32], left: None, right: None };
        assert(node.hash@ =~= empty_digest());
        node
    }

    /// Places `leaf` at the position `start + pos` of this subtree of height
    /// `h` (`width` positions), the first position not taken yet, and
    /// rebuilds the nodes above it.
    fn place(
        &mut self,
        width: u128,
        pos: u128,
        leaf: AccumulatorNode,
        Ghost(leaves): Ghost<Seq<Seq<u8>>>,
        Ghost(data): Ghost<Seq<u8>>,
        Ghost(h): Ghost<nat>,
        Ghost(start): Ghost<nat>,
    )
        requires
            old(self).models(leaves, h, start),
            width == pow2(h),
            start + pos == leaves.len(),
            pos < width,
            leaf.hash@ == leaf_digest(data),
            leaf.left is None,
            leaf.right is None,
        ensures
            final(self).models(leaves.push(data), h, start),
        decreases h,
    {
        let ghost next = leaves.push(data);
        if width == 1 {
            proof {
                lemma_pow2_one(h);
                assert(next[start as int] == data);
            }
            *self = leaf;
        } else {
            proof {
                lemma_pow2_one(h);
            }
            let half = width / 2;
            let ghost hh = (h - 1) as nat;
            assert(half == pow2(hh));
            let (mut left, mut right) = match (self.left.take(), self.right.take()) {
                (Some(l), Some(r)) => (*l, *r),
                _ => (AccumulatorNode::empty(), AccumulatorNode::empty()),
            };
            assert(left.models(leaves, hh, start));
            assert(right.models(leaves, hh, (start + half) as nat));
            if pos < half {
                left.place(half, pos, leaf, Ghost(leaves), Ghost(data), Ghost(hh), Ghost(start));
                proof {
                    lemma_models_push(right, leaves, data, hh, (start + half) as nat);
                }
            } else {
                right.place(half, pos - half, leaf, Ghost(leaves), Ghost(data), Ghost(hh), Ghost((start + half) as nat));
                proof {
                    lemma_models_push(left, leaves, data, hh, start);
                }
            }
            *self = AccumulatorNode::internal(left, right);
        }
    }
}

/// `pow2` is at least 1, and it is 1 exactly at height 0.
pub proof fn lemma_pow2_one(h: nat)
    ensures
        pow2(h) >= 1,
        (pow2(h) == 1) == (h == 0),
    decreases h,
{
    if h > 0 {
        lemma_pow2_one((h - 1) as nat);
    }
}

/// A subtree that lies wholly before the first free position, or wholly
/// after it, stands for the same positions once a leaf is appended.
pub proof fn lemma_models_push(node: AccumulatorNode, leaves: Seq<Seq<u8>>, data: Seq<u8>, h: nat, start: nat)
    requires
        node.models(leaves, h, start),
        start + pow2(h) <= leaves.len() || start > leaves.len(),
    ensures
        node.models(leaves.push(data), h, start),
    decreases h,
{
    lemma_pow2_one(h);
    let next = leaves.push(data);
    if start < leaves.len() {
        if h == 0 {
            assert(next[start as int] == leaves[start as int]);
        } else {
            let hh = (h - 1) as nat;
            lemma_pow2_one(hh);
            lemma_models_push(*node.left.unwrap(), leaves, data, hh, start);
            lemma_models_push(*node.right.unwrap(), leaves, data, hh, start + pow2(hh));
        }
    }
}

/// A node that stands for a subtree carries that subtree's digest.
pub proof fn lemma_models_digest(node: AccumulatorNode, leaves: Seq<Seq<u8>>, h: nat, start: nat)
    requires
        node.models(leaves, h, start),
    ensures
        node.hash@ == tree_digest(leaves, h, start),
    decreases h,
{
    if start < leaves.len() && h > 0 {
        let hh = (h - 1) as nat;
        lemma_models_digest(*node.left.unwrap(), leaves, hh, start);
        lemma_models_digest(*node.right.unwrap(), leaves, hh, start + pow2(hh));
    }
}

/// The least height whose width holds `n` leaves is `height_for(n)`.
pub proof fn lemma_height(n: nat, h: nat)
    requires
        n >= 1,
        pow2(h) >= n,
        h == 0 || pow2((h - 1) as nat) < n,
    ensures
        h == height_for(n),
    decreases n,
{
    lemma_pow2_one(h);
    if n == 1 {
        if h > 0 {
            lemma_pow2_one((h - 1) as nat);
        }
    } else {
        assert(h > 0);
        let hh = (h - 1) as nat;
        if hh > 0 {
            assert(pow2(hh) == 2 * pow2((hh - 1) as nat));
        }
        lemma_height(((n + 1) / 2) as nat, hh);
    }
}

/// Folding one more sibling onto a proof combines it at the position halved
/// once per sibling before it.
pub proof fn lemma_fold_push(cur: Seq<u8>, p: Seq<[u8; 32]>, x: [u8; 32], pos: nat)
    ensures
        fold_proof(cur, p.push(x), pos) == proof_step(fold_proof(cur, p, pos), x@, halve(pos, p.len())),
    decreases p.len(),
{
    let px = p.push(x);
    if p.len() == 0 {
        assert(px.drop_first() =~= Seq::<[u8; 32]>::empty());
        assert(px[0] == x);
        assert(fold_proof(proof_step(cur, x@, pos), px.drop_first(), pos / 2) == proof_step(cur, x@, pos));
    } else {
        assert(px.drop_first() =~= p.drop_first().push(x));
        assert(px[0] == p[0]);
        lemma_fold_push(proof_step(cur, p[0]@, pos), p.drop_first(), x, pos / 2);
        assert(halve(pos, p.len()) == halve(pos / 2, p.drop_first().len()));
    }
}

/// Halving `q * pow2(k) + r` (with `r` below `pow2(k)`) `k` times gives `q`.
pub proof fn lemma_halve(q: nat, r: nat, k: nat)
    requires
        r < pow2(k),
    ensures
        halve(q * pow2(k) + r, k) == q,
    decreases k,
{
    if k == 0 {
        assert(q * 1 == q);
    } else {
        let kk = (k - 1) as nat;
        let p = pow2(kk);
        assert(q * pow2(k) == 2 * (q * p)) by (nonlinear_arith)
            requires
                pow2(k) == 2 * p,
        ;
        let x = q * pow2(k) + r;
        assert(x / 2 == q * p + r / 2);
        lemma_halve(q, r / 2, kk);
    }
}

/// The proof collected for the position `i` of a subtree leads from the
/// leaf's digest to the subtree's hash, whatever lies above the subtree.
pub proof fn lemma_proof_of_folds(node: AccumulatorNode, leaves: Seq<Seq<u8>>, h: nat, start: nat, i: nat, q: nat)
    requires
        node.models(leaves, h, start),
        start <= i < start + pow2(h),
        i < leaves.len(),
    ensures
        node.proof_of(h, start, i).len() == h,
        fold_proof(leaf_digest(leaves[i as int]), node.proof_of(h, start, i), (q * pow2(h) + (i - start)) as nat)
            == node.hash@,
    decreases h,
{
    if h == 0 {
        assert(q * 1 + (i - start) == q * 1);
    } else {
        let hh = (h - 1) as nat;
        let p = pow2(hh);
        let l = *node.left.unwrap();
        let r = *node.right.unwrap();
        let cur = leaf_digest(leaves[i as int]);
        let pos: nat = q * pow2(h) + (i - start) as nat;
        if i < start + p {
            assert(q * pow2(h) == (2 * q) * p) by (nonlinear_arith)
                requires
                    pow2(h) == 2 * p,
            ;
            lemma_proof_of_folds(l, leaves, hh, start, i, 2 * q);
            let pl = l.proof_of(hh, start, i);
            lemma_fold_push(cur, pl, r.hash, pos);
            lemma_halve(2 * q, (i - start) as nat, hh);
        } else {
            assert(q * pow2(h) + p == (2 * q + 1) * p) by (nonlinear_arith)
                requires
                    pow2(h) == 2 * p,
            ;
            lemma_proof_of_folds(r, leaves, hh, start + p, i, 2 * q + 1);
            let pr = r.proof_of(hh, start + p, i);
            lemma_fold_push(cur, pr, l.hash, pos);
            lemma_halve(2 * q + 1, (i - start - p) as nat, hh);
        }
    }
}

/// State accumulator
pub struct StateAccumulator {
    /// Root node
    root: Option<AccumulatorNode>,
    /// Leaf count
    leaf_count: usize,
    /// The number of positions the tree has room for
    width: u128,
    /// The data of the leaves appended, in order
    leaves: Ghost<Seq<Seq<u8>>>,
    /// The height of the tree
    height: Ghost<nat>,
}

impl StateAccumulator {
    /// The data of the leaves appended, in order.
    pub closed spec fn leaves(&self) -> Seq<Seq<u8>> {
        self.leaves@
    }

    /// The sibling hashes that prove the leaf at position `i`, the lowest
    /// first.
    pub closed spec fn proof_at(&self, i: nat) -> Seq<[u8; 32]> {
        match self.root {
            Some(n) => n.proof_of(self.height@, 0, i),
            None => Seq::empty(),
        }
    }

    /// The accumulator is well formed: its tree is the smallest perfect tree
    /// that holds the leaves appended, with the positions after them empty.
    pub closed spec fn inv(&self) -> bool {
        &&& self.leaves@.len() == self.leaf_count
        &&& self.width == pow2(self.height@)
        &&& self.leaf_count <= self.width
        &&& (self.height@ == 0 || pow2((self.height@ - 1) as nat) < self.leaf_count)
        &&& match self.root {
            None => self.leaf_count == 0,
            Some(n) => self.leaf_count > 0 && n.models(self.leaves@, self.height@, 0),
        }
    }

    /// The root's hash is the accumulated digest of the leaves.
    proof fn lemma_root(&self)
        requires
            self.inv(),
        ensures
            match self.root {
                Some(n) => accumulated(self.leaves()) == Some(n.hash@),
                None => accumulated(self.leaves()) is None,
            },
    {
        if let Some(n) = self.root {
            lemma_models_digest(n, self.leaves@, self.height@, 0);
            lemma_height(self.leaves@.len(), self.height@);
        }
    }

    /// Create new accumulator
    pub fn new() -> (acc: StateAccumulator)
        ensures
            acc.inv(),
            acc.leaves() == Seq::<Seq<u8>>::empty(),
    {
        StateAccumulator { root: None, leaf_count: 0, width: 1, leaves: Ghost(Seq::empty()), height: Ghost(0) }
    }

    /// Append leaf: the leaf takes the first free position of the tree,
    /// which doubles in width (the old tree becoming its left half) when it
    /// is full.
    pub fn append(&mut self, data: &[u8]) -> (r: Result<(), StateError>)
        requires
            old(self).inv(),
            old(self).leaves().len() < usize::MAX,
        ensures
            r is Ok,
            final(self).inv(),
            final(self).leaves() == old(self).leaves().push(data@),
    {
        let leaf = AccumulatorNode::leaf(data);
        let ghost leaves = self.leaves@;
        let ghost next = leaves.push(data@);
        let n = self.leaf_count;
        match self.root.take() {
            None => {
                assert(next[0] == data@);
                self.root = Some(leaf);
                self.width = 1;
                self.height = Ghost(0);
            },
            Some(mut root) => {
                proof {
                    lemma_pow2_one(self.height@);
                }
                if n as u128 == self.width {
                    let ghost h = self.height@;
                    let empty = AccumulatorNode::empty();
                    assert(empty.models(leaves, h, pow2(h)));
                    root = AccumulatorNode::internal(root, empty);
                    self.width = self.width * 2;
                    self.height = Ghost(h + 1);
                    assert(root.models(leaves, h + 1, 0));
                }
                root.place(self.width, n as u128, leaf, Ghost(leaves), Ghost(data@), Ghost(self.height@), Ghost(0));
                self.root = Some(root);
            },
        }
        self.leaf_count = n + 1;
        self.leaves = Ghost(next);
        Ok(())
    }

    /// Get root hash
    pub fn root_hash(&self) -> (h: Option<[u8; 32]>)
        requires
            self.inv(),
        ensures
            h is None <==> self.leaves().len() == 0,
            h matches Some(x) ==> accumulated(self.leaves()) == Some(x@),
    {
        proof {
            self.lemma_root();
        }
        match &self.root {
            Some(node) => Some(node.hash),
            None => None,
        }
    }

    /// Verify proof
    pub fn verify_proof(root_hash: [u8; 32], leaf_data: &[u8], proof: &[[u8; 32]], index: usize) -> (r: bool)
        ensures
            r == (fold_proof(leaf_digest(leaf_data@), proof@, index as nat) == root_hash@),
    {
        let mut current_hash = AccumulatorNode::leaf(leaf_data).hash;
        let mut pos = index;
        let n = proof.len();
        let mut i: usize = 0;
        assert(proof@.skip(0) == proof@);
        while i < n
            invariant
                n == proof@.len(),
                i <= n,
                fold_proof(leaf_digest(leaf_data@), proof@, index as nat) == fold_proof(
                    current_hash@,
                    proof@.skip(i as int),
                    pos as nat,
                ),
            decreases n - i,
        {
            let sibling = proof[i];
            let mut bytes: Vec<u8> = Vec::new();
            bytes.push(1u8);
            if pos % 2 == 0 {
                append_bytes(&mut bytes, &current_hash);
                append_bytes(&mut bytes, &sibling);
                assert(bytes@ == seq![1u8] + current_hash@ + sibling@);
            } else {
                append_bytes(&mut bytes, &sibling);
                append_bytes(&mut bytes, &current_hash);
                assert(bytes@ == seq![1u8] + sibling@ + current_hash@);
            }
            assert(proof@.skip(i as int).drop_first() == proof@.skip(i + 1));
            assert(proof@.skip(i as int)[0] == sibling);
            current_hash = sha256(bytes.as_slice());
            pos = pos / 2;
            i = i + 1;
        }
        assert(proof@.skip(n as int).len() == 0);
        digest_eq(&current_hash, &root_hash)
    }

    /// Get proof for leaf: the sibling hashes from the leaf's level up to
    /// the root, which `verify_proof` folds in that order.
    pub fn get_proof(&self, index: usize) -> (r: Result<Vec<[u8; 32]>, StateError>)
        requires
            self.inv(),
        ensures
            match r {
                Ok(p) => index < self.leaves().len() && p@ == self.proof_at(index as nat) && fold_proof(
                    leaf_digest(self.leaves()[index as int]),
                    p@,
                    index as nat,
                ) == accumulated(self.leaves())->0,
                Err(e) => index >= self.leaves().len() && e is InvalidState,
            },
    {
        if index >= self.leaf_count {
            return Err(StateError::InvalidState("Invalid leaf index".to_string()));
        }
        let ghost leaves = self.leaves@;
        let ghost root = self.root->0;
        let ghost height = self.height@;
        let mut path: Vec<[u8; 32]> = Vec::new();
        let mut current: &AccumulatorNode = self.root.as_ref().unwrap();
        let mut width: u128 = self.width;
        let mut rel: u128 = index as u128;
        let ghost mut k: nat = height;
        let ghost mut start: nat = 0;
        while width > 1
            invariant
                current.models(leaves, k, start),
                width == pow2(k),
                start + rel == index,
                rel < width,
                index < leaves.len(),
                root.proof_of(height, 0, index as nat) == current.proof_of(k, start, index as nat) + path@,
            decreases width,
        {
            proof {
                lemma_pow2_one(k);
            }
            let half = width / 2;
            let ghost kk = (k - 1) as nat;
            assert(half == pow2(kk));
            let ghost before = path@;
            if rel < half {
                let sibling = current.right.as_ref().unwrap().hash;
                path.insert(0, sibling);
                current = current.left.as_ref().unwrap();
            } else {
                let sibling = current.left.as_ref().unwrap().hash;
                path.insert(0, sibling);
                current = current.right.as_ref().unwrap();
                rel = rel - half;
                proof {
                    start = start + pow2(kk);
                }
            }
            proof {
                assert(path@ =~= seq![path@[0]] + before);
                assert(current.proof_of(kk, start, index as nat).push(path@[0]) + before =~= current.proof_of(
                    kk,
                    start,
                    index as nat,
                ) + path@);
                k = kk;
            }
            width = half;
        }
        proof {
            lemma_pow2_one(k);
            assert(path@ =~= Seq::<[u8; 32]>::empty() + path@);
            lemma_proof_of_folds(root, leaves, height, 0, index as nat, 0);
            assert(0 * pow2(height) + (index - 0) == index);
            self.lemma_root();
        }
        Ok(path)
    }
}

/// Law: the proof that `get_proof` gives for any appended leaf is accepted
/// by `verify_proof` for that leaf's data and position against the root.
pub proof fn law_proof_verifies(acc: StateAccumulator, index: nat)
    requires
        acc.inv(),
        index < acc.leaves().len(),
    ensures
        fold_proof(leaf_digest(acc.leaves()[index as int]), acc.proof_at(index), index) == accumulated(
            acc.leaves(),
        )->0,
{
    acc.lemma_root();
    lemma_pow2_one(acc.height@);
    lemma_proof_of_folds(acc.root->0, acc.leaves@, acc.height@, 0, index, 0);
    assert(0 * pow2(acc.height@) + (index - 0) == index);
}

/// Law: the root over one leaf is that leaf's digest, and the root over two
/// leaves is the node digest of their two leaf digests.
pub proof fn law_small_roots(a: Seq<u8>, b: Seq<u8>)
    ensures
        accumulated(seq![a]) == Some(leaf_digest(a)),
        accumulated(seq![a, b]) == Some(node_digest(leaf_digest(a), leaf_digest(b))),
{
    assert(height_for(1) == 0);
    assert(height_for(2) == 1) by {
        reveal_with_fuel(height_for, 2);
    }
    assert(seq![a, b][0] == a);
    assert(seq![a, b][1] == b);
    assert(tree_digest(seq![a, b], 1, 0) == node_digest(leaf_digest(a), leaf_digest(b))) by {
        reveal_with_fuel(tree_digest, 2);
    }
}

} // verus!
