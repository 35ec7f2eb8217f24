//! Consensus: proposals and votes, the safety rules that guard voting, the
//! DAG of proposals with its commit rule, and the Narwhal engine that ties
//! them together.
use vstd::prelude::*;
use crate::encoding::{enc_u64, enc_bytes, enc_str, put_u64, put_bytes, put_str};
use crate::errors::ProtocolError;
use crate::hashing::{append_bytes, sha256, spec_sha256};
use crate::crypto::copy_bytes;
use crate::protocol::{SignedTransaction, TransactionDigest, enc_signed, lemma_digest_view_eq};

verus! {

/// Consensus round number
pub type Round = u64;

/// Proposal for a new batch of transactions
#[derive(Debug)]
pub struct Proposal {
    /// Round number
    pub round: Round,
    /// Author of the proposal
    pub author: String,
    /// Proposed transactions
    pub transactions: Vec<SignedTransaction>,
    /// Parents in the DAG
    pub parents: Vec<TransactionDigest>,
    /// Signature
    pub signature: Vec<u8>,
}

/// Concatenated encodings of transactions.
pub open spec fn enc_txs(txs: Seq<SignedTransaction>) -> Seq<u8>
    decreases txs.len(),
{
    if txs.len() == 0 {
        Seq::empty()
    } else {
        enc_txs(txs.drop_last()) + enc_signed(txs.last())
    }
}

/// Concatenated digests.
pub open spec fn enc_digests(ds: Seq<TransactionDigest>) -> Seq<u8>
    decreases ds.len(),
{
    if ds.len() == 0 {
        Seq::empty()
    } else {
        enc_digests(ds.drop_last()) + ds.last()@
    }
}

/// Canonical encoding of a proposal.
pub open spec fn enc_proposal(p: Proposal) -> Seq<u8> {
    enc_u64(p.round) + enc_str(p.author@) + enc_u64(p.transactions@.len() as u64) + enc_txs(
        p.transactions@,
    ) + enc_u64(p.parents@.len() as u64) + enc_digests(p.parents@) + enc_bytes(p.signature@)
}

impl Proposal {
    /// The canonical encoding.
    pub fn encode(&self) -> (b: Vec<u8>)
        ensures
            b@ == enc_proposal(*self),
    {
        let mut out: Vec<u8> = Vec::new();
        put_u64(&mut out, self.round);
        put_str(&mut out, self.author.as_str());
        let n = self.transactions.len();
        put_u64(&mut out, n as u64);
        let ghost start = out@;
        let mut i: usize = 0;
        while i < n
            invariant
                n == self.transactions@.len(),
                i <= n,
                out@ == start + enc_txs(self.transactions@.take(i as int)),
            decreases n - i,
        {
            let e = self.transactions[i].encode();
            append_bytes(&mut out, e.as_slice());
            assert(self.transactions@.take(i + 1).drop_last() == self.transactions@.take(i as int));
            i = i + 1;
        }
        assert(self.transactions@.take(n as int) == self.transactions@);
        let m = self.parents.len();
        put_u64(&mut out, m as u64);
        let ghost start2 = out@;
        let mut j: usize = 0;
        while j < m
            invariant
                m == self.parents@.len(),
                j <= m,
                out@ == start2 + enc_digests(self.parents@.take(j as int)),
            decreases m - j,
        {
            append_bytes(&mut out, self.parents[j].0.as_slice());
            assert(self.parents@.take(j + 1).drop_last() == self.parents@.take(j as int));
            j = j + 1;
        }
        assert(self.parents@.take(m as int) == self.parents@);
        put_bytes(&mut out, self.signature.as_slice());
        assert(out@ =~= enc_proposal(*self));
        out
    }

    /// Digest: SHA-256 of the canonical encoding.
    pub fn digest(&self) -> (d: TransactionDigest)
        ensures
            d@ == spec_sha256(enc_proposal(*self)),
    {
        let b = self.encode();
        TransactionDigest(sha256(b.as_slice()))
    }
}

impl Clone for Proposal {
    /// A copy with the same round, parents and encoding.
    fn clone(&self) -> (r: Proposal)
        ensures
            r.round == self.round,
            r.author@ == self.author@,
            r.parents@ == self.parents@,
            enc_proposal(r) == enc_proposal(*self),
    {
        let n = self.transactions.len();
        let mut txs: Vec<SignedTransaction> = Vec::new();
        let mut i: usize = 0;
        while i < n
            invariant
                n == self.transactions@.len(),
                i <= n,
                txs@.len() == i,
                enc_txs(txs@) == enc_txs(self.transactions@.take(i as int)),
            decreases n - i,
        {
            let c = self.transactions[i].clone();
            let ghost prev = txs@;
            txs.push(c);
            assert(txs@.drop_last() == prev);
            assert(self.transactions@.take(i + 1).drop_last() == self.transactions@.take(i as int));
            i = i + 1;
        }
        assert(self.transactions@.take(n as int) == self.transactions@);
        let m = self.parents.len();
        let mut parents: Vec<TransactionDigest> = Vec::new();
        let mut j: usize = 0;
        while j < m
            invariant
                m == self.parents@.len(),
                j <= m,
                parents@ == self.parents@.take(j as int),
            decreases m - j,
        {
            parents.push(self.parents[j]);
            assert(parents@ == self.parents@.take(j + 1));
            j = j + 1;
        }
        assert(self.parents@.take(m as int) == self.parents@);
        Proposal {
            round: self.round,
            author: self.author.as_str().to_string(),
            transactions: txs,
            parents,
            signature: copy_bytes(&self.signature),
        }
    }
}

/// A vote on a round.
#[derive(Debug, Clone)]
pub struct Vote {
    /// Round voted on
    pub round: Round,
    /// Voter
    pub author: String,
    /// Signatures gathered for the vote
    pub signatures: Vec<Vec<u8>>,
}

/// Certificate for a committed batch
#[derive(Debug)]
pub struct Certificate {
    /// The proposal being certified
    pub proposal: Proposal,
    /// Signatures from validators
    pub signatures: Vec<(String, Vec<u8>)>,
}

/// Consensus state
#[derive(Debug)]
pub struct ConsensusState {
    /// Current round
    pub round: Round,
    /// Last committed round
    pub last_committed_round: Round,
    /// Pending proposals
    pub pending_proposals: Vec<TransactionDigest>,
    /// Committed certificates
    pub committed_certificates: Vec<Certificate>,
}

/// Consensus type
#[derive(Debug, Clone, Copy, PartialEq, Eq, Structural)]
pub enum ConsensusType {
    Narwhal,
    BullShark,
}

/// Consensus configuration
#[derive(Debug, Clone, Copy)]
pub struct ConsensusConfig {
    /// Consensus type (Narwhal or BullShark)
    pub consensus_type: ConsensusType,
    /// Minimum number of validators
    pub min_validators: usize,
    /// Block time target (ms)
    pub block_time_ms: u64,
    /// Maximum batch size
    pub max_batch_size: usize,
}

/// Safety rules configuration
#[derive(Debug, Clone, Copy)]
pub struct SafetyRulesConfig {
    /// Minimum quorum size
    pub quorum_size: usize,
    /// Maximum round gap
    pub max_round_gap: u64,
}

/// Safety rules for consensus
#[derive(Debug)]
pub struct SafetyRules {
    /// Configuration
    pub config: SafetyRulesConfig,
    /// Highest voted round
    pub highest_voted_round: Round,
    /// Highest certified round
    pub highest_certified_round: Round,
    /// Locked round
    pub locked_round: Option<Round>,
}

/// Why a proposal is refused, if it is: its round is not above the highest
/// voted round, is more than the allowed gap above it, or is not above the
/// locked round.
pub open spec fn proposal_fault(
    round: u64,
    highest_voted: u64,
    max_gap: u64,
    locked: Option<u64>,
) -> Option<int> {
    if round <= highest_voted {
        Some(0)
    } else if round > highest_voted + max_gap {
        Some(1)
    } else if locked matches Some(l) && round <= l {
        Some(2)
    } else {
        None
    }
}

/// The signatures that the safety rules give a proposal they accept: those
/// of `validator1` and `validator2`, in that order.
pub open spec fn proposal_signatures(v: Seq<(String, Vec<u8>)>) -> bool {
    &&& v.len() == 2
    &&& v[0].0@ == "validator1"@
    &&& v[0].1@ == seq![1u8, 2u8, 3u8]
    &&& v[1].0@ == "validator2"@
    &&& v[1].1@ == seq![4u8, 5u8, 6u8]
}

impl SafetyRules {
    pub fn new(config: SafetyRulesConfig) -> (s: SafetyRules)
        ensures
            s.config == config,
            s.highest_voted_round == 0,
            s.highest_certified_round == 0,
            s.locked_round is None,
    {
        SafetyRules {
            config,
            highest_voted_round: 0,
            highest_certified_round: 0,
            locked_round: None,
        }
    }

    /// Rounds may be checked: the highest voted round plus the allowed gap
    /// fits in a `u64`.
    pub open spec fn gap_fits(&self) -> bool {
        self.highest_voted_round + self.config.max_round_gap <= u64::MAX
    }

    /// Verify proposal safety rules
    pub fn verify_proposal(&self, proposal: &Proposal) -> (r: Result<(), ProtocolError>)
        requires
            self.gap_fits(),
        ensures
            r is Ok <==> proposal_fault(
                proposal.round,
                self.highest_voted_round,
                self.config.max_round_gap,
                self.locked_round,
            ) is None,
            r matches Err(e) ==> e is InvalidProposal,
    {
        let highest_voted = self.highest_voted_round;
        if proposal.round <= highest_voted {
            return Err(ProtocolError::InvalidProposal("Round not monotonic".to_string()));
        }
        if proposal.round > highest_voted + self.config.max_round_gap {
            return Err(ProtocolError::InvalidProposal("Round gap too large".to_string()));
        }
        if let Some(locked) = self.locked_round {
            if proposal.round <= locked {
                return Err(ProtocolError::InvalidProposal("Violates locked round".to_string()));
            }
        }
        Ok(())
    }

    /// Process vote: raise the highest voted round to the vote's round, and
    /// lock the vote's round when the vote carries a quorum of signatures.
    pub fn process_vote(&mut self, vote: &Vote) -> (r: Result<(), ProtocolError>)
        ensures
            r is Ok,
            final(self).config == old(self).config,
            final(self).highest_certified_round == old(self).highest_certified_round,
            final(self).highest_voted_round == if vote.round > old(self).highest_voted_round {
                vote.round
            } else {
                old(self).highest_voted_round
            },
            final(self).locked_round == if vote.signatures@.len() >= old(self).config.quorum_size {
                Some(vote.round)
            } else {
                old(self).locked_round
            },
    {
        if vote.round > self.highest_voted_round {
            self.highest_voted_round = vote.round;
        }
        if self.has_quorum_votes(vote) {
            self.locked_round = Some(vote.round);
        }
        Ok(())
    }

    /// Sign proposal: the proposal must pass the safety rules.
    pub fn sign_proposal(&self, proposal: &Proposal) -> (r: Result<Vec<(String, Vec<u8>)>, ProtocolError>)
        requires
            self.gap_fits(),
        ensures
            r is Ok <==> proposal_fault(
                proposal.round,
                self.highest_voted_round,
                self.config.max_round_gap,
                self.locked_round,
            ) is None,
            r matches Ok(v) ==> proposal_signatures(v@),
            r matches Err(e) ==> e is InvalidProposal,
    {
        self.verify_proposal(proposal)?;
        let mut signatures: Vec<(String, Vec<u8>)> = Vec::new();
        signatures.push(("validator1".to_string(), vec![1u8, 2u8, 3u8]));
        signatures.push(("validator2".to_string(), vec![4u8, 5u8, 6u8]));
        Ok(signatures)
    }

    /// Check if we have quorum of votes
    fn has_quorum_votes(&self, vote: &Vote) -> (r: bool)
        ensures
            r == (vote.signatures@.len() >= self.config.quorum_size),
    {
        vote.signatures.len() >= self.config.quorum_size
    }

    /// Update highest certified round
    pub fn update_highest_certified_round(&mut self, round: Round)
        ensures
            *final(self) == (SafetyRules {
                highest_certified_round: if round > old(self).highest_certified_round {
                    round
                } else {
                    old(self).highest_certified_round
                },
                ..*old(self)
            }),
    {
        if round > self.highest_certified_round {
            self.highest_certified_round = round;
        }
    }
}

/// Law: after a vote on round `r` is processed, no proposal for a round at
/// or below `r` passes the safety rules.
pub proof fn law_vote_blocks_lower_rounds(before: SafetyRules, after: SafetyRules, vote_round: u64, round: u64)
    requires
        after.config == before.config,
        after.highest_voted_round == if vote_round > before.highest_voted_round {
            vote_round
        } else {
            before.highest_voted_round
        },
        round <= vote_round,
    ensures
        proposal_fault(round, after.highest_voted_round, after.config.max_round_gap, after.locked_round) is Some,
{
}

/// Law: processing votes never lowers the highest voted round.
pub proof fn law_voted_round_monotone(before: SafetyRules, after: SafetyRules, vote_round: u64)
    requires
        after.highest_voted_round == if vote_round > before.highest_voted_round {
            vote_round
        } else {
            before.highest_voted_round
        },
    ensures
        after.highest_voted_round >= before.highest_voted_round,
        after.highest_voted_round >= vote_round,
{
}

/// DAG node
#[derive(Debug)]
pub struct DagNode {
    /// The proposal
    pub proposal: Proposal,
    /// Children nodes
    pub children: Vec<TransactionDigest>,
    /// Whether the node is committed
    pub committed: bool,
}

/// Index of the node with digest `d`.
pub open spec fn node_index(nodes: Seq<(TransactionDigest, DagNode)>, d: Seq<u8>) -> Option<int>
    decreases nodes.len(),
{
    if nodes.len() == 0 {
        None
    } else if nodes[0].0@ == d {
        Some(0)
    } else {
        match node_index(nodes.drop_first(), d) {
            Some(i) => Some(i + 1),
            None => None,
        }
    }
}

proof fn lemma_node_index(nodes: Seq<(TransactionDigest, DagNode)>, d: Seq<u8>)
    ensures
        match node_index(nodes, d) {
            Some(i) => 0 <= i < nodes.len() && nodes[i].0@ == d && forall|j: int|
                0 <= j < i ==> nodes[j].0@ != d,
            None => forall|j: int| 0 <= j < nodes.len() ==> nodes[j].0@ != d,
        },
    decreases nodes.len(),
{
    if nodes.len() > 0 {
        lemma_node_index(nodes.drop_first(), d);
        if nodes[0].0@ != d {
            assert forall|j: int| 1 <= j < nodes.len() implies nodes[j] == nodes.drop_first()[j - 1] by {}
        }
    }
}

/// The distinct rounds of the children that are in the DAG, in the order in
/// which children first show them.
pub open spec fn child_rounds(nodes: Seq<(TransactionDigest, DagNode)>, children: Seq<TransactionDigest>) -> Seq<u64>
    decreases children.len(),
{
    if children.len() == 0 {
        Seq::empty()
    } else {
        let prev = child_rounds(nodes, children.drop_last());
        match node_index(nodes, children.last()@) {
            Some(j) => if prev.contains(nodes[j].1.proposal.round) {
                prev
            } else {
                prev.push(nodes[j].1.proposal.round)
            },
            None => prev,
        }
    }
}

/// Every parent that is in the DAG is committed.
pub open spec fn parents_committed(nodes: Seq<(TransactionDigest, DagNode)>, parents: Seq<TransactionDigest>) -> bool {
    forall|k: int|
        0 <= k < parents.len() ==> match node_index(nodes, (#[trigger] parents[k])@) {
            Some(j) => nodes[j].1.committed,
            None => true,
        }
}

/// The commit rule: the node exists, its parents in the DAG are committed,
/// and its children in the DAG span at least three distinct rounds.
pub open spec fn commit_ready(nodes: Seq<(TransactionDigest, DagNode)>, d: Seq<u8>) -> bool {
    match node_index(nodes, d) {
        Some(i) => parents_committed(nodes, nodes[i].1.proposal.parents@) && child_rounds(
            nodes,
            nodes[i].1.children@,
        ).len() >= 3,
        None => false,
    }
}

/// Indices of the nodes, in order, that are not committed and meet the commit
/// rule.
pub open spec fn candidate_indices(nodes: Seq<(TransactionDigest, DagNode)>, n: int) -> Seq<int>
    decreases n,
{
    if n <= 0 {
        Seq::empty()
    } else {
        let prev = candidate_indices(nodes, n - 1);
        if !nodes[n - 1].1.committed && commit_ready(nodes, nodes[n - 1].0@) {
            prev.push(n - 1)
        } else {
            prev
        }
    }
}

/// Each index that `candidate_indices` lists is a node below `n` that is
/// not committed and meets the commit rule.
proof fn lemma_candidate_indices(nodes: Seq<(TransactionDigest, DagNode)>, n: int, k: int)
    requires
        0 <= k < candidate_indices(nodes, n).len(),
    ensures
        0 <= candidate_indices(nodes, n)[k] < n,
        !nodes[candidate_indices(nodes, n)[k]].1.committed,
        commit_ready(nodes, nodes[candidate_indices(nodes, n)[k]].0@),
    decreases n,
{
    if n > 0 {
        let prev = candidate_indices(nodes, n - 1);
        if k < prev.len() {
            lemma_candidate_indices(nodes, n - 1, k);
        }
    }
}

/// The node at `a` is in the DAG as a child of the node at `j`.
pub open spec fn child_in_dag(nodes: Seq<(TransactionDigest, DagNode)>, j: int, a: int) -> bool {
    &&& 0 <= a < nodes.len()
    &&& exists|t: int| 0 <= t < nodes[j].1.children@.len() && (#[trigger] nodes[j].1.children@[t])@ == nodes[a].0@
}

/// The children of the node at `j` that are in the DAG span at least three
/// different rounds.
pub open spec fn children_span_three_rounds(nodes: Seq<(TransactionDigest, DagNode)>, j: int) -> bool {
    exists|a: int, b: int, c: int|
        #![trigger child_in_dag(nodes, j, a), child_in_dag(nodes, j, b), child_in_dag(nodes, j, c)]
        child_in_dag(nodes, j, a) && child_in_dag(nodes, j, b) && child_in_dag(nodes, j, c)
            && nodes[a].1.proposal.round != nodes[b].1.proposal.round
            && nodes[a].1.proposal.round != nodes[c].1.proposal.round
            && nodes[b].1.proposal.round != nodes[c].1.proposal.round
}

/// Some child in `ch` is in the DAG in round `r`.
pub open spec fn round_of_some_child(nodes: Seq<(TransactionDigest, DagNode)>, ch: Seq<TransactionDigest>, r: u64) -> bool {
    exists|t: int, a: int|
        #![trigger ch[t], nodes[a]]
        0 <= t < ch.len() && 0 <= a < nodes.len() && nodes[a].0@ == ch[t]@ && nodes[a].1.proposal.round == r
}

/// The rounds that `child_rounds` lists are distinct, and each is the round
/// of a child that is in the DAG.
#[verifier::spinoff_prover]
proof fn lemma_child_rounds(nodes: Seq<(TransactionDigest, DagNode)>, ch: Seq<TransactionDigest>)
    ensures
        forall|u: int, v: int|
            0 <= u < v < child_rounds(nodes, ch).len() ==> child_rounds(nodes, ch)[u] != child_rounds(
                nodes,
                ch,
            )[v],
        forall|u: int|
            0 <= u < child_rounds(nodes, ch).len() ==> round_of_some_child(
                nodes,
                ch,
                #[trigger] child_rounds(nodes, ch)[u],
            ),
    decreases ch.len(),
{
    if ch.len() > 0 {
        let pre = ch.drop_last();
        lemma_child_rounds(nodes, pre);
        lemma_node_index(nodes, ch.last()@);
        let prev = child_rounds(nodes, pre);
        let cr = child_rounds(nodes, ch);
        assert forall|u: int| 0 <= u < prev.len() implies cr[u] == prev[u] by {}
        assert forall|u: int| 0 <= u < cr.len() implies round_of_some_child(nodes, ch, #[trigger] cr[u]) by {
            if u < prev.len() {
                assert(round_of_some_child(nodes, pre, prev[u]));
                let (t, a) = choose|t: int, a: int|
                    #![trigger pre[t], nodes[a]]
                    0 <= t < pre.len() && 0 <= a < nodes.len() && nodes[a].0@ == pre[t]@
                        && nodes[a].1.proposal.round == prev[u];
                assert(pre[t] == ch[t]);
            } else {
                let j = node_index(nodes, ch.last()@)->0;
                assert(ch[ch.len() - 1] == ch.last());
                assert(0 <= ch.len() - 1 < ch.len() && 0 <= j < nodes.len() && nodes[j].0@ == ch[ch.len()
                    - 1]@ && nodes[j].1.proposal.round == cr[u]);
            }
        }
        assert forall|u: int, v: int| 0 <= u < v < cr.len() implies cr[u] != cr[v] by {
            if v >= prev.len() {
                assert(prev[u] == cr[u]);
                assert(prev.contains(cr[u]));
            }
        }
    }
}

/// A node whose children in the DAG give `child_rounds` at least three
/// rounds has three children in the DAG in three different rounds.
proof fn lemma_three_rounds(nodes: Seq<(TransactionDigest, DagNode)>, j: int)
    requires
        0 <= j < nodes.len(),
        child_rounds(nodes, nodes[j].1.children@).len() >= 3,
    ensures
        children_span_three_rounds(nodes, j),
{
    let ch = nodes[j].1.children@;
    let cr = child_rounds(nodes, ch);
    lemma_child_rounds(nodes, ch);
    assert(cr[0] != cr[1] && cr[0] != cr[2] && cr[1] != cr[2]);
    assert(round_of_some_child(nodes, ch, cr[0]));
    assert(round_of_some_child(nodes, ch, cr[1]));
    assert(round_of_some_child(nodes, ch, cr[2]));
    let (t0, a0) = choose|t: int, a: int|
        #![trigger ch[t], nodes[a]]
        0 <= t < ch.len() && 0 <= a < nodes.len() && nodes[a].0@ == ch[t]@ && nodes[a].1.proposal.round == cr[0];
    let (t1, a1) = choose|t: int, a: int|
        #![trigger ch[t], nodes[a]]
        0 <= t < ch.len() && 0 <= a < nodes.len() && nodes[a].0@ == ch[t]@ && nodes[a].1.proposal.round == cr[1];
    let (t2, a2) = choose|t: int, a: int|
        #![trigger ch[t], nodes[a]]
        0 <= t < ch.len() && 0 <= a < nodes.len() && nodes[a].0@ == ch[t]@ && nodes[a].1.proposal.round == cr[2];
    assert(child_in_dag(nodes, j, a0));
    assert(child_in_dag(nodes, j, a1));
    assert(child_in_dag(nodes, j, a2));
}

/// Law: in a DAG whose digests are distinct, every node offered for commit
/// is not committed yet, every one of its parents that is in the DAG is
/// committed, and its children in the DAG span at least three rounds.
pub proof fn law_candidates_meet_commit_rule(nodes: Seq<(TransactionDigest, DagNode)>, k: int)
    requires
        forall|a: int, b: int| 0 <= a < b < nodes.len() ==> nodes[a].0@ != nodes[b].0@,
        0 <= k < candidate_indices(nodes, nodes.len() as int).len(),
    ensures
        ({
            let i = candidate_indices(nodes, nodes.len() as int)[k];
            &&& 0 <= i < nodes.len()
            &&& !nodes[i].1.committed
            &&& children_span_three_rounds(nodes, i)
            &&& forall|m: int, j: int|
                #![trigger nodes[i].1.proposal.parents@[m], nodes[j]]
                0 <= m < nodes[i].1.proposal.parents@.len() && 0 <= j < nodes.len() && nodes[j].0@
                    == nodes[i].1.proposal.parents@[m]@ ==> nodes[j].1.committed
        }),
{
    let n = nodes.len() as int;
    lemma_candidate_indices(nodes, n, k);
    let i = candidate_indices(nodes, n)[k];
    lemma_node_index(nodes, nodes[i].0@);
    assert(node_index(nodes, nodes[i].0@) == Some(i)) by {
        let ii = node_index(nodes, nodes[i].0@)->0;
        if ii != i {
            if ii < i {
                assert(nodes[ii].0@ != nodes[i].0@);
            } else {
                assert(nodes[i].0@ != nodes[ii].0@);
            }
        }
    }
    lemma_three_rounds(nodes, i);
    assert forall|m: int, j: int|
        #![trigger nodes[i].1.proposal.parents@[m], nodes[j]]
        0 <= m < nodes[i].1.proposal.parents@.len() && 0 <= j < nodes.len() && nodes[j].0@
            == nodes[i].1.proposal.parents@[m]@ implies nodes[j].1.committed by {
        let p = nodes[i].1.proposal.parents@[m];
        lemma_node_index(nodes, p@);
        let jj = node_index(nodes, p@)->0;
        assert(match node_index(nodes, (nodes[i].1.proposal.parents@[m])@) {
            Some(q) => nodes[q].1.committed,
            None => true,
        });
        if jj != j {
            if jj < j {
                assert(nodes[jj].0@ != nodes[j].0@);
            } else {
                assert(nodes[j].0@ != nodes[jj].0@);
            }
        }
    }
}

/// Whether digest `x` is listed under round `r`.
pub open spec fn round_member(rounds: Seq<(Round, Vec<TransactionDigest>)>, r: Round, x: Seq<u8>) -> bool {
    exists|i: int, k: int|
        0 <= i < rounds.len() && rounds[i].0 == r && 0 <= k < rounds[i].1@.len() && rounds[i].1@[k]@ == x
}

/// The nodes after a proposal is added: one more node, under the digest of
/// the proposal's encoding, holding the proposal, uncommitted, and a child of
/// itself only if it names itself as parent; every earlier node keeps its
/// digest, proposal and commit flag, and gains the new node as a child when
/// the proposal names it as a parent.
pub open spec fn nodes_after_add(
    on: Seq<(TransactionDigest, DagNode)>,
    nn: Seq<(TransactionDigest, DagNode)>,
    proposal: Proposal,
) -> bool {
    let d = spec_sha256(enc_proposal(proposal));
    &&& nn.len() == on.len() + 1
    &&& nn.last().0@ == d
    &&& nn.last().1.proposal.round == proposal.round
    &&& nn.last().1.proposal.parents@ == proposal.parents@
    &&& enc_proposal(nn.last().1.proposal) == enc_proposal(proposal)
    &&& !nn.last().1.committed
    &&& nn.last().1.children@.to_set() == (if exists|k: int|
        0 <= k < proposal.parents@.len() && proposal.parents@[k]@ == d {
        Set::empty().insert(nn.last().0)
    } else {
        Set::empty()
    })
    &&& forall|j: int|
        0 <= j < on.len() ==> {
            &&& (#[trigger] nn[j]).0 == on[j].0
            &&& nn[j].1.proposal == on[j].1.proposal
            &&& nn[j].1.committed == on[j].1.committed
            &&& nn[j].1.children@.to_set() == if exists|k: int|
                0 <= k < proposal.parents@.len() && proposal.parents@[k]@ == on[j].0@ {
                on[j].1.children@.to_set().insert(nn.last().0)
            } else {
                on[j].1.children@.to_set()
            }
        }
}

/// The rounds after a node with digest `d` is added in round `r`: `d` is
/// listed under `r` besides what was listed.
pub open spec fn rounds_after_add(
    or: Seq<(Round, Vec<TransactionDigest>)>,
    nr: Seq<(Round, Vec<TransactionDigest>)>,
    r: Round,
    d: Seq<u8>,
) -> bool {
    forall|rr: Round, x: Seq<u8>|
        #[trigger] round_member(nr, rr, x) <==> round_member(or, rr, x) || (rr == r && x == d)
}

/// Directed acyclic graph of proposals
#[derive(Debug)]
pub struct Dag {
    /// Nodes by digest
    nodes: Vec<(TransactionDigest, DagNode)>,
    /// Nodes by round
    rounds: Vec<(Round, Vec<TransactionDigest>)>,
}

impl Dag {
    /// The nodes with their digests.
    pub closed spec fn nodes(&self) -> Seq<(TransactionDigest, DagNode)> {
        self.nodes@
    }

    /// The digests listed by round.
    pub closed spec fn rounds(&self) -> Seq<(Round, Vec<TransactionDigest>)> {
        self.rounds@
    }

    /// No two nodes share a digest, each node sits under the digest of its
    /// proposal's encoding, and the rounds list exactly the nodes' digests,
    /// each under its proposal's round.
    pub open spec fn inv(&self) -> bool {
        &&& forall|i: int, j: int| 0 <= i < j < self.nodes().len() ==> self.nodes()[i].0@ != self.nodes()[j].0@
        &&& forall|i: int|
            0 <= i < self.nodes().len() ==> (#[trigger] self.nodes()[i]).0@ == spec_sha256(
                enc_proposal(self.nodes()[i].1.proposal),
            )
        &&& forall|r: Round, x: Seq<u8>|
            #[trigger] round_member(self.rounds(), r, x) <==> exists|i: int|
                0 <= i < self.nodes().len() && self.nodes()[i].0@ == x && self.nodes()[i].1.proposal.round == r
    }

    pub fn new() -> (d: Dag)
        ensures
            d.nodes().len() == 0,
            d.rounds().len() == 0,
            d.inv(),
    {
        Dag { nodes: Vec::new(), rounds: Vec::new() }
    }

    fn index_of(&self, d: &TransactionDigest) -> (r: Option<usize>)
        ensures
            match r {
                Some(i) => node_index(self.nodes(), d@) == Some(i as int),
                None => node_index(self.nodes(), d@) is None,
            },
    {
        let n = self.nodes.len();
        let mut i: usize = 0;
        assert(self.nodes@.skip(0) == self.nodes@);
        while i < n
            invariant
                n == self.nodes@.len(),
                i <= n,
                node_index(self.nodes@, d@) == (match node_index(self.nodes@.skip(i as int), d@) {
                    Some(j) => Some(j + i),
                    None => None::<int>,
                }),
            decreases n - i,
        {
            assert(self.nodes@.skip(i as int).drop_first() == self.nodes@.skip(i + 1));
            if self.nodes[i].0 == *d {
                return Some(i);
            }
            i = i + 1;
        }
        None
    }

    /// Adds `d` to the children of the node at `i`, unless it is there.
    fn add_child(&mut self, i: usize, d: TransactionDigest)
        requires
            i < old(self).nodes().len(),
        ensures
            final(self).nodes().len() == old(self).nodes().len(),
            final(self).rounds() == old(self).rounds(),
            forall|j: int|
                0 <= j < final(self).nodes().len() && j != i ==> final(self).nodes()[j] == old(self).nodes()[j],
            final(self).nodes()[i as int].0 == old(self).nodes()[i as int].0,
            final(self).nodes()[i as int].1.proposal == old(self).nodes()[i as int].1.proposal,
            final(self).nodes()[i as int].1.committed == old(self).nodes()[i as int].1.committed,
            final(self).nodes()[i as int].1.children@.to_set() == old(self).nodes()[i as int].1.children@.to_set().insert(d),
    {
        let mut entry = self.nodes.remove(i);
        let ghost before = entry.1.children@;
        let n = entry.1.children.len();
        let mut k: usize = 0;
        let mut present = false;
        while k < n
            invariant
                n == entry.1.children@.len(),
                k <= n,
                entry.1.children@ == before,
                present ==> before.contains(d),
            decreases n - k,
        {
            if entry.1.children[k] == d {
                proof {
                    lemma_digest_view_eq(entry.1.children@[k as int], d);
                    assert(before[k as int] == d);
                }
                present = true;
            }
            k = k + 1;
        }
        if !present {
            entry.1.children.push(d);
            proof {
                assert(entry.1.children@.to_set() =~= before.to_set().insert(d)) by {
                    assert forall|x: TransactionDigest| #[trigger] entry.1.children@.contains(x) <==> before.contains(x) || x == d by {
                        if entry.1.children@.contains(x) && x != d {
                            let j = choose|j: int| 0 <= j < entry.1.children@.len() && entry.1.children@[j] == x;
                            assert(before[j] == x);
                        }
                        if before.contains(x) {
                            let j = choose|j: int| 0 <= j < before.len() && before[j] == x;
                            assert(entry.1.children@[j] == x);
                        }
                        if x == d {
                            assert(entry.1.children@[n as int] == d);
                        }
                    }
                }
            }
        } else {
            proof {
                assert(before.to_set() =~= before.to_set().insert(d));
            }
        }
        self.nodes.insert(i, entry);
    }

    /// Lists `d` under round `r`, unless it is listed there.
    fn add_to_round(&mut self, r: Round, d: TransactionDigest)
        ensures
            final(self).nodes() == old(self).nodes(),
            forall|rr: Round, x: Seq<u8>|
                #[trigger] round_member(final(self).rounds(), rr, x) <==> round_member(old(self).rounds(), rr, x)
                    || (rr == r && x == d@),
    {
        let n = self.rounds.len();
        let mut b: usize = 0;
        while b < n && self.rounds[b].0 != r
            invariant
                n == self.rounds@.len(),
                b <= n,
                forall|j: int| 0 <= j < b ==> self.rounds@[j].0 != r,
            decreases n - b,
        {
            b = b + 1;
        }
        let ghost old_rounds = self.rounds@;
        if b < n {
            let mut entry = self.rounds.remove(b);
            let ghost before = entry.1@;
            entry.1.push(d);
            let ghost e = entry;
            self.rounds.insert(b, entry);
            proof {
                assert(self.rounds@ == old_rounds.update(b as int, e));
                assert forall|rr: Round, x: Seq<u8>|
                    #[trigger] round_member(self.rounds@, rr, x) <==> round_member(old_rounds, rr, x)
                        || (rr == r && x == d@) by {
                    if round_member(self.rounds@, rr, x) {
                        let (i, k) = choose|i: int, k: int|
                            0 <= i < self.rounds@.len() && self.rounds@[i].0 == rr && 0 <= k < self.rounds@[i].1@.len()
                                && self.rounds@[i].1@[k]@ == x;
                        if i != b || k < before.len() {
                            assert(old_rounds[i].0 == rr);
                            assert(old_rounds[i].1@[k]@ == x);
                        }
                    }
                    if round_member(old_rounds, rr, x) {
                        let (i, k) = choose|i: int, k: int|
                            0 <= i < old_rounds.len() && old_rounds[i].0 == rr && 0 <= k < old_rounds[i].1@.len()
                                && old_rounds[i].1@[k]@ == x;
                        assert(self.rounds@[i].1@[k]@ == x);
                    }
                    if rr == r && x == d@ {
                        assert(self.rounds@[b as int].1@[before.len() as int]@ == x);
                    }
                }
            }
        } else {
            let mut v: Vec<TransactionDigest> = Vec::new();
            v.push(d);
            self.rounds.push((r, v));
            proof {
                assert forall|rr: Round, x: Seq<u8>|
                    #[trigger] round_member(self.rounds@, rr, x) <==> round_member(old_rounds, rr, x)
                        || (rr == r && x == d@) by {
                    if round_member(self.rounds@, rr, x) {
                        let (i, k) = choose|i: int, k: int|
                            0 <= i < self.rounds@.len() && self.rounds@[i].0 == rr && 0 <= k < self.rounds@[i].1@.len()
                                && self.rounds@[i].1@[k]@ == x;
                        if i < n {
                            assert(old_rounds[i] == self.rounds@[i]);
                        }
                    }
                    if round_member(old_rounds, rr, x) {
                        let (i, k) = choose|i: int, k: int|
                            0 <= i < old_rounds.len() && old_rounds[i].0 == rr && 0 <= k < old_rounds[i].1@.len()
                                && old_rounds[i].1@[k]@ == x;
                        assert(self.rounds@[i] == old_rounds[i]);
                    }
                    if rr == r && x == d@ {
                        assert(self.rounds@[n as int].1@[0]@ == x);
                    }
                }
            }
        }
    }

    /// Add a new proposal to the DAG, under the digest of its encoding:
    /// refused if a node has that digest already; otherwise it becomes a
    /// node without children, is listed under its round, and becomes a child
    /// of each of its parents that is in the DAG.
    pub fn add_proposal(&mut self, proposal: Proposal) -> (r: Result<(), ProtocolError>)
        requires
            old(self).inv(),
        ensures
            final(self).inv(),
            ({
                let d = spec_sha256(enc_proposal(proposal));
                let on = old(self).nodes();
                let nn = final(self).nodes();
                match r {
                    Err(e) => node_index(on, d) is Some && e is InvalidProposal && nn == on
                        && final(self).rounds() == old(self).rounds(),
                    Ok(()) => {
                        &&& node_index(on, d) is None
                        &&& nodes_after_add(on, nn, proposal)
                        &&& rounds_after_add(old(self).rounds(), final(self).rounds(), proposal.round, d)
                    },
                }
            }),
    {
        let digest = proposal.digest();
        if self.index_of(&digest).is_some() {
            return Err(ProtocolError::InvalidProposal("Duplicate proposal".to_string()));
        }
        proof {
            lemma_node_index(self.nodes@, digest@);
        }
        let round = proposal.round;
        let parents = proposal.clone().parents;
        let node = DagNode { proposal, children: Vec::new(), committed: false };
        let ghost on = self.nodes@;
        self.nodes.push((digest, node));
        proof {
            assert forall|i: int, j: int| 0 <= i < j < self.nodes@.len() implies self.nodes@[i].0@ != self.nodes@[j].0@ by {
                if j < on.len() {
                    assert(on[i].0@ != on[j].0@);
                }
            }
        }
        let ghost r0 = self.rounds();
        assert(r0 == old(self).rounds());
        self.add_to_round(round, digest);
        let ghost ra = self.rounds();
        assert(forall|rr: Round, x: Seq<u8>|
            #[trigger] round_member(ra, rr, x) <==> round_member(r0, rr, x) || (rr == round && x == digest@));
        proof {
            let nodes = self.nodes@;
            assert forall|rr: Round, x: Seq<u8>| #[trigger] round_member(ra, rr, x) <==> exists|i: int|
                0 <= i < nodes.len() && nodes[i].0@ == x && nodes[i].1.proposal.round == rr by {
                if round_member(ra, rr, x) {
                    if round_member(r0, rr, x) {
                        let i = choose|i: int| 0 <= i < on.len() && on[i].0@ == x && on[i].1.proposal.round == rr;
                        assert(nodes[i] == on[i]);
                    } else {
                        assert(nodes[on.len() as int].0@ == x);
                    }
                }
                if exists|i: int| 0 <= i < nodes.len() && nodes[i].0@ == x && nodes[i].1.proposal.round == rr {
                    let i = choose|i: int| 0 <= i < nodes.len() && nodes[i].0@ == x && nodes[i].1.proposal.round == rr;
                    if i < on.len() {
                        assert(on[i] == nodes[i]);
                        assert(round_member(r0, rr, x));
                    }
                }
            }
        }
        let ghost base = self.nodes@;
        let m = parents.len();
        let mut k: usize = 0;
        while k < m
            invariant
                m == parents@.len(),
                k <= m,
                self.inv(),
                self.nodes@.len() == base.len(),
                base.len() == on.len() + 1,
                base.last().0 == digest,
                forall|j: int|
                    0 <= j < base.len() ==> {
                        &&& (#[trigger] self.nodes@[j]).0 == base[j].0
                        &&& self.nodes@[j].1.proposal == base[j].1.proposal
                        &&& self.nodes@[j].1.committed == base[j].1.committed
                        &&& self.nodes@[j].1.children@.to_set() == if exists|q: int|
                            0 <= q < k && parents@[q]@ == base[j].0@ {
                            base[j].1.children@.to_set().insert(digest)
                        } else {
                            base[j].1.children@.to_set()
                        }
                    },
                self.rounds@ == ra,
            decreases m - k,
        {
            let ghost cur = self.nodes@;
            match self.index_of(&parents[k]) {
                Some(i) => {
                    proof {
                        lemma_node_index(cur, parents@[k as int]@);
                    }
                    self.add_child(i, digest);
                    proof {
                        assert forall|j: int| 0 <= j < base.len() implies {
                            &&& (#[trigger] self.nodes@[j]).0 == base[j].0
                            &&& self.nodes@[j].1.proposal == base[j].1.proposal
                            &&& self.nodes@[j].1.committed == base[j].1.committed
                            &&& self.nodes@[j].1.children@.to_set() == if exists|q: int|
                                0 <= q < k + 1 && parents@[q]@ == base[j].0@ {
                                base[j].1.children@.to_set().insert(digest)
                            } else {
                                base[j].1.children@.to_set()
                            }
                        } by {
                            if j == i {
                                assert(parents@[k as int]@ == base[j].0@);
                                if exists|q: int| 0 <= q < k && parents@[q]@ == base[j].0@ {
                                    assert(cur[j].1.children@.to_set() == base[j].1.children@.to_set().insert(digest));
                                    assert(base[j].1.children@.to_set().insert(digest).insert(digest) =~= base[j].1.children@.to_set().insert(digest));
                                }
                            } else {
                                assert(self.nodes@[j] == cur[j]);
                                if parents@[k as int]@ == base[j].0@ {
                                    assert(cur[i as int].0@ == base[j].0@);
                                    assert(false);
                                }
                                if exists|q: int| 0 <= q < k + 1 && parents@[q]@ == base[j].0@ {
                                    let q = choose|q: int| 0 <= q < k + 1 && parents@[q]@ == base[j].0@;
                                    assert(q < k);
                                }
                            }
                        }
                    }
                },
                None => {
                    proof {
                        lemma_node_index(cur, parents@[k as int]@);
                        assert forall|j: int| 0 <= j < base.len() implies #[trigger] base[j] == base[j] && (exists|q: int|
                            0 <= q < k + 1 && parents@[q]@ == base[j].0@) == (exists|q: int|
                            0 <= q < k && parents@[q]@ == base[j].0@) by {
                            if exists|q: int| 0 <= q < k + 1 && parents@[q]@ == base[j].0@ {
                                let q = choose|q: int| 0 <= q < k + 1 && parents@[q]@ == base[j].0@;
                                if q == k {
                                    assert(cur[j].0@ == base[j].0@);
                                }
                            }
                        }
                    }
                },
            }
            k = k + 1;
        }
        proof {
            let nn = self.nodes@;
            assert(nn.last() == nn[base.len() - 1]);
            assert(base.last().1.children@.len() == 0);
            assert(base.last().1.children@.to_set() =~= Set::<TransactionDigest>::empty());
            if exists|q: int| 0 <= q < m && parents@[q]@ == base.last().0@ {
                assert(Set::<TransactionDigest>::empty().insert(digest) =~= Set::empty().insert(nn.last().0));
            }
            assert forall|j: int| 0 <= j < on.len() implies base[j] == on[j] by {}
        }
        Ok(())
    }

    /// Check if a node can be committed: it is in the DAG, its parents in
    /// the DAG are committed, and its children in the DAG span at least three
    /// rounds.
    fn can_commit(&self, digest: &TransactionDigest) -> (r: bool)
        ensures
            r == commit_ready(self.nodes(), digest@),
    {
        let i = match self.index_of(digest) {
            Some(i) => i,
            None => return false,
        };
        proof {
            lemma_node_index(self.nodes@, digest@);
        }
        let node = &self.nodes[i].1;
        let np = node.proposal.parents.len();
        let mut k: usize = 0;
        while k < np
            invariant
                np == node.proposal.parents@.len(),
                k <= np,
                *node == self.nodes@[i as int].1,
                node_index(self.nodes@, digest@) == Some(i as int),
                forall|q: int|
                    0 <= q < k ==> match node_index(self.nodes@, (#[trigger] node.proposal.parents@[q])@) {
                        Some(j) => self.nodes@[j].1.committed,
                        None => true,
                    },
                i < self.nodes@.len(),
            decreases np - k,
        {
            proof {
                lemma_node_index(self.nodes@, node.proposal.parents@[k as int]@);
            }
            match self.index_of(&node.proposal.parents[k]) {
                Some(j) => {
                    if !self.nodes[j].1.committed {
                        proof {
                            let ps = self.nodes@[i as int].1.proposal.parents@;
                            assert(ps[k as int] == node.proposal.parents@[k as int]);
                            assert(node_index(self.nodes@, ps[k as int]@) == Some(j as int));
                            assert(!self.nodes@[j as int].1.committed);
                            assert(!parents_committed(self.nodes@, ps));
                            assert(node_index(self.nodes@, digest@) == Some(i as int));
                        }
                        return false;
                    }
                },
                None => {},
            }
            k = k + 1;
        }
        let nc = node.children.len();
        let mut rounds: Vec<u64> = Vec::new();
        let mut c: usize = 0;
        while c < nc
            invariant
                nc == node.children@.len(),
                c <= nc,
                *node == self.nodes@[i as int].1,
                rounds@ == child_rounds(self.nodes@, node.children@.take(c as int)),
                i < self.nodes@.len(),
                parents_committed(self.nodes@, node.proposal.parents@),
            decreases nc - c,
        {
            assert(node.children@.take(c + 1).drop_last() == node.children@.take(c as int));
            assert(node.children@.take(c + 1).last() == node.children@[c as int]);
            proof {
                lemma_node_index(self.nodes@, node.children@[c as int]@);
            }
            match self.index_of(&node.children[c]) {
                Some(j) => {
                    let r = self.nodes[j].1.proposal.round;
                    let mut seen = false;
                    let nr = rounds.len();
                    let mut t: usize = 0;
                    while t < nr
                        invariant
                            nr == rounds@.len(),
                            t <= nr,
                            seen == exists|u: int| 0 <= u < t && rounds@[u] == r,
                        decreases nr - t,
                    {
                        if rounds[t] == r {
                            seen = true;
                        }
                        t = t + 1;
                    }
                    assert(seen == rounds@.contains(r));
                    if !seen {
                        rounds.push(r);
                    }
                },
                None => {},
            }
            c = c + 1;
        }
        assert(node.children@.take(nc as int) == node.children@);
        rounds.len() >= 3
    }

    /// Find the nodes that can be committed: those not committed that meet
    /// the commit rule, in the order the nodes were added.
    pub fn find_commit_candidates(&self) -> (r: Result<Vec<Proposal>, ProtocolError>)
        ensures
            r matches Ok(v) && ({
                let idx = candidate_indices(self.nodes(), self.nodes().len() as int);
                &&& v@.len() == idx.len()
                &&& forall|k: int| 0 <= k < idx.len() ==> 0 <= #[trigger] idx[k] < self.nodes().len()
                &&& forall|k: int|
                    0 <= k < v@.len() ==> (#[trigger] v@[k]).round
                        == self.nodes()[idx[k]].1.proposal.round && v@[k].parents@ == self.nodes()[idx[k]].1.proposal.parents@
                        && enc_proposal(v@[k]) == enc_proposal(self.nodes()[idx[k]].1.proposal)
            }),
            self.inv() ==> (r matches Ok(v) && forall|k: int| #![trigger v@[k]] 0 <= k < v@.len() ==> {
                &&& exists|j: int|
                    0 <= j < self.nodes().len() && !(#[trigger] self.nodes()[j]).1.committed && enc_proposal(
                        self.nodes()[j].1.proposal,
                    ) == enc_proposal(v@[k]) && children_span_three_rounds(self.nodes(), j)
                &&& forall|m: int, j: int|
                    #![trigger v@[k].parents@[m], self.nodes()[j]]
                    0 <= m < v@[k].parents@.len() && 0 <= j < self.nodes().len()
                        && self.nodes()[j].0@ == v@[k].parents@[m]@ ==> self.nodes()[j].1.committed
            }),
    {
        let mut candidates: Vec<Proposal> = Vec::new();
        let n = self.nodes.len();
        let mut i: usize = 0;
        while i < n
            invariant
                n == self.nodes@.len(),
                i <= n,
                ({
                    let idx = candidate_indices(self.nodes@, i as int);
                    &&& candidates@.len() == idx.len()
                    &&& forall|k: int| 0 <= k < idx.len() ==> 0 <= #[trigger] idx[k] < i
                    &&& forall|k: int|
                        0 <= k < candidates@.len() ==> (#[trigger] candidates@[k]).round
                            == self.nodes@[idx[k]].1.proposal.round && candidates@[k].parents@ == self.nodes@[idx[k]].1.proposal.parents@
                            && enc_proposal(candidates@[k]) == enc_proposal(self.nodes@[idx[k]].1.proposal)
                }),
            decreases n - i,
        {
            let node = &self.nodes[i];
            let ghost prev = candidates@;
            let ghost pidx = candidate_indices(self.nodes@, i as int);
            if !node.1.committed && self.can_commit(&node.0) {
                let c = node.1.proposal.clone();
                candidates.push(c);
                proof {
                    let idx = candidate_indices(self.nodes@, i + 1);
                    assert(idx == pidx.push(i as int));
                    assert forall|k: int| 0 <= k < idx.len() implies 0 <= #[trigger] idx[k] < i + 1 by {
                        if k < pidx.len() {
                            assert(idx[k] == pidx[k]);
                        }
                    }
                    assert forall|k: int| 0 <= k < candidates@.len() implies (#[trigger] candidates@[k]).round
                            == self.nodes@[idx[k]].1.proposal.round && candidates@[k].parents@ == self.nodes@[idx[k]].1.proposal.parents@
                            && enc_proposal(candidates@[k]) == enc_proposal(self.nodes@[idx[k]].1.proposal) by {
                        if k < prev.len() {
                            assert(candidates@[k] == prev[k]);
                            assert(idx[k] == pidx[k]);
                        } else {
                            assert(candidates@[k] == c);
                            assert(idx[k] == i);
                        }
                    }
                }
            } else {
                proof {
                    let idx = candidate_indices(self.nodes@, i + 1);
                    assert(idx == pidx);
                }
            }
            i = i + 1;
        }
        proof {
            if self.inv() {
                let idx = candidate_indices(self.nodes@, n as int);
                assert forall|a: int, b: int| 0 <= a < b < self.nodes@.len() implies self.nodes@[a].0@
                    != self.nodes@[b].0@ by {
                    assert(self.nodes()[a].0@ != self.nodes()[b].0@);
                }
                assert forall|k: int| #![trigger candidates@[k]] 0 <= k < candidates@.len() implies {
                    &&& exists|j: int|
                        0 <= j < self.nodes@.len() && !(#[trigger] self.nodes@[j]).1.committed && enc_proposal(
                            self.nodes@[j].1.proposal,
                        ) == enc_proposal(candidates@[k]) && children_span_three_rounds(self.nodes@, j)
                    &&& forall|m: int, j: int|
                        #![trigger candidates@[k].parents@[m], self.nodes@[j]]
                        0 <= m < candidates@[k].parents@.len() && 0 <= j < self.nodes@.len()
                            && self.nodes@[j].0@ == candidates@[k].parents@[m]@ ==> self.nodes@[j].1.committed
                } by {
                    law_candidates_meet_commit_rule(self.nodes@, k);
                    assert(0 <= idx[k] < self.nodes@.len() && !self.nodes@[idx[k]].1.committed);
                    assert forall|m: int, j: int|
                        #![trigger candidates@[k].parents@[m], self.nodes@[j]]
                        0 <= m < candidates@[k].parents@.len() && 0 <= j < self.nodes@.len()
                            && self.nodes@[j].0@ == candidates@[k].parents@[m]@ implies self.nodes@[j].1.committed by {
                        assert(candidates@[k].parents@ == self.nodes@[idx[k]].1.proposal.parents@);
                        assert(candidates@[k].parents@[m] == self.nodes@[idx[k]].1.proposal.parents@[m]);
                    }
                }
            }
        }
        Ok(candidates)
    }
}

} // verus!
