//! The Narwhal engine: proposals pass the safety rules, enter the DAG, and
//! every node that then meets the commit rule is certified.
use vstd::prelude::*;
use crate::consensus::{
    Certificate, ConsensusState, Dag, DagNode, Proposal, Round, SafetyRules, Vote,
    candidate_indices, enc_proposal, proposal_fault, proposal_signatures,
};
use crate::errors::ProtocolError;
use crate::protocol::TransactionDigest;

verus! {

/// Narwhal consensus configuration
#[derive(Debug, Clone, Copy)]
pub struct NarwhalConfig {
    /// Block time target (ms)
    pub block_time_ms: u64,
    /// Maximum batch size
    pub max_batch_size: usize,
    /// Number of parents per proposal
    pub parents_count: usize,
}

/// The commit candidates of a DAG: its uncommitted nodes that meet the
/// commit rule, in the order in which they were added.
pub open spec fn commit_candidates(nodes: Seq<(TransactionDigest, DagNode)>) -> Seq<int> {
    candidate_indices(nodes, nodes.len() as int)
}

/// Whether the safety rules refuse some commit candidate of the DAG.
pub open spec fn some_candidate_refused(sr: SafetyRules, nodes: Seq<(TransactionDigest, DagNode)>) -> bool {
    exists|k: int|
        0 <= k < commit_candidates(nodes).len() && proposal_fault(
            #[trigger] nodes[commit_candidates(nodes)[k]].1.proposal.round,
            sr.highest_voted_round,
            sr.config.max_round_gap,
            sr.locked_round,
        ) is Some
}

/// A certificate for `p`: it holds a proposal with the round, parents and
/// encoding of `p`, and the signatures that the safety rules give.
pub open spec fn certifies(c: Certificate, p: Proposal) -> bool {
    &&& c.proposal.round == p.round
    &&& c.proposal.parents@ == p.parents@
    &&& enc_proposal(c.proposal) == enc_proposal(p)
    &&& proposal_signatures(c.signatures@)
}

/// The certificates `cs` certify, one by one, the commit candidates of the
/// DAG.
pub open spec fn certifies_candidates(cs: Seq<Certificate>, nodes: Seq<(TransactionDigest, DagNode)>) -> bool {
    &&& cs.len() == commit_candidates(nodes).len()
    &&& forall|k: int|
        0 <= k < cs.len() ==> certifies(#[trigger] cs[k], nodes[commit_candidates(nodes)[k]].1.proposal)
}

/// `ps` are copies, one by one, of the proposals of the commit candidates of
/// the DAG.
#[verifier::opaque]
pub open spec fn copies_of_candidates(ps: Seq<Proposal>, nodes: Seq<(TransactionDigest, DagNode)>) -> bool {
    let idx = commit_candidates(nodes);
    &&& ps.len() == idx.len()
    &&& forall|q: int| 0 <= q < idx.len() ==> 0 <= #[trigger] idx[q] < nodes.len()
    &&& forall|q: int|
        0 <= q < ps.len() ==> (#[trigger] ps[q]).round == nodes[idx[q]].1.proposal.round
            && ps[q].parents@ == nodes[idx[q]].1.proposal.parents@ && enc_proposal(ps[q])
            == enc_proposal(nodes[idx[q]].1.proposal)
}

/// Narwhal consensus implementation
pub struct NarwhalConsensus {
    /// Configuration
    config: NarwhalConfig,
    /// Current state
    state: ConsensusState,
    /// Safety rules
    safety_rules: SafetyRules,
    /// DAG
    dag: Dag,
}

impl NarwhalConsensus {
    /// The configuration.
    pub closed spec fn spec_config(&self) -> NarwhalConfig {
        self.config
    }

    /// The consensus state.
    pub closed spec fn spec_state(&self) -> ConsensusState {
        self.state
    }

    /// The safety rules.
    pub closed spec fn spec_safety_rules(&self) -> SafetyRules {
        self.safety_rules
    }

    /// The nodes of the DAG.
    pub closed spec fn spec_nodes(&self) -> Seq<(TransactionDigest, DagNode)> {
        self.dag.nodes()
    }

    /// The digests of the DAG listed by round.
    pub closed spec fn spec_rounds(&self) -> Seq<(Round, Vec<TransactionDigest>)> {
        self.dag.rounds()
    }

    /// Well-formed: the DAG keeps its invariant.
    pub closed spec fn wf(&self) -> bool {
        self.dag.inv()
    }

    pub fn new(config: NarwhalConfig, safety_rules: SafetyRules) -> (c: NarwhalConsensus)
        ensures
            c.wf(),
            c.spec_config() == config,
            c.spec_safety_rules() == safety_rules,
            c.spec_state().round == 0,
            c.spec_state().last_committed_round == 0,
            c.spec_state().pending_proposals@.len() == 0,
            c.spec_state().committed_certificates@.len() == 0,
            c.spec_nodes().len() == 0,
            c.spec_rounds().len() == 0,
    {
        let state = ConsensusState {
            round: 0,
            last_committed_round: 0,
            pending_proposals: Vec::new(),
            committed_certificates: Vec::new(),
        };
        NarwhalConsensus { config, state, safety_rules, dag: Dag::new() }
    }

    /// Create certificate for a proposal: the safety rules sign it.
    fn create_certificate(&self, proposal: Proposal) -> (r: Result<Certificate, ProtocolError>)
        requires
            self.safety_rules.gap_fits(),
        ensures
            r is Ok <==> proposal_fault(
                proposal.round,
                self.safety_rules.highest_voted_round,
                self.safety_rules.config.max_round_gap,
                self.safety_rules.locked_round,
            ) is None,
            r matches Ok(c) ==> c.proposal == proposal && proposal_signatures(c.signatures@),
            r matches Err(e) ==> e is InvalidProposal,
    {
        let signatures = self.safety_rules.sign_proposal(&proposal)?;
        Ok(Certificate { proposal, signatures })
    }

    /// Try to commit: certify every commit candidate of the DAG; `None`
    /// when there is none.
    fn try_commit(&self) -> (r: Result<Option<Vec<Certificate>>, ProtocolError>)
        requires
            self.safety_rules.gap_fits(),
        ensures
            r is Err <==> some_candidate_refused(self.safety_rules, self.dag.nodes()),
            r matches Err(e) ==> e is InvalidProposal,
            r matches Ok(None) ==> commit_candidates(self.dag.nodes()).len() == 0,
            r matches Ok(Some(v)) ==> commit_candidates(self.dag.nodes()).len() > 0
                && certifies_candidates(v@, self.dag.nodes()),
    {
        let ghost nodes = self.dag.nodes();
        let ghost idx = commit_candidates(nodes);
        let candidates = match self.dag.find_commit_candidates() {
            Ok(c) => c,
            Err(e) => return Err(e),
        };
        if candidates.len() == 0 {
            return Ok(None);
        }
        let mut certificates: Vec<Certificate> = Vec::new();
        let mut rest = candidates;
        let ghost all = rest@;
        let ghost sr = self.safety_rules;
        proof {
            reveal(copies_of_candidates);
        }
        assert(copies_of_candidates(all, nodes));
        let n = rest.len();
        let mut k: usize = 0;
        while k < n
            invariant
                n == all.len(),
                k <= n,
                rest@ == all.skip(k as int),
                certificates@.len() == k,
                sr == self.safety_rules,
                sr.gap_fits(),
                idx == commit_candidates(nodes),
                nodes == self.dag.nodes(),
                copies_of_candidates(all, nodes),
                forall|q: int|
                    0 <= q < k ==> (#[trigger] certificates@[q]).proposal == all[q]
                        && proposal_signatures(certificates@[q].signatures@),
                forall|q: int|
                    0 <= q < k ==> proposal_fault(
                        (#[trigger] all[q]).round,
                        sr.highest_voted_round,
                        sr.config.max_round_gap,
                        sr.locked_round,
                    ) is None,
            decreases n - k,
        {
            let proposal = rest.remove(0);
            assert(proposal == all[k as int]);
            assert(rest@ == all.skip(k + 1));
            let cert = match self.create_certificate(proposal) {
                Ok(c) => c,
                Err(e) => {
                    proof {
                        reveal(copies_of_candidates);
                        let q = k as int;
                        assert(all[q].round == nodes[idx[q]].1.proposal.round);
                        assert(proposal_fault(
                            nodes[commit_candidates(nodes)[q]].1.proposal.round,
                            sr.highest_voted_round,
                            sr.config.max_round_gap,
                            sr.locked_round,
                        ) is Some);
                    }
                    return Err(e);
                },
            };
            certificates.push(cert);
            k = k + 1;
        }
        proof {
            reveal(copies_of_candidates);
            assert forall|q: int| 0 <= q < idx.len() implies proposal_fault(
                #[trigger] nodes[idx[q]].1.proposal.round,
                sr.highest_voted_round,
                sr.config.max_round_gap,
                sr.locked_round,
            ) is None by {
                assert(all[q].round == nodes[idx[q]].1.proposal.round);
            }
            assert forall|q: int| 0 <= q < certificates@.len() implies certifies(
                #[trigger] certificates@[q],
                nodes[commit_candidates(nodes)[q]].1.proposal,
            ) by {
                assert(certificates@[q].proposal == all[q]);
            }
        }
        Ok(Some(certificates))
    }

    /// Process a new proposal: it must pass the safety rules and be new to
    /// the DAG; then every commit candidate is certified, the certificates
    /// are appended to the committed ones and the proposal's round becomes
    /// the last committed round. A candidate that the safety rules refuse
    /// makes the call fail, with the proposal left in the DAG.
    pub fn process_proposal(&mut self, proposal: Proposal) -> (r: Result<(), ProtocolError>)
        requires
            old(self).wf(),
            old(self).spec_safety_rules().gap_fits(),
        ensures
            final(self).wf(),
            final(self).spec_config() == old(self).spec_config(),
            final(self).spec_safety_rules() == old(self).spec_safety_rules(),
            final(self).spec_state().round == old(self).spec_state().round,
            final(self).spec_state().pending_proposals == old(self).spec_state().pending_proposals,
            r matches Err(e) ==> e is InvalidProposal,
            ({
                let sr = old(self).spec_safety_rules();
                let fault = proposal_fault(
                    proposal.round,
                    sr.highest_voted_round,
                    sr.config.max_round_gap,
                    sr.locked_round,
                );
                let d = crate::hashing::spec_sha256(enc_proposal(proposal));
                let on = old(self).spec_nodes();
                let nn = final(self).spec_nodes();
                let os = old(self).spec_state();
                let ns = final(self).spec_state();
                if fault is Some || crate::consensus::node_index(on, d) is Some {
                    &&& r is Err
                    &&& nn == on
                    &&& final(self).spec_rounds() == old(self).spec_rounds()
                    &&& ns == os
                } else {
                    &&& crate::consensus::nodes_after_add(on, nn, proposal)
                    &&& crate::consensus::rounds_after_add(
                        old(self).spec_rounds(),
                        final(self).spec_rounds(),
                        proposal.round,
                        d,
                    )
                    &&& (r is Err <==> some_candidate_refused(sr, nn))
                    &&& (r is Err || commit_candidates(nn).len() == 0 ==> ns == os)
                    &&& (r is Ok && commit_candidates(nn).len() > 0 ==> {
                        &&& ns.last_committed_round == proposal.round
                        &&& ns.committed_certificates@.len() == os.committed_certificates@.len()
                            + commit_candidates(nn).len()
                        &&& ns.committed_certificates@.take(os.committed_certificates@.len() as int)
                            == os.committed_certificates@
                        &&& certifies_candidates(
                            ns.committed_certificates@.skip(os.committed_certificates@.len() as int),
                            nn,
                        )
                    })
                }
            }),
    {
        self.safety_rules.verify_proposal(&proposal)?;
        let round = proposal.round;
        let copy = proposal.clone();
        proof {
            assert(enc_proposal(copy) == enc_proposal(proposal));
        }
        self.dag.add_proposal(copy)?;
        match self.try_commit() {
            Err(e) => Err(e),
            Ok(None) => Ok(()),
            Ok(Some(certificates)) => {
                let ghost before = self.state.committed_certificates@;
                let mut certs = certificates;
                let ghost added = certs@;
                self.state.committed_certificates.append(&mut certs);
                self.state.last_committed_round = round;
                proof {
                    let after = self.state.committed_certificates@;
                    assert(after.take(before.len() as int) == before);
                    assert(after.skip(before.len() as int) == added);
                }
                Ok(())
            },
        }
    }

    /// Process a vote through the safety rules.
    pub fn process_vote(&mut self, vote: &Vote) -> (r: Result<(), ProtocolError>)
        requires
            old(self).wf(),
        ensures
            r is Ok,
            final(self).wf(),
            final(self).spec_config() == old(self).spec_config(),
            final(self).spec_state() == old(self).spec_state(),
            final(self).spec_nodes() == old(self).spec_nodes(),
            final(self).spec_rounds() == old(self).spec_rounds(),
            final(self).spec_safety_rules().config == old(self).spec_safety_rules().config,
            final(self).spec_safety_rules().highest_certified_round == old(
                self,
            ).spec_safety_rules().highest_certified_round,
            final(self).spec_safety_rules().highest_voted_round == if vote.round > old(
                self,
            ).spec_safety_rules().highest_voted_round {
                vote.round
            } else {
                old(self).spec_safety_rules().highest_voted_round
            },
            final(self).spec_safety_rules().locked_round == if vote.signatures@.len() >= old(
                self,
            ).spec_safety_rules().config.quorum_size {
                Some(vote.round)
            } else {
                old(self).spec_safety_rules().locked_round
            },
    {
        self.safety_rules.process_vote(vote)
    }

    /// Get current round
    pub fn current_round(&self) -> (r: Round)
        ensures
            r == self.spec_state().round,
    {
        self.state.round
    }

    /// Get consensus state
    pub fn state(&self) -> (s: &ConsensusState)
        ensures
            *s == self.spec_state(),
    {
        &self.state
    }

    /// The safety rules.
    pub fn safety_rules(&self) -> (s: &SafetyRules)
        ensures
            *s == self.spec_safety_rules(),
    {
        &self.safety_rules
    }
}

} // verus!
