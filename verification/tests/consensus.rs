use swift_network::consensus::{Dag, Proposal, SafetyRules, SafetyRulesConfig, Vote};
use swift_network::errors::ProtocolError;
use swift_network::narwhal::{NarwhalConfig, NarwhalConsensus};
use swift_network::protocol::TransactionDigest;

fn proposal(round: u64, author: &str, parents: Vec<TransactionDigest>) -> Proposal {
    Proposal { round, author: author.to_string(), transactions: Vec::new(), parents, signature: vec![round as u8] }
}

fn rules(quorum: usize, gap: u64) -> SafetyRules {
    SafetyRules::new(SafetyRulesConfig { quorum_size: quorum, max_round_gap: gap })
}

fn vote(round: u64, signatures: usize) -> Vote {
    Vote { round, author: "v".to_string(), signatures: vec![vec![0u8]; signatures] }
}

#[test]
fn proposal_digest_follows_contents() {
    let a = proposal(1, "a", vec![]);
    let b = proposal(1, "b", vec![]);
    assert_ne!(a.digest().as_bytes(), b.digest().as_bytes());
    assert_eq!(a.digest().as_bytes(), a.clone().digest().as_bytes());
}

#[test]
fn safety_rules_check_rounds() {
    let mut s = rules(2, 10);
    assert!(s.verify_proposal(&proposal(1, "a", vec![])).is_ok());
    assert!(matches!(s.verify_proposal(&proposal(0, "a", vec![])), Err(ProtocolError::InvalidProposal(_))));
    assert!(matches!(s.verify_proposal(&proposal(11, "a", vec![])), Err(ProtocolError::InvalidProposal(_))));
    assert!(s.process_vote(&vote(5, 1)).is_ok());
    assert_eq!(s.highest_voted_round, 5);
    assert!(s.locked_round.is_none());
    assert!(s.verify_proposal(&proposal(5, "a", vec![])).is_err());
    assert!(s.verify_proposal(&proposal(6, "a", vec![])).is_ok());
}

#[test]
fn quorum_vote_locks_its_round() {
    let mut s = rules(2, 100);
    s.process_vote(&vote(3, 2)).unwrap();
    assert_eq!(s.locked_round, Some(3));
    s.process_vote(&vote(1, 0)).unwrap();
    assert_eq!(s.highest_voted_round, 3);
    assert_eq!(s.locked_round, Some(3));
}

#[test]
fn vote_blocks_lower_rounds() {
    let mut s = rules(1, 100);
    s.process_vote(&vote(7, 0)).unwrap();
    for r in 0..=7 {
        assert!(s.verify_proposal(&proposal(r, "a", vec![])).is_err());
    }
}

#[test]
fn certified_round_only_rises() {
    let mut s = rules(1, 10);
    s.update_highest_certified_round(4);
    s.update_highest_certified_round(2);
    assert_eq!(s.highest_certified_round, 4);
}

#[test]
fn sign_proposal_gives_two_signatures() {
    let s = rules(1, 10);
    let sigs = s.sign_proposal(&proposal(1, "a", vec![])).unwrap();
    assert_eq!(sigs.len(), 2);
    assert_eq!(sigs[0].0, "validator1");
    assert_eq!(sigs[1].1, vec![4u8, 5, 6]);
    assert!(s.sign_proposal(&proposal(0, "a", vec![])).is_err());
}

#[test]
fn dag_refuses_duplicates() {
    let mut d = Dag::new();
    assert!(d.add_proposal(proposal(1, "a", vec![])).is_ok());
    assert!(matches!(d.add_proposal(proposal(1, "a", vec![])), Err(ProtocolError::InvalidProposal(_))));
}

#[test]
fn dag_commits_node_with_children_in_three_rounds() {
    let mut d = Dag::new();
    let root = proposal(1, "r", vec![]);
    let rd = root.digest();
    d.add_proposal(root).unwrap();
    d.add_proposal(proposal(2, "c1", vec![rd])).unwrap();
    d.add_proposal(proposal(3, "c2", vec![rd])).unwrap();
    assert!(d.find_commit_candidates().unwrap().is_empty());
    d.add_proposal(proposal(4, "c3", vec![rd])).unwrap();
    let c = d.find_commit_candidates().unwrap();
    assert_eq!(c.len(), 1);
    assert_eq!(c[0].round, 1);
    assert_eq!(c[0].author, "r");
}

#[test]
fn children_in_one_round_do_not_commit() {
    let mut d = Dag::new();
    let root = proposal(1, "r", vec![]);
    let rd = root.digest();
    d.add_proposal(root).unwrap();
    d.add_proposal(proposal(2, "a", vec![rd])).unwrap();
    d.add_proposal(proposal(2, "b", vec![rd])).unwrap();
    d.add_proposal(proposal(2, "c", vec![rd])).unwrap();
    assert!(d.find_commit_candidates().unwrap().is_empty());
}

fn narwhal(gap: u64) -> NarwhalConsensus {
    NarwhalConsensus::new(NarwhalConfig { block_time_ms: 100, max_batch_size: 10, parents_count: 2 }, rules(2, gap))
}

#[test]
fn narwhal_commits_when_rule_is_met() {
    let mut n = narwhal(10);
    let root = proposal(1, "r", vec![]);
    let rd = root.digest();
    n.process_proposal(root).unwrap();
    n.process_proposal(proposal(2, "c1", vec![rd])).unwrap();
    n.process_proposal(proposal(3, "c2", vec![rd])).unwrap();
    assert_eq!(n.state().committed_certificates.len(), 0);
    n.process_proposal(proposal(4, "c3", vec![rd])).unwrap();
    assert_eq!(n.state().committed_certificates.len(), 1);
    assert_eq!(n.state().last_committed_round, 4);
    assert_eq!(n.state().committed_certificates[0].proposal.round, 1);
    assert_eq!(n.state().committed_certificates[0].signatures.len(), 2);
    assert_eq!(n.current_round(), 0);
}

#[test]
fn narwhal_refuses_unsafe_and_duplicate_proposals() {
    let mut n = narwhal(3);
    assert!(matches!(n.process_proposal(proposal(4, "a", vec![])), Err(ProtocolError::InvalidProposal(_))));
    n.process_proposal(proposal(1, "a", vec![])).unwrap();
    assert!(matches!(n.process_proposal(proposal(1, "a", vec![])), Err(ProtocolError::InvalidProposal(_))));
}

#[test]
fn narwhal_votes_reach_safety_rules() {
    let mut n = narwhal(10);
    n.process_vote(&vote(2, 2)).unwrap();
    assert_eq!(n.safety_rules().highest_voted_round, 2);
    assert_eq!(n.safety_rules().locked_round, Some(2));
    assert!(n.process_proposal(proposal(2, "a", vec![])).is_err());
    assert!(n.process_proposal(proposal(3, "a", vec![])).is_ok());
}
