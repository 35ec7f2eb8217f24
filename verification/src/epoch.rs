//! Epochs and committees: the validators of an epoch with their stake, the
//! quorum threshold, and the manager that prepares the next committee and
//! starts the next epoch.
use vstd::prelude::*;
use crate::crypto::{PublicKey, SignatureScheme};
use crate::errors::AuthorityError;

verus! {

/// Authority state
#[derive(Debug)]
pub struct AuthorityState {
    /// Authority public key
    pub public_key: PublicKey,
    /// Current epoch
    pub epoch: u64,
    /// Stake amount
    pub stake: u64,
    /// Network address
    pub network_address: String,
}

/// What an authority state holds, as plain values.
pub struct AuthorityView {
    pub public_key: (SignatureScheme, Seq<u8>),
    pub epoch: u64,
    pub stake: u64,
    pub network_address: Seq<char>,
}

impl View for AuthorityState {
    type V = AuthorityView;

    open spec fn view(&self) -> AuthorityView {
        AuthorityView {
            public_key: self.public_key@,
            epoch: self.epoch,
            stake: self.stake,
            network_address: self.network_address@,
        }
    }
}

impl Clone for AuthorityState {
    fn clone(&self) -> (r: AuthorityState)
        ensures
            r@ == self@,
    {
        AuthorityState {
            public_key: self.public_key.clone(),
            epoch: self.epoch,
            stake: self.stake,
            network_address: self.network_address.as_str().to_string(),
        }
    }
}

/// Committee information
#[derive(Debug)]
pub struct CommitteeInfo {
    /// Epoch number
    pub epoch: u64,
    /// Validators
    pub validators: Vec<AuthorityState>,
    /// Quorum threshold
    pub quorum_threshold: u64,
    /// Total stake
    pub total_stake: u64,
}

/// What a committee holds, as plain values.
pub struct CommitteeView {
    pub epoch: u64,
    pub validators: Seq<AuthorityView>,
    pub quorum_threshold: u64,
    pub total_stake: u64,
}

/// The views of a sequence of authority states.
pub open spec fn authority_views(vs: Seq<AuthorityState>) -> Seq<AuthorityView> {
    vs.map_values(|v: AuthorityState| v@)
}

impl View for CommitteeInfo {
    type V = CommitteeView;

    open spec fn view(&self) -> CommitteeView {
        CommitteeView {
            epoch: self.epoch,
            validators: authority_views(self.validators@),
            quorum_threshold: self.quorum_threshold,
            total_stake: self.total_stake,
        }
    }
}

impl Clone for CommitteeInfo {
    fn clone(&self) -> (r: CommitteeInfo)
        ensures
            r@ == self@,
    {
        let n = self.validators.len();
        let mut validators: Vec<AuthorityState> = Vec::new();
        let mut i: usize = 0;
        while i < n
            invariant
                n == self.validators@.len(),
                i <= n,
                validators@.len() == i,
                authority_views(validators@) == authority_views(self.validators@.take(i as int)),
            decreases n - i,
        {
            let v = self.validators[i].clone();
            let ghost prev = validators@;
            validators.push(v);
            assert forall|j: int| 0 <= j < i + 1 implies authority_views(validators@)[j] == authority_views(
                self.validators@.take(i + 1),
            )[j] by {
                if j < i {
                    assert(validators@[j] == prev[j]);
                    assert(authority_views(prev)[j] == authority_views(self.validators@.take(i as int))[j]);
                }
            }
            assert(authority_views(validators@) =~= authority_views(self.validators@.take(i + 1)));
            i = i + 1;
        }
        assert(self.validators@.take(n as int) == self.validators@);
        CommitteeInfo {
            epoch: self.epoch,
            validators,
            quorum_threshold: self.quorum_threshold,
            total_stake: self.total_stake,
        }
    }
}

/// Index of the first validator with public key `pk`.
pub open spec fn validator_index(vs: Seq<AuthorityView>, pk: (SignatureScheme, Seq<u8>)) -> Option<int>
    decreases vs.len(),
{
    if vs.len() == 0 {
        None
    } else if vs[0].public_key == pk {
        Some(0)
    } else {
        match validator_index(vs.drop_first(), pk) {
            Some(i) => Some(i + 1),
            None => None,
        }
    }
}

/// The quorum threshold of a total stake: more than two thirds of it.
pub open spec fn quorum_of(total: int) -> int {
    (total * 2) / 3 + 1
}

impl CommitteeInfo {
    /// Check if has quorum
    pub fn has_quorum(&self, stake: u64) -> (r: bool)
        ensures
            r == (stake >= self.quorum_threshold),
    {
        stake >= self.quorum_threshold
    }

    /// Get validator by public key: the first with that key.
    pub fn get_validator(&self, public_key: &PublicKey) -> (r: Option<&AuthorityState>)
        ensures
            match validator_index(self@.validators, public_key@) {
                Some(i) => r matches Some(v) && v@ == self@.validators[i],
                None => r is None,
            },
    {
        let n = self.validators.len();
        let ghost vs = self@.validators;
        let mut i: usize = 0;
        assert(vs.skip(0) == vs);
        while i < n
            invariant
                n == self.validators@.len(),
                vs == authority_views(self.validators@),
                i <= n,
                validator_index(vs, public_key@) == (match validator_index(vs.skip(i as int), public_key@) {
                    Some(j) => Some(j + i),
                    None => None::<int>,
                }),
            decreases n - i,
        {
            assert(vs.skip(i as int).drop_first() == vs.skip(i + 1));
            if self.validators[i].public_key == *public_key {
                return Some(&self.validators[i]);
            }
            i = i + 1;
        }
        None
    }

    /// Get total stake
    pub fn total_stake(&self) -> (t: u64)
        ensures
            t == self.total_stake,
    {
        self.total_stake
    }
}

/// Epoch configuration
#[derive(Debug, Clone, Copy)]
pub struct EpochConfig {
    /// Epoch duration in milliseconds
    pub epoch_duration_ms: u64,
    /// Minimum validator stake
    pub min_validator_stake: u64,
    /// Maximum validator count
    pub max_validator_count: usize,
}

/// Epoch information
#[derive(Debug)]
pub struct EpochInfo {
    /// Epoch number
    pub epoch: u64,
    /// Start timestamp
    pub start_timestamp: u64,
    /// End timestamp
    pub end_timestamp: u64,
    /// Committee information
    pub committee: CommitteeInfo,
    /// Total transactions
    pub total_transactions: u64,
    /// Total gas used
    pub total_gas_used: u64,
}

/// What an epoch holds, as plain values.
pub struct EpochView {
    pub epoch: u64,
    pub start_timestamp: u64,
    pub end_timestamp: u64,
    pub committee: CommitteeView,
    pub total_transactions: u64,
    pub total_gas_used: u64,
}

impl View for EpochInfo {
    type V = EpochView;

    open spec fn view(&self) -> EpochView {
        EpochView {
            epoch: self.epoch,
            start_timestamp: self.start_timestamp,
            end_timestamp: self.end_timestamp,
            committee: self.committee@,
            total_transactions: self.total_transactions,
            total_gas_used: self.total_gas_used,
        }
    }
}

impl Clone for EpochInfo {
    fn clone(&self) -> (r: EpochInfo)
        ensures
            r@ == self@,
    {
        EpochInfo {
            epoch: self.epoch,
            start_timestamp: self.start_timestamp,
            end_timestamp: self.end_timestamp,
            committee: self.committee.clone(),
            total_transactions: self.total_transactions,
            total_gas_used: self.total_gas_used,
        }
    }
}

/// The genesis epoch: epoch 0, an empty committee, no activity.
pub open spec fn genesis_view() -> EpochView {
    EpochView {
        epoch: 0,
        start_timestamp: 0,
        end_timestamp: 0,
        committee: CommitteeView {
            epoch: 0,
            validators: Seq::empty(),
            quorum_threshold: 0,
            total_stake: 0,
        },
        total_transactions: 0,
        total_gas_used: 0,
    }
}

impl EpochInfo {
    /// Create genesis epoch
    pub fn genesis() -> (e: EpochInfo)
        ensures
            e@ == genesis_view(),
    {
        let committee = CommitteeInfo {
            epoch: 0,
            validators: Vec::new(),
            quorum_threshold: 0,
            total_stake: 0,
        };
        let e = EpochInfo {
            epoch: 0,
            start_timestamp: 0,
            end_timestamp: 0,
            committee,
            total_transactions: 0,
            total_gas_used: 0,
        };
        assert(e@.committee.validators =~= Seq::<AuthorityView>::empty());
        e
    }

    /// Get validator stake: that of the first committee member with the key.
    pub fn get_stake(&self, public_key: &PublicKey) -> (r: Option<u64>)
        ensures
            r == (match validator_index(self@.committee.validators, public_key@) {
                Some(i) => Some(self@.committee.validators[i].stake),
                None => None,
            }),
    {
        match self.committee.get_validator(public_key) {
            Some(v) => Some(v.stake),
            None => None,
        }
    }

    /// Check if epoch has ended
    pub fn has_ended(&self, current_timestamp: u64) -> (r: bool)
        ensures
            r == (current_timestamp >= self.end_timestamp),
    {
        current_timestamp >= self.end_timestamp
    }
}

/// Sum of the stakes of a list of validators.
pub open spec fn stake_sum(vs: Seq<(PublicKey, u64)>) -> int
    decreases vs.len(),
{
    if vs.len() == 0 {
        0
    } else {
        stake_sum(vs.drop_last()) + vs.last().1
    }
}

/// Index of the first validator whose stake is below `min`, or the length
/// of the list when there is none.
pub open spec fn first_short(vs: Seq<(PublicKey, u64)>, min: u64) -> int
    decreases vs.len(),
{
    if vs.len() == 0 {
        0
    } else if vs[0].1 < min {
        0
    } else {
        first_short(vs.drop_first(), min) + 1
    }
}

pub proof fn lemma_first_short(vs: Seq<(PublicKey, u64)>, min: u64)
    ensures
        0 <= first_short(vs, min) <= vs.len(),
        forall|j: int| 0 <= j < first_short(vs, min) ==> vs[j].1 >= min,
        first_short(vs, min) < vs.len() ==> vs[first_short(vs, min)].1 < min,
    decreases vs.len(),
{
    if vs.len() > 0 && vs[0].1 >= min {
        lemma_first_short(vs.drop_first(), min);
        assert forall|j: int| 1 <= j < vs.len() implies vs[j] == vs.drop_first()[j - 1] by {}
    }
}

pub proof fn lemma_stake_sum_monotone(vs: Seq<(PublicKey, u64)>, i: int, j: int)
    requires
        0 <= i <= j <= vs.len(),
    ensures
        stake_sum(vs.take(i)) <= stake_sum(vs.take(j)),
    decreases j - i,
{
    if i < j {
        lemma_stake_sum_monotone(vs, i, j - 1);
        assert(vs.take(j).drop_last() == vs.take(j - 1));
    }
}

/// Whether `prepare_next_epoch` can run on these validators without an
/// arithmetic overflow: the stakes it adds up, the doubled total and the next
/// epoch number all fit in a `u64`.
pub open spec fn prepare_fits(vs: Seq<(PublicKey, u64)>, config: EpochConfig, epoch: u64) -> bool {
    let f = first_short(vs, config.min_validator_stake);
    vs.len() <= config.max_validator_count ==> {
        &&& stake_sum(vs.take(f)) <= u64::MAX
        &&& (f == vs.len() ==> stake_sum(vs) * 2 <= u64::MAX)
        &&& (f > 0 || f == vs.len() ==> epoch < u64::MAX)
    }
}

/// The committee that `prepare_next_epoch` builds for epoch `epoch` from a
/// list of validators.
pub open spec fn committee_for(vs: Seq<(PublicKey, u64)>, epoch: u64, c: CommitteeView) -> bool {
    &&& c.epoch == epoch
    &&& c.validators.len() == vs.len()
    &&& forall|i: int|
        0 <= i < vs.len() ==> {
            &&& (#[trigger] c.validators[i]).public_key == vs[i].0@
            &&& c.validators[i].stake == vs[i].1
            &&& c.validators[i].epoch == epoch
            &&& c.validators[i].network_address.len() == 0
        }
    &&& c.total_stake == stake_sum(vs)
    &&& c.quorum_threshold == quorum_of(stake_sum(vs))
}

/// Epoch manager
pub struct EpochManager {
    /// Configuration
    config: EpochConfig,
    /// Current epoch
    current_epoch: EpochInfo,
    /// Next epoch committee
    next_committee: Option<CommitteeInfo>,
}

impl EpochManager {
    /// The configuration.
    pub closed spec fn spec_config(&self) -> EpochConfig {
        self.config
    }

    /// The current epoch.
    pub closed spec fn spec_current(&self) -> EpochView {
        self.current_epoch@
    }

    /// The committee prepared for the next epoch, if any.
    pub closed spec fn spec_next(&self) -> Option<CommitteeView> {
        match self.next_committee {
            Some(c) => Some(c@),
            None => None,
        }
    }

    /// A manager that starts from the stored epoch, or from genesis when none
    /// is stored.
    pub fn new(config: EpochConfig, stored: Option<EpochInfo>) -> (m: EpochManager)
        ensures
            m.spec_config() == config,
            m.spec_current() == (match stored {
                Some(e) => e@,
                None => genesis_view(),
            }),
            m.spec_next() is None,
    {
        let current_epoch = match stored {
            Some(e) => e,
            None => EpochInfo::genesis(),
        };
        EpochManager { config, current_epoch, next_committee: None }
    }

    /// Get current epoch
    pub fn get_current_epoch(&self) -> (e: EpochInfo)
        ensures
            e@ == self.spec_current(),
    {
        self.current_epoch.clone()
    }

    /// Get next committee
    pub fn get_next_committee(&self) -> (c: Option<CommitteeInfo>)
        ensures
            match c {
                Some(c) => self.spec_next() == Some(c@),
                None => self.spec_next() is None,
            },
    {
        match &self.next_committee {
            Some(c) => Some(c.clone()),
            None => None,
        }
    }

    /// Prepare next epoch: every validator must have at least the minimum
    /// stake, and there may be no more than the maximum count of them. The
    /// committee of the next epoch holds them in order, with their total stake
    /// and a quorum threshold of more than two thirds of it.
    pub fn prepare_next_epoch(&mut self, validators: Vec<(PublicKey, u64)>) -> (r: Result<
        CommitteeInfo,
        AuthorityError,
    >)
        requires
            prepare_fits(validators@, old(self).spec_config(), old(self).spec_current().epoch),
        ensures
            final(self).spec_config() == old(self).spec_config(),
            final(self).spec_current() == old(self).spec_current(),
            ({
                let max = old(self).spec_config().max_validator_count;
                let f = first_short(validators@, old(self).spec_config().min_validator_stake);
                if validators@.len() > max {
                    &&& r matches Err(e) && e is TooManyValidators
                    &&& final(self).spec_next() == old(self).spec_next()
                } else if f < validators@.len() {
                    &&& r matches Err(e) && e is InsufficientValidatorStake
                    &&& final(self).spec_next() == old(self).spec_next()
                } else {
                    &&& r matches Ok(c) && committee_for(
                        validators@,
                        (old(self).spec_current().epoch + 1) as u64,
                        c@,
                    ) && final(self).spec_next() == Some(c@)
                }
            }),
    {
        let ghost vs = validators@;
        let ghost min = self.config.min_validator_stake;
        proof {
            lemma_first_short(vs, min);
        }
        if validators.len() > self.config.max_validator_count {
            return Err(AuthorityError::TooManyValidators);
        }
        let n = validators.len();
        let mut committee_validators: Vec<AuthorityState> = Vec::new();
        let mut total_stake: u64 = 0;
        let mut rest = validators;
        let mut i: usize = 0;
        while i < n
            invariant
                n == vs.len(),
                i <= n,
                rest@ == vs.skip(i as int),
                min == self.config.min_validator_stake,
                *self == *old(self),
                vs == validators@,
                prepare_fits(vs, self.config, self.current_epoch.epoch),
                n <= self.config.max_validator_count,
                0 <= first_short(vs, min) <= vs.len(),
                forall|j: int| 0 <= j < first_short(vs, min) ==> vs[j].1 >= min,
                first_short(vs, min) < vs.len() ==> vs[first_short(vs, min)].1 < min,
                i <= first_short(vs, min),
                total_stake == stake_sum(vs.take(i as int)),
                committee_validators@.len() == i,
                forall|j: int|
                    0 <= j < i ==> {
                        &&& (#[trigger] committee_validators@[j])@.public_key == vs[j].0@
                        &&& committee_validators@[j].stake == vs[j].1
                        &&& committee_validators@[j].epoch == self.current_epoch.epoch + 1
                        &&& committee_validators@[j].network_address@.len() == 0
                    },
            decreases n - i,
        {
            let (public_key, stake) = rest.remove(0);
            assert(vs[i as int] == (public_key, stake));
            assert(rest@ == vs.skip(i + 1));
            if stake < self.config.min_validator_stake {
                proof {
                    if i < first_short(vs, min) {
                        assert(vs[i as int].1 >= min);
                    }
                    assert(first_short(vs, min) < vs.len());
                }
                return Err(AuthorityError::InsufficientValidatorStake);
            }
            proof {
                lemma_stake_sum_monotone(vs, i + 1, first_short(vs, min));
                assert(vs.take(i + 1).drop_last() == vs.take(i as int));
            }
            let network_address = String::new();
            committee_validators.push(
                AuthorityState {
                    public_key,
                    epoch: self.current_epoch.epoch + 1,
                    stake,
                    network_address,
                },
            );
            total_stake = total_stake + stake;
            i = i + 1;
        }
        assert(vs.take(n as int) == vs);
        let committee = CommitteeInfo {
            epoch: self.current_epoch.epoch + 1,
            validators: committee_validators,
            quorum_threshold: (total_stake * 2) / 3 + 1,
            total_stake,
        };
        proof {
            assert forall|j: int| 0 <= j < vs.len() implies {
                &&& (#[trigger] committee@.validators[j]).public_key == vs[j].0@
                &&& committee@.validators[j].stake == vs[j].1
                &&& committee@.validators[j].epoch == self.current_epoch.epoch + 1
                &&& committee@.validators[j].network_address.len() == 0
            } by {
                assert(committee@.validators[j] == committee.validators@[j]@);
            }
        }
        self.next_committee = Some(committee.clone());
        Ok(committee)
    }

    /// Start new epoch at `timestamp` with the prepared committee, which is
    /// then used up; refused when none is prepared.
    pub fn start_new_epoch(&mut self, timestamp: u64) -> (r: Result<EpochInfo, AuthorityError>)
        requires
            old(self).spec_next() is Some ==> old(self).spec_current().epoch < u64::MAX
                && timestamp + old(self).spec_config().epoch_duration_ms <= u64::MAX,
        ensures
            final(self).spec_config() == old(self).spec_config(),
            final(self).spec_next() is None,
            match r {
                Err(e) => e is NoNextEpochCommittee && old(self).spec_next() is None
                    && final(self).spec_current() == old(self).spec_current(),
                Ok(e) => old(self).spec_next() matches Some(c) && e@ == (EpochView {
                    epoch: (old(self).spec_current().epoch + 1) as u64,
                    start_timestamp: timestamp,
                    end_timestamp: (timestamp + old(self).spec_config().epoch_duration_ms) as u64,
                    committee: c,
                    total_transactions: 0,
                    total_gas_used: 0,
                }) && final(self).spec_current() == e@,
            },
    {
        let next_committee = match self.next_committee.take() {
            Some(c) => c,
            None => return Err(AuthorityError::NoNextEpochCommittee),
        };
        let new_epoch = EpochInfo {
            epoch: self.current_epoch.epoch + 1,
            start_timestamp: timestamp,
            end_timestamp: timestamp + self.config.epoch_duration_ms,
            committee: next_committee,
            total_transactions: 0,
            total_gas_used: 0,
        };
        self.current_epoch = new_epoch.clone();
        Ok(new_epoch)
    }

    /// Update epoch statistics: one more transaction, and the gas it used.
    pub fn update_statistics(&mut self, gas_used: u64) -> (r: Result<(), AuthorityError>)
        requires
            old(self).spec_current().total_transactions < u64::MAX,
            old(self).spec_current().total_gas_used + gas_used <= u64::MAX,
        ensures
            r is Ok,
            final(self).spec_config() == old(self).spec_config(),
            final(self).spec_next() == old(self).spec_next(),
            final(self).spec_current() == (EpochView {
                total_transactions: (old(self).spec_current().total_transactions + 1) as u64,
                total_gas_used: (old(self).spec_current().total_gas_used + gas_used) as u64,
                ..old(self).spec_current()
            }),
    {
        self.current_epoch.total_transactions = self.current_epoch.total_transactions + 1;
        self.current_epoch.total_gas_used = self.current_epoch.total_gas_used + gas_used;
        Ok(())
    }

    /// Check if current epoch should end
    pub fn should_end_epoch(&self, timestamp: u64) -> (r: bool)
        ensures
            r == (timestamp >= self.spec_current().end_timestamp),
    {
        self.current_epoch.has_ended(timestamp)
    }
}

/// Law: the quorum threshold of a committee is more than two thirds of its
/// total stake, so two quorums share more than a third of the stake; and a
/// committee with some stake can reach its threshold.
pub proof fn law_quorum_threshold(total: u64)
    ensures
        3 * quorum_of(total as int) > 2 * total,
        2 * quorum_of(total as int) - total > total / 3,
        total >= 1 ==> quorum_of(total as int) <= total,
{
}

} // verus!
