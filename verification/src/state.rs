//! The pool's data model and state machine: parameters, proposals, phases,
//! and the aggregate `Contract` with its six state-mutating operations.

use crate::host::{AccountInfo, Pubkey};
use crate::maps::{
    map_erase, map_has_key, map_lookup, map_upsert, PubkeyMap, ProposalMap,
};
use vstd::prelude::*;
use vstd::utf8::encode_utf8;

verus! {

/// Immutable pool parameters, validated once at initialization.
#[derive(Clone, Copy, Debug, PartialEq, Eq, Structural)]
pub struct PoolParams {
    pub min_contribution: u64,
    pub max_contribution: u64,
    /// Unix timestamp ending the contribution window.
    pub contribution_deadline: i64,
    /// Unix timestamp ending the voting window.
    pub voting_deadline: i64,
    /// Minimum cumulative pledge required to submit a proposal.
    pub proposal_threshold: u64,
    /// Minimum cumulative pledge required to vote.
    pub voting_threshold: u64,
    /// Required fraction of contributors that must vote, in percent.
    pub quorum_percentage: u8,
}

/// The invariants a parameter set must satisfy to initialize a pool.
pub open spec fn params_valid(p: PoolParams) -> bool {
    &&& p.min_contribution < p.max_contribution
    &&& p.contribution_deadline < p.voting_deadline
    &&& p.quorum_percentage <= 100
}

/// The pool's stage in its forward-only lifecycle.
#[derive(Clone, Copy, Debug, PartialEq, Eq, Structural)]
pub enum PoolState {
    Uninitialized,
    ContributionPhase,
    VotingPhase,
    ExecutionPhase,
    Completed,
}

/// The position of a phase in the forward-only order.
pub open spec fn phase_index(s: PoolState) -> int {
    match s {
        PoolState::Uninitialized => 0,
        PoolState::ContributionPhase => 1,
        PoolState::VotingPhase => 2,
        PoolState::ExecutionPhase => 3,
        PoolState::Completed => 4,
    }
}

/// A 64-bit counter bumped by one, wrapping at the top as the release
/// builds of the machine arithmetic do.
pub open spec fn wrap_inc(v: u64) -> u64 {
    if v == u64::MAX {
        0u64
    } else {
        (v + 1) as u64
    }
}

/// A candidate payout destination submitted by a qualified contributor.
#[derive(Debug)]
pub struct Proposal {
    pub id: u64,
    pub proposer: Pubkey,
    pub bitcoin_address: String,
    pub description: String,
    pub votes: u64,
}

/// The mathematical content of a `Proposal`.
#[verifier::ext_equal]
pub ghost struct ProposalV {
    pub id: u64,
    pub proposer: Seq<u8>,
    pub bitcoin_address: Seq<char>,
    pub description: Seq<char>,
    pub votes: u64,
}

impl View for Proposal {
    type V = ProposalV;

    open spec fn view(&self) -> ProposalV {
        ProposalV {
            id: self.id,
            proposer: self.proposer@,
            bitcoin_address: self.bitcoin_address@,
            description: self.description@,
            votes: self.votes,
        }
    }
}

impl Clone for Proposal {
    fn clone(&self) -> (r: Proposal)
        ensures
            r@ == self@,
    {
        Proposal {
            id: self.id,
            proposer: self.proposer,
            bitcoin_address: self.bitcoin_address.clone(),
            description: self.description.clone(),
            votes: self.votes,
        }
    }
}

/// The error taxonomy of the pool's operations; every value reflects a
/// violated precondition or malformed input, never a transient condition.
#[derive(Clone, Copy, Debug, PartialEq, Eq, Structural)]
pub enum ContractError {
    PoolNotInitialized,
    PoolAlreadyInitialized,
    ContributionTooLow,
    ContributionTooHigh,
    PoolDeadlinePassed,
    VotingPeriodNotEnded,
    VotingPeriodEnded,
    ContributorNotFound,
    InsufficientContributionForProposal,
    InsufficientContributionForVoting,
    ProposalNotFound,
    AlreadyVoted,
    InvalidBitcoinAddress,
    NoProposalsSubmitted,
    NoVotesCast,
    QuorumNotReached,
    TransferAlreadyExecuted,
    ProgramError(crate::host::ProgramError),
    LockTimeError,
    IoError,
}

/// The flat numeric code space each error maps to at the host boundary.
pub open spec fn spec_program_error(e: ContractError) -> crate::host::ProgramError {
    match e {
        ContractError::PoolNotInitialized => crate::host::ProgramError::Custom(1),
        ContractError::PoolAlreadyInitialized => crate::host::ProgramError::Custom(2),
        ContractError::ContributionTooLow => crate::host::ProgramError::Custom(3),
        ContractError::ContributionTooHigh => crate::host::ProgramError::Custom(4),
        ContractError::PoolDeadlinePassed => crate::host::ProgramError::Custom(5),
        ContractError::VotingPeriodNotEnded => crate::host::ProgramError::Custom(6),
        ContractError::VotingPeriodEnded => crate::host::ProgramError::Custom(7),
        ContractError::ContributorNotFound => crate::host::ProgramError::Custom(8),
        ContractError::InsufficientContributionForProposal => crate::host::ProgramError::Custom(9),
        ContractError::InsufficientContributionForVoting => crate::host::ProgramError::Custom(10),
        ContractError::ProposalNotFound => crate::host::ProgramError::Custom(11),
        ContractError::AlreadyVoted => crate::host::ProgramError::Custom(12),
        ContractError::InvalidBitcoinAddress => crate::host::ProgramError::Custom(13),
        ContractError::NoProposalsSubmitted => crate::host::ProgramError::Custom(14),
        ContractError::NoVotesCast => crate::host::ProgramError::Custom(15),
        ContractError::QuorumNotReached => crate::host::ProgramError::Custom(16),
        ContractError::TransferAlreadyExecuted => crate::host::ProgramError::Custom(17),
        ContractError::ProgramError(pe) => pe,
        ContractError::LockTimeError => crate::host::ProgramError::Custom(18),
        ContractError::IoError => crate::host::ProgramError::Custom(19),
    }
}

impl From<ContractError> for crate::host::ProgramError {
    fn from(e: ContractError) -> (r: crate::host::ProgramError) {
        match e {
            ContractError::PoolNotInitialized => crate::host::ProgramError::Custom(1),
            ContractError::PoolAlreadyInitialized => crate::host::ProgramError::Custom(2),
            ContractError::ContributionTooLow => crate::host::ProgramError::Custom(3),
            ContractError::ContributionTooHigh => crate::host::ProgramError::Custom(4),
            ContractError::PoolDeadlinePassed => crate::host::ProgramError::Custom(5),
            ContractError::VotingPeriodNotEnded => crate::host::ProgramError::Custom(6),
            ContractError::VotingPeriodEnded => crate::host::ProgramError::Custom(7),
            ContractError::ContributorNotFound => crate::host::ProgramError::Custom(8),
            ContractError::InsufficientContributionForProposal => crate::host::ProgramError::Custom(
                9,
            ),
            ContractError::InsufficientContributionForVoting => crate::host::ProgramError::Custom(
                10,
            ),
            ContractError::ProposalNotFound => crate::host::ProgramError::Custom(11),
            ContractError::AlreadyVoted => crate::host::ProgramError::Custom(12),
            ContractError::InvalidBitcoinAddress => crate::host::ProgramError::Custom(13),
            ContractError::NoProposalsSubmitted => crate::host::ProgramError::Custom(14),
            ContractError::NoVotesCast => crate::host::ProgramError::Custom(15),
            ContractError::QuorumNotReached => crate::host::ProgramError::Custom(16),
            ContractError::TransferAlreadyExecuted => crate::host::ProgramError::Custom(17),
            ContractError::ProgramError(pe) => pe,
            ContractError::LockTimeError => crate::host::ProgramError::Custom(18),
            ContractError::IoError => crate::host::ProgramError::Custom(19),
        }
    }
}

impl vstd::std_specs::convert::FromSpecImpl<ContractError> for crate::host::ProgramError {
    open spec fn obeys_from_spec() -> bool {
        true
    }

    open spec fn from_spec(e: ContractError) -> Self {
        spec_program_error(e)
    }
}

impl From<crate::host::ProgramError> for ContractError {
    fn from(e: crate::host::ProgramError) -> (r: ContractError) {
        ContractError::ProgramError(e)
    }
}

impl vstd::std_specs::convert::FromSpecImpl<crate::host::ProgramError> for ContractError {
    open spec fn obeys_from_spec() -> bool {
        true
    }

    open spec fn from_spec(e: crate::host::ProgramError) -> Self {
        ContractError::ProgramError(e)
    }
}

impl From<crate::host::LockTimeError> for ContractError {
    fn from(e: crate::host::LockTimeError) -> (r: ContractError) {
        let _ = e;
        ContractError::LockTimeError
    }
}

impl vstd::std_specs::convert::FromSpecImpl<crate::host::LockTimeError> for ContractError {
    open spec fn obeys_from_spec() -> bool {
        true
    }

    open spec fn from_spec(e: crate::host::LockTimeError) -> Self {
        ContractError::LockTimeError
    }
}

/// A read-only summary of the pool.
#[derive(Clone, Copy, Debug)]
pub struct PoolInfo {
    pub state: PoolState,
    pub total_balance: u64,
    pub total_contributors: u64,
    pub total_proposals: u64,
    pub total_votes: u64,
    pub contribution_deadline: i64,
    pub voting_deadline: i64,
}

/// The aggregate root: one persisted instance per pool.
pub struct Contract {
    pub state: PoolState,
    pub params: Option<PoolParams>,
    pub total_balance: u64,
    pub contributions: PubkeyMap,
    pub proposals: ProposalMap,
    pub votes: PubkeyMap,
    pub next_proposal_id: u64,
    pub winning_proposal: Option<u64>,
    pub transfer_executed: bool,
}

/// The mathematical content of a `Contract`.
#[verifier::ext_equal]
pub ghost struct ContractV {
    pub state: PoolState,
    pub params: Option<PoolParams>,
    pub total_balance: u64,
    pub contributions: Seq<(Seq<u8>, u64)>,
    pub proposals: Seq<(u64, ProposalV)>,
    pub votes: Seq<(Seq<u8>, u64)>,
    pub next_proposal_id: u64,
    pub winning_proposal: Option<u64>,
    pub transfer_executed: bool,
}

impl View for Contract {
    type V = ContractV;

    open spec fn view(&self) -> ContractV {
        ContractV {
            state: self.state,
            params: self.params,
            total_balance: self.total_balance,
            contributions: self.contributions@,
            proposals: self.proposals@,
            votes: self.votes@,
            next_proposal_id: self.next_proposal_id,
            winning_proposal: self.winning_proposal,
            transfer_executed: self.transfer_executed,
        }
    }
}

/// The default, zero state a pool starts from.
pub open spec fn initial_contract() -> ContractV {
    ContractV {
        state: PoolState::Uninitialized,
        params: None,
        total_balance: 0u64,
        contributions: Seq::empty(),
        proposals: Seq::empty(),
        votes: Seq::empty(),
        next_proposal_id: 1u64,
        winning_proposal: None,
        transfer_executed: false,
    }
}

impl Default for Contract {
    fn default() -> (r: Contract)
        ensures
            r@ == initial_contract(),
    {
        Contract {
            state: PoolState::Uninitialized,
            params: None,
            total_balance: 0,
            contributions: PubkeyMap::new(),
            proposals: ProposalMap::new(),
            votes: PubkeyMap::new(),
            next_proposal_id: 1,
            winning_proposal: None,
            transfer_executed: false,
        }
    }
}

/// The later of a stored phase and a deadline-driven target; phases only
/// ever move forward.
pub open spec fn advance(s: PoolState, target: PoolState) -> PoolState {
    if phase_index(target) > phase_index(s) {
        target
    } else {
        s
    }
}

/// A 64-bit total decreased by an amount, wrapping below zero as the
/// release builds of the machine arithmetic do.
pub open spec fn wrap_sub(a: u64, b: u64) -> u64 {
    if b <= a {
        (a - b) as u64
    } else {
        (a + 0x1_0000_0000_0000_0000 - b) as u64
    }
}

/// The cumulative pledge recorded for an identity, zero when absent.
pub open spec fn pledged(es: Seq<(Seq<u8>, u64)>, k: Seq<u8>) -> u64 {
    match map_lookup(es, k) {
        Some(v) => v,
        None => 0u64,
    }
}

/// The minimal payout-address format check: non-empty, starting with a
/// recognized address-format prefix.
pub open spec fn address_valid(s: Seq<char>) -> bool {
    ||| (s.len() >= 1 && (s[0] == '1' || s[0] == '3'))
    ||| (s.len() >= 3 && s[0] == 'b' && s[1] == 'c' && s[2] == '1')
}

/// Whether a string fits the encoding's 4-byte length prefix.
pub open spec fn string_encodable(s: Seq<char>) -> bool {
    encode_utf8(s).len() <= u32::MAX
}

/// Whether an aggregate state fits the encoding's 4-byte counts and length
/// prefixes.
pub open spec fn encodable(c: ContractV) -> bool {
    &&& c.contributions.len() <= u32::MAX
    &&& c.proposals.len() <= u32::MAX
    &&& c.votes.len() <= u32::MAX
    &&& forall|i: int|
        0 <= i < c.proposals.len() ==> string_encodable(
            (#[trigger] c.proposals[i]).1.bitcoin_address,
        ) && string_encodable(c.proposals[i].1.description)
}

/// What every reachable aggregate state satisfies: keys are unique within
/// each collection, and every stored identity is 32 bytes.
pub open spec fn well_formed(c: ContractV) -> bool {
    &&& crate::maps::unique_keys(c.contributions)
    &&& crate::maps::unique_keys(c.proposals)
    &&& crate::maps::unique_keys(c.votes)
    &&& forall|i: int|
        0 <= i < c.contributions.len() ==> (#[trigger] c.contributions[i]).0.len() == 32
    &&& forall|i: int| 0 <= i < c.votes.len() ==> (#[trigger] c.votes[i]).0.len() == 32
    &&& forall|i: int|
        0 <= i < c.proposals.len() ==> (#[trigger] c.proposals[i]).1.proposer.len() == 32
}

/// The scan for the winning proposal: walking the registry in its stable
/// order, a proposal displaces the current candidate only with strictly
/// more votes, so the earliest proposal with the maximum wins.
pub open spec fn winner_scan(es: Seq<(u64, ProposalV)>, wid: u64, wv: u64) -> (u64, u64)
    decreases es.len(),
{
    if es.len() == 0 {
        (wid, wv)
    } else if es[0].1.votes > wv {
        winner_scan(es.drop_first(), es[0].0, es[0].1.votes)
    } else {
        winner_scan(es.drop_first(), wid, wv)
    }
}

/// What `initialize_pool` does: the new aggregate state and the result.
pub open spec fn spec_initialize(pre: ContractV, params: PoolParams) -> (
    ContractV,
    Result<(), ContractError>,
) {
    if pre.state != PoolState::Uninitialized {
        (pre, Err(ContractError::PoolAlreadyInitialized))
    } else if params.min_contribution >= params.max_contribution {
        (pre, Err(ContractError::ContributionTooLow))
    } else if params.contribution_deadline >= params.voting_deadline {
        (pre, Err(ContractError::PoolDeadlinePassed))
    } else if params.quorum_percentage > 100 {
        (pre, Err(ContractError::QuorumNotReached))
    } else {
        (
            ContractV { state: PoolState::ContributionPhase, params: Some(params), ..pre },
            Ok(()),
        )
    }
}

/// What `contribute` does at a given wall-clock snapshot.
pub open spec fn spec_contribute(pre: ContractV, contributor: Seq<u8>, amount: u64, now: i64) -> (
    ContractV,
    Result<(), ContractError>,
) {
    match pre.params {
        None => (pre, Err(ContractError::PoolNotInitialized)),
        Some(p) => {
            if pre.state != PoolState::ContributionPhase {
                (pre, Err(ContractError::PoolDeadlinePassed))
            } else if now > p.contribution_deadline {
                (
                    ContractV { state: PoolState::VotingPhase, ..pre },
                    Err(ContractError::PoolDeadlinePassed),
                )
            } else if amount < p.min_contribution {
                (pre, Err(ContractError::ContributionTooLow))
            } else if amount > p.max_contribution {
                (pre, Err(ContractError::ContributionTooHigh))
            } else {
                let current = pledged(pre.contributions, contributor);
                if current + amount > p.max_contribution {
                    (pre, Err(ContractError::ContributionTooHigh))
                } else if pre.total_balance + amount > u64::MAX {
                    (pre, Err(ContractError::ContributionTooHigh))
                } else {
                    (
                        ContractV {
                            contributions: map_upsert(
                                pre.contributions,
                                contributor,
                                (current + amount) as u64,
                            ),
                            total_balance: (pre.total_balance + amount) as u64,
                            ..pre
                        },
                        Ok(()),
                    )
                }
            }
        },
    }
}

/// What `submit_proposal` does at a given wall-clock snapshot.
pub open spec fn spec_submit_proposal(
    pre: ContractV,
    proposer: Seq<u8>,
    address: Seq<char>,
    description: Seq<char>,
    now: i64,
) -> (ContractV, Result<u64, ContractError>) {
    match pre.params {
        None => (pre, Err(ContractError::PoolNotInitialized)),
        Some(p) => {
            if pre.state != PoolState::VotingPhase && now <= p.contribution_deadline {
                (pre, Err(ContractError::PoolDeadlinePassed))
            } else {
                let c1 = ContractV { state: advance(pre.state, PoolState::VotingPhase), ..pre };
                if now > p.voting_deadline {
                    (
                        ContractV { state: advance(c1.state, PoolState::ExecutionPhase), ..c1 },
                        Err(ContractError::VotingPeriodEnded),
                    )
                } else if pledged(pre.contributions, proposer) < p.proposal_threshold {
                    (c1, Err(ContractError::InsufficientContributionForProposal))
                } else if !address_valid(address) {
                    (c1, Err(ContractError::InvalidBitcoinAddress))
                } else {
                    let id = pre.next_proposal_id;
                    let proposal = ProposalV {
                        id,
                        proposer,
                        bitcoin_address: address,
                        description,
                        votes: 0u64,
                    };
                    (
                        ContractV {
                            proposals: map_upsert(pre.proposals, id, proposal),
                            next_proposal_id: wrap_inc(id),
                            ..c1
                        },
                        Ok(id),
                    )
                }
            }
        },
    }
}

/// What `cast_vote` does at a given wall-clock snapshot.
pub open spec fn spec_cast_vote(pre: ContractV, voter: Seq<u8>, proposal_id: u64, now: i64) -> (
    ContractV,
    Result<(), ContractError>,
) {
    match pre.params {
        None => (pre, Err(ContractError::PoolNotInitialized)),
        Some(p) => {
            if pre.state != PoolState::VotingPhase && now > p.voting_deadline {
                (
                    ContractV { state: advance(pre.state, PoolState::ExecutionPhase), ..pre },
                    Err(ContractError::VotingPeriodEnded),
                )
            } else if pre.state != PoolState::VotingPhase && now <= p.contribution_deadline {
                (pre, Err(ContractError::PoolDeadlinePassed))
            } else {
                let c1 = ContractV { state: advance(pre.state, PoolState::VotingPhase), ..pre };
                if pledged(pre.contributions, voter) < p.voting_threshold {
                    (c1, Err(ContractError::InsufficientContributionForVoting))
                } else if !map_has_key(pre.proposals, proposal_id) {
                    (c1, Err(ContractError::ProposalNotFound))
                } else if map_has_key(pre.votes, voter) {
                    (c1, Err(ContractError::AlreadyVoted))
                } else {
                    let bumped = match map_lookup(pre.proposals, proposal_id) {
                        Some(prop) => map_upsert(
                            pre.proposals,
                            proposal_id,
                            ProposalV { votes: wrap_inc(prop.votes), ..prop },
                        ),
                        None => pre.proposals,
                    };
                    (
                        ContractV {
                            votes: map_upsert(pre.votes, voter, proposal_id),
                            proposals: bumped,
                            ..c1
                        },
                        Ok(()),
                    )
                }
            }
        },
    }
}

/// What `emergency_withdraw` does.
pub open spec fn spec_emergency_withdraw(pre: ContractV, contributor: Seq<u8>) -> (
    ContractV,
    Result<u64, ContractError>,
) {
    match pre.params {
        None => (pre, Err(ContractError::PoolNotInitialized)),
        Some(p) => {
            if pre.state != PoolState::ContributionPhase {
                (pre, Err(ContractError::PoolDeadlinePassed))
            } else {
                match map_lookup(pre.contributions, contributor) {
                    None => (pre, Err(ContractError::ContributorNotFound)),
                    Some(amount) => (
                        ContractV {
                            contributions: map_erase(pre.contributions, contributor),
                            total_balance: wrap_sub(pre.total_balance, amount),
                            ..pre
                        },
                        Ok(amount),
                    ),
                }
            }
        },
    }
}

/// What `execute_transfer` does at a given wall-clock snapshot, with the
/// number of account slots the host handed in.
pub open spec fn spec_execute_transfer(pre: ContractV, now: i64, n_accounts: int) -> (
    ContractV,
    Result<(), ContractError>,
) {
    match pre.params {
        None => (pre, Err(ContractError::PoolNotInitialized)),
        Some(p) => {
            if pre.state != PoolState::ExecutionPhase && now <= p.voting_deadline {
                (pre, Err(ContractError::VotingPeriodNotEnded))
            } else {
                let c1 = ContractV { state: advance(pre.state, PoolState::ExecutionPhase), ..pre };
                if pre.transfer_executed {
                    (c1, Err(ContractError::TransferAlreadyExecuted))
                } else if pre.proposals.len() == 0 {
                    (c1, Err(ContractError::NoProposalsSubmitted))
                } else if pre.votes.len() == 0 {
                    (c1, Err(ContractError::NoVotesCast))
                } else if pre.votes.len() * 100 < pre.contributions.len() * p.quorum_percentage {
                    (c1, Err(ContractError::QuorumNotReached))
                } else {
                    let scan = winner_scan(pre.proposals, 0u64, 0u64);
                    if scan.0 == 0 {
                        (c1, Err(ContractError::NoVotesCast))
                    } else {
                        match map_lookup(pre.proposals, scan.0) {
                            None => (c1, Err(ContractError::ProposalNotFound)),
                            Some(_) => {
                                if n_accounts < 1 {
                                    (
                                        c1,
                                        Err(
                                            ContractError::ProgramError(
                                                crate::host::ProgramError::NotEnoughAccountKeys,
                                            ),
                                        ),
                                    )
                                } else {
                                    let c2 = ContractV {
                                        winning_proposal: Some(scan.0),
                                        transfer_executed: true,
                                        state: PoolState::Completed,
                                        ..c1
                                    };
                                    if !encodable(c2) {
                                        (c2, Err(ContractError::IoError))
                                    } else {
                                        (c2, Ok(()))
                                    }
                                }
                            },
                        }
                    }
                }
            }
        },
    }
}

/// Relies on chrono's `Utc::now` for the single wall-clock snapshot each
/// operation reads, as whole seconds since the Unix epoch. Nothing is
/// assumed of the value: every caller states what holds for any snapshot.
#[verifier::external_body]
pub(crate) fn now_timestamp() -> i64 {
    chrono::Utc::now().timestamp()
}

/// The minimal payout-address format check: non-empty, prefix in the
/// allow-list of recognized address-format prefixes.
pub fn is_valid_bitcoin_address(address: &str) -> (r: bool)
    ensures
        r == address_valid(address@),
{
    let n = address.unicode_len();
    if n >= 1 {
        let c0 = address.get_char(0);
        if c0 == '1' || c0 == '3' {
            return true;
        }
        if n >= 3 && c0 == 'b' && address.get_char(1) == 'c' && address.get_char(2) == '1' {
            return true;
        }
    }
    false
}

impl Contract {
    /// Initializes the pool: validates the parameters once, stores them,
    /// and opens the contribution phase. Fails on an already-initialized
    /// pool and on every invalid parameter set, exactly as
    /// `spec_initialize` says.
    pub fn initialize_pool(&mut self, params: PoolParams) -> (r: Result<(), ContractError>)
        ensures
            final(self)@ == spec_initialize(old(self)@, params).0,
            r == spec_initialize(old(self)@, params).1,
    {
        if self.state != PoolState::Uninitialized {
            return Err(ContractError::PoolAlreadyInitialized);
        }
        if params.min_contribution >= params.max_contribution {
            return Err(ContractError::ContributionTooLow);
        }
        if params.contribution_deadline >= params.voting_deadline {
            return Err(ContractError::PoolDeadlinePassed);
        }
        if params.quorum_percentage > 100 {
            return Err(ContractError::QuorumNotReached);
        }
        self.params = Some(params);
        self.state = PoolState::ContributionPhase;
        Ok(())
    }

    /// `contribute` at an explicit wall-clock snapshot.
    pub fn contribute_at(&mut self, contributor: Pubkey, amount: u64, now: i64) -> (r: Result<
        (),
        ContractError,
    >)
        ensures
            final(self)@ == spec_contribute(old(self)@, contributor@, amount, now).0,
            r == spec_contribute(old(self)@, contributor@, amount, now).1,
    {
        let params = match self.params {
            Some(p) => p,
            None => {
                return Err(ContractError::PoolNotInitialized);
            },
        };
        if self.state != PoolState::ContributionPhase {
            return Err(ContractError::PoolDeadlinePassed);
        }
        if now > params.contribution_deadline {
            self.state = PoolState::VotingPhase;
            return Err(ContractError::PoolDeadlinePassed);
        }
        if amount < params.min_contribution {
            return Err(ContractError::ContributionTooLow);
        }
        if amount > params.max_contribution {
            return Err(ContractError::ContributionTooHigh);
        }
        let current = match self.contributions.get(&contributor) {
            Some(v) => v,
            None => 0,
        };
        let new_total = match current.checked_add(amount) {
            Some(t) => t,
            None => {
                return Err(ContractError::ContributionTooHigh);
            },
        };
        if new_total > params.max_contribution {
            return Err(ContractError::ContributionTooHigh);
        }
        let new_balance = match self.total_balance.checked_add(amount) {
            Some(b) => b,
            None => {
                return Err(ContractError::ContributionTooHigh);
            },
        };
        self.contributions.insert(contributor, new_total);
        self.total_balance = new_balance;
        Ok(())
    }

    /// Contributes to the pool at the current wall-clock time.
    pub fn contribute(&mut self, contributor: Pubkey, amount: u64) -> (r: Result<
        (),
        ContractError,
    >)
        ensures
            exists|now: i64|
                #![auto]
                final(self)@ == spec_contribute(old(self)@, contributor@, amount, now).0 && r
                    == spec_contribute(old(self)@, contributor@, amount, now).1,
    {
        let now = now_timestamp();
        self.contribute_at(contributor, amount, now)
    }

    /// `submit_proposal` at an explicit wall-clock snapshot.
    pub fn submit_proposal_at(
        &mut self,
        proposer: Pubkey,
        bitcoin_address: String,
        description: String,
        now: i64,
    ) -> (r: Result<u64, ContractError>)
        ensures
            final(self)@ == spec_submit_proposal(
                old(self)@,
                proposer@,
                bitcoin_address@,
                description@,
                now,
            ).0,
            r == spec_submit_proposal(
                old(self)@,
                proposer@,
                bitcoin_address@,
                description@,
                now,
            ).1,
    {
        let params = match self.params {
            Some(p) => p,
            None => {
                return Err(ContractError::PoolNotInitialized);
            },
        };
        if self.state != PoolState::VotingPhase {
            if now > params.contribution_deadline {
                if self.state == PoolState::Uninitialized || self.state
                    == PoolState::ContributionPhase {
                    self.state = PoolState::VotingPhase;
                }
            } else {
                return Err(ContractError::PoolDeadlinePassed);
            }
        }
        if now > params.voting_deadline {
            if self.state == PoolState::Uninitialized || self.state == PoolState::ContributionPhase
                || self.state == PoolState::VotingPhase {
                self.state = PoolState::ExecutionPhase;
            }
            return Err(ContractError::VotingPeriodEnded);
        }
        let contribution = match self.contributions.get(&proposer) {
            Some(v) => v,
            None => 0,
        };
        if contribution < params.proposal_threshold {
            return Err(ContractError::InsufficientContributionForProposal);
        }
        if !is_valid_bitcoin_address(bitcoin_address.as_str()) {
            return Err(ContractError::InvalidBitcoinAddress);
        }
        let proposal_id = self.next_proposal_id;
        self.next_proposal_id = if proposal_id == u64::MAX {
            0
        } else {
            proposal_id + 1
        };
        let proposal = Proposal {
            id: proposal_id,
            proposer,
            bitcoin_address,
            description,
            votes: 0,
        };
        self.proposals.insert(proposal_id, proposal);
        Ok(proposal_id)
    }

    /// Submits a proposal at the current wall-clock time, returning the
    /// newly assigned proposal id.
    pub fn submit_proposal(
        &mut self,
        proposer: Pubkey,
        bitcoin_address: String,
        description: String,
    ) -> (r: Result<u64, ContractError>)
        ensures
            exists|now: i64|
                #![auto]
                final(self)@ == spec_submit_proposal(
                    old(self)@,
                    proposer@,
                    bitcoin_address@,
                    description@,
                    now,
                ).0 && r == spec_submit_proposal(
                    old(self)@,
                    proposer@,
                    bitcoin_address@,
                    description@,
                    now,
                ).1,
    {
        let now = now_timestamp();
        self.submit_proposal_at(proposer, bitcoin_address, description, now)
    }

    /// `cast_vote` at an explicit wall-clock snapshot.
    pub fn cast_vote_at(&mut self, voter: Pubkey, proposal_id: u64, now: i64) -> (r: Result<
        (),
        ContractError,
    >)
        ensures
            final(self)@ == spec_cast_vote(old(self)@, voter@, proposal_id, now).0,
            r == spec_cast_vote(old(self)@, voter@, proposal_id, now).1,
    {
        let params = match self.params {
            Some(p) => p,
            None => {
                return Err(ContractError::PoolNotInitialized);
            },
        };
        if self.state != PoolState::VotingPhase {
            if now > params.contribution_deadline && now <= params.voting_deadline {
                if self.state == PoolState::Uninitialized || self.state
                    == PoolState::ContributionPhase {
                    self.state = PoolState::VotingPhase;
                }
            } else if now > params.voting_deadline {
                if self.state == PoolState::Uninitialized || self.state
                    == PoolState::ContributionPhase || self.state == PoolState::VotingPhase {
                    self.state = PoolState::ExecutionPhase;
                }
                return Err(ContractError::VotingPeriodEnded);
            } else {
                return Err(ContractError::PoolDeadlinePassed);
            }
        }
        let contribution = match self.contributions.get(&voter) {
            Some(v) => v,
            None => 0,
        };
        if contribution < params.voting_threshold {
            return Err(ContractError::InsufficientContributionForVoting);
        }
        if !self.proposals.contains_key(proposal_id) {
            return Err(ContractError::ProposalNotFound);
        }
        if self.votes.contains_key(&voter) {
            return Err(ContractError::AlreadyVoted);
        }
        proof {
            crate::maps::lemma_map_lookup_has(old(self)@.proposals, proposal_id);
        }
        self.votes.insert(voter, proposal_id);
        self.proposals.add_vote(proposal_id);
        Ok(())
    }

    /// Casts a vote at the current wall-clock time; one vote per voter,
    /// not weighted by pledge size.
    pub fn cast_vote(&mut self, voter: Pubkey, proposal_id: u64) -> (r: Result<(), ContractError>)
        ensures
            exists|now: i64|
                #![auto]
                final(self)@ == spec_cast_vote(old(self)@, voter@, proposal_id, now).0 && r
                    == spec_cast_vote(old(self)@, voter@, proposal_id, now).1,
    {
        let now = now_timestamp();
        self.cast_vote_at(voter, proposal_id, now)
    }

    /// Returns a contributor's whole pledge and removes them from the
    /// pool; allowed only while the contribution phase lasts.
    pub fn emergency_withdraw(&mut self, contributor: Pubkey) -> (r: Result<u64, ContractError>)
        ensures
            final(self)@ == spec_emergency_withdraw(old(self)@, contributor@).0,
            r == spec_emergency_withdraw(old(self)@, contributor@).1,
    {
        if self.params.is_none() {
            return Err(ContractError::PoolNotInitialized);
        }
        if self.state != PoolState::ContributionPhase {
            return Err(ContractError::PoolDeadlinePassed);
        }
        let amount = match self.contributions.get(&contributor) {
            Some(v) => v,
            None => {
                return Err(ContractError::ContributorNotFound);
            },
        };
        self.contributions.remove(&contributor);
        self.total_balance = if amount <= self.total_balance {
            self.total_balance - amount
        } else {
            (u64::MAX - amount) + self.total_balance + 1
        };
        Ok(amount)
    }

    /// A read-only summary of the pool; fails only on an uninitialized
    /// pool.
    pub fn get_pool_info(&self) -> (r: Result<PoolInfo, ContractError>)
        ensures
            match self@.params {
                None => r == Err::<PoolInfo, ContractError>(ContractError::PoolNotInitialized),
                Some(p) => r matches Ok(info) && info.state == self@.state && info.total_balance
                    == self@.total_balance && info.total_contributors == self@.contributions.len()
                    && info.total_proposals == self@.proposals.len() && info.total_votes
                    == self@.votes.len() && info.contribution_deadline == p.contribution_deadline
                    && info.voting_deadline == p.voting_deadline,
            },
    {
        let params = match self.params {
            Some(p) => p,
            None => {
                return Err(ContractError::PoolNotInitialized);
            },
        };
        Ok(
            PoolInfo {
                state: self.state,
                total_balance: self.total_balance,
                total_contributors: self.contributions.len() as u64,
                total_proposals: self.proposals.len() as u64,
                total_votes: self.votes.len() as u64,
                contribution_deadline: params.contribution_deadline,
                voting_deadline: params.voting_deadline,
            },
        )
    }

    /// Copies of all proposals, in the registry's stable order.
    pub fn get_proposals(&self) -> (r: Vec<Proposal>)
        ensures
            r@.len() == self@.proposals.len(),
            forall|i: int| 0 <= i < r@.len() ==> r@[i]@ == self@.proposals[i].1,
    {
        self.proposals.values()
    }

    /// `execute_transfer` at an explicit wall-clock snapshot: checks the
    /// phase, quorum and tally, selects the winning proposal, hands the
    /// payout transaction to the host, and persists the completed state in
    /// the first account slot.
    pub fn execute_transfer_at(
        &mut self,
        program_id: &Pubkey,
        accounts: &mut Vec<AccountInfo>,
        now: i64,
    ) -> (r: Result<(), ContractError>)
        ensures
            final(self)@ == spec_execute_transfer(old(self)@, now, old(accounts)@.len() as int).0,
            r == spec_execute_transfer(old(self)@, now, old(accounts)@.len() as int).1,
            final(accounts)@.len() == old(accounts)@.len(),
            forall|i: int|
                1 <= i < old(accounts)@.len() ==> final(accounts)@[i] == old(accounts)@[i],
            r is Ok ==> old(accounts)@.len() >= 1
                && final(accounts)@[0].data@ == crate::codec::enc_contract(final(self)@)
                && final(accounts)@[0].key == old(accounts)@[0].key
                && final(accounts)@[0].owner == old(accounts)@[0].owner
                && final(accounts)@[0].lamports == old(accounts)@[0].lamports
                && final(accounts)@[0].is_signer == old(accounts)@[0].is_signer
                && final(accounts)@[0].is_writable == old(accounts)@[0].is_writable
                && final(accounts)@[0].executable == old(accounts)@[0].executable
                && final(accounts)@[0].rent_epoch == old(accounts)@[0].rent_epoch,
            !(r is Ok) ==> final(accounts)@ == old(accounts)@,
    {
        let params = match self.params {
            Some(p) => p,
            None => {
                return Err(ContractError::PoolNotInitialized);
            },
        };
        if self.state != PoolState::ExecutionPhase {
            if now <= params.voting_deadline {
                return Err(ContractError::VotingPeriodNotEnded);
            }
            if self.state == PoolState::Uninitialized || self.state
                == PoolState::ContributionPhase || self.state == PoolState::VotingPhase {
                self.state = PoolState::ExecutionPhase;
            }
        }
        if self.transfer_executed {
            return Err(ContractError::TransferAlreadyExecuted);
        }
        if self.proposals.is_empty() {
            return Err(ContractError::NoProposalsSubmitted);
        }
        if self.votes.is_empty() {
            return Err(ContractError::NoVotesCast);
        }
        let total_contributors = self.contributions.len();
        let total_voters = self.votes.len();
        proof {
            let a = total_contributors as int;
            let q = params.quorum_percentage as int;
            assert(a * q < 0x100_0000_0000_0000_0000) by (nonlinear_arith)
                requires
                    0 <= a < 0x1_0000_0000_0000_0000,
                    0 <= q <= 255,
            ;
        }
        if (total_voters as u128) * 100 < (total_contributors as u128) * (
        params.quorum_percentage as u128) {
            return Err(ContractError::QuorumNotReached);
        }
        let mut winning_id: u64 = 0;
        let mut max_votes: u64 = 0;
        let n = self.proposals.len();
        let mut i: usize = 0;
        proof {
            assert(self@.proposals.skip(0) =~= self@.proposals);
        }
        while i < n
            invariant
                n == self@.proposals.len(),
                i <= n,
                winner_scan(self@.proposals.skip(i as int), winning_id, max_votes) == winner_scan(
                    self@.proposals,
                    0u64,
                    0u64,
                ),
            decreases n - i,
        {
            let e = self.proposals.entry_at(i);
            proof {
                assert(self@.proposals.skip(i as int)[0] == self@.proposals[i as int]);
                assert(self@.proposals.skip(i as int).drop_first() =~= self@.proposals.skip(
                    i + 1,
                ));
            }
            if e.1.votes > max_votes {
                max_votes = e.1.votes;
                winning_id = e.0;
            }
            i += 1;
        }
        proof {
            assert(self@.proposals.skip(n as int) =~= Seq::<(u64, ProposalV)>::empty());
        }
        if winning_id == 0 {
            return Err(ContractError::NoVotesCast);
        }
        let winning = match self.proposals.get(winning_id) {
            Some(p) => p,
            None => {
                return Err(ContractError::ProposalNotFound);
            },
        };
        let mut cursor: usize = 0;
        let payer = match crate::host::next_account_info(accounts, &mut cursor) {
            Ok(idx) => idx,
            Err(e) => {
                return Err(ContractError::ProgramError(e));
            },
        };
        let _script_pubkey = match crate::host::get_account_script_pubkey(
            winning.bitcoin_address.as_str(),
        ) {
            Ok(s) => s,
            Err(e) => {
                return Err(ContractError::ProgramError(e));
            },
        };
        let block_height = match crate::host::get_bitcoin_block_height() {
            Ok(h) => h,
            Err(e) => {
                return Err(ContractError::ProgramError(e));
            },
        };
        let lock_time = match crate::host::LockTime::from_height(block_height) {
            Ok(t) => t,
            Err(_) => {
                return Err(ContractError::LockTimeError);
            },
        };
        let transaction = crate::host::Transaction {
            version: crate::host::Version::Two,
            lock_time,
        };
        let transaction_to_sign = crate::host::TransactionToSign {
            transaction,
            inputs_to_sign: vec![crate::host::InputToSign { index: 0, signer: *program_id }],
        };
        match crate::host::set_transaction_to_sign(transaction_to_sign) {
            Ok(u) => u,
            Err(e) => {
                return Err(ContractError::ProgramError(e));
            },
        };
        self.winning_proposal = Some(winning_id);
        self.transfer_executed = true;
        self.state = PoolState::Completed;
        if !self.check_encodable() {
            return Err(ContractError::IoError);
        }
        let ghost accounts_pre = accounts@;
        let mut target = accounts.remove(payer);
        match crate::host::add_state_transition(&mut target, program_id, self) {
            Ok(u) => u,
            Err(e) => {
                accounts.insert(0, target);
                proof {
                    assert(accounts@ =~= accounts_pre);
                }
                return Err(ContractError::ProgramError(e));
            },
        };
        accounts.insert(0, target);
        Ok(())
    }

    /// Executes the payout to the winning proposal at the current
    /// wall-clock time.
    pub fn execute_transfer(&mut self, program_id: &Pubkey, accounts: &mut Vec<AccountInfo>) -> (r:
        Result<(), ContractError>)
        ensures
            exists|now: i64|
                #![auto]
                final(self)@ == spec_execute_transfer(old(self)@, now, old(accounts)@.len() as int).0
                    && r == spec_execute_transfer(old(self)@, now, old(accounts)@.len() as int).1,
            final(accounts)@.len() == old(accounts)@.len(),
            forall|i: int|
                1 <= i < old(accounts)@.len() ==> final(accounts)@[i] == old(accounts)@[i],
            r is Ok ==> old(accounts)@.len() >= 1
                && final(accounts)@[0].data@ == crate::codec::enc_contract(final(self)@)
                && final(accounts)@[0].key == old(accounts)@[0].key
                && final(accounts)@[0].owner == old(accounts)@[0].owner
                && final(accounts)@[0].lamports == old(accounts)@[0].lamports
                && final(accounts)@[0].is_signer == old(accounts)@[0].is_signer
                && final(accounts)@[0].is_writable == old(accounts)@[0].is_writable
                && final(accounts)@[0].executable == old(accounts)@[0].executable
                && final(accounts)@[0].rent_epoch == old(accounts)@[0].rent_epoch,
            !(r is Ok) ==> final(accounts)@ == old(accounts)@,
    {
        let now = now_timestamp();
        self.execute_transfer_at(program_id, accounts, now)
    }

    /// A copy of the winning proposal, present exactly when a transfer has
    /// been executed and the recorded id is still registered.
    pub fn get_winning_proposal(&self) -> (r: Option<Proposal>)
        ensures
            match self@.winning_proposal {
                None => r is None,
                Some(id) => match map_lookup(self@.proposals, id) {
                    None => r is None,
                    Some(pv) => r matches Some(p) && p@ == pv,
                },
            },
    {
        match self.winning_proposal {
            Some(id) => self.proposals.get(id),
            None => None,
        }
    }
}

} // verus!
