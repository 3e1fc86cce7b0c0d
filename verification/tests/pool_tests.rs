use crowdpool::{
    is_valid_bitcoin_address, AccountInfo, Contract, ContractError, PoolParams, PoolState,
    ProgramError, Pubkey,
};

const DAY: i64 = 86400;

fn params(now: i64) -> PoolParams {
    PoolParams {
        min_contribution: 1000,
        max_contribution: 10000,
        contribution_deadline: now + DAY,
        voting_deadline: now + 2 * DAY,
        proposal_threshold: 2000,
        voting_threshold: 1000,
        quorum_percentage: 60,
    }
}

fn account(key: Pubkey, owner: Pubkey, data: Vec<u8>) -> AccountInfo {
    AccountInfo {
        key,
        is_signer: false,
        is_writable: true,
        lamports: 0,
        data,
        owner,
        executable: false,
        rent_epoch: 0,
    }
}

#[test]
fn initialize_succeeds_exactly_once() {
    let mut contract = Contract::default();
    assert!(contract.initialize_pool(params(0)).is_ok());
    assert_eq!(contract.state, PoolState::ContributionPhase);
    let again = contract.initialize_pool(params(0));
    assert!(matches!(again, Err(ContractError::PoolAlreadyInitialized)));
    assert_eq!(contract.state, PoolState::ContributionPhase);
}

#[test]
fn initialize_rejects_invalid_params() {
    let mut contract = Contract::default();
    let mut p = params(0);
    p.min_contribution = 10000;
    p.max_contribution = 1000;
    assert!(matches!(contract.initialize_pool(p), Err(ContractError::ContributionTooLow)));

    let mut p = params(0);
    p.contribution_deadline = 2 * DAY;
    p.voting_deadline = DAY;
    assert!(matches!(contract.initialize_pool(p), Err(ContractError::PoolDeadlinePassed)));

    let mut p = params(0);
    p.quorum_percentage = 101;
    assert!(matches!(contract.initialize_pool(p), Err(ContractError::QuorumNotReached)));

    assert_eq!(contract.state, PoolState::Uninitialized);
}

#[test]
fn contribute_enforces_bounds() {
    let mut ids: u8 = 0;
    let alice = Pubkey::new_unique(&mut ids);
    let mut contract = Contract::default();
    contract.initialize_pool(params(0)).unwrap();

    assert!(matches!(
        contract.contribute_at(alice, 999, 10),
        Err(ContractError::ContributionTooLow)
    ));
    assert!(matches!(
        contract.contribute_at(alice, 10001, 10),
        Err(ContractError::ContributionTooHigh)
    ));
    assert!(contract.contribute_at(alice, 6000, 10).is_ok());
    // The cumulative total may not pass the per-contributor cap; the
    // rejected call mutates nothing.
    assert!(matches!(
        contract.contribute_at(alice, 6000, 10),
        Err(ContractError::ContributionTooHigh)
    ));
    assert_eq!(contract.contributions.get(&alice), Some(6000));
    assert_eq!(contract.total_balance, 6000);
    assert!(contract.contribute_at(alice, 4000, 10).is_ok());
    assert_eq!(contract.contributions.get(&alice), Some(10000));
    assert_eq!(contract.total_balance, 10000);
}

#[test]
fn contribute_after_deadline_advances_phase() {
    let mut ids: u8 = 0;
    let alice = Pubkey::new_unique(&mut ids);
    let mut contract = Contract::default();
    contract.initialize_pool(params(0)).unwrap();

    let late = DAY + 1;
    let r = contract.contribute_at(alice, 5000, late);
    assert!(matches!(r, Err(ContractError::PoolDeadlinePassed)));
    // The phase advance persists even though the contribution is rejected.
    assert_eq!(contract.state, PoolState::VotingPhase);
    assert_eq!(contract.contributions.len(), 0);
}

#[test]
fn total_balance_is_sum_of_accepted_amounts() {
    let mut ids: u8 = 0;
    let mut contract = Contract::default();
    contract.initialize_pool(params(0)).unwrap();
    let mut expected: u64 = 0;
    for amount in [1000u64, 2500, 9999, 1001] {
        let who = Pubkey::new_unique(&mut ids);
        contract.contribute_at(who, amount, 5).unwrap();
        expected += amount;
    }
    // A rejected contribution adds nothing.
    let who = Pubkey::new_unique(&mut ids);
    assert!(contract.contribute_at(who, 10001, 5).is_err());
    assert_eq!(contract.total_balance, expected);
    assert_eq!(contract.contributions.len(), 4);
}

#[test]
fn submit_proposal_validates_address_and_threshold() {
    let mut ids: u8 = 0;
    let alice = Pubkey::new_unique(&mut ids);
    let bob = Pubkey::new_unique(&mut ids);
    let mut contract = Contract::default();
    contract.initialize_pool(params(0)).unwrap();
    contract.contribute_at(alice, 5000, 10).unwrap();
    contract.contribute_at(bob, 1500, 10).unwrap();

    let in_voting = DAY + 10;
    // Below the proposal threshold.
    let r = contract.submit_proposal_at(bob, "1Destination".to_string(), "a".to_string(), in_voting);
    assert!(matches!(r, Err(ContractError::InsufficientContributionForProposal)));
    // Unrecognized address prefix.
    let r = contract.submit_proposal_at(alice, "xyz".to_string(), "a".to_string(), in_voting);
    assert!(matches!(r, Err(ContractError::InvalidBitcoinAddress)));
    // Recognized prefixes.
    let id1 = contract
        .submit_proposal_at(alice, "3J98t1WpEZ73CNmQviecrnyiWrnqRhWNLy".to_string(), "a".to_string(), in_voting)
        .unwrap();
    assert_eq!(id1, 1);
    let id2 = contract
        .submit_proposal_at(alice, "bc1qar0srrr7xfkvy5l643lydnw9re59gtzzwf5mdq".to_string(), "b".to_string(), in_voting)
        .unwrap();
    assert_eq!(id2, 2);
    assert_eq!(contract.next_proposal_id, 3);
}

#[test]
fn address_prefix_allow_list() {
    assert!(is_valid_bitcoin_address("1A1zP1eP5QGefi2DMPTfTL5SLmv7DivfNa"));
    assert!(is_valid_bitcoin_address("3J98t1WpEZ73CNmQviecrnyiWrnqRhWNLy"));
    assert!(is_valid_bitcoin_address("bc1qar0srrr7xfkvy5l643lydnw9re59gtzzwf5mdq"));
    assert!(is_valid_bitcoin_address("1"));
    assert!(!is_valid_bitcoin_address(""));
    assert!(!is_valid_bitcoin_address("bc2qqqq"));
    assert!(!is_valid_bitcoin_address("bc"));
    assert!(!is_valid_bitcoin_address("xyz"));
}

#[test]
fn cast_vote_checks_threshold_and_registry() {
    let mut ids: u8 = 0;
    let alice = Pubkey::new_unique(&mut ids);
    let carol = Pubkey::new_unique(&mut ids);
    let dave = Pubkey::new_unique(&mut ids);
    let mut contract = Contract::default();
    let mut p = params(0);
    p.min_contribution = 100;
    contract.initialize_pool(p).unwrap();
    contract.contribute_at(alice, 5000, 10).unwrap();
    contract.contribute_at(carol, 500, 10).unwrap();

    let in_voting = DAY + 10;
    contract
        .submit_proposal_at(alice, "1Destination".to_string(), "a".to_string(), in_voting)
        .unwrap();

    // Below the voting threshold.
    let r = contract.cast_vote_at(carol, 1, in_voting);
    assert!(matches!(r, Err(ContractError::InsufficientContributionForVoting)));
    // Never contributed at all.
    let r = contract.cast_vote_at(dave, 1, in_voting);
    assert!(matches!(r, Err(ContractError::InsufficientContributionForVoting)));
    // Unknown proposal id.
    let r = contract.cast_vote_at(alice, 42, in_voting);
    assert!(matches!(r, Err(ContractError::ProposalNotFound)));
    // A well-formed vote lands.
    contract.cast_vote_at(alice, 1, in_voting).unwrap();
    assert_eq!(contract.votes.get(&alice), Some(1));
    assert_eq!(contract.proposals.get(1).unwrap().votes, 1);
}

#[test]
fn voting_scenario_full_window() {
    // Two pledges, one proposal, one vote, and an idempotent rejection of
    // the second vote attempt.
    let mut ids: u8 = 0;
    let a = Pubkey::new_unique(&mut ids);
    let b = Pubkey::new_unique(&mut ids);
    let mut contract = Contract::default();
    contract.initialize_pool(params(0)).unwrap();

    contract.contribute_at(a, 5000, 10).unwrap();
    contract.contribute_at(b, 3000, 10).unwrap();
    assert_eq!(contract.total_balance, 8000);
    assert_eq!(contract.contributions.len(), 2);

    let in_voting = DAY + 10;
    let id = contract
        .submit_proposal_at(
            a,
            "1A1zP1eP5QGefi2DMPTfTL5SLmv7DivfNa".to_string(),
            "community payout".to_string(),
            in_voting,
        )
        .unwrap();
    assert_eq!(id, 1);

    contract.cast_vote_at(b, 1, in_voting).unwrap();
    assert_eq!(contract.proposals.get(1).unwrap().votes, 1);
    assert_eq!(contract.votes.get(&b), Some(1));

    let again = contract.cast_vote_at(b, 1, in_voting + 5);
    assert!(matches!(again, Err(ContractError::AlreadyVoted)));
    // Voting for a different proposal id is rejected just the same.
    let other = contract.cast_vote_at(b, 42, in_voting + 6);
    assert!(other.is_err());
    assert_eq!(contract.votes.len(), 1);
    assert_eq!(contract.proposals.get(1).unwrap().votes, 1);
}

#[test]
fn emergency_withdraw_scenario() {
    let mut ids: u8 = 0;
    let alice = Pubkey::new_unique(&mut ids);
    let mut contract = Contract::default();
    contract.initialize_pool(params(0)).unwrap();
    contract.contribute_at(alice, 5000, 10).unwrap();
    assert_eq!(contract.total_balance, 5000);

    let got = contract.emergency_withdraw(alice).unwrap();
    assert_eq!(got, 5000);
    assert_eq!(contract.total_balance, 0);
    assert_eq!(contract.contributions.len(), 0);
    assert!(!contract.contributions.contains_key(&alice));

    let again = contract.emergency_withdraw(alice);
    assert!(matches!(again, Err(ContractError::ContributorNotFound)));
}

#[test]
fn emergency_withdraw_only_in_contribution_phase() {
    let mut ids: u8 = 0;
    let alice = Pubkey::new_unique(&mut ids);
    let mut contract = Contract::default();
    contract.initialize_pool(params(0)).unwrap();
    contract.contribute_at(alice, 5000, 10).unwrap();
    contract.state = PoolState::VotingPhase;
    let r = contract.emergency_withdraw(alice);
    assert!(matches!(r, Err(ContractError::PoolDeadlinePassed)));
    assert_eq!(contract.total_balance, 5000);
}

fn pool_after_voting(
    quorum: u8,
    pledges: &[(Pubkey, u64)],
    proposals: &[(Pubkey, &str)],
    votes: &[(Pubkey, u64)],
) -> Contract {
    let mut contract = Contract::default();
    let mut p = params(0);
    p.quorum_percentage = quorum;
    contract.initialize_pool(p).unwrap();
    for (who, amount) in pledges {
        contract.contribute_at(*who, *amount, 10).unwrap();
    }
    let in_voting = DAY + 10;
    for (who, addr) in proposals {
        contract
            .submit_proposal_at(*who, addr.to_string(), "payout".to_string(), in_voting)
            .unwrap();
    }
    for (who, id) in votes {
        contract.cast_vote_at(*who, *id, in_voting).unwrap();
    }
    contract
}

#[test]
fn execute_transfer_pays_winner_then_rejects_repeat() {
    let mut ids: u8 = 0;
    let program_id = Pubkey::new_unique(&mut ids);
    let a = Pubkey::new_unique(&mut ids);
    let b = Pubkey::new_unique(&mut ids);
    let mut contract = pool_after_voting(
        60,
        &[(a, 5000), (b, 3000)],
        &[(a, "1A1zP1eP5QGefi2DMPTfTL5SLmv7DivfNa")],
        &[(a, 1), (b, 1)],
    );

    let payer_key = Pubkey::new_unique(&mut ids);
    let mut accounts = vec![account(payer_key, program_id, Vec::new())];
    let after_voting = 2 * DAY + 10;
    contract.execute_transfer_at(&program_id, &mut accounts, after_voting).unwrap();

    assert_eq!(contract.state, PoolState::Completed);
    assert!(contract.transfer_executed);
    assert_eq!(contract.winning_proposal, Some(1));
    let winner = contract.get_winning_proposal().unwrap();
    assert_eq!(winner.id, 1);
    assert_eq!(winner.bitcoin_address, "1A1zP1eP5QGefi2DMPTfTL5SLmv7DivfNa".to_string());
    // The completed state was persisted into the first account slot.
    let stored = Contract::try_from_slice(&accounts[0].data).unwrap();
    assert_eq!(stored.state, PoolState::Completed);
    assert!(stored.transfer_executed);

    let again = contract.execute_transfer_at(&program_id, &mut accounts, after_voting + 5);
    assert!(matches!(again, Err(ContractError::TransferAlreadyExecuted)));
    assert_eq!(contract.state, PoolState::Completed);
}

#[test]
fn execute_transfer_requires_quorum() {
    let mut ids: u8 = 0;
    let program_id = Pubkey::new_unique(&mut ids);
    let a = Pubkey::new_unique(&mut ids);
    let b = Pubkey::new_unique(&mut ids);
    let c = Pubkey::new_unique(&mut ids);
    // One voter out of three contributors is under the 60% quorum.
    let mut contract = pool_after_voting(
        60,
        &[(a, 5000), (b, 3000), (c, 3000)],
        &[(a, "1A1zP1eP5QGefi2DMPTfTL5SLmv7DivfNa")],
        &[(a, 1)],
    );
    let payer_key = Pubkey::new_unique(&mut ids);
    let mut accounts = vec![account(payer_key, program_id, Vec::new())];
    let r = contract.execute_transfer_at(&program_id, &mut accounts, 2 * DAY + 10);
    assert!(matches!(r, Err(ContractError::QuorumNotReached)));
    assert!(!contract.transfer_executed);
}

#[test]
fn execute_transfer_requires_proposals_and_votes() {
    let mut ids: u8 = 0;
    let program_id = Pubkey::new_unique(&mut ids);
    let a = Pubkey::new_unique(&mut ids);
    let payer_key = Pubkey::new_unique(&mut ids);

    let mut contract = pool_after_voting(60, &[(a, 5000)], &[], &[]);
    let mut accounts = vec![account(payer_key, program_id, Vec::new())];
    let r = contract.execute_transfer_at(&program_id, &mut accounts, 2 * DAY + 10);
    assert!(matches!(r, Err(ContractError::NoProposalsSubmitted)));

    let mut contract = pool_after_voting(
        60,
        &[(a, 5000)],
        &[(a, "1A1zP1eP5QGefi2DMPTfTL5SLmv7DivfNa")],
        &[],
    );
    let r = contract.execute_transfer_at(&program_id, &mut accounts, 2 * DAY + 10);
    assert!(matches!(r, Err(ContractError::NoVotesCast)));
}

#[test]
fn execute_transfer_before_deadline_is_rejected() {
    let mut ids: u8 = 0;
    let program_id = Pubkey::new_unique(&mut ids);
    let a = Pubkey::new_unique(&mut ids);
    let mut contract = pool_after_voting(
        60,
        &[(a, 5000)],
        &[(a, "1A1zP1eP5QGefi2DMPTfTL5SLmv7DivfNa")],
        &[(a, 1)],
    );
    let payer_key = Pubkey::new_unique(&mut ids);
    let mut accounts = vec![account(payer_key, program_id, Vec::new())];
    let r = contract.execute_transfer_at(&program_id, &mut accounts, DAY + 20);
    assert!(matches!(r, Err(ContractError::VotingPeriodNotEnded)));
}

#[test]
fn winner_tie_breaks_to_lowest_id() {
    let mut ids: u8 = 0;
    let program_id = Pubkey::new_unique(&mut ids);
    let a = Pubkey::new_unique(&mut ids);
    let b = Pubkey::new_unique(&mut ids);
    let c = Pubkey::new_unique(&mut ids);
    let d = Pubkey::new_unique(&mut ids);
    let mut contract = pool_after_voting(
        50,
        &[(a, 3000), (b, 3000), (c, 3000), (d, 3000)],
        &[(a, "1FirstDestination"), (b, "1SecondDestination")],
        &[(c, 1), (d, 2)],
    );
    let payer_key = Pubkey::new_unique(&mut ids);
    let mut accounts = vec![account(payer_key, program_id, Vec::new())];
    contract.execute_transfer_at(&program_id, &mut accounts, 2 * DAY + 10).unwrap();
    assert_eq!(contract.winning_proposal, Some(1));
}

#[test]
fn winner_is_proposal_with_most_votes() {
    let mut ids: u8 = 0;
    let program_id = Pubkey::new_unique(&mut ids);
    let a = Pubkey::new_unique(&mut ids);
    let b = Pubkey::new_unique(&mut ids);
    let c = Pubkey::new_unique(&mut ids);
    let mut contract = pool_after_voting(
        50,
        &[(a, 3000), (b, 3000), (c, 3000)],
        &[(a, "1FirstDestination"), (b, "1SecondDestination")],
        &[(b, 2), (c, 2)],
    );
    let payer_key = Pubkey::new_unique(&mut ids);
    let mut accounts = vec![account(payer_key, program_id, Vec::new())];
    contract.execute_transfer_at(&program_id, &mut accounts, 2 * DAY + 10).unwrap();
    assert_eq!(contract.winning_proposal, Some(2));
}

#[test]
fn pool_info_reports_counts_and_deadlines() {
    let mut ids: u8 = 0;
    let a = Pubkey::new_unique(&mut ids);
    let b = Pubkey::new_unique(&mut ids);

    let empty = Contract::default();
    assert!(matches!(empty.get_pool_info(), Err(ContractError::PoolNotInitialized)));

    let mut contract = Contract::default();
    contract.initialize_pool(params(0)).unwrap();
    contract.contribute_at(a, 5000, 10).unwrap();
    contract.contribute_at(b, 3000, 10).unwrap();
    let in_voting = DAY + 10;
    contract
        .submit_proposal_at(a, "1Destination".to_string(), "payout".to_string(), in_voting)
        .unwrap();
    contract.cast_vote_at(b, 1, in_voting).unwrap();

    let info = contract.get_pool_info().unwrap();
    assert_eq!(info.state, PoolState::VotingPhase);
    assert_eq!(info.total_balance, 8000);
    assert_eq!(info.total_contributors, 2);
    assert_eq!(info.total_proposals, 1);
    assert_eq!(info.total_votes, 1);
    assert_eq!(info.contribution_deadline, DAY);
    assert_eq!(info.voting_deadline, 2 * DAY);

    let listed = contract.get_proposals();
    assert_eq!(listed.len(), 1);
    assert_eq!(listed[0].id, 1);
    assert!(contract.get_winning_proposal().is_none());
}

#[test]
fn operations_require_initialization() {
    let mut ids: u8 = 0;
    let alice = Pubkey::new_unique(&mut ids);
    let mut contract = Contract::default();
    assert!(matches!(
        contract.contribute_at(alice, 5000, 10),
        Err(ContractError::PoolNotInitialized)
    ));
    assert!(matches!(
        contract.submit_proposal_at(alice, "1D".to_string(), "d".to_string(), 10),
        Err(ContractError::PoolNotInitialized)
    ));
    assert!(matches!(
        contract.cast_vote_at(alice, 1, 10),
        Err(ContractError::PoolNotInitialized)
    ));
    assert!(matches!(
        contract.emergency_withdraw(alice),
        Err(ContractError::PoolNotInitialized)
    ));
}

#[test]
fn error_codes_at_the_host_boundary() {
    assert_eq!(ProgramError::from(ContractError::PoolNotInitialized), ProgramError::Custom(1));
    assert_eq!(ProgramError::from(ContractError::PoolAlreadyInitialized), ProgramError::Custom(2));
    assert_eq!(ProgramError::from(ContractError::AlreadyVoted), ProgramError::Custom(12));
    assert_eq!(
        ProgramError::from(ContractError::TransferAlreadyExecuted),
        ProgramError::Custom(17)
    );
    assert_eq!(
        ProgramError::from(ContractError::ProgramError(ProgramError::IncorrectProgramId)),
        ProgramError::IncorrectProgramId
    );
}
