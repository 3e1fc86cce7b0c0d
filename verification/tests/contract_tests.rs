use chrono::Utc;
use crowdpool::{
    AccountInfo, Contract, ContractInstruction, PoolParams, PoolState, Pubkey,
    process_instruction,
};

fn account(key: Pubkey, owner: Pubkey, data: Vec<u8>) -> AccountInfo {
    AccountInfo {
        key,
        is_signer: false,
        is_writable: true,
        lamports: 0,
        data,
        owner,
        executable: false,
        rent_epoch: 0,
    }
}

#[test]
fn test_initialize_pool() {
    let mut ids: u8 = 0;
    let program_id = Pubkey::new_unique(&mut ids);

    let contract_key = Pubkey::new_unique(&mut ids);
    let payer_key = Pubkey::new_unique(&mut ids);
    let payer_owner = Pubkey::new_unique(&mut ids);
    let mut accounts = vec![
        account(contract_key, program_id, Vec::new()),
        account(payer_key, payer_owner, Vec::new()),
    ];

    let now = Utc::now().timestamp();
    let params = PoolParams {
        min_contribution: 1000,
        max_contribution: 10000,
        contribution_deadline: now + 86400,
        voting_deadline: now + 172800,
        proposal_threshold: 2000,
        voting_threshold: 1000,
        quorum_percentage: 60,
    };

    let instruction = ContractInstruction::InitializePool { params };
    let mut instruction_data = Vec::new();
    instruction.serialize(&mut instruction_data);

    let result = process_instruction(&program_id, &mut accounts, &instruction_data);

    assert!(result.is_ok(), "Initialize pool should succeed");

    let contract = Contract::try_from_slice(&accounts[0].data).unwrap();

    assert_eq!(contract.state, PoolState::ContributionPhase);
    assert!(contract.params.is_some());
    assert_eq!(contract.total_balance, 0);
    assert_eq!(contract.contributions.len(), 0);
    assert_eq!(contract.proposals.len(), 0);
    assert_eq!(contract.votes.len(), 0);
    assert_eq!(contract.next_proposal_id, 1);
    assert!(contract.winning_proposal.is_none());
    assert!(!contract.transfer_executed);
}

#[test]
fn test_contribute() {
    let mut ids: u8 = 0;
    let program_id = Pubkey::new_unique(&mut ids);

    let mut contract = Contract::default();
    let now = Utc::now().timestamp();
    let params = PoolParams {
        min_contribution: 1000,
        max_contribution: 10000,
        contribution_deadline: now + 86400,
        voting_deadline: now + 172800,
        proposal_threshold: 2000,
        voting_threshold: 1000,
        quorum_percentage: 60,
    };
    contract.initialize_pool(params.clone()).unwrap();

    let mut contract_data = Vec::new();
    contract.serialize(&mut contract_data);

    let contract_key = Pubkey::new_unique(&mut ids);
    let contributor_key = Pubkey::new_unique(&mut ids);
    let contributor_owner = Pubkey::new_unique(&mut ids);
    let payer_key = Pubkey::new_unique(&mut ids);
    let payer_owner = Pubkey::new_unique(&mut ids);
    let mut accounts = vec![
        account(contract_key, program_id, contract_data),
        account(contributor_key, contributor_owner, Vec::new()),
        account(payer_key, payer_owner, Vec::new()),
    ];

    let amount = 5000;
    let instruction = ContractInstruction::Contribute { amount };
    let mut instruction_data = Vec::new();
    instruction.serialize(&mut instruction_data);

    let result = process_instruction(&program_id, &mut accounts, &instruction_data);

    assert!(result.is_ok(), "Contribute should succeed");

    let contract = Contract::try_from_slice(&accounts[0].data).unwrap();

    assert_eq!(contract.state, PoolState::ContributionPhase);
    assert_eq!(contract.total_balance, amount);
    assert_eq!(contract.contributions.len(), 1);
    assert_eq!(contract.contributions.get(&contributor_key), Some(amount));
}

#[test]
fn test_submit_proposal() {
    let mut ids: u8 = 0;
    let program_id = Pubkey::new_unique(&mut ids);

    let mut contract = Contract::default();
    let now = Utc::now().timestamp();
    let params = PoolParams {
        min_contribution: 1000,
        max_contribution: 10000,
        contribution_deadline: now - 1000,
        voting_deadline: now + 86400,
        proposal_threshold: 2000,
        voting_threshold: 1000,
        quorum_percentage: 60,
    };
    contract.initialize_pool(params.clone()).unwrap();

    // The proposer pledged while the contribution window was still open.
    let proposer_key = Pubkey::new_unique(&mut ids);
    contract.contribute_at(proposer_key, 5000, now - 2000).unwrap();
    contract.state = PoolState::VotingPhase;

    let mut contract_data = Vec::new();
    contract.serialize(&mut contract_data);

    let contract_key = Pubkey::new_unique(&mut ids);
    let proposer_owner = Pubkey::new_unique(&mut ids);
    let payer_key = Pubkey::new_unique(&mut ids);
    let payer_owner = Pubkey::new_unique(&mut ids);
    let mut accounts = vec![
        account(contract_key, program_id, contract_data),
        account(proposer_key, proposer_owner, Vec::new()),
        account(payer_key, payer_owner, Vec::new()),
    ];

    let bitcoin_address = "1A1zP1eP5QGefi2DMPTfTL5SLmv7DivfNa".to_string();
    let description = "Test proposal".to_string();
    let instruction = ContractInstruction::SubmitProposal { bitcoin_address, description };
    let mut instruction_data = Vec::new();
    instruction.serialize(&mut instruction_data);

    let result = process_instruction(&program_id, &mut accounts, &instruction_data);

    assert!(result.is_ok(), "Submit proposal should succeed");

    let contract = Contract::try_from_slice(&accounts[0].data).unwrap();

    assert_eq!(contract.state, PoolState::VotingPhase);
    assert_eq!(contract.proposals.len(), 1);
    assert_eq!(contract.next_proposal_id, 2);

    let proposal = contract.proposals.get(1).unwrap();
    assert_eq!(proposal.id, 1);
    assert_eq!(proposal.proposer, proposer_key);
    assert_eq!(proposal.votes, 0);
}

#[test]
fn test_cast_vote() {
    let mut ids: u8 = 0;
    let program_id = Pubkey::new_unique(&mut ids);

    let mut contract = Contract::default();
    let now = Utc::now().timestamp();
    let params = PoolParams {
        min_contribution: 1000,
        max_contribution: 10000,
        contribution_deadline: now - 1000,
        voting_deadline: now + 86400,
        proposal_threshold: 2000,
        voting_threshold: 1000,
        quorum_percentage: 60,
    };
    contract.initialize_pool(params.clone()).unwrap();

    // Both pledges landed while the contribution window was still open.
    let proposer_key = Pubkey::new_unique(&mut ids);
    contract.contribute_at(proposer_key, 5000, now - 2000).unwrap();
    let voter_key = Pubkey::new_unique(&mut ids);
    contract.contribute_at(voter_key, 3000, now - 2000).unwrap();

    contract.state = PoolState::VotingPhase;

    let bitcoin_address = "1A1zP1eP5QGefi2DMPTfTL5SLmv7DivfNa".to_string();
    let description = "Test proposal".to_string();
    contract.submit_proposal(proposer_key, bitcoin_address, description).unwrap_or_default();

    let mut contract_data = Vec::new();
    contract.serialize(&mut contract_data);

    let contract_key = Pubkey::new_unique(&mut ids);
    let voter_owner = Pubkey::new_unique(&mut ids);
    let payer_key = Pubkey::new_unique(&mut ids);
    let payer_owner = Pubkey::new_unique(&mut ids);
    let mut accounts = vec![
        account(contract_key, program_id, contract_data),
        account(voter_key, voter_owner, Vec::new()),
        account(payer_key, payer_owner, Vec::new()),
    ];

    let proposal_id = 1;
    let instruction = ContractInstruction::CastVote { proposal_id };
    let mut instruction_data = Vec::new();
    instruction.serialize(&mut instruction_data);

    let result = process_instruction(&program_id, &mut accounts, &instruction_data);

    assert!(result.is_ok(), "Cast vote should succeed");

    let contract = Contract::try_from_slice(&accounts[0].data).unwrap();

    assert_eq!(contract.state, PoolState::VotingPhase);
    assert_eq!(contract.votes.len(), 1);
    assert_eq!(contract.votes.get(&voter_key), Some(proposal_id));

    let proposal = contract.proposals.get(proposal_id).unwrap();
    assert_eq!(proposal.votes, 1);
}

#[test]
fn test_execute_transfer() {
    let mut ids: u8 = 0;
    let program_id = Pubkey::new_unique(&mut ids);

    let mut contract = Contract::default();
    let now = Utc::now().timestamp();
    let params = PoolParams {
        min_contribution: 1000,
        max_contribution: 10000,
        contribution_deadline: now - 2000,
        voting_deadline: now - 1000,
        proposal_threshold: 2000,
        voting_threshold: 1000,
        quorum_percentage: 60,
    };
    contract.initialize_pool(params.clone()).unwrap();

    let proposer_key = Pubkey::new_unique(&mut ids);
    contract.contribute(proposer_key, 5000).unwrap_or_default();

    let voter_key = Pubkey::new_unique(&mut ids);
    contract.contribute(voter_key, 3000).unwrap_or_default();

    contract.state = PoolState::ExecutionPhase;

    let bitcoin_address = "1A1zP1eP5QGefi2DMPTfTL5SLmv7DivfNa".to_string();
    let description = "Test proposal".to_string();
    let proposal_id =
        contract.submit_proposal(proposer_key, bitcoin_address, description).unwrap_or_default();

    contract.cast_vote(voter_key, proposal_id).unwrap_or_default();

    let mut contract_data = Vec::new();
    contract.serialize(&mut contract_data);

    let contract_key = Pubkey::new_unique(&mut ids);
    let payer_key = Pubkey::new_unique(&mut ids);
    let payer_owner = Pubkey::new_unique(&mut ids);
    let mut accounts = vec![
        account(contract_key, program_id, contract_data),
        account(payer_key, payer_owner, Vec::new()),
    ];

    let instruction = ContractInstruction::ExecuteTransfer;
    let mut instruction_data = Vec::new();
    instruction.serialize(&mut instruction_data);

    let result = process_instruction(&program_id, &mut accounts, &instruction_data);

    // Nothing was pledged, proposed or voted after the deadlines passed,
    // so the transfer has nothing to pay out and must fail.
    assert!(
        result.is_err(),
        "Execute transfer should fail in tests due to missing Bitcoin transaction functionality"
    );
}

#[test]
fn test_emergency_withdraw() {
    let mut ids: u8 = 0;
    let program_id = Pubkey::new_unique(&mut ids);

    let mut contract = Contract::default();
    let now = Utc::now().timestamp();
    let params = PoolParams {
        min_contribution: 1000,
        max_contribution: 10000,
        contribution_deadline: now + 86400,
        voting_deadline: now + 172800,
        proposal_threshold: 2000,
        voting_threshold: 1000,
        quorum_percentage: 60,
    };
    contract.initialize_pool(params.clone()).unwrap();

    let contributor_key = Pubkey::new_unique(&mut ids);
    let amount = 5000;
    contract.contribute(contributor_key, amount).unwrap_or_default();

    let mut contract_data = Vec::new();
    contract.serialize(&mut contract_data);

    let contract_key = Pubkey::new_unique(&mut ids);
    let contributor_owner = Pubkey::new_unique(&mut ids);
    let payer_key = Pubkey::new_unique(&mut ids);
    let payer_owner = Pubkey::new_unique(&mut ids);
    let mut accounts = vec![
        account(contract_key, program_id, contract_data),
        account(contributor_key, contributor_owner, Vec::new()),
        account(payer_key, payer_owner, Vec::new()),
    ];

    let instruction = ContractInstruction::EmergencyWithdraw;
    let mut instruction_data = Vec::new();
    instruction.serialize(&mut instruction_data);

    let result = process_instruction(&program_id, &mut accounts, &instruction_data);

    assert!(result.is_ok(), "Emergency withdraw should succeed");

    let contract = Contract::try_from_slice(&accounts[0].data).unwrap();

    assert_eq!(contract.state, PoolState::ContributionPhase);
    assert_eq!(contract.total_balance, 0);
    assert_eq!(contract.contributions.len(), 0);
}
