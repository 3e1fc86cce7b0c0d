use crowdpool::codec::{write_u32, write_u64, write_u8};
use crowdpool::{
    AccountInfo, Contract, ContractError, ContractInstruction, DecodeError, LockTime, PoolParams,
    PoolState, ProgramError, Pubkey, get_account_script_pubkey, get_bitcoin_block_height,
    next_account_info, process_instruction, set_transaction_to_sign, Transaction,
    TransactionToSign, Version, InputToSign,
};

fn sample_params() -> PoolParams {
    PoolParams {
        min_contribution: 1000,
        max_contribution: 10000,
        contribution_deadline: 86400,
        voting_deadline: 172800,
        proposal_threshold: 2000,
        voting_threshold: 1000,
        quorum_percentage: 60,
    }
}

fn roundtrip(contract: &Contract) -> Contract {
    let mut bytes = Vec::new();
    contract.serialize(&mut bytes);
    Contract::try_from_slice(&bytes).unwrap()
}

#[test]
fn roundtrip_default_contract() {
    let contract = Contract::default();
    let back = roundtrip(&contract);
    assert_eq!(back.state, PoolState::Uninitialized);
    assert!(back.params.is_none());
    assert_eq!(back.total_balance, 0);
    assert_eq!(back.contributions.len(), 0);
    assert_eq!(back.proposals.len(), 0);
    assert_eq!(back.votes.len(), 0);
    assert_eq!(back.next_proposal_id, 1);
    assert!(back.winning_proposal.is_none());
    assert!(!back.transfer_executed);
}

#[test]
fn roundtrip_populated_contract() {
    let mut ids: u8 = 0;
    let a = Pubkey::new_unique(&mut ids);
    let b = Pubkey::new_unique(&mut ids);
    let mut contract = Contract::default();
    contract.initialize_pool(sample_params()).unwrap();
    contract.contribute_at(a, 5000, 10).unwrap();
    contract.contribute_at(b, 3000, 10).unwrap();
    let in_voting = 86400 + 10;
    // A description with multi-byte characters exercises the UTF-8 path
    // in both directions.
    contract
        .submit_proposal_at(
            a,
            "bc1qar0srrr7xfkvy5l643lydnw9re59gtzzwf5mdq".to_string(),
            "café payout — über plan".to_string(),
            in_voting,
        )
        .unwrap();
    contract.cast_vote_at(b, 1, in_voting).unwrap();

    let back = roundtrip(&contract);
    assert_eq!(back.state, PoolState::VotingPhase);
    assert_eq!(back.params, contract.params);
    assert_eq!(back.total_balance, 8000);
    assert_eq!(back.contributions.get(&a), Some(5000));
    assert_eq!(back.contributions.get(&b), Some(3000));
    assert_eq!(back.votes.get(&b), Some(1));
    assert_eq!(back.next_proposal_id, 2);
    let p = back.proposals.get(1).unwrap();
    assert_eq!(p.id, 1);
    assert_eq!(p.proposer, a);
    assert_eq!(p.bitcoin_address, "bc1qar0srrr7xfkvy5l643lydnw9re59gtzzwf5mdq".to_string());
    assert_eq!(p.description, "café payout — über plan".to_string());
    assert_eq!(p.votes, 1);
}

#[test]
fn roundtrip_completed_contract() {
    let mut ids: u8 = 0;
    let program_id = Pubkey::new_unique(&mut ids);
    let a = Pubkey::new_unique(&mut ids);
    let payer = Pubkey::new_unique(&mut ids);
    let mut contract = Contract::default();
    contract.initialize_pool(sample_params()).unwrap();
    contract.contribute_at(a, 5000, 10).unwrap();
    let in_voting = 86400 + 10;
    contract
        .submit_proposal_at(a, "1Destination".to_string(), "payout".to_string(), in_voting)
        .unwrap();
    contract.cast_vote_at(a, 1, in_voting).unwrap();
    let mut accounts = vec![AccountInfo {
        key: payer,
        is_signer: false,
        is_writable: true,
        lamports: 0,
        data: Vec::new(),
        owner: program_id,
        executable: false,
        rent_epoch: 0,
    }];
    contract.execute_transfer_at(&program_id, &mut accounts, 2 * 86400 + 10).unwrap();

    let back = roundtrip(&contract);
    assert_eq!(back.state, PoolState::Completed);
    assert_eq!(back.winning_proposal, Some(1));
    assert!(back.transfer_executed);
}

#[test]
fn decode_rejects_truncated_input() {
    assert!(matches!(Contract::try_from_slice(&Vec::new()), Err(DecodeError::TruncatedInput)));

    let mut bytes = Vec::new();
    Contract::default().serialize(&mut bytes);
    bytes.pop();
    assert!(matches!(Contract::try_from_slice(&bytes), Err(DecodeError::TruncatedInput)));
}

#[test]
fn decode_rejects_trailing_bytes() {
    let mut bytes = Vec::new();
    Contract::default().serialize(&mut bytes);
    bytes.push(0);
    assert!(matches!(Contract::try_from_slice(&bytes), Err(DecodeError::InvalidTag)));
}

#[test]
fn decode_rejects_bad_discriminants() {
    // An unknown phase ordinal.
    let mut bytes = Vec::new();
    Contract::default().serialize(&mut bytes);
    bytes[0] = 9;
    assert!(matches!(Contract::try_from_slice(&bytes), Err(DecodeError::InvalidTag)));

    // An option tag other than 0 or 1.
    let mut bytes = Vec::new();
    Contract::default().serialize(&mut bytes);
    bytes[1] = 7;
    assert!(matches!(Contract::try_from_slice(&bytes), Err(DecodeError::InvalidTag)));

    // The trailing transfer-executed flag must be 0 or 1.
    let mut bytes = Vec::new();
    Contract::default().serialize(&mut bytes);
    let last = bytes.len() - 1;
    bytes[last] = 2;
    assert!(matches!(Contract::try_from_slice(&bytes), Err(DecodeError::InvalidTag)));
}

fn empty_contract_tail(out: &mut Vec<u8>) {
    write_u64(out, 1);  // next_proposal_id
    write_u8(out, 0);   // absent winning proposal
    write_u8(out, 0);   // transfer not executed
}

#[test]
fn decode_overwrites_duplicate_keys() {
    let mut ids: u8 = 0;
    let dup = Pubkey::new_unique(&mut ids);
    let mut bytes = Vec::new();
    write_u8(&mut bytes, 1);  // ContributionPhase
    write_u8(&mut bytes, 0);  // absent params
    write_u64(&mut bytes, 0);  // total balance
    write_u32(&mut bytes, 2);  // two contribution pairs, same key
    bytes.extend_from_slice(&dup.0);
    write_u64(&mut bytes, 1111);
    bytes.extend_from_slice(&dup.0);
    write_u64(&mut bytes, 2222);
    write_u32(&mut bytes, 0);  // no proposals
    write_u32(&mut bytes, 0);  // no votes
    empty_contract_tail(&mut bytes);

    let contract = Contract::try_from_slice(&bytes).unwrap();
    assert_eq!(contract.contributions.len(), 1);
    assert_eq!(contract.contributions.get(&dup), Some(2222));
}

#[test]
fn decode_rejects_short_identity() {
    let mut bytes = Vec::new();
    write_u8(&mut bytes, 1);
    write_u8(&mut bytes, 0);
    write_u64(&mut bytes, 0);
    write_u32(&mut bytes, 1);  // one pair announced
    bytes.extend_from_slice(&[5u8; 16]);  // but only half an identity
    assert!(matches!(Contract::try_from_slice(&bytes), Err(DecodeError::TruncatedInput)));
}

#[test]
fn decode_rejects_invalid_utf8() {
    let mut ids: u8 = 0;
    let a = Pubkey::new_unique(&mut ids);
    let mut bytes = Vec::new();
    write_u8(&mut bytes, 2);  // VotingPhase
    write_u8(&mut bytes, 0);  // absent params
    write_u64(&mut bytes, 0);
    write_u32(&mut bytes, 0);  // no contributions
    write_u32(&mut bytes, 1);  // one proposal
    write_u64(&mut bytes, 1);  // key
    write_u64(&mut bytes, 1);  // proposal id
    bytes.extend_from_slice(&a.0);  // proposer
    write_u32(&mut bytes, 2);  // address length
    bytes.extend_from_slice(&[0xff, 0xfe]);  // not UTF-8
    assert!(matches!(Contract::try_from_slice(&bytes), Err(DecodeError::InvalidTag)));
}

#[test]
fn instruction_roundtrips() {
    let cases = vec![
        ContractInstruction::InitializePool { params: sample_params() },
        ContractInstruction::Contribute { amount: 5000 },
        ContractInstruction::SubmitProposal {
            bitcoin_address: "1A1zP1eP5QGefi2DMPTfTL5SLmv7DivfNa".to_string(),
            description: "Test proposal".to_string(),
        },
        ContractInstruction::CastVote { proposal_id: 7 },
        ContractInstruction::ExecuteTransfer,
        ContractInstruction::EmergencyWithdraw,
    ];
    for case in cases {
        let mut bytes = Vec::new();
        case.serialize(&mut bytes);
        let back = ContractInstruction::try_from_slice(&bytes).unwrap();
        match (&case, &back) {
            (
                ContractInstruction::InitializePool { params: x },
                ContractInstruction::InitializePool { params: y },
            ) => assert_eq!(x, y),
            (
                ContractInstruction::Contribute { amount: x },
                ContractInstruction::Contribute { amount: y },
            ) => assert_eq!(x, y),
            (
                ContractInstruction::SubmitProposal { bitcoin_address: xa, description: xd },
                ContractInstruction::SubmitProposal { bitcoin_address: ya, description: yd },
            ) => {
                assert_eq!(xa, ya);
                assert_eq!(xd, yd);
            },
            (
                ContractInstruction::CastVote { proposal_id: x },
                ContractInstruction::CastVote { proposal_id: y },
            ) => assert_eq!(x, y),
            (ContractInstruction::ExecuteTransfer, ContractInstruction::ExecuteTransfer) => {},
            (ContractInstruction::EmergencyWithdraw, ContractInstruction::EmergencyWithdraw) => {},
            _ => panic!("instruction decoded into a different variant"),
        }
    }
}

#[test]
fn instruction_rejects_unknown_tag_and_garbage() {
    assert!(matches!(
        ContractInstruction::try_from_slice(&vec![9u8]),
        Err(DecodeError::InvalidTag)
    ));
    assert!(matches!(
        ContractInstruction::try_from_slice(&Vec::new()),
        Err(DecodeError::TruncatedInput)
    ));
    // A Contribute instruction with a truncated amount.
    assert!(matches!(
        ContractInstruction::try_from_slice(&vec![1u8, 0, 0]),
        Err(DecodeError::TruncatedInput)
    ));
    // Trailing bytes after a complete instruction.
    assert!(matches!(
        ContractInstruction::try_from_slice(&vec![4u8, 0]),
        Err(DecodeError::InvalidTag)
    ));
}

#[test]
fn dispatcher_guards_inputs() {
    let mut ids: u8 = 0;
    let program_id = Pubkey::new_unique(&mut ids);
    let stranger = Pubkey::new_unique(&mut ids);
    let key = Pubkey::new_unique(&mut ids);

    // Garbage instruction bytes.
    let mut accounts = Vec::new();
    let r = process_instruction(&program_id, &mut accounts, &vec![200u8, 1, 2]);
    assert_eq!(r, Err(ProgramError::InvalidInstructionData));

    // Too few account slots.
    let mut data = Vec::new();
    ContractInstruction::Contribute { amount: 5000 }.serialize(&mut data);
    let mut accounts = Vec::new();
    let r = process_instruction(&program_id, &mut accounts, &data);
    assert_eq!(r, Err(ProgramError::NotEnoughAccountKeys));

    // A contract account owned by someone else.
    let mut accounts = vec![
        AccountInfo {
            key,
            is_signer: false,
            is_writable: true,
            lamports: 0,
            data: Vec::new(),
            owner: stranger,
            executable: false,
            rent_epoch: 0,
        },
        AccountInfo {
            key: stranger,
            is_signer: false,
            is_writable: true,
            lamports: 0,
            data: Vec::new(),
            owner: stranger,
            executable: false,
            rent_epoch: 0,
        },
        AccountInfo {
            key: stranger,
            is_signer: false,
            is_writable: true,
            lamports: 0,
            data: Vec::new(),
            owner: stranger,
            executable: false,
            rent_epoch: 0,
        },
    ];
    let r = process_instruction(&program_id, &mut accounts, &data);
    assert_eq!(r, Err(ProgramError::IncorrectProgramId));

    // An unreadable stored aggregate is fatal for every operation but
    // initialization.
    accounts[0].owner = program_id;
    accounts[0].data = vec![9u8, 9, 9];
    let r = process_instruction(&program_id, &mut accounts, &data);
    assert_eq!(r, Err(ProgramError::InvalidInstructionData));
}

#[test]
fn host_collaborators_answer_deterministically() {
    let mut counter: u8 = 0;
    let k1 = Pubkey::new_unique(&mut counter);
    let k2 = Pubkey::new_unique(&mut counter);
    assert_ne!(k1, k2);
    assert_eq!(counter, 2);

    assert_eq!(get_bitcoin_block_height(), Ok(100000));
    let script = get_account_script_pubkey("1A1zP1eP5QGefi2DMPTfTL5SLmv7DivfNa").unwrap();
    assert_eq!(script.len(), 32);

    let lock_time = LockTime::from_height(100000).unwrap();
    assert_eq!(lock_time.0, 100000);

    let tx = TransactionToSign {
        transaction: Transaction { version: Version::Two, lock_time },
        inputs_to_sign: vec![InputToSign { index: 0, signer: k1 }],
    };
    assert!(set_transaction_to_sign(tx).is_ok());

    let accounts = vec![AccountInfo {
        key: k1,
        is_signer: false,
        is_writable: true,
        lamports: 0,
        data: Vec::new(),
        owner: k2,
        executable: false,
        rent_epoch: 0,
    }];
    let mut cursor = 0;
    assert_eq!(next_account_info(&accounts, &mut cursor), Ok(0));
    assert_eq!(
        next_account_info(&accounts, &mut cursor),
        Err(ProgramError::NotEnoughAccountKeys)
    );
}
