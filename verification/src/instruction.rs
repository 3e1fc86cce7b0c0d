//! The instruction surface: the six tagged operations a caller can invoke,
//! their binary encoding with a leading variant discriminant, and the
//! dispatcher that loads the persisted aggregate, runs one operation, and
//! persists the result.

use crate::codec::{
    dec_contract, dec_params, dec_string, dec_u64, dec_u8, enc_contract, enc_params, enc_string,
    enc_u64, enc_u8, lemma_dec_enc_params, lemma_dec_enc_string, lemma_dec_enc_u64,
    lemma_dec_enc_u8, read_params, read_string, read_u64, read_u8, write_params, write_string,
    write_u64, write_u8, DecodeError,
};
use crate::host::{add_state_transition, AccountInfo, ProgramError, Pubkey};
use crate::state::{
    encodable, initial_contract, spec_cast_vote, spec_contribute, spec_emergency_withdraw,
    spec_execute_transfer, spec_initialize, string_encodable, Contract, ContractError, ContractV,
    PoolParams,
};
use vstd::prelude::*;

verus! {

/// One invocation of the pool: the operation and its arguments.
#[derive(Debug)]
pub enum ContractInstruction {
    InitializePool { params: PoolParams },
    Contribute { amount: u64 },
    SubmitProposal { bitcoin_address: String, description: String },
    CastVote { proposal_id: u64 },
    ExecuteTransfer,
    EmergencyWithdraw,
}

/// The mathematical content of a `ContractInstruction`.
pub ghost enum InstructionV {
    InitializePool { params: PoolParams },
    Contribute { amount: u64 },
    SubmitProposal { bitcoin_address: Seq<char>, description: Seq<char> },
    CastVote { proposal_id: u64 },
    ExecuteTransfer,
    EmergencyWithdraw,
}

impl View for ContractInstruction {
    type V = InstructionV;

    open spec fn view(&self) -> InstructionV {
        match self {
            ContractInstruction::InitializePool { params } => InstructionV::InitializePool {
                params: *params,
            },
            ContractInstruction::Contribute { amount } => InstructionV::Contribute {
                amount: *amount,
            },
            ContractInstruction::SubmitProposal {
                bitcoin_address,
                description,
            } => InstructionV::SubmitProposal {
                bitcoin_address: bitcoin_address@,
                description: description@,
            },
            ContractInstruction::CastVote { proposal_id } => InstructionV::CastVote {
                proposal_id: *proposal_id,
            },
            ContractInstruction::ExecuteTransfer => InstructionV::ExecuteTransfer,
            ContractInstruction::EmergencyWithdraw => InstructionV::EmergencyWithdraw,
        }
    }
}

/// Whether an instruction's strings fit the encoding's length prefixes.
pub open spec fn instruction_encodable(ins: InstructionV) -> bool {
    match ins {
        InstructionV::SubmitProposal { bitcoin_address, description } => string_encodable(
            bitcoin_address,
        ) && string_encodable(description),
        _ => true,
    }
}

/// An instruction is its variant's ordinal, then its payload fields.
pub open spec fn enc_instruction(ins: InstructionV) -> Seq<u8> {
    match ins {
        InstructionV::InitializePool { params } => seq![0u8] + enc_params(params),
        InstructionV::Contribute { amount } => seq![1u8] + enc_u64(amount),
        InstructionV::SubmitProposal { bitcoin_address, description } => seq![2u8] + enc_string(
            bitcoin_address,
        ) + enc_string(description),
        InstructionV::CastVote { proposal_id } => seq![3u8] + enc_u64(proposal_id),
        InstructionV::ExecuteTransfer => seq![4u8],
        InstructionV::EmergencyWithdraw => seq![5u8],
    }
}

pub open spec fn dec_instruction(s: Seq<u8>, i: int) -> Result<(InstructionV, int), DecodeError> {
    match dec_u8(s, i) {
        Err(e) => Err(e),
        Ok((tag, j)) => {
            if tag == 0 {
                match dec_params(s, j) {
                    Err(e) => Err(e),
                    Ok((params, j2)) => Ok((InstructionV::InitializePool { params }, j2)),
                }
            } else if tag == 1 {
                match dec_u64(s, j) {
                    Err(e) => Err(e),
                    Ok((amount, j2)) => Ok((InstructionV::Contribute { amount }, j2)),
                }
            } else if tag == 2 {
                match dec_string(s, j) {
                    Err(e) => Err(e),
                    Ok((bitcoin_address, j2)) => match dec_string(s, j2) {
                        Err(e) => Err(e),
                        Ok((description, j3)) => Ok(
                            (
                                InstructionV::SubmitProposal { bitcoin_address, description },
                                j3,
                            ),
                        ),
                    },
                }
            } else if tag == 3 {
                match dec_u64(s, j) {
                    Err(e) => Err(e),
                    Ok((proposal_id, j2)) => Ok((InstructionV::CastVote { proposal_id }, j2)),
                }
            } else if tag == 4 {
                Ok((InstructionV::ExecuteTransfer, j))
            } else if tag == 5 {
                Ok((InstructionV::EmergencyWithdraw, j))
            } else {
                Err(DecodeError::InvalidTag)
            }
        },
    }
}

/// Decoding an encoded instruction embedded at any position yields the
/// encoded instruction and stops right behind it.
pub proof fn lemma_dec_enc_instruction(ins: InstructionV, pre: Seq<u8>, post: Seq<u8>)
    requires
        instruction_encodable(ins),
    ensures
        dec_instruction(pre + enc_instruction(ins) + post, pre.len() as int) == Ok::<
            (InstructionV, int),
            DecodeError,
        >((ins, pre.len() as int + enc_instruction(ins).len())),
{
    vstd::bytes::lemma_auto_spec_u64_to_from_le_bytes();
    let s = pre + enc_instruction(ins) + post;
    match ins {
        InstructionV::InitializePool { params } => {
            assert(s =~= pre + enc_u8(0u8) + (enc_params(params) + post));
            lemma_dec_enc_u8(0u8, pre, enc_params(params) + post);
            assert(s =~= (pre + enc_u8(0u8)) + enc_params(params) + post);
            lemma_dec_enc_params(params, pre + enc_u8(0u8), post);
        },
        InstructionV::Contribute { amount } => {
            assert(s =~= pre + enc_u8(1u8) + (enc_u64(amount) + post));
            lemma_dec_enc_u8(1u8, pre, enc_u64(amount) + post);
            assert(s =~= (pre + enc_u8(1u8)) + enc_u64(amount) + post);
            lemma_dec_enc_u64(amount, pre + enc_u8(1u8), post);

        },
        InstructionV::SubmitProposal { bitcoin_address, description } => {
            let ea = enc_string(bitcoin_address);
            let ed = enc_string(description);
            assert(s =~= pre + enc_u8(2u8) + (ea + ed + post));
            lemma_dec_enc_u8(2u8, pre, ea + ed + post);
            assert(s =~= (pre + enc_u8(2u8)) + ea + (ed + post));
            lemma_dec_enc_string(bitcoin_address, pre + enc_u8(2u8), ed + post);
            assert(s =~= (pre + enc_u8(2u8) + ea) + ed + post);
            lemma_dec_enc_string(description, pre + enc_u8(2u8) + ea, post);

        },
        InstructionV::CastVote { proposal_id } => {
            assert(s =~= pre + enc_u8(3u8) + (enc_u64(proposal_id) + post));
            lemma_dec_enc_u8(3u8, pre, enc_u64(proposal_id) + post);
            assert(s =~= (pre + enc_u8(3u8)) + enc_u64(proposal_id) + post);
            lemma_dec_enc_u64(proposal_id, pre + enc_u8(3u8), post);

        },
        InstructionV::ExecuteTransfer => {
            assert(s =~= pre + enc_u8(4u8) + post);
            lemma_dec_enc_u8(4u8, pre, post);

        },
        InstructionV::EmergencyWithdraw => {
            assert(s =~= pre + enc_u8(5u8) + post);
            lemma_dec_enc_u8(5u8, pre, post);

        },
    }
}

impl ContractInstruction {
    /// Appends the canonical encoding of the instruction.
    pub fn serialize(&self, out: &mut Vec<u8>)
        requires
            instruction_encodable(self@),
        ensures
            final(out)@ == old(out)@ + enc_instruction(self@),
    {
        match self {
            ContractInstruction::InitializePool { params } => {
                write_u8(out, 0);
                write_params(out, params);
                proof {
                    assert(out@ =~= old(out)@ + enc_instruction(self@));
                }
            },
            ContractInstruction::Contribute { amount } => {
                write_u8(out, 1);
                write_u64(out, *amount);
                proof {
                    assert(out@ =~= old(out)@ + enc_instruction(self@));
                }
            },
            ContractInstruction::SubmitProposal { bitcoin_address, description } => {
                write_u8(out, 2);
                write_string(out, bitcoin_address.as_str());
                write_string(out, description.as_str());
                proof {
                    assert(out@ =~= old(out)@ + enc_instruction(self@));
                }
            },
            ContractInstruction::CastVote { proposal_id } => {
                write_u8(out, 3);
                write_u64(out, *proposal_id);
                proof {
                    assert(out@ =~= old(out)@ + enc_instruction(self@));
                }
            },
            ContractInstruction::ExecuteTransfer => {
                write_u8(out, 4);
            },
            ContractInstruction::EmergencyWithdraw => {
                write_u8(out, 5);
            },
        }
    }

    /// Decodes one instruction from a whole buffer; bytes left over after
    /// the payload are malformed input.
    pub fn try_from_slice(data: &Vec<u8>) -> (r: Result<ContractInstruction, DecodeError>)
        ensures
            match dec_instruction(data@, 0) {
                Ok(sv) => {
                    if sv.1 == data@.len() {
                        r matches Ok(ins) && ins@ == sv.0
                    } else {
                        r == Err::<ContractInstruction, DecodeError>(DecodeError::InvalidTag)
                    }
                },
                Err(e) => r == Err::<ContractInstruction, DecodeError>(e),
            },
    {
        let (ins, end) = match Self::read_instruction(data, 0) {
            Ok(v) => v,
            Err(e) => {
                return Err(e);
            },
        };
        if end == data.len() {
            Ok(ins)
        } else {
            Err(DecodeError::InvalidTag)
        }
    }

    /// Reads one instruction from a position.
    fn read_instruction(data: &Vec<u8>, pos: usize) -> (r: Result<
        (ContractInstruction, usize),
        DecodeError,
    >)
        ensures
            dec_instruction(data@, pos as int) matches Ok(sv) ==> r matches Ok(rv) && rv.0@ == sv.0
                && rv.1 == sv.1,
            dec_instruction(data@, pos as int) matches Err(e) ==> r == Err::<
                (ContractInstruction, usize),
                DecodeError,
            >(e),
    {
        let (tag, j) = match read_u8(data, pos) {
            Ok(v) => v,
            Err(e) => {
                return Err(e);
            },
        };
        if tag == 0 {
            match read_params(data, j) {
                Err(e) => Err(e),
                Ok((params, j2)) => Ok((ContractInstruction::InitializePool { params }, j2)),
            }
        } else if tag == 1 {
            match read_u64(data, j) {
                Err(e) => Err(e),
                Ok((amount, j2)) => Ok((ContractInstruction::Contribute { amount }, j2)),
            }
        } else if tag == 2 {
            match read_string(data, j) {
                Err(e) => Err(e),
                Ok((bitcoin_address, j2)) => match read_string(data, j2) {
                    Err(e) => Err(e),
                    Ok((description, j3)) => Ok(
                        (
                            ContractInstruction::SubmitProposal { bitcoin_address, description },
                            j3,
                        ),
                    ),
                },
            }
        } else if tag == 3 {
            match read_u64(data, j) {
                Err(e) => Err(e),
                Ok((proposal_id, j2)) => Ok((ContractInstruction::CastVote { proposal_id }, j2)),
            }
        } else if tag == 4 {
            Ok((ContractInstruction::ExecuteTransfer, j))
        } else if tag == 5 {
            Ok((ContractInstruction::EmergencyWithdraw, j))
        } else {
            Err(DecodeError::InvalidTag)
        }
    }
}


/// The persisted aggregate read strictly: the whole buffer must decode.
pub open spec fn stored_strict(data: Seq<u8>) -> Option<ContractV> {
    match dec_contract(data, 0) {
        Ok((c, end)) => {
            if end == data.len() {
                Some(c)
            } else {
                None
            }
        },
        Err(_) => None,
    }
}

/// The aggregate an initialization starts from: a buffer that does not
/// decode is tolerated and falls back to the default state.
pub open spec fn stored_or_default(data: Seq<u8>) -> ContractV {
    match stored_strict(data) {
        Some(c) => c,
        None => initial_contract(),
    }
}

/// The host-boundary result of an operation's outcome.
pub open spec fn host_result<T>(r: Result<T, ContractError>) -> Result<(), ProgramError> {
    match r {
        Ok(_) => Ok(()),
        Err(e) => Err(crate::state::spec_program_error(e)),
    }
}

/// The first account slot holds the re-encoded aggregate and keeps its
/// other fields; every other slot is untouched.
pub open spec fn persisted(pre: Seq<AccountInfo>, post: Seq<AccountInfo>, c: ContractV) -> bool {
    &&& pre.len() >= 1
    &&& post.len() == pre.len()
    &&& (forall|i: int| 1 <= i < pre.len() ==> post[i] == pre[i])
    &&& post[0].data@ == enc_contract(c)
    &&& post[0].key == pre[0].key
    &&& post[0].is_signer == pre[0].is_signer
    &&& post[0].is_writable == pre[0].is_writable
    &&& post[0].lamports == pre[0].lamports
    &&& post[0].owner == pre[0].owner
    &&& post[0].executable == pre[0].executable
    &&& post[0].rent_epoch == pre[0].rent_epoch
}

/// What dispatching `InitializePool` does to the account list.
pub open spec fn process_initialize_post(
    pre: Seq<AccountInfo>,
    post: Seq<AccountInfo>,
    pid: Seq<u8>,
    params: PoolParams,
    r: Result<(), ProgramError>,
) -> bool {
    if pre.len() < 2 {
        post == pre && r == Err::<(), ProgramError>(ProgramError::NotEnoughAccountKeys)
    } else if pre[0].owner@ != pid {
        post == pre && r == Err::<(), ProgramError>(ProgramError::IncorrectProgramId)
    } else {
        let step = spec_initialize(stored_or_default(pre[0].data@), params);
        if step.1 is Ok {
            if encodable(step.0) {
                persisted(pre, post, step.0) && r == Ok::<(), ProgramError>(())
            } else {
                post == pre && r == Err::<(), ProgramError>(ProgramError::Custom(19))
            }
        } else {
            post == pre && r == host_result(step.1)
        }
    }
}

/// What dispatching `Contribute` does at a given wall-clock snapshot. The
/// re-encoded aggregate is persisted even when the contribution itself is
/// rejected, so a deadline-driven phase advance is committed.
pub open spec fn process_contribute_post(
    pre: Seq<AccountInfo>,
    post: Seq<AccountInfo>,
    pid: Seq<u8>,
    amount: u64,
    now: i64,
    r: Result<(), ProgramError>,
) -> bool {
    if pre.len() < 3 {
        post == pre && r == Err::<(), ProgramError>(ProgramError::NotEnoughAccountKeys)
    } else if pre[0].owner@ != pid {
        post == pre && r == Err::<(), ProgramError>(ProgramError::IncorrectProgramId)
    } else {
        match stored_strict(pre[0].data@) {
            None => post == pre && r == Err::<(), ProgramError>(
                ProgramError::InvalidInstructionData,
            ),
            Some(c0) => {
                let step = spec_contribute(c0, pre[1].key@, amount, now);
                if encodable(step.0) {
                    persisted(pre, post, step.0) && r == host_result(step.1)
                } else {
                    post == pre && r == Err::<(), ProgramError>(ProgramError::Custom(19))
                }
            },
        }
    }
}

/// What dispatching `SubmitProposal` does at a given wall-clock snapshot;
/// a deadline-driven phase advance is committed even on rejection.
pub open spec fn process_submit_post(
    pre: Seq<AccountInfo>,
    post: Seq<AccountInfo>,
    pid: Seq<u8>,
    bitcoin_address: Seq<char>,
    description: Seq<char>,
    now: i64,
    r: Result<(), ProgramError>,
) -> bool {
    if pre.len() < 3 {
        post == pre && r == Err::<(), ProgramError>(ProgramError::NotEnoughAccountKeys)
    } else if pre[0].owner@ != pid {
        post == pre && r == Err::<(), ProgramError>(ProgramError::IncorrectProgramId)
    } else {
        match stored_strict(pre[0].data@) {
            None => post == pre && r == Err::<(), ProgramError>(
                ProgramError::InvalidInstructionData,
            ),
            Some(c0) => {
                let step = crate::state::spec_submit_proposal(
                    c0,
                    pre[1].key@,
                    bitcoin_address,
                    description,
                    now,
                );
                if encodable(step.0) {
                    persisted(pre, post, step.0) && r == host_result(step.1)
                } else {
                    post == pre && r == Err::<(), ProgramError>(ProgramError::Custom(19))
                }
            },
        }
    }
}

/// What dispatching `CastVote` does at a given wall-clock snapshot; a
/// deadline-driven phase advance is committed even on rejection.
pub open spec fn process_cast_vote_post(
    pre: Seq<AccountInfo>,
    post: Seq<AccountInfo>,
    pid: Seq<u8>,
    proposal_id: u64,
    now: i64,
    r: Result<(), ProgramError>,
) -> bool {
    if pre.len() < 3 {
        post == pre && r == Err::<(), ProgramError>(ProgramError::NotEnoughAccountKeys)
    } else if pre[0].owner@ != pid {
        post == pre && r == Err::<(), ProgramError>(ProgramError::IncorrectProgramId)
    } else {
        match stored_strict(pre[0].data@) {
            None => post == pre && r == Err::<(), ProgramError>(
                ProgramError::InvalidInstructionData,
            ),
            Some(c0) => {
                let step = spec_cast_vote(c0, pre[1].key@, proposal_id, now);
                if encodable(step.0) {
                    persisted(pre, post, step.0) && r == host_result(step.1)
                } else {
                    post == pre && r == Err::<(), ProgramError>(ProgramError::Custom(19))
                }
            },
        }
    }
}

/// What dispatching `ExecuteTransfer` does at a given wall-clock snapshot;
/// the aggregate is persisted only when the payout goes through.
pub open spec fn process_execute_post(
    pre: Seq<AccountInfo>,
    post: Seq<AccountInfo>,
    pid: Seq<u8>,
    now: i64,
    r: Result<(), ProgramError>,
) -> bool {
    if pre.len() < 1 {
        post == pre && r == Err::<(), ProgramError>(ProgramError::NotEnoughAccountKeys)
    } else if pre[0].owner@ != pid {
        post == pre && r == Err::<(), ProgramError>(ProgramError::IncorrectProgramId)
    } else {
        match stored_strict(pre[0].data@) {
            None => post == pre && r == Err::<(), ProgramError>(
                ProgramError::InvalidInstructionData,
            ),
            Some(c0) => {
                let step = spec_execute_transfer(c0, now, pre.len() as int);
                match step.1 {
                    Ok(u) => persisted(pre, post, step.0) && r == Ok::<(), ProgramError>(()),
                    Err(e) => post == pre && r == Err::<(), ProgramError>(
                        crate::state::spec_program_error(e),
                    ),
                }
            },
        }
    }
}

/// What dispatching `EmergencyWithdraw` does; the aggregate is persisted
/// only when the withdrawal goes through.
pub open spec fn process_withdraw_post(
    pre: Seq<AccountInfo>,
    post: Seq<AccountInfo>,
    pid: Seq<u8>,
    r: Result<(), ProgramError>,
) -> bool {
    if pre.len() < 3 {
        post == pre && r == Err::<(), ProgramError>(ProgramError::NotEnoughAccountKeys)
    } else if pre[0].owner@ != pid {
        post == pre && r == Err::<(), ProgramError>(ProgramError::IncorrectProgramId)
    } else {
        match stored_strict(pre[0].data@) {
            None => post == pre && r == Err::<(), ProgramError>(
                ProgramError::InvalidInstructionData,
            ),
            Some(c0) => {
                let step = spec_emergency_withdraw(c0, pre[1].key@);
                match step.1 {
                    Ok(u) => {
                        if encodable(step.0) {
                            persisted(pre, post, step.0) && r == Ok::<(), ProgramError>(())
                        } else {
                            post == pre && r == Err::<(), ProgramError>(ProgramError::Custom(19))
                        }
                    },
                    Err(e) => post == pre && r == Err::<(), ProgramError>(
                        crate::state::spec_program_error(e),
                    ),
                }
            },
        }
    }
}


/// Stores the re-encoded aggregate back into the first account slot
/// through the host's persistence sink.
fn persist_contract(accounts: &mut Vec<AccountInfo>, program_id: &Pubkey, contract: &Contract)
    requires
        old(accounts)@.len() >= 1,
        encodable(contract@),
    ensures
        persisted(old(accounts)@, final(accounts)@, contract@),
{
    let mut target = accounts.remove(0);
    let _ = add_state_transition(&mut target, program_id, contract);
    let ghost tg = target;
    accounts.insert(0, target);
    proof {
        assert(accounts@ == old(accounts)@.remove(0).insert(0, tg));
        assert forall|i: int| 1 <= i < old(accounts)@.len() implies accounts@[i] == old(
            accounts,
        )@[i] by {
            assert(old(accounts)@.remove(0)[i - 1] == old(accounts)@[i]);
        }
        assert(accounts@[0] == tg);
    }
}

/// Handles `InitializePool`: validates the slots and owner, loads the
/// stored aggregate (tolerating an unreadable buffer by starting fresh),
/// initializes the pool and persists the result.
pub fn process_initialize_pool(
    program_id: &Pubkey,
    accounts: &mut Vec<AccountInfo>,
    params: PoolParams,
) -> (r: Result<(), ProgramError>)
    ensures
        process_initialize_post(old(accounts)@, final(accounts)@, program_id@, params, r),
{
    if accounts.len() < 2 {
        return Err(ProgramError::NotEnoughAccountKeys);
    }
    if !(accounts[0].owner == *program_id) {
        return Err(ProgramError::IncorrectProgramId);
    }
    let mut contract = match Contract::try_from_slice(&accounts[0].data) {
        Ok(c) => c,
        Err(_) => Contract::default(),
    };
    match contract.initialize_pool(params) {
        Ok(u) => u,
        Err(e) => {
            return Err(ProgramError::from(e));
        },
    };
    if !contract.check_encodable() {
        return Err(ProgramError::Custom(19));
    }
    persist_contract(accounts, program_id, &contract);
    Ok(())
}

/// `Contribute` at an explicit wall-clock snapshot. The aggregate is
/// persisted even when the contribution is rejected, committing any
/// deadline-driven phase advance.
pub fn process_contribute_at(
    program_id: &Pubkey,
    accounts: &mut Vec<AccountInfo>,
    amount: u64,
    now: i64,
) -> (r: Result<(), ProgramError>)
    ensures
        process_contribute_post(old(accounts)@, final(accounts)@, program_id@, amount, now, r),
{
    if accounts.len() < 3 {
        return Err(ProgramError::NotEnoughAccountKeys);
    }
    if !(accounts[0].owner == *program_id) {
        return Err(ProgramError::IncorrectProgramId);
    }
    let mut contract = match Contract::try_from_slice(&accounts[0].data) {
        Ok(c) => c,
        Err(_) => {
            return Err(ProgramError::InvalidInstructionData);
        },
    };
    let contributor = accounts[1].key;
    let res = contract.contribute_at(contributor, amount, now);
    if !contract.check_encodable() {
        return Err(ProgramError::Custom(19));
    }
    persist_contract(accounts, program_id, &contract);
    match res {
        Ok(u) => Ok(u),
        Err(e) => Err(ProgramError::from(e)),
    }
}

/// Handles `Contribute` at the current wall-clock time.
pub fn process_contribute(
    program_id: &Pubkey,
    accounts: &mut Vec<AccountInfo>,
    amount: u64,
) -> (r: Result<(), ProgramError>)
    ensures
        exists|now: i64|
            #![auto]
            process_contribute_post(
                old(accounts)@,
                final(accounts)@,
                program_id@,
                amount,
                now,
                r,
            ),
{
    let now = crate::state::now_timestamp();
    process_contribute_at(program_id, accounts, amount, now)
}

/// `SubmitProposal` at an explicit wall-clock snapshot; any
/// deadline-driven phase advance is committed even on rejection.
pub fn process_submit_proposal_at(
    program_id: &Pubkey,
    accounts: &mut Vec<AccountInfo>,
    bitcoin_address: String,
    description: String,
    now: i64,
) -> (r: Result<(), ProgramError>)
    ensures
        process_submit_post(
            old(accounts)@,
            final(accounts)@,
            program_id@,
            bitcoin_address@,
            description@,
            now,
            r,
        ),
{
    if accounts.len() < 3 {
        return Err(ProgramError::NotEnoughAccountKeys);
    }
    if !(accounts[0].owner == *program_id) {
        return Err(ProgramError::IncorrectProgramId);
    }
    let mut contract = match Contract::try_from_slice(&accounts[0].data) {
        Ok(c) => c,
        Err(_) => {
            return Err(ProgramError::InvalidInstructionData);
        },
    };
    let proposer = accounts[1].key;
    let res = contract.submit_proposal_at(proposer, bitcoin_address, description, now);
    if !contract.check_encodable() {
        return Err(ProgramError::Custom(19));
    }
    persist_contract(accounts, program_id, &contract);
    match res {
        Ok(_) => Ok(()),
        Err(e) => Err(ProgramError::from(e)),
    }
}

/// Handles `SubmitProposal` at the current wall-clock time.
pub fn process_submit_proposal(
    program_id: &Pubkey,
    accounts: &mut Vec<AccountInfo>,
    bitcoin_address: String,
    description: String,
) -> (r: Result<(), ProgramError>)
    ensures
        exists|now: i64|
            #![auto]
            process_submit_post(
                old(accounts)@,
                final(accounts)@,
                program_id@,
                bitcoin_address@,
                description@,
                now,
                r,
            ),
{
    let now = crate::state::now_timestamp();
    process_submit_proposal_at(program_id, accounts, bitcoin_address, description, now)
}

/// `CastVote` at an explicit wall-clock snapshot; any deadline-driven
/// phase advance is committed even on rejection.
pub fn process_cast_vote_at(
    program_id: &Pubkey,
    accounts: &mut Vec<AccountInfo>,
    proposal_id: u64,
    now: i64,
) -> (r: Result<(), ProgramError>)
    ensures
        process_cast_vote_post(
            old(accounts)@,
            final(accounts)@,
            program_id@,
            proposal_id,
            now,
            r,
        ),
{
    if accounts.len() < 3 {
        return Err(ProgramError::NotEnoughAccountKeys);
    }
    if !(accounts[0].owner == *program_id) {
        return Err(ProgramError::IncorrectProgramId);
    }
    let mut contract = match Contract::try_from_slice(&accounts[0].data) {
        Ok(c) => c,
        Err(_) => {
            return Err(ProgramError::InvalidInstructionData);
        },
    };
    let voter = accounts[1].key;
    let res = contract.cast_vote_at(voter, proposal_id, now);
    if !contract.check_encodable() {
        return Err(ProgramError::Custom(19));
    }
    persist_contract(accounts, program_id, &contract);
    match res {
        Ok(u) => Ok(u),
        Err(e) => Err(ProgramError::from(e)),
    }
}

/// Handles `CastVote` at the current wall-clock time.
pub fn process_cast_vote(
    program_id: &Pubkey,
    accounts: &mut Vec<AccountInfo>,
    proposal_id: u64,
) -> (r: Result<(), ProgramError>)
    ensures
        exists|now: i64|
            #![auto]
            process_cast_vote_post(
                old(accounts)@,
                final(accounts)@,
                program_id@,
                proposal_id,
                now,
                r,
            ),
{
    let now = crate::state::now_timestamp();
    process_cast_vote_at(program_id, accounts, proposal_id, now)
}

/// `ExecuteTransfer` at an explicit wall-clock snapshot; the operation
/// itself persists the completed aggregate when the payout goes through.
pub fn process_execute_transfer_at(
    program_id: &Pubkey,
    accounts: &mut Vec<AccountInfo>,
    now: i64,
) -> (r: Result<(), ProgramError>)
    ensures
        process_execute_post(old(accounts)@, final(accounts)@, program_id@, now, r),
{
    if accounts.len() < 1 {
        return Err(ProgramError::NotEnoughAccountKeys);
    }
    if !(accounts[0].owner == *program_id) {
        return Err(ProgramError::IncorrectProgramId);
    }
    let mut contract = match Contract::try_from_slice(&accounts[0].data) {
        Ok(c) => c,
        Err(_) => {
            return Err(ProgramError::InvalidInstructionData);
        },
    };
    match contract.execute_transfer_at(program_id, accounts, now) {
        Ok(u) => Ok(u),
        Err(e) => Err(ProgramError::from(e)),
    }
}

/// Handles `ExecuteTransfer` at the current wall-clock time.
pub fn process_execute_transfer(program_id: &Pubkey, accounts: &mut Vec<AccountInfo>) -> (r:
    Result<(), ProgramError>)
    ensures
        exists|now: i64|
            #![auto]
            process_execute_post(old(accounts)@, final(accounts)@, program_id@, now, r),
{
    let now = crate::state::now_timestamp();
    process_execute_transfer_at(program_id, accounts, now)
}

/// Handles `EmergencyWithdraw`: pays a contributor back their whole
/// pledge while the contribution phase lasts, and persists the result.
pub fn process_emergency_withdraw(program_id: &Pubkey, accounts: &mut Vec<AccountInfo>) -> (r:
    Result<(), ProgramError>)
    ensures
        process_withdraw_post(old(accounts)@, final(accounts)@, program_id@, r),
{
    if accounts.len() < 3 {
        return Err(ProgramError::NotEnoughAccountKeys);
    }
    if !(accounts[0].owner == *program_id) {
        return Err(ProgramError::IncorrectProgramId);
    }
    let mut contract = match Contract::try_from_slice(&accounts[0].data) {
        Ok(c) => c,
        Err(_) => {
            return Err(ProgramError::InvalidInstructionData);
        },
    };
    let contributor = accounts[1].key;
    match contract.emergency_withdraw(contributor) {
        Ok(_) => {},
        Err(e) => {
            return Err(ProgramError::from(e));
        },
    };
    if !contract.check_encodable() {
        return Err(ProgramError::Custom(19));
    }
    persist_contract(accounts, program_id, &contract);
    Ok(())
}

/// The instruction a buffer holds, when the whole buffer decodes.
pub open spec fn parsed_instruction(data: Seq<u8>) -> Option<InstructionV> {
    match dec_instruction(data, 0) {
        Ok(sv) => {
            if sv.1 == data.len() {
                Some(sv.0)
            } else {
                None
            }
        },
        Err(_) => None,
    }
}

/// What one dispatched invocation does at a given wall-clock snapshot,
/// for whatever the instruction bytes hold.
pub open spec fn instruction_outcome(
    data: Seq<u8>,
    pre: Seq<AccountInfo>,
    post: Seq<AccountInfo>,
    pid: Seq<u8>,
    now: i64,
    r: Result<(), ProgramError>,
) -> bool {
    match parsed_instruction(data) {
        None => post == pre && r == Err::<(), ProgramError>(ProgramError::InvalidInstructionData),
        Some(InstructionV::InitializePool { params }) => process_initialize_post(
            pre,
            post,
            pid,
            params,
            r,
        ),
        Some(InstructionV::Contribute { amount }) => process_contribute_post(
            pre,
            post,
            pid,
            amount,
            now,
            r,
        ),
        Some(InstructionV::SubmitProposal { bitcoin_address, description }) => process_submit_post(
            pre,
            post,
            pid,
            bitcoin_address,
            description,
            now,
            r,
        ),
        Some(InstructionV::CastVote { proposal_id }) => process_cast_vote_post(
            pre,
            post,
            pid,
            proposal_id,
            now,
            r,
        ),
        Some(InstructionV::ExecuteTransfer) => process_execute_post(pre, post, pid, now, r),
        Some(InstructionV::EmergencyWithdraw) => process_withdraw_post(pre, post, pid, r),
    }
}

/// The dispatcher: decodes one instruction, loads the persisted state,
/// invokes the matching operation at a single wall-clock snapshot, and
/// persists the result.
pub fn process_instruction(
    program_id: &Pubkey,
    accounts: &mut Vec<AccountInfo>,
    instruction_data: &Vec<u8>,
) -> (r: Result<(), ProgramError>)
    ensures
        exists|now: i64|
            #![auto]
            instruction_outcome(
                instruction_data@,
                old(accounts)@,
                final(accounts)@,
                program_id@,
                now,
                r,
            ),
{
    let now = crate::state::now_timestamp();
    let ghost pre = old(accounts)@;
    let instruction = match ContractInstruction::try_from_slice(instruction_data) {
        Ok(i) => i,
        Err(_) => {
            proof {
                assert(instruction_outcome(
                    instruction_data@,
                    pre,
                    accounts@,
                    program_id@,
                    now,
                    Err::<(), ProgramError>(ProgramError::InvalidInstructionData),
                ));
            }
            return Err(ProgramError::InvalidInstructionData);
        },
    };
    let ghost iv = instruction@;
    proof {
        assert(parsed_instruction(instruction_data@) == Some(iv));
    }
    match instruction {
        ContractInstruction::InitializePool { params } => {
            let r = process_initialize_pool(program_id, accounts, params);
            proof {
                assert(iv == InstructionV::InitializePool { params });
                assert(instruction_outcome(
                    instruction_data@,
                    pre,
                    accounts@,
                    program_id@,
                    now,
                    r,
                ));
            }
            r
        },
        ContractInstruction::Contribute { amount } => {
            let r = process_contribute_at(program_id, accounts, amount, now);
            proof {
                assert(iv == InstructionV::Contribute { amount });
                assert(instruction_outcome(
                    instruction_data@,
                    pre,
                    accounts@,
                    program_id@,
                    now,
                    r,
                ));
            }
            r
        },
        ContractInstruction::SubmitProposal { bitcoin_address, description } => {
            let ghost ba = bitcoin_address@;
            let ghost de = description@;
            let r = process_submit_proposal_at(
                program_id,
                accounts,
                bitcoin_address,
                description,
                now,
            );
            proof {
                assert(iv == InstructionV::SubmitProposal {
                    bitcoin_address: ba,
                    description: de,
                });
                assert(instruction_outcome(
                    instruction_data@,
                    pre,
                    accounts@,
                    program_id@,
                    now,
                    r,
                ));
            }
            r
        },
        ContractInstruction::CastVote { proposal_id } => {
            let r = process_cast_vote_at(program_id, accounts, proposal_id, now);
            proof {
                assert(iv == InstructionV::CastVote { proposal_id });
                assert(instruction_outcome(
                    instruction_data@,
                    pre,
                    accounts@,
                    program_id@,
                    now,
                    r,
                ));
            }
            r
        },
        ContractInstruction::ExecuteTransfer => {
            let r = process_execute_transfer_at(program_id, accounts, now);
            proof {
                assert(iv == InstructionV::ExecuteTransfer);
                assert(instruction_outcome(
                    instruction_data@,
                    pre,
                    accounts@,
                    program_id@,
                    now,
                    r,
                ));
            }
            r
        },
        ContractInstruction::EmergencyWithdraw => {
            let r = process_emergency_withdraw(program_id, accounts);
            proof {
                assert(iv == InstructionV::EmergencyWithdraw);
                assert(instruction_outcome(
                    instruction_data@,
                    pre,
                    accounts@,
                    program_id@,
                    now,
                    r,
                ));
            }
            r
        },
    }
}

} // verus!
