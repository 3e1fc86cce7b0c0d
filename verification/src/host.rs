//! The host execution environment's account model and payment-network
//! collaborators, as the pool consumes them: identities, account slots,
//! and the transaction-submission surface.

use vstd::prelude::*;

verus! {

/// A fixed-size 32-byte opaque identity: a contributor, voter, proposer,
/// program or account key.
#[derive(Clone, Copy, Debug)]
pub struct Pubkey(pub [u8; 32]);

impl View for Pubkey {
    type V = Seq<u8>;

    open spec fn view(&self) -> Seq<u8> {
        self.0@
    }
}

impl PartialEq for Pubkey {
    fn eq(&self, other: &Pubkey) -> (r: bool)
        ensures
            r == (self@ == other@),
    {
        let mut i: usize = 0;
        while i < 32
            invariant
                i <= 32,
                forall|j: int| 0 <= j < i ==> self.0@[j] == other.0@[j],
            decreases 32 - i,
        {
            if self.0[i] != other.0[i] {
                assert(self@ != other@);
                return false;
            }
            i += 1;
        }
        proof {
            assert(self@ =~= other@);
        }
        true
    }
}

impl vstd::std_specs::cmp::PartialEqSpecImpl for Pubkey {
    open spec fn obeys_eq_spec() -> bool {
        true
    }

    open spec fn eq_spec(&self, other: &Pubkey) -> bool {
        self@ == other@
    }
}

impl Pubkey {
    /// A fresh identity drawn from an explicit counter: the first byte is
    /// the counter's current value, the rest are zero, and the counter
    /// advances (wrapping after 255).
    pub fn new_unique(counter: &mut u8) -> (r: Pubkey)
        ensures
            r@ == Seq::new(32, |i: int| 0u8).update(0, *old(counter)),
            *final(counter) == if *old(counter) == 255 { 0u8 } else { (*old(counter) + 1) as u8 },
    {
        let mut key = [0u8; 32];
        let ghost zeros = key@;
        key[0] = *counter;
        if *counter == 255 {
            *counter = 0;
        } else {
            *counter = *counter + 1;
        }
        let r = Pubkey(key);
        proof {
            assert(zeros =~= Seq::new(32, |i: int| 0u8));
        }
        r
    }
}

/// One account slot handed in by the host: the identity it stands for, its
/// owner, its balance, and its persisted byte buffer.
#[derive(Debug)]
pub struct AccountInfo {
    pub key: Pubkey,
    pub is_signer: bool,
    pub is_writable: bool,
    pub lamports: u64,
    pub data: Vec<u8>,
    pub owner: Pubkey,
    pub executable: bool,
    pub rent_epoch: u64,
}

/// Errors surfaced by the host environment at the program boundary.
#[derive(Clone, Copy, Debug, PartialEq, Eq, Structural)]
pub enum ProgramError {
    Custom(u32),
    InvalidInstructionData,
    IncorrectProgramId,
    NotEnoughAccountKeys,
}

/// An absolute lock time for a payment-network transaction, as a block
/// height.
#[derive(Clone, Copy, Debug)]
pub struct LockTime(pub u32);

#[derive(Clone, Copy, Debug)]
pub enum LockTimeError {
    InvalidLockTime,
}

impl LockTime {
    /// Interprets a block height as an absolute lock time; every height is
    /// accepted.
    pub fn from_height(height: u32) -> (r: Result<LockTime, LockTimeError>)
        ensures
            r matches Ok(t) && t.0 == height,
    {
        Ok(LockTime(height))
    }
}

/// A payment-network transaction version tag.
#[derive(Clone, Copy, Debug)]
pub enum Version {
    One,
    Two,
}

/// The skeleton of an unsigned payout transaction handed to the host for
/// signing and submission.
#[derive(Clone, Copy, Debug)]
pub struct Transaction {
    pub version: Version,
    pub lock_time: LockTime,
}

/// One transaction input that the host must sign.
#[derive(Clone, Copy, Debug)]
pub struct InputToSign {
    pub index: u32,
    pub signer: Pubkey,
}

/// A fully constructed transaction plus the inputs awaiting signatures.
#[derive(Debug)]
pub struct TransactionToSign {
    pub transaction: Transaction,
    pub inputs_to_sign: Vec<InputToSign>,
}

/// Yields the next unread account slot from the ordered list, advancing the
/// cursor; fails with `NotEnoughAccountKeys` once the list is exhausted.
pub fn next_account_info(accounts: &Vec<AccountInfo>, cursor: &mut usize) -> (r: Result<
    usize,
    ProgramError,
>)
    ensures
        *old(cursor) < accounts.len() ==> r == Ok::<usize, ProgramError>(*old(cursor))
            && *final(cursor) == *old(cursor) + 1,
        *old(cursor) >= accounts.len() ==> r == Err::<usize, ProgramError>(
            ProgramError::NotEnoughAccountKeys,
        ) && *final(cursor) == *old(cursor),
{
    if *cursor < accounts.len() {
        let slot = *cursor;
        *cursor = *cursor + 1;
        Ok(slot)
    } else {
        Err(ProgramError::NotEnoughAccountKeys)
    }
}

/// Resolves a human-readable payout address to a network-native script; the
/// development host answers every address with a 32-byte zero script.
pub fn get_account_script_pubkey(address: &str) -> (r: Result<Vec<u8>, ProgramError>)
    ensures
        r matches Ok(s) && s@ == Seq::new(32, |i: int| 0u8),
{
    let script: Vec<u8> = vec![0u8; 32];
    proof {
        assert(script@ =~= Seq::new(32, |i: int| 0u8));
    }
    Ok(script)
}

/// The development host's payment-network block-height oracle; it reports a
/// fixed height.
pub fn get_bitcoin_block_height() -> (r: Result<u32, ProgramError>)
    ensures
        r == Ok::<u32, ProgramError>(100000u32),
{
    Ok(100000)
}

/// Accepts a fully constructed, unsigned payout transaction for signing and
/// submission; the development host accepts every transaction.
pub fn set_transaction_to_sign(transaction: TransactionToSign) -> (r: Result<(), ProgramError>)
    ensures
        r == Ok::<(), ProgramError>(()),
{
    let _ = transaction;
    Ok(())
}

/// The persistence sink: durably stores the re-encoded aggregate in the
/// account's byte buffer, attributing the write to the invoking program.
/// Only the buffer changes.
pub fn add_state_transition(
    account: &mut AccountInfo,
    program_id: &Pubkey,
    contract: &crate::state::Contract,
) -> (r: Result<(), ProgramError>)
    requires
        crate::state::encodable(contract@),
    ensures
        r == Ok::<(), ProgramError>(()),
        final(account).data@ == crate::codec::enc_contract(contract@),
        final(account).key == old(account).key,
        final(account).is_signer == old(account).is_signer,
        final(account).is_writable == old(account).is_writable,
        final(account).lamports == old(account).lamports,
        final(account).owner == old(account).owner,
        final(account).executable == old(account).executable,
        final(account).rent_epoch == old(account).rent_epoch,
{
    let _ = program_id;
    let mut data: Vec<u8> = Vec::new();
    contract.serialize(&mut data);
    proof {
        assert(data@ =~= crate::codec::enc_contract(contract@));
    }
    account.data = data;
    Ok(())
}

} // verus!
