//! A Bitcoin-collateralized crowdfunding pool, verified with Verus.
//!
//! Contributors pledge funds, qualified contributors propose a payout
//! address and vote, and once quorum is reached the pool deterministically
//! selects a single winning proposal and hands a payout transaction to the
//! host environment. The crate has two layers: a canonical binary encoding
//! for every persisted entity, and the pool's phase-based state machine.

pub mod codec;
pub mod host;
pub mod instruction;
pub mod laws;
pub mod maps;
pub mod state;

pub use codec::DecodeError;
pub use host::{
    add_state_transition, get_account_script_pubkey, get_bitcoin_block_height, next_account_info,
    set_transaction_to_sign, AccountInfo, InputToSign, LockTime, LockTimeError, ProgramError,
    Pubkey, Transaction, TransactionToSign, Version,
};
pub use instruction::{
    process_cast_vote, process_contribute, process_emergency_withdraw, process_execute_transfer,
    process_initialize_pool, process_instruction, process_submit_proposal, ContractInstruction,
};
pub use maps::{ProposalMap, PubkeyMap};
pub use state::{
    is_valid_bitcoin_address, Contract, ContractError, PoolInfo, PoolParams, PoolState, Proposal,
};
