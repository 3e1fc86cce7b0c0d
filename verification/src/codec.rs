//! The canonical binary encoding of every persisted entity.
//!
//! Fixed-width integers are little-endian; strings carry a 4-byte length
//! prefix followed by their UTF-8 bytes; optional values carry a 1-byte
//! presence tag; key/value collections carry a 4-byte count followed by
//! their pairs in the stable iteration order; phase tags are a 1-byte
//! ordinal; identities are 32 raw bytes. Decoding walks the fields in
//! declaration order and surfaces the first error, with no partial result.

use crate::host::Pubkey;
use crate::maps::{lemma_map_upsert_absent, map_upsert, unique_keys, PubkeyMap, ProposalMap};
use crate::state::{
    encodable, string_encodable, well_formed, Contract, ContractV, PoolParams, PoolState,
    Proposal, ProposalV,
};
use vstd::bytes::{
    lemma_auto_spec_u32_to_from_le_bytes, lemma_auto_spec_u64_to_from_le_bytes,
    spec_u32_from_le_bytes, spec_u32_to_le_bytes, spec_u64_from_le_bytes, spec_u64_to_le_bytes,
    u32_from_le_bytes, u32_to_le_bytes, u64_from_le_bytes, u64_to_le_bytes,
};
use vstd::prelude::*;
use vstd::seq_lib::lemma_concat_associative;
use vstd::slice::{slice_subrange, slice_to_vec};
use vstd::string::StrSliceExecFns;
use vstd::utf8::{
    decode_utf8, encode_utf8, encode_utf8_decode_utf8, encode_utf8_valid_utf8, valid_utf8,
};

verus! {

/// Why a decode failed: the input ended before a declared field, or a
/// discriminant byte held an unknown value.
#[derive(Clone, Copy, Debug, PartialEq, Eq, Structural)]
pub enum DecodeError {
    TruncatedInput,
    InvalidTag,
}

// ---------------------------------------------------------------------
// The encoding, as mathematics: one function per entity produces the
// exact byte sequence, one consumes it from a position.
// ---------------------------------------------------------------------

pub open spec fn enc_u8(v: u8) -> Seq<u8> {
    seq![v]
}

pub open spec fn enc_u32(v: u32) -> Seq<u8> {
    spec_u32_to_le_bytes(v)
}

pub open spec fn enc_u64(v: u64) -> Seq<u8> {
    spec_u64_to_le_bytes(v)
}

pub open spec fn enc_i64(v: i64) -> Seq<u8> {
    spec_u64_to_le_bytes(v as u64)
}

pub open spec fn enc_bool(v: bool) -> Seq<u8> {
    seq![if v { 1u8 } else { 0u8 }]
}

/// An identity is its 32 raw bytes.
pub open spec fn enc_pubkey(k: Seq<u8>) -> Seq<u8> {
    k
}

/// A string is a 4-byte length prefix followed by its UTF-8 bytes.
pub open spec fn enc_string(s: Seq<char>) -> Seq<u8> {
    enc_u32(encode_utf8(s).len() as u32) + encode_utf8(s)
}

/// A phase tag is its ordinal position among the five named states.
pub open spec fn enc_state(s: PoolState) -> Seq<u8> {
    match s {
        PoolState::Uninitialized => seq![0u8],
        PoolState::ContributionPhase => seq![1u8],
        PoolState::VotingPhase => seq![2u8],
        PoolState::ExecutionPhase => seq![3u8],
        PoolState::Completed => seq![4u8],
    }
}

pub open spec fn dec_u8(s: Seq<u8>, i: int) -> Result<(u8, int), DecodeError> {
    if 0 <= i && i + 1 <= s.len() {
        Ok((s[i], i + 1))
    } else {
        Err(DecodeError::TruncatedInput)
    }
}

pub open spec fn dec_u32(s: Seq<u8>, i: int) -> Result<(u32, int), DecodeError> {
    if 0 <= i && i + 4 <= s.len() {
        Ok((spec_u32_from_le_bytes(s.subrange(i, i + 4)), i + 4))
    } else {
        Err(DecodeError::TruncatedInput)
    }
}

pub open spec fn dec_u64(s: Seq<u8>, i: int) -> Result<(u64, int), DecodeError> {
    if 0 <= i && i + 8 <= s.len() {
        Ok((spec_u64_from_le_bytes(s.subrange(i, i + 8)), i + 8))
    } else {
        Err(DecodeError::TruncatedInput)
    }
}

pub open spec fn dec_i64(s: Seq<u8>, i: int) -> Result<(i64, int), DecodeError> {
    match dec_u64(s, i) {
        Ok((v, j)) => Ok((v as i64, j)),
        Err(e) => Err(e),
    }
}

pub open spec fn dec_bool(s: Seq<u8>, i: int) -> Result<(bool, int), DecodeError> {
    match dec_u8(s, i) {
        Ok((t, j)) => {
            if t == 0 {
                Ok((false, j))
            } else if t == 1 {
                Ok((true, j))
            } else {
                Err(DecodeError::InvalidTag)
            }
        },
        Err(e) => Err(e),
    }
}

pub open spec fn dec_pubkey(s: Seq<u8>, i: int) -> Result<(Seq<u8>, int), DecodeError> {
    if 0 <= i && i + 32 <= s.len() {
        Ok((s.subrange(i, i + 32), i + 32))
    } else {
        Err(DecodeError::TruncatedInput)
    }
}

pub open spec fn dec_string(s: Seq<u8>, i: int) -> Result<(Seq<char>, int), DecodeError> {
    match dec_u32(s, i) {
        Ok((n, j)) => {
            if j + n <= s.len() {
                let bytes = s.subrange(j, j + n);
                if valid_utf8(bytes) {
                    Ok((decode_utf8(bytes), j + n))
                } else {
                    Err(DecodeError::InvalidTag)
                }
            } else {
                Err(DecodeError::TruncatedInput)
            }
        },
        Err(e) => Err(e),
    }
}

pub open spec fn dec_state(s: Seq<u8>, i: int) -> Result<(PoolState, int), DecodeError> {
    match dec_u8(s, i) {
        Ok((t, j)) => {
            if t == 0 {
                Ok((PoolState::Uninitialized, j))
            } else if t == 1 {
                Ok((PoolState::ContributionPhase, j))
            } else if t == 2 {
                Ok((PoolState::VotingPhase, j))
            } else if t == 3 {
                Ok((PoolState::ExecutionPhase, j))
            } else if t == 4 {
                Ok((PoolState::Completed, j))
            } else {
                Err(DecodeError::InvalidTag)
            }
        },
        Err(e) => Err(e),
    }
}

pub open spec fn enc_params(p: PoolParams) -> Seq<u8> {
    enc_u64(p.min_contribution) + enc_u64(p.max_contribution) + enc_i64(p.contribution_deadline)
        + enc_i64(p.voting_deadline) + enc_u64(p.proposal_threshold) + enc_u64(p.voting_threshold)
        + enc_u8(p.quorum_percentage)
}

/// An optional value is a 1-byte presence tag, then the payload if present.
pub open spec fn enc_opt_params(o: Option<PoolParams>) -> Seq<u8> {
    match o {
        None => seq![0u8],
        Some(p) => seq![1u8] + enc_params(p),
    }
}

pub open spec fn enc_opt_u64(o: Option<u64>) -> Seq<u8> {
    match o {
        None => seq![0u8],
        Some(v) => seq![1u8] + enc_u64(v),
    }
}

pub open spec fn enc_proposal(p: ProposalV) -> Seq<u8> {
    enc_u64(p.id) + enc_pubkey(p.proposer) + enc_string(p.bitcoin_address) + enc_string(
        p.description,
    ) + enc_u64(p.votes)
}

/// The pledge pairs in the stable iteration order.
pub open spec fn enc_pk_entries(es: Seq<(Seq<u8>, u64)>) -> Seq<u8>
    decreases es.len(),
{
    if es.len() == 0 {
        Seq::empty()
    } else {
        enc_pubkey(es[0].0) + enc_u64(es[0].1) + enc_pk_entries(es.drop_first())
    }
}

/// A pledge collection is a 4-byte count, then its pairs.
pub open spec fn enc_pk_map(es: Seq<(Seq<u8>, u64)>) -> Seq<u8> {
    enc_u32(es.len() as u32) + enc_pk_entries(es)
}

pub open spec fn enc_prop_entries(es: Seq<(u64, ProposalV)>) -> Seq<u8>
    decreases es.len(),
{
    if es.len() == 0 {
        Seq::empty()
    } else {
        enc_u64(es[0].0) + enc_proposal(es[0].1) + enc_prop_entries(es.drop_first())
    }
}

/// The proposal registry is a 4-byte count, then its pairs.
pub open spec fn enc_prop_map(es: Seq<(u64, ProposalV)>) -> Seq<u8> {
    enc_u32(es.len() as u32) + enc_prop_entries(es)
}

/// The aggregate root, field by field in declaration order.
pub open spec fn enc_contract(c: ContractV) -> Seq<u8> {
    enc_state(c.state) + enc_opt_params(c.params) + enc_u64(c.total_balance) + enc_pk_map(
        c.contributions,
    ) + enc_prop_map(c.proposals) + enc_pk_map(c.votes) + enc_u64(c.next_proposal_id) + enc_opt_u64(
        c.winning_proposal,
    ) + enc_bool(c.transfer_executed)
}

pub open spec fn dec_params(s: Seq<u8>, i: int) -> Result<(PoolParams, int), DecodeError> {
    match dec_u64(s, i) {
        Err(e) => Err(e),
        Ok((min_contribution, i1)) => match dec_u64(s, i1) {
            Err(e) => Err(e),
            Ok((max_contribution, i2)) => match dec_i64(s, i2) {
                Err(e) => Err(e),
                Ok((contribution_deadline, i3)) => match dec_i64(s, i3) {
                    Err(e) => Err(e),
                    Ok((voting_deadline, i4)) => match dec_u64(s, i4) {
                        Err(e) => Err(e),
                        Ok((proposal_threshold, i5)) => match dec_u64(s, i5) {
                            Err(e) => Err(e),
                            Ok((voting_threshold, i6)) => match dec_u8(s, i6) {
                                Err(e) => Err(e),
                                Ok((quorum_percentage, i7)) => Ok(
                                    (
                                        PoolParams {
                                            min_contribution,
                                            max_contribution,
                                            contribution_deadline,
                                            voting_deadline,
                                            proposal_threshold,
                                            voting_threshold,
                                            quorum_percentage,
                                        },
                                        i7,
                                    ),
                                ),
                            },
                        },
                    },
                },
            },
        },
    }
}

pub open spec fn dec_opt_params(s: Seq<u8>, i: int) -> Result<
    (Option<PoolParams>, int),
    DecodeError,
> {
    match dec_u8(s, i) {
        Err(e) => Err(e),
        Ok((tag, j)) => {
            if tag == 0 {
                Ok((None, j))
            } else if tag == 1 {
                match dec_params(s, j) {
                    Err(e) => Err(e),
                    Ok((p, j2)) => Ok((Some(p), j2)),
                }
            } else {
                Err(DecodeError::InvalidTag)
            }
        },
    }
}

pub open spec fn dec_opt_u64(s: Seq<u8>, i: int) -> Result<(Option<u64>, int), DecodeError> {
    match dec_u8(s, i) {
        Err(e) => Err(e),
        Ok((tag, j)) => {
            if tag == 0 {
                Ok((None, j))
            } else if tag == 1 {
                match dec_u64(s, j) {
                    Err(e) => Err(e),
                    Ok((v, j2)) => Ok((Some(v), j2)),
                }
            } else {
                Err(DecodeError::InvalidTag)
            }
        },
    }
}

pub open spec fn dec_proposal(s: Seq<u8>, i: int) -> Result<(ProposalV, int), DecodeError> {
    match dec_u64(s, i) {
        Err(e) => Err(e),
        Ok((id, i1)) => match dec_pubkey(s, i1) {
            Err(e) => Err(e),
            Ok((proposer, i2)) => match dec_string(s, i2) {
                Err(e) => Err(e),
                Ok((bitcoin_address, i3)) => match dec_string(s, i3) {
                    Err(e) => Err(e),
                    Ok((description, i4)) => match dec_u64(s, i4) {
                        Err(e) => Err(e),
                        Ok((votes, i5)) => Ok(
                            (
                                ProposalV { id, proposer, bitcoin_address, description, votes },
                                i5,
                            ),
                        ),
                    },
                },
            },
        },
    }
}

/// Reads `n` pledge pairs, folding each into the collection built so far;
/// a repeated key overwrites the value already read.
pub open spec fn dec_pk_entries(s: Seq<u8>, i: int, n: nat, acc: Seq<(Seq<u8>, u64)>) -> Result<
    (Seq<(Seq<u8>, u64)>, int),
    DecodeError,
>
    decreases n,
{
    if n == 0 {
        Ok((acc, i))
    } else {
        match dec_pubkey(s, i) {
            Err(e) => Err(e),
            Ok((k, j)) => match dec_u64(s, j) {
                Err(e) => Err(e),
                Ok((v, j2)) => dec_pk_entries(s, j2, (n - 1) as nat, map_upsert(acc, k, v)),
            },
        }
    }
}

pub open spec fn dec_pk_map(s: Seq<u8>, i: int) -> Result<(Seq<(Seq<u8>, u64)>, int), DecodeError> {
    match dec_u32(s, i) {
        Err(e) => Err(e),
        Ok((n, j)) => dec_pk_entries(s, j, n as nat, Seq::empty()),
    }
}

pub open spec fn dec_prop_entries(s: Seq<u8>, i: int, n: nat, acc: Seq<(u64, ProposalV)>) -> Result<
    (Seq<(u64, ProposalV)>, int),
    DecodeError,
>
    decreases n,
{
    if n == 0 {
        Ok((acc, i))
    } else {
        match dec_u64(s, i) {
            Err(e) => Err(e),
            Ok((k, j)) => match dec_proposal(s, j) {
                Err(e) => Err(e),
                Ok((p, j2)) => dec_prop_entries(s, j2, (n - 1) as nat, map_upsert(acc, k, p)),
            },
        }
    }
}

pub open spec fn dec_prop_map(s: Seq<u8>, i: int) -> Result<
    (Seq<(u64, ProposalV)>, int),
    DecodeError,
> {
    match dec_u32(s, i) {
        Err(e) => Err(e),
        Ok((n, j)) => dec_prop_entries(s, j, n as nat, Seq::empty()),
    }
}

pub open spec fn dec_contract(s: Seq<u8>, i: int) -> Result<(ContractV, int), DecodeError> {
    match dec_state(s, i) {
        Err(e) => Err(e),
        Ok((state, i1)) => match dec_opt_params(s, i1) {
            Err(e) => Err(e),
            Ok((params, i2)) => match dec_u64(s, i2) {
                Err(e) => Err(e),
                Ok((total_balance, i3)) => match dec_pk_map(s, i3) {
                    Err(e) => Err(e),
                    Ok((contributions, i4)) => match dec_prop_map(s, i4) {
                        Err(e) => Err(e),
                        Ok((proposals, i5)) => match dec_pk_map(s, i5) {
                            Err(e) => Err(e),
                            Ok((votes, i6)) => match dec_u64(s, i6) {
                                Err(e) => Err(e),
                                Ok((next_proposal_id, i7)) => match dec_opt_u64(s, i7) {
                                    Err(e) => Err(e),
                                    Ok((winning_proposal, i8)) => match dec_bool(s, i8) {
                                        Err(e) => Err(e),
                                        Ok((transfer_executed, i9)) => Ok(
                                            (
                                                ContractV {
                                                    state,
                                                    params,
                                                    total_balance,
                                                    contributions,
                                                    proposals,
                                                    votes,
                                                    next_proposal_id,
                                                    winning_proposal,
                                                    transfer_executed,
                                                },
                                                i9,
                                            ),
                                        ),
                                    },
                                },
                            },
                        },
                    },
                },
            },
        },
    }
}

// ---------------------------------------------------------------------
// Round trips for the base entities: decoding an encoding embedded at any
// position yields the encoded value and stops right behind it.
// ---------------------------------------------------------------------

pub proof fn lemma_dec_enc_u8(v: u8, pre: Seq<u8>, post: Seq<u8>)
    ensures
        dec_u8(pre + enc_u8(v) + post, pre.len() as int) == Ok::<(u8, int), DecodeError>(
            (v, pre.len() as int + 1),
        ),
{
    let s = pre + enc_u8(v) + post;
    assert(s[pre.len() as int] == v);
}

pub proof fn lemma_dec_enc_u32(v: u32, pre: Seq<u8>, post: Seq<u8>)
    ensures
        dec_u32(pre + enc_u32(v) + post, pre.len() as int) == Ok::<(u32, int), DecodeError>(
            (v, pre.len() as int + 4),
        ),
{
    lemma_auto_spec_u32_to_from_le_bytes();
    let s = pre + enc_u32(v) + post;
    let i = pre.len() as int;
    assert(s.subrange(i, i + 4) =~= enc_u32(v));
}

pub proof fn lemma_dec_enc_u64(v: u64, pre: Seq<u8>, post: Seq<u8>)
    ensures
        dec_u64(pre + enc_u64(v) + post, pre.len() as int) == Ok::<(u64, int), DecodeError>(
            (v, pre.len() as int + 8),
        ),
{
    lemma_auto_spec_u64_to_from_le_bytes();
    let s = pre + enc_u64(v) + post;
    let i = pre.len() as int;
    assert(s.subrange(i, i + 8) =~= enc_u64(v));
}

pub proof fn lemma_dec_enc_i64(v: i64, pre: Seq<u8>, post: Seq<u8>)
    ensures
        dec_i64(pre + enc_i64(v) + post, pre.len() as int) == Ok::<(i64, int), DecodeError>(
            (v, pre.len() as int + 8),
        ),
{
    lemma_dec_enc_u64(v as u64, pre, post);
    assert(((v as u64) as i64) == v) by (bit_vector);
}

pub proof fn lemma_dec_enc_bool(v: bool, pre: Seq<u8>, post: Seq<u8>)
    ensures
        dec_bool(pre + enc_bool(v) + post, pre.len() as int) == Ok::<(bool, int), DecodeError>(
            (v, pre.len() as int + 1),
        ),
{
    let s = pre + enc_bool(v) + post;
    assert(s[pre.len() as int] == if v {
        1u8
    } else {
        0u8
    });
}

pub proof fn lemma_dec_enc_pubkey(k: Seq<u8>, pre: Seq<u8>, post: Seq<u8>)
    requires
        k.len() == 32,
    ensures
        dec_pubkey(pre + enc_pubkey(k) + post, pre.len() as int) == Ok::<
            (Seq<u8>, int),
            DecodeError,
        >((k, pre.len() as int + 32)),
{
    let s = pre + enc_pubkey(k) + post;
    let i = pre.len() as int;
    assert(s.subrange(i, i + 32) =~= k);
}

pub proof fn lemma_dec_enc_string(v: Seq<char>, pre: Seq<u8>, post: Seq<u8>)
    requires
        string_encodable(v),
    ensures
        dec_string(pre + enc_string(v) + post, pre.len() as int) == Ok::<
            (Seq<char>, int),
            DecodeError,
        >((v, pre.len() as int + enc_string(v).len())),
{
    let bytes = encode_utf8(v);
    let n = bytes.len() as u32;
    assert(n as int == bytes.len());
    let s = pre + enc_string(v) + post;
    lemma_auto_spec_u32_to_from_le_bytes();
    assert(s =~= pre + enc_u32(n) + (bytes + post));
    lemma_dec_enc_u32(n, pre, bytes + post);
    let j = pre.len() as int + 4;
    assert(enc_u32(n).len() == 4);
    assert forall|m: int| 0 <= m < n as int implies s[j + m] == bytes[m] by {
        assert(s[j + m] == (bytes + post)[m]);
    }
    assert(s.subrange(j, j + n as int) =~= bytes);
    encode_utf8_valid_utf8(v);
    encode_utf8_decode_utf8(v);
}

pub proof fn lemma_dec_enc_state(v: PoolState, pre: Seq<u8>, post: Seq<u8>)
    ensures
        dec_state(pre + enc_state(v) + post, pre.len() as int) == Ok::<
            (PoolState, int),
            DecodeError,
        >((v, pre.len() as int + 1)),
{
    let s = pre + enc_state(v) + post;
    assert(s[pre.len() as int] == enc_state(v)[0]);
}

pub proof fn lemma_dec_enc_params(p: PoolParams, pre: Seq<u8>, post: Seq<u8>)
    ensures
        dec_params(pre + enc_params(p) + post, pre.len() as int) == Ok::<
            (PoolParams, int),
            DecodeError,
        >((p, pre.len() as int + enc_params(p).len())),
{
    lemma_auto_spec_u64_to_from_le_bytes();
    let s = pre + enc_params(p) + post;
    let e1 = enc_u64(p.min_contribution);
    let e2 = enc_u64(p.max_contribution);
    let e3 = enc_i64(p.contribution_deadline);
    let e4 = enc_i64(p.voting_deadline);
    let e5 = enc_u64(p.proposal_threshold);
    let e6 = enc_u64(p.voting_threshold);
    let e7 = enc_u8(p.quorum_percentage);
    assert(s =~= pre + e1 + (e2 + e3 + e4 + e5 + e6 + e7 + post));
    lemma_dec_enc_u64(p.min_contribution, pre, e2 + e3 + e4 + e5 + e6 + e7 + post);
    assert(s =~= (pre + e1) + e2 + (e3 + e4 + e5 + e6 + e7 + post));
    lemma_dec_enc_u64(p.max_contribution, pre + e1, e3 + e4 + e5 + e6 + e7 + post);
    assert(s =~= (pre + e1 + e2) + e3 + (e4 + e5 + e6 + e7 + post));
    lemma_dec_enc_i64(p.contribution_deadline, pre + e1 + e2, e4 + e5 + e6 + e7 + post);
    assert(s =~= (pre + e1 + e2 + e3) + e4 + (e5 + e6 + e7 + post));
    lemma_dec_enc_i64(p.voting_deadline, pre + e1 + e2 + e3, e5 + e6 + e7 + post);
    assert(s =~= (pre + e1 + e2 + e3 + e4) + e5 + (e6 + e7 + post));
    lemma_dec_enc_u64(p.proposal_threshold, pre + e1 + e2 + e3 + e4, e6 + e7 + post);
    assert(s =~= (pre + e1 + e2 + e3 + e4 + e5) + e6 + (e7 + post));
    lemma_dec_enc_u64(p.voting_threshold, pre + e1 + e2 + e3 + e4 + e5, e7 + post);
    assert(s =~= (pre + e1 + e2 + e3 + e4 + e5 + e6) + e7 + post);
    lemma_dec_enc_u8(p.quorum_percentage, pre + e1 + e2 + e3 + e4 + e5 + e6, post);
}

pub proof fn lemma_dec_enc_opt_params(o: Option<PoolParams>, pre: Seq<u8>, post: Seq<u8>)
    ensures
        dec_opt_params(pre + enc_opt_params(o) + post, pre.len() as int) == Ok::<
            (Option<PoolParams>, int),
            DecodeError,
        >((o, pre.len() as int + enc_opt_params(o).len())),
{
    let s = pre + enc_opt_params(o) + post;
    match o {
        None => {
            assert(s =~= pre + enc_u8(0u8) + post);
            lemma_dec_enc_u8(0u8, pre, post);
        },
        Some(p) => {
            assert(s =~= pre + enc_u8(1u8) + (enc_params(p) + post));
            lemma_dec_enc_u8(1u8, pre, enc_params(p) + post);
            assert(s =~= (pre + enc_u8(1u8)) + enc_params(p) + post);
            lemma_dec_enc_params(p, pre + enc_u8(1u8), post);
        },
    }
}

pub proof fn lemma_dec_enc_opt_u64(o: Option<u64>, pre: Seq<u8>, post: Seq<u8>)
    ensures
        dec_opt_u64(pre + enc_opt_u64(o) + post, pre.len() as int) == Ok::<
            (Option<u64>, int),
            DecodeError,
        >((o, pre.len() as int + enc_opt_u64(o).len())),
{
    lemma_auto_spec_u64_to_from_le_bytes();
    let s = pre + enc_opt_u64(o) + post;
    match o {
        None => {
            assert(s =~= pre + enc_u8(0u8) + post);
            lemma_dec_enc_u8(0u8, pre, post);
            assert(dec_u8(s, pre.len() as int) == Ok::<(u8, int), DecodeError>(
                (0u8, pre.len() as int + 1),
            ));
        },
        Some(v) => {
            assert(s =~= pre + enc_u8(1u8) + (enc_u64(v) + post));
            lemma_dec_enc_u8(1u8, pre, enc_u64(v) + post);
            assert(s =~= (pre + enc_u8(1u8)) + enc_u64(v) + post);
            lemma_dec_enc_u64(v, pre + enc_u8(1u8), post);
        },
    }
}

pub proof fn lemma_dec_enc_proposal(p: ProposalV, pre: Seq<u8>, post: Seq<u8>)
    requires
        p.proposer.len() == 32,
        string_encodable(p.bitcoin_address),
        string_encodable(p.description),
    ensures
        dec_proposal(pre + enc_proposal(p) + post, pre.len() as int) == Ok::<
            (ProposalV, int),
            DecodeError,
        >((p, pre.len() as int + enc_proposal(p).len())),
{
    lemma_auto_spec_u64_to_from_le_bytes();
    let s = pre + enc_proposal(p) + post;
    let e1 = enc_u64(p.id);
    let e2 = enc_pubkey(p.proposer);
    let e3 = enc_string(p.bitcoin_address);
    let e4 = enc_string(p.description);
    let e5 = enc_u64(p.votes);
    assert(s =~= pre + e1 + (e2 + e3 + e4 + e5 + post));
    lemma_dec_enc_u64(p.id, pre, e2 + e3 + e4 + e5 + post);
    assert(s =~= (pre + e1) + e2 + (e3 + e4 + e5 + post));
    lemma_dec_enc_pubkey(p.proposer, pre + e1, e3 + e4 + e5 + post);
    assert(s =~= (pre + e1 + e2) + e3 + (e4 + e5 + post));
    lemma_dec_enc_string(p.bitcoin_address, pre + e1 + e2, e4 + e5 + post);
    assert(s =~= (pre + e1 + e2 + e3) + e4 + (e5 + post));
    lemma_dec_enc_string(p.description, pre + e1 + e2 + e3, e5 + post);
    assert(s =~= (pre + e1 + e2 + e3 + e4) + e5 + post);
    lemma_dec_enc_u64(p.votes, pre + e1 + e2 + e3 + e4, post);
}

pub proof fn lemma_dec_enc_pk_entries(
    es: Seq<(Seq<u8>, u64)>,
    acc: Seq<(Seq<u8>, u64)>,
    pre: Seq<u8>,
    post: Seq<u8>,
)
    requires
        unique_keys(es),
        forall|i: int| 0 <= i < es.len() ==> (#[trigger] es[i]).0.len() == 32,
        forall|i: int, j: int|
            0 <= i < es.len() && 0 <= j < acc.len() ==> (#[trigger] acc[j]).0 != (
            #[trigger] es[i]).0,
    ensures
        dec_pk_entries(pre + enc_pk_entries(es) + post, pre.len() as int, es.len(), acc) == Ok::<
            (Seq<(Seq<u8>, u64)>, int),
            DecodeError,
        >((acc + es, pre.len() as int + enc_pk_entries(es).len())),
    decreases es.len(),
{
    lemma_auto_spec_u64_to_from_le_bytes();
    let s = pre + enc_pk_entries(es) + post;
    if es.len() == 0 {
        assert(s =~= pre + post);
        assert(acc + es =~= acc);
    } else {
        let k = es[0].0;
        let v = es[0].1;
        let rest = es.drop_first();
        let ek = enc_pubkey(k);
        let ev = enc_u64(v);
        assert(s =~= pre + ek + (ev + enc_pk_entries(rest) + post));
        lemma_dec_enc_pubkey(k, pre, ev + enc_pk_entries(rest) + post);
        assert(s =~= (pre + ek) + ev + (enc_pk_entries(rest) + post));
        lemma_dec_enc_u64(v, pre + ek, enc_pk_entries(rest) + post);
        assert(forall|j: int| 0 <= j < acc.len() ==> (#[trigger] acc[j]).0 != k);
        lemma_map_upsert_absent(acc, k, v);
        let acc2 = acc.push((k, v));
        assert forall|i: int, j: int|
            0 <= i < rest.len() && 0 <= j < acc2.len() implies (#[trigger] acc2[j]).0 != (
        #[trigger] rest[i]).0 by {
            assert(rest[i] == es[i + 1]);
            if j < acc.len() {
                assert(acc2[j] == acc[j]);
            } else {
                assert(acc2[j] == (k, v));
                assert(es[0].0 != es[i + 1].0);
            }
        }
        assert(forall|i: int| 0 <= i < rest.len() ==> (#[trigger] rest[i]) == es[i + 1]);
        assert(s =~= (pre + ek + ev) + enc_pk_entries(rest) + post);
        lemma_dec_enc_pk_entries(rest, acc2, pre + ek + ev, post);
        assert(acc2 + rest =~= acc + es);
    }
}

pub proof fn lemma_dec_enc_pk_map(es: Seq<(Seq<u8>, u64)>, pre: Seq<u8>, post: Seq<u8>)
    requires
        es.len() <= u32::MAX,
        unique_keys(es),
        forall|i: int| 0 <= i < es.len() ==> (#[trigger] es[i]).0.len() == 32,
    ensures
        dec_pk_map(pre + enc_pk_map(es) + post, pre.len() as int) == Ok::<
            (Seq<(Seq<u8>, u64)>, int),
            DecodeError,
        >((es, pre.len() as int + enc_pk_map(es).len())),
{
    lemma_auto_spec_u32_to_from_le_bytes();
    let n = es.len() as u32;
    assert(n as nat == es.len());
    let s = pre + enc_pk_map(es) + post;
    assert(s =~= pre + enc_u32(n) + (enc_pk_entries(es) + post));
    lemma_dec_enc_u32(n, pre, enc_pk_entries(es) + post);
    assert(s =~= (pre + enc_u32(n)) + enc_pk_entries(es) + post);
    lemma_dec_enc_pk_entries(es, Seq::empty(), pre + enc_u32(n), post);
    assert(Seq::<(Seq<u8>, u64)>::empty() + es =~= es);
}

pub proof fn lemma_dec_enc_prop_entries(
    es: Seq<(u64, ProposalV)>,
    acc: Seq<(u64, ProposalV)>,
    pre: Seq<u8>,
    post: Seq<u8>,
)
    requires
        unique_keys(es),
        forall|i: int|
            0 <= i < es.len() ==> (#[trigger] es[i]).1.proposer.len() == 32 && string_encodable(
                es[i].1.bitcoin_address,
            ) && string_encodable(es[i].1.description),
        forall|i: int, j: int|
            0 <= i < es.len() && 0 <= j < acc.len() ==> (#[trigger] acc[j]).0 != (
            #[trigger] es[i]).0,
    ensures
        dec_prop_entries(pre + enc_prop_entries(es) + post, pre.len() as int, es.len(), acc)
            == Ok::<(Seq<(u64, ProposalV)>, int), DecodeError>(
            (acc + es, pre.len() as int + enc_prop_entries(es).len()),
        ),
    decreases es.len(),
{
    lemma_auto_spec_u64_to_from_le_bytes();
    let s = pre + enc_prop_entries(es) + post;
    if es.len() == 0 {
        assert(s =~= pre + post);
        assert(acc + es =~= acc);
    } else {
        let k = es[0].0;
        let v = es[0].1;
        let rest = es.drop_first();
        let ek = enc_u64(k);
        let ev = enc_proposal(v);
        assert(s =~= pre + ek + (ev + enc_prop_entries(rest) + post));
        lemma_dec_enc_u64(k, pre, ev + enc_prop_entries(rest) + post);
        assert(s =~= (pre + ek) + ev + (enc_prop_entries(rest) + post));
        lemma_dec_enc_proposal(v, pre + ek, enc_prop_entries(rest) + post);
        assert(forall|j: int| 0 <= j < acc.len() ==> (#[trigger] acc[j]).0 != k);
        lemma_map_upsert_absent(acc, k, v);
        let acc2 = acc.push((k, v));
        assert forall|i: int, j: int|
            0 <= i < rest.len() && 0 <= j < acc2.len() implies (#[trigger] acc2[j]).0 != (
        #[trigger] rest[i]).0 by {
            assert(rest[i] == es[i + 1]);
            if j < acc.len() {
                assert(acc2[j] == acc[j]);
            } else {
                assert(acc2[j] == (k, v));
                assert(es[0].0 != es[i + 1].0);
            }
        }
        assert(forall|i: int| 0 <= i < rest.len() ==> (#[trigger] rest[i]) == es[i + 1]);
        assert(s =~= (pre + ek + ev) + enc_prop_entries(rest) + post);
        lemma_dec_enc_prop_entries(rest, acc2, pre + ek + ev, post);
        assert(acc2 + rest =~= acc + es);
    }
}

pub proof fn lemma_dec_enc_prop_map(es: Seq<(u64, ProposalV)>, pre: Seq<u8>, post: Seq<u8>)
    requires
        es.len() <= u32::MAX,
        unique_keys(es),
        forall|i: int|
            0 <= i < es.len() ==> (#[trigger] es[i]).1.proposer.len() == 32 && string_encodable(
                es[i].1.bitcoin_address,
            ) && string_encodable(es[i].1.description),
    ensures
        dec_prop_map(pre + enc_prop_map(es) + post, pre.len() as int) == Ok::<
            (Seq<(u64, ProposalV)>, int),
            DecodeError,
        >((es, pre.len() as int + enc_prop_map(es).len())),
{
    lemma_auto_spec_u32_to_from_le_bytes();
    let n = es.len() as u32;
    assert(n as nat == es.len());
    let s = pre + enc_prop_map(es) + post;
    assert(s =~= pre + enc_u32(n) + (enc_prop_entries(es) + post));
    lemma_dec_enc_u32(n, pre, enc_prop_entries(es) + post);
    assert(s =~= (pre + enc_u32(n)) + enc_prop_entries(es) + post);
    lemma_dec_enc_prop_entries(es, Seq::empty(), pre + enc_u32(n), post);
    assert(Seq::<(u64, ProposalV)>::empty() + es =~= es);
}

/// Splitting one nine-part concatenation at each seam.
#[verifier::spinoff_prover]
proof fn lemma_split9(
    pre: Seq<u8>,
    e1: Seq<u8>,
    e2: Seq<u8>,
    e3: Seq<u8>,
    e4: Seq<u8>,
    e5: Seq<u8>,
    e6: Seq<u8>,
    e7: Seq<u8>,
    e8: Seq<u8>,
    e9: Seq<u8>,
    post: Seq<u8>,
)
    ensures
        ({
            let s = pre + (e1 + e2 + e3 + e4 + e5 + e6 + e7 + e8 + e9) + post;
            let p1 = pre + e1;
            let p2 = p1 + e2;
            let p3 = p2 + e3;
            let p4 = p3 + e4;
            let p5 = p4 + e5;
            let p6 = p5 + e6;
            let p7 = p6 + e7;
            let p8 = p7 + e8;
            let q9 = post;
            let q8 = e9 + q9;
            let q7 = e8 + q8;
            let q6 = e7 + q7;
            let q5 = e6 + q6;
            let q4 = e5 + q5;
            let q3 = e4 + q4;
            let q2 = e3 + q3;
            let q1 = e2 + q2;
            &&& s == pre + e1 + q1
            &&& s == p1 + e2 + q2
            &&& s == p2 + e3 + q3
            &&& s == p3 + e4 + q4
            &&& s == p4 + e5 + q5
            &&& s == p5 + e6 + q6
            &&& s == p6 + e7 + q7
            &&& s == p7 + e8 + q8
            &&& s == p8 + e9 + q9
        }),
{
    let s = pre + (e1 + e2 + e3 + e4 + e5 + e6 + e7 + e8 + e9) + post;
    let p1 = pre + e1;
    let p2 = p1 + e2;
    let p3 = p2 + e3;
    let p4 = p3 + e4;
    let p5 = p4 + e5;
    let p6 = p5 + e6;
    let p7 = p6 + e7;
    let p8 = p7 + e8;
    let q9 = post;
    let q8 = e9 + q9;
    let q7 = e8 + q8;
    let q6 = e7 + q7;
    let q5 = e6 + q6;
    let q4 = e5 + q5;
    let q3 = e4 + q4;
    let q2 = e3 + q3;
    let q1 = e2 + q2;
    let a2 = e1 + e2;
    let a3 = a2 + e3;
    let a4 = a3 + e4;
    let a5 = a4 + e5;
    let a6 = a5 + e6;
    let a7 = a6 + e7;
    let a8 = a7 + e8;
    lemma_concat_associative(pre, e1, e2);
    lemma_concat_associative(pre, a2, e3);
    lemma_concat_associative(pre, a3, e4);
    lemma_concat_associative(pre, a4, e5);
    lemma_concat_associative(pre, a5, e6);
    lemma_concat_associative(pre, a6, e7);
    lemma_concat_associative(pre, a7, e8);
    lemma_concat_associative(pre, a8, e9);
    assert(s == p8 + e9 + q9);
    lemma_concat_associative(p8, e9, q9);
    lemma_concat_associative(p7, e8, q8);
    lemma_concat_associative(p6, e7, q7);
    lemma_concat_associative(p5, e6, q6);
    lemma_concat_associative(p4, e5, q5);
    lemma_concat_associative(p3, e4, q4);
    lemma_concat_associative(p2, e3, q3);
    lemma_concat_associative(p1, e2, q2);
    lemma_concat_associative(pre, e1, q1);
}

#[verifier::rlimit(100)]
#[verifier::spinoff_prover]
pub proof fn lemma_dec_enc_contract(c: ContractV, pre: Seq<u8>, post: Seq<u8>)
    requires
        well_formed(c),
        encodable(c),
    ensures
        dec_contract(pre + enc_contract(c) + post, pre.len() as int) == Ok::<
            (ContractV, int),
            DecodeError,
        >((c, pre.len() as int + enc_contract(c).len())),
{
    lemma_auto_spec_u64_to_from_le_bytes();
    lemma_auto_spec_u32_to_from_le_bytes();
    let s = pre + enc_contract(c) + post;
    let e1 = enc_state(c.state);
    let e2 = enc_opt_params(c.params);
    let e3 = enc_u64(c.total_balance);
    let e4 = enc_pk_map(c.contributions);
    let e5 = enc_prop_map(c.proposals);
    let e6 = enc_pk_map(c.votes);
    let e7 = enc_u64(c.next_proposal_id);
    let e8 = enc_opt_u64(c.winning_proposal);
    let e9 = enc_bool(c.transfer_executed);
    let p1 = pre + e1;
    let p2 = p1 + e2;
    let p3 = p2 + e3;
    let p4 = p3 + e4;
    let p5 = p4 + e5;
    let p6 = p5 + e6;
    let p7 = p6 + e7;
    let p8 = p7 + e8;
    let q9 = post;
    let q8 = e9 + q9;
    let q7 = e8 + q8;
    let q6 = e7 + q7;
    let q5 = e6 + q6;
    let q4 = e5 + q5;
    let q3 = e4 + q4;
    let q2 = e3 + q3;
    let q1 = e2 + q2;
    lemma_split9(pre, e1, e2, e3, e4, e5, e6, e7, e8, e9, post);
    lemma_dec_enc_state(c.state, pre, q1);
    lemma_dec_enc_opt_params(c.params, p1, q2);
    lemma_dec_enc_u64(c.total_balance, p2, q3);
    lemma_dec_enc_pk_map(c.contributions, p3, q4);
    lemma_dec_enc_prop_map(c.proposals, p4, q5);
    lemma_dec_enc_pk_map(c.votes, p5, q6);
    lemma_dec_enc_u64(c.next_proposal_id, p6, q7);
    lemma_dec_enc_opt_u64(c.winning_proposal, p7, q8);
    lemma_dec_enc_bool(c.transfer_executed, p8, q9);
}

/// The round-trip law: decoding an encoded aggregate state yields exactly
/// that state, consuming the whole encoding, for every well-formed,
/// encodable aggregate — empty collections and absent optionals included.
pub proof fn lemma_contract_round_trip(c: ContractV)
    requires
        well_formed(c),
        encodable(c),
    ensures
        dec_contract(enc_contract(c), 0) == Ok::<(ContractV, int), DecodeError>(
            (c, enc_contract(c).len() as int),
        ),
{
    lemma_dec_enc_contract(c, Seq::empty(), Seq::empty());
    assert(Seq::<u8>::empty() + enc_contract(c) + Seq::<u8>::empty() =~= enc_contract(c));
}

// ---------------------------------------------------------------------
// The executable encoders: each appends exactly the bytes its spec
// function names.
// ---------------------------------------------------------------------

pub fn write_u8(out: &mut Vec<u8>, v: u8)
    ensures
        final(out)@ == old(out)@ + enc_u8(v),
{
    out.push(v);
    proof {
        assert(final(out)@ =~= old(out)@ + enc_u8(v));
    }
}

pub fn write_u32(out: &mut Vec<u8>, v: u32)
    ensures
        final(out)@ == old(out)@ + enc_u32(v),
{
    let mut bytes = u32_to_le_bytes(v);
    out.append(&mut bytes);
}

pub fn write_u64(out: &mut Vec<u8>, v: u64)
    ensures
        final(out)@ == old(out)@ + enc_u64(v),
{
    let mut bytes = u64_to_le_bytes(v);
    out.append(&mut bytes);
}

pub fn write_i64(out: &mut Vec<u8>, v: i64)
    ensures
        final(out)@ == old(out)@ + enc_i64(v),
{
    write_u64(out, #[verifier::truncate] (v as u64));
}

pub fn write_bool(out: &mut Vec<u8>, v: bool)
    ensures
        final(out)@ == old(out)@ + enc_bool(v),
{
    out.push(if v { 1 } else { 0 });
    proof {
        assert(final(out)@ =~= old(out)@ + enc_bool(v));
    }
}

pub fn write_pubkey(out: &mut Vec<u8>, k: &Pubkey)
    ensures
        final(out)@ == old(out)@ + enc_pubkey(k@),
{
    let ghost start = out@;
    let mut i: usize = 0;
    while i < 32
        invariant
            i <= 32,
            out@ == start + k@.subrange(0, i as int),
        decreases 32 - i,
    {
        out.push(k.0[i]);
        i += 1;
        proof {
            assert(start + k@.subrange(0, i - 1) + seq![k@[i - 1]] =~= start + k@.subrange(
                0,
                i as int,
            ));
        }
    }
    proof {
        assert(k@.subrange(0, 32) =~= k@);
    }
}

pub fn write_string(out: &mut Vec<u8>, s: &str)
    requires
        string_encodable(s@),
    ensures
        final(out)@ == old(out)@ + enc_string(s@),
{
    let bytes = s.as_bytes_vec();
    write_u32(out, bytes.len() as u32);
    let mut bytes = bytes;
    out.append(&mut bytes);
}

pub fn write_state(out: &mut Vec<u8>, s: &PoolState)
    ensures
        final(out)@ == old(out)@ + enc_state(*s),
{
    let tag: u8 = match s {
        PoolState::Uninitialized => 0,
        PoolState::ContributionPhase => 1,
        PoolState::VotingPhase => 2,
        PoolState::ExecutionPhase => 3,
        PoolState::Completed => 4,
    };
    write_u8(out, tag);
}

pub fn write_params(out: &mut Vec<u8>, p: &PoolParams)
    ensures
        final(out)@ == old(out)@ + enc_params(*p),
{
    write_u64(out, p.min_contribution);
    write_u64(out, p.max_contribution);
    write_i64(out, p.contribution_deadline);
    write_i64(out, p.voting_deadline);
    write_u64(out, p.proposal_threshold);
    write_u64(out, p.voting_threshold);
    write_u8(out, p.quorum_percentage);
    proof {
        assert(out@ =~= old(out)@ + enc_params(*p));
    }
}

pub fn write_opt_params(out: &mut Vec<u8>, o: &Option<PoolParams>)
    ensures
        final(out)@ == old(out)@ + enc_opt_params(*o),
{
    match o {
        None => {
            write_u8(out, 0);
        },
        Some(p) => {
            write_u8(out, 1);
            write_params(out, p);
            proof {
                assert(out@ =~= old(out)@ + enc_opt_params(*o));
            }
        },
    }
}

pub fn write_opt_u64(out: &mut Vec<u8>, o: &Option<u64>)
    ensures
        final(out)@ == old(out)@ + enc_opt_u64(*o),
{
    match o {
        None => {
            write_u8(out, 0);
        },
        Some(v) => {
            write_u8(out, 1);
            write_u64(out, *v);
            proof {
                assert(out@ =~= old(out)@ + enc_opt_u64(*o));
            }
        },
    }
}

pub fn write_proposal(out: &mut Vec<u8>, p: &Proposal)
    requires
        string_encodable(p.bitcoin_address@),
        string_encodable(p.description@),
    ensures
        final(out)@ == old(out)@ + enc_proposal(p@),
{
    write_u64(out, p.id);
    write_pubkey(out, &p.proposer);
    write_string(out, p.bitcoin_address.as_str());
    write_string(out, p.description.as_str());
    write_u64(out, p.votes);
    proof {
        assert(out@ =~= old(out)@ + enc_proposal(p@));
    }
}

/// Writes a pledge collection: its 4-byte count, then each pair in the
/// stable iteration order.
pub fn serialize_pubkey_map(map: &PubkeyMap, out: &mut Vec<u8>)
    requires
        map@.len() <= u32::MAX,
    ensures
        final(out)@ == old(out)@ + enc_pk_map(map@),
{
    let n = map.len();
    write_u32(out, n as u32);
    let ghost base = out@;
    let mut i: usize = 0;
    proof {
        assert(map@.skip(0) =~= map@);
    }
    while i < n
        invariant
            n == map@.len(),
            i <= n,
            out@ + enc_pk_entries(map@.skip(i as int)) == base + enc_pk_entries(map@),
        decreases n - i,
    {
        let e = map.entry_at(i);
        let ghost pre_out = out@;
        write_pubkey(out, &e.0);
        write_u64(out, e.1);
        i += 1;
        proof {
            let es = map@;
            assert(es.skip(i - 1).drop_first() =~= es.skip(i as int));
            assert(es.skip(i - 1)[0] == es[i - 1]);
            assert(out@ + enc_pk_entries(es.skip(i as int)) =~= pre_out + enc_pk_entries(
                es.skip(i - 1),
            ));
        }
    }
    proof {
        assert(map@.skip(n as int) =~= Seq::<(Seq<u8>, u64)>::empty());
        assert(out@ + enc_pk_entries(map@.skip(n as int)) =~= out@);
        assert(base + enc_pk_entries(map@) =~= old(out)@ + enc_pk_map(map@));
    }
}

/// Writes the proposal registry: its 4-byte count, then each pair in the
/// stable iteration order.
pub fn serialize_proposal_map(map: &ProposalMap, out: &mut Vec<u8>)
    requires
        map@.len() <= u32::MAX,
        forall|i: int|
            0 <= i < map@.len() ==> string_encodable(
                (#[trigger] map@[i]).1.bitcoin_address,
            ) && string_encodable(map@[i].1.description),
    ensures
        final(out)@ == old(out)@ + enc_prop_map(map@),
{
    let n = map.len();
    write_u32(out, n as u32);
    let ghost base = out@;
    let mut i: usize = 0;
    proof {
        assert(map@.skip(0) =~= map@);
    }
    while i < n
        invariant
            n == map@.len(),
            i <= n,
            forall|k: int|
                0 <= k < map@.len() ==> string_encodable(
                    (#[trigger] map@[k]).1.bitcoin_address,
                ) && string_encodable(map@[k].1.description),
            out@ + enc_prop_entries(map@.skip(i as int)) == base + enc_prop_entries(map@),
        decreases n - i,
    {
        let e = map.entry_at(i);
        let ghost pre_out = out@;
        write_u64(out, e.0);
        write_proposal(out, &e.1);
        i += 1;
        proof {
            let es = map@;
            assert(es.skip(i - 1).drop_first() =~= es.skip(i as int));
            assert(es.skip(i - 1)[0] == es[i - 1]);
            assert(out@ + enc_prop_entries(es.skip(i as int)) =~= pre_out + enc_prop_entries(
                es.skip(i - 1),
            ));
        }
    }
    proof {
        assert(map@.skip(n as int) =~= Seq::<(u64, ProposalV)>::empty());
        assert(out@ + enc_prop_entries(map@.skip(n as int)) =~= out@);
        assert(base + enc_prop_entries(map@) =~= old(out)@ + enc_prop_map(map@));
    }
}

impl Contract {
    /// Appends the canonical encoding of the aggregate, field by field in
    /// declaration order.
    pub fn serialize(&self, out: &mut Vec<u8>)
        requires
            encodable(self@),
        ensures
            final(out)@ == old(out)@ + enc_contract(self@),
    {
        write_state(out, &self.state);
        write_opt_params(out, &self.params);
        write_u64(out, self.total_balance);
        serialize_pubkey_map(&self.contributions, out);
        serialize_proposal_map(&self.proposals, out);
        serialize_pubkey_map(&self.votes, out);
        write_u64(out, self.next_proposal_id);
        write_opt_u64(out, &self.winning_proposal);
        write_bool(out, self.transfer_executed);
        proof {
            assert(out@ =~= old(out)@ + enc_contract(self@));
        }
    }
}

// ---------------------------------------------------------------------
// The executable decoders: each agrees with its spec function, value and
// position on success, error kind on failure.
// ---------------------------------------------------------------------

pub fn read_u8(data: &Vec<u8>, pos: usize) -> (r: Result<(u8, usize), DecodeError>)
    ensures
        dec_u8(data@, pos as int) matches Ok(sv) ==> r matches Ok(rv) && rv.0 == sv.0 && rv.1
            == sv.1,
        dec_u8(data@, pos as int) matches Err(e) ==> r == Err::<(u8, usize), DecodeError>(e),
{
    if pos < data.len() {
        Ok((data[pos], pos + 1))
    } else {
        Err(DecodeError::TruncatedInput)
    }
}

pub fn read_u32(data: &Vec<u8>, pos: usize) -> (r: Result<(u32, usize), DecodeError>)
    ensures
        dec_u32(data@, pos as int) matches Ok(sv) ==> r matches Ok(rv) && rv.0 == sv.0 && rv.1
            == sv.1,
        dec_u32(data@, pos as int) matches Err(e) ==> r == Err::<(u32, usize), DecodeError>(e),
{
    if pos <= data.len() && data.len() - pos >= 4 {
        let chunk = slice_subrange(data.as_slice(), pos, pos + 4);
        Ok((u32_from_le_bytes(chunk), pos + 4))
    } else {
        Err(DecodeError::TruncatedInput)
    }
}

pub fn read_u64(data: &Vec<u8>, pos: usize) -> (r: Result<(u64, usize), DecodeError>)
    ensures
        dec_u64(data@, pos as int) matches Ok(sv) ==> r matches Ok(rv) && rv.0 == sv.0 && rv.1
            == sv.1,
        dec_u64(data@, pos as int) matches Err(e) ==> r == Err::<(u64, usize), DecodeError>(e),
{
    if pos <= data.len() && data.len() - pos >= 8 {
        let chunk = slice_subrange(data.as_slice(), pos, pos + 8);
        Ok((u64_from_le_bytes(chunk), pos + 8))
    } else {
        Err(DecodeError::TruncatedInput)
    }
}

pub fn read_i64(data: &Vec<u8>, pos: usize) -> (r: Result<(i64, usize), DecodeError>)
    ensures
        dec_i64(data@, pos as int) matches Ok(sv) ==> r matches Ok(rv) && rv.0 == sv.0 && rv.1
            == sv.1,
        dec_i64(data@, pos as int) matches Err(e) ==> r == Err::<(i64, usize), DecodeError>(e),
{
    match read_u64(data, pos) {
        Ok((v, j)) => Ok((#[verifier::truncate] (v as i64), j)),
        Err(e) => Err(e),
    }
}

pub fn read_bool(data: &Vec<u8>, pos: usize) -> (r: Result<(bool, usize), DecodeError>)
    ensures
        dec_bool(data@, pos as int) matches Ok(sv) ==> r matches Ok(rv) && rv.0 == sv.0 && rv.1
            == sv.1,
        dec_bool(data@, pos as int) matches Err(e) ==> r == Err::<(bool, usize), DecodeError>(e),
{
    match read_u8(data, pos) {
        Ok((t, j)) => {
            if t == 0 {
                Ok((false, j))
            } else if t == 1 {
                Ok((true, j))
            } else {
                Err(DecodeError::InvalidTag)
            }
        },
        Err(e) => Err(e),
    }
}

pub fn read_pubkey(data: &Vec<u8>, pos: usize) -> (r: Result<(Pubkey, usize), DecodeError>)
    ensures
        dec_pubkey(data@, pos as int) matches Ok(sv) ==> r matches Ok(rv) && rv.0@ == sv.0 && rv.1
            == sv.1,
        dec_pubkey(data@, pos as int) matches Err(e) ==> r == Err::<(Pubkey, usize), DecodeError>(
            e,
        ),
{
    if pos <= data.len() && data.len() - pos >= 32 {
        let mut key = [0u8; 32];
        let mut i: usize = 0;
        while i < 32
            invariant
                i <= 32,
                pos + 32 <= data.len(),
                key@.len() == 32,
                forall|j: int| 0 <= j < i ==> key@[j] == data@[pos + j],
            decreases 32 - i,
        {
            key[i] = data[pos + i];
            i += 1;
        }
        proof {
            assert(key@ =~= data@.subrange(pos as int, pos + 32));
        }
        Ok((Pubkey(key), pos + 32))
    } else {
        Err(DecodeError::TruncatedInput)
    }
}

/// Relies on `String::from_utf8`: it accepts exactly the valid UTF-8 byte
/// sequences and yields the characters they encode, the inverse of
/// `str::as_bytes`. Stated over vstd's UTF-8 model.
#[verifier::external_body]
fn bytes_to_string(bytes: Vec<u8>) -> (r: Option<String>)
    ensures
        r matches Some(s) ==> valid_utf8(bytes@) && s@ == decode_utf8(bytes@),
        r is None ==> !valid_utf8(bytes@),
{
    match String::from_utf8(bytes) {
        Ok(s) => Some(s),
        Err(_) => None,
    }
}

pub fn read_string(data: &Vec<u8>, pos: usize) -> (r: Result<(String, usize), DecodeError>)
    ensures
        dec_string(data@, pos as int) matches Ok(sv) ==> r matches Ok(rv) && rv.0@ == sv.0 && rv.1
            == sv.1,
        dec_string(data@, pos as int) matches Err(e) ==> r == Err::<(String, usize), DecodeError>(
            e,
        ),
{
    match read_u32(data, pos) {
        Ok((n, j)) => {
            let n_usize = n as usize;
            if j <= data.len() && data.len() - j >= n_usize {
                let chunk = slice_subrange(data.as_slice(), j, j + n_usize);
                let bytes = slice_to_vec(chunk);
                match bytes_to_string(bytes) {
                    Some(s) => Ok((s, j + n_usize)),
                    None => Err(DecodeError::InvalidTag),
                }
            } else {
                Err(DecodeError::TruncatedInput)
            }
        },
        Err(e) => Err(e),
    }
}

pub fn read_state(data: &Vec<u8>, pos: usize) -> (r: Result<(PoolState, usize), DecodeError>)
    ensures
        dec_state(data@, pos as int) matches Ok(sv) ==> r matches Ok(rv) && rv.0 == sv.0 && rv.1
            == sv.1,
        dec_state(data@, pos as int) matches Err(e) ==> r == Err::<
            (PoolState, usize),
            DecodeError,
        >(e),
{
    match read_u8(data, pos) {
        Ok((t, j)) => {
            if t == 0 {
                Ok((PoolState::Uninitialized, j))
            } else if t == 1 {
                Ok((PoolState::ContributionPhase, j))
            } else if t == 2 {
                Ok((PoolState::VotingPhase, j))
            } else if t == 3 {
                Ok((PoolState::ExecutionPhase, j))
            } else if t == 4 {
                Ok((PoolState::Completed, j))
            } else {
                Err(DecodeError::InvalidTag)
            }
        },
        Err(e) => Err(e),
    }
}


pub fn read_params(data: &Vec<u8>, pos: usize) -> (r: Result<(PoolParams, usize), DecodeError>)
    ensures
        dec_params(data@, pos as int) matches Ok(sv) ==> r matches Ok(rv) && rv.0 == sv.0 && rv.1
            == sv.1,
        dec_params(data@, pos as int) matches Err(e) ==> r == Err::<
            (PoolParams, usize),
            DecodeError,
        >(e),
{
    let (min_contribution, i1) = match read_u64(data, pos) {
        Ok(v) => v,
        Err(e) => {
            return Err(e);
        },
    };
    let (max_contribution, i2) = match read_u64(data, i1) {
        Ok(v) => v,
        Err(e) => {
            return Err(e);
        },
    };
    let (contribution_deadline, i3) = match read_i64(data, i2) {
        Ok(v) => v,
        Err(e) => {
            return Err(e);
        },
    };
    let (voting_deadline, i4) = match read_i64(data, i3) {
        Ok(v) => v,
        Err(e) => {
            return Err(e);
        },
    };
    let (proposal_threshold, i5) = match read_u64(data, i4) {
        Ok(v) => v,
        Err(e) => {
            return Err(e);
        },
    };
    let (voting_threshold, i6) = match read_u64(data, i5) {
        Ok(v) => v,
        Err(e) => {
            return Err(e);
        },
    };
    let (quorum_percentage, i7) = match read_u8(data, i6) {
        Ok(v) => v,
        Err(e) => {
            return Err(e);
        },
    };
    Ok(
        (
            PoolParams {
                min_contribution,
                max_contribution,
                contribution_deadline,
                voting_deadline,
                proposal_threshold,
                voting_threshold,
                quorum_percentage,
            },
            i7,
        ),
    )
}

pub fn read_opt_params(data: &Vec<u8>, pos: usize) -> (r: Result<
    (Option<PoolParams>, usize),
    DecodeError,
>)
    ensures
        dec_opt_params(data@, pos as int) matches Ok(sv) ==> r matches Ok(rv) && rv.0 == sv.0
            && rv.1 == sv.1,
        dec_opt_params(data@, pos as int) matches Err(e) ==> r == Err::<
            (Option<PoolParams>, usize),
            DecodeError,
        >(e),
{
    match read_u8(data, pos) {
        Err(e) => Err(e),
        Ok((tag, j)) => {
            if tag == 0 {
                Ok((None, j))
            } else if tag == 1 {
                match read_params(data, j) {
                    Err(e) => Err(e),
                    Ok((p, j2)) => Ok((Some(p), j2)),
                }
            } else {
                Err(DecodeError::InvalidTag)
            }
        },
    }
}

pub fn read_opt_u64(data: &Vec<u8>, pos: usize) -> (r: Result<(Option<u64>, usize), DecodeError>)
    ensures
        dec_opt_u64(data@, pos as int) matches Ok(sv) ==> r matches Ok(rv) && rv.0 == sv.0 && rv.1
            == sv.1,
        dec_opt_u64(data@, pos as int) matches Err(e) ==> r == Err::<
            (Option<u64>, usize),
            DecodeError,
        >(e),
{
    match read_u8(data, pos) {
        Err(e) => Err(e),
        Ok((tag, j)) => {
            if tag == 0 {
                Ok((None, j))
            } else if tag == 1 {
                match read_u64(data, j) {
                    Err(e) => Err(e),
                    Ok((v, j2)) => Ok((Some(v), j2)),
                }
            } else {
                Err(DecodeError::InvalidTag)
            }
        },
    }
}

pub fn read_proposal(data: &Vec<u8>, pos: usize) -> (r: Result<(Proposal, usize), DecodeError>)
    ensures
        dec_proposal(data@, pos as int) matches Ok(sv) ==> r matches Ok(rv) && rv.0@ == sv.0
            && rv.1 == sv.1,
        dec_proposal(data@, pos as int) matches Err(e) ==> r == Err::<
            (Proposal, usize),
            DecodeError,
        >(e),
{
    let (id, i1) = match read_u64(data, pos) {
        Ok(v) => v,
        Err(e) => {
            return Err(e);
        },
    };
    let (proposer, i2) = match read_pubkey(data, i1) {
        Ok(v) => v,
        Err(e) => {
            return Err(e);
        },
    };
    let (bitcoin_address, i3) = match read_string(data, i2) {
        Ok(v) => v,
        Err(e) => {
            return Err(e);
        },
    };
    let (description, i4) = match read_string(data, i3) {
        Ok(v) => v,
        Err(e) => {
            return Err(e);
        },
    };
    let (votes, i5) = match read_u64(data, i4) {
        Ok(v) => v,
        Err(e) => {
            return Err(e);
        },
    };
    Ok((Proposal { id, proposer, bitcoin_address, description, votes }, i5))
}

/// Reads a pledge collection, inserting each pair as it is encountered; a
/// repeated key overwrites the value already read rather than failing.
#[verifier::loop_isolation(false)]
pub fn deserialize_pubkey_map(data: &Vec<u8>, pos: usize) -> (r: Result<
    (PubkeyMap, usize),
    DecodeError,
>)
    ensures
        dec_pk_map(data@, pos as int) matches Ok(sv) ==> r matches Ok(rv) && rv.0@ == sv.0 && rv.1
            == sv.1,
        dec_pk_map(data@, pos as int) matches Err(e) ==> r == Err::<
            (PubkeyMap, usize),
            DecodeError,
        >(e),
{
    let (n, start) = match read_u32(data, pos) {
        Ok(v) => v,
        Err(e) => {
            return Err(e);
        },
    };
    let mut m = PubkeyMap::new();
    let mut i = start;
    let mut j: u32 = 0;
    while j < n
        invariant
            j <= n,
            dec_pk_entries(data@, i as int, (n - j) as nat, m@) == dec_pk_entries(
                data@,
                start as int,
                n as nat,
                Seq::empty(),
            ),
        decreases n - j,
    {
        let (k, i2) = match read_pubkey(data, i) {
            Ok(v) => v,
            Err(e) => {
                return Err(e);
            },
        };
        let (v, i3) = match read_u64(data, i2) {
            Ok(p) => p,
            Err(e) => {
                return Err(e);
            },
        };
        m.insert(k, v);
        i = i3;
        j = j + 1;
    }
    Ok((m, i))
}

/// Reads the proposal registry, inserting each pair as it is encountered.
#[verifier::loop_isolation(false)]
pub fn deserialize_proposal_map(data: &Vec<u8>, pos: usize) -> (r: Result<
    (ProposalMap, usize),
    DecodeError,
>)
    ensures
        dec_prop_map(data@, pos as int) matches Ok(sv) ==> r matches Ok(rv) && rv.0@ == sv.0
            && rv.1 == sv.1,
        dec_prop_map(data@, pos as int) matches Err(e) ==> r == Err::<
            (ProposalMap, usize),
            DecodeError,
        >(e),
{
    let (n, start) = match read_u32(data, pos) {
        Ok(v) => v,
        Err(e) => {
            return Err(e);
        },
    };
    let mut m = ProposalMap::new();
    let mut i = start;
    let mut j: u32 = 0;
    while j < n
        invariant
            j <= n,
            dec_prop_entries(data@, i as int, (n - j) as nat, m@) == dec_prop_entries(
                data@,
                start as int,
                n as nat,
                Seq::empty(),
            ),
        decreases n - j,
    {
        let (k, i2) = match read_u64(data, i) {
            Ok(v) => v,
            Err(e) => {
                return Err(e);
            },
        };
        let (p, i3) = match read_proposal(data, i2) {
            Ok(v) => v,
            Err(e) => {
                return Err(e);
            },
        };
        m.insert(k, p);
        i = i3;
        j = j + 1;
    }
    Ok((m, i))
}

impl Contract {
    /// Reads one aggregate from a position, field by field in declaration
    /// order; the first failing field aborts the whole decode.
    pub fn deserialize(data: &Vec<u8>, pos: usize) -> (r: Result<(Contract, usize), DecodeError>)
        ensures
            dec_contract(data@, pos as int) matches Ok(sv) ==> r matches Ok(rv) && rv.0@ == sv.0
                && rv.1 == sv.1,
            dec_contract(data@, pos as int) matches Err(e) ==> r == Err::<
                (Contract, usize),
                DecodeError,
            >(e),
    {
        let (state, i1) = match read_state(data, pos) {
            Ok(v) => v,
            Err(e) => {
                return Err(e);
            },
        };
        let (params, i2) = match read_opt_params(data, i1) {
            Ok(v) => v,
            Err(e) => {
                return Err(e);
            },
        };
        let (total_balance, i3) = match read_u64(data, i2) {
            Ok(v) => v,
            Err(e) => {
                return Err(e);
            },
        };
        let (contributions, i4) = match deserialize_pubkey_map(data, i3) {
            Ok(v) => v,
            Err(e) => {
                return Err(e);
            },
        };
        let (proposals, i5) = match deserialize_proposal_map(data, i4) {
            Ok(v) => v,
            Err(e) => {
                return Err(e);
            },
        };
        let (votes, i6) = match deserialize_pubkey_map(data, i5) {
            Ok(v) => v,
            Err(e) => {
                return Err(e);
            },
        };
        let (next_proposal_id, i7) = match read_u64(data, i6) {
            Ok(v) => v,
            Err(e) => {
                return Err(e);
            },
        };
        let (winning_proposal, i8) = match read_opt_u64(data, i7) {
            Ok(v) => v,
            Err(e) => {
                return Err(e);
            },
        };
        let (transfer_executed, i9) = match read_bool(data, i8) {
            Ok(v) => v,
            Err(e) => {
                return Err(e);
            },
        };
        Ok(
            (
                Contract {
                    state,
                    params,
                    total_balance,
                    contributions,
                    proposals,
                    votes,
                    next_proposal_id,
                    winning_proposal,
                    transfer_executed,
                },
                i9,
            ),
        )
    }

    /// Decodes one aggregate from a whole buffer; bytes left over after
    /// the last field are malformed input.
    pub fn try_from_slice(data: &Vec<u8>) -> (r: Result<Contract, DecodeError>)
        ensures
            match dec_contract(data@, 0) {
                Ok(sv) => {
                    if sv.1 == data@.len() {
                        r matches Ok(c) && c@ == sv.0
                    } else {
                        r == Err::<Contract, DecodeError>(DecodeError::InvalidTag)
                    }
                },
                Err(e) => r == Err::<Contract, DecodeError>(e),
            },
    {
        match Contract::deserialize(data, 0) {
            Ok((c, end)) => {
                if end == data.len() {
                    Ok(c)
                } else {
                    Err(DecodeError::InvalidTag)
                }
            },
            Err(e) => Err(e),
        }
    }

    /// Whether the aggregate fits the encoding's 4-byte counts and length
    /// prefixes, checked field by field.
    #[verifier::loop_isolation(false)]
    pub fn check_encodable(&self) -> (b: bool)
        ensures
            b == encodable(self@),
    {
        if self.contributions.len() > u32::MAX as usize {
            return false;
        }
        if self.votes.len() > u32::MAX as usize {
            return false;
        }
        let n = self.proposals.len();
        if n > u32::MAX as usize {
            return false;
        }
        let mut i: usize = 0;
        while i < n
            invariant
                n == self@.proposals.len(),
                i <= n,
                forall|k: int|
                    0 <= k < i ==> string_encodable(
                        (#[trigger] self@.proposals[k]).1.bitcoin_address,
                    ) && string_encodable(self@.proposals[k].1.description),
            decreases n - i,
        {
            let e = self.proposals.entry_at(i);
            if e.1.bitcoin_address.as_str().as_bytes().len() > u32::MAX as usize {
                proof {
                    assert(!string_encodable(self@.proposals[i as int].1.bitcoin_address));
                }
                return false;
            }
            if e.1.description.as_str().as_bytes().len() > u32::MAX as usize {
                proof {
                    assert(!string_encodable(self@.proposals[i as int].1.description));
                }
                return false;
            }
            i += 1;
        }
        true
    }
}

} // verus!
