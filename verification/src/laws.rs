//! The laws the pool keeps, stated over the operations' transition
//! functions and proved once for all states and inputs.

use crate::maps::{
    lemma_map_erase_absent, lemma_map_erase_found, lemma_map_has_key_index,
    lemma_map_upsert_absent, lemma_map_upsert_found, map_erase, map_has_key, map_lookup,
    map_upsert, sum_values, unique_keys,
};
use crate::state::{
    phase_index, pledged, spec_cast_vote, spec_contribute, spec_emergency_withdraw,
    spec_execute_transfer, spec_initialize, spec_submit_proposal, well_formed, ContractError,
    ContractV, PoolParams, PoolState, ProposalV,
};
use crate::codec::{
    dec_contract, dec_pk_entries, dec_pk_map, dec_proposal, dec_prop_entries, dec_prop_map,
    dec_pubkey, dec_string, dec_u32, dec_u64, dec_opt_params, dec_state,
};
use crate::state::{encodable, string_encodable};
use vstd::prelude::*;
use vstd::utf8::decode_utf8_encode_utf8;

verus! {

/// The running total agrees with the pledge records.
pub open spec fn balanced(c: ContractV) -> bool {
    c.total_balance == sum_values(c.contributions)
}

/// Whatever phase the pool has reached, the wall clock has reached it
/// too: the execution stage only exists past the voting deadline.
pub open spec fn time_consistent(c: ContractV, now: i64) -> bool {
    match c.params {
        Some(p) => phase_index(c.state) >= phase_index(PoolState::ExecutionPhase) ==> now
            > p.voting_deadline,
        None => true,
    }
}

/// An upsert moves the sum by the difference between the new value and
/// the value it replaces.
pub proof fn lemma_sum_upsert<K>(es: Seq<(K, u64)>, k: K, v: u64)
    ensures
        sum_values(map_upsert(es, k, v)) == sum_values(es) + v - (match map_lookup(es, k) {
            Some(o) => o as int,
            None => 0,
        }),
    decreases es.len(),
{
    let u = map_upsert(es, k, v);
    if es.len() == 0 {
        assert(u[0] == (k, v));
        assert(u.drop_first() =~= Seq::<(K, u64)>::empty());
        assert(sum_values(Seq::<(K, u64)>::empty()) == 0);
        assert(sum_values(u) == v + sum_values(u.drop_first()));
    } else if es[0].0 == k {
        assert(u[0] == (k, v));
        assert(u.drop_first() =~= es.drop_first());
    } else {
        lemma_sum_upsert(es.drop_first(), k, v);
        assert(u[0] == es[0]);
        assert(u.drop_first() =~= map_upsert(es.drop_first(), k, v));
    }
}

/// Erasing an entry removes exactly its value from the sum.
pub proof fn lemma_sum_erase<K>(es: Seq<(K, u64)>, k: K)
    ensures
        sum_values(map_erase(es, k)) == sum_values(es) - (match map_lookup(es, k) {
            Some(o) => o as int,
            None => 0,
        }),
    decreases es.len(),
{
    if es.len() > 0 && es[0].0 != k {
        lemma_sum_erase(es.drop_first(), k);
        assert((seq![es[0]] + map_erase(es.drop_first(), k)).drop_first() =~= map_erase(
            es.drop_first(),
            k,
        ));
    }
}

/// No single pledge exceeds the sum of all pledges.
pub proof fn lemma_lookup_le_sum<K>(es: Seq<(K, u64)>, k: K)
    ensures
        match map_lookup(es, k) {
            Some(o) => o <= sum_values(es),
            None => true,
        },
    decreases es.len(),
{
    if es.len() > 0 {
        lemma_sum_nonnegative(es.drop_first());
        if es[0].0 != k {
            lemma_lookup_le_sum(es.drop_first(), k);
        }
    }
}

/// A sum of pledges is never negative.
pub proof fn lemma_sum_nonnegative<K>(es: Seq<(K, u64)>)
    ensures
        sum_values(es) >= 0,
    decreases es.len(),
{
    if es.len() > 0 {
        lemma_sum_nonnegative(es.drop_first());
    }
}

/// An upsert keeps every key that was there and adds the new one.
pub proof fn lemma_has_key_upsert<K, V>(es: Seq<(K, V)>, k: K, v: V, w: K)
    ensures
        map_has_key(map_upsert(es, k, v), w) == (map_has_key(es, w) || w == k),
    decreases es.len(),
{
    let u = map_upsert(es, k, v);
    if es.len() == 0 {
        assert(u[0] == (k, v));
        assert(u.drop_first() =~= Seq::<(K, V)>::empty());
        assert(!map_has_key(Seq::<(K, V)>::empty(), w));
    } else if es[0].0 == k {
        assert(u[0] == (k, v));
        assert(u.drop_first() =~= es.drop_first());
    } else {
        lemma_has_key_upsert(es.drop_first(), k, v, w);
        assert(u[0] == es[0]);
        assert(u.drop_first() =~= map_upsert(es.drop_first(), k, v));
    }
}

/// Initialization succeeds exactly on a fresh pool with a valid parameter
/// set, and at most once: once it has succeeded, every further attempt is
/// rejected as already initialized and changes nothing.
pub proof fn lemma_initialize_exactly_once(pre: ContractV, p1: PoolParams, p2: PoolParams)
    ensures
        spec_initialize(pre, p1).1 is Ok <==> pre.state == PoolState::Uninitialized
            && crate::state::params_valid(p1),
        spec_initialize(pre, p1).1 is Ok ==> spec_initialize(spec_initialize(pre, p1).0, p2)
            == (spec_initialize(pre, p1).0, Err::<(), ContractError>(
            ContractError::PoolAlreadyInitialized,
        )),
{
}

/// The running total always equals the exact sum of the recorded pledges:
/// every operation preserves the balance.
pub proof fn lemma_balance_invariant(pre: ContractV)
    requires
        balanced(pre),
    ensures
        forall|p: PoolParams| #![auto] balanced(spec_initialize(pre, p).0),
        forall|c: Seq<u8>, a: u64, now: i64| #![auto] balanced(spec_contribute(pre, c, a, now).0),
        forall|pr: Seq<u8>, ad: Seq<char>, de: Seq<char>, now: i64|
            #![auto]
            balanced(spec_submit_proposal(pre, pr, ad, de, now).0),
        forall|v: Seq<u8>, id: u64, now: i64| #![auto] balanced(spec_cast_vote(pre, v, id, now).0),
        forall|now: i64, n: int| #![auto] balanced(spec_execute_transfer(pre, now, n).0),
        forall|c: Seq<u8>| #![auto] balanced(spec_emergency_withdraw(pre, c).0),
{
    assert forall|c: Seq<u8>, a: u64, now: i64| #![auto]
        balanced(spec_contribute(pre, c, a, now).0) by {
        lemma_sum_upsert(
            pre.contributions,
            c,
            ((pledged(pre.contributions, c) + a) as u64),
        );
    }
    assert forall|c: Seq<u8>| #![auto] balanced(spec_emergency_withdraw(pre, c).0) by {
        lemma_sum_erase(pre.contributions, c);
        lemma_lookup_le_sum(pre.contributions, c);
    }
}

/// An accepted contribution moves the running total by exactly the
/// accepted amount; a rejected one leaves the pledges and the total
/// untouched.
pub proof fn lemma_contribute_accounting(pre: ContractV, c: Seq<u8>, a: u64, now: i64)
    ensures
        spec_contribute(pre, c, a, now).1 is Ok ==> spec_contribute(pre, c, a, now).0.total_balance
            == pre.total_balance + a,
        spec_contribute(pre, c, a, now).1 is Ok ==> pledged(
            spec_contribute(pre, c, a, now).0.contributions,
            c,
        ) == pledged(pre.contributions, c) + a,
        spec_contribute(pre, c, a, now).1 is Err ==> spec_contribute(
            pre,
            c,
            a,
            now,
        ).0.contributions == pre.contributions && spec_contribute(pre, c, a, now).0.total_balance
            == pre.total_balance,
{
    if spec_contribute(pre, c, a, now).1 is Ok {
        let nv = (pledged(pre.contributions, c) + a) as u64;
        crate::maps::lemma_map_lookup_has(pre.contributions, c);
        lemma_lookup_after_upsert(pre.contributions, c, nv);
    }
}

/// Looking up the upserted key yields the new value.
pub proof fn lemma_lookup_after_upsert<K>(es: Seq<(K, u64)>, k: K, v: u64)
    ensures
        map_lookup(map_upsert(es, k, v), k) == Some(v),
    decreases es.len(),
{
    if es.len() > 0 && es[0].0 != k {
        lemma_lookup_after_upsert(es.drop_first(), k, v);
        assert((seq![es[0]] + map_upsert(es.drop_first(), k, v)).drop_first() =~= map_upsert(
            es.drop_first(),
            k,
            v,
        ));
    }
}

/// A voter who has already voted can never vote again: the attempt is
/// rejected and the voting record is untouched, whatever the proposal id
/// or the clock.
pub proof fn lemma_no_revote(pre: ContractV, voter: Seq<u8>, proposal_id: u64, now: i64)
    requires
        map_has_key(pre.votes, voter),
    ensures
        spec_cast_vote(pre, voter, proposal_id, now).1 is Err,
        spec_cast_vote(pre, voter, proposal_id, now).0.votes == pre.votes,
{
}

/// No operation ever removes a voter from the voting record, so the
/// rejection above holds across any sequence of intervening operations.
pub proof fn lemma_voting_record_persists(pre: ContractV, w: Seq<u8>)
    requires
        map_has_key(pre.votes, w),
    ensures
        forall|p: PoolParams| #![auto] map_has_key(spec_initialize(pre, p).0.votes, w),
        forall|c: Seq<u8>, a: u64, now: i64|
            #![auto]
            map_has_key(spec_contribute(pre, c, a, now).0.votes, w),
        forall|pr: Seq<u8>, ad: Seq<char>, de: Seq<char>, now: i64|
            #![auto]
            map_has_key(spec_submit_proposal(pre, pr, ad, de, now).0.votes, w),
        forall|v: Seq<u8>, id: u64, now: i64|
            #![auto]
            map_has_key(spec_cast_vote(pre, v, id, now).0.votes, w),
        forall|now: i64, n: int| #![auto] map_has_key(spec_execute_transfer(pre, now, n).0.votes, w),
        forall|c: Seq<u8>| #![auto] map_has_key(spec_emergency_withdraw(pre, c).0.votes, w),
{
    assert forall|v: Seq<u8>, id: u64, now: i64| #![auto]
        map_has_key(spec_cast_vote(pre, v, id, now).0.votes, w) by {
        lemma_has_key_upsert(pre.votes, v, id, w);
    }
}

/// Phases only ever move forward: no operation lowers the pool's stage.
pub proof fn lemma_phases_move_forward(pre: ContractV)
    ensures
        forall|p: PoolParams|
            #![auto]
            phase_index(spec_initialize(pre, p).0.state) >= phase_index(pre.state),
        forall|c: Seq<u8>, a: u64, now: i64|
            #![auto]
            phase_index(spec_contribute(pre, c, a, now).0.state) >= phase_index(pre.state),
        forall|pr: Seq<u8>, ad: Seq<char>, de: Seq<char>, now: i64|
            #![auto]
            phase_index(spec_submit_proposal(pre, pr, ad, de, now).0.state) >= phase_index(
                pre.state,
            ),
        forall|v: Seq<u8>, id: u64, now: i64|
            #![auto]
            phase_index(spec_cast_vote(pre, v, id, now).0.state) >= phase_index(pre.state),
        forall|now: i64, n: int|
            #![auto]
            phase_index(spec_execute_transfer(pre, now, n).0.state) >= phase_index(pre.state),
        forall|c: Seq<u8>|
            #![auto]
            phase_index(spec_emergency_withdraw(pre, c).0.state) >= phase_index(pre.state),
{
}

/// The clock never lags the phase: an operation run at time `now` leaves
/// a state that is still consistent at every later time.
pub proof fn lemma_time_consistency_invariant(pre: ContractV, now: i64, later: i64)
    requires
        time_consistent(pre, now),
        now <= later,
    ensures
        forall|p: PoolParams| #![auto] time_consistent(spec_initialize(pre, p).0, later),
        forall|c: Seq<u8>, a: u64| #![auto] time_consistent(spec_contribute(pre, c, a, now).0, later),
        forall|pr: Seq<u8>, ad: Seq<char>, de: Seq<char>|
            #![auto]
            time_consistent(spec_submit_proposal(pre, pr, ad, de, now).0, later),
        forall|v: Seq<u8>, id: u64|
            #![auto]
            time_consistent(spec_cast_vote(pre, v, id, now).0, later),
        forall|n: int| #![auto] time_consistent(spec_execute_transfer(pre, now, n).0, later),
        forall|c: Seq<u8>| #![auto] time_consistent(spec_emergency_withdraw(pre, c).0, later),
{
}

/// Run twice in sequence, a successful transfer is followed by a
/// rejection: once the first call succeeds, the second always reports the
/// transfer as already executed. The pool must be time-consistent (an
/// execution stage is only reached past the voting deadline, as every
/// reachable state is) and the clock must not run backwards.
pub proof fn lemma_execute_transfer_once(
    pre: ContractV,
    now1: i64,
    n1: int,
    now2: i64,
    n2: int,
)
    requires
        time_consistent(pre, now1),
        now1 <= now2,
        spec_execute_transfer(pre, now1, n1).1 is Ok,
    ensures
        spec_execute_transfer(spec_execute_transfer(pre, now1, n1).0, now2, n2).1 == Err::<
            (),
            ContractError,
        >(ContractError::TransferAlreadyExecuted),
        spec_execute_transfer(spec_execute_transfer(pre, now1, n1).0, now2, n2).0
            == spec_execute_transfer(pre, now1, n1).0,
{
}


/// An upsert on a unique-keyed collection keeps the keys unique.
pub proof fn lemma_unique_upsert<K, V>(es: Seq<(K, V)>, k: K, v: V)
    requires
        unique_keys(es),
    ensures
        unique_keys(map_upsert(es, k, v)),
{
    lemma_map_has_key_index(es, k);
    if map_has_key(es, k) {
        let i = choose|i: int| 0 <= i < es.len() && es[i].0 == k;
        assert(forall|j: int| 0 <= j < i ==> es[j].0 != k);
        lemma_map_upsert_found(es, k, v, i);
    } else {
        assert(forall|j: int| 0 <= j < es.len() ==> es[j].0 != k);
        lemma_map_upsert_absent(es, k, v);
    }
}

/// Erasing from a unique-keyed collection keeps the keys unique.
pub proof fn lemma_unique_erase<K, V>(es: Seq<(K, V)>, k: K)
    requires
        unique_keys(es),
    ensures
        unique_keys(map_erase(es, k)),
{
    lemma_map_has_key_index(es, k);
    if map_has_key(es, k) {
        let i = choose|i: int| 0 <= i < es.len() && es[i].0 == k;
        assert(forall|j: int| 0 <= j < i ==> es[j].0 != k);
        lemma_map_erase_found(es, k, i);
    } else {
        assert(forall|j: int| 0 <= j < es.len() ==> es[j].0 != k);
        lemma_map_erase_absent(es, k);
    }
}

/// An upsert among 32-byte identities with a 32-byte identity leaves
/// every stored identity 32 bytes.
pub proof fn lemma_upsert_key_lengths(es: Seq<(Seq<u8>, u64)>, k: Seq<u8>, v: u64)
    requires
        forall|i: int| 0 <= i < es.len() ==> (#[trigger] es[i]).0.len() == 32,
        k.len() == 32,
    ensures
        forall|i: int|
            0 <= i < map_upsert(es, k, v).len() ==> (#[trigger] map_upsert(es, k, v)[i]).0.len()
                == 32,
    decreases es.len(),
{
    let u = map_upsert(es, k, v);
    if es.len() == 0 {
        assert(u[0] == (k, v));
    } else if es[0].0 == k {
        assert forall|m: int| 0 <= m < u.len() implies (#[trigger] u[m]).0.len() == 32 by {
            if m == 0 {
                assert(u[0] == (k, v));
            } else {
                assert(u[m] == es[m]);
            }
        }
    } else {
        lemma_upsert_key_lengths(es.drop_first(), k, v);
        let ur = map_upsert(es.drop_first(), k, v);
        assert forall|m: int| 0 <= m < u.len() implies (#[trigger] u[m]).0.len() == 32 by {
            if m == 0 {
                assert(u[0] == es[0]);
            } else {
                assert(u[m] == ur[m - 1]);
            }
        }
    }
}

/// An erase among 32-byte identities leaves every stored identity 32
/// bytes.
pub proof fn lemma_erase_key_lengths(es: Seq<(Seq<u8>, u64)>, k: Seq<u8>)
    requires
        forall|i: int| 0 <= i < es.len() ==> (#[trigger] es[i]).0.len() == 32,
    ensures
        forall|i: int|
            0 <= i < map_erase(es, k).len() ==> (#[trigger] map_erase(es, k)[i]).0.len() == 32,
    decreases es.len(),
{
    let u = map_erase(es, k);
    if es.len() == 0 {
    } else if es[0].0 == k {
        assert forall|m: int| 0 <= m < u.len() implies (#[trigger] u[m]).0.len() == 32 by {
            assert(u[m] == es[m + 1]);
        }
    } else {
        lemma_erase_key_lengths(es.drop_first(), k);
        let ur = map_erase(es.drop_first(), k);
        assert forall|m: int| 0 <= m < u.len() implies (#[trigger] u[m]).0.len() == 32 by {
            if m == 0 {
                assert(u[0] == es[0]);
            } else {
                assert(u[m] == ur[m - 1]);
            }
        }
    }
}

/// An upsert among proposals with 32-byte proposers, with a proposal
/// whose proposer is 32 bytes, leaves every stored proposer 32 bytes.
pub proof fn lemma_prop_upsert_proposers(es: Seq<(u64, ProposalV)>, k: u64, p: ProposalV)
    requires
        forall|i: int| 0 <= i < es.len() ==> (#[trigger] es[i]).1.proposer.len() == 32,
        p.proposer.len() == 32,
    ensures
        forall|i: int|
            0 <= i < map_upsert(es, k, p).len() ==> (#[trigger] map_upsert(
                es,
                k,
                p,
            )[i]).1.proposer.len() == 32,
    decreases es.len(),
{
    let u = map_upsert(es, k, p);
    if es.len() == 0 {
        assert(u[0] == (k, p));
    } else if es[0].0 == k {
        assert forall|m: int| 0 <= m < u.len() implies (#[trigger] u[m]).1.proposer.len()
            == 32 by {
            if m == 0 {
                assert(u[0] == (k, p));
            } else {
                assert(u[m] == es[m]);
            }
        }
    } else {
        lemma_prop_upsert_proposers(es.drop_first(), k, p);
        let ur = map_upsert(es.drop_first(), k, p);
        assert forall|m: int| 0 <= m < u.len() implies (#[trigger] u[m]).1.proposer.len()
            == 32 by {
            if m == 0 {
                assert(u[0] == es[0]);
            } else {
                assert(u[m] == ur[m - 1]);
            }
        }
    }
}

/// A proposal found in a registry of 32-byte proposers has a 32-byte
/// proposer.
pub proof fn lemma_lookup_proposer_length(es: Seq<(u64, ProposalV)>, k: u64)
    requires
        forall|i: int| 0 <= i < es.len() ==> (#[trigger] es[i]).1.proposer.len() == 32,
    ensures
        match map_lookup(es, k) {
            Some(p) => p.proposer.len() == 32,
            None => true,
        },
    decreases es.len(),
{
    if es.len() > 0 && es[0].0 != k {
        lemma_lookup_proposer_length(es.drop_first(), k);
    }
}

/// Every operation preserves well-formedness: collections keep unique
/// keys and every stored identity stays 32 bytes, provided the identities
/// handed in are themselves 32 bytes. Together with the round-trip law,
/// this keeps every reachable aggregate state exactly re-decodable.
pub proof fn lemma_operations_preserve_well_formed(pre: ContractV)
    requires
        well_formed(pre),
    ensures
        forall|p: PoolParams| #![auto] well_formed(spec_initialize(pre, p).0),
        forall|c: Seq<u8>, a: u64, now: i64|
            c.len() == 32 ==> well_formed(#[trigger] spec_contribute(pre, c, a, now).0),
        forall|pr: Seq<u8>, ad: Seq<char>, de: Seq<char>, now: i64|
            pr.len() == 32 ==> well_formed(
                #[trigger] spec_submit_proposal(pre, pr, ad, de, now).0,
            ),
        forall|v: Seq<u8>, id: u64, now: i64|
            v.len() == 32 ==> well_formed(#[trigger] spec_cast_vote(pre, v, id, now).0),
        forall|now: i64, n: int| #![auto] well_formed(spec_execute_transfer(pre, now, n).0),
        forall|c: Seq<u8>| #![auto] well_formed(spec_emergency_withdraw(pre, c).0),
{
    assert forall|c: Seq<u8>, a: u64, now: i64| c.len() == 32 implies well_formed(
        #[trigger] spec_contribute(pre, c, a, now).0,
    ) by {
        let nv = (pledged(pre.contributions, c) + a) as u64;
        lemma_unique_upsert(pre.contributions, c, nv);
        lemma_upsert_key_lengths(pre.contributions, c, nv);
    }
    assert forall|pr: Seq<u8>, ad: Seq<char>, de: Seq<char>, now: i64|
        pr.len() == 32 implies well_formed(
        #[trigger] spec_submit_proposal(pre, pr, ad, de, now).0,
    ) by {
        let id = pre.next_proposal_id;
        let proposal = ProposalV {
            id,
            proposer: pr,
            bitcoin_address: ad,
            description: de,
            votes: 0u64,
        };
        lemma_unique_upsert(pre.proposals, id, proposal);
        lemma_prop_upsert_proposers(pre.proposals, id, proposal);
    }
    assert forall|v: Seq<u8>, id: u64, now: i64| v.len() == 32 implies well_formed(
        #[trigger] spec_cast_vote(pre, v, id, now).0,
    ) by {
        lemma_unique_upsert(pre.votes, v, id);
        lemma_upsert_key_lengths(pre.votes, v, id);
        lemma_lookup_proposer_length(pre.proposals, id);
        match map_lookup(pre.proposals, id) {
            Some(prop) => {
                let bumped = ProposalV { votes: crate::state::wrap_inc(prop.votes), ..prop };
                lemma_unique_upsert(pre.proposals, id, bumped);
                lemma_prop_upsert_proposers(pre.proposals, id, bumped);
            },
            None => {},
        }
    }
    assert forall|c: Seq<u8>| #![auto] well_formed(spec_emergency_withdraw(pre, c).0) by {
        lemma_unique_erase(pre.contributions, c);
        lemma_erase_key_lengths(pre.contributions, c);
    }
}


/// An upsert grows a collection only when the key is new.
pub proof fn lemma_upsert_len<K, V>(es: Seq<(K, V)>, k: K, v: V)
    ensures
        map_upsert(es, k, v).len() == if map_has_key(es, k) {
            es.len() as int
        } else {
            es.len() + 1 as int
        },
    decreases es.len(),
{
    if es.len() > 0 && es[0].0 != k {
        lemma_upsert_len(es.drop_first(), k, v);
    }
}

/// A decoded string re-encodes within its 4-byte length prefix.
pub proof fn lemma_dec_string_encodable(s: Seq<u8>, i: int)
    ensures
        match dec_string(s, i) {
            Ok(sv) => string_encodable(sv.0),
            Err(_) => true,
        },
{
    match dec_u32(s, i) {
        Ok((n, j)) => {
            if j + n <= s.len() && vstd::utf8::valid_utf8(s.subrange(j, j + n)) {
                decode_utf8_encode_utf8(s.subrange(j, j + n));
            }
        },
        Err(_) => {},
    }
}

/// A decoded proposal carries a 32-byte proposer and re-encodable
/// strings.
pub proof fn lemma_dec_proposal_wf(s: Seq<u8>, i: int)
    ensures
        match dec_proposal(s, i) {
            Ok(sv) => sv.0.proposer.len() == 32 && string_encodable(sv.0.bitcoin_address)
                && string_encodable(sv.0.description),
            Err(_) => true,
        },
{
    match dec_u64(s, i) {
        Err(_) => {},
        Ok((_, i1)) => match dec_pubkey(s, i1) {
            Err(_) => {},
            Ok((_, i2)) => {
                lemma_dec_string_encodable(s, i2);
                match dec_string(s, i2) {
                    Err(_) => {},
                    Ok((_, i3)) => {
                        lemma_dec_string_encodable(s, i3);
                    },
                }
            },
        },
    }
}

/// An upsert among bounded proposals with a bounded proposal stays
/// bounded: 32-byte proposers and re-encodable strings throughout.
pub proof fn lemma_prop_upsert_bounds(es: Seq<(u64, ProposalV)>, k: u64, p: ProposalV)
    requires
        forall|i: int|
            0 <= i < es.len() ==> (#[trigger] es[i]).1.proposer.len() == 32 && string_encodable(
                es[i].1.bitcoin_address,
            ) && string_encodable(es[i].1.description),
        p.proposer.len() == 32,
        string_encodable(p.bitcoin_address),
        string_encodable(p.description),
    ensures
        forall|i: int|
            0 <= i < map_upsert(es, k, p).len() ==> (#[trigger] map_upsert(
                es,
                k,
                p,
            )[i]).1.proposer.len() == 32 && string_encodable(
                map_upsert(es, k, p)[i].1.bitcoin_address,
            ) && string_encodable(map_upsert(es, k, p)[i].1.description),
    decreases es.len(),
{
    let u = map_upsert(es, k, p);
    if es.len() == 0 {
        assert(u[0] == (k, p));
    } else if es[0].0 == k {
        assert forall|m: int| 0 <= m < u.len() implies (#[trigger] u[m]).1.proposer.len() == 32
            && string_encodable(u[m].1.bitcoin_address) && string_encodable(
            u[m].1.description,
        ) by {
            if m == 0 {
                assert(u[0] == (k, p));
            } else {
                assert(u[m] == es[m]);
            }
        }
    } else {
        lemma_prop_upsert_bounds(es.drop_first(), k, p);
        let ur = map_upsert(es.drop_first(), k, p);
        assert forall|m: int| 0 <= m < u.len() implies (#[trigger] u[m]).1.proposer.len() == 32
            && string_encodable(u[m].1.bitcoin_address) && string_encodable(
            u[m].1.description,
        ) by {
            if m == 0 {
                assert(u[0] == es[0]);
            } else {
                assert(u[m] == ur[m - 1]);
            }
        }
    }
}

/// A decoded pledge collection has unique 32-byte keys and no more
/// entries than its count announced.
pub proof fn lemma_dec_pk_entries_wf(s: Seq<u8>, i: int, n: nat, acc: Seq<(Seq<u8>, u64)>)
    requires
        unique_keys(acc),
        forall|m: int| 0 <= m < acc.len() ==> (#[trigger] acc[m]).0.len() == 32,
    ensures
        match dec_pk_entries(s, i, n, acc) {
            Ok(sv) => unique_keys(sv.0) && (forall|m: int|
                0 <= m < sv.0.len() ==> (#[trigger] sv.0[m]).0.len() == 32) && sv.0.len()
                <= acc.len() + n,
            Err(_) => true,
        },
    decreases n,
{
    if n > 0 {
        match dec_pubkey(s, i) {
            Err(_) => {},
            Ok((k, j)) => match dec_u64(s, j) {
                Err(_) => {},
                Ok((v, j2)) => {
                    lemma_unique_upsert(acc, k, v);
                    lemma_upsert_key_lengths(acc, k, v);
                    lemma_upsert_len(acc, k, v);
                    lemma_dec_pk_entries_wf(s, j2, (n - 1) as nat, map_upsert(acc, k, v));
                },
            },
        }
    }
}

pub proof fn lemma_dec_pk_map_wf(s: Seq<u8>, i: int)
    ensures
        match dec_pk_map(s, i) {
            Ok(sv) => unique_keys(sv.0) && (forall|m: int|
                0 <= m < sv.0.len() ==> (#[trigger] sv.0[m]).0.len() == 32) && sv.0.len()
                <= u32::MAX,
            Err(_) => true,
        },
{
    match dec_u32(s, i) {
        Err(_) => {},
        Ok((n, j)) => {
            lemma_dec_pk_entries_wf(s, j, n as nat, Seq::empty());
        },
    }
}

/// A decoded proposal registry has unique ids, bounded contents, and no
/// more entries than its count announced.
pub proof fn lemma_dec_prop_entries_wf(s: Seq<u8>, i: int, n: nat, acc: Seq<(u64, ProposalV)>)
    requires
        unique_keys(acc),
        forall|m: int|
            0 <= m < acc.len() ==> (#[trigger] acc[m]).1.proposer.len() == 32 && string_encodable(
                acc[m].1.bitcoin_address,
            ) && string_encodable(acc[m].1.description),
    ensures
        match dec_prop_entries(s, i, n, acc) {
            Ok(sv) => unique_keys(sv.0) && (forall|m: int|
                0 <= m < sv.0.len() ==> (#[trigger] sv.0[m]).1.proposer.len() == 32
                    && string_encodable(sv.0[m].1.bitcoin_address) && string_encodable(
                    sv.0[m].1.description,
                )) && sv.0.len() <= acc.len() + n,
            Err(_) => true,
        },
    decreases n,
{
    if n > 0 {
        match dec_u64(s, i) {
            Err(_) => {},
            Ok((k, j)) => {
                lemma_dec_proposal_wf(s, j);
                match dec_proposal(s, j) {
                    Err(_) => {},
                    Ok((p, j2)) => {
                        lemma_unique_upsert(acc, k, p);
                        lemma_prop_upsert_bounds(acc, k, p);
                        lemma_upsert_len(acc, k, p);
                        lemma_dec_prop_entries_wf(s, j2, (n - 1) as nat, map_upsert(acc, k, p));
                    },
                }
            },
        }
    }
}

pub proof fn lemma_dec_prop_map_wf(s: Seq<u8>, i: int)
    ensures
        match dec_prop_map(s, i) {
            Ok(sv) => unique_keys(sv.0) && (forall|m: int|
                0 <= m < sv.0.len() ==> (#[trigger] sv.0[m]).1.proposer.len() == 32
                    && string_encodable(sv.0[m].1.bitcoin_address) && string_encodable(
                    sv.0[m].1.description,
                )) && sv.0.len() <= u32::MAX,
            Err(_) => true,
        },
{
    match dec_u32(s, i) {
        Err(_) => {},
        Ok((n, j)) => {
            lemma_dec_prop_entries_wf(s, j, n as nat, Seq::empty());
        },
    }
}

/// Whatever bytes the host hands back, a successfully decoded aggregate
/// is well-formed and fits the encoding again. With the round-trip law
/// and the preservation of well-formedness by every operation, a
/// persisted pool can always be reloaded, stepped, and re-persisted
/// exactly.
pub proof fn lemma_decoded_contract_well_formed(s: Seq<u8>, i: int)
    ensures
        match dec_contract(s, i) {
            Ok(sv) => well_formed(sv.0) && encodable(sv.0),
            Err(_) => true,
        },
{
    match dec_state(s, i) {
        Err(_) => {},
        Ok((_, i1)) => match dec_opt_params(s, i1) {
            Err(_) => {},
            Ok((_, i2)) => match dec_u64(s, i2) {
                Err(_) => {},
                Ok((_, i3)) => {
                    lemma_dec_pk_map_wf(s, i3);
                    match dec_pk_map(s, i3) {
                        Err(_) => {},
                        Ok((_, i4)) => {
                            lemma_dec_prop_map_wf(s, i4);
                            match dec_prop_map(s, i4) {
                                Err(_) => {},
                                Ok((_, i5)) => {
                                    lemma_dec_pk_map_wf(s, i5);
                                },
                            }
                        },
                    }
                },
            },
        },
    }
}

} // verus!
