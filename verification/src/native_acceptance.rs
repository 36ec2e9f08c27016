//! The acceptance of a native settlement run: which run a contract asks for,
//! and what each of its steps has to show.

use crate::bytes::{
    digest_equal, hex_encode, hex_text, sha256, sha256_digest, sha256_value, Digest32,
};
use crate::json::{json_check, json_error, json_text, json_text_field};
use crate::market_runtime::{
    check_observation, matched_slots, observation_fault, traded_slots, ObservedFinality, Settled,
};
use crate::scalars::{point_decodes, ristretto_decodes};
use crate::store_model::PrivateStateFinality;
use crate::text::{append_decimal, append_text, contains_text, decimal_text, text_contains};
use crate::store::text_result;
use crate::text_map::text_equal;
use crate::types::{MpcBatchResult, MpcSlotResult};
use vstd::prelude::*;

verus! {

/// The acceptance contracts of native settlement.
#[derive(Clone, Copy, Debug, PartialEq, Eq, Structural)]
pub enum NativeContract {
    Notes,
    Recovery,
    Wallet,
    FirstFinality,
    SecondFinality,
    Multifill,
    Cycle,
    FirstLifecycle,
    SecondLifecycle,
    Worker,
    FirstExpiry,
    SecondExpiry,
    Deferred,
}

/// The contract with an identifier.
pub open spec fn contract_named(id: Seq<char>) -> Option<NativeContract> {
    if id == "oclob-native-notes-v1"@ {
        Some(NativeContract::Notes)
    } else if id == "oclob-native-recovery-v1"@ {
        Some(NativeContract::Recovery)
    } else if id == "oclob-native-wallet-v1"@ {
        Some(NativeContract::Wallet)
    } else if id == "oclob-native-finality-v1"@ {
        Some(NativeContract::FirstFinality)
    } else if id == "oclob-native-finality-v2"@ {
        Some(NativeContract::SecondFinality)
    } else if id == "oclob-native-multifill-v1"@ {
        Some(NativeContract::Multifill)
    } else if id == "oclob-native-cycle-v1"@ {
        Some(NativeContract::Cycle)
    } else if id == "oclob-native-lifecycle-v1"@ {
        Some(NativeContract::FirstLifecycle)
    } else if id == "oclob-native-lifecycle-v2"@ {
        Some(NativeContract::SecondLifecycle)
    } else if id == "oclob-native-worker-v1"@ {
        Some(NativeContract::Worker)
    } else if id == "oclob-native-expiry-v1"@ {
        Some(NativeContract::FirstExpiry)
    } else if id == "oclob-native-expiry-v2"@ {
        Some(NativeContract::SecondExpiry)
    } else if id == "oclob-native-deferred-v1"@ {
        Some(NativeContract::Deferred)
    } else {
        None
    }
}

fn contract_of(id: &str) -> (contract: Option<NativeContract>)
    ensures
        contract == contract_named(id@),
{
    if text_equal(id, "oclob-native-notes-v1") {
        Some(NativeContract::Notes)
    } else if text_equal(id, "oclob-native-recovery-v1") {
        Some(NativeContract::Recovery)
    } else if text_equal(id, "oclob-native-wallet-v1") {
        Some(NativeContract::Wallet)
    } else if text_equal(id, "oclob-native-finality-v1") {
        Some(NativeContract::FirstFinality)
    } else if text_equal(id, "oclob-native-finality-v2") {
        Some(NativeContract::SecondFinality)
    } else if text_equal(id, "oclob-native-multifill-v1") {
        Some(NativeContract::Multifill)
    } else if text_equal(id, "oclob-native-cycle-v1") {
        Some(NativeContract::Cycle)
    } else if text_equal(id, "oclob-native-lifecycle-v1") {
        Some(NativeContract::FirstLifecycle)
    } else if text_equal(id, "oclob-native-lifecycle-v2") {
        Some(NativeContract::SecondLifecycle)
    } else if text_equal(id, "oclob-native-worker-v1") {
        Some(NativeContract::Worker)
    } else if text_equal(id, "oclob-native-expiry-v1") {
        Some(NativeContract::FirstExpiry)
    } else if text_equal(id, "oclob-native-expiry-v2") {
        Some(NativeContract::SecondExpiry)
    } else if text_equal(id, "oclob-native-deferred-v1") {
        Some(NativeContract::Deferred)
    } else {
        None
    }
}

/// The contract that a research manifest binds a run to: one of the known
/// contracts, at the stage of observing the final metric, and with the hash of
/// the contract's own file.
pub open spec fn bound_contract(manifest: Seq<u8>, contract: Seq<u8>) -> Option<NativeContract> {
    match json_text(manifest, "contract_id"@) {
        Some(id) => if json_text(manifest, "contract_sha256"@) == Some(hex_text(sha256(contract)))
            && json_text(manifest, "stage"@) == Some(
            "RUN_ROUGH_END_TO_END_AND_OBSERVE_FINAL_METRIC"@,
        ) {
            contract_named(id)
        } else {
            None
        },
        None => None,
    }
}

/// The contract that a manifest binds a run to, or why the run does not start:
/// the manifest is no JSON, or binds it to no contract.
pub open spec fn preflight_result(manifest: Seq<u8>, contract: Seq<u8>) -> Result<
    NativeContract,
    Seq<char>,
> {
    match (json_error(manifest), bound_contract(manifest, contract)) {
        (Some(text), _) => Err(text),
        (None, Some(bound)) => Ok(bound),
        (None, None) => Err("native research preflight failed"@),
    }
}

/// Find the contract that a manifest binds a run to.
pub fn preflight(manifest: &[u8], contract: &[u8]) -> (r: Result<NativeContract, String>)
    ensures
        text_result(r) == preflight_result(manifest@, contract@),
{
    match json_check(manifest) {
        Err(e) => return Err(e),
        Ok(_) => {},
    }
    let digest = sha256_digest(contract);
    let hash = hex_encode(&digest);
    let pinned: bool = match json_text_field(manifest, "contract_sha256") {
        Some(text) => text_equal(text.as_str(), hash.as_str()),
        None => false,
    };
    let staged: bool = match json_text_field(manifest, "stage") {
        Some(text) => text_equal(
            text.as_str(),
            "RUN_ROUGH_END_TO_END_AND_OBSERVE_FINAL_METRIC",
        ),
        None => false,
    };
    let bound = match json_text_field(manifest, "contract_id") {
        Some(id) => contract_of(id.as_str()),
        None => None,
    };
    if !pinned || !staged {
        return Err("native research preflight failed".to_owned());
    }
    match bound {
        Some(contract) => Ok(contract),
        None => Err("native research preflight failed".to_owned()),
    }
}

/// What a run does.
#[derive(Clone, Copy, Debug, PartialEq, Eq, Structural)]
pub enum NativeMode {
    Expiry,
    LifecyclePhase { worker: bool },
    FinalizeCycle { continues_lifecycle: bool },
    FinalizeWallet,
    Match { cycle: bool, lifecycle: bool, next_match: bool, multifill: bool },
}

pub open spec fn is_lifecycle(contract: NativeContract) -> bool {
    contract is FirstLifecycle || contract is SecondLifecycle || contract is Worker
}

pub open spec fn is_cycle(contract: NativeContract) -> bool {
    contract is Cycle || is_lifecycle(contract)
}

/// What a run under a contract does. `phase` tells whether a lifecycle phase
/// was asked for, `next_match` whether the second match was, and `finalize`
/// whether a recovered wallet is to be accepted.
pub open spec fn mode_for(contract: NativeContract, phase: bool, next_match: bool, finalize: bool) -> Result<
    NativeMode,
    Seq<char>,
> {
    if contract is FirstExpiry || contract is SecondExpiry {
        Ok(NativeMode::Expiry)
    } else if phase {
        if is_lifecycle(contract) {
            Ok(NativeMode::LifecyclePhase { worker: contract is Worker })
        } else {
            Err("lifecycle execution needs its bound contract"@)
        }
    } else if next_match && !is_cycle(contract) {
        Err("next-match mode needs its cycle contract"@)
    } else if finalize {
        if is_cycle(contract) {
            Ok(NativeMode::FinalizeCycle { continues_lifecycle: is_lifecycle(contract) })
        } else {
            Ok(NativeMode::FinalizeWallet)
        }
    } else {
        Ok(
            NativeMode::Match {
                cycle: is_cycle(contract),
                lifecycle: is_lifecycle(contract),
                next_match,
                multifill: contract is Multifill || contract is Deferred || (is_cycle(contract)
                    && !next_match),
            },
        )
    }
}

/// Choose what a run under a contract does.
pub fn select_mode(contract: NativeContract, phase: bool, next_match: bool, finalize: bool) -> (r:
    Result<NativeMode, String>)
    ensures
        crate::store::text_result(r) == mode_for(contract, phase, next_match, finalize),
{
    if contract == NativeContract::FirstExpiry || contract == NativeContract::SecondExpiry {
        return Ok(NativeMode::Expiry);
    }
    let worker: bool = contract == NativeContract::Worker;
    let lifecycle: bool = contract == NativeContract::FirstLifecycle || contract
        == NativeContract::SecondLifecycle || worker;
    if phase {
        if !lifecycle {
            return Err("lifecycle execution needs its bound contract".to_owned());
        }
        return Ok(NativeMode::LifecyclePhase { worker });
    }
    let cycle: bool = contract == NativeContract::Cycle || lifecycle;
    if next_match && !cycle {
        return Err("next-match mode needs its cycle contract".to_owned());
    }
    if finalize {
        return Ok(
            if cycle {
                NativeMode::FinalizeCycle { continues_lifecycle: lifecycle }
            } else {
                NativeMode::FinalizeWallet
            },
        );
    }
    let multifill: bool = contract == NativeContract::Multifill || contract
        == NativeContract::Deferred || (cycle && !next_match);
    Ok(NativeMode::Match { cycle, lifecycle, next_match, multifill })
}

/// The length of an issuer's hybrid key.
pub const ISSUER_KEY_BYTES: usize = 1984;

/// Check an issuer's key by its length.
pub fn check_issuer_key(key: &[u8]) -> (r: Result<(), String>)
    ensures
        r is Ok == (key@.len() == ISSUER_KEY_BYTES),
        r matches Err(e) ==> e@ == "legacy issuer key requires PQC re-enrollment"@,
{
    if key.len() != ISSUER_KEY_BYTES {
        return Err("legacy issuer key requires PQC re-enrollment".to_owned());
    }
    Ok(())
}

/// Check that both sides reserved before they traded.
pub fn check_pretrade(maker: bool, taker: bool) -> (r: Result<(), String>)
    ensures
        r is Ok == (maker && taker),
        r matches Err(e) ==> e@ == "native acceptance refuses legacy raw-order capabilities"@,
{
    if !maker || !taker {
        return Err("native acceptance refuses legacy raw-order capabilities".to_owned());
    }
    Ok(())
}

/// Check that a resting order did not trade when it arrived.
pub fn check_resting_arrival(result: &MpcBatchResult, second: bool) -> (r: Result<(), String>)
    ensures
        r is Ok == (forall|i: int|
            0 <= i < result.slots@.len() ==> !(#[trigger] result.slots@[i]).matched),
        r matches Err(e) ==> e@ == (if second {
            "second resting sell unexpectedly matched"@
        } else {
            "first native order unexpectedly matched"@
        }),
{
    if result.any_matched() {
        return Err(
            if second {
                "second resting sell unexpectedly matched".to_owned()
            } else {
                "first native order unexpectedly matched".to_owned()
            },
        );
    }
    Ok(())
}

pub open spec fn fill_is(slot: MpcSlotResult, price: u64, quantity: u64) -> bool {
    slot.trade_price == price && slot.trade_quantity == quantity
}

/// The fills that the scenario produces: of every maker, at the exact prices
/// and quantities, and with nothing left of the arriving order.
pub open spec fn expected_fills(
    result: &MpcBatchResult,
    makers: int,
    next_match: bool,
    multifill: bool,
) -> bool {
    let slots = result.slots@;
    &&& matched_slots(slots).len() == makers
    &&& if next_match {
        fill_is(slots[0], 101, 1)
    } else if multifill {
        fill_is(slots[0], 100, 60)
    } else {
        fill_is(slots[0], 100, 40)
    }
    &&& multifill ==> fill_is(slots[1], 101, 30)
    &&& result.arriving_remaining == 0
}

/// Check the fills of the scenario. There is a first slot where a maker
/// traded, and a second where two did.
pub fn check_expected_fills(
    result: &MpcBatchResult,
    makers: usize,
    next_match: bool,
    multifill: bool,
) -> (r: Result<(), String>)
    requires
        makers >= 1,
        multifill ==> makers >= 2,
    ensures
        r is Ok == expected_fills(result, makers as int, next_match, multifill),
        r matches Err(e) ==> e@ == "native scenario did not produce the exact expected fills"@,
{
    let traded = traded_slots(&result.slots);
    if traded.len() != makers {
        return Err("native scenario did not produce the exact expected fills".to_owned());
    }
    proof {
        lemma_matched_count(result.slots@, result.slots@.len());
    }
    let price: u64 = if next_match {
        101
    } else {
        100
    };
    let quantity: u64 = if next_match {
        1
    } else if multifill {
        60
    } else {
        40
    };
    if result.slots[0].trade_price != price || result.slots[0].trade_quantity != quantity || (
    multifill && (result.slots[1].trade_price != 101 || result.slots[1].trade_quantity != 30))
        || result.arriving_remaining != 0 {
        return Err("native scenario did not produce the exact expected fills".to_owned());
    }
    Ok(())
}

proof fn lemma_matched_count(slots: Seq<MpcSlotResult>, count: nat)
    ensures
        crate::market_runtime::matched_among(slots, count).len() <= count,
    decreases count,
{
    if count > 0 {
        lemma_matched_count(slots, (count - 1) as nat);
    }
}

/// Check the reservations before the match: where their heads stand, and how
/// often their facilities have been used.
pub fn check_initial_reserves(
    maker_sequence: u64,
    taker_sequence: u64,
    facilities: [u64; 2],
    makers: usize,
    next_match: bool,
) -> (r: Result<(), String>)
    ensures
        ({
            let heads = maker_sequence == (if next_match {
                1u64
            } else {
                0u64
            }) && taker_sequence == 0;
            let used = if next_match {
                facilities@[0] == 4 && facilities@[1] == 4
            } else {
                facilities@[0] == makers && facilities@[1] == 1
            };
            &&& r is Ok == (heads && used)
            &&& r matches Err(e) ==> e@ == (if !heads {
                "initial native holds were already consumed"@
            } else {
                "native fixture contains duplicate or unexpected pretrade reservations"@
            })
        }),
{
    let first: u64 = if next_match {
        1
    } else {
        0
    };
    if maker_sequence != first || taker_sequence != 0 {
        return Err("initial native holds were already consumed".to_owned());
    }
    let used: bool = if next_match {
        facilities[0] == 4 && facilities[1] == 4
    } else {
        facilities[0] == makers as u64 && facilities[1] == 1
    };
    if !used {
        return Err(
            "native fixture contains duplicate or unexpected pretrade reservations".to_owned(),
        );
    }
    Ok(())
}

/// Check that a node refused to sign a substituted result, and to sign a member
/// taken out of its batch. `extracted` is the second attempt, where there was
/// one.
pub fn check_signing_guards(
    substituted: &Result<(), String>,
    extracted: &Option<Result<(), String>>,
) -> (r: Result<(), String>)
    ensures
        ({
            let member = match *extracted {
                None => true,
                Some(Err(text)) => text_contains(text@, "locally executed matched slots"@),
                Some(Ok(_)) => false,
            };
            &&& r is Ok == (substituted is Err && member)
            &&& r matches Err(e) ==> e@ == (if substituted is Ok {
                "resident node signed a substituted MPC result"@
            } else {
                "node did not reject signing an extracted member"@
            })
        }),
{
    if substituted.is_ok() {
        return Err("resident node signed a substituted MPC result".to_owned());
    }
    let member: bool = match extracted {
        None => true,
        Some(Err(text)) => contains_text(text.as_str(), "locally executed matched slots"),
        Some(Ok(_)) => false,
    };
    if !member {
        return Err("node did not reject signing an extracted member".to_owned());
    }
    Ok(())
}

/// What a node's store said before and after a request that it was to refuse,
/// and the code of its refusal.
pub struct RefusedRequest {
    pub code: Option<String>,
    pub unchanged: bool,
}

/// Check that a node refused with an exact code and changed nothing.
/// `early_cancellation` tells whether a cancellation tried to overtake matching
/// that is not settled; else a finality that the node has not observed was
/// claimed.
pub fn check_refusal(request: &RefusedRequest, early_cancellation: bool) -> (r: Result<(), String>)
    ensures
        ({
            let code = if early_cancellation {
                "ordering_rejected"@
            } else {
                "state_unavailable"@
            };
            let refused = request.code matches Some(told) && told@ == code;
            &&& r is Ok == (refused && request.unchanged)
            &&& r matches Err(e) ==> e@ == (match (refused, early_cancellation) {
                (false, true) => "node allowed a cancellation to overtake unsettled matching"@,
                (true, true) => "refused early cancellation changed the store"@,
                (false, false) =>
                    "node did not explicitly reject an unobserved canonical finality"@,
                (true, false) => "rejected finality changed node state"@,
            })
        }),
{
    let refused: bool = match &request.code {
        Some(code) => if early_cancellation {
            text_equal(code.as_str(), "ordering_rejected")
        } else {
            text_equal(code.as_str(), "state_unavailable")
        },
        None => false,
    };
    if !refused {
        return Err(
            if early_cancellation {
                "node allowed a cancellation to overtake unsettled matching".to_owned()
            } else {
                "node did not explicitly reject an unobserved canonical finality".to_owned()
            },
        );
    }
    if !request.unchanged {
        return Err(
            if early_cancellation {
                "refused early cancellation changed the store".to_owned()
            } else {
                "rejected finality changed node state".to_owned()
            },
        );
    }
    Ok(())
}

/// Check that the ledger refused to settle a batch's member by itself.
pub fn check_extraction(settled: &Result<(), String>) -> (r: Result<(), String>)
    ensures
        r is Ok == (settled matches Err(text) && text_contains(
            text@,
            "batch member cannot settle individually"@,
        )),
        r matches Err(e) ==> e@ == "DeFMI did not reject an extracted signed member"@,
{
    let refused: bool = match settled {
        Err(text) => contains_text(text.as_str(), "batch member cannot settle individually"),
        Ok(_) => false,
    };
    if !refused {
        return Err("DeFMI did not reject an extracted signed member".to_owned());
    }
    Ok(())
}

/// A reservation's head on the ledger.
pub struct ReserveHeadFacts {
    pub sequence: u64,
    pub status: String,
    pub remaining_opened: bool,
}

/// Check the reservations after the match: the maker's goes on, the taker's has
/// ended.
pub fn check_settled_reserves(
    maker_before: u64,
    maker: &ReserveHeadFacts,
    taker: &ReserveHeadFacts,
    makers: usize,
) -> (r: Result<(), String>)
    ensures
        r is Ok == (maker.sequence == maker_before + 1 && maker.status@ == "active"@
            && maker.remaining_opened && taker.sequence == makers && taker.status@ == "consumed"@),
        r matches Err(e) ==> e@ == "native canonical reserve lifecycle differs from the fill"@,
{
    if maker.sequence == 0 || maker.sequence - 1 != maker_before || !text_equal(
        maker.status.as_str(),
        "active",
    ) || !maker.remaining_opened || taker.sequence != makers as u64 || !text_equal(
        taker.status.as_str(),
        "consumed",
    ) {
        return Err("native canonical reserve lifecycle differs from the fill".to_owned());
    }
    Ok(())
}

/// Check the heads that a batch leaves against its proofs.
pub fn check_cumulative_heads(
    second_sequence: u64,
    second_remaining: &Digest32,
    taker_remaining: &Digest32,
    proved: &[Digest32; 2],
) -> (r: Result<(), String>)
    ensures
        r is Ok == (second_sequence == 1 && *second_remaining == proved@[0] && *taker_remaining
            == proved@[1]),
        r matches Err(e) ==> e@ == "cumulative native reservation head differs from the proofs"@,
{
    if second_sequence != 1 || !digest_equal(second_remaining, &proved[0]) || !digest_equal(
        taker_remaining,
        &proved[1],
    ) {
        return Err("cumulative native reservation head differs from the proofs".to_owned());
    }
    Ok(())
}

/// Check that an exact retry gave the existing receipt, not a second fill.
pub fn check_settlement_retry(
    accepted: &str,
    retried: &str,
    root: &Digest32,
    after_root: &Digest32,
) -> (r: Result<(), String>)
    ensures
        r is Ok == (retried@ == accepted@ && *root == *after_root),
        r matches Err(e) ==> e@ == "native retry applied a second state transition"@,
{
    if !text_equal(retried, accepted) || !digest_equal(root, after_root) {
        return Err("native retry applied a second state transition".to_owned());
    }
    Ok(())
}

/// The report of a node that refused a substituted parent for another reason.
pub open spec fn unexpected_guard(index: u64, text: Seq<char>) -> Seq<char> {
    "canonical parent substitution reached unexpected guard on node "@ + decimal_text(index as nat)
        + ": "@ + text
}

/// Check that a node refused an observation with a substituted parent for the
/// right reason. `index` is the place of the node.
pub fn check_substituted_observation(observed: &Result<(), String>, index: u64) -> (r: Result<
    (),
    String,
>)
    ensures
        match *observed {
            Err(text) => {
                let expected = text_contains(
                    text@,
                    "configured DeFMI has not confirmed this exact native fill"@,
                ) || text_contains(
                    text@,
                    "confirmed batch does not contain this exact signed fill"@,
                );
                &&& r is Ok == expected
                &&& r matches Err(e) ==> e@ == unexpected_guard(index, text@)
            },
            Ok(_) => r matches Err(e) && e@
                == "node did not reject substituted canonical transaction bytes"@,
        },
{
    match observed {
        Err(text) => {
            if contains_text(
                text.as_str(),
                "configured DeFMI has not confirmed this exact native fill",
            ) || contains_text(
                text.as_str(),
                "confirmed batch does not contain this exact signed fill",
            ) {
                return Ok(());
            }
            let mut shown: String =
                "canonical parent substitution reached unexpected guard on node ".to_owned();
            append_decimal(&mut shown, index);
            append_text(&mut shown, ": ");
            append_text(&mut shown, text.as_str());
            Err(shown)
        },
        Ok(_) => Err("node did not reject substituted canonical transaction bytes".to_owned()),
    }
}

/// What is compared with what came before it: nothing may have changed.
#[derive(Clone, Copy, Debug, PartialEq, Eq, Structural)]
pub enum Unchanged {
    /// The ledger's root, after a member of a batch was refused by itself.
    RefusedExtraction,
    /// A node's store, after it refused an observation.
    RefusedObservation,
    /// A node's record and its store, after the observation was repeated.
    RepeatedObservation,
    /// The nodes' receipts, after the finalization was repeated.
    RepeatedFinalization,
}

/// Check that something stayed as it was.
pub fn check_unchanged(what: Unchanged, unchanged: bool) -> (r: Result<(), String>)
    ensures
        r is Ok == unchanged,
        r matches Err(e) ==> e@ == (match what {
            Unchanged::RefusedExtraction => "rejected extraction changed canonical state"@,
            Unchanged::RefusedObservation => "rejected canonical observation changed node state"@,
            Unchanged::RepeatedObservation => "repeated canonical observation changed node state"@,
            Unchanged::RepeatedFinalization =>
                "exact private-head finalization retry changed signed state receipts"@,
        }),
{
    if unchanged {
        return Ok(());
    }
    Err(
        match what {
            Unchanged::RefusedExtraction =>
            "rejected extraction changed canonical state".to_owned(),
            Unchanged::RefusedObservation =>
            "rejected canonical observation changed node state".to_owned(),
            Unchanged::RepeatedObservation =>
            "repeated canonical observation changed node state".to_owned(),
            Unchanged::RepeatedFinalization =>
            "exact private-head finalization retry changed signed state receipts".to_owned(),
        },
    )
}

/// Check the ledger's reserve scope against the committee's encoded public key.
pub fn check_native_committee(committee_digest: &Digest32, committee: &[u8]) -> (r: Result<
    (),
    String,
>)
    ensures
        r is Ok == (*committee_digest == sha256_value(committee@)),
        r matches Err(e) ==> e@ == "native scope has another MPC committee"@,
{
    let expected = sha256_digest(committee);
    if !digest_equal(committee_digest, &expected) {
        return Err("native scope has another MPC committee".to_owned());
    }
    Ok(())
}

/// Check that 32 bytes are the encoding of a point.
pub fn check_native_point(bytes: &Digest32) -> (r: Result<(), String>)
    ensures
        r is Ok == ristretto_decodes(bytes@),
        r matches Err(e) ==> e@ == "invalid native point"@,
{
    if !point_decodes(bytes) {
        return Err("invalid native point".to_owned());
    }
    Ok(())
}

/// Check one node's observation of the settled match.
pub fn check_native_observation(
    observed: &ObservedFinality,
    settled: &Settled,
    finality: &PrivateStateFinality,
) -> (r: Result<(), String>)
    ensures
        ({
            let fault = observation_fault(observed, settled, *finality);
            &&& r is Ok == fault is None
            &&& r matches Err(e) ==> e@ == (match observed.aggregate {
                Err(text) => if Some(text@) == fault {
                    text@
                } else {
                    "nodes observed inconsistent native canonical evidence"@
                },
                Ok(_) => "nodes observed inconsistent native canonical evidence"@,
            })
        }),
{
    match check_observation(observed, settled, finality) {
        Ok(_) => Ok(()),
        Err(e) => {
            match &observed.aggregate {
                Err(text) => {
                    if text_equal(text.as_str(), e.as_str()) {
                        return Err(e);
                    }
                },
                Ok(_) => {},
            }
            Err("nodes observed inconsistent native canonical evidence".to_owned())
        },
    }
}

/// The files of a match: the receipts of its two sides, and the sealed
/// authorities that settle it.
pub struct MatchFiles {
    pub maker: String,
    pub taker: String,
    pub maker_authority: String,
    pub taker_authority: String,
}

/// The second match of a cycle pairs the second maker with the order that the
/// recovered note funded.
pub fn match_files(next_match: bool) -> (files: MatchFiles)
    ensures
        next_match ==> files.maker@ == "/handoff/maker2.json"@ && files.taker@
            == "/handoff/reuse-taker.json"@ && files.maker_authority@
            == "/handoff/maker2-capability.json"@ && files.taker_authority@
            == "/handoff/reuse-taker-authority.json"@,
        !next_match ==> files.maker@ == "/handoff/maker.json"@ && files.taker@
            == "/handoff/taker.json"@ && files.maker_authority@
            == "/handoff/maker-capability.json"@ && files.taker_authority@
            == "/handoff/taker-capability.json"@,
{
    if next_match {
        MatchFiles {
            maker: "/handoff/maker2.json".to_owned(),
            taker: "/handoff/reuse-taker.json".to_owned(),
            maker_authority: "/handoff/maker2-capability.json".to_owned(),
            taker_authority: "/handoff/reuse-taker-authority.json".to_owned(),
        }
    } else {
        MatchFiles {
            maker: "/handoff/maker.json".to_owned(),
            taker: "/handoff/taker.json".to_owned(),
            maker_authority: "/handoff/maker-capability.json".to_owned(),
            taker_authority: "/handoff/taker-capability.json".to_owned(),
        }
    }
}

/// Where the taker's certificate is published for the next run.
pub fn certificate_target(next_match: bool) -> (target: String)
    ensures
        target@ == (if next_match {
            "/handoff/native-second-certificate.json"@
        } else {
            "/handoff/native-first-certificate.json"@
        }),
{
    if next_match {
        "/handoff/native-second-certificate.json".to_owned()
    } else {
        "/handoff/native-first-certificate.json".to_owned()
    }
}

/// Which of the two sides answers for a claim: the maker where the claim's
/// reservation is the maker's, else the taker.
pub fn maker_answers(claim: &Digest32, maker_reservation: &Digest32) -> (maker: bool)
    ensures
        maker == (*maker_reservation == *claim),
{
    digest_equal(maker_reservation, claim)
}

/// Where the result of a run is published.
pub open spec fn result_path(next_match: bool, wallet: bool) -> Seq<char> {
    if next_match {
        "/handoff/native-next-match-result.json"@
    } else if wallet {
        "/handoff/native-match-result.json"@
    } else {
        "/handoff/native-result.json"@
    }
}

/// Where the result of a run is published.
pub fn result_target(next_match: bool, wallet: bool) -> (target: String)
    ensures
        target@ == result_path(next_match, wallet),
{
    if next_match {
        "/handoff/native-next-match-result.json".to_owned()
    } else if wallet {
        "/handoff/native-match-result.json".to_owned()
    } else {
        "/handoff/native-result.json".to_owned()
    }
}

/// A step of a run that matches and settles, in the order in which the steps
/// are taken.
#[derive(Clone, Copy, Debug, PartialEq, Eq, Structural)]
pub enum MatchStage {
    /// Ask for the first maker's place.
    CertifyMaker,
    /// Execute the first maker's arrival; nothing may trade.
    RestMaker,
    /// Ask for the second maker's place.
    CertifySecondMaker,
    /// Execute the second maker's arrival; nothing may trade.
    RestSecondMaker,
    /// Ask for the taker's place.
    CertifyTaker,
    /// Execute the taker's arrival; exactly the expected fills may come.
    Match,
    /// Open the reservation authorities of every side.
    OpenAuthorities,
    /// Check the reservations before anything is settled.
    CheckReserves,
    /// Prove and sign each fill, after a substituted one was refused.
    ProveFills,
    /// Have every node refuse a cancellation that would overtake the match.
    RefuseCancellation,
    /// Have every node refuse a finality that was only claimed.
    RefuseClaim,
    /// Have the ledger refuse each member of a batch by itself.
    RefuseExtraction,
    /// Settle on the ledger.
    Settle,
    /// Check the reservations after the settlement.
    CheckSettled,
    /// Settle again; the same receipt has to come back.
    RetrySettlement,
    /// Have every node refuse the true finality before it observed it.
    RefuseUnobserved,
    /// Have every node observe the ledger itself.
    Observe,
    /// Have every node refuse the finality at another height.
    RefuseWrongHeight,
    /// Finalize the private state on every node.
    Finalize,
    /// Finalize again; the same receipts have to come back.
    RepeatFinalization,
    /// Check the intake that ran while nodes and ledger were down.
    CheckDeferredIntake,
    /// Publish the taker's certificate for the next run.
    PublishCertificate,
    /// Publish the result.
    PublishResult,
}

/// The number of steps.
pub const MATCH_STAGES: u8 = 23;

/// The place of a step.
pub open spec fn stage_rank(stage: MatchStage) -> int {
    match stage {
        MatchStage::CertifyMaker => 0,
        MatchStage::RestMaker => 1,
        MatchStage::CertifySecondMaker => 2,
        MatchStage::RestSecondMaker => 3,
        MatchStage::CertifyTaker => 4,
        MatchStage::Match => 5,
        MatchStage::OpenAuthorities => 6,
        MatchStage::CheckReserves => 7,
        MatchStage::ProveFills => 8,
        MatchStage::RefuseCancellation => 9,
        MatchStage::RefuseClaim => 10,
        MatchStage::RefuseExtraction => 11,
        MatchStage::Settle => 12,
        MatchStage::CheckSettled => 13,
        MatchStage::RetrySettlement => 14,
        MatchStage::RefuseUnobserved => 15,
        MatchStage::Observe => 16,
        MatchStage::RefuseWrongHeight => 17,
        MatchStage::Finalize => 18,
        MatchStage::RepeatFinalization => 19,
        MatchStage::CheckDeferredIntake => 20,
        MatchStage::PublishCertificate => 21,
        MatchStage::PublishResult => 22,
    }
}

fn rank_of(stage: MatchStage) -> (rank: u8)
    ensures
        rank == stage_rank(stage),
{
    match stage {
        MatchStage::CertifyMaker => 0,
        MatchStage::RestMaker => 1,
        MatchStage::CertifySecondMaker => 2,
        MatchStage::RestSecondMaker => 3,
        MatchStage::CertifyTaker => 4,
        MatchStage::Match => 5,
        MatchStage::OpenAuthorities => 6,
        MatchStage::CheckReserves => 7,
        MatchStage::ProveFills => 8,
        MatchStage::RefuseCancellation => 9,
        MatchStage::RefuseClaim => 10,
        MatchStage::RefuseExtraction => 11,
        MatchStage::Settle => 12,
        MatchStage::CheckSettled => 13,
        MatchStage::RetrySettlement => 14,
        MatchStage::RefuseUnobserved => 15,
        MatchStage::Observe => 16,
        MatchStage::RefuseWrongHeight => 17,
        MatchStage::Finalize => 18,
        MatchStage::RepeatFinalization => 19,
        MatchStage::CheckDeferredIntake => 20,
        MatchStage::PublishCertificate => 21,
        MatchStage::PublishResult => 22,
    }
}

fn stage_at(rank: u8) -> (stage: MatchStage)
    requires
        rank < MATCH_STAGES,
    ensures
        stage_rank(stage) == rank,
{
    if rank == 0 {
        MatchStage::CertifyMaker
    } else if rank == 1 {
        MatchStage::RestMaker
    } else if rank == 2 {
        MatchStage::CertifySecondMaker
    } else if rank == 3 {
        MatchStage::RestSecondMaker
    } else if rank == 4 {
        MatchStage::CertifyTaker
    } else if rank == 5 {
        MatchStage::Match
    } else if rank == 6 {
        MatchStage::OpenAuthorities
    } else if rank == 7 {
        MatchStage::CheckReserves
    } else if rank == 8 {
        MatchStage::ProveFills
    } else if rank == 9 {
        MatchStage::RefuseCancellation
    } else if rank == 10 {
        MatchStage::RefuseClaim
    } else if rank == 11 {
        MatchStage::RefuseExtraction
    } else if rank == 12 {
        MatchStage::Settle
    } else if rank == 13 {
        MatchStage::CheckSettled
    } else if rank == 14 {
        MatchStage::RetrySettlement
    } else if rank == 15 {
        MatchStage::RefuseUnobserved
    } else if rank == 16 {
        MatchStage::Observe
    } else if rank == 17 {
        MatchStage::RefuseWrongHeight
    } else if rank == 18 {
        MatchStage::Finalize
    } else if rank == 19 {
        MatchStage::RepeatFinalization
    } else if rank == 20 {
        MatchStage::CheckDeferredIntake
    } else if rank == 21 {
        MatchStage::PublishCertificate
    } else {
        MatchStage::PublishResult
    }
}

/// What kind of match a run is.
#[derive(Clone, Copy, Debug, PartialEq, Eq, Structural)]
pub struct MatchRun {
    pub cycle: bool,
    pub lifecycle: bool,
    pub next_match: bool,
    pub multifill: bool,
    pub deferred: bool,
}

/// Whether a run takes a step. The second match of a cycle starts from the
/// first one's certificate; a second maker comes with several fills.
pub open spec fn stage_applies(stage: MatchStage, run: MatchRun) -> bool {
    match stage {
        MatchStage::CertifyMaker | MatchStage::RestMaker => !run.next_match,
        MatchStage::CertifySecondMaker | MatchStage::RestSecondMaker => run.multifill,
        MatchStage::RefuseCancellation => run.lifecycle && run.next_match,
        MatchStage::RefuseExtraction => run.multifill,
        MatchStage::CheckDeferredIntake => run.deferred,
        MatchStage::PublishCertificate => (run.cycle && !run.next_match) || (run.lifecycle
            && run.next_match),
        _ => true,
    }
}

fn applies(stage: MatchStage, run: MatchRun) -> (taken: bool)
    ensures
        taken == stage_applies(stage, run),
{
    match stage {
        MatchStage::CertifyMaker | MatchStage::RestMaker => !run.next_match,
        MatchStage::CertifySecondMaker | MatchStage::RestSecondMaker => run.multifill,
        MatchStage::RefuseCancellation => run.lifecycle && run.next_match,
        MatchStage::RefuseExtraction => run.multifill,
        MatchStage::CheckDeferredIntake => run.deferred,
        MatchStage::PublishCertificate => (run.cycle && !run.next_match) || (run.lifecycle
            && run.next_match),
        _ => true,
    }
}

/// The step that follows another (or begins a run): the first one behind it
/// that the run takes. There is none behind the last.
pub fn next_match_stage(done: Option<MatchStage>, run: MatchRun) -> (next: Option<MatchStage>)
    ensures
        ({
            let behind = match done {
                Some(stage) => stage_rank(stage),
                None => -1,
            };
            match next {
                Some(stage) => {
                    &&& behind < stage_rank(stage)
                    &&& stage_applies(stage, run)
                    &&& forall|other: MatchStage|
                        behind < #[trigger] stage_rank(other) < stage_rank(stage)
                            ==> !stage_applies(other, run)
                },
                None => forall|other: MatchStage|
                    behind < #[trigger] stage_rank(other) ==> !stage_applies(other, run),
            }
        }),
{
    let ghost behind: int = match done {
        Some(stage) => stage_rank(stage),
        None => -1,
    };
    let mut rank: u8 = match done {
        Some(stage) => rank_of(stage) + 1,
        None => 0,
    };
    while rank < MATCH_STAGES
        invariant
            behind == (match done {
                Some(stage) => stage_rank(stage),
                None => -1,
            }),
            behind < rank <= MATCH_STAGES,
            forall|other: MatchStage|
                behind < #[trigger] stage_rank(other) < rank ==> !stage_applies(other, run),
        decreases MATCH_STAGES - rank,
    {
        let stage = stage_at(rank);
        if applies(stage, run) {
            return Some(stage);
        }
        assert forall|other: MatchStage|
            behind < #[trigger] stage_rank(other) < rank + 1 implies !stage_applies(other, run) by {
            if stage_rank(other) == rank {
                lemma_stage_rank_injective(other, stage);
            }
        }
        rank += 1;
    }
    None
}

proof fn lemma_stage_rank_injective(a: MatchStage, b: MatchStage)
    requires
        stage_rank(a) == stage_rank(b),
    ensures
        a == b,
{
}

/// No run publishes or finalizes before the guards have been tried: the claimed
/// and the unobserved finality are refused, the settlement is retried, and the
/// nodes observe the ledger, in every run and before the private state moves.
pub proof fn lemma_guards_come_first(run: MatchRun)
    ensures
        forall|guard: MatchStage|
            (guard is RefuseClaim || guard is RetrySettlement || guard is RefuseUnobserved
                || guard is Observe || guard is RefuseWrongHeight) ==> #[trigger] stage_applies(
                guard,
                run,
            ) && stage_rank(guard) < stage_rank(MatchStage::Finalize),
        stage_rank(MatchStage::RefuseClaim) < stage_rank(MatchStage::Settle),
        run.multifill ==> stage_applies(MatchStage::RefuseExtraction, run),
        stage_rank(MatchStage::RefuseExtraction) < stage_rank(MatchStage::Settle),
        stage_rank(MatchStage::Settle) < stage_rank(MatchStage::Observe),
        stage_rank(MatchStage::Finalize) < stage_rank(MatchStage::PublishResult),
{
}

} // verus!
