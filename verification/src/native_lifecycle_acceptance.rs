//! The acceptance of cancellation and expiry: what a released order has to
//! show, and what its nodes keep over a restart.

use crate::bytes::{digest_equal, Digest32};
use crate::native_reports::{field_text, text_is};
use crate::store::NodeStoreStatus;
use crate::text::append_text;
use crate::text_map::text_equal;
use crate::types::{MpcBatchResult, OrderCommitment};
use vstd::prelude::*;

verus! {

/// A phase of the lifecycle acceptance.
#[derive(Clone, Copy, Debug, PartialEq, Eq, Structural)]
pub enum LifecyclePhase {
    Checkpoint,
    Cancel,
    Expiry,
    Final,
}

/// The phase with a name.
pub open spec fn phase_named(name: Seq<char>) -> Option<LifecyclePhase> {
    if name == "checkpoint"@ {
        Some(LifecyclePhase::Checkpoint)
    } else if name == "final"@ {
        Some(LifecyclePhase::Final)
    } else if name == "cancel"@ {
        Some(LifecyclePhase::Cancel)
    } else if name == "expiry"@ {
        Some(LifecyclePhase::Expiry)
    } else {
        None
    }
}

/// Read the name of a phase.
pub fn lifecycle_phase(name: &str) -> (r: Result<LifecyclePhase, String>)
    ensures
        r is Ok == phase_named(name@) is Some,
        r matches Ok(phase) ==> Some(phase) == phase_named(name@),
        r matches Err(e) ==> e@ == "unknown native lifecycle phase"@,
{
    if text_equal(name, "checkpoint") {
        Ok(LifecyclePhase::Checkpoint)
    } else if text_equal(name, "final") {
        Ok(LifecyclePhase::Final)
    } else if text_equal(name, "cancel") {
        Ok(LifecyclePhase::Cancel)
    } else if text_equal(name, "expiry") {
        Ok(LifecyclePhase::Expiry)
    } else {
        Err("unknown native lifecycle phase".to_owned())
    }
}

fn status_equal(a: &NodeStoreStatus, b: &NodeStoreStatus) -> (same: bool)
    ensures
        same == (*a == *b),
{
    a.party == b.party && a.generation == b.generation && a.record_count == b.record_count
        && a.completed_round_count == b.completed_round_count && a.private_head_count
        == b.private_head_count && a.finalized_private_round_count
        == b.finalized_private_round_count && a.ordering_sequence == b.ordering_sequence
        && digest_equal(&a.ordering_head, &b.ordering_head) && digest_equal(
        &a.state_digest,
        &b.state_digest,
    )
}

/// Each node keeps three input records and one private head.
pub open spec fn terminal_states_stand(states: Seq<NodeStoreStatus>) -> bool {
    forall|i: int|
        0 <= i < states.len() ==> (#[trigger] states[i]).record_count == 3
            && states[i].private_head_count == 1
}

/// The nodes came back exactly as they were at the checkpoint, and each keeps
/// three input records and one private head. The fully filled first maker
/// retains its finalized encrypted head; this is not a live quote or a
/// resurrected cancelled order.
pub fn verify_terminal_restart(
    checkpoint: &Vec<NodeStoreStatus>,
    reopened: &Vec<NodeStoreStatus>,
) -> (r: Result<(), String>)
    ensures
        ({
            let unchanged = checkpoint@.len() == 7 && checkpoint@ == reopened@;
            let retained = terminal_states_stand(reopened@);
            &&& r is Ok == (unchanged && retained)
            &&& r matches Err(e) ==> e@ == (if !unchanged {
                "native terminal state changed after node restart"@
            } else {
                "native terminal checkpoint has an unexpected retained-record count"@
            })
        }),
{
    if checkpoint.len() != 7 || reopened.len() != 7 {
        return Err("native terminal state changed after node restart".to_owned());
    }
    let mut i: usize = 0;
    while i < 7
        invariant
            i <= 7,
            checkpoint@.len() == 7,
            reopened@.len() == 7,
            forall|j: int| 0 <= j < i ==> checkpoint@[j] == reopened@[j],
        decreases 7 - i,
    {
        if !status_equal(&checkpoint[i], &reopened[i]) {
            assert(checkpoint@[i as int] != reopened@[i as int]);
            return Err("native terminal state changed after node restart".to_owned());
        }
        i += 1;
    }
    assert(checkpoint@ =~= reopened@);
    let mut k: usize = 0;
    while k < 7
        invariant
            k <= 7,
            checkpoint@ == reopened@,
            reopened@.len() == 7,
            forall|j: int|
                0 <= j < k ==> (#[trigger] reopened@[j]).record_count == 3
                    && reopened@[j].private_head_count == 1,
        decreases 7 - k,
    {
        if reopened[k].record_count != 3 || reopened[k].private_head_count != 1 {
            assert(reopened@[k as int].record_count != 3 || reopened@[k as int].private_head_count
                != 1);
            return Err(
                "native terminal checkpoint has an unexpected retained-record count".to_owned(),
            );
        }
        k += 1;
    }
    Ok(())
}

/// The report of a released order and of the wallet that got it back.
pub struct ReleaseReport {
    pub node_observations: Option<u64>,
    pub exact_retry_unchanged: Option<bool>,
    pub wallet_balances_verified: Option<bool>,
    pub wallet_facility_sequence: Option<u64>,
    pub wallet_notes: Option<u64>,
    pub wallet_unfilled_releases: Option<u64>,
}

/// A release that all seven nodes observed, and a wallet that has it back.
pub open spec fn release_stands(report: &ReleaseReport, facility_sequence: u64) -> bool {
    &&& report.node_observations == Some(7u64)
    &&& report.exact_retry_unchanged == Some(true)
    &&& report.wallet_balances_verified == Some(true)
    &&& report.wallet_facility_sequence == Some(facility_sequence)
    &&& report.wallet_notes == Some(4u64)
}

fn release_holds(report: &ReleaseReport, facility_sequence: u64) -> (stands: bool)
    ensures
        stands == release_stands(report, facility_sequence),
{
    report.node_observations == Some(7u64) && report.exact_retry_unchanged == Some(true)
        && report.wallet_balances_verified == Some(true) && report.wallet_facility_sequence == Some(
        facility_sequence,
    ) && report.wallet_notes == Some(4u64)
}

/// Check the reports of the whole lifecycle: the settled cycle before it, the
/// cancelled order and the expired one.
pub fn check_lifecycle_reports(
    cycle_contract: &Option<String>,
    cycle_rounds: Option<u64>,
    contract_hash: &str,
    cancel: &ReleaseReport,
    expiry: &ReleaseReport,
) -> (r: Result<(), String>)
    ensures
        ({
            let cycle = field_text(*cycle_contract) == Some(contract_hash@) && cycle_rounds == Some(
                2u64,
            );
            let released = release_stands(cancel, 6) && release_stands(expiry, 8);
            let returned = expiry.wallet_unfilled_releases == Some(1u64);
            &&& r is Ok == (cycle && released && returned)
            &&& r matches Err(e) ==> e@ == (if !cycle {
                "lifecycle is missing its real continuing settlement cycle"@
            } else if !released {
                "native lifecycle or recovered wallet is incomplete"@
            } else {
                "expiry did not return the original note to the corporate wallet"@
            })
        }),
{
    if !text_is(cycle_contract, contract_hash) || cycle_rounds != Some(2u64) {
        return Err("lifecycle is missing its real continuing settlement cycle".to_owned());
    }
    if !release_holds(cancel, 6) || !release_holds(expiry, 8) {
        return Err("native lifecycle or recovered wallet is incomplete".to_owned());
    }
    if expiry.wallet_unfilled_releases != Some(1u64) {
        return Err("expiry did not return the original note to the corporate wallet".to_owned());
    }
    Ok(())
}

/// The report of an order that a recovered note funded.
pub struct FundingReport {
    pub selected_funding_note_spent_verified: Option<bool>,
    pub canonical_reserve_verified: Option<bool>,
    pub facility_sequence: Option<u64>,
    pub order_commitment: Option<String>,
}

/// An order that spent the chosen note and reserved at a facility's place.
pub open spec fn funded_by_note(
    report: &FundingReport,
    facility_sequence: u64,
    order: OrderCommitment,
) -> bool {
    &&& report.selected_funding_note_spent_verified == Some(true)
    &&& report.canonical_reserve_verified == Some(true)
    &&& report.facility_sequence == Some(facility_sequence)
    &&& field_text(report.order_commitment) == Some(order.key())
}

/// Whether an order spent the chosen note and reserved at a facility's place.
pub fn is_funded_by_note(report: &FundingReport, facility_sequence: u64, order: &OrderCommitment) -> (
funded: bool)
    ensures
        funded == funded_by_note(report, facility_sequence, *order),
{
    let commitment = order.hex();
    report.selected_funding_note_spent_verified == Some(true) && report.canonical_reserve_verified
        == Some(true) && report.facility_sequence == Some(facility_sequence) && text_is(
        &report.order_commitment,
        commitment.as_str(),
    )
}

/// Check that the expired order was funded by the cancelled one's refund.
pub fn check_expiry_funding(report: &FundingReport, order: &OrderCommitment) -> (r: Result<
    (),
    String,
>)
    ensures
        r is Ok == funded_by_note(report, 7, *order),
        r matches Err(e) ==> e@
            == "expiry order was not funded from the exact recovered cancellation note"@,
{
    if !is_funded_by_note(report, 7, order) {
        return Err(
            "expiry order was not funded from the exact recovered cancellation note".to_owned(),
        );
    }
    Ok(())
}

/// Check that an order about to expire rests whole.
pub fn check_unfilled(result: &MpcBatchResult) -> (r: Result<(), String>)
    ensures
        r is Ok == (result.arriving_remaining == 5 && forall|i: int|
            0 <= i < result.slots@.len() ==> !(#[trigger] result.slots@[i]).matched),
        r matches Err(e) ==> e@ == "expiry fixture did not execute the actual no-fill MPC path"@,
{
    if result.arriving_remaining != 5 || result.any_matched() {
        return Err("expiry fixture did not execute the actual no-fill MPC path".to_owned());
    }
    Ok(())
}

/// Check that a node refused a forged cancellation and kept its state.
pub fn check_forged_cancellation(accepted: bool, unchanged: bool) -> (r: Result<(), String>)
    ensures
        r is Ok == (!accepted && unchanged),
        r matches Err(e) ==> e@ == "invalid owner cancellation changed a node"@,
{
    if accepted || !unchanged {
        return Err("invalid owner cancellation changed a node".to_owned());
    }
    Ok(())
}

/// Check that the committee refused to sign a cancellation of an older head.
/// `certified` says whether it signed.
pub fn check_stale_cancellation(certified: bool) -> (r: Result<(), String>)
    ensures
        r is Ok == !certified,
        r matches Err(e) ==> e@ == "committee signed stale cancellation head"@,
{
    if certified {
        return Err("committee signed stale cancellation head".to_owned());
    }
    Ok(())
}

/// Check that a release starts from the current head of its reservation.
pub fn check_release_head(sequence: u64, expired: bool) -> (r: Result<(), String>)
    ensures
        r is Ok == (sequence == (if expired {
            0u64
        } else {
            2u64
        })),
        r matches Err(e) ==> e@ == "lifecycle did not select the current carried reserve head"@,
{
    let head: u64 = if expired {
        0
    } else {
        2
    };
    if sequence != head {
        return Err("lifecycle did not select the current carried reserve head".to_owned());
    }
    Ok(())
}

/// Check that a release ended its reservation and kept what remained of it.
pub fn check_released(
    before_sequence: u64,
    before_remaining: &Digest32,
    after_sequence: u64,
    after_remaining: &Digest32,
    after_status: &str,
) -> (r: Result<(), String>)
    ensures
        r is Ok == (after_status@ == "released"@ && after_sequence == before_sequence + 1
            && *after_remaining == *before_remaining),
        r matches Err(e) ==> e@ == "release did not preserve and terminate the exact remainder"@,
{
    if !text_equal(after_status, "released") || after_sequence == 0 || after_sequence - 1
        != before_sequence || !digest_equal(after_remaining, before_remaining) {
        return Err("release did not preserve and terminate the exact remainder".to_owned());
    }
    Ok(())
}

/// Check that a retried release gave the same receipt and the same root.
pub fn check_release_retry(same_receipt: bool, root: &Digest32, after_root: &Digest32) -> (r: Result<
    (),
    String,
>)
    ensures
        r is Ok == (same_receipt && *root == *after_root),
        r matches Err(e) ==> e@ == "release retry changed state"@,
{
    if !same_receipt || !digest_equal(root, after_root) {
        return Err("release retry changed state".to_owned());
    }
    Ok(())
}

/// What one node did when it was told of a release: first of an altered one,
/// then of the real one, twice.
pub struct ReleaseObservation {
    pub altered_accepted: bool,
    pub altered_unchanged: bool,
    pub statement: Digest32,
    pub target: OrderCommitment,
    pub repeated_same: bool,
    pub repeated_unchanged: bool,
    pub records_before: usize,
    pub records_after: usize,
}

/// Why a node's observation of a release does not stand, if it does not.
pub open spec fn release_observation_fault(
    observed: &ReleaseObservation,
    statement: Digest32,
    order: OrderCommitment,
) -> Option<Seq<char>> {
    if observed.altered_accepted || !observed.altered_unchanged {
        Some("node accepted an altered canonical release"@)
    } else if observed.statement != statement || observed.target != order {
        Some("node observed another release"@)
    } else if !observed.repeated_same || !observed.repeated_unchanged || observed.records_after + 1
        != observed.records_before {
        Some("node did not durably and idempotently terminate its order"@)
    } else {
        None
    }
}

/// Check a node's observation of a release.
pub fn check_release_observation(
    observed: &ReleaseObservation,
    statement: &Digest32,
    order: &OrderCommitment,
) -> (r: Result<(), String>)
    ensures
        r is Ok == release_observation_fault(observed, *statement, *order) is None,
        r matches Err(e) ==> Some(e@) == release_observation_fault(observed, *statement, *order),
{
    if observed.altered_accepted || !observed.altered_unchanged {
        return Err("node accepted an altered canonical release".to_owned());
    }
    if !digest_equal(&observed.statement, statement) || !observed.target.same(order) {
        return Err("node observed another release".to_owned());
    }
    if !observed.repeated_same || !observed.repeated_unchanged || observed.records_before == 0
        || observed.records_after != observed.records_before - 1 {
        return Err("node did not durably and idempotently terminate its order".to_owned());
    }
    Ok(())
}

/// Where a phase publishes its certificate (`certificate`) or its result.
pub open spec fn phase_path(phase: Seq<char>, certificate: bool) -> Seq<char> {
    "/handoff/native-"@ + phase + (if certificate {
        "-certificate.json"@
    } else {
        "-result.json"@
    })
}

/// Where a phase publishes its certificate (`certificate`) or its result.
pub fn phase_target(phase: &str, certificate: bool) -> (target: String)
    ensures
        target@ == phase_path(phase@, certificate),
{
    let mut target: String = "/handoff/native-".to_owned();
    append_text(&mut target, phase);
    if certificate {
        append_text(&mut target, "-certificate.json");
    } else {
        append_text(&mut target, "-result.json");
    }
    target
}

} // verus!
