//! What the acceptance runs publish once everything was checked.

use crate::bytes::{copy_bytes, hex_encode, hex_text, sha256, sha256_digest, Digest32};
use crate::cluster_acceptance::ResearchBinding;
use crate::edge_client::EdgeAdmissionReceipt;
use crate::executor::{NodeExecutionReceipt, RoundPlan};
use crate::market_runtime::{matched_among, matched_slots, traded_slots, Settled};
use crate::native_acceptance::{result_path, result_target, MatchRun};
use crate::native_expiry_acceptance::{
    check_canonical_release, check_fresh_order_only, check_queued_expiry, queued_expiry_stands,
    release_is_canonical, AcceptedTransaction, QueuedExpiry, ReportedRelease,
};
use crate::native_lifecycle_acceptance::{
    check_expiry_funding, check_lifecycle_reports, funded_by_note, phase_path, phase_target,
    release_stands, terminal_states_stand, verify_terminal_restart, FundingReport, ReleaseReport,
};
use crate::native_reports::{field_text, hex_keys, DeferredReport};
use crate::store::NodeStoreStatus;
use crate::types::{
    MpcBatchResult, MpcSlotResult, OrderCertificate, OrderCommitment, MPC_PARTIES,
};
use vstd::prelude::*;

verus! {

/// What was read and counted in a settled match. `manifest_id` and
/// `instruction` are encodings; `claim_keys` are the fingerprints of the signers
/// that the fills' claims name.
pub struct MatchFacts {
    pub contract_sha256: String,
    pub manifest_id: Vec<u8>,
    pub claim_signatures: u64,
    pub claim_keys: Vec<Digest32>,
    pub settled: Settled,
    pub observations: usize,
    pub fills: usize,
    pub maker_sequence_before: u64,
    pub maker_sequence_after: u64,
    pub pretrade_facility_sequences: [u64; 2],
    pub posttrade_facility_sequences: [u64; 2],
    pub output: Digest32,
    pub instruction: Vec<u8>,
    pub elapsed_ms: u128,
    pub deferred: Option<DeferredReport>,
}

/// The published result of a settled match.
pub struct MatchResult {
    pub target: String,
    pub native_note_settlement: bool,
    pub contract_sha256: String,
    pub manifest_id: Vec<u8>,
    pub verdict: String,
    pub mpc_nodes: u64,
    pub post_match_participant_signatures: u64,
    pub claim_authorization_response_signatures: u64,
    pub fresh_claim_authorization_keys: usize,
    pub claim_authorization_key_fingerprints: Vec<String>,
    pub post_match_financial_approval_signatures: u64,
    pub raw_order_capability_opened: bool,
    pub canonical_transaction: String,
    pub canonical_height: u64,
    pub native_after_root: String,
    pub node_observed_canonical_finality: usize,
    pub trade_price: u64,
    pub trade_quantity: u64,
    pub exact_retry_did_not_apply_twice: bool,
    pub substituted_mpc_output_rejected_by_resident_node: bool,
    pub unsettled_and_unobserved_finality_rejected_by_all_nodes: bool,
    pub substituted_canonical_fill_rejected_by_all_nodes: bool,
    pub canonical_observation_retry_unchanged: bool,
    pub observed_finality_height_substitution_rejected_by_all_nodes: bool,
    pub private_finalization_retry_unchanged: bool,
    pub maker_reserve_active: bool,
    pub taker_reserve_closed: bool,
    pub atomic_multi_fill: bool,
    pub batch_extraction_rejected: bool,
    pub partial_observation_did_not_advance: bool,
    pub same_maker_legal_entity: bool,
    pub fill_count: usize,
    pub atomically_settled_fills: usize,
    pub arriving_order_commitment: String,
    pub resting_order_commitments: Vec<String>,
    pub maker_head_sequence_before: u64,
    pub maker_head_sequence_after: u64,
    pub fills: Vec<MpcSlotResult>,
    pub posttrade_facility_sequences: [u64; 2],
    pub pretrade_facility_sequences: [u64; 2],
    pub mpc_output_sha256: String,
    pub zkpi_sha256: String,
    pub elapsed_ms: u128,
    pub deferred_authorization: Option<DeferredReport>,
}

/// The slots that traded, in their order.
pub open spec fn fills_in(slots: Seq<MpcSlotResult>) -> Seq<MpcSlotResult> {
    matched_slots(slots).map_values(|place: usize| slots[place as int])
}

/// The orders of a list, by name.
pub open spec fn named(texts: Seq<String>, orders: Seq<OrderCommitment>) -> bool {
    &&& texts.len() == orders.len()
    &&& forall|i: int| 0 <= i < orders.len() ==> (#[trigger] texts[i])@ == orders[i].key()
}

impl MatchResult {
    /// The result of one match. No order was opened and nobody approved anything
    /// after the match. A batch is reported as atomic: none of its members could
    /// be taken out, and a part of the observations advanced nothing.
    pub open spec fn reports(
        &self,
        run: MatchRun,
        wallet: bool,
        plan: &RoundPlan,
        result: &MpcBatchResult,
        facts: &MatchFacts,
    ) -> bool {
        &&& self.target@ == result_path(run.next_match, wallet)
        &&& self.native_note_settlement
        &&& self.contract_sha256@ == facts.contract_sha256@
        &&& self.manifest_id@ == facts.manifest_id@
        &&& self.verdict@ == "smoke_only"@
        &&& self.mpc_nodes == MPC_PARTIES
        &&& self.post_match_participant_signatures == facts.claim_signatures
        &&& self.claim_authorization_response_signatures == facts.claim_signatures
        &&& self.fresh_claim_authorization_keys == facts.claim_keys@.len()
        &&& self.claim_authorization_key_fingerprints@.len() == facts.claim_keys@.len()
        &&& forall|i: int|
            0 <= i < facts.claim_keys@.len() ==> (
            #[trigger] self.claim_authorization_key_fingerprints@[i])@ == hex_text(
                facts.claim_keys@[i]@,
            )
        &&& self.post_match_financial_approval_signatures == 0
        &&& !self.raw_order_capability_opened
        &&& self.canonical_transaction@ == facts.settled.transaction_id@
        &&& self.canonical_height == facts.settled.height
        &&& self.native_after_root@ == hex_text(facts.settled.after_root@)
        &&& self.node_observed_canonical_finality == facts.observations
        &&& self.trade_price == result.slots@[0].trade_price
        &&& self.trade_quantity == result.slots@[0].trade_quantity
        &&& self.exact_retry_did_not_apply_twice
        &&& self.substituted_mpc_output_rejected_by_resident_node
        &&& self.unsettled_and_unobserved_finality_rejected_by_all_nodes
        &&& self.substituted_canonical_fill_rejected_by_all_nodes
        &&& self.canonical_observation_retry_unchanged
        &&& self.observed_finality_height_substitution_rejected_by_all_nodes
        &&& self.private_finalization_retry_unchanged
        &&& self.maker_reserve_active
        &&& self.taker_reserve_closed
        &&& self.atomic_multi_fill == run.multifill
        &&& self.batch_extraction_rejected == run.multifill
        &&& self.partial_observation_did_not_advance == run.multifill
        &&& self.same_maker_legal_entity == run.multifill
        &&& self.fill_count == facts.fills
        &&& self.atomically_settled_fills == facts.fills
        &&& self.arriving_order_commitment@ == plan.arriving.key()
        &&& named(self.resting_order_commitments@, plan.resting@)
        &&& self.maker_head_sequence_before == facts.maker_sequence_before
        &&& self.maker_head_sequence_after == facts.maker_sequence_after
        &&& self.fills@ == fills_in(result.slots@)
        &&& self.posttrade_facility_sequences == facts.posttrade_facility_sequences
        &&& self.pretrade_facility_sequences == facts.pretrade_facility_sequences
        &&& self.mpc_output_sha256@ == hex_text(facts.output@)
        &&& self.zkpi_sha256@ == hex_text(sha256(facts.instruction@))
        &&& self.elapsed_ms == facts.elapsed_ms
        &&& self.deferred_authorization == (if run.deferred {
            facts.deferred
        } else {
            None
        })
    }
}

fn name_orders(orders: &Vec<OrderCommitment>) -> (texts: Vec<String>)
    ensures
        named(texts@, orders@),
{
    let mut texts: Vec<String> = Vec::new();
    let mut i: usize = 0;
    while i < orders.len()
        invariant
            i <= orders@.len(),
            texts@.len() == i,
            forall|j: int| 0 <= j < i ==> (#[trigger] texts@[j])@ == orders@[j].key(),
        decreases orders@.len() - i,
    {
        texts.push(orders[i].hex());
        i += 1;
    }
    texts
}

proof fn lemma_places_are_slots(slots: Seq<MpcSlotResult>, count: nat)
    requires
        count <= slots.len() <= usize::MAX,
    ensures
        forall|i: int|
            0 <= i < matched_among(slots, count).len() ==> (#[trigger] matched_among(
                slots,
                count,
            )[i]) < count,
    decreases count,
{
    if count > 0 {
        let before = matched_among(slots, (count - 1) as nat);
        let places = matched_among(slots, count);
        lemma_places_are_slots(slots, (count - 1) as nat);
        assert forall|i: int| 0 <= i < places.len() implies (#[trigger] places[i]) < count by {
            if i < before.len() {
                assert(places[i] == before[i]);
            }
        }
    }
}

fn list_fills(slots: &Vec<MpcSlotResult>) -> (fills: Vec<MpcSlotResult>)
    ensures
        fills@ == fills_in(slots@),
{
    let places: Vec<usize> = traded_slots(slots);
    let total: usize = slots.len();
    proof {
        assert(total == slots@.len());
        lemma_places_are_slots(slots@, slots@.len());
    }
    let mut fills: Vec<MpcSlotResult> = Vec::new();
    let mut i: usize = 0;
    while i < places.len()
        invariant
            i <= places@.len(),
            places@ == matched_slots(slots@),
            forall|j: int| 0 <= j < places@.len() ==> (#[trigger] places@[j]) < slots@.len(),
            fills@.len() == i,
            forall|j: int| 0 <= j < i ==> (#[trigger] fills@[j]) == slots@[places@[j] as int],
        decreases places@.len() - i,
    {
        let place: usize = places[i];
        fills.push(slots[place]);
        i += 1;
    }
    assert(fills@ =~= fills_in(slots@));
    fills
}

/// The result that a settled match publishes, and where.
pub fn match_result(
    run: MatchRun,
    wallet: bool,
    plan: &RoundPlan,
    result: &MpcBatchResult,
    facts: &MatchFacts,
) -> (published: MatchResult)
    requires
        result.slots@.len() > 0,
    ensures
        published.reports(run, wallet, plan, result, facts),
{
    let deferred_authorization: Option<DeferredReport> = if run.deferred {
        facts.deferred
    } else {
        None
    };
    MatchResult {
        target: result_target(run.next_match, wallet),
        native_note_settlement: true,
        contract_sha256: facts.contract_sha256.clone(),
        manifest_id: copy_bytes(&facts.manifest_id),
        verdict: "smoke_only".to_owned(),
        mpc_nodes: 7,
        post_match_participant_signatures: facts.claim_signatures,
        claim_authorization_response_signatures: facts.claim_signatures,
        fresh_claim_authorization_keys: facts.claim_keys.len(),
        claim_authorization_key_fingerprints: hex_keys(&facts.claim_keys),
        post_match_financial_approval_signatures: 0,
        raw_order_capability_opened: false,
        canonical_transaction: facts.settled.transaction_id.clone(),
        canonical_height: facts.settled.height,
        native_after_root: hex_encode(&facts.settled.after_root),
        node_observed_canonical_finality: facts.observations,
        trade_price: result.slots[0].trade_price,
        trade_quantity: result.slots[0].trade_quantity,
        exact_retry_did_not_apply_twice: true,
        substituted_mpc_output_rejected_by_resident_node: true,
        unsettled_and_unobserved_finality_rejected_by_all_nodes: true,
        substituted_canonical_fill_rejected_by_all_nodes: true,
        canonical_observation_retry_unchanged: true,
        observed_finality_height_substitution_rejected_by_all_nodes: true,
        private_finalization_retry_unchanged: true,
        maker_reserve_active: true,
        taker_reserve_closed: true,
        atomic_multi_fill: run.multifill,
        batch_extraction_rejected: run.multifill,
        partial_observation_did_not_advance: run.multifill,
        same_maker_legal_entity: run.multifill,
        fill_count: facts.fills,
        atomically_settled_fills: facts.fills,
        arriving_order_commitment: plan.arriving.hex(),
        resting_order_commitments: name_orders(&plan.resting),
        maker_head_sequence_before: facts.maker_sequence_before,
        maker_head_sequence_after: facts.maker_sequence_after,
        fills: list_fills(&result.slots),
        posttrade_facility_sequences: facts.posttrade_facility_sequences,
        pretrade_facility_sequences: facts.pretrade_facility_sequences,
        mpc_output_sha256: hex_encode(&facts.output),
        zkpi_sha256: hex_encode(&sha256_digest(facts.instruction.as_slice())),
        elapsed_ms: facts.elapsed_ms,
        deferred_authorization,
    }
}

/// The published result of a release: of a cancelled order or an expired one.
pub struct ReleaseResult {
    pub target: String,
    pub contract_sha256: String,
    pub kind: String,
    pub canonical_transaction: String,
    pub statement: String,
    pub node_observations: u64,
    pub head_sequence_before: u64,
    pub head_sequence_after: u64,
    pub exact_retry_unchanged: bool,
    pub canonical_root: String,
}

/// The result that a release publishes, once all seven nodes observed it and a
/// retry changed nothing.
pub fn release_result(
    phase: &str,
    contract_hash: &str,
    settled: &Settled,
    head_before: u64,
    head_after: u64,
) -> (published: ReleaseResult)
    ensures
        published.target@ == phase_path(phase@, false),
        published.contract_sha256@ == contract_hash@,
        published.kind@ == phase@,
        published.canonical_transaction@ == settled.transaction_id@,
        published.statement@ == hex_text(settled.statement@),
        published.node_observations == MPC_PARTIES,
        published.head_sequence_before == head_before,
        published.head_sequence_after == head_after,
        published.exact_retry_unchanged,
        published.canonical_root@ == hex_text(settled.after_root@),
{
    ReleaseResult {
        target: phase_target(phase, false),
        contract_sha256: contract_hash.to_owned(),
        kind: phase.to_owned(),
        canonical_transaction: settled.transaction_id.clone(),
        statement: hex_encode(&settled.statement),
        node_observations: 7,
        head_sequence_before: head_before,
        head_sequence_after: head_after,
        exact_retry_unchanged: true,
        canonical_root: hex_encode(&settled.after_root),
    }
}

/// What is read for the end of a lifecycle: the cycle before it, the two
/// releases, the nodes before and after their restart, and the order that the
/// refund funded. `admitted` is the outcome of checking that order's admission
/// at its own deadline, `root` the ledger's root.
pub struct LifecycleEvidence {
    pub cycle_contract: Option<String>,
    pub cycle_rounds: Option<u64>,
    pub cancel: ReleaseReport,
    pub expiry: ReleaseReport,
    pub checkpoint: Vec<NodeStoreStatus>,
    pub reopened: Result<Vec<NodeStoreStatus>, String>,
    pub admitted: Result<(), String>,
    pub funding: FundingReport,
    pub order: OrderCommitment,
    pub root: Result<Digest32, String>,
}

/// What the end of a lifecycle adds to the cycle's result.
pub struct LifecycleTotals {
    pub target: String,
    pub node_restart_state_preserved: bool,
    pub cancellation_refund_funded_expiry_order: bool,
    pub native_after_root: String,
    pub completed_native_releases: u64,
    pub recipient_claims_redeemed: u64,
    pub final_facility_sequences: [u64; 2],
}

impl LifecycleEvidence {
    /// Why a lifecycle is not accepted, if it is not.
    pub open spec fn fault(&self, contract_hash: Seq<char>) -> Option<Seq<char>> {
        if field_text(self.cycle_contract) != Some(contract_hash) || self.cycle_rounds != Some(
            2u64,
        ) {
            Some("lifecycle is missing its real continuing settlement cycle"@)
        } else if !release_stands(&self.cancel, 6) || !release_stands(&self.expiry, 8) {
            Some("native lifecycle or recovered wallet is incomplete"@)
        } else if self.expiry.wallet_unfilled_releases != Some(1u64) {
            Some("expiry did not return the original note to the corporate wallet"@)
        } else {
            match self.reopened {
                Err(text) => Some(text@),
                Ok(reopened) => if self.checkpoint@.len() != 7 || self.checkpoint@ != reopened@ {
                    Some("native terminal state changed after node restart"@)
                } else if !terminal_states_stand(reopened@) {
                    Some("native terminal checkpoint has an unexpected retained-record count"@)
                } else {
                    match self.admitted {
                        Err(text) => Some(text@),
                        Ok(_) => if !funded_by_note(&self.funding, 7, self.order) {
                            Some(
                                "expiry order was not funded from the exact recovered cancellation note"@,
                            )
                        } else {
                            match self.root {
                                Err(text) => Some(text@),
                                Ok(_) => None,
                            }
                        },
                    }
                },
            }
        }
    }
}

/// Accept a whole lifecycle.
pub fn finalize_lifecycle(evidence: &LifecycleEvidence, contract_hash: &str) -> (r: Result<
    LifecycleTotals,
    String,
>)
    ensures
        r is Ok == evidence.fault(contract_hash@) is None,
        r matches Err(e) ==> Some(e@) == evidence.fault(contract_hash@),
        r matches Ok(totals) ==> {
            &&& totals.target@ == "/handoff/native-result.json"@
            &&& totals.node_restart_state_preserved
            &&& totals.cancellation_refund_funded_expiry_order
            &&& totals.native_after_root@ == hex_text((evidence.root->Ok_0)@)
            &&& totals.completed_native_releases == 2
            &&& totals.recipient_claims_redeemed == 9
            &&& totals.final_facility_sequences@ == seq![8u64, 5u64]
        },
{
    match check_lifecycle_reports(
        &evidence.cycle_contract,
        evidence.cycle_rounds,
        contract_hash,
        &evidence.cancel,
        &evidence.expiry,
    ) {
        Err(e) => return Err(e),
        Ok(_) => {},
    }
    let reopened: &Vec<NodeStoreStatus> = match &evidence.reopened {
        Err(text) => return Err(text.clone()),
        Ok(reopened) => reopened,
    };
    match verify_terminal_restart(&evidence.checkpoint, reopened) {
        Err(e) => return Err(e),
        Ok(_) => {},
    }
    match &evidence.admitted {
        Err(text) => return Err(text.clone()),
        Ok(_) => {},
    }
    match check_expiry_funding(&evidence.funding, &evidence.order) {
        Err(e) => return Err(e),
        Ok(_) => {},
    }
    match &evidence.root {
        Err(text) => Err(text.clone()),
        Ok(root) => Ok(
            LifecycleTotals {
                target: "/handoff/native-result.json".to_owned(),
                node_restart_state_preserved: true,
                cancellation_refund_funded_expiry_order: true,
                native_after_root: hex_encode(root),
                completed_native_releases: 2,
                recipient_claims_redeemed: 9,
                final_facility_sequences: [8, 5],
            },
        ),
    }
}

/// What is read for the end of a queued expiry: the reports, the release on the
/// ledger, how many orders each node holds, and the ledger's root.
pub struct ExpiryEvidence {
    pub reports: QueuedExpiry,
    pub order: OrderCommitment,
    pub reported: ReportedRelease,
    pub accepted: Result<AcceptedTransaction, String>,
    pub record_counts: Vec<Result<usize, String>>,
    pub root: Result<Digest32, String>,
}

/// What an accepted queued expiry publishes besides its contract, its release
/// and its wallet.
pub struct ExpiryTotals {
    pub target: String,
    pub verdict: String,
    pub reconciled_expired_requests: u64,
    pub never_reserved: u64,
    pub completed_native_releases: u64,
    pub mpc_nodes_down_during_reconciliation: u64,
    pub next_order_admitted_nodes: u64,
    pub exact_released_note_reused: bool,
    pub worker_restart_unchanged: bool,
    pub release_response_loss_recovered: bool,
    pub native_after_root: String,
    pub next_order_commitment: String,
    pub next_order_matched: bool,
    pub partial_admission_cleanup_claimed: bool,
}

/// Why one of the first `count` nodes holds another number of orders than the
/// one fresh order, if one does.
pub open spec fn counts_fault(counts: Seq<Result<usize, String>>, count: nat) -> Option<Seq<char>>
    decreases count,
{
    if count == 0 {
        None
    } else {
        match counts_fault(counts, (count - 1) as nat) {
            Some(text) => Some(text),
            None => match counts[count - 1] {
                Err(text) => Some(text@),
                Ok(held) => if held != 1 {
                    Some("MPC nodes did not receive only the fresh refund-funded order"@)
                } else {
                    None
                },
            },
        }
    }
}

proof fn lemma_counts_fault_stays(counts: Seq<Result<usize, String>>, few: nat, many: nat)
    requires
        few <= many,
        counts_fault(counts, few) is Some,
    ensures
        counts_fault(counts, many) == counts_fault(counts, few),
    decreases many,
{
    if few < many {
        lemma_counts_fault_stays(counts, few, (many - 1) as nat);
    }
}

impl ExpiryEvidence {
    /// Why a queued expiry is not accepted, if it is not.
    pub open spec fn fault(&self) -> Option<Seq<char>> {
        if !queued_expiry_stands(&self.reports, self.order) {
            Some("queued native expiry did not recover the exact request and reusable funds"@)
        } else if self.reports.released_transaction.text is None {
            Some("no release transaction"@)
        } else {
            match self.accepted {
                Err(text) => Some(text@),
                Ok(accepted) => if !release_is_canonical(&self.reported, &accepted) {
                    Some("corporate release receipt differs from canonical DeFMI"@)
                } else {
                    match (
                        counts_fault(self.record_counts@, self.record_counts@.len()),
                        self.root,
                    ) {
                        (Some(text), _) => Some(text),
                        (None, Err(text)) => Some(text@),
                        (None, Ok(_)) => None,
                    }
                },
            }
        }
    }
}

/// Accept a queued expiry.
pub fn finalize_queued_expiry(evidence: &ExpiryEvidence) -> (r: Result<ExpiryTotals, String>)
    ensures
        r is Ok == evidence.fault() is None,
        r matches Err(e) ==> Some(e@) == evidence.fault(),
        r matches Ok(totals) ==> {
            &&& totals.target@ == "/handoff/native-result.json"@
            &&& totals.verdict@ == "smoke_only"@
            &&& totals.reconciled_expired_requests == 2
            &&& totals.never_reserved == 1
            &&& totals.completed_native_releases == 1
            &&& totals.mpc_nodes_down_during_reconciliation == MPC_PARTIES
            &&& totals.next_order_admitted_nodes == MPC_PARTIES
            &&& totals.exact_released_note_reused
            &&& totals.worker_restart_unchanged
            &&& totals.release_response_loss_recovered
            &&& totals.native_after_root@ == hex_text((evidence.root->Ok_0)@)
            &&& totals.next_order_commitment@ == evidence.order.key()
            &&& !totals.next_order_matched
            &&& !totals.partial_admission_cleanup_claimed
        },
{
    match check_queued_expiry(&evidence.reports, &evidence.order) {
        Err(e) => return Err(e),
        Ok(_) => {},
    }
    match &evidence.accepted {
        Err(text) => return Err(text.clone()),
        Ok(accepted) => match check_canonical_release(&evidence.reported, accepted) {
            Err(e) => return Err(e),
            Ok(_) => {},
        },
    }
    let counts: &Vec<Result<usize, String>> = &evidence.record_counts;
    let mut i: usize = 0;
    while i < counts.len()
        invariant
            i <= counts@.len(),
            counts@ == evidence.record_counts@,
            counts_fault(counts@, i as nat) is None,
            evidence.fault() == (match (
                counts_fault(evidence.record_counts@, evidence.record_counts@.len()),
                evidence.root,
            ) {
                (Some(text), _) => Some(text),
                (None, Err(text)) => Some(text@),
                (None, Ok(_)) => None,
            }),
        decreases counts@.len() - i,
    {
        let checked: Result<(), String> = match &counts[i] {
            Err(text) => Err(text.clone()),
            Ok(held) => check_fresh_order_only(*held),
        };
        match checked {
            Err(e) => {
                proof {
                    lemma_counts_fault_stays(counts@, (i + 1) as nat, counts@.len());
                }
                return Err(e);
            },
            Ok(_) => {},
        }
        i += 1;
    }
    match &evidence.root {
        Err(text) => Err(text.clone()),
        Ok(root) => Ok(
            ExpiryTotals {
                target: "/handoff/native-result.json".to_owned(),
                verdict: "smoke_only".to_owned(),
                reconciled_expired_requests: 2,
                never_reserved: 1,
                completed_native_releases: 1,
                mpc_nodes_down_during_reconciliation: 7,
                next_order_admitted_nodes: 7,
                exact_released_note_reused: true,
                worker_restart_unchanged: true,
                release_response_loss_recovered: true,
                native_after_root: hex_encode(root),
                next_order_commitment: evidence.order.hex(),
                next_order_matched: false,
                partial_admission_cleanup_claimed: false,
            },
        ),
    }
}

/// The admission, the place in the order and the result of one side of a
/// distributed match.
pub struct SideEvidence {
    pub admission: EdgeAdmissionReceipt,
    pub certificate: OrderCertificate,
    pub result: MpcBatchResult,
}

/// The published evidence of a distributed match.
pub struct DistributedArtifact {
    pub schema: String,
    pub verdict: String,
    pub contract_sha256: String,
    pub manifest_id: String,
    pub market_id: String,
    pub mpc_containers: u64,
    pub independent_operators_claimed: bool,
    pub maker_admission: String,
    pub taker_admission: String,
    pub maker_signed_node_receipts: usize,
    pub taker_signed_node_receipts: usize,
    pub coordinator_received_plain_order: bool,
    pub quorum: u64,
    pub maker_sequence: u64,
    pub taker_sequence: u64,
    pub maker_votes: usize,
    pub taker_votes: usize,
    pub parties: u64,
    pub max_corrupt_parties: u64,
    pub program_sha256: String,
    pub artifact_sha256: String,
    pub maker_arriving_remainder: u64,
    pub trade_price: u64,
    pub trade_quantity: u64,
    pub taker_remainder: u64,
    pub party_execution_ms: Vec<u64>,
    pub elapsed_ms: u64,
}

/// A time in milliseconds as 64 bits hold it.
pub open spec fn bounded_ms(elapsed_ms: u128) -> u64 {
    if elapsed_ms > u64::MAX {
        u64::MAX
    } else {
        elapsed_ms as u64
    }
}

impl DistributedArtifact {
    /// The evidence of two sides that were admitted by all seven nodes, ordered
    /// and matched. `receipts` are those of the match.
    pub open spec fn reports(
        &self,
        binding: &ResearchBinding,
        market_id: Seq<char>,
        maker: &SideEvidence,
        taker: &SideEvidence,
        receipts: Seq<NodeExecutionReceipt>,
        elapsed_ms: u128,
    ) -> bool {
        &&& self.schema@ == "oclob.distributed-acceptance/v1"@
        &&& self.verdict@ == "accepted"@
        &&& self.contract_sha256@ == binding.contract_sha256@
        &&& self.manifest_id@ == binding.manifest_id@
        &&& self.market_id@ == market_id
        &&& self.mpc_containers == MPC_PARTIES
        &&& !self.independent_operators_claimed
        &&& self.maker_admission@ == hex_text(maker.admission.receipt_digest@)
        &&& self.taker_admission@ == hex_text(taker.admission.receipt_digest@)
        &&& self.maker_signed_node_receipts == maker.admission.node_receipts@.len()
        &&& self.taker_signed_node_receipts == taker.admission.node_receipts@.len()
        &&& !self.coordinator_received_plain_order
        &&& self.quorum == 5
        &&& self.maker_sequence == maker.certificate.sequence
        &&& self.taker_sequence == taker.certificate.sequence
        &&& self.maker_votes == maker.certificate.voters@.len()
        &&& self.taker_votes == taker.certificate.voters@.len()
        &&& self.parties == MPC_PARTIES
        &&& self.max_corrupt_parties == 2
        &&& self.program_sha256@ == hex_text(receipts[0].program_sha256@)
        &&& self.artifact_sha256@ == hex_text(receipts[0].artifact_sha256@)
        &&& self.maker_arriving_remainder == maker.result.arriving_remaining
        &&& self.trade_price == taker.result.slots@[0].trade_price
        &&& self.trade_quantity == taker.result.slots@[0].trade_quantity
        &&& self.taker_remainder == taker.result.arriving_remaining
        &&& self.party_execution_ms@ == receipts.map_values(
            |receipt: NodeExecutionReceipt| receipt.execution_ms,
        )
        &&& self.elapsed_ms == bounded_ms(elapsed_ms)
    }
}

fn execution_times(receipts: &Vec<NodeExecutionReceipt>) -> (times: Vec<u64>)
    ensures
        times@ == receipts@.map_values(|receipt: NodeExecutionReceipt| receipt.execution_ms),
{
    let mut times: Vec<u64> = Vec::new();
    let mut i: usize = 0;
    while i < receipts.len()
        invariant
            i <= receipts@.len(),
            times@.len() == i,
            forall|j: int| 0 <= j < i ==> (#[trigger] times@[j]) == receipts@[j].execution_ms,
        decreases receipts@.len() - i,
    {
        times.push(receipts[i].execution_ms);
        i += 1;
    }
    assert(times@ =~= receipts@.map_values(
        |receipt: NodeExecutionReceipt| receipt.execution_ms,
    ));
    times
}

/// The evidence that a distributed match publishes.
pub fn distributed_artifact(
    binding: &ResearchBinding,
    market_id: &str,
    maker: &SideEvidence,
    taker: &SideEvidence,
    receipts: &Vec<NodeExecutionReceipt>,
    elapsed_ms: u128,
) -> (artifact: DistributedArtifact)
    requires
        receipts@.len() > 0,
        taker.result.slots@.len() > 0,
    ensures
        artifact.reports(binding, market_id@, maker, taker, receipts@, elapsed_ms),
{
    let elapsed: u64 = if elapsed_ms > u64::MAX as u128 {
        u64::MAX
    } else {
        elapsed_ms as u64
    };
    DistributedArtifact {
        schema: "oclob.distributed-acceptance/v1".to_owned(),
        verdict: "accepted".to_owned(),
        contract_sha256: binding.contract_sha256.clone(),
        manifest_id: binding.manifest_id.clone(),
        market_id: market_id.to_owned(),
        mpc_containers: 7,
        independent_operators_claimed: false,
        maker_admission: hex_encode(&maker.admission.receipt_digest),
        taker_admission: hex_encode(&taker.admission.receipt_digest),
        maker_signed_node_receipts: maker.admission.node_receipts.len(),
        taker_signed_node_receipts: taker.admission.node_receipts.len(),
        coordinator_received_plain_order: false,
        quorum: 5,
        maker_sequence: maker.certificate.sequence,
        taker_sequence: taker.certificate.sequence,
        maker_votes: maker.certificate.voters.len(),
        taker_votes: taker.certificate.voters.len(),
        parties: 7,
        max_corrupt_parties: 2,
        program_sha256: hex_encode(&receipts[0].program_sha256),
        artifact_sha256: hex_encode(&receipts[0].artifact_sha256),
        maker_arriving_remainder: maker.result.arriving_remaining,
        trade_price: taker.result.slots[0].trade_price,
        trade_quantity: taker.result.slots[0].trade_quantity,
        taker_remainder: taker.result.arriving_remaining,
        party_execution_ms: execution_times(receipts),
        elapsed_ms: elapsed,
    }
}

} // verus!
