//! The programs around the library: arguments, configuration, the laboratory
//! and the acceptance runs.

use ed25519_dalek::SigningKey;
use oclob_node::bytes::Digest32;
use oclob_node::cluster_acceptance::{
    check_bounded_file, check_round_retry, check_two_orders, retry_node, validate_maker_result,
    validate_research_binding, validate_taker_result, ExecutionRetry,
};
use oclob_node::corporate_client::{
    check_locked, parse_client_args, read_answer, AnswerKind, AssetReport, ClientMode, ClientStep,
    SnapshotReport,
};
use oclob_node::corporate_dispatch::DispatchProgress;
use oclob_node::corporate_expiry::ExpiryOutcome;
use oclob_node::corporate_journal::AuthorizationEndReason;
use oclob_node::corporate_worker::{
    parse_corporate_worker_args, report_reconciled, rest_seconds, wait_for_entry,
    CorporateWorkerMode, EndedEntry, ReconciledReport, Waiting,
};
use oclob_node::deployment_policy::PathState;
use oclob_node::edge_client::{EdgeDistributor, NodeAdmissionReceipt, NodeReply};
use oclob_node::edge_submit::{
    cancellation_expiry, check_published, demo_input, demo_order, draw_demo_order,
    hidden_eligibility_commitment, order_input, parse_args, recover_native_wallet, DemoOrder,
    NativeOrderInstruction, RecoveredWallet, Scenario, WalletStep,
};
use oclob_node::executor::{PartyExecutionError, PartyExecutor};
use oclob_node::lab_provision::{
    book_endpoint, certificate_plan, check_recipient_views, client_identity, cluster_config,
    corporate_api_config, defmi_id, facility_id, lab_participant, ledger_principals, market_config,
    mpc_hosts, node_host, node_principals, node_settings, parse_output, participant_config,
    participant_orders, reject_existing, venue_id, ParticipantDraws, ParticipantSecrets,
    CallerIdentity,
};
use oclob_node::market_journal::{MarketBody, MarketCompletedRound, MarketJournal};
use oclob_node::market_runtime::Settled;
use oclob_node::market_worker::{
    check_crash, check_depth, check_depth_stability, error_digest, market_preflight, notional,
    parse_worker_args, wait_rounds, MarketEvidence, PublicLevel, PublishedBook, WaitStep,
    WorkerMode,
};
use oclob_node::native_acceptance::{
    check_expected_fills, check_extraction, check_initial_reserves, check_refusal,
    check_settled_reserves, check_settlement_retry, check_signing_guards,
    check_substituted_observation, next_match_stage, preflight, result_target, select_mode,
    MatchRun, MatchStage, NativeContract, NativeMode, RefusedRequest, ReserveHeadFacts,
};
use oclob_node::native_admission::{PeerRole, Principal};
use oclob_node::native_bootstrap::{
    ceremony_session, check_no_committee, fetch_again, parse_book_args, parse_bootstrap_args,
    BookMode, FetchStep,
};
use oclob_node::native_expiry_acceptance::{
    check_canonical_release, check_nodes_stopped, check_queued_expiry, last_stop_event,
    AcceptedTransaction, QueuedExpiry, ReportedRelease,
};
use oclob_node::native_lifecycle_acceptance::{
    check_lifecycle_reports, check_release_observation, check_released, lifecycle_phase,
    phase_target, verify_terminal_restart, FundingReport, LifecyclePhase, ReleaseObservation,
    ReleaseReport,
};
use oclob_node::native_reports::{
    check_note, check_preceding_settlement, check_wallet, cycle_target, cycle_wallets, finalize_cycle_acceptance,
    finalize_wallet_acceptance, note_id, report_facility, verify_deferred_intake, DeferredIntake,
    DeferredRequest, LedgerNote, ReportField, ReuseEvidence, ReuseReport, RoundReport,
    WalletEvidence, WalletKind, WalletReport,
};
use oclob_node::node_service::{
    check_identity, parse_ack_fingerprint, parse_hex_32, parse_issuer_key, proof_coordinator,
};
use oclob_node::text_map::TextMap;
use oclob_node::types::{
    ClusterNodePublic, ClusterPublicConfig, EdgeOrderManifest, MpcBatchResult, MpcSlotResult,
    OrderCertificate, OrderCommitment, Side, TimeInForce,
};
use oclob_node::NodeStoreStatus;
use sha2::{Digest, Sha256};

const STAGE: &str = "RUN_ROUGH_END_TO_END_AND_OBSERVE_FINAL_METRIC";

fn sha(parts: &[&[u8]]) -> [u8; 32] {
    let mut hash = Sha256::new();
    for part in parts {
        hash.update(part);
    }
    hash.finalize().into()
}

fn args(list: &[&str]) -> Vec<String> {
    list.iter().map(|text| text.to_string()).collect()
}

fn text(value: &str) -> Option<String> {
    Some(value.to_string())
}

fn slot(matched: bool, price: u64, quantity: u64) -> MpcSlotResult {
    MpcSlotResult {
        matched,
        trade_price: price,
        trade_quantity: quantity,
    }
}

fn batch(slots: Vec<MpcSlotResult>, remaining: u64) -> MpcBatchResult {
    MpcBatchResult {
        slots,
        arriving_remaining: remaining,
        output_digest: [7; 32],
    }
}

#[test]
fn restart_gate_preserves_closed_resting_head_but_rejects_changed_state() {
    let checkpoint: Vec<_> = (0..7)
        .map(|party| NodeStoreStatus {
            party,
            generation: 33,
            record_count: 3,
            completed_round_count: 5,
            private_head_count: 1,
            finalized_private_round_count: 2,
            ordering_sequence: 7,
            ordering_head: [1; 32],
            state_digest: [party as u8 + 1; 32],
        })
        .collect();
    assert!(verify_terminal_restart(&checkpoint, &checkpoint).is_ok());
    let mut changed = checkpoint.clone();
    changed[0].state_digest[0] ^= 1;
    assert!(verify_terminal_restart(&checkpoint, &changed).is_err());
    let mut resurrected = checkpoint.clone();
    resurrected[0].record_count += 1;
    assert!(verify_terminal_restart(&checkpoint, &resurrected).is_err());
    let mut unexpectedly_empty = checkpoint.clone();
    unexpectedly_empty[0].private_head_count = 0;
    assert!(verify_terminal_restart(&unexpectedly_empty, &unexpectedly_empty).is_err());
    let six = checkpoint[..6].to_vec();
    assert!(verify_terminal_restart(&six, &six).is_err());
}

fn bound_manifest(contract: &[u8], id: &str) -> Vec<u8> {
    let hash: String = sha(&[contract]).iter().map(|b| format!("{:02x}", b)).collect();
    format!(
        "{{\"contract_sha256\":\"{}\",\"contract_id\":\"{}\",\"stage\":\"{}\",\"manifest_id\":\"m\",\"primary_metric\":\"complete_distributed_matching_path\"}}",
        hash, id, STAGE
    )
    .into_bytes()
}

#[test]
fn runs_are_bound_to_their_contracts() {
    let contract = b"{\"contract_id\":\"oclob-distributed-edge-mpc-v1\"}";
    assert_eq!(
        preflight(&bound_manifest(contract, "oclob-native-cycle-v1"), contract).unwrap(),
        NativeContract::Cycle
    );
    assert_eq!(
        preflight(&bound_manifest(contract, "oclob-native-depth-v1"), contract).unwrap_err(),
        "native research preflight failed"
    );
    assert!(preflight(&bound_manifest(b"x", "oclob-native-cycle-v1"), contract).is_err());
    assert!(market_preflight(&bound_manifest(contract, "oclob-native-depth-v1"), contract).unwrap());
    assert!(
        !market_preflight(&bound_manifest(contract, "oclob-native-market-v1"), contract).unwrap()
    );
    assert_eq!(
        market_preflight(b"{}", contract).unwrap_err(),
        "resident market acceptance preflight failed"
    );
    // What is no JSON is reported as the parser reports it.
    let unread = serde_json::from_slice::<serde_json::Value>(b"{\"a\":")
        .unwrap_err()
        .to_string();
    assert_eq!(preflight(b"{\"a\":", contract).unwrap_err(), unread);
    assert_eq!(market_preflight(b"{\"a\":", contract).unwrap_err(), unread);
    assert_eq!(
        validate_research_binding(contract, b"{\"a\":").err().unwrap(),
        unread
    );
    let binding = validate_research_binding(
        contract,
        &bound_manifest(contract, "oclob-distributed-edge-mpc-v1"),
    )
    .ok()
    .unwrap();
    assert_eq!(binding.manifest_id, "m");
    assert_eq!(
        validate_research_binding(b"nothing", b"{}").err().unwrap(),
        "distributed research contract is malformed"
    );
    assert_eq!(
        validate_research_binding(b"{}", b"{}").err().unwrap(),
        "distributed research contract has no id"
    );
    assert_eq!(
        validate_research_binding(contract, b"{}").err().unwrap(),
        "distributed research manifest has no id"
    );
    assert_eq!(
        validate_research_binding(contract, b"{\"manifest_id\":\"m\"}")
            .err()
            .unwrap(),
        "distributed research manifest has no contract digest"
    );
    assert_eq!(
        validate_research_binding(contract, &bound_manifest(contract, "other"))
            .err()
            .unwrap(),
        "distributed research contract and manifest are not the approved pair"
    );
}

#[test]
fn contracts_choose_what_a_run_does() {
    assert_eq!(
        select_mode(NativeContract::SecondExpiry, true, true, true).unwrap(),
        NativeMode::Expiry
    );
    assert_eq!(
        select_mode(NativeContract::Worker, true, false, false).unwrap(),
        NativeMode::LifecyclePhase { worker: true }
    );
    assert_eq!(
        select_mode(NativeContract::Cycle, true, false, false).unwrap_err(),
        "lifecycle execution needs its bound contract"
    );
    assert_eq!(
        select_mode(NativeContract::Notes, false, true, false).unwrap_err(),
        "next-match mode needs its cycle contract"
    );
    assert_eq!(
        select_mode(NativeContract::FirstLifecycle, false, false, true).unwrap(),
        NativeMode::FinalizeCycle {
            continues_lifecycle: true
        }
    );
    assert_eq!(
        select_mode(NativeContract::Wallet, false, false, true).unwrap(),
        NativeMode::FinalizeWallet
    );
    assert_eq!(
        select_mode(NativeContract::Cycle, false, true, false).unwrap(),
        NativeMode::Match {
            cycle: true,
            lifecycle: false,
            next_match: true,
            multifill: false
        }
    );
    assert_eq!(
        select_mode(NativeContract::Deferred, false, false, false).unwrap(),
        NativeMode::Match {
            cycle: false,
            lifecycle: false,
            next_match: false,
            multifill: true
        }
    );
}

#[test]
fn a_run_takes_every_step_that_applies() {
    let run = MatchRun {
        cycle: false,
        lifecycle: false,
        next_match: false,
        multifill: false,
        deferred: false,
    };
    let mut steps = Vec::new();
    let mut step = next_match_stage(None, run);
    while let Some(stage) = step {
        steps.push(stage);
        step = next_match_stage(Some(stage), run);
    }
    assert_eq!(
        steps,
        vec![
            MatchStage::CertifyMaker,
            MatchStage::RestMaker,
            MatchStage::CertifyTaker,
            MatchStage::Match,
            MatchStage::OpenAuthorities,
            MatchStage::CheckReserves,
            MatchStage::ProveFills,
            MatchStage::RefuseClaim,
            MatchStage::Settle,
            MatchStage::CheckSettled,
            MatchStage::RetrySettlement,
            MatchStage::RefuseUnobserved,
            MatchStage::Observe,
            MatchStage::RefuseWrongHeight,
            MatchStage::Finalize,
            MatchStage::RepeatFinalization,
            MatchStage::PublishResult,
        ]
    );
    let second = MatchRun {
        cycle: true,
        lifecycle: true,
        next_match: true,
        ..run
    };
    assert_eq!(next_match_stage(None, second), Some(MatchStage::CertifyTaker));
    assert_eq!(
        next_match_stage(Some(MatchStage::ProveFills), second),
        Some(MatchStage::RefuseCancellation)
    );
}

#[test]
fn native_fills_and_guards_are_exact() {
    let single = batch(vec![slot(true, 100, 40), slot(false, 0, 0)], 0);
    assert!(check_expected_fills(&single, 1, false, false).is_ok());
    assert!(check_expected_fills(&single, 1, true, false).is_err());
    let double = batch(vec![slot(true, 100, 60), slot(true, 101, 30)], 0);
    assert!(check_expected_fills(&double, 2, false, true).is_ok());
    assert_eq!(
        check_expected_fills(&batch(vec![], 0), 1, false, false).unwrap_err(),
        "native scenario did not produce the exact expected fills"
    );
    assert!(check_initial_reserves(0, 0, [2, 1], 2, false).is_ok());
    assert!(check_initial_reserves(1, 0, [4, 4], 1, true).is_ok());
    assert_eq!(
        check_initial_reserves(1, 0, [1, 1], 1, false).unwrap_err(),
        "initial native holds were already consumed"
    );
    assert_eq!(
        check_initial_reserves(0, 0, [2, 1], 1, false).unwrap_err(),
        "native fixture contains duplicate or unexpected pretrade reservations"
    );
    let refused: Result<(), String> = Err("locally executed matched slots differ".to_string());
    assert!(check_signing_guards(&refused, &Some(refused.clone())).is_ok());
    assert_eq!(
        check_signing_guards(&Ok(()), &None).unwrap_err(),
        "resident node signed a substituted MPC result"
    );
    assert_eq!(
        check_signing_guards(&refused, &Some(Err("else".to_string()))).unwrap_err(),
        "node did not reject signing an extracted member"
    );
    let told = |code: &str, unchanged| RefusedRequest {
        code: text(code),
        unchanged,
    };
    assert!(check_refusal(&told("state_unavailable", true), false).is_ok());
    assert!(check_refusal(&told("ordering_rejected", true), true).is_ok());
    assert_eq!(
        check_refusal(&told("state_unavailable", false), false).unwrap_err(),
        "rejected finality changed node state"
    );
    assert_eq!(
        check_refusal(&told("other", true), true).unwrap_err(),
        "node allowed a cancellation to overtake unsettled matching"
    );
    assert!(check_extraction(&Err(
        "the batch member cannot settle individually".to_string()
    ))
    .is_ok());
    assert!(check_extraction(&Ok(())).is_err());
    let head = |sequence, status: &str| ReserveHeadFacts {
        sequence,
        status: status.to_string(),
        remaining_opened: true,
    };
    assert!(check_settled_reserves(0, &head(1, "active"), &head(2, "consumed"), 2).is_ok());
    assert!(check_settled_reserves(0, &head(2, "active"), &head(2, "consumed"), 2).is_err());
    assert!(check_settlement_retry("tx", "tx", &[1; 32], &[1; 32]).is_ok());
    assert_eq!(
        check_settlement_retry("tx", "ty", &[1; 32], &[1; 32]).unwrap_err(),
        "native retry applied a second state transition"
    );
    assert!(check_substituted_observation(
        &Err("configured DeFMI has not confirmed this exact native fill".to_string()),
        3
    )
    .is_ok());
    assert_eq!(
        check_substituted_observation(&Err("else".to_string()), 3).unwrap_err(),
        "canonical parent substitution reached unexpected guard on node 3: else"
    );
    assert_eq!(
        result_target(false, true),
        "/handoff/native-match-result.json"
    );
}

fn field(value: &str) -> ReportField {
    ReportField {
        encoded: value.as_bytes().to_vec(),
        text: text(value),
    }
}

fn fingerprints(from: u8, count: u8) -> Option<Vec<Option<String>>> {
    Some(
        (from..from + count)
            .map(|i| Some(format!("{:02x}", i).repeat(32)))
            .collect(),
    )
}

fn round(first: bool) -> RoundReport {
    RoundReport {
        contract_sha256: text("hash"),
        native_note_settlement: Some(true),
        atomically_settled_fills: Some(if first { 2 } else { 1 }),
        node_observed_canonical_finality: Some(if first { 14 } else { 7 }),
        claim_authorization_response_signatures: Some(if first { 4 } else { 2 }),
        claim_authorization_key_fingerprints: if first {
            fingerprints(1, 8)
        } else {
            fingerprints(20, 4)
        },
        post_match_participant_signatures: Some(if first { 4 } else { 2 }),
        fresh_claim_authorization_keys: Some(if first { 8 } else { 4 }),
        post_match_financial_approval_signatures: Some(0),
        trade_price: Some(101),
        trade_quantity: Some(1),
        maker_head_sequence_before: Some(1),
        maker_head_sequence_after: Some(2),
        arriving_order_commitment: Some("05".repeat(32)),
        canonical_transaction: field(if first { "one" } else { "two" }),
        native_after_root: field(if first { "root-one" } else { "root-two" }),
    }
}

fn reuse(sequence: u64) -> ReuseReport {
    ReuseReport {
        order_commitment: Some("05".repeat(32)),
        selected_funding_note_spent_verified: Some(true),
        canonical_reserve_verified: Some(true),
        facility_sequence: Some(sequence),
    }
}

fn caller(seed: u8) -> CallerIdentity {
    CallerIdentity {
        certificate_sha256: [seed; 32],
        application_key: [seed + 100; 32],
    }
}

fn seven_nodes() -> ClusterPublicConfig {
    cluster_config(
        (0..7u16)
            .map(|party| ClusterNodePublic {
                party,
                share_encryption_key: vec![party as u8 + 1; 32],
                receipt_verifying_key: SigningKey::from_bytes(&[party as u8 + 51; 32])
                    .verifying_key()
                    .to_bytes(),
            })
            .collect(),
        None,
    )
}

fn reuse_evidence() -> ReuseEvidence {
    let manifest = EdgeOrderManifest {
        market_id: "JGB10Y-JPY".to_string(),
        commitment: OrderCommitment([5; 32]),
        retention_deadline: 1000,
        settlement_capability_commitment: [6; 32],
        signer: [7; 32],
        body: vec![8],
    };
    let replies = (0..7u16)
        .map(|party| NodeReply {
            party,
            receipt: NodeAdmissionReceipt {
                party,
                order_commitment: OrderCommitment([5; 32]),
                manifest_signer: [7; 32],
                order_share_digest: [party as u8 + 1; 32],
                capability_key_share_digest: [party as u8 + 11; 32],
                generation: 1,
                state_digest: [9; 32],
                signer: [10; 32],
                signature: vec![11; 64],
            },
            order_share_digest: [party as u8 + 1; 32],
            capability_key_share_digest: [party as u8 + 11; 32],
        })
        .collect();
    ReuseEvidence {
        receipt: EdgeDistributor::assemble_receipt(manifest, replies),
        manifest_valid: true,
        receipts_valid: vec![true; 7],
    }
}

/// A wallet whose notes are `count` identifiers from `from` on, all on the
/// ledger.
fn wallet(from: u8, count: u8, reported: u64, canonical: u64) -> WalletEvidence {
    WalletEvidence {
        report: WalletReport {
            wallet_recovered: Some(true),
            expected_private_balances_verified: Some(true),
            notes: Some(u64::from(count)),
            facility_sequence: Some(reported),
            canonical_notes: fingerprints(from, count),
            facility_id: Some("0A".repeat(32)),
        },
        notes: (from..from + count)
            .map(|id| {
                Ok(LedgerNote {
                    note_id: [id; 32],
                    lock_id: [0; 32],
                })
            })
            .collect(),
        facility: Ok(canonical),
    }
}

/// The four wallets of a cycle. Only the last two are compared with the
/// ledger's facility.
fn cycle_evidence() -> Vec<WalletEvidence> {
    vec![
        wallet(1, 2, 4, 0),
        wallet(3, 3, 3, 0),
        wallet(6, 3, 5, 5),
        wallet(9, 5, 5, 5),
    ]
}

#[test]
fn a_cycle_uses_every_claim_key_once() {
    let accept = |first: &RoundReport, next: &RoundReport| {
        finalize_cycle_acceptance(
            first,
            next,
            &reuse(4),
            &reuse_evidence(),
            &seven_nodes(),
            "hash",
            &cycle_evidence(),
            &Ok([0xab; 32]),
            true,
        )
    };
    let totals = accept(&round(true), &round(false)).ok().unwrap();
    assert_eq!(totals.target, "/handoff/native-cycle-complete.json");
    assert_eq!(cycle_target(false), "/handoff/native-result.json");
    assert_eq!(
        totals.first_settlement_root,
        round(true).native_after_root.encoded
    );
    assert_eq!(totals.native_after_root, "ab".repeat(32));
    assert_eq!(totals.completed_native_rounds, 2);
    assert_eq!(totals.total_native_fills, 3);
    assert_eq!(totals.fresh_claim_authorization_keys, 12);
    assert_eq!(totals.post_match_financial_approval_signatures, 0);
    assert_eq!(totals.recipient_claims_redeemed, 8);
    assert_eq!(totals.private_facility_witnesses_recovered, 4);
    assert!(totals.recovered_note_funded_next_order && totals.next_order_matched);
    assert_eq!(totals.next_order_mpc_nodes, 7);
    assert_eq!(totals.final_facility_sequences, [5, 5]);
    assert_eq!(
        totals.claim_authorization_key_fingerprints[8],
        "14".repeat(32)
    );
    assert_eq!(totals.claim_signatures, 6);
    assert_eq!(totals.claim_keys.len(), 12);
    assert_eq!(totals.claim_keys[8], [20; 32]);
    // Whatever the order of the reports, the keys come out sorted.
    let mut first = round(true);
    let mut next = round(false);
    first.claim_authorization_key_fingerprints = fingerprints(90, 8);
    if let Some(list) = next.claim_authorization_key_fingerprints.as_mut() {
        list.reverse();
    }
    let sorted = accept(&first, &next).ok().unwrap().claim_keys;
    assert_eq!(sorted[0], [20; 32]);
    assert_eq!(sorted[3], [23; 32]);
    assert_eq!(sorted[4], [90; 32]);
    assert_eq!(sorted[11], [97; 32]);
    let fails = |first: RoundReport, next: RoundReport| accept(&first, &next).err().unwrap();
    let mut next = round(false);
    next.claim_authorization_key_fingerprints = fingerprints(8, 4);
    assert_eq!(
        fails(round(true), next),
        "claim authorization key was reused across native rounds"
    );
    let mut next = round(false);
    next.claim_authorization_key_fingerprints = Some(vec![text("0g")]);
    assert_eq!(
        fails(round(true), next),
        hex::decode("0g").unwrap_err().to_string()
    );
    let mut next = round(false);
    next.claim_authorization_key_fingerprints = Some(vec![text("000")]);
    assert_eq!(fails(round(true), next), "Odd number of digits");
    let mut next = round(false);
    next.claim_authorization_key_fingerprints = Some(vec![text("00")]);
    assert_eq!(
        fails(round(true), next),
        "claim authorization key fingerprint has incorrect length"
    );
    let mut next = round(false);
    next.claim_authorization_key_fingerprints = Some(vec![None]);
    assert_eq!(
        fails(round(true), next),
        "next native round has an invalid claim key fingerprint"
    );
    let mut first = round(true);
    first.claim_authorization_key_fingerprints = None;
    assert_eq!(
        fails(first, round(false)),
        "first native round lacks claim key fingerprints"
    );
    let mut first = round(true);
    first.claim_authorization_response_signatures = None;
    assert_eq!(
        fails(first, round(false)),
        "first native round lacks claim response evidence"
    );
    let mut next = round(false);
    next.trade_price = Some(100);
    assert_eq!(
        fails(round(true), next),
        "native cycle is missing its exact refund-funded second match"
    );
    let mut next = round(false);
    next.canonical_transaction = field("one");
    assert_eq!(
        fails(round(true), next),
        "native cycle is missing its exact refund-funded second match"
    );
}

#[test]
fn a_cycle_stands_only_with_its_wallets() {
    let accept_at = |reuse_receipt: &ReuseEvidence,
                     wallets: &Vec<WalletEvidence>,
                     root: &Result<Digest32, String>| {
        finalize_cycle_acceptance(
            &round(true),
            &round(false),
            &reuse(4),
            reuse_receipt,
            &seven_nodes(),
            "hash",
            wallets,
            root,
            false,
        )
    };
    let accept = |reuse_receipt: &ReuseEvidence, wallets: &Vec<WalletEvidence>| {
        accept_at(reuse_receipt, wallets, &Ok([2; 32]))
    };
    assert_eq!(
        accept_at(
            &reuse_evidence(),
            &cycle_evidence(),
            &Err("no root".to_string())
        )
        .err()
        .unwrap(),
        "no root"
    );
    assert_eq!(
        accept(&reuse_evidence(), &cycle_evidence()).ok().unwrap().target,
        "/handoff/native-result.json"
    );
    let change = |change: &dyn Fn(&mut Vec<WalletEvidence>)| {
        let mut wallets = cycle_evidence();
        change(&mut wallets);
        accept(&reuse_evidence(), &wallets).err()
    };
    let says = |text: &str| Some(text.to_string());
    assert_eq!(change(&|_| {}), None);
    let balances = "corporate cycle recovery did not validate the expected balances";
    assert_eq!(change(&|all| drop(all.pop())), says(balances));
    assert_eq!(change(&|all| all.swap(0, 1)), says(balances));
    assert_eq!(
        change(&|all| all[3].report.wallet_recovered = None),
        says(balances)
    );
    assert_eq!(
        change(&|all| all[1].report.canonical_notes = None),
        says("cycle notes missing")
    );
    assert_eq!(
        change(&|all| all[1].report.canonical_notes = fingerprints(3, 2)),
        says("cycle note count differs")
    );
    let differs = "cycle note is not the canonical recipient output";
    assert_eq!(
        change(&|all| all[2].notes[1] = Ok(LedgerNote {
            note_id: [99; 32],
            lock_id: [0; 32]
        })),
        says(differs)
    );
    assert_eq!(
        change(&|all| all[0].notes[0] = Ok(LedgerNote {
            note_id: [1; 32],
            lock_id: [2; 32]
        })),
        says(differs)
    );
    assert_eq!(change(&|all| drop(all[3].notes.pop())), says(differs));
    assert_eq!(
        change(&|all| all[3].notes[4] = Err("ledger down".to_string())),
        says("ledger down")
    );
    assert_eq!(
        change(&|all| all[2].facility = Ok(4)),
        says("canonical cycle facility differs from the private witness")
    );
    assert_eq!(
        change(&|all| all[3].facility = Err("facility unread".to_string())),
        says("facility unread")
    );
    assert_eq!(
        change(&|all| all[2].report.facility_id = None),
        says("cycle facility absent")
    );
    assert_eq!(
        change(&|all| all[2].report.facility_id = text("0a")),
        says("cycle facility length differs")
    );
    assert_eq!(
        change(&|all| all[2].report.facility_id = text("0a0")),
        says("Odd number of digits")
    );
    // The reused order's receipt is checked before anything else.
    let mut forged = reuse_evidence();
    forged.receipts_valid[6] = false;
    assert_eq!(
        accept(&forged, &Vec::new()).err(),
        says("edge admission receipt is invalid")
    );
    let mut short = reuse_evidence();
    short.receipts_valid.pop();
    assert_eq!(
        accept(&short, &cycle_evidence()).err(),
        says("edge admission receipt is invalid")
    );
}

#[test]
fn a_reused_note_is_accepted_with_both_wallets() {
    let accept = |source: &ReuseReport, pretrade: bool, taker: &WalletEvidence| {
        finalize_wallet_acceptance(
            &round(true),
            &wallet(1, 1, 2, 2),
            taker,
            source,
            &reuse_evidence(),
            pretrade,
            &seven_nodes(),
            "hash",
            &Ok([0xcd; 32]),
        )
    };
    let totals = accept(&reuse(3), true, &wallet(2, 2, 2, 3)).ok().unwrap();
    assert_eq!(totals.target, "/handoff/native-result.json");
    assert_eq!(
        totals.native_settlement_root,
        round(true).native_after_root.encoded
    );
    assert_eq!(totals.native_after_root, "cd".repeat(32));
    assert_eq!(totals.recipient_claims_redeemed, 3);
    assert_eq!(totals.private_facility_witnesses_recovered, 2);
    assert_eq!(totals.next_order_mpc_nodes, 7);
    assert_eq!(totals.next_order_commitment, "05".repeat(32));
    assert!(totals.recovered_note_funded_next_order && !totals.next_order_matched);
    assert_eq!(totals.verdict, "smoke_only");
    let unproved = "new order did not prove consumption of its selected recovered note";
    assert_eq!(
        accept(&reuse(4), true, &wallet(2, 2, 2, 3)).err().unwrap(),
        unproved
    );
    assert_eq!(
        accept(&reuse(3), false, &wallet(2, 2, 2, 3)).err().unwrap(),
        unproved
    );
    assert_eq!(
        accept(&reuse(3), true, &wallet(2, 2, 2, 2)).err().unwrap(),
        "canonical facility did not advance through wallet reuse"
    );
    assert_eq!(
        accept(&reuse(3), true, &wallet(2, 1, 2, 3)).err().unwrap(),
        "corporate recovery report did not verify its actual wallet"
    );
    let mut locked = wallet(2, 2, 2, 3);
    locked.notes[1] = Ok(LedgerNote {
        note_id: [3; 32],
        lock_id: [1; 32],
    });
    assert_eq!(
        accept(&reuse(3), true, &locked).err().unwrap(),
        "recovered note is not the actual unlocked canonical output"
    );
}

#[test]
fn wallet_reports_name_canonical_notes() {
    let check = |kind: WalletKind, notes: Vec<Option<String>>, sequence: u64| {
        let mut found = wallet(1, 2, 4, 4);
        found.report.canonical_notes = Some(notes);
        check_wallet(kind, &found, 2, sequence)
    };
    let good = || vec![Some("01".repeat(32)), Some("02".repeat(32))];
    assert!(check(WalletKind::Cycle, good(), 4).is_ok());
    assert_eq!(
        note_id(WalletKind::Cycle, &Some("0B".repeat(32))).unwrap(),
        [11; 32]
    );
    assert_eq!(
        report_facility(WalletKind::Wallet, &wallet(1, 2, 4, 4).report).unwrap(),
        [10; 32]
    );
    assert_eq!(
        check(WalletKind::Wallet, good(), 5).unwrap_err(),
        "corporate recovery report did not verify its actual wallet"
    );
    assert_eq!(
        check(WalletKind::Cycle, vec![], 4).unwrap_err(),
        "cycle note count differs"
    );
    assert_eq!(
        check(WalletKind::Cycle, vec![text("01"), None], 4).unwrap_err(),
        "invalid cycle note length"
    );
    assert_eq!(
        check(WalletKind::Wallet, vec![Some("01".repeat(32)), None], 4).unwrap_err(),
        "invalid recovered note ID"
    );
    assert!(check_note(WalletKind::Cycle, &[1; 32], &[1; 32], &[0; 32]).is_ok());
    assert_eq!(
        check_note(WalletKind::Wallet, &[1; 32], &[1; 32], &[2; 32]).unwrap_err(),
        "recovered note is not the actual unlocked canonical output"
    );
    let wallets = cycle_wallets();
    assert_eq!(wallets.len(), 4);
    assert_eq!(wallets[3].path, "/handoff/taker-cycle-final.wallet.json");
}

fn deferred(id: &str, order: &str, after: bool) -> DeferredRequest {
    let rejected = id == "native-maker-too-large";
    DeferredRequest {
        request_id: field(id),
        authorization_digest: field(&"a".repeat(64)),
        order_commitment: field(order),
        funding_prepared: Some(after && !rejected),
        admitted: Some(after && !rejected),
        ended: Some(after && rejected),
    }
}

fn intake() -> DeferredIntake {
    let list = |after| {
        vec![
            deferred("one", &"01".repeat(32), after),
            deferred("native-maker-too-large", &"02".repeat(32), after),
            deferred("two", &"03".repeat(32), after),
        ]
    };
    DeferredIntake {
        nodes_running: "false\n".repeat(7),
        ledger_paused: " true\n".to_string(),
        before: list(false),
        after: list(true),
        queue_before: b"queue".to_vec(),
        queue_after: b"queue".to_vec(),
        rejected_status: text("funding_rejected"),
        rejected_funding_prepared: Some(false),
    }
}

#[test]
fn a_deferred_intake_settles_exactly_its_makers() {
    let makers = vec![[3; 32], [1; 32]];
    let report = verify_deferred_intake(&intake(), &makers).ok().unwrap();
    assert_eq!(report.queued_without_funding, 3);
    assert_eq!(report.accepted_maker_orders, 2);
    assert_eq!(report.over_capacity_rejected, 1);
    assert_eq!(report.concurrent_intake_clients, 2);
    assert_eq!(
        verify_deferred_intake(&intake(), &vec![[1; 32], [2; 32]]).unwrap_err(),
        "deferred makers differ from the makers actually settled"
    );
    let mut up = intake();
    up.nodes_running = "false\n".repeat(6);
    assert_eq!(
        verify_deferred_intake(&up, &makers).unwrap_err(),
        "deferred intake did not run during actual MPC and DeFMI outage"
    );
    let mut lost = intake();
    lost.queue_after = b"other".to_vec();
    assert_eq!(
        verify_deferred_intake(&lost, &makers).unwrap_err(),
        "deferred queue did not reject overcommit or survive restart"
    );
    let mut gone = intake();
    gone.after[0].request_id = field("else");
    assert_eq!(
        verify_deferred_intake(&gone, &makers).unwrap_err(),
        "deferred request disappeared"
    );
    let mut changed = intake();
    changed.after[0].authorization_digest = field("b");
    assert_eq!(
        verify_deferred_intake(&changed, &makers).unwrap_err(),
        "deferred intake prepared funding offline or changed signed terms"
    );
    let mut reserved = intake();
    reserved.after[1].funding_prepared = Some(true);
    assert_eq!(
        verify_deferred_intake(&reserved, &makers).unwrap_err(),
        "over-capacity request produced a financial reserve"
    );
    let mut waiting = intake();
    waiting.after[2].admitted = Some(false);
    assert_eq!(
        verify_deferred_intake(&waiting, &makers).unwrap_err(),
        "deferred accepted maker did not reach real MPC admission"
    );
    let mut unnamed = intake();
    for list in [&mut unnamed.before, &mut unnamed.after] {
        list[0].order_commitment.text = None;
    }
    assert_eq!(
        verify_deferred_intake(&unnamed, &makers).unwrap_err(),
        "missing admitted commitment"
    );
}

#[test]
fn lifecycles_end_with_their_funds_returned() {
    assert_eq!(lifecycle_phase("final").unwrap(), LifecyclePhase::Final);
    assert_eq!(
        lifecycle_phase("other").unwrap_err(),
        "unknown native lifecycle phase"
    );
    let report = |sequence, released| ReleaseReport {
        node_observations: Some(7),
        exact_retry_unchanged: Some(true),
        wallet_balances_verified: Some(true),
        wallet_facility_sequence: Some(sequence),
        wallet_notes: Some(4),
        wallet_unfilled_releases: released,
    };
    let check = |rounds, cancel, released| {
        check_lifecycle_reports(
            &text("hash"),
            rounds,
            "hash",
            &report(cancel, None),
            &report(8, released),
        )
    };
    assert!(check(Some(2), 6, Some(1)).is_ok());
    assert_eq!(
        check(Some(1), 6, Some(1)).unwrap_err(),
        "lifecycle is missing its real continuing settlement cycle"
    );
    assert_eq!(
        check(Some(2), 7, Some(1)).unwrap_err(),
        "native lifecycle or recovered wallet is incomplete"
    );
    assert_eq!(
        check(Some(2), 6, None).unwrap_err(),
        "expiry did not return the original note to the corporate wallet"
    );
    assert!(check_released(2, &[1; 32], 3, &[1; 32], "released").is_ok());
    assert!(check_released(2, &[1; 32], 3, &[2; 32], "released").is_err());
    let observed = || ReleaseObservation {
        altered_accepted: false,
        altered_unchanged: true,
        statement: [1; 32],
        target: OrderCommitment([2; 32]),
        repeated_same: true,
        repeated_unchanged: true,
        records_before: 4,
        records_after: 3,
    };
    let order = OrderCommitment([2; 32]);
    assert!(check_release_observation(&observed(), &[1; 32], &order).is_ok());
    let mut altered = observed();
    altered.altered_accepted = true;
    assert_eq!(
        check_release_observation(&altered, &[1; 32], &order).unwrap_err(),
        "node accepted an altered canonical release"
    );
    assert_eq!(
        check_release_observation(&observed(), &[9; 32], &order).unwrap_err(),
        "node observed another release"
    );
    let mut kept = observed();
    kept.records_after = 4;
    assert_eq!(
        check_release_observation(&kept, &[1; 32], &order).unwrap_err(),
        "node did not durably and idempotently terminate its order"
    );
    assert_eq!(
        phase_target("cancel", true),
        "/handoff/native-cancel-certificate.json"
    );
}

fn queued() -> QueuedExpiry {
    QueuedExpiry {
        absent_status: text("never_reserved"),
        absent_request: text("native-expiry-absent-001"),
        released_status: text("released"),
        released_request: text("native-expiry-release-002"),
        released_transaction: field("tx"),
        stop_checkpoint: text("after-expiry-before-journal"),
        queue_before: b"q".to_vec(),
        queue_after: b"q".to_vec(),
        queue_length: Some(2),
        first_aborted: true,
        second_transaction: field("tx"),
        wallet_recovered: Some(true),
        wallet_balances_verified: Some(true),
        wallet_facility_sequence: Some(2),
        wallet_unfilled_releases: Some(1),
        funding: FundingReport {
            selected_funding_note_spent_verified: Some(true),
            canonical_reserve_verified: Some(true),
            facility_sequence: Some(3),
            order_commitment: Some("05".repeat(32)),
        },
    }
}

#[test]
fn queued_expiry_returns_reusable_funds() {
    let order = OrderCommitment([5; 32]);
    assert_eq!(check_queued_expiry(&queued(), &order).unwrap(), "tx");
    let mut wrong = queued();
    wrong.second_transaction = field("ty");
    assert_eq!(
        check_queued_expiry(&wrong, &order).unwrap_err(),
        "queued native expiry did not recover the exact request and reusable funds"
    );
    let mut unnamed = queued();
    unnamed.released_transaction.text = None;
    assert_eq!(
        check_queued_expiry(&unnamed, &order).unwrap_err(),
        "no release transaction"
    );
    assert_eq!(last_stop_event(b"a\nbc\n\n").unwrap(), (2, 4));
    assert_eq!(
        last_stop_event(b"\n").unwrap_err(),
        "missing expiry stop event"
    );
    assert_eq!(
        last_stop_event(&vec![b'a'; 65_537]).unwrap_err(),
        "expiry stop log exceeds bound"
    );
    assert!(check_nodes_stopped(&"false\n".repeat(7)).is_ok());
    assert!(check_nodes_stopped("false").is_err());
    let accepted = AcceptedTransaction {
        statement: [1; 32],
        before_root: [2; 32],
        after_root: [3; 32],
        block_id: "block".to_string(),
        height: 4,
    };
    let mut reported = ReportedRelease {
        statement: Some("01".repeat(32)),
        before_root: Some("02".repeat(32)),
        after_root: Some("03".repeat(32)),
        block_id: text("block"),
        height: Some(4),
    };
    assert!(check_canonical_release(&reported, &accepted).is_ok());
    reported.height = Some(5);
    assert_eq!(
        check_canonical_release(&reported, &accepted).unwrap_err(),
        "corporate release receipt differs from canonical DeFMI"
    );
}

fn completed_round(order: u8, slots: Vec<MpcSlotResult>, settled: bool) -> MarketCompletedRound {
    MarketCompletedRound {
        certificate: OrderCertificate {
            market_id: "JGB10Y-JPY".to_string(),
            sequence: 1,
            commitment: OrderCommitment([order; 32]),
            previous_certificate: [0; 32],
            expires_at: 0,
            voters: Vec::new(),
            digest: [order; 32],
        },
        result: batch(slots, 0),
        book: Vec::new(),
        transaction_id: if settled { text("tx") } else { None },
        canonical_root: if settled { Some([9; 32]) } else { None },
        finality_observations: if settled { 14 } else { 0 },
        public_snapshot: None,
    }
}

fn settled(height: u64) -> Settled {
    Settled {
        transaction_id: "tx".to_string(),
        block_id: "block".to_string(),
        before_root: [1; 32],
        after_root: [2; 32],
        height,
        statement: [3; 32],
    }
}

const PROCESSES: &str = "aaaaaaaaaaaaaaaaaaaaaaaaaaaaaaaaaaaaaaaaaaaaaaaaaaaaaaaaaaaaaaaa \
    BBBBBBBBBBBBBBBBBBBBBBBBBBBBBBBBBBBBBBBBBBBBBBBBBBBBBBBBBBBBBBBB\n\
    1111111111111111111111111111111111111111111111111111111111111111\n";

#[test]
fn a_market_with_public_depth_is_accepted_by_what_the_public_saw() {
    let cluster = cluster_config(Vec::new(), None);
    let mut journal =
        MarketJournal::open(&[31; 32], &cluster, b"cluster", TextMap::new()).ok().unwrap();
    let fills = vec![slot(false, 0, 0), slot(true, 100, 30), slot(true, 100, 45)];
    for order in 1..5u8 {
        let mut done = if order < 4 {
            completed_round(order, vec![slot(false, 0, 0)], false)
        } else {
            completed_round(order, fills.clone(), true)
        };
        done.public_snapshot = Some(vec![order; 3]);
        journal
            .put(format!("done:{}", order), MarketBody::Done(done))
            .unwrap();
    }
    let id = OrderCommitment([4; 32]).hex();
    for key in ["fault-observation", "settled"] {
        journal
            .put(format!("{}:{}", key, id), MarketBody::Settled(settled(5)))
            .unwrap();
    }
    let level = |price, quantity| PublicLevel {
        side: Side::Sell,
        price,
        quantity,
    };
    let book = |order: u8, levels: Vec<PublicLevel>| PublishedBook {
        sequence: u64::from(order),
        levels,
        wire: vec![order; 3],
        fault: None,
    };
    let evidence = || MarketEvidence {
        status_before: journal.status().ok().unwrap(),
        processes: PROCESSES.to_string(),
        crash_exit: "75".to_string(),
        books: vec![
            book(1, vec![level(101, 30)]),
            book(2, vec![level(100, 30), level(101, 30)]),
            book(3, vec![level(100, 90), level(101, 30)]),
            book(4, vec![level(100, 15), level(101, 30)]),
        ],
        before_finality: vec![3; 3],
        after_restart: vec![4; 3],
    };
    let accepted = journal.acceptance(true, &evidence()).ok().unwrap();
    assert_eq!(accepted.notional, 7500);
    assert_eq!(accepted.admitted_orders, 4);
    let book = accepted.depth.unwrap();
    assert_eq!(book.canonically_published_depth_snapshots, 4);
    assert_eq!(
        (
            book.pretrade_100_quantity,
            book.posttrade_100_quantity,
            book.posttrade_101_quantity
        ),
        (90, 15, 30)
    );
    assert_eq!(book.public_snapshot, vec![4; 3]);
    let refused = |evidence: MarketEvidence| journal.acceptance(true, &evidence).err().unwrap();
    let differs = "network public price-level snapshot differs from actual completed MPC";
    let mut wrong = evidence();
    wrong.books[2].levels[0].quantity = 91;
    assert_eq!(refused(wrong), differs);
    let mut missing = evidence();
    missing.books.pop();
    assert_eq!(refused(missing), differs);
    let mut forged = evidence();
    forged.books[1].fault = Some("signature".to_string());
    assert_eq!(refused(forged), "signature");
    let mut early = evidence();
    early.before_finality = vec![4; 3];
    assert_eq!(
        refused(early),
        "public depth changed before finality or during completed restart"
    );
    let mut lost = evidence();
    lost.after_restart = Vec::new();
    assert_eq!(
        refused(lost),
        "public depth changed before finality or during completed restart"
    );
}

#[test]
fn a_resident_market_is_accepted_by_its_own_journal() {
    let cluster = cluster_config(Vec::new(), None);
    let build = |fault_height: u64, last: Vec<MpcSlotResult>| {
        let mut journal =
            MarketJournal::open(&[31; 32], &cluster, b"cluster", TextMap::new()).ok().unwrap();
        for order in 1..3u8 {
            journal
                .put(
                    format!("done:{}", order),
                    MarketBody::Done(completed_round(order, vec![slot(false, 0, 0)], false)),
                )
                .unwrap();
        }
        journal
            .put(
                "done:3".to_string(),
                MarketBody::Done(completed_round(3, last, true)),
            )
            .unwrap();
        let id = OrderCommitment([3; 32]).hex();
        journal
            .put(
                format!("fault-observation:{}", id),
                MarketBody::Settled(settled(fault_height)),
            )
            .unwrap();
        journal
            .put(format!("settled:{}", id), MarketBody::Settled(settled(5)))
            .unwrap();
        journal
    };
    let fills = || vec![slot(true, 101, 30), slot(true, 100, 60)];
    let evidence = |journal: &MarketJournal, exit: &str| MarketEvidence {
        status_before: journal.status().ok().unwrap(),
        processes: PROCESSES.to_string(),
        crash_exit: exit.to_string(),
        books: Vec::new(),
        before_finality: Vec::new(),
        after_restart: Vec::new(),
    };
    let journal = build(5, fills());
    let accepted = journal
        .acceptance(false, &evidence(&journal, "75\n"))
        .ok()
        .unwrap();
    assert_eq!(accepted.notional, 9030);
    assert_eq!(accepted.target, "/handoff/native-result.json");
    assert_eq!(accepted.status, "smoke_only");
    assert_eq!(accepted.completed_market_rounds, 3);
    assert_eq!(accepted.autonomously_settled_fills, 2);
    assert_eq!(accepted.node_finality_observations, 14);
    assert_eq!(
        accepted.native_transaction_id,
        completed_round(3, fills(), true).transaction_id
    );
    assert_eq!(
        Some(accepted.native_after_root),
        completed_round(3, fills(), true)
            .canonical_root
            .map(hex::encode)
    );
    assert!(accepted.depth.is_none());
    assert_eq!(accepted.service_processes.len(), 3);
    let refused = |journal: &MarketJournal, depth, evidence: &MarketEvidence| {
        journal.acceptance(depth, evidence).err().unwrap()
    };
    assert_eq!(
        refused(&journal, true, &evidence(&journal, "75")),
        "resident market did not execute expected rounds"
    );
    let mut changed = evidence(&journal, "75");
    changed.status_before.transaction_ids[0] = "other".to_string();
    assert_eq!(
        refused(&journal, false, &changed),
        "market restart changed completed rounds or canonical settlement"
    );
    let mut fewer = evidence(&journal, "75");
    fewer.status_before.completed_market_rounds = 2;
    assert_eq!(
        refused(&journal, false, &fewer),
        "market restart changed completed rounds or canonical settlement"
    );
    assert_eq!(
        refused(&journal, false, &evidence(&journal, "0")),
        "actual market crash and process replacement were not observed"
    );
    let other = build(6, fills());
    assert_eq!(
        refused(&other, false, &evidence(&other, "75")),
        "exact native request retry produced a different canonical receipt"
    );
    let other = build(5, vec![slot(true, 101, 30), slot(true, 100, 59)]);
    assert_eq!(
        refused(&other, false, &evidence(&other, "75")),
        "secret price priority or autonomous canonical fills differ from prediction"
    );
    let other = build(5, vec![slot(true, u64::MAX, 2)]);
    assert_eq!(
        refused(&other, false, &evidence(&other, "75")),
        "notional overflow"
    );
    assert_eq!(notional(&fills()).unwrap(), 9030);
    assert!(check_crash("a b c", "75").is_err());
}

#[test]
fn public_depth_follows_the_rounds() {
    let level = |price, quantity| PublicLevel {
        side: Side::Sell,
        price,
        quantity,
    };
    let book = |sequence, levels| PublishedBook {
        sequence,
        levels,
        wire: b"wire".to_vec(),
        fault: None,
    };
    let kept = Some(b"wire".to_vec());
    assert!(check_depth(0, &kept, &book(1, vec![level(101, 30)])).is_ok());
    assert!(check_depth(2, &kept, &book(3, vec![level(100, 90), level(101, 30)])).is_ok());
    assert_eq!(
        check_depth(3, &kept, &book(4, vec![level(100, 90), level(101, 30)])).unwrap_err(),
        "network public price-level snapshot differs from actual completed MPC"
    );
    assert!(check_depth(0, &None, &book(1, vec![level(101, 30)])).is_err());
    let mut buy = book(1, vec![level(101, 30)]);
    buy.levels[0].side = Side::Buy;
    assert!(check_depth(0, &kept, &buy).is_err());
    assert!(check_depth_stability(&kept, &kept, &b"wire".to_vec(), &b"wire".to_vec()).is_ok());
    assert_eq!(
        check_depth_stability(&kept, &None, &b"wire".to_vec(), &b"wire".to_vec()).unwrap_err(),
        "public depth changed before finality or during completed restart"
    );
}

#[test]
fn market_worker_arguments() {
    assert_eq!(parse_worker_args(&args(&[])).unwrap(), WorkerMode::Run);
    assert_eq!(
        parse_worker_args(&args(&["--wait-rounds", "3"])).unwrap(),
        WorkerMode::WaitRounds(3)
    );
    assert_eq!(
        parse_worker_args(&args(&["--wait-rounds", "x"])).unwrap_err(),
        "x".parse::<u64>().unwrap_err().to_string()
    );
    for text in ["", "-1", "18446744073709551616", "1 "] {
        assert_eq!(
            parse_worker_args(&args(&["--wait-rounds", text])).unwrap_err(),
            text.parse::<u64>().unwrap_err().to_string()
        );
    }
    assert_eq!(
        parse_worker_args(&args(&["--wait-rounds", "+18446744073709551615"])).unwrap(),
        WorkerMode::WaitRounds(u64::MAX)
    );
    assert_eq!(
        parse_worker_args(&args(&["--wait-rounds"])).unwrap_err(),
        "usage: oclob-market-worker [--initialize|--status|--wait-rounds N|--acceptance]"
    );
    assert_eq!(wait_rounds(3, 3, false).unwrap(), WaitStep::Done);
    assert_eq!(wait_rounds(2, 3, true).unwrap(), WaitStep::Wait);
    assert!(wait_rounds(2, 3, false).is_err());
    assert_eq!(
        error_digest("abc"),
        "ba7816bf8f01cfea414140de5dae2223b00361a396177a9cb410ff61f20015ad"
    );
}

#[test]
fn corporate_worker_arguments_and_reports() {
    assert_eq!(
        parse_corporate_worker_args(&args(&["--wait-admitted", "id"])).unwrap(),
        CorporateWorkerMode::WaitAdmitted("id".to_string())
    );
    assert!(parse_corporate_worker_args(&args(&["--wait-admitted"])).is_err());
    assert!(parse_corporate_worker_args(&args(&["--once", "id"])).is_err());
    assert_eq!(rest_seconds(&DispatchProgress::Idle), 2);
    assert_eq!(
        rest_seconds(&DispatchProgress::ManualReviewRequired {
            request_id: String::new()
        }),
        10
    );
    assert_eq!(
        report_reconciled(
            &EndedEntry::AbortedBeforeReserve,
            Some(AuthorizationEndReason::InsufficientFunding),
            None,
            &[0; 32]
        ),
        Some(ReconciledReport::EndedUnsent {
            funding_rejected: true
        })
    );
    let never = ExpiryOutcome::NeverReserved {
        state_root: [1; 32],
    };
    assert_eq!(
        report_reconciled(
            &EndedEntry::AbortedBeforeReserve,
            None,
            Some(&never),
            &[0; 32]
        ),
        Some(ReconciledReport::NeverReserved)
    );
    assert_eq!(
        report_reconciled(&EndedEntry::Open, None, Some(&never), &[0; 32]),
        None
    );
    assert_eq!(wait_for_entry(false, true, true).unwrap(), Waiting::Wait);
    assert_eq!(
        wait_for_entry(false, false, false).unwrap_err(),
        "timed out waiting for canonical expiry reconciliation"
    );
}

#[test]
fn the_corporate_client_reads_answers() {
    assert_eq!(parse_client_args(&args(&[])).unwrap(), ClientMode::Serve);
    assert_eq!(
        parse_client_args(&args(&["--expect-locked", "5"])).unwrap(),
        ClientMode::ExpectLocked
    );
    assert_eq!(
        parse_client_args(&args(&["--status", "5"])).unwrap_err(),
        "invalid arguments"
    );
    assert_eq!(
        read_answer(ClientMode::ExpectDenied, &Ok(AnswerKind::Queue)).unwrap_err(),
        "unauthorized access succeeded"
    );
    assert_eq!(
        read_answer(ClientMode::ExpectDenied, &Err("denied".to_string())).unwrap(),
        ClientStep::AccessDenied
    );
    assert_eq!(
        read_answer(ClientMode::Status, &Ok(AnswerKind::Rejected)).unwrap_err(),
        "request rejected"
    );
    assert_eq!(
        read_answer(ClientMode::Ping, &Ok(AnswerKind::Wallet)).unwrap_err(),
        "unexpected response"
    );
    let snapshot = |locked: &str| SnapshotReport {
        facility_asset: text("aa"),
        facility_held: text("20"),
        assets: Some(vec![
            AssetReport {
                asset_id: text("bb"),
                locked: text("0"),
            },
            AssetReport {
                asset_id: text("aa"),
                locked: text(locked),
            },
        ]),
        scope: text("canonical_notes_and_reservation_heads"),
    };
    assert!(check_locked(Some("+020"), AnswerKind::Wallet, &snapshot("20")).is_ok());
    assert_eq!(
        check_locked(Some("20"), AnswerKind::Wallet, &snapshot("21")).unwrap_err(),
        "canonical locked amount differs from expected current remainder"
    );
    assert_eq!(
        check_locked(None, AnswerKind::Wallet, &snapshot("20")).unwrap_err(),
        "expected amount missing"
    );
    assert_eq!(
        check_locked(Some("-1"), AnswerKind::Wallet, &snapshot("20")).unwrap_err(),
        "invalid expected amount"
    );
    let huge = "340282366920938463463374607431768211456";
    assert!(check_locked(Some(huge), AnswerKind::Wallet, &snapshot("20")).is_err());
}

#[test]
fn the_edge_takes_private_instructions() {
    let list = args(&[
        "--cluster",
        "c",
        "--identity",
        "i",
        "--handoff",
        "h",
        "--settlement-handoff",
        "s",
        "--scenario",
        "taker",
    ]);
    let read = parse_args(&list).ok().unwrap();
    assert!(read.cluster == "c" && read.scenario == Scenario::Taker);
    let mut wrong = list.clone();
    wrong[9] = "other".to_string();
    assert_eq!(
        parse_args(&wrong).err().unwrap(),
        "scenario must be maker or taker"
    );
    let order = |note: Option<&str>| NativeOrderInstruction {
        side: Side::Buy,
        limit_price: 101,
        quantity: 1,
        time_in_force: TimeInForce::GoodTilCancelled,
        valid_for_seconds: 10,
        source_note: note.map(|n| n.to_string()),
    };
    assert_eq!(
        order(Some(&"0b".repeat(32))).source().unwrap(),
        Some([11; 32])
    );
    assert_eq!(
        order(Some("zz")).source().unwrap_err(),
        "funding note must be hexadecimal"
    );
    assert_eq!(
        order(Some("00")).source().unwrap_err(),
        "funding note must contain 32 bytes"
    );
    assert!(order(None).check(&[1; 32], &[2; 32], &[1; 32]).is_ok());
    assert_eq!(
        order(None).check(&[1; 32], &[2; 32], &[2; 32]).unwrap_err(),
        "order asset or validity is outside the corporate configuration"
    );
    assert_eq!(order(None).expires_at(5).unwrap(), 15);
    assert_eq!(
        order(None).expires_at(u64::MAX).unwrap_err(),
        "order expiry overflow"
    );
    let terms = demo_order(Scenario::Maker, 5);
    assert!(terms.side == Side::Sell && terms.limit_price == 100 && terms.quantity == 60);
    assert_eq!(demo_order(Scenario::Taker, u64::MAX).expires_at, u64::MAX);
    assert_eq!(
        hidden_eligibility_commitment(&[4; 32], "M"),
        sha(&[b"OCLOB:LAB-ELIGIBILITY-COMMITMENT:v1", &[4; 32], b"M"])
    );
    assert_eq!(
        order_input(b"\"M\"", b"{}"),
        b"[\"oclob-corporate-order-v1\",\"M\",{}]".to_vec()
    );
    assert_eq!(
        demo_input(b"\"M\"", Scenario::Taker),
        b"[\"oclob-demo-order-v1\",\"M\",\"buy-40-at-101-ioc\"]".to_vec()
    );
    assert_eq!(cancellation_expiry(100, 5000), 1000);
    assert_eq!(cancellation_expiry(100, 500), 500);
    assert_eq!(
        check_published(b"a", b"b", true).unwrap_err(),
        "another writer published a different request"
    );
}

#[test]
fn recovered_wallets_fund_the_next_order() {
    let wallet = |values, sequence, notes, refund| RecoveredWallet {
        facility_values: values,
        facility_sequence: sequence,
        notes,
        unfilled_release_notes: vec![[6; 32]],
        own_asset_refund: refund,
    };
    let recover = |name: &str, scenario, wallet: RecoveredWallet| {
        recover_native_wallet(name, scenario, &wallet, &[120, 0, 0])
    };
    assert!(matches!(
        recover("", Scenario::Maker, wallet([0, 0, 0], 0, 0, None)),
        Ok(WalletStep::Report)
    ));
    match recover(
        "cycle-first",
        Scenario::Taker,
        wallet([970, 0, 9030], 3, 3, Some([7; 32])),
    ) {
        Ok(WalletStep::Accepted(Some(next))) => {
            assert_eq!(next.path, "/corporate/cycle-reuse-order.json");
            assert_eq!(next.instruction.limit_price, 101);
            assert_eq!(next.instruction.source_note, Some("07".repeat(32)));
        }
        _ => panic!("cycle"),
    }
    match recover(
        "queued-expiry",
        Scenario::Maker,
        wallet([120, 0, 0], 2, 0, None),
    ) {
        Ok(WalletStep::QueuedExpiry(next)) => {
            assert_eq!(next.instruction.source_note, Some("06".repeat(32)));
            assert_eq!(next.instruction.valid_for_seconds, 600);
        }
        _ => panic!("queued"),
    }
    assert!(matches!(
        recover("expiry-final", Scenario::Maker, wallet([29, 0, 91], 8, 4, None)),
        Ok(WalletStep::Accepted(None))
    ));
    let error = |r: Result<WalletStep, String>| r.err().unwrap();
    assert_eq!(
        error(recover("1", Scenario::Taker, wallet([6000, 0, 4000], 2, 2, None))),
        "actual cash refund note was not recovered"
    );
    assert_eq!(
        error(recover("cancel-final", Scenario::Maker, wallet([29, 0, 91], 6, 4, None))),
        "cancellation refund is absent"
    );
    assert_eq!(
        error(recover("cycle-final", Scenario::Maker, wallet([0, 29, 91], 5, 4, None))),
        "lab wallet recovery differs from the executed native fill"
    );
    assert_eq!(
        error(recover("queued-expiry", Scenario::Taker, wallet([120, 0, 0], 2, 0, None))),
        "queued expiry did not restore the original corporate funds"
    );
}

fn node(party: u16) -> ClusterNodePublic {
    ClusterNodePublic {
        party,
        share_encryption_key: vec![party as u8],
        receipt_verifying_key: [party as u8 + 1; 32],
    }
}

#[test]
fn a_node_starts_only_as_itself() {
    let cluster = cluster_config((0..7).map(node).collect(), None);
    assert!(check_identity(&cluster, 3, &[4; 32], "oclob_match_v1").is_ok());
    assert_eq!(
        check_identity(&cluster, 7, &[4; 32], "oclob_match_v1").unwrap_err(),
        "node is absent from the public cluster configuration"
    );
    assert_eq!(
        check_identity(&cluster, 3, &[5; 32], "oclob_match_v1").unwrap_err(),
        "node private identity does not match the public cluster configuration"
    );
    assert_eq!(
        parse_hex_32(&"fF".repeat(32), "id").unwrap(),
        [255; 32]
    );
    assert_eq!(parse_hex_32("xy", "id").unwrap_err(), "id is not hex");
    assert_eq!(parse_hex_32("ff", "id").unwrap_err(), "id is not 32 bytes");
    assert_eq!(parse_issuer_key(&"01".repeat(1984)).unwrap().len(), 1984);
    assert_eq!(
        parse_issuer_key("01").unwrap_err(),
        "legacy issuer key requires PQC re-enrollment"
    );
    assert_eq!(
        parse_issuer_key("0").unwrap_err(),
        "malformed hybrid issuer key"
    );
    assert_eq!(parse_ack_fingerprint(None, None).unwrap(), None);
    assert_eq!(
        parse_ack_fingerprint(Some(&"01".repeat(32)), Some("no key".to_string())).unwrap_err(),
        "no key"
    );
    let principals = node_principals(&caller(1), &caller(2), &caller(3), &caller(4));
    assert_eq!(proof_coordinator(&principals).unwrap(), [3; 32]);
    assert_eq!(
        proof_coordinator(&principals[..2].to_vec()).unwrap_err(),
        "node configuration has no proof coordinator"
    );
}

#[test]
fn the_laboratory_is_accepted_by_its_services() {
    let hosts = mpc_hosts();
    assert!(hosts.starts_with("oclob-node-0:5000\noclob-node-1:5000\n"));
    assert_eq!(hosts.lines().count(), 7);
    assert!(PartyExecutor::check_config(0, "oclob_match_v1", &hosts, 5).is_ok());
    assert_eq!(
        PartyExecutor::check_config(0, "oclob_match_v1", "one:1\n", 5).unwrap_err(),
        PartyExecutionError::Config
    );
    assert_eq!(node_host(6), "oclob-node-6");
    let api = corporate_api_config("maker", &[1; 32], &[2; 32], &[3; 32]);
    assert_eq!(api.endpoint.host, "oclob-maker-api");
    assert!(oclob_node::corporate_api::validate_operation_acl(&api).is_ok());
    let market = market_config(&[1; 32], &[2; 32], &[3; 32], &[4; 32], &[5; 32]);
    assert_eq!(market.participants, vec![[2; 32], [3; 32]]);
    assert_eq!(book_endpoint(&[9; 32]).port, 9446);
    let all = ledger_principals(
        &node_principals(&caller(1), &caller(2), &caller(3), &caller(4)),
        &vec![caller(8), caller(9)],
    );
    assert_eq!(all.len(), 6);
    assert_eq!(
        all[2],
        Principal {
            certificate_sha256: [3; 32],
            role: PeerRole::Coordinator,
            application_key: [103; 32],
        }
    );
    assert_eq!(
        all[5],
        Principal {
            certificate_sha256: [9; 32],
            role: PeerRole::Operator,
            application_key: [109; 32],
        }
    );
    assert_eq!(venue_id(), sha(&[b"defmi:oclob:v1"]));
    assert_eq!(defmi_id(), sha(&[b"oclob-integrated-defmi-v1"]));
    assert_eq!(
        facility_id("distributed-maker"),
        sha(&[b"OCLOB:LAB:NATIVE-FACILITY:v1", b"distributed-maker"])
    );
    assert!(check_recipient_views(&vec![[1; 32], [2; 32]]).is_ok());
    assert_eq!(
        check_recipient_views(&vec![[1; 32], [1; 32]]).unwrap_err(),
        "recipient opening directory must contain one distinct key per custody service"
    );
    assert_eq!(lab_participant(true).amount, 120);
    assert_eq!(lab_participant(false).label, "distributed-taker");
    assert_eq!(participant_orders(true).len(), 9);
    let taker = participant_orders(false);
    assert_eq!(taker.len(), 5);
    assert!(taker[4].for_client && taker[4].quantity == 75);
    assert_eq!(
        client_identity("/identity").tls_private_key,
        "/identity/tls-key.pem"
    );
    assert_eq!(parse_output(&args(&["--out", "/lab"])).unwrap(), "/lab");
    assert_eq!(
        parse_output(&args(&["--out", "lab"])).unwrap_err(),
        "provisioning output must be an absolute path"
    );
    assert_eq!(
        reject_existing("/lab", &PathState::Present).unwrap_err(),
        "refusing to overwrite /lab"
    );
}

#[test]
fn ceremonies_and_books_read_their_arguments() {
    assert!(parse_bootstrap_args(&args(&["a", "b", "c"])).is_ok());
    assert!(parse_bootstrap_args(&args(&["a"])).is_err());
    assert_eq!(
        ceremony_session(b"policy", "M"),
        sha(&[b"OCLOB:NATIVE:DKG:v1", b"policy", b"M"])
    );
    assert_eq!(
        check_no_committee("/c", &PathState::Symlink).unwrap_err(),
        "existing committee state at /c; explicit migration is required"
    );
    assert!(check_no_committee("/c", &PathState::Absent).is_ok());
    assert_eq!(
        parse_book_args(&args(&["--get", "4"])).unwrap(),
        BookMode::Get(4)
    );
    assert_eq!(
        parse_book_args(&args(&["--get", "four"])).unwrap_err(),
        "four".parse::<u64>().unwrap_err().to_string()
    );
    assert_eq!(
        parse_book_args(&args(&["--http", "1:2"])).unwrap(),
        BookMode::Http("1:2".to_string())
    );
    assert_eq!(
        parse_book_args(&args(&["--get"])).unwrap_err(),
        "usage: oclob-public-book [--get MINIMUM_SEQUENCE | --http IP:PORT]"
    );
    assert_eq!(fetch_again(None, false).unwrap(), FetchStep::Done);
    assert_eq!(fetch_again(text("x"), true).unwrap(), FetchStep::Again);
    assert_eq!(fetch_again(text("x"), false).unwrap_err(), "x");
}

#[test]
fn distributed_matching_is_exact() {
    let empty = || vec![slot(false, 0, 0); 4];
    assert!(validate_maker_result(&batch(empty(), 60), 4).is_ok());
    assert!(validate_maker_result(&batch(empty(), 59), 4).is_err());
    let mut filled = empty();
    filled[0] = slot(true, 100, 40);
    assert!(validate_taker_result(&batch(filled.clone(), 0), 4).is_ok());
    filled[3] = slot(false, 1, 0);
    assert_eq!(
        validate_taker_result(&batch(filled, 0), 4).unwrap_err(),
        "taker transition produced an unexpected public result"
    );
    assert!(check_bounded_file(false, true, 4_194_304).is_ok());
    assert_eq!(
        check_bounded_file(false, true, 4_194_305).unwrap_err(),
        "input path is unsafe"
    );
    assert!(matches!(
        retry_node(3, true, 5, 6, None, "down"),
        ExecutionRetry::Again
    ));
    match retry_node(3, false, 5, 6, None, "down") {
        ExecutionRetry::GiveUp(report) => assert_eq!(
            report,
            "node 3 execution failed; first error: unknown; last error: down"
        ),
        _ => panic!("gave up"),
    }
    match retry_node(3, true, 6, 6, Some("first"), "down") {
        ExecutionRetry::GiveUp(report) => assert_eq!(
            report,
            "node 3 execution expired; first error: first; last error: down"
        ),
        _ => panic!("gave up"),
    }
    assert!(check_round_retry(&Vec::new(), &Vec::new()).is_ok());
    let order = |market: &str, commitment: u8| {
        EdgeDistributor::assemble_receipt(
            EdgeOrderManifest {
                market_id: market.to_string(),
                commitment: OrderCommitment([commitment; 32]),
                retention_deadline: 0,
                settlement_capability_commitment: [0; 32],
                signer: [0; 32],
                body: Vec::new(),
            },
            Vec::<NodeReply>::new(),
        )
    };
    let cluster = cluster_config(Vec::new(), None);
    assert!(check_two_orders(&cluster, &order("JGB10Y-JPY", 1), &order("JGB10Y-JPY", 2)).is_ok());
    assert_eq!(
        check_two_orders(&cluster, &order("JGB10Y-JPY", 1), &order("JGB10Y-JPY", 1)).unwrap_err(),
        "edge handoff does not describe two distinct orders in this market"
    );
}

#[test]
fn a_provisioned_wallet_is_usable() {
    let secrets = ParticipantSecrets::draw().ok().unwrap();
    let other = ParticipantSecrets::draw().ok().unwrap();
    assert_ne!(secrets.identity_seed, other.identity_seed);
    assert_ne!(secrets.journal_key, secrets.client_journal_key);
    let maker = participant_config(true, &secrets, &[6; 32], vec![7; 3], &[8; 32]);
    assert_eq!(maker.facility_values, [120, 0, 0]);
    assert_eq!(maker.facility_blindings[0], secrets.capacity_blinding);
    assert_eq!(maker.facility_blindings[1], [0; 32]);
    assert_eq!(maker.facility_id, facility_id("distributed-maker"));
    assert_eq!(maker.venue_id, venue_id());
    assert_eq!(maker.claim_authorization_endpoint.host, "oclob-maker-api");
    assert_eq!(maker.claim_authorization_endpoint.port, 9890);
    assert!(maker.note_opening_key().is_ok());
    assert_eq!(maker.credential_custody_key().ok(), Some(&secrets.custody_seed));
    let taker = participant_config(false, &other, &[6; 32], vec![7; 3], &[8; 32]);
    assert_eq!(taker.facility_values, [10_000, 0, 0]);
    assert_eq!(taker.facility_id, facility_id("distributed-taker"));
    assert_eq!(taker.claim_authorization_endpoint.host, "oclob-taker-api");
}

#[test]
fn demonstration_orders_do_not_repeat() {
    let first = draw_demo_order(Scenario::Taker, 100).ok().unwrap();
    let second = draw_demo_order(Scenario::Taker, 100).ok().unwrap();
    assert_eq!(first.terms, demo_order(Scenario::Taker, 100));
    assert_eq!(first.terms.expires_at, 700);
    assert_ne!(first.nonce, second.nonce);
    assert_ne!(first.salt, second.salt);
    assert_ne!(first.nonce, first.salt);
}

#[test]
fn every_service_has_one_certificate() {
    let plan = certificate_plan();
    assert_eq!(plan.len(), 16);
    let names: Vec<&str> = plan.iter().map(|leaf| leaf.common_name.as_str()).collect();
    for i in 0..names.len() {
        assert!(!names[..i].contains(&names[i]));
    }
    assert_eq!(
        (plan[0].directory.as_str(), names[0], plan[0].server),
        ("maker", "oclob-maker", false)
    );
    assert_eq!(
        (plan[5].directory.as_str(), names[5], plan[5].prefix.as_str()),
        ("taker", "oclob-taker-api", "api-")
    );
    assert_eq!(
        (plan[15].directory.as_str(), names[15], plan[15].server),
        ("node-6", "oclob-node-6", true)
    );
    let settings = node_settings(3);
    assert_eq!((settings.version, settings.party), (4, 3));
    assert_eq!(settings.listen, "0.0.0.0:7443");
    assert_eq!(settings.proof_listen, "0.0.0.0:8443");
    assert_eq!(settings.mpc_hosts, mpc_hosts());
    assert_eq!(settings.execution_timeout_seconds, 300);
    assert_eq!(settings.trusted_defmi_id, hex::encode(defmi_id()));
    assert_eq!(settings.trusted_reservation_venue_id, hex::encode(venue_id()));
    assert_eq!(
        (settings.finality_host.as_str(), settings.finality_port),
        ("oclob-defmi", 9443)
    );
}

#[test]
fn a_wallet_follows_its_own_settlement() {
    assert!(check_preceding_settlement(&round(true), "hash").is_ok());
    assert_eq!(
        check_preceding_settlement(&round(true), "other").unwrap_err(),
        "wallet acceptance lacks its exact preceding settlement"
    );
    let mut open = round(true);
    open.native_note_settlement = None;
    assert!(check_preceding_settlement(&open, "hash").is_err());
}

#[test]
fn participants_and_orders_are_made_of_what_was_drawn() {
    let mut seven = vec![0u8; 64];
    seven[0] = 7;
    let draws = || ParticipantDraws {
        identity_seed: Ok(vec![1; 32]),
        spend: Ok(seven.clone()),
        opening_seed: Ok(vec![2; 96]),
        custody_seed: Ok(vec![3; 96]),
        capacity_blinding: Ok(seven.clone()),
        journal_key: Ok(vec![4; 32]),
        client_journal_key: Ok(vec![5; 32]),
    };
    let secrets = ParticipantSecrets::from_draws(draws()).ok().unwrap();
    let mut scalar = [0u8; 32];
    scalar[0] = 7;
    assert_eq!(secrets.identity_seed, [1; 32]);
    assert_eq!((secrets.spend, secrets.capacity_blinding), (scalar, scalar));
    assert_eq!(secrets.opening_seed, vec![2; 96]);
    assert_eq!(secrets.custody_seed, vec![3; 96]);
    assert_eq!(
        (secrets.journal_key, secrets.client_journal_key),
        ([4; 32], [5; 32])
    );
    let mut short = draws();
    short.custody_seed = Ok(vec![3; 95]);
    assert_eq!(
        ParticipantSecrets::from_draws(short).err(),
        text("random source returned another number of bytes")
    );
    let mut silent = draws();
    silent.client_journal_key = Err("no entropy".to_string());
    assert_eq!(
        ParticipantSecrets::from_draws(silent).err(),
        text("no entropy")
    );

    let order = DemoOrder::from_draws(Scenario::Maker, 100, Ok(vec![8; 32]), Ok(vec![9; 32]))
        .ok()
        .unwrap();
    assert_eq!(order.terms, demo_order(Scenario::Maker, 100));
    assert_eq!((order.nonce, order.salt), ([8; 32], [9; 32]));
    assert_eq!(
        DemoOrder::from_draws(
            Scenario::Maker,
            100,
            Ok(vec![8; 32]),
            Err("no entropy".to_string())
        )
        .err(),
        text("no entropy")
    );
}
