//! What the acceptance runs publish.

use oclob_node::acceptance_results::{
    distributed_artifact, finalize_lifecycle, finalize_queued_expiry, match_result,
    release_result, ExpiryEvidence, LifecycleEvidence, MatchFacts, SideEvidence,
};
use oclob_node::bytes::Digest32;
use oclob_node::cluster_acceptance::ResearchBinding;
use oclob_node::edge_client::EdgeAdmissionReceipt;
use oclob_node::executor::{NodeExecutionReceipt, RoundPlan};
use oclob_node::market_runtime::Settled;
use oclob_node::native_acceptance::MatchRun;
use oclob_node::native_expiry_acceptance::{AcceptedTransaction, QueuedExpiry, ReportedRelease};
use oclob_node::native_lifecycle_acceptance::{FundingReport, ReleaseReport};
use oclob_node::native_reports::{DeferredReport, ReportField};
use oclob_node::types::{
    EdgeOrderManifest, MpcBatchResult, MpcSlotResult, OrderCertificate, OrderCommitment,
};
use oclob_node::NodeStoreStatus;
use sha2::{Digest, Sha256};

fn hex_of(digest: &Digest32) -> String {
    digest.iter().map(|byte| format!("{:02x}", byte)).collect()
}

fn settled() -> Settled {
    Settled {
        transaction_id: "tx".to_string(),
        block_id: "block".to_string(),
        before_root: [1; 32],
        after_root: [2; 32],
        height: 5,
        statement: [3; 32],
    }
}

fn slot(matched: bool, trade_price: u64, trade_quantity: u64) -> MpcSlotResult {
    MpcSlotResult {
        matched,
        trade_price,
        trade_quantity,
    }
}

fn result(slots: Vec<MpcSlotResult>, arriving_remaining: u64) -> MpcBatchResult {
    MpcBatchResult {
        slots,
        arriving_remaining,
        output_digest: [7; 32],
    }
}

fn certificate(sequence: u64, voters: Vec<u16>) -> OrderCertificate {
    OrderCertificate {
        market_id: "JGB10Y-JPY".to_string(),
        sequence,
        commitment: OrderCommitment([9; 32]),
        previous_certificate: [0; 32],
        expires_at: 100,
        voters,
        digest: [10; 32],
    }
}

fn plan() -> RoundPlan {
    RoundPlan {
        version: 1,
        market_id: "JGB10Y-JPY".to_string(),
        sequence: 3,
        ordering_certificate: certificate(3, vec![0, 1, 2, 3, 4]),
        resting: vec![OrderCommitment([7; 32]), OrderCommitment([8; 32])],
        arriving: OrderCommitment([9; 32]),
        issued_at: 1,
        expires_at: 100,
        coordinator: [11; 32],
        round_id: [12; 32],
        signature: vec![13; 64],
    }
}

#[test]
fn a_settled_match_publishes_its_fills() {
    let deferred = DeferredReport {
        queued_without_funding: 3,
        accepted_maker_orders: 2,
        over_capacity_rejected: 1,
        actual_mpc_outage: true,
        actual_defmi_pause: true,
        concurrent_intake_clients: 2,
        original_authorizations_unchanged: true,
        worker_restart_unchanged: true,
    };
    let facts = MatchFacts {
        contract_sha256: "hash".to_string(),
        manifest_id: b"\"manifest\"".to_vec(),
        claim_signatures: 4,
        claim_keys: vec![[21; 32], [22; 32]],
        settled: settled(),
        observations: 14,
        fills: 2,
        maker_sequence_before: 0,
        maker_sequence_after: 1,
        pretrade_facility_sequences: [2, 1],
        posttrade_facility_sequences: [4, 3],
        output: [23; 32],
        instruction: b"instruction".to_vec(),
        elapsed_ms: 1234,
        deferred: Some(deferred),
    };
    let traded = result(
        vec![slot(true, 101, 30), slot(false, 0, 0), slot(true, 100, 60)],
        0,
    );
    let run = |next_match, deferred| MatchRun {
        cycle: true,
        lifecycle: false,
        next_match,
        multifill: !next_match,
        deferred,
    };
    let first = match_result(run(false, true), true, &plan(), &traded, &facts);
    assert_eq!(first.target, "/handoff/native-match-result.json");
    assert_eq!(first.verdict, "smoke_only");
    assert_eq!(first.contract_sha256, "hash");
    assert_eq!(first.manifest_id, b"\"manifest\"".to_vec());
    assert_eq!(first.post_match_participant_signatures, 4);
    assert_eq!(first.claim_authorization_response_signatures, 4);
    assert_eq!(first.fresh_claim_authorization_keys, 2);
    assert_eq!(
        first.claim_authorization_key_fingerprints,
        vec!["15".repeat(32), "16".repeat(32)]
    );
    assert_eq!(first.canonical_transaction, "tx");
    assert_eq!(first.canonical_height, 5);
    assert_eq!(first.native_after_root, "02".repeat(32));
    assert_eq!(first.node_observed_canonical_finality, 14);
    assert_eq!((first.trade_price, first.trade_quantity), (101, 30));
    assert_eq!((first.fill_count, first.atomically_settled_fills), (2, 2));
    assert_eq!(first.arriving_order_commitment, "09".repeat(32));
    assert_eq!(
        first.resting_order_commitments,
        vec!["07".repeat(32), "08".repeat(32)]
    );
    assert_eq!(first.fills, vec![slot(true, 101, 30), slot(true, 100, 60)]);
    assert_eq!(
        first.zkpi_sha256,
        hex_of(&Sha256::digest(b"instruction").into())
    );
    assert_eq!(first.mpc_output_sha256, "17".repeat(32));
    assert!(first.atomic_multi_fill && first.batch_extraction_rejected);
    assert_eq!(first.deferred_authorization, Some(deferred));
    let next = match_result(run(true, false), true, &plan(), &traded, &facts);
    assert_eq!(next.target, "/handoff/native-next-match-result.json");
    assert!(!next.atomic_multi_fill && !next.same_maker_legal_entity);
    assert_eq!(next.deferred_authorization, None);
    assert_eq!(
        match_result(run(false, false), false, &plan(), &traded, &facts).target,
        "/handoff/native-result.json"
    );
    let release = release_result("cancel", "hash", &settled(), 1, 2);
    assert_eq!(release.target, "/handoff/native-cancel-result.json");
    assert_eq!(release.kind, "cancel");
    assert_eq!(release.statement, "03".repeat(32));
    assert_eq!(release.canonical_root, "02".repeat(32));
    assert_eq!(release.node_observations, 7);
    assert_eq!(
        (release.head_sequence_before, release.head_sequence_after),
        (1, 2)
    );
}

fn text(value: &str) -> Option<String> {
    Some(value.to_string())
}

fn funding(facility_sequence: u64) -> FundingReport {
    FundingReport {
        selected_funding_note_spent_verified: Some(true),
        canonical_reserve_verified: Some(true),
        facility_sequence: Some(facility_sequence),
        order_commitment: Some("05".repeat(32)),
    }
}

fn states() -> Vec<NodeStoreStatus> {
    (0..7)
        .map(|party| NodeStoreStatus {
            party,
            generation: 33,
            record_count: 3,
            completed_round_count: 5,
            private_head_count: 1,
            finalized_private_round_count: 2,
            ordering_sequence: 7,
            ordering_head: [1; 32],
            state_digest: [party as u8 + 1; 32],
        })
        .collect()
}

fn lifecycle() -> LifecycleEvidence {
    let report = |sequence, released| ReleaseReport {
        node_observations: Some(7),
        exact_retry_unchanged: Some(true),
        wallet_balances_verified: Some(true),
        wallet_facility_sequence: Some(sequence),
        wallet_notes: Some(4),
        wallet_unfilled_releases: released,
    };
    LifecycleEvidence {
        cycle_contract: text("hash"),
        cycle_rounds: Some(2),
        cancel: report(6, None),
        expiry: report(8, Some(1)),
        checkpoint: states(),
        reopened: Ok(states()),
        admitted: Ok(()),
        funding: funding(7),
        order: OrderCommitment([5; 32]),
        root: Ok([0xee; 32]),
    }
}

#[test]
fn a_lifecycle_ends_with_its_releases() {
    let totals = finalize_lifecycle(&lifecycle(), "hash").ok().unwrap();
    assert_eq!(totals.target, "/handoff/native-result.json");
    assert_eq!(totals.native_after_root, "ee".repeat(32));
    assert_eq!(totals.completed_native_releases, 2);
    assert_eq!(totals.recipient_claims_redeemed, 9);
    assert_eq!(totals.final_facility_sequences, [8, 5]);
    let refused = |change: &dyn Fn(&mut LifecycleEvidence)| {
        let mut evidence = lifecycle();
        change(&mut evidence);
        finalize_lifecycle(&evidence, "hash").err().unwrap()
    };
    assert_eq!(
        refused(&|all| all.cycle_rounds = Some(1)),
        "lifecycle is missing its real continuing settlement cycle"
    );
    assert_eq!(
        refused(&|all| all.cancel.wallet_notes = Some(3)),
        "native lifecycle or recovered wallet is incomplete"
    );
    assert_eq!(
        refused(&|all| all.expiry.wallet_unfilled_releases = Some(2)),
        "expiry did not return the original note to the corporate wallet"
    );
    assert_eq!(
        refused(&|all| all.reopened = Err("node down".to_string())),
        "node down"
    );
    assert_eq!(
        refused(&|all| all.checkpoint[3].generation = 34),
        "native terminal state changed after node restart"
    );
    assert_eq!(
        refused(&|all| all.admitted = Err("admission".to_string())),
        "admission"
    );
    assert_eq!(
        refused(&|all| all.funding = funding(6)),
        "expiry order was not funded from the exact recovered cancellation note"
    );
    assert_eq!(
        refused(&|all| all.root = Err("ledger down".to_string())),
        "ledger down"
    );
}

fn field(value: &str) -> ReportField {
    ReportField {
        encoded: value.as_bytes().to_vec(),
        text: text(value),
    }
}

fn expiry() -> ExpiryEvidence {
    ExpiryEvidence {
        reports: QueuedExpiry {
            absent_status: text("never_reserved"),
            absent_request: text("native-expiry-absent-001"),
            released_status: text("released"),
            released_request: text("native-expiry-release-002"),
            released_transaction: field("tx"),
            stop_checkpoint: text("after-expiry-before-journal"),
            queue_before: b"q".to_vec(),
            queue_after: b"q".to_vec(),
            queue_length: Some(2),
            first_aborted: true,
            second_transaction: field("tx"),
            wallet_recovered: Some(true),
            wallet_balances_verified: Some(true),
            wallet_facility_sequence: Some(2),
            wallet_unfilled_releases: Some(1),
            funding: funding(3),
        },
        order: OrderCommitment([5; 32]),
        reported: ReportedRelease {
            statement: Some("01".repeat(32)),
            before_root: Some("02".repeat(32)),
            after_root: Some("03".repeat(32)),
            block_id: text("block"),
            height: Some(4),
        },
        accepted: Ok(AcceptedTransaction {
            statement: [1; 32],
            before_root: [2; 32],
            after_root: [3; 32],
            block_id: "block".to_string(),
            height: 4,
        }),
        record_counts: (0..7).map(|_| Ok(1)).collect(),
        root: Ok([0xdd; 32]),
    }
}

#[test]
fn a_queued_expiry_ends_with_its_fresh_order() {
    let totals = finalize_queued_expiry(&expiry()).ok().unwrap();
    assert_eq!(totals.verdict, "smoke_only");
    assert_eq!(totals.reconciled_expired_requests, 2);
    assert_eq!(totals.never_reserved, 1);
    assert_eq!(totals.completed_native_releases, 1);
    assert_eq!(totals.next_order_admitted_nodes, 7);
    assert_eq!(totals.native_after_root, "dd".repeat(32));
    assert_eq!(totals.next_order_commitment, "05".repeat(32));
    assert!(!totals.next_order_matched && !totals.partial_admission_cleanup_claimed);
    let refused = |change: &dyn Fn(&mut ExpiryEvidence)| {
        let mut evidence = expiry();
        change(&mut evidence);
        finalize_queued_expiry(&evidence).err().unwrap()
    };
    assert_eq!(
        refused(&|all| all.reports.first_aborted = false),
        "queued native expiry did not recover the exact request and reusable funds"
    );
    assert_eq!(
        refused(&|all| all.reports.released_transaction.text = None),
        "no release transaction"
    );
    assert_eq!(
        refused(&|all| all.accepted = Err("ledger down".to_string())),
        "ledger down"
    );
    assert_eq!(
        refused(&|all| all.reported.height = None),
        "corporate release receipt differs from canonical DeFMI"
    );
    assert_eq!(
        refused(&|all| {
            all.record_counts[2] = Ok(2);
            all.record_counts[5] = Err("node down".to_string());
        }),
        "MPC nodes did not receive only the fresh refund-funded order"
    );
    assert_eq!(
        refused(&|all| all.record_counts[5] = Err("node down".to_string())),
        "node down"
    );
    assert_eq!(
        refused(&|all| all.root = Err("no root".to_string())),
        "no root"
    );
}

fn side(sequence: u64, voters: Vec<u16>, result: MpcBatchResult, digest: u8) -> SideEvidence {
    SideEvidence {
        admission: EdgeAdmissionReceipt {
            version: 1,
            manifest: EdgeOrderManifest {
                market_id: "JGB10Y-JPY".to_string(),
                commitment: OrderCommitment([5; 32]),
                retention_deadline: 1000,
                settlement_capability_commitment: [6; 32],
                signer: [7; 32],
                body: vec![8],
            },
            node_generations: [1; 7],
            order_share_digests: [[2; 32]; 7],
            capability_key_share_digests: [[3; 32]; 7],
            node_receipts: Vec::new(),
            receipt_digest: [digest; 32],
        },
        certificate: certificate(sequence, voters),
        result,
    }
}

#[test]
fn a_distributed_match_publishes_its_evidence() {
    let maker = side(1, vec![0, 1, 2, 3, 4], result(vec![slot(false, 0, 0)], 60), 31);
    let taker = side(
        2,
        vec![0, 1, 2, 3, 4, 6],
        result(vec![slot(true, 100, 40)], 0),
        32,
    );
    let receipts: Vec<NodeExecutionReceipt> = (0..7u16)
        .map(|party| NodeExecutionReceipt {
            version: 1,
            party,
            round_id: [1; 32],
            generation: 2,
            round_commitment: [3; 32],
            program_sha256: [4; 32],
            artifact_sha256: [5; 32],
            private_parent_digest: [6; 32],
            private_state_sha256: [7; 32],
            public_output_sha256: [8; 32],
            result: result(vec![slot(true, 100, 40)], 0),
            execution_ms: 10 + u64::from(party),
            signer: [9; 32],
            signature: vec![10; 64],
        })
        .collect();
    let binding = ResearchBinding {
        contract_sha256: "hash".to_string(),
        manifest_id: "manifest".to_string(),
    };
    let publish = |elapsed| {
        distributed_artifact(&binding, "JGB10Y-JPY", &maker, &taker, &receipts, elapsed)
    };
    let artifact = publish(77);
    assert_eq!(artifact.schema, "oclob.distributed-acceptance/v1");
    assert_eq!(artifact.verdict, "accepted");
    assert_eq!(artifact.contract_sha256, "hash");
    assert_eq!(artifact.manifest_id, "manifest");
    assert_eq!(artifact.market_id, "JGB10Y-JPY");
    assert_eq!(artifact.maker_admission, "1f".repeat(32));
    assert_eq!(artifact.taker_admission, "20".repeat(32));
    assert_eq!((artifact.maker_sequence, artifact.taker_sequence), (1, 2));
    assert_eq!((artifact.maker_votes, artifact.taker_votes), (5, 6));
    assert_eq!(artifact.program_sha256, "04".repeat(32));
    assert_eq!(artifact.artifact_sha256, "05".repeat(32));
    assert_eq!(artifact.maker_arriving_remainder, 60);
    assert_eq!((artifact.trade_price, artifact.trade_quantity), (100, 40));
    assert_eq!(artifact.taker_remainder, 0);
    assert_eq!(
        artifact.party_execution_ms,
        vec![10, 11, 12, 13, 14, 15, 16]
    );
    assert_eq!(artifact.elapsed_ms, 77);
    assert_eq!(publish(u128::from(u64::MAX) + 1).elapsed_ms, u64::MAX);
}
