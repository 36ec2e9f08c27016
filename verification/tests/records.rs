//! What a corporate journal keeps of an admitted order, what it answers to a
//! request for claim signers, and the gates around acceptance runs.

use ed25519_dalek::{SigningKey, VerifyingKey};
use oclob_node::bytes::Digest32;
use oclob_node::cluster_acceptance::{agreed_result, check_read_length, execute_all};
use oclob_node::corporate::{
    CorporateNativeConfig, FacilityWitness, PreparedCorporateReserve, ReserveMandate,
    ReserveRequest, ReserveScope,
};
use oclob_node::corporate_api::{
    check_claim_issue, check_client, check_corporate_peer, ClaimContext, ClaimIssue, ClaimSide,
    CorporateApiConfig, CorporateRequest, PermitTerms, PriorFill, ReserveHead,
};
use oclob_node::corporate_client::{asks_for_wallet, check_client_input, ClientMode};
use oclob_node::corporate_dispatch::{
    expiry_progress, expiry_record, CanonicalReceipt, DispatchProgress, QueueRecord,
};
use oclob_node::corporate_expiry::{
    ExpiryOutcome, NativeExpiryResolution, NoteRelease, ReleaseReason,
};
use oclob_node::corporate_journal::NativeCorporateJournal;
use oclob_node::corporate_journal_model::{
    JournalBody, LifecycleCommand, ReceiptFacts, StoredCorporateDelivery, StoredCorporateIntent,
};
use oclob_node::corporate_worker::check_configured_input;
use oclob_node::edge_client::{
    EdgeAdmissionReceipt, EdgeDelivery, EdgeDistributor, NodeAdmissionReceipt, NodeReply,
    PreparedEdgeDelivery,
};
use oclob_node::edge_submit::{check_json_file, check_owner_only, intake_settings};
use oclob_node::executor::{NodeExecutionReceipt, RoundPlan};
use oclob_node::market_journal::MarketJournal;
use oclob_node::market_network::{
    handoff_record, publish_corporate_admissions, HandoffFacts, MarketEndpoint,
};
use oclob_node::market_runtime::{ObservedFinality, Settled};
use oclob_node::market_worker::book_time;
use oclob_node::native_acceptance::{
    certificate_target, check_cumulative_heads, check_issuer_key, check_native_committee,
    check_native_observation, check_native_point, check_pretrade, check_resting_arrival,
    check_unchanged, maker_answers, match_files, Unchanged,
};
use oclob_node::native_expiry_acceptance::check_fresh_order_only;
use oclob_node::native_lifecycle_acceptance::{
    check_expiry_funding, check_forged_cancellation, check_release_head, check_release_retry,
    check_stale_cancellation, check_unfilled, FundingReport,
};
use oclob_node::native_reports::{all_stopped, check_facility, check_input_file, WalletKind};
use oclob_node::node_service::{check_config_file, check_config_version, parse_config_path};
use oclob_node::store_model::PrivateStateFinality;
use oclob_node::text_map::TextMap;
use oclob_node::types::{
    ClusterNodePublic, ClusterPublicConfig, EdgeOrderManifest, MpcBatchResult, MpcSlotResult,
    OrderCertificate, OrderCommitment, SealedCapabilityKeyShare, SealedPartyShare,
};
use sha2::{Digest, Sha256};

fn key_of(seed: u8) -> Digest32 {
    SigningKey::from_bytes(&[seed; 32]).verifying_key().to_bytes()
}

fn cluster() -> ClusterPublicConfig {
    ClusterPublicConfig {
        market_id: "RECORDS".to_string(),
        program: "oclob_match_v1".to_string(),
        settlement_release_threshold: 3,
        nodes: (0..7u16)
            .map(|party| ClusterNodePublic {
                party,
                share_encryption_key: vec![party as u8 + 1; 32],
                receipt_verifying_key: key_of(party as u8 + 51),
            })
            .collect(),
        fault: None,
    }
}

/// 32 bytes that are no public key.
fn no_key() -> Digest32 {
    (0..=255u8)
        .map(|byte| [byte; 32])
        .find(|bytes| VerifyingKey::from_bytes(bytes).is_err())
        .unwrap()
}

fn manifest() -> EdgeOrderManifest {
    EdgeOrderManifest {
        market_id: "RECORDS".to_string(),
        commitment: OrderCommitment([16; 32]),
        retention_deadline: 1000,
        settlement_capability_commitment: [17; 32],
        signer: [21; 32],
        body: vec![64; 4],
    }
}

fn delivery() -> StoredCorporateDelivery {
    StoredCorporateDelivery {
        reserve_digest: [47; 32],
        delivery: PreparedEdgeDelivery {
            manifest: manifest(),
            deliveries: (0..7u16)
                .map(|party| EdgeDelivery {
                    party,
                    share: SealedPartyShare {
                        commitment: OrderCommitment([16; 32]),
                        party,
                        recipient: vec![party as u8 + 1; 32],
                        ciphertext: vec![party as u8; 100],
                    },
                    key: SealedCapabilityKeyShare {
                        order_commitment: OrderCommitment([16; 32]),
                        capability_commitment: [17; 32],
                        party,
                        recipient: vec![party as u8 + 1; 32],
                        ciphertext: vec![party as u8; 64],
                    },
                    share_digest: [party as u8 + 11; 32],
                    key_digest: [party as u8 + 21; 32],
                })
                .collect(),
        },
        authority: vec![3],
    }
}

fn receipt() -> EdgeAdmissionReceipt {
    let replies = (0..7u16)
        .map(|party| NodeReply {
            party,
            receipt: NodeAdmissionReceipt {
                party,
                order_commitment: OrderCommitment([16; 32]),
                manifest_signer: [21; 32],
                order_share_digest: [party as u8 + 11; 32],
                capability_key_share_digest: [party as u8 + 21; 32],
                generation: 1,
                state_digest: [91; 32],
                signer: key_of(party as u8 + 51),
                signature: vec![party as u8; 64],
            },
            order_share_digest: [party as u8 + 11; 32],
            capability_key_share_digest: [party as u8 + 21; 32],
        })
        .collect();
    EdgeDistributor::assemble_receipt(manifest(), replies)
}

fn checked(receipts_valid: bool) -> ReceiptFacts {
    ReceiptFacts {
        delivery_manifest: true,
        receipt_manifest: true,
        receipts_valid: vec![receipts_valid; 7],
    }
}

fn keep(journal: &mut NativeCorporateJournal) -> Result<(), String> {
    journal.save_receipt(
        "order-1",
        receipt(),
        &delivery(),
        &cluster(),
        &checked(true),
        &checked(true),
    )
}

fn verify(
    receipt: &EdgeAdmissionReceipt,
    delivery: &StoredCorporateDelivery,
    cluster: &ClusterPublicConfig,
) -> Result<(), String> {
    NativeCorporateJournal::verify_receipt(receipt, delivery, cluster, &checked(true))
}

#[test]
fn a_receipt_acknowledges_exactly_what_was_sent() {
    assert!(verify(&receipt(), &delivery(), &cluster()).is_ok());
    let mut other = delivery();
    other.delivery.deliveries[3].share_digest = [0; 32];
    assert_eq!(
        verify(&receipt(), &other, &cluster()).unwrap_err(),
        "stored receipt does not acknowledge the persisted ciphertexts"
    );
    let mut order = delivery();
    order.delivery.manifest.body = vec![65];
    assert_eq!(
        verify(&receipt(), &order, &cluster()).unwrap_err(),
        "stored receipt belongs to another encrypted delivery"
    );
    let mut changed = receipt();
    changed.node_generations[1] += 1;
    assert_eq!(
        verify(&changed, &delivery(), &cluster()).unwrap_err(),
        "edge admission receipt is invalid"
    );
    let mut market = cluster();
    market.market_id = "OTHER".to_string();
    assert_eq!(
        verify(&receipt(), &delivery(), &market).unwrap_err(),
        "edge distributor configuration is invalid"
    );
    let mut broken = cluster();
    broken.nodes[2].receipt_verifying_key = no_key();
    assert_eq!(
        verify(&receipt(), &delivery(), &broken).unwrap_err(),
        "edge admission receipt is invalid"
    );
}

fn scope() -> ReserveScope {
    ReserveScope {
        application_binding: [77; 32],
        venue_id: [1; 32],
        defmi_id: [2; 32],
        amount_bits: 32,
    }
}

fn reserve(hold: u8) -> PreparedCorporateReserve {
    PreparedCorporateReserve {
        request: ReserveRequest {
            mandate: ReserveMandate {
                version: 2,
                scope: scope(),
                request_commitment: [31; 32],
                facility_id: [4; 32],
                hold_id: [hold; 32],
                asset_id: [5; 32],
                amount_commitment: [33; 32],
                participant_handle: [34; 32],
                entity_commitment: [17; 32],
                credential_digest: [18; 32],
                settlement_terms_commitment: [35; 32],
                valid_from: 100,
                valid_until: 1000,
                participant_public: vec![36; 40],
                wire: vec![37; 12],
            },
            order_commitment: [38; 32],
            order_authorization_salt: [16; 32],
            reserve_reblinding: [0; 32],
            before_sequence: 4,
            before: [[41; 32], [42; 32], [43; 32]],
            after: [[44; 32], [45; 32], [46; 32]],
            wire: vec![hold; 20],
        },
        order_wire: vec![50; 24],
        signing_key: [51; 64],
        eligibility_commitment: [15; 32],
        side_blinding: [0; 32],
        reserve_blinding: [0; 32],
        facility_after: FacilityWitness {
            facility_id: [4; 32],
            sequence: 5,
            values: [80, 40, 0],
            blindings: [[0; 32]; 3],
        },
    }
}

fn intent() -> StoredCorporateIntent {
    StoredCorporateIntent {
        input_digest: [14; 32],
        order_wire: vec![50; 24],
        signing_key: [51; 64],
        eligibility_commitment: [15; 32],
        accepted_at: 100,
        expires_at: 1000,
        reserve_send_tracking: true,
    }
}

fn journal() -> NativeCorporateJournal {
    NativeCorporateJournal::load(&[9; 32], b"config", &cluster(), b"cluster", TextMap::new())
        .ok()
        .unwrap()
}

fn submitted(id: &str) -> NativeCorporateJournal {
    let mut journal = journal();
    assert!(journal.save_intent(id, intent()).is_ok());
    for (stage, body) in [
        ("reserve", JournalBody::Reserve(reserve(32))),
        ("admission", JournalBody::Admission(vec![1, 2])),
        ("delivery", JournalBody::Delivery(delivery())),
    ] {
        assert!(journal.save_stage(id, stage, body).is_ok());
    }
    journal
}

#[test]
fn a_reservation_is_owned_by_one_admitted_request() {
    let mut journal = submitted("order-1");
    assert_eq!(
        journal.admitted_reservation(&[32; 32]).unwrap_err(),
        "claim authorization reservation was not admitted to the market"
    );
    assert!(journal.admitted_request_ids().is_empty());
    let mut save = |sent: &StoredCorporateDelivery, now: bool, saved: bool| {
        journal.save_receipt(
            "order-1",
            receipt(),
            sent,
            &cluster(),
            &checked(now),
            &checked(saved),
        )
    };
    assert_eq!(
        save(&delivery(), false, true).unwrap_err(),
        "edge admission receipt is invalid"
    );
    let mut other = delivery();
    other.delivery.deliveries[3].key_digest = [0; 32];
    assert_eq!(
        save(&other, true, true).unwrap_err(),
        "stored receipt does not acknowledge the persisted ciphertexts"
    );
    assert!(save(&delivery(), true, true).is_ok());
    assert!(save(&delivery(), true, true).is_ok());
    assert_eq!(
        save(&delivery(), true, false).unwrap_err(),
        "edge admission receipt is invalid"
    );
    assert_eq!(
        journal.admitted_reservation(&[32; 32]),
        Ok("order-1".to_string())
    );
    assert_eq!(journal.admitted_request_ids(), vec!["order-1".to_string()]);
    assert_eq!(
        journal.admitted_reservation(&[33; 32]).unwrap_err(),
        "claim authorization reservation is not owned by this journal"
    );
    assert!(journal.save_intent("order-2", intent()).is_ok());
    assert!(journal
        .save_stage("order-2", "reserve", JournalBody::Reserve(reserve(32)))
        .is_ok());
    assert_eq!(
        journal.admitted_reservation(&[32; 32]).unwrap_err(),
        "corporate journal contains duplicate reservation ownership"
    );
}

#[test]
fn a_cancellation_belongs_to_its_admitted_order() {
    let command = |reason: ReleaseReason| LifecycleCommand {
        reason,
        issued_at: 200,
        expires_at: 300,
        wire: vec![8, 9],
    };
    let mut journal = submitted("order-1");
    let mut cancel = |journal: &mut NativeCorporateJournal, reason, signer: u8, checked| {
        journal.save_cancellation("order-1", command(reason), &[signer; 32], &checked, &Ok(()))
    };
    assert_eq!(
        cancel(&mut journal, ReleaseReason::Cancelled, 21, Ok(())).unwrap_err(),
        "cancel has no admitted order"
    );
    assert!(keep(&mut journal).is_ok());
    let foreign = "cancel does not belong to the originally admitted corporate order";
    assert_eq!(
        cancel(&mut journal, ReleaseReason::Cancelled, 22, Ok(())).unwrap_err(),
        foreign
    );
    assert_eq!(
        cancel(&mut journal, ReleaseReason::Expired, 21, Ok(())).unwrap_err(),
        foreign
    );
    assert_eq!(
        cancel(
            &mut journal,
            ReleaseReason::Cancelled,
            21,
            Err("signature".to_string())
        )
        .unwrap_err(),
        "signature"
    );
    assert!(matches!(journal.cancellation("order-1"), Ok(None)));
    assert!(cancel(&mut journal, ReleaseReason::Cancelled, 21, Ok(())).is_ok());
    match journal.cancellation("order-1") {
        Ok(Some(kept)) => assert_eq!(kept.wire, vec![8, 9]),
        _ => panic!("the cancellation is on record"),
    }
}

fn config() -> CorporateNativeConfig {
    CorporateNativeConfig {
        host: "defmi".to_string(),
        port: 9443,
        server_name: "defmi".to_string(),
        claim_authorization_endpoint: MarketEndpoint {
            host: "claims".to_string(),
            port: 9890,
            server_name: "claims".to_string(),
            certificate_sha256: [31; 32],
        },
        venue_id: [1; 32],
        defmi_id: [2; 32],
        issuer_public: vec![3; 64],
        facility_id: [4; 32],
        asset_id: [5; 32],
        facility_values: [120, 0, 0],
        facility_blindings: [[0; 32]; 3],
        wallet_spend_secret: [0; 32],
        wallet_opening_seed: vec![28; 96],
        credential_custody_seed: vec![29; 96],
        identity_seed: [11; 32],
    }
}

fn head(hold: u8, asset: u8, sequence: u64) -> ReserveHead {
    ReserveHead {
        state_root: [60; 32],
        active: true,
        sequence,
        hold_id: [hold; 32],
        asset_id: [asset; 32],
        scope: scope(),
        mandate_digest: [61; 32],
        escrow_note_id: [62; 32],
    }
}

fn issue(payer_sequence: u64) -> ClaimIssue {
    ClaimIssue {
        payer: ClaimSide {
            reservation_id: [32; 32],
            participant_handle: [34; 32],
            asset_id: [5; 32],
            sequence: payer_sequence,
        },
        payee: ClaimSide {
            reservation_id: [33; 32],
            participant_handle: [35; 32],
            asset_id: [6; 32],
            sequence: 0,
        },
    }
}

fn fill(operation: u8, next: u64) -> PriorFill {
    PriorFill {
        before_root: [60; 32],
        scope: scope(),
        batched: true,
        operation_id: [operation; 32],
        securities_hold: [32; 32],
        cash_hold: [40; 32],
        payer_after: Ok(head(32, 5, next)),
        payee_after: Err("the fill does not touch the payee".to_string()),
    }
}

fn permit() -> PermitTerms {
    PermitTerms {
        reservation_id: [32; 32],
        asset_id: [5; 32],
        participant_handle: [34; 32],
        facility_id: [4; 32],
        venue_id: [1; 32],
        authority_digest: [61; 32],
        escrow_note_id: [62; 32],
    }
}

fn context() -> ClaimContext {
    ClaimContext {
        handle: [34; 32],
        application: [77; 32],
        permit_valid: Ok(()),
        admission_valid: Ok(()),
        root: [60; 32],
        payer_head: head(32, 5, 0),
        payee_head: head(33, 6, 0),
        root_afterwards: [60; 32],
    }
}

#[test]
fn claim_signers_extend_exactly_the_certified_fills() {
    let ask = |issue: &ClaimIssue, fills: &Vec<PriorFill>, permit: &PermitTerms, context| {
        check_claim_issue(
            &config(),
            &[32; 32],
            issue,
            fills,
            permit,
            &scope(),
            &context,
            4,
        )
    };
    assert_eq!(ask(&issue(0), &vec![], &permit(), context()), Ok(()));
    assert_eq!(
        ask(&issue(2), &vec![fill(1, 1), fill(2, 2)], &permit(), context()),
        Ok(())
    );
    let extend = "claim authorization issue does not extend the certified fill chain";
    assert_eq!(
        ask(&issue(1), &vec![], &permit(), context()).unwrap_err(),
        extend
    );
    assert_eq!(
        ask(&issue(0), &vec![fill(1, 1)], &permit(), context()).unwrap_err(),
        extend
    );
    let malformed = "claim authorization prior-fill chain is malformed";
    assert_eq!(
        ask(&issue(2), &vec![fill(1, 1), fill(1, 2)], &permit(), context()).unwrap_err(),
        malformed
    );
    let mut alone = fill(1, 1);
    alone.batched = false;
    assert_eq!(
        ask(&issue(1), &vec![alone], &permit(), context()).unwrap_err(),
        malformed
    );
    let mut elsewhere = fill(1, 1);
    elsewhere.securities_hold = [41; 32];
    assert_eq!(
        ask(&issue(1), &vec![elsewhere], &permit(), context()).unwrap_err(),
        "claim authorization prior fill advances neither participant"
    );
    let many = (1..5).map(|i| fill(i, u64::from(i))).collect();
    assert_eq!(
        ask(&issue(4), &many, &permit(), context()).unwrap_err(),
        "claim authorization prior-fill chain exceeds one market round"
    );
    let mut foreign = permit();
    foreign.facility_id = [0; 32];
    assert_eq!(
        ask(&issue(0), &vec![], &foreign, context()).unwrap_err(),
        "claim authorization permit is not owned by this corporate wallet"
    );
    let mut venue = permit();
    venue.venue_id = [0; 32];
    assert_eq!(
        ask(&issue(0), &vec![], &venue, context()).unwrap_err(),
        "claim authorization permit names another venue"
    );
    let mut spent = permit();
    spent.escrow_note_id = [0; 32];
    assert_eq!(
        ask(&issue(0), &vec![], &spent, context()).unwrap_err(),
        "claim authorization local head differs from its durable permit"
    );
    let mut closed = context();
    closed.payee_head.active = false;
    assert_eq!(
        ask(&issue(0), &vec![], &permit(), closed).unwrap_err(),
        "claim authorization request is not at active canonical reserve heads"
    );
    let mut moved = context();
    moved.root_afterwards = [0; 32];
    assert_eq!(
        ask(&issue(0), &vec![], &permit(), moved).unwrap_err(),
        "claim authorization reserve reads crossed canonical generations"
    );
    let mut unsigned = context();
    unsigned.admission_valid = Err("admission".to_string());
    assert_eq!(
        ask(&issue(0), &vec![], &permit(), unsigned).unwrap_err(),
        "admission"
    );
    assert_eq!(
        check_claim_issue(
            &config(),
            &[39; 32],
            &issue(0),
            &vec![],
            &permit(),
            &scope(),
            &context(),
            4
        )
        .unwrap_err(),
        "claim authorization was requested from another participant"
    );
}

fn outcome(matched: bool, remaining: u64) -> MpcBatchResult {
    MpcBatchResult {
        slots: vec![
            MpcSlotResult {
                matched,
                trade_price: 100,
                trade_quantity: 40
            };
            4
        ],
        arriving_remaining: remaining,
        output_digest: [78; 32],
    }
}

fn round() -> RoundPlan {
    let certificate = OrderCertificate {
        market_id: "RECORDS".to_string(),
        sequence: 1,
        commitment: OrderCommitment([16; 32]),
        previous_certificate: [0; 32],
        expires_at: 1000,
        voters: vec![0, 1, 2, 3, 4],
        digest: [9; 32],
    };
    RoundPlan::sign(certificate, vec![], 900, 1000, &[3; 32], 4).unwrap()
}

fn unsigned_receipts(round: &RoundPlan) -> Vec<NodeExecutionReceipt> {
    (0..7u16)
        .map(|party| NodeExecutionReceipt {
            version: 1,
            party,
            round_id: round.round_id,
            generation: 1,
            round_commitment: [34; 32],
            program_sha256: [35; 32],
            artifact_sha256: [36; 32],
            private_parent_digest: [37; 32],
            private_state_sha256: [38; 32],
            public_output_sha256: [78; 32],
            result: outcome(false, 5),
            execution_ms: 1,
            signer: key_of(party as u8 + 51),
            signature: vec![0; 64],
        })
        .collect()
}

#[test]
fn agreement_needs_seven_signed_receipts() {
    let round = round();
    let agree = |cluster: &ClusterPublicConfig, receipts: &Vec<NodeExecutionReceipt>| {
        agreed_result(cluster, &round, receipts, &[35; 32], 4)
    };
    let receipts = unsigned_receipts(&round);
    assert_eq!(
        agree(&cluster(), &receipts).err(),
        Some("distributed party receipt is invalid".to_string())
    );
    let mut keyless = cluster();
    keyless.nodes[0].receipt_verifying_key = no_key();
    assert_eq!(
        agree(&keyless, &receipts).err(),
        Some("node receipt key is invalid".to_string())
    );
    assert_eq!(
        agree(&cluster(), &Vec::new()).err(),
        Some("not all seven nodes returned a receipt".to_string())
    );
    let all = receipts.iter().map(|r| Some(Ok(r.clone()))).collect();
    assert_eq!(execute_all(all).unwrap(), receipts);
    assert_eq!(
        execute_all(vec![
            Some(Ok(receipts[0].clone())),
            Some(Err("node 1 execution failed".to_string())),
            None,
        ])
        .unwrap_err(),
        "node 1 execution failed"
    );
    assert_eq!(
        execute_all(vec![None]).unwrap_err(),
        "node execution worker panicked"
    );
    let mut empty = cluster();
    empty.nodes.clear();
    assert_eq!(
        agree(&empty, &Vec::new()).err(),
        Some("cluster returned no receipts".to_string())
    );
}

#[test]
fn settings_are_bound_once() {
    let open = |records| MarketJournal::open(&[31; 32], &cluster(), b"cluster", records);
    let mut market = open(TextMap::new()).ok().unwrap();
    assert!(market.bind_settings(vec![1, 2]).is_ok());
    assert!(market.bind_settings(vec![1, 2]).is_ok());
    assert!(market.bind_settings(vec![1, 3]).is_err());
    let mut again = open(market.into_records()).ok().unwrap();
    assert!(again.bind_settings(vec![1, 2]).is_ok());
    assert!(again.bind_settings(vec![2]).is_err());
}

#[test]
fn an_ended_request_is_reported_with_its_outcome() {
    let ended = NativeExpiryResolution {
        request_id: "order-1".to_string(),
        reserve_digest: [1; 32],
        checked_at: 1001,
        outcome: ExpiryOutcome::NeverReserved {
            state_root: [2; 32],
        },
    };
    match expiry_progress(&ended, "order-1") {
        DispatchProgress::NeverReserved { request_id } => assert_eq!(request_id, "order-1"),
        _ => panic!("nothing was reserved"),
    }
    let config = config();
    assert_eq!(
        expiry_record(&config, &ended, &[9; 32]),
        QueueRecord::AbortBeforeReserve { at: 1001 }
    );
    let released = NativeExpiryResolution {
        outcome: ExpiryOutcome::Released {
            transaction_id: "tx-1".to_string(),
            height: 12,
            release: NoteRelease {
                reason: ReleaseReason::Expired,
                hold_id: [3; 32],
                sequence: 0,
                before_root: [4; 32],
                operation_id: [5; 32],
                previous_receipt: [6; 32],
                wire: vec![7; 5],
            },
            block_id: "block".to_string(),
            after_root: [8; 32],
        },
        ..ended
    };
    assert_eq!(
        expiry_record(&config, &released, &[9; 32]),
        QueueRecord::Release(CanonicalReceipt {
            defmi_network_id: "02".repeat(32),
            transaction_id: "tx-1".to_string(),
            ledger_height: 12,
            request_digest: [9; 32],
            finalized_at: 1001,
        })
    );
}

#[test]
fn input_files_are_bounded() {
    assert!(check_read_length(1_048_576).is_ok());
    assert_eq!(
        check_read_length(u64::MAX).unwrap_err(),
        "input path exceeds the maximum size"
    );
    assert!(check_json_file(false, true, 1).is_ok());
    assert_eq!(
        check_json_file(false, true, 0).unwrap_err(),
        "input path is unsafe"
    );
    assert!(check_json_file(true, true, 1).is_err());
    assert!(check_owner_only(0o600, true).is_ok());
    assert_eq!(
        check_owner_only(0o640, true).unwrap_err(),
        "corporate order file must be owner-only"
    );
    assert_eq!(
        check_owner_only(0o604, false).unwrap_err(),
        "native funding configuration must be owner-only"
    );
    assert!(check_configured_input(false, true, 10, true, 0o600).is_ok());
    assert!(check_configured_input(false, true, 10, false, 0o644).is_ok());
    assert_eq!(
        check_configured_input(false, true, 10, true, 0o644).unwrap_err(),
        "configured input is not a bounded safe file"
    );
    assert_eq!(
        check_client_input(true, true, 10, false, 0o600).unwrap_err(),
        "unsafe input"
    );
    assert!(check_config_file(false, true, 1).is_ok());
    assert_eq!(
        check_config_file(false, false, 1).unwrap_err(),
        "node configuration path is unsafe"
    );
    assert!(check_config_version(4).is_ok());
    assert_eq!(
        check_config_version(3).unwrap_err(),
        "unsupported node configuration version"
    );
    assert_eq!(
        parse_config_path(&vec!["--config".to_string(), "/node.json".to_string()]),
        Ok("/node.json".to_string())
    );
    assert_eq!(
        parse_config_path(&vec![]).unwrap_err(),
        "usage: oclob-node --config PATH"
    );
    assert!(check_input_file(true, 1).is_ok());
    assert!(check_input_file(false, 1).is_err());
    assert!(asks_for_wallet(ClientMode::Wallet));
}

#[test]
fn acceptance_gates_say_what_failed() {
    assert!(check_issuer_key(&[0; 32]).is_err());
    assert!(check_pretrade(true, true).is_ok());
    assert!(check_pretrade(true, false).is_err());
    assert!(check_resting_arrival(&outcome(false, 5), false).is_ok());
    assert_eq!(
        check_resting_arrival(&outcome(true, 5), true).unwrap_err(),
        "second resting sell unexpectedly matched"
    );
    assert!(check_cumulative_heads(1, &[1; 32], &[2; 32], &[[1; 32], [2; 32]]).is_ok());
    assert!(check_cumulative_heads(1, &[1; 32], &[2; 32], &[[2; 32], [1; 32]]).is_err());
    assert!(check_fresh_order_only(1).is_ok());
    assert!(check_fresh_order_only(2).is_err());
    assert!(check_unfilled(&outcome(false, 5)).is_ok());
    assert!(check_unfilled(&outcome(false, 4)).is_err());
    assert!(check_unfilled(&outcome(true, 5)).is_err());
    assert!(check_forged_cancellation(false, true).is_ok());
    assert!(check_forged_cancellation(true, true).is_err());
    assert!(check_release_head(0, true).is_ok());
    assert!(check_release_head(2, false).is_ok());
    assert!(check_release_head(1, false).is_err());
    assert!(check_release_retry(true, &[1; 32], &[1; 32]).is_ok());
    assert!(check_release_retry(true, &[1; 32], &[2; 32]).is_err());
    let order = OrderCommitment([16; 32]);
    let report = |sequence: u64| FundingReport {
        selected_funding_note_spent_verified: Some(true),
        canonical_reserve_verified: Some(true),
        facility_sequence: Some(sequence),
        order_commitment: Some(hex::encode([16; 32])),
    };
    assert!(check_expiry_funding(&report(7), &order).is_ok());
    assert!(check_expiry_funding(&report(6), &order).is_err());
    assert!(check_facility(WalletKind::Cycle, 3, 3).is_ok());
    assert_eq!(
        check_facility(WalletKind::Wallet, 3, 4).unwrap_err(),
        "canonical facility did not advance through wallet reuse"
    );
    assert!(!all_stopped("running"));
}

#[test]
fn a_reported_admission_is_checked_against_the_journal() {
    let mut journal = submitted("order-1");
    let check = |journal: &NativeCorporateJournal, receipts: bool| {
        journal.check_queue_admission("order-1", &cluster(), &checked(receipts))
    };
    assert_eq!(
        check(&journal, true).unwrap_err(),
        "queue admission has no durable node receipt"
    );
    assert!(keep(&mut journal).is_ok());
    assert_eq!(
        check(&journal, true),
        Ok(receipt().receipt_digest)
    );
    assert_eq!(
        check(&journal, false).unwrap_err(),
        "edge admission receipt is invalid"
    );
}

#[test]
fn callers_and_services_are_pinned() {
    let endpoint = config().claim_authorization_endpoint;
    assert!(check_corporate_peer(&endpoint, &[31; 32]).is_ok());
    assert_eq!(
        check_corporate_peer(&endpoint, &[30; 32]).unwrap_err(),
        "corporate endpoint pin mismatch"
    );
    let api = CorporateApiConfig {
        endpoint,
        clients: vec![[6; 32]],
        claim_authorization_clients: vec![[7; 32]],
    };
    assert!(check_client(&api, &CorporateRequest::QueueStatus, &[6; 32]).is_ok());
    assert_eq!(
        check_client(&api, &CorporateRequest::QueueStatus, &[7; 32]).unwrap_err(),
        "corporate client not authorized"
    );
    let text = |value: &str| Some(value.to_string());
    let settings = intake_settings(text("/journal"), text("/key"), text("order-1")).ok();
    assert_eq!(settings.unwrap().request_id, "order-1");
    assert_eq!(
        intake_settings(None, None, None).err(),
        text("native intake requires a durable corporate journal path")
    );
    assert_eq!(
        intake_settings(text("/journal"), None, None).err(),
        text("native intake requires a private corporate journal key file")
    );
    assert_eq!(
        intake_settings(text("/journal"), text("/key"), None).err(),
        text("native intake requires a stable corporate request ID")
    );
}

#[test]
fn a_match_reads_its_files_and_checks_every_observation() {
    assert_eq!(match_files(true).taker, "/handoff/reuse-taker.json");
    assert_eq!(match_files(false).maker_authority, "/handoff/maker-capability.json");
    assert_eq!(certificate_target(false), "/handoff/native-first-certificate.json");
    assert!(maker_answers(&[32; 32], &[32; 32]));
    assert!(!maker_answers(&[33; 32], &[32; 32]));
    let digest: Digest32 = Sha256::digest(b"committee").into();
    assert!(check_native_committee(&digest, b"committee").is_ok());
    assert_eq!(
        check_native_committee(&digest, b"other").unwrap_err(),
        "native scope has another MPC committee"
    );
    let base = curve25519_dalek::constants::RISTRETTO_BASEPOINT_COMPRESSED.to_bytes();
    assert!(check_native_point(&base).is_ok());
    assert_eq!(
        check_native_point(&[255; 32]).unwrap_err(),
        "invalid native point"
    );
    assert!(check_unchanged(Unchanged::RepeatedFinalization, true).is_ok());
    assert_eq!(
        check_unchanged(Unchanged::RepeatedFinalization, false).unwrap_err(),
        "exact private-head finalization retry changed signed state receipts"
    );
    assert_eq!(
        check_unchanged(Unchanged::RefusedExtraction, false).unwrap_err(),
        "rejected extraction changed canonical state"
    );
    assert!(check_stale_cancellation(false).is_ok());
    assert_eq!(
        check_stale_cancellation(true).unwrap_err(),
        "committee signed stale cancellation head"
    );
    assert_eq!(book_time(&vec![5, 6]), Ok(5));
    assert_eq!(book_time(&vec![]).unwrap_err(), "depth signatures absent");

    let finality = PrivateStateFinality {
        round_id: [1; 32],
        public_output_sha256: [2; 32],
        transition_digest: [3; 32],
        canonical_receipt_digest: [4; 32],
        canonical_height: 5,
    };
    let settled = Settled {
        transaction_id: "tx".to_string(),
        block_id: "block".to_string(),
        before_root: [6; 32],
        after_root: [7; 32],
        height: 5,
        statement: [4; 32],
    };
    let mut observed = ObservedFinality {
        slot: 0,
        party: 0,
        transaction_id: "tx".to_string(),
        block_id: "block".to_string(),
        before_root: [6; 32],
        after_root: [7; 32],
        aggregate: Ok(finality),
    };
    assert!(check_native_observation(&observed, &settled, &finality).is_ok());
    observed.aggregate = Err("slots differ".to_string());
    assert_eq!(
        check_native_observation(&observed, &settled, &finality).unwrap_err(),
        "slots differ"
    );
    observed.block_id = "other".to_string();
    assert_eq!(
        check_native_observation(&observed, &settled, &finality).unwrap_err(),
        "nodes observed inconsistent native canonical evidence"
    );
}

#[test]
fn admissions_are_handed_over_in_order() {
    let mut journal = submitted("order-1");
    assert!(keep(&mut journal).is_ok());
    let record = handoff_record(&[1; 32], &[2; 32]);
    let facts = |valid: bool, record: Vec<u8>| {
        vec![HandoffFacts {
            receipt: checked(valid),
            record,
        }]
    };
    let next = |journal: &NativeCorporateJournal, facts: Vec<HandoffFacts>| {
        publish_corporate_admissions(journal, &journal.admitted_request_ids(), &cluster(), &facts)
    };
    assert_eq!(next(&journal, facts(true, record.clone())), Ok(Some(0)));
    assert_eq!(
        next(&journal, facts(false, record.clone())).unwrap_err(),
        "edge admission receipt is invalid"
    );
    assert!(journal.save_handoff("order-1", record.clone()).is_ok());
    assert_eq!(next(&journal, facts(true, record)), Ok(None));
    assert_eq!(
        next(&journal, facts(true, handoff_record(&[3; 32], &[2; 32]))).unwrap_err(),
        "market destination or original handoff changed"
    );
}
