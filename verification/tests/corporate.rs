//! Corporate intake, the recovery journal, the dispatch queue and the wallet.

use curve25519_dalek::Scalar;
use oclob_node::bytes::Digest32;
use oclob_node::corporate::{CorporateNativeConfig, FacilityWitness, ReserveMandate, ReserveScope};
use oclob_node::corporate_api::{
    accept_intake, client_is_authorized, request_claim_authorizations, validate_operation_acl,
    wallet_escrows, ApiAction, ClaimIssue, ClaimSide, CorporateApi, CorporateApiConfig,
    CorporateRequest, CorporateResponse, IntakeFacts, ReservationRead, WalletNote,
};
use oclob_node::corporate_authorization::{
    AuthorizationFacts, CorporateReserveAuthorization, PreparationError, PresentedIdentity,
};
use oclob_node::corporate_client::AnswerKind;
use oclob_node::corporate_custody::{wallet_snapshot, AssetScan};
use oclob_node::corporate_dispatch::{
    check_enqueued, check_lock_file, check_lock_parent, dispatch_key, enqueue_authorized,
    find_ended_entry, lock_again, needs_preparation, no_claim_progress, pump,
    record_authorization_end, start_pump, verified_request, verify_claim, Claim, DispatchProgress,
    DispatchRequest, EntryState, LockFacts, PumpAction, PumpEvent, PumpState, QueueEntry,
    QueueRecord,
};
use oclob_node::corporate_journal::{
    record_id, AuthorizationEndReason, JournalBody, NativeCorporateJournal, StoredCorporateIntent,
};
use oclob_node::corporate_submission::SubmissionCheckpoint;
use oclob_node::edge_client::{EdgeDelivery, PreparedEdgeDelivery};
use oclob_node::edge_submit::IntakeStep;
use oclob_node::market_network::MarketEndpoint;
use oclob_node::text_map::TextMap;
use oclob_node::types::{
    ClusterNodePublic, ClusterPublicConfig, EdgeOrderManifest, OrderCommitment,
    SealedCapabilityKeyShare, SealedPartyShare,
};
use sha2::{Digest, Sha256};

fn sha(parts: &[&[u8]]) -> Digest32 {
    let mut hash = Sha256::new();
    for part in parts {
        hash.update(part);
    }
    hash.finalize().into()
}

fn scalar(value: u64) -> Digest32 {
    Scalar::from(value).to_bytes()
}

fn config() -> CorporateNativeConfig {
    CorporateNativeConfig {
        host: "unit-defmi".to_string(),
        port: 9443,
        server_name: "unit-defmi".to_string(),
        claim_authorization_endpoint: MarketEndpoint {
            host: "unit-claim-authority".to_string(),
            port: 9890,
            server_name: "unit-claim-authority".to_string(),
            certificate_sha256: [31; 32],
        },
        venue_id: [1; 32],
        defmi_id: [2; 32],
        issuer_public: vec![3; 64],
        facility_id: [4; 32],
        asset_id: [5; 32],
        facility_values: [120, 0, 0],
        facility_blindings: [scalar(9), [0; 32], [0; 32]],
        wallet_spend_secret: scalar(10),
        wallet_opening_seed: vec![28; 96],
        credential_custody_seed: vec![29; 96],
        identity_seed: [11; 32],
    }
}

fn cluster() -> ClusterPublicConfig {
    ClusterPublicConfig {
        market_id: "CORPORATE-UNIT".to_string(),
        program: "oclob_match_v1".to_string(),
        settlement_release_threshold: 3,
        nodes: (0..7u16)
            .map(|i| ClusterNodePublic {
                party: i,
                share_encryption_key: vec![i as u8 + 1; 32],
                receipt_verifying_key: [i as u8 + 51; 32],
            })
            .collect(),
        fault: None,
    }
}

fn journal(key: u8) -> NativeCorporateJournal {
    NativeCorporateJournal::load(&[key; 32], b"config", &cluster(), b"cluster", TextMap::new())
        .ok()
        .unwrap()
}

fn reopen(journal: NativeCorporateJournal, key: u8) -> NativeCorporateJournal {
    NativeCorporateJournal::load(
        &[key; 32],
        b"config",
        &cluster(),
        b"cluster",
        journal.into_records(),
    )
    .ok()
    .unwrap()
}

fn order_wire(seed: u8) -> Vec<u8> {
    let mut wire = vec![seed; 24];
    wire.extend_from_slice(&1000u64.to_be_bytes());
    wire
}

fn intent(seed: u8) -> StoredCorporateIntent {
    StoredCorporateIntent {
        input_digest: [14; 32],
        order_wire: order_wire(seed),
        signing_key: [seed; 64],
        eligibility_commitment: [15; 32],
        accepted_at: 100,
        expires_at: 1000,
        reserve_send_tracking: true,
    }
}

/// What the order, identity and commitment libraries derive: here everything
/// is a hash of what it is derived from.
fn derived(
    authorization: &CorporateReserveAuthorization,
    config: &CorporateNativeConfig,
) -> AuthorizationFacts {
    let wire = &authorization.order_wire;
    let mut deadline = [0u8; 8];
    deadline.copy_from_slice(&wire[24..]);
    AuthorizationFacts {
        scope: Ok(()),
        manifest: [77; 32],
        mandate: Ok(()),
        reservation_id: sha(&[b"hold", wire]),
        expires_at: u64::from_be_bytes(deadline),
        handle: sha(&[b"handle", &config.identity_seed]),
        order_participant_handle: sha(&[b"handle", &config.identity_seed]),
        participant_public: sha(&[b"public", &authorization.signing_key]).to_vec(),
        request_commitment: sha(&[b"request", wire, &authorization.order_authorization_salt]),
        amount_commitment: sha(&[b"amount", wire, &authorization.reserve_blinding]),
        settlement_terms_commitment: sha(&[b"terms", &authorization.side_blinding]),
        order_nullifier: sha(&[b"nullifier", wire]),
        identity_context: sha(&[b"context", &authorization.mandate.wire]).to_vec(),
    }
}

fn authorization(config: &CorporateNativeConfig, seed: u8) -> CorporateReserveAuthorization {
    let wire = order_wire(seed);
    let signing_key = [seed; 64];
    let mandate_wire = sha(&[b"mandate", &wire]).to_vec();
    CorporateReserveAuthorization {
        mandate: ReserveMandate {
            version: 2,
            scope: ReserveScope {
                application_binding: [77; 32],
                venue_id: config.venue_id,
                defmi_id: config.defmi_id,
                amount_bits: 32,
            },
            request_commitment: sha(&[b"request", &wire, &[16; 32]]),
            facility_id: config.facility_id,
            hold_id: sha(&[b"hold", &wire]),
            asset_id: config.asset_id,
            amount_commitment: sha(&[b"amount", &wire, &scalar(20)]),
            participant_handle: sha(&[b"handle", &config.identity_seed]),
            entity_commitment: [17; 32],
            credential_digest: [18; 32],
            settlement_terms_commitment: sha(&[b"terms", &scalar(21)]),
            valid_from: 100,
            valid_until: 1000,
            participant_public: sha(&[b"public", &signing_key]).to_vec(),
            wire: mandate_wire.clone(),
        },
        order_wire: wire.clone(),
        signing_key,
        eligibility_commitment: [15; 32],
        order_authorization_salt: [16; 32],
        reserve_reblinding: scalar(22),
        reserve_blinding: scalar(20),
        side_blinding: scalar(21),
        identity: PresentedIdentity {
            subject_line_id: [17; 32],
            credential_digest: [18; 32],
            nullifier: sha(&[b"nullifier", &wire]),
            context: sha(&[b"context", &mandate_wire]).to_vec(),
        },
        wire: sha(&[b"authorization", &wire]).to_vec(),
    }
}

fn authorized_intent(
    config: &CorporateNativeConfig,
    seed: u8,
) -> (StoredCorporateIntent, CorporateReserveAuthorization) {
    let mut intent = intent(seed);
    intent.input_digest = [seed; 32];
    (intent, authorization(config, seed))
}

fn save_signed(
    journal: &mut NativeCorporateJournal,
    id: &str,
    signed: CorporateReserveAuthorization,
) -> Result<(), String> {
    let config = config();
    let offered = Ok(derived(&signed, &config));
    let saved = Ok(derived(&signed, &config));
    journal.save_authorization(id, signed, &config, &offered, &saved)
}

fn encoded(request: &DispatchRequest) -> Vec<u8> {
    format!(
        "{} {:?} {} {:?} {:?} {:?} {:?}",
        request.version,
        request.journal_context,
        request.request_id,
        request.intent_digest,
        request.reserve_digest,
        request.authorization_digest,
        request.source_note
    )
    .into_bytes()
}

/// A service, and its queue as a list of names and payloads.
struct Service {
    api: CorporateApi,
    queue: Vec<(String, Vec<u8>)>,
}

impl Service {
    fn new(journal: NativeCorporateJournal) -> Service {
        Service {
            api: CorporateApi {
                config: config(),
                market_id: "CORPORATE-UNIT".to_string(),
                journal,
            },
            queue: Vec::new(),
        }
    }

    fn enqueue(
        &mut self,
        id: &str,
        intent: StoredCorporateIntent,
        authorization: CorporateReserveAuthorization,
        source_note: Option<Digest32>,
        now: u64,
    ) -> Result<bool, String> {
        let config = config();
        let facts = IntakeFacts {
            offered: Ok(derived(&authorization, &config)),
            saved: Ok(derived(&authorization, &config)),
            market: Ok("CORPORATE-UNIT".to_string()),
        };
        let request = CorporateRequest::Enqueue {
            request_id: id.to_string(),
            intent,
            authorization,
            source_note,
        };
        let wire = match self.api.handle(request, facts, now)? {
            ApiAction::Enqueue(entry) => encoded(&entry),
            _ => panic!("an order is queued"),
        };
        match self.queue.iter().find(|entry| entry.0 == id) {
            Some(saved) => {
                check_enqueued(&saved.1, &wire)?;
                Ok(true)
            }
            None => {
                self.queue.push((id.to_string(), wire));
                Ok(false)
            }
        }
    }
}

fn endpoint() -> MarketEndpoint {
    MarketEndpoint {
        host: "127.0.0.1".to_string(),
        port: 1,
        server_name: "corporate.test".to_string(),
        certificate_sha256: [8; 32],
    }
}

#[test]
fn owner_and_claim_authorization_certificate_pins_must_be_disjoint() {
    let shared = [7; 32];
    let config = CorporateApiConfig {
        endpoint: endpoint(),
        clients: vec![shared],
        claim_authorization_clients: vec![shared],
    };
    assert!(validate_operation_acl(&config)
        .unwrap_err()
        .contains("operation-scoped"));
}

#[test]
fn market_claim_certificate_has_no_owner_queue_or_wallet_authority() {
    let owner = [6; 32];
    let market = [7; 32];
    let config = CorporateApiConfig {
        endpoint: endpoint(),
        clients: vec![owner],
        claim_authorization_clients: vec![market],
    };
    validate_operation_acl(&config).unwrap();
    for request in [
        CorporateRequest::QueueStatus,
        CorporateRequest::WalletSnapshot,
    ] {
        assert!(!client_is_authorized(&config, &request, &market));
        assert!(client_is_authorized(&config, &request, &owner));
    }
    let issue = CorporateRequest::IssueClaimAuthorizations {
        reservation_id: [1; 32],
        issue: ClaimIssue {
            payer: ClaimSide {
                reservation_id: [3; 32],
                participant_handle: [4; 32],
                asset_id: [5; 32],
                sequence: 0,
            },
            payee: ClaimSide {
                reservation_id: [6; 32],
                participant_handle: [7; 32],
                asset_id: [8; 32],
                sequence: 0,
            },
        },
        prior_fills: Vec::new(),
    };
    assert!(client_is_authorized(&config, &issue, &market));
    assert!(!client_is_authorized(&config, &issue, &owner));
}

#[test]
fn certificate_lists_must_not_be_empty_or_zero() {
    for (clients, claims) in [
        (vec![], vec![[1; 32]]),
        (vec![[1; 32]], vec![]),
        (vec![[0; 32]], vec![[1; 32]]),
        (vec![[1; 32]], vec![[2; 32], [0; 32]]),
    ] {
        let config = CorporateApiConfig {
            endpoint: endpoint(),
            clients,
            claim_authorization_clients: claims,
        };
        assert_eq!(
            validate_operation_acl(&config).unwrap_err(),
            "corporate API requires exact operation-scoped client certificate pins"
        );
    }
}

#[test]
fn enrolled_holder_survives_encrypted_journal_restart_and_cannot_be_silently_reissued() {
    let config = config();
    let mut journal = journal(19);
    let scope = [40; 32];
    assert!(journal.enrolled_wire(&scope).ok().unwrap().is_none());
    assert_eq!(
        journal.enrolled_eligibility(&config, &scope).unwrap_err(),
        "corporate holder credential is not enrolled; authenticated recovery is required"
    );
    let enroll = |journal: &mut NativeCorporateJournal, wire: &[u8]| {
        let kept = journal
            .enrolled_wire(&scope)
            .ok()
            .unwrap()
            .map(|kept| sha(&[kept]))
            .unwrap_or([0; 32]);
        journal.enroll_eligibility(&config, &scope, wire.to_vec(), Ok(sha(&[wire])), Ok(kept))
    };
    enroll(&mut journal, b"durable-holder").unwrap();
    enroll(&mut journal, b"durable-holder").unwrap();
    assert_eq!(
        enroll(&mut journal, b"replacement-holder").unwrap_err(),
        "credential already enrolled; renewal requires an explicit new credential epoch"
    );
    let journal = reopen(journal, 19);
    assert_eq!(
        journal.enrolled_wire(&scope).ok().unwrap().unwrap(),
        &b"durable-holder".to_vec()
    );
    assert_eq!(
        journal.enrolled_eligibility(&config, &scope).unwrap(),
        (&b"durable-holder".to_vec(), &config.credential_custody_seed)
    );
    let mut bad = self::config();
    bad.credential_custody_seed = bad.wallet_opening_seed.clone();
    assert_eq!(
        bad.credential_custody_key().unwrap_err(),
        "credential custody and note delivery require separate keys"
    );
    bad.credential_custody_seed.pop();
    assert_eq!(
        bad.credential_custody_key().unwrap_err(),
        "corporate credential custody requires its independent 96-byte seed"
    );
}

#[test]
fn corporate_api_exact_retry_survives_reopen_and_does_not_reserve() {
    let config = config();
    let mut api = Service::new(journal(81));
    let (intent, authorization) = authorized_intent(&config, 21);
    assert!(!api
        .enqueue("api-order-1", intent, authorization, None, 101)
        .unwrap());
    assert!(api
        .api
        .journal
        .stage("api-order-1", "reserve")
        .ok()
        .unwrap()
        .is_none());
    let mut reopened = Service::new(reopen(api.api.journal, 81));
    reopened.queue = api.queue;
    let (intent, authorization) = authorized_intent(&config, 21);
    assert!(reopened
        .enqueue("api-order-1", intent, authorization, None, 1100)
        .unwrap());
    assert_eq!(reopened.queue.len(), 1);
    let (mut intent, authorization) = authorized_intent(&config, 21);
    intent.input_digest[0] ^= 1;
    assert_eq!(
        reopened
            .enqueue("api-order-1", intent, authorization, None, 101)
            .unwrap_err(),
        "corporate request conflicts with saved intent"
    );
    let (intent, authorization) = authorized_intent(&config, 21);
    assert!(reopened
        .enqueue("api-order-1", intent, authorization, Some([51; 32]), 101)
        .is_err());
    assert_eq!(reopened.queue.len(), 1);
}

#[test]
fn corporate_api_rejects_invalid_or_expired_intake_before_writing() {
    let config = config();
    let mut api = Service::new(journal(81));
    for id in ["bad/path", "has.dot", ""] {
        let (intent, authorization) = authorized_intent(&config, 21);
        assert_eq!(
            api.enqueue(id, intent, authorization, None, 101).unwrap_err(),
            "invalid corporate authorization"
        );
    }
    let (intent, authorization) = authorized_intent(&config, 21);
    assert_eq!(
        api.enqueue("expired", intent, authorization, None, 1001)
            .unwrap_err(),
        "new corporate request expired"
    );
    let (intent, mut authorization) = authorized_intent(&config, 21);
    authorization.mandate.facility_id = [99; 32];
    assert_eq!(
        api.enqueue("mismatch", intent, authorization, None, 101)
            .unwrap_err(),
        "corporate authorization differs from the immutable order or deployment"
    );
    assert!(api.queue.is_empty());
    for id in ["expired", "mismatch"] {
        assert!(api.api.journal.intent(id).ok().unwrap().is_none());
    }
    assert_eq!(api.api.journal.records().len(), 1);
}

#[test]
fn corporate_api_checks_market_terms_and_times() {
    let config = config();
    let mut journal = journal(81);
    let mut send = |market: Result<String, String>, id: &str, change: u8, now: u64| {
        let (mut intent, mut authorization) = authorized_intent(&config, 21);
        match change {
            1 => intent.accepted_at = 102,
            2 => authorization.mandate.valid_from = 99,
            3 => authorization.mandate.valid_from = 102,
            4 => intent.reserve_send_tracking = false,
            5 => authorization.wire.push(0),
            _ => {}
        }
        let offered = Ok(derived(&authorization, &config));
        let saved = Ok(derived(&authorization, &config));
        accept_intake(
            &mut journal,
            &config,
            "CORPORATE-UNIT",
            id,
            intent,
            authorization,
            &offered,
            &saved,
            &market,
            now,
        )
    };
    let market = || Ok("CORPORATE-UNIT".to_string());
    assert_eq!(
        send(Ok("OTHER".to_string()), "a", 0, 101).unwrap_err(),
        "corporate market mismatch"
    );
    assert_eq!(
        send(Err("unreadable order".to_string()), "a", 0, 101).unwrap_err(),
        "unreadable order"
    );
    for change in 1..5 {
        assert_eq!(
            send(market(), "a", change, 101).unwrap_err(),
            "invalid corporate authorization"
        );
    }
    send(market(), "a", 0, 101).unwrap();
    assert_eq!(
        send(market(), "a", 5, 101).unwrap_err(),
        "corporate request conflicts with saved authorization"
    );
}

#[test]
fn original_authorization_checks_terms_identity_signature_scope_and_openings() {
    let config = config();
    let check = |changed: &CorporateReserveAuthorization, config: &CorporateNativeConfig| {
        changed.validate(config, &Ok(derived(changed, config)))
    };
    let original = authorization(&config, 21);
    check(&original, &config).unwrap();
    let mut changed = authorization(&config, 21);
    changed.order_wire[0] ^= 1;
    assert!(check(&changed, &config).is_err());
    let mut changed = authorization(&config, 21);
    changed.mandate.valid_until -= 1;
    assert!(check(&changed, &config).is_err());
    let mut changed = authorization(&config, 21);
    changed.identity.nullifier[0] ^= 1;
    assert!(check(&changed, &config).is_err());
    let mut changed = authorization(&config, 21);
    changed.identity.context[0] ^= 1;
    assert!(check(&changed, &config).is_err());
    let mut changed = authorization(&config, 21);
    changed.reserve_reblinding = [255; 32];
    assert_eq!(
        check(&changed, &config).unwrap_err(),
        "non-canonical corporate scalar"
    );
    let mut changed = authorization(&config, 21);
    changed.reserve_blinding = scalar(99);
    assert!(check(&changed, &config).is_err());
    let mut other = self::config();
    other.defmi_id = [99; 32];
    assert_eq!(
        check(&original, &other).unwrap_err(),
        "DeFMI returned another configured application scope"
    );
    assert_eq!(
        original.digest(),
        sha(&[b"OCLOB:CORPORATE-AUTHORIZATION:v1", &original.wire])
    );
}

#[test]
fn rejected_unprepared_authorization_is_fenced_and_advances_fifo_after_restart() {
    let config = config();
    let mut journal = journal(19);
    let (first, signed) = authorized_intent(&config, 21);
    let digest = signed.digest();
    let (second, _) = authorized_intent(&config, 22);
    journal.save_intent("first", first).unwrap();
    save_signed(&mut journal, "first", signed).unwrap();
    journal.save_intent("second", second).unwrap();
    assert!(journal.require_turn("second").is_err());
    journal
        .end_unprepared_authorization("first", 101, AuthorizationEndReason::InsufficientFunding)
        .unwrap();
    assert!(journal.mark_reserve_send_started("first", &digest).is_err());
    assert!(journal.require_turn("first").is_err());
    journal.require_turn("second").unwrap();
    let mut journal = reopen(journal, 19);
    assert!(journal.ended_authorization("first").ok().unwrap().is_some());
    assert!(journal.mark_reserve_send_started("first", &digest).is_err());
    journal.require_turn("second").unwrap();
}

#[test]
fn local_authorization_end_refuses_live_deadline_legacy_and_prepared_or_sent_work() {
    let config = config();
    let mut journal = journal(19);
    for stage in ["reserve", "admission", "delivery"] {
        let (intent, signed) = authorized_intent(&config, 21);
        journal.save_intent(stage, intent).unwrap();
        save_signed(&mut journal, stage, signed).unwrap();
        journal
            .save_stage(
                stage,
                stage,
                JournalBody::Other(b"{\"unit_presence_only\":true}".to_vec()),
            )
            .unwrap();
        assert!(journal
            .end_unprepared_authorization(stage, 1001, AuthorizationEndReason::Expired)
            .is_err());
    }
    let (intent, signed) = authorized_intent(&config, 21);
    let digest = signed.digest();
    journal.save_intent("live", intent).unwrap();
    save_signed(&mut journal, "live", signed).unwrap();
    assert!(journal
        .end_unprepared_authorization("live", 1000, AuthorizationEndReason::Expired)
        .is_err());
    journal.mark_reserve_send_started("live", &digest).unwrap();
    assert!(journal
        .end_unprepared_authorization("live", 1001, AuthorizationEndReason::Expired)
        .is_err());
    let (mut legacy, signed) = authorized_intent(&config, 21);
    legacy.reserve_send_tracking = false;
    journal.save_intent("legacy", legacy).unwrap();
    save_signed(&mut journal, "legacy", signed).unwrap();
    assert!(journal
        .end_unprepared_authorization("legacy", 1001, AuthorizationEndReason::Expired)
        .is_err());
}

#[test]
fn authorized_expiry_and_interrupted_local_end_finish_without_network_or_tls() {
    let config = config();
    let mut api = Service::new(journal(19));
    for id in ["expired", "interrupted"] {
        let (intent, signed) = authorized_intent(&config, 21);
        assert!(!api.enqueue(id, intent, signed, None, 101).unwrap());
        let (intent, signed) = authorized_intent(&config, 21);
        assert!(api.enqueue(id, intent, signed, None, 101).unwrap());
    }
    let entry = |id: &str, state: EntryState| QueueEntry {
        request_id: id.to_string(),
        request_digest: [0; 32],
        state,
    };
    let mut entries = vec![
        entry("expired", EntryState::Queued),
        entry("interrupted", EntryState::Queued),
    ];
    // Nothing has ended yet; the expired request comes before any node is asked.
    assert_eq!(find_ended_entry(&api.api.journal, &entries).ok().unwrap(), None);
    let state = start_pump(2).unwrap();
    let (state, action) = pump(state, PumpEvent::EndedScan { found: false }).unwrap();
    assert_eq!(action, PumpAction::AskForExpired);
    let request = enqueue_authorized(
        &api.api.journal,
        &config,
        "expired",
        None,
        &Ok(derived(&authorization(&config, 21), &config)),
    )
        .ok()
        .unwrap();
    verified_request(&api.api.journal, "expired", &Some(request)).unwrap();
    let (state, action) = pump(state, PumpEvent::ExpiredClaim { found: true }).unwrap();
    assert_eq!(action, PumpAction::VerifyRequest);
    let request = enqueue_authorized(
        &api.api.journal,
        &config,
        "expired",
        None,
        &Ok(derived(&authorization(&config, 21), &config)),
    )
        .ok()
        .unwrap();
    assert!(needs_preparation(&api.api.journal, "expired", &request).unwrap());
    let (event, mismatch) = verify_claim(&api.api.journal, "expired", &Some(request));
    assert_eq!(event, PumpEvent::Verified { unprepared: true });
    assert_eq!(mismatch, None);
    let (_, action) = pump(state, event).unwrap();
    assert_eq!(action, PumpAction::EndUnprepared);
    api.api.journal
        .end_unprepared_authorization("expired", 1001, AuthorizationEndReason::Expired)
        .unwrap();
    let ended = api.api.journal.ended_authorization("expired").ok().unwrap();
    assert_eq!(
        record_authorization_end(ended.unwrap()),
        (
            QueueRecord::AbortBeforeReserve { at: 1001 },
            DispatchProgress::NeverReserved {
                request_id: "expired".to_string()
            }
        )
    );
    entries[0].state = EntryState::AbortedBeforeReserve;
    // The end of the second request is on record, the queue does not know it.
    api.api.journal
        .end_unprepared_authorization(
            "interrupted",
            1001,
            AuthorizationEndReason::InsufficientFunding,
        )
        .unwrap();
    assert_eq!(
        find_ended_entry(&api.api.journal, &entries).ok().unwrap(),
        Some(1)
    );
    let (state, action) =
        pump(start_pump(2).unwrap(), PumpEvent::EndedScan { found: true }).unwrap();
    assert_eq!(action, PumpAction::VerifyRequest);
    let request = enqueue_authorized(
        &api.api.journal,
        &config,
        "interrupted",
        None,
        &Ok(derived(&authorization(&config, 21), &config)),
    )
    .ok();
    let (event, mismatch) = verify_claim(&api.api.journal, "interrupted", &request);
    assert_eq!(mismatch, None);
    let (_, action) = pump(state, event).unwrap();
    assert_eq!(action, PumpAction::ReportEnd);
    let ended = api.api.journal.ended_authorization("interrupted").ok().unwrap();
    assert_eq!(
        record_authorization_end(ended.unwrap()),
        (
            QueueRecord::AbortBeforeReserve { at: 1001 },
            DispatchProgress::FundingRejected {
                request_id: "interrupted".to_string()
            }
        )
    );
    let digest = authorization(&config, 21).digest();
    for id in ["expired", "interrupted"] {
        assert!(api.api.journal.stage(id, "reserve").ok().unwrap().is_none());
        assert!(api.api.journal.mark_reserve_send_started(id, &digest).is_err());
    }
}

#[test]
fn unsent_expiry_fence_prevents_future_send_and_survives_restart() {
    let mut journal = journal(19);
    journal.save_intent("fenced-001", intent(21)).unwrap();
    assert!(!journal
        .seal_never_dispatched("fenced-001", &[31; 32], 1000)
        .unwrap());
    assert!(journal
        .seal_never_dispatched("fenced-001", &[31; 32], 1001)
        .unwrap());
    assert!(journal
        .mark_reserve_send_started("fenced-001", &[31; 32])
        .is_err());
    let mut reopened = reopen(journal, 19);
    assert!(reopened
        .seal_never_dispatched("fenced-001", &[31; 32], 1003)
        .unwrap());
    assert!(reopened
        .mark_reserve_send_started("fenced-001", &[32; 32])
        .is_err());
}

#[test]
fn legacy_or_ambiguous_send_cannot_be_reclassified_as_never_reserved() {
    let mut journal = journal(19);
    let mut legacy = intent(21);
    legacy.reserve_send_tracking = false;
    journal.save_intent("legacy-001", legacy).unwrap();
    assert!(!journal
        .seal_never_dispatched("legacy-001", &[31; 32], 1001)
        .unwrap());
    journal.save_intent("ambiguous-001", intent(22)).unwrap();
    journal
        .mark_reserve_send_started("ambiguous-001", &[32; 32])
        .unwrap();
    assert!(!journal
        .seal_never_dispatched("ambiguous-001", &[32; 32], 1001)
        .unwrap());
}

#[test]
fn cancellation_has_a_typed_namespace_not_a_generic_completion_shortcut() {
    let mut journal = journal(71);
    assert_eq!(record_id("cancel", "first").unwrap(), "cancel:first");
    assert!(journal.cancellation("first").ok().unwrap().is_none());
    assert!(journal
        .save_stage("first", "cancel", JournalBody::Other(b"{}".to_vec()))
        .is_err());
}

#[test]
fn journal_rejects_wrong_key_context_and_changed_instruction_without_resetting() {
    let mut journal = journal(19);
    journal.save_intent("client-001", intent(21)).unwrap();
    let mut changed = intent(21);
    changed.input_digest = [22; 32];
    assert_eq!(
        journal.save_intent("client-001", changed).unwrap_err(),
        "corporate request ID was reused for another order instruction"
    );
    assert!(journal.save_intent("../another-wallet", intent(21)).is_err());
    assert_eq!(
        NativeCorporateJournal::load(
            &[19; 32],
            b"other config",
            &cluster(),
            b"cluster",
            journal.into_records()
        )
        .err()
        .unwrap(),
        "corporate stage record has a legacy schema or belongs to another deployment; explicit migration is required"
    );
    assert_eq!(
        NativeCorporateJournal::load(&[0; 32], b"", &cluster(), b"", TextMap::new())
            .err()
            .unwrap(),
        "corporate journal key is empty"
    );
}

#[test]
fn ambiguous_earlier_request_blocks_overtaking_and_cannot_be_marked_complete_by_generic_stage() {
    let mut journal = journal(19);
    journal.save_intent("first", intent(21)).unwrap();
    journal.save_intent("second", intent(22)).unwrap();
    assert!(journal.require_turn("first").is_ok());
    assert!(journal.require_turn("second").is_err());
    assert!(journal
        .save_stage("first", "receipt", JournalBody::Other(b"true".to_vec()))
        .is_err());
    assert!(journal.require_turn("second").is_err());
    let reopened = reopen(journal, 19);
    assert_eq!(
        reopened.require_turn("second").unwrap_err(),
        "an earlier corporate request must be admitted or reconciled first"
    );
}

#[test]
fn funding_witness_survives_restart_and_invalid_scalars_fail_closed() {
    let config = config();
    let mut journal = journal(19);
    let witness = FacilityWitness {
        facility_id: config.facility_id,
        sequence: 1,
        values: [60, 60, 0],
        blindings: [scalar(7), scalar(2), [0; 32]],
    };
    let committed = [[1; 32], [2; 32], [3; 32]];
    journal
        .save_funding_witness(witness, &committed, &committed)
        .unwrap();
    assert!(journal
        .stage("x", "reserve")
        .ok()
        .unwrap()
        .is_none());
    let reopened = reopen(journal, 19);
    let restored = reopened.latest_funding(self::config()).ok().unwrap();
    assert_eq!(restored.facility_values, witness.values);
    assert_eq!(restored.facility_blindings, witness.blindings);
    let mut invalid = witness;
    invalid.blindings[0] = [255; 32];
    assert!(invalid.commitments(&committed).is_err());
}

#[test]
fn recovered_funding_is_immutable_and_invalid_input_cannot_poison_its_generation() {
    let config = config();
    let mut journal = journal(19);
    let witness = |value: u64, sequence: u64| FacilityWitness {
        facility_id: config.facility_id,
        sequence,
        values: [value, 40, 0],
        blindings: [scalar(7), scalar(2), [0; 32]],
    };
    let mut poison = witness(80, 2);
    poison.blindings[1] = [255; 32];
    assert!(journal
        .save_funding_witness(poison, &[[1; 32]; 3], &[[1; 32]; 3])
        .is_err());
    let configured = journal.latest_funding(self::config()).ok().unwrap();
    assert_eq!(configured.facility_values, config.facility_values);
    assert!(journal
        .newest_witness(&config.facility_id)
        .ok()
        .unwrap()
        .is_none());
    journal
        .save_funding_witness(witness(80, 2), &[[1; 32]; 3], &[[1; 32]; 3])
        .unwrap();
    journal
        .save_funding_witness(witness(80, 2), &[[1; 32]; 3], &[[1; 32]; 3])
        .unwrap();
    assert_eq!(
        journal
            .save_funding_witness(witness(81, 2), &[[2; 32]; 3], &[[1; 32]; 3])
            .unwrap_err(),
        "two different corporate funding witnesses name the same canonical generation"
    );
    journal
        .save_funding_witness(witness(70, 10), &[[3; 32]; 3], &[[3; 32]; 3])
        .unwrap();
    let latest = journal.latest_funding(self::config()).ok().unwrap();
    assert_eq!(latest.facility_values[0], 70);
}

fn delivery() -> PreparedEdgeDelivery {
    let manifest = EdgeOrderManifest {
        market_id: "CORPORATE-UNIT".to_string(),
        commitment: OrderCommitment([16; 32]),
        retention_deadline: 1000,
        settlement_capability_commitment: [17; 32],
        signer: [21; 32],
        body: vec![64; 4],
    };
    PreparedEdgeDelivery {
        deliveries: cluster()
            .nodes
            .iter()
            .map(|node| EdgeDelivery {
                party: node.party,
                share: SealedPartyShare {
                    commitment: manifest.commitment,
                    party: node.party,
                    recipient: node.share_encryption_key.clone(),
                    ciphertext: vec![node.party as u8; 100],
                },
                key: SealedCapabilityKeyShare {
                    order_commitment: manifest.commitment,
                    capability_commitment: [17; 32],
                    party: node.party,
                    recipient: node.share_encryption_key.clone(),
                    ciphertext: vec![node.party as u8; 64],
                },
                share_digest: [node.party as u8; 32],
                key_digest: [node.party as u8 + 7; 32],
            })
            .collect(),
        manifest,
    }
}

#[test]
fn saved_delivery_preserves_exact_ciphertexts_and_rejects_wrong_node_binding() {
    let cluster = cluster();
    let prepared = delivery();
    let mut restored = delivery();
    restored.validate(&cluster, true).unwrap();
    for (old, new) in prepared.deliveries.iter().zip(&restored.deliveries) {
        assert!(old.share.same(&new.share));
        assert!(old.key.same(&new.key));
    }
    restored.deliveries[0].share.recipient = cluster.nodes[1].share_encryption_key.clone();
    assert!(restored.validate(&cluster, true).is_err());
    let mut restored = delivery();
    restored.deliveries[0].party = 7;
    assert!(restored.validate(&cluster, true).is_err());
}

#[test]
fn retry_exhaustion_is_reported_as_manual_review_not_idle() {
    let entry = |state| QueueEntry {
        request_id: "retry-test".to_string(),
        request_digest: [1; 32],
        state,
    };
    let expected = DispatchProgress::ManualReviewRequired {
        request_id: "retry-test".to_string(),
    };
    assert_eq!(
        no_claim_progress(&vec![entry(EntryState::ManualReview)], true),
        expected
    );
    assert_eq!(
        no_claim_progress(&vec![entry(EntryState::ManualReview)], false),
        expected
    );
    assert_eq!(
        no_claim_progress(&vec![entry(EntryState::MpcAdmitted)], true),
        DispatchProgress::Idle
    );
    assert_eq!(
        no_claim_progress(&Vec::new(), false),
        DispatchProgress::WaitingForNodes
    );
}

#[test]
fn dispatch_and_journal_encryption_roles_cannot_be_swapped() {
    let key = dispatch_key(&[32; 32]).unwrap();
    assert_eq!(key, sha(&[b"OCLOB:NATIVE-DISPATCH-KEY:v1", &[32; 32]]));
    assert_ne!(key, [32; 32]);
    assert_eq!(
        dispatch_key(&[0; 32]).unwrap_err(),
        "dispatch encryption key is empty"
    );
}

#[test]
fn locks_are_owner_only_files() {
    let facts = || LockFacts {
        parent_is_dir: true,
        parent_mode: 0o40700,
        parent_uid: 7,
        is_file: true,
        links: 1,
        uid: 7,
        mode: 0o100600,
    };
    assert!(check_lock_parent(&facts()).is_ok() && check_lock_file(&facts()).is_ok());
    let mut open = facts();
    open.parent_mode = 0o40750;
    assert_eq!(
        check_lock_parent(&open).unwrap_err(),
        "corporate lock parent must be an owner-only directory"
    );
    let mut linked = facts();
    linked.links = 2;
    assert_eq!(
        check_lock_file(&linked).unwrap_err(),
        "corporate lock file is unsafe"
    );
    let mut stranger = facts();
    stranger.uid = 8;
    assert!(check_lock_file(&stranger).is_err());
    assert!(lock_again(true, 29_999).is_ok() && lock_again(false, 0).is_err());
}

#[test]
fn intake_goes_on_where_it_stopped() {
    let config = config();
    let mut journal = journal(19);
    assert_eq!(
        journal.intake_step("one", &[14; 32]).unwrap(),
        IntakeStep::SaveIntent
    );
    journal.save_intent("one", intent(21)).unwrap();
    assert_eq!(
        journal.intake_step("one", &[14; 32]).unwrap(),
        IntakeStep::PrepareReserve
    );
    assert_eq!(
        journal.intake_step("one", &[15; 32]).unwrap_err(),
        "corporate request ID names a different order instruction"
    );
    assert_eq!(
        journal.check_cancellable("one").unwrap_err(),
        "cancel has no admitted delivery"
    );
    assert_eq!(
        journal.check_cancellable("two").unwrap_err(),
        "cancel has no original corporate intent"
    );
    assert!(journal.reservations().ok().unwrap().is_empty());
    assert_eq!(
        NativeCorporateJournal::input_digest(b"instruction"),
        sha(&[b"OCLOB:CORPORATE-INPUT:v1", b"instruction"])
    );
    let scope = ReserveScope {
        application_binding: [77; 32],
        venue_id: config.venue_id,
        defmi_id: config.defmi_id,
        amount_bits: 32,
    };
    assert_eq!(
        journal
            .authorization_scope(&config, Ok(scope), &Ok(()), &[77; 32])
            .unwrap(),
        scope
    );
    // The first scope stays.
    let mut other = scope;
    other.amount_bits = 16;
    assert_eq!(
        journal
            .authorization_scope(&config, Ok(other), &Ok(()), &[77; 32])
            .unwrap(),
        scope
    );
    assert_eq!(
        journal
            .authorization_scope(&config, Ok(other), &Ok(()), &[78; 32])
            .unwrap_err(),
        "DeFMI returned another configured application scope"
    );
}

#[test]
fn claim_request_recovery_preserves_first_destination_and_signature_bytes() {
    let mut journal = journal(19);
    assert!(journal.claim_redemption(&[40; 32]).ok().unwrap().is_none());
    journal
        .save_claim_redemption(&[40; 32], vec![46; 64], Ok(()))
        .unwrap();
    journal
        .save_claim_redemption(&[40; 32], vec![47; 64], Ok(()))
        .unwrap();
    assert!(journal
        .save_claim_redemption(&[41; 32], vec![47; 64], Err("unsigned".to_string()))
        .is_err());
    let journal = reopen(journal, 19);
    assert_eq!(
        journal.claim_redemption(&[40; 32]).ok().unwrap().unwrap(),
        &vec![46; 64]
    );
    assert!(journal.claim_redemption(&[41; 32]).ok().unwrap().is_none());
}

#[test]
fn a_wallet_is_read_at_one_root() {
    let config = config();
    let root = [50; 32];
    let note = |id: u8, value: u64, lock: u8, spent: bool| WalletNote {
        note_id: [id; 32],
        lock_id: [lock; 32],
        state_root: root,
        spent,
        value,
    };
    let read = |id: u8, status: &str| ReservationRead {
        skipped: false,
        state_root: root,
        binding_matches: true,
        status: status.to_string(),
        escrow_note_id: [id; 32],
    };
    let escrows = wallet_escrows(&vec![read(3, "active"), read(4, "consumed")], &root)
        .ok()
        .unwrap();
    assert_eq!(escrows.len(), 2);
    assert_eq!(
        wallet_escrows(&vec![read(3, "strange")], &root).err().unwrap(),
        "wallet reservation changed"
    );
    let cash = || AssetScan {
        asset_id: [6; 32],
        read_root: root,
        notes: vec![note(1, 25, 0, false), note(2, 9, 0, true)],
    };
    let security = || AssetScan {
        asset_id: [5; 32],
        read_root: root,
        notes: vec![note(3, 60, 1, false), note(5, 40, 0, false)],
    };
    let facility = FacilityWitness {
        facility_id: config.facility_id,
        sequence: 1,
        values: [40, 20, 0],
        blindings: [[0; 32]; 3],
    };
    let snapshot = wallet_snapshot(
        &config, &escrows, &cash(), &security(), facility, &root, &root,
    )
    .ok()
    .unwrap();
    assert_eq!(snapshot.cash.spendable, 25);
    assert_eq!(snapshot.cash.locked, 0);
    assert_eq!(snapshot.security.spendable, 40);
    assert_eq!(snapshot.security.locked, 20);
    assert_eq!(
        wallet_snapshot(&config, &escrows, &cash(), &security(), facility, &root, &[51; 32])
            .err()
            .unwrap(),
        "wallet snapshot changed"
    );
    let mut locked = cash();
    locked.notes[0].lock_id = [1; 32];
    assert_eq!(
        wallet_snapshot(&config, &escrows, &locked, &security(), facility, &root, &root)
            .err()
            .unwrap(),
        "wallet contains an unsupported lock"
    );
    let mut missing = security();
    missing.notes.remove(0);
    assert_eq!(
        wallet_snapshot(&config, &escrows, &cash(), &missing, facility, &root, &root)
            .err()
            .unwrap(),
        "active reservation has no owned escrow note"
    );
    let mut wrong = self::config();
    wrong.wallet_spend_secret = [255; 32];
    assert_eq!(
        wallet_snapshot(&wrong, &escrows, &cash(), &security(), facility, &root, &root)
            .err()
            .unwrap(),
        "invalid corporate spend key"
    );
}

#[test]
fn requested_claim_authorizations_are_verified_before_they_count() {
    let signed = || CorporateResponse::ClaimAuthorizations {
        authorizations: vec![1, 2, 3],
    };
    let text = |text: &str| Err::<(), String>(text.to_string());
    assert_eq!(
        request_claim_authorizations(&Ok(()), Ok(signed()), &Ok(())),
        Ok(vec![1, 2, 3])
    );
    assert_eq!(
        request_claim_authorizations(&text("endpoint"), Ok(signed()), &Ok(())),
        Err("endpoint".to_string())
    );
    assert_eq!(
        request_claim_authorizations(&Ok(()), Err("call".to_string()), &Ok(())),
        Err("call".to_string())
    );
    assert_eq!(
        request_claim_authorizations(&Ok(()), Ok(signed()), &text("signer")),
        Err("signer".to_string())
    );
    for (other, kind) in [
        (CorporateResponse::Rejected, AnswerKind::Rejected),
        (
            CorporateResponse::Queue { entries: vec![1] },
            AnswerKind::Queue,
        ),
        (
            CorporateResponse::Wallet { snapshot: vec![1] },
            AnswerKind::Wallet,
        ),
        (
            CorporateResponse::Queued {
                request_id: "id".to_string(),
                already_present: true,
            },
            AnswerKind::Other,
        ),
    ] {
        assert_eq!(other.kind(), kind);
        assert_eq!(
            request_claim_authorizations(&Ok(()), Ok(other), &Ok(())),
            Err("corporate claim authorization request was rejected".to_string())
        );
    }
}

#[test]
fn checkpoints_and_errors_have_their_names() {
    assert_eq!(
        SubmissionCheckpoint::ReserveObservedBeforeJournal.name(),
        "after-reserve-before-journal"
    );
    assert_eq!(
        SubmissionCheckpoint::NodesAcknowledgedBeforeJournal.name(),
        "after-node-admission-before-journal"
    );
    assert_eq!(
        SubmissionCheckpoint::ExpiryObservedBeforeJournal.name(),
        "after-expiry-before-journal"
    );
    assert_eq!(
        PreparationError::from("later".to_string()),
        PreparationError::Retry("later".to_string())
    );
    assert_eq!(
        PreparationError::InsufficientFunding.message(),
        "corporate order exceeds currently available selected funding"
    );
}

#[test]
fn a_pump_reports_retries_and_refuses_what_was_not_asked() {
    assert_eq!(
        start_pump(0).err().unwrap(),
        "dispatch retry interval outside1..300 seconds"
    );
    assert!(start_pump(301).is_err() && start_pump(300).is_ok());
    let (state, action) =
        pump(PumpState::Expired, PumpEvent::ExpiredClaim { found: false }).unwrap();
    assert!(state == PumpState::Health && action == PumpAction::CheckNodes);
    let (state, action) = pump(state, PumpEvent::Nodes { healthy: false }).unwrap();
    assert_eq!(action, PumpAction::AskForWork { healthy: false });
    let (state, action) = pump(state, PumpEvent::NothingClaimed).unwrap();
    assert!(state == PumpState::Finished);
    assert_eq!(action, PumpAction::ReportNothing { healthy: false });
    assert!(pump(state, PumpEvent::Submitted).is_none());
}

#[test]
fn a_claimed_entry_is_verified_before_anything_is_done_about_it() {
    let claim = Claim {
        request_digest: [6; 32],
        attempt: 3,
    };
    let claiming = PumpState::Claiming { healthy: true };
    let (verifying, action) = pump(claiming, PumpEvent::DispatchClaimed { claim }).unwrap();
    assert_eq!(verifying, PumpState::Verifying { claim });
    assert_eq!(action, PumpAction::VerifyRequest);
    let (_, action) = pump(verifying, PumpEvent::Verified { unprepared: false }).unwrap();
    assert_eq!(action, PumpAction::Submit);
    let (_, action) = pump(verifying, PumpEvent::Verified { unprepared: true }).unwrap();
    assert_eq!(action, PumpAction::PrepareFunding);
    let (event, mismatch) = verify_claim(&journal(19), "unknown", &None);
    assert_eq!(event, PumpEvent::NotVerified);
    assert_eq!(
        mismatch,
        Some("malformed encrypted dispatch payload".to_string())
    );
    for state in [verifying, PumpState::VerifyingEnd, PumpState::VerifyingExpiry] {
        let (after, action) = pump(state, event).unwrap();
        assert_eq!(after, PumpState::Finished);
        assert_eq!(action, PumpAction::ReportMismatch);
    }
    let (_, action) = pump(claiming, PumpEvent::ExpireClaimed).unwrap();
    assert_eq!(action, PumpAction::VerifyRequest);
}

#[test]
fn signed_terms_survive_a_reopen() {
    let config = config();
    let mut journal = journal(19);
    let (intent, authorization) = authorized_intent(&config, 21);
    let order_wire = intent.order_wire.clone();
    assert!(journal.save_intent("auth-001", intent).is_ok());
    let digest = authorization.digest();
    assert!(save_signed(&mut journal, "auth-001", authorization).is_ok());
    assert!(matches!(journal.reserve("auth-001"), Ok(None)));

    let mut reopened = reopen(journal, 19);
    match reopened.authorization("auth-001") {
        Ok(Some(restored)) => {
            let facts = derived(restored, &config);
            assert!(restored.validate(&config, &Ok(facts)).is_ok());
            assert_eq!(restored.digest(), digest);
            assert_eq!(restored.order_wire, order_wire);
        }
        _ => panic!("the signed terms are on record"),
    }
    let (another, other) = authorized_intent(&config, 22);
    let offered = Ok(derived(&other, &config));
    let saved = Ok(derived(&self::authorization(&config, 21), &config));
    assert!(reopened
        .save_authorization("auth-001", other, &config, &offered, &saved)
        .is_err());
    assert!(reopened.save_intent("auth-001", another).is_err());
}

#[test]
fn of_a_send_and_an_unsent_end_the_first_wins() {
    for send_first in [true, false] {
        let mut journal = journal(19);
        assert!(journal.save_intent("racing-001", intent(21)).is_ok());
        let (sent, fenced);
        if send_first {
            sent = journal
                .mark_reserve_send_started("racing-001", &[31; 32])
                .is_ok();
            fenced = journal
                .seal_never_dispatched("racing-001", &[31; 32], 1001)
                .unwrap();
        } else {
            fenced = journal
                .seal_never_dispatched("racing-001", &[31; 32], 1001)
                .unwrap();
            sent = journal
                .mark_reserve_send_started("racing-001", &[31; 32])
                .is_ok();
        }
        assert_eq!(sent, send_first);
        assert_ne!(sent, fenced);
        let mut reopened = reopen(journal, 19);
        assert_eq!(
            reopened
                .seal_never_dispatched("racing-001", &[31; 32], 1002)
                .unwrap(),
            fenced
        );
    }
}

#[test]
fn preparers_adopt_one_immutable_intent() {
    let mut journal = journal(19);
    for seed in 21..25 {
        assert!(journal.save_intent("concurrent-001", intent(seed)).is_ok());
        match journal.intent("concurrent-001") {
            Ok(Some(kept)) => {
                assert_eq!(kept.order_wire, order_wire(21));
                assert_eq!(kept.signing_key, [21; 64]);
            }
            _ => panic!("the first intent is on record"),
        }
    }
}
