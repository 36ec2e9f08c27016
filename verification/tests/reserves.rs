//! Reserves: their funding, their confirmation on the ledger, how expired ones
//! end, and the claim signers that are kept for their fills.

use curve25519_dalek::Scalar;
use ed25519_dalek::SigningKey;
use oclob_node::bytes::Digest32;
use oclob_node::claim_authorizations::{
    check_claim_start, claim_authorization_record_id, ClaimDraft, ClaimDraw, ClaimRequest,
};
use oclob_node::corporate::{
    assemble_reserve, choose_funding_note, choose_reservation_funding, delivery_blinding,
    facility_after, prepare_reservation, prepare_reservation_from_note, reserve_digest, side_number,
    verify_finalized, BuiltRequest, CanonicalFacility, CanonicalReservation, CorporateNativeConfig,
    FacilityWitness, IssuedPermit, IssuedReserve, MandateTerms, NoteChoice, OrderTerms,
    PreparedCorporateReserve, ReserveDraws, ReserveFacts, ReserveMandate, ReserveRead, ReserveScope,
    ReserveSecrets, ScannedNote, SerialRead, SignedOrder,
};
use oclob_node::corporate_api::{
    initial_facility, ClaimContext, ClaimFacts, ClaimIssue, ClaimSide, CorporateApi, FreshClaims,
    PermitTerms, ReserveHead,
};
use oclob_node::corporate_authorization::{
    choose_authorized_funding, prepare_authorized_reservation, AuthorizationFacts,
    CorporateReserveAuthorization, FundingRead, PreparationError, PresentedIdentity,
};
use oclob_node::corporate_dispatch::{
    enqueue, finish_preparation, submit_claim, Claim, ClaimProgress, DispatchProgress,
    MpcAdmissionReceipt, PreparationRead, PumpEvent, QueueRecord,
};
use oclob_node::corporate_expiry::{
    absence_outcome, released_outcome, AcceptedRelease, ExpiryOutcome, NoteRelease, ReleaseReason,
};
use oclob_node::corporate_journal::NativeCorporateJournal;
use oclob_node::corporate_journal_model::{
    CanonicalClaim, ClaimKeyRecord, ClaimReply, ClaimTerm, JournalBody, ReceiptFacts,
    StoredClaimAuthorizations, StoredCorporateDelivery, StoredCorporateIntent,
};
use oclob_node::corporate_reconciliation::{
    choose_release, end_released, end_unsent, judge_funding, reconcile_expired_submission,
    save_outcome, ExpiryStep,
};
use oclob_node::corporate_submission::{
    complete_native_submission, delivery_keys, keep_delivery, keep_reservation, FinalizedRead,
    SubmissionFacts, SubmissionStep,
};
use oclob_node::edge_client::{
    EdgeAdmissionReceipt, EdgeDelivery, EdgeDistributor, NodeAdmissionReceipt, PreparedEdgeDelivery,
};
use oclob_node::edge_submit::IntakeRead;
use oclob_node::market_network::{handoff_record, MarketEndpoint};
use oclob_node::text_map::TextMap;
use oclob_node::types::{
    ClusterNodePublic, ClusterPublicConfig, EdgeOrderManifest, OrderCommitment,
    SealedCapabilityKeyShare, SealedPartyShare, Side,
};
use sha2::{Digest, Sha256};

fn scalar(value: u64) -> Digest32 {
    Scalar::from(value).to_bytes()
}

fn config() -> CorporateNativeConfig {
    CorporateNativeConfig {
        host: "defmi".to_string(),
        port: 9443,
        server_name: "defmi".to_string(),
        claim_authorization_endpoint: MarketEndpoint {
            host: "claims".to_string(),
            port: 9890,
            server_name: "claims".to_string(),
            certificate_sha256: [31; 32],
        },
        venue_id: [1; 32],
        defmi_id: [2; 32],
        issuer_public: vec![3; 64],
        facility_id: [4; 32],
        asset_id: [5; 32],
        facility_values: [120, 7, 3],
        facility_blindings: [scalar(9), scalar(1), scalar(2)],
        wallet_spend_secret: scalar(10),
        wallet_opening_seed: vec![28; 96],
        credential_custody_seed: vec![29; 96],
        identity_seed: [11; 32],
    }
}

fn cluster() -> ClusterPublicConfig {
    ClusterPublicConfig {
        market_id: "RESERVES".to_string(),
        program: "oclob_match_v1".to_string(),
        settlement_release_threshold: 3,
        nodes: (0..7u16)
            .map(|i| ClusterNodePublic {
                party: i,
                share_encryption_key: vec![i as u8 + 1; 32],
                receipt_verifying_key: SigningKey::from_bytes(&[i as u8 + 51; 32])
                    .verifying_key()
                    .to_bytes(),
            })
            .collect(),
        fault: None,
    }
}

fn journal() -> NativeCorporateJournal {
    NativeCorporateJournal::load(&[9; 32], b"config", &cluster(), b"cluster", TextMap::new())
        .ok()
        .unwrap()
}

fn scope() -> ReserveScope {
    ReserveScope {
        application_binding: [77; 32],
        venue_id: [1; 32],
        defmi_id: [2; 32],
        amount_bits: 32,
    }
}

fn mandate() -> ReserveMandate {
    ReserveMandate {
        version: 2,
        scope: scope(),
        request_commitment: [31; 32],
        facility_id: [4; 32],
        hold_id: [32; 32],
        asset_id: [5; 32],
        amount_commitment: [33; 32],
        participant_handle: [34; 32],
        entity_commitment: [17; 32],
        credential_digest: [18; 32],
        settlement_terms_commitment: [35; 32],
        valid_from: 100,
        valid_until: 1000,
        participant_public: vec![36; 40],
        wire: vec![37; 12],
    }
}

fn signed_order() -> SignedOrder {
    SignedOrder {
        order_wire: vec![50; 24],
        signing_key: [51; 64],
        eligibility_commitment: [15; 32],
    }
}

fn order(reservation_limit: u64) -> OrderTerms {
    OrderTerms {
        commitment: [38; 32],
        reservation_limit,
    }
}

fn secrets() -> ReserveSecrets {
    ReserveSecrets {
        order_authorization_salt: [16; 32],
        reserve_blinding: scalar(20),
        reserve_reblinding: scalar(22),
        side_blinding: scalar(21),
    }
}

fn built(source_index: usize) -> BuiltRequest {
    BuiltRequest {
        source_index,
        after: [[44; 32], [45; 32], [46; 32]],
        wire: vec![47; 20],
    }
}

fn reserve() -> PreparedCorporateReserve {
    assemble_reserve(
        &config(),
        mandate(),
        signed_order(),
        &order(40),
        &secrets(),
        &facility(4, [[41; 32], [42; 32], [43; 32]]),
        built(0),
    )
    .ok()
    .unwrap()
}

fn facts() -> ReserveFacts {
    ReserveFacts {
        application_binding: [77; 32],
        reservation_id: [32; 32],
        order_commitment: [38; 32],
        participant_public: vec![36; 40],
        request_commitment: [31; 32],
        amount_commitment: [33; 32],
        settlement_terms_commitment: [35; 32],
        facility_after_commitments: [[44; 32], [45; 32], [46; 32]],
    }
}

fn intent() -> StoredCorporateIntent {
    StoredCorporateIntent {
        input_digest: [14; 32],
        order_wire: vec![50; 24],
        signing_key: [51; 64],
        eligibility_commitment: [15; 32],
        accepted_at: 100,
        expires_at: 1000,
        reserve_send_tracking: true,
    }
}

fn reserved(id: &str) -> NativeCorporateJournal {
    let mut journal = journal();
    assert!(journal.save_intent(id, intent()).is_ok());
    assert!(journal
        .save_stage(id, "reserve", JournalBody::Reserve(reserve()))
        .is_ok());
    journal
}

fn facility(sequence: u64, commitments: [Digest32; 3]) -> CanonicalFacility {
    CanonicalFacility {
        facility_id: [4; 32],
        state_root: [60; 32],
        sequence,
        commitments,
    }
}

fn head() -> CanonicalReservation {
    CanonicalReservation {
        binding: vec![61; 10],
        status: "active".to_string(),
        accepted_height: 5,
        sequence: 0,
        escrow_note_id: [62; 32],
        reserve_receipt_digest: [63; 32],
        head_receipt: [64; 32],
        remaining_commitment: [33; 32],
        state_root: [60; 32],
    }
}

#[test]
fn a_reservation_moves_value_and_blinding() {
    let after = facility_after(&config(), 40, 4, &scalar(20)).unwrap();
    assert_eq!(after.facility_id, [4; 32]);
    assert_eq!(after.sequence, 5);
    assert_eq!(after.values, [80, 47, 3]);
    assert_eq!(
        after.blindings,
        [(-Scalar::from(11u64)).to_bytes(), scalar(21), scalar(2)]
    );
    assert_eq!(
        facility_after(&config(), 40, u64::MAX, &scalar(20)).unwrap_err(),
        "facility sequence exhausted"
    );
    assert_eq!(
        facility_after(&config(), 121, 4, &scalar(20)).unwrap_err(),
        "facility underflow"
    );
    let mut full = config();
    full.facility_values[1] = u64::MAX;
    assert_eq!(
        facility_after(&full, 1, 4, &scalar(20)).unwrap_err(),
        "facility overflow"
    );
    let mut unreadable = config();
    unreadable.facility_blindings[1] = [255; 32];
    assert_eq!(
        facility_after(&unreadable, 1, 4, &scalar(20)).unwrap_err(),
        "corporate scalar encoding is invalid"
    );
}

#[test]
fn an_assembled_reserve_matches_its_order() {
    let reserve = reserve();
    assert_eq!(reserve.facility_after.values, [80, 47, 3]);
    assert!(reserve.validate(&config(), &Ok(facts())).is_ok());
    let digest: Digest32 = Sha256::digest([47u8; 20]).into();
    assert_eq!(reserve_digest(&reserve), digest);
    assert_eq!(
        delivery_blinding(&config(), &reserve, &Ok(facts())).unwrap(),
        scalar(42)
    );
    let mut other = facts();
    other.amount_commitment = [0; 32];
    assert_eq!(
        delivery_blinding(&config(), &reserve, &Ok(other)).unwrap_err(),
        "saved corporate reserve does not match the configured order or funding witness"
    );
    assert_eq!(
        reserve
            .validate(&config(), &Err("order wire is invalid".to_string()))
            .unwrap_err(),
        "order wire is invalid"
    );
    assert_eq!(side_number(Side::Buy), 0);
    assert_eq!(side_number(Side::Sell), 1);
}

fn issued() -> IssuedReserve {
    IssuedReserve {
        permit: IssuedPermit {
            escrow_note_id: [62; 32],
            reserve_receipt_digest: [63; 32],
        },
        permit_checked: Ok(()),
        authority_checked: Ok(()),
    }
}

#[test]
fn a_permit_alone_confirms_nothing() {
    let config = config();
    let reserve = reserve();
    let facts = Ok(facts());
    let now = facility(5, reserve.request.after);
    let check = |issued: &IssuedReserve, head: &CanonicalReservation, now: &CanonicalFacility| {
        verify_finalized(&config, &reserve, &facts, issued, head, &[61; 10], now)
    };
    assert!(check(&issued(), &head(), &now).is_ok());
    // A later generation no longer commits to the witness.
    assert!(check(&issued(), &head(), &facility(6, [[0; 32]; 3])).is_ok());
    assert_eq!(
        check(&issued(), &head(), &facility(5, [[0; 32]; 3])).unwrap_err(),
        "canonical facility differs from the reserved witness generation"
    );
    assert_eq!(
        check(&issued(), &head(), &facility(4, reserve.request.after)).unwrap_err(),
        "canonical facility differs from the reserved witness generation"
    );
    let differs = "corporate canonical reserve readback differs from the issued permit";
    let mut pending = head();
    pending.status = "pending".to_string();
    assert_eq!(check(&issued(), &pending, &now).unwrap_err(), differs);
    let mut unaccepted = head();
    unaccepted.accepted_height = 0;
    assert_eq!(check(&issued(), &unaccepted, &now).unwrap_err(), differs);
    let mut used = head();
    used.sequence = 1;
    assert_eq!(check(&issued(), &used, &now).unwrap_err(), differs);
    let mut rebound = head();
    rebound.binding[0] = 0;
    assert_eq!(check(&issued(), &rebound, &now).unwrap_err(), differs);
    let mut other = issued();
    other.permit.escrow_note_id = [0; 32];
    assert_eq!(check(&other, &head(), &now).unwrap_err(), differs);
    let mut unsigned = issued();
    unsigned.permit_checked = Err("permit signature".to_string());
    assert_eq!(check(&unsigned, &head(), &now).unwrap_err(), "permit signature");
    let mut foreign = issued();
    foreign.authority_checked = Err("authority".to_string());
    assert_eq!(check(&foreign, &head(), &now).unwrap_err(), "authority");
}

fn note(id: u8, value: u64, spent: bool) -> ScannedNote {
    ScannedNote {
        note_id: [id; 32],
        lock_id: [0; 32],
        value,
        serial: Ok(SerialRead {
            state_root: [60; 32],
            spent,
        }),
    }
}

#[test]
fn a_selected_note_is_used_or_nothing_is() {
    let mut locked = note(1, 100, false);
    locked.lock_id = [9; 32];
    let notes = vec![
        locked,
        note(2, 39, false),
        note(3, 50, true),
        note(4, 40, false),
        note(5, 90, false),
    ];
    let root = [60; 32];
    assert!(matches!(
        choose_funding_note(&notes, 40, &None, &root),
        NoteChoice::Selected(3)
    ));
    assert!(matches!(
        choose_funding_note(&notes, 40, &Some([5; 32]), &root),
        NoteChoice::Selected(4)
    ));
    for id in [1, 2, 3, 6] {
        assert!(matches!(
            choose_funding_note(&notes, 40, &Some([id; 32]), &root),
            NoteChoice::Missing
        ));
    }
    assert!(matches!(
        choose_funding_note(&notes, 40, &None, &[61; 32]),
        NoteChoice::StateChanged
    ));
    let mut silent = note(1, 40, false);
    silent.serial = Err("no answer".to_string());
    match choose_funding_note(&vec![silent], 40, &None, &root) {
        NoteChoice::Unreadable(text) => assert_eq!(text, "no answer"),
        _ => panic!("the ledger did not answer"),
    }
    let roots = [root; 3];
    let prepare = |config: &CorporateNativeConfig, roots: &[Digest32; 3], limit: u64| {
        choose_reservation_funding(&scope(), config, &[77; 32], roots, &notes, limit, &None)
    };
    assert_eq!(prepare(&config(), &roots, 40), Ok(3));
    assert_eq!(
        prepare(&config(), &roots, 91).unwrap_err(),
        "corporate wallet has no sufficient selected unspent funding note"
    );
    assert_eq!(
        prepare(&config(), &[root, [0; 32], root], 40).unwrap_err(),
        "canonical funding changed; rebuild the same request before submission"
    );
    let mut venue = config();
    venue.venue_id = [0; 32];
    assert_eq!(
        prepare(&venue, &roots, 40).unwrap_err(),
        "DeFMI returned another configured application scope"
    );
    let mut key = config();
    key.wallet_spend_secret = [255; 32];
    assert_eq!(
        prepare(&key, &roots, 40).unwrap_err(),
        "corporate scalar encoding is invalid"
    );
    let mut seed = config();
    seed.wallet_opening_seed.pop();
    assert_eq!(
        prepare(&seed, &roots, 40).unwrap_err(),
        "corporate wallet requires its independent 96-byte opening seed"
    );
    let mut witness = config();
    witness.facility_blindings[2] = [255; 32];
    assert_eq!(
        prepare(&witness, &roots, 40).unwrap_err(),
        "corporate scalar encoding is invalid"
    );
}

fn authorization() -> CorporateReserveAuthorization {
    CorporateReserveAuthorization {
        mandate: mandate(),
        order_wire: vec![50; 24],
        signing_key: [51; 64],
        eligibility_commitment: [15; 32],
        order_authorization_salt: [16; 32],
        reserve_reblinding: scalar(22),
        reserve_blinding: scalar(20),
        side_blinding: scalar(21),
        identity: PresentedIdentity {
            subject_line_id: [17; 32],
            credential_digest: [18; 32],
            nullifier: [39; 32],
            context: vec![40; 8],
        },
        wire: vec![52; 16],
    }
}

fn authorization_facts() -> AuthorizationFacts {
    AuthorizationFacts {
        scope: Ok(()),
        manifest: [77; 32],
        mandate: Ok(()),
        reservation_id: [32; 32],
        expires_at: 1000,
        handle: [34; 32],
        order_participant_handle: [34; 32],
        participant_public: vec![36; 40],
        request_commitment: [31; 32],
        amount_commitment: [33; 32],
        settlement_terms_commitment: [35; 32],
        order_nullifier: [39; 32],
        identity_context: vec![40; 8],
    }
}

fn funding() -> FundingRead {
    FundingRead {
        mandate_live: Ok(()),
        root: [60; 32],
        chain_root: [60; 32],
        facility: facility(4, [[41; 32], [42; 32], [43; 32]]),
        configured_commitments: [[41; 32], [42; 32], [43; 32]],
        notes: vec![note(4, 40, false)],
    }
}

#[test]
fn only_missing_funds_end_an_authorization() {
    let facts = Ok(authorization_facts());
    let prepare = |config: &CorporateNativeConfig, read: &FundingRead, limit: u64| {
        choose_authorized_funding(config, &authorization(), &facts, read, limit, &None)
    };
    let retry = |text: &str| Err(PreparationError::Retry(text.to_string()));
    assert_eq!(prepare(&config(), &funding(), 40), Ok(0));
    assert_eq!(
        prepare(&config(), &funding(), 121),
        Err(PreparationError::InsufficientFunding)
    );
    assert_eq!(
        prepare(&config(), &funding(), 41),
        Err(PreparationError::InsufficientFunding)
    );
    let mut expired = funding();
    expired.mandate_live = Err("mandate expired".to_string());
    assert_eq!(prepare(&config(), &expired, 40), retry("mandate expired"));
    let mut moved = funding();
    moved.chain_root = [0; 32];
    assert_eq!(
        prepare(&config(), &moved, 40),
        retry("canonical funding changed during preparation")
    );
    let mut stale = funding();
    stale.configured_commitments[2] = [0; 32];
    assert_eq!(
        prepare(&config(), &stale, 40),
        retry("corporate funding witness is not the current canonical generation")
    );
    let mut key = config();
    key.wallet_spend_secret = [255; 32];
    assert_eq!(
        prepare(&key, &funding(), 40),
        retry("non-canonical corporate scalar")
    );
    let mut blinded = config();
    blinded.facility_blindings[0] = [255; 32];
    assert_eq!(
        prepare(&blinded, &funding(), 40),
        retry("corporate scalar encoding is invalid")
    );
    let mut crossed = funding();
    crossed.notes[0].serial = Ok(SerialRead {
        state_root: [0; 32],
        spent: false,
    });
    assert_eq!(
        prepare(&config(), &crossed, 40),
        retry("funding state changed during note selection")
    );
}

#[test]
fn an_authorized_reserve_keeps_the_signed_terms() {
    let finish = |config: &CorporateNativeConfig,
                  read: &FundingRead,
                  limit: u64,
                  built: Result<BuiltRequest, String>,
                  facts: ReserveFacts| {
        prepare_authorized_reservation(
            config,
            &authorization(),
            &Ok(authorization_facts()),
            read,
            &order(limit),
            &None,
            built,
            &Ok(facts),
        )
    };
    let retry = |text: &str| Some(PreparationError::Retry(text.to_string()));
    let prepared = finish(&config(), &funding(), 40, Ok(built(0)), facts())
        .ok()
        .unwrap();
    assert_eq!(prepared.order_wire, vec![50; 24]);
    assert_eq!(prepared.signing_key, [51; 64]);
    assert_eq!(prepared.reserve_blinding, scalar(20));
    assert_eq!(prepared.side_blinding, scalar(21));
    assert_eq!(prepared.facility_after.values, [80, 47, 3]);
    assert_eq!(prepared.facility_after.sequence, 5);
    // The request repeats the authorization and the facility as it was read.
    let request = &prepared.request;
    assert_eq!(request.mandate.version, 2);
    assert_eq!(request.mandate.wire, mandate().wire);
    assert_eq!(request.mandate.hold_id, [32; 32]);
    assert_eq!(request.order_commitment, [38; 32]);
    assert_eq!(request.order_authorization_salt, [16; 32]);
    assert_eq!(request.reserve_reblinding, scalar(22));
    assert_eq!(request.before_sequence, 4);
    assert_eq!(request.before, [[41; 32], [42; 32], [43; 32]]);
    assert_eq!(request.after, [[44; 32], [45; 32], [46; 32]]);
    assert_eq!(request.wire, vec![47; 20]);
    assert_eq!(
        finish(&config(), &funding(), 121, Ok(built(0)), facts()).err(),
        Some(PreparationError::InsufficientFunding)
    );
    assert_eq!(
        finish(&config(), &funding(), 40, Ok(built(1)), facts()).err(),
        retry("canonical funding changed during preparation")
    );
    assert_eq!(
        finish(&config(), &funding(), 40, Err("no proof".to_string()), facts()).err(),
        retry("no proof")
    );
    let mut last = funding();
    last.facility = facility(u64::MAX, [[41; 32], [42; 32], [43; 32]]);
    assert_eq!(
        finish(&config(), &last, 40, Ok(built(0)), facts()).err(),
        retry("facility sequence exhausted")
    );
    let mut other = facts();
    other.facility_after_commitments[0] = [0; 32];
    assert_eq!(
        finish(&config(), &funding(), 40, Ok(built(0)), other).err(),
        retry("saved corporate reserve does not match the configured order or funding witness")
    );
    let mut unreadable = config();
    unreadable.facility_blindings[2] = [255; 32];
    assert_eq!(
        finish(&unreadable, &funding(), 40, Ok(built(0)), facts()).err(),
        retry("corporate scalar encoding is invalid")
    );
}

#[test]
fn a_reserve_is_built_on_the_chosen_note() {
    let read = || ReserveRead {
        scope: scope(),
        manifest: [77; 32],
        root: [60; 32],
        chain_root: [60; 32],
        facility: facility(4, [[41; 32], [42; 32], [43; 32]]),
        notes: vec![note(3, 39, false), note(4, 40, false)],
    };
    let make = |read: &ReserveRead, limit: u64, built: Result<BuiltRequest, String>| {
        prepare_reservation_from_note(
            &config(),
            read,
            mandate_terms(),
            vec![37; 12],
            signed_order(),
            &order(limit),
            &secrets(),
            &None,
            built,
            100,
        )
    };
    let made = make(&read(), 40, Ok(built(1))).ok().unwrap();
    assert!(made.validate(&config(), &Ok(facts())).is_ok());
    assert_eq!(made.request.mandate.version, 2);
    assert_eq!(made.request.mandate.valid_from, 100);
    assert_eq!(made.request.mandate.valid_until, 1000);
    assert_eq!(made.request.mandate.facility_id, [4; 32]);
    assert_eq!(made.request.order_authorization_salt, [16; 32]);
    assert_eq!(made.request.reserve_reblinding, scalar(22));
    assert_eq!(made.request.before_sequence, 4);
    assert_eq!(made.facility_after.values, [80, 47, 3]);
    let any = prepare_reservation(
        &config(),
        &read(),
        mandate_terms(),
        vec![37; 12],
        signed_order(),
        &order(40),
        &secrets(),
        Ok(built(1)),
        100,
    );
    assert_eq!(reserve_digest(&any.ok().unwrap()), reserve_digest(&made));
    let changed = "canonical funding changed; rebuild the same request before submission";
    assert_eq!(
        make(&read(), 40, Ok(built(0))).err(),
        Some(changed.to_string())
    );
    let mut moved = read();
    moved.facility.state_root = [0; 32];
    assert_eq!(
        make(&moved, 40, Ok(built(1))).err(),
        Some(changed.to_string())
    );
    assert_eq!(
        make(&read(), 40, Err("no ring".to_string())).err(),
        Some("no ring".to_string())
    );
    assert_eq!(
        make(&read(), 41, Ok(built(1))).err(),
        Some("corporate wallet has no sufficient selected unspent funding note".to_string())
    );
    let mut last = read();
    last.facility.sequence = u64::MAX;
    assert_eq!(
        make(&last, 40, Ok(built(1))).err(),
        Some("facility sequence exhausted".to_string())
    );
}

#[test]
fn the_first_facility_is_the_configured_one() {
    let commitments = [[41; 32], [42; 32], [43; 32]];
    let canonical = facility(0, commitments);
    let found = initial_facility(&config(), &canonical, &[60; 32], &commitments).unwrap();
    assert_eq!(found.values, [120, 7, 3]);
    assert_eq!(found.sequence, 0);
    assert_eq!(
        initial_facility(&config(), &canonical, &[61; 32], &commitments).unwrap_err(),
        "initial facility witness does not match canonical state"
    );
    assert_eq!(
        initial_facility(&config(), &canonical, &[60; 32], &[[0; 32]; 3]).unwrap_err(),
        "initial facility witness does not match canonical state"
    );
}

#[test]
fn an_unsent_reserve_ends_as_never_reserved() {
    let before = reserve().request.before;
    let mut journal = reserved("order-1");
    let start = |journal: &NativeCorporateJournal, now: u64| {
        reconcile_expired_submission(journal, &config(), "order-1", &Ok(facts()), &Ok(()), now)
    };
    assert_eq!(
        start(&journal, 1000).unwrap_err(),
        "canonical reserve deadline has not elapsed"
    );
    assert_eq!(start(&journal, 1001), Ok(ExpiryStep::ReadFunding));
    assert_eq!(
        reconcile_expired_submission(
            &journal,
            &config(),
            "order-2",
            &Ok(facts()),
            &Ok(()),
            1001
        )
        .unwrap_err(),
        "expired request has no saved signed reserve"
    );
    assert_eq!(
        reconcile_expired_submission(
            &journal,
            &config(),
            "order-1",
            &Err("changed".to_string()),
            &Ok(()),
            1001
        )
        .unwrap_err(),
        "changed"
    );
    let unchanged = facility(4, before);
    assert_eq!(
        judge_funding(&mut journal, &config(), "order-1", 1001, &[0; 32], &unchanged).unwrap_err(),
        "expiry facility read crossed canonical context"
    );
    assert_eq!(
        judge_funding(&mut journal, &config(), "order-1", 1001, &[60; 32], &unchanged),
        Ok(ExpiryStep::ConfirmAbsence)
    );
    // From here on nothing is sent.
    let digest = reserve_digest(&reserve());
    assert!(journal.mark_reserve_send_started("order-1", &digest).is_err());
    assert_eq!(
        absence_outcome(&[60; 32], &[61; 32]).err(),
        Some("absence observation crossed canonical generations".to_string())
    );
    let outcome = absence_outcome(&[60; 32], &[60; 32]).ok().unwrap();
    let ended = save_outcome(&mut journal, "order-1", &reserve(), 1001, outcome, &Ok(()))
        .ok()
        .unwrap();
    assert_eq!(ended.reserve_digest, digest);
    assert!(ended.outcome.never_reserved());
    assert_eq!(start(&journal, 1001), Ok(ExpiryStep::RecoverWallet));
    assert!(journal.complete_expiry(ended, &reserve(), &Ok(())).is_ok());
    match journal.completed_expiry("order-1", &Ok(())) {
        Ok(Some(found)) => assert_eq!(found.checked_at, 1001),
        _ => panic!("the end is on record"),
    }
}

#[test]
fn an_absence_is_saved_only_at_one_ledger_state() {
    let before = reserve().request.before;
    let end = |journal: &mut NativeCorporateJournal, read: &CanonicalFacility, after: u8| {
        end_unsent(
            journal,
            &config(),
            "order-1",
            1001,
            &[60; 32],
            read,
            &[after; 32],
        )
    };
    let mut empty = journal();
    assert_eq!(
        end(&mut empty, &facility(4, before), 60).err(),
        Some("expired request has no saved signed reserve".to_string())
    );
    let mut journal = reserved("order-1");
    // The facility moved: the ledger's reservation has to be read.
    let moved = facility(5, reserve().request.after);
    assert!(end(&mut journal, &moved, 60).ok().unwrap().is_none());
    assert_eq!(
        end(&mut journal, &facility(4, before), 61).err(),
        Some("absence observation crossed canonical generations".to_string())
    );
    let ended = end(&mut journal, &facility(4, before), 60)
        .ok()
        .unwrap()
        .unwrap();
    assert!(ended.outcome.never_reserved());
    assert_eq!(ended.reserve_digest, reserve_digest(&reserve()));
    assert!(journal
        .mark_reserve_send_started("order-1", &reserve_digest(&reserve()))
        .is_err());
    // A request that was sent is not ended as unsent.
    let mut sent = reserved("order-1");
    assert!(sent
        .mark_reserve_send_started("order-1", &reserve_digest(&reserve()))
        .is_ok());
    assert!(end(&mut sent, &facility(4, before), 60)
        .ok()
        .unwrap()
        .is_none());
}

#[test]
fn a_release_ends_the_saved_reserve_under_the_saved_terms() {
    let mut journal = reserved("order-1");
    let accepted = || AcceptedRelease {
        statement: [71; 32],
        transaction_id: "transaction".to_string(),
        block_id: "block".to_string(),
        height: 9,
        after_root: [72; 32],
    };
    let mut after = head();
    after.status = "released".to_string();
    after.sequence = 1;
    after.head_receipt = [71; 32];
    let end = |journal: &mut NativeCorporateJournal,
               after: &CanonicalReservation,
               verified: Result<(), String>| {
        end_released(
            journal,
            "order-1",
            1001,
            accepted(),
            after,
            &[61; 10],
            &verified,
        )
    };
    assert_eq!(
        end(&mut journal, &after, Ok(())).err(),
        Some("external release needs its canonical transaction receipt".to_string())
    );
    let (mut release, _) =
        choose_release(&journal, "order-1", &[60; 32], &head(), &[61; 10], &[32; 32])
            .ok()
            .unwrap();
    release.wire = vec![70; 5];
    assert!(journal
        .save_expiry_release("order-1", release, &reserve(), &Ok(()), &Ok(()))
        .is_ok());
    assert_eq!(
        end(&mut journal, &after, Err("signature".to_string())).err(),
        Some("signature".to_string())
    );
    assert_eq!(
        end(&mut journal, &head(), Ok(())).err(),
        Some("expiry did not terminate the exact original reserve".to_string())
    );
    let ended = end(&mut journal, &after, Ok(())).ok().unwrap();
    assert!(!ended.outcome.never_reserved());
    assert_eq!(ended.checked_at, 1001);
    assert!(end(&mut journal, &after, Ok(())).is_ok());
}

#[test]
fn a_sent_reserve_ends_with_its_release() {
    let before = reserve().request.before;
    let mut journal = reserved("order-1");
    let digest = reserve_digest(&reserve());
    assert!(journal.mark_reserve_send_started("order-1", &digest).is_ok());
    for read in [facility(4, before), facility(5, reserve().request.after)] {
        assert_eq!(
            judge_funding(&mut journal, &config(), "order-1", 1001, &[60; 32], &read),
            Ok(ExpiryStep::ReadReservation)
        );
    }
    let choose = |journal: &NativeCorporateJournal, head: &CanonicalReservation| {
        choose_release(journal, "order-1", &[60; 32], head, &[61; 10], &[32; 32])
    };
    let mut filled = head();
    filled.sequence = 2;
    assert_eq!(
        choose(&journal, &filled).err(),
        Some("expiry read does not identify the original unfilled reserve".to_string())
    );
    let mut gone = head();
    gone.status = "released".to_string();
    assert_eq!(
        choose(&journal, &gone).err(),
        Some("external release needs its canonical transaction receipt".to_string())
    );
    let (mut release, saved) = choose(&journal, &head()).ok().unwrap();
    assert!(!saved);
    let mut named = b"OCLOB:CORPORATE-EXPIRY:v1".to_vec();
    named.extend_from_slice(&digest);
    let operation: Digest32 = Sha256::digest(&named).into();
    assert_eq!(release.operation_id, operation);
    assert_eq!(release.previous_receipt, [64; 32]);
    assert_eq!(release.before_root, [60; 32]);
    assert_eq!(release.hold_id, [32; 32]);
    release.wire = vec![70; 5];
    assert!(journal
        .save_expiry_release("order-1", release, &reserve(), &Ok(()), &Ok(()))
        .is_ok());
    // After a restart the same terms are used, whatever the head says by then.
    let (release, saved) = choose(&journal, &gone).ok().unwrap();
    assert!(saved);
    assert_eq!(release.wire, vec![70; 5]);
    let accepted = || AcceptedRelease {
        statement: [71; 32],
        transaction_id: "transaction".to_string(),
        block_id: "block".to_string(),
        height: 9,
        after_root: [72; 32],
    };
    let mut after = head();
    after.status = "released".to_string();
    after.sequence = 1;
    after.head_receipt = [71; 32];
    let mut partly = head();
    partly.status = "released".to_string();
    partly.sequence = 1;
    partly.head_receipt = [71; 32];
    partly.remaining_commitment = [0; 32];
    assert_eq!(
        released_outcome(&partly, accepted(), &reserve(), &[61; 10], release.copy()).err(),
        Some("expiry did not terminate the exact original reserve".to_string())
    );
    let outcome = released_outcome(&after, accepted(), &reserve(), &[61; 10], release)
        .ok()
        .unwrap();
    let again = outcome.copy();
    let ended = save_outcome(&mut journal, "order-1", &reserve(), 1001, outcome, &Ok(()))
        .ok()
        .unwrap();
    assert!(!ended.outcome.never_reserved());
    // Another end of the same reserve conflicts with the first.
    assert_eq!(
        save_outcome(&mut journal, "order-1", &reserve(), 1002, again, &Ok(())).err(),
        Some("expiry result conflicts with earlier canonical evidence".to_string())
    );
    assert_eq!(
        reconcile_expired_submission(
            &journal,
            &config(),
            "order-1",
            &Ok(facts()),
            &Ok(()),
            1001
        ),
        Ok(ExpiryStep::RecoverWallet)
    );
    assert!(journal.complete_expiry(ended, &reserve(), &Ok(())).is_ok());
}

#[test]
fn refused_ends_say_why() {
    let mut journal = reserved("order-1");
    let root = ExpiryOutcome::NeverReserved {
        state_root: [0; 32],
    };
    assert_eq!(
        save_outcome(&mut journal, "order-1", &reserve(), 1001, root, &Ok(())).err(),
        Some("expiry resolution has no canonical evidence".to_string())
    );
    let early = ExpiryOutcome::NeverReserved {
        state_root: [60; 32],
    };
    assert_eq!(
        save_outcome(&mut journal, "order-1", &reserve(), 1000, early, &Ok(())).err(),
        Some("expiry resolution differs from its original reserve".to_string())
    );
    let released = |reason: ReleaseReason, hold: u8, height: u64| ExpiryOutcome::Released {
        release: NoteRelease {
            reason,
            hold_id: [hold; 32],
            sequence: 0,
            before_root: [60; 32],
            operation_id: [73; 32],
            previous_receipt: [64; 32],
            wire: vec![70; 5],
        },
        transaction_id: "transaction".to_string(),
        block_id: "block".to_string(),
        height,
        after_root: [72; 32],
    };
    let foreign = "unadmitted expiry cannot release another or already used reserve";
    for (reason, hold) in [
        (ReleaseReason::Cancelled, 32),
        (ReleaseReason::Expired, 33),
    ] {
        assert_eq!(
            save_outcome(
                &mut journal,
                "order-1",
                &reserve(),
                1001,
                released(reason, hold, 9),
                &Ok(())
            )
            .err(),
            Some(foreign.to_string())
        );
    }
    assert_eq!(
        save_outcome(
            &mut journal,
            "order-1",
            &reserve(),
            1001,
            released(ReleaseReason::Expired, 32, 0),
            &Ok(())
        )
        .err(),
        Some("expiry receipt is incomplete".to_string())
    );
    assert_eq!(
        save_outcome(
            &mut journal,
            "order-1",
            &reserve(),
            1001,
            released(ReleaseReason::Expired, 32, 9),
            &Err("release is not due".to_string())
        )
        .err(),
        Some("release is not due".to_string())
    );
    assert_eq!(
        reconcile_expired_submission(
            &journal,
            &config(),
            "order-1",
            &Ok(facts()),
            &Ok(()),
            1001
        ),
        Ok(ExpiryStep::ReadFunding)
    );
}

fn prepared_delivery() -> PreparedEdgeDelivery {
    let manifest = EdgeOrderManifest {
        market_id: "RESERVES".to_string(),
        commitment: OrderCommitment([80; 32]),
        retention_deadline: 1000,
        settlement_capability_commitment: [81; 32],
        signer: [82; 32],
        body: vec![83; 4],
    };
    PreparedEdgeDelivery {
        deliveries: cluster()
            .nodes
            .iter()
            .map(|node| EdgeDelivery {
                party: node.party,
                share: SealedPartyShare {
                    commitment: manifest.commitment,
                    party: node.party,
                    recipient: node.share_encryption_key.clone(),
                    ciphertext: vec![node.party as u8; 100],
                },
                key: SealedCapabilityKeyShare {
                    order_commitment: manifest.commitment,
                    capability_commitment: [81; 32],
                    party: node.party,
                    recipient: node.share_encryption_key.clone(),
                    ciphertext: vec![node.party as u8; 64],
                },
                share_digest: [node.party as u8 + 1; 32],
                key_digest: [node.party as u8 + 11; 32],
            })
            .collect(),
        manifest,
    }
}

fn node_receipt() -> EdgeAdmissionReceipt {
    let replies = (0..7u16)
        .map(|party| {
            Ok(NodeAdmissionReceipt {
                party,
                order_commitment: OrderCommitment([80; 32]),
                manifest_signer: [82; 32],
                order_share_digest: [party as u8 + 1; 32],
                capability_key_share_digest: [party as u8 + 11; 32],
                generation: 1,
                state_digest: [91; 32],
                signer: cluster().nodes[usize::from(party)].receipt_verifying_key,
                signature: vec![party as u8; 64],
            })
        })
        .collect();
    let edge = EdgeDistributor::new(cluster(), 5).ok().unwrap();
    let valid = vec![true; 7];
    edge.submit_prepared(&prepared_delivery(), Some(true), replies, Some(true), &valid)
        .unwrap()
}

fn checked() -> ReceiptFacts {
    ReceiptFacts {
        delivery_manifest: true,
        receipt_manifest: true,
        receipts_valid: vec![true; 7],
    }
}

fn submission_facts() -> SubmissionFacts {
    SubmissionFacts {
        reserve: Ok(facts()),
        receipt: checked(),
        spent: Ok(()),
    }
}

fn submit(
    journal: &mut NativeCorporateJournal,
    facts: &SubmissionFacts,
    submitted: bool,
) -> Result<SubmissionStep, String> {
    complete_native_submission(
        journal,
        &config(),
        &cluster(),
        "order-1",
        Some([4; 32]),
        facts,
        submitted,
    )
}

fn stored_delivery() -> StoredCorporateDelivery {
    StoredCorporateDelivery {
        reserve_digest: reserve_digest(&reserve()),
        delivery: prepared_delivery(),
        authority: vec![3],
    }
}

#[test]
fn a_submission_resumes_from_its_records() {
    let known = submission_facts();
    let mut empty = journal();
    assert_eq!(
        submit(&mut empty, &known, false).unwrap_err(),
        "submission has no durable intent"
    );
    let mut journal = reserved("order-1");
    let mut changed = submission_facts();
    changed.reserve = Err("scope changed".to_string());
    assert_eq!(
        submit(&mut journal, &changed, false).unwrap_err(),
        "scope changed"
    );
    assert_eq!(
        submit(&mut journal, &known, false),
        Ok(SubmissionStep::FinalizeReservation)
    );
    // The reserve counts as sent from here on, so its end unsent is refused.
    assert_eq!(
        journal.seal_never_dispatched("order-1", &reserve_digest(&reserve()), 1001),
        Ok(false)
    );
    assert_eq!(
        submit(&mut journal, &known, false),
        Ok(SubmissionStep::FinalizeReservation)
    );
    assert!(journal
        .save_stage("order-1", "admission", JournalBody::Admission(vec![1, 2]))
        .is_ok());
    assert_eq!(
        submit(&mut journal, &known, false),
        Ok(SubmissionStep::BuildDelivery)
    );
    assert!(journal
        .save_stage(
            "order-1",
            "delivery",
            JournalBody::Delivery(stored_delivery())
        )
        .is_ok());
    assert_eq!(
        submit(&mut journal, &known, false),
        Ok(SubmissionStep::SubmitToNodes)
    );
    assert!(journal
        .save_receipt(
            "order-1",
            node_receipt(),
            &stored_delivery(),
            &cluster(),
            &checked(),
            &checked(),
        )
        .is_ok());
    let mut other = intent();
    other.order_wire = vec![0; 24];
    let mut swapped = self::journal();
    assert!(swapped.save_intent("order-1", other).is_ok());
    assert!(swapped
        .save_stage("order-1", "reserve", JournalBody::Reserve(reserve()))
        .is_ok());
    assert_eq!(
        submit(&mut swapped, &known, false).unwrap_err(),
        "saved reserve belongs to another durable corporate intent"
    );
    // A completed submission checks its receipt and the spent note again.
    assert_eq!(
        submit(&mut journal, &known, true),
        Ok(SubmissionStep::Complete {
            reused_completed_receipt: false
        })
    );
    assert_eq!(
        submit(&mut journal, &known, false),
        Ok(SubmissionStep::Complete {
            reused_completed_receipt: true
        })
    );
    let mut forged = submission_facts();
    forged.receipt.receipts_valid[2] = false;
    assert_eq!(
        submit(&mut journal, &forged, false).unwrap_err(),
        "edge admission receipt is invalid"
    );
    let mut unspent = submission_facts();
    unspent.spent = Err("note is not spent".to_string());
    assert_eq!(
        submit(&mut journal, &unspent, false).unwrap_err(),
        "note is not spent"
    );
}

#[test]
fn a_submitted_claim_is_recorded_as_admitted() {
    let claim = Claim {
        request_digest: [96; 32],
        attempt: 4,
    };
    let mut journal = reserved("order-1");
    let step = |journal: &mut NativeCorporateJournal, facts: &SubmissionFacts| {
        let payload = enqueue(journal, &config(), "order-1", Some([4; 32]), &Ok(self::facts())).ok();
        submit_claim(
            journal, &config(), &cluster(), "order-1", &claim, &payload, facts, true,
        )
    };
    // What does not fit the journal is not sent.
    assert_eq!(
        submit_claim(
            &mut journal,
            &config(),
            &cluster(),
            "order-1",
            &claim,
            &None,
            &submission_facts(),
            true,
        )
        .err()
        .unwrap(),
        "malformed encrypted dispatch payload"
    );
    assert!(matches!(
        step(&mut journal, &submission_facts()),
        Ok(ClaimProgress::Step(SubmissionStep::FinalizeReservation))
    ));
    let mut changed = submission_facts();
    changed.reserve = Err("scope changed".to_string());
    match step(&mut journal, &changed) {
        Ok(ClaimProgress::Retry { progress }) => assert_eq!(
            progress,
            DispatchProgress::RetryScheduled {
                request_id: "order-1".to_string(),
                attempt: 4
            }
        ),
        _ => panic!("a failed submission is tried again"),
    }
    for (stage, body) in [
        ("admission", JournalBody::Admission(vec![1, 2])),
        ("delivery", JournalBody::Delivery(stored_delivery())),
    ] {
        assert!(journal.save_stage("order-1", stage, body).is_ok());
    }
    assert!(journal
        .save_receipt(
            "order-1",
            node_receipt(),
            &stored_delivery(),
            &cluster(),
            &checked(),
            &checked(),
        )
        .is_ok());
    match step(&mut journal, &submission_facts()) {
        Ok(ClaimProgress::Admitted { record, progress }) => {
            assert_eq!(
                record,
                QueueRecord::Admission(MpcAdmissionReceipt {
                    committee_id: format!("oclob:{}", cluster().market_id),
                    job_id: "50".repeat(32),
                    admitted_request_digest: [96; 32],
                })
            );
            let digest: String = node_receipt()
                .receipt_digest
                .iter()
                .map(|byte| format!("{:02x}", byte))
                .collect();
            assert_eq!(
                progress,
                DispatchProgress::Admitted {
                    request_id: "order-1".to_string(),
                    receipt_digest: digest
                }
            );
        }
        _ => panic!("a completed submission is admitted"),
    }
}

fn finalized() -> FinalizedRead {
    FinalizedRead {
        issued: issued(),
        canonical: head(),
        binding: vec![61; 10],
        facility: facility(5, reserve().request.after),
        wire: vec![1, 2],
    }
}

#[test]
fn a_submission_keeps_only_what_the_ledger_confirms() {
    let known = submission_facts();
    let after = reserve().request.after;
    let mut journal = reserved("order-1");
    let reserve_step = |journal: &mut NativeCorporateJournal, read: FinalizedRead| {
        keep_reservation(journal, &config(), &cluster(), "order-1", None, &known, read)
    };
    let delivery_step = |journal: &mut NativeCorporateJournal,
                         cluster: &ClusterPublicConfig,
                         read: &FinalizedRead| {
        keep_delivery(
            journal,
            &config(),
            cluster,
            "order-1",
            None,
            &known,
            read,
            &after,
            &after,
            prepared_delivery(),
            vec![3],
        )
    };
    let another = "corporate submission is at another step";
    assert_eq!(
        delivery_step(&mut journal, &cluster(), &finalized()).unwrap_err(),
        another
    );
    let mut pending = finalized();
    pending.canonical.status = "pending".to_string();
    assert_eq!(
        reserve_step(&mut journal, pending).unwrap_err(),
        "corporate canonical reserve readback differs from the issued permit"
    );
    let mut stale = finalized();
    stale.facility = facility(4, after);
    assert_eq!(
        reserve_step(&mut journal, stale).unwrap_err(),
        "canonical facility differs from the reserved witness generation"
    );
    assert!(matches!(journal.stage("order-1", "admission"), Ok(None)));
    reserve_step(&mut journal, finalized()).unwrap();
    assert!(matches!(
        journal.stage("order-1", "admission"),
        Ok(Some(JournalBody::Admission(_)))
    ));
    assert_eq!(
        reserve_step(&mut journal, finalized()).unwrap_err(),
        another
    );
    let mut unsigned = finalized();
    unsigned.issued.permit_checked = Err("permit signature".to_string());
    assert_eq!(
        delivery_step(&mut journal, &cluster(), &unsigned).unwrap_err(),
        "permit signature"
    );
    let mut six = cluster();
    six.nodes.pop();
    assert_eq!(
        delivery_step(&mut journal, &six, &finalized()).unwrap_err(),
        "cluster must have seven node keys"
    );
    delivery_step(&mut journal, &cluster(), &finalized()).unwrap();
    match journal.stage("order-1", "delivery") {
        Ok(Some(JournalBody::Delivery(kept))) => {
            assert_eq!(kept.reserve_digest, reserve_digest(&reserve()));
            assert_eq!(kept.authority, vec![3]);
        }
        _ => panic!("the ciphertexts are on record"),
    }
    let funding = journal.latest_funding(config()).ok().unwrap();
    assert_eq!(funding.facility_values, [80, 47, 3]);
    assert_eq!(
        submit(&mut journal, &known, false),
        Ok(SubmissionStep::SubmitToNodes)
    );
}

#[test]
fn a_fenced_request_is_never_sent() {
    let known = submission_facts();
    let mut journal = reserved("order-1");
    assert_eq!(
        journal.seal_never_dispatched("order-1", &reserve_digest(&reserve()), 1001),
        Ok(true)
    );
    for _ in 0..2 {
        assert_eq!(
            submit(&mut journal, &known, false).unwrap_err(),
            "unsent expiry fence prevents this reserve send"
        );
    }
    assert!(journal
        .mark_reserve_send_started("order-1", &reserve_digest(&reserve()))
        .is_err());
}

#[test]
fn a_handoff_is_made_once() {
    let mut journal = reserved("order-1");
    let record = handoff_record(&[1; 32], &[2; 32]);
    assert_eq!(journal.handoff_pending("order-1", &record), Ok(true));
    assert!(journal.save_handoff("order-1", record.clone()).is_ok());
    assert_eq!(journal.handoff_pending("order-1", &record), Ok(false));
    let elsewhere = handoff_record(&[3; 32], &[2; 32]);
    assert_eq!(
        journal.handoff_pending("order-1", &elsewhere).unwrap_err(),
        "market destination or original handoff changed"
    );
    assert_eq!(
        journal
            .check_handoff("order-1", &cluster(), &checked())
            .unwrap_err(),
        "market publishing lost node receipt"
    );
    assert_eq!(
        journal
            .check_handoff("order-2", &cluster(), &checked())
            .unwrap_err(),
        "market publishing lost original intent"
    );
}

fn signer(leg: u8, key: u8) -> ClaimKeyRecord {
    ClaimKeyRecord {
        leg,
        recipient_commitment: [key + 100; 32],
        key_fingerprint: [key; 32],
        authorization: vec![key; 6],
        derived: Ok(vec![key; 6]),
    }
}

fn signers(sequence: u64, first: u8, second: u8) -> StoredClaimAuthorizations {
    StoredClaimAuthorizations {
        version: 1,
        issue_view: [90; 32],
        reservation_id: [32; 32],
        sequence,
        not_before: 10,
        not_after: 20,
        order_signer: [91; 32],
        response_wire: vec![92; 30],
        first: signer(0, first),
        second: signer(1, second),
        shape: Ok(()),
        reply: Ok(reply(sequence, first, second)),
    }
}

fn reply(sequence: u64, first: u8, second: u8) -> ClaimReply {
    let term = |leg: u8, key: u8| ClaimTerm {
        leg,
        recipient_commitment: [key + 100; 32],
        authorization: vec![key; 6],
    };
    ClaimReply {
        reencoded: vec![92; 30],
        version: 1,
        reservation_id: [32; 32],
        sequence,
        first: term(0, first),
        second: term(1, second),
        verified: Ok(()),
    }
}

fn claim(key: u8) -> CanonicalClaim {
    CanonicalClaim {
        recipient_commitment: [key + 100; 32],
        key_fingerprint: [key; 32],
        authorization: vec![key; 6],
        checked: Ok(()),
    }
}

#[test]
fn a_claim_finds_its_one_retained_signer() {
    let mut journal = journal();
    assert!(journal.save_claim_authorizations(signers(0, 1, 2)).is_ok());
    assert!(journal.save_claim_authorizations(signers(1, 3, 4)).is_ok());
    // A retry with new keys adopts the first record.
    assert!(journal.save_claim_authorizations(signers(1, 5, 6)).is_ok());
    match journal.saved_claim_authorizations(&[32; 32], 1) {
        Ok(Some(kept)) => assert_eq!(kept.first.key_fingerprint, [3; 32]),
        _ => panic!("the first signers are kept"),
    }
    assert!(matches!(
        journal.saved_claim_authorizations(&[32; 32], 2),
        Ok(None)
    ));
    let mut body = b"OCLOB:CLAIM-AUTHORIZATION-RECORD:v1".to_vec();
    body.extend_from_slice(&[32; 32]);
    body.extend_from_slice(&1u64.to_be_bytes());
    let key = format!("claim-authorization:{}", hex::encode(Sha256::digest(&body)));
    assert_eq!(claim_authorization_record_id(&[32; 32], 1), key);
    assert_eq!(journal.claim_authorization(&claim(4), 1), Ok((key.clone(), true)));
    assert_eq!(journal.claim_authorization(&claim(3), 1), Ok((key, false)));
    assert_eq!(
        journal.claim_authorization(&claim(5), 1).unwrap_err(),
        "canonical claim has no retained participant authorization"
    );
    let mut substituted = claim(4);
    substituted.recipient_commitment = [0; 32];
    assert_eq!(
        journal.claim_authorization(&substituted, 1).unwrap_err(),
        "canonical claim substituted its participant authorization"
    );
    let mut unchecked = claim(4);
    unchecked.checked = Err("claim is malformed".to_string());
    assert_eq!(
        journal.claim_authorization(&unchecked, 1).unwrap_err(),
        "claim is malformed"
    );
    assert_eq!(
        journal.claim_authorization(&claim(4), 2).unwrap_err(),
        "stored claim authorization context is inconsistent"
    );
    assert!(journal.save_claim_authorizations(signers(2, 7, 1)).is_ok());
    assert_eq!(
        journal.claim_authorization(&claim(4), 1).unwrap_err(),
        "corporate journal reuses a claim authorization key"
    );
}

#[test]
fn retained_signers_answer_one_request() {
    let kept = signers(3, 1, 2);
    let fits = Ok(());
    assert!(kept.public(1, &[91; 32], &[90; 32], 3, &fits).is_ok());
    let differs = "stored claim authorization signer is inconsistent";
    assert_eq!(kept.public(1, &[0; 32], &[90; 32], 3, &fits).unwrap_err(), differs);
    assert_eq!(kept.public(1, &[91; 32], &[0; 32], 3, &fits).unwrap_err(), differs);
    assert_eq!(kept.public(1, &[91; 32], &[90; 32], 4, &fits).unwrap_err(), differs);
    assert_eq!(
        kept.public(1, &[91; 32], &[90; 32], 3, &Err("response".to_string()))
            .unwrap_err(),
        "response"
    );
    let mut empty = signers(3, 1, 2);
    empty.response_wire.clear();
    assert_eq!(
        empty.retained_public(1).unwrap_err(),
        "stored claim authorization response wire is invalid"
    );
    let mut long = signers(3, 1, 2);
    long.response_wire = vec![0; 65_537];
    assert!(long.retained_public(1).is_err());
    let mut lost = signers(3, 1, 2);
    lost.second.derived = Err("key is lost".to_string());
    assert_eq!(lost.retained_unsigned(1).unwrap_err(), "key is lost");
    let mut swapped = signers(3, 1, 2);
    swapped.first.derived = Ok(vec![9; 6]);
    assert_eq!(
        swapped.retained_unsigned(1).unwrap_err(),
        "stored claim authorization key differs from its public commitment"
    );
    let mut spaced = signers(3, 1, 2);
    spaced.response_wire.push(32);
    assert_eq!(
        spaced.retained_public(1).unwrap_err(),
        "stored claim authorization response wire is not canonical"
    );
    let mut other = signers(3, 1, 2);
    other.reply = Ok(reply(3, 1, 3));
    assert_eq!(
        other.retained_public(1).unwrap_err(),
        "stored claim authorization response differs from its retained keys"
    );
    let mut unread = signers(3, 1, 2);
    unread.reply = Err("expected value".to_string());
    assert_eq!(unread.retained_public(1).unwrap_err(), "expected value");
    let mut window = signers(3, 1, 2);
    window.not_after = 10;
    assert_eq!(
        window.retained_unsigned(1).unwrap_err(),
        "stored claim authorization context is inconsistent"
    );
    let mut legs = signers(3, 1, 2);
    legs.second.leg = 0;
    assert!(legs.retained_unsigned(1).is_err());
    let mut shape = signers(3, 1, 2);
    shape.shape = Err("shape".to_string());
    assert_eq!(shape.retained_public(1).unwrap_err(), "shape");
    assert!(check_claim_start(u64::MAX - 1).is_ok());
    assert_eq!(
        check_claim_start(u64::MAX).unwrap_err(),
        "claim authorization cannot start at the maximum timestamp"
    );
}

#[test]
fn drawn_secrets_are_fresh_and_canonical() {
    let first = ReserveSecrets::draw().ok().unwrap();
    let second = ReserveSecrets::draw().ok().unwrap();
    let values = [
        first.order_authorization_salt,
        first.reserve_blinding,
        first.reserve_reblinding,
        first.side_blinding,
        second.order_authorization_salt,
        second.reserve_blinding,
        second.reserve_reblinding,
        second.side_blinding,
    ];
    for i in 0..values.len() {
        assert_ne!(values[i], [0; 32]);
        for j in 0..i {
            assert_ne!(values[i], values[j]);
        }
    }
    for secrets in [first, second] {
        for blinding in [
            secrets.reserve_blinding,
            secrets.reserve_reblinding,
            secrets.side_blinding,
        ] {
            assert!(bool::from(Scalar::from_canonical_bytes(blinding).is_some()));
            assert!(facility_after(&config(), 1, 0, &blinding).is_ok());
        }
    }
}

fn mandate_terms() -> MandateTerms {
    MandateTerms {
        request_commitment: [31; 32],
        reservation_id: [32; 32],
        amount_commitment: [33; 32],
        participant_handle: [34; 32],
        entity_commitment: [17; 32],
        credential_digest: [18; 32],
        settlement_terms_commitment: [35; 32],
        expires_at: 1000,
        participant_public: vec![36; 40],
    }
}

#[test]
fn a_created_authorization_stands() {
    let draft = |checked: &Result<(), String>, scope: &ReserveScope| {
        CorporateReserveAuthorization::draft_mandate(
            &config(),
            scope,
            checked,
            &[77; 32],
            mandate_terms(),
            100,
        )
    };
    let signed = draft(&Ok(()), &scope()).ok().unwrap();
    assert_eq!(signed.version, 2);
    assert!(signed.wire.is_empty());
    assert_eq!(signed.facility_id, [4; 32]);
    assert_eq!(signed.asset_id, [5; 32]);
    assert_eq!(signed.hold_id, [32; 32]);
    assert_eq!((signed.valid_from, signed.valid_until), (100, 1000));
    assert_eq!(
        draft(&Err("scope".to_string()), &scope()).err(),
        Some("scope".to_string())
    );
    let mut bits = scope();
    bits.amount_bits = 64;
    assert_eq!(
        draft(&Ok(()), &bits).err(),
        Some("DeFMI returned another configured application scope".to_string())
    );
    let create = |scope: &ReserveScope, facts: AuthorizationFacts| {
        CorporateReserveAuthorization::create(
            &config(),
            scope,
            &Ok(()),
            &[77; 32],
            mandate_terms(),
            vec![37; 12],
            signed_order(),
            &secrets(),
            authorization().identity,
            vec![52; 16],
            &Ok(facts),
            100,
        )
    };
    let made = create(&scope(), authorization_facts()).ok().unwrap();
    assert_eq!(made.digest(), authorization().digest());
    assert_eq!(made.mandate.wire, vec![37; 12]);
    assert_eq!(made.mandate.valid_from, 100);
    assert_eq!(made.reserve_reblinding, scalar(22));
    assert_eq!(made.order_authorization_salt, [16; 32]);
    let mut other = authorization_facts();
    other.order_nullifier = [0; 32];
    assert_eq!(
        create(&scope(), other).err(),
        Some("corporate authorization differs from the immutable order or deployment".to_string())
    );
    assert_eq!(
        create(&bits, authorization_facts()).err(),
        Some("DeFMI returned another configured application scope".to_string())
    );
}

fn claim_draw(first: u8, second: u8) -> ClaimDraw {
    ClaimDraw {
        first: signer(0, first),
        second: signer(1, second),
        shape: Ok(()),
        unsigned_fits: Ok(()),
        response_wire: vec![92; 30],
        reply: Ok(reply(3, first, second)),
        signed_fits: Ok(()),
    }
}

fn claim_draft(first: u8, second: u8) -> ClaimDraft {
    ClaimDraft {
        issue_view: [90; 32],
        reservation_id: [32; 32],
        sequence: 3,
        order_signer: [91; 32],
        first: signer(0, first),
        second: signer(1, second),
        shape: Ok(()),
        fits: Ok(()),
    }
}

#[test]
fn claim_signers_are_drawn_once_for_a_fill() {
    let generate = |draft: ClaimDraft, now: u64| {
        let answer = reply(
            draft.sequence,
            draft.first.key_fingerprint[0],
            draft.second.key_fingerprint[0],
        );
        StoredClaimAuthorizations::generate(1, draft, now, vec![92; 30], Ok(answer), &Ok(()))
    };
    let kept = generate(claim_draft(1, 2), 10).ok().unwrap();
    assert_eq!((kept.not_before, kept.not_after), (10, u64::MAX));
    assert_eq!(
        generate(claim_draft(1, 2), u64::MAX).err(),
        Some("claim authorization cannot start at the maximum timestamp".to_string())
    );
    let mut unfit = claim_draft(1, 2);
    unfit.fits = Err("response".to_string());
    assert_eq!(generate(unfit, 10).err(), Some("response".to_string()));
    let mut same = claim_draft(1, 2);
    same.second.leg = 0;
    assert_eq!(
        generate(same, 10).err(),
        Some("stored claim authorization context is inconsistent".to_string())
    );
    assert_eq!(
        StoredClaimAuthorizations::generate(
            1,
            claim_draft(1, 2),
            10,
            vec![92; 30],
            Err("signature".to_string()),
            &Ok(())
        )
        .err(),
        Some("signature".to_string())
    );

    let mut journal = journal();
    let key = claim_authorization_record_id(&[32; 32], 3);
    let issue = |journal: &mut NativeCorporateJournal, view: u8, signer: u8, draw: ClaimDraw| {
        let request = ClaimRequest {
            view: [view; 32],
            reservation_id: [32; 32],
            sequence: 3,
            signer: [signer; 32],
        };
        journal.issue_claim_authorizations(1, &request, draw, 10, &Ok(()))
    };
    let mut keyless = claim_draw(1, 2);
    keyless.first.derived = Err("no keys".to_string());
    assert_eq!(
        issue(&mut journal, 90, 91, keyless),
        Err("no keys".to_string())
    );
    assert!(matches!(
        journal.saved_claim_authorizations(&[32; 32], 3),
        Ok(None)
    ));
    assert_eq!(
        issue(&mut journal, 90, 91, claim_draw(1, 2)),
        Ok(key.clone())
    );
    assert_eq!(issue(&mut journal, 90, 91, claim_draw(5, 6)), Ok(key.clone()));
    match journal.saved_claim_authorizations(&[32; 32], 3) {
        Ok(Some(saved)) => assert_eq!(saved.first.key_fingerprint, [1; 32]),
        _ => panic!("the first signers are kept"),
    }
    let inconsistent = Err("stored claim authorization signer is inconsistent".to_string());
    assert_eq!(issue(&mut journal, 89, 91, claim_draw(5, 6)), inconsistent);
    assert_eq!(issue(&mut journal, 90, 92, claim_draw(5, 6)), inconsistent);
    // The same holds after the journal was opened again.
    let mut reopened = NativeCorporateJournal::load(
        &[9; 32],
        b"config",
        &cluster(),
        b"cluster",
        journal.into_records(),
    )
    .ok()
    .unwrap();
    assert_eq!(issue(&mut reopened, 90, 91, claim_draw(7, 8)), Ok(key));
    assert_eq!(issue(&mut reopened, 89, 91, claim_draw(7, 8)), inconsistent);
    match reopened.saved_claim_authorizations(&[32; 32], 3) {
        Ok(Some(saved)) => assert_eq!(saved.second.key_fingerprint, [2; 32]),
        _ => panic!("the first signers are kept"),
    }
    // The next fill has signers of its own, and the first ones stay.
    assert!(reopened.save_intent("between", intent()).is_ok());
    let next = ClaimRequest {
        view: [93; 32],
        reservation_id: [32; 32],
        sequence: 4,
        signer: [91; 32],
    };
    let mut draw = claim_draw(7, 8);
    draw.reply = Ok(reply(4, 7, 8));
    assert_eq!(
        reopened.issue_claim_authorizations(1, &next, draw, 20, &Ok(())),
        Ok(claim_authorization_record_id(&[32; 32], 4))
    );
    for (sequence, first) in [(3, 1), (4, 7)] {
        match reopened.saved_claim_authorizations(&[32; 32], sequence) {
            Ok(Some(saved)) => {
                assert_eq!(saved.first.key_fingerprint, [first; 32]);
                assert_eq!(saved.second.key_fingerprint, [first + 1; 32]);
            }
            _ => panic!("the signers of both fills are kept"),
        }
    }
}

fn reserve_head(hold: u8, asset: u8) -> ReserveHead {
    ReserveHead {
        state_root: [60; 32],
        active: true,
        sequence: 3,
        hold_id: [hold; 32],
        asset_id: [asset; 32],
        scope: scope(),
        mandate_digest: [61; 32],
        escrow_note_id: [62; 32],
    }
}

fn claim_side(reservation: u8, asset: u8) -> ClaimSide {
    ClaimSide {
        reservation_id: [reservation; 32],
        asset_id: [asset; 32],
        participant_handle: [34; 32],
        sequence: 3,
    }
}

fn claim_facts(draw: ClaimDraw) -> ClaimFacts {
    ClaimFacts {
        issue_version: 1,
        issue_valid: Ok(()),
        reserve: Ok(facts()),
        signer: [91; 32],
        view: [90; 32],
        sequence: 3,
        fits: Ok(()),
        fresh: Ok(FreshClaims {
            permit: PermitTerms {
                reservation_id: [32; 32],
                asset_id: [5; 32],
                participant_handle: [34; 32],
                facility_id: [4; 32],
                venue_id: [1; 32],
                authority_digest: [61; 32],
                escrow_note_id: [62; 32],
            },
            context: ClaimContext {
                handle: [34; 32],
                application: [77; 32],
                permit_valid: Ok(()),
                admission_valid: Ok(()),
                root: [60; 32],
                payer_head: reserve_head(32, 5),
                payee_head: reserve_head(33, 6),
                root_afterwards: [60; 32],
            },
            draw,
        }),
    }
}

#[test]
fn the_service_issues_signers_for_admitted_reservations_only() {
    let mut api = CorporateApi {
        config: config(),
        market_id: "RESERVES".to_string(),
        journal: reserved("order-1"),
    };
    let ask = |api: &mut CorporateApi, facts: ClaimFacts| {
        let issue = ClaimIssue {
            payer: claim_side(32, 5),
            payee: claim_side(33, 6),
        };
        api.issue_claim_authorizations(&[32; 32], &issue, &Vec::new(), facts, 4, 10)
    };
    assert_eq!(
        ask(&mut api, claim_facts(claim_draw(1, 2))).unwrap_err(),
        "claim authorization reservation has no durable permit"
    );
    for (stage, body) in [
        ("admission", JournalBody::Admission(vec![1, 2])),
        ("delivery", JournalBody::Delivery(stored_delivery())),
    ] {
        assert!(api.journal.save_stage("order-1", stage, body).is_ok());
    }
    assert_eq!(
        ask(&mut api, claim_facts(claim_draw(1, 2))).unwrap_err(),
        "claim authorization reservation was not admitted to the market"
    );
    assert!(api
        .journal
        .save_receipt(
            "order-1",
            node_receipt(),
            &stored_delivery(),
            &cluster(),
            &checked(),
            &checked(),
        )
        .is_ok());
    let mut unread = claim_facts(claim_draw(1, 2));
    unread.issue_valid = Err("issue".to_string());
    assert_eq!(ask(&mut api, unread).unwrap_err(), "issue");
    let mut changed = claim_facts(claim_draw(1, 2));
    changed.reserve = Err("order wire is invalid".to_string());
    assert_eq!(ask(&mut api, changed).unwrap_err(), "order wire is invalid");
    let mut offline = claim_facts(claim_draw(1, 2));
    offline.fresh = Err("ledger down".to_string());
    assert_eq!(ask(&mut api, offline).unwrap_err(), "ledger down");
    let mut moved = claim_facts(claim_draw(1, 2));
    if let Ok(fresh) = moved.fresh.as_mut() {
        fresh.context.root_afterwards = [0; 32];
    }
    assert_eq!(
        ask(&mut api, moved).unwrap_err(),
        "claim authorization reserve reads crossed canonical generations"
    );
    assert!(matches!(
        api.journal.saved_claim_authorizations(&[32; 32], 3),
        Ok(None)
    ));
    let key = claim_authorization_record_id(&[32; 32], 3);
    assert_eq!(
        ask(&mut api, claim_facts(claim_draw(1, 2))),
        Ok(key.clone())
    );
    // A retry needs neither the ledger nor new signers.
    let mut retry = claim_facts(claim_draw(5, 6));
    retry.fresh = Err("ledger down".to_string());
    assert_eq!(ask(&mut api, retry), Ok(key));
    let mut other = claim_facts(claim_draw(5, 6));
    other.view = [89; 32];
    assert_eq!(
        ask(&mut api, other).unwrap_err(),
        "stored claim authorization signer is inconsistent"
    );
    match api.journal.saved_claim_authorizations(&[32; 32], 3) {
        Ok(Some(saved)) => assert_eq!(saved.first.key_fingerprint, [1; 32]),
        _ => panic!("the first signers are kept"),
    }
}

#[test]
fn a_reserved_generation_is_kept() {
    let mut journal = journal();
    let after = reserve().request.after;
    assert!(journal
        .save_reserved_witness(&reserve(), &after, &after)
        .is_ok());
    let funding = journal.latest_funding(config()).ok().unwrap();
    assert_eq!(funding.facility_values, [80, 47, 3]);
    assert_eq!(
        journal
            .save_reserved_witness(&reserve(), &after, &[[0; 32]; 3])
            .unwrap_err(),
        "two different corporate funding witnesses name the same canonical generation"
    );
}

#[test]
fn prepared_funding_moves_the_pump_on() {
    let read = |limit: u64| PreparationRead {
        authorization: Ok(authorization_facts()),
        funding: funding(),
        order: order(limit),
        source_note: None,
        built: Ok(built(0)),
        reserve: Ok(facts()),
    };
    let prepare = |journal: &mut NativeCorporateJournal, read: PreparationRead| {
        finish_preparation(journal, config(), "order-1", read)
    };
    let mut empty = journal();
    assert!(matches!(
        prepare(&mut empty, read(40)),
        PumpEvent::PreparationFailed
    ));
    let mut journal = journal();
    assert!(journal.save_intent("order-1", intent()).is_ok());
    assert!(matches!(
        prepare(&mut journal, read(40)),
        PumpEvent::PreparationFailed
    ));
    let known = Ok(authorization_facts());
    assert!(journal
        .save_authorization("order-1", authorization(), &config(), &known, &known)
        .is_ok());
    assert!(matches!(
        prepare(&mut journal, read(41)),
        PumpEvent::PreparationLacksFunds
    ));
    let mut moved = read(40);
    moved.funding.chain_root = [0; 32];
    assert!(matches!(
        prepare(&mut journal, moved),
        PumpEvent::PreparationFailed
    ));
    let mut elsewhere = read(40);
    elsewhere.built = Ok(built(1));
    assert!(matches!(
        prepare(&mut journal, elsewhere),
        PumpEvent::PreparationFailed
    ));
    let mut derived = read(40);
    derived.reserve = Err("order wire is invalid".to_string());
    assert!(matches!(
        prepare(&mut journal, derived),
        PumpEvent::PreparationFailed
    ));
    assert!(matches!(journal.reserve("order-1"), Ok(None)));
    assert!(matches!(
        prepare(&mut journal, read(40)),
        PumpEvent::Prepared
    ));
    match journal.reserve("order-1") {
        Ok(Some(kept)) => assert_eq!(kept.facility_after.values, [80, 47, 3]),
        _ => panic!("the reserve is on record"),
    }
}

#[test]
fn preparation_starts_from_the_newest_funding() {
    let mut journal = journal();
    assert!(journal.save_intent("order-1", intent()).is_ok());
    let known = Ok(authorization_facts());
    assert!(journal
        .save_authorization("order-1", authorization(), &config(), &known, &known)
        .is_ok());
    let mut newer = config();
    newer.facility_values = [60, 67, 3];
    let witness = FacilityWitness {
        facility_id: [4; 32],
        sequence: 4,
        values: newer.facility_values,
        blindings: newer.facility_blindings,
    };
    let committed = [[41; 32], [42; 32], [43; 32]];
    assert!(journal
        .save_funding_witness(witness, &committed, &committed)
        .is_ok());
    let read = PreparationRead {
        authorization: Ok(authorization_facts()),
        funding: funding(),
        order: order(40),
        source_note: None,
        built: Ok(built(0)),
        reserve: Ok(facts()),
    };
    assert!(matches!(
        finish_preparation(&mut journal, config(), "order-1", read),
        PumpEvent::Prepared
    ));
    match journal.reserve("order-1") {
        Ok(Some(kept)) => assert_eq!(kept.facility_after.values, [20, 107, 3]),
        _ => panic!("the reserve is on record"),
    }
}

#[test]
fn a_delivery_needs_seven_keys() {
    let keys = delivery_keys(&cluster()).unwrap();
    assert_eq!(keys.len(), 7);
    assert_eq!(keys[6], vec![7; 32]);
    let mut six = cluster();
    six.nodes.pop();
    assert_eq!(
        delivery_keys(&six).unwrap_err(),
        "cluster must have seven node keys"
    );
}

#[test]
fn secrets_are_made_of_what_was_drawn() {
    let wide = |first: u8| {
        let mut bytes = vec![0u8; 64];
        bytes[0] = first;
        Ok(bytes)
    };
    let draws = || ReserveDraws {
        order_authorization_salt: Ok(vec![16; 32]),
        reserve_blinding: wide(20),
        reserve_reblinding: wide(22),
        side_blinding: Ok(vec![255; 64]),
    };
    let secrets = ReserveSecrets::from_draws(draws()).ok().unwrap();
    assert_eq!(secrets.order_authorization_salt, [16; 32]);
    assert_eq!(secrets.reserve_blinding, scalar(20));
    assert_eq!(secrets.reserve_reblinding, scalar(22));
    assert_eq!(
        secrets.side_blinding,
        Scalar::from_bytes_mod_order_wide(&[255; 64]).to_bytes()
    );
    // The group order itself is reduced to zero.
    let mut order = (-Scalar::ONE).to_bytes().to_vec();
    order[0] += 1;
    order.resize(64, 0);
    let mut zero = draws();
    zero.reserve_blinding = Ok(order);
    assert_eq!(
        ReserveSecrets::from_draws(zero).ok().unwrap().reserve_blinding,
        [0; 32]
    );
    let mut silent = draws();
    silent.reserve_reblinding = Err("no entropy".to_string());
    silent.side_blinding = Err("later".to_string());
    assert_eq!(
        ReserveSecrets::from_draws(silent).err(),
        Some("no entropy".to_string())
    );
    let mut short = draws();
    short.order_authorization_salt = Ok(vec![16; 31]);
    assert_eq!(
        ReserveSecrets::from_draws(short).err(),
        Some("random source returned another number of bytes".to_string())
    );
}

#[test]
fn the_newest_witness_is_carried_over_a_reopen() {
    let witness = |sequence: u64, available: u64| FacilityWitness {
        facility_id: [4; 32],
        sequence,
        values: [available, 0, 0],
        blindings: [scalar(7), scalar(8), scalar(9)],
    };
    let committed = [[1; 32], [2; 32], [3; 32]];
    let mut journal = journal();
    assert!(journal.newest_witness(&[4; 32]).ok().unwrap().is_none());
    for (sequence, available) in [(9, 90), (11, 110), (10, 100)] {
        assert!(journal
            .save_funding_witness(witness(sequence, available), &committed, &committed)
            .is_ok());
    }
    let newest = |journal: &NativeCorporateJournal| {
        let found = journal.newest_witness(&[4; 32]).ok().unwrap().unwrap();
        (found.sequence, found.values[0])
    };
    assert_eq!(newest(&journal), (11, 110));
    let mut reopened = NativeCorporateJournal::load(
        &[9; 32],
        b"config",
        &cluster(),
        b"cluster",
        journal.into_records(),
    )
    .ok()
    .unwrap();
    assert_eq!(newest(&reopened), (11, 110));
    let carried = reopened.latest_funding(config()).ok().unwrap();
    assert_eq!(carried.facility_values, [110, 0, 0]);
    assert_eq!(carried.facility_blindings, [scalar(7), scalar(8), scalar(9)]);
    assert!(reopened.newest_witness(&[5; 32]).ok().unwrap().is_none());
    assert!(reopened
        .save_funding_witness(witness(11, 111), &[[9; 32]; 3], &committed)
        .is_err());
    assert_eq!(newest(&reopened), (11, 110));
}

#[test]
fn an_intake_keeps_the_reserve_of_its_intent() {
    let made = |source_index: usize| IntakeRead {
        read: ReserveRead {
            scope: scope(),
            manifest: [77; 32],
            root: [60; 32],
            chain_root: [60; 32],
            facility: facility(4, [[41; 32], [42; 32], [43; 32]]),
            notes: vec![note(4, 40, false), note(5, 90, false)],
        },
        terms: mandate_terms(),
        mandate_wire: vec![37; 12],
        order: order(40),
        secrets: secrets(),
        built: Ok(built(source_index)),
    };
    let mut journal = journal();
    let prepare = |journal: &mut NativeCorporateJournal,
                   digest: u8,
                   note: Option<Digest32>,
                   at: usize| {
        journal.prepare_intake(config(), "order-1", &[digest; 32], &note, made(at), 100)
    };
    assert_eq!(
        prepare(&mut journal, 14, None, 0).unwrap_err(),
        "corporate intake does not wait for a reserve"
    );
    assert!(journal.save_intent("order-1", intent()).is_ok());
    assert_eq!(
        prepare(&mut journal, 15, None, 0).unwrap_err(),
        "corporate request ID names a different order instruction"
    );
    assert_eq!(
        prepare(&mut journal, 14, Some([6; 32]), 0).unwrap_err(),
        "corporate wallet has no sufficient selected unspent funding note"
    );
    assert_eq!(
        prepare(&mut journal, 14, Some([5; 32]), 0).unwrap_err(),
        "canonical funding changed; rebuild the same request before submission"
    );
    assert!(matches!(journal.reserve("order-1"), Ok(None)));
    prepare(&mut journal, 14, Some([5; 32]), 1).unwrap();
    match journal.reserve("order-1") {
        Ok(Some(kept)) => {
            assert_eq!(kept.order_wire, intent().order_wire);
            assert_eq!(kept.signing_key, intent().signing_key);
            assert_eq!(kept.request.mandate.valid_from, 100);
            assert_eq!(kept.facility_after.values, [80, 47, 3]);
            assert!(kept.validate(&config(), &Ok(facts())).is_ok());
        }
        _ => panic!("the reserve is on record"),
    }
    assert_eq!(
        prepare(&mut journal, 14, Some([5; 32]), 1).unwrap_err(),
        "corporate intake does not wait for a reserve"
    );
}
