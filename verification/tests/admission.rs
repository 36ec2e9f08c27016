//! The private ingress and the deployment policy.

use oclob_node::corporate_expiry::ReleaseReason;
use oclob_node::deployment_policy::{
    initialize_fresh_state, marker_next_to, require_existing_state, require_proof_backend,
    require_same, verify_marker_bytes, DeploymentCryptoPolicy, MarkerFile, MarkerStep, PathState,
    PqcMode, ProofSecurity, ProtectedPath, STATE_POLICY_FILE,
};
use oclob_node::native_admission::{
    after_lookup, bounded_error, check_principals, check_request_length, role_of, serves_another,
    AdmissionAuthority, ApplicationReserveScope, AskedRelease, IngressAction, IngressRequest,
    PeerRole, Principal, ReserveStep,
};

fn scope() -> ApplicationReserveScope {
    ApplicationReserveScope {
        application_binding: [1; 32],
        venue_id: [2; 32],
        defmi_id: [3; 32],
        committee_key_digest: [4; 32],
        pq_committee_digest: [231; 32],
        committee_epoch: 1,
        amount_bits: 32,
    }
}

fn release() -> AskedRelease {
    AskedRelease {
        scope: scope(),
        reason: ReleaseReason::Expired,
        committee_public: Vec::new(),
        signature: Vec::new(),
        message_fault: None,
    }
}

fn chain(method: &str) -> IngressRequest {
    IngressRequest {
        method: "chain".to_string(),
        params: format!(
            "{{\"jsonrpc\":\"2.0\",\"id\":2,\"method\":\"{}\",\"params\":{{}}}}",
            method
        )
        .into_bytes(),
        reserve: Err("no reservation".to_string()),
        release: Err("expiry release is missing".to_string()),
    }
}

fn expiry(release: AskedRelease) -> IngressRequest {
    let mut request = chain("defmivm.issueApplicationNoteRelease");
    request.release = Ok(release);
    request
}

#[test]
fn ingress_allows_exact_pinned_read_method_but_not_governance_or_participant_writes() {
    let authority = AdmissionAuthority { scope: scope() };
    let mut seen = Vec::new();
    let mut dispatch = |role, request: &IngressRequest| {
        let outcome = authority.dispatch(role, request);
        if let Ok(IngressAction::Chain { method, .. }) = &outcome {
            seen.push(method.clone());
        }
        outcome
    };
    assert!(dispatch(
        PeerRole::Participant,
        &chain("defmivm.applicationNoteReservation")
    )
    .is_ok());
    for method in [
        "defmivm.applicationReservation",
        "defmivm.issueApplicationNoteFill",
        "defmivm.issueApplicationReserveScope",
        "defmivm.issueNote",
    ] {
        assert!(dispatch(PeerRole::Participant, &chain(method)).is_err());
    }
    assert!(dispatch(PeerRole::Coordinator, &chain("defmivm.issueNote")).is_err());
    for method in [
        "defmivm.issueApplicationNoteFill",
        "defmivm.issueApplicationNoteRelease",
        "defmivm.issueNoteClaimRedemption",
        "defmivm.issueApplicationReserveScope",
    ] {
        assert!(dispatch(PeerRole::Operator, &chain(method)).is_err());
    }
    assert!(dispatch(PeerRole::Operator, &chain("defmivm.txStatus")).is_ok());
    assert!(dispatch(PeerRole::Participant, &expiry(release())).is_ok());
    let mut wrong_scope = release();
    wrong_scope.scope.defmi_id = [99; 32];
    let mut cancellation = release();
    cancellation.reason = ReleaseReason::Cancelled;
    let mut signed_expiry = release();
    signed_expiry.signature = vec![1; 64];
    for invalid in [wrong_scope, cancellation, signed_expiry] {
        assert!(dispatch(PeerRole::Participant, &expiry(invalid)).is_err());
    }
    assert!(dispatch(PeerRole::Operator, &expiry(release())).is_err());
    assert!(dispatch(
        PeerRole::Participant,
        &chain("defmivm.issueApplicationNoteRelease")
    )
    .is_err());
    assert_eq!(
        seen,
        vec![
            "defmivm.applicationNoteReservation",
            "defmivm.txStatus",
            "defmivm.issueApplicationNoteRelease"
        ]
    );
}

#[test]
fn chain_envelopes_are_read_strictly() {
    let authority = AdmissionAuthority { scope: scope() };
    let ask = |params: &str| {
        let mut request = chain("");
        request.params = params.as_bytes().to_vec();
        authority.dispatch(PeerRole::Settlement, &request)
    };
    assert_eq!(ask("[]").unwrap_err(), "chain request must be an object");
    assert_eq!(
        ask("{\"jsonrpc\":\"2.0\"}").unwrap_err(),
        "chain request envelope is malformed"
    );
    assert_eq!(
        ask("{\"jsonrpc\":\"1.0\",\"id\":1,\"method\":\"m\",\"params\":{}}").unwrap_err(),
        "chain request envelope is malformed"
    );
    assert_eq!(
        ask("{\"jsonrpc\":\"2.0\",\"id\":\"1\",\"method\":\"m\",\"params\":{}}").unwrap_err(),
        "chain request ID is invalid"
    );
    assert_eq!(
        ask("{\"jsonrpc\":\"2.0\",\"id\":1,\"method\":5,\"params\":{}}").unwrap_err(),
        "chain method is invalid"
    );
    assert_eq!(
        ask("{\"jsonrpc\":\"2.0\",\"id\":1,\"method\":\"m\",\"other\":{}}").unwrap_err(),
        "chain params are missing"
    );
    assert_eq!(
        ask("{\"jsonrpc\":\"2.0\",\"id\":1,\"method\":\"m\",\"params\":{}}").unwrap_err(),
        "chain method is not authorized at the private ingress"
    );
    assert_eq!(
        ask("{\"jsonrpc\":\"2.0\",\"id\":7,\"method\":\"defmivm.issueApplicationNoteFillBatch\",\"params\":null}")
            .unwrap(),
        IngressAction::Chain {
            id: 7,
            method: "defmivm.issueApplicationNoteFillBatch".to_string()
        }
    );
}

#[test]
fn reservations_are_for_participants_of_this_deployment() {
    let authority = AdmissionAuthority { scope: scope() };
    let ask = |role, method: &str, params: &str, reserve| {
        authority.dispatch(
            role,
            &IngressRequest {
                method: method.to_string(),
                params: params.as_bytes().to_vec(),
                reserve,
                release: Err(String::new()),
            },
        )
    };
    assert_eq!(
        ask(PeerRole::Operator, "scope", "{}", Err(String::new())).unwrap(),
        IngressAction::Scope
    );
    assert_eq!(
        ask(PeerRole::Operator, "scope", "{\"a\":1}", Err(String::new())).unwrap_err(),
        "private ingress operation is not authorized"
    );
    assert_eq!(
        ask(PeerRole::Participant, "reserve", "{}", Ok(scope())).unwrap(),
        IngressAction::Reserve
    );
    assert_eq!(
        ask(PeerRole::Participant, "recover_reservation", "{}", Ok(scope())).unwrap(),
        IngressAction::Recover
    );
    assert_eq!(
        ask(PeerRole::Coordinator, "reserve", "{}", Ok(scope())).unwrap_err(),
        "private ingress operation is not authorized"
    );
    let mut other = scope();
    other.committee_epoch = 2;
    assert_eq!(
        ask(PeerRole::Participant, "reserve", "{}", Ok(other)).unwrap_err(),
        "reservation belongs to another issuer deployment"
    );
    assert_eq!(
        ask(PeerRole::Participant, "reserve", "{}", Err("unreadable".to_string())).unwrap_err(),
        "unreadable"
    );
    assert_eq!(after_lookup(false, true), ReserveStep::Answer);
    assert_eq!(after_lookup(true, false), ReserveStep::Refuse);
    assert_eq!(after_lookup(false, false), ReserveStep::Finalize);
}

#[test]
fn callers_are_known_and_bounded() {
    let principals = vec![
        Principal {
            certificate_sha256: [1; 32],
            role: PeerRole::Participant,
            application_key: [11; 32],
        },
        Principal {
            certificate_sha256: [2; 32],
            role: PeerRole::Operator,
            application_key: [12; 32],
        },
    ];
    assert_eq!(role_of(&principals, &[2; 32]).unwrap(), PeerRole::Operator);
    assert_eq!(
        role_of(&principals, &[3; 32]).unwrap_err(),
        "unknown private ingress principal"
    );
    assert_eq!(
        check_principals(&Vec::new()).unwrap_err(),
        "private ingress requires configured principals"
    );
    assert_eq!(
        check_principals(&vec![None, Some("zero key".to_string())]).unwrap_err(),
        "zero key"
    );
    assert!(check_principals(&vec![None, None]).is_ok());
    assert!(serves_another(15) && !serves_another(16));
    assert!(check_request_length(10, 10).is_ok());
    assert_eq!(
        check_request_length(11, 10).unwrap_err(),
        "private ingress request exceeds its wire bound"
    );
    let long = "é".repeat(600);
    assert_eq!(bounded_error(&long), "é".repeat(512));
    assert_eq!(bounded_error("short"), "short");
}

fn policy() -> DeploymentCryptoPolicy {
    DeploymentCryptoPolicy {
        version: 1,
        deployment_id: "oclob-unit-deployment".to_string(),
        mode: PqcMode::Off,
        encoded: Some(b"v1 oclob-unit-deployment off".to_vec()),
    }
}

fn marker(content: &[u8]) -> MarkerFile {
    MarkerFile {
        symlink: false,
        metadata_fault: None,
        is_file: true,
        length: content.len() as u64,
        mode: 0o100600,
        content: Ok(content.to_vec()),
    }
}

fn protected(state: PathState) -> Vec<ProtectedPath> {
    vec![ProtectedPath {
        path: "/state/shares.bin".to_string(),
        state,
    }]
}

#[test]
fn exact_policy_survives_restart_and_rejects_changes() {
    let off = policy();
    assert_eq!(
        initialize_fresh_state(
            &off,
            &None,
            false,
            &protected(PathState::Absent),
            &Some(PathState::Present)
        )
        .unwrap(),
        MarkerStep::Create
    );
    let written = Some(marker(&off.encoded.clone().unwrap()));
    require_existing_state(&off, &written).unwrap();
    assert_eq!(
        initialize_fresh_state(&off, &written, false, &Vec::new(), &None).unwrap(),
        MarkerStep::Verified
    );
    let mut changed = policy();
    changed.mode = PqcMode::On;
    changed.encoded = Some(b"v1 oclob-unit-deployment on".to_vec());
    assert!(require_existing_state(&changed, &written).is_err());
    let mut changed = policy();
    changed.deployment_id = "another-deployment".to_string();
    changed.encoded = Some(b"v1 another-deployment off".to_vec());
    let refused = "persisted deployment cryptographic policy does not match startup policy";
    assert_eq!(
        require_existing_state(&changed, &written).unwrap_err(),
        refused
    );
    assert_eq!(
        initialize_fresh_state(&changed, &written, false, &Vec::new(), &None).unwrap_err(),
        refused
    );
    let mut changed = policy();
    changed.mode = PqcMode::On;
    assert!(require_same(&off, &changed).is_err());
    let mut changed = policy();
    changed.deployment_id = "another-deployment".to_string();
    assert_eq!(
        require_same(&off, &changed).unwrap_err(),
        "deployment cryptographic policies do not match"
    );
    assert!(require_same(&off, &policy()).is_ok());
}

#[test]
fn policy_cannot_be_added_to_existing_state() {
    assert_eq!(
        initialize_fresh_state(
            &policy(),
            &None,
            false,
            &protected(PathState::Present),
            &Some(PathState::Present)
        )
        .unwrap_err(),
        "policy-less existing state at /state/shares.bin; explicit authenticated migration is required"
    );
    assert!(require_existing_state(&policy(), &None).is_err());
}

#[test]
fn markers_must_be_private_regular_files() {
    let expected = b"policy";
    let check = |change: u8| {
        let mut found = marker(expected);
        match change {
            1 => found.symlink = true,
            2 => found.is_file = false,
            3 => found.length = 0,
            4 => found.length = 513,
            5 => found.mode = 0o100640,
            6 => found.content = Err("read failed".to_string()),
            7 => found.metadata_fault = Some("stat failed".to_string()),
            _ => {}
        }
        verify_marker_bytes(&found, expected)
    };
    assert!(check(0).is_ok());
    assert_eq!(
        check(1).unwrap_err(),
        "deployment policy paths must not be symbolic links"
    );
    for change in 2..6 {
        assert_eq!(
            check(change).unwrap_err(),
            "deployment policy marker has unsafe type, size, or permissions"
        );
    }
    assert_eq!(check(6).unwrap_err(), "read failed");
    assert_eq!(check(7).unwrap_err(), "stat failed");
}

#[test]
fn post_quantum_mode_refuses_current_classical_proof_backend() {
    let off = policy();
    require_proof_backend(&off, ProofSecurity::Classical).unwrap();
    let mut on = off;
    on.mode = PqcMode::On;
    assert!(require_proof_backend(&on, ProofSecurity::Classical).is_err());
    require_proof_backend(&on, ProofSecurity::PostQuantum).unwrap();
}

#[test]
fn markers_stand_beside_their_state() {
    assert_eq!(STATE_POLICY_FILE, "deployment-crypto-policy.bin");
    assert_eq!(
        marker_next_to("/var/lib/oclob/shares.bin").unwrap(),
        "/var/lib/oclob/deployment-crypto-policy.bin"
    );
    assert_eq!(
        marker_next_to("/shares.bin").unwrap(),
        "/deployment-crypto-policy.bin"
    );
    for path in ["shares.bin", "", "/"] {
        assert_eq!(
            marker_next_to(path).unwrap_err(),
            "persistent state path has no parent"
        );
    }
}

#[test]
fn provisioning_refuses_links_and_missing_parents() {
    let fresh = |symlink, parent| {
        initialize_fresh_state(
            &policy(),
            &None,
            symlink,
            &protected(PathState::Absent),
            &parent,
        )
    };
    assert_eq!(
        fresh(true, Some(PathState::Present)).unwrap_err(),
        "deployment policy paths must not be symbolic links"
    );
    assert_eq!(
        fresh(false, Some(PathState::Symlink)).unwrap_err(),
        "deployment policy paths must not be symbolic links"
    );
    assert_eq!(
        fresh(false, None).unwrap_err(),
        "deployment policy marker has no parent"
    );
    let mut invalid = policy();
    invalid.encoded = None;
    assert_eq!(
        initialize_fresh_state(&invalid, &Some(marker(b"policy")), false, &Vec::new(), &None).unwrap_err(),
        "deployment cryptographic policy is invalid"
    );
    assert_eq!(
        require_existing_state(&invalid, &Some(marker(b"policy"))).unwrap_err(),
        "deployment cryptographic policy is invalid"
    );
    assert_eq!(
        initialize_fresh_state(
            &policy(),
            &None,
            false,
            &protected(PathState::Unreadable("denied".to_string())),
            &None
        )
        .unwrap_err(),
        "denied"
    );
}
