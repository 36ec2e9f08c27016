//! A node's store, its party executor, and the edge that talks to it.

use ed25519_dalek::SigningKey;
use oclob_node::bytes::Digest32;
use oclob_node::edge_client::{
    check_capability_release, check_round_request, collect_order_certificate,
    collect_threshold_capability_release, collect_votes, enough_releases, execute_agreed_round,
    finalize_agreed_private_state, next_order_request, retry_execution, AgreedRoundExecution,
    EdgeAdmissionReceipt, EdgeClientError, EdgeDelivery, EdgeDistributor, NodeAdmissionReceipt,
    PreparedEdgeDelivery, ReplyFailure, ThresholdCapabilityRelease,
};
use oclob_node::executor::{
    artifact_digest, is_bytecode_name, native_fill_execution, runtime_entry, wait_child,
    ArtifactFile, ChildStatus, ChildStep, DirectoryMade, EntryKind, FillDigests,
    NodeExecutionReceipt, PartyExecutionError, PartyExecutor, PartyRun, PersistenceHeader,
    RoundPlan, RuntimeEntry, WireLayout,
};
use oclob_node::store::{verify_private_state_file, OpenedShare, PrivateStateFile, RestingInput};
use oclob_node::store_file::{decode_store, encode_store, randless_nonce, ParsedStore, StoreFile};
use oclob_node::types::{
    ClusterNodePublic, ClusterPublicConfig, EdgeOrderManifest, MpcBatchResult, MpcSlotResult,
    OrderCertificate, OrderCommitment, PartyOrderShare, SealedCapabilityKeyShare, SealedPartyShare,
};
use oclob_node::{IngestOutcome, NodeError, NodeShareStore, PrivateStateFinality};
use sha2::{Digest, Sha256};

const NOW: u64 = 1_900_000_000;
const SLOTS: u16 = 4;

fn sha(parts: &[&[u8]]) -> Digest32 {
    let mut hash = Sha256::new();
    for part in parts {
        hash.update(part);
    }
    hash.finalize().into()
}

fn manifest(order: u8) -> EdgeOrderManifest {
    EdgeOrderManifest {
        market_id: "JGB10Y-JPY".to_string(),
        commitment: OrderCommitment([order; 32]),
        retention_deadline: 2_000_000_000,
        settlement_capability_commitment: [order + 1; 32],
        signer: [9; 32],
        body: vec![order],
    }
}

fn share(order: u8, party: u16) -> SealedPartyShare {
    SealedPartyShare {
        commitment: OrderCommitment([order; 32]),
        party,
        recipient: vec![party as u8; 32],
        ciphertext: vec![order, party as u8],
    }
}

fn key_share(order: u8, party: u16) -> SealedCapabilityKeyShare {
    SealedCapabilityKeyShare {
        order_commitment: OrderCommitment([order; 32]),
        capability_commitment: [order + 1; 32],
        party,
        recipient: vec![party as u8; 32],
        ciphertext: vec![order, party as u8, 7],
    }
}

fn opens(expected: bool) -> Result<(), String> {
    if expected {
        Ok(())
    } else {
        Err("share belongs to another party".to_string())
    }
}

fn store(party: u16) -> NodeShareStore {
    NodeShareStore::open(party, None, SLOTS).ok().unwrap().0
}

/// Writes a store and reads it back. The payload's own version decides.
fn reopen(store: NodeShareStore) -> NodeShareStore {
    let encoded = encode_store(b"{\"version\":5}").unwrap();
    let parsed = ParsedStore {
        state: Some(store.into_state()),
        legacy: None,
    };
    let (store, migrated) =
        NodeShareStore::open(0, Some(StoreFile { encoded, parsed }), SLOTS)
            .ok()
            .unwrap();
    assert!(!migrated);
    store
}

fn ingest(store: &mut NodeShareStore, order: u8, party: u16) -> Result<IngestOutcome, NodeError> {
    store.ingest(
        manifest(order),
        share(order, party),
        key_share(order, party),
        opens(party == 0),
        opens(party == 0),
        NOW,
    )
}

#[test]
fn each_store_accepts_only_its_ciphertext_and_survives_restart() {
    let mut store = store(0);
    assert_eq!(
        ingest(&mut store, 3, 0).unwrap(),
        IngestOutcome::Stored { generation: 1 }
    );
    assert_eq!(
        ingest(&mut store, 3, 0).unwrap(),
        IngestOutcome::AlreadyPresent { generation: 1 }
    );
    assert!(ingest(&mut store, 3, 1).is_err());
    assert_eq!(
        store
            .ingest(
                manifest(3),
                share(3, 2),
                key_share(3, 0),
                Ok(()),
                Ok(()),
                NOW
            )
            .unwrap_err(),
        NodeError::Conflict
    );
    let reopened = reopen(store);
    assert_eq!(reopened.status(&[0; 32]).record_count, 1);
}

fn decimals(first: u8) -> OpenedShare {
    OpenedShare {
        outcome: Ok(PartyOrderShare {
            decimals: [
                format!("{}1", first),
                format!("{}2", first),
                format!("{}3", first),
                format!("{}4", first),
                format!("{}5", first),
                format!("{}6", first),
            ],
        }),
    }
}

#[test]
fn node_builds_only_its_fixed_party_input_from_commitments() {
    let mut store = store(0);
    ingest(&mut store, 6, 0).unwrap();
    ingest(&mut store, 9, 0).unwrap();
    let at_hand = vec![RestingInput {
        opened: decimals(6),
        file: PrivateStateFile::Unbound,
    }];
    let prepared = store
        .prepare_round(
            "JGB10Y-JPY",
            &[OrderCommitment([6; 32])],
            &at_hand,
            &OrderCommitment([9; 32]),
            &decimals(9),
        )
        .ok()
        .unwrap();
    assert_eq!(prepared.party(), 0);
    assert_eq!(prepared.generation(), 2);
    let text = String::from_utf8(prepared.write_exclusive(false).unwrap().clone()).unwrap();
    assert_eq!(
        text.split_whitespace().count(),
        usize::from(SLOTS) * 4 + 4
    );
    assert_eq!(text, "1 61 62 63 0 0 0 0 0 0 0 0 0 0 0 0 91 92 93 96\n");
    assert!(!text.contains("JGB10Y-JPY"));
    assert!(!text.contains(&OrderCommitment([6; 32]).hex()));
    assert!(prepared.write_exclusive(true).is_err());
    let body = sha(&[
        b"OCLOB:NODE-ROUND:v1",
        &0u16.to_be_bytes(),
        &2u64.to_be_bytes(),
        &1u16.to_be_bytes(),
        &[6; 32],
        &[9; 32],
        &sha(&[text.as_bytes()]),
    ]);
    assert_eq!(prepared.round_commitment(), body);
    assert_eq!(
        store
            .prepare_round(
                "USD-JPY",
                &[OrderCommitment([6; 32])],
                &at_hand,
                &OrderCommitment([9; 32]),
                &decimals(9),
            )
            .err()
            .unwrap(),
        NodeError::Round("round market differs from the committed order market".to_string())
    );
    assert_eq!(
        store
            .prepare_round(
                "JGB10Y-JPY",
                &[OrderCommitment([9; 32])],
                &at_hand,
                &OrderCommitment([9; 32]),
                &decimals(9),
            )
            .err()
            .unwrap(),
        NodeError::Round("round market or order commitments are invalid".to_string())
    );
    assert_eq!(
        store
            .prepare_round(
                "JGB10Y-JPY",
                &[],
                &Vec::new(),
                &OrderCommitment([8; 32]),
                &decimals(8),
            )
            .err()
            .unwrap(),
        NodeError::UnknownOrder
    );
}

#[test]
fn corrupted_store_and_expired_records_fail_closed() {
    let mut store = store(0);
    ingest(&mut store, 12, 0).unwrap();
    assert_eq!(store.prune_expired(2_000_000_001).unwrap(), 1);
    assert_eq!(store.prune_expired(2_000_000_001).unwrap(), 0);
    let mut encoded = encode_store(b"{\"version\":5}").unwrap();
    encoded[20] ^= 1;
    let parsed = ParsedStore {
        state: Some(store.into_state()),
        legacy: None,
    };
    assert!(NodeShareStore::open(0, Some(StoreFile { encoded, parsed }), SLOTS).is_err());
}

#[test]
fn store_files_are_framed_exactly() {
    let encoded = encode_store(b"abc").unwrap();
    assert_eq!(&encoded[..8], b"OCLOBN01");
    assert_eq!(&encoded[8..16], &3u64.to_be_bytes());
    assert_eq!(&encoded[16..19], b"abc");
    assert_eq!(&encoded[19..], &sha(&[b"abc"]));
    assert_eq!(decode_store(&encoded).unwrap(), b"abc".to_vec());
    let state = |text: &str| NodeError::State(text.to_string());
    assert_eq!(
        decode_store(&encoded[..40]).unwrap_err(),
        state("node share store header is invalid")
    );
    let mut wrong = encoded.clone();
    wrong[0] = b'X';
    assert_eq!(
        decode_store(&wrong).unwrap_err(),
        state("node share store header is invalid")
    );
    let mut wrong = encoded.clone();
    wrong[15] = 4;
    assert_eq!(
        decode_store(&wrong).unwrap_err(),
        state("node share store length is invalid")
    );
    let mut wrong = encoded.clone();
    wrong[17] = b'x';
    assert_eq!(
        decode_store(&wrong).unwrap_err(),
        state("node share store checksum failed")
    );
    let digest = sha(&[b"abc"]);
    let mut head = [0u8; 8];
    head.copy_from_slice(&digest[..8]);
    assert_eq!(randless_nonce(b"abc"), u64::from_be_bytes(head));
}

#[test]
fn store_versions_are_read_from_the_payload() {
    let open = |payload: &[u8]| {
        let mut fresh = store(0);
        ingest(&mut fresh, 3, 0).unwrap();
        NodeShareStore::open(
            0,
            Some(StoreFile {
                encoded: encode_store(payload).unwrap(),
                parsed: ParsedStore {
                    state: Some(fresh.into_state()),
                    legacy: None,
                },
            }),
            SLOTS,
        )
    };
    assert!(open(b"{\"version\":5}").is_ok());
    assert!(open(b"not json").is_err());
    assert!(open(b"{\"version\":\"five\"}").is_err());
    assert!(open(b"{\"version\":99}").is_err());
    assert!(NodeShareStore::open(7, None, SLOTS).is_err());
    // A state of another version than its payload says is refused.
    let mut state = store(0).into_state();
    state.version = 4;
    let opened = NodeShareStore::open(
        0,
        Some(StoreFile {
            encoded: encode_store(b"{\"version\":5}").unwrap(),
            parsed: ParsedStore {
                state: Some(state),
                legacy: None,
            },
        }),
        SLOTS,
    );
    assert_eq!(
        opened.err().unwrap(),
        NodeError::State("node share store version is invalid".to_string())
    );
    let mut earlier = store(0).into_state();
    earlier.version = 4;
    let (store, migrated) = NodeShareStore::open(
        0,
        Some(StoreFile {
            encoded: encode_store(b"{\"version\":4}").unwrap(),
            parsed: ParsedStore {
                state: Some(earlier),
                legacy: None,
            },
        }),
        SLOTS,
    )
    .ok()
    .unwrap();
    assert!(migrated);
    assert_eq!(store.state().version, 5);
}

#[test]
fn a_reopened_store_has_the_same_status() {
    let payload = b"{\"version\":5}";
    let mut fresh = store(0);
    ingest(&mut fresh, 3, 0).unwrap();
    let before = fresh.status(payload);
    assert_eq!(before.state_digest, sha(&[payload]));
    assert_eq!((before.party, before.generation, before.record_count), (0, 1, 1));
    let reopened = reopen(fresh);
    let after = reopened.status(payload);
    assert_eq!(before, after);
    let encoded = encode_store(payload).unwrap();
    let parsed = ParsedStore {
        state: Some(reopened.into_state()),
        legacy: None,
    };
    assert!(NodeShareStore::open(1, Some(StoreFile { encoded, parsed }), SLOTS).is_err());
    for at in 0..encode_store(payload).unwrap().len() {
        let mut changed = encode_store(payload).unwrap();
        changed[at] ^= 1;
        assert!(decode_store(&changed).is_err());
    }
}

fn certificate(order: u8, sequence: u64, previous: Digest32) -> OrderCertificate {
    OrderCertificate {
        market_id: "JGB10Y-JPY".to_string(),
        sequence,
        commitment: OrderCommitment([order; 32]),
        previous_certificate: previous,
        expires_at: NOW + 100,
        voters: vec![0, 1, 2, 3, 4],
        digest: [order + 100; 32],
    }
}

fn plan(order: u8, resting: Vec<OrderCommitment>) -> RoundPlan {
    RoundPlan::sign(
        certificate(order, 1, [0; 32]),
        resting,
        NOW,
        NOW + 100,
        &[3; 32],
        SLOTS,
    )
    .unwrap()
}

fn result(matched: bool, remaining: u64) -> MpcBatchResult {
    let mut slots = vec![
        MpcSlotResult {
            matched: false,
            trade_price: 0,
            trade_quantity: 0
        };
        usize::from(SLOTS)
    ];
    if matched {
        slots[0] = MpcSlotResult {
            matched: true,
            trade_price: 100,
            trade_quantity: 40,
        };
    }
    MpcBatchResult {
        slots,
        arriving_remaining: remaining,
        output_digest: [if matched { 77 } else { 78 }; 32],
    }
}

fn completed(
    store: &NodeShareStore,
    plan: &RoundPlan,
    result: MpcBatchResult,
    parent: Digest32,
    state: Digest32,
) -> NodeExecutionReceipt {
    NodeExecutionReceipt {
        version: 1,
        party: 0,
        round_id: plan.round_id,
        generation: store.status(&[0; 32]).generation,
        round_commitment: [34; 32],
        program_sha256: [35; 32],
        artifact_sha256: [36; 32],
        private_parent_digest: parent,
        private_state_sha256: state,
        public_output_sha256: result.output_digest,
        result,
        execution_ms: 1,
        signer: [38; 32],
        signature: vec![39; 64],
    }
}

#[test]
fn capability_key_share_is_released_only_after_an_authorized_completed_round() {
    let mut store = store(0);
    ingest(&mut store, 31, 0).unwrap();
    let resting = OrderCommitment([31; 32]);
    let resting_plan = plan(31, vec![]);
    assert_eq!(
        store
            .release_capability_key_share(&resting_plan, &resting, Ok(5u8))
            .unwrap_err(),
        NodeError::Release("matching round is not complete".to_string())
    );
    let receipt = completed(&store, &resting_plan, result(false, 40), [37; 32], [40; 32]);
    store.record_completed_round(receipt).unwrap();
    let (released, output) = store
        .release_capability_key_share(&resting_plan, &resting, Ok(5u8))
        .unwrap();
    assert_eq!(released, 5);
    assert_eq!(output, [78; 32]);
    ingest(&mut store, 40, 0).unwrap();
    let ioc_plan = plan(40, vec![resting]);
    let receipt = completed(&store, &ioc_plan, result(false, 0), [46; 32], [49; 32]);
    store.record_completed_round(receipt).unwrap();
    assert_eq!(
        store
            .release_capability_key_share(&ioc_plan, &OrderCommitment([40; 32]), Ok(5u8))
            .unwrap_err(),
        NodeError::Release("public MPC result does not authorize capability release".to_string())
    );
}

#[test]
fn ordering_vote_and_certificate_chain_survive_restart() {
    let mut store = store(0);
    ingest(&mut store, 21, 0).unwrap();
    ingest(&mut store, 24, 0).unwrap();
    let vote = |store: &mut NodeShareStore, order: u8, sequence: u64, previous: Digest32| {
        store.record_order_vote(
            "JGB10Y-JPY",
            sequence,
            OrderCommitment([order; 32]),
            previous,
            NOW + 100,
            [order; 32],
            NOW,
        )
    };
    vote(&mut store, 21, 1, [0; 32]).unwrap();
    assert!(vote(&mut store, 24, 1, [0; 32]).is_err());
    store
        .accept_order_certificate(&certificate(21, 1, [0; 32]), Ok(()), &[21; 32], NOW)
        .unwrap();
    assert_eq!(store.status(&[0; 32]).ordering_sequence, 1);
    assert_eq!(store.status(&[0; 32]).ordering_head, [121; 32]);
    let mut reopened = reopen(store);
    assert_eq!(reopened.status(&[0; 32]).ordering_head, [121; 32]);
    vote(&mut reopened, 24, 2, [121; 32]).unwrap();
    reopened
        .accept_order_certificate(&certificate(24, 2, [121; 32]), Ok(()), &[24; 32], NOW)
        .unwrap();
    assert_eq!(reopened.status(&[0; 32]).ordering_sequence, 2);
    assert_eq!(reopened.status(&[0; 32]).ordering_head, [124; 32]);
    assert_eq!(
        reopened
            .accept_order_certificate(
                &certificate(24, 2, [121; 32]),
                Err("too few votes".to_string()),
                &[24; 32],
                NOW
            )
            .unwrap_err(),
        NodeError::OrderingState("too few votes".to_string())
    );
}

fn private_state(bytes: &[u8], count: usize) -> PrivateStateFile {
    PrivateStateFile::Present {
        regular: true,
        length: bytes.len() as u64,
        bytes: bytes.to_vec(),
        shares: Ok((0..count).map(|i| Ok(format!("{}", i))).collect()),
    }
}

#[test]
fn private_state_advances_with_finality_and_feeds_the_next_round() {
    let mut store = store(0);
    ingest(&mut store, 21, 0).unwrap();
    ingest(&mut store, 24, 0).unwrap();
    let first = OrderCommitment([21; 32]);
    let plan = plan(24, vec![first]);
    let parent = store.private_parent_digest(&[first], &OrderCommitment([24; 32]));
    let state = sha(&[b"state"]);
    let receipt = completed(&store, &plan, result(true, 7), parent, state);
    store.record_completed_round(receipt).unwrap();
    let mut finality = PrivateStateFinality {
        round_id: plan.round_id,
        public_output_sha256: [77; 32],
        transition_digest: [61; 32],
        canonical_receipt_digest: [62; 32],
        canonical_height: 5,
    };
    let fault = |text: &str| NodeError::PrivateState(text.to_string());
    let mut early = finality;
    early.canonical_height = 0;
    assert_eq!(
        store
            .finalize_private_round(&plan, &early, &private_state(b"state", 20))
            .unwrap_err(),
        fault("canonical finality binding is incomplete")
    );
    assert_eq!(
        store
            .finalize_private_round(&plan, &finality, &private_state(b"other", 20))
            .unwrap_err(),
        fault("party-local private state digest changed")
    );
    assert_eq!(
        store
            .finalize_private_round(&plan, &finality, &private_state(b"state", 19))
            .unwrap_err(),
        fault("private state contains 19 shares; expected 20")
    );
    let generation = store
        .finalize_private_round(&plan, &finality, &private_state(b"state", 20))
        .unwrap();
    assert_eq!(store.status(&[0; 32]).private_head_count, 2);
    assert_eq!(
        store
            .finalize_private_round(&plan, &finality, &private_state(b"state", 20))
            .unwrap(),
        generation
    );
    finality.canonical_height = 6;
    assert_eq!(
        store
            .finalize_private_round(&plan, &finality, &private_state(b"state", 20))
            .unwrap_err(),
        NodeError::Conflict
    );
    // The next round takes both orders from the private state.
    ingest(&mut store, 27, 0).unwrap();
    let at_hand = vec![
        RestingInput {
            opened: decimals(2),
            file: private_state(b"state", 20),
        },
        RestingInput {
            opened: decimals(4),
            file: private_state(b"state", 20),
        },
    ];
    let prepared = store
        .prepare_round(
            "JGB10Y-JPY",
            &[first, OrderCommitment([24; 32])],
            &at_hand,
            &OrderCommitment([27; 32]),
            &decimals(9),
        )
        .ok()
        .unwrap();
    assert_eq!(
        String::from_utf8(prepared.contents.clone()).unwrap(),
        "0 1 2 3 16 17 18 19 0 0 0 0 0 0 0 0 91 92 93 96\n"
    );
    let reopened = reopen(store);
    assert_eq!(reopened.status(&[0; 32]).finalized_private_round_count, 1);
    assert!(verify_private_state_file(&private_state(b"state", 20), &state, SLOTS).is_ok());
    assert_eq!(
        verify_private_state_file(&PrivateStateFile::Unbound, &state, SLOTS).unwrap_err(),
        fault("private state root is not bound")
    );
}

#[test]
fn removing_an_order_and_errors_have_their_texts() {
    let mut store = store(0);
    ingest(&mut store, 21, 0).unwrap();
    assert!(store.remove_terminal(OrderCommitment([21; 32])).unwrap());
    assert!(!store.remove_terminal(OrderCommitment([21; 32])).unwrap());
    assert_eq!(
        NodeError::Admission("closed".to_string()).message(),
        "share admission failed: closed"
    );
    assert_eq!(
        NodeError::Conflict.message(),
        "another ciphertext already exists for the same order commitment"
    );
    assert_eq!(
        PartyExecutionError::PartyFailed(-9).message(),
        "MP-SPDZ party exited with status -9"
    );
    assert_eq!(
        PartyExecutionError::PartyFailed(120).message(),
        "MP-SPDZ party exited with status 120"
    );
}

fn round_certificate(voters: Vec<u16>) -> OrderCertificate {
    OrderCertificate {
        market_id: "JGB10Y-JPY".to_string(),
        sequence: 1,
        commitment: OrderCommitment([4; 32]),
        previous_certificate: [0; 32],
        expires_at: 1_060,
        voters,
        digest: [5; 32],
    }
}

fn quorum(certificate: &OrderCertificate) -> Result<(), String> {
    if certificate.voters.len() >= 5 {
        Ok(())
    } else {
        Err("quorum is incomplete".to_string())
    }
}

#[test]
fn round_plan_is_commitment_only_and_tamper_evident() {
    let plan = RoundPlan::sign(
        round_certificate(vec![0, 1, 2, 3, 4]),
        vec![OrderCommitment([1; 32]), OrderCommitment([2; 32])],
        1_000,
        1_060,
        &[3; 32],
        SLOTS,
    )
    .unwrap();
    plan.verify(1_030, SLOTS).unwrap();
    plan.verify_ordering(&quorum(&plan.ordering_certificate), 1_030, SLOTS)
        .unwrap();
    let encoded = format!("{:?}", plan);
    assert!(!encoded.contains("price"));
    assert!(!encoded.contains("quantity"));
    assert!(!encoded.contains("participant"));
    let mut tampered = plan;
    tampered.sequence += 1;
    assert!(tampered.verify(1_030, SLOTS).is_err());
}

#[test]
fn coordinator_cannot_make_a_four_vote_certificate_executable() {
    let mut certificate = round_certificate(vec![0, 1, 2, 3, 4]);
    certificate.voters.truncate(4);
    let plan = RoundPlan::sign(certificate, vec![], 1_000, 1_060, &[3; 32], SLOTS).unwrap();
    assert!(plan
        .verify_ordering(&quorum(&plan.ordering_certificate), 1_030, SLOTS)
        .is_err());
}

#[test]
fn round_plans_are_bounded_and_signed() {
    let sign = |resting: Vec<OrderCommitment>, issued, expires| {
        RoundPlan::sign(
            round_certificate(vec![0, 1, 2, 3, 4]),
            resting,
            issued,
            expires,
            &[3; 32],
            SLOTS,
        )
    };
    assert!(sign(vec![OrderCommitment([4; 32])], 1_000, 1_060).is_err());
    assert!(sign(vec![OrderCommitment([1; 32]); 2], 1_000, 1_060).is_err());
    assert!(sign(vec![], 1_000, 1_061).is_err());
    assert!(sign(vec![], 700, 1_001).is_err());
    let plan = sign(vec![], 1_000, 1_060).unwrap();
    assert_eq!(
        plan.coordinator,
        SigningKey::from_bytes(&[3; 32]).verifying_key().to_bytes()
    );
    assert!(plan.verify(999, SLOTS).is_err() && plan.verify(1_061, SLOTS).is_err());
    let mut forged = plan.clone();
    forged.signature[5] ^= 1;
    assert!(forged.verify(1_030, SLOTS).is_err());
}

fn hosts() -> String {
    (0..7).map(|i| format!("node-{}:5000\n", i)).collect()
}

#[test]
fn an_executor_pins_its_program_and_signs_receipts() {
    let files = || {
        vec![
            ArtifactFile {
                path: b"engine".to_vec(),
                contents: b"a".to_vec(),
            },
            ArtifactFile {
                path: b"schedule".to_vec(),
                contents: b"b".to_vec(),
            },
            ArtifactFile {
                path: b"code.bc".to_vec(),
                contents: b"c".to_vec(),
            },
        ]
    };
    let open = |program: &str, hosts: &str, source: &[u8], timeout| {
        PartyExecutor::open(
            0,
            program.to_string(),
            hosts.to_string(),
            timeout,
            [4; 32],
            source,
            b"source",
            &files(),
        )
    };
    let config = |r: Result<PartyExecutor, PartyExecutionError>| r.err().unwrap();
    assert_eq!(
        config(open("bad name", &hosts(), b"source", 5)),
        PartyExecutionError::Config
    );
    assert_eq!(
        config(open("match", "node:1\n", b"source", 5)),
        PartyExecutionError::Config
    );
    assert_eq!(
        config(open("match", &hosts(), b"source", 0)),
        PartyExecutionError::Config
    );
    assert_eq!(
        config(open("match", &hosts(), b"other", 5)),
        PartyExecutionError::ProgramMismatch
    );
    let executor = open("match", &hosts(), b"source", 5).ok().unwrap();
    let part = |text: &[u8]| {
        let mut out = (text.len() as u64).to_be_bytes().to_vec();
        out.extend_from_slice(text);
        out
    };
    assert_eq!(
        executor.artifact_sha256,
        sha(&[
            b"OCLOB:MP-SPDZ-ARTIFACT:v1",
            &part(b"engine"),
            &part(b"a"),
            &part(b"schedule"),
            &part(b"b"),
            &part(b"code.bc"),
            &part(b"c"),
        ])
    );
    assert!(artifact_digest(&Vec::new()).is_err());
    assert!(is_bytecode_name("match", "match-0.bc") && !is_bytecode_name("match", "other-0.bc"));
    let mut node = store(0);
    ingest(&mut node, 40, 0).unwrap();
    let round = plan(40, vec![]);
    let prepared = node
        .prepare_round(
            "JGB10Y-JPY",
            &[],
            &Vec::new(),
            &OrderCommitment([40; 32]),
            &decimals(9),
        )
        .ok()
        .unwrap();
    let execute = |run: PartyRun, program: &Digest32| {
        executor.execute(&prepared, &round, run, &layout(), program)
    };
    let outcome = result(false, 40);
    let done = execute(run(&outcome), &sha(&[b"source"])).ok().unwrap();
    let receipt = done.receipt;
    assert_eq!(receipt.private_state_sha256, sha(&[&STATE]));
    assert_eq!(done.state.digest, receipt.private_state_sha256);
    assert_eq!(done.state.slots.len(), 4);
    assert_eq!(done.state.slots[1].proof, vec![10, 11, 12, 4, 5]);
    receipt
        .verify(
            &round,
            0,
            &executor.verifying_key(),
            &sha(&[b"source"]),
            SLOTS,
        )
        .unwrap();
    assert_eq!(
        execute(run(&outcome), &sha(&[b"another"])).err().unwrap(),
        PartyExecutionError::Receipt
    );
    let fails = |change: u8| {
        let mut run = run(&outcome);
        match change {
            0 => run.engine = Err("engine is not pinned".to_string()),
            1 => run.round_directory = DirectoryMade::Exists,
            2 => run.round_directory = DirectoryMade::Symlink,
            3 => run.round_directory = DirectoryMade::Failed("full".to_string()),
            4 => run.started = Err(PartyExecutionError::UnsafePath),
            5 => run.status = ChildStatus::Failed(3),
            6 => run.status = ChildStatus::Running,
            7 => run.result = Err(PartyExecutionError::Output),
            8 => run.state = Err(PartyExecutionError::UnsafePath),
            9 => run.state_directory = DirectoryMade::Exists,
            10 => run.moved = Err(PartyExecutionError::Io("denied".to_string())),
            11 => run.header = None,
            12 => run.state = Ok(STATE[..11].to_vec()),
            _ => run.bound = vec![None],
        }
        execute(run, &sha(&[b"source"])).err().unwrap()
    };
    assert_eq!(
        fails(0),
        PartyExecutionError::Mpc("engine is not pinned".to_string())
    );
    assert_eq!(fails(1), PartyExecutionError::Replay);
    assert_eq!(fails(2), PartyExecutionError::UnsafePath);
    assert_eq!(fails(3), PartyExecutionError::Io("full".to_string()));
    assert_eq!(fails(4), PartyExecutionError::UnsafePath);
    assert_eq!(fails(5), PartyExecutionError::PartyFailed(3));
    assert_eq!(fails(6), PartyExecutionError::Timeout);
    assert_eq!(fails(7), PartyExecutionError::Output);
    assert_eq!(fails(8), PartyExecutionError::UnsafePath);
    assert_eq!(fails(9), PartyExecutionError::Replay);
    assert_eq!(fails(10), PartyExecutionError::Io("denied".to_string()));
    for change in 11..14 {
        assert_eq!(fails(change), PartyExecutionError::Output);
    }
    let elsewhere = PartyExecutor {
        party: 1,
        program: "match".to_string(),
        hosts: hosts(),
        timeout_nanos: 5,
        signing_key: [4; 32],
        program_sha256: [1; 32],
        artifact_sha256: [2; 32],
    };
    assert_eq!(
        elsewhere
            .execute(&prepared, &round, run(&outcome), &layout(), &[1; 32])
            .err()
            .unwrap(),
        PartyExecutionError::PartyBinding
    );
    let mut changed = receipt.clone();
    changed.result.arriving_remaining += 1;
    assert!(changed
        .verify(
            &round,
            0,
            &executor.verifying_key(),
            &sha(&[b"source"]),
            SLOTS
        )
        .is_err());
}

#[test]
fn private_state_is_cut_into_signed_slots() {
    let executor = PartyExecutor {
        party: 2,
        program: "match".to_string(),
        hosts: hosts(),
        timeout_nanos: 5,
        signing_key: [4; 32],
        program_sha256: [1; 32],
        artifact_sha256: [2; 32],
    };
    let layout = WireLayout {
        match_slots: 2,
        book_wires: 1,
        proof_wires_per_fill: 2,
        persistence_wires: 5,
    };
    let header = PersistenceHeader {
        data_offset: 3,
        element_bytes: 1,
    };
    let bytes = [10u8, 11, 12, 1, 2, 3, 4, 5];
    let mut outcome = result(true, 0);
    outcome.slots.truncate(2);
    let bound = vec![
        Some(FillDigests {
            open: [21; 32],
            closing: [22; 32],
        }),
        None,
    ];
    let state = executor
        .retain_private_state(&bytes, &Some(header), &layout, &[6; 32], &outcome, &bound)
        .ok()
        .unwrap();
    assert_eq!(state.digest, sha(&[&bytes]));
    assert_eq!(state.slots[0].proof, vec![10, 11, 12, 2, 3]);
    assert_eq!(state.slots[1].proof, vec![10, 11, 12, 4, 5]);
    let fill = state.slots[0].metadata.native_fill.unwrap();
    assert!(fill.taker_may_close && fill.digest == [22; 32]);
    assert!(state.slots[1].metadata.native_fill.is_none());
    assert!(state.slots[0]
        .metadata
        .verify_signature(&executor.verifying_key()));
    assert!(!state.slots[0].metadata.verify_signature(&[9; 32]));
    assert!(executor
        .retain_private_state(&bytes[..7], &Some(header), &layout, &[6; 32], &outcome, &bound)
        .is_err());
    outcome.arriving_remaining = 1;
    let fill = native_fill_execution(&outcome, 0, &bound[0]).unwrap();
    assert!(!fill.taker_may_close && fill.digest == [21; 32]);
}

#[test]
fn a_party_gets_its_own_key_and_public_certificates() {
    let entry = |name: &str, kind, target: Option<&str>| {
        runtime_entry(
            name.as_bytes(),
            3,
            kind,
            1,
            target.map(|text| text.as_bytes()),
        )
    };
    assert_eq!(
        entry("P3.key", EntryKind::File, None).unwrap(),
        RuntimeEntry::Private
    );
    assert_eq!(
        entry("P4.key", EntryKind::File, None).unwrap(),
        RuntimeEntry::Skip
    );
    assert_eq!(
        entry("P4.pem", EntryKind::File, None).unwrap(),
        RuntimeEntry::Public
    );
    assert_eq!(
        entry("abc.0", EntryKind::Symlink, Some("P4.pem")).unwrap(),
        RuntimeEntry::Public
    );
    assert!(entry("abc.0", EntryKind::Symlink, Some("secret")).is_err());
    assert!(entry("P3.key", EntryKind::Symlink, Some("P3.pem")).is_err());
    assert_eq!(
        wait_child(ChildStatus::Running, true),
        ChildStep::Poll
    );
    assert_eq!(
        wait_child(ChildStatus::Running, false),
        ChildStep::Kill
    );
    assert_eq!(
        wait_child(ChildStatus::Failed(3), false),
        ChildStep::Report(3)
    );
    assert_eq!(
        wait_child(ChildStatus::Succeeded, false),
        ChildStep::Finish
    );
}

fn cluster() -> ClusterPublicConfig {
    ClusterPublicConfig {
        market_id: "JGB10Y-JPY".to_string(),
        program: "oclob_match_v1".to_string(),
        settlement_release_threshold: 3,
        nodes: (0..7u16)
            .map(|party| ClusterNodePublic {
                party,
                share_encryption_key: vec![party as u8; 32],
                receipt_verifying_key: SigningKey::from_bytes(&[party as u8 + 51; 32])
                    .verifying_key()
                    .to_bytes(),
            })
            .collect(),
        fault: None,
    }
}

fn acknowledged(party: u16) -> NodeAdmissionReceipt {
    NodeAdmissionReceipt {
        party,
        order_commitment: OrderCommitment([3; 32]),
        manifest_signer: [9; 32],
        order_share_digest: [party as u8 + 1; 32],
        capability_key_share_digest: [party as u8 + 11; 32],
        generation: u64::from(party) + 1,
        state_digest: [4; 32],
        signer: [5; 32],
        signature: vec![6; 64],
    }
}

fn delivery() -> PreparedEdgeDelivery {
    PreparedEdgeDelivery {
        manifest: manifest(3),
        deliveries: (0..7u16)
            .map(|party| EdgeDelivery {
                party,
                share: share(3, party),
                key: key_share(3, party),
                share_digest: [party as u8 + 1; 32],
                key_digest: [party as u8 + 11; 32],
            })
            .collect(),
    }
}

type Replies = Vec<Result<NodeAdmissionReceipt, ReplyFailure>>;

fn replies() -> Replies {
    (0..7u16).map(|party| Ok(acknowledged(party))).collect()
}

fn fan_out(sent: &PreparedEdgeDelivery, got: Replies) -> Result<EdgeAdmissionReceipt, EdgeClientError> {
    let edge = EdgeDistributor::new(cluster(), 5).ok().unwrap();
    edge.submit_prepared(sent, Some(true), got, Some(true), &vec![true; 7])
}

fn admitted() -> EdgeAdmissionReceipt {
    fan_out(&delivery(), replies()).unwrap()
}

#[test]
fn a_receipt_needs_all_seven_nodes() {
    assert_eq!(
        EdgeDistributor::new(cluster(), 0).err().unwrap(),
        EdgeClientError::Configuration
    );
    assert!(EdgeDistributor::new(cluster(), 120_000_000_001).is_err());
    assert!(EdgeDistributor::new(cluster(), 120_000_000_000).is_ok());
    let mut broken = cluster();
    broken.fault = Some("bad cluster".to_string());
    assert_eq!(
        EdgeDistributor::new(broken, 5).err().unwrap().message(),
        "bad cluster"
    );
    let receipt = admitted();
    assert_eq!(receipt.node_generations, [1, 2, 3, 4, 5, 6, 7]);
    assert_eq!(receipt.node_receipts[0].party, 0);
    assert_eq!(receipt.node_receipts[6].party, 6);
    assert!(receipt.verify(&cluster(), true, &vec![true; 7]).is_ok());
    assert_eq!(
        receipt
            .verify(&cluster(), false, &vec![true; 7])
            .unwrap_err(),
        EdgeClientError::Receipt
    );
    let mut one_bad = vec![true; 7];
    one_bad[4] = false;
    assert!(receipt.verify(&cluster(), true, &one_bad).is_err());
    let mut changed = receipt.clone();
    changed.node_generations[2] += 1;
    assert!(changed.verify(&cluster(), true, &vec![true; 7]).is_err());
}

#[test]
fn a_partial_fan_out_is_not_admitted() {
    let mut six = replies();
    six.pop();
    assert_eq!(fan_out(&delivery(), six).unwrap_err(), EdgeClientError::Receipt);
    let mut down = replies();
    down[1] = Err(ReplyFailure::Network("node down".to_string()));
    down[2] = Err(ReplyFailure::Panicked);
    assert_eq!(
        fan_out(&delivery(), down).unwrap_err().message(),
        "node down"
    );
    let mut worker = replies();
    worker[6] = Err(ReplyFailure::Panicked);
    assert_eq!(
        fan_out(&delivery(), worker).unwrap_err(),
        EdgeClientError::Worker
    );
    // A node acknowledged another ciphertext, or answered for another party.
    let mut other = replies();
    other[4].as_mut().unwrap().order_share_digest = [99; 32];
    assert_eq!(
        fan_out(&delivery(), other).unwrap_err(),
        EdgeClientError::Receipt
    );
    let mut twice = replies();
    twice[5] = Ok(acknowledged(4));
    assert_eq!(
        fan_out(&delivery(), twice).unwrap_err(),
        EdgeClientError::Receipt
    );
    // The delivery is checked before it is sent.
    let mut misdirected = delivery();
    misdirected.deliveries[2].share.recipient = vec![9; 32];
    assert_eq!(
        fan_out(&misdirected, replies()).unwrap_err(),
        EdgeClientError::Receipt
    );
    let mut short = delivery();
    short.deliveries.pop();
    assert_eq!(
        fan_out(&short, replies()).unwrap_err(),
        EdgeClientError::Receipt
    );
    let mut foreign = delivery();
    foreign.manifest.market_id = "OTHER".to_string();
    assert_eq!(
        fan_out(&foreign, replies()).unwrap_err(),
        EdgeClientError::Configuration
    );
    let edge = EdgeDistributor::new(cluster(), 5).ok().unwrap();
    let ask = |before, after, valid: &Vec<bool>| {
        edge.submit_prepared(&delivery(), before, replies(), after, valid)
            .err()
    };
    let all = vec![true; 7];
    assert_eq!(ask(Some(true), Some(true), &all), None);
    assert_eq!(
        ask(None, Some(true), &all),
        Some(EdgeClientError::Configuration)
    );
    assert_eq!(
        ask(Some(true), None, &all),
        Some(EdgeClientError::Configuration)
    );
    assert_eq!(
        ask(Some(false), Some(true), &all),
        Some(EdgeClientError::Receipt)
    );
    assert_eq!(
        ask(Some(true), Some(false), &all),
        Some(EdgeClientError::Receipt)
    );
    let mut forged = vec![true; 7];
    forged[3] = false;
    assert_eq!(
        ask(Some(true), Some(true), &forged),
        Some(EdgeClientError::Receipt)
    );
}

fn layout() -> WireLayout {
    WireLayout {
        match_slots: SLOTS,
        book_wires: 1,
        proof_wires_per_fill: 2,
        persistence_wires: 9,
    }
}

const STATE: [u8; 12] = [10, 11, 12, 1, 2, 3, 4, 5, 6, 7, 8, 9];

fn run(outcome: &MpcBatchResult) -> PartyRun {
    PartyRun {
        engine: Ok(()),
        round_directory: DirectoryMade::Made,
        started: Ok(()),
        status: ChildStatus::Succeeded,
        execution_ms: 12,
        result: Ok(outcome.clone()),
        state: Ok(STATE.to_vec()),
        state_directory: DirectoryMade::Made,
        moved: Ok(()),
        header: Some(PersistenceHeader {
            data_offset: 3,
            element_bytes: 1,
        }),
        bound: vec![None, None, None, None],
    }
}

fn signed_receipts(round: &RoundPlan, outcome: &MpcBatchResult) -> Vec<NodeExecutionReceipt> {
    (0..7u16)
        .map(|party| {
            let executor = PartyExecutor {
                party,
                program: "match".to_string(),
                hosts: hosts(),
                timeout_nanos: 5,
                signing_key: [party as u8 + 51; 32],
                program_sha256: [1; 32],
                artifact_sha256: [2; 32],
            };
            let mut node = NodeShareStore::open(party, None, SLOTS).ok().unwrap().0;
            node.ingest(
                manifest(40),
                share(40, party),
                key_share(40, party),
                Ok(()),
                Ok(()),
                NOW,
            )
            .unwrap();
            let prepared = node
                .prepare_round(
                    "JGB10Y-JPY",
                    &[],
                    &Vec::new(),
                    &OrderCommitment([40; 32]),
                    &decimals(9),
                )
                .ok()
                .unwrap();
            executor
                .execute(&prepared, round, run(outcome), &layout(), &[1; 32])
                .ok()
                .unwrap()
                .receipt
        })
        .collect()
}

fn agree(
    round: &RoundPlan,
    receipts: Vec<NodeExecutionReceipt>,
    now: Option<u64>,
) -> Result<AgreedRoundExecution, EdgeClientError> {
    let replies = receipts.into_iter().map(Ok).collect();
    execute_agreed_round(&cluster(), round, &Ok(()), now, 5, replies, &[1; 32], SLOTS)
}

#[test]
fn a_round_needs_seven_agreeing_receipts() {
    let round = plan(40, vec![]);
    let receipts = signed_receipts(&round, &result(false, 40));
    let agreed = agree(&round, receipts.clone(), Some(NOW)).ok().unwrap();
    assert_eq!(agreed.result, result(false, 40));
    let mut six = receipts.clone();
    six.pop();
    assert_eq!(
        agree(&round, six, Some(NOW)).err().unwrap(),
        EdgeClientError::Receipt
    );
    let mut other = receipts.clone();
    other[3] = signed_receipts(&round, &result(false, 39)).remove(3);
    assert_eq!(
        agree(&round, other, Some(NOW)).err().unwrap(),
        EdgeClientError::Receipt
    );
    for now in [None, Some(NOW + 101)] {
        assert_eq!(
            agree(&round, receipts.clone(), now).err().unwrap(),
            EdgeClientError::Configuration
        );
    }
    let mut down: Vec<_> = receipts.iter().cloned().map(Ok).collect();
    down[4] = Err(ReplyFailure::Panicked);
    let lost = execute_agreed_round(
        &cluster(),
        &round,
        &Ok(()),
        Some(NOW),
        5,
        down,
        &[1; 32],
        SLOTS,
    );
    assert_eq!(lost.err().unwrap(), EdgeClientError::Worker);
    let finality = PrivateStateFinality {
        round_id: round.round_id,
        public_output_sha256: [78; 32],
        transition_digest: [61; 32],
        canonical_receipt_digest: [62; 32],
        canonical_height: 5,
    };
    let told = |timeout, failed: Option<usize>| {
        let replies = (0..7)
            .map(|party| match failed {
                Some(at) if at == party => Err(ReplyFailure::Network("node down".to_string())),
                _ => Ok(party),
            })
            .collect();
        finalize_agreed_private_state(&cluster(), &agreed, &finality, timeout, replies)
    };
    assert_eq!(told(5, None).unwrap(), vec![0, 1, 2, 3, 4, 5, 6]);
    assert_eq!(told(0, None).unwrap_err(), EdgeClientError::Configuration);
    assert_eq!(told(5, Some(3)).unwrap_err().message(), "node down");
    assert!(check_round_request(&cluster(), &round, &Ok(()), Some(NOW), 5, SLOTS).is_ok());
    assert!(check_round_request(&cluster(), &round, &Ok(()), None, 5, SLOTS).is_err());
    assert!(retry_execution(true, Some(5), 6) && !retry_execution(true, Some(6), 6));
    assert!(!retry_execution(false, Some(5), 6) && !retry_execution(true, None, 6));
}

#[test]
fn votes_and_releases_are_counted_once_for_each_party() {
    let votes = collect_votes(vec![Some((4u16, 'd')), None, Some((1, 'a')), Some((4, 'x'))]);
    assert_eq!(votes, vec![(1, 'a'), (4, 'd'), (4, 'x')]);
    let certify = |previous: Option<&OrderCertificate>, order: u8, quorum: Result<(), String>| {
        collect_order_certificate(
            &cluster(),
            previous,
            OrderCommitment([order; 32]),
            NOW + 100,
            Some(NOW),
            5,
            vec![Some((4u16, 'e')), None, Some((0, 'a')), Some((2, 'c')), Some((1, 'b'))],
            [order + 5; 32],
            &quorum,
        )
    };
    // The certificate holds every vote that came, by ascending node.
    let (first, held) = certify(None, 3, Ok(())).unwrap();
    assert_eq!(held, vec![(0, 'a'), (1, 'b'), (2, 'c'), (4, 'e')]);
    assert_eq!(first.voters, vec![0, 1, 2, 4]);
    assert!(first.sequence == 1 && first.previous_certificate == [0; 32]);
    let (next, _) = certify(Some(&first), 4, Ok(())).unwrap();
    assert!(next.sequence == 2 && next.previous_certificate == [8; 32]);
    assert_eq!(
        certify(Some(&first), 4, Err("four votes".to_string())).unwrap_err(),
        EdgeClientError::OrderingQuorum
    );
    assert_eq!(
        certify(Some(&first), 3, Ok(())).unwrap_err(),
        EdgeClientError::Configuration
    );
    let request = next_order_request(
        &cluster(),
        Some(&first),
        &OrderCommitment([4; 32]),
        NOW + 100,
        Some(NOW),
        5,
    )
    .unwrap();
    assert!(request.sequence == 2 && request.previous_certificate == [8; 32]);
    let releases = enough_releases(
        &cluster(),
        vec![
            Some((5u16, 'e')),
            Some((1, 'a')),
            Some((5, 'f')),
            Some((3, 'c')),
        ],
    )
    .unwrap();
    assert_eq!(releases, vec![(1, 'a'), (3, 'c'), (5, 'e')]);
    assert_eq!(
        enough_releases(
            &cluster(),
            vec![Some((5u16, 'e')), Some((1, 'a')), Some((5, 'f'))]
        )
        .unwrap_err(),
        EdgeClientError::SettlementThreshold
    );
    let held = ThresholdCapabilityRelease::hold(releases, Some([7u8; 4])).ok().unwrap();
    assert_eq!(held.release_count(), 3);
    assert_eq!(held.releasing_parties(), vec![1, 3, 5]);
    assert_eq!(held.settlement_key(), &[7; 4]);
}

#[test]
fn a_release_is_asked_for_only_after_an_agreed_round() {
    let round = plan(40, vec![]);
    let agree = |outcome: MpcBatchResult| {
        let receipts = signed_receipts(&round, &outcome);
        self::agree(&round, receipts, Some(NOW)).ok().unwrap()
    };
    let rests = agree(result(false, 40));
    let ask = |execution, order: u8, now, timeout| {
        check_capability_release(
            &cluster(),
            &round,
            &Ok(()),
            execution,
            &manifest(order),
            true,
            &OrderCommitment([order; 32]),
            &[1; 32],
            now,
            timeout,
            SLOTS,
        )
    };
    assert_eq!(ask(&rests, 40, Some(NOW), 5), Ok([78; 32]));
    assert_eq!(
        ask(&rests, 40, Some(NOW), 0),
        Err(EdgeClientError::Configuration)
    );
    assert_eq!(
        ask(&rests, 40, None, 5),
        Err(EdgeClientError::Configuration)
    );
    // The plan is over, and the other order was not part of the round.
    assert_eq!(
        ask(&rests, 40, Some(NOW + 101), 5),
        Err(EdgeClientError::SettlementThreshold)
    );
    assert_eq!(
        ask(&rests, 41, Some(NOW), 5),
        Err(EdgeClientError::SettlementThreshold)
    );
    let collect = |execution, parties: &[u16], key: Option<u8>| {
        collect_threshold_capability_release(
            &cluster(),
            &round,
            &Ok(()),
            execution,
            &manifest(40),
            true,
            &OrderCommitment([40; 32]),
            &[1; 32],
            Some(NOW),
            5,
            SLOTS,
            parties.iter().map(|party| Some((*party, 'r'))).collect(),
            key,
        )
    };
    let held = collect(&rests, &[6, 2, 2, 0], Some(9)).ok().unwrap();
    assert_eq!(held.releasing_parties(), vec![0, 2, 6]);
    assert_eq!(held.settlement_key(), &9);
    for (parties, key) in [(&[6u16, 2, 2][..], Some(9)), (&[6, 2, 0][..], None)] {
        assert_eq!(
            collect(&rests, parties, key).err().unwrap(),
            EdgeClientError::SettlementThreshold
        );
    }
    // Nothing traded and nothing rests: nothing is released.
    let gone = agree(result(false, 0));
    assert_eq!(
        collect(&gone, &[6, 2, 0], Some(9)).err().unwrap(),
        EdgeClientError::SettlementThreshold
    );
    assert_eq!(
        ask(&gone, 40, Some(NOW), 5),
        Err(EdgeClientError::SettlementThreshold)
    );
}
