//! Market intake, its fixed records, its journal and its rounds.

use ed25519_dalek::{Signer, SigningKey};
use oclob_node::bytes::Digest32;
use oclob_node::edge_client::{
    AgreedRoundExecution, EdgeAdmissionReceipt, EdgeDistributor, NodeAdmissionReceipt, NodeReply,
    ReplyFailure,
};
use oclob_node::executor::{
    ChildStatus, DirectoryMade, NodeExecutionReceipt, PartyExecutor, PartyRun, PersistenceHeader,
    WireLayout,
};
use oclob_node::market_journal::{MarketBody, MarketBookEntry, MarketCompletedRound, MarketJournal};
use oclob_node::market_network::{
    check_market_peer, check_participant, endpoint_digest, handoff_record, read_record,
    write_record, Acknowledgement, IngressFacts, MarketEndpoint, MarketIngress, MarketServiceConfig,
    REQUEST_BYTES, RESPONSE_BYTES,
};
use oclob_node::market_runtime::{
    check_fill_set, check_market_scope, check_observation, check_point, clock_time, limit_direction,
    next_book, now, plan_round, proof_completion, settlement_finality, traded_slots, MarketStep,
    NativeFillRequest, NativeMarketRuntime, ObservedFinality, PriceLimitDirection, SettleStep,
    Settled,
};
use oclob_node::market_steps::OrderVotes;
use oclob_node::store_model::PrivateStateFinality;
use oclob_node::text_map::TextMap;
use oclob_node::types::{
    ClusterNodePublic, ClusterPublicConfig, EdgeOrderManifest, MpcBatchResult, MpcSlotResult,
    OrderCertificate, OrderCommitment,
};
use oclob_node::PreparedPartyInput;
use serde_json::Value;
use sha2::{Digest, Sha256};

const AT: u64 = 1_900_000_000;
const SLOTS: u16 = 4;

fn sha(data: &[u8]) -> Digest32 {
    Sha256::digest(data).into()
}

fn cluster() -> ClusterPublicConfig {
    ClusterPublicConfig {
        market_id: "JGB10Y-JPY".to_string(),
        program: "oclob_match_v1".to_string(),
        settlement_release_threshold: 3,
        nodes: (0..7u16)
            .map(|i| ClusterNodePublic {
                party: i,
                share_encryption_key: vec![i as u8 + 1; 32],
                receipt_verifying_key: SigningKey::from_bytes(&[i as u8 + 51; 32])
                    .verifying_key()
                    .to_bytes(),
            })
            .collect(),
        fault: None,
    }
}

fn signer() -> SigningKey {
    SigningKey::from_bytes(&[45; 32])
}

fn manifest(order: u8) -> EdgeOrderManifest {
    EdgeOrderManifest {
        market_id: "JGB10Y-JPY".to_string(),
        commitment: OrderCommitment([order; 32]),
        retention_deadline: AT + 600,
        settlement_capability_commitment: [43; 32],
        signer: signer().verifying_key().to_bytes(),
        body: vec![1, 2, 3],
    }
}

fn receipt(order: u8) -> EdgeAdmissionReceipt {
    let manifest = manifest(order);
    let replies = (0..7u16)
        .map(|party| NodeReply {
            party,
            receipt: NodeAdmissionReceipt {
                party,
                order_commitment: manifest.commitment,
                manifest_signer: manifest.signer,
                order_share_digest: [party as u8 + 11; 32],
                capability_key_share_digest: [party as u8 + 21; 32],
                generation: 1,
                state_digest: [91; 32],
                signer: cluster().nodes[party as usize].receipt_verifying_key,
                signature: vec![party as u8; 64],
            },
            order_share_digest: [party as u8 + 11; 32],
            capability_key_share_digest: [party as u8 + 21; 32],
        })
        .collect();
    EdgeDistributor::assemble_receipt(manifest, replies)
}

fn numbers(bytes: &[u8]) -> Value {
    Value::Array(bytes.iter().map(|b| Value::from(*b)).collect())
}

fn authority(order: u8, capability: &[u8], ciphertext: &[u8]) -> Vec<u8> {
    let mut fields = serde_json::Map::new();
    fields.insert("order_commitment".to_string(), numbers(&[order; 32]));
    fields.insert("capability_commitment".to_string(), numbers(capability));
    fields.insert("ciphertext".to_string(), numbers(ciphertext));
    serde_json::to_vec(&Value::Object(fields)).unwrap()
}

/// What the other parts of the protocol say of a handoff at a time.
fn facts(input: &MarketIngress, at: u64) -> IngressFacts {
    let envelope: Value = serde_json::from_slice(&input.authority).unwrap();
    let manifest = &input.receipt.manifest;
    let bound = envelope["order_commitment"] == numbers(&manifest.commitment.0)
        && envelope["capability_commitment"]
            == numbers(&manifest.settlement_capability_commitment)
        && envelope["ciphertext"].as_array().unwrap().len() == 8;
    IngressFacts {
        pretrade: true,
        manifest_valid: at <= manifest.retention_deadline,
        receipts_valid: vec![true; 7],
        authority_fault: if bound {
            None
        } else {
            Some("reservation authority envelope is invalid".to_string())
        },
    }
}

fn signed(receipt: EdgeAdmissionReceipt, authority: Vec<u8>) -> MarketIngress {
    let wire = format!("{:?}", receipt.receipt_digest).into_bytes();
    MarketIngress::sign(receipt, wire, authority, &[45; 32])
        .ok()
        .unwrap()
}

fn input(order: u8) -> MarketIngress {
    signed(receipt(order), authority(order, &[43; 32], &[9; 8]))
}

fn journal() -> MarketJournal {
    MarketJournal::open(&[31; 32], &cluster(), b"cluster", TextMap::new())
        .ok()
        .unwrap()
}

fn reopen(journal: MarketJournal) -> MarketJournal {
    MarketJournal::open(&[31; 32], &cluster(), b"cluster", journal.into_records())
        .ok()
        .unwrap()
}

fn accept(journal: &mut MarketJournal, input: MarketIngress, at: u64) -> Result<u64, String> {
    let known = facts(&input, at);
    journal.accept(input, &cluster(), &known)
}

#[test]
fn fixed_market_records_reject_bad_size_padding_and_truncation() {
    let mut fields = serde_json::Map::new();
    fields.insert("accepted".to_string(), Value::from(true));
    fields.insert("digest".to_string(), numbers(&[7; 32]));
    fields.insert("sequence".to_string(), Value::from(1u64));
    let value = serde_json::to_vec(&Value::Object(fields)).unwrap();
    let mut bytes = Vec::new();
    write_record(&mut bytes, &value, RESPONSE_BYTES).unwrap();
    assert_eq!(bytes.len(), RESPONSE_BYTES);
    let restored: Value =
        serde_json::from_slice(&read_record(&bytes, RESPONSE_BYTES).unwrap()).unwrap();
    assert_eq!(restored["sequence"], 1);
    let mut changed = bytes.clone();
    changed[RESPONSE_BYTES - 1] = 1;
    assert!(read_record(&changed, RESPONSE_BYTES).is_err());
    let mut changed = bytes.clone();
    changed[..4].copy_from_slice(&(RESPONSE_BYTES as u32).to_be_bytes());
    assert!(read_record(&changed, RESPONSE_BYTES).is_err());
    assert!(read_record(&bytes[..100], RESPONSE_BYTES).is_err());
    let large = serde_json::to_vec(&vec![99u8; REQUEST_BYTES]).unwrap();
    assert!(write_record(&mut Vec::new(), &large, REQUEST_BYTES).is_err());
}

#[test]
fn records_are_laid_out_exactly() {
    let mut bytes = vec![8u8];
    write_record(&mut bytes, b"ab", 8).unwrap();
    assert_eq!(bytes, vec![8, 0, 0, 0, 2, b'a', b'b', 0, 0]);
    assert_eq!(read_record(&bytes[1..], 8).unwrap(), b"ab".to_vec());
    assert_eq!(
        write_record(&mut bytes, b"abcde", 8).unwrap_err(),
        "market input exceeds fixed record size"
    );
    assert_eq!(bytes.len(), 9);
    write_record(&mut bytes, b"abcd", 8).unwrap();
    assert_eq!(read_record(&bytes[9..], 8).unwrap(), b"abcd".to_vec());
    assert_eq!(
        read_record(&[0, 0, 0, 0, 0, 0, 0, 0], 8).unwrap_err(),
        "market frame length or padding invalid"
    );
    assert_eq!(
        read_record(&[0, 0, 0, 1], 8).unwrap_err(),
        "failed to fill whole buffer"
    );
}

#[test]
fn market_intake_rejects_tampering_missing_node_and_fresh_expired_receipt() {
    let mut journal = journal();
    let mut bad = input(41);
    bad.signature[0] ^= 1;
    assert!(accept(&mut journal, bad, AT).is_err());
    let mut partial = receipt(41);
    partial.node_receipts.pop();
    let bad = signed(partial, authority(41, &[43; 32], &[9; 8]));
    assert!(accept(&mut journal, bad, AT).is_err());
    let mut bad = input(41);
    bad.authority = authority(41, &[43; 32], &[8, 9, 9, 9, 9, 9, 9, 9]);
    assert!(accept(&mut journal, bad, AT).is_err());
    assert!(accept(&mut journal, input(41), AT + 601).is_err());
    let wrong = signed(receipt(41), authority(41, &[0; 32], &[9; 8]));
    assert!(accept(&mut journal, wrong, AT).is_err());
    let wrong = signed(receipt(41), authority(0, &[43; 32], &[9; 8]));
    assert!(accept(&mut journal, wrong, AT).is_err());
    let short = signed(receipt(41), authority(41, &[43; 32], &[9; 7]));
    assert!(accept(&mut journal, short, AT).is_err());
    assert!(journal.next().unwrap().is_none());
}

#[test]
fn each_refused_handoff_says_why() {
    let mut journal = journal();
    let mut old = input(41);
    old.version = 2;
    assert_eq!(
        accept(&mut journal, old, AT).unwrap_err(),
        "market intake refuses legacy or unknown input"
    );
    let fresh = input(41);
    let mut known = facts(&fresh, AT);
    known.pretrade = false;
    assert_eq!(
        journal.accept(fresh, &cluster(), &known).unwrap_err(),
        "market intake refuses legacy or unknown input"
    );
    let fresh = input(41);
    let known = facts(&fresh, AT);
    let mut broken = cluster();
    broken.fault = Some("cluster is wrong".to_string());
    assert_eq!(
        journal.accept(fresh, &broken, &known).unwrap_err(),
        "cluster is wrong"
    );
    assert_eq!(
        accept(&mut journal, input(41), AT + 601).unwrap_err(),
        "edge admission receipt is invalid"
    );
    let short = signed(receipt(41), authority(41, &[43; 32], &[9; 7]));
    assert_eq!(
        accept(&mut journal, short, AT).unwrap_err(),
        "reservation authority envelope is invalid"
    );
    let mut forged = input(41);
    forged.signature[63] ^= 1;
    assert_eq!(
        accept(&mut journal, forged, AT).unwrap_err(),
        "market input signature is invalid"
    );
    assert_eq!(
        MarketIngress::sign(receipt(41), Vec::new(), Vec::new(), &[46; 32])
            .err()
            .unwrap(),
        "market input signer differs from admitted order"
    );
}

#[test]
fn valid_order_key_cannot_replace_acknowledged_market_payload() {
    let mut journal = journal();
    accept(&mut journal, input(41), AT).unwrap();
    let other = signed(
        receipt(41),
        authority(41, &[43; 32], &[8, 9, 9, 9, 9, 9, 9, 9]),
    );
    assert!(accept(&mut journal, other, AT).is_err());
    assert_eq!(
        journal
            .ingress(&OrderCommitment([41; 32]))
            .ok()
            .unwrap()
            .digest(),
        input(41).digest()
    );
}

#[test]
fn exact_market_intake_survives_restart_and_late_ack_without_new_order() {
    let mut journal = journal();
    let sequence = accept(&mut journal, input(41), AT).unwrap();
    assert!(sequence > 0);
    let mut reopened = reopen(journal);
    assert_eq!(
        accept(&mut reopened, input(41), AT + 601).unwrap(),
        sequence
    );
    assert_eq!(
        reopened.next().ok().unwrap().unwrap().digest(),
        input(41).digest()
    );
    assert!(reopened.completed().ok().unwrap().is_empty());
    assert_eq!(
        MarketJournal::open(&[31; 32], &cluster(), b"other", reopened.into_records())
            .err()
            .unwrap(),
        "market record belongs to another deployment"
    );
    assert_eq!(
        MarketJournal::open(&[0; 32], &cluster(), b"cluster", TextMap::new())
            .err()
            .unwrap(),
        "empty market journal key"
    );
}

#[test]
fn market_worker_lock_and_first_saved_signed_request_survive_reopen() {
    let mut first = journal();
    first
        .put("signed:unit".to_string(), MarketBody::Other(vec![1, 2, 3]))
        .unwrap();
    let mut second = reopen(first);
    second
        .put("signed:unit".to_string(), MarketBody::Other(vec![9, 8, 7]))
        .unwrap();
    match second.get("signed:unit").ok().unwrap() {
        Some(MarketBody::Other(bytes)) => assert_eq!(*bytes, vec![1, 2, 3]),
        _ => panic!("the signed request is gone"),
    }
    assert!(oclob_node::corporate_dispatch::lock_again(false, 0).is_err());
    assert!(oclob_node::corporate_dispatch::lock_again(true, 0).is_ok());
    assert_eq!(
        oclob_node::corporate_dispatch::lock_again(true, 30_000).unwrap_err(),
        "corporate lock unavailable; another writer may own it"
    );
}

#[test]
fn ingress_digest_and_signature_cover_the_json_encoding() {
    let one = input(41);
    let envelope = format!(
        "[1,{},{}]",
        String::from_utf8(one.receipt_wire.clone()).unwrap(),
        String::from_utf8(one.authority.clone()).unwrap()
    );
    let mut statement = b"OCLOB:MARKET-INGRESS:v1".to_vec();
    statement.extend_from_slice(envelope.as_bytes());
    assert_eq!(
        one.signature,
        signer().sign(&sha(&statement)).to_bytes().to_vec()
    );
    let whole = format!(
        "{{\"version\":1,\"receipt\":{},\"authority\":{},\"signature\":{}}}",
        String::from_utf8(one.receipt_wire.clone()).unwrap(),
        String::from_utf8(one.authority.clone()).unwrap(),
        String::from_utf8(serde_json::to_vec(&one.signature).unwrap()).unwrap()
    );
    let mut body = b"OCLOB:MARKET-INGRESS-DIGEST:v1".to_vec();
    body.extend_from_slice(whole.as_bytes());
    assert_eq!(one.digest(), sha(&body));
    let parsed: Value = serde_json::from_slice(whole.as_bytes()).unwrap();
    assert_eq!(parsed["version"], 1);
}

#[test]
fn acknowledgements_name_the_exact_input() {
    let kept = Acknowledgement::answer(Some(2), &[7; 32]);
    assert!(kept.check(&[7; 32]).is_ok());
    assert_eq!(
        kept.check(&[8; 32]).unwrap_err(),
        "market did not acknowledge exact durable intake"
    );
    let refused = Acknowledgement::answer(None, &[7; 32]);
    assert!(!refused.accepted && refused.digest == [0; 32] && refused.sequence == 0);
    assert!(refused.check(&[7; 32]).is_err());
    assert!(Acknowledgement::answer(Some(0), &[7; 32]).check(&[7; 32]).is_err());
}

fn config() -> MarketServiceConfig {
    MarketServiceConfig {
        endpoint: MarketEndpoint {
            host: "oclob-market".to_string(),
            port: 9445,
            server_name: "oclob-market".to_string(),
            certificate_sha256: [5; 32],
        },
        participants: vec![[1; 32], [2; 32]],
        journal: "/market/state.enc".to_string(),
        journal_key: "/market-identity/journal-key.raw".to_string(),
        base_asset: [61; 32],
        quote_asset: [62; 32],
    }
}

#[test]
fn only_pinned_peers_reach_the_market() {
    assert!(check_participant(&config(), &[2; 32]).is_ok());
    assert_eq!(
        check_participant(&config(), &[3; 32]).unwrap_err(),
        "market intake caller is not a participant"
    );
    assert!(check_market_peer(&config().endpoint, &[5; 32]).is_ok());
    assert_eq!(
        check_market_peer(&config().endpoint, &[6; 32]).unwrap_err(),
        "market TLS peer differs from configured pin"
    );
    assert_eq!(endpoint_digest(b"endpoint"), sha(b"endpoint"));
    let record = handoff_record(&[1; 32], &[2; 32]);
    assert_eq!(record.len(), 64);
    assert_eq!(record[31..33], [1, 2]);
}

fn slot(matched: bool, price: u64, quantity: u64) -> MpcSlotResult {
    MpcSlotResult {
        matched,
        trade_price: price,
        trade_quantity: quantity,
    }
}

fn entry(order: u8, remaining: u64) -> MarketBookEntry {
    MarketBookEntry {
        commitment: OrderCommitment([order; 32]),
        remaining,
    }
}

#[test]
fn a_round_conserves_quantity_and_keeps_time_order() {
    let book = vec![entry(1, 60), entry(2, 30), entry(3, 5)];
    let slots = vec![
        slot(true, 100, 60),
        slot(true, 101, 10),
        slot(false, 0, 0),
    ];
    let next = next_book(&book, &slots, &OrderCommitment([9; 32]), 4).unwrap();
    assert_eq!(next, vec![entry(2, 20), entry(3, 5), entry(9, 4)]);
    let next = next_book(&book, &slots, &OrderCommitment([9; 32]), 0).unwrap();
    assert_eq!(next, vec![entry(2, 20), entry(3, 5)]);
    assert_eq!(traded_slots(&slots), vec![0, 1]);
    assert_eq!(
        next_book(&book, &slots[..2].to_vec(), &OrderCommitment([9; 32]), 0).unwrap_err(),
        "market result omitted a resting slot"
    );
    let too_much = vec![slot(true, 100, 61), slot(false, 0, 0), slot(false, 0, 0)];
    assert_eq!(
        next_book(&book, &too_much, &OrderCommitment([9; 32]), 0).unwrap_err(),
        "market result exceeds resting quantity"
    );
}

fn certificate(order: u8, sequence: u64) -> OrderCertificate {
    OrderCertificate {
        market_id: "JGB10Y-JPY".to_string(),
        sequence,
        commitment: OrderCommitment([order; 32]),
        previous_certificate: [0; 32],
        expires_at: AT + 600,
        voters: vec![0, 1, 2, 3, 4],
        digest: [order + 100; 32],
    }
}

fn node_receipt(result: &MpcBatchResult) -> NodeExecutionReceipt {
    NodeExecutionReceipt {
        version: 1,
        party: 0,
        round_id: [1; 32],
        generation: 1,
        round_commitment: [2; 32],
        program_sha256: [3; 32],
        artifact_sha256: [4; 32],
        private_parent_digest: [5; 32],
        private_state_sha256: [6; 32],
        public_output_sha256: [7; 32],
        result: result.clone(),
        execution_ms: 1,
        signer: [8; 32],
        signature: vec![0; 64],
    }
}

fn execution(slots: Vec<MpcSlotResult>, arriving_remaining: u64) -> AgreedRoundExecution {
    let result = MpcBatchResult {
        slots,
        arriving_remaining,
        output_digest: [7; 32],
    };
    AgreedRoundExecution {
        receipts: vec![node_receipt(&result)],
        result,
    }
}

fn key(prefix: &str, order: u8) -> String {
    format!("{}:{}", prefix, OrderCommitment([order; 32]).hex())
}

fn runtime(journal: MarketJournal) -> NativeMarketRuntime {
    NativeMarketRuntime {
        cluster: cluster(),
        config: config(),
        journal,
        match_slots: SLOTS,
    }
}

fn idle() -> IngressFacts {
    facts(&input(41), AT)
}

fn settled() -> Settled {
    Settled {
        transaction_id: "tx".to_string(),
        block_id: "block".to_string(),
        before_root: [71; 32],
        after_root: [72; 32],
        height: 9,
        statement: [73; 32],
    }
}

/// Runs one order through the market up to its completed round.
fn complete(
    market: &mut NativeMarketRuntime,
    order: u8,
    sequence: u64,
    done: AgreedRoundExecution,
) -> Result<(), String> {
    accept(&mut market.journal, input(order), AT)?;
    let known = facts(&input(order), AT);
    match market.pump(&known, false)? {
        MarketStep::Certify {
            previous,
            commitment,
            expires_at,
        } => {
            assert!(commitment.0 == [order; 32] && expires_at == AT + 600);
            assert_eq!(previous.map_or(0, |last| last.sequence), sequence - 1);
        }
        _ => panic!("certify"),
    }
    market.journal.put(
        key("certificate", order),
        MarketBody::Certificate(certificate(order, sequence)),
    )?;
    let plan = match market.pump(&known, false)? {
        MarketStep::Plan { resting, deadline } => {
            assert_eq!(deadline, AT + 600);
            plan_round(
                &certificate(order, sequence),
                resting,
                deadline,
                AT,
                &[77; 32],
                SLOTS,
            )
            .unwrap()
        }
        _ => panic!("plan"),
    };
    assert_eq!(plan.expires_at, AT + 300);
    market.journal.put(key("plan", order), MarketBody::Plan(plan))?;
    assert!(matches!(market.pump(&known, false)?, MarketStep::Execute));
    market
        .journal
        .put(key("execution", order), MarketBody::Execution(done))?;
    match market.pump(&known, false)? {
        MarketStep::Settle { slots } => {
            assert!(!slots.is_empty());
            market
                .journal
                .put(key("settled", order), MarketBody::Settled(settled()))?;
            market.journal.put(
                key("depth-finality", order),
                MarketBody::Other(b"receipts".to_vec()),
            )?;
            assert!(matches!(
                market.pump(&known, true)?,
                MarketStep::Finish { .. }
            ));
        }
        MarketStep::Finish { slots } => assert!(slots.is_empty()),
        _ => panic!("settle or finish"),
    }
    market.finish_round(Ok(b"book".to_vec()))
}

#[test]
fn the_market_works_through_its_queue_in_order() {
    let mut market = runtime(journal());
    assert!(matches!(market.pump(&idle(), false), Ok(MarketStep::Idle)));
    complete(&mut market, 41, 1, execution(vec![slot(false, 0, 0); 4], 60)).unwrap();
    complete(&mut market, 42, 2, execution(vec![slot(false, 0, 0); 4], 30)).unwrap();
    assert_eq!(market.journal.book().unwrap(), vec![entry(41, 60), entry(42, 30)]);
    let fills = vec![
        slot(true, 100, 60),
        slot(true, 101, 20),
        slot(false, 0, 0),
        slot(false, 0, 0),
    ];
    complete(&mut market, 43, 3, execution(fills, 0)).unwrap();
    assert_eq!(market.journal.book().unwrap(), vec![entry(42, 10)]);
    let rounds = market.journal.completed().ok().unwrap();
    assert_eq!(rounds.len(), 3);
    assert_eq!(rounds[2].finality_observations, 14);
    assert_eq!(rounds[2].transaction_id, Some("tx".to_string()));
    assert_eq!(rounds[2].canonical_root, Some([72; 32]));
    assert!(rounds[0].transaction_id.is_none());
    assert!(market.journal.next().ok().unwrap().is_none());
    let status = market.journal.status().ok().unwrap();
    assert_eq!(status.completed_market_rounds, 3);
    assert_eq!(status.autonomously_settled_fills, 2);
    assert_eq!(status.transaction_ids, vec!["tx".to_string()]);
    assert_eq!(status.canonical_roots, vec!["48".repeat(32)]);
    assert_eq!(status.completed_round_digests[0], "8d".repeat(32));
    assert_eq!(
        market.journal.public_book().ok().unwrap().unwrap(),
        &b"book".to_vec()
    );
}

#[test]
fn a_round_is_not_completed_before_its_settlement_is_final() {
    let mut market = runtime(journal());
    assert_eq!(
        market.finish_round(Ok(Vec::new())).unwrap_err(),
        "market round is not ready to be completed"
    );
    complete(&mut market, 41, 1, execution(vec![slot(false, 0, 0); 4], 60)).unwrap();
    accept(&mut market.journal, input(42), AT).unwrap();
    let plan = plan_round(
        &certificate(42, 2),
        vec![OrderCommitment([41; 32])],
        AT + 100,
        AT,
        &[77; 32],
        SLOTS,
    )
    .unwrap();
    assert_eq!(plan.expires_at, AT + 100);
    let fill = execution(
        vec![
            slot(true, 100, 10),
            slot(false, 0, 0),
            slot(false, 0, 0),
            slot(false, 0, 0),
        ],
        0,
    );
    market
        .journal
        .put(key("certificate", 42), MarketBody::Certificate(certificate(42, 2)))
        .unwrap();
    market.journal.put(key("plan", 42), MarketBody::Plan(plan)).unwrap();
    market
        .journal
        .put(key("execution", 42), MarketBody::Execution(fill))
        .unwrap();
    assert_eq!(
        market.finish_round(Ok(Vec::new())).unwrap_err(),
        "market round is not ready to be completed"
    );
    market
        .journal
        .put(key("settled", 42), MarketBody::Settled(settled()))
        .unwrap();
    assert_eq!(
        market.finish_round(Ok(Vec::new())).unwrap_err(),
        "depth finality not durable"
    );
    market
        .journal
        .put(key("depth-finality", 42), MarketBody::Other(Vec::new()))
        .unwrap();
    assert_eq!(
        market
            .finish_round(Err("no snapshot".to_string()))
            .unwrap_err(),
        "no snapshot"
    );
    market.finish_round(Ok(Vec::new())).unwrap();
    assert_eq!(market.journal.book().unwrap(), vec![entry(41, 50)]);
}

#[test]
fn a_full_book_stops_the_market() {
    let mut market = runtime(journal());
    market.match_slots = 1;
    accept(&mut market.journal, input(41), AT).unwrap();
    market
        .journal
        .put(
            "done:older".to_string(),
            MarketBody::Done(MarketCompletedRound {
                certificate: certificate(1, 1),
                result: execution(Vec::new(), 0).result,
                book: vec![entry(1, 1), entry(2, 2)],
                transaction_id: None,
                canonical_root: None,
                finality_observations: 0,
                public_snapshot: None,
            }),
        )
        .unwrap();
    assert_eq!(
        market.pump(&idle(), false).err().unwrap(),
        "native market book capacity needs explicit expansion or lifecycle processing"
    );
    assert_eq!(
        market.journal.public_book().err().unwrap(),
        "historical round lacks native depth; explicit migration required"
    );
}

/// The receipts of seven nodes that executed the plan on record with one result.
type Executed = Vec<Result<NodeExecutionReceipt, ReplyFailure>>;

fn executed(market: &NativeMarketRuntime, order: u8, result: &MpcBatchResult) -> Executed {
    let id = OrderCommitment([order; 32]).hex();
    let plan = market.journal.plan(&id).ok().unwrap().unwrap();
    (0..7u16)
        .map(|party| {
            let executor = PartyExecutor {
                party,
                program: "match".to_string(),
                hosts: String::new(),
                timeout_nanos: 5,
                signing_key: [party as u8 + 51; 32],
                program_sha256: [3; 32],
                artifact_sha256: [4; 32],
            };
            let prepared = PreparedPartyInput {
                party,
                generation: 1,
                round_commitment: [2; 32],
                private_parent_digest: [5; 32],
                contents: Vec::new(),
            };
            let run = PartyRun {
                engine: Ok(()),
                round_directory: DirectoryMade::Made,
                started: Ok(()),
                status: ChildStatus::Succeeded,
                execution_ms: 1,
                result: Ok(result.clone()),
                state: Ok(vec![10, 1, 2, 3, 4]),
                state_directory: DirectoryMade::Made,
                moved: Ok(()),
                header: Some(PersistenceHeader {
                    data_offset: 1,
                    element_bytes: 1,
                }),
                bound: vec![None, None, None, None],
            };
            let layout = WireLayout {
                match_slots: SLOTS,
                book_wires: 0,
                proof_wires_per_fill: 1,
                persistence_wires: 4,
            };
            let done = executor.execute(&prepared, plan, run, &layout, &[3; 32]);
            Ok(done.ok().unwrap().receipt)
        })
        .collect()
}

fn votes(digest: u8) -> OrderVotes {
    OrderVotes {
        replies: [5u16, 0, 1, 3, 2]
            .into_iter()
            .map(|node| Some((node, vec![node as u8; 4])))
            .collect(),
        digest: [digest; 32],
        quorum: Ok(()),
    }
}

/// Certifies, plans and executes the order at the head of the queue.
fn execute_round(market: &mut NativeMarketRuntime, order: u8, result: &MpcBatchResult) {
    let known = facts(&input(order), AT);
    market.certify(&known, votes(order + 100), Some(AT)).unwrap();
    market.sign_plan(&known, AT, &[77; 32]).unwrap();
    let receipts = executed(market, order, result);
    market
        .accept_execution(&known, &Ok(()), Some(AT), receipts, &[3; 32])
        .unwrap();
}

fn batch(first: MpcSlotResult, arriving_remaining: u64) -> MpcBatchResult {
    MpcBatchResult {
        slots: vec![first, slot(false, 0, 0), slot(false, 0, 0), slot(false, 0, 0)],
        arriving_remaining,
        output_digest: [7; 32],
    }
}

#[test]
fn the_steps_of_a_round_are_recorded_in_order() {
    let mut market = runtime(journal());
    accept(&mut market.journal, input(41), AT).unwrap();
    let known = facts(&input(41), AT);
    let not_ready = "market round is not ready to be completed";
    assert_eq!(
        market.sign_plan(&known, AT, &[77; 32]).unwrap_err(),
        not_ready
    );
    assert_eq!(
        market
            .accept_execution(&known, &Ok(()), Some(AT), Vec::new(), &[3; 32])
            .unwrap_err(),
        not_ready
    );
    let mut four = votes(141);
    four.quorum = Err("four votes".to_string());
    assert_eq!(
        market.certify(&known, four, Some(AT)).unwrap_err(),
        "five valid ordering votes were not obtained"
    );
    assert_eq!(
        market.certify(&known, votes(141), None).unwrap_err(),
        "edge distributor configuration is invalid"
    );
    assert_eq!(
        market.certify(&known, votes(141), Some(AT + 601)).unwrap_err(),
        "edge distributor configuration is invalid"
    );
    market.certify(&known, votes(141), Some(AT)).unwrap();
    let id = OrderCommitment([41; 32]).hex();
    let certificate = market.journal.certificate(&id).ok().unwrap().unwrap();
    assert_eq!(certificate.sequence, 1);
    assert_eq!(certificate.previous_certificate, [0; 32]);
    assert_eq!(certificate.digest, [141; 32]);
    assert_eq!(certificate.voters, vec![0, 1, 2, 3, 5]);
    assert_eq!(
        market.certify(&known, votes(142), Some(AT)).unwrap_err(),
        not_ready
    );
    market.sign_plan(&known, AT, &[77; 32]).unwrap();
    let plan = market.journal.plan(&id).ok().unwrap().unwrap();
    assert_eq!((plan.issued_at, plan.expires_at), (AT, AT + 300));
    assert!(plan.resting.is_empty());
    let rests = batch(slot(false, 0, 0), 60);
    let receipts = || executed(&market, 41, &rests);
    let mut six = receipts();
    six.pop();
    let mut silent = receipts();
    silent[2] = Err(ReplyFailure::Network("node down".to_string()));
    let mut differs = receipts();
    differs[6] = executed(&market, 41, &batch(slot(false, 0, 0), 59)).remove(6);
    let (all, again) = (receipts(), receipts());
    assert_eq!(
        market
            .accept_execution(&known, &Ok(()), Some(AT), six, &[3; 32])
            .unwrap_err(),
        "edge admission receipt is invalid"
    );
    assert_eq!(
        market
            .accept_execution(&known, &Ok(()), Some(AT + 301), all, &[3; 32])
            .unwrap_err(),
        "edge distributor configuration is invalid"
    );
    assert_eq!(
        market
            .accept_execution(&known, &Ok(()), Some(AT), silent, &[3; 32])
            .unwrap_err(),
        "node down"
    );
    assert!(market
        .accept_execution(&known, &Ok(()), Some(AT), differs, &[3; 32])
        .is_err());
    market
        .accept_execution(&known, &Ok(()), Some(AT), again, &[3; 32])
        .unwrap();
    // Nothing traded, so nothing is settled.
    market.finish_round(Ok(b"book".to_vec())).unwrap();
    assert_eq!(market.journal.book().unwrap(), vec![entry(41, 60)]);

    accept(&mut market.journal, input(42), AT).unwrap();
    execute_round(&mut market, 42, &batch(slot(true, 100, 10), 0));
    let id = OrderCommitment([42; 32]).hex();
    let certificate = market.journal.certificate(&id).ok().unwrap().unwrap();
    assert_eq!(certificate.sequence, 2);
    assert_eq!(certificate.previous_certificate, [141; 32]);
    assert_eq!(market.round_step(&id).unwrap(), SettleStep::Sign);
    assert_eq!(
        market.keep_settled(&id, settled()).unwrap_err(),
        not_ready
    );
    let plan = market.journal.plan(&id).ok().unwrap().unwrap();
    assert_eq!(plan.resting, vec![OrderCommitment([41; 32])]);
    let round_id = plan.round_id;
    let request = |slot: usize, wire: u8| NativeFillRequest {
        round_id,
        slot,
        mpc_result_digest: [7; 32],
        wire: vec![wire],
    };
    assert_eq!(
        market.keep_signed(&id, vec![request(1, 1)]).unwrap_err(),
        "durable native fill set differs from actual matching"
    );
    assert_eq!(
        market.keep_signed(&id, Vec::new()).unwrap_err(),
        "durable native fill set differs from actual matching"
    );
    market.keep_signed(&id, vec![request(0, 1)]).unwrap();
    assert_eq!(
        market.keep_signed(&id, vec![request(0, 2)]).unwrap_err(),
        not_ready
    );
    assert_eq!(
        market.round_step(&id).unwrap(),
        SettleStep::Submit { batch: false }
    );
    market.keep_settled(&id, settled()).unwrap();
    assert_eq!(
        market.round_step(&id).unwrap(),
        SettleStep::Confirm { batch: false }
    );
    // A restart finds the same signed fill and does not send it again.
    let mut market = runtime(reopen(market.journal));
    match market.journal.signed(&id) {
        Ok(Some(kept)) => assert_eq!(kept[0].wire, vec![1]),
        _ => panic!("the signed fill is on record"),
    }
    assert_eq!(
        market.keep_settled(&id, settled()).unwrap_err(),
        not_ready
    );
}

#[test]
fn settlement_signs_once_and_submits_what_was_signed() {
    let mut market = runtime(journal());
    accept(&mut market.journal, input(41), AT).unwrap();
    accept(&mut market.journal, input(42), AT).unwrap();
    let plan = plan_round(
        &certificate(42, 2),
        vec![OrderCommitment([41; 32])],
        AT + 100,
        AT,
        &[77; 32],
        SLOTS,
    )
    .unwrap();
    let fill = execution(vec![slot(true, 100, 10)], 0);
    let id = OrderCommitment([42; 32]).hex();
    let slots = vec![0usize];
    assert_eq!(
        market.settle(&id, &plan, &fill, &slots).unwrap(),
        SettleStep::Sign
    );
    let orders = market
        .fill_orders(&plan, &slots, 0, &[7; 32], &[62; 32])
        .unwrap();
    assert_eq!(orders.len(), 1);
    assert_eq!(orders[0].maker.0, [41; 32]);
    assert_eq!(orders[0].direction, PriceLimitDirection::MaximumBuyPrice);
    assert_eq!(orders[0].deadline, AT + 600);
    assert!(orders[0].closes_taker && !orders[0].projects_taker);
    let mut context = b"OCLOB:SIGNED-TAKER-LIMIT:v1".to_vec();
    context.extend_from_slice(&[42; 32]);
    context.extend_from_slice(&[142; 32]);
    context.extend_from_slice(&[7; 32]);
    assert_eq!(orders[0].limit_context, sha(&context));
    assert_eq!(
        market
            .fill_orders(&plan, &vec![1], 0, &[7; 32], &[62; 32])
            .unwrap_err(),
        "matched slot has no original order"
    );
    assert_eq!(
        market
            .fill_orders(&plan, &slots, 0, &[7; 32], &[63; 32])
            .unwrap_err(),
        "arrival reservation is outside this market pair"
    );
    let request = NativeFillRequest {
        round_id: plan.round_id,
        slot: 0,
        mpc_result_digest: [7; 32],
        wire: vec![1],
    };
    market
        .journal
        .put(key("signed", 42), MarketBody::Signed(vec![request]))
        .unwrap();
    assert_eq!(
        market.settle(&id, &plan, &fill, &slots).unwrap(),
        SettleStep::Submit { batch: false }
    );
    assert_eq!(
        market.settle(&id, &plan, &fill, &vec![0, 1]).unwrap_err(),
        "durable native fill set differs from actual matching"
    );
    market
        .journal
        .put(key("settled", 42), MarketBody::Settled(settled()))
        .unwrap();
    assert_eq!(
        market.settle(&id, &plan, &fill, &slots).unwrap(),
        SettleStep::Confirm { batch: false }
    );
    let mut silent = execution(Vec::new(), 0);
    silent.receipts.clear();
    assert_eq!(
        market.settle(&id, &plan, &silent, &slots).unwrap_err(),
        "market execution has no node receipts"
    );
    let finality = settlement_finality(&plan, &[7; 32], &[80; 32], &settled());
    let expected = PrivateStateFinality {
        round_id: plan.round_id,
        public_output_sha256: [7; 32],
        transition_digest: [80; 32],
        canonical_receipt_digest: [73; 32],
        canonical_height: 9,
    };
    assert_eq!(finality, expected);
    let mut observed = ObservedFinality {
        slot: 0,
        party: 0,
        transaction_id: "tx".to_string(),
        block_id: "block".to_string(),
        before_root: [71; 32],
        after_root: [72; 32],
        aggregate: Ok(expected),
    };
    assert!(check_observation(&observed, &settled(), &finality).is_ok());
    observed.after_root = [0; 32];
    assert_eq!(
        check_observation(&observed, &settled(), &finality).unwrap_err(),
        "market node canonical observation differs from committed transaction"
    );
    observed.after_root = [72; 32];
    observed.aggregate = Err("nothing aggregated".to_string());
    assert_eq!(
        check_observation(&observed, &settled(), &finality).unwrap_err(),
        "nothing aggregated"
    );
    let observe = |party: usize, after: u8| ObservedFinality {
        slot: 0,
        party,
        transaction_id: "tx".to_string(),
        block_id: "block".to_string(),
        before_root: [71; 32],
        after_root: [after; 32],
        aggregate: Ok(expected),
    };
    let all = || (0..7).map(|party| observe(party, 72)).collect::<Vec<_>>();
    let came = |receipt: u8| {
        (0..7u8)
            .map(|party| Ok(vec![receipt, b'0' + party]))
            .collect::<Vec<_>>()
    };
    let confirm = |market: &mut NativeMarketRuntime, observed: Vec<ObservedFinality>, receipt: u8| {
        market.confirm_settlement(&id, &observed, &Ok([80; 32]), came(receipt))
    };
    let depth = format!("depth-finality:{id}");
    // Nothing is confirmed before the plan and the execution are on record.
    assert_eq!(
        confirm(&mut market, all(), 1).unwrap_err(),
        "market round is not ready to be completed"
    );
    market
        .journal
        .put(key("plan", 42), MarketBody::Plan(plan))
        .unwrap();
    let mut agreed = fill;
    let one = agreed.receipts[0].clone();
    agreed.receipts = vec![one; 7];
    market
        .journal
        .put(key("execution", 42), MarketBody::Execution(agreed))
        .unwrap();
    let differs = "market node canonical observation differs from committed transaction";
    let mut one_differs = all();
    one_differs[6].after_root = [0; 32];
    assert_eq!(
        confirm(&mut market, one_differs, 1).unwrap_err(),
        differs
    );
    let mut six = all();
    six.pop();
    assert_eq!(confirm(&mut market, six, 1).unwrap_err(), differs);
    let mut twice = all();
    twice[3].party = 2;
    assert_eq!(confirm(&mut market, twice, 1).unwrap_err(), differs);
    assert_eq!(
        confirm(&mut market, Vec::new(), 1).unwrap_err(),
        differs
    );
    let mut down = came(b'1');
    down[5] = Err(ReplyFailure::Network("node down".to_string()));
    down[6] = Err(ReplyFailure::Panicked);
    assert_eq!(
        market
            .confirm_settlement(&id, &all(), &Ok([80; 32]), down)
            .unwrap_err(),
        "node down"
    );
    // The observed aggregate is the finality of this very statement.
    assert!(market
        .confirm_settlement(&id, &all(), &Ok([81; 32]), came(b'1'))
        .is_err());
    assert_eq!(
        market
            .confirm_settlement(&id, &all(), &Err("no batch".to_string()), came(b'1'))
            .unwrap_err(),
        "no batch"
    );
    assert!(matches!(market.journal.get(&depth), Ok(None)));
    assert!(confirm(&mut market, all(), b'1').is_ok());
    assert!(confirm(&mut market, all(), b'2').is_ok());
    match market.journal.get(&depth) {
        Ok(Some(MarketBody::Other(kept))) => assert_eq!(kept, &b"[10,11,12,13,14,15,16]".to_vec()),
        _ => panic!("the nodes' receipts are on record"),
    }
}

#[test]
fn settlement_details_are_fixed() {
    assert!(check_market_scope(&sha(b"committee"), b"committee").is_ok());
    assert_eq!(
        check_market_scope(&[0; 32], b"committee").unwrap_err(),
        "market native scope differs from pinned committee"
    );
    assert_eq!(
        limit_direction(&[61; 32], &config()).unwrap(),
        PriceLimitDirection::MinimumSellPrice
    );
    for party in 0..7 {
        let method = proof_completion(party);
        assert_eq!(
            method,
            if party % 3 == 0 {
                "complete"
            } else {
                "complete_observer"
            }
        );
    }
    let base = curve25519_dalek::constants::RISTRETTO_BASEPOINT_COMPRESSED.to_bytes();
    assert!(check_point(&base).is_ok());
    assert_eq!(
        check_point(&[255; 32]).unwrap_err(),
        "invalid public commitment"
    );
    assert!(check_fill_set(&Vec::new(), &Vec::new(), &[0; 32], &[0; 32]).is_ok());
}

#[test]
fn the_clock_runs() {
    let first = now().unwrap();
    let second = now().unwrap();
    assert!(first > 1_600_000_000 && second >= first);
    assert_eq!(clock_time(Some(5)), Ok(5));
    assert_eq!(
        clock_time(None).unwrap_err(),
        "second time provided was later than self"
    );
}
