//! The store's file: its frame, its versions and its checks.

use crate::bytes::{
    big_endian, big_endian_value, bytes_equal, digest_equal, digest_is_zero,
    lemma_big_endian_value_round_trip, lemma_u64_big_endian, push_all, push_text, push_u64,
    read_u64, sha256, sha256_digest, text_bytes,
};
use crate::json::{json_number, json_u64_field};
use crate::store::{
    empty_state, receipt_is_complete, status_shows, NodeError, NodeStoreStatus, StoreState,
    StoredRecord,
};
use crate::store_model::{NodeFault, PrivateBookStateRef, RecordView, StoreView, STORE_VERSION};
use crate::text_map::{text_equal, TextMap};
use std::collections::BTreeMap;
use vstd::prelude::*;

verus! {

broadcast use vstd::std_specs::btree::group_btree_axioms;

/// The largest payload of a store file.
pub const MAX_STORE_BYTES: usize = 67_108_864;

const LEGACY_STORE_VERSION_V4: u16 = 4;

const LEGACY_STORE_VERSION_V3: u16 = 3;

const LEGACY_STORE_VERSION_V2: u16 = 2;

/// A payload in its frame: the magic, the length, the payload, its checksum.
pub open spec fn store_frame(payload: Seq<u8>) -> Seq<u8> {
    text_bytes("OCLOBN01"@) + big_endian(payload.len(), 8) + payload + sha256(payload)
}

/// The magic is eight bytes long.
proof fn lemma_magic()
    ensures
        text_bytes("OCLOBN01"@).len() == 8,
{
    reveal_strlit("OCLOBN01");
    assert(vstd::utf8::is_ascii_chars("OCLOBN01"@));
    vstd::utf8::is_ascii_chars_encode_utf8("OCLOBN01"@);
}

pub fn encode_store(payload: &[u8]) -> (r: Result<Vec<u8>, NodeError>)
    ensures
        r is Ok == (payload@.len() <= MAX_STORE_BYTES),
        r matches Ok(encoded) ==> encoded@ == store_frame(payload@),
        r matches Err(e) ==> e@ == NodeFault::State("node share store exceeds size limit"@),
{
    if payload.len() > MAX_STORE_BYTES {
        return Err(NodeError::State("node share store exceeds size limit".to_owned()));
    }
    let checksum = sha256_digest(payload);
    let mut encoded: Vec<u8> = Vec::new();
    push_text(&mut encoded, "OCLOBN01");
    assert(encoded@ =~= text_bytes("OCLOBN01"@));
    push_u64(&mut encoded, payload.len() as u64);
    push_all(&mut encoded, payload);
    push_all(&mut encoded, &checksum);
    Ok(encoded)
}

/// Why a store file does not decode, if it does not. `encoded` is the whole
/// file.
pub open spec fn frame_fault(encoded: Seq<u8>) -> Option<NodeFault> {
    if encoded.len() > MAX_STORE_BYTES + 48 {
        Some(NodeFault::State("node share store has unsafe type or size"@))
    } else if encoded.len() < 48 || encoded.take(8) != text_bytes("OCLOBN01"@) {
        Some(NodeFault::State("node share store header is invalid"@))
    } else if big_endian_value(encoded.subrange(8, 16)) + 48 != encoded.len() {
        Some(NodeFault::State("node share store length is invalid"@))
    } else if encoded.skip(encoded.len() - 32) != sha256(
        encoded.subrange(16, encoded.len() - 32),
    ) {
        Some(NodeFault::State("node share store checksum failed"@))
    } else {
        None
    }
}

/// Take the payload out of a store file.
pub fn decode_store(encoded: &[u8]) -> (r: Result<Vec<u8>, NodeError>)
    ensures
        r is Ok == frame_fault(encoded@) is None,
        r matches Ok(payload) ==> payload@ == encoded@.subrange(16, encoded@.len() - 32),
        r matches Err(e) ==> Some(e@) == frame_fault(encoded@),
{
    if encoded.len() > MAX_STORE_BYTES + 48 {
        return Err(NodeError::State("node share store has unsafe type or size".to_owned()));
    }
    if encoded.len() < 48 {
        return Err(NodeError::State("node share store header is invalid".to_owned()));
    }
    let magic = vstd::slice::slice_subrange(encoded, 0, 8);
    assert(magic@ =~= encoded@.take(8));
    if !bytes_equal(magic, "OCLOBN01".as_bytes()) {
        return Err(NodeError::State("node share store header is invalid".to_owned()));
    }
    let length: u64 = read_u64(encoded, 8);
    let end: usize = encoded.len() - 32;
    if length != (encoded.len() - 48) as u64 {
        return Err(NodeError::State("node share store length is invalid".to_owned()));
    }
    let payload = vstd::slice::slice_subrange(encoded, 16, end);
    let checksum = vstd::slice::slice_subrange(encoded, end, encoded.len());
    let expected = sha256_digest(payload);
    assert(checksum@ =~= encoded@.skip(encoded@.len() - 32));
    if !bytes_equal(checksum, &expected) {
        return Err(NodeError::State("node share store checksum failed".to_owned()));
    }
    let mut out: Vec<u8> = Vec::new();
    push_all(&mut out, payload);
    assert(out@ =~= payload@);
    Ok(out)
}

/// A file that decodes is the frame of its payload and of nothing else.
pub proof fn lemma_decoded_is_frame(encoded: Seq<u8>)
    requires
        frame_fault(encoded) is None,
    ensures
        encoded == store_frame(encoded.subrange(16, encoded.len() - 32)),
{
    lemma_magic();
    let payload = encoded.subrange(16, encoded.len() - 32);
    lemma_big_endian_value_round_trip(encoded.subrange(8, 16));
    assert(big_endian(payload.len(), 8) == encoded.subrange(8, 16));
    let checksum = encoded.skip(encoded.len() - 32);
    assert(encoded =~= encoded.take(8) + encoded.subrange(8, 16) + payload + checksum);
}

/// What was written is read back: the frame of a payload decodes to it.
pub proof fn lemma_frame_round_trip(payload: Seq<u8>)
    requires
        payload.len() <= MAX_STORE_BYTES,
    ensures
        frame_fault(store_frame(payload)) is None,
        store_frame(payload).subrange(16, store_frame(payload).len() - 32) == payload,
{
    lemma_magic();
    lemma_u64_big_endian(payload.len() as u64);
    let encoded = store_frame(payload);
    assert(encoded.len() == payload.len() + 48);
    assert(encoded.take(8) =~= text_bytes("OCLOBN01"@));
    assert(encoded.subrange(8, 16) =~= big_endian(payload.len(), 8));
    assert(encoded.subrange(16, encoded.len() - 32) =~= payload);
    assert(encoded.skip(encoded.len() - 32) =~= sha256(payload));
}

/// The suffix that tells temporary store files apart.
pub fn randless_nonce(payload: &[u8]) -> (nonce: u64)
    ensures
        nonce == big_endian_value(sha256(payload@).take(8)),
{
    let digest = sha256_digest(payload);
    assert(digest@.subrange(0, 8) =~= digest@.take(8));
    read_u64(&digest, 0)
}

fn chain_is_consistent(state: &StoreState, party: u16) -> (consistent: bool)
    requires
        state.wf(),
    ensures
        consistent == state@.chain_consistent(party),
{
    proof {
        state.ordered_commitments.lemma_count();
    }
    if state.party != party || (state.ordering_sequence == 0) != digest_is_zero(
        &state.ordering_head,
    ) || state.ordered_commitments.len() as u64 != state.ordering_sequence {
        return false;
    }
    let votes: usize = state.ordering_votes.len();
    if votes > 1 {
        return false;
    }
    if votes == 0 {
        proof {
            assert(state.ordering_votes@.dom() =~= Set::<u64>::empty());
        }
        return true;
    }
    let next: u64 = if state.ordering_sequence == u64::MAX {
        u64::MAX
    } else {
        state.ordering_sequence + 1
    };
    match state.ordering_votes.get(&next) {
        None => {
            proof {
                let dom = state.ordering_votes@.dom();
                assert(dom.len() == 1);
                let other = dom.choose();
                assert(dom.contains(other));
                assert(other != next);
            }
            false
        },
        Some(vote) => {
            proof {
                let dom = state.ordering_votes@.dom();
                assert forall|sequence: u64| dom.contains(sequence) implies sequence == next by {
                    if sequence != next {
                        assert(dom.remove(next).contains(sequence));
                        assert(dom.remove(next).len() == 0);
                        assert(dom.remove(next) =~= Set::<u64>::empty());
                    }
                }
            }
            !digest_is_zero(&vote.statement_digest) && vote.expires_at != 0
        },
    }
}

fn records_are_bound(state: &StoreState, party: u16) -> (bound: bool)
    requires
        state.wf(),
    ensures
        bound == state@.records_bound(party),
{
    let total: usize = state.records.len();
    let mut i: usize = 0;
    proof {
        state.records.lemma_positions();
    }
    while i < total
        invariant
            state.wf(),
            total == state.records.count(),
            i <= total,
            forall|j: int|
                0 <= j < i ==> StoreView::record_bound(
                    #[trigger] state.records.key_of(j),
                    state.records@[state.records.key_of(j)],
                    party,
                ),
        decreases total - i,
    {
        let key = state.records.key_at(i);
        let record = state.records.value_at(i);
        let commitment_key = record.manifest.commitment.hex();
        let share_bound: bool = match &record.sealed_capability_key_share {
            None => true,
            Some(share) => share.order_commitment.same(&record.manifest.commitment)
                && digest_equal(
                &share.capability_commitment,
                &record.manifest.settlement_capability_commitment,
            ) && share.party == party,
        };
        if !text_equal(key, commitment_key.as_str()) || !record.manifest.commitment.same(
            &record.sealed.commitment,
        ) || record.sealed.party != party || !share_bound {
            assert(!StoreView::record_bound(key@, record@, party));
            assert(state@.records.dom().contains(key@));
            return false;
        }
        i += 1;
    }
    assert(state@.records_bound(party)) by {
        assert forall|key: Seq<char>| #[trigger]
            state@.records.dom().contains(key) implies StoreView::record_bound(
            key,
            state@.records[key],
            party,
        ) by {
            let j = choose|j: int|
                0 <= j < state.records.count() && #[trigger] state.records.key_of(j) == key;
            assert(state.records.key_of(j) == key);
        }
    }
    true
}

fn rounds_are_bound(state: &StoreState, party: u16, match_slots: u16) -> (bound: bool)
    requires
        state.wf(),
    ensures
        bound == state@.rounds_bound(party, match_slots),
{
    let total: usize = state.completed_rounds.len();
    let mut i: usize = 0;
    proof {
        state.completed_rounds.lemma_positions();
    }
    while i < total
        invariant
            state.wf(),
            total == state.completed_rounds.count(),
            i <= total,
            forall|j: int|
                0 <= j < i ==> {
                    let key = #[trigger] state.completed_rounds.key_of(j);
                    let receipt = state.completed_rounds@[key];
                    key == crate::store_model::round_key(receipt.round_id)
                        && StoreView::receipt_complete(receipt, party, match_slots)
                },
        decreases total - i,
    {
        let key = state.completed_rounds.key_at(i);
        let receipt = state.completed_rounds.value_at(i);
        let round_text = crate::bytes::hex_encode(&receipt.round_id);
        if !text_equal(key, round_text.as_str()) || !receipt_is_complete(
            receipt,
            party,
            match_slots,
        ) {
            assert(state@.completed_rounds.dom().contains(key@));
            return false;
        }
        i += 1;
    }
    assert(state@.rounds_bound(party, match_slots)) by {
        assert forall|key: Seq<char>| #[trigger]
            state@.completed_rounds.dom().contains(key) implies key
            == crate::store_model::round_key(state@.completed_rounds[key].round_id)
            && StoreView::receipt_complete(state@.completed_rounds[key], party, match_slots) by {
            let j = choose|j: int|
                0 <= j < state.completed_rounds.count() && #[trigger]
                state.completed_rounds.key_of(j) == key;
            assert(state.completed_rounds.key_of(j) == key);
        }
    }
    true
}

fn head_is_bound(state: &StoreState, key: &str, head: &PrivateBookStateRef, match_slots: u16) -> (
bound: bool)
    requires
        state.wf(),
    ensures
        bound == state@.head_bound(key@, *head, match_slots),
{
    let round = crate::bytes::hex_encode(&head.round_id);
    let receipt_agrees: bool = match state.completed_rounds.get(round.as_str()) {
        None => false,
        Some(receipt) => digest_equal(&receipt.private_state_sha256, &head.private_state_sha256),
    };
    let finalization_agrees: bool = match state.finalized_private_rounds.get(round.as_str()) {
        None => false,
        Some(finalization) => digest_equal(
            &finalization.transition_digest,
            &head.transition_digest,
        ) && digest_equal(
            &finalization.canonical_receipt_digest,
            &head.canonical_receipt_digest,
        ) && finalization.canonical_height == head.canonical_height,
    };
    !(!state.records.contains_key(key) || digest_is_zero(&head.round_id) || digest_is_zero(
        &head.private_state_sha256,
    ) || head.wire_offset as usize > match_slots as usize * 4 || head.wire_offset % 4 != 0
        || digest_is_zero(&head.transition_digest) || digest_is_zero(
        &head.canonical_receipt_digest,
    ) || head.canonical_height == 0 || !receipt_agrees || !finalization_agrees)
}

fn heads_are_bound(state: &StoreState, match_slots: u16) -> (bound: bool)
    requires
        state.wf(),
    ensures
        bound == state@.heads_bound(match_slots),
{
    let total: usize = state.private_heads.len();
    let mut i: usize = 0;
    proof {
        state.private_heads.lemma_positions();
    }
    while i < total
        invariant
            state.wf(),
            total == state.private_heads.count(),
            i <= total,
            forall|j: int|
                0 <= j < i ==> state@.head_bound(
                    #[trigger] state.private_heads.key_of(j),
                    state.private_heads@[state.private_heads.key_of(j)],
                    match_slots,
                ),
        decreases total - i,
    {
        let key = state.private_heads.key_at(i);
        let head = state.private_heads.value_at(i);
        if !head_is_bound(state, key, head, match_slots) {
            assert(state@.private_heads.dom().contains(key@));
            return false;
        }
        i += 1;
    }
    assert(state@.heads_bound(match_slots)) by {
        assert forall|key: Seq<char>| #[trigger]
            state@.private_heads.dom().contains(key) implies state@.head_bound(
            key,
            state@.private_heads[key],
            match_slots,
        ) by {
            let j = choose|j: int|
                0 <= j < state.private_heads.count() && #[trigger] state.private_heads.key_of(j)
                    == key;
            assert(state.private_heads.key_of(j) == key);
        }
    }
    true
}

fn finalizations_are_bound(state: &StoreState) -> (bound: bool)
    requires
        state.wf(),
    ensures
        bound == state@.finalizations_bound(),
{
    let total: usize = state.finalized_private_rounds.len();
    let mut i: usize = 0;
    proof {
        state.finalized_private_rounds.lemma_positions();
    }
    while i < total
        invariant
            state.wf(),
            total == state.finalized_private_rounds.count(),
            i <= total,
            forall|j: int|
                0 <= j < i ==> state@.finalization_bound(
                    #[trigger] state.finalized_private_rounds.key_of(j),
                    state.finalized_private_rounds@[state.finalized_private_rounds.key_of(j)],
                ),
        decreases total - i,
    {
        let key = state.finalized_private_rounds.key_at(i);
        let finalization = state.finalized_private_rounds.value_at(i);
        let receipt_agrees: bool = match state.completed_rounds.get(key) {
            None => false,
            Some(receipt) => digest_equal(
                &receipt.public_output_sha256,
                &finalization.public_output_sha256,
            ),
        };
        if digest_is_zero(&finalization.public_output_sha256) || digest_is_zero(
            &finalization.transition_digest,
        ) || digest_is_zero(&finalization.canonical_receipt_digest) || finalization.canonical_height
            == 0 || !receipt_agrees {
            assert(!state@.finalization_bound(key@, *finalization));
            assert(state@.finalized_private_rounds.dom().contains(key@));
            return false;
        }
        i += 1;
    }
    assert(state@.finalizations_bound()) by {
        assert forall|key: Seq<char>| #[trigger]
            state@.finalized_private_rounds.dom().contains(key) implies state@.finalization_bound(
            key,
            state@.finalized_private_rounds[key],
        ) by {
            let j = choose|j: int|
                0 <= j < state.finalized_private_rounds.count() && #[trigger]
                state.finalized_private_rounds.key_of(j) == key;
            assert(state.finalized_private_rounds.key_of(j) == key);
        }
    }
    true
}

/// Check a stored state before a node works with it.
pub fn check_state(state: &StoreState, party: u16, match_slots: u16) -> (r: Result<(), NodeError>)
    requires
        state.wf(),
    ensures
        r is Ok == state@.reopens(party, match_slots),
        r is Ok == state@.reopen_fault(party, match_slots) is None,
        r matches Err(e) ==> Some(e@) == state@.reopen_fault(party, match_slots),
{
    if !chain_is_consistent(state, party) {
        return Err(
            NodeError::State("node share store has an invalid party or ordering chain".to_owned()),
        );
    }
    if !records_are_bound(state, party) {
        return Err(NodeError::State("node share store contains a misbound record".to_owned()));
    }
    if !rounds_are_bound(state, party, match_slots) {
        return Err(
            NodeError::State("node share store contains a misbound completed round".to_owned()),
        );
    }
    if !heads_are_bound(state, match_slots) {
        return Err(
            NodeError::State("node share store contains a misbound private-state head".to_owned()),
        );
    }
    if !finalizations_are_bound(state) {
        return Err(
            NodeError::State(
                "node share store contains a misbound private-state finalization".to_owned(),
            ),
        );
    }
    Ok(())
}

/// The state of a store that predates ordering.
pub struct LegacyStoreStateV2 {
    pub version: u16,
    pub party: u16,
    pub generation: u64,
    pub records: TextMap<StoredRecord>,
}

/// A payload read as each shape that a version may have, where it reads.
pub struct ParsedStore {
    pub state: Option<StoreState>,
    pub legacy: Option<LegacyStoreStateV2>,
}

impl ParsedStore {
    pub open spec fn wf(&self) -> bool {
        &&& self.state matches Some(state) ==> state.wf()
        &&& self.legacy matches Some(legacy) ==> legacy.records.wf()
    }
}

/// A store file and what its payload reads as.
pub struct StoreFile {
    pub encoded: Vec<u8>,
    pub parsed: ParsedStore,
}

/// A state without its completed rounds, at the current version. Receipts of
/// earlier versions predate durable private state and must not authorize a
/// capability release after a migration.
pub open spec fn migrated(state: StoreView) -> StoreView {
    StoreView { version: STORE_VERSION, completed_rounds: Map::empty(), ..state }
}

/// A state of the version that predates ordering, at the current version.
pub open spec fn migrated_v2(
    party: u16,
    generation: u64,
    records: Map<Seq<char>, RecordView>,
) -> StoreView {
    StoreView { generation, records, ..StoreView::empty(party) }
}

/// The state that a payload of a given version stands for, and whether it was
/// migrated; or why there is none.
pub open spec fn payload_state(version: Option<Option<u64>>, parsed: &ParsedStore) -> Result<
    (StoreView, bool),
    NodeFault,
> {
    match version {
        None => Err(NodeFault::State("node share store payload is invalid"@)),
        Some(None) => Err(NodeFault::State("node share store version is invalid"@)),
        Some(Some(number)) => if number > u16::MAX {
            Err(NodeFault::State("node share store version is invalid"@))
        } else if number == 5 {
            match parsed.state {
                None => Err(NodeFault::State("node share store payload is invalid"@)),
                Some(state) => if state.version != 5 {
                    Err(NodeFault::State("node share store version is invalid"@))
                } else {
                    Ok((state@, false))
                },
            }
        } else if number == 4 {
            match parsed.state {
                None => Err(NodeFault::State("legacy v4 node store payload is invalid"@)),
                Some(state) => if state.version != 4 {
                    Err(NodeFault::State("legacy v4 node store version is invalid"@))
                } else {
                    Ok((migrated(state@), true))
                },
            }
        } else if number == 3 {
            match parsed.state {
                None => Err(NodeFault::State("legacy v3 node store payload is invalid"@)),
                Some(state) => if state.version != 3 {
                    Err(NodeFault::State("legacy v3 node store version is invalid"@))
                } else {
                    Ok((migrated(state@), true))
                },
            }
        } else if number == 2 {
            match parsed.legacy {
                None => Err(NodeFault::State("legacy node store payload is invalid"@)),
                Some(legacy) => if legacy.version != 2 {
                    Err(NodeFault::State("legacy node store version is invalid"@))
                } else {
                    Ok((migrated_v2(legacy.party, legacy.generation, legacy.records@), true))
                },
            }
        } else {
            Err(NodeFault::State("node share store belongs to an unsupported version"@))
        },
    }
}

/// The state that a store file's payload gives a node, or why it gives none.
pub open spec fn reopened_state(
    version: Option<Option<u64>>,
    parsed: &ParsedStore,
    party: u16,
    match_slots: u16,
) -> Result<(StoreView, bool), NodeFault> {
    match payload_state(version, parsed) {
        Err(fault) => Err(fault),
        Ok(pair) => match pair.0.reopen_fault(party, match_slots) {
            Some(fault) => Err(fault),
            None => Ok(pair),
        },
    }
}

/// Migrate and check a payload whose version number has been read.
pub fn interpret_state(
    version: Option<Option<u64>>,
    parsed: ParsedStore,
    party: u16,
    match_slots: u16,
) -> (r: Result<(StoreState, bool), NodeError>)
    requires
        parsed.wf(),
    ensures
        r matches Ok(pair) ==> pair.0.wf() && reopened_state(version, &parsed, party, match_slots)
            == Ok::<(StoreView, bool), NodeFault>((pair.0@, pair.1)),
        r matches Err(e) ==> reopened_state(version, &parsed, party, match_slots) == Err::<
            (StoreView, bool),
            NodeFault,
        >(e@),
{
    let ParsedStore { state: parsed_state, legacy: parsed_legacy } = parsed;
    let number: u64 = match version {
        None => {
            return Err(NodeError::State("node share store payload is invalid".to_owned()));
        },
        Some(None) => {
            return Err(NodeError::State("node share store version is invalid".to_owned()));
        },
        Some(Some(number)) => number,
    };
    if number > u16::MAX as u64 {
        return Err(NodeError::State("node share store version is invalid".to_owned()));
    }
    let state: StoreState;
    let was_migrated: bool;
    if number == STORE_VERSION as u64 {
        match parsed_state {
            None => {
                return Err(NodeError::State("node share store payload is invalid".to_owned()));
            },
            Some(current) => {
                if current.version != STORE_VERSION {
                    return Err(
                        NodeError::State("node share store version is invalid".to_owned()),
                    );
                }
                state = current;
                was_migrated = false;
            },
        }
    } else if number == LEGACY_STORE_VERSION_V4 as u64 {
        match parsed_state {
            None => {
                return Err(NodeError::State("legacy v4 node store payload is invalid".to_owned()));
            },
            Some(mut legacy) => {
                if legacy.version != LEGACY_STORE_VERSION_V4 {
                    return Err(
                        NodeError::State("legacy v4 node store version is invalid".to_owned()),
                    );
                }
                legacy.completed_rounds.clear();
                legacy.version = STORE_VERSION;
                state = legacy;
                was_migrated = true;
            },
        }
    } else if number == LEGACY_STORE_VERSION_V3 as u64 {
        match parsed_state {
            None => {
                return Err(NodeError::State("legacy v3 node store payload is invalid".to_owned()));
            },
            Some(mut legacy) => {
                if legacy.version != LEGACY_STORE_VERSION_V3 {
                    return Err(
                        NodeError::State("legacy v3 node store version is invalid".to_owned()),
                    );
                }
                legacy.completed_rounds.clear();
                legacy.version = STORE_VERSION;
                state = legacy;
                was_migrated = true;
            },
        }
    } else if number == LEGACY_STORE_VERSION_V2 as u64 {
        match parsed_legacy {
            None => {
                return Err(NodeError::State("legacy node store payload is invalid".to_owned()));
            },
            Some(legacy) => {
                if legacy.version != LEGACY_STORE_VERSION_V2 {
                    return Err(NodeError::State("legacy node store version is invalid".to_owned()));
                }
                let mut fresh = empty_state(legacy.party);
                fresh.generation = legacy.generation;
                fresh.records = legacy.records;
                state = fresh;
                was_migrated = true;
            },
        }
    } else {
        return Err(
            NodeError::State("node share store belongs to an unsupported version".to_owned()),
        );
    }
    match check_state(&state, party, match_slots) {
        Err(error) => Err(error),
        Ok(_) => Ok((state, was_migrated)),
    }
}

/// The state that a store file gives a node, or why it gives none.
pub open spec fn file_state(
    encoded: Seq<u8>,
    parsed: &ParsedStore,
    party: u16,
    match_slots: u16,
) -> Result<(StoreView, bool), NodeFault> {
    match frame_fault(encoded) {
        Some(fault) => Err(fault),
        None => reopened_state(
            json_number(encoded.subrange(16, encoded.len() - 32), "version"@),
            parsed,
            party,
            match_slots,
        ),
    }
}

/// Read a node's state from its store file. `parsed` is what the payload reads
/// as.
pub fn read_state(encoded: &[u8], parsed: ParsedStore, expected_party: u16, match_slots: u16) -> (r:
    Result<(StoreState, bool), NodeError>)
    requires
        parsed.wf(),
    ensures
        r matches Ok(pair) ==> pair.0.wf() && file_state(
            encoded@,
            &parsed,
            expected_party,
            match_slots,
        ) == Ok::<(StoreView, bool), NodeFault>((pair.0@, pair.1)),
        r matches Err(e) ==> file_state(encoded@, &parsed, expected_party, match_slots) == Err::<
            (StoreView, bool),
            NodeFault,
        >(e@),
{
    match decode_store(encoded) {
        Err(error) => Err(error),
        Ok(payload) => {
            let version: Option<Option<u64>> = json_u64_field(payload.as_slice(), "version");
            interpret_state(version, parsed, expected_party, match_slots)
        },
    }
}

/// A state that was read is at the current version, and was migrated exactly
/// where the file's own version was an earlier one. No receipt of an earlier
/// version survives its migration.
pub proof fn lemma_read_state_is_current(
    encoded: Seq<u8>,
    parsed: &ParsedStore,
    party: u16,
    match_slots: u16,
)
    requires
        file_state(encoded, parsed, party, match_slots) is Ok,
    ensures
        ({
            let pair = file_state(encoded, parsed, party, match_slots)->Ok_0;
            let stored = json_number(encoded.subrange(16, encoded.len() - 32), "version"@);
            &&& pair.0.version == 5
            &&& pair.0.party == party
            &&& stored matches Some(Some(number)) && 2 <= number <= 5
            &&& pair.1 <==> (stored matches Some(Some(number)) && 2 <= number <= 4)
            &&& pair.1 ==> pair.0.completed_rounds == Map::<
                Seq<char>,
                crate::executor::ReceiptView,
            >::empty()
        }),
{
}

/// What reading back a written state takes: the payload's version field, and a
/// payload that reads as the state.
pub open spec fn payload_of(payload: Seq<u8>, parsed: &ParsedStore, store: StoreView) -> bool {
    &&& payload.len() <= MAX_STORE_BYTES
    &&& json_number(payload, "version"@) == Some(Some(5u64))
    &&& parsed.state matches Some(state) && state@ == store
}

/// A store that was written and opened again by its own party has the same
/// state, nothing to migrate and the same status; another party is refused.
pub proof fn lemma_reopened_store_is_unchanged(
    payload: Seq<u8>,
    parsed: &ParsedStore,
    store: StoreView,
    other: u16,
    match_slots: u16,
    before: &NodeStoreStatus,
    after: &NodeStoreStatus,
)
    requires
        payload_of(payload, parsed, store),
        store.version == 5,
        store.reopens(store.party, match_slots),
        status_shows(before, store, payload),
        status_shows(
            after,
            (file_state(store_frame(payload), parsed, store.party, match_slots)->Ok_0).0,
            payload,
        ),
    ensures
        file_state(store_frame(payload), parsed, store.party, match_slots) == Ok::<
            (StoreView, bool),
            NodeFault,
        >((store, false)),
        *before == *after,
        other != store.party ==> file_state(store_frame(payload), parsed, other, match_slots)
            is Err,
{
    lemma_frame_round_trip(payload);
    crate::bytes::lemma_digest_view(before.state_digest, after.state_digest);
}

/// A store file in which one byte was changed is refused, unless SHA-256 maps
/// the changed payload to the digest of the written one.
pub proof fn lemma_changed_file_is_refused(
    payload: Seq<u8>,
    at: int,
    byte: u8,
    parsed: &ParsedStore,
    party: u16,
    match_slots: u16,
)
    requires
        payload.len() <= MAX_STORE_BYTES,
        0 <= at < store_frame(payload).len(),
        byte != store_frame(payload)[at],
        16 <= at < 16 + payload.len() ==> sha256(payload.update(at - 16, byte)) != sha256(payload),
    ensures
        file_state(store_frame(payload).update(at, byte), parsed, party, match_slots) is Err,
{
    lemma_frame_round_trip(payload);
    lemma_magic();
    lemma_u64_big_endian(payload.len() as u64);
    let written = store_frame(payload);
    let changed = written.update(at, byte);
    assert(written.len() == payload.len() + 48);
    assert(changed.len() == written.len());
    if at < 8 {
        assert(changed.take(8)[at] == byte);
        assert(written.take(8)[at] == written[at]);
    } else if at < 16 {
        let length = changed.subrange(8, 16);
        assert(length[at - 8] == byte);
        assert(written.subrange(8, 16)[at - 8] == written[at]);
        lemma_big_endian_value_round_trip(length);
        lemma_big_endian_value_round_trip(written.subrange(8, 16));
    } else if at < 16 + payload.len() {
        assert(changed.subrange(16, changed.len() - 32) =~= payload.update(at - 16, byte));
        assert(changed.skip(changed.len() - 32) =~= written.skip(written.len() - 32));
    } else {
        assert(changed.subrange(16, changed.len() - 32) =~= payload);
        assert(changed.skip(changed.len() - 32)[at - (changed.len() - 32)] == byte);
        assert(written.skip(written.len() - 32)[at - (written.len() - 32)] == written[at]);
    }
}

} // verus!
