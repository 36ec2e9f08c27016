//! Node-local share custody and matching-input preparation.
//!
//! Each store belongs to one party. It holds public manifests and ciphertext
//! addressed to that node. What only key material or a file can tell (whether
//! a share opens, what a private state file holds) is handed in.

use crate::bytes::{
    digest_equal, digest_is_zero, hex_encode, push_all, push_big_endian, push_text, push_u16,
    push_u64, sha256, sha256_digest, text_bytes, Digest32,
};
use crate::executor::{push_commitments, NodeExecutionReceipt, RoundPlan};
use crate::store_file::{file_state, read_state, StoreFile};
use crate::store_model::{
    joined, private_state_fault, release_permitted, round_commitment_bytes, round_key,
    IngestOutcome, NodeFault, PrivateBookStateRef, PrivateRoundFinalization, PrivateStateFinality,
    PrivateStateView, RecordView, RestingView, StoreView, StoredOrderVote, MAX_PRIVATE_STATE_BYTES,
    STORE_VERSION,
};
use crate::text::{append_decimal, append_text};
use crate::text::joined_text;
use crate::text_map::{text_equal, TextMap};
use crate::types::{
    commitment_position, commitments_distinct, EdgeOrderManifest, MpcBatchResult, OrderCertificate,
    OrderCommitment, PartyOrderShare, SealedCapabilityKeyShare, SealedCapabilityView,
    SealedPartyShare, MPC_PARTIES,
};
use std::collections::BTreeMap;
use vstd::prelude::*;

verus! {

broadcast use vstd::std_specs::btree::group_btree_axioms;

#[derive(Clone, Debug, PartialEq, Eq)]
pub enum NodeError {
    Party,
    Admission(String),
    Conflict,
    Generation,
    UnknownOrder,
    Round(String),
    OrderingState(String),
    Release(String),
    PrivateState(String),
    State(String),
    UnsafePath(String),
    Io(String),
}

impl View for NodeError {
    type V = NodeFault;

    open spec fn view(&self) -> NodeFault {
        match *self {
            NodeError::Party => NodeFault::Party,
            NodeError::Admission(text) => NodeFault::Admission(text@),
            NodeError::Conflict => NodeFault::Conflict,
            NodeError::Generation => NodeFault::Generation,
            NodeError::UnknownOrder => NodeFault::UnknownOrder,
            NodeError::Round(text) => NodeFault::Round(text@),
            NodeError::OrderingState(text) => NodeFault::OrderingState(text@),
            NodeError::Release(text) => NodeFault::Release(text@),
            NodeError::PrivateState(text) => NodeFault::PrivateState(text@),
            NodeError::State(text) => NodeFault::State(text@),
            NodeError::UnsafePath(text) => NodeFault::UnsafePath(text@),
            NodeError::Io(text) => NodeFault::Io(text@),
        }
    }
}

impl NodeError {
    pub open spec fn text(&self) -> Seq<char> {
        match *self {
            NodeError::Party => "MPC party index is invalid"@,
            NodeError::Admission(text) => "share admission failed: "@ + text@,
            NodeError::Conflict =>
                "another ciphertext already exists for the same order commitment"@,
            NodeError::Generation => "node share store generation overflowed"@,
            NodeError::UnknownOrder => "round references an unknown order"@,
            NodeError::Round(text) => "round plan is invalid: "@ + text@,
            NodeError::OrderingState(text) => "ordering state is invalid: "@ + text@,
            NodeError::Release(text) => "settlement capability release rejected: "@ + text@,
            NodeError::PrivateState(text) => "party-local private book state is invalid: "@ + text@,
            NodeError::State(text) => "node state is invalid: "@ + text@,
            NodeError::UnsafePath(text) => "unsafe node-store path: "@ + text@,
            NodeError::Io(text) => text@,
        }
    }

    /// The text that a caller reports.
    pub fn message(&self) -> (text: String)
        ensures
            text@ == self.text(),
    {
        match self {
            NodeError::Party => "MPC party index is invalid".to_owned(),
            NodeError::Admission(text) => joined_text("share admission failed: ", text.as_str()),
            NodeError::Conflict =>
            "another ciphertext already exists for the same order commitment".to_owned(),
            NodeError::Generation => "node share store generation overflowed".to_owned(),
            NodeError::UnknownOrder => "round references an unknown order".to_owned(),
            NodeError::Round(text) => joined_text("round plan is invalid: ", text.as_str()),
            NodeError::OrderingState(text) => joined_text(
                "ordering state is invalid: ",
                text.as_str(),
            ),
            NodeError::Release(text) => joined_text(
                "settlement capability release rejected: ",
                text.as_str(),
            ),
            NodeError::PrivateState(text) => joined_text(
                "party-local private book state is invalid: ",
                text.as_str(),
            ),
            NodeError::State(text) => joined_text("node state is invalid: ", text.as_str()),
            NodeError::UnsafePath(text) => joined_text(
                "unsafe node-store path: ",
                text.as_str(),
            ),
            NodeError::Io(text) => text.clone(),
        }
    }
}

/// A result with its error as the model names it.
pub open spec fn node_result<T>(r: Result<T, NodeError>) -> Result<T, NodeFault> {
    match r {
        Ok(value) => Ok(value),
        Err(error) => Err(error@),
    }
}

/// A result with its error text as characters.
pub open spec fn text_result<T>(r: Result<T, String>) -> Result<T, Seq<char>> {
    match r {
        Ok(value) => Ok(value),
        Err(text) => Err(text@),
    }
}

pub struct StoredRecord {
    pub manifest: EdgeOrderManifest,
    pub sealed: SealedPartyShare,
    pub sealed_capability_key_share: Option<SealedCapabilityKeyShare>,
    pub admitted_at: u64,
}

pub open spec fn capability_view(share: Option<SealedCapabilityKeyShare>) -> Option<
    SealedCapabilityView,
> {
    match share {
        Some(share) => Some(share@),
        None => None,
    }
}

impl View for StoredRecord {
    type V = RecordView;

    open spec fn view(&self) -> RecordView {
        RecordView {
            manifest: self.manifest@,
            sealed: self.sealed@,
            sealed_capability_key_share: capability_view(self.sealed_capability_key_share),
            admitted_at: self.admitted_at,
        }
    }
}

/// The durable state of one node.
pub struct StoreState {
    pub version: u16,
    pub party: u16,
    pub generation: u64,
    pub records: TextMap<StoredRecord>,
    pub completed_rounds: TextMap<NodeExecutionReceipt>,
    pub ordering_sequence: u64,
    pub ordering_head: Digest32,
    pub ordering_votes: BTreeMap<u64, StoredOrderVote>,
    pub ordered_commitments: TextMap<()>,
    pub private_heads: TextMap<PrivateBookStateRef>,
    pub finalized_private_rounds: TextMap<PrivateRoundFinalization>,
}

impl View for StoreState {
    type V = StoreView;

    open spec fn view(&self) -> StoreView {
        StoreView {
            version: self.version,
            party: self.party,
            generation: self.generation,
            records: self.records@,
            completed_rounds: self.completed_rounds@,
            ordering_sequence: self.ordering_sequence,
            ordering_head: self.ordering_head,
            ordering_votes: self.ordering_votes@,
            ordered_commitments: self.ordered_commitments@.dom(),
            private_heads: self.private_heads@,
            finalized_private_rounds: self.finalized_private_rounds@,
        }
    }
}

impl StoreState {
    pub open spec fn wf(&self) -> bool {
        &&& self.records.wf()
        &&& self.completed_rounds.wf()
        &&& self.ordered_commitments.wf()
        &&& self.private_heads.wf()
        &&& self.finalized_private_rounds.wf()
    }
}

/// A private state file as it was found.
pub enum PrivateStateFile {
    Unbound,
    Symlink,
    Unreadable(String),
    Present {
        regular: bool,
        length: u64,
        bytes: Vec<u8>,
        /// The decimal shares, each where it decodes, or why the file has none.
        shares: Result<Vec<Result<String, String>>, String>,
    },
}

pub open spec fn share_view(share: Result<String, String>) -> Result<Seq<char>, Seq<char>> {
    match share {
        Ok(text) => Ok(text@),
        Err(text) => Err(text@),
    }
}

impl View for PrivateStateFile {
    type V = PrivateStateView;

    open spec fn view(&self) -> PrivateStateView {
        match *self {
            PrivateStateFile::Unbound => PrivateStateView::Unbound,
            PrivateStateFile::Symlink => PrivateStateView::Symlink,
            PrivateStateFile::Unreadable(text) => PrivateStateView::Unreadable(text@),
            PrivateStateFile::Present { regular, length, bytes, shares } =>
            PrivateStateView::Present {
                regular,
                length,
                bytes: bytes@,
                shares: match shares {
                    Ok(list) => Ok(share_views(list@)),
                    Err(text) => Err(text@),
                },
            },
        }
    }
}

/// The outcome of opening one order share with this node's key.
pub struct OpenedShare {
    pub outcome: Result<PartyOrderShare, String>,
}

impl View for OpenedShare {
    type V = Result<Seq<Seq<char>>, Seq<char>>;

    open spec fn view(&self) -> Result<Seq<Seq<char>>, Seq<char>> {
        match self.outcome {
            Ok(share) => Ok(Seq::new(6, |i: int| share.decimals@[i]@)),
            Err(text) => Err(text@),
        }
    }
}

/// What a node has at hand of one resting order when it prepares a round.
pub struct RestingInput {
    pub opened: OpenedShare,
    pub file: PrivateStateFile,
}

impl View for RestingInput {
    type V = RestingView;

    open spec fn view(&self) -> RestingView {
        RestingView { opened: self.opened@, file: self.file@ }
    }
}

pub open spec fn resting_views(inputs: Seq<RestingInput>) -> Seq<RestingView> {
    Seq::new(inputs.len(), |i: int| inputs[i]@)
}

/// A node-owned input of the matching engine. It has no `Debug` and no
/// serialization.
pub struct PreparedPartyInput {
    pub party: u16,
    pub generation: u64,
    pub round_commitment: Digest32,
    pub private_parent_digest: Digest32,
    pub contents: Vec<u8>,
}

impl PreparedPartyInput {
    pub fn party(&self) -> (party: u16)
        ensures
            party == self.party,
    {
        self.party
    }

    pub fn generation(&self) -> (generation: u64)
        ensures
            generation == self.generation,
    {
        self.generation
    }

    pub fn round_commitment(&self) -> (commitment: Digest32)
        ensures
            commitment == self.round_commitment,
    {
        self.round_commitment
    }

    pub fn private_parent_digest(&self) -> (digest: Digest32)
        ensures
            digest == self.private_parent_digest,
    {
        self.private_parent_digest
    }

    /// What is written for the local party, unless the destination is there
    /// already. The caller removes it after execution.
    pub fn write_exclusive(&self, destination_exists: bool) -> (r: Result<&Vec<u8>, NodeError>)
        ensures
            r is Ok == !destination_exists,
            r matches Ok(contents) ==> contents@ == self.contents@,
            r matches Err(e) ==> e@ == NodeFault::UnsafePath(
                "party input destination already exists"@,
            ),
    {
        if destination_exists {
            return Err(
                NodeError::UnsafePath("party input destination already exists".to_owned()),
            );
        }
        Ok(&self.contents)
    }
}

#[derive(Clone, Debug, PartialEq, Eq)]
pub struct NodeStoreStatus {
    pub party: u16,
    pub generation: u64,
    pub record_count: usize,
    pub completed_round_count: usize,
    pub private_head_count: usize,
    pub finalized_private_round_count: usize,
    pub ordering_sequence: u64,
    pub ordering_head: Digest32,
    pub state_digest: Digest32,
}

impl PrivateStateFinality {
    pub fn validate(&self) -> (r: Result<(), NodeError>)
        ensures
            r is Ok == self.complete(),
            r matches Err(e) ==> e@ == NodeFault::PrivateState(
                "canonical finality binding is incomplete"@,
            ),
    {
        if digest_is_zero(&self.round_id) || digest_is_zero(&self.public_output_sha256)
            || digest_is_zero(&self.transition_digest) || digest_is_zero(
            &self.canonical_receipt_digest,
        ) || self.canonical_height == 0 {
            return Err(
                NodeError::PrivateState("canonical finality binding is incomplete".to_owned()),
            );
        }
        Ok(())
    }
}

/// Check one private state file against the digest that a receipt or a head
/// names.
pub fn verify_private_state_file(
    file: &PrivateStateFile,
    expected_digest: &Digest32,
    match_slots: u16,
) -> (r: Result<(), NodeError>)
    ensures
        r is Ok == private_state_fault(file@, *expected_digest, match_slots) is None,
        r matches Err(e) ==> Some(e@) == private_state_fault(file@, *expected_digest, match_slots),
{
    match file {
        PrivateStateFile::Unbound => Err(
            NodeError::PrivateState("private state root is not bound".to_owned()),
        ),
        PrivateStateFile::Symlink => Err(
            NodeError::UnsafePath("symlink paths are rejected".to_owned()),
        ),
        PrivateStateFile::Unreadable(text) => Err(NodeError::Io(text.clone())),
        PrivateStateFile::Present { regular, length, bytes, shares } => {
            if !*regular || *length == 0 || *length > MAX_PRIVATE_STATE_BYTES {
                return Err(
                    NodeError::PrivateState(
                        "party-local private state file has an unsafe size or type".to_owned(),
                    ),
                );
            }
            let digest = sha256_digest(bytes.as_slice());
            if !digest_equal(&digest, expected_digest) {
                return Err(
                    NodeError::PrivateState("party-local private state digest changed".to_owned()),
                );
            }
            match shares {
                Err(text) => Err(NodeError::PrivateState(text.clone())),
                Ok(list) => {
                    let expected: usize = match_slots as usize * 4 + 4;
                    if list.len() != expected {
                        let mut text: String = "private state contains ".to_owned();
                        append_decimal(&mut text, list.len() as u64);
                        append_text(&mut text, " shares; expected ");
                        append_decimal(&mut text, expected as u64);
                        return Err(NodeError::PrivateState(text));
                    }
                    Ok(())
                },
            }
        },
    }
}

/// The share store of one node.
pub struct NodeShareStore {
    state: StoreState,
    match_slots: u16,
}

impl View for NodeShareStore {
    type V = StoreView;

    closed spec fn view(&self) -> StoreView {
        self.state@
    }
}

/// The status of a store whose state has the encoding `payload`.
pub open spec fn status_shows(status: &NodeStoreStatus, store: StoreView, payload: Seq<u8>) -> bool {
    &&& status.party == store.party
    &&& status.generation == store.generation
    &&& status.record_count == store.records.dom().len()
    &&& status.completed_round_count == store.completed_rounds.dom().len()
    &&& status.private_head_count == store.private_heads.dom().len()
    &&& status.finalized_private_round_count == store.finalized_private_rounds.dom().len()
    &&& status.ordering_sequence == store.ordering_sequence
    &&& status.ordering_head == store.ordering_head
    &&& status.state_digest@ == sha256(payload)
}

impl NodeShareStore {
    /// The state is well formed and at the current version.
    pub closed spec fn wf(&self) -> bool {
        self.state.wf() && self.state.version == STORE_VERSION
    }

    /// How many resting orders one matching round takes.
    pub closed spec fn slots(&self) -> u16 {
        self.match_slots
    }

    /// The state to write to disk.
    pub fn state(&self) -> (state: &StoreState)
        requires
            self.wf(),
        ensures
            state.wf(),
            state@ == self@,
            state.version == STORE_VERSION,
    {
        &self.state
    }

    /// Close the store and give its state.
    pub fn into_state(self) -> (state: StoreState)
        requires
            self.wf(),
        ensures
            state.wf(),
            state@ == self@,
            state.version == STORE_VERSION,
    {
        self.state
    }

    /// Put back a state that was read before, after a write failed.
    pub fn restore(&mut self, previous: StoreState)
        requires
            old(self).wf(),
            previous.wf(),
            previous.version == STORE_VERSION,
        ensures
            final(self).wf(),
            final(self)@ == previous@,
            final(self).slots() == old(self).slots(),
    {
        self.state = previous;
    }

    /// What the node reports of its store. `payload` is the encoding of the
    /// state.
    pub fn status(&self, payload: &[u8]) -> (status: NodeStoreStatus)
        requires
            self.wf(),
        ensures
            status_shows(&status, self@, payload@),
    {
        NodeStoreStatus {
            party: self.state.party,
            generation: self.state.generation,
            record_count: self.state.records.len(),
            completed_round_count: self.state.completed_rounds.len(),
            private_head_count: self.state.private_heads.len(),
            finalized_private_round_count: self.state.finalized_private_rounds.len(),
            ordering_sequence: self.state.ordering_sequence,
            ordering_head: self.state.ordering_head,
            state_digest: sha256_digest(payload),
        }
    }

    /// The record of an admitted order.
    pub fn record(&self, commitment: &OrderCommitment) -> (record: Option<&StoredRecord>)
        requires
            self.wf(),
        ensures
            record is Some == self@.records.dom().contains(commitment.key()),
            record matches Some(r) ==> r@ == self@.records[commitment.key()],
    {
        let key = commitment.hex();
        self.state.records.get(key.as_str())
    }

    fn bump_generation(&mut self) -> (r: Result<(), NodeError>)
        requires
            old(self).wf(),
        ensures
            final(self).wf(),
            final(self).slots() == old(self).slots(),
            r is Ok == (old(self)@.generation < u64::MAX),
            r is Ok ==> final(self)@ == old(self)@.next_generation(),
            r matches Err(e) ==> e@ == NodeFault::Generation && final(self)@ == old(self)@,
    {
        match self.state.generation.checked_add(1) {
            Some(next) => {
                self.state.generation = next;
                Ok(())
            },
            None => Err(NodeError::Generation),
        }
    }

    /// Admit one order. The two outcomes say whether this node's key opens the
    /// order share and the capability-key share for this manifest.
    pub fn ingest(
        &mut self,
        manifest: EdgeOrderManifest,
        sealed: SealedPartyShare,
        sealed_capability_key_share: SealedCapabilityKeyShare,
        share_opens: Result<(), String>,
        capability_opens: Result<(), String>,
        now: u64,
    ) -> (r: Result<IngestOutcome, NodeError>)
        requires
            old(self).wf(),
        ensures
            final(self).wf(),
            final(self).slots() == old(self).slots(),
            (final(self)@, node_result(r)) == old(self)@.ingest(
                manifest@,
                sealed@,
                sealed_capability_key_share@,
                text_result(share_opens),
                text_result(capability_opens),
                now,
            ),
    {
        match share_opens {
            Err(text) => return Err(NodeError::Admission(text)),
            Ok(_) => {},
        }
        match capability_opens {
            Err(text) => return Err(NodeError::Admission(text)),
            Ok(_) => {},
        }
        let key = manifest.commitment.hex();
        match self.state.records.get(key.as_str()) {
            Some(existing) => {
                let same_capability: bool = match &existing.sealed_capability_key_share {
                    Some(held) => held.same(&sealed_capability_key_share),
                    None => false,
                };
                return if existing.manifest.same(&manifest) && existing.sealed.same(&sealed)
                    && same_capability {
                    Ok(IngestOutcome::AlreadyPresent { generation: self.state.generation })
                } else {
                    Err(NodeError::Conflict)
                };
            },
            None => {},
        }
        let incoming = StoredRecord {
            manifest,
            sealed,
            sealed_capability_key_share: Some(sealed_capability_key_share),
            admitted_at: now,
        };
        self.state.records.insert(key, incoming);
        match self.bump_generation() {
            Err(error) => Err(error),
            Ok(_) => Ok(IngestOutcome::Stored { generation: self.state.generation }),
        }
    }

    /// Record one node's anti-equivocation decision before its ordering
    /// signature leaves. A coordinator can retry the same statement, but it
    /// cannot obtain a second vote for the same live sequence from this node.
    /// `statement_digest` is the digest of the statement voted for.
    pub fn record_order_vote(
        &mut self,
        market_id: &str,
        sequence: u64,
        commitment: OrderCommitment,
        previous_certificate: Digest32,
        expires_at: u64,
        statement_digest: Digest32,
        now: u64,
    ) -> (r: Result<Digest32, NodeError>)
        requires
            old(self).wf(),
        ensures
            final(self).wf(),
            final(self).slots() == old(self).slots(),
            (final(self)@, node_result(r)) == old(self)@.record_order_vote(
                market_id@,
                sequence,
                commitment,
                previous_certificate,
                expires_at,
                statement_digest,
                now,
            ),
    {
        let expected_sequence: u64 = match self.state.ordering_sequence.checked_add(1) {
            Some(next) => next,
            None => return Err(NodeError::Generation),
        };
        let key = commitment.hex();
        let extends: bool = match self.state.records.get(key.as_str()) {
            None => return Err(NodeError::UnknownOrder),
            Some(record) => {
                !(market_id.is_empty() || market_id.as_bytes().len() > 64 || sequence
                    != expected_sequence || !digest_equal(
                    &previous_certificate,
                    &self.state.ordering_head,
                ) || now > expires_at || !text_equal(
                    record.manifest.market_id.as_str(),
                    market_id,
                ) || expires_at > record.manifest.retention_deadline
                    || self.state.ordered_commitments.contains_key(key.as_str()))
            },
        };
        if !extends {
            return Err(
                NodeError::OrderingState(
                    "vote does not extend the node's admitted-order chain".to_owned(),
                ),
            );
        }
        match self.state.ordering_votes.get(&sequence) {
            Some(existing) => {
                if digest_equal(&existing.statement_digest, &statement_digest) {
                    return Ok(statement_digest);
                }
                if now <= existing.expires_at {
                    return Err(
                        NodeError::OrderingState(
                            "node refuses an equivocal vote for a live sequence".to_owned(),
                        ),
                    );
                }
            },
            None => {},
        }
        if self.state.generation == u64::MAX {
            return Err(NodeError::Generation);
        }
        self.state.ordering_votes.insert(sequence, StoredOrderVote { statement_digest, expires_at });
        match self.bump_generation() {
            Err(error) => Err(error),
            Ok(_) => Ok(statement_digest),
        }
    }

    /// Accept and advance one complete ordering certificate. `quorum` is the
    /// outcome of checking its votes against the pinned node keys;
    /// `statement_digest` is the digest of the statement that it certifies.
    pub fn accept_order_certificate(
        &mut self,
        certificate: &OrderCertificate,
        quorum: Result<(), String>,
        statement_digest: &Digest32,
        now: u64,
    ) -> (r: Result<u64, NodeError>)
        requires
            old(self).wf(),
        ensures
            final(self).wf(),
            final(self).slots() == old(self).slots(),
            (final(self)@, node_result(r)) == old(self)@.accept_order_certificate(
                certificate,
                text_result(quorum),
                *statement_digest,
                now,
            ),
    {
        match quorum {
            Err(text) => return Err(NodeError::OrderingState(text)),
            Ok(_) => {},
        }
        let key = certificate.commitment.hex();
        if certificate.sequence == self.state.ordering_sequence {
            return if digest_equal(&self.state.ordering_head, &certificate.digest)
                && self.state.ordered_commitments.contains_key(key.as_str()) {
                Ok(self.state.generation)
            } else {
                Err(
                    NodeError::OrderingState(
                        "certificate conflicts with the accepted chain head".to_owned(),
                    ),
                )
            };
        }
        let expected_sequence: u64 = match self.state.ordering_sequence.checked_add(1) {
            Some(next) => next,
            None => return Err(NodeError::Generation),
        };
        let other_live_vote: bool = match self.state.ordering_votes.get(&certificate.sequence) {
            Some(vote) => !digest_equal(&vote.statement_digest, statement_digest) && now
                <= vote.expires_at,
            None => false,
        };
        let extends: bool = match self.state.records.get(key.as_str()) {
            None => return Err(NodeError::UnknownOrder),
            Some(record) => {
                !(certificate.sequence != expected_sequence || !digest_equal(
                    &certificate.previous_certificate,
                    &self.state.ordering_head,
                ) || !text_equal(
                    record.manifest.market_id.as_str(),
                    certificate.market_id.as_str(),
                ) || certificate.expires_at > record.manifest.retention_deadline
                    || self.state.ordered_commitments.contains_key(key.as_str())
                    || other_live_vote)
            },
        };
        if !extends {
            return Err(
                NodeError::OrderingState(
                    "certificate does not extend the node's accepted chain".to_owned(),
                ),
            );
        }
        if self.state.generation == u64::MAX {
            return Err(NodeError::Generation);
        }
        self.state.ordering_sequence = certificate.sequence;
        self.state.ordering_head = certificate.digest;
        self.state.ordered_commitments.insert(key, ());
        self.state.ordering_votes.remove(&certificate.sequence);
        proof {
            let wanted = StoreView {
                ordering_sequence: certificate.sequence,
                ordering_head: certificate.digest,
                ordered_commitments: old(self)@.ordered_commitments.insert(
                    certificate.commitment.key(),
                ),
                ordering_votes: old(self)@.ordering_votes.remove(certificate.sequence),
                ..old(self)@
            };
            assert(self@ =~= wanted);
        }
        match self.bump_generation() {
            Err(error) => Err(error),
            Ok(_) => Ok(self.state.generation),
        }
    }

    pub fn remove_terminal(&mut self, commitment: OrderCommitment) -> (r: Result<bool, NodeError>)
        requires
            old(self).wf(),
        ensures
            final(self).wf(),
            final(self).slots() == old(self).slots(),
            (final(self)@, node_result(r)) == old(self)@.remove_terminal(commitment),
    {
        let key = commitment.hex();
        if !self.state.records.contains_key(key.as_str()) {
            return Ok(false);
        }
        self.state.records.remove(key.as_str());
        match self.bump_generation() {
            Err(error) => Err(error),
            Ok(_) => Ok(true),
        }
    }

    pub fn completed_round(&self, round_id: &Digest32) -> (receipt: Option<&NodeExecutionReceipt>)
        requires
            self.wf(),
        ensures
            receipt is Some == self@.completed_rounds.dom().contains(round_key(*round_id)),
            receipt matches Some(r) ==> r@ == self@.completed_rounds[round_key(*round_id)],
    {
        let key = hex_encode(round_id);
        self.state.completed_rounds.get(key.as_str())
    }

    /// Keep the signed public receipt before the coordinator is answered.
    /// Retrying the same round returns the identical receipt and cannot cause
    /// a second execution.
    pub fn record_completed_round(&mut self, receipt: NodeExecutionReceipt) -> (r: Result<
        (),
        NodeError,
    >)
        requires
            old(self).wf(),
        ensures
            final(self).wf(),
            final(self).slots() == old(self).slots(),
            (final(self)@, node_result(r)) == old(self)@.record_completed_round(
                receipt@,
                old(self).slots(),
            ),
    {
        if !receipt_is_complete(&receipt, self.state.party, self.match_slots) {
            return Err(
                NodeError::Round("execution receipt is not a complete party result".to_owned()),
            );
        }
        let key = hex_encode(&receipt.round_id);
        match self.state.completed_rounds.get(key.as_str()) {
            Some(existing) => {
                return if existing.same(&receipt) {
                    Ok(())
                } else {
                    Err(NodeError::Conflict)
                };
            },
            None => {},
        }
        self.state.completed_rounds.insert(key, receipt);
        self.bump_generation()
    }
}

/// Decide whether a public result lets an order's capability key share out.
pub fn release_is_authorized_by(
    result: &MpcBatchResult,
    plan: &RoundPlan,
    order: &OrderCommitment,
) -> (authorized: bool)
    ensures
        authorized == release_permitted(plan, result@, *order),
{
    if order.same(&plan.arriving) {
        let traded: bool = result.any_matched();
        assert(result@.slots == result.slots@);
        return result.arriving_remaining > 0 || traded;
    }
    match commitment_position(plan.resting.as_slice(), order) {
        None => {
            assert(!plan.resting@.contains(*order));
            false
        },
        Some(position) => {
            let ghost resting = plan.resting@;
            assert(resting[position as int] == *order);
            assert forall|i: int|
                0 <= i < resting.len() && #[trigger] resting[i] == *order && (forall|j: int|
                    0 <= j < i ==> resting[j] != *order) implies i == position by {
                if i < position {
                    assert(resting[i] != *order);
                }
                if position < i {
                    assert(resting[position as int] != *order);
                }
            }
            position < result.slots.len() && result.slots[position].matched
        },
    }
}

pub(crate) fn receipt_is_complete(receipt: &NodeExecutionReceipt, party: u16, match_slots: u16) -> (complete:
    bool)
    ensures
        complete == StoreView::receipt_complete(receipt@, party, match_slots),
{
    !(receipt.party != party || digest_is_zero(&receipt.round_id) || digest_is_zero(
        &receipt.round_commitment,
    ) || digest_is_zero(&receipt.program_sha256) || digest_is_zero(&receipt.artifact_sha256)
        || digest_is_zero(&receipt.private_parent_digest) || digest_is_zero(
        &receipt.private_state_sha256,
    ) || receipt.result.slots.len() != match_slots as usize || !digest_equal(
        &receipt.public_output_sha256,
        &receipt.result.output_digest,
    ) || digest_is_zero(&receipt.signer) || receipt.signature.len() != 64)
}

impl NodeShareStore {
    /// One resting order as it enters the digest of a round's private parents.
    fn push_parent(&self, out: &mut Vec<u8>, commitment: &OrderCommitment)
        requires
            self.wf(),
        ensures
            final(out)@ == old(out)@ + self@.parent_entry(*commitment),
    {
        let key = commitment.hex();
        push_all(out, &commitment.0);
        match self.state.private_heads.get(key.as_str()) {
            Some(head) => {
                out.push(1u8);
                push_all(out, &head.round_id);
                push_all(out, &head.private_state_sha256);
                push_u16(out, head.wire_offset);
            },
            None => {
                out.push(0u8);
            },
        }
        assert(out@ =~= old(out)@ + self@.parent_entry(*commitment));
    }

    /// The digest of the private heads that a round would start from.
    pub fn private_parent_digest(&self, resting: &[OrderCommitment], arriving: &OrderCommitment) -> (
    digest: Digest32)
        requires
            self.wf(),
        ensures
            digest@ == sha256(self@.parent_bytes(resting@, *arriving)),
    {
        let mut body: Vec<u8> = Vec::new();
        push_text(&mut body, "OCLOB:PRIVATE-BOOK-PARENTS:v1");
        push_u64(&mut body, resting.len() as u64);
        let ghost head = body@;
        assert(head =~= text_bytes("OCLOB:PRIVATE-BOOK-PARENTS:v1"@) + crate::bytes::big_endian(
            resting@.len(),
            8,
        ));
        let mut i: usize = 0;
        assert(resting@.take(0) =~= Seq::<OrderCommitment>::empty());
        assert(body@ =~= head + self@.parent_entries(resting@.take(0)));
        while i < resting.len()
            invariant
                self.wf(),
                i <= resting@.len(),
                body@ == head + self@.parent_entries(resting@.take(i as int)),
            decreases resting@.len() - i,
        {
            self.push_parent(&mut body, &resting[i]);
            i += 1;
            assert(resting@.take(i as int).drop_last() =~= resting@.take(i - 1));
            assert(resting@.take(i as int).last() == resting@[i - 1]);
            assert(body@ =~= head + self@.parent_entries(resting@.take(i as int)));
        }
        assert(resting@.take(i as int) =~= resting@);
        push_all(&mut body, &arriving.0);
        sha256_digest(body.as_slice())
    }

    /// Advance every order's private head only after the exact matching output
    /// has canonical finality. No order field or share is supplied by the
    /// settlement coordinator. `file` is this node's private state file of the
    /// round.
    #[verifier::rlimit(40)]
    pub fn finalize_private_round(
        &mut self,
        plan: &RoundPlan,
        finality: &PrivateStateFinality,
        file: &PrivateStateFile,
    ) -> (r: Result<u64, NodeError>)
        requires
            old(self).wf(),
        ensures
            final(self).wf(),
            final(self).slots() == old(self).slots(),
            (final(self)@, node_result(r)) == old(self)@.finalize_private_round(
                plan,
                *finality,
                file@,
                old(self).slots(),
            ),
    {
        match finality.validate() {
            Err(error) => return Err(error),
            Ok(_) => {},
        }
        if !digest_equal(&finality.round_id, &plan.round_id) {
            return Err(NodeError::PrivateState("finality refers to another MPC round".to_owned()));
        }
        let key = hex_encode(&plan.round_id);
        let ghost receipt = self@.completed_rounds[round_key(plan.round_id)];
        let private_state_sha256: Digest32;
        let private_parent_digest: Digest32;
        let arriving_remaining: u64;
        match self.state.completed_rounds.get(key.as_str()) {
            None => {
                return Err(NodeError::PrivateState("MPC round is not complete".to_owned()));
            },
            Some(found) => {
                if !digest_equal(&found.public_output_sha256, &finality.public_output_sha256) {
                    return Err(
                        NodeError::PrivateState(
                            "canonical finality does not bind this MPC output".to_owned(),
                        ),
                    );
                }
                private_state_sha256 = found.private_state_sha256;
                private_parent_digest = found.private_parent_digest;
                arriving_remaining = found.result.arriving_remaining;
            },
        }
        let candidate = PrivateRoundFinalization {
            public_output_sha256: finality.public_output_sha256,
            transition_digest: finality.transition_digest,
            canonical_receipt_digest: finality.canonical_receipt_digest,
            canonical_height: finality.canonical_height,
        };
        match self.state.finalized_private_rounds.get(key.as_str()) {
            Some(existing) => {
                return if digest_equal(
                    &existing.public_output_sha256,
                    &candidate.public_output_sha256,
                ) && digest_equal(&existing.transition_digest, &candidate.transition_digest)
                    && digest_equal(
                    &existing.canonical_receipt_digest,
                    &candidate.canonical_receipt_digest,
                ) && existing.canonical_height == candidate.canonical_height {
                    Ok(self.state.generation)
                } else {
                    Err(NodeError::Conflict)
                };
            },
            None => {},
        }
        let parent = self.private_parent_digest(plan.resting.as_slice(), &plan.arriving);
        if !digest_equal(&private_parent_digest, &parent) {
            return Err(
                NodeError::PrivateState(
                    "private book parent advanced before this round finalized".to_owned(),
                ),
            );
        }
        match verify_private_state_file(file, &private_state_sha256, self.match_slots) {
            Err(error) => return Err(error),
            Ok(_) => {},
        }
        if self.state.generation == u64::MAX && plan.resting.len() <= 16384 && !(arriving_remaining
            > 0 && self.match_slots as usize * 4 > 65535) {
            return Err(NodeError::Generation);
        }
        let ghost before = self@;
        let mut slot: usize = 0;
        while slot < plan.resting.len()
            invariant
                self.wf(),
                self.slots() == old(self).slots(),
                before == old(self)@,
                slot <= plan.resting@.len(),
                slot <= 16384,
                receipt.private_state_sha256 == private_state_sha256,
                finality.round_id == plan.round_id,
                self@ == (StoreView {
                    private_heads: before.advanced_heads(
                        plan.resting@,
                        receipt,
                        *finality,
                        slot as nat,
                    ),
                    ..before
                }),
                plan.resting@.len() > 16384 ==> (self@, Err::<u64, NodeFault>(
                    NodeFault::PrivateState("private wire offset overflowed"@),
                )) == (self@, old(self)@.finalize_private_round(
                    plan,
                    *finality,
                    file@,
                    old(self).slots(),
                ).1),
                plan.resting@.len() > 16384 ==> old(self)@.finalize_private_round(
                    plan,
                    *finality,
                    file@,
                    old(self).slots(),
                ).0 == (StoreView {
                    private_heads: before.advanced_heads(plan.resting@, receipt, *finality, 16384),
                    ..before
                }),
            decreases plan.resting@.len() - slot,
        {
            if slot >= 16384 {
                return Err(NodeError::PrivateState("private wire offset overflowed".to_owned()));
            }
            let head = PrivateBookStateRef {
                round_id: plan.round_id,
                private_state_sha256,
                wire_offset: (slot * 4) as u16,
                transition_digest: finality.transition_digest,
                canonical_receipt_digest: finality.canonical_receipt_digest,
                canonical_height: finality.canonical_height,
            };
            assert(head == StoreView::new_head(receipt, *finality, slot * 4));
            self.state.private_heads.insert(plan.resting[slot].hex(), head);
            slot += 1;
        }
        if arriving_remaining > 0 {
            if self.match_slots as usize * 4 > 65535 {
                return Err(NodeError::PrivateState("private wire offset overflowed".to_owned()));
            }
            let head = PrivateBookStateRef {
                round_id: plan.round_id,
                private_state_sha256,
                wire_offset: (self.match_slots as usize * 4) as u16,
                transition_digest: finality.transition_digest,
                canonical_receipt_digest: finality.canonical_receipt_digest,
                canonical_height: finality.canonical_height,
            };
            assert(head == StoreView::new_head(receipt, *finality, self.match_slots * 4));
            self.state.private_heads.insert(plan.arriving.hex(), head);
        } else {
            let arriving = plan.arriving.hex();
            self.state.private_heads.remove(arriving.as_str());
        }
        self.state.finalized_private_rounds.insert(key, candidate);
        match self.bump_generation() {
            Err(error) => Err(error),
            Ok(_) => Ok(self.state.generation),
        }
    }

    /// Release this node's capability-key share only after the exact signed
    /// round has completed and its public result authorizes settlement or book
    /// entry for the requested order. An unmatched immediate-or-cancel order is
    /// deliberately not released. `opened` is the decrypted share, or why it
    /// does not decrypt.
    pub fn release_capability_key_share<S>(
        &self,
        plan: &RoundPlan,
        order_commitment: &OrderCommitment,
        opened: Result<S, String>,
    ) -> (r: Result<(S, Digest32), NodeError>)
        requires
            self.wf(),
        ensures
            ({
                let opens = match opened {
                    Ok(_) => Ok(()),
                    Err(text) => Err(text@),
                };
                let fault = self@.release_fault(plan, *order_commitment, opens);
                &&& r is Ok == fault is None
                &&& r matches Err(e) ==> Some(e@) == fault
                &&& r matches Ok(pair) ==> opened == Ok::<S, String>(pair.0) && pair.1
                    == self@.completed_rounds[round_key(plan.round_id)].public_output_sha256
            }),
    {
        let key = hex_encode(&plan.round_id);
        let receipt: &NodeExecutionReceipt = match self.state.completed_rounds.get(key.as_str()) {
            None => {
                return Err(NodeError::Release("matching round is not complete".to_owned()));
            },
            Some(found) => found,
        };
        let authorized: bool = release_is_authorized_by(&receipt.result, plan, order_commitment);
        if !authorized {
            return Err(
                NodeError::Release(
                    "public MPC result does not authorize capability release".to_owned(),
                ),
            );
        }
        let order_key = order_commitment.hex();
        match self.state.records.get(order_key.as_str()) {
            None => return Err(NodeError::UnknownOrder),
            Some(record) => {
                if record.sealed_capability_key_share.is_none() {
                    return Err(
                        NodeError::Release("legacy order has no capability-key share".to_owned()),
                    );
                }
            },
        }
        match opened {
            Err(text) => Err(NodeError::Release(text)),
            Ok(share) => Ok((share, receipt.public_output_sha256)),
        }
    }

    /// Drop every record whose retention deadline has passed.
    pub fn prune_expired(&mut self, now: u64) -> (r: Result<usize, NodeError>)
        requires
            old(self).wf(),
        ensures
            final(self).wf(),
            final(self).slots() == old(self).slots(),
            final(self)@ == old(self)@.prune_expired(now).0,
            match r {
                Ok(count) => old(self)@.prune_expired(now).1 == Ok::<nat, NodeFault>(count as nat),
                Err(error) => old(self)@.prune_expired(now).1 == Err::<nat, NodeFault>(error@),
            },
    {
        let mut expired: Vec<String> = Vec::new();
        let mut positions: Ghost<Seq<int>> = Ghost(Seq::empty());
        let total: usize = self.state.records.len();
        let ghost wanted = self@.expired_keys(now);
        proof {
            self.state.records.lemma_positions();
            self.state.records.lemma_count();
        }
        let mut i: usize = 0;
        while i < total
            invariant
                self.wf(),
                self@ == old(self)@,
                self.slots() == old(self).slots(),
                total == self.state.records.count(),
                i <= total,
                wanted == self@.expired_keys(now),
                positions@.len() == expired@.len(),
                forall|j: int|
                    0 <= j < positions@.len() ==> 0 <= #[trigger] positions@[j] < i
                        && self.state.records.key_of(positions@[j]) == expired@[j]@,
                forall|j: int, k: int|
                    0 <= j < k < positions@.len() ==> #[trigger] positions@[j]
                        < #[trigger] positions@[k],
                forall|j: int|
                    0 <= j < positions@.len() ==> wanted.contains(
                        self.state.records.key_of(#[trigger] positions@[j]),
                    ),
                forall|p: int|
                    0 <= p < i && wanted.contains(#[trigger] self.state.records.key_of(p))
                        ==> positions@.contains(p),
            decreases total - i,
        {
            let record = self.state.records.value_at(i);
            let key = self.state.records.key_at(i);
            let ghost before = positions@;
            if record.manifest.retention_deadline < now {
                expired.push(key.to_owned());
                proof {
                    positions@ = positions@.push(i as int);
                    assert(positions@.last() == i);
                    assert forall|p: int|
                        0 <= p < i + 1 && wanted.contains(
                            #[trigger] self.state.records.key_of(p),
                        ) implies positions@.contains(p) by {
                        if p < i {
                            assert(before.contains(p));
                            let at = choose|at: int| 0 <= at < before.len() && before[at] == p;
                            assert(positions@[at] == p);
                        } else {
                            assert(positions@[before.len() as int] == p);
                        }
                    }
                }
            }
            i += 1;
        }
        let ghost keys = Seq::new(expired@.len(), |j: int| expired@[j]@);
        proof {
            self.state.records.lemma_positions();
            assert(keys.no_duplicates()) by {
                assert forall|j: int, k: int| 0 <= j < k < keys.len() implies keys[j] != keys[k] by {
                    assert(positions@[j] < positions@[k]);
                    assert(self.state.records.key_of(positions@[j]) != self.state.records.key_of(
                        positions@[k],
                    ));
                }
            }
            keys.unique_seq_to_set();
            assert(keys.to_set() =~= wanted) by {
                assert forall|key: Seq<char>| keys.to_set().contains(key) == wanted.contains(
                    key,
                ) by {
                    if keys.to_set().contains(key) {
                        let j = choose|j: int| 0 <= j < keys.len() && keys[j] == key;
                        assert(wanted.contains(self.state.records.key_of(positions@[j])));
                    }
                    if wanted.contains(key) {
                        assert(self.state.records@.dom().contains(key));
                        let p = choose|p: int|
                            0 <= p < self.state.records.count() && #[trigger]
                            self.state.records.key_of(p) == key;
                        assert(positions@.contains(p));
                        let j = choose|j: int| 0 <= j < positions@.len() && positions@[j] == p;
                        assert(keys[j] == key);
                        assert(keys.contains(key));
                    }
                }
            }
            assert(wanted.len() == expired@.len());
        }
        if expired.len() == 0 {
            return Ok(0);
        }
        let ghost before = self@;
        let mut k: usize = 0;
        assert(before.records.remove_keys(keys.take(0).to_set()) =~= before.records);
        while k < expired.len()
            invariant
                self.wf(),
                before == old(self)@,
                self.slots() == old(self).slots(),
                k <= expired@.len(),
                keys == Seq::new(expired@.len(), |j: int| expired@[j]@),
                self@ == (StoreView {
                    records: before.records.remove_keys(keys.take(k as int).to_set()),
                    ..before
                }),
            decreases expired@.len() - k,
        {
            self.state.records.remove(expired[k].as_str());
            k += 1;
            proof {
                let now_gone = keys.take(k as int).to_set();
                let gone = keys.take(k - 1).to_set();
                assert(now_gone =~= gone.insert(keys[k - 1])) by {
                    assert(keys.take(k as int) =~= keys.take(k - 1).push(keys[k - 1]));
                    assert forall|key: Seq<char>| now_gone.contains(key) == gone.insert(
                        keys[k - 1],
                    ).contains(key) by {
                        if now_gone.contains(key) {
                            let longer = keys.take(k as int);
                            let j = choose|j: int| 0 <= j < k && longer[j] == key;
                            if j < k - 1 {
                                assert(keys.take(k - 1)[j] == key);
                            }
                        }
                        if gone.contains(key) {
                            let shorter = keys.take(k - 1);
                            let j = choose|j: int| 0 <= j < k - 1 && shorter[j] == key;
                            assert(keys.take(k as int)[j] == key);
                        }
                        assert(keys.take(k as int)[k - 1] == keys[k - 1]);
                    }
                }
                assert(before.records.remove_keys(gone).remove(keys[k - 1])
                    =~= before.records.remove_keys(now_gone));
            }
        }
        assert(keys.take(k as int) =~= keys);
        match self.bump_generation() {
            Err(error) => Err(error),
            Ok(_) => Ok(expired.len()),
        }
    }
}

pub fn empty_state(party: u16) -> (state: StoreState)
    ensures
        state.wf(),
        state@ == StoreView::empty(party),
{
    let state = StoreState {
        version: STORE_VERSION,
        party,
        generation: 0,
        records: TextMap::new(),
        completed_rounds: TextMap::new(),
        ordering_sequence: 0,
        ordering_head: [0u8;32],
        ordering_votes: BTreeMap::new(),
        ordered_commitments: TextMap::new(),
        private_heads: TextMap::new(),
        finalized_private_rounds: TextMap::new(),
    };
    assert(state@ =~= StoreView::empty(party));
    state
}

/// Texts as their characters.
pub open spec fn texts(list: Seq<String>) -> Seq<Seq<char>> {
    Seq::new(list.len(), |i: int| list[i]@)
}

fn push_field(fields: &mut Vec<String>, field: String)
    ensures
        texts(final(fields)@) == texts(old(fields)@).push(field@),
{
    fields.push(field);
    assert(texts(fields@) =~= texts(old(fields)@).push(field@));
}

fn join_fields(fields: &Vec<String>) -> (line: Vec<u8>)
    ensures
        line@ == joined(texts(fields@)),
{
    let mut line: Vec<u8> = Vec::new();
    let mut i: usize = 0;
    let ghost all = texts(fields@);
    assert(all.take(0) =~= Seq::<Seq<char>>::empty());
    while i < fields.len()
        invariant
            all == texts(fields@),
            i <= fields@.len(),
            line@ == joined(all.take(i as int)),
        decreases fields@.len() - i,
    {
        let ghost before = line@;
        if i > 0 {
            line.push(32u8);
        }
        push_text(&mut line, fields[i].as_str());
        i += 1;
        assert(all.take(i as int).drop_last() =~= all.take(i - 1));
        assert(all.take(i as int).last() == all[i - 1]);
        assert(line@ =~= joined(all.take(i as int)));
    }
    assert(all.take(i as int) =~= all);
    line
}

/// The decoded shares of a file.
pub open spec fn share_views(list: Seq<Result<String, String>>) -> Seq<
    Result<Seq<char>, Seq<char>>,
> {
    Seq::new(list.len(), |i: int| share_view(list[i]))
}

/// A share that does not decode spoils every longer run.
proof fn lemma_decode_fault_stays(
    shares: Seq<Result<Seq<char>, Seq<char>>>,
    start: int,
    few: nat,
    many: nat,
)
    requires
        few <= many,
        StoreView::decode_fault(shares, start, few) is Some,
    ensures
        StoreView::decode_fault(shares, start, many) == StoreView::decode_fault(shares, start, few),
    decreases many,
{
    if few < many {
        lemma_decode_fault_stays(shares, start, few, (many - 1) as nat);
    }
}

/// Take four decoded shares.
fn decode_shares(list: &Vec<Result<String, String>>, start: usize) -> (r: Result<
    Vec<String>,
    NodeError,
>)
    requires
        start + 4 <= list@.len(),
    ensures
        match StoreView::decode_fault(share_views(list@), start as int, 4) {
            Some(fault) => r matches Err(e) && e@ == fault,
            None => r matches Ok(fields) && texts(fields@) == seq![
                share_views(list@)[start as int]->Ok_0,
                share_views(list@)[start + 1]->Ok_0,
                share_views(list@)[start + 2]->Ok_0,
                share_views(list@)[start + 3]->Ok_0,
            ],
        },
{
    let ghost views = share_views(list@);
    let total: usize = list.len();
    let mut fields: Vec<String> = Vec::new();
    let mut k: usize = 0;
    while k < 4
        invariant
            k <= 4,
            start + 4 <= total,
            total == list@.len(),
            views == share_views(list@),
            texts(fields@) == Seq::new(k as nat, |j: int| views[start + j]->Ok_0),
            StoreView::decode_fault(views, start as int, k as nat) is None,
        decreases 4 - k,
    {
        let at: usize = start + k;
        assert(views[at as int] == share_view(list@[at as int]));
        match &list[at] {
            Err(text) => {
                proof {
                    lemma_decode_fault_stays(views, start as int, (k + 1) as nat, 4);
                }
                return Err(NodeError::PrivateState(text.clone()));
            },
            Ok(text) => {
                push_field(&mut fields, text.clone());
            },
        }
        k += 1;
        assert(texts(fields@) =~= Seq::new(k as nat, |j: int| views[start + j]->Ok_0));
    }
    assert(texts(fields@) =~= seq![
        views[start as int]->Ok_0,
        views[start + 1]->Ok_0,
        views[start + 2]->Ok_0,
        views[start + 3]->Ok_0,
    ]);
    Ok(fields)
}

impl NodeShareStore {
    /// Open a node's store: a new one where `existing` is `None`. The flag says
    /// whether the state has to be written before it is used.
    pub fn open(
        party: u16,
        existing: Option<StoreFile>,
        match_slots: u16,
    ) -> (r: Result<(NodeShareStore, bool), NodeError>)
        requires
            existing matches Some(file) ==> file.parsed.wf(),
        ensures
            r matches Ok(opened) ==> opened.0.wf() && opened.0.slots() == match_slots,
            party >= MPC_PARTIES ==> (r matches Err(e) && e@ == NodeFault::Party),
            party < MPC_PARTIES && existing is None ==> (r matches Ok(opened)
                && opened.0@ == StoreView::empty(party) && opened.1),
            party < MPC_PARTIES && existing is Some ==> match file_state(
                (existing->0).encoded@,
                &(existing->0).parsed,
                party,
                match_slots,
            ) {
                Ok(pair) => r matches Ok(opened) && opened.0@ == pair.0 && opened.1 == pair.1,
                Err(fault) => r matches Err(e) && e@ == fault,
            },
    {
        if party as usize >= MPC_PARTIES {
            return Err(NodeError::Party);
        }
        match existing {
            None => Ok((NodeShareStore { state: empty_state(party), match_slots }, true)),
            Some(file) => match read_state(
                file.encoded.as_slice(),
                file.parsed,
                party,
                match_slots,
            ) {
                Err(error) => Err(error),
                Ok((state, migrated)) => Ok((NodeShareStore { state, match_slots }, migrated)),
            },
        }
    }

    fn check_opened(&self, commitment: &OrderCommitment, market_id: &str, opened: &OpenedShare) -> (
    r: Result<(), NodeError>)
        requires
            self.wf(),
        ensures
            r is Ok == self@.open_fault(*commitment, market_id@, opened@) is None,
            r matches Err(e) ==> Some(e@) == self@.open_fault(*commitment, market_id@, opened@),
    {
        let key = commitment.hex();
        match self.state.records.get(key.as_str()) {
            None => return Err(NodeError::UnknownOrder),
            Some(record) => {
                if !text_equal(record.manifest.market_id.as_str(), market_id) {
                    return Err(
                        NodeError::Round(
                            "round market differs from the committed order market".to_owned(),
                        ),
                    );
                }
            },
        }
        match &opened.outcome {
            Err(text) => Err(NodeError::Admission(text.clone())),
            Ok(_) => Ok(()),
        }
    }

    /// The four matching fields of one resting order.
    fn private_match_fields(
        &self,
        commitment: &OrderCommitment,
        market_id: &str,
        input: &RestingInput,
    ) -> (r: Result<Vec<String>, NodeError>)
        requires
            self.wf(),
        ensures
            match self@.match_fields(
                *commitment,
                market_id@,
                input@.opened,
                input@.file,
                self.slots(),
            ) {
                Ok(four) => r matches Ok(fields) && texts(fields@) == four && four.len() == 4,
                Err(fault) => r matches Err(e) && e@ == fault,
            },
    {
        match self.check_opened(commitment, market_id, &input.opened) {
            Err(error) => return Err(error),
            Ok(_) => {},
        }
        let key = commitment.hex();
        let mut fields: Vec<String> = Vec::new();
        match self.state.private_heads.get(key.as_str()) {
            None => {
                match &input.opened.outcome {
                    Err(text) => return Err(NodeError::Admission(text.clone())),
                    Ok(share) => {
                        push_field(&mut fields, "1".to_owned());
                        push_field(&mut fields, share.decimals[0].clone());
                        push_field(&mut fields, share.decimals[1].clone());
                        push_field(&mut fields, share.decimals[2].clone());
                        assert(texts(fields@) =~= seq![
                            "1"@,
                            input@.opened->Ok_0[0],
                            input@.opened->Ok_0[1],
                            input@.opened->Ok_0[2],
                        ]);
                        Ok(fields)
                    },
                }
            },
            Some(head) => {
                match verify_private_state_file(
                    &input.file,
                    &head.private_state_sha256,
                    self.match_slots,
                ) {
                    Err(error) => return Err(error),
                    Ok(_) => {},
                }
                let start: usize = head.wire_offset as usize;
                match &input.file {
                    PrivateStateFile::Present { regular, length, bytes, shares } => {
                        match shares {
                            Err(text) => return Err(NodeError::PrivateState(text.clone())),
                            Ok(list) => {
                                assert(input@.file->Present_shares->Ok_0 == share_views(list@));
                                if start + 4 > list.len() {
                                    return Err(
                                        NodeError::PrivateState(
                                            "private state wire offset is invalid".to_owned(),
                                        ),
                                    );
                                }
                                decode_shares(list, start)
                            },
                        }
                    },
                    _ => Err(NodeError::PrivateState("private state root is not bound".to_owned())),
                }
            },
        }
    }
}

/// What a prepared round holds, for a frame with the given fields.
pub open spec fn prepared_from(
    prepared: &PreparedPartyInput,
    store: StoreView,
    fields: Seq<Seq<char>>,
    resting: Seq<OrderCommitment>,
    arriving: OrderCommitment,
) -> bool {
    &&& prepared.party == store.party
    &&& prepared.generation == store.generation
    &&& prepared.contents@ == joined(fields).push(10u8)
    &&& prepared.round_commitment@ == sha256(
        round_commitment_bytes(
            store.party,
            store.generation,
            resting,
            arriving,
            prepared.contents@,
        ),
    )
    &&& prepared.private_parent_digest@ == sha256(store.parent_bytes(resting, arriving))
}

fn round_commitment(
    party: u16,
    generation: u64,
    resting: &[OrderCommitment],
    arriving: &OrderCommitment,
    contents: &[u8],
) -> (digest: Digest32)
    ensures
        digest@ == sha256(
            round_commitment_bytes(party, generation, resting@, *arriving, contents@),
        ),
{
    let mut body: Vec<u8> = Vec::new();
    push_text(&mut body, "OCLOB:NODE-ROUND:v1");
    assert(body@ =~= text_bytes("OCLOB:NODE-ROUND:v1"@));
    push_u16(&mut body, party);
    push_u64(&mut body, generation);
    push_big_endian(&mut body, resting.len() as u64, 2);
    push_commitments(&mut body, resting);
    push_all(&mut body, &arriving.0);
    let inner = sha256_digest(contents);
    push_all(&mut body, &inner);
    sha256_digest(body.as_slice())
}

/// A fault in an early slot is the fault of the whole frame.
proof fn lemma_slot_fault_stays(
    store: StoreView,
    market_id: Seq<char>,
    resting: Seq<OrderCommitment>,
    at_hand: Seq<RestingView>,
    match_slots: u16,
    few: nat,
    many: nat,
)
    requires
        few <= many,
        store.slot_fields(market_id, resting, at_hand, match_slots, few) is Err,
    ensures
        store.slot_fields(market_id, resting, at_hand, match_slots, many) == store.slot_fields(
            market_id,
            resting,
            at_hand,
            match_slots,
            few,
        ),
    decreases many,
{
    if few < many {
        lemma_slot_fault_stays(
            store,
            market_id,
            resting,
            at_hand,
            match_slots,
            few,
            (many - 1) as nat,
        );
    }
}

impl NodeShareStore {
    /// Assemble the fixed matching frame from commitments only. Resting
    /// sequence is public; side, price, quantity and participant identity are
    /// never supplied by the coordinator. `at_hand` holds what this node opened
    /// of each resting order, `arriving_opened` of the arriving one.
    pub fn prepare_round(
        &self,
        market_id: &str,
        resting: &[OrderCommitment],
        at_hand: &Vec<RestingInput>,
        arriving: &OrderCommitment,
        arriving_opened: &OpenedShare,
    ) -> (r: Result<PreparedPartyInput, NodeError>)
        requires
            self.wf(),
            at_hand@.len() == resting@.len(),
        ensures
            match self@.round_fields(
                market_id@,
                resting@,
                resting_views(at_hand@),
                *arriving,
                arriving_opened@,
                self.slots(),
            ) {
                Ok(fields) => r matches Ok(prepared) && prepared_from(
                    &prepared,
                    self@,
                    fields,
                    resting@,
                    *arriving,
                ),
                Err(fault) => r matches Err(e) && e@ == fault,
            },
    {
        if market_id.is_empty() || market_id.as_bytes().len() > 64 || resting.len()
            > self.match_slots as usize || commitment_position(resting, arriving).is_some()
            || !commitments_distinct(resting) {
            return Err(
                NodeError::Round("round market or order commitments are invalid".to_owned()),
            );
        }
        match self.check_opened(arriving, market_id, arriving_opened) {
            Err(error) => return Err(error),
            Ok(_) => {},
        }
        let ghost views = resting_views(at_hand@);
        let ghost slots = self.slots();
        let mut fields: Vec<String> = Vec::new();
        assert(texts(fields@) =~= Seq::<Seq<char>>::empty());
        let mut slot: usize = 0;
        while slot < self.match_slots as usize
            invariant
                self.wf(),
                slots == self.slots(),
                slots == self.match_slots,
                slot <= self.match_slots,
                views == resting_views(at_hand@),
                at_hand@.len() == resting@.len(),
                self@.slot_fields(market_id@, resting@, views, slots, slot as nat) == Ok::<
                    Seq<Seq<char>>,
                    NodeFault,
                >(texts(fields@)),
                self@.round_fields(
                    market_id@,
                    resting@,
                    views,
                    *arriving,
                    arriving_opened@,
                    slots,
                ) == (match self@.slot_fields(market_id@, resting@, views, slots, slots as nat) {
                    Err(fault) => Err::<Seq<Seq<char>>, NodeFault>(fault),
                    Ok(all) => Ok::<Seq<Seq<char>>, NodeFault>(
                        all + seq![
                            arriving_opened@->Ok_0[0],
                            arriving_opened@->Ok_0[1],
                            arriving_opened@->Ok_0[2],
                            arriving_opened@->Ok_0[5],
                        ],
                    ),
                }),
            decreases self.match_slots - slot,
        {
            let ghost before = texts(fields@);
            if slot < resting.len() {
                assert(views[slot as int] == at_hand@[slot as int]@);
                match self.private_match_fields(&resting[slot], market_id, &at_hand[slot]) {
                    Err(error) => {
                        proof {
                            lemma_slot_fault_stays(
                                self@,
                                market_id@,
                                resting@,
                                views,
                                slots,
                                (slot + 1) as nat,
                                slots as nat,
                            );
                        }
                        return Err(error);
                    },
                    Ok(four) => {
                        let ghost added = texts(four@);
                        assert(four@.len() == added.len());
                        push_field(&mut fields, four[0].clone());
                        push_field(&mut fields, four[1].clone());
                        push_field(&mut fields, four[2].clone());
                        push_field(&mut fields, four[3].clone());
                        assert(texts(fields@) =~= before + added);
                    },
                }
            } else {
                push_field(&mut fields, "0".to_owned());
                push_field(&mut fields, "0".to_owned());
                push_field(&mut fields, "0".to_owned());
                push_field(&mut fields, "0".to_owned());
                assert(texts(fields@) =~= before + seq!["0"@, "0"@, "0"@, "0"@]);
            }
            slot += 1;
        }
        let ghost book = texts(fields@);
        match &arriving_opened.outcome {
            Err(text) => return Err(NodeError::Admission(text.clone())),
            Ok(share) => {
                push_field(&mut fields, share.decimals[0].clone());
                push_field(&mut fields, share.decimals[1].clone());
                push_field(&mut fields, share.decimals[2].clone());
                push_field(&mut fields, share.decimals[5].clone());
                assert(texts(fields@) =~= book + seq![
                    arriving_opened@->Ok_0[0],
                    arriving_opened@->Ok_0[1],
                    arriving_opened@->Ok_0[2],
                    arriving_opened@->Ok_0[5],
                ]);
            },
        }
        let mut contents = join_fields(&fields);
        contents.push(10u8);
        let commitment = round_commitment(
            self.state.party,
            self.state.generation,
            resting,
            arriving,
            contents.as_slice(),
        );
        let private_parent_digest = self.private_parent_digest(resting, arriving);
        Ok(
            PreparedPartyInput {
                party: self.state.party,
                generation: self.state.generation,
                round_commitment: commitment,
                private_parent_digest,
                contents,
            },
        )
    }
}

} // verus!
