//! What a node's share store is, and what each operation makes of it.

use crate::bytes::{big_endian, hex_text, is_zero, sha256, text_bytes, zero_digest, Digest32};
use crate::executor::{ReceiptView, RoundPlan};
use crate::text::decimal_text;
use crate::types::{
    BatchView, ManifestView, OrderCertificate, OrderCommitment, SealedCapabilityView,
    SealedShareView,
};
use vstd::prelude::*;

verus! {

/// The version that this crate writes.
pub const STORE_VERSION: u16 = 5;

/// The largest private state file of one party.
pub const MAX_PRIVATE_STATE_BYTES: u64 = 16_777_216;

/// Why an operation was refused.
pub enum NodeFault {
    Party,
    Admission(Seq<char>),
    Conflict,
    Generation,
    UnknownOrder,
    Round(Seq<char>),
    OrderingState(Seq<char>),
    Release(Seq<char>),
    PrivateState(Seq<char>),
    State(Seq<char>),
    UnsafePath(Seq<char>),
    Io(Seq<char>),
}

#[derive(Clone, Copy, Debug, PartialEq, Eq, Structural)]
pub enum IngestOutcome {
    Stored { generation: u64 },
    AlreadyPresent { generation: u64 },
}

/// One node's anti-equivocation decision for the next place in the market.
#[derive(Clone, Copy, Debug, PartialEq, Eq)]
pub struct StoredOrderVote {
    pub statement_digest: Digest32,
    pub expires_at: u64,
}

/// A public pointer into this node's own private state files. Values and
/// shares never enter the store.
#[derive(Clone, Copy, Debug, PartialEq, Eq)]
pub struct PrivateBookStateRef {
    pub round_id: Digest32,
    pub private_state_sha256: Digest32,
    pub wire_offset: u16,
    pub transition_digest: Digest32,
    pub canonical_receipt_digest: Digest32,
    pub canonical_height: u64,
}

impl View for PrivateBookStateRef {
    type V = PrivateBookStateRef;

    open spec fn view(&self) -> PrivateBookStateRef {
        *self
    }
}

#[derive(Clone, Copy, Debug, PartialEq, Eq)]
pub struct PrivateRoundFinalization {
    pub public_output_sha256: Digest32,
    pub transition_digest: Digest32,
    pub canonical_receipt_digest: Digest32,
    pub canonical_height: u64,
}

impl View for PrivateRoundFinalization {
    type V = PrivateRoundFinalization;

    open spec fn view(&self) -> PrivateRoundFinalization {
        *self
    }
}

/// Public DeFMI finality binding required before a node advances its private
/// book head. The coordinator cannot use a matching result speculatively and
/// then overwrite a later state: the exact parent and output are fixed in the
/// node's signed execution receipt.
#[derive(Clone, Copy, Debug, PartialEq, Eq)]
pub struct PrivateStateFinality {
    pub round_id: Digest32,
    pub public_output_sha256: Digest32,
    pub transition_digest: Digest32,
    pub canonical_receipt_digest: Digest32,
    pub canonical_height: u64,
}

impl PrivateStateFinality {
    /// Every part of the binding is there.
    pub open spec fn complete(&self) -> bool {
        &&& !is_zero(self.round_id@)
        &&& !is_zero(self.public_output_sha256@)
        &&& !is_zero(self.transition_digest@)
        &&& !is_zero(self.canonical_receipt_digest@)
        &&& self.canonical_height != 0
    }

    pub open spec fn finalization(&self) -> PrivateRoundFinalization {
        PrivateRoundFinalization {
            public_output_sha256: self.public_output_sha256,
            transition_digest: self.transition_digest,
            canonical_receipt_digest: self.canonical_receipt_digest,
            canonical_height: self.canonical_height,
        }
    }
}

/// One admitted order: its manifest and the ciphertexts addressed to this node.
pub struct RecordView {
    pub manifest: ManifestView,
    pub sealed: SealedShareView,
    pub sealed_capability_key_share: Option<SealedCapabilityView>,
    pub admitted_at: u64,
}

/// The whole durable state of one node.
#[verifier::ext_equal]
pub struct StoreView {
    pub version: u16,
    pub party: u16,
    pub generation: u64,
    pub records: Map<Seq<char>, RecordView>,
    pub completed_rounds: Map<Seq<char>, ReceiptView>,
    pub ordering_sequence: u64,
    pub ordering_head: Digest32,
    pub ordering_votes: Map<u64, StoredOrderVote>,
    pub ordered_commitments: Set<Seq<char>>,
    pub private_heads: Map<Seq<char>, PrivateBookStateRef>,
    pub finalized_private_rounds: Map<Seq<char>, PrivateRoundFinalization>,
}

/// The text under which a round is filed.
pub open spec fn round_key(round_id: Digest32) -> Seq<char> {
    hex_text(round_id@)
}

/// What a check of one private state file finds.
pub enum PrivateStateView {
    /// No directory for private state is bound.
    Unbound,
    /// The path is a symbolic link.
    Symlink,
    /// The file cannot be read.
    Unreadable(Seq<char>),
    /// The file: its type and size, its bytes, and its shares where they decode.
    Present {
        regular: bool,
        length: u64,
        bytes: Seq<u8>,
        shares: Result<Seq<Result<Seq<char>, Seq<char>>>, Seq<char>>,
    },
}

/// How many shares a private state file holds.
pub open spec fn expected_shares(match_slots: u16) -> nat {
    (match_slots * 4 + 4) as nat
}

/// Why a private state file does not serve, if it does not.
pub open spec fn private_state_fault(
    file: PrivateStateView,
    expected_digest: Digest32,
    match_slots: u16,
) -> Option<NodeFault> {
    match file {
        PrivateStateView::Unbound => Some(
            NodeFault::PrivateState("private state root is not bound"@),
        ),
        PrivateStateView::Symlink => Some(NodeFault::UnsafePath("symlink paths are rejected"@)),
        PrivateStateView::Unreadable(text) => Some(NodeFault::Io(text)),
        PrivateStateView::Present { regular, length, bytes, shares } => if !regular || length == 0
            || length > MAX_PRIVATE_STATE_BYTES {
            Some(
                NodeFault::PrivateState(
                    "party-local private state file has an unsafe size or type"@,
                ),
            )
        } else if sha256(bytes) != expected_digest@ {
            Some(NodeFault::PrivateState("party-local private state digest changed"@))
        } else {
            match shares {
                Err(text) => Some(NodeFault::PrivateState(text)),
                Ok(list) => if list.len() != expected_shares(match_slots) {
                    Some(
                        NodeFault::PrivateState(
                            "private state contains "@ + decimal_text(list.len())
                                + " shares; expected "@ + decimal_text(
                                expected_shares(match_slots),
                            ),
                        ),
                    )
                } else {
                    None
                },
            }
        },
    }
}

/// Whether a completed round's public result lets an order's capability key
/// share out: a resting order that traded, or an arriving order that traded or
/// rests.
pub open spec fn release_permitted(
    plan: &RoundPlan,
    result: BatchView,
    order: OrderCommitment,
) -> bool {
    if order == plan.arriving {
        result.arriving_remaining > 0 || exists|i: int|
            0 <= i < result.slots.len() && (#[trigger] result.slots[i]).matched
    } else {
        exists|i: int|
            0 <= i < plan.resting@.len() && #[trigger] plan.resting@[i] == order && (forall|j: int|
                0 <= j < i ==> plan.resting@[j] != order) && i < result.slots.len()
                && result.slots[i].matched
    }
}

impl StoreView {
    /// The state of a node that has stored nothing yet.
    pub open spec fn empty(party: u16) -> StoreView {
        StoreView {
            version: STORE_VERSION,
            party,
            generation: 0,
            records: Map::empty(),
            completed_rounds: Map::empty(),
            ordering_sequence: 0,
            ordering_head: zero_digest(),
            ordering_votes: Map::empty(),
            ordered_commitments: Set::empty(),
            private_heads: Map::empty(),
            finalized_private_rounds: Map::empty(),
        }
    }

    /// The next generation, where there is one.
    pub open spec fn next_generation(self) -> StoreView
        recommends
            self.generation < u64::MAX,
    {
        StoreView { generation: (self.generation + 1) as u64, ..self }
    }

    /// Admit one order.
    pub open spec fn ingest(
        self,
        manifest: ManifestView,
        sealed: SealedShareView,
        capability: SealedCapabilityView,
        share_opens: Result<(), Seq<char>>,
        capability_opens: Result<(), Seq<char>>,
        now: u64,
    ) -> (StoreView, Result<IngestOutcome, NodeFault>) {
        let key = manifest.commitment.key();
        let record = RecordView {
            manifest,
            sealed,
            sealed_capability_key_share: Some(capability),
            admitted_at: now,
        };
        let next = StoreView { records: self.records.insert(key, record), ..self };
        match (share_opens, capability_opens) {
            (Err(text), _) => (self, Err(NodeFault::Admission(text))),
            (_, Err(text)) => (self, Err(NodeFault::Admission(text))),
            _ => if self.records.dom().contains(key) {
                let held = self.records[key];
                if held.manifest == manifest && held.sealed == sealed
                    && held.sealed_capability_key_share == Some(capability) {
                    (self, Ok(IngestOutcome::AlreadyPresent { generation: self.generation }))
                } else {
                    (self, Err(NodeFault::Conflict))
                }
            } else if self.generation == u64::MAX {
                (next, Err(NodeFault::Generation))
            } else {
                (
                    next.next_generation(),
                    Ok(IngestOutcome::Stored { generation: (self.generation + 1) as u64 }),
                )
            },
        }
    }

    /// Whether a vote would extend this node's chain of admitted orders.
    pub open spec fn vote_extends(
        self,
        market_id: Seq<char>,
        sequence: u64,
        commitment: OrderCommitment,
        previous_certificate: Digest32,
        expires_at: u64,
        now: u64,
    ) -> bool {
        let manifest = self.records[commitment.key()].manifest;
        &&& 0 < market_id.len()
        &&& text_bytes(market_id).len() <= 64
        &&& sequence == self.ordering_sequence + 1
        &&& previous_certificate == self.ordering_head
        &&& now <= expires_at
        &&& manifest.market_id == market_id
        &&& expires_at <= manifest.retention_deadline
        &&& !self.ordered_commitments.contains(commitment.key())
    }

    /// Record one vote. `statement` is the digest of what is voted for.
    pub open spec fn record_order_vote(
        self,
        market_id: Seq<char>,
        sequence: u64,
        commitment: OrderCommitment,
        previous_certificate: Digest32,
        expires_at: u64,
        statement: Digest32,
        now: u64,
    ) -> (StoreView, Result<Digest32, NodeFault>) {
        let next = StoreView {
            ordering_votes: self.ordering_votes.insert(
                sequence,
                StoredOrderVote { statement_digest: statement, expires_at },
            ),
            ..self
        };
        if self.ordering_sequence == u64::MAX {
            (self, Err(NodeFault::Generation))
        } else if !self.records.dom().contains(commitment.key()) {
            (self, Err(NodeFault::UnknownOrder))
        } else if !self.vote_extends(
            market_id,
            sequence,
            commitment,
            previous_certificate,
            expires_at,
            now,
        ) {
            (
                self,
                Err(
                    NodeFault::OrderingState(
                        "vote does not extend the node's admitted-order chain"@,
                    ),
                ),
            )
        } else if self.ordering_votes.dom().contains(sequence)
            && self.ordering_votes[sequence].statement_digest == statement {
            (self, Ok(statement))
        } else if self.ordering_votes.dom().contains(sequence) && now
            <= self.ordering_votes[sequence].expires_at {
            (
                self,
                Err(NodeFault::OrderingState("node refuses an equivocal vote for a live sequence"@)),
            )
        } else if self.generation == u64::MAX {
            (self, Err(NodeFault::Generation))
        } else {
            (next.next_generation(), Ok(statement))
        }
    }

    /// Whether a certificate would extend this node's accepted chain.
    pub open spec fn certificate_extends(
        self,
        certificate: &OrderCertificate,
        statement: Digest32,
        now: u64,
    ) -> bool {
        let key = certificate.commitment.key();
        let manifest = self.records[key].manifest;
        &&& certificate.sequence == self.ordering_sequence + 1
        &&& certificate.previous_certificate == self.ordering_head
        &&& manifest.market_id == certificate.market_id@
        &&& certificate.expires_at <= manifest.retention_deadline
        &&& !self.ordered_commitments.contains(key)
        &&& !(self.ordering_votes.dom().contains(certificate.sequence)
            && self.ordering_votes[certificate.sequence].statement_digest != statement && now
            <= self.ordering_votes[certificate.sequence].expires_at)
    }

    /// Accept one quorum certificate. `quorum` is the outcome of checking its
    /// votes; `statement` is the digest of what it certifies.
    pub open spec fn accept_order_certificate(
        self,
        certificate: &OrderCertificate,
        quorum: Result<(), Seq<char>>,
        statement: Digest32,
        now: u64,
    ) -> (StoreView, Result<u64, NodeFault>) {
        let key = certificate.commitment.key();
        let next = StoreView {
            ordering_sequence: certificate.sequence,
            ordering_head: certificate.digest,
            ordered_commitments: self.ordered_commitments.insert(key),
            ordering_votes: self.ordering_votes.remove(certificate.sequence),
            ..self
        };
        match quorum {
            Err(text) => (self, Err(NodeFault::OrderingState(text))),
            Ok(_) => if certificate.sequence == self.ordering_sequence {
                if self.ordering_head == certificate.digest && self.ordered_commitments.contains(
                    key,
                ) {
                    (self, Ok(self.generation))
                } else {
                    (
                        self,
                        Err(
                            NodeFault::OrderingState(
                                "certificate conflicts with the accepted chain head"@,
                            ),
                        ),
                    )
                }
            } else if self.ordering_sequence == u64::MAX {
                (self, Err(NodeFault::Generation))
            } else if !self.records.dom().contains(key) {
                (self, Err(NodeFault::UnknownOrder))
            } else if !self.certificate_extends(certificate, statement, now) {
                (
                    self,
                    Err(
                        NodeFault::OrderingState(
                            "certificate does not extend the node's accepted chain"@,
                        ),
                    ),
                )
            } else if self.generation == u64::MAX {
                (self, Err(NodeFault::Generation))
            } else {
                (next.next_generation(), Ok((self.generation + 1) as u64))
            },
        }
    }

    /// Drop an order that will not trade again.
    pub open spec fn remove_terminal(self, commitment: OrderCommitment) -> (
        StoreView,
        Result<bool, NodeFault>,
    ) {
        let next = StoreView { records: self.records.remove(commitment.key()), ..self };
        if !self.records.dom().contains(commitment.key()) {
            (self, Ok(false))
        } else if self.generation == u64::MAX {
            (next, Err(NodeFault::Generation))
        } else {
            (next.next_generation(), Ok(true))
        }
    }

    /// A receipt that is a complete result of this node's party.
    pub open spec fn receipt_complete(receipt: ReceiptView, party: u16, match_slots: u16) -> bool {
        &&& receipt.party == party
        &&& !is_zero(receipt.round_id@)
        &&& !is_zero(receipt.round_commitment@)
        &&& !is_zero(receipt.program_sha256@)
        &&& !is_zero(receipt.artifact_sha256@)
        &&& !is_zero(receipt.private_parent_digest@)
        &&& !is_zero(receipt.private_state_sha256@)
        &&& receipt.result.slots.len() == match_slots
        &&& receipt.public_output_sha256 == receipt.result.output_digest
        &&& !is_zero(receipt.signer@)
        &&& receipt.signature.len() == 64
    }

    /// Keep the signed receipt of a completed round.
    pub open spec fn record_completed_round(self, receipt: ReceiptView, match_slots: u16) -> (
        StoreView,
        Result<(), NodeFault>,
    ) {
        let key = round_key(receipt.round_id);
        let next = StoreView { completed_rounds: self.completed_rounds.insert(key, receipt), ..self
        };
        if !StoreView::receipt_complete(receipt, self.party, match_slots) {
            (self, Err(NodeFault::Round("execution receipt is not a complete party result"@)))
        } else if self.completed_rounds.dom().contains(key) {
            if self.completed_rounds[key] == receipt {
                (self, Ok(()))
            } else {
                (self, Err(NodeFault::Conflict))
            }
        } else if self.generation == u64::MAX {
            (next, Err(NodeFault::Generation))
        } else {
            (next.next_generation(), Ok(()))
        }
    }

    /// One resting order as it enters the digest of a round's private parents.
    pub open spec fn parent_entry(self, commitment: OrderCommitment) -> Seq<u8> {
        if self.private_heads.dom().contains(commitment.key()) {
            let head = self.private_heads[commitment.key()];
            commitment.0@ + seq![1u8] + head.round_id@ + head.private_state_sha256@ + big_endian(
                head.wire_offset as nat,
                2,
            )
        } else {
            commitment.0@ + seq![0u8]
        }
    }

    pub open spec fn parent_entries(self, resting: Seq<OrderCommitment>) -> Seq<u8>
        decreases resting.len(),
    {
        if resting.len() == 0 {
            Seq::empty()
        } else {
            self.parent_entries(resting.drop_last()) + self.parent_entry(resting.last())
        }
    }

    /// What the digest of a round's private parents is taken of.
    pub open spec fn parent_bytes(
        self,
        resting: Seq<OrderCommitment>,
        arriving: OrderCommitment,
    ) -> Seq<u8> {
        text_bytes("OCLOB:PRIVATE-BOOK-PARENTS:v1"@) + big_endian(resting.len(), 8)
            + self.parent_entries(resting) + arriving.0@
    }

    /// The pointer to one order's shares after a round.
    pub open spec fn new_head(
        receipt: ReceiptView,
        finality: PrivateStateFinality,
        wire: int,
    ) -> PrivateBookStateRef {
        PrivateBookStateRef {
            round_id: finality.round_id,
            private_state_sha256: receipt.private_state_sha256,
            wire_offset: wire as u16,
            transition_digest: finality.transition_digest,
            canonical_receipt_digest: finality.canonical_receipt_digest,
            canonical_height: finality.canonical_height,
        }
    }

    /// The private heads after the first `count` resting orders have advanced.
    pub open spec fn advanced_heads(
        self,
        resting: Seq<OrderCommitment>,
        receipt: ReceiptView,
        finality: PrivateStateFinality,
        count: nat,
    ) -> Map<Seq<char>, PrivateBookStateRef>
        decreases count,
    {
        if count == 0 {
            self.private_heads
        } else {
            let slot = (count - 1) as nat;
            self.advanced_heads(resting, receipt, finality, slot).insert(
                resting[slot as int].key(),
                StoreView::new_head(receipt, finality, (slot * 4) as int),
            )
        }
    }

    /// Finalize one round against its canonical settlement. `file` is what the
    /// check of this node's private state file finds.
    pub open spec fn finalize_private_round(
        self,
        plan: &RoundPlan,
        finality: PrivateStateFinality,
        file: PrivateStateView,
        match_slots: u16,
    ) -> (StoreView, Result<u64, NodeFault>) {
        let key = round_key(plan.round_id);
        let receipt = self.completed_rounds[key];
        let resting = plan.resting@;
        let overflow = NodeFault::PrivateState("private wire offset overflowed"@);
        let rested = self.advanced_heads(resting, receipt, finality, resting.len());
        let rests = receipt.result.arriving_remaining > 0;
        let heads = if rests {
            rested.insert(
                plan.arriving.key(),
                StoreView::new_head(receipt, finality, match_slots * 4),
            )
        } else {
            rested.remove(plan.arriving.key())
        };
        let next = StoreView {
            private_heads: heads,
            finalized_private_rounds: self.finalized_private_rounds.insert(
                key,
                finality.finalization(),
            ),
            ..self
        };
        if !finality.complete() {
            (self, Err(NodeFault::PrivateState("canonical finality binding is incomplete"@)))
        } else if finality.round_id != plan.round_id {
            (self, Err(NodeFault::PrivateState("finality refers to another MPC round"@)))
        } else if !self.completed_rounds.dom().contains(key) {
            (self, Err(NodeFault::PrivateState("MPC round is not complete"@)))
        } else if receipt.public_output_sha256 != finality.public_output_sha256 {
            (
                self,
                Err(
                    NodeFault::PrivateState(
                        "canonical finality does not bind this MPC output"@,
                    ),
                ),
            )
        } else if self.finalized_private_rounds.dom().contains(key) {
            if self.finalized_private_rounds[key] == finality.finalization() {
                (self, Ok(self.generation))
            } else {
                (self, Err(NodeFault::Conflict))
            }
        } else if receipt.private_parent_digest@ != sha256(
            self.parent_bytes(resting, plan.arriving),
        ) {
            (
                self,
                Err(
                    NodeFault::PrivateState(
                        "private book parent advanced before this round finalized"@,
                    ),
                ),
            )
        } else if private_state_fault(file, receipt.private_state_sha256, match_slots) is Some {
            (
                self,
                Err(private_state_fault(file, receipt.private_state_sha256, match_slots)->0),
            )
        } else if resting.len() > 16384 {
            (
                StoreView {
                    private_heads: self.advanced_heads(resting, receipt, finality, 16384),
                    ..self
                },
                Err(overflow),
            )
        } else if rests && match_slots * 4 > 65535 {
            (StoreView { private_heads: rested, ..self }, Err(overflow))
        } else if self.generation == u64::MAX {
            (self, Err(NodeFault::Generation))
        } else {
            (next.next_generation(), Ok((self.generation + 1) as u64))
        }
    }

    /// Why a capability key share stays closed, if it does. `opens` is the
    /// outcome of decrypting the share.
    pub open spec fn release_fault(
        self,
        plan: &RoundPlan,
        order: OrderCommitment,
        opens: Result<(), Seq<char>>,
    ) -> Option<NodeFault> {
        let key = round_key(plan.round_id);
        if !self.completed_rounds.dom().contains(key) {
            Some(NodeFault::Release("matching round is not complete"@))
        } else if !release_permitted(plan, self.completed_rounds[key].result, order) {
            Some(NodeFault::Release("public MPC result does not authorize capability release"@))
        } else if !self.records.dom().contains(order.key()) {
            Some(NodeFault::UnknownOrder)
        } else if self.records[order.key()].sealed_capability_key_share is None {
            Some(NodeFault::Release("legacy order has no capability-key share"@))
        } else {
            match opens {
                Err(text) => Some(NodeFault::Release(text)),
                Ok(_) => None,
            }
        }
    }

    /// The records whose retention deadline has passed.
    pub open spec fn expired_keys(self, now: u64) -> Set<Seq<char>> {
        Set::new(
            |key: Seq<char>|
                self.records.dom().contains(key) && self.records[key].manifest.retention_deadline
                    < now,
        )
    }

    /// Drop the records whose retention deadline has passed.
    pub open spec fn prune_expired(self, now: u64) -> (StoreView, Result<nat, NodeFault>) {
        let expired = self.expired_keys(now);
        let next = StoreView { records: self.records.remove_keys(expired), ..self };
        if expired.len() == 0 {
            (self, Ok(0nat))
        } else if self.generation == u64::MAX {
            (next, Err(NodeFault::Generation))
        } else {
            (next.next_generation(), Ok(expired.len()))
        }
    }

    /// Why an order's share may not enter a round, if it may not.
    pub open spec fn open_fault(
        self,
        commitment: OrderCommitment,
        market_id: Seq<char>,
        opened: Result<Seq<Seq<char>>, Seq<char>>,
    ) -> Option<NodeFault> {
        if !self.records.dom().contains(commitment.key()) {
            Some(NodeFault::UnknownOrder)
        } else if self.records[commitment.key()].manifest.market_id != market_id {
            Some(NodeFault::Round("round market differs from the committed order market"@))
        } else {
            match opened {
                Err(text) => Some(NodeFault::Admission(text)),
                Ok(_) => None,
            }
        }
    }

    /// The first of a run of shares that does not decode, if any.
    pub open spec fn decode_fault(
        shares: Seq<Result<Seq<char>, Seq<char>>>,
        start: int,
        count: nat,
    ) -> Option<NodeFault>
        decreases count,
    {
        if count == 0 {
            None
        } else {
            match StoreView::decode_fault(shares, start, (count - 1) as nat) {
                Some(fault) => Some(fault),
                None => match shares[start + count - 1] {
                    Err(text) => Some(NodeFault::PrivateState(text)),
                    Ok(_) => None,
                },
            }
        }
    }

    /// The four fields of one resting order: those it was admitted with while
    /// it has no private head, and else those of its head's shares.
    pub open spec fn match_fields(
        self,
        commitment: OrderCommitment,
        market_id: Seq<char>,
        opened: Result<Seq<Seq<char>>, Seq<char>>,
        file: PrivateStateView,
        match_slots: u16,
    ) -> Result<Seq<Seq<char>>, NodeFault> {
        match self.open_fault(commitment, market_id, opened) {
            Some(fault) => Err(fault),
            None => if !self.private_heads.dom().contains(commitment.key()) {
                Ok(seq!["1"@, opened->Ok_0[0], opened->Ok_0[1], opened->Ok_0[2]])
            } else {
                let head = self.private_heads[commitment.key()];
                let start = head.wire_offset as int;
                match private_state_fault(file, head.private_state_sha256, match_slots) {
                    Some(fault) => Err(fault),
                    None => {
                        let shares = file->Present_shares->Ok_0;
                        if start + 4 > shares.len() {
                            Err(NodeFault::PrivateState("private state wire offset is invalid"@))
                        } else {
                            match StoreView::decode_fault(shares, start, 4) {
                                Some(fault) => Err(fault),
                                None => Ok(
                                    seq![
                                        shares[start]->Ok_0,
                                        shares[start + 1]->Ok_0,
                                        shares[start + 2]->Ok_0,
                                        shares[start + 3]->Ok_0,
                                    ],
                                ),
                            }
                        }
                    },
                }
            },
        }
    }
}

/// What a node has at hand of one resting order when it prepares a round.
pub struct RestingView {
    pub opened: Result<Seq<Seq<char>>, Seq<char>>,
    pub file: PrivateStateView,
}

impl StoreView {
    /// The fields of the first `count` slots, or the first fault among them. A
    /// slot without an order is four zeros.
    pub open spec fn slot_fields(
        self,
        market_id: Seq<char>,
        resting: Seq<OrderCommitment>,
        at_hand: Seq<RestingView>,
        match_slots: u16,
        count: nat,
    ) -> Result<Seq<Seq<char>>, NodeFault>
        decreases count,
    {
        if count == 0 {
            Ok(Seq::empty())
        } else {
            let slot = count - 1;
            match self.slot_fields(market_id, resting, at_hand, match_slots, slot as nat) {
                Err(fault) => Err(fault),
                Ok(fields) => if slot < resting.len() {
                    match self.match_fields(
                        resting[slot],
                        market_id,
                        at_hand[slot].opened,
                        at_hand[slot].file,
                        match_slots,
                    ) {
                        Err(fault) => Err(fault),
                        Ok(four) => Ok(fields + four),
                    }
                } else {
                    Ok(fields + seq!["0"@, "0"@, "0"@, "0"@])
                },
            }
        }
    }

    /// Whether a round's market and commitments can make a frame.
    pub open spec fn round_well_formed(
        market_id: Seq<char>,
        resting: Seq<OrderCommitment>,
        arriving: OrderCommitment,
        match_slots: u16,
    ) -> bool {
        &&& 0 < market_id.len()
        &&& text_bytes(market_id).len() <= 64
        &&& resting.len() <= match_slots
        &&& !resting.contains(arriving)
        &&& resting.no_duplicates()
    }

    /// The fixed matching frame of a round, field by field.
    pub open spec fn round_fields(
        self,
        market_id: Seq<char>,
        resting: Seq<OrderCommitment>,
        at_hand: Seq<RestingView>,
        arriving: OrderCommitment,
        arriving_opened: Result<Seq<Seq<char>>, Seq<char>>,
        match_slots: u16,
    ) -> Result<Seq<Seq<char>>, NodeFault> {
        if !StoreView::round_well_formed(market_id, resting, arriving, match_slots) {
            Err(NodeFault::Round("round market or order commitments are invalid"@))
        } else {
            match self.open_fault(arriving, market_id, arriving_opened) {
                Some(fault) => Err(fault),
                None => match self.slot_fields(
                    market_id,
                    resting,
                    at_hand,
                    match_slots,
                    match_slots as nat,
                ) {
                    Err(fault) => Err(fault),
                    Ok(fields) => {
                        let own = arriving_opened->Ok_0;
                        Ok(fields + seq![own[0], own[1], own[2], own[5]])
                    },
                },
            }
        }
    }
}

/// Fields with one space between them.
pub open spec fn joined(fields: Seq<Seq<char>>) -> Seq<u8>
    decreases fields.len(),
{
    if fields.len() == 0 {
        Seq::empty()
    } else if fields.len() == 1 {
        text_bytes(fields[0])
    } else {
        joined(fields.drop_last()) + seq![32u8] + text_bytes(fields.last())
    }
}

/// What the commitment to a prepared round is the hash of.
pub open spec fn round_commitment_bytes(
    party: u16,
    generation: u64,
    resting: Seq<OrderCommitment>,
    arriving: OrderCommitment,
    contents: Seq<u8>,
) -> Seq<u8> {
    text_bytes("OCLOB:NODE-ROUND:v1"@) + big_endian(party as nat, 2) + big_endian(
        generation as nat,
        8,
    ) + big_endian(resting.len(), 2) + crate::executor::commitment_bytes(resting) + arriving.0@
        + sha256(contents)
}

impl StoreView {
    /// The part of a stored state that speaks of its party and ordering chain.
    pub open spec fn chain_consistent(self, party: u16) -> bool {
        &&& self.party == party
        &&& (self.ordering_sequence == 0) == is_zero(self.ordering_head@)
        &&& self.ordered_commitments.finite()
        &&& self.ordered_commitments.len() == self.ordering_sequence
        &&& self.ordering_votes.dom().finite()
        &&& self.ordering_votes.dom().len() <= 1
        &&& forall|sequence: u64| #[trigger]
            self.ordering_votes.dom().contains(sequence) ==> {
                let vote = self.ordering_votes[sequence];
                &&& sequence == (if self.ordering_sequence == u64::MAX {
                    u64::MAX
                } else {
                    (self.ordering_sequence + 1) as u64
                })
                &&& !is_zero(vote.statement_digest@)
                &&& vote.expires_at != 0
            }
    }

    pub open spec fn record_bound(key: Seq<char>, record: RecordView, party: u16) -> bool {
        &&& key == record.manifest.commitment.key()
        &&& record.manifest.commitment == record.sealed.commitment
        &&& record.sealed.party == party
        &&& record.sealed_capability_key_share matches Some(share) ==> {
            &&& share.order_commitment == record.manifest.commitment
            &&& share.capability_commitment == record.manifest.settlement_capability_commitment
            &&& share.party == party
        }
    }

    pub open spec fn records_bound(self, party: u16) -> bool {
        forall|key: Seq<char>| #[trigger]
            self.records.dom().contains(key) ==> StoreView::record_bound(
                key,
                self.records[key],
                party,
            )
    }

    pub open spec fn rounds_bound(self, party: u16, match_slots: u16) -> bool {
        forall|key: Seq<char>| #[trigger]
            self.completed_rounds.dom().contains(key) ==> key == round_key(
                self.completed_rounds[key].round_id,
            ) && StoreView::receipt_complete(self.completed_rounds[key], party, match_slots)
    }

    pub open spec fn head_bound(
        self,
        key: Seq<char>,
        head: PrivateBookStateRef,
        match_slots: u16,
    ) -> bool {
        let round = round_key(head.round_id);
        &&& self.records.dom().contains(key)
        &&& !is_zero(head.round_id@)
        &&& !is_zero(head.private_state_sha256@)
        &&& head.wire_offset <= match_slots * 4
        &&& head.wire_offset % 4 == 0
        &&& !is_zero(head.transition_digest@)
        &&& !is_zero(head.canonical_receipt_digest@)
        &&& head.canonical_height != 0
        &&& self.completed_rounds.dom().contains(round)
        &&& self.completed_rounds[round].private_state_sha256 == head.private_state_sha256
        &&& self.finalized_private_rounds.dom().contains(round)
        &&& self.finalized_private_rounds[round].transition_digest == head.transition_digest
        &&& self.finalized_private_rounds[round].canonical_receipt_digest
            == head.canonical_receipt_digest
        &&& self.finalized_private_rounds[round].canonical_height == head.canonical_height
    }

    pub open spec fn heads_bound(self, match_slots: u16) -> bool {
        forall|key: Seq<char>| #[trigger]
            self.private_heads.dom().contains(key) ==> self.head_bound(
                key,
                self.private_heads[key],
                match_slots,
            )
    }

    pub open spec fn finalization_bound(
        self,
        key: Seq<char>,
        finalization: PrivateRoundFinalization,
    ) -> bool {
        &&& !is_zero(finalization.public_output_sha256@)
        &&& !is_zero(finalization.transition_digest@)
        &&& !is_zero(finalization.canonical_receipt_digest@)
        &&& finalization.canonical_height != 0
        &&& self.completed_rounds.dom().contains(key)
        &&& self.completed_rounds[key].public_output_sha256 == finalization.public_output_sha256
    }

    pub open spec fn finalizations_bound(self) -> bool {
        forall|key: Seq<char>| #[trigger]
            self.finalized_private_rounds.dom().contains(key) ==> self.finalization_bound(
                key,
                self.finalized_private_rounds[key],
            )
    }

    /// A stored state that a node of `party` opens again.
    pub open spec fn reopens(self, party: u16, match_slots: u16) -> bool {
        &&& self.chain_consistent(party)
        &&& self.records_bound(party)
        &&& self.rounds_bound(party, match_slots)
        &&& self.heads_bound(match_slots)
        &&& self.finalizations_bound()
    }

    /// Why a stored state is refused, if it is: the first part that is wrong.
    pub open spec fn reopen_fault(self, party: u16, match_slots: u16) -> Option<NodeFault> {
        if !self.chain_consistent(party) {
            Some(NodeFault::State("node share store has an invalid party or ordering chain"@))
        } else if !self.records_bound(party) {
            Some(NodeFault::State("node share store contains a misbound record"@))
        } else if !self.rounds_bound(party, match_slots) {
            Some(NodeFault::State("node share store contains a misbound completed round"@))
        } else if !self.heads_bound(match_slots) {
            Some(NodeFault::State("node share store contains a misbound private-state head"@))
        } else if !self.finalizations_bound() {
            Some(
                NodeFault::State(
                    "node share store contains a misbound private-state finalization"@,
                ),
            )
        } else {
            None
        }
    }
}

} // verus!
