//! Orders, shares and matching results as the rules of this crate read them.

use crate::bytes::{bytes_equal, copy_bytes, digest_equal, Digest32};
use crate::text_map::text_equal;
use vstd::prelude::*;

verus! {

/// The number of matching parties.
pub const MPC_PARTIES: usize = 7;

/// How many capability-key shares open one settlement capability.
pub const SETTLEMENT_KEY_THRESHOLD: usize = 3;

/// A public commitment to one private order.
#[derive(Clone, Copy, Debug, PartialEq, Eq, PartialOrd, Ord, Hash)]
pub struct OrderCommitment(pub Digest32);

impl OrderCommitment {
    /// The text under which the order is filed.
    pub open spec fn key(&self) -> Seq<char> {
        crate::bytes::hex_text(self.0@)
    }

    pub fn hex(&self) -> (text: String)
        ensures
            text@ == self.key(),
    {
        crate::bytes::hex_encode(&self.0)
    }

    pub fn same(&self, other: &OrderCommitment) -> (same: bool)
        ensures
            same == (*self == *other),
    {
        proof {
            crate::bytes::lemma_digest_view(self.0, other.0);
        }
        digest_equal(&self.0, &other.0)
    }
}

/// Orders with one key are one order.
pub proof fn lemma_commitment_key_injective(a: OrderCommitment, b: OrderCommitment)
    ensures
        (a.key() == b.key()) == (a == b),
{
    crate::bytes::lemma_hex_text_injective(a.0@, b.0@);
    crate::bytes::lemma_digest_view(a.0, b.0);
}

/// Whether `list` holds `wanted`.
pub fn commitment_position(list: &[OrderCommitment], wanted: &OrderCommitment) -> (found: Option<
    usize,
>)
    ensures
        found is Some == list@.contains(*wanted),
        found matches Some(i) ==> i < list@.len() && list@[i as int] == *wanted && (forall|j: int|
            0 <= j < i ==> list@[j] != *wanted),
{
    let mut i: usize = 0;
    while i < list.len()
        invariant
            i <= list@.len(),
            forall|j: int| 0 <= j < i ==> list@[j] != *wanted,
        decreases list@.len() - i,
    {
        if list[i].same(wanted) {
            assert(list@[i as int] == *wanted);
            return Some(i);
        }
        i += 1;
    }
    None
}

/// Whether no commitment occurs twice.
pub fn commitments_distinct(list: &[OrderCommitment]) -> (distinct: bool)
    ensures
        distinct == list@.no_duplicates(),
{
    let mut i: usize = 0;
    while i < list.len()
        invariant
            i <= list@.len(),
            forall|p: int, q: int| 0 <= p < q < i ==> list@[p] != list@[q],
        decreases list@.len() - i,
    {
        let mut j: usize = 0;
        while j < i
            invariant
                j <= i < list@.len(),
                forall|p: int| 0 <= p < j ==> list@[p] != list@[i as int],
            decreases i - j,
        {
            if list[j].same(&list[i]) {
                assert(list@[j as int] == list@[i as int]);
                return false;
            }
            j += 1;
        }
        i += 1;
    }
    true
}

#[derive(Clone, Copy, Debug, PartialEq, Eq, Structural)]
pub enum Side {
    Buy,
    Sell,
}

#[derive(Clone, Copy, Debug, PartialEq, Eq, Structural)]
pub enum TimeInForce {
    GoodTilCancelled,
    ImmediateOrCancel,
}

/// The public result of one slot of the matching program.
#[derive(Clone, Copy, Debug, PartialEq, Eq, Structural)]
pub struct MpcSlotResult {
    pub matched: bool,
    pub trade_price: u64,
    pub trade_quantity: u64,
}

/// The public result of one matching round. `output_digest` is the digest that
/// the matching program's own library gives for these slots and remainder.
#[derive(Clone, Debug, PartialEq, Eq)]
pub struct MpcBatchResult {
    pub slots: Vec<MpcSlotResult>,
    pub arriving_remaining: u64,
    pub output_digest: Digest32,
}

pub struct BatchView {
    pub slots: Seq<MpcSlotResult>,
    pub arriving_remaining: u64,
    pub output_digest: Digest32,
}

impl View for MpcBatchResult {
    type V = BatchView;

    open spec fn view(&self) -> BatchView {
        BatchView {
            slots: self.slots@,
            arriving_remaining: self.arriving_remaining,
            output_digest: self.output_digest,
        }
    }
}

impl MpcBatchResult {
    /// Whether some slot traded.
    pub fn any_matched(&self) -> (found: bool)
        ensures
            found == (exists|i: int| 0 <= i < self.slots@.len() && (#[trigger] self.slots@[i]).matched),
    {
        let mut i: usize = 0;
        while i < self.slots.len()
            invariant
                i <= self.slots@.len(),
                forall|j: int| 0 <= j < i ==> !(#[trigger] self.slots@[j]).matched,
            decreases self.slots@.len() - i,
        {
            if self.slots[i].matched {
                assert(self.slots@[i as int].matched);
                return true;
            }
            i += 1;
        }
        false
    }

    pub fn copy(&self) -> (copy: MpcBatchResult)
        ensures
            copy@ == self@,
    {
        let mut slots: Vec<MpcSlotResult> = Vec::new();
        let mut i: usize = 0;
        while i < self.slots.len()
            invariant
                i <= self.slots@.len(),
                slots@ == self.slots@.take(i as int),
            decreases self.slots@.len() - i,
        {
            slots.push(self.slots[i]);
            i += 1;
            assert(slots@ =~= self.slots@.take(i as int));
        }
        assert(slots@ =~= self.slots@);
        MpcBatchResult {
            slots,
            arriving_remaining: self.arriving_remaining,
            output_digest: self.output_digest,
        }
    }

    pub fn same(&self, other: &MpcBatchResult) -> (same: bool)
        ensures
            same == (self@ == other@),
    {
        if self.slots.len() != other.slots.len() || self.arriving_remaining
            != other.arriving_remaining || !digest_equal(
            &self.output_digest,
            &other.output_digest,
        ) {
            return false;
        }
        let mut i: usize = 0;
        while i < self.slots.len()
            invariant
                i <= self.slots@.len(),
                self.slots@.len() == other.slots@.len(),
                self.arriving_remaining == other.arriving_remaining,
                self.output_digest == other.output_digest,
                forall|j: int| 0 <= j < i ==> self.slots@[j] == other.slots@[j],
            decreases self.slots@.len() - i,
        {
            if self.slots[i] != other.slots[i] {
                assert(self.slots@[i as int] != other.slots@[i as int]);
                return false;
            }
            i += 1;
        }
        assert(self.slots@ =~= other.slots@);
        true
    }
}

/// The public description of an order that the owner signed. `body` is the
/// encoding of every field that is not named here.
#[derive(Clone, Debug, PartialEq, Eq)]
pub struct EdgeOrderManifest {
    pub market_id: String,
    pub commitment: OrderCommitment,
    pub retention_deadline: u64,
    pub settlement_capability_commitment: Digest32,
    pub signer: Digest32,
    pub body: Vec<u8>,
}

pub struct ManifestView {
    pub market_id: Seq<char>,
    pub commitment: OrderCommitment,
    pub retention_deadline: u64,
    pub settlement_capability_commitment: Digest32,
    pub signer: Digest32,
    pub body: Seq<u8>,
}

impl View for EdgeOrderManifest {
    type V = ManifestView;

    open spec fn view(&self) -> ManifestView {
        ManifestView {
            market_id: self.market_id@,
            commitment: self.commitment,
            retention_deadline: self.retention_deadline,
            settlement_capability_commitment: self.settlement_capability_commitment,
            signer: self.signer,
            body: self.body@,
        }
    }
}

impl EdgeOrderManifest {
    pub fn copy(&self) -> (copy: EdgeOrderManifest)
        ensures
            copy@ == self@,
    {
        EdgeOrderManifest {
            market_id: self.market_id.clone(),
            commitment: self.commitment,
            retention_deadline: self.retention_deadline,
            settlement_capability_commitment: self.settlement_capability_commitment,
            signer: self.signer,
            body: copy_bytes(self.body.as_slice()),
        }
    }

    pub fn same(&self, other: &EdgeOrderManifest) -> (same: bool)
        ensures
            same == (self@ == other@),
    {
        text_equal(self.market_id.as_str(), other.market_id.as_str()) && self.commitment.same(
            &other.commitment,
        ) && self.retention_deadline == other.retention_deadline && digest_equal(
            &self.settlement_capability_commitment,
            &other.settlement_capability_commitment,
        ) && digest_equal(&self.signer, &other.signer) && bytes_equal(self.body.as_slice(), other.body.as_slice())
    }
}

/// One party's order share, encrypted to that party.
#[derive(Clone, Debug, PartialEq, Eq)]
pub struct SealedPartyShare {
    pub commitment: OrderCommitment,
    pub party: u16,
    /// The encryption key of the party that can open it.
    pub recipient: Vec<u8>,
    pub ciphertext: Vec<u8>,
}

pub struct SealedShareView {
    pub commitment: OrderCommitment,
    pub party: u16,
    pub recipient: Seq<u8>,
    pub ciphertext: Seq<u8>,
}

impl View for SealedPartyShare {
    type V = SealedShareView;

    open spec fn view(&self) -> SealedShareView {
        SealedShareView {
            commitment: self.commitment,
            party: self.party,
            recipient: self.recipient@,
            ciphertext: self.ciphertext@,
        }
    }
}

impl SealedPartyShare {
    pub fn same(&self, other: &SealedPartyShare) -> (same: bool)
        ensures
            same == (self@ == other@),
    {
        self.commitment.same(&other.commitment) && self.party == other.party && bytes_equal(
            self.recipient.as_slice(),
            other.recipient.as_slice(),
        ) && bytes_equal(
            self.ciphertext.as_slice(),
            other.ciphertext.as_slice(),
        )
    }
}

/// One party's share of a settlement-capability key, encrypted to that party.
#[derive(Clone, Debug, PartialEq, Eq)]
pub struct SealedCapabilityKeyShare {
    pub order_commitment: OrderCommitment,
    pub capability_commitment: Digest32,
    pub party: u16,
    /// The encryption key of the party that can open it.
    pub recipient: Vec<u8>,
    pub ciphertext: Vec<u8>,
}

pub struct SealedCapabilityView {
    pub order_commitment: OrderCommitment,
    pub capability_commitment: Digest32,
    pub party: u16,
    pub recipient: Seq<u8>,
    pub ciphertext: Seq<u8>,
}

impl View for SealedCapabilityKeyShare {
    type V = SealedCapabilityView;

    open spec fn view(&self) -> SealedCapabilityView {
        SealedCapabilityView {
            order_commitment: self.order_commitment,
            capability_commitment: self.capability_commitment,
            party: self.party,
            recipient: self.recipient@,
            ciphertext: self.ciphertext@,
        }
    }
}

impl SealedCapabilityKeyShare {
    pub fn same(&self, other: &SealedCapabilityKeyShare) -> (same: bool)
        ensures
            same == (self@ == other@),
    {
        self.order_commitment.same(&other.order_commitment) && digest_equal(
            &self.capability_commitment,
            &other.capability_commitment,
        ) && self.party == other.party && bytes_equal(
            self.recipient.as_slice(),
            other.recipient.as_slice(),
        ) && bytes_equal(
            self.ciphertext.as_slice(),
            other.ciphertext.as_slice(),
        )
    }
}

/// The decimal secret shares of one opened order, in the order in which the
/// share library lists them.
pub struct PartyOrderShare {
    pub decimals: [String; 6],
}

/// A quorum certificate that fixes one order's place in the market. `digest`
/// is the certificate's own digest.
#[derive(Clone, Debug, PartialEq, Eq)]
pub struct OrderCertificate {
    pub market_id: String,
    pub sequence: u64,
    pub commitment: OrderCommitment,
    pub previous_certificate: Digest32,
    pub expires_at: u64,
    pub voters: Vec<u16>,
    pub digest: Digest32,
}

pub struct CertificateView {
    pub market_id: Seq<char>,
    pub sequence: u64,
    pub commitment: OrderCommitment,
    pub previous_certificate: Digest32,
    pub expires_at: u64,
    pub voters: Seq<u16>,
    pub digest: Digest32,
}

impl View for OrderCertificate {
    type V = CertificateView;

    open spec fn view(&self) -> CertificateView {
        CertificateView {
            market_id: self.market_id@,
            sequence: self.sequence,
            commitment: self.commitment,
            previous_certificate: self.previous_certificate,
            expires_at: self.expires_at,
            voters: self.voters@,
            digest: self.digest,
        }
    }
}

impl OrderCertificate {
    pub fn copy(&self) -> (copy: OrderCertificate)
        ensures
            copy@ == self@,
    {
        let mut voters: Vec<u16> = Vec::new();
        let mut i: usize = 0;
        while i < self.voters.len()
            invariant
                i <= self.voters@.len(),
                voters@ == self.voters@.take(i as int),
            decreases self.voters@.len() - i,
        {
            voters.push(self.voters[i]);
            i += 1;
            assert(voters@ =~= self.voters@.take(i as int));
        }
        assert(voters@ =~= self.voters@);
        OrderCertificate {
            market_id: self.market_id.clone(),
            sequence: self.sequence,
            commitment: self.commitment,
            previous_certificate: self.previous_certificate,
            expires_at: self.expires_at,
            voters,
            digest: self.digest,
        }
    }
}

/// The public identity of one node.
#[derive(Clone, Debug, PartialEq, Eq)]
pub struct ClusterNodePublic {
    pub party: u16,
    pub share_encryption_key: Vec<u8>,
    pub receipt_verifying_key: Digest32,
}

/// The public configuration of a cluster. `fault` is why the network layer's
/// own check refuses it, if it does; the check is made where the configuration
/// is read.
#[derive(Clone, Debug, PartialEq, Eq)]
pub struct ClusterPublicConfig {
    pub market_id: String,
    pub program: String,
    pub settlement_release_threshold: usize,
    pub nodes: Vec<ClusterNodePublic>,
    pub fault: Option<String>,
}

} // verus!
