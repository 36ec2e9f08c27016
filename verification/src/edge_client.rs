//! Corporate-edge fan-out that never gives all seven shares to a coordinator.

use crate::bytes::{
    big_endian, bytes_equal, digest_equal, digest_is_zero, is_zero, push_all, push_text, push_u16,
    push_u64, sha256, sha256_digest, text_bytes, Digest32,
};
use crate::executor::{NodeExecutionReceipt, RoundPlan};
use crate::signatures::{ed25519_key_decodes, key_decodes};
use crate::stable_sort::{dedup_by_party, first_of_each, sort_by_party, stable_sorted};
use crate::store::release_is_authorized_by;
use crate::store_model::{release_permitted, PrivateStateFinality};
use crate::text_map::text_equal;
use crate::types::{
    ClusterPublicConfig, EdgeOrderManifest, MpcBatchResult, OrderCertificate, OrderCommitment,
    SealedCapabilityKeyShare, SealedPartyShare, MPC_PARTIES, SETTLEMENT_KEY_THRESHOLD,
};
use vstd::prelude::*;

verus! {

/// The longest wait for one node, in nanoseconds.
pub const MAX_RPC_NANOS: u128 = 120_000_000_000;

/// The longest wait for one matching round, in nanoseconds.
pub const MAX_EXECUTION_NANOS: u128 = 600_000_000_000;

#[derive(Clone, Debug, PartialEq, Eq)]
pub enum EdgeClientError {
    Configuration,
    Worker,
    Receipt,
    OrderingQuorum,
    SettlementThreshold,
    Network(String),
}

impl EdgeClientError {
    pub open spec fn text(&self) -> Seq<char> {
        match *self {
            EdgeClientError::Configuration => "edge distributor configuration is invalid"@,
            EdgeClientError::Worker => "one node delivery worker failed"@,
            EdgeClientError::Receipt => "edge admission receipt is invalid"@,
            EdgeClientError::OrderingQuorum => "five valid ordering votes were not obtained"@,
            EdgeClientError::SettlementThreshold =>
                "three valid post-match capability releases were not obtained"@,
            EdgeClientError::Network(text) => text@,
        }
    }

    /// The text that a caller reports.
    pub fn message(&self) -> (text: String)
        ensures
            text@ == self.text(),
    {
        match self {
            EdgeClientError::Configuration =>
            "edge distributor configuration is invalid".to_owned(),
            EdgeClientError::Worker => "one node delivery worker failed".to_owned(),
            EdgeClientError::Receipt => "edge admission receipt is invalid".to_owned(),
            EdgeClientError::OrderingQuorum =>
            "five valid ordering votes were not obtained".to_owned(),
            EdgeClientError::SettlementThreshold =>
            "three valid post-match capability releases were not obtained".to_owned(),
            EdgeClientError::Network(text) => text.clone(),
        }
    }
}

/// The error of a cluster configuration that the network layer refuses.
pub open spec fn cluster_refused(cluster: &ClusterPublicConfig, error: EdgeClientError) -> bool {
    cluster.fault matches Some(text) && error matches EdgeClientError::Network(shown) && shown@
        == text@
}

fn check_cluster(cluster: &ClusterPublicConfig) -> (r: Result<(), EdgeClientError>)
    ensures
        r is Ok == cluster.fault is None,
        r matches Err(e) ==> cluster_refused(cluster, e),
{
    match &cluster.fault {
        None => Ok(()),
        Some(text) => Err(EdgeClientError::Network(text.clone())),
    }
}

/// What one node signs when it has stored its shares of an order.
#[derive(Clone, Debug, PartialEq, Eq)]
pub struct NodeAdmissionReceipt {
    pub party: u16,
    pub order_commitment: OrderCommitment,
    pub manifest_signer: Digest32,
    pub order_share_digest: Digest32,
    pub capability_key_share_digest: Digest32,
    pub generation: u64,
    pub state_digest: Digest32,
    pub signer: Digest32,
    pub signature: Vec<u8>,
}

impl NodeAdmissionReceipt {
    pub open spec fn receipt_bytes(&self) -> Seq<u8> {
        big_endian(self.party as nat, 2) + self.order_commitment.0@ + self.manifest_signer@
            + self.order_share_digest@ + self.capability_key_share_digest@ + big_endian(
            self.generation as nat,
            8,
        ) + self.state_digest@ + self.signer@ + big_endian(self.signature@.len(), 8)
            + self.signature@
    }

    fn push_bytes(&self, out: &mut Vec<u8>)
        ensures
            final(out)@ == old(out)@ + self.receipt_bytes(),
    {
        push_u16(out, self.party);
        push_all(out, &self.order_commitment.0);
        push_all(out, &self.manifest_signer);
        push_all(out, &self.order_share_digest);
        push_all(out, &self.capability_key_share_digest);
        push_u64(out, self.generation);
        push_all(out, &self.state_digest);
        push_all(out, &self.signer);
        push_u64(out, self.signature.len() as u64);
        push_all(out, self.signature.as_slice());
        assert(out@ =~= old(out)@ + self.receipt_bytes());
    }
}

/// The public proof that all seven nodes have stored one order.
#[derive(Clone, Debug, PartialEq, Eq)]
pub struct EdgeAdmissionReceipt {
    pub version: u16,
    pub manifest: EdgeOrderManifest,
    pub node_generations: [u64; 7],
    pub order_share_digests: [Digest32; 7],
    pub capability_key_share_digests: [Digest32; 7],
    pub node_receipts: Vec<NodeAdmissionReceipt>,
    pub receipt_digest: Digest32,
}

pub open spec fn party_bytes(
    generations: Seq<u64>,
    shares: Seq<Digest32>,
    keys: Seq<Digest32>,
    count: nat,
) -> Seq<u8>
    decreases count,
{
    if count == 0 {
        Seq::empty()
    } else {
        let party = count - 1;
        party_bytes(generations, shares, keys, party as nat) + (big_endian(party as nat, 2)
            + big_endian(generations[party] as nat, 8) + shares[party]@ + keys[party]@)
    }
}

pub open spec fn node_receipts_bytes(receipts: Seq<NodeAdmissionReceipt>) -> Seq<u8>
    decreases receipts.len(),
{
    if receipts.len() == 0 {
        Seq::empty()
    } else {
        node_receipts_bytes(receipts.drop_last()) + receipts.last().receipt_bytes()
    }
}

/// What the digest of an admission is the hash of.
pub open spec fn admission_bytes(
    commitment: OrderCommitment,
    signer: Digest32,
    generations: Seq<u64>,
    shares: Seq<Digest32>,
    keys: Seq<Digest32>,
    receipts: Seq<NodeAdmissionReceipt>,
) -> Seq<u8> {
    text_bytes("OCLOB:EDGE-ADMISSION-RECEIPT:v2"@) + commitment.0@ + signer@ + party_bytes(
        generations,
        shares,
        keys,
        7,
    ) + big_endian(receipts.len(), 8) + node_receipts_bytes(receipts)
}

fn receipt_digest(
    manifest: &EdgeOrderManifest,
    generations: &[u64; 7],
    order_share_digests: &[Digest32; 7],
    capability_key_share_digests: &[Digest32; 7],
    node_receipts: &Vec<NodeAdmissionReceipt>,
) -> (digest: Digest32)
    ensures
        digest@ == sha256(
            admission_bytes(
                manifest.commitment,
                manifest.signer,
                generations@,
                order_share_digests@,
                capability_key_share_digests@,
                node_receipts@,
            ),
        ),
{
    let mut body: Vec<u8> = Vec::new();
    push_text(&mut body, "OCLOB:EDGE-ADMISSION-RECEIPT:v2");
    assert(body@ =~= text_bytes("OCLOB:EDGE-ADMISSION-RECEIPT:v2"@));
    push_all(&mut body, &manifest.commitment.0);
    push_all(&mut body, &manifest.signer);
    let ghost head = body@;
    let mut party: usize = 0;
    assert(body@ =~= head + party_bytes(
        generations@,
        order_share_digests@,
        capability_key_share_digests@,
        0,
    ));
    while party < 7
        invariant
            party <= 7,
            body@ == head + party_bytes(
                generations@,
                order_share_digests@,
                capability_key_share_digests@,
                party as nat,
            ),
        decreases 7 - party,
    {
        push_u16(&mut body, party as u16);
        push_u64(&mut body, generations[party]);
        push_all(&mut body, &order_share_digests[party]);
        push_all(&mut body, &capability_key_share_digests[party]);
        party += 1;
        assert(body@ =~= head + party_bytes(
            generations@,
            order_share_digests@,
            capability_key_share_digests@,
            party as nat,
        ));
    }
    push_u64(&mut body, node_receipts.len() as u64);
    let ghost middle = body@;
    let mut i: usize = 0;
    assert(node_receipts@.take(0) =~= Seq::<NodeAdmissionReceipt>::empty());
    assert(body@ =~= middle + node_receipts_bytes(node_receipts@.take(0)));
    while i < node_receipts.len()
        invariant
            i <= node_receipts@.len(),
            body@ == middle + node_receipts_bytes(node_receipts@.take(i as int)),
        decreases node_receipts@.len() - i,
    {
        node_receipts[i].push_bytes(&mut body);
        i += 1;
        assert(node_receipts@.take(i as int).drop_last() =~= node_receipts@.take(i - 1));
        assert(node_receipts@.take(i as int).last() == node_receipts@[i - 1]);
        assert(body@ =~= middle + node_receipts_bytes(node_receipts@.take(i as int)));
    }
    assert(node_receipts@.take(i as int) =~= node_receipts@);
    sha256_digest(body.as_slice())
}

impl EdgeAdmissionReceipt {
    pub fn commitment(&self) -> (commitment: OrderCommitment)
        ensures
            commitment == self.manifest.commitment,
    {
        self.manifest.commitment
    }

    /// The receipt as its digest covers it.
    pub open spec fn digest_bytes(&self) -> Seq<u8> {
        admission_bytes(
            self.manifest.commitment,
            self.manifest.signer,
            self.node_generations@,
            self.order_share_digests@,
            self.capability_key_share_digests@,
            self.node_receipts@,
        )
    }

    /// Seven acknowledgements of one order in the cluster's market.
    /// `manifest_valid` says whether the manifest itself stands; each of
    /// `receipts_valid` whether that party's receipt fits the manifest, the
    /// share digests and the pinned key.
    pub open spec fn admitted(
        &self,
        cluster: &ClusterPublicConfig,
        manifest_valid: bool,
        receipts_valid: Seq<bool>,
    ) -> bool {
        &&& self.version == 2
        &&& self.manifest.market_id@ == cluster.market_id@
        &&& forall|party: int| 0 <= party < 7 ==> #[trigger] self.node_generations@[party] != 0
        &&& forall|party: int|
            0 <= party < 7 ==> !is_zero((#[trigger] self.order_share_digests@[party])@)
        &&& forall|party: int|
            0 <= party < 7 ==> !is_zero((#[trigger] self.capability_key_share_digests@[party])@)
        &&& self.node_receipts@.len() == MPC_PARTIES
        &&& self.receipt_digest@ == sha256(self.digest_bytes())
        &&& manifest_valid
        &&& forall|party: int|
            0 <= party < cluster.nodes@.len() && party < 7 ==> #[trigger] self.node_stands(
                cluster,
                receipts_valid,
                party,
            )
    }

    /// One node's key decodes, and its receipt stands and names the party, the
    /// ciphertexts and the generation listed for it.
    pub open spec fn node_stands(
        &self,
        cluster: &ClusterPublicConfig,
        receipts_valid: Seq<bool>,
        party: int,
    ) -> bool {
        &&& ed25519_key_decodes(cluster.nodes@[party].receipt_verifying_key@)
        &&& receipts_valid[party]
        &&& self.node_receipts@[party].party == party
        &&& self.node_receipts@[party].order_share_digest == self.order_share_digests@[party]
        &&& self.node_receipts@[party].capability_key_share_digest
            == self.capability_key_share_digests@[party]
        &&& self.node_receipts@[party].generation == self.node_generations@[party]
    }

    fn shape_holds(&self, cluster: &ClusterPublicConfig) -> (holds: bool)
        ensures
            holds == {
                &&& self.version == 2
                &&& self.manifest.market_id@ == cluster.market_id@
                &&& forall|party: int|
                    0 <= party < 7 ==> #[trigger] self.node_generations@[party] != 0
                &&& forall|party: int|
                    0 <= party < 7 ==> !is_zero((#[trigger] self.order_share_digests@[party])@)
                &&& forall|party: int|
                    0 <= party < 7 ==> !is_zero(
                        (#[trigger] self.capability_key_share_digests@[party])@,
                    )
                &&& self.node_receipts@.len() == MPC_PARTIES
                &&& self.receipt_digest@ == sha256(self.digest_bytes())
            },
    {
        if self.version != 2 || !text_equal(
            self.manifest.market_id.as_str(),
            cluster.market_id.as_str(),
        ) || self.node_receipts.len() != MPC_PARTIES {
            return false;
        }
        let mut party: usize = 0;
        while party < 7
            invariant
                party <= 7,
                forall|p: int| 0 <= p < party ==> #[trigger] self.node_generations@[p] != 0,
                forall|p: int|
                    0 <= p < party ==> !is_zero((#[trigger] self.order_share_digests@[p])@),
                forall|p: int|
                    0 <= p < party ==> !is_zero(
                        (#[trigger] self.capability_key_share_digests@[p])@,
                    ),
            decreases 7 - party,
        {
            if self.node_generations[party] == 0 {
                assert(self.node_generations@[party as int] == 0);
                return false;
            }
            if digest_is_zero(&self.order_share_digests[party]) {
                assert(is_zero(self.order_share_digests@[party as int]@));
                return false;
            }
            if digest_is_zero(&self.capability_key_share_digests[party]) {
                assert(is_zero(self.capability_key_share_digests@[party as int]@));
                return false;
            }
            party += 1;
        }
        let digest = receipt_digest(
            &self.manifest,
            &self.node_generations,
            &self.order_share_digests,
            &self.capability_key_share_digests,
            &self.node_receipts,
        );
        digest_equal(&self.receipt_digest, &digest)
    }

    pub fn verify(
        &self,
        cluster: &ClusterPublicConfig,
        manifest_valid: bool,
        receipts_valid: &Vec<bool>,
    ) -> (r: Result<(), EdgeClientError>)
        requires
            receipts_valid@.len() == MPC_PARTIES,
        ensures
            r is Ok == (cluster.fault is None && self.admitted(
                cluster,
                manifest_valid,
                receipts_valid@,
            )),
            r matches Err(e) ==> if cluster.fault is Some {
                cluster_refused(cluster, e)
            } else {
                e is Receipt
            },
    {
        match check_cluster(cluster) {
            Err(e) => return Err(e),
            Ok(_) => {},
        }
        if !self.shape_holds(cluster) {
            return Err(EdgeClientError::Receipt);
        }
        if !manifest_valid {
            return Err(EdgeClientError::Receipt);
        }
        let mut party: usize = 0;
        while party < cluster.nodes.len() && party < 7
            invariant
                cluster.fault is None,
                party <= cluster.nodes@.len(),
                party <= 7,
                receipts_valid@.len() == 7,
                self.node_receipts@.len() == 7,
                forall|p: int|
                    0 <= p < party ==> #[trigger] self.node_stands(cluster, receipts_valid@, p),
            decreases 7 - party,
        {
            let node = &cluster.nodes[party];
            let receipt = &self.node_receipts[party];
            if !key_decodes(&node.receipt_verifying_key) || !receipts_valid[party]
                || receipt.party as usize != party || !digest_equal(
                &receipt.order_share_digest,
                &self.order_share_digests[party],
            ) || !digest_equal(
                &receipt.capability_key_share_digest,
                &self.capability_key_share_digests[party],
            ) || receipt.generation != self.node_generations[party] {
                assert(!self.node_stands(cluster, receipts_valid@, party as int));
                return Err(EdgeClientError::Receipt);
            }
            assert(self.node_stands(cluster, receipts_valid@, party as int));
            party += 1;
        }
        Ok(())
    }
}

/// Participant-only durable delivery payload. All seven values here are
/// recipient-encrypted. Never send this aggregate to a coordinator.
pub struct PreparedEdgeDelivery {
    pub manifest: EdgeOrderManifest,
    pub deliveries: Vec<EdgeDelivery>,
}

/// What one node is sent. The two digests are those of the ciphertexts on the
/// wire.
pub struct EdgeDelivery {
    pub party: u16,
    pub share: SealedPartyShare,
    pub key: SealedCapabilityKeyShare,
    pub share_digest: Digest32,
    pub key_digest: Digest32,
}

impl PreparedEdgeDelivery {
    /// A delivery that is addressed to its node and to nobody else.
    pub open spec fn addressed(&self, cluster: &ClusterPublicConfig, i: int) -> bool {
        let node = cluster.nodes@[i];
        let delivery = self.deliveries@[i];
        &&& delivery.party == node.party
        &&& delivery.share.party == delivery.party
        &&& delivery.key.party == delivery.party
        &&& delivery.share.commitment == self.manifest.commitment
        &&& delivery.key.order_commitment == self.manifest.commitment
        &&& delivery.key.capability_commitment == self.manifest.settlement_capability_commitment
        &&& delivery.share.recipient@ == node.share_encryption_key@
        &&& delivery.key.recipient@ == node.share_encryption_key@
    }

    /// One delivery for each party, each addressed to its node.
    pub open spec fn all_addressed(&self, cluster: &ClusterPublicConfig) -> bool {
        &&& self.deliveries@.len() == MPC_PARTIES
        &&& forall|i: int|
            #![trigger cluster.nodes@[i]]
            0 <= i < cluster.nodes@.len() && i < self.deliveries@.len() ==> self.addressed(
                cluster,
                i,
            )
    }

    /// A delivery that may be sent. `manifest_valid` says whether the manifest
    /// itself stands.
    pub open spec fn valid_for(&self, cluster: &ClusterPublicConfig, manifest_valid: bool) -> bool {
        &&& cluster.fault is None
        &&& manifest_valid
        &&& self.manifest.market_id@ == cluster.market_id@
        &&& self.all_addressed(cluster)
    }

    /// How a delivery that may not be sent is refused.
    pub open spec fn refused_with(
        &self,
        cluster: &ClusterPublicConfig,
        manifest_valid: bool,
        e: EdgeClientError,
    ) -> bool {
        if cluster.fault is Some {
            cluster_refused(cluster, e)
        } else if !manifest_valid {
            e is Receipt
        } else if self.manifest.market_id@ != cluster.market_id@ {
            e is Configuration
        } else {
            e is Receipt
        }
    }

    /// Check that each ciphertext is bound to the order and to its node.
    /// `manifest_valid` says whether the manifest itself stands.
    pub fn validate(&self, cluster: &ClusterPublicConfig, manifest_valid: bool) -> (r: Result<
        (),
        EdgeClientError,
    >)
        ensures
            r is Ok == self.valid_for(cluster, manifest_valid),
            r matches Err(e) ==> self.refused_with(cluster, manifest_valid, e),
    {
        match check_cluster(cluster) {
            Err(e) => return Err(e),
            Ok(_) => {},
        }
        if !manifest_valid {
            return Err(EdgeClientError::Receipt);
        }
        if !text_equal(self.manifest.market_id.as_str(), cluster.market_id.as_str()) {
            return Err(EdgeClientError::Configuration);
        }
        if self.deliveries.len() != MPC_PARTIES {
            return Err(EdgeClientError::Receipt);
        }
        let mut i: usize = 0;
        while i < cluster.nodes.len() && i < self.deliveries.len()
            invariant
                self.deliveries@.len() == MPC_PARTIES,
                cluster.fault is None,
                manifest_valid,
                self.manifest.market_id@ == cluster.market_id@,
                i <= cluster.nodes@.len(),
                i <= self.deliveries@.len(),
                forall|j: int|
                    #![trigger cluster.nodes@[j]]
                    0 <= j < i ==> self.addressed(cluster, j),
            decreases cluster.nodes@.len() - i,
        {
            let node = &cluster.nodes[i];
            let delivery = &self.deliveries[i];
            if delivery.party != node.party || delivery.share.party != delivery.party
                || delivery.key.party != delivery.party || !delivery.share.commitment.same(
                &self.manifest.commitment,
            ) || !delivery.key.order_commitment.same(&self.manifest.commitment) || !digest_equal(
                &delivery.key.capability_commitment,
                &self.manifest.settlement_capability_commitment,
            ) || !bytes_equal(
                delivery.share.recipient.as_slice(),
                node.share_encryption_key.as_slice(),
            ) || !bytes_equal(
                delivery.key.recipient.as_slice(),
                node.share_encryption_key.as_slice(),
            ) {
                assert(!self.addressed(cluster, i as int));
                assert(cluster.nodes@[i as int] == node);
                return Err(EdgeClientError::Receipt);
            }
            assert(self.addressed(cluster, i as int));
            i += 1;
        }
        Ok(())
    }
}

/// Why one node's worker gave no reply.
#[derive(Clone, Debug, PartialEq, Eq)]
pub enum ReplyFailure {
    Panicked,
    Network(String),
}

/// The error that a missing reply becomes.
pub open spec fn reply_error(failure: ReplyFailure, error: EdgeClientError) -> bool {
    match failure {
        ReplyFailure::Panicked => error is Worker,
        ReplyFailure::Network(text) => error matches EdgeClientError::Network(shown) && shown@
            == text@,
    }
}

/// Whether every node replied.
pub open spec fn all_came<T>(replies: Seq<Result<T, ReplyFailure>>) -> bool {
    forall|i: int| 0 <= i < replies.len() ==> (#[trigger] replies[i]) is Ok
}

/// What the nodes replied, where all did.
pub open spec fn values_of<T>(replies: Seq<Result<T, ReplyFailure>>) -> Seq<T> {
    Seq::new(replies.len(), |i: int| replies[i]->Ok_0)
}

/// The error of the first reply that did not come.
pub open spec fn first_failure<T>(
    replies: Seq<Result<T, ReplyFailure>>,
    error: EdgeClientError,
) -> bool {
    exists|i: int|
        0 <= i < replies.len() && (#[trigger] replies[i]) is Err && reply_error(
            replies[i]->Err_0,
            error,
        ) && forall|j: int| 0 <= j < i ==> (#[trigger] replies[j]) is Ok
}

/// All replies, or the first failure in the order of the nodes.
pub fn gather_replies<T>(replies: Vec<Result<T, ReplyFailure>>) -> (r: Result<
    Vec<T>,
    EdgeClientError,
>)
    ensures
        r is Ok == (forall|i: int| 0 <= i < replies@.len() ==> (#[trigger] replies@[i]) is Ok),
        r matches Ok(values) ==> values@.len() == replies@.len() && forall|i: int|
            0 <= i < replies@.len() ==> replies@[i] == Ok::<T, ReplyFailure>(
                #[trigger] values@[i],
            ),
        r matches Err(e) ==> exists|i: int|
            0 <= i < replies@.len() && (#[trigger] replies@[i]) is Err && reply_error(
                replies@[i]->Err_0,
                e,
            ) && forall|j: int| 0 <= j < i ==> (#[trigger] replies@[j]) is Ok,
{
    let ghost all = replies@;
    let mut rest = replies;
    let mut values: Vec<T> = Vec::new();
    assert(all.skip(0) =~= all);
    while rest.len() > 0
        invariant
            all == replies@,
            values@.len() <= all.len(),
            rest@ == all.skip(values@.len() as int),
            forall|i: int|
                0 <= i < values@.len() ==> all[i] == Ok::<T, ReplyFailure>(#[trigger] values@[i]),
        decreases rest@.len(),
    {
        let ghost at = values@.len() as int;
        let reply = rest.remove(0);
        assert(reply == all[at]);
        match reply {
            Ok(value) => {
                values.push(value);
                assert(rest@ =~= all.skip(at + 1));
            },
            Err(failure) => {
                assert forall|j: int| 0 <= j < at implies (#[trigger] all[j]) is Ok by {
                    assert(all[j] == Ok::<T, ReplyFailure>(values@[j]));
                }
                return match failure {
                    ReplyFailure::Panicked => Err(EdgeClientError::Worker),
                    ReplyFailure::Network(text) => Err(EdgeClientError::Network(text)),
                };
            },
        }
    }
    assert forall|i: int| 0 <= i < all.len() implies (#[trigger] all[i]) is Ok by {
        assert(all[i] == Ok::<T, ReplyFailure>(values@[i]));
    }
    Ok(values)
}

/// One node's acknowledgement, with the digests of what it was sent.
pub struct NodeReply {
    pub party: u16,
    pub receipt: NodeAdmissionReceipt,
    pub order_share_digest: Digest32,
    pub capability_key_share_digest: Digest32,
}

/// A cluster, and how long one of its nodes is waited for.
pub struct EdgeDistributor {
    pub cluster: ClusterPublicConfig,
    pub timeout_nanos: u128,
}

/// Receipts with the party that each names.
pub open spec fn receipts_by_party(replies: Seq<NodeReply>) -> Seq<(u16, NodeAdmissionReceipt)> {
    Seq::new(replies.len(), |i: int| (replies[i].receipt.party, replies[i].receipt))
}

/// The last reply that speaks for a party among the first `count`.
pub open spec fn reply_for(replies: Seq<NodeReply>, party: int, count: nat) -> Option<NodeReply>
    decreases count,
{
    if count == 0 {
        None
    } else if replies[count - 1].party == party {
        Some(replies[count - 1])
    } else {
        reply_for(replies, party, (count - 1) as nat)
    }
}

/// What a reply tells of its party; zeros where there is none.
pub open spec fn told_by(
    reply: Option<NodeReply>,
    generation: u64,
    share: Digest32,
    key: Digest32,
) -> bool {
    match reply {
        Some(reply) => generation == reply.receipt.generation && share == reply.order_share_digest
            && key == reply.capability_key_share_digest,
        None => generation == 0 && is_zero(share@) && is_zero(key@),
    }
}

impl EdgeDistributor {
    pub fn new(cluster: ClusterPublicConfig, timeout_nanos: u128) -> (r: Result<
        EdgeDistributor,
        EdgeClientError,
    >)
        ensures
            r is Ok == (cluster.fault is None && 0 < timeout_nanos <= MAX_RPC_NANOS),
            r matches Ok(distributor) ==> distributor.cluster == cluster
                && distributor.timeout_nanos == timeout_nanos,
            r matches Err(e) ==> if cluster.fault is Some {
                cluster_refused(&cluster, e)
            } else {
                e is Configuration
            },
    {
        match check_cluster(&cluster) {
            Err(e) => return Err(e),
            Ok(_) => {},
        }
        if timeout_nanos == 0 || timeout_nanos > MAX_RPC_NANOS {
            return Err(EdgeClientError::Configuration);
        }
        Ok(EdgeDistributor { cluster, timeout_nanos })
    }

    /// The receipt that seven replies add up to.
    pub open spec fn receipt_from(
        receipt: &EdgeAdmissionReceipt,
        manifest: &EdgeOrderManifest,
        replies: Seq<NodeReply>,
    ) -> bool {
        &&& receipt.version == 2
        &&& receipt.manifest@ == manifest@
        &&& receipt.node_receipts@ == Seq::new(
            replies.len(),
            |i: int| stable_sorted(receipts_by_party(replies))[i].1,
        )
        &&& forall|party: int|
            0 <= party < 7 ==> told_by(
                reply_for(replies, party, replies.len()),
                #[trigger] receipt.node_generations@[party],
                receipt.order_share_digests@[party],
                receipt.capability_key_share_digests@[party],
            )
        &&& receipt.receipt_digest@ == sha256(receipt.digest_bytes())
    }

    /// Put replies together. Nothing is admitted by that: the receipt still has
    /// to verify.
    pub fn assemble_receipt(manifest: EdgeOrderManifest, replies: Vec<NodeReply>) -> (receipt:
        EdgeAdmissionReceipt)
        requires
            forall|i: int| 0 <= i < replies@.len() ==> (#[trigger] replies@[i]).party < MPC_PARTIES,
        ensures
            EdgeDistributor::receipt_from(&receipt, &manifest, replies@),
    {
        let ghost all = replies@;
        let mut generations: [u64; 7] = [0u64;7];
        let mut order_share_digests: [Digest32; 7] = [[0u8;32];7];
        let mut capability_key_share_digests: [Digest32; 7] = [[0u8;32];7];
        let mut keyed: Vec<(u16, NodeAdmissionReceipt)> = Vec::new();
        let mut rest = replies;
        let ghost mut taken: int = 0;
        assert(all.skip(0) =~= all);
        assert(keyed@ =~= receipts_by_party(all.take(0)));
        while rest.len() > 0
            invariant
                0 <= taken <= all.len(),
                rest@ == all.skip(taken),
                keyed@ == receipts_by_party(all.take(taken)),
                forall|i: int| 0 <= i < all.len() ==> (#[trigger] all[i]).party < MPC_PARTIES,
                all == replies@,
                forall|party: int|
                    0 <= party < 7 ==> told_by(
                        reply_for(all, party, taken as nat),
                        #[trigger] generations@[party],
                        order_share_digests@[party],
                        capability_key_share_digests@[party],
                    ),
            decreases rest@.len(),
        {
            let reply = rest.remove(0);
            assert(reply == all[taken]);
            let party: usize = reply.party as usize;
            let ghost told = (generations@, order_share_digests@, capability_key_share_digests@);
            generations[party] = reply.receipt.generation;
            order_share_digests[party] = reply.order_share_digest;
            capability_key_share_digests[party] = reply.capability_key_share_digest;
            keyed.push((reply.receipt.party, reply.receipt));
            proof {
                assert(rest@ =~= all.skip(taken + 1));
                assert(keyed@ =~= receipts_by_party(all.take(taken + 1)));
                assert forall|p: int| 0 <= p < 7 implies told_by(
                    reply_for(all, p, (taken + 1) as nat),
                    #[trigger] generations@[p],
                    order_share_digests@[p],
                    capability_key_share_digests@[p],
                ) by {
                    assert(told_by(
                        reply_for(all, p, taken as nat),
                        told.0[p],
                        told.1[p],
                        told.2[p],
                    ));
                }
                taken = taken + 1;
            }
        }
        assert(all.take(taken) =~= all);
        let mut sorted = sort_by_party(keyed);
        let ghost ordered = sorted@;
        proof {
            crate::stable_sort::lemma_stable_sorted(receipts_by_party(all));
        }
        let mut node_receipts: Vec<NodeAdmissionReceipt> = Vec::new();
        assert(ordered.skip(0) =~= ordered);
        while sorted.len() > 0
            invariant
                node_receipts@.len() <= ordered.len(),
                sorted@ == ordered.skip(node_receipts@.len() as int),
                forall|i: int|
                    0 <= i < node_receipts@.len() ==> #[trigger] node_receipts@[i] == ordered[i].1,
            decreases sorted@.len(),
        {
            let ghost at = node_receipts@.len() as int;
            let pair = sorted.remove(0);
            assert(pair == ordered[at]);
            node_receipts.push(pair.1);
            assert(sorted@ =~= ordered.skip(at + 1));
        }
        let digest = receipt_digest(
            &manifest,
            &generations,
            &order_share_digests,
            &capability_key_share_digests,
            &node_receipts,
        );
        assert(node_receipts@ =~= Seq::new(
            all.len(),
            |i: int| stable_sorted(receipts_by_party(all))[i].1,
        ));
        EdgeAdmissionReceipt {
            version: 2,
            manifest,
            node_generations: generations,
            order_share_digests,
            capability_key_share_digests,
            node_receipts,
            receipt_digest: digest,
        }
    }
}

/// What the nodes acknowledged, with the ciphertexts that each was sent.
pub open spec fn sent_replies(
    delivery: &PreparedEdgeDelivery,
    receipts: Seq<NodeAdmissionReceipt>,
) -> Seq<NodeReply> {
    Seq::new(
        receipts.len(),
        |i: int|
            NodeReply {
                party: delivery.deliveries@[i].party,
                receipt: receipts[i],
                order_share_digest: delivery.deliveries@[i].share_digest,
                capability_key_share_digest: delivery.deliveries@[i].key_digest,
            },
    )
}

/// The acknowledgements among replies that all came.
pub open spec fn acknowledgements(
    replies: Seq<Result<NodeAdmissionReceipt, ReplyFailure>>,
) -> Seq<NodeAdmissionReceipt> {
    Seq::new(replies.len(), |i: int| replies[i]->Ok_0)
}

/// Seven nodes, and one reply for the delivery of each party in turn.
pub open spec fn fan_out_complete(
    cluster: &ClusterPublicConfig,
    delivery: &PreparedEdgeDelivery,
    replies: nat,
) -> bool {
    &&& cluster.nodes@.len() == MPC_PARTIES
    &&& delivery.deliveries@.len() == MPC_PARTIES
    &&& replies == MPC_PARTIES
    &&& forall|i: int| 0 <= i < MPC_PARTIES ==> (#[trigger] delivery.deliveries@[i]).party == i
}

proof fn lemma_reply_for_listed(replies: Seq<NodeReply>, party: int, count: nat)
    requires
        count <= replies.len(),
        forall|i: int| 0 <= i < replies.len() ==> (#[trigger] replies[i]).party == i,
        0 <= party,
    ensures
        reply_for(replies, party, count) == (if party < count {
            Some(replies[party])
        } else {
            None
        }),
    decreases count,
{
    if count > 0 {
        lemma_reply_for_listed(replies, party, (count - 1) as nat);
    }
}

/// Whether a receipt of given replies is admitted does not depend on which
/// value of it is looked at.
proof fn lemma_receipts_alike(
    a: &EdgeAdmissionReceipt,
    b: &EdgeAdmissionReceipt,
    manifest: &EdgeOrderManifest,
    replies: Seq<NodeReply>,
    cluster: &ClusterPublicConfig,
    manifest_valid: bool,
    receipts_valid: Seq<bool>,
)
    requires
        EdgeDistributor::receipt_from(a, manifest, replies),
        EdgeDistributor::receipt_from(b, manifest, replies),
        replies.len() == 7,
        forall|i: int| 0 <= i < replies.len() ==> (#[trigger] replies[i]).party == i,
    ensures
        a.admitted(cluster, manifest_valid, receipts_valid) == b.admitted(
            cluster,
            manifest_valid,
            receipts_valid,
        ),
{
    assert forall|party: int| 0 <= party < 7 implies a.node_generations@[party]
        == b.node_generations@[party] && a.order_share_digests@[party]
        == b.order_share_digests@[party] && a.capability_key_share_digests@[party]
        == b.capability_key_share_digests@[party] by {
        lemma_reply_for_listed(replies, party, 7);
        assert(told_by(
            reply_for(replies, party, 7),
            a.node_generations@[party],
            a.order_share_digests@[party],
            a.capability_key_share_digests@[party],
        ));
        assert(told_by(
            reply_for(replies, party, 7),
            b.node_generations@[party],
            b.order_share_digests@[party],
            b.capability_key_share_digests@[party],
        ));
    }
    assert(a.node_generations@ =~= b.node_generations@);
    assert(a.order_share_digests@ =~= b.order_share_digests@);
    assert(a.capability_key_share_digests@ =~= b.capability_key_share_digests@);
    assert(a.manifest@.commitment == b.manifest@.commitment);
    assert(a.manifest@.signer == b.manifest@.signer);
    assert(a.manifest@.market_id == b.manifest@.market_id);
    assert(a.digest_bytes() == b.digest_bytes());
    assert(a.receipt_digest@ == b.receipt_digest@);
    assert forall|party: int| a.node_stands(cluster, receipts_valid, party) == b.node_stands(
        cluster,
        receipts_valid,
        party,
    ) || !(0 <= party < 7) by {
    }
}

impl EdgeDistributor {
    /// The receipt of one complete fan-out: of seven acknowledgements of
    /// exactly the prepared ciphertexts, which stands.
    pub open spec fn fan_out_receipt(
        &self,
        receipt: &EdgeAdmissionReceipt,
        delivery: &PreparedEdgeDelivery,
        acknowledged: Seq<NodeAdmissionReceipt>,
        manifest_valid: bool,
        receipts_valid: Seq<bool>,
    ) -> bool {
        &&& EdgeDistributor::receipt_from(
            receipt,
            &delivery.manifest,
            sent_replies(delivery, acknowledged),
        )
        &&& receipt.admitted(&self.cluster, manifest_valid, receipts_valid)
        &&& forall|i: int|
            0 <= i < MPC_PARTIES ==> {
                &&& (#[trigger] receipt.node_receipts@[i]).party == i
                &&& receipt.order_share_digests@[i] == delivery.deliveries@[i].share_digest
                &&& receipt.capability_key_share_digests@[i] == delivery.deliveries@[i].key_digest
            }
    }

    /// Admit an order after its fan-out. A partial fan-out is not admitted: there
    /// is a receipt only where the delivery was valid before it was sent, all
    /// seven nodes acknowledged exactly its ciphertexts, and the receipt of it
    /// stands. `delivery_manifest` and `receipt_manifest` say whether the
    /// manifest stands before and after the fan-out, where the clock shows a
    /// time; `replies` are those of the nodes, in their order.
    pub fn submit_prepared(
        &self,
        delivery: &PreparedEdgeDelivery,
        delivery_manifest: Option<bool>,
        replies: Vec<Result<NodeAdmissionReceipt, ReplyFailure>>,
        receipt_manifest: Option<bool>,
        receipts_valid: &Vec<bool>,
    ) -> (r: Result<EdgeAdmissionReceipt, EdgeClientError>)
        requires
            receipts_valid@.len() == MPC_PARTIES,
        ensures
            match r {
                Ok(receipt) => {
                    &&& delivery_manifest == Some(true)
                    &&& receipt_manifest == Some(true)
                    &&& delivery.valid_for(&self.cluster, true)
                    &&& forall|i: int| 0 <= i < replies@.len() ==> (#[trigger] replies@[i]) is Ok
                    &&& fan_out_complete(&self.cluster, delivery, replies@.len())
                    &&& receipt.manifest@ == delivery.manifest@
                    &&& self.fan_out_receipt(
                        &receipt,
                        delivery,
                        acknowledgements(replies@),
                        true,
                        receipts_valid@,
                    )
                },
                Err(e) => if delivery_manifest is None {
                    e is Configuration
                } else if !delivery.valid_for(&self.cluster, delivery_manifest->0) {
                    delivery.refused_with(&self.cluster, delivery_manifest->0, e)
                } else if exists|i: int| 0 <= i < replies@.len() && (#[trigger] replies@[i]) is Err {
                    exists|i: int|
                        0 <= i < replies@.len() && (#[trigger] replies@[i]) is Err && reply_error(
                            replies@[i]->Err_0,
                            e,
                        ) && forall|j: int| 0 <= j < i ==> (#[trigger] replies@[j]) is Ok
                } else if receipt_manifest is None {
                    e is Configuration
                } else {
                    &&& e is Receipt
                    &&& fan_out_complete(&self.cluster, delivery, replies@.len()) ==> forall|
                        receipt: EdgeAdmissionReceipt|
                        !(#[trigger] self.fan_out_receipt(
                            &receipt,
                            delivery,
                            acknowledgements(replies@),
                            receipt_manifest->0,
                            receipts_valid@,
                        ))
                },
            },
    {
        let ghost all = replies@;
        let sendable: bool = match delivery_manifest {
            None => return Err(EdgeClientError::Configuration),
            Some(valid) => valid,
        };
        match delivery.validate(&self.cluster, sendable) {
            Err(e) => return Err(e),
            Ok(_) => {},
        }
        let receipts: Vec<NodeAdmissionReceipt> = match gather_replies(replies) {
            Err(e) => return Err(e),
            Ok(receipts) => receipts,
        };
        assert(receipts@ =~= acknowledgements(all));
        let manifest_valid: bool = match receipt_manifest {
            None => return Err(EdgeClientError::Configuration),
            Some(valid) => valid,
        };
        if self.cluster.nodes.len() != MPC_PARTIES || receipts.len() != MPC_PARTIES {
            return Err(EdgeClientError::Receipt);
        }
        let ghost acknowledged = receipts@;
        let mut sent: Vec<NodeReply> = Vec::new();
        let mut rest = receipts;
        assert(acknowledged.skip(0) =~= acknowledged);
        while sent.len() < MPC_PARTIES
            invariant
                all == replies@,
                delivery_manifest == Some(true),
                delivery.valid_for(&self.cluster, true),
                forall|i: int| 0 <= i < all.len() ==> (#[trigger] all[i]) is Ok,
                receipt_manifest is Some,
                acknowledged == acknowledgements(all),
                acknowledged.len() == MPC_PARTIES,
                delivery.deliveries@.len() == MPC_PARTIES,
                sent@.len() <= MPC_PARTIES,
                rest@ == acknowledged.skip(sent@.len() as int),
                forall|i: int|
                    0 <= i < sent@.len() ==> #[trigger] sent@[i] == sent_replies(
                        delivery,
                        acknowledged,
                    )[i] && delivery.deliveries@[i].party == i,
            decreases MPC_PARTIES - sent@.len(),
        {
            let at: usize = sent.len();
            let receipt = rest.remove(0);
            assert(receipt == acknowledged[at as int]);
            let part = &delivery.deliveries[at];
            if part.party as usize != at {
                assert(delivery.deliveries@[at as int].party != at);
                return Err(EdgeClientError::Receipt);
            }
            sent.push(
                NodeReply {
                    party: part.party,
                    receipt,
                    order_share_digest: part.share_digest,
                    capability_key_share_digest: part.key_digest,
                },
            );
            assert(rest@ =~= acknowledged.skip(at + 1));
            assert(sent@[at as int] == sent_replies(delivery, acknowledged)[at as int]);
        }
        let ghost expected = sent_replies(delivery, acknowledged);
        assert(sent@ =~= expected);
        assert forall|i: int| 0 <= i < MPC_PARTIES implies (
        #[trigger] delivery.deliveries@[i]).party == i by {
            assert(sent@[i] == expected[i]);
        }
        assert forall|i: int| 0 <= i < expected.len() implies (#[trigger] expected[i]).party
            == i by {
            assert(delivery.deliveries@[i].party == i);
        }
        assert(fan_out_complete(&self.cluster, delivery, all.len()));
        let receipt = EdgeDistributor::assemble_receipt(delivery.manifest.copy(), sent);
        assert(EdgeDistributor::receipt_from(&receipt, &delivery.manifest, expected));
        match receipt.verify(&self.cluster, manifest_valid, receipts_valid) {
            Err(e) => {
                assert forall|other: EdgeAdmissionReceipt|
                    !(#[trigger] self.fan_out_receipt(
                        &other,
                        delivery,
                        acknowledgements(all),
                        manifest_valid,
                        receipts_valid@,
                    )) by {
                    if EdgeDistributor::receipt_from(&other, &delivery.manifest, expected) {
                        lemma_receipts_alike(
                            &receipt,
                            &other,
                            &delivery.manifest,
                            expected,
                            &self.cluster,
                            manifest_valid,
                            receipts_valid@,
                        );
                    }
                }
                Err(e)
            },
            Ok(_) => {
                assert forall|i: int| 0 <= i < MPC_PARTIES implies {
                    &&& (#[trigger] receipt.node_receipts@[i]).party == i
                    &&& receipt.order_share_digests@[i] == delivery.deliveries@[i].share_digest
                    &&& receipt.capability_key_share_digests@[i]
                        == delivery.deliveries@[i].key_digest
                } by {
                    lemma_reply_for_listed(expected, i, 7);
                    assert(told_by(
                        reply_for(expected, i, 7),
                        receipt.node_generations@[i],
                        receipt.order_share_digests@[i],
                        receipt.capability_key_share_digests@[i],
                    ));
                    assert(receipt.node_stands(&self.cluster, receipts_valid@, i));
                }
                Ok(receipt)
            },
        }
    }
}

/// Output accepted only after all seven independently authenticated node
/// receipts agree on the program bytes and the public matching result.
pub struct AgreedRoundExecution {
    pub receipts: Vec<NodeExecutionReceipt>,
    pub result: MpcBatchResult,
}

/// The party that a place in the cluster's node list stands for.
pub open spec fn listed_party(i: int) -> u16 {
    (i % 65536) as u16
}

/// One node's receipt is valid under that node's pinned key.
pub open spec fn receipt_stands(
    cluster: &ClusterPublicConfig,
    plan: &RoundPlan,
    receipts: Seq<NodeExecutionReceipt>,
    program: Seq<u8>,
    match_slots: u16,
    i: int,
) -> bool {
    &&& ed25519_key_decodes(cluster.nodes@[i].receipt_verifying_key@)
    &&& receipts[i].valid_for(
        plan,
        listed_party(i),
        cluster.nodes@[i].receipt_verifying_key@,
        program,
        match_slots,
    )
}

/// Two receipts tell of the same code and the same public output.
pub open spec fn same_outcome(a: &NodeExecutionReceipt, b: &NodeExecutionReceipt) -> bool {
    &&& a.result@ == b.result@
    &&& a.public_output_sha256 == b.public_output_sha256
    &&& a.program_sha256 == b.program_sha256
    &&& a.artifact_sha256 == b.artifact_sha256
}

/// Every node has answered with a valid receipt, and all agree.
pub open spec fn round_agreed(
    cluster: &ClusterPublicConfig,
    plan: &RoundPlan,
    receipts: Seq<NodeExecutionReceipt>,
    program: Seq<u8>,
    match_slots: u16,
) -> bool {
    &&& receipts.len() == cluster.nodes@.len()
    &&& 0 < receipts.len()
    &&& forall|i: int|
        0 <= i < receipts.len() ==> #[trigger] receipt_stands(
            cluster,
            plan,
            receipts,
            program,
            match_slots,
            i,
        )
    &&& forall|i: int| 0 <= i < receipts.len() ==> same_outcome(&#[trigger] receipts[i], &receipts[0])
}

fn outcome_is_same(a: &NodeExecutionReceipt, b: &NodeExecutionReceipt) -> (same: bool)
    ensures
        same == same_outcome(a, b),
{
    a.result.same(&b.result) && digest_equal(&a.public_output_sha256, &b.public_output_sha256)
        && digest_equal(&a.program_sha256, &b.program_sha256) && digest_equal(
        &a.artifact_sha256,
        &b.artifact_sha256,
    )
}

/// Whether each node's receipt is valid under that node's pinned key.
pub fn receipts_stand(
    cluster: &ClusterPublicConfig,
    plan: &RoundPlan,
    receipts: &Vec<NodeExecutionReceipt>,
    program: &Digest32,
    match_slots: u16,
) -> (stand: bool)
    requires
        receipts@.len() == cluster.nodes@.len(),
    ensures
        stand == (forall|i: int|
            0 <= i < receipts@.len() ==> #[trigger] receipt_stands(
                cluster,
                plan,
                receipts@,
                program@,
                match_slots,
                i,
            )),
{
    let mut i: usize = 0;
    while i < receipts.len()
        invariant
            receipts@.len() == cluster.nodes@.len(),
            i <= receipts@.len(),
            forall|j: int|
                0 <= j < i ==> #[trigger] receipt_stands(
                    cluster,
                    plan,
                    receipts@,
                    program@,
                    match_slots,
                    j,
                ),
        decreases receipts@.len() - i,
    {
        let key = &cluster.nodes[i].receipt_verifying_key;
        let party: u16 = (i % 65536) as u16;
        let stands: bool = key_decodes(key) && receipts[i].verify(
            plan,
            party,
            key,
            program,
            match_slots,
        ).is_ok();
        assert(stands == receipt_stands(
            cluster,
            plan,
            receipts@,
            program@,
            match_slots,
            i as int,
        ));
        if !stands {
            return false;
        }
        i += 1;
    }
    true
}

/// Whether all receipts agree with the first one.
pub fn outcomes_agree(receipts: &Vec<NodeExecutionReceipt>) -> (agree: bool)
    requires
        0 < receipts@.len(),
    ensures
        agree == (forall|i: int|
            0 <= i < receipts@.len() ==> same_outcome(&#[trigger] receipts@[i], &receipts@[0])),
{
    let mut i: usize = 0;
    while i < receipts.len()
        invariant
            0 < receipts@.len(),
            i <= receipts@.len(),
            forall|j: int|
                0 <= j < i ==> same_outcome(&#[trigger] receipts@[j], &receipts@[0]),
        decreases receipts@.len() - i,
    {
        if !outcome_is_same(&receipts[i], &receipts[0]) {
            assert(!same_outcome(&receipts@[i as int], &receipts@[0]));
            return false;
        }
        i += 1;
    }
    true
}

/// Whether a coordinator may ask the cluster to execute a plan.
pub open spec fn round_requestable(
    cluster: &ClusterPublicConfig,
    plan: &RoundPlan,
    quorum: Result<(), String>,
    now: Option<u64>,
    timeout_nanos: u128,
    match_slots: u16,
) -> bool {
    &&& 0 < timeout_nanos <= MAX_EXECUTION_NANOS
    &&& cluster.fault is None
    &&& now matches Some(at) && plan.valid_at(at, match_slots)
    &&& quorum is Ok
    &&& plan.market_id@ == cluster.market_id@
}

/// Whether a coordinator may ask the cluster to execute a plan. `quorum` is the
/// outcome of checking the plan's certificate; `now` is the time, if known.
pub fn check_round_request(
    cluster: &ClusterPublicConfig,
    plan: &RoundPlan,
    quorum: &Result<(), String>,
    now: Option<u64>,
    timeout_nanos: u128,
    match_slots: u16,
) -> (r: Result<(), EdgeClientError>)
    ensures
        r is Ok == round_requestable(cluster, plan, *quorum, now, timeout_nanos, match_slots),
        r matches Err(e) ==> if 0 < timeout_nanos <= MAX_EXECUTION_NANOS && cluster.fault is Some {
            cluster_refused(cluster, e)
        } else {
            e is Configuration
        },
{
    if timeout_nanos == 0 || timeout_nanos > MAX_EXECUTION_NANOS {
        return Err(EdgeClientError::Configuration);
    }
    match check_cluster(cluster) {
        Err(e) => return Err(e),
        Ok(_) => {},
    }
    match now {
        None => Err(EdgeClientError::Configuration),
        Some(now) => {
            if plan.verify_ordering(quorum, now, match_slots).is_err() {
                return Err(EdgeClientError::Configuration);
            }
            if !text_equal(plan.market_id.as_str(), cluster.market_id.as_str()) {
                return Err(EdgeClientError::Configuration);
            }
            Ok(())
        },
    }
}

/// Whether to ask a node again after it failed: before the deadline, and while
/// the plan is known to be alive.
pub fn retry_execution(before_deadline: bool, now: Option<u64>, expires_at: u64) -> (again: bool)
    ensures
        again == (before_deadline && (now matches Some(at) && at < expires_at)),
{
    before_deadline && (match now {
        Some(at) => at < expires_at,
        None => false,
    })
}

/// Accept a round only when the plan could be asked for, every node replied, all
/// receipts are valid, and they agree. `replies` are those of the nodes, in
/// their order.
pub fn execute_agreed_round(
    cluster: &ClusterPublicConfig,
    plan: &RoundPlan,
    quorum: &Result<(), String>,
    now: Option<u64>,
    timeout_nanos: u128,
    replies: Vec<Result<NodeExecutionReceipt, ReplyFailure>>,
    program: &Digest32,
    match_slots: u16,
) -> (r: Result<AgreedRoundExecution, EdgeClientError>)
    ensures
        r is Ok == (round_requestable(cluster, plan, *quorum, now, timeout_nanos, match_slots)
            && all_came(replies@) && round_agreed(
            cluster,
            plan,
            values_of(replies@),
            program@,
            match_slots,
        )),
        r matches Ok(execution) ==> execution.receipts@ == values_of(replies@)
            && execution.result@ == values_of(replies@)[0].result@,
        r matches Err(e) ==> if !(0 < timeout_nanos <= MAX_EXECUTION_NANOS) {
            e is Configuration
        } else if cluster.fault is Some {
            cluster_refused(cluster, e)
        } else if !round_requestable(cluster, plan, *quorum, now, timeout_nanos, match_slots) {
            e is Configuration
        } else if !all_came(replies@) {
            first_failure(replies@, e)
        } else {
            e is Receipt
        },
{
    match check_round_request(cluster, plan, quorum, now, timeout_nanos, match_slots) {
        Err(e) => return Err(e),
        Ok(_) => {},
    }
    let ghost all = replies@;
    let receipts: Vec<NodeExecutionReceipt> = match gather_replies(replies) {
        Err(e) => {
            assert(!all_came(all));
            return Err(e);
        },
        Ok(receipts) => receipts,
    };
    assert(receipts@ =~= values_of(all));
    if receipts.len() != cluster.nodes.len() {
        return Err(EdgeClientError::Receipt);
    }
    if !receipts_stand(cluster, plan, &receipts, program, match_slots) {
        return Err(EdgeClientError::Receipt);
    }
    if receipts.len() == 0 {
        return Err(EdgeClientError::Receipt);
    }
    if !outcomes_agree(&receipts) {
        return Err(EdgeClientError::Receipt);
    }
    let result = receipts[0].result.copy();
    Ok(AgreedRoundExecution { receipts, result })
}

/// The place that an order asks for: its sequence and its predecessor.
#[derive(Clone, Copy, Debug, PartialEq, Eq)]
pub struct OrderRequest {
    pub sequence: u64,
    pub previous_certificate: Digest32,
}

/// Whether an order can be asked a place for behind `previous`.
pub open spec fn order_requestable(
    cluster: &ClusterPublicConfig,
    previous: Option<&OrderCertificate>,
    commitment: OrderCommitment,
    expires_at: u64,
    now: Option<u64>,
    timeout_nanos: u128,
) -> bool {
    &&& 0 < timeout_nanos <= MAX_RPC_NANOS
    &&& cluster.fault is None
    &&& now matches Some(at) && at <= expires_at
    &&& match previous {
        Some(certificate) => certificate.market_id@ == cluster.market_id@
            && certificate.commitment != commitment && certificate.sequence < u64::MAX,
        None => true,
    }
}

/// Choose the place that the nodes are asked to certify: directly behind the
/// previous certificate, or the first of the market.
pub fn next_order_request(
    cluster: &ClusterPublicConfig,
    previous: Option<&OrderCertificate>,
    commitment: &OrderCommitment,
    expires_at: u64,
    now: Option<u64>,
    timeout_nanos: u128,
) -> (r: Result<OrderRequest, EdgeClientError>)
    ensures
        r is Ok == order_requestable(
            cluster,
            previous,
            *commitment,
            expires_at,
            now,
            timeout_nanos,
        ),
        r matches Ok(request) ==> match previous {
            Some(certificate) => request.sequence == certificate.sequence + 1
                && request.previous_certificate == certificate.digest,
            None => request.sequence == 1 && is_zero(request.previous_certificate@),
        },
        r matches Err(e) ==> if 0 < timeout_nanos <= MAX_RPC_NANOS && cluster.fault is Some {
            cluster_refused(cluster, e)
        } else {
            e is Configuration
        },
{
    if timeout_nanos == 0 || timeout_nanos > MAX_RPC_NANOS {
        return Err(EdgeClientError::Configuration);
    }
    match check_cluster(cluster) {
        Err(e) => return Err(e),
        Ok(_) => {},
    }
    match now {
        None => return Err(EdgeClientError::Configuration),
        Some(at) => {
            if at > expires_at {
                return Err(EdgeClientError::Configuration);
            }
        },
    }
    match previous {
        Some(certificate) => {
            if !text_equal(certificate.market_id.as_str(), cluster.market_id.as_str())
                || certificate.commitment.same(commitment) {
                return Err(EdgeClientError::Configuration);
            }
            match certificate.sequence.checked_add(1) {
                None => Err(EdgeClientError::Configuration),
                Some(sequence) => Ok(
                    OrderRequest { sequence, previous_certificate: certificate.digest },
                ),
            }
        },
        None => Ok(OrderRequest { sequence: 1, previous_certificate: [0u8;32] }),
    }
}

/// The votes that arrived, by ascending node.
pub open spec fn votes_in_order<V>(replies: Seq<Option<(u16, V)>>) -> Seq<(u16, V)> {
    stable_sorted(present(replies, replies.len()))
}

/// The replies among the first `count` that are there.
pub open spec fn present<T>(replies: Seq<Option<T>>, count: nat) -> Seq<T>
    decreases count,
{
    if count == 0 {
        Seq::empty()
    } else {
        let front = present(replies, (count - 1) as nat);
        match replies[count - 1] {
            Some(value) => front.push(value),
            None => front,
        }
    }
}

/// Keep the replies that are there.
pub fn keep_present<T>(replies: Vec<Option<T>>) -> (kept: Vec<T>)
    ensures
        kept@ == present(replies@, replies@.len()),
{
    let ghost all = replies@;
    let mut rest = replies;
    let mut kept: Vec<T> = Vec::new();
    let ghost mut taken: int = 0;
    assert(all.skip(0) =~= all);
    while rest.len() > 0
        invariant
            0 <= taken <= all.len(),
            rest@ == all.skip(taken),
            kept@ == present(all, taken as nat),
        decreases rest@.len(),
    {
        let reply = rest.remove(0);
        assert(reply == all[taken]);
        match reply {
            Some(value) => kept.push(value),
            None => {},
        }
        proof {
            assert(rest@ =~= all.skip(taken + 1));
            taken = taken + 1;
        }
    }
    kept
}

/// Order the votes that the nodes gave. Nodes that gave none are left out.
pub fn collect_votes<V>(replies: Vec<Option<(u16, V)>>) -> (votes: Vec<(u16, V)>)
    ensures
        votes@ == votes_in_order(replies@),
{
    sort_by_party(keep_present(replies))
}

/// The nodes of votes, in their order.
pub open spec fn voters_of<V>(votes: Seq<(u16, V)>) -> Seq<u16> {
    Seq::new(votes.len(), |i: int| votes[i].0)
}

fn name_voters<V>(votes: &Vec<(u16, V)>) -> (voters: Vec<u16>)
    ensures
        voters@ == voters_of(votes@),
{
    let mut voters: Vec<u16> = Vec::new();
    let mut i: usize = 0;
    while i < votes.len()
        invariant
            i <= votes@.len(),
            voters@ == voters_of(votes@.take(i as int)),
        decreases votes@.len() - i,
    {
        voters.push(votes[i].0);
        i += 1;
        assert(voters@ =~= voters_of(votes@.take(i as int)));
    }
    assert(votes@.take(i as int) =~= votes@);
    voters
}

/// Make the certificate of the votes that were collected for an order's place,
/// directly behind the previous certificate or first of the market. It holds
/// every vote that a node gave, by ascending node, and comes with the votes.
/// `digest` is the certificate's own digest; `quorum` is the outcome of checking
/// its votes against the pinned identities.
pub fn collect_order_certificate<V>(
    cluster: &ClusterPublicConfig,
    previous: Option<&OrderCertificate>,
    commitment: OrderCommitment,
    expires_at: u64,
    now: Option<u64>,
    timeout_nanos: u128,
    replies: Vec<Option<(u16, V)>>,
    digest: Digest32,
    quorum: &Result<(), String>,
) -> (r: Result<(OrderCertificate, Vec<(u16, V)>), EdgeClientError>)
    ensures
        r is Ok == (order_requestable(
            cluster,
            previous,
            commitment,
            expires_at,
            now,
            timeout_nanos,
        ) && quorum is Ok),
        r matches Ok((certificate, votes)) ==> {
            &&& certificate.market_id@ == cluster.market_id@
            &&& certificate.commitment == commitment
            &&& certificate.expires_at == expires_at
            &&& votes@ == votes_in_order(replies@)
            &&& certificate.voters@ == voters_of(votes_in_order(replies@))
            &&& certificate.digest == digest
            &&& match previous {
                Some(last) => certificate.sequence == last.sequence + 1
                    && certificate.previous_certificate == last.digest,
                None => certificate.sequence == 1 && is_zero(certificate.previous_certificate@),
            }
        },
        r matches Err(e) ==> if !(0 < timeout_nanos <= MAX_RPC_NANOS) {
            e is Configuration
        } else if cluster.fault is Some {
            cluster_refused(cluster, e)
        } else if !order_requestable(
            cluster,
            previous,
            commitment,
            expires_at,
            now,
            timeout_nanos,
        ) {
            e is Configuration
        } else {
            e is OrderingQuorum
        },
{
    let request = match next_order_request(
        cluster,
        previous,
        &commitment,
        expires_at,
        now,
        timeout_nanos,
    ) {
        Err(e) => return Err(e),
        Ok(request) => request,
    };
    if quorum.is_err() {
        return Err(EdgeClientError::OrderingQuorum);
    }
    let votes = collect_votes(replies);
    let certificate = OrderCertificate {
        market_id: cluster.market_id.clone(),
        sequence: request.sequence,
        commitment,
        previous_certificate: request.previous_certificate,
        expires_at,
        voters: name_voters(&votes),
        digest,
    };
    Ok((certificate, votes))
}

proof fn lemma_present_holds<T>(replies: Seq<Option<T>>, count: nat, at: int)
    requires
        0 <= at < count <= replies.len(),
        replies[at] is Some,
    ensures
        present(replies, count).contains(replies[at]->0),
    decreases count,
{
    let kept = present(replies, count);
    if at == count - 1 {
        assert(kept.last() == replies[at]->0);
    } else {
        lemma_present_holds(replies, (count - 1) as nat, at);
        let earlier = present(replies, (count - 1) as nat);
        let i = earlier.index_of(replies[at]->0);
        assert(kept[i] == earlier[i]);
    }
}

/// A certificate holds every vote that was received, and its nodes ascend.
pub proof fn lemma_certificate_holds_every_vote<V>(replies: Seq<Option<(u16, V)>>, at: int)
    requires
        0 <= at < replies.len(),
    ensures
        replies[at] matches Some(vote) ==> votes_in_order(replies).contains(vote) && voters_of(
            votes_in_order(replies),
        ).contains(vote.0),
        forall|i: int, j: int|
            0 <= i < j < voters_of(votes_in_order(replies)).len() ==> #[trigger] voters_of(
                votes_in_order(replies),
            )[i] <= #[trigger] voters_of(votes_in_order(replies))[j],
        votes_in_order(replies).to_multiset() == present(replies, replies.len()).to_multiset(),
{
    let items = present(replies, replies.len());
    let votes = votes_in_order(replies);
    crate::stable_sort::lemma_stable_sorted(items);
    if replies[at] is Some {
        let vote = replies[at]->0;
        lemma_present_holds(replies, replies.len(), at);
        items.to_multiset_ensures();
        votes.to_multiset_ensures();
        assert(votes.to_multiset().count(vote) > 0);
        assert(votes.contains(vote));
        let i = votes.index_of(vote);
        assert(voters_of(votes)[i] == vote.0);
    }
}

/// Whether all nodes may be told that a round is final.
pub open spec fn finality_requestable(
    cluster: &ClusterPublicConfig,
    execution: &AgreedRoundExecution,
    finality: &PrivateStateFinality,
    timeout_nanos: u128,
) -> bool {
    &&& 0 < timeout_nanos <= MAX_RPC_NANOS
    &&& execution.receipts@.len() == cluster.nodes@.len()
    &&& 0 < execution.receipts@.len()
    &&& execution.receipts@[0].public_output_sha256 == finality.public_output_sha256
}

/// Gather the receipts of a round's finality from all nodes. `replies` are those
/// of the nodes, in their order.
pub fn finalize_agreed_private_state<T>(
    cluster: &ClusterPublicConfig,
    execution: &AgreedRoundExecution,
    finality: &PrivateStateFinality,
    timeout_nanos: u128,
    replies: Vec<Result<T, ReplyFailure>>,
) -> (r: Result<Vec<T>, EdgeClientError>)
    ensures
        r is Ok == (finality_requestable(cluster, execution, finality, timeout_nanos) && all_came(
            replies@,
        )),
        r matches Ok(receipts) ==> receipts@ == values_of(replies@),
        r matches Err(e) ==> if !finality_requestable(
            cluster,
            execution,
            finality,
            timeout_nanos,
        ) {
            e is Configuration
        } else {
            first_failure(replies@, e)
        },
{
    if timeout_nanos == 0 || timeout_nanos > MAX_RPC_NANOS || execution.receipts.len()
        != cluster.nodes.len() || execution.receipts.len() == 0 || !digest_equal(
        &execution.receipts[0].public_output_sha256,
        &finality.public_output_sha256,
    ) {
        return Err(EdgeClientError::Configuration);
    }
    let ghost all = replies@;
    match gather_replies(replies) {
        Err(e) => Err(e),
        Ok(receipts) => {
            assert(receipts@ =~= values_of(all));
            Ok(receipts)
        },
    }
}

/// Whether the nodes may be asked for their shares of one order's capability
/// key: the round is complete and agreed, and its result permits the release.
pub open spec fn release_requestable(
    cluster: &ClusterPublicConfig,
    plan: &RoundPlan,
    quorum: Result<(), String>,
    execution: &AgreedRoundExecution,
    manifest: &EdgeOrderManifest,
    manifest_valid: bool,
    order: OrderCommitment,
    program: Seq<u8>,
    now: u64,
    match_slots: u16,
) -> bool {
    &&& manifest_valid
    &&& plan.valid_at(now, match_slots)
    &&& quorum is Ok
    &&& manifest.commitment == order
    &&& plan.market_id@ == manifest.market_id@
    &&& release_permitted(plan, execution.result@, order)
    &&& round_agreed(cluster, plan, execution.receipts@, program, match_slots)
    &&& execution.receipts@[0].result@ == execution.result@
}

/// Check a capability release before any node is asked. Gives the public
/// output that every node's release has to name.
pub fn check_capability_release(
    cluster: &ClusterPublicConfig,
    plan: &RoundPlan,
    quorum: &Result<(), String>,
    execution: &AgreedRoundExecution,
    manifest: &EdgeOrderManifest,
    manifest_valid: bool,
    order_commitment: &OrderCommitment,
    program: &Digest32,
    now: Option<u64>,
    timeout_nanos: u128,
    match_slots: u16,
) -> (r: Result<Digest32, EdgeClientError>)
    ensures
        r is Ok == (0 < timeout_nanos <= MAX_RPC_NANOS && cluster.fault is None && now is Some
            && release_requestable(
            cluster,
            plan,
            *quorum,
            execution,
            manifest,
            manifest_valid,
            *order_commitment,
            program@,
            now->0,
            match_slots,
        )),
        r matches Ok(output) ==> output == execution.receipts@[0].public_output_sha256,
        r matches Err(e) ==> if !(0 < timeout_nanos <= MAX_RPC_NANOS) {
            e is Configuration
        } else if cluster.fault is Some {
            cluster_refused(cluster, e)
        } else if now is None {
            e is Configuration
        } else {
            e is SettlementThreshold
        },
{
    if timeout_nanos == 0 || timeout_nanos > MAX_RPC_NANOS {
        return Err(EdgeClientError::Configuration);
    }
    match check_cluster(cluster) {
        Err(e) => return Err(e),
        Ok(_) => {},
    }
    let now: u64 = match now {
        None => return Err(EdgeClientError::Configuration),
        Some(at) => at,
    };
    if !manifest_valid {
        return Err(EdgeClientError::SettlementThreshold);
    }
    if plan.verify_ordering(quorum, now, match_slots).is_err() {
        return Err(EdgeClientError::SettlementThreshold);
    }
    if !manifest.commitment.same(order_commitment) || !text_equal(
        plan.market_id.as_str(),
        manifest.market_id.as_str(),
    ) || execution.receipts.len() != cluster.nodes.len() || !release_is_authorized_by(
        &execution.result,
        plan,
        order_commitment,
    ) {
        return Err(EdgeClientError::SettlementThreshold);
    }
    if execution.receipts.len() == 0 {
        return Err(EdgeClientError::SettlementThreshold);
    }
    if !receipts_stand(cluster, plan, &execution.receipts, program, match_slots)
        || !outcomes_agree(&execution.receipts) || !execution.receipts[0].result.same(
        &execution.result,
    ) {
        return Err(EdgeClientError::SettlementThreshold);
    }
    Ok(execution.receipts[0].public_output_sha256)
}

/// The releases that arrived: by ascending party, one for each.
pub open spec fn releases_in_order<T>(replies: Seq<Option<(u16, T)>>) -> Seq<(u16, T)> {
    first_of_each(stable_sorted(present(replies, replies.len())))
}

/// Settlement-side holder for a reconstructed one-order key. The clear order
/// becomes available only after enough node releases have been verified.
pub struct ThresholdCapabilityRelease<T, K> {
    releases: Vec<(u16, T)>,
    key: K,
}

/// Whether enough parties released.
pub open spec fn releases_suffice<T>(
    cluster: &ClusterPublicConfig,
    replies: Seq<Option<(u16, T)>>,
) -> bool {
    releases_in_order(replies).len() >= cluster.settlement_release_threshold && releases_in_order(
        replies,
    ).len() >= SETTLEMENT_KEY_THRESHOLD
}

/// Collect the releases, one for each party, if there are enough.
pub fn enough_releases<T>(
    cluster: &ClusterPublicConfig,
    replies: Vec<Option<(u16, T)>>,
) -> (r: Result<Vec<(u16, T)>, EdgeClientError>)
    ensures
        r is Ok == releases_suffice(cluster, replies@),
        r matches Ok(releases) ==> releases@ == releases_in_order(replies@),
        r matches Err(e) ==> e is SettlementThreshold,
{
    let releases = dedup_by_party(sort_by_party(keep_present(replies)));
    if releases.len() < cluster.settlement_release_threshold || releases.len()
        < SETTLEMENT_KEY_THRESHOLD {
        return Err(EdgeClientError::SettlementThreshold);
    }
    Ok(releases)
}

impl<T, K> ThresholdCapabilityRelease<T, K> {
    pub closed spec fn releases(&self) -> Seq<(u16, T)> {
        self.releases@
    }

    pub closed spec fn key(&self) -> K {
        self.key
    }

    /// Hold the key that the releases reconstruct, if they do.
    pub fn hold(releases: Vec<(u16, T)>, key: Option<K>) -> (r: Result<Self, EdgeClientError>)
        ensures
            r is Ok == key is Some,
            r matches Ok(held) ==> held.releases() == releases@ && Some(held.key()) == key,
            r matches Err(e) ==> e is SettlementThreshold,
    {
        match key {
            None => Err(EdgeClientError::SettlementThreshold),
            Some(key) => Ok(ThresholdCapabilityRelease { releases, key }),
        }
    }

    /// The reconstructed key, for opening the one order it belongs to.
    pub fn settlement_key(&self) -> (key: &K)
        ensures
            *key == self.key(),
    {
        &self.key
    }

    pub fn release_count(&self) -> (count: usize)
        ensures
            count == self.releases().len(),
    {
        self.releases.len()
    }

    pub fn releasing_parties(&self) -> (parties: Vec<u16>)
        ensures
            parties@ == Seq::new(self.releases().len(), |i: int| self.releases()[i].0),
    {
        let mut parties: Vec<u16> = Vec::new();
        let mut i: usize = 0;
        while i < self.releases.len()
            invariant
                i <= self.releases@.len(),
                parties@ == Seq::new(i as nat, |j: int| self.releases@[j].0),
            decreases self.releases@.len() - i,
        {
            parties.push(self.releases[i].0);
            i += 1;
            assert(parties@ =~= Seq::new(i as nat, |j: int| self.releases@[j].0));
        }
        parties
    }
}

/// Collect the nodes' releases of one order's capability key, and hold the key
/// that they reconstruct: the round is complete and agreed, its result permits
/// the release, and enough parties released. `key` is what the releases
/// reconstruct, if they do.
pub fn collect_threshold_capability_release<T, K>(
    cluster: &ClusterPublicConfig,
    plan: &RoundPlan,
    quorum: &Result<(), String>,
    execution: &AgreedRoundExecution,
    manifest: &EdgeOrderManifest,
    manifest_valid: bool,
    order_commitment: &OrderCommitment,
    program: &Digest32,
    now: Option<u64>,
    timeout_nanos: u128,
    match_slots: u16,
    replies: Vec<Option<(u16, T)>>,
    key: Option<K>,
) -> (r: Result<ThresholdCapabilityRelease<T, K>, EdgeClientError>)
    ensures
        r is Ok == (0 < timeout_nanos <= MAX_RPC_NANOS && cluster.fault is None && now is Some
            && release_requestable(
            cluster,
            plan,
            *quorum,
            execution,
            manifest,
            manifest_valid,
            *order_commitment,
            program@,
            now->0,
            match_slots,
        ) && releases_suffice(cluster, replies@) && key is Some),
        r matches Ok(held) ==> held.releases() == releases_in_order(replies@) && Some(held.key())
            == key,
        r matches Err(e) ==> if !(0 < timeout_nanos <= MAX_RPC_NANOS) {
            e is Configuration
        } else if cluster.fault is Some {
            cluster_refused(cluster, e)
        } else if now is None {
            e is Configuration
        } else {
            e is SettlementThreshold
        },
{
    match check_capability_release(
        cluster,
        plan,
        quorum,
        execution,
        manifest,
        manifest_valid,
        order_commitment,
        program,
        now,
        timeout_nanos,
        match_slots,
    ) {
        Err(e) => return Err(e),
        Ok(_) => {},
    }
    match enough_releases(cluster, replies) {
        Err(e) => Err(e),
        Ok(releases) => ThresholdCapabilityRelease::hold(releases, key),
    }
}

/// The releases that count towards the threshold come from different parties.
pub proof fn lemma_releases_from_different_parties<T>(replies: Seq<Option<(u16, T)>>)
    ensures
        forall|i: int, j: int|
            0 <= i < j < releases_in_order(replies).len() ==> releases_in_order(replies)[i].0
                < releases_in_order(replies)[j].0,
{
    let items = present(replies, replies.len());
    crate::stable_sort::lemma_stable_sorted(items);
    crate::stable_sort::lemma_first_of_each_distinct(stable_sorted(items));
}

/// A round that the nodes execute names the same public output in every
/// receipt.
pub proof fn lemma_agreed_output(
    cluster: &ClusterPublicConfig,
    plan: &RoundPlan,
    receipts: Seq<NodeExecutionReceipt>,
    program: Seq<u8>,
    match_slots: u16,
    i: int,
    j: int,
)
    requires
        round_agreed(cluster, plan, receipts, program, match_slots),
        0 <= i < receipts.len(),
        0 <= j < receipts.len(),
    ensures
        same_outcome(&receipts[i], &receipts[j]),
        receipts[i].round_id@ == plan.round_id@,
{
    assert(receipt_stands(cluster, plan, receipts, program, match_slots, i));
    assert(same_outcome(&receipts[i], &receipts[0]));
    assert(same_outcome(&receipts[j], &receipts[0]));
}

} // verus!
