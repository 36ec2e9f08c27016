//! Where each field stands in what is hashed and signed.

use crate::bytes::{big_endian, text_bytes, Digest32};
use crate::corporate_journal::context_bytes;
use crate::edge_client::{node_receipts_bytes, party_bytes, EdgeAdmissionReceipt};
use crate::executor::{
    commitment_bytes, slots_bytes, NodeExecutionReceipt, ProofSlotMetadata, RoundPlan,
};
use crate::market_journal::market_context_bytes;
use crate::store_model::StoreView;
use crate::types::{MpcSlotResult, OrderCommitment};
use vstd::prelude::*;

verus! {

proof fn lemma_number_length(value: nat, count: nat)
    ensures
        big_endian(value, count).len() == count,
    decreases count,
{
    if count > 0 {
        lemma_number_length(value / 256, (count - 1) as nat);
    }
}

proof fn lemma_commitment_at(list: Seq<OrderCommitment>, at: int)
    requires
        0 <= at < list.len(),
    ensures
        commitment_bytes(list).len() == 32 * list.len(),
        commitment_bytes(list).subrange(32 * at, 32 * at + 32) == list[at].0@,
    decreases list.len(),
{
    let front = list.drop_last();
    lemma_commitments_length(front);
    if at < front.len() {
        lemma_commitment_at(front, at);
        assert(front[at] == list[at]);
    }
    assert(commitment_bytes(list).subrange(32 * at, 32 * at + 32) =~= list[at].0@) by {
        if at < front.len() {
            assert(commitment_bytes(list).subrange(32 * at, 32 * at + 32) =~= commitment_bytes(
                front,
            ).subrange(32 * at, 32 * at + 32));
        }
    }
}

proof fn lemma_commitments_length(list: Seq<OrderCommitment>)
    ensures
        commitment_bytes(list).len() == 32 * list.len(),
    decreases list.len(),
{
    if list.len() > 0 {
        lemma_commitments_length(list.drop_last());
    }
}

/// In the bytes behind a round's identity the label comes first, then the version
/// and the market behind its length; from the end on, read backwards, stand the
/// coordinator, the end and the beginning of the plan's life, the arriving order,
/// the resting orders in their order, their number, the certificate and the place.
pub proof fn lemma_plan_layout(plan: &RoundPlan, at: int)
    ensures
        ({
            let bytes = plan.unsigned_bytes();
            let label = text_bytes("OCLOB:DISTRIBUTED-ROUND-PLAN:v1"@);
            let market = text_bytes(plan.market_id@);
            let l = label.len() as int;
            let m = market.len() as int;
            let n = bytes.len() as int;
            let k = plan.resting@.len() as int;
            let orders = n - 80 - 32 * k;
            &&& n == l + 10 + m + 42 + 32 * k + 80
            &&& bytes.subrange(0, l) == label
            &&& bytes.subrange(l, l + 2) == big_endian(plan.version as nat, 2)
            &&& bytes.subrange(l + 2, l + 10) == big_endian(market.len(), 8)
            &&& bytes.subrange(l + 10, l + 10 + m) == market
            &&& bytes.subrange(orders - 42, orders - 34) == big_endian(plan.sequence as nat, 8)
            &&& bytes.subrange(orders - 34, orders - 2) == plan.ordering_certificate.digest@
            &&& bytes.subrange(orders - 2, orders) == big_endian(plan.resting@.len(), 2)
            &&& 0 <= at < k ==> bytes.subrange(orders + 32 * at, orders + 32 * at + 32)
                == plan.resting@[at].0@
            &&& bytes.subrange(n - 80, n - 48) == plan.arriving.0@
            &&& bytes.subrange(n - 48, n - 40) == big_endian(plan.issued_at as nat, 8)
            &&& bytes.subrange(n - 40, n - 32) == big_endian(plan.expires_at as nat, 8)
            &&& bytes.subrange(n - 32, n) == plan.coordinator@
        }),
{
    let bytes = plan.unsigned_bytes();
    let label = text_bytes("OCLOB:DISTRIBUTED-ROUND-PLAN:v1"@);
    let market = text_bytes(plan.market_id@);
    let l = label.len() as int;
    let m = market.len() as int;
    let n = bytes.len() as int;
    let k = plan.resting@.len() as int;
    let orders = n - 80 - 32 * k;
    lemma_number_length(plan.version as nat, 2);
    lemma_number_length(market.len(), 8);
    lemma_number_length(plan.sequence as nat, 8);
    lemma_number_length(plan.resting@.len(), 2);
    lemma_number_length(plan.issued_at as nat, 8);
    lemma_number_length(plan.expires_at as nat, 8);
    lemma_commitments_length(plan.resting@);
    assert(n == l + 10 + m + 42 + 32 * k + 80);
    assert(bytes.subrange(0, l) =~= label);
    assert(bytes.subrange(l, l + 2) =~= big_endian(plan.version as nat, 2));
    assert(bytes.subrange(l + 2, l + 10) =~= big_endian(market.len(), 8));
    assert(bytes.subrange(l + 10, l + 10 + m) =~= market);
    assert(bytes.subrange(orders - 42, orders - 34) =~= big_endian(plan.sequence as nat, 8));
    assert(bytes.subrange(orders - 34, orders - 2) =~= plan.ordering_certificate.digest@);
    assert(bytes.subrange(orders - 2, orders) =~= big_endian(plan.resting@.len(), 2));
    assert(bytes.subrange(orders, orders + 32 * k) =~= commitment_bytes(plan.resting@));
    if 0 <= at < k {
        lemma_commitment_at(plan.resting@, at);
        assert(bytes.subrange(orders + 32 * at, orders + 32 * at + 32) =~= bytes.subrange(
            orders,
            orders + 32 * k,
        ).subrange(32 * at, 32 * at + 32));
    }
    assert(bytes.subrange(n - 80, n - 48) =~= plan.arriving.0@);
    assert(bytes.subrange(n - 48, n - 40) =~= big_endian(plan.issued_at as nat, 8));
    assert(bytes.subrange(n - 40, n - 32) =~= big_endian(plan.expires_at as nat, 8));
    assert(bytes.subrange(n - 32, n) =~= plan.coordinator@);
}

proof fn lemma_slot_at(slots: Seq<MpcSlotResult>, at: int)
    requires
        0 <= at < slots.len(),
    ensures
        slots_bytes(slots).len() == 17 * slots.len(),
        slots_bytes(slots)[17 * at] == (if slots[at].matched {
            1u8
        } else {
            0u8
        }),
        slots_bytes(slots).subrange(17 * at + 1, 17 * at + 9) == big_endian(
            slots[at].trade_price as nat,
            8,
        ),
        slots_bytes(slots).subrange(17 * at + 9, 17 * at + 17) == big_endian(
            slots[at].trade_quantity as nat,
            8,
        ),
    decreases slots.len(),
{
    let front = slots.drop_last();
    let last = slots.last();
    lemma_slots_length(front);
    lemma_number_length(last.trade_price as nat, 8);
    lemma_number_length(last.trade_quantity as nat, 8);
    let all = slots_bytes(slots);
    if at < front.len() {
        lemma_slot_at(front, at);
        assert(front[at] == slots[at]);
        let before = slots_bytes(front);
        assert(all.subrange(17 * at + 1, 17 * at + 9) =~= before.subrange(
            17 * at + 1,
            17 * at + 9,
        ));
        assert(all.subrange(17 * at + 9, 17 * at + 17) =~= before.subrange(
            17 * at + 9,
            17 * at + 17,
        ));
    } else {
        assert(all.subrange(17 * at + 1, 17 * at + 9) =~= big_endian(
            last.trade_price as nat,
            8,
        ));
        assert(all.subrange(17 * at + 9, 17 * at + 17) =~= big_endian(
            last.trade_quantity as nat,
            8,
        ));
    }
}

proof fn lemma_slots_length(slots: Seq<MpcSlotResult>)
    ensures
        slots_bytes(slots).len() == 17 * slots.len(),
    decreases slots.len(),
{
    if slots.len() > 0 {
        lemma_slots_length(slots.drop_last());
        lemma_number_length(slots.last().trade_price as nat, 8);
        lemma_number_length(slots.last().trade_quantity as nat, 8);
    }
}

/// In the bytes that a party signs the label comes first, then the version, the
/// party, the round, the generation and six digests; then the number of slots and
/// each slot with its mark, its price and its quantity; and at the end what is
/// left of the arriving order, the time that it took, and the signer.
pub proof fn lemma_receipt_layout(receipt: &NodeExecutionReceipt, at: int)
    ensures
        ({
            let bytes = receipt.signed_bytes();
            let label = text_bytes("OCLOB:DISTRIBUTED-PARTY-RECEIPT:v1"@);
            let l = label.len() as int;
            let n = bytes.len() as int;
            let slot = l + 238 + 17 * at;
            let traded = receipt.result.slots@[at];
            &&& n == l + 238 + 17 * receipt.result.slots@.len() + 48
            &&& bytes.subrange(0, l) == label
            &&& bytes.subrange(l, l + 2) == big_endian(receipt.version as nat, 2)
            &&& bytes.subrange(l + 2, l + 4) == big_endian(receipt.party as nat, 2)
            &&& bytes.subrange(l + 4, l + 36) == receipt.round_id@
            &&& bytes.subrange(l + 36, l + 44) == big_endian(receipt.generation as nat, 8)
            &&& bytes.subrange(l + 44, l + 76) == receipt.round_commitment@
            &&& bytes.subrange(l + 76, l + 108) == receipt.program_sha256@
            &&& bytes.subrange(l + 108, l + 140) == receipt.artifact_sha256@
            &&& bytes.subrange(l + 140, l + 172) == receipt.private_parent_digest@
            &&& bytes.subrange(l + 172, l + 204) == receipt.private_state_sha256@
            &&& bytes.subrange(l + 204, l + 236) == receipt.public_output_sha256@
            &&& bytes.subrange(l + 236, l + 238) == big_endian(receipt.result.slots@.len(), 2)
            &&& 0 <= at < receipt.result.slots@.len() ==> {
                &&& bytes[slot] == (if traded.matched {
                    1u8
                } else {
                    0u8
                })
                &&& bytes.subrange(slot + 1, slot + 9) == big_endian(traded.trade_price as nat, 8)
                &&& bytes.subrange(slot + 9, slot + 17) == big_endian(
                    traded.trade_quantity as nat,
                    8,
                )
            }
            &&& bytes.subrange(n - 48, n - 40) == big_endian(
                receipt.result.arriving_remaining as nat,
                8,
            )
            &&& bytes.subrange(n - 40, n - 32) == big_endian(receipt.execution_ms as nat, 8)
            &&& bytes.subrange(n - 32, n) == receipt.signer@
        }),
{
    let bytes = receipt.signed_bytes();
    let label = text_bytes("OCLOB:DISTRIBUTED-PARTY-RECEIPT:v1"@);
    let slots = receipt.result.slots@;
    let l = label.len() as int;
    let n = bytes.len() as int;
    let slot = l + 238 + 17 * at;
    lemma_number_length(receipt.version as nat, 2);
    lemma_number_length(receipt.party as nat, 2);
    lemma_number_length(receipt.generation as nat, 8);
    lemma_number_length(slots.len(), 2);
    lemma_number_length(receipt.result.arriving_remaining as nat, 8);
    lemma_number_length(receipt.execution_ms as nat, 8);
    lemma_slots_length(slots);
    assert(n == l + 238 + 17 * slots.len() + 48);
    assert(bytes.subrange(0, l) =~= label);
    assert(bytes.subrange(l, l + 2) =~= big_endian(receipt.version as nat, 2));
    assert(bytes.subrange(l + 2, l + 4) =~= big_endian(receipt.party as nat, 2));
    assert(bytes.subrange(l + 4, l + 36) =~= receipt.round_id@);
    assert(bytes.subrange(l + 36, l + 44) =~= big_endian(receipt.generation as nat, 8));
    assert(bytes.subrange(l + 44, l + 76) =~= receipt.round_commitment@);
    assert(bytes.subrange(l + 76, l + 108) =~= receipt.program_sha256@);
    assert(bytes.subrange(l + 108, l + 140) =~= receipt.artifact_sha256@);
    assert(bytes.subrange(l + 140, l + 172) =~= receipt.private_parent_digest@);
    assert(bytes.subrange(l + 172, l + 204) =~= receipt.private_state_sha256@);
    assert(bytes.subrange(l + 204, l + 236) =~= receipt.public_output_sha256@);
    assert(bytes.subrange(l + 236, l + 238) =~= big_endian(slots.len(), 2));
    let inner = bytes.subrange(l + 238, l + 238 + 17 * slots.len());
    assert(inner =~= slots_bytes(slots));
    if 0 <= at < slots.len() {
        lemma_slot_at(slots, at);
        assert(bytes[slot] == inner[17 * at]);
        assert(bytes.subrange(slot + 1, slot + 9) =~= inner.subrange(17 * at + 1, 17 * at + 9));
        assert(bytes.subrange(slot + 9, slot + 17) =~= inner.subrange(17 * at + 9, 17 * at + 17));
    }
    assert(bytes.subrange(n - 48, n - 40) =~= big_endian(
        receipt.result.arriving_remaining as nat,
        8,
    ));
    assert(bytes.subrange(n - 40, n - 32) =~= big_endian(receipt.execution_ms as nat, 8));
    assert(bytes.subrange(n - 32, n) =~= receipt.signer@);
}

/// In the bytes that a party signs over a proof file the label comes first, then
/// the version, the party, the round, the slot, three digests, the number of
/// wires and the signer, and at the end the fill's digest.
pub proof fn lemma_slot_metadata_layout(metadata: &ProofSlotMetadata)
    requires
        metadata.version >= 2,
    ensures
        ({
            let bytes = metadata.signed_bytes();
            let label = text_bytes("OCLOB:PROOF-SLOT-METADATA:v1"@);
            let l = label.len() as int;
            &&& bytes.len() == l + 206
            &&& bytes.subrange(0, l) == label
            &&& bytes.subrange(l, l + 2) == big_endian(metadata.version as nat, 2)
            &&& bytes.subrange(l + 2, l + 4) == big_endian(metadata.party as nat, 2)
            &&& bytes.subrange(l + 4, l + 36) == metadata.round_id@
            &&& bytes.subrange(l + 36, l + 38) == big_endian(metadata.slot as nat, 2)
            &&& bytes.subrange(l + 38, l + 70) == metadata.public_output_sha256@
            &&& bytes.subrange(l + 70, l + 102) == metadata.private_state_sha256@
            &&& bytes.subrange(l + 102, l + 134) == metadata.persistence_sha256@
            &&& bytes.subrange(l + 134, l + 142) == big_endian(metadata.proof_wires as nat, 8)
            &&& bytes.subrange(l + 142, l + 174) == metadata.signer@
            &&& metadata.native_fill matches Some(fill) ==> bytes.subrange(l + 174, l + 206)
                == fill.digest@
            &&& metadata.native_fill is None ==> forall|i: int|
                l + 174 <= i < l + 206 ==> #[trigger] bytes[i] == 0
        }),
{
    let bytes = metadata.signed_bytes();
    let label = text_bytes("OCLOB:PROOF-SLOT-METADATA:v1"@);
    let l = label.len() as int;
    lemma_number_length(metadata.version as nat, 2);
    lemma_number_length(metadata.party as nat, 2);
    lemma_number_length(metadata.slot as nat, 2);
    lemma_number_length(metadata.proof_wires as nat, 8);
    assert(metadata.fill_bytes().len() == 32);
    assert(bytes.len() == l + 206);
    assert(bytes.subrange(0, l) =~= label);
    assert(bytes.subrange(l, l + 2) =~= big_endian(metadata.version as nat, 2));
    assert(bytes.subrange(l + 2, l + 4) =~= big_endian(metadata.party as nat, 2));
    assert(bytes.subrange(l + 4, l + 36) =~= metadata.round_id@);
    assert(bytes.subrange(l + 36, l + 38) =~= big_endian(metadata.slot as nat, 2));
    assert(bytes.subrange(l + 38, l + 70) =~= metadata.public_output_sha256@);
    assert(bytes.subrange(l + 70, l + 102) =~= metadata.private_state_sha256@);
    assert(bytes.subrange(l + 102, l + 134) =~= metadata.persistence_sha256@);
    assert(bytes.subrange(l + 134, l + 142) =~= big_endian(metadata.proof_wires as nat, 8));
    assert(bytes.subrange(l + 142, l + 174) =~= metadata.signer@);
    assert(bytes.subrange(l + 174, l + 206) =~= metadata.fill_bytes());
    assert(metadata.native_fill is None ==> forall|i: int|
        l + 174 <= i < l + 206 ==> #[trigger] bytes[i] == metadata.fill_bytes()[i - l - 174]);
}

proof fn lemma_entries_prefix(store: StoreView, a: Seq<OrderCommitment>, b: Seq<OrderCommitment>)
    ensures
        store.parent_entries(a + b) == store.parent_entries(a) + store.parent_entries(b),
    decreases b.len(),
{
    if b.len() == 0 {
        assert(a + b =~= a);
        assert(store.parent_entries(a) + store.parent_entries(b) =~= store.parent_entries(a));
    } else {
        lemma_entries_prefix(store, a, b.drop_last());
        assert((a + b).drop_last() =~= a + b.drop_last());
        assert((a + b).last() == b.last());
        assert(store.parent_entries(a + b) =~= store.parent_entries(a) + store.parent_entries(b));
    }
}

/// In the bytes behind a round's private parents the label comes first, then the
/// number of resting orders, then each of them in its order, and at the end the
/// arriving order. An order stands there with a mark whether it has a private
/// head, and where it has one with that head's round, private state and place.
pub proof fn lemma_parents_layout(
    store: StoreView,
    before: Seq<OrderCommitment>,
    order: OrderCommitment,
    after: Seq<OrderCommitment>,
    arriving: OrderCommitment,
)
    ensures
        ({
            let resting = before.push(order) + after;
            let label = text_bytes("OCLOB:PRIVATE-BOOK-PARENTS:v1"@);
            let entry = store.parent_entries(seq![order]);
            let head = store.private_heads[order.key()];
            &&& store.parent_bytes(resting, arriving) == label + big_endian(resting.len(), 8)
                + store.parent_entries(before) + entry + store.parent_entries(after) + arriving.0@
            &&& entry.subrange(0, 32) == order.0@
            &&& store.private_heads.dom().contains(order.key()) ==> {
                &&& entry.len() == 99
                &&& entry[32] == 1
                &&& entry.subrange(33, 65) == head.round_id@
                &&& entry.subrange(65, 97) == head.private_state_sha256@
                &&& entry.subrange(97, 99) == big_endian(head.wire_offset as nat, 2)
            }
            &&& !store.private_heads.dom().contains(order.key()) ==> entry.len() == 33 && entry[32]
                == 0
        }),
{
    let resting = before.push(order) + after;
    let entry = store.parent_entries(seq![order]);
    let head = store.private_heads[order.key()];
    lemma_entries_prefix(store, before.push(order), after);
    lemma_entries_prefix(store, before, seq![order]);
    assert(before.push(order) =~= before + seq![order]);
    assert(seq![order].drop_last() =~= Seq::<OrderCommitment>::empty());
    assert(entry =~= store.parent_entry(order)) by {
        assert(store.parent_entries(Seq::<OrderCommitment>::empty()) =~= Seq::<u8>::empty());
        assert(seq![order].last() == order);
    }
    lemma_number_length(head.wire_offset as nat, 2);
    assert(entry.subrange(0, 32) =~= order.0@);
    if store.private_heads.dom().contains(order.key()) {
        assert(entry.subrange(33, 65) =~= head.round_id@);
        assert(entry.subrange(65, 97) =~= head.private_state_sha256@);
        assert(entry.subrange(97, 99) =~= big_endian(head.wire_offset as nat, 2));
    }
    let label = text_bytes("OCLOB:PRIVATE-BOOK-PARENTS:v1"@);
    assert(store.parent_bytes(resting, arriving) =~= label + big_endian(resting.len(), 8)
        + store.parent_entries(before) + entry + store.parent_entries(after) + arriving.0@);
}

proof fn lemma_party_at(
    generations: Seq<u64>,
    shares: Seq<Digest32>,
    keys: Seq<Digest32>,
    count: nat,
    at: int,
)
    requires
        0 <= at < count,
    ensures
        ({
            let bytes = party_bytes(generations, shares, keys, count);
            let p = 74 * at;
            &&& bytes.len() == 74 * count
            &&& bytes.subrange(p, p + 2) == big_endian(at as nat, 2)
            &&& bytes.subrange(p + 2, p + 10) == big_endian(generations[at] as nat, 8)
            &&& bytes.subrange(p + 10, p + 42) == shares[at]@
            &&& bytes.subrange(p + 42, p + 74) == keys[at]@
        }),
    decreases count,
{
    let bytes = party_bytes(generations, shares, keys, count);
    let front = party_bytes(generations, shares, keys, (count - 1) as nat);
    let p = 74 * at;
    lemma_number_length((count - 1) as nat, 2);
    lemma_number_length(generations[count - 1] as nat, 8);
    if count > 1 {
        lemma_party_at(generations, shares, keys, (count - 1) as nat, if at < count - 1 {
            at
        } else {
            0
        });
    }
    assert(front.len() == 74 * (count - 1));
    if at < count - 1 {
        assert(bytes.subrange(p, p + 2) =~= front.subrange(p, p + 2));
        assert(bytes.subrange(p + 2, p + 10) =~= front.subrange(p + 2, p + 10));
        assert(bytes.subrange(p + 10, p + 42) =~= front.subrange(p + 10, p + 42));
        assert(bytes.subrange(p + 42, p + 74) =~= front.subrange(p + 42, p + 74));
    } else {
        assert(bytes.subrange(p, p + 2) =~= big_endian(at as nat, 2));
        assert(bytes.subrange(p + 2, p + 10) =~= big_endian(generations[at] as nat, 8));
        assert(bytes.subrange(p + 10, p + 42) =~= shares[at]@);
        assert(bytes.subrange(p + 42, p + 74) =~= keys[at]@);
    }
}

/// In the bytes behind an admission the label comes first, then the order and its
/// signer; then for each of the seven parties its number, generation and two
/// digests; then the number of node receipts, and these one after the other, each
/// with its party, order, signer, digests, generation, state, key and signature.
pub proof fn lemma_admission_layout(receipt: &EdgeAdmissionReceipt, party: int, node: int)
    requires
        0 <= party < 7,
    ensures
        ({
            let bytes = receipt.digest_bytes();
            let label = text_bytes("OCLOB:EDGE-ADMISSION-RECEIPT:v2"@);
            let l = label.len() as int;
            let p = l + 64 + 74 * party;
            let nodes = receipt.node_receipts@;
            &&& bytes.subrange(0, l) == label
            &&& bytes.subrange(l, l + 32) == receipt.manifest.commitment.0@
            &&& bytes.subrange(l + 32, l + 64) == receipt.manifest.signer@
            &&& bytes.subrange(p, p + 2) == big_endian(party as nat, 2)
            &&& bytes.subrange(p + 2, p + 10) == big_endian(
                receipt.node_generations@[party] as nat,
                8,
            )
            &&& bytes.subrange(p + 10, p + 42) == receipt.order_share_digests@[party]@
            &&& bytes.subrange(p + 42, p + 74) == receipt.capability_key_share_digests@[party]@
            &&& bytes.subrange(l + 582, l + 590) == big_endian(nodes.len(), 8)
            &&& bytes.subrange(l + 590, bytes.len() as int) == node_receipts_bytes(nodes)
            &&& 0 <= node < nodes.len() ==> {
                let own = nodes[node].receipt_bytes();
                let s = nodes[node].signature@.len() as int;
                &&& node_receipts_bytes(nodes.take(node + 1)) == node_receipts_bytes(
                    nodes.take(node),
                ) + own
                &&& own.len() == 210 + s
                &&& own.subrange(0, 2) == big_endian(nodes[node].party as nat, 2)
                &&& own.subrange(2, 34) == nodes[node].order_commitment.0@
                &&& own.subrange(34, 66) == nodes[node].manifest_signer@
                &&& own.subrange(66, 98) == nodes[node].order_share_digest@
                &&& own.subrange(98, 130) == nodes[node].capability_key_share_digest@
                &&& own.subrange(130, 138) == big_endian(nodes[node].generation as nat, 8)
                &&& own.subrange(138, 170) == nodes[node].state_digest@
                &&& own.subrange(170, 202) == nodes[node].signer@
                &&& own.subrange(202, 210) == big_endian(nodes[node].signature@.len(), 8)
                &&& own.subrange(210, 210 + s) == nodes[node].signature@
            }
        }),
{
    let bytes = receipt.digest_bytes();
    let label = text_bytes("OCLOB:EDGE-ADMISSION-RECEIPT:v2"@);
    let l = label.len() as int;
    let p = l + 64 + 74 * party;
    let nodes = receipt.node_receipts@;
    let parties = party_bytes(
        receipt.node_generations@,
        receipt.order_share_digests@,
        receipt.capability_key_share_digests@,
        7,
    );
    lemma_party_at(
        receipt.node_generations@,
        receipt.order_share_digests@,
        receipt.capability_key_share_digests@,
        7,
        party,
    );
    lemma_number_length(nodes.len(), 8);
    assert(parties.len() == 518);
    assert(bytes.subrange(0, l) =~= label);
    assert(bytes.subrange(l, l + 32) =~= receipt.manifest.commitment.0@);
    assert(bytes.subrange(l + 32, l + 64) =~= receipt.manifest.signer@);
    assert(bytes.subrange(l + 64, l + 582) =~= parties);
    let q = 74 * party;
    assert(bytes.subrange(p, p + 2) =~= parties.subrange(q, q + 2));
    assert(bytes.subrange(p + 2, p + 10) =~= parties.subrange(q + 2, q + 10));
    assert(bytes.subrange(p + 10, p + 42) =~= parties.subrange(q + 10, q + 42));
    assert(bytes.subrange(p + 42, p + 74) =~= parties.subrange(q + 42, q + 74));
    assert(bytes.subrange(l + 582, l + 590) =~= big_endian(nodes.len(), 8));
    assert(bytes.subrange(l + 590, bytes.len() as int) =~= node_receipts_bytes(nodes));
    if 0 <= node < nodes.len() {
        let own = nodes[node].receipt_bytes();
        let s = nodes[node].signature@.len() as int;
        assert(nodes.take(node + 1).drop_last() =~= nodes.take(node));
        assert(nodes.take(node + 1).last() == nodes[node]);
        lemma_number_length(nodes[node].party as nat, 2);
        lemma_number_length(nodes[node].generation as nat, 8);
        lemma_number_length(nodes[node].signature@.len(), 8);
        assert(own.len() == 210 + s);
        assert(own.subrange(0, 2) =~= big_endian(nodes[node].party as nat, 2));
        assert(own.subrange(2, 34) =~= nodes[node].order_commitment.0@);
        assert(own.subrange(34, 66) =~= nodes[node].manifest_signer@);
        assert(own.subrange(66, 98) =~= nodes[node].order_share_digest@);
        assert(own.subrange(98, 130) =~= nodes[node].capability_key_share_digest@);
        assert(own.subrange(130, 138) =~= big_endian(nodes[node].generation as nat, 8));
        assert(own.subrange(138, 170) =~= nodes[node].state_digest@);
        assert(own.subrange(170, 202) =~= nodes[node].signer@);
        assert(own.subrange(202, 210) =~= big_endian(nodes[node].signature@.len(), 8));
        assert(own.subrange(210, 210 + s) =~= nodes[node].signature@);
    }
}

/// A journal's context is behind its own label: the two configurations of a
/// participant, one after the other, or the cluster of a market.
pub proof fn lemma_context_layout(config: Seq<u8>, cluster: Seq<u8>)
    ensures
        ({
            let own = context_bytes(config, cluster);
            let label = text_bytes("OCLOB:NATIVE-JOURNAL-CONTEXT:v1"@);
            let l = label.len() as int;
            let c = config.len() as int;
            &&& own.len() == l + c + cluster.len()
            &&& own.subrange(0, l) == label
            &&& own.subrange(l, l + c) == config
            &&& own.subrange(l + c, own.len() as int) == cluster
        }),
        ({
            let market = market_context_bytes(cluster);
            let label = text_bytes("OCLOB:MARKET-JOURNAL:v1"@);
            let l = label.len() as int;
            &&& market.subrange(0, l) == label
            &&& market.subrange(l, market.len() as int) == cluster
        }),
{
    let own = context_bytes(config, cluster);
    let label = text_bytes("OCLOB:NATIVE-JOURNAL-CONTEXT:v1"@);
    let l = label.len() as int;
    let c = config.len() as int;
    assert(own.subrange(0, l) =~= label);
    assert(own.subrange(l, l + c) =~= config);
    assert(own.subrange(l + c, own.len() as int) =~= cluster);
    let market = market_context_bytes(cluster);
    let other = text_bytes("OCLOB:MARKET-JOURNAL:v1"@);
    assert(market.subrange(0, other.len() as int) =~= other);
    assert(market.subrange(other.len() as int, market.len() as int) =~= cluster);
}

proof fn lemma_number_byte(value: nat, count: nat)
    requires
        count > 0,
    ensures
        big_endian(value, count).len() == count,
        big_endian(value, count).last() == (value % 256) as u8,
        big_endian(value, count).drop_last() == big_endian(value / 256, (count - 1) as nat),
{
    lemma_number_length(value, count);
    assert(big_endian(value, count).drop_last() =~= big_endian(value / 256, (count - 1) as nat));
}

/// Numbers are written with their most significant byte first: the last byte is
/// the number's rest by 256, and the bytes before it are the number without it.
pub proof fn lemma_numbers_are_big_endian(value: nat, count: nat)
    requires
        count > 0,
    ensures
        big_endian(value, count).len() == count,
        big_endian(value, count).last() == (value % 256) as u8,
        big_endian(value, count).drop_last() == big_endian(value / 256, (count - 1) as nat),
        value < 256 ==> big_endian(value, 1) == seq![value as u8],
{
    lemma_number_byte(value, count);
    if value < 256 {
        reveal_with_fuel(big_endian, 2);
        assert(big_endian(value, 1) =~= seq![value as u8]);
    }
}

} // verus!
