//! What is hashed or signed says one thing: two values with the same bytes
//! agree in every field that the bytes are made of.

use crate::bytes::{
    big_endian, lemma_big_endian_round_trip, lemma_digest_view, lemma_pow256_small, pow256,
    text_bytes, Digest32,
};
use crate::edge_client::{
    admission_bytes, node_receipts_bytes, party_bytes, EdgeAdmissionReceipt, NodeAdmissionReceipt,
};
use crate::executor::{
    commitment_bytes, slot_bytes, slots_bytes, NodeExecutionReceipt, ProofSlotMetadata, RoundPlan,
};
use crate::store_model::StoreView;
use crate::types::{MpcSlotResult, OrderCommitment};
use vstd::prelude::*;

verus! {

/// Equal strings whose first parts have one length agree in both parts.
proof fn lemma_split(a: Seq<u8>, rest_a: Seq<u8>, b: Seq<u8>, rest_b: Seq<u8>)
    requires
        a + rest_a == b + rest_b,
        a.len() == b.len(),
    ensures
        a == b,
        rest_a == rest_b,
{
    let all = a + rest_a;
    let other = b + rest_b;
    assert(all.take(a.len() as int) =~= a);
    assert(other.take(b.len() as int) =~= b);
    assert(all.skip(a.len() as int) =~= rest_a);
    assert(other.skip(b.len() as int) =~= rest_b);
}

proof fn lemma_regroup(a: Seq<u8>, b: Seq<u8>, c: Seq<u8>)
    ensures
        (a + b) + c == a + (b + c),
{
    assert((a + b) + c =~= a + (b + c));
}

/// Take a number of `count` bytes off the ends of both strings.
proof fn lemma_last_number(front_a: Seq<u8>, a: nat, front_b: Seq<u8>, b: nat, count: nat)
    requires
        front_a + big_endian(a, count) == front_b + big_endian(b, count),
        a < pow256(count),
        b < pow256(count),
    ensures
        a == b,
        front_a == front_b,
{
    lemma_big_endian_round_trip(a, count);
    lemma_big_endian_round_trip(b, count);
    assert((front_a + big_endian(a, count)).len() == front_a.len() + count);
    assert((front_b + big_endian(b, count)).len() == front_b.len() + count);
    lemma_split(front_a, big_endian(a, count), front_b, big_endian(b, count));
}

/// Take a digest off the ends of both strings.
proof fn lemma_last_digest(front_a: Seq<u8>, a: Digest32, front_b: Seq<u8>, b: Digest32)
    requires
        front_a + a@ == front_b + b@,
    ensures
        a == b,
        front_a == front_b,
{
    assert((front_a + a@).len() == front_a.len() + 32);
    assert((front_b + b@).len() == front_b.len() + 32);
    lemma_split(front_a, a@, front_b, b@);
    lemma_digest_view(a, b);
}

proof fn lemma_commitments_length(list: Seq<OrderCommitment>)
    ensures
        commitment_bytes(list).len() == 32 * list.len(),
    decreases list.len(),
{
    if list.len() > 0 {
        lemma_commitments_length(list.drop_last());
    }
}

proof fn lemma_commitments_exact(a: Seq<OrderCommitment>, b: Seq<OrderCommitment>)
    requires
        a.len() == b.len(),
        commitment_bytes(a) == commitment_bytes(b),
    ensures
        a == b,
    decreases a.len(),
{
    if a.len() > 0 {
        lemma_commitments_length(a.drop_last());
        lemma_commitments_length(b.drop_last());
        lemma_split(
            commitment_bytes(a.drop_last()),
            a.last().0@,
            commitment_bytes(b.drop_last()),
            b.last().0@,
        );
        lemma_digest_view(a.last().0, b.last().0);
        lemma_commitments_exact(a.drop_last(), b.drop_last());
        assert(a =~= a.drop_last().push(a.last()));
        assert(b =~= b.drop_last().push(b.last()));
    } else {
        assert(a =~= b);
    }
}

/// What follows the market's length in the hashed bytes of a plan.
spec fn plan_tail(plan: &RoundPlan) -> Seq<u8> {
    text_bytes(plan.market_id@) + big_endian(plan.sequence as nat, 8)
        + plan.ordering_certificate.digest@ + big_endian(plan.resting@.len(), 2)
        + commitment_bytes(plan.resting@) + plan.arriving.0@ + big_endian(plan.issued_at as nat, 8)
        + big_endian(plan.expires_at as nat, 8) + plan.coordinator@
}

/// The hashed bytes of a plan, cut behind the market's length.
proof fn lemma_plan_parts(plan: &RoundPlan) -> (parts: (Seq<u8>, Seq<u8>))
    ensures
        parts.0 == text_bytes("OCLOB:DISTRIBUTED-ROUND-PLAN:v1"@) + big_endian(
            plan.version as nat,
            2,
        ) + big_endian(text_bytes(plan.market_id@).len(), 8),
        parts.1 == plan_tail(plan),
        plan.unsigned_bytes() == parts.0 + parts.1,
{
    let start = text_bytes("OCLOB:DISTRIBUTED-ROUND-PLAN:v1"@) + big_endian(plan.version as nat, 2);
    let market = text_bytes(plan.market_id@);
    let head = start + big_endian(market.len(), 8);
    lemma_regroup(start, big_endian(market.len(), 8), market);
    let t1 = market + big_endian(plan.sequence as nat, 8);
    lemma_regroup(head, market, big_endian(plan.sequence as nat, 8));
    let t2 = t1 + plan.ordering_certificate.digest@;
    lemma_regroup(head, t1, plan.ordering_certificate.digest@);
    let t3 = t2 + big_endian(plan.resting@.len(), 2);
    lemma_regroup(head, t2, big_endian(plan.resting@.len(), 2));
    let t4 = t3 + commitment_bytes(plan.resting@);
    lemma_regroup(head, t3, commitment_bytes(plan.resting@));
    let t5 = t4 + plan.arriving.0@;
    lemma_regroup(head, t4, plan.arriving.0@);
    let t6 = t5 + big_endian(plan.issued_at as nat, 8);
    lemma_regroup(head, t5, big_endian(plan.issued_at as nat, 8));
    let t7 = t6 + big_endian(plan.expires_at as nat, 8);
    lemma_regroup(head, t6, big_endian(plan.expires_at as nat, 8));
    lemma_regroup(head, t7, plan.coordinator@);
    (head, plan_tail(plan))
}

/// Tails behind one market length agree part by part.
proof fn lemma_plan_tails(a: &RoundPlan, b: &RoundPlan)
    requires
        plan_tail(a) == plan_tail(b),
        text_bytes(a.market_id@).len() == text_bytes(b.market_id@).len(),
        a.resting@.len() <= u16::MAX,
        b.resting@.len() <= u16::MAX,
    ensures
        a.market_id@ == b.market_id@,
        a.sequence == b.sequence,
        a.ordering_certificate.digest == b.ordering_certificate.digest,
        a.resting@ == b.resting@,
        a.arriving == b.arriving,
        a.issued_at == b.issued_at,
        a.expires_at == b.expires_at,
        a.coordinator == b.coordinator,
{
    lemma_pow256_small();
    let a1 = text_bytes(a.market_id@) + big_endian(a.sequence as nat, 8);
    let b1 = text_bytes(b.market_id@) + big_endian(b.sequence as nat, 8);
    let a2 = a1 + a.ordering_certificate.digest@;
    let b2 = b1 + b.ordering_certificate.digest@;
    let a3 = a2 + big_endian(a.resting@.len(), 2);
    let b3 = b2 + big_endian(b.resting@.len(), 2);
    let a4 = a3 + commitment_bytes(a.resting@);
    let b4 = b3 + commitment_bytes(b.resting@);
    let a5 = a4 + a.arriving.0@;
    let b5 = b4 + b.arriving.0@;
    let a6 = a5 + big_endian(a.issued_at as nat, 8);
    let b6 = b5 + big_endian(b.issued_at as nat, 8);
    let a7 = a6 + big_endian(a.expires_at as nat, 8);
    let b7 = b6 + big_endian(b.expires_at as nat, 8);
    lemma_last_digest(a7, a.coordinator, b7, b.coordinator);
    lemma_last_number(a6, a.expires_at as nat, b6, b.expires_at as nat, 8);
    lemma_last_number(a5, a.issued_at as nat, b5, b.issued_at as nat, 8);
    lemma_last_digest(a4, a.arriving.0, b4, b.arriving.0);
    lemma_big_endian_round_trip(a.sequence as nat, 8);
    lemma_big_endian_round_trip(b.sequence as nat, 8);
    lemma_big_endian_round_trip(a.resting@.len(), 2);
    lemma_big_endian_round_trip(b.resting@.len(), 2);
    assert(a3.len() == b3.len());
    lemma_split(a3, commitment_bytes(a.resting@), b3, commitment_bytes(b.resting@));
    lemma_last_number(a2, a.resting@.len(), b2, b.resting@.len(), 2);
    lemma_commitments_exact(a.resting@, b.resting@);
    lemma_last_digest(a1, a.ordering_certificate.digest, b1, b.ordering_certificate.digest);
    lemma_last_number(
        text_bytes(a.market_id@),
        a.sequence as nat,
        text_bytes(b.market_id@),
        b.sequence as nat,
        8,
    );
    vstd::utf8::encode_utf8_decode_utf8(a.market_id@);
    vstd::utf8::encode_utf8_decode_utf8(b.market_id@);
}

/// A round plan is tamper-evident: what its identity is the hash of fixes the
/// market, the place, the certificate, the resting orders and their order, the
/// arriving order, both times and the coordinator. Two plans with the same
/// hashed bytes differ in none of them.
pub proof fn lemma_plan_bytes_fix_the_plan(a: &RoundPlan, b: &RoundPlan)
    requires
        a.unsigned_bytes() == b.unsigned_bytes(),
        a.resting@.len() <= u16::MAX,
        b.resting@.len() <= u16::MAX,
        text_bytes(a.market_id@).len() <= u64::MAX,
        text_bytes(b.market_id@).len() <= u64::MAX,
    ensures
        a.version == b.version,
        a.market_id@ == b.market_id@,
        a.sequence == b.sequence,
        a.ordering_certificate.digest == b.ordering_certificate.digest,
        a.resting@ == b.resting@,
        a.arriving == b.arriving,
        a.issued_at == b.issued_at,
        a.expires_at == b.expires_at,
        a.coordinator == b.coordinator,
{
    lemma_pow256_small();
    let domain = text_bytes("OCLOB:DISTRIBUTED-ROUND-PLAN:v1"@);
    let (head_a, tail_a) = lemma_plan_parts(a);
    let (head_b, tail_b) = lemma_plan_parts(b);
    lemma_big_endian_round_trip(a.version as nat, 2);
    lemma_big_endian_round_trip(b.version as nat, 2);
    lemma_big_endian_round_trip(text_bytes(a.market_id@).len(), 8);
    lemma_big_endian_round_trip(text_bytes(b.market_id@).len(), 8);
    lemma_split(head_a, tail_a, head_b, tail_b);
    lemma_last_number(
        domain + big_endian(a.version as nat, 2),
        text_bytes(a.market_id@).len(),
        domain + big_endian(b.version as nat, 2),
        text_bytes(b.market_id@).len(),
        8,
    );
    lemma_last_number(domain, a.version as nat, domain, b.version as nat, 2);
    lemma_plan_tails(a, b);
}

proof fn lemma_slot_exact(a: MpcSlotResult, b: MpcSlotResult)
    ensures
        slot_bytes(a).len() == 17,
        slot_bytes(a) == slot_bytes(b) ==> a == b,
{
    lemma_pow256_small();
    lemma_big_endian_round_trip(a.trade_price as nat, 8);
    lemma_big_endian_round_trip(a.trade_quantity as nat, 8);
    lemma_big_endian_round_trip(b.trade_price as nat, 8);
    lemma_big_endian_round_trip(b.trade_quantity as nat, 8);
    if slot_bytes(a) == slot_bytes(b) {
        let one = seq![if a.matched { 1u8 } else { 0u8 }];
        let two = seq![if b.matched { 1u8 } else { 0u8 }];
        assert(slot_bytes(a)[0] == one[0]);
        assert(slot_bytes(b)[0] == two[0]);
        lemma_split(
            one + big_endian(a.trade_price as nat, 8),
            big_endian(a.trade_quantity as nat, 8),
            two + big_endian(b.trade_price as nat, 8),
            big_endian(b.trade_quantity as nat, 8),
        );
        lemma_split(
            one,
            big_endian(a.trade_price as nat, 8),
            two,
            big_endian(b.trade_price as nat, 8),
        );
    }
}

proof fn lemma_slots_length(slots: Seq<MpcSlotResult>)
    ensures
        slots_bytes(slots).len() == 17 * slots.len(),
    decreases slots.len(),
{
    if slots.len() > 0 {
        lemma_slots_length(slots.drop_last());
        lemma_slot_exact(slots.last(), slots.last());
    }
}

proof fn lemma_slots_exact(a: Seq<MpcSlotResult>, b: Seq<MpcSlotResult>)
    requires
        a.len() == b.len(),
        slots_bytes(a) == slots_bytes(b),
    ensures
        a == b,
    decreases a.len(),
{
    if a.len() > 0 {
        lemma_slots_length(a.drop_last());
        lemma_slots_length(b.drop_last());
        lemma_split(
            slots_bytes(a.drop_last()),
            slot_bytes(a.last()),
            slots_bytes(b.drop_last()),
            slot_bytes(b.last()),
        );
        lemma_slot_exact(a.last(), b.last());
        lemma_slots_exact(a.drop_last(), b.drop_last());
        assert(a =~= a.drop_last().push(a.last()));
        assert(b =~= b.drop_last().push(b.last()));
    } else {
        assert(a =~= b);
    }
}

/// An execution receipt says one thing: the signed bytes fix the party, the
/// round, the store's generation, the program, the private state before and
/// after, and the whole public result.
pub proof fn lemma_receipt_bytes_fix_the_receipt(a: &NodeExecutionReceipt, b: &NodeExecutionReceipt)
    requires
        a.signed_bytes() == b.signed_bytes(),
        a.result.slots@.len() <= u16::MAX,
        b.result.slots@.len() <= u16::MAX,
    ensures
        a.version == b.version,
        a.party == b.party,
        a.round_id == b.round_id,
        a.generation == b.generation,
        a.round_commitment == b.round_commitment,
        a.program_sha256 == b.program_sha256,
        a.artifact_sha256 == b.artifact_sha256,
        a.private_parent_digest == b.private_parent_digest,
        a.private_state_sha256 == b.private_state_sha256,
        a.public_output_sha256 == b.public_output_sha256,
        a.result.slots@ == b.result.slots@,
        a.result.arriving_remaining == b.result.arriving_remaining,
        a.execution_ms == b.execution_ms,
        a.signer == b.signer,
{
    lemma_pow256_small();
    let domain = text_bytes("OCLOB:DISTRIBUTED-PARTY-RECEIPT:v1"@);
    let a1 = domain + big_endian(a.version as nat, 2);
    let b1 = domain + big_endian(b.version as nat, 2);
    let a2 = a1 + big_endian(a.party as nat, 2);
    let b2 = b1 + big_endian(b.party as nat, 2);
    let a3 = a2 + a.round_id@;
    let b3 = b2 + b.round_id@;
    let a4 = a3 + big_endian(a.generation as nat, 8);
    let b4 = b3 + big_endian(b.generation as nat, 8);
    let a5 = a4 + a.round_commitment@;
    let b5 = b4 + b.round_commitment@;
    let a6 = a5 + a.program_sha256@;
    let b6 = b5 + b.program_sha256@;
    let a7 = a6 + a.artifact_sha256@;
    let b7 = b6 + b.artifact_sha256@;
    let a8 = a7 + a.private_parent_digest@;
    let b8 = b7 + b.private_parent_digest@;
    let a9 = a8 + a.private_state_sha256@;
    let b9 = b8 + b.private_state_sha256@;
    let a10 = a9 + a.public_output_sha256@;
    let b10 = b9 + b.public_output_sha256@;
    let a11 = a10 + big_endian(a.result.slots@.len(), 2);
    let b11 = b10 + big_endian(b.result.slots@.len(), 2);
    let a12 = a11 + slots_bytes(a.result.slots@);
    let b12 = b11 + slots_bytes(b.result.slots@);
    let a13 = a12 + big_endian(a.result.arriving_remaining as nat, 8);
    let b13 = b12 + big_endian(b.result.arriving_remaining as nat, 8);
    let a14 = a13 + big_endian(a.execution_ms as nat, 8);
    let b14 = b13 + big_endian(b.execution_ms as nat, 8);
    lemma_last_digest(a14, a.signer, b14, b.signer);
    lemma_last_number(a13, a.execution_ms as nat, b13, b.execution_ms as nat, 8);
    lemma_last_number(
        a12,
        a.result.arriving_remaining as nat,
        b12,
        b.result.arriving_remaining as nat,
        8,
    );
    lemma_big_endian_round_trip(a.version as nat, 2);
    lemma_big_endian_round_trip(b.version as nat, 2);
    lemma_big_endian_round_trip(a.party as nat, 2);
    lemma_big_endian_round_trip(b.party as nat, 2);
    lemma_big_endian_round_trip(a.generation as nat, 8);
    lemma_big_endian_round_trip(b.generation as nat, 8);
    lemma_big_endian_round_trip(a.result.slots@.len(), 2);
    lemma_big_endian_round_trip(b.result.slots@.len(), 2);
    assert(a4.len() == b4.len());
    assert(a8.len() == b8.len());
    assert(a11.len() == b11.len());
    lemma_split(a11, slots_bytes(a.result.slots@), b11, slots_bytes(b.result.slots@));
    lemma_last_number(a10, a.result.slots@.len(), b10, b.result.slots@.len(), 2);
    lemma_slots_exact(a.result.slots@, b.result.slots@);
    lemma_last_digest(a9, a.public_output_sha256, b9, b.public_output_sha256);
    lemma_last_digest(a8, a.private_state_sha256, b8, b.private_state_sha256);
    lemma_last_digest(a7, a.private_parent_digest, b7, b.private_parent_digest);
    lemma_last_digest(a6, a.artifact_sha256, b6, b.artifact_sha256);
    lemma_last_digest(a5, a.program_sha256, b5, b.program_sha256);
    lemma_last_digest(a4, a.round_commitment, b4, b.round_commitment);
    lemma_last_number(a3, a.generation as nat, b3, b.generation as nat, 8);
    lemma_last_digest(a2, a.round_id, b2, b.round_id);
    lemma_last_number(a1, a.party as nat, b1, b.party as nat, 2);
    lemma_last_number(domain, a.version as nat, domain, b.version as nat, 2);
}

/// A party's slot metadata says one thing: the signed bytes fix the party, the
/// round and the slot, the files that it stands for, the number of proof wires,
/// the signer, and from the second version on the digest of the native fill.
pub proof fn lemma_slot_metadata_bytes_fix_the_slot(a: &ProofSlotMetadata, b: &ProofSlotMetadata)
    requires
        a.signed_bytes() == b.signed_bytes(),
    ensures
        a.version == b.version,
        a.party == b.party,
        a.round_id == b.round_id,
        a.slot == b.slot,
        a.public_output_sha256 == b.public_output_sha256,
        a.private_state_sha256 == b.private_state_sha256,
        a.persistence_sha256 == b.persistence_sha256,
        a.proof_wires == b.proof_wires,
        a.signer == b.signer,
        a.version >= 2 ==> a.fill_bytes() == b.fill_bytes(),
{
    lemma_pow256_small();
    let domain = text_bytes("OCLOB:PROOF-SLOT-METADATA:v1"@);
    let a1 = domain + big_endian(a.version as nat, 2);
    let b1 = domain + big_endian(b.version as nat, 2);
    let a2 = a1 + big_endian(a.party as nat, 2);
    let b2 = b1 + big_endian(b.party as nat, 2);
    let a3 = a2 + a.round_id@;
    let b3 = b2 + b.round_id@;
    let a4 = a3 + big_endian(a.slot as nat, 2);
    let b4 = b3 + big_endian(b.slot as nat, 2);
    let a5 = a4 + a.public_output_sha256@;
    let b5 = b4 + b.public_output_sha256@;
    let a6 = a5 + a.private_state_sha256@;
    let b6 = b5 + b.private_state_sha256@;
    let a7 = a6 + a.persistence_sha256@;
    let b7 = b6 + b.persistence_sha256@;
    let a8 = a7 + big_endian(a.proof_wires as nat, 8);
    let b8 = b7 + big_endian(b.proof_wires as nat, 8);
    let a9 = a8 + a.signer@;
    let b9 = b8 + b.signer@;
    lemma_big_endian_round_trip(a.version as nat, 2);
    lemma_big_endian_round_trip(b.version as nat, 2);
    lemma_big_endian_round_trip(a.party as nat, 2);
    lemma_big_endian_round_trip(b.party as nat, 2);
    lemma_big_endian_round_trip(a.slot as nat, 2);
    lemma_big_endian_round_trip(b.slot as nat, 2);
    lemma_big_endian_round_trip(a.proof_wires as nat, 8);
    lemma_big_endian_round_trip(b.proof_wires as nat, 8);
    assert(a4.len() == b4.len());
    assert(a9.len() == b9.len());
    if a.version >= 2 && b.version >= 2 {
        lemma_split(a9, a.fill_bytes(), b9, b.fill_bytes());
    }
    assert(a.fill_bytes().len() == 32);
    assert(b.fill_bytes().len() == 32);
    assert(a9 == b9);
    lemma_last_digest(a8, a.signer, b8, b.signer);
    lemma_last_number(a7, a.proof_wires as nat, b7, b.proof_wires as nat, 8);
    lemma_last_digest(a6, a.persistence_sha256, b6, b.persistence_sha256);
    lemma_last_digest(a5, a.private_state_sha256, b5, b.private_state_sha256);
    lemma_last_digest(a4, a.public_output_sha256, b4, b.public_output_sha256);
    lemma_last_number(a3, a.slot as nat, b3, b.slot as nat, 2);
    lemma_last_digest(a2, a.round_id, b2, b.round_id);
    lemma_last_number(a1, a.party as nat, b1, b.party as nat, 2);
    lemma_last_number(domain, a.version as nat, domain, b.version as nat, 2);
}

/// The entries of a list of resting orders begin with that of the first one.
proof fn lemma_first_parent_entry(store: StoreView, resting: Seq<OrderCommitment>)
    requires
        resting.len() > 0,
    ensures
        store.parent_entries(resting) == store.parent_entry(resting[0]) + store.parent_entries(
            resting.drop_first(),
        ),
    decreases resting.len(),
{
    let first = store.parent_entry(resting[0]);
    let last = store.parent_entry(resting.last());
    if resting.len() == 1 {
        assert(resting.drop_last() =~= Seq::<OrderCommitment>::empty());
        assert(resting.drop_first() =~= Seq::<OrderCommitment>::empty());
        assert(store.parent_entries(resting) =~= first + store.parent_entries(
            resting.drop_first(),
        ));
    } else {
        let middle = resting.drop_last().drop_first();
        lemma_first_parent_entry(store, resting.drop_last());
        assert(resting.drop_last()[0] == resting[0]);
        assert(resting.drop_first().drop_last() =~= middle);
        assert(resting.drop_first().last() == resting.last());
        lemma_regroup(first, store.parent_entries(middle), last);
    }
}

/// Two stores point to the same private state of an order, or neither points to
/// any.
pub open spec fn same_private_head(a: StoreView, b: StoreView, order: OrderCommitment) -> bool {
    let key = order.key();
    &&& a.private_heads.dom().contains(key) == b.private_heads.dom().contains(key)
    &&& a.private_heads.dom().contains(key) ==> {
        let one = a.private_heads[key];
        let two = b.private_heads[key];
        &&& one.round_id == two.round_id
        &&& one.private_state_sha256 == two.private_state_sha256
        &&& one.wire_offset == two.wire_offset
    }
}

/// Take the entry of one order off both strings.
proof fn lemma_parent_entry_exact(
    a: StoreView,
    rest_a: Seq<u8>,
    b: StoreView,
    rest_b: Seq<u8>,
    order: OrderCommitment,
)
    requires
        a.parent_entry(order) + rest_a == b.parent_entry(order) + rest_b,
    ensures
        same_private_head(a, b, order),
        rest_a == rest_b,
{
    lemma_pow256_small();
    let key = order.key();
    let all = a.parent_entry(order) + rest_a;
    let other = b.parent_entry(order) + rest_b;
    assert(all[32] == a.parent_entry(order)[32]);
    assert(other[32] == b.parent_entry(order)[32]);
    if a.private_heads.dom().contains(key) && b.private_heads.dom().contains(key) {
        let one = a.private_heads[key];
        let two = b.private_heads[key];
        lemma_big_endian_round_trip(one.wire_offset as nat, 2);
        lemma_big_endian_round_trip(two.wire_offset as nat, 2);
        lemma_split(a.parent_entry(order), rest_a, b.parent_entry(order), rest_b);
        let flag = order.0@ + seq![1u8];
        let a1 = flag + one.round_id@;
        let b1 = flag + two.round_id@;
        let a2 = a1 + one.private_state_sha256@;
        let b2 = b1 + two.private_state_sha256@;
        lemma_last_number(a2, one.wire_offset as nat, b2, two.wire_offset as nat, 2);
        lemma_last_digest(a1, one.private_state_sha256, b1, two.private_state_sha256);
        lemma_last_digest(flag, one.round_id, flag, two.round_id);
    } else {
        assert(!a.private_heads.dom().contains(key) && !b.private_heads.dom().contains(key));
        lemma_split(a.parent_entry(order), rest_a, b.parent_entry(order), rest_b);
    }
}

proof fn lemma_parent_entries_exact(a: StoreView, b: StoreView, resting: Seq<OrderCommitment>)
    requires
        a.parent_entries(resting) == b.parent_entries(resting),
    ensures
        forall|i: int| 0 <= i < resting.len() ==> #[trigger] same_private_head(a, b, resting[i]),
    decreases resting.len(),
{
    if resting.len() > 0 {
        let rest = resting.drop_first();
        lemma_first_parent_entry(a, resting);
        lemma_first_parent_entry(b, resting);
        lemma_parent_entry_exact(
            a,
            a.parent_entries(rest),
            b,
            b.parent_entries(rest),
            resting[0],
        );
        lemma_parent_entries_exact(a, b, rest);
        assert forall|i: int| 0 <= i < resting.len() implies #[trigger] same_private_head(
            a,
            b,
            resting[i],
        ) by {
            if i > 0 {
                assert(resting[i] == rest[i - 1]);
            }
        }
    }
}

/// A round's private parents are exact: where the bytes behind the digest in a
/// receipt are those of the present store, no resting order's private state has
/// advanced since the round was prepared.
pub proof fn lemma_parent_bytes_fix_the_heads(
    prepared: StoreView,
    present: StoreView,
    resting: Seq<OrderCommitment>,
    arriving: OrderCommitment,
)
    requires
        prepared.parent_bytes(resting, arriving) == present.parent_bytes(resting, arriving),
    ensures
        forall|i: int|
            0 <= i < resting.len() ==> #[trigger] same_private_head(prepared, present, resting[i]),
{
    let head = text_bytes("OCLOB:PRIVATE-BOOK-PARENTS:v1"@) + big_endian(resting.len(), 8);
    let a = head + prepared.parent_entries(resting);
    let b = head + present.parent_entries(resting);
    lemma_last_digest(a, arriving.0, b, arriving.0);
    lemma_split(
        head,
        prepared.parent_entries(resting),
        head,
        present.parent_entries(resting),
    );
    lemma_parent_entries_exact(prepared, present, resting);
}

proof fn lemma_party_bytes_length(
    generations: Seq<u64>,
    shares: Seq<Digest32>,
    keys: Seq<Digest32>,
    count: nat,
)
    requires
        count <= 7,
    ensures
        party_bytes(generations, shares, keys, count).len() == 74 * count,
    decreases count,
{
    if count > 0 {
        let party = (count - 1) as nat;
        lemma_pow256_small();
        lemma_big_endian_round_trip(party, 2);
        lemma_big_endian_round_trip(generations[party as int] as nat, 8);
        lemma_party_bytes_length(generations, shares, keys, party);
    }
}

/// What the nodes stored of an order, party by party.
pub open spec fn same_parties(
    a: &EdgeAdmissionReceipt,
    b: &EdgeAdmissionReceipt,
    count: nat,
) -> bool {
    forall|i: int|
        #![trigger a.node_generations@[i]]
        0 <= i < count ==> a.node_generations@[i] == b.node_generations@[i]
            && a.order_share_digests@[i] == b.order_share_digests@[i]
            && a.capability_key_share_digests@[i] == b.capability_key_share_digests@[i]
}

proof fn lemma_party_bytes_exact(a: &EdgeAdmissionReceipt, b: &EdgeAdmissionReceipt, count: nat)
    requires
        count <= 7,
        party_bytes(
            a.node_generations@,
            a.order_share_digests@,
            a.capability_key_share_digests@,
            count,
        ) == party_bytes(
            b.node_generations@,
            b.order_share_digests@,
            b.capability_key_share_digests@,
            count,
        ),
    ensures
        same_parties(a, b, count),
    decreases count,
{
    if count > 0 {
        let at = (count - 1) as int;
        let party = at as nat;
        let front_a = party_bytes(
            a.node_generations@,
            a.order_share_digests@,
            a.capability_key_share_digests@,
            party,
        );
        let front_b = party_bytes(
            b.node_generations@,
            b.order_share_digests@,
            b.capability_key_share_digests@,
            party,
        );
        lemma_pow256_small();
        lemma_party_bytes_length(
            a.node_generations@,
            a.order_share_digests@,
            a.capability_key_share_digests@,
            party,
        );
        lemma_party_bytes_length(
            b.node_generations@,
            b.order_share_digests@,
            b.capability_key_share_digests@,
            party,
        );
        let number = big_endian(party, 2);
        let a1 = number + big_endian(a.node_generations@[at] as nat, 8);
        let b1 = number + big_endian(b.node_generations@[at] as nat, 8);
        let a2 = a1 + a.order_share_digests@[at]@;
        let b2 = b1 + b.order_share_digests@[at]@;
        lemma_split(
            front_a,
            a2 + a.capability_key_share_digests@[at]@,
            front_b,
            b2 + b.capability_key_share_digests@[at]@,
        );
        lemma_last_digest(
            a2,
            a.capability_key_share_digests@[at],
            b2,
            b.capability_key_share_digests@[at],
        );
        lemma_last_digest(a1, a.order_share_digests@[at], b1, b.order_share_digests@[at]);
        lemma_last_number(
            number,
            a.node_generations@[at] as nat,
            number,
            b.node_generations@[at] as nat,
            8,
        );
        lemma_party_bytes_exact(a, b, party);
        assert forall|i: int| #![trigger a.node_generations@[i]] 0 <= i < count implies {
            &&& a.node_generations@[i] == b.node_generations@[i]
            &&& a.order_share_digests@[i] == b.order_share_digests@[i]
            &&& a.capability_key_share_digests@[i] == b.capability_key_share_digests@[i]
        } by {
            if i < party {
                assert(same_parties(a, b, party));
            } else {
                assert(i == at);
            }
        }
    }
}

/// Two nodes' receipts agree in everything, the signature included.
pub open spec fn same_admission(a: NodeAdmissionReceipt, b: NodeAdmissionReceipt) -> bool {
    &&& a.party == b.party
    &&& a.order_commitment == b.order_commitment
    &&& a.manifest_signer == b.manifest_signer
    &&& a.order_share_digest == b.order_share_digest
    &&& a.capability_key_share_digest == b.capability_key_share_digest
    &&& a.generation == b.generation
    &&& a.state_digest == b.state_digest
    &&& a.signer == b.signer
    &&& a.signature@ == b.signature@
}

/// Take one node's receipt off both strings.
proof fn lemma_admission_exact(
    a: NodeAdmissionReceipt,
    rest_a: Seq<u8>,
    b: NodeAdmissionReceipt,
    rest_b: Seq<u8>,
)
    requires
        a.receipt_bytes() + rest_a == b.receipt_bytes() + rest_b,
        a.signature@.len() <= u64::MAX,
        b.signature@.len() <= u64::MAX,
    ensures
        same_admission(a, b),
        rest_a == rest_b,
{
    lemma_pow256_small();
    let a1 = big_endian(a.party as nat, 2);
    let b1 = big_endian(b.party as nat, 2);
    let a2 = a1 + a.order_commitment.0@;
    let b2 = b1 + b.order_commitment.0@;
    let a3 = a2 + a.manifest_signer@;
    let b3 = b2 + b.manifest_signer@;
    let a4 = a3 + a.order_share_digest@;
    let b4 = b3 + b.order_share_digest@;
    let a5 = a4 + a.capability_key_share_digest@;
    let b5 = b4 + b.capability_key_share_digest@;
    let a6 = a5 + big_endian(a.generation as nat, 8);
    let b6 = b5 + big_endian(b.generation as nat, 8);
    let a7 = a6 + a.state_digest@;
    let b7 = b6 + b.state_digest@;
    let a8 = a7 + a.signer@;
    let b8 = b7 + b.signer@;
    let a9 = a8 + big_endian(a.signature@.len(), 8);
    let b9 = b8 + big_endian(b.signature@.len(), 8);
    lemma_big_endian_round_trip(a.party as nat, 2);
    lemma_big_endian_round_trip(b.party as nat, 2);
    lemma_big_endian_round_trip(a.generation as nat, 8);
    lemma_big_endian_round_trip(b.generation as nat, 8);
    lemma_big_endian_round_trip(a.signature@.len(), 8);
    lemma_big_endian_round_trip(b.signature@.len(), 8);
    assert(a5.len() == b5.len());
    assert(a9.len() == b9.len());
    lemma_regroup(a9, a.signature@, rest_a);
    lemma_regroup(b9, b.signature@, rest_b);
    lemma_split(a9, a.signature@ + rest_a, b9, b.signature@ + rest_b);
    lemma_last_number(a8, a.signature@.len(), b8, b.signature@.len(), 8);
    lemma_split(a.signature@, rest_a, b.signature@, rest_b);
    lemma_last_digest(a7, a.signer, b7, b.signer);
    lemma_last_digest(a6, a.state_digest, b6, b.state_digest);
    lemma_last_number(a5, a.generation as nat, b5, b.generation as nat, 8);
    lemma_last_digest(a4, a.capability_key_share_digest, b4, b.capability_key_share_digest);
    lemma_last_digest(a3, a.order_share_digest, b3, b.order_share_digest);
    lemma_last_digest(a2, a.manifest_signer, b2, b.manifest_signer);
    lemma_last_digest(a1, a.order_commitment.0, b1, b.order_commitment.0);
}

/// The receipts of a list begin with the first one.
proof fn lemma_first_admission(receipts: Seq<NodeAdmissionReceipt>)
    requires
        receipts.len() > 0,
    ensures
        node_receipts_bytes(receipts) == receipts[0].receipt_bytes() + node_receipts_bytes(
            receipts.drop_first(),
        ),
    decreases receipts.len(),
{
    let first = receipts[0].receipt_bytes();
    let last = receipts.last().receipt_bytes();
    if receipts.len() == 1 {
        assert(receipts.drop_last() =~= Seq::<NodeAdmissionReceipt>::empty());
        assert(receipts.drop_first() =~= Seq::<NodeAdmissionReceipt>::empty());
        assert(node_receipts_bytes(receipts) =~= first + node_receipts_bytes(
            receipts.drop_first(),
        ));
    } else {
        let middle = receipts.drop_last().drop_first();
        lemma_first_admission(receipts.drop_last());
        assert(receipts.drop_last()[0] == receipts[0]);
        assert(receipts.drop_first().drop_last() =~= middle);
        assert(receipts.drop_first().last() == receipts.last());
        lemma_regroup(first, node_receipts_bytes(middle), last);
    }
}

proof fn lemma_admissions_exact(a: Seq<NodeAdmissionReceipt>, b: Seq<NodeAdmissionReceipt>)
    requires
        a.len() == b.len(),
        node_receipts_bytes(a) == node_receipts_bytes(b),
        forall|i: int| 0 <= i < a.len() ==> (#[trigger] a[i]).signature@.len() <= u64::MAX,
        forall|i: int| 0 <= i < b.len() ==> (#[trigger] b[i]).signature@.len() <= u64::MAX,
    ensures
        forall|i: int| 0 <= i < a.len() ==> same_admission(#[trigger] a[i], b[i]),
    decreases a.len(),
{
    if a.len() > 0 {
        let rest_a = a.drop_first();
        let rest_b = b.drop_first();
        lemma_first_admission(a);
        lemma_first_admission(b);
        lemma_admission_exact(
            a[0],
            node_receipts_bytes(rest_a),
            b[0],
            node_receipts_bytes(rest_b),
        );
        assert forall|i: int| 0 <= i < rest_a.len() implies (#[trigger] rest_a[i]).signature@.len()
            <= u64::MAX by {
            assert(rest_a[i] == a[i + 1]);
        }
        assert forall|i: int| 0 <= i < rest_b.len() implies (#[trigger] rest_b[i]).signature@.len()
            <= u64::MAX by {
            assert(rest_b[i] == b[i + 1]);
        }
        lemma_admissions_exact(rest_a, rest_b);
        assert forall|i: int| 0 <= i < a.len() implies same_admission(#[trigger] a[i], b[i]) by {
            if i > 0 {
                assert(a[i] == rest_a[i - 1]);
                assert(b[i] == rest_b[i - 1]);
            }
        }
    }
}

/// What the digest of an admission is taken of.
pub open spec fn digested(receipt: &EdgeAdmissionReceipt) -> Seq<u8> {
    admission_bytes(
        receipt.manifest.commitment,
        receipt.manifest.signer,
        receipt.node_generations@,
        receipt.order_share_digests@,
        receipt.capability_key_share_digests@,
        receipt.node_receipts@,
    )
}

/// An admission is tamper-evident: what its digest is the hash of fixes the
/// order, its signer, what each node stored and at which generation, and every
/// node's signed receipt.
pub proof fn lemma_admission_bytes_fix_the_admission(
    a: &EdgeAdmissionReceipt,
    b: &EdgeAdmissionReceipt,
)
    requires
        digested(a) == digested(b),
        a.node_receipts@.len() <= u64::MAX,
        b.node_receipts@.len() <= u64::MAX,
        forall|i: int|
            0 <= i < a.node_receipts@.len() ==> (#[trigger] a.node_receipts@[i]).signature@.len()
                <= u64::MAX,
        forall|i: int|
            0 <= i < b.node_receipts@.len() ==> (#[trigger] b.node_receipts@[i]).signature@.len()
                <= u64::MAX,
    ensures
        a.manifest.commitment == b.manifest.commitment,
        a.manifest.signer == b.manifest.signer,
        same_parties(a, b, 7),
        a.node_receipts@.len() == b.node_receipts@.len(),
        forall|i: int|
            0 <= i < a.node_receipts@.len() ==> same_admission(
                #[trigger] a.node_receipts@[i],
                b.node_receipts@[i],
            ),
{
    lemma_pow256_small();
    let domain = text_bytes("OCLOB:EDGE-ADMISSION-RECEIPT:v2"@);
    let a1 = domain + a.manifest.commitment.0@;
    let b1 = domain + b.manifest.commitment.0@;
    let a2 = a1 + a.manifest.signer@;
    let b2 = b1 + b.manifest.signer@;
    let parties_a = party_bytes(
        a.node_generations@,
        a.order_share_digests@,
        a.capability_key_share_digests@,
        7,
    );
    let parties_b = party_bytes(
        b.node_generations@,
        b.order_share_digests@,
        b.capability_key_share_digests@,
        7,
    );
    let a3 = a2 + parties_a;
    let b3 = b2 + parties_b;
    let a4 = a3 + big_endian(a.node_receipts@.len(), 8);
    let b4 = b3 + big_endian(b.node_receipts@.len(), 8);
    lemma_party_bytes_length(
        a.node_generations@,
        a.order_share_digests@,
        a.capability_key_share_digests@,
        7,
    );
    lemma_party_bytes_length(
        b.node_generations@,
        b.order_share_digests@,
        b.capability_key_share_digests@,
        7,
    );
    lemma_big_endian_round_trip(a.node_receipts@.len(), 8);
    lemma_big_endian_round_trip(b.node_receipts@.len(), 8);
    assert(a4.len() == b4.len());
    lemma_split(
        a4,
        node_receipts_bytes(a.node_receipts@),
        b4,
        node_receipts_bytes(b.node_receipts@),
    );
    lemma_last_number(a3, a.node_receipts@.len(), b3, b.node_receipts@.len(), 8);
    assert(a2.len() == b2.len());
    lemma_split(a2, parties_a, b2, parties_b);
    lemma_last_digest(a1, a.manifest.signer, b1, b.manifest.signer);
    lemma_last_digest(domain, a.manifest.commitment.0, domain, b.manifest.commitment.0);
    lemma_party_bytes_exact(a, b, 7);
    lemma_admissions_exact(a.node_receipts@, b.node_receipts@);
}

} // verus!
