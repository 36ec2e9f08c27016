//! What a matching round leaves with the parties and with the edge: which plans
//! run, what each party keeps and signs, and what the replies of seven nodes add
//! up to.

use crate::bytes::{ends_with, is_zero, sha256, text_bytes, Digest32};
use crate::edge_client::{
    fan_out_complete, finality_requestable, order_requestable, present, release_requestable,
    releases_in_order, releases_suffice, reply_for, round_agreed, round_requestable, sent_replies,
    votes_in_order, AgreedRoundExecution, EdgeAdmissionReceipt, EdgeDistributor,
    NodeAdmissionReceipt, NodeReply, PreparedEdgeDelivery,
};
use crate::executor::{
    native_fill, own_key_name, persistence_complete, proof_file, runtime_entry_choice, EntryKind,
    FillDigests, NodeExecutionReceipt, PartyExecutor, PartyRun, PersistenceHeader, ProofSlot,
    RoundPlan, RuntimeEntry, WireLayout,
};
use crate::signatures::{ed25519_accepts, ed25519_key_decodes, ed25519_public, ed25519_signature};
use crate::stable_sort::{
    ascending, first_of_each, inserted, lemma_stable_sorted, stable_sorted,
};
use crate::store::PreparedPartyInput;
use crate::store_model::PrivateStateFinality;
use crate::types::{
    BatchView, ClusterPublicConfig, EdgeOrderManifest, OrderCertificate, OrderCommitment,
};
use vstd::prelude::*;

verus! {

/// A plan runs exactly where it is the coordinator's own signed word on a
/// certified order against at most as many different resting orders as there are
/// slots, while it lives, and for no longer than five minutes or its certificate.
pub proof fn lemma_plan_is_certified_and_short(plan: &RoundPlan, now: u64, match_slots: u16)
    ensures
        plan.valid_at(now, match_slots) == {
            &&& plan.version == 1
            &&& 0 < plan.market_id@.len()
            &&& text_bytes(plan.market_id@).len() <= 64
            &&& plan.sequence > 0
            &&& plan.ordering_certificate.market_id@ == plan.market_id@
            &&& plan.ordering_certificate.sequence == plan.sequence
            &&& plan.ordering_certificate.commitment == plan.arriving
            &&& plan.expires_at <= plan.ordering_certificate.expires_at
            &&& !is_zero(plan.coordinator@)
            &&& !is_zero(plan.arriving.0@)
            &&& plan.resting@.len() <= match_slots
            &&& forall|i: int|
                0 <= i < plan.resting@.len() ==> (#[trigger] plan.resting@[i]) != plan.arriving
            &&& forall|i: int, j: int|
                0 <= i < j < plan.resting@.len() ==> plan.resting@[i] != plan.resting@[j]
            &&& plan.issued_at <= now
            &&& now <= plan.expires_at
            &&& plan.expires_at <= plan.issued_at + 300
            &&& plan.round_id@ == sha256(plan.unsigned_bytes())
            &&& ed25519_accepts(plan.coordinator@, plan.signed_bytes(), plan.signature@)
        },
{
    if forall|i: int, j: int|
        0 <= i < j < plan.resting@.len() ==> plan.resting@[i] != plan.resting@[j] {
        assert(plan.resting@.no_duplicates());
    }
}

/// A signed plan executes the certified order against the given book, in the
/// given window, under the coordinator's key.
pub proof fn lemma_signed_plan_is_for_its_order(
    plan: &RoundPlan,
    certificate: &OrderCertificate,
    resting: Seq<OrderCommitment>,
    issued_at: u64,
    expires_at: u64,
    secret: Seq<u8>,
)
    requires
        plan.signed_from(certificate, resting, issued_at, expires_at, secret),
    ensures
        plan.market_id@ == certificate.market_id@,
        plan.sequence == certificate.sequence,
        plan.ordering_certificate.digest == certificate.digest,
        plan.arriving == certificate.commitment,
        plan.resting@ == resting,
        plan.issued_at == issued_at,
        plan.expires_at == expires_at,
        plan.coordinator@ == ed25519_public(secret),
        plan.round_id@ == sha256(plan.unsigned_bytes()),
        plan.signature@ == ed25519_signature(secret, plan.signed_bytes()),
{
    assert(plan.ordering_certificate@.digest == certificate@.digest);
}

/// A receipt stands exactly where it is the expected party's own signed word on
/// this round, made with the pinned program and with a slot result for each slot.
pub proof fn lemma_receipt_is_the_partys_own(
    receipt: &NodeExecutionReceipt,
    plan: &RoundPlan,
    party: u16,
    signer: Seq<u8>,
    program: Seq<u8>,
    match_slots: u16,
)
    ensures
        receipt.valid_for(plan, party, signer, program, match_slots) == {
            &&& receipt.version == 1
            &&& receipt.party == party
            &&& party < 7
            &&& receipt.round_id@ == plan.round_id@
            &&& receipt.program_sha256@ == program
            &&& !is_zero(receipt.private_parent_digest@)
            &&& !is_zero(receipt.private_state_sha256@)
            &&& receipt.public_output_sha256@ == receipt.result.output_digest@
            &&& receipt.result.slots@.len() == match_slots
            &&& receipt.signer@ == signer
            &&& ed25519_accepts(signer, receipt.signed_bytes(), receipt.signature@)
        },
{
}

/// A slot says something of a settlement exactly where it traded between two
/// bound reservations; it lets the taker close exactly where nothing is left of
/// the arriving order and no later slot traded, and names the digest of just that
/// fill.
pub proof fn lemma_last_trade_may_close(
    result: BatchView,
    slot: int,
    bound: Option<FillDigests>,
)
    requires
        0 <= slot < result.slots.len(),
    ensures
        ({
            let fill = native_fill(result, slot, bound);
            let closes = result.arriving_remaining == 0 && forall|later: int|
                slot < later < result.slots.len() ==> !(#[trigger] result.slots[later]).matched;
            &&& fill is Some == (result.slots[slot].matched && bound is Some)
            &&& fill matches Some(told) ==> {
                &&& told.taker_may_close == closes
                &&& closes ==> told.digest == (bound->0).closing
                &&& !closes ==> told.digest == (bound->0).open
            }
        }),
{
}

/// The proof file of a slot holds the header and that slot's own shares, byte by
/// byte as they lie behind the book's and the earlier slots' shares.
pub proof fn lemma_proof_file_holds_its_slot(
    bytes: Seq<u8>,
    header: PersistenceHeader,
    layout: WireLayout,
    slot: int,
    at: int,
)
    requires
        persistence_complete(bytes, header, layout),
        0 <= slot < layout.match_slots,
        0 <= at < header.data_offset + layout.proof_wires_per_fill * header.element_bytes,
    ensures
        ({
            let proof = proof_file(bytes, header, layout, slot);
            let before = (layout.book_wires + slot * layout.proof_wires_per_fill)
                * header.element_bytes;
            &&& bytes.len() == header.data_offset + layout.persistence_wires * header.element_bytes
            &&& proof.len() == header.data_offset + layout.proof_wires_per_fill
                * header.element_bytes
            &&& at < header.data_offset ==> proof[at] == bytes[at]
            &&& at >= header.data_offset ==> at + before < bytes.len() && proof[at] == bytes[at
                + before]
        }),
{
    let before = (layout.book_wires + slot * layout.proof_wires_per_fill) * header.element_bytes;
    let own = layout.proof_wires_per_fill * header.element_bytes;
    assert(before >= 0) by (nonlinear_arith)
        requires
            before == (layout.book_wires + slot * layout.proof_wires_per_fill)
                * header.element_bytes,
            slot >= 0,
            layout.book_wires >= 0,
            layout.proof_wires_per_fill >= 0,
            header.element_bytes >= 0,
    ;
    assert(own >= 0) by (nonlinear_arith)
        requires
            own == layout.proof_wires_per_fill * header.element_bytes,
            layout.proof_wires_per_fill >= 0,
            header.element_bytes >= 0,
    ;
    assert(header.element_bytes * layout.persistence_wires == layout.persistence_wires
        * header.element_bytes) by (nonlinear_arith);
    assert(header.element_bytes * layout.persistence_wires >= 0) by (nonlinear_arith);
    assert(crate::executor::proof_end(header, layout, slot) <= bytes.len());
    assert(crate::executor::proof_start(header, layout, slot) == header.data_offset + before);
    assert(crate::executor::proof_end(header, layout, slot) == header.data_offset + before + own);
}

/// A party keeps for each slot its proof file and says over it, signed, which
/// party, round and slot it is, the round's output, the digests of the whole
/// private state and of this file, and the fill.
pub proof fn lemma_party_signs_what_it_keeps(
    executor: &PartyExecutor,
    kept: &ProofSlot,
    bytes: Seq<u8>,
    header: PersistenceHeader,
    layout: WireLayout,
    round_id: Digest32,
    result: BatchView,
    bound: Option<FillDigests>,
    slot: int,
)
    requires
        executor.retained_slot(kept, bytes, header, layout, round_id, result, bound, slot),
    ensures
        kept.proof@ == proof_file(bytes, header, layout, slot),
        kept.metadata.version == 2,
        kept.metadata.party == executor.party,
        kept.metadata.round_id == round_id,
        kept.metadata.slot == slot,
        kept.metadata.public_output_sha256 == result.output_digest,
        kept.metadata.private_state_sha256@ == sha256(bytes),
        kept.metadata.persistence_sha256@ == sha256(kept.proof@),
        kept.metadata.proof_wires == layout.proof_wires_per_fill,
        kept.metadata.native_fill == native_fill(result, slot, bound),
        kept.metadata.signer@ == ed25519_public(executor.signing_key@),
        kept.metadata.signature@ == ed25519_signature(
            executor.signing_key@,
            kept.metadata.signed_bytes(),
        ),
{
}

/// A party's receipt repeats what it prepared, what it runs, what came out, and
/// the digest of the private state that it keeps.
pub proof fn lemma_receipt_repeats_the_run(
    executor: &PartyExecutor,
    receipt: &NodeExecutionReceipt,
    prepared: &PreparedPartyInput,
    plan: &RoundPlan,
    result: BatchView,
    state: Seq<u8>,
    execution_ms: u64,
)
    requires
        executor.receipt_of(receipt, prepared, plan, result, state, execution_ms),
    ensures
        receipt.party == executor.party,
        receipt.round_id == plan.round_id,
        receipt.generation == prepared.generation,
        receipt.round_commitment == prepared.round_commitment,
        receipt.private_parent_digest == prepared.private_parent_digest,
        receipt.program_sha256 == executor.program_sha256,
        receipt.artifact_sha256 == executor.artifact_sha256,
        receipt.private_state_sha256@ == sha256(state),
        receipt.result.slots@ == result.slots,
        receipt.result.arriving_remaining == result.arriving_remaining,
        receipt.public_output_sha256 == result.output_digest,
        receipt.execution_ms == execution_ms,
        receipt.signer@ == ed25519_public(executor.signing_key@),
        receipt.signature@ == ed25519_signature(executor.signing_key@, receipt.signed_bytes()),
{
    assert(receipt.result@.slots == result.slots);
    assert(receipt.result@.arriving_remaining == result.arriving_remaining);
}

/// A run counts only where the engine is the pinned one, the input is this
/// party's, neither directory was there before, the process ended well, and its
/// outputs were read, moved and hold every wire.
pub proof fn lemma_run_must_be_whole(
    executor: &PartyExecutor,
    prepared: &PreparedPartyInput,
    run: PartyRun,
    layout: WireLayout,
)
    ensures
        executor.run_fault(prepared, run, layout) is None == {
            &&& run.engine is Ok
            &&& prepared.party == executor.party
            &&& run.round_directory is Made
            &&& run.started is Ok
            &&& run.status is Succeeded
            &&& run.result is Ok
            &&& run.state is Ok
            &&& run.state_directory is Made
            &&& run.moved is Ok
            &&& run.bound@.len() == layout.match_slots
            &&& run.header is Some
            &&& persistence_complete((run.state->Ok_0)@, run.header->0, layout)
        },
{
}

/// Of the engine's keys a party takes over its own, privately, and certificates,
/// openly; a link only as a certificate hash that stays in the directory; and
/// nothing else.
pub proof fn lemma_only_the_own_key_is_taken(
    name: Seq<u8>,
    party: u16,
    kind: EntryKind,
    link_components: nat,
    link_name: Option<Seq<u8>>,
)
    ensures
        ({
            let choice = runtime_entry_choice(name, party, kind, link_components, link_name);
            let certificate = ends_with(name, text_bytes(".pem"@)) || ends_with(
                name,
                text_bytes(".0"@),
            );
            &&& choice == Some(RuntimeEntry::Private) ==> name == own_key_name(party)
            &&& choice == Some(RuntimeEntry::Public) ==> certificate && name != own_key_name(party)
            &&& (choice == Some(RuntimeEntry::Skip)) == (name != own_key_name(party) && !certificate)
            &&& name == own_key_name(party) && kind == EntryKind::File ==> choice == Some(
                RuntimeEntry::Private,
            )
            &&& kind == EntryKind::Symlink && choice != Some(RuntimeEntry::Skip) && choice is Some
                ==> ends_with(name, text_bytes(".0"@)) && link_components == 1
        }),
{
}

/// The items of one key, in their order.
pub open spec fn of_key<T>(items: Seq<(u16, T)>, key: u16) -> Seq<(u16, T)>
    decreases items.len(),
{
    if items.len() == 0 {
        Seq::empty()
    } else if items.last().0 == key {
        of_key(items.drop_last(), key).push(items.last())
    } else {
        of_key(items.drop_last(), key)
    }
}

proof fn lemma_inserted_of_key<T>(sorted: Seq<(u16, T)>, item: (u16, T), key: u16)
    ensures
        of_key(inserted(sorted, item), key) == (if item.0 == key {
            of_key(sorted, key).push(item)
        } else {
            of_key(sorted, key)
        }),
    decreases sorted.len(),
{
    if sorted.len() == 0 || sorted.last().0 <= item.0 {
        assert(sorted.push(item).drop_last() =~= sorted);
    } else {
        lemma_inserted_of_key(sorted.drop_last(), item, key);
        let rest = inserted(sorted.drop_last(), item);
        assert(rest.push(sorted.last()).drop_last() =~= rest);
    }
}

/// Sorting by party keeps what each party sent, in the order in which it came,
/// and puts the parties in ascending order.
pub proof fn lemma_sorting_keeps_each_party<T>(items: Seq<(u16, T)>, key: u16)
    ensures
        of_key(stable_sorted(items), key) == of_key(items, key),
        ascending(stable_sorted(items)),
        stable_sorted(items).len() == items.len(),
    decreases items.len(),
{
    lemma_stable_sorted(items);
    if items.len() > 0 {
        lemma_sorting_keeps_each_party(items.drop_last(), key);
        lemma_inserted_of_key(stable_sorted(items.drop_last()), items.last(), key);
    }
}

proof fn lemma_no_such_key<T>(items: Seq<(u16, T)>, key: u16)
    requires
        forall|i: int| 0 <= i < items.len() ==> (#[trigger] items[i]).0 != key,
    ensures
        of_key(items, key).len() == 0,
    decreases items.len(),
{
    if items.len() > 0 {
        assert(items[items.len() - 1].0 != key);
        assert forall|i: int| 0 <= i < items.drop_last().len() implies (
        #[trigger] items.drop_last()[i]).0 != key by {
            assert(items[i].0 != key);
        }
        lemma_no_such_key(items.drop_last(), key);
    }
}

/// Of what each party sent the first is kept, and nothing else.
pub proof fn lemma_first_of_each_party_is_kept<T>(items: Seq<(u16, T)>, key: u16)
    requires
        ascending(items),
    ensures
        of_key(items, key).len() == 0 ==> of_key(first_of_each(items), key).len() == 0,
        of_key(items, key).len() > 0 ==> of_key(first_of_each(items), key) == seq![
            of_key(items, key)[0],
        ],
    decreases items.len(),
{
    if items.len() == 1 {
        assert(items.drop_last().len() == 0);
        assert(of_key(items.drop_last(), key) =~= Seq::empty());
        assert(of_key(items, key).len() > 0 ==> of_key(items, key) =~= seq![of_key(items, key)[0]]);
    } else if items.len() > 1 {
        let front = items.drop_last();
        let last = items.last();
        assert(ascending(front)) by {
            assert forall|i: int, j: int| 0 <= i <= j < front.len() implies front[i].0
                <= front[j].0 by {
                assert(items[i].0 <= items[j].0);
            }
        }
        lemma_first_of_each_party_is_kept(front, key);
        if front.last().0 == last.0 {
            if last.0 == key {
                assert(of_key(front, key).len() > 0);
                assert(of_key(items, key)[0] == of_key(front, key)[0]);
            }
        } else {
            let kept = first_of_each(front);
            assert(kept.push(last).drop_last() =~= kept);
            if last.0 == key {
                assert forall|i: int| 0 <= i < front.len() implies (#[trigger] front[i]).0
                    != key by {
                    assert(items[i].0 <= items[front.len() - 1].0);
                    assert(items[front.len() - 1].0 <= items[items.len() - 1].0);
                }
                lemma_no_such_key(front, key);
                assert(of_key(kept, key) =~= Seq::empty());
                assert(of_key(front, key) =~= Seq::empty());
                assert(of_key(first_of_each(items), key) =~= seq![last]);
                assert(of_key(items, key) =~= seq![last]);
            }
        }
    }
}

proof fn lemma_present_parts<T>(a: Seq<Option<T>>, b: Seq<Option<T>>, count: nat)
    requires
        count <= b.len(),
    ensures
        present(a + b, (a.len() + count) as nat) == present(a, a.len()) + present(b, count),
    decreases count,
{
    if count == 0 {
        lemma_present_prefix(a, b, a.len());
        assert(present(a, a.len()) + present(b, 0) =~= present(a, a.len()));
    } else {
        lemma_present_parts(a, b, (count - 1) as nat);
        assert((a + b)[a.len() + count - 1] == b[count - 1]);
        assert(present(a + b, (a.len() + count) as nat) =~= present(a, a.len()) + present(
            b,
            count,
        ));
    }
}

proof fn lemma_present_prefix<T>(a: Seq<Option<T>>, b: Seq<Option<T>>, count: nat)
    requires
        count <= a.len(),
    ensures
        present(a + b, count) == present(a, count),
    decreases count,
{
    if count > 0 {
        lemma_present_prefix(a, b, (count - 1) as nat);
        assert((a + b)[count - 1] == a[count - 1]);
    }
}

/// The replies that came are kept, in their order, and the others left out.
pub proof fn lemma_replies_that_came_are_kept<T>(a: Seq<Option<T>>, b: Seq<Option<T>>, value: T)
    ensures
        present(a + b, (a + b).len()) == present(a, a.len()) + present(b, b.len()),
        present(seq![Some(value)], 1) == seq![value],
        present(seq![None::<T>], 1) == Seq::<T>::empty(),
        present(Seq::<Option<T>>::empty(), 0) == Seq::<T>::empty(),
{
    lemma_present_parts(a, b, b.len());
    assert((a + b).len() == a.len() + b.len());
    reveal_with_fuel(present, 2);
    assert(present(seq![Some(value)], 1) =~= seq![value]);
}

/// A certificate's votes are those that came: each node's in the order in which
/// they came, and the nodes in ascending order.
pub proof fn lemma_votes_are_those_that_came<V>(replies: Seq<Option<(u16, V)>>, node: u16)
    ensures
        of_key(votes_in_order(replies), node) == of_key(present(replies, replies.len()), node),
        votes_in_order(replies).len() == present(replies, replies.len()).len(),
        ascending(votes_in_order(replies)),
{
    lemma_sorting_keeps_each_party(present(replies, replies.len()), node);
}

/// Of each party that released anything exactly its first release counts, and
/// releases suffice exactly where as many parties as the cluster asks for, and
/// three at least, released.
pub proof fn lemma_each_party_counts_once<T>(
    cluster: &ClusterPublicConfig,
    replies: Seq<Option<(u16, T)>>,
    party: u16,
)
    ensures
        ({
            let came = of_key(present(replies, replies.len()), party);
            let counted = of_key(releases_in_order(replies), party);
            &&& came.len() == 0 ==> counted.len() == 0
            &&& came.len() > 0 ==> counted == seq![came[0]]
        }),
        releases_suffice(cluster, replies) == (releases_in_order(replies).len()
            >= cluster.settlement_release_threshold && releases_in_order(replies).len() >= 3),
{
    let all = present(replies, replies.len());
    lemma_sorting_keeps_each_party(all, party);
    lemma_first_of_each_party_is_kept(stable_sorted(all), party);
}

/// An agreed round has one receipt of each node, in their order, each valid under
/// the key that is pinned for it; all tell of the same slots, the same rest, the
/// same output and the same code.
pub proof fn lemma_agreed_round_is_unanimous(
    cluster: &ClusterPublicConfig,
    plan: &RoundPlan,
    receipts: Seq<NodeExecutionReceipt>,
    program: Seq<u8>,
    match_slots: u16,
    i: int,
    j: int,
)
    requires
        round_agreed(cluster, plan, receipts, program, match_slots),
        0 <= i < receipts.len() <= 7,
        0 <= j < receipts.len(),
    ensures
        receipts.len() == cluster.nodes@.len(),
        receipts[i].party == i,
        ed25519_key_decodes(cluster.nodes@[i].receipt_verifying_key@),
        ed25519_accepts(
            cluster.nodes@[i].receipt_verifying_key@,
            receipts[i].signed_bytes(),
            receipts[i].signature@,
        ),
        receipts[i].signer@ == cluster.nodes@[i].receipt_verifying_key@,
        receipts[i].round_id@ == plan.round_id@,
        receipts[i].program_sha256@ == program,
        receipts[i].result.slots@.len() == match_slots,
        receipts[i].result.slots@ == receipts[j].result.slots@,
        receipts[i].result.arriving_remaining == receipts[j].result.arriving_remaining,
        receipts[i].public_output_sha256 == receipts[j].public_output_sha256,
        receipts[i].artifact_sha256 == receipts[j].artifact_sha256,
{
    assert(crate::edge_client::receipt_stands(cluster, plan, receipts, program, match_slots, i));
    assert(crate::edge_client::same_outcome(&receipts[i], &receipts[0]));
    assert(crate::edge_client::same_outcome(&receipts[j], &receipts[0]));
    assert(receipts[i].result@.slots == receipts[0].result@.slots);
    assert(receipts[j].result@.slots == receipts[0].result@.slots);
    assert(receipts[i].result@.arriving_remaining == receipts[0].result@.arriving_remaining);
    assert(receipts[j].result@.arriving_remaining == receipts[0].result@.arriving_remaining);
}

/// The edge asks for an order's key shares only after an agreed round of a living
/// certified plan: of a resting order only where its own slot traded, of the
/// arriving order only where any slot traded or something is left of it.
pub proof fn lemma_release_is_asked_for_a_trade(
    cluster: &ClusterPublicConfig,
    plan: &RoundPlan,
    quorum: Result<(), String>,
    execution: &AgreedRoundExecution,
    manifest: &EdgeOrderManifest,
    manifest_valid: bool,
    order: OrderCommitment,
    program: Seq<u8>,
    now: u64,
    match_slots: u16,
)
    requires
        release_requestable(
            cluster,
            plan,
            quorum,
            execution,
            manifest,
            manifest_valid,
            order,
            program,
            now,
            match_slots,
        ),
    ensures
        manifest_valid,
        manifest.commitment == order,
        plan.market_id@ == manifest.market_id@,
        quorum is Ok,
        plan.valid_at(now, match_slots),
        round_agreed(cluster, plan, execution.receipts@, program, match_slots),
        execution.result.slots@ == execution.receipts@[0].result.slots@,
        order == plan.arriving || plan.resting@.contains(order),
        forall|i: int|
            0 <= i < plan.resting@.len() && (#[trigger] plan.resting@[i]) == order ==> i
                < execution.result.slots@.len() && execution.result.slots@[i].matched,
        order == plan.arriving ==> execution.result.arriving_remaining > 0 || exists|i: int|
            0 <= i < execution.result.slots@.len() && (
            #[trigger] execution.result.slots@[i]).matched,
{
    crate::store_effects::lemma_release_follows_the_own_slot(plan, execution.result@);
    assert(execution.result@.slots == execution.receipts@[0].result@.slots);
    assert(execution.result@.slots == execution.result.slots@);
    if order == plan.arriving {
        assert(!plan.resting@.contains(order));
        assert forall|i: int| 0 <= i < plan.resting@.len() implies (#[trigger] plan.resting@[i])
            != order by {}
    }
}

/// What may be asked of the nodes: a round of a living plan with a standing
/// quorum in the cluster's own market; a place that is behind the previous one in
/// the same market, for another order and while the order lives; a finality of
/// the very output that all nodes signed.
pub proof fn lemma_what_the_nodes_may_be_asked(
    cluster: &ClusterPublicConfig,
    plan: &RoundPlan,
    quorum: Result<(), String>,
    now: Option<u64>,
    timeout_nanos: u128,
    match_slots: u16,
    previous: Option<&OrderCertificate>,
    commitment: OrderCommitment,
    expires_at: u64,
    execution: &AgreedRoundExecution,
    finality: &PrivateStateFinality,
)
    ensures
        round_requestable(cluster, plan, quorum, now, timeout_nanos, match_slots) == {
            &&& 0 < timeout_nanos <= 600_000_000_000
            &&& cluster.fault is None
            &&& now is Some
            &&& plan.valid_at(now->0, match_slots)
            &&& quorum is Ok
            &&& plan.market_id@ == cluster.market_id@
        },
        order_requestable(cluster, previous, commitment, expires_at, now, timeout_nanos) == {
            &&& 0 < timeout_nanos <= 120_000_000_000
            &&& cluster.fault is None
            &&& now is Some
            &&& now->0 <= expires_at
            &&& previous matches Some(last) ==> {
                &&& last.market_id@ == cluster.market_id@
                &&& last.commitment != commitment
                &&& last.sequence < u64::MAX
            }
        },
        finality_requestable(cluster, execution, finality, timeout_nanos) == {
            &&& 0 < timeout_nanos <= 120_000_000_000
            &&& execution.receipts@.len() == cluster.nodes@.len()
            &&& execution.receipts@.len() > 0
            &&& finality.public_output_sha256 == execution.receipts@[0].public_output_sha256
        },
{
}

/// An order is admitted only by all seven nodes: each with a valid receipt of its
/// own party, for the very ciphertexts and the generation that are listed for it,
/// in the cluster's market, under the digest of it all.
pub proof fn lemma_admission_needs_all_seven(
    receipt: &EdgeAdmissionReceipt,
    cluster: &ClusterPublicConfig,
    manifest_valid: bool,
    receipts_valid: Seq<bool>,
    party: int,
)
    requires
        receipt.admitted(cluster, manifest_valid, receipts_valid),
        cluster.nodes@.len() == 7,
        0 <= party < 7,
    ensures
        manifest_valid,
        receipt.version == 2,
        receipt.manifest.market_id@ == cluster.market_id@,
        receipt.node_receipts@.len() == 7,
        receipt.receipt_digest@ == sha256(receipt.digest_bytes()),
        receipts_valid[party],
        ed25519_key_decodes(cluster.nodes@[party].receipt_verifying_key@),
        receipt.node_receipts@[party].party == party,
        receipt.node_receipts@[party].order_share_digest == receipt.order_share_digests@[party],
        receipt.node_receipts@[party].capability_key_share_digest
            == receipt.capability_key_share_digests@[party],
        receipt.node_receipts@[party].generation == receipt.node_generations@[party],
        receipt.node_generations@[party] > 0,
        !is_zero(receipt.order_share_digests@[party]@),
        !is_zero(receipt.capability_key_share_digests@[party]@),
{
    assert(receipt.node_stands(cluster, receipts_valid, party));
}

/// A delivery goes out only where each of its seven parts is for the node at its
/// place: sealed to that node's key, for that party and for this order.
pub proof fn lemma_each_part_is_for_its_node(
    delivery: &PreparedEdgeDelivery,
    cluster: &ClusterPublicConfig,
    manifest_valid: bool,
    i: int,
)
    requires
        delivery.valid_for(cluster, manifest_valid),
        cluster.nodes@.len() == 7,
        0 <= i < 7,
    ensures
        manifest_valid,
        cluster.fault is None,
        delivery.manifest.market_id@ == cluster.market_id@,
        delivery.deliveries@.len() == 7,
        delivery.deliveries@[i].party == cluster.nodes@[i].party,
        delivery.deliveries@[i].share.party == cluster.nodes@[i].party,
        delivery.deliveries@[i].key.party == cluster.nodes@[i].party,
        delivery.deliveries@[i].share.commitment == delivery.manifest.commitment,
        delivery.deliveries@[i].key.order_commitment == delivery.manifest.commitment,
        delivery.deliveries@[i].key.capability_commitment
            == delivery.manifest.settlement_capability_commitment,
        delivery.deliveries@[i].share.recipient@ == cluster.nodes@[i].share_encryption_key@,
        delivery.deliveries@[i].key.recipient@ == cluster.nodes@[i].share_encryption_key@,
{
    assert(delivery.addressed(cluster, i));
}

proof fn lemma_reply_for_its_party(replies: Seq<NodeReply>, at: int, count: nat)
    requires
        0 <= at < count <= replies.len(),
        forall|i: int| 0 <= i < replies.len() ==> (#[trigger] replies[i]).party == i,
    ensures
        reply_for(replies, at, count) == Some(replies[at]),
    decreases count,
{
    assert(replies[count - 1].party == count - 1);
    if at < count - 1 {
        lemma_reply_for_its_party(replies, at, (count - 1) as nat);
    }
}

/// A complete fan-out lists for each party what that party was sent and the
/// generation that it acknowledged.
pub proof fn lemma_fan_out_lists_what_was_sent(
    distributor: &EdgeDistributor,
    receipt: &EdgeAdmissionReceipt,
    delivery: &PreparedEdgeDelivery,
    acknowledged: Seq<NodeAdmissionReceipt>,
    manifest_valid: bool,
    receipts_valid: Seq<bool>,
    party: int,
)
    requires
        distributor.fan_out_receipt(
            receipt,
            delivery,
            acknowledged,
            manifest_valid,
            receipts_valid,
        ),
        fan_out_complete(&distributor.cluster, delivery, acknowledged.len()),
        0 <= party < 7,
    ensures
        receipt.manifest@ == delivery.manifest@,
        receipt.node_receipts@.len() == 7,
        receipt.node_receipts@[party].party == party,
        receipt.node_generations@[party] == acknowledged[party].generation,
        receipt.order_share_digests@[party] == delivery.deliveries@[party].share_digest,
        receipt.capability_key_share_digests@[party] == delivery.deliveries@[party].key_digest,
        receipt.admitted(&distributor.cluster, manifest_valid, receipts_valid),
{
    let replies = sent_replies(delivery, acknowledged);
    assert forall|i: int| 0 <= i < replies.len() implies (#[trigger] replies[i]).party == i by {
        assert(delivery.deliveries@[i].party == i);
    }
    lemma_reply_for_its_party(replies, party, replies.len());
    assert(crate::edge_client::told_by(
        reply_for(replies, party, replies.len()),
        receipt.node_generations@[party],
        receipt.order_share_digests@[party],
        receipt.capability_key_share_digests@[party],
    ));
}

} // verus!
