//! What each operation does to a node's share store, told by what was there
//! before, what was handed in and what is there afterwards.

use crate::bytes::{is_zero, sha256, text_bytes, Digest32};
use crate::executor::{ReceiptView, RoundPlan};
use crate::store_model::{
    joined, release_permitted, round_key, IngestOutcome, NodeFault, PrivateStateFinality,
    PrivateStateView, RestingView, StoreView,
};
use crate::types::{
    lemma_commitment_key_injective, BatchView, ManifestView, OrderCertificate, OrderCommitment,
    SealedCapabilityView, SealedShareView,
};
use vstd::prelude::*;

verus! {

/// Nothing but the private heads, the finalized rounds and the generation of two
/// states differs.
pub open spec fn same_but_heads(a: StoreView, b: StoreView) -> bool {
    &&& a.version == b.version
    &&& a.party == b.party
    &&& a.records == b.records
    &&& a.completed_rounds == b.completed_rounds
    &&& a.ordering_sequence == b.ordering_sequence
    &&& a.ordering_head == b.ordering_head
    &&& a.ordering_votes == b.ordering_votes
    &&& a.ordered_commitments == b.ordered_commitments
}

proof fn lemma_advanced_head_at(
    store: StoreView,
    resting: Seq<OrderCommitment>,
    receipt: ReceiptView,
    finality: PrivateStateFinality,
    count: nat,
    at: int,
)
    requires
        count <= resting.len() <= 16384,
        resting.no_duplicates(),
        0 <= at < count,
    ensures
        ({
            let heads = store.advanced_heads(resting, receipt, finality, count);
            &&& heads.dom().contains(resting[at].key())
            &&& heads[resting[at].key()].round_id == finality.round_id
            &&& heads[resting[at].key()].private_state_sha256 == receipt.private_state_sha256
            &&& heads[resting[at].key()].wire_offset == 4 * at
            &&& heads[resting[at].key()].transition_digest == finality.transition_digest
            &&& heads[resting[at].key()].canonical_receipt_digest
                == finality.canonical_receipt_digest
            &&& heads[resting[at].key()].canonical_height == finality.canonical_height
        }),
    decreases count,
{
    let slot = (count - 1) as nat;
    if at < slot {
        lemma_advanced_head_at(store, resting, receipt, finality, slot, at);
        lemma_commitment_key_injective(resting[at], resting[slot as int]);
    }
}

proof fn lemma_other_head_stays(
    store: StoreView,
    resting: Seq<OrderCommitment>,
    receipt: ReceiptView,
    finality: PrivateStateFinality,
    count: nat,
    key: Seq<char>,
)
    requires
        count <= resting.len(),
        forall|i: int| 0 <= i < count ==> (#[trigger] resting[i]).key() != key,
    ensures
        ({
            let heads = store.advanced_heads(resting, receipt, finality, count);
            &&& heads.dom().contains(key) == store.private_heads.dom().contains(key)
            &&& store.private_heads.dom().contains(key) ==> heads[key] == store.private_heads[key]
        }),
    decreases count,
{
    if count > 0 {
        lemma_other_head_stays(store, resting, receipt, finality, (count - 1) as nat, key);
        assert(resting[count - 1].key() != key);
    }
}

/// Finalizing a round moves every order of it: the resting order at place `i`
/// has its shares in this round's private state at field `4 * i`, whatever head
/// it had before; the arriving order, where something is left of it, has them
/// behind the last slot, and has no head where nothing is left. The heads of all
/// other orders stay as they are, and so does everything else but the mark that
/// the round is final and the generation, which moves by one.
pub proof fn lemma_finalization_moves_every_order(
    store: StoreView,
    plan: &RoundPlan,
    finality: PrivateStateFinality,
    file: PrivateStateView,
    match_slots: u16,
)
    requires
        store.finalize_private_round(plan, finality, file, match_slots).1 is Ok,
        !store.finalized_private_rounds.dom().contains(round_key(plan.round_id)),
        plan.resting@.no_duplicates(),
        !plan.resting@.contains(plan.arriving),
    ensures
        ({
            let next = store.finalize_private_round(plan, finality, file, match_slots).0;
            let heads = next.private_heads;
            let receipt = store.completed_rounds[round_key(plan.round_id)];
            let own = plan.arriving.key();
            &&& forall|i: int|
                0 <= i < plan.resting@.len() ==> {
                    let key = (#[trigger] plan.resting@[i]).key();
                    &&& heads.dom().contains(key)
                    &&& heads[key].round_id == plan.round_id
                    &&& heads[key].private_state_sha256 == receipt.private_state_sha256
                    &&& heads[key].wire_offset == 4 * i
                    &&& heads[key].transition_digest == finality.transition_digest
                    &&& heads[key].canonical_receipt_digest == finality.canonical_receipt_digest
                    &&& heads[key].canonical_height == finality.canonical_height
                }
            &&& heads.dom().contains(own) == (receipt.result.arriving_remaining > 0)
            &&& heads.dom().contains(own) ==> {
                &&& heads[own].round_id == plan.round_id
                &&& heads[own].private_state_sha256 == receipt.private_state_sha256
                &&& heads[own].wire_offset == 4 * match_slots
                &&& heads[own].transition_digest == finality.transition_digest
                &&& heads[own].canonical_receipt_digest == finality.canonical_receipt_digest
                &&& heads[own].canonical_height == finality.canonical_height
            }
            &&& forall|key: Seq<char>|
                key != own && (forall|i: int|
                    0 <= i < plan.resting@.len() ==> (#[trigger] plan.resting@[i]).key() != key)
                    ==> (#[trigger] heads.dom().contains(key)) == store.private_heads.dom().contains(
                    key,
                ) && (heads.dom().contains(key) ==> heads[key] == store.private_heads[key])
            &&& next.finalized_private_rounds.dom() == store.finalized_private_rounds.dom().insert(
                round_key(plan.round_id),
            )
            &&& forall|key: Seq<char>| #[trigger]
                store.finalized_private_rounds.dom().contains(key)
                    ==> next.finalized_private_rounds[key] == store.finalized_private_rounds[key]
            &&& ({
                let kept = next.finalized_private_rounds[round_key(plan.round_id)];
                &&& kept.public_output_sha256 == receipt.public_output_sha256
                &&& kept.transition_digest == finality.transition_digest
                &&& kept.canonical_receipt_digest == finality.canonical_receipt_digest
                &&& kept.canonical_height == finality.canonical_height
            })
            &&& same_but_heads(next, store)
            &&& next.generation == store.generation + 1
        }),
{
    let next = store.finalize_private_round(plan, finality, file, match_slots).0;
    let heads = next.private_heads;
    let resting = plan.resting@;
    let receipt = store.completed_rounds[round_key(plan.round_id)];
    let own = plan.arriving.key();
    assert forall|i: int| 0 <= i < resting.len() implies {
        let key = (#[trigger] resting[i]).key();
        &&& heads.dom().contains(key)
        &&& heads[key].round_id == plan.round_id
        &&& heads[key].private_state_sha256 == receipt.private_state_sha256
        &&& heads[key].wire_offset == 4 * i
        &&& heads[key].transition_digest == finality.transition_digest
        &&& heads[key].canonical_receipt_digest == finality.canonical_receipt_digest
        &&& heads[key].canonical_height == finality.canonical_height
    } by {
        lemma_advanced_head_at(store, resting, receipt, finality, resting.len(), i);
        lemma_commitment_key_injective(resting[i], plan.arriving);
    }
    assert forall|key: Seq<char>|
        key != own && (forall|i: int|
            0 <= i < resting.len() ==> (#[trigger] resting[i]).key() != key) implies (
    #[trigger] heads.dom().contains(key)) == store.private_heads.dom().contains(key) && (
    heads.dom().contains(key) ==> heads[key] == store.private_heads[key]) by {
        lemma_other_head_stays(store, resting, receipt, finality, resting.len(), key);
    }
    assert(next.finalized_private_rounds.dom() =~= store.finalized_private_rounds.dom().insert(
        round_key(plan.round_id),
    ));
}

/// A round that a node has executed, and whose private state file is there, can
/// be finalized: with a complete finality of its own output, while none of its
/// orders has moved since it was executed.
pub proof fn lemma_executed_round_can_be_finalized(
    store: StoreView,
    plan: &RoundPlan,
    finality: PrivateStateFinality,
    regular: bool,
    length: u64,
    bytes: Seq<u8>,
    shares: Seq<Result<Seq<char>, Seq<char>>>,
    match_slots: u16,
)
    requires
        store.completed_rounds.dom().contains(round_key(plan.round_id)),
        !store.finalized_private_rounds.dom().contains(round_key(plan.round_id)),
        finality.round_id == plan.round_id,
        !is_zero(finality.round_id@),
        !is_zero(finality.public_output_sha256@),
        !is_zero(finality.transition_digest@),
        !is_zero(finality.canonical_receipt_digest@),
        finality.canonical_height > 0,
        finality.public_output_sha256 == store.completed_rounds[round_key(
            plan.round_id,
        )].public_output_sha256,
        store.completed_rounds[round_key(plan.round_id)].private_parent_digest@ == sha256(
            store.parent_bytes(plan.resting@, plan.arriving),
        ),
        regular && 0 < length <= 16777216,
        sha256(bytes) == store.completed_rounds[round_key(plan.round_id)].private_state_sha256@,
        shares.len() == 4 * match_slots + 4,
        plan.resting@.len() <= match_slots,
        4 * match_slots <= 65535,
        store.generation < u64::MAX,
    ensures
        store.finalize_private_round(
            plan,
            finality,
            PrivateStateView::Present { regular, length, bytes, shares: Ok(shares) },
            match_slots,
        ).1 == Ok::<u64, NodeFault>((store.generation + 1) as u64),
{
}

/// A round is final only with a complete finality, the private state file that
/// its receipt names, and the parents that it was executed on.
pub proof fn lemma_finality_needs_its_private_state(
    store: StoreView,
    plan: &RoundPlan,
    finality: PrivateStateFinality,
    file: PrivateStateView,
    match_slots: u16,
)
    requires
        store.finalize_private_round(plan, finality, file, match_slots).1 is Ok,
        !store.finalized_private_rounds.dom().contains(round_key(plan.round_id)),
    ensures
        ({
            let receipt = store.completed_rounds[round_key(plan.round_id)];
            &&& !is_zero(finality.round_id@)
            &&& !is_zero(finality.public_output_sha256@)
            &&& !is_zero(finality.transition_digest@)
            &&& !is_zero(finality.canonical_receipt_digest@)
            &&& finality.canonical_height > 0
            &&& receipt.private_parent_digest@ == sha256(
                store.parent_bytes(plan.resting@, plan.arriving),
            )
            &&& file matches PrivateStateView::Present { regular, length, bytes, shares } && {
                &&& regular
                &&& 0 < length <= 16777216
                &&& sha256(bytes) == receipt.private_state_sha256@
                &&& shares matches Ok(list) && list.len() == 4 * match_slots + 4
            }
        }),
{
}

/// Which orders' key shares a completed round lets out: of the resting orders
/// exactly those whose own slot traded, the arriving order where any slot traded
/// or something is left of it, and no order that was not part of the round.
pub proof fn lemma_release_follows_the_own_slot(plan: &RoundPlan, result: BatchView)
    requires
        plan.resting@.no_duplicates(),
        !plan.resting@.contains(plan.arriving),
    ensures
        forall|i: int|
            0 <= i < plan.resting@.len() ==> release_permitted(
                plan,
                result,
                #[trigger] plan.resting@[i],
            ) == (i < result.slots.len() && result.slots[i].matched),
        release_permitted(plan, result, plan.arriving) == (result.arriving_remaining > 0
            || exists|i: int|
            0 <= i < result.slots.len() && (#[trigger] result.slots[i]).matched),
        forall|order: OrderCommitment|
            order != plan.arriving && !plan.resting@.contains(order) ==> !(
            #[trigger] release_permitted(plan, result, order)),
{
    let resting = plan.resting@;
    assert forall|i: int| 0 <= i < resting.len() implies release_permitted(
        plan,
        result,
        #[trigger] resting[i],
    ) == (i < result.slots.len() && result.slots[i].matched) by {
        assert(resting[i] != plan.arriving);
        if i < result.slots.len() && result.slots[i].matched {
            assert forall|j: int| 0 <= j < i implies resting[j] != resting[i] by {}
        }
    }
}

/// A node lets a key share out exactly where the round is complete on this node,
/// its result lets the order out, and the node holds a share of the order that
/// opens.
pub proof fn lemma_release_needs_all(
    store: StoreView,
    plan: &RoundPlan,
    order: OrderCommitment,
    opens: Result<(), Seq<char>>,
)
    ensures
        store.release_fault(plan, order, opens) is None == {
            &&& store.completed_rounds.dom().contains(round_key(plan.round_id))
            &&& release_permitted(
                plan,
                store.completed_rounds[round_key(plan.round_id)].result,
                order,
            )
            &&& store.records.dom().contains(order.key())
            &&& store.records[order.key()].sealed_capability_key_share is Some
            &&& opens is Ok
        },
{
}

/// Admitting an order files it under its commitment, with the manifest, the two
/// ciphertexts and the time that were handed in, and moves the generation by
/// one; everything else stays. A share that does not open is never filed.
pub proof fn lemma_ingest_files_the_order(
    store: StoreView,
    manifest: ManifestView,
    sealed: SealedShareView,
    capability: SealedCapabilityView,
    share_opens: Result<(), Seq<char>>,
    capability_opens: Result<(), Seq<char>>,
    now: u64,
)
    ensures
        ({
            let key = manifest.commitment.key();
            let known = store.records.dom().contains(key);
            let (next, outcome) = store.ingest(
                manifest,
                sealed,
                capability,
                share_opens,
                capability_opens,
                now,
            );
            &&& share_opens is Ok && capability_opens is Ok && !known && store.generation
                < u64::MAX ==> {
                &&& outcome == Ok::<IngestOutcome, NodeFault>(
                    IngestOutcome::Stored { generation: (store.generation + 1) as u64 },
                )
                &&& next.generation == store.generation + 1
                &&& next.records.dom() == store.records.dom().insert(key)
                &&& next.records[key].manifest == manifest
                &&& next.records[key].sealed == sealed
                &&& next.records[key].sealed_capability_key_share == Some(capability)
                &&& next.records[key].admitted_at == now
                &&& forall|other: Seq<char>| #[trigger]
                    store.records.dom().contains(other) ==> next.records[other]
                        == store.records[other]
                &&& next == (StoreView {
                    records: next.records,
                    generation: next.generation,
                    ..store
                })
            }
            &&& share_opens is Err || capability_opens is Err || known ==> next == store
            &&& outcome is Ok ==> {
                &&& share_opens is Ok
                &&& capability_opens is Ok
                &&& next.records.dom().contains(key)
                &&& next.records[key].manifest == manifest
                &&& next.records[key].sealed == sealed
                &&& next.records[key].sealed_capability_key_share == Some(capability)
            }
        }),
{
    let next = store.ingest(
        manifest,
        sealed,
        capability,
        share_opens,
        capability_opens,
        now,
    ).0;
    let key = manifest.commitment.key();
    if next != store {
        assert(next.records.dom() =~= store.records.dom().insert(key));
    }
}

/// A vote is given only for an admitted order of the same market that has no
/// place yet, for the place right behind the node's chain head, and for no longer
/// than the order is kept. What was voted for stands in the store afterwards, and
/// everything but that and the generation stays.
pub proof fn lemma_vote_extends_the_chain(
    store: StoreView,
    market_id: Seq<char>,
    sequence: u64,
    commitment: OrderCommitment,
    previous: Digest32,
    expires_at: u64,
    statement: Digest32,
    now: u64,
)
    ensures
        ({
            let (next, outcome) = store.record_order_vote(
                market_id,
                sequence,
                commitment,
                previous,
                expires_at,
                statement,
                now,
            );
            let key = commitment.key();
            let extends = {
                &&& store.records.dom().contains(key)
                &&& store.records[key].manifest.market_id == market_id
                &&& 0 < market_id.len() && text_bytes(market_id).len() <= 64
                &&& sequence == store.ordering_sequence + 1
                &&& previous == store.ordering_head
                &&& now <= expires_at <= store.records[key].manifest.retention_deadline
                &&& !store.ordered_commitments.contains(key)
            };
            let held = store.ordering_votes.dom().contains(sequence);
            let same = held && store.ordering_votes[sequence].statement_digest == statement;
            let live = held && now <= store.ordering_votes[sequence].expires_at;
            &&& outcome is Ok == (extends && (same || (!live && store.generation < u64::MAX)))
            &&& outcome is Ok ==> {
                &&& outcome->Ok_0 == statement
                &&& next.ordering_votes.dom().contains(sequence)
                &&& next.ordering_votes[sequence].statement_digest == statement
                &&& !same ==> next.ordering_votes[sequence].expires_at == expires_at
                    && next.generation == store.generation + 1
                &&& forall|other: u64|
                    other != sequence ==> (#[trigger] next.ordering_votes.dom().contains(other))
                        == store.ordering_votes.dom().contains(other)
            }
            &&& outcome is Err || same ==> next == store
            &&& next == (StoreView {
                ordering_votes: next.ordering_votes,
                generation: next.generation,
                ..store
            })
        }),
{
}

/// A certificate is accepted exactly where its quorum stands and it either is the
/// head already, or extends the chain by an admitted order of the same market
/// that has no place yet, against no live vote of this node for something else.
/// It then is the head, its order has its place, and the vote for that place is
/// done with.
pub proof fn lemma_certificate_extends_the_chain(
    store: StoreView,
    certificate: &OrderCertificate,
    quorum: Result<(), Seq<char>>,
    statement: Digest32,
    now: u64,
)
    ensures
        ({
            let (next, outcome) = store.accept_order_certificate(
                certificate,
                quorum,
                statement,
                now,
            );
            let key = certificate.commitment.key();
            let place = certificate.sequence;
            let head = place == store.ordering_sequence && certificate.digest
                == store.ordering_head && store.ordered_commitments.contains(key);
            let extends = {
                &&& place == store.ordering_sequence + 1
                &&& certificate.previous_certificate == store.ordering_head
                &&& store.records.dom().contains(key)
                &&& store.records[key].manifest.market_id == certificate.market_id@
                &&& certificate.expires_at <= store.records[key].manifest.retention_deadline
                &&& !store.ordered_commitments.contains(key)
                &&& store.ordering_votes.dom().contains(place) ==> store.ordering_votes[place].statement_digest
                    == statement || store.ordering_votes[place].expires_at < now
                &&& store.generation < u64::MAX
            };
            &&& outcome is Ok == (quorum is Ok && (head || extends))
            &&& outcome is Ok && extends ==> {
                &&& outcome->Ok_0 == store.generation + 1
                &&& next.generation == store.generation + 1
                &&& next.ordering_sequence == store.ordering_sequence + 1
                &&& next.ordering_head == certificate.digest
                &&& next.ordered_commitments.contains(key)
                &&& forall|other: Seq<char>|
                    other != key ==> (#[trigger] next.ordered_commitments.contains(other))
                        == store.ordered_commitments.contains(other)
                &&& !next.ordering_votes.dom().contains(place)
                &&& forall|other: u64|
                    other != place ==> (#[trigger] next.ordering_votes.dom().contains(other))
                        == store.ordering_votes.dom().contains(other)
            }
            &&& outcome is Err || head ==> next == store
            &&& next == (StoreView {
                ordering_sequence: next.ordering_sequence,
                ordering_head: next.ordering_head,
                ordering_votes: next.ordering_votes,
                ordered_commitments: next.ordered_commitments,
                generation: next.generation,
                ..store
            })
        }),
{
}

/// A receipt is kept under its round exactly where it is a complete result of
/// this node's own party and no other receipt of the round is there; everything
/// else stays.
pub proof fn lemma_completed_round_is_kept(
    store: StoreView,
    receipt: ReceiptView,
    match_slots: u16,
)
    ensures
        ({
            let (next, outcome) = store.record_completed_round(receipt, match_slots);
            let key = round_key(receipt.round_id);
            let known = store.completed_rounds.dom().contains(key);
            let own = {
                &&& receipt.party == store.party
                &&& receipt.result.slots.len() == match_slots
                &&& receipt.public_output_sha256 == receipt.result.output_digest
                &&& receipt.signature.len() == 64
                &&& !is_zero(receipt.round_id@)
                &&& !is_zero(receipt.round_commitment@)
                &&& !is_zero(receipt.program_sha256@)
                &&& !is_zero(receipt.artifact_sha256@)
                &&& !is_zero(receipt.private_parent_digest@)
                &&& !is_zero(receipt.private_state_sha256@)
                &&& !is_zero(receipt.signer@)
            };
            &&& outcome is Ok == (own && (if known {
                store.completed_rounds[key] == receipt
            } else {
                store.generation < u64::MAX
            }))
            &&& outcome is Ok ==> next.completed_rounds.dom().contains(key)
                && next.completed_rounds[key] == receipt
            &&& outcome is Ok && !known ==> next.generation == store.generation + 1
            &&& known || !own ==> next == store
            &&& forall|other: Seq<char>|
                other != key ==> (#[trigger] next.completed_rounds.dom().contains(other))
                    == store.completed_rounds.dom().contains(other) && (
                store.completed_rounds.dom().contains(other) ==> next.completed_rounds[other]
                    == store.completed_rounds[other])
            &&& next == (StoreView {
                completed_rounds: next.completed_rounds,
                generation: next.generation,
                ..store
            })
        }),
{
}

/// Removing an order drops its record and no other, and tells whether there was
/// one.
pub proof fn lemma_removal_drops_one_order(store: StoreView, commitment: OrderCommitment)
    ensures
        ({
            let (next, outcome) = store.remove_terminal(commitment);
            let known = store.records.dom().contains(commitment.key());
            &&& store.generation < u64::MAX ==> outcome == Ok::<bool, NodeFault>(known)
            &&& !next.records.dom().contains(commitment.key())
            &&& forall|other: Seq<char>|
                other != commitment.key() ==> (#[trigger] next.records.dom().contains(other))
                    == store.records.dom().contains(other) && (store.records.dom().contains(other)
                    ==> next.records[other] == store.records[other])
            &&& known && store.generation < u64::MAX ==> next.generation == store.generation + 1
            &&& !known ==> next == store
            &&& next == (StoreView { records: next.records, generation: next.generation, ..store })
        }),
{
    if !store.records.dom().contains(commitment.key()) {
        assert(store.records.remove(commitment.key()) =~= store.records);
    }
}

/// Pruning says how many records it drops: as many as the store then has fewer.
pub proof fn lemma_prune_counts_what_it_drops(store: StoreView, now: u64)
    requires
        store.records.dom().finite(),
        store.prune_expired(now).1 is Ok,
    ensures
        ({
            let (next, outcome) = store.prune_expired(now);
            &&& next.records.dom().finite()
            &&& outcome->Ok_0 + next.records.dom().len() == store.records.dom().len()
            &&& next.generation == store.generation + (if outcome->Ok_0 > 0 {
                1int
            } else {
                0int
            })
            &&& next == (StoreView { records: next.records, generation: next.generation, ..store })
        }),
{
    let expired = store.expired_keys(now);
    let next = store.prune_expired(now).0;
    assert(expired.subset_of(store.records.dom()));
    vstd::set_lib::lemma_len_subset(expired, store.records.dom());
    if expired.len() > 0 {
        assert(next.records.dom() =~= store.records.dom().difference(expired));
        vstd::set_lib::lemma_len_difference(store.records.dom(), expired);
        assert(next.records.dom().union(expired) =~= store.records.dom());
        assert(next.records.dom().disjoint(expired));
        vstd::set_lib::lemma_set_disjoint_lens(next.records.dom(), expired);
    }
}

proof fn lemma_slot_fields_at(
    store: StoreView,
    market_id: Seq<char>,
    resting: Seq<OrderCommitment>,
    at_hand: Seq<RestingView>,
    match_slots: u16,
    count: nat,
    slot: int,
)
    requires
        store.slot_fields(market_id, resting, at_hand, match_slots, count) is Ok,
        0 <= slot < count,
    ensures
        ({
            let fields = store.slot_fields(market_id, resting, at_hand, match_slots, count)->Ok_0;
            &&& fields.len() == 4 * count
            &&& slot < resting.len() ==> {
                let four = store.match_fields(
                    resting[slot],
                    market_id,
                    at_hand[slot].opened,
                    at_hand[slot].file,
                    match_slots,
                );
                &&& four is Ok
                &&& four->Ok_0.len() == 4
                &&& fields[4 * slot] == four->Ok_0[0]
                &&& fields[4 * slot + 1] == four->Ok_0[1]
                &&& fields[4 * slot + 2] == four->Ok_0[2]
                &&& fields[4 * slot + 3] == four->Ok_0[3]
            }
            &&& slot >= resting.len() ==> {
                &&& fields[4 * slot] == "0"@
                &&& fields[4 * slot + 1] == "0"@
                &&& fields[4 * slot + 2] == "0"@
                &&& fields[4 * slot + 3] == "0"@
            }
        }),
    decreases count,
{
    let last = count - 1;
    if slot < last {
        lemma_slot_fields_at(store, market_id, resting, at_hand, match_slots, last as nat, slot);
    } else if last > 0 {
        lemma_slot_fields_at(store, market_id, resting, at_hand, match_slots, last as nat, 0);
    }
}

/// What the matching engine is fed. The order at place `i` of the resting orders
/// stands in slot `i`: with the fields it was admitted with, marked as live,
/// while it has no private head, and else with the four shares at its head's
/// place in the file that the head names. A slot without an order holds zeros.
/// Behind the slots stand four fields of the arriving order.
pub proof fn lemma_frame_holds_what_is_left(
    store: StoreView,
    market_id: Seq<char>,
    resting: Seq<OrderCommitment>,
    at_hand: Seq<RestingView>,
    arriving: OrderCommitment,
    arriving_opened: Result<Seq<Seq<char>>, Seq<char>>,
    match_slots: u16,
    slot: int,
)
    requires
        store.round_fields(
            market_id,
            resting,
            at_hand,
            arriving,
            arriving_opened,
            match_slots,
        ) is Ok,
        0 <= slot < match_slots,
    ensures
        ({
            let fields = store.round_fields(
                market_id,
                resting,
                at_hand,
                arriving,
                arriving_opened,
                match_slots,
            )->Ok_0;
            let own = arriving_opened->Ok_0;
            &&& 0 < market_id.len() && text_bytes(market_id).len() <= 64
            &&& resting.len() <= match_slots
            &&& resting.no_duplicates()
            &&& !resting.contains(arriving)
            &&& fields.len() == 4 * match_slots + 4
            &&& store.records.dom().contains(arriving.key())
            &&& store.records[arriving.key()].manifest.market_id == market_id
            &&& arriving_opened is Ok
            &&& fields[4 * match_slots] == own[0]
            &&& fields[4 * match_slots + 1] == own[1]
            &&& fields[4 * match_slots + 2] == own[2]
            &&& fields[4 * match_slots + 3] == own[5]
            &&& slot >= resting.len() ==> {
                &&& fields[4 * slot] == "0"@
                &&& fields[4 * slot + 1] == "0"@
                &&& fields[4 * slot + 2] == "0"@
                &&& fields[4 * slot + 3] == "0"@
            }
            &&& slot < resting.len() ==> {
                let key = resting[slot].key();
                let opened = at_hand[slot].opened;
                let head = store.private_heads[key];
                let start = head.wire_offset as int;
                &&& store.records.dom().contains(key)
                &&& store.records[key].manifest.market_id == market_id
                &&& opened is Ok
                &&& !store.private_heads.dom().contains(key) ==> {
                    &&& fields[4 * slot] == "1"@
                    &&& fields[4 * slot + 1] == opened->Ok_0[0]
                    &&& fields[4 * slot + 2] == opened->Ok_0[1]
                    &&& fields[4 * slot + 3] == opened->Ok_0[2]
                }
                &&& store.private_heads.dom().contains(key) ==> {
                    &&& at_hand[slot].file matches PrivateStateView::Present {
                        regular,
                        length,
                        bytes,
                        shares,
                    } && {
                        &&& regular && 0 < length <= 16777216
                        &&& sha256(bytes) == head.private_state_sha256@
                        &&& shares matches Ok(list) && {
                            &&& list.len() == 4 * match_slots + 4
                            &&& start + 4 <= list.len()
                            &&& list[start] == Ok::<Seq<char>, Seq<char>>(fields[4 * slot])
                            &&& list[start + 1] == Ok::<Seq<char>, Seq<char>>(fields[4 * slot + 1])
                            &&& list[start + 2] == Ok::<Seq<char>, Seq<char>>(fields[4 * slot + 2])
                            &&& list[start + 3] == Ok::<Seq<char>, Seq<char>>(fields[4 * slot + 3])
                        }
                    }
                }
            }
        }),
{
    lemma_slot_fields_at(
        store,
        market_id,
        resting,
        at_hand,
        match_slots,
        match_slots as nat,
        slot,
    );
    if slot < resting.len() {
        let key = resting[slot].key();
        if store.private_heads.dom().contains(key) {
            let shares = at_hand[slot].file->Present_shares->Ok_0;
            let start = store.private_heads[key].wire_offset as int;
            reveal_with_fuel(StoreView::decode_fault, 5);
            assert(StoreView::decode_fault(shares, start, 4) is None);
            assert(StoreView::decode_fault(shares, start, 3) is None);
            assert(StoreView::decode_fault(shares, start, 2) is None);
            assert(StoreView::decode_fault(shares, start, 1) is None);
        }
    }
}

/// A line of fields is its parts with one space between them, wherever it is
/// cut: one field is its own text.
pub proof fn lemma_line_is_its_parts(a: Seq<Seq<char>>, b: Seq<Seq<char>>, field: Seq<char>)
    requires
        a.len() > 0,
        b.len() > 0,
    ensures
        joined(a + b) == joined(a) + seq![32u8] + joined(b),
        joined(seq![field]) == text_bytes(field),
    decreases b.len(),
{
    if b.len() == 1 {
        assert((a + b).drop_last() =~= a);
        assert((a + b).last() == b[0]);
    } else {
        lemma_line_is_its_parts(a, b.drop_last(), field);
        assert((a + b).drop_last() =~= a + b.drop_last());
        assert((a + b).last() == b.last());
        assert(joined(a + b) =~= joined(a) + seq![32u8] + joined(b));
    }
}

} // verus!
