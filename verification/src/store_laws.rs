//! What holds of a node's share store across its operations.

use crate::bytes::{is_zero, Digest32};
use crate::executor::{ReceiptView, RoundPlan};
use crate::store_model::{
    round_key, IngestOutcome, NodeFault, PrivateStateFinality, PrivateStateView, RestingView,
    StoreView,
};
use crate::types::{
    ManifestView, OrderCertificate, OrderCommitment, SealedCapabilityView, SealedShareView,
};
use vstd::prelude::*;

verus! {

/// Handing in a stored order again changes nothing and names the generation
/// under which it was stored.
pub proof fn lemma_ingest_retry(
    store: StoreView,
    manifest: ManifestView,
    sealed: SealedShareView,
    capability: SealedCapabilityView,
    first: u64,
    later: u64,
)
    ensures
        ({
            let (next, outcome) = store.ingest(manifest, sealed, capability, Ok(()), Ok(()), first);
            outcome is Ok ==> next.ingest(manifest, sealed, capability, Ok(()), Ok(()), later) == (
                next,
                Ok::<IngestOutcome, NodeFault>(
                    IngestOutcome::AlreadyPresent { generation: next.generation },
                ),
            )
        }),
{
}

/// Another ciphertext for an admitted order is refused and changes nothing.
pub proof fn lemma_ingest_conflict(
    store: StoreView,
    manifest: ManifestView,
    sealed: SealedShareView,
    capability: SealedCapabilityView,
    now: u64,
)
    requires
        store.records.dom().contains(manifest.commitment.key()),
        store.records[manifest.commitment.key()].sealed != sealed
            || store.records[manifest.commitment.key()].manifest != manifest
            || store.records[manifest.commitment.key()].sealed_capability_key_share != Some(
            capability,
        ),
    ensures
        store.ingest(manifest, sealed, capability, Ok(()), Ok(()), now) == (
            store,
            Err::<IngestOutcome, NodeFault>(NodeFault::Conflict),
        ),
{
}

/// While a vote is live, no other statement gets this node's vote for the same
/// place, whatever order, predecessor or expiry it names.
pub proof fn lemma_no_equivocation(
    store: StoreView,
    market_id: Seq<char>,
    sequence: u64,
    commitment: OrderCommitment,
    previous: Digest32,
    expires_at: u64,
    statement: Digest32,
    now: u64,
    other_market: Seq<char>,
    other_commitment: OrderCommitment,
    other_previous: Digest32,
    other_expiry: u64,
    other_statement: Digest32,
    later: u64,
)
    requires
        store.record_order_vote(
            market_id,
            sequence,
            commitment,
            previous,
            expires_at,
            statement,
            now,
        ).1 is Ok,
        later <= store.record_order_vote(
            market_id,
            sequence,
            commitment,
            previous,
            expires_at,
            statement,
            now,
        ).0.ordering_votes[sequence].expires_at,
        other_statement != statement,
    ensures
        ({
            let next = store.record_order_vote(
                market_id,
                sequence,
                commitment,
                previous,
                expires_at,
                statement,
                now,
            ).0;
            let again = next.record_order_vote(
                other_market,
                sequence,
                other_commitment,
                other_previous,
                other_expiry,
                other_statement,
                later,
            );
            again.1 is Err && again.0 == next
        }),
{
}

/// A vote that was given can be asked for again and is not recorded twice.
pub proof fn lemma_vote_retry(
    store: StoreView,
    market_id: Seq<char>,
    sequence: u64,
    commitment: OrderCommitment,
    previous: Digest32,
    expires_at: u64,
    statement: Digest32,
    now: u64,
    later: u64,
)
    requires
        now <= later <= expires_at,
    ensures
        ({
            let (next, outcome) = store.record_order_vote(
                market_id,
                sequence,
                commitment,
                previous,
                expires_at,
                statement,
                now,
            );
            outcome is Ok ==> next.record_order_vote(
                market_id,
                sequence,
                commitment,
                previous,
                expires_at,
                statement,
                later,
            ) == (next, Ok::<Digest32, NodeFault>(statement))
        }),
{
}

/// An accepted certificate either is the head already, or extends the chain by
/// exactly one place and becomes its head.
pub proof fn lemma_certificate_advances_by_one(
    store: StoreView,
    certificate: &OrderCertificate,
    quorum: Result<(), Seq<char>>,
    statement: Digest32,
    now: u64,
)
    ensures
        ({
            let (next, outcome) = store.accept_order_certificate(
                certificate,
                quorum,
                statement,
                now,
            );
            &&& outcome is Ok ==> quorum is Ok && next.ordering_head == certificate.digest
                && next.ordered_commitments.contains(certificate.commitment.key())
            &&& outcome is Err ==> next == store
            &&& next != store ==> {
                &&& next.ordering_sequence == store.ordering_sequence + 1
                &&& certificate.previous_certificate == store.ordering_head
                &&& !store.ordered_commitments.contains(certificate.commitment.key())
                &&& next.ordered_commitments == store.ordered_commitments.insert(
                    certificate.commitment.key(),
                )
            }
        }),
{
}

/// An accepted certificate can be handed in again.
pub proof fn lemma_certificate_retry(
    store: StoreView,
    certificate: &OrderCertificate,
    statement: Digest32,
    now: u64,
    later: u64,
)
    ensures
        ({
            let (next, outcome) = store.accept_order_certificate(
                certificate,
                Ok(()),
                statement,
                now,
            );
            outcome is Ok ==> next.accept_order_certificate(certificate, Ok(()), statement, later)
                == (next, Ok::<u64, NodeFault>(next.generation))
        }),
{
}

/// A completed round keeps the receipt that was recorded first: the same
/// receipt is accepted again without effect, and another one is refused.
pub proof fn lemma_completed_round_is_final(
    store: StoreView,
    receipt: ReceiptView,
    other: ReceiptView,
    match_slots: u16,
)
    requires
        store.record_completed_round(receipt, match_slots).1 is Ok,
        other.round_id == receipt.round_id,
    ensures
        ({
            let next = store.record_completed_round(receipt, match_slots).0;
            &&& next.completed_rounds[round_key(receipt.round_id)] == receipt
            &&& next.record_completed_round(receipt, match_slots) == (
                next,
                Ok::<(), NodeFault>(()),
            )
            &&& other != receipt ==> next.record_completed_round(other, match_slots).0 == next
                && next.record_completed_round(other, match_slots).1 is Err
        }),
{
}

/// A finalized round can be finalized again with the same finality, and never
/// with another.
pub proof fn lemma_finalization_is_final(
    store: StoreView,
    plan: &RoundPlan,
    finality: PrivateStateFinality,
    file: PrivateStateView,
    other: PrivateStateFinality,
    later_file: PrivateStateView,
    match_slots: u16,
)
    requires
        store.finalize_private_round(plan, finality, file, match_slots).1 is Ok,
    ensures
        ({
            let next = store.finalize_private_round(plan, finality, file, match_slots).0;
            &&& next.finalize_private_round(plan, finality, later_file, match_slots) == (
                next,
                Ok::<u64, NodeFault>(next.generation),
            )
            &&& other != finality ==> next.finalize_private_round(
                plan,
                other,
                later_file,
                match_slots,
            ).0 == next && next.finalize_private_round(plan, other, later_file, match_slots).1 is Err
        }),
{
    let next = store.finalize_private_round(plan, finality, file, match_slots).0;
    let key = round_key(plan.round_id);
    assert(next.finalized_private_rounds.dom().contains(key));
    assert(next.finalized_private_rounds[key] == finality.finalization());
    if other != finality && other.round_id == plan.round_id {
        assert(other.finalization() != finality.finalization());
    }
}

/// No round is finalized before its receipt is there, nor against another
/// output than the one in the receipt.
pub proof fn lemma_finality_follows_execution(
    store: StoreView,
    plan: &RoundPlan,
    finality: PrivateStateFinality,
    file: PrivateStateView,
    match_slots: u16,
)
    ensures
        ({
            let (next, outcome) = store.finalize_private_round(plan, finality, file, match_slots);
            outcome is Ok ==> {
                &&& store.completed_rounds.dom().contains(round_key(plan.round_id))
                &&& finality.round_id == plan.round_id
                &&& store.completed_rounds[round_key(plan.round_id)].public_output_sha256
                    == finality.public_output_sha256
            }
        }),
{
}

/// An arriving order that neither traded nor rests keeps its capability closed,
/// and so does a resting order that did not trade.
pub proof fn lemma_unmatched_order_is_not_released(
    store: StoreView,
    plan: &RoundPlan,
    order: OrderCommitment,
    opens: Result<(), Seq<char>>,
)
    requires
        store.completed_rounds.dom().contains(round_key(plan.round_id)),
        forall|i: int|
            0 <= i < store.completed_rounds[round_key(plan.round_id)].result.slots.len() ==> !(
            #[trigger] store.completed_rounds[round_key(plan.round_id)].result.slots[i]).matched,
        order == plan.arriving ==> store.completed_rounds[round_key(
            plan.round_id,
        )].result.arriving_remaining == 0,
    ensures
        store.release_fault(plan, order, opens) == Some(
            NodeFault::Release("public MPC result does not authorize capability release"@),
        ),
{
}

/// A matching frame has four fields for each slot and four for the arriving
/// order, however many orders rest.
pub proof fn lemma_frame_length(
    store: StoreView,
    market_id: Seq<char>,
    resting: Seq<OrderCommitment>,
    at_hand: Seq<RestingView>,
    arriving: OrderCommitment,
    arriving_opened: Result<Seq<Seq<char>>, Seq<char>>,
    match_slots: u16,
)
    ensures
        store.round_fields(
            market_id,
            resting,
            at_hand,
            arriving,
            arriving_opened,
            match_slots,
        ) matches Ok(fields) ==> fields.len() == match_slots * 4 + 4,
{
    lemma_slot_fields_length(
        store,
        market_id,
        resting,
        at_hand,
        match_slots,
        match_slots as nat,
    );
}

proof fn lemma_slot_fields_length(
    store: StoreView,
    market_id: Seq<char>,
    resting: Seq<OrderCommitment>,
    at_hand: Seq<RestingView>,
    match_slots: u16,
    count: nat,
)
    ensures
        store.slot_fields(market_id, resting, at_hand, match_slots, count) matches Ok(fields)
            ==> fields.len() == count * 4,
    decreases count,
{
    if count > 0 {
        lemma_slot_fields_length(
            store,
            market_id,
            resting,
            at_hand,
            match_slots,
            (count - 1) as nat,
        );
    }
}

/// A new node's state opens again.
pub proof fn lemma_empty_reopens(party: u16, match_slots: u16)
    ensures
        StoreView::empty(party).reopens(party, match_slots),
{
    let store = StoreView::empty(party);
    assert(is_zero(store.ordering_head@));
}

/// Admitting an order keeps the state openable, where the shares belong to the
/// order and to this node's party, as opening them has shown.
pub proof fn lemma_ingest_reopens(
    store: StoreView,
    manifest: ManifestView,
    sealed: SealedShareView,
    capability: SealedCapabilityView,
    share_opens: Result<(), Seq<char>>,
    capability_opens: Result<(), Seq<char>>,
    now: u64,
    match_slots: u16,
)
    requires
        store.reopens(store.party, match_slots),
        sealed.commitment == manifest.commitment,
        sealed.party == store.party,
        capability.order_commitment == manifest.commitment,
        capability.capability_commitment == manifest.settlement_capability_commitment,
        capability.party == store.party,
    ensures
        store.ingest(manifest, sealed, capability, share_opens, capability_opens, now).0.reopens(
            store.party,
            match_slots,
        ),
{
    let next = store.ingest(
        manifest,
        sealed,
        capability,
        share_opens,
        capability_opens,
        now,
    ).0;
    assert(next.heads_bound(match_slots)) by {
        assert forall|key: Seq<char>| #[trigger]
            next.private_heads.dom().contains(key) implies next.head_bound(
            key,
            next.private_heads[key],
            match_slots,
        ) by {
            assert(store.private_heads.dom().contains(key));
            assert(store.head_bound(key, store.private_heads[key], match_slots));
        }
    }
    assert(next.records_bound(store.party)) by {
        assert forall|key: Seq<char>| #[trigger]
            next.records.dom().contains(key) implies StoreView::record_bound(
            key,
            next.records[key],
            store.party,
        ) by {
            if key != manifest.commitment.key() {
                assert(store.records.dom().contains(key));
            } else if store.records.dom().contains(key) {
                assert(StoreView::record_bound(key, store.records[key], store.party));
            }
        }
    }
    assert(next.finalizations_bound()) by {
        assert forall|key: Seq<char>| #[trigger]
            next.finalized_private_rounds.dom().contains(key) implies next.finalization_bound(
            key,
            next.finalized_private_rounds[key],
        ) by {
            assert(store.finalized_private_rounds.dom().contains(key));
        }
    }
}

/// Voting keeps the state openable.
pub proof fn lemma_vote_reopens(
    store: StoreView,
    market_id: Seq<char>,
    sequence: u64,
    commitment: OrderCommitment,
    previous: Digest32,
    expires_at: u64,
    statement: Digest32,
    now: u64,
    match_slots: u16,
)
    requires
        store.reopens(store.party, match_slots),
        !is_zero(statement@),
        expires_at != 0,
    ensures
        store.record_order_vote(
            market_id,
            sequence,
            commitment,
            previous,
            expires_at,
            statement,
            now,
        ).0.reopens(store.party, match_slots),
{
    let next = store.record_order_vote(
        market_id,
        sequence,
        commitment,
        previous,
        expires_at,
        statement,
        now,
    ).0;
    if next != store {
        assert(sequence == store.ordering_sequence + 1);
        assert(next.ordering_votes.dom() =~= set![sequence]) by {
            assert forall|other: u64| next.ordering_votes.dom().contains(other) == set![
                sequence,
            ].contains(other) by {
                if store.ordering_votes.dom().contains(other) {
                    assert(other == sequence);
                }
            }
        }
        assert(set![sequence].len() == 1);
        lemma_unchanged_parts_reopen(store, next, match_slots);
    }
}

/// The records, rounds, heads and finalizations of a state that agrees with an
/// openable one on them are as they must be.
proof fn lemma_unchanged_parts_reopen(store: StoreView, next: StoreView, match_slots: u16)
    requires
        store.reopens(store.party, match_slots),
        next.party == store.party,
        next.records == store.records,
        next.completed_rounds == store.completed_rounds,
        next.private_heads == store.private_heads,
        next.finalized_private_rounds == store.finalized_private_rounds,
    ensures
        next.records_bound(store.party),
        next.rounds_bound(store.party, match_slots),
        next.heads_bound(match_slots),
        next.finalizations_bound(),
{
    assert forall|key: Seq<char>| #[trigger]
        next.private_heads.dom().contains(key) implies next.head_bound(
        key,
        next.private_heads[key],
        match_slots,
    ) by {
        assert(store.head_bound(key, store.private_heads[key], match_slots));
    }
    assert forall|key: Seq<char>| #[trigger]
        next.finalized_private_rounds.dom().contains(key) implies next.finalization_bound(
        key,
        next.finalized_private_rounds[key],
    ) by {
        assert(store.finalization_bound(key, store.finalized_private_rounds[key]));
    }
}

/// Accepting a certificate keeps the state openable.
pub proof fn lemma_certificate_reopens(
    store: StoreView,
    certificate: &OrderCertificate,
    quorum: Result<(), Seq<char>>,
    statement: Digest32,
    now: u64,
    match_slots: u16,
)
    requires
        store.reopens(store.party, match_slots),
        !is_zero(certificate.digest@),
    ensures
        store.accept_order_certificate(certificate, quorum, statement, now).0.reopens(
            store.party,
            match_slots,
        ),
{
    let next = store.accept_order_certificate(certificate, quorum, statement, now).0;
    if next != store {
        assert(next.ordering_votes.dom() =~= Set::<u64>::empty()) by {
            assert forall|other: u64| !next.ordering_votes.dom().contains(other) by {
                if store.ordering_votes.dom().contains(other) {
                    assert(other == certificate.sequence);
                }
            }
        }
        lemma_unchanged_parts_reopen(store, next, match_slots);
    }
}

/// Recording a completed round keeps the state openable.
pub proof fn lemma_completed_round_reopens(store: StoreView, receipt: ReceiptView, match_slots: u16)
    requires
        store.reopens(store.party, match_slots),
    ensures
        store.record_completed_round(receipt, match_slots).0.reopens(store.party, match_slots),
{
    let next = store.record_completed_round(receipt, match_slots).0;
    let added = round_key(receipt.round_id);
    if next != store {
        assert(!store.completed_rounds.dom().contains(added));
        assert forall|key: Seq<char>| #[trigger]
            next.completed_rounds.dom().contains(key) implies key == round_key(
            next.completed_rounds[key].round_id,
        ) && StoreView::receipt_complete(next.completed_rounds[key], store.party, match_slots) by {
            if key != added {
                assert(store.completed_rounds.dom().contains(key));
            }
        }
        assert forall|key: Seq<char>| #[trigger]
            next.private_heads.dom().contains(key) implies next.head_bound(
            key,
            next.private_heads[key],
            match_slots,
        ) by {
            assert(store.head_bound(key, store.private_heads[key], match_slots));
        }
        assert forall|key: Seq<char>| #[trigger]
            next.finalized_private_rounds.dom().contains(key) implies next.finalization_bound(
            key,
            next.finalized_private_rounds[key],
        ) by {
            assert(store.finalization_bound(key, store.finalized_private_rounds[key]));
        }
        assert forall|key: Seq<char>| #[trigger]
            next.records.dom().contains(key) implies StoreView::record_bound(
            key,
            next.records[key],
            store.party,
        ) by {
            assert(store.records.dom().contains(key));
        }
    }
}

/// What the heads are after some resting orders have advanced: the new ones
/// for those orders, the old ones for all others.
proof fn lemma_advanced_heads(
    store: StoreView,
    resting: Seq<OrderCommitment>,
    receipt: ReceiptView,
    finality: PrivateStateFinality,
    count: nat,
    key: Seq<char>,
)
    requires
        count <= resting.len(),
        store.advanced_heads(resting, receipt, finality, count).dom().contains(key),
    ensures
        ({
            let head = store.advanced_heads(resting, receipt, finality, count)[key];
            ||| store.private_heads.dom().contains(key) && head == store.private_heads[key]
            ||| exists|slot: int|
                0 <= slot < count && (#[trigger] resting[slot]).key() == key && head
                    == StoreView::new_head(receipt, finality, slot * 4)
        }),
    decreases count,
{
    if count > 0 {
        let slot = (count - 1) as nat;
        if key == resting[slot as int].key() {
            assert(resting[slot as int].key() == key);
        } else {
            lemma_advanced_heads(store, resting, receipt, finality, slot, key);
        }
    }
}

/// Finalizing a round keeps the state openable, for a plan that fits the slots
/// and whose orders are still on record.
pub proof fn lemma_finalization_reopens(
    store: StoreView,
    plan: &RoundPlan,
    finality: PrivateStateFinality,
    file: PrivateStateView,
    match_slots: u16,
)
    requires
        store.reopens(store.party, match_slots),
        match_slots * 4 <= u16::MAX,
        plan.resting@.len() <= match_slots,
        forall|i: int|
            0 <= i < plan.resting@.len() ==> store.records.dom().contains(
                (#[trigger] plan.resting@[i]).key(),
            ),
        store.records.dom().contains(plan.arriving.key()),
    ensures
        store.finalize_private_round(plan, finality, file, match_slots).0.reopens(
            store.party,
            match_slots,
        ),
{
    let next = store.finalize_private_round(plan, finality, file, match_slots).0;
    let key = round_key(plan.round_id);
    let receipt = store.completed_rounds[key];
    let resting = plan.resting@;
    if next != store {
        assert(store.completed_rounds.dom().contains(key));
        assert(StoreView::receipt_complete(receipt, store.party, match_slots));
        assert(finality.round_id == plan.round_id);
        assert forall|k: Seq<char>| #[trigger]
            next.private_heads.dom().contains(k) implies next.head_bound(
            k,
            next.private_heads[k],
            match_slots,
        ) by {
            let head = next.private_heads[k];
            if k == plan.arriving.key() {
                assert(head == StoreView::new_head(receipt, finality, match_slots * 4));
            } else {
                let rested = store.advanced_heads(resting, receipt, finality, resting.len());
                assert(rested.dom().contains(k));
                assert(head == rested[k]);
                lemma_advanced_heads(store, resting, receipt, finality, resting.len(), k);
                if store.private_heads.dom().contains(k) && head == store.private_heads[k] {
                    assert(store.head_bound(k, head, match_slots));
                    assert(round_key(head.round_id) != key) by {
                        assert(store.finalized_private_rounds.dom().contains(
                            round_key(head.round_id),
                        ));
                        assert(!store.finalized_private_rounds.dom().contains(key));
                    }
                } else {
                    let slot = choose|slot: int|
                        0 <= slot < resting.len() && (#[trigger] resting[slot]).key() == k && head
                            == StoreView::new_head(receipt, finality, slot * 4);
                    assert(store.records.dom().contains(resting[slot].key()));
                    assert(0 <= slot * 4 <= u16::MAX);
                    assert(head.wire_offset == slot * 4);
                }
            }
        }
        assert forall|k: Seq<char>| #[trigger]
            next.finalized_private_rounds.dom().contains(k) implies next.finalization_bound(
            k,
            next.finalized_private_rounds[k],
        ) by {
            if k != key {
                assert(store.finalization_bound(k, store.finalized_private_rounds[k]));
            }
        }
        assert forall|k: Seq<char>| #[trigger]
            next.records.dom().contains(k) implies StoreView::record_bound(
            k,
            next.records[k],
            store.party,
        ) by {
            assert(store.records.dom().contains(k));
        }
        assert forall|k: Seq<char>| #[trigger]
            next.completed_rounds.dom().contains(k) implies k == round_key(
            next.completed_rounds[k].round_id,
        ) && StoreView::receipt_complete(next.completed_rounds[k], store.party, match_slots) by {
            assert(store.completed_rounds.dom().contains(k));
        }
    }
}

/// A state that only lost records without private heads still opens.
proof fn lemma_fewer_records_reopen(store: StoreView, next: StoreView, match_slots: u16)
    requires
        store.reopens(store.party, match_slots),
        next == (StoreView { records: next.records, generation: next.generation, ..store }),
        forall|key: Seq<char>| #[trigger]
            next.records.dom().contains(key) ==> store.records.dom().contains(key)
                && next.records[key] == store.records[key],
        forall|key: Seq<char>|
            store.private_heads.dom().contains(key) ==> #[trigger] next.records.dom().contains(key),
    ensures
        next.reopens(store.party, match_slots),
{
    assert forall|key: Seq<char>| #[trigger]
        next.private_heads.dom().contains(key) implies next.head_bound(
        key,
        next.private_heads[key],
        match_slots,
    ) by {
        assert(store.head_bound(key, store.private_heads[key], match_slots));
        assert(next.records.dom().contains(key));
    }
    assert forall|key: Seq<char>| #[trigger]
        next.finalized_private_rounds.dom().contains(key) implies next.finalization_bound(
        key,
        next.finalized_private_rounds[key],
    ) by {
        assert(store.finalization_bound(key, store.finalized_private_rounds[key]));
    }
}

/// Dropping an order that has no private head keeps the state openable.
pub proof fn lemma_remove_reopens(store: StoreView, commitment: OrderCommitment, match_slots: u16)
    requires
        store.reopens(store.party, match_slots),
        !store.private_heads.dom().contains(commitment.key()),
    ensures
        store.remove_terminal(commitment).0.reopens(store.party, match_slots),
{
    let next = store.remove_terminal(commitment).0;
    if next != store {
        assert forall|key: Seq<char>|
            store.private_heads.dom().contains(key) implies #[trigger] next.records.dom().contains(
            key,
        ) by {
            assert(store.head_bound(key, store.private_heads[key], match_slots));
        }
        lemma_fewer_records_reopen(store, next, match_slots);
    }
}

/// Pruning keeps the state openable while no order with a private head has
/// expired.
pub proof fn lemma_prune_reopens(store: StoreView, now: u64, match_slots: u16)
    requires
        store.reopens(store.party, match_slots),
        forall|key: Seq<char>|
            store.expired_keys(now).contains(key) ==> !(
            #[trigger] store.private_heads.dom().contains(key)),
    ensures
        store.prune_expired(now).0.reopens(store.party, match_slots),
{
    let next = store.prune_expired(now).0;
    if next != store {
        assert forall|key: Seq<char>|
            store.private_heads.dom().contains(key) implies #[trigger] next.records.dom().contains(
            key,
        ) by {
            assert(store.head_bound(key, store.private_heads[key], match_slots));
            assert(!store.expired_keys(now).contains(key));
        }
        lemma_fewer_records_reopen(store, next, match_slots);
    }
}

/// Pruning leaves no expired record and drops no other.
pub proof fn lemma_prune_is_exact(store: StoreView, now: u64, key: Seq<char>)
    requires
        store.records.dom().finite(),
    ensures
        store.prune_expired(now).0.records.dom().contains(key) == (store.records.dom().contains(key)
            && store.records[key].manifest.retention_deadline >= now),
        store.prune_expired(now).0.records.dom().contains(key) ==> store.prune_expired(
            now,
        ).0.records[key] == store.records[key],
{
    let expired = store.expired_keys(now);
    assert(expired.subset_of(store.records.dom()));
    vstd::set_lib::lemma_len_subset(expired, store.records.dom());
    if expired.len() == 0 {
        assert(expired =~= Set::<Seq<char>>::empty());
        assert(!expired.contains(key));
    }
}

} // verus!
