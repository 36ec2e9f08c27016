//! What a node's store holds after any run of changes, and what of it is read
//! back from its file.

use crate::bytes::{is_zero, sha256, Digest32};
use crate::executor::{ReceiptView, RoundPlan};
use crate::store::{status_shows, NodeStoreStatus};
use crate::store_file::{
    file_state, lemma_changed_file_is_refused, lemma_reopened_store_is_unchanged, payload_of,
    store_frame, ParsedStore,
};
use crate::store_laws::{
    lemma_certificate_reopens, lemma_completed_round_reopens, lemma_empty_reopens,
    lemma_finalization_reopens, lemma_ingest_reopens, lemma_prune_reopens, lemma_remove_reopens,
    lemma_vote_reopens,
};
use crate::store_model::{NodeFault, PrivateStateFinality, PrivateStateView, StoreView};
use crate::types::{
    ManifestView, OrderCertificate, OrderCommitment, SealedCapabilityView, SealedShareView,
};
use vstd::prelude::*;

verus! {

/// One change of a store, with everything that decides about it.
pub enum StoreChange {
    Ingest {
        manifest: ManifestView,
        sealed: SealedShareView,
        capability: SealedCapabilityView,
        share_opens: Result<(), Seq<char>>,
        capability_opens: Result<(), Seq<char>>,
        now: u64,
    },
    Vote {
        market_id: Seq<char>,
        sequence: u64,
        commitment: OrderCommitment,
        previous: Digest32,
        expires_at: u64,
        statement: Digest32,
        now: u64,
    },
    Certificate {
        certificate: OrderCertificate,
        quorum: Result<(), Seq<char>>,
        statement: Digest32,
        now: u64,
    },
    CompletedRound { receipt: ReceiptView },
    Finalization { plan: RoundPlan, finality: PrivateStateFinality, file: PrivateStateView },
    Removal { commitment: OrderCommitment },
    Pruning { now: u64 },
}

impl StoreChange {
    /// The store after the change, whether it succeeded or was refused.
    pub open spec fn applied(self, store: StoreView, match_slots: u16) -> StoreView {
        match self {
            StoreChange::Ingest {
                manifest,
                sealed,
                capability,
                share_opens,
                capability_opens,
                now,
            } => store.ingest(manifest, sealed, capability, share_opens, capability_opens, now).0,
            StoreChange::Vote {
                market_id,
                sequence,
                commitment,
                previous,
                expires_at,
                statement,
                now,
            } => store.record_order_vote(
                market_id,
                sequence,
                commitment,
                previous,
                expires_at,
                statement,
                now,
            ).0,
            StoreChange::Certificate { certificate, quorum, statement, now } =>
            store.accept_order_certificate(&certificate, quorum, statement, now).0,
            StoreChange::CompletedRound { receipt } => store.record_completed_round(
                receipt,
                match_slots,
            ).0,
            StoreChange::Finalization { plan, finality, file } => store.finalize_private_round(
                &plan,
                finality,
                file,
                match_slots,
            ).0,
            StoreChange::Removal { commitment } => store.remove_terminal(commitment).0,
            StoreChange::Pruning { now } => store.prune_expired(now).0,
        }
    }

    /// What the outside has shown of the change: an opened share belongs to its
    /// order and to this node, a vote has a deadline, and no digest is zero. An
    /// order whose private head is kept is neither removed nor pruned.
    pub open spec fn sound(self, store: StoreView, match_slots: u16) -> bool {
        match self {
            StoreChange::Ingest {
                manifest,
                sealed,
                capability,
                share_opens,
                capability_opens,
                ..
            } => {
                &&& share_opens is Ok ==> {
                    &&& sealed.commitment == manifest.commitment
                    &&& sealed.party == store.party
                }
                &&& capability_opens is Ok ==> {
                    &&& capability.order_commitment == manifest.commitment
                    &&& capability.capability_commitment
                        == manifest.settlement_capability_commitment
                    &&& capability.party == store.party
                }
            },
            StoreChange::Vote { expires_at, statement, .. } => expires_at > 0 && !is_zero(
                statement@,
            ),
            StoreChange::Certificate { certificate, .. } => !is_zero(certificate.digest@),
            StoreChange::CompletedRound { .. } => true,
            StoreChange::Finalization { plan, .. } => {
                &&& match_slots * 4 <= u16::MAX
                &&& plan.resting@.len() <= match_slots
                &&& forall|i: int|
                    0 <= i < plan.resting@.len() ==> store.records.dom().contains(
                        (#[trigger] plan.resting@[i]).key(),
                    )
                &&& store.records.dom().contains(plan.arriving.key())
            },
            StoreChange::Removal { commitment } => !store.private_heads.dom().contains(
                commitment.key(),
            ),
            StoreChange::Pruning { now } => forall|key: Seq<char>|
                store.expired_keys(now).contains(key) ==> !(
                #[trigger] store.private_heads.dom().contains(key)),
        }
    }
}

/// The store after a run of changes.
pub open spec fn store_after(
    store: StoreView,
    changes: Seq<StoreChange>,
    match_slots: u16,
) -> StoreView
    decreases changes.len(),
{
    if changes.len() == 0 {
        store
    } else {
        changes.last().applied(
            store_after(store, changes.drop_last(), match_slots),
            match_slots,
        )
    }
}

/// Whether each change of a run is sound where it is made.
pub open spec fn all_sound(
    store: StoreView,
    changes: Seq<StoreChange>,
    match_slots: u16,
) -> bool
    decreases changes.len(),
{
    changes.len() > 0 ==> {
        let before = changes.drop_last();
        &&& all_sound(store, before, match_slots)
        &&& changes.last().sound(store_after(store, before, match_slots), match_slots)
    }
}

/// A state that a store opens with: the new one of a party, or one that a file
/// gave.
pub open spec fn opened(store: StoreView, match_slots: u16) -> bool {
    ||| store == StoreView::empty(store.party)
    ||| exists|encoded: Seq<u8>, parsed: ParsedStore|
        (#[trigger] file_state(encoded, &parsed, store.party, match_slots)) is Ok && (file_state(
            encoded,
            &parsed,
            store.party,
            match_slots,
        )->Ok_0).0 == store
}

/// Every change keeps a store of its party, at its version, and one that opens
/// again.
pub proof fn lemma_change_reopens(store: StoreView, change: StoreChange, match_slots: u16)
    requires
        store.reopens(store.party, match_slots),
        change.sound(store, match_slots),
    ensures
        change.applied(store, match_slots).reopens(store.party, match_slots),
        change.applied(store, match_slots).party == store.party,
        change.applied(store, match_slots).version == store.version,
{
    match change {
        StoreChange::Ingest {
            manifest,
            sealed,
            capability,
            share_opens,
            capability_opens,
            now,
        } => {
            if share_opens is Ok && capability_opens is Ok {
                lemma_ingest_reopens(
                    store,
                    manifest,
                    sealed,
                    capability,
                    share_opens,
                    capability_opens,
                    now,
                    match_slots,
                );
            }
        },
        StoreChange::Vote {
            market_id,
            sequence,
            commitment,
            previous,
            expires_at,
            statement,
            now,
        } => lemma_vote_reopens(
            store,
            market_id,
            sequence,
            commitment,
            previous,
            expires_at,
            statement,
            now,
            match_slots,
        ),
        StoreChange::Certificate { certificate, quorum, statement, now } =>
        lemma_certificate_reopens(store, &certificate, quorum, statement, now, match_slots),
        StoreChange::CompletedRound { receipt } => lemma_completed_round_reopens(
            store,
            receipt,
            match_slots,
        ),
        StoreChange::Finalization { plan, finality, file } => lemma_finalization_reopens(
            store,
            &plan,
            finality,
            file,
            match_slots,
        ),
        StoreChange::Removal { commitment } => lemma_remove_reopens(
            store,
            commitment,
            match_slots,
        ),
        StoreChange::Pruning { now } => lemma_prune_reopens(store, now, match_slots),
    }
}

/// A store that was opened and changed opens again, whatever the changes were.
pub proof fn lemma_history_reopens(
    start: StoreView,
    changes: Seq<StoreChange>,
    match_slots: u16,
)
    requires
        opened(start, match_slots),
        all_sound(start, changes, match_slots),
    ensures
        ({
            let store = store_after(start, changes, match_slots);
            &&& store.reopens(start.party, match_slots)
            &&& store.party == start.party
            &&& store.version == 5
        }),
    decreases changes.len(),
{
    if changes.len() == 0 {
        lemma_empty_reopens(start.party, match_slots);
    } else {
        let before = changes.drop_last();
        lemma_history_reopens(start, before, match_slots);
        lemma_change_reopens(
            store_after(start, before, match_slots),
            changes.last(),
            match_slots,
        );
    }
}

/// A store that was opened, changed and written is read back as it was: its own
/// party finds the same state and the same status and has nothing to migrate.
/// Another party is refused, and so is a file in which one byte was changed,
/// unless SHA-256 maps the changed payload to the digest of the written one: none
/// of them ever finds an empty store. `payload` is the encoding of the state, and
/// `parsed` what it reads as.
pub proof fn lemma_written_store_is_read_back(
    start: StoreView,
    changes: Seq<StoreChange>,
    match_slots: u16,
    payload: Seq<u8>,
    parsed: &ParsedStore,
    before: &NodeStoreStatus,
    after: &NodeStoreStatus,
    other: u16,
    at: int,
    byte: u8,
    reader: u16,
    read: &ParsedStore,
)
    requires
        opened(start, match_slots),
        all_sound(start, changes, match_slots),
        payload_of(payload, parsed, store_after(start, changes, match_slots)),
        status_shows(before, store_after(start, changes, match_slots), payload),
        status_shows(
            after,
            (file_state(store_frame(payload), parsed, start.party, match_slots)->Ok_0).0,
            payload,
        ),
        0 <= at < store_frame(payload).len(),
        byte != store_frame(payload)[at],
        16 <= at < 16 + payload.len() ==> sha256(payload.update(at - 16, byte)) != sha256(payload),
    ensures
        file_state(store_frame(payload), parsed, start.party, match_slots) == Ok::<
            (StoreView, bool),
            NodeFault,
        >((store_after(start, changes, match_slots), false)),
        *before == *after,
        other != start.party ==> file_state(store_frame(payload), parsed, other, match_slots)
            is Err,
        file_state(store_frame(payload).update(at, byte), read, reader, match_slots) is Err,
{
    let store = store_after(start, changes, match_slots);
    lemma_history_reopens(start, changes, match_slots);
    lemma_reopened_store_is_unchanged(payload, parsed, store, other, match_slots, before, after);
    lemma_changed_file_is_refused(payload, at, byte, read, reader, match_slots);
}

} // verus!
