//! What the corporate operations come to: which reserves, intakes and claims
//! stand, what a wallet is worth, and where funds go.

use crate::bytes::{is_zero, sha256, Digest32};
use crate::corporate::{
    chosen_note, facility_fault, facility_moves, finalized_fault, funded, mandate_of,
    reserve_fault, CanonicalFacility, CanonicalReservation, CorporateNativeConfig, FacilityWitness,
    IssuedReserve, MandateTerms, NoteChoiceView, OrderTerms, PreparedCorporateReserve,
    ReserveFacts, ReserveRead, ReserveScope, ScannedNote, BuiltRequest,
};
use crate::corporate_api::{
    asset_balance, authorized, claim_fault, escrow_map, escrow_notes, followed_heads, intake_fault,
    notes_fault, spendable, ClaimContext, ClaimIssue, CorporateApiConfig, CorporateRequest, Escrow,
    HeadPair, PermitTerms, PriorFill, ReservationRead, WalletNote,
};
use crate::corporate_authorization::{
    funding_refusal, AuthorizationFacts, CorporateReserveAuthorization, FundingRead,
};
use crate::corporate_custody::{snapshot_fault, AssetScan};
use crate::corporate_journal_model::{
    request_id_valid, JournalBody, JournalView, StoredCorporateIntent,
};
use crate::scalars::canonical_scalar;
use vstd::prelude::*;

verus! {

proof fn lemma_spendable_prefix(a: Seq<WalletNote>, b: Seq<WalletNote>, count: nat)
    requires
        count <= a.len(),
    ensures
        spendable(a + b, count) == spendable(a, count),
    decreases count,
{
    if count > 0 {
        lemma_spendable_prefix(a, b, (count - 1) as nat);
        assert((a + b)[count - 1] == a[count - 1]);
    }
}

proof fn lemma_spendable_sum(a: Seq<WalletNote>, b: Seq<WalletNote>, count: nat)
    requires
        count <= b.len(),
    ensures
        spendable(a + b, (a.len() + count) as nat) == spendable(a, a.len()) + spendable(b, count),
    decreases count,
{
    if count == 0 {
        lemma_spendable_prefix(a, b, a.len());
    } else {
        lemma_spendable_sum(a, b, (count - 1) as nat);
        assert((a + b)[a.len() + count - 1] == b[count - 1]);
    }
}

/// Balances add up: what two lists of notes are worth together is what they are
/// worth apart. One note is worth its value where it is unspent and unlocked, and
/// nothing otherwise; no notes are worth nothing.
pub proof fn lemma_balances_add_up(
    a: Seq<WalletNote>,
    b: Seq<WalletNote>,
    note: WalletNote,
    escrows_a: Seq<Escrow>,
    escrows_b: Seq<Escrow>,
    escrows: Seq<Escrow>,
    own: bool,
    root: Digest32,
    held: u64,
)
    ensures
        spendable(a + b, (a + b).len()) == spendable(a, a.len()) + spendable(b, b.len()),
        spendable(seq![note], 1) == (if !note.spent && is_zero(note.lock_id@) {
            note.value as nat
        } else {
            0nat
        }),
        spendable(Seq::empty(), 0) == 0,
        ({
            let both = asset_balance(a + b, escrows, own, root, root, held);
            let first = asset_balance(a, escrows_a, own, root, root, held);
            let second = asset_balance(b, escrows_b, own, root, root, held);
            both is Ok && first is Ok && second is Ok ==> (both->Ok_0).0 == (first->Ok_0).0 + (
            second->Ok_0).0
        }),
        ({
            let one = asset_balance(seq![note], escrows, own, root, root, held);
            one is Ok ==> (one->Ok_0).0 == (if !note.spent && is_zero(note.lock_id@) {
                note.value as nat
            } else {
                0nat
            })
        }),
{
    lemma_spendable_sum(a, b, b.len());
    assert((a + b).len() == a.len() + b.len());
    reveal_with_fuel(spendable, 2);
}

/// What is locked is what the facility holds, for the facility's own asset, and
/// nothing for any other.
pub proof fn lemma_locked_is_what_the_facility_holds(
    notes: Seq<WalletNote>,
    escrows: Seq<Escrow>,
    own: bool,
    root: Digest32,
    read_root: Digest32,
    held: u64,
)
    requires
        asset_balance(notes, escrows, own, root, read_root, held) is Ok,
    ensures
        (asset_balance(notes, escrows, own, root, read_root, held)->Ok_0).1 == (if own {
            held as nat
        } else {
            0nat
        }),
{
}

proof fn lemma_notes_stand(
    notes: Seq<WalletNote>,
    escrows: Seq<Escrow>,
    own: bool,
    root: Digest32,
    count: nat,
)
    requires
        count <= notes.len(),
    ensures
        notes_fault(notes, escrows, own, root, count) is None == (forall|i: int|
            0 <= i < count ==> (#[trigger] notes[i]).state_root == root && (notes[i].spent
                || is_zero(notes[i].lock_id@) || (own && exists|j: int|
                0 <= j < escrows.len() && (#[trigger] escrows[j]).note_id == notes[i].note_id))),
    decreases count,
{
    if count > 0 {
        lemma_notes_stand(notes, escrows, own, root, (count - 1) as nat);
        let last = notes[count - 1];
        if notes_fault(notes, escrows, own, root, count) is None {
            assert forall|i: int| 0 <= i < count implies (#[trigger] notes[i]).state_root == root
                && (notes[i].spent || is_zero(notes[i].lock_id@) || (own && exists|j: int|
                0 <= j < escrows.len() && (#[trigger] escrows[j]).note_id == notes[i].note_id)) by {
                if i == count - 1 {
                    assert(notes[i] == last);
                }
            }
        } else if forall|i: int|
            0 <= i < count ==> (#[trigger] notes[i]).state_root == root && (notes[i].spent
                || is_zero(notes[i].lock_id@) || (own && exists|j: int|
                0 <= j < escrows.len() && (#[trigger] escrows[j]).note_id == notes[i].note_id)) {
            assert(last.state_root == root);
            assert(notes[count - 1].spent || is_zero(notes[count - 1].lock_id@) || own);
        }
    }
}

/// A balance is given exactly where everything was read at one root, every
/// unspent locked note is the escrow of a reservation of the facility's own
/// asset, and every active reservation's escrow is among the wallet's unspent
/// locked notes.
pub proof fn lemma_balance_needs_one_state(
    notes: Seq<WalletNote>,
    escrows: Seq<Escrow>,
    own: bool,
    root: Digest32,
    read_root: Digest32,
    held: u64,
)
    ensures
        asset_balance(notes, escrows, own, root, read_root, held) is Ok == {
            &&& read_root == root
            &&& forall|i: int|
                0 <= i < notes.len() ==> (#[trigger] notes[i]).state_root == root && (
                notes[i].spent || is_zero(notes[i].lock_id@) || (own && exists|j: int|
                    0 <= j < escrows.len() && (#[trigger] escrows[j]).note_id
                        == notes[i].note_id))
            &&& own ==> forall|j: int|
                0 <= j < escrows.len() && (#[trigger] escrows[j]).active ==> exists|i: int|
                    0 <= i < notes.len() && (#[trigger] notes[i]).note_id == escrows[j].note_id
                        && !notes[i].spent && !is_zero(notes[i].lock_id@)
        },
{
    lemma_notes_stand(notes, escrows, own, root, notes.len());
}

/// A wallet is shown only where both assets have a balance at the same root, and
/// the ledger has not moved since.
pub proof fn lemma_snapshot_shows_one_state(
    config: &CorporateNativeConfig,
    escrows: Seq<Escrow>,
    cash: &AssetScan,
    security: &AssetScan,
    held: u64,
    root: Digest32,
    final_root: Digest32,
)
    ensures
        snapshot_fault(config, escrows, cash, security, held, root, final_root) is None == {
            &&& canonical_scalar(config.wallet_spend_secret@)
            &&& config.wallet_opening_seed@.len() == 96
            &&& asset_balance(
                cash.notes@,
                escrows,
                cash.asset_id == config.asset_id,
                root,
                cash.read_root,
                held,
            ) is Ok
            &&& asset_balance(
                security.notes@,
                escrows,
                security.asset_id == config.asset_id,
                root,
                security.read_root,
                held,
            ) is Ok
            &&& final_root == root
        },
{
}

proof fn lemma_escrow_notes_of(reads: Seq<ReservationRead>, count: nat, note_id: Digest32)
    requires
        count <= reads.len(),
    ensures
        ({
            let notes = escrow_notes(reads, count);
            &&& notes.dom().contains(note_id) == (exists|i: int|
                0 <= i < count && !(#[trigger] reads[i]).skipped && reads[i].escrow_note_id
                    == note_id)
            &&& notes.dom().contains(note_id) ==> exists|i: int|
                0 <= i < count && !(#[trigger] reads[i]).skipped && reads[i].escrow_note_id
                    == note_id && notes[note_id] == (reads[i].status@ == "active"@) && (forall|
                    j: int,
                |
                    i < j < count ==> (#[trigger] reads[j]).skipped || reads[j].escrow_note_id
                        != note_id)
        }),
    decreases count,
{
    if count > 0 {
        lemma_escrow_notes_of(reads, (count - 1) as nat, note_id);
        let last = reads[count - 1];
        if !last.skipped && last.escrow_note_id == note_id {
            assert(!reads[count - 1].skipped);
        } else {
            let earlier = escrow_notes(reads, (count - 1) as nat);
            if earlier.dom().contains(note_id) {
                let i = choose|i: int|
                    0 <= i < count - 1 && !(#[trigger] reads[i]).skipped && reads[i].escrow_note_id
                        == note_id && earlier[note_id] == (reads[i].status@ == "active"@) && (
                    forall|j: int|
                        i < j < count - 1 ==> (#[trigger] reads[j]).skipped
                            || reads[j].escrow_note_id != note_id);
                assert(!reads[i].skipped);
            }
        }
    }
}

/// The escrows of a wallet are the escrow notes of its reservations that were
/// sent, each once; one counts as active where the last reservation that names
/// it is active.
pub proof fn lemma_escrows_are_the_reservations(
    reads: Seq<ReservationRead>,
    escrows: Seq<Escrow>,
    note_id: Digest32,
)
    requires
        escrow_map(escrows, escrow_notes(reads, reads.len())),
    ensures
        (exists|k: int| 0 <= k < escrows.len() && (#[trigger] escrows[k]).note_id == note_id) == (
        exists|i: int|
            0 <= i < reads.len() && !(#[trigger] reads[i]).skipped && reads[i].escrow_note_id
                == note_id),
        forall|k: int|
            0 <= k < escrows.len() && (#[trigger] escrows[k]).note_id == note_id ==> exists|i: int|
                0 <= i < reads.len() && !(#[trigger] reads[i]).skipped && reads[i].escrow_note_id
                    == note_id && escrows[k].active == (reads[i].status@ == "active"@) && (forall|
                    j: int,
                |
                    i < j < reads.len() ==> (#[trigger] reads[j]).skipped
                        || reads[j].escrow_note_id != note_id),
        forall|k: int, l: int|
            0 <= k < l < escrows.len() ==> (#[trigger] escrows[k]).note_id != (
            #[trigger] escrows[l]).note_id,
{
    lemma_escrow_notes_of(reads, reads.len(), note_id);
    let notes = escrow_notes(reads, reads.len());
    if notes.dom().contains(note_id) {
        let k = choose|k: int| 0 <= k < escrows.len() && (#[trigger] escrows[k]).note_id == note_id;
        assert(escrows[k].note_id == note_id);
    }
}

/// The note that funds an order is the first of the scan that is free, large
/// enough, the one that was asked for if one was, and unspent. Where none is
/// found, every such note is spent.
pub proof fn lemma_first_serving_note_is_chosen(
    notes: Seq<ScannedNote>,
    limit: u64,
    wanted: Option<Digest32>,
    root: Digest32,
    start: int,
)
    requires
        0 <= start,
    ensures
        ({
            let serves = |i: int|
                is_zero(notes[i].lock_id@) && notes[i].value >= limit && (wanted is Some ==> wanted
                    == Some(notes[i].note_id));
            let spent = |i: int| notes[i].serial matches Ok(read) && read.spent;
            match chosen_note(notes, limit, wanted, root, start) {
                NoteChoiceView::Selected(at) => {
                    &&& start <= at < notes.len()
                    &&& serves(at)
                    &&& !spent(at)
                    &&& notes[at].serial matches Ok(read) && read.state_root == root
                    &&& forall|i: int|
                        start <= i < at ==> !serves(i) || #[trigger] spent(i)
                },
                NoteChoiceView::Missing => forall|i: int|
                    start <= i < notes.len() ==> !serves(i) || #[trigger] spent(i),
                NoteChoiceView::StateChanged => exists|i: int|
                    start <= i < notes.len() && #[trigger] serves(i) && (notes[i].serial matches Ok(
                        read,
                    ) && read.state_root != root),
                NoteChoiceView::Unreadable(text) => exists|i: int|
                    start <= i < notes.len() && #[trigger] serves(i) && (notes[i].serial matches Err(
                        e,
                    ) && e@ == text),
            }
        }),
    decreases notes.len() - start,
{
    let serves = |i: int|
        is_zero(notes[i].lock_id@) && notes[i].value >= limit && (wanted is Some ==> wanted == Some(
            notes[i].note_id,
        ));
    let spent = |i: int| notes[i].serial matches Ok(read) && read.spent;
    if start < notes.len() {
        lemma_first_serving_note_is_chosen(notes, limit, wanted, root, start + 1);
        assert(serves(start) == crate::corporate::note_eligible(&notes[start], limit, wanted));
        assert(spent(start) == (notes[start].serial matches Ok(read) && read.spent));
        if !serves(start) || (notes[start].serial matches Ok(read) && read.state_root == root
            && read.spent) {
            assert(!serves(start) || spent(start));
        } else {
            assert(serves(start));
        }
    }
}

/// A reservation takes its limit out of what is available and adds it to what is
/// held; what is outstanding stays, and the facility moves by one generation.
pub proof fn lemma_reservation_holds_its_limit(
    after: &FacilityWitness,
    config: &CorporateNativeConfig,
    limit: u64,
    before_sequence: u64,
    reserve_blinding: Digest32,
)
    requires
        facility_moves(after, config, limit, before_sequence, reserve_blinding),
    ensures
        after.values@[0] + limit == config.facility_values@[0],
        after.values@[1] == config.facility_values@[1] + limit,
        after.values@[2] == config.facility_values@[2],
        after.blindings@[2] == config.facility_blindings@[2],
        after.facility_id == config.facility_id,
        after.sequence == before_sequence + 1,
{
}

/// A facility can hold a limit exactly where that much is available, what is held
/// stays in range, and there is a next generation.
pub proof fn lemma_limit_must_be_available(
    config: &CorporateNativeConfig,
    limit: u64,
    before_sequence: u64,
)
    ensures
        facility_fault(config, limit, before_sequence) is None == {
            &&& before_sequence < u64::MAX
            &&& limit <= config.facility_values@[0]
            &&& config.facility_values@[1] + limit <= u64::MAX
            &&& canonical_scalar(config.facility_blindings@[0]@)
            &&& canonical_scalar(config.facility_blindings@[1]@)
        },
{
}

/// The mandate of an order is for the configured facility and asset, over the
/// scope that was read, with the order's own terms, from now until the order
/// expires.
pub proof fn lemma_mandate_repeats_the_order(
    config: &CorporateNativeConfig,
    scope: ReserveScope,
    terms: MandateTerms,
    wire: Vec<u8>,
    now: u64,
)
    ensures
        ({
            let mandate = mandate_of(config, scope, terms, wire, now);
            &&& mandate.version == 2
            &&& mandate.scope == scope
            &&& mandate.facility_id == config.facility_id
            &&& mandate.asset_id == config.asset_id
            &&& mandate.hold_id == terms.reservation_id
            &&& mandate.request_commitment == terms.request_commitment
            &&& mandate.amount_commitment == terms.amount_commitment
            &&& mandate.participant_handle == terms.participant_handle
            &&& mandate.entity_commitment == terms.entity_commitment
            &&& mandate.credential_digest == terms.credential_digest
            &&& mandate.settlement_terms_commitment == terms.settlement_terms_commitment
            &&& mandate.valid_from == now
            &&& mandate.valid_until == terms.expires_at
            &&& mandate.participant_public == terms.participant_public
            &&& mandate.wire == wire
        }),
{
}

/// A scope is the deployment's exactly where venue, ledger and application are
/// the configured ones and amounts have 32 bits.
pub proof fn lemma_scope_is_the_deployment(
    scope: &ReserveScope,
    config: &CorporateNativeConfig,
    manifest: Digest32,
)
    ensures
        scope.configured(config, manifest) == {
            &&& scope.venue_id == config.venue_id
            &&& scope.defmi_id == config.defmi_id
            &&& scope.application_binding == manifest
            &&& scope.amount_bits == 32
        },
{
}

/// A witness replaces the values and blindings of a configuration and nothing
/// else.
pub proof fn lemma_witness_replaces_the_funding(
    config: CorporateNativeConfig,
    witness: FacilityWitness,
)
    ensures
        funded(config, Some(witness)).facility_values == witness.values,
        funded(config, Some(witness)).facility_blindings == witness.blindings,
        funded(config, Some(witness)).facility_id == config.facility_id,
        funded(config, Some(witness)).asset_id == config.asset_id,
        funded(config, Some(witness)).wallet_spend_secret == config.wallet_spend_secret,
        funded(config, None) == config,
{
}

/// Signed terms stand exactly where they are for this deployment, facility and
/// asset, repeat what is derived from the order and the identity, and hold
/// canonical blindings.
pub proof fn lemma_authorization_repeats_the_order(
    authorization: &CorporateReserveAuthorization,
    config: &CorporateNativeConfig,
    facts: AuthorizationFacts,
)
    ensures
        authorization.fault(config, Ok(facts)) is None == {
            let mandate = authorization.mandate;
            &&& facts.scope is Ok
            &&& facts.mandate is Ok
            &&& mandate.scope.configured(config, facts.manifest)
            &&& mandate.facility_id == config.facility_id
            &&& mandate.asset_id == config.asset_id
            &&& mandate.hold_id == facts.reservation_id
            &&& mandate.valid_until == facts.expires_at
            &&& mandate.participant_handle == facts.handle
            &&& mandate.participant_handle == facts.order_participant_handle
            &&& mandate.participant_public@ == facts.participant_public@
            &&& mandate.request_commitment == facts.request_commitment
            &&& mandate.amount_commitment == facts.amount_commitment
            &&& mandate.settlement_terms_commitment == facts.settlement_terms_commitment
            &&& mandate.entity_commitment == authorization.identity.subject_line_id
            &&& mandate.credential_digest == authorization.identity.credential_digest
            &&& authorization.identity.nullifier == facts.order_nullifier
            &&& authorization.identity.context@ == facts.identity_context@
            &&& canonical_scalar(authorization.reserve_blinding@)
            &&& canonical_scalar(authorization.side_blinding@)
            &&& canonical_scalar(authorization.reserve_reblinding@)
        },
{
}

/// A saved reserve stands exactly where it is for this deployment, facility and
/// asset, repeats what is derived from its order, and its witness is the
/// facility's next generation with the commitments that the request names.
pub proof fn lemma_reserve_repeats_the_order(
    prepared: &PreparedCorporateReserve,
    config: &CorporateNativeConfig,
    facts: ReserveFacts,
)
    ensures
        prepared.fault(config, Ok(facts)) is None == {
            let mandate = prepared.request.mandate;
            &&& mandate.scope.application_binding == facts.application_binding
            &&& mandate.scope.venue_id == config.venue_id
            &&& mandate.scope.defmi_id == config.defmi_id
            &&& mandate.facility_id == config.facility_id
            &&& mandate.asset_id == config.asset_id
            &&& mandate.hold_id == facts.reservation_id
            &&& prepared.request.order_commitment == facts.order_commitment
            &&& mandate.participant_public@ == facts.participant_public@
            &&& mandate.request_commitment == facts.request_commitment
            &&& mandate.amount_commitment == facts.amount_commitment
            &&& mandate.settlement_terms_commitment == facts.settlement_terms_commitment
            &&& prepared.facility_after.facility_id == config.facility_id
            &&& prepared.facility_after.sequence == prepared.request.before_sequence + 1
            &&& prepared.request.after == facts.facility_after_commitments
            &&& canonical_scalar(prepared.reserve_blinding@)
            &&& canonical_scalar(prepared.side_blinding@)
            &&& canonical_scalar(prepared.request.reserve_reblinding@)
            &&& canonical_scalar(prepared.facility_after.blindings@[0]@)
            &&& canonical_scalar(prepared.facility_after.blindings@[1]@)
            &&& canonical_scalar(prepared.facility_after.blindings@[2]@)
        },
{
}

/// An answered reserve counts only where the ledger itself shows it: active, new,
/// with the permit's escrow and receipt, and with the facility at the reserve's
/// generation or beyond it.
pub proof fn lemma_permit_alone_confirms_nothing(
    config: &CorporateNativeConfig,
    prepared: &PreparedCorporateReserve,
    facts: Result<ReserveFacts, String>,
    issued: &IssuedReserve,
    canonical: &CanonicalReservation,
    binding: Seq<u8>,
    facility: &CanonicalFacility,
)
    ensures
        finalized_fault(config, prepared, facts, issued, canonical, binding, facility) is None == {
            &&& prepared.fault(config, facts) is None
            &&& issued.permit_checked is Ok
            &&& issued.authority_checked is Ok
            &&& canonical.binding@ == binding
            &&& canonical.status@ == "active"@
            &&& canonical.accepted_height > 0
            &&& canonical.sequence == 0
            &&& canonical.escrow_note_id == issued.permit.escrow_note_id
            &&& canonical.reserve_receipt_digest == issued.permit.reserve_receipt_digest
            &&& facility.sequence > prepared.facility_after.sequence || (facility.sequence
                == prepared.facility_after.sequence && facility.commitments
                == prepared.request.after)
        },
{
}

/// A reserve is made only on a note that serves, at one state of the ledger, of a
/// request that was built on that very note.
pub proof fn lemma_reserve_is_built_on_the_chosen_note(
    config: &CorporateNativeConfig,
    read: &ReserveRead,
    order: &OrderTerms,
    source_note: Option<Digest32>,
    built: BuiltRequest,
)
    requires
        reserve_fault(config, read, order, source_note, Ok(built)) is None,
    ensures
        ({
            let note = read.notes@[built.source_index as int];
            &&& read.scope.configured(config, read.manifest)
            &&& read.facility.state_root == read.root
            &&& read.chain_root == read.root
            &&& built.source_index < read.notes@.len()
            &&& is_zero(note.lock_id@)
            &&& note.value >= order.reservation_limit
            &&& note.serial matches Ok(serial) && !serial.spent && serial.state_root == read.root
            &&& source_note is Some ==> source_note == Some(note.note_id)
            &&& order.reservation_limit <= config.facility_values@[0]
            &&& read.facility.sequence < u64::MAX
        }),
{
    lemma_first_serving_note_is_chosen(
        read.notes@,
        order.reservation_limit,
        source_note,
        read.root,
        0,
    );
}

/// Funding is refused for good exactly where the facility has less available than
/// the limit, or no note serves although everything could be read; every other
/// refusal is worth another try. Where it is not refused, a note serves.
pub proof fn lemma_only_missing_funds_are_final(
    config: &CorporateNativeConfig,
    authorization_fault: Option<Seq<char>>,
    read: &FundingRead,
    limit: u64,
    source_note: Option<Digest32>,
)
    ensures
        ({
            let refusal = funding_refusal(config, authorization_fault, read, limit, source_note);
            let current = {
                &&& authorization_fault is None
                &&& read.mandate_live is Ok
                &&& read.facility.state_root == read.root
                &&& read.chain_root == read.root
                &&& canonical_scalar(config.facility_blindings@[0]@)
                &&& canonical_scalar(config.facility_blindings@[1]@)
                &&& canonical_scalar(config.facility_blindings@[2]@)
                &&& read.configured_commitments == read.facility.commitments
            };
            let choice = chosen_note(read.notes@, limit, source_note, read.root, 0);
            &&& refusal == Some(None::<Seq<char>>) ==> current && (config.facility_values@[0]
                < limit || choice is Missing)
            &&& current && config.facility_values@[0] < limit ==> refusal == Some(
                None::<Seq<char>>,
            )
            &&& refusal is None == (current && limit <= config.facility_values@[0]
                && canonical_scalar(config.wallet_spend_secret@) && choice is Selected)
        }),
{
}

/// An intake passes only as a valid, tracked request that is not from the future,
/// of exactly the order that was authorized, for this market, and in conflict
/// with nothing that was saved under its name.
pub proof fn lemma_intake_is_one_authorized_order(
    journal: JournalView,
    config: &CorporateNativeConfig,
    market_id: Seq<char>,
    id: Seq<char>,
    intent: &StoredCorporateIntent,
    authorization: &CorporateReserveAuthorization,
    offered: Result<AuthorizationFacts, String>,
    market: Result<Seq<char>, Seq<char>>,
    now: u64,
)
    requires
        intake_fault(
            journal,
            config,
            market_id,
            id,
            intent,
            authorization,
            offered,
            market,
            now,
        ) is None,
    ensures
        request_id_valid(id),
        intent.reserve_send_tracking,
        intent.accepted_at <= now,
        authorization.mandate.valid_from <= now,
        authorization.order_wire@ == intent.order_wire@,
        authorization.signing_key@ == intent.signing_key@,
        authorization.eligibility_commitment == intent.eligibility_commitment,
        intent.accepted_at <= authorization.mandate.valid_from,
        authorization.mandate.valid_until == intent.expires_at,
        authorization.fault(config, offered) is None,
        market == Ok::<Seq<char>, Seq<char>>(market_id),
        journal.intent(id) is Ok,
        journal.intent(id)->Ok_0 matches Some(kept) ==> {
            &&& kept.input_digest == intent.input_digest
            &&& kept.order_wire@ == intent.order_wire@
            &&& kept.signing_key@ == intent.signing_key@
            &&& kept.eligibility_commitment == intent.eligibility_commitment
            &&& kept.accepted_at == intent.accepted_at
            &&& kept.expires_at == intent.expires_at
        },
        journal.intent(id)->Ok_0 is None ==> now < intent.expires_at,
        journal.authorization(id) is Ok,
        journal.authorization(id)->Ok_0 matches Some(kept) ==> sha256(kept.digest_bytes())
            == sha256(authorization.digest_bytes()),
{
}

/// Which certificates may ask for what: the pinned owners for everything but
/// claim signers, the pinned market certificates for claim signers and nothing
/// else, and no other certificate for anything.
pub proof fn lemma_each_operation_has_its_clients(
    config: &CorporateApiConfig,
    request: &CorporateRequest,
    fingerprint: Digest32,
)
    ensures
        authorized(config, request, fingerprint) ==> config.clients@.contains(fingerprint)
            || config.claim_authorization_clients@.contains(fingerprint),
        request is Enqueue || request is QueueStatus || request is WalletSnapshot ==> authorized(
            config,
            request,
            fingerprint,
        ) == config.clients@.contains(fingerprint),
        request is IssueClaimAuthorizations ==> authorized(config, request, fingerprint)
            == config.claim_authorization_clients@.contains(fingerprint),
{
}

/// New claim signers are given only to a side of the fill that is this wallet's,
/// at the ledger's current active heads, for an issue that extends them by
/// exactly the fills that are not yet on the ledger.
pub proof fn lemma_claims_extend_the_ledger(
    config: &CorporateNativeConfig,
    reservation_id: Digest32,
    issue: &ClaimIssue,
    fills: Seq<PriorFill>,
    permit: &PermitTerms,
    scope: ReserveScope,
    context: &ClaimContext,
    match_slots: u16,
)
    requires
        claim_fault(
            config,
            reservation_id,
            issue,
            fills,
            permit,
            scope,
            context,
            match_slots,
        ) is None,
    ensures
        ({
            let payer = issue.payer.reservation_id == reservation_id;
            let local = if payer {
                issue.payer
            } else {
                issue.payee
            };
            let start = HeadPair { payer: context.payer_head, payee: context.payee_head };
            let reached = followed_heads(
                start,
                fills,
                context.root,
                context.application,
                config,
                fills.len(),
            );
            &&& payer || issue.payee.reservation_id == reservation_id
            &&& permit.reservation_id == reservation_id
            &&& permit.asset_id == local.asset_id && permit.asset_id == config.asset_id
            &&& permit.participant_handle == local.participant_handle
            &&& permit.participant_handle == context.handle
            &&& permit.facility_id == config.facility_id
            &&& permit.venue_id == config.venue_id
            &&& context.permit_valid is Ok
            &&& context.admission_valid is Ok
            &&& fills.len() < match_slots
            &&& context.payer_head.state_root == context.root && context.payer_head.active
            &&& context.payee_head.state_root == context.root && context.payee_head.active
            &&& context.payer_head.hold_id == issue.payer.reservation_id
            &&& context.payee_head.hold_id == issue.payee.reservation_id
            &&& context.payer_head.asset_id == issue.payer.asset_id
            &&& context.payee_head.asset_id == issue.payee.asset_id
            &&& context.payer_head.scope == scope && context.payee_head.scope == scope
            &&& context.root_afterwards == context.root
            &&& reached matches Ok(pair) && {
                let head = if payer {
                    pair.payer
                } else {
                    pair.payee
                };
                &&& pair.payer.active && pair.payee.active
                &&& pair.payer.sequence == issue.payer.sequence
                &&& pair.payee.sequence == issue.payee.sequence
                &&& pair.payer.hold_id == issue.payer.reservation_id
                &&& pair.payee.hold_id == issue.payee.reservation_id
                &&& head.mandate_digest == permit.authority_digest
                &&& head.escrow_note_id == permit.escrow_note_id
            }
        }),
{
}

/// Every fill that is followed belongs to the same root and deployment and to a
/// batch, was not followed before, and moves at least one of the two sides: each
/// side to what the fill leaves of it where the fill touches it, and not at all
/// where it does not.
pub proof fn lemma_followed_fills_move_their_sides(
    start: HeadPair,
    fills: Seq<PriorFill>,
    root: Digest32,
    application: Digest32,
    config: &CorporateNativeConfig,
    count: nat,
)
    requires
        0 < count <= fills.len(),
        followed_heads(start, fills, root, application, config, count) is Ok,
    ensures
        ({
            let fill = fills[count - 1];
            let before = followed_heads(
                start,
                fills,
                root,
                application,
                config,
                (count - 1) as nat,
            );
            let after = followed_heads(start, fills, root, application, config, count)->Ok_0;
            &&& before matches Ok(pair) && {
                let payer = fill.securities_hold == pair.payer.hold_id || fill.cash_hold
                    == pair.payer.hold_id;
                let payee = fill.securities_hold == pair.payee.hold_id || fill.cash_hold
                    == pair.payee.hold_id;
                &&& payer || payee
                &&& payer ==> fill.payer_after is Ok && after.payer == fill.payer_after->Ok_0
                &&& !payer ==> after.payer == pair.payer
                &&& payee ==> fill.payee_after is Ok && after.payee == fill.payee_after->Ok_0
                &&& !payee ==> after.payee == pair.payee
            }
            &&& fill.before_root == root
            &&& fill.batched
            &&& fill.scope.application_binding == application
            &&& fill.scope.venue_id == config.venue_id
            &&& fill.scope.defmi_id == config.defmi_id
            &&& forall|j: int|
                0 <= j < count - 1 ==> (#[trigger] fills[j]).operation_id != fill.operation_id
            &&& followed_heads(start, fills, root, application, config, 0) == Ok::<
                HeadPair,
                Seq<char>,
            >(start)
        }),
{
}

/// The first scope that the ledger reported stays pinned, and is the one that is
/// used from then on.
pub proof fn lemma_first_scope_stays(
    journal: JournalView,
    first: Result<ReserveScope, Seq<char>>,
    second: Result<ReserveScope, Seq<char>>,
)
    requires
        journal.pin_scope(first).1 is Ok,
    ensures
        ({
            let (pinned, scope) = journal.pin_scope(first);
            &&& pinned.pin_scope(second) == (pinned, scope)
            &&& journal.get("authorization-scope"@) == Ok::<Option<JournalBody>, Seq<char>>(None)
                ==> scope == first
            &&& forall|key: Seq<char>|
                key != "authorization-scope"@ ==> (#[trigger] pinned.get(key)) == journal.get(key)
        }),
{
}

} // verus!
