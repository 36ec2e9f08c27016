//! What the evidence of an acceptance run, a status and a configuration tell.

use crate::bytes::{hex_text, hex_value, is_zero, sha256, text_bytes, Digest32};
use crate::claim_authorizations::{generated, ClaimDraft};
use crate::corporate::{
    configured_witness, preparation_fault, CorporateNativeConfig, NoteChoiceView,
    PreparedCorporateReserve, ReserveScope,
};
use crate::corporate_api::{acl_scoped, same_intent, CorporateApiConfig};
use crate::corporate_authorization::{AuthorizationFacts, CorporateReserveAuthorization};
use crate::corporate_dispatch::{pump_after, pump_next, PumpEvent, PumpState};
use crate::corporate_journal_model::{
    stage_known, AuthorizationEndReason, ClaimReply, EndedCorporateAuthorization, JournalBody,
    JournalView, StoredClaimAuthorizations, StoredCorporateIntent,
};
use crate::lab_provision::{participant_configured, ParticipantSecrets};
use crate::market_journal::MarketCompletedRound;
use crate::market_runtime::{
    matched_slots, observation_fault, observations_fault, ObservedFinality, Settled,
};
use crate::market_worker::{crash_observed, fills_stand, notional_of, MarketStatus};
use crate::native_expiry_acceptance::{last_line, queued_expiry_stands, QueuedExpiry};
use crate::native_lifecycle_acceptance::{funded_by_note, release_stands, FundingReport, ReleaseReport};
use crate::native_reports::{
    advanced_fault, cycle_adds_up, cycle_stands, field_text, reuse_acceptance_fault, reuse_adds_up,
    wallet_fault, wallets_fault, CycleTotals, ReuseEvidence, ReuseReport, ReuseTotals, RoundReport,
    WalletEvidence, WalletKind,
};
use crate::node_service::identity_published;
use crate::paths::path_below;
use crate::scalars::canonical_scalar;
use crate::store::{status_shows, NodeStoreStatus};
use crate::store_model::{PrivateStateFinality, StoreView};
use crate::text::{trimmed, words};
use crate::types::{ClusterPublicConfig, OrderCommitment};
use vstd::prelude::*;

verus! {

/// Two settled rounds make a cycle only where each is a native settlement of this
/// contract in its own transaction, nobody approved anything after the match, and
/// every fill was observed by seven nodes and answered by two signatures over four
/// fresh keys.
pub proof fn lemma_cycle_rounds_are_whole(
    first: &RoundReport,
    next: &RoundReport,
    source: &ReuseReport,
    reuse: OrderCommitment,
    contract_hash: Seq<char>,
    fills: u64,
)
    requires
        cycle_stands(first, next, source, reuse, contract_hash),
    ensures
        first.canonical_transaction.encoded@ != next.canonical_transaction.encoded@,
        first.atomically_settled_fills == Some(2u64),
        next.atomically_settled_fills == Some(1u64),
        forall|round: RoundReport|
            (round == *first || round == *next) && round.atomically_settled_fills == Some(fills)
                ==> {
                &&& field_text(#[trigger] round.contract_sha256) == Some(contract_hash)
                &&& round.native_note_settlement == Some(true)
                &&& round.post_match_financial_approval_signatures == Some(0u64)
                &&& round.node_observed_canonical_finality matches Some(count) && count == 7 * fills
                &&& round.claim_authorization_response_signatures matches Some(count) && count == 2
                    * fills
                &&& round.post_match_participant_signatures matches Some(count) && count == 2
                    * fills
                &&& round.fresh_claim_authorization_keys matches Some(count) && count == 4 * fills
                &&& (round.claim_authorization_key_fingerprints->0)@.len() == 4 * fills
            },
{
}

/// The second round of a cycle matches the order that the recovered note funded:
/// one at 101, against the maker's order as the first round left it.
pub proof fn lemma_second_match_spends_the_refund(
    first: &RoundReport,
    next: &RoundReport,
    source: &ReuseReport,
    reuse: OrderCommitment,
    contract_hash: Seq<char>,
)
    requires
        cycle_stands(first, next, source, reuse, contract_hash),
    ensures
        field_text(next.arriving_order_commitment) == Some(reuse.key()),
        field_text(source.order_commitment) == Some(reuse.key()),
        source.selected_funding_note_spent_verified == Some(true),
        source.canonical_reserve_verified == Some(true),
        source.facility_sequence == Some(4u64),
        next.trade_price == Some(101u64),
        next.trade_quantity == Some(1u64),
        next.maker_head_sequence_before == Some(1u64),
        next.maker_head_sequence_after == Some(2u64),
{
}

/// The totals of a cycle are the sums of its two rounds, over different keys, at
/// the ledger's root.
pub proof fn lemma_cycle_totals_are_sums(
    totals: &CycleTotals,
    first: &RoundReport,
    next: &RoundReport,
    source: &ReuseReport,
    reuse: OrderCommitment,
    contract_hash: Seq<char>,
    root: Digest32,
    continues_lifecycle: bool,
)
    requires
        cycle_stands(first, next, source, reuse, contract_hash),
        cycle_adds_up(totals, first, next, root, continues_lifecycle),
    ensures
        totals.total_native_fills == first.atomically_settled_fills->0
            + next.atomically_settled_fills->0,
        totals.claim_signatures == first.claim_authorization_response_signatures->0
            + next.claim_authorization_response_signatures->0,
        totals.fresh_claim_authorization_keys == first.fresh_claim_authorization_keys->0
            + next.fresh_claim_authorization_keys->0,
        totals.claim_keys@.len() == totals.fresh_claim_authorization_keys,
        totals.claim_authorization_key_fingerprints@.len() == totals.claim_keys@.len(),
        totals.completed_native_rounds == 2,
        totals.post_match_financial_approval_signatures == 0,
        totals.first_settlement_root@ == first.native_after_root.encoded@,
        totals.native_after_root@ == hex_text(root@),
        forall|i: int|
            0 <= i < 12 ==> (#[trigger] totals.claim_authorization_key_fingerprints@[i])@
                == hex_text(totals.claim_keys@[i]@),
        totals.recipient_claims_redeemed == 8,
        totals.private_facility_witnesses_recovered == 4,
        totals.final_facility_sequences@ == seq![5u64, 5u64],
        totals.recovered_note_funded_next_order && totals.next_order_matched,
        totals.next_order_mpc_nodes == 7,
{
}

/// A reused note is accepted only behind its own settlement, with both wallets and
/// facilities where they belong, for an order that seven nodes admitted and that
/// the recovered note funded.
pub proof fn lemma_reuse_has_its_evidence(
    round: &RoundReport,
    maker: &WalletEvidence,
    taker: &WalletEvidence,
    source: &ReuseReport,
    reuse: &ReuseEvidence,
    pretrade: bool,
    cluster: &ClusterPublicConfig,
    contract_hash: Seq<char>,
    root: Result<Digest32, String>,
)
    ensures
        reuse_acceptance_fault(
            round,
            maker,
            taker,
            source,
            reuse,
            pretrade,
            cluster,
            contract_hash,
            root,
        ) is None == {
            &&& field_text(round.contract_sha256) == Some(contract_hash)
            &&& round.native_note_settlement == Some(true)
            &&& wallet_fault(WalletKind::Wallet, maker, 1, 2) is None
            &&& wallet_fault(WalletKind::Wallet, taker, 2, 2) is None
            &&& cluster.fault is None
            &&& reuse.receipts_valid@.len() == 7
            &&& reuse.receipt.admitted(cluster, reuse.manifest_valid, reuse.receipts_valid@)
            &&& pretrade
            &&& field_text(source.order_commitment) == Some(reuse.receipt.manifest.commitment.key())
            &&& source.selected_funding_note_spent_verified == Some(true)
            &&& source.canonical_reserve_verified == Some(true)
            &&& source.facility_sequence == Some(3u64)
            &&& advanced_fault(WalletKind::Wallet, maker, 2) is None
            &&& advanced_fault(WalletKind::Wallet, taker, 3) is None
            &&& root is Ok
        },
{
}

/// What an accepted reuse publishes: the settled round's root and the ledger's,
/// three redeemed claims, and the admitted order, which has not traded yet.
pub proof fn lemma_reuse_totals_name_the_order(
    totals: &ReuseTotals,
    round: &RoundReport,
    reuse: &ReuseEvidence,
    root: Digest32,
)
    requires
        reuse_adds_up(totals, round, reuse, root),
    ensures
        totals.native_settlement_root@ == round.native_after_root.encoded@,
        totals.native_after_root@ == hex_text(root@),
        totals.next_order_commitment@ == hex_text(reuse.receipt.manifest.commitment.0@),
        totals.recipient_claims_redeemed == 3,
        totals.private_facility_witnesses_recovered == 2,
        totals.recovered_note_funded_next_order,
        !totals.next_order_matched,
        totals.next_order_mpc_nodes == 7,
{
}

/// A queued expiry stands only where one request reserved nothing, the other was
/// released in the very transaction that the queue holds, both survived the
/// restart, and the wallet that got its note back funded the next order with it.
pub proof fn lemma_queued_expiry_returns_the_funds(
    reports: &QueuedExpiry,
    order: OrderCommitment,
)
    requires
        queued_expiry_stands(reports, order),
    ensures
        field_text(reports.absent_status) == Some("never_reserved"@),
        field_text(reports.absent_request) == Some("native-expiry-absent-001"@),
        field_text(reports.released_status) == Some("released"@),
        field_text(reports.released_request) == Some("native-expiry-release-002"@),
        field_text(reports.stop_checkpoint) == Some("after-expiry-before-journal"@),
        reports.first_aborted,
        reports.second_transaction.encoded@ == reports.released_transaction.encoded@,
        reports.queue_before@ == reports.queue_after@,
        reports.queue_length == Some(2usize),
        reports.wallet_recovered == Some(true),
        reports.wallet_balances_verified == Some(true),
        reports.wallet_unfilled_releases == Some(1u64),
        reports.wallet_facility_sequence == Some(2u64),
        reports.funding.facility_sequence == Some(3u64),
        reports.funding.selected_funding_note_spent_verified == Some(true),
        reports.funding.canonical_reserve_verified == Some(true),
        field_text(reports.funding.order_commitment) == Some(order.key()),
{
}

/// An order counts as funded by a note only where the note is spent, the reserve
/// is on the ledger at the expected place, and the report names the order; a
/// release counts only where seven nodes observed it, a retry changed nothing and
/// the wallet has it back.
pub proof fn lemma_funding_and_release_are_proved(
    funding: &FundingReport,
    release: &ReleaseReport,
    facility_sequence: u64,
    order: OrderCommitment,
)
    ensures
        funded_by_note(funding, facility_sequence, order) == {
            &&& funding.selected_funding_note_spent_verified == Some(true)
            &&& funding.canonical_reserve_verified == Some(true)
            &&& funding.facility_sequence == Some(facility_sequence)
            &&& field_text(funding.order_commitment) == Some(hex_text(order.0@))
        },
        release_stands(release, facility_sequence) == {
            &&& release.node_observations == Some(7u64)
            &&& release.exact_retry_unchanged == Some(true)
            &&& release.wallet_balances_verified == Some(true)
            &&& release.wallet_facility_sequence == Some(facility_sequence)
            &&& release.wallet_notes == Some(4u64)
        },
{
}

/// The last round of an accepted market fills the arriving order completely in two
/// neighbouring slots, the better price first: 75 in all with public depth and 90
/// without, and all seven nodes observed both fills.
pub proof fn lemma_best_prices_trade_first(last: &MarketCompletedRound, depth: bool)
    requires
        fills_stand(last, depth),
    ensures
        ({
            let slots = last.result.slots@;
            let traded = matched_slots(slots);
            let a = slots[traded[0] as int];
            let b = slots[traded[1] as int];
            &&& traded.len() == 2
            &&& traded[1] == traded[0] + 1
            &&& traded[0] == (if depth {
                1int
            } else {
                0int
            })
            &&& a.trade_quantity == 30
            &&& a.trade_price == (if depth {
                100int
            } else {
                101int
            })
            &&& b.trade_price == 100
            &&& a.trade_quantity + b.trade_quantity == (if depth {
                75int
            } else {
                90int
            })
            &&& notional_of(slots, slots.len()) == Some(
                (a.trade_price * a.trade_quantity + b.trade_price * b.trade_quantity) as nat,
            )
            &&& last.result.arriving_remaining == 0
            &&& last.finality_observations == 7 * traded.len()
        }),
{
}

/// A crash was observed exactly where three different processes of 64 hexadecimal
/// digits ran and the stopped one left with code 75.
pub proof fn lemma_crash_is_observed_in_three_processes(processes: Seq<char>, exit: Seq<char>)
    ensures
        crash_observed(processes, exit) == {
            let ids = words(processes);
            &&& ids.len() == 3
            &&& ids[0] != ids[1]
            &&& ids[0] != ids[2]
            &&& ids[1] != ids[2]
            &&& forall|i: int|
                0 <= i < 3 ==> crate::market_worker::process_id(#[trigger] ids[i])
            &&& trimmed(exit) == "75"@
        },
        crate::market_worker::process_id(exit) == (text_bytes(exit).len() == 64 && forall|i: int|
            0 <= i < 64 ==> hex_value(#[trigger] text_bytes(exit)[i]) is Some),
{
}

/// Two statuses of a market show the same exactly where they agree in every part.
pub proof fn lemma_same_status_agrees(a: &MarketStatus, b: &MarketStatus)
    requires
        a.shows(b),
    ensures
        a.completed_market_rounds == b.completed_market_rounds,
        a.autonomously_settled_fills == b.autonomously_settled_fills,
        a.completed_round_digests@.len() == b.completed_round_digests@.len(),
        a.transaction_ids@.len() == b.transaction_ids@.len(),
        a.canonical_roots@.len() == b.canonical_roots@.len(),
        forall|i: int|
            0 <= i < a.completed_round_digests@.len() ==> (
            #[trigger] a.completed_round_digests@[i])@ == b.completed_round_digests@[i]@,
        forall|i: int|
            0 <= i < a.transaction_ids@.len() ==> (#[trigger] a.transaction_ids@[i])@
                == b.transaction_ids@[i]@,
        forall|i: int|
            0 <= i < a.canonical_roots@.len() ==> (#[trigger] a.canonical_roots@[i])@
                == b.canonical_roots@[i]@,
{
    let x = crate::store::texts(a.completed_round_digests@);
    let y = crate::store::texts(b.completed_round_digests@);
    assert(x.len() == y.len());
    assert forall|i: int| 0 <= i < a.completed_round_digests@.len() implies (
    #[trigger] a.completed_round_digests@[i])@ == b.completed_round_digests@[i]@ by {
        assert(x[i] == y[i]);
    }
    let x = crate::store::texts(a.transaction_ids@);
    let y = crate::store::texts(b.transaction_ids@);
    assert(x.len() == y.len());
    assert forall|i: int| 0 <= i < a.transaction_ids@.len() implies (
    #[trigger] a.transaction_ids@[i])@ == b.transaction_ids@[i]@ by {
        assert(x[i] == y[i]);
    }
    let x = crate::store::texts(a.canonical_roots@);
    let y = crate::store::texts(b.canonical_roots@);
    assert(x.len() == y.len());
    assert forall|i: int| 0 <= i < a.canonical_roots@.len() implies (
    #[trigger] a.canonical_roots@[i])@ == b.canonical_roots@[i]@ by {
        assert(x[i] == y[i]);
    }
}

/// A node's status counts what it holds, and names its place in the chain and the
/// digest of its whole state.
pub proof fn lemma_status_counts_the_store(
    status: &NodeStoreStatus,
    store: StoreView,
    payload: Seq<u8>,
)
    requires
        status_shows(status, store, payload),
    ensures
        status.party == store.party,
        status.generation == store.generation,
        status.record_count == store.records.dom().len(),
        status.completed_round_count == store.completed_rounds.dom().len(),
        status.private_head_count == store.private_heads.dom().len(),
        status.finalized_private_round_count == store.finalized_private_rounds.dom().len(),
        status.ordering_sequence == store.ordering_sequence,
        status.ordering_head == store.ordering_head,
        status.state_digest@ == sha256(payload),
{
}

/// Two intents are the same only where no term of them differs.
pub proof fn lemma_same_intent_has_the_same_terms(
    a: &StoredCorporateIntent,
    b: &StoredCorporateIntent,
)
    ensures
        same_intent(a, b) == {
            &&& a.order_wire@ == b.order_wire@
            &&& a.signing_key@ == b.signing_key@
            &&& a.input_digest == b.input_digest
            &&& a.eligibility_commitment == b.eligibility_commitment
            &&& a.accepted_at == b.accepted_at
            &&& a.expires_at == b.expires_at
            &&& a.reserve_send_tracking == b.reserve_send_tracking
        },
{
}

/// A copy of a reserve loses nothing: what names it and what it holds are the
/// same.
pub proof fn lemma_equal_reserves_are_one(a: &PreparedCorporateReserve, b: &PreparedCorporateReserve)
    requires
        a.equals(b),
    ensures
        a.request.wire@ == b.request.wire@,
        a.request.mandate.wire@ == b.request.mandate.wire@,
        a.request.mandate.version == b.request.mandate.version,
        a.request.mandate.scope == b.request.mandate.scope,
        a.request.mandate.request_commitment == b.request.mandate.request_commitment,
        a.request.mandate.facility_id == b.request.mandate.facility_id,
        a.request.mandate.hold_id == b.request.mandate.hold_id,
        a.request.mandate.asset_id == b.request.mandate.asset_id,
        a.request.mandate.amount_commitment == b.request.mandate.amount_commitment,
        a.request.mandate.participant_handle == b.request.mandate.participant_handle,
        a.request.mandate.entity_commitment == b.request.mandate.entity_commitment,
        a.request.mandate.credential_digest == b.request.mandate.credential_digest,
        a.request.mandate.settlement_terms_commitment
            == b.request.mandate.settlement_terms_commitment,
        a.request.mandate.valid_from == b.request.mandate.valid_from,
        a.request.mandate.valid_until == b.request.mandate.valid_until,
        a.request.mandate.participant_public@ == b.request.mandate.participant_public@,
        a.request.order_commitment == b.request.order_commitment,
        a.request.order_authorization_salt == b.request.order_authorization_salt,
        a.request.reserve_reblinding == b.request.reserve_reblinding,
        a.request.before_sequence == b.request.before_sequence,
        a.request.before == b.request.before,
        a.request.after == b.request.after,
        a.order_wire@ == b.order_wire@,
        a.signing_key == b.signing_key,
        a.eligibility_commitment == b.eligibility_commitment,
        a.side_blinding == b.side_blinding,
        a.reserve_blinding == b.reserve_blinding,
        a.facility_after == b.facility_after,
{
}

/// The record of drawn claim signers is the draft itself with its response, valid
/// from now on and without end.
pub proof fn lemma_drafted_record_is_the_draft(
    record: &StoredClaimAuthorizations,
    issue_version: u16,
    draft: &ClaimDraft,
    now: u64,
    response_wire: Seq<u8>,
    reply: Result<ClaimReply, String>,
)
    requires
        record.drafted(issue_version, draft, now, response_wire, reply),
    ensures
        record.version == issue_version,
        record.issue_view == draft.issue_view,
        record.reservation_id == draft.reservation_id,
        record.sequence == draft.sequence,
        record.order_signer == draft.order_signer,
        record.first == draft.first,
        record.second == draft.second,
        record.shape == draft.shape,
        record.response_wire@ == response_wire,
        record.reply == reply,
        record.not_before == now,
        record.not_after == u64::MAX,
{
}

/// A provisioned participant starts with its whole amount available, nothing held
/// and nothing outstanding, under its own secrets and in its own facility.
pub proof fn lemma_provisioned_funds_are_available(
    config: &CorporateNativeConfig,
    maker: bool,
    secrets: &ParticipantSecrets,
    certificate: Digest32,
    issuer_public: Seq<u8>,
    asset_id: Digest32,
)
    requires
        participant_configured(config, maker, secrets, certificate, issuer_public, asset_id),
    ensures
        config.facility_values@[0] == (if maker {
            120u64
        } else {
            10_000u64
        }),
        config.facility_values@[1] == 0,
        config.facility_values@[2] == 0,
        config.facility_blindings@[0] == secrets.capacity_blinding,
        is_zero(config.facility_blindings@[1]@),
        is_zero(config.facility_blindings@[2]@),
        config.wallet_spend_secret == secrets.spend,
        config.wallet_opening_seed@ == secrets.opening_seed@,
        config.credential_custody_seed@ == secrets.custody_seed@,
        config.identity_seed == secrets.identity_seed,
        config.asset_id == asset_id,
        config.issuer_public@ == issuer_public,
        config.claim_authorization_endpoint.certificate_sha256 == certificate,
        config.claim_authorization_endpoint.host@
            == config.claim_authorization_endpoint.server_name@,
        config.facility_id@ == sha256(
            text_bytes("OCLOB:LAB:NATIVE-FACILITY:v1"@) + text_bytes(
                if maker {
                    "distributed-maker"@
                } else {
                    "distributed-taker"@
                },
            ),
        ),
{
    assert(config.facility_values@[0] == (if maker {
        120u64
    } else {
        10_000u64
    }));
}

/// The observations of a settled round stand exactly where every node saw this
/// transaction in this block, between these roots, with this private finality.
pub proof fn lemma_every_node_saw_the_settlement(
    observed: Seq<ObservedFinality>,
    settled: &Settled,
    finality: PrivateStateFinality,
    count: nat,
)
    requires
        count <= observed.len(),
    ensures
        observations_fault(observed, settled, finality, count) is None == (forall|i: int|
            0 <= i < count ==> {
                &&& (#[trigger] observed[i]).transaction_id@ == settled.transaction_id@
                &&& observed[i].block_id@ == settled.block_id@
                &&& observed[i].before_root == settled.before_root
                &&& observed[i].after_root == settled.after_root
                &&& observed[i].aggregate == Ok::<PrivateStateFinality, String>(finality)
            }),
    decreases count,
{
    if count > 0 {
        lemma_every_node_saw_the_settlement(observed, settled, finality, (count - 1) as nat);
        let last = observed[count - 1];
        assert(observation_fault(&last, settled, finality) is None == {
            &&& last.transaction_id@ == settled.transaction_id@
            &&& last.block_id@ == settled.block_id@
            &&& last.before_root == settled.before_root
            &&& last.after_root == settled.after_root
            &&& last.aggregate == Ok::<PrivateStateFinality, String>(finality)
        });
    }
}

/// Funding is chosen exactly where the ledger answers for this venue and
/// application, all of it was read at one root, the wallet's secrets are whole and
/// a note serves.
pub proof fn lemma_funding_needs_a_whole_wallet(
    scope: &ReserveScope,
    config: &CorporateNativeConfig,
    manifest: Digest32,
    roots_agree: bool,
    choice: NoteChoiceView,
)
    ensures
        preparation_fault(scope, config, manifest, roots_agree, choice) is None == {
            &&& scope.venue_id == config.venue_id
            &&& scope.defmi_id == config.defmi_id
            &&& scope.application_binding == manifest
            &&& scope.amount_bits == 32
            &&& roots_agree
            &&& canonical_scalar(config.wallet_spend_secret@)
            &&& config.wallet_opening_seed@.len() == 96
            &&& choice is Selected
            &&& forall|i: int|
                0 <= i < 3 ==> canonical_scalar((#[trigger] config.facility_blindings@[i])@)
        },
{
    let blindings = configured_witness(config, 0).blindings;
    assert(blindings == config.facility_blindings);
    assert(configured_witness(config, 0).blindings_canonical() == (forall|i: int|
        0 <= i < 3 ==> canonical_scalar((#[trigger] config.facility_blindings@[i])@))) by {
        assert(blindings@[0] == config.facility_blindings@[0]);
        assert(blindings@[1] == config.facility_blindings@[1]);
        assert(blindings@[2] == config.facility_blindings@[2]);
    }
}

/// A journal takes an authorization only for an intent that it holds, of the same
/// order, key and eligibility, from no earlier than the intake to exactly its end.
pub proof fn lemma_kept_authorization_is_the_intents(
    journal: JournalView,
    id: Seq<char>,
    value: CorporateReserveAuthorization,
    config: &CorporateNativeConfig,
    facts: Result<AuthorizationFacts, String>,
    saved_facts: Result<AuthorizationFacts, String>,
)
    ensures
        ({
            let (next, r) = journal.save_authorization(id, value, config, facts, saved_facts);
            let intent = (journal.intent(id)->Ok_0)->Some_0;
            let fits = {
                &&& journal.intent(id) is Ok
                &&& journal.intent(id)->Ok_0 is Some
                &&& value.fault(config, facts) is None
                &&& value.order_wire@ == intent.order_wire@
                &&& value.signing_key@ == intent.signing_key@
                &&& value.eligibility_commitment == intent.eligibility_commitment
                &&& intent.accepted_at <= value.mandate.valid_from
                &&& value.mandate.valid_until == intent.expires_at
            };
            &&& r is Ok ==> fits
            &&& next != journal ==> fits
        }),
{
}

/// The wallets of a cycle stand exactly where both sides do after the first round
/// and both do, with their facilities moved on, at the end.
pub proof fn lemma_cycle_wallets_stand_twice(wallets: Seq<WalletEvidence>)
    ensures
        wallets_fault(wallets) is None == {
            &&& wallets.len() == 4
            &&& wallet_fault(WalletKind::Cycle, &wallets[0], 2, 4) is None
            &&& wallet_fault(WalletKind::Cycle, &wallets[1], 3, 3) is None
            &&& wallet_fault(WalletKind::Cycle, &wallets[2], 3, 5) is None
            &&& wallet_fault(WalletKind::Cycle, &wallets[3], 5, 5) is None
            &&& advanced_fault(WalletKind::Cycle, &wallets[2], 5) is None
            &&& advanced_fault(WalletKind::Cycle, &wallets[3], 5) is None
        },
{
}

/// A log has one last line at most: what follows the last line feed that any other
/// byte follows.
pub proof fn lemma_last_line_is_one(log: Seq<u8>, start: int, end: int, other: int, stop: int)
    requires
        last_line(log, start, end),
        last_line(log, other, stop),
    ensures
        start == other,
        end == stop,
        !log.subrange(start, end).contains(10u8),
        forall|i: int| end <= i < log.len() ==> log[i] == 10u8,
{
    assert(log[end - 1] != 10);
    assert(log[stop - 1] != 10);
    if start < other {
        assert(log[other - 1] == 10);
    }
    if other < start {
        assert(log[start - 1] == 10);
    }
    let line = log.subrange(start, end);
    if line.contains(10u8) {
        let i = choose|i: int| 0 <= i < line.len() && line[i] == 10u8;
        assert(log[start + i] == 10u8);
    }
}

/// A name is put below a path behind exactly one separator of its own.
pub proof fn lemma_name_is_put_behind_a_separator(path: Seq<char>, name: Seq<char>)
    ensures
        path.len() > 0 && path.last() == '/' ==> path_below(path, name) == path + name,
        path.len() == 0 || path.last() != '/' ==> path_below(path, name) == path.push('/') + name,
{
    reveal_strlit("/");
    assert("/"@ =~= seq!['/']);
    assert(path + "/"@ =~= path.push('/'));
}

/// A completed draft became a record only where the draft itself had nothing
/// against it, and the record's response stands.
pub proof fn lemma_generated_record_answers(
    record: StoredClaimAuthorizations,
    issue_version: u16,
    draft: ClaimDraft,
    now: u64,
    response_wire: Seq<u8>,
    reply: Result<ClaimReply, String>,
    fits: Result<(), String>,
)
    requires
        generated(
            Ok::<StoredClaimAuthorizations, String>(record),
            issue_version,
            draft,
            now,
            response_wire,
            reply,
            fits,
        ),
    ensures
        draft.fault(now) is None,
        record.issue_view == draft.issue_view,
        record.first == draft.first,
        record.second == draft.second,
        record.order_signer == draft.order_signer,
        record.response_wire@ == response_wire,
        record.not_before == now,
        record.answer_fault(
            issue_version,
            draft.order_signer,
            draft.issue_view,
            draft.sequence,
            fits,
        ) is None,
{
}

/// A handoff that was saved is not made again, and any other record in its place
/// is refused.
pub proof fn lemma_saved_handoff_is_made_once(
    journal: JournalView,
    id: Seq<char>,
    record: Vec<u8>,
    other: Seq<u8>,
)
    requires
        journal.save_handoff(id, record).1 is Ok,
    ensures
        ({
            let next = journal.save_handoff(id, record).0;
            &&& next.handoff_pending(id, record@) == Ok::<bool, Seq<char>>(false)
            &&& other != record@ ==> next.handoff_pending(id, other) is Err
        }),
{
    assert(stage_known("market"@));
}

/// A handoff is pending exactly where nothing was saved for it, and what was not
/// saved yet can be.
pub proof fn lemma_pending_handoff_can_be_saved(journal: JournalView, id: Seq<char>, record: Vec<u8>)
    ensures
        (journal.handoff_pending(id, record@) == Ok::<bool, Seq<char>>(true)) == (journal.stage(
            "market"@,
            id,
        ) == Ok::<Option<JournalBody>, Seq<char>>(None)),
        journal.handoff_pending(id, record@) is Ok == journal.save_handoff(id, record).1 is Ok,
{
    assert(stage_known("market"@));
}

/// An authorization ends by this operation only where its sends are tracked, from
/// its intake on, and by expiry only after its end.
pub proof fn lemma_authorization_ends_in_its_time(
    journal: JournalView,
    id: Seq<char>,
    at: u64,
    reason: AuthorizationEndReason,
    record: EndedCorporateAuthorization,
)
    requires
        journal.end_unprepared_authorization(id, at, reason, record).0 != journal,
    ensures
        ({
            let intent = (journal.intent(id)->Ok_0)->Some_0;
            &&& journal.intent(id) is Ok
            &&& journal.intent(id)->Ok_0 is Some
            &&& intent.reserve_send_tracking
            &&& intent.accepted_at <= at
            &&& reason is Expired ==> intent.expires_at < at
        }),
{
}

/// A pump starts ended, and each answer moves it by one step, or shows that it was
/// not asked for.
pub proof fn lemma_pump_moves_by_its_answers(events: Seq<PumpEvent>, event: PumpEvent)
    ensures
        pump_after(Seq::empty()) == Some(PumpState::Ended),
        pump_after(events) is None ==> pump_after(events.push(event)) is None,
        pump_after(events) matches Some(state) ==> {
            let moved = pump_next(state, event);
            &&& moved is None == pump_after(events.push(event)) is None
            &&& moved is Some ==> pump_after(events.push(event)) == Some((moved->Some_0).0)
        },
{
    assert(events.push(event).drop_last() =~= events);
    assert(events.push(event).last() == event);
}

/// Credential custody has its own seed of 96 bytes, which opens no notes.
pub proof fn lemma_custody_seed_is_its_own(config: &CorporateNativeConfig)
    ensures
        config.custody_fault() is None == {
            &&& config.credential_custody_seed@.len() == 96
            &&& config.credential_custody_seed@ != config.wallet_opening_seed@
        },
{
}

/// In an accepted configuration both lists name somebody, and no certificate that
/// may ask for claim signers may ask for anything else.
pub proof fn lemma_client_lists_are_apart(config: &CorporateApiConfig, fingerprint: Digest32)
    requires
        acl_scoped(config),
    ensures
        config.clients@.len() > 0,
        config.claim_authorization_clients@.len() > 0,
        config.clients@.contains(fingerprint) ==> !config.claim_authorization_clients@.contains(
            fingerprint,
        ),
        is_zero(fingerprint@) ==> !config.clients@.contains(fingerprint)
            && !config.claim_authorization_clients@.contains(fingerprint),
{
}

/// A node runs only as the party, with the receipt key and for the program that
/// the cluster publishes.
pub proof fn lemma_node_runs_as_published(
    cluster: &ClusterPublicConfig,
    party: u16,
    receipt_key: Digest32,
    program: Seq<char>,
)
    ensures
        identity_published(cluster, party, receipt_key, program) == {
            &&& cluster.program@ == program
            &&& cluster.nodes@[party as int].receipt_verifying_key == receipt_key
            &&& cluster.nodes@[party as int].party == party
        },
{
}

} // verus!
