//! What the outcomes of a participant's and a market's work stand for.

use crate::bytes::{hex_text, sha256, text_bytes, Digest32};
use crate::corporate::{
    new_reserve, BuiltRequest, CorporateNativeConfig, OrderTerms, PreparedCorporateReserve,
    ReserveMandate, ReserveRead, ReserveSecrets, SignedOrder,
};
use crate::corporate_api::{
    claimed_reserve, intake_saved, reservation_stands, ClaimFacts, ReservationRead,
};
use crate::corporate_authorization::{
    reserve_of, AuthorizationFacts, CorporateReserveAuthorization, FundingRead,
};
use crate::corporate_client::{
    asset_with, client_step, locked_fault, AnswerKind, AssetReport, ClientMode, ClientStep,
    SnapshotReport,
};
use crate::corporate_custody::eligibility_key;
use crate::corporate_dispatch::{records_admission, QueueRecord};
use crate::corporate_expiry::{
    release_fault, resolution_fault, NativeExpiryResolution, NoteRelease, OutcomeView,
};
use crate::corporate_journal_laws::lemma_stage_keys_distinct;
use crate::corporate_journal_model::{
    receipt_refusal, stage_key, AuthorizationEndReason, JournalBody, JournalView, ReceiptFacts,
    StoredCorporateIntent,
};
use crate::corporate_reconciliation::end_saved;
use crate::corporate_worker::{reconciled_report, EndedEntry, ReconciledReport};
use crate::edge_client::{
    all_came, values_of, AgreedRoundExecution, ReplyFailure,
};
use crate::edge_submit::{
    wallet_goes_on, RecoveredWallet, Scenario, WalletAcceptance, WalletStep,
};
use crate::executor::{
    executor_config_valid, NodeExecutionReceipt, RoundPlan,
};
use crate::json::{json_error, json_text};
use crate::lines::lines_of;
use crate::market_journal::{MarketCompletedRound, MarketView};
use crate::market_runtime::{matched_slots, PriceLimitDirection};
use crate::market_steps::agreed_by;
use crate::market_worker::{
    market_bound, published_fault, books_fault, depth_fault, MarketEvidence, PublishedBook,
};
use crate::native_acceptance::bound_contract;
use crate::native_lifecycle_acceptance::{release_observation_fault, ReleaseObservation};
use crate::native_reports::{digest_before, increasing};
use crate::store::{prepared_from, PreparedPartyInput};
use crate::store_model::{joined, StoreView};
use crate::text::{text_after, text_contains, trimmed, u128_text, words};
use crate::types::{ClusterPublicConfig, OrderCommitment};
use vstd::prelude::*;

verus! {

/// What a party prepares for a round is its own frame in one line, under its
/// current generation, with a commitment to just that and the digest of the
/// private parents that the frame was taken from.
pub proof fn lemma_prepared_input_is_the_frame(
    prepared: &PreparedPartyInput,
    store: StoreView,
    fields: Seq<Seq<char>>,
    resting: Seq<OrderCommitment>,
    arriving: OrderCommitment,
)
    requires
        prepared_from(prepared, store, fields, resting, arriving),
    ensures
        prepared.party == store.party,
        prepared.generation == store.generation,
        prepared.contents@.len() == joined(fields).len() + 1,
        prepared.contents@.last() == 10,
        prepared.contents@.drop_last() == joined(fields),
        prepared.private_parent_digest@ == sha256(store.parent_bytes(resting, arriving)),
        prepared.round_commitment@ == sha256(
            crate::store_model::round_commitment_bytes(
                prepared.party,
                prepared.generation,
                resting,
                arriving,
                prepared.contents@,
            ),
        ),
{
    assert(joined(fields).push(10u8).drop_last() =~= joined(fields));
}

/// A prepared reserve repeats its signed terms and the facility that it was
/// prepared on, and holds the order's limit.
pub proof fn lemma_prepared_reserve_repeats_its_terms(
    prepared: &PreparedCorporateReserve,
    config: &CorporateNativeConfig,
    authorization: &CorporateReserveAuthorization,
    read: &FundingRead,
    order: &OrderTerms,
    built: &BuiltRequest,
)
    requires
        reserve_of(prepared, config, authorization, read, order, built),
    ensures
        prepared.request.mandate.wire@ == authorization.mandate.wire@,
        prepared.request.mandate.hold_id == authorization.mandate.hold_id,
        prepared.request.mandate.facility_id == authorization.mandate.facility_id,
        prepared.request.mandate.asset_id == authorization.mandate.asset_id,
        prepared.request.mandate.amount_commitment == authorization.mandate.amount_commitment,
        prepared.request.mandate.valid_until == authorization.mandate.valid_until,
        prepared.request.order_commitment == order.commitment,
        prepared.request.order_authorization_salt == authorization.order_authorization_salt,
        prepared.request.reserve_reblinding == authorization.reserve_reblinding,
        prepared.request.before_sequence == read.facility.sequence,
        prepared.request.before == read.facility.commitments,
        prepared.request.after == built.after,
        prepared.request.wire@ == built.wire@,
        prepared.order_wire@ == authorization.order_wire@,
        prepared.signing_key == authorization.signing_key,
        prepared.eligibility_commitment == authorization.eligibility_commitment,
        prepared.side_blinding == authorization.side_blinding,
        prepared.reserve_blinding == authorization.reserve_blinding,
        prepared.facility_after.values@[0] + order.reservation_limit == config.facility_values@[0],
        prepared.facility_after.values@[1] == config.facility_values@[1] + order.reservation_limit,
        prepared.facility_after.sequence == read.facility.sequence + 1,
{
}

/// A new reserve is of its mandate, order and secrets, on the facility as it was
/// read, and holds the order's limit.
pub proof fn lemma_new_reserve_is_of_its_order(
    prepared: &PreparedCorporateReserve,
    config: &CorporateNativeConfig,
    read: &ReserveRead,
    mandate: ReserveMandate,
    signed: &SignedOrder,
    order: &OrderTerms,
    secrets: &ReserveSecrets,
    built: BuiltRequest,
)
    requires
        new_reserve(prepared, config, read, mandate, signed, order, secrets, built),
    ensures
        prepared.request.mandate == mandate,
        prepared.request.order_commitment == order.commitment,
        prepared.request.order_authorization_salt == secrets.order_authorization_salt,
        prepared.request.reserve_reblinding == secrets.reserve_reblinding,
        prepared.request.before_sequence == read.facility.sequence,
        prepared.request.before == read.facility.commitments,
        prepared.request.after == built.after,
        prepared.request.wire == built.wire,
        prepared.order_wire == signed.order_wire,
        prepared.signing_key == signed.signing_key,
        prepared.eligibility_commitment == signed.eligibility_commitment,
        prepared.side_blinding == secrets.side_blinding,
        prepared.reserve_blinding == secrets.reserve_blinding,
        prepared.facility_after.values@[0] + order.reservation_limit == config.facility_values@[0],
        prepared.facility_after.values@[1] == config.facility_values@[1] + order.reservation_limit,
        prepared.facility_after.sequence == read.facility.sequence + 1,
{
}

/// An intake that was taken is on record: its intent and its signed terms, where
/// none were before.
pub proof fn lemma_taken_intake_is_on_record(
    journal: JournalView,
    id: Seq<char>,
    intent: StoredCorporateIntent,
    authorization: CorporateReserveAuthorization,
    config: &CorporateNativeConfig,
    offered: Result<AuthorizationFacts, String>,
    saved: Result<AuthorizationFacts, String>,
)
    requires
        intake_saved(journal, id, intent, authorization, config, offered, saved).1 is Ok,
    ensures
        ({
            let next = intake_saved(
                journal,
                id,
                intent,
                authorization,
                config,
                offered,
                saved,
            ).0;
            &&& next.intent(id) matches Ok(Some(kept)) && kept.input_digest == intent.input_digest
                && (journal.intent(id) == Ok::<Option<StoredCorporateIntent>, Seq<char>>(None)
                ==> kept == intent)
            &&& next.authorization(id) matches Ok(Some(kept)) && (journal.authorization(id) == Ok::<
                Option<CorporateReserveAuthorization>,
                Seq<char>,
            >(None) ==> kept == authorization)
            &&& authorization.fault(config, offered) is None
        }),
{
    let first = journal.save_intent(id, intent).0;
    assert(stage_key("intent"@, id) != stage_key("authorization"@, id)) by {
        if stage_key("intent"@, id) == stage_key("authorization"@, id) {
            lemma_stage_keys_distinct("intent"@, id, "authorization"@, id);
            reveal_strlit("intent");
            reveal_strlit("authorization");
            assert("intent"@.len() != "authorization"@.len());
        }
    }
    assert(first.authorization(id) == journal.authorization(id));
    let next = first.save_authorization(id, authorization, config, offered, saved).0;
    assert(next.intent(id) == first.intent(id));
}

/// Claims are issued on a reserve only where this journal owns its reservation,
/// the market admitted it, and the saved reserve still stands.
pub proof fn lemma_claims_are_on_an_admitted_reserve(
    journal: JournalView,
    config: &CorporateNativeConfig,
    reservation_id: Digest32,
    facts: &ClaimFacts,
)
    requires
        claimed_reserve(journal, config, reservation_id, facts) is Ok,
    ensures
        facts.issue_valid is Ok,
        journal.admitted_reservation(reservation_id) matches Ok(id) && journal.reserve(
            id,
        ) matches Ok(Some(prepared)) && prepared.fault(config, facts.reserve) is None && prepared
            == claimed_reserve(journal, config, reservation_id, facts)->Ok_0,
{
}

/// A reservation is used for a wallet exactly where it was read at the wallet's
/// root, is bound to the wallet, and has a state that the ledger knows.
pub proof fn lemma_reservation_is_read_at_one_root(read: &ReservationRead, root: Digest32)
    ensures
        reservation_stands(read, root) == {
            &&& read.state_root == root
            &&& read.binding_matches
            &&& read.status@ == "active"@ || read.status@ == "consumed"@ || read.status@
                == "released"@
        },
{
}

proof fn lemma_fills_among(
    journal: MarketView,
    plan: &RoundPlan,
    direction: Option<PriceLimitDirection>,
    slots: Seq<usize>,
    count: nat,
)
    requires
        count <= slots.len(),
    ensures
        journal.fills_fault(plan, direction, slots, count) is None == {
            &&& journal.ingress(plan.arriving) is Ok
            &&& direction is Some
            &&& forall|i: int|
                0 <= i < count ==> (#[trigger] slots[i]) < plan.resting@.len() && journal.ingress(
                    plan.resting@[slots[i] as int],
                ) is Ok
        },
    decreases count,
{
    if count > 0 {
        lemma_fills_among(journal, plan, direction, slots, (count - 1) as nat);
        if journal.fills_fault(plan, direction, slots, count) is None {
            assert(slots[count - 1] < plan.resting@.len());
        } else if forall|i: int|
            0 <= i < count ==> (#[trigger] slots[i]) < plan.resting@.len() && journal.ingress(
                plan.resting@[slots[i] as int],
            ) is Ok {
            assert(slots[count - 1] < plan.resting@.len());
        }
    }
}

/// The fills of a round can be proved exactly where the arriving order and every
/// resting order that traded have their intake on record, and the arriving order
/// reserved an asset of this market.
pub proof fn lemma_fills_have_their_intake(
    journal: MarketView,
    plan: &RoundPlan,
    direction: Option<PriceLimitDirection>,
    slots: Seq<usize>,
)
    ensures
        journal.fills_fault(plan, direction, slots, slots.len()) is None == {
            &&& journal.ingress(plan.arriving) is Ok
            &&& direction is Some
            &&& forall|i: int|
                0 <= i < slots.len() ==> (#[trigger] slots[i]) < plan.resting@.len()
                    && journal.ingress(plan.resting@[slots[i] as int]) is Ok
        },
{
    lemma_fills_among(journal, plan, direction, slots, slots.len());
}

/// An execution keeps every node's receipt in its order and the result that they
/// tell of; all came only where none failed.
pub proof fn lemma_execution_keeps_the_receipts(
    execution: AgreedRoundExecution,
    replies: Seq<Result<NodeExecutionReceipt, ReplyFailure>>,
    at: int,
)
    requires
        all_came(replies),
        agreed_by(execution, values_of(replies)),
        0 <= at < replies.len(),
    ensures
        execution.receipts@.len() == replies.len(),
        replies[at] == Ok::<NodeExecutionReceipt, ReplyFailure>(execution.receipts@[at]),
        execution.result.slots@ == execution.receipts@[0].result.slots@,
        execution.result.arriving_remaining == execution.receipts@[0].result.arriving_remaining,
        execution.result.output_digest == execution.receipts@[0].result.output_digest,
{
    assert(replies[at] is Ok);
    assert(execution.result@.slots == execution.receipts@[0].result@.slots);
    assert(execution.result@.arriving_remaining == execution.receipts@[0].result@.arriving_remaining);
    assert(execution.result@.output_digest == execution.receipts@[0].result@.output_digest);
}

/// A finished expiry is read back only as the end that was saved for the request's
/// own reserve.
pub proof fn lemma_finished_expiry_is_the_saved_end(
    journal: JournalView,
    id: Seq<char>,
    verified: Result<(), String>,
)
    requires
        journal.completed_expiry(id, verified) matches Ok(Some(_)),
    ensures
        ({
            let value = journal.completed_expiry(id, verified)->Ok_0->Some_0;
            &&& value.request_id@ == id
            &&& journal.resolved(id) == Ok::<Option<NativeExpiryResolution>, Seq<char>>(
                Some(value),
            )
            &&& journal.reserve(id) matches Ok(Some(prepared)) && resolution_fault(
                value@,
                &prepared,
                verified,
            ) is None && (journal.expiry_resolution(&prepared, verified) matches Ok(Some(kept))
                && kept@ == value@)
        }),
{
}

/// The terms of an expiry release are kept only where they end the very reserve,
/// and the first ones stay.
pub proof fn lemma_first_release_terms_stay(
    journal: JournalView,
    id: Seq<char>,
    release: NoteRelease,
    prepared: &PreparedCorporateReserve,
    verified: Result<(), String>,
    saved_verified: Result<(), String>,
)
    requires
        journal.save_expiry_release(id, release, prepared, verified, saved_verified).1 is Ok,
    ensures
        ({
            let next = journal.save_expiry_release(
                id,
                release,
                prepared,
                verified,
                saved_verified,
            ).0;
            &&& release_fault(release@, prepared, verified) is None
            &&& next.expiry_release(id) matches Ok(Some(kept)) && (journal.expiry_release(id)
                == Ok::<Option<NoteRelease>, Seq<char>>(None) ==> kept == release) && (
            journal.expiry_release(id) matches Ok(Some(earlier)) ==> kept == earlier)
        }),
{
}

/// A holder is enrolled once: the first credential stays, and another one is
/// refused.
pub proof fn lemma_first_credential_stays(
    journal: JournalView,
    scope: Digest32,
    wire: Vec<u8>,
    custody_fault: Option<Seq<char>>,
    proposed: Digest32,
    enrolled: Result<Digest32, Seq<char>>,
    other_wire: Vec<u8>,
    other: Digest32,
)
    requires
        journal.encoded(eligibility_key(scope)) == Ok::<Option<Vec<u8>>, Seq<char>>(None),
        journal.enroll_eligibility(scope, wire, custody_fault, Ok(proposed), enrolled).1 is Ok,
        other != proposed,
    ensures
        ({
            let next = journal.enroll_eligibility(
                scope,
                wire,
                custody_fault,
                Ok(proposed),
                enrolled,
            ).0;
            let again = next.enroll_eligibility(
                scope,
                other_wire,
                custody_fault,
                Ok(other),
                Ok(proposed),
            );
            &&& custody_fault is None
            &&& next.encoded(eligibility_key(scope)) == Ok::<Option<Vec<u8>>, Seq<char>>(Some(wire))
            &&& again.0 == next
            &&& again.1 is Err
        }),
{
}

/// How many of the first `count` records are reserves.
pub open spec fn reserves_before(journal: JournalView, count: nat) -> nat
    decreases count,
{
    if count == 0 {
        0
    } else {
        reserves_before(journal, (count - 1) as nat) + (if text_after(
            journal.order[count - 1],
            "reserve:"@,
        ) is Some {
            1nat
        } else {
            0nat
        })
    }
}

proof fn lemma_reservation_at(journal: JournalView, count: nat, at: int)
    requires
        0 <= at < count <= journal.order.len(),
        journal.reservations_among(count) is Ok,
    ensures
        ({
            let list = journal.reservations_among(count)->Ok_0;
            let place = reserves_before(journal, at as nat) as int;
            &&& list.len() == reserves_before(journal, count)
            &&& text_after(journal.order[at], "reserve:"@) is Some ==> place < list.len()
                && journal.get(journal.order[at]) == Ok::<Option<JournalBody>, Seq<char>>(
                Some(JournalBody::Reserve(list[place])),
            )
        }),
    decreases count,
{
    let before = (count - 1) as nat;
    if at < before {
        lemma_reservation_at(journal, before, at);
    } else if before > 0 {
        lemma_reservation_at(journal, before, 0);
    }
}

/// The reservations of a journal are its saved reserves, each once and in their
/// order.
pub proof fn lemma_reservations_are_the_saved_reserves(journal: JournalView, at: int)
    requires
        0 <= at < journal.order.len(),
        journal.reservations() is Ok,
    ensures
        ({
            let list = journal.reservations()->Ok_0;
            let place = reserves_before(journal, at as nat) as int;
            &&& list.len() == reserves_before(journal, journal.order.len())
            &&& text_after(journal.order[at], "reserve:"@) is Some ==> place < list.len()
                && journal.get(journal.order[at]) == Ok::<Option<JournalBody>, Seq<char>>(
                Some(JournalBody::Reserve(list[place])),
            )
        }),
{
    lemma_reservation_at(journal, journal.order.len(), at);
}

/// An end that was saved names its request, its reserve, its time and its
/// outcome, and stands by the ledger's evidence.
pub proof fn lemma_saved_end_is_what_was_found(
    before: JournalView,
    after: JournalView,
    result: Result<NativeExpiryResolution, String>,
    id: Seq<char>,
    prepared: &PreparedCorporateReserve,
    now: u64,
    outcome: OutcomeView,
    verified: Result<(), String>,
)
    requires
        end_saved(before, after, result, id, prepared, now, outcome, verified),
    ensures
        result matches Ok(kept) ==> {
            &&& kept.request_id@ == id
            &&& kept.reserve_digest@ == sha256(prepared.request.wire@)
            &&& kept.checked_at == now
            &&& kept.outcome@ == outcome
            &&& resolution_fault(kept@, prepared, verified) is None
        },
        result is Err && resolution_fault(
            crate::corporate_expiry::expiry_result(id, prepared, now, outcome),
            prepared,
            verified,
        ) is Some ==> after == before,
{
}

/// An admission is recorded for the market's committee, the admitted order and the
/// claimed request.
pub proof fn lemma_recorded_admission_names_the_claim(
    record: QueueRecord,
    market: Seq<char>,
    commitment: OrderCommitment,
    request_digest: Digest32,
)
    requires
        records_admission(record, market, commitment, request_digest),
    ensures
        record matches QueueRecord::Admission(receipt) && receipt.committee_id@ == "oclob:"@ + market
            && receipt.job_id@ == hex_text(commitment.0@) && receipt.admitted_request_digest
            == request_digest,
{
}

/// A party runs only as one of seven, for at most ten minutes, with a plainly
/// named program and one plain host line for each party.
pub proof fn lemma_executor_settings_are_plain(
    party: u16,
    program: Seq<char>,
    hosts: Seq<char>,
    timeout_nanos: u128,
)
    ensures
        executor_config_valid(party, program, hosts, timeout_nanos) == {
            let name = text_bytes(program);
            let lines = lines_of(text_bytes(hosts));
            &&& party < 7
            &&& 0 < timeout_nanos <= 600_000_000_000
            &&& 0 < program.len()
            &&& forall|i: int|
                0 <= i < name.len() ==> (48 <= (#[trigger] name[i]) <= 57 || 65 <= name[i] <= 90
                    || 97 <= name[i] <= 122 || name[i] == 95 || name[i] == 45)
            &&& lines.len() == 7
            &&& forall|i: int|
                0 <= i < lines.len() ==> {
                    let line = #[trigger] lines[i];
                    &&& 0 < line.len() <= 255
                    &&& line.contains(58u8)
                    &&& forall|k: int|
                        0 <= k < line.len() ==> (#[trigger] line[k]) != 32 && line[k] != 9
                            && line[k] != 10 && line[k] != 12 && line[k] != 13
                }
        },
{
    let name = text_bytes(program);
    let lines = lines_of(text_bytes(hosts));
    if executor_config_valid(party, program, hosts, timeout_nanos) {
        assert forall|i: int| 0 <= i < name.len() implies (48 <= (#[trigger] name[i]) <= 57 || 65
            <= name[i] <= 90 || 97 <= name[i] <= 122 || name[i] == 95 || name[i] == 45) by {
            assert(crate::executor::program_byte(name[i]));
        }
        assert forall|i: int| 0 <= i < lines.len() implies {
            let line = #[trigger] lines[i];
            &&& 0 < line.len() <= 255
            &&& line.contains(58u8)
            &&& forall|k: int|
                0 <= k < line.len() ==> (#[trigger] line[k]) != 32 && line[k] != 9 && line[k] != 10
                    && line[k] != 12 && line[k] != 13
        } by {
            let line = lines[i];
            assert(crate::executor::host_line_valid(line));
            assert forall|k: int| 0 <= k < line.len() implies (#[trigger] line[k]) != 32 && line[k]
                != 9 && line[k] != 10 && line[k] != 12 && line[k] != 13 by {
                assert(!crate::executor::blank_byte(line[k]));
            }
        }
    }
}

/// The order of identifiers is strict: none comes before itself, and of two at
/// most one comes before the other; increasing identifiers are all different.
pub proof fn lemma_identifier_order_is_strict(a: Digest32, b: Digest32, keys: Seq<Digest32>)
    ensures
        !digest_before(a, a),
        !(digest_before(a, b) && digest_before(b, a)),
        increasing(keys) ==> keys.no_duplicates(),
{
    if digest_before(a, b) && digest_before(b, a) {
        let j = choose|k: int|
            0 <= k < 32 && #[trigger] a@[k] < b@[k] && forall|j: int|
                0 <= j < k ==> #[trigger] a@[j] == b@[j];
        let k = choose|k: int|
            0 <= k < 32 && #[trigger] b@[k] < a@[k] && forall|j: int|
                0 <= j < k ==> #[trigger] b@[j] == a@[j];
        if j < k {
            assert(b@[j] == a@[j]);
        } else if k < j {
            assert(a@[k] == b@[k]);
        }
    }
    if increasing(keys) {
        assert forall|i: int, j: int|
            0 <= i < keys.len() && 0 <= j < keys.len() && i != j implies keys[i] != keys[j] by {
            if i < j {
                assert(digest_before(keys[i], keys[j]));
                lemma_not_before_itself(keys[i]);
            } else {
                assert(digest_before(keys[j], keys[i]));
                lemma_not_before_itself(keys[j]);
            }
        }
    }
    lemma_not_before_itself(a);
}

proof fn lemma_not_before_itself(a: Digest32)
    ensures
        !digest_before(a, a),
{
}

/// What an operator is told: that a request was ended here only where the queue
/// knows it as aborted and the journal ended it; that nothing was reserved only
/// where the ledger showed it; and that it was released only with the very
/// receipt that the queue holds.
pub proof fn lemma_report_matches_the_queue(
    entry: &EndedEntry,
    ended: Option<AuthorizationEndReason>,
    outcome: Option<OutcomeView>,
    request_digest: Digest32,
)
    ensures
        ({
            let report = reconciled_report(entry, ended, outcome, request_digest);
            &&& report matches Some(ReconciledReport::EndedUnsent { funding_rejected }) ==> entry
                is AbortedBeforeReserve && ended is Some && funding_rejected == (ended->0
                is InsufficientFunding)
            &&& report == Some(ReconciledReport::NeverReserved) ==> entry is AbortedBeforeReserve
                && ended is None && (outcome matches Some(OutcomeView::NeverReserved { .. }))
            &&& report == Some(ReconciledReport::Released) ==> (outcome matches Some(
                OutcomeView::Released { transaction_id, height, .. },
            ) && *entry matches EndedEntry::Released {
                transaction_id: settled,
                ledger_height,
                request_digest: bound,
            } && settled@ == transaction_id && ledger_height == height && bound == request_digest)
            &&& entry is AbortedBeforeReserve && (ended is Some || (outcome matches Some(
                OutcomeView::NeverReserved { .. },
            ))) ==> report is Some
            &&& entry is Open ==> report is None
        }),
{
}

/// An admission that the queue reports stands exactly where the journal's own
/// receipt acknowledges the ciphertexts that were sent.
pub proof fn lemma_reported_admission_is_on_record(
    journal: JournalView,
    id: Seq<char>,
    cluster: &ClusterPublicConfig,
    facts: &ReceiptFacts,
)
    ensures
        journal.queue_admission_fault(id, cluster, facts) is None == {
            &&& journal.intent(id) matches Ok(Some(_))
            &&& journal.receipt(id) matches Ok(Some(receipt)) && journal.delivery(id) matches Ok(
                Some(delivery),
            ) && receipt_refusal(&receipt, &delivery.delivery, cluster, facts) is None
        },
{
}

/// An answer is read as what was asked: a refusal is an error unless it was
/// expected, and where one was expected an answer is an error.
pub proof fn lemma_refusal_is_no_answer(mode: ClientMode, answer: Result<AnswerKind, String>)
    ensures
        ({
            let step = client_step(mode, answer);
            &&& mode is ExpectDenied ==> (step == Ok::<ClientStep, Seq<char>>(
                ClientStep::AccessDenied,
            ) <==> answer is Err) && (step is Err <==> answer is Ok)
            &&& !(mode is ExpectDenied) && (answer is Err || answer == Ok::<AnswerKind, String>(
                AnswerKind::Rejected,
            )) ==> step is Err
            &&& mode is Ping ==> (step is Ok <==> answer == Ok::<AnswerKind, String>(
                AnswerKind::Queue,
            ))
            &&& mode is ExpectLocked && step is Ok ==> step == Ok::<ClientStep, Seq<char>>(
                ClientStep::CheckLocked,
            )
        }),
{
}

proof fn lemma_asset_found(assets: Seq<AssetReport>, id: Seq<char>, from: nat)
    ensures
        asset_with(assets, id, from) matches Some(found) ==> exists|at: int|
            from <= at < assets.len() && (#[trigger] assets[at]) == found && (
            found.asset_id matches Some(text) && text@ == id),
    decreases assets.len() - from,
{
    if from < assets.len() {
        if assets[from as int].asset_id matches Some(text) && text@ == id {
            assert(assets[from as int] == asset_with(assets, id, from)->0);
        } else {
            lemma_asset_found(assets, id, from + 1);
            if asset_with(assets, id, from + 1) is Some {
                let found = asset_with(assets, id, from + 1)->0;
                let at = choose|at: int|
                    from + 1 <= at < assets.len() && (#[trigger] assets[at]) == found && (
                    found.asset_id matches Some(text) && text@ == id);
                assert(assets[at] == found);
            }
        }
    }
}

/// A wallet is said to hold an amount locked only where it says so of its own
/// asset and of its facility alike.
pub proof fn lemma_locked_amount_is_told_twice(
    amount: Seq<char>,
    kind: AnswerKind,
    snapshot: &SnapshotReport,
)
    requires
        locked_fault(Some(amount), kind, snapshot) is None,
    ensures
        kind is Wallet,
        u128_text(amount) is Some,
        snapshot.facility_held matches Some(text) && Some(text@) == u128_text(amount),
        snapshot.facility_asset matches Some(asset) && snapshot.assets matches Some(assets)
            && exists|at: int|
            0 <= at < assets@.len() && ((#[trigger] assets@[at]).asset_id matches Some(text)
                && text@ == asset@) && (assets@[at].locked matches Some(text) && Some(text@)
                == u128_text(amount)),
{
    let assets = (snapshot.assets->0)@;
    let asset = (snapshot.facility_asset->0)@;
    lemma_asset_found(assets, asset, 0);
    let own = asset_with(assets, asset, 0)->0;
    let at = choose|at: int|
        0 <= at < assets.len() && (#[trigger] assets[at]) == own && (
        own.asset_id matches Some(text) && text@ == asset);
    assert(assets[at].asset_id matches Some(text) && text@ == asset);
}

/// What follows a recovery: an order is placed only where the acceptance asks for
/// one, and then it spends the very note that came back.
pub proof fn lemma_next_order_spends_what_came_back(
    step: WalletStep,
    acceptance: WalletAcceptance,
    scenario: Scenario,
    recovered: &RecoveredWallet,
)
    requires
        wallet_goes_on(step, acceptance, scenario, recovered),
    ensures
        step is Report == acceptance is Unasked,
        step is QueuedExpiry == acceptance is QueuedExpiry,
        step matches WalletStep::QueuedExpiry(order) ==> (order.instruction.source_note matches Some(
            text,
        ) && text@ == hex_text(recovered.unfilled_release_notes@[0]@)),
        step matches WalletStep::Accepted(Some(order)) ==> (order.instruction.source_note matches Some(
            text,
        ) && text@ == hex_text((recovered.own_asset_refund->0)@)),
        step matches WalletStep::Accepted(next) ==> next is Some == (acceptance is CancelFinal || (
        scenario is Taker && (acceptance is First || acceptance is CycleFirst))),
{
}

/// A node's observation of a release stands exactly where it refused an altered
/// one, observed this one of this order, and ended the order once.
pub proof fn lemma_release_ends_one_order(
    observed: &ReleaseObservation,
    statement: Digest32,
    order: OrderCommitment,
)
    ensures
        release_observation_fault(observed, statement, order) is None == {
            &&& !observed.altered_accepted
            &&& observed.altered_unchanged
            &&& observed.statement == statement
            &&& observed.target == order
            &&& observed.repeated_same
            &&& observed.repeated_unchanged
            &&& observed.records_after + 1 == observed.records_before
        },
{
}

/// A market keeps the settings that it was first opened with, and opens with no
/// others.
pub proof fn lemma_first_settings_stay(journal: MarketView, wire: Vec<u8>, other: Vec<u8>)
    requires
        journal.bind_settings(wire).1 is Ok,
        other@ != wire@,
    ensures
        ({
            let next = journal.bind_settings(wire).0;
            &&& next.bind_settings(wire) == (next, Ok::<(), Seq<char>>(()))
            &&& next.bind_settings(other).0 == next
            &&& next.bind_settings(other).1 is Err
        }),
{
}

/// The public sees the book of the last completed round, and none before the first
/// is completed.
pub proof fn lemma_public_sees_the_last_round(journal: MarketView)
    requires
        journal.public_book() is Ok,
    ensures
        journal.completed() matches Ok(rounds) && {
            &&& journal.public_book()->Ok_0 is None <==> rounds.len() == 0
            &&& rounds.len() > 0 ==> journal.public_book()->Ok_0
                == rounds.last().public_snapshot
        },
{
}

proof fn lemma_book_stands(
    rounds: Seq<MarketCompletedRound>,
    books: Seq<PublishedBook>,
    count: nat,
    at: int,
)
    requires
        0 <= at < count,
        books_fault(rounds, books, count) is None,
    ensures
        depth_fault(at, rounds[at].public_snapshot, &books[at]) is None,
    decreases count,
{
    if at < count - 1 {
        lemma_book_stands(rounds, books, (count - 1) as nat, at);
    }
}

/// Public depth stands only where after each of the four rounds the public saw the
/// very book that the market keeps of it, the old book until the last round was
/// final, and the final one after the restart.
pub proof fn lemma_public_depth_is_the_kept_book(
    rounds: Seq<MarketCompletedRound>,
    evidence: &MarketEvidence,
    at: int,
)
    requires
        published_fault(rounds, evidence) is None,
        0 <= at < 4,
    ensures
        evidence.books@.len() == 4,
        evidence.books@[at].fault is None,
        evidence.books@[at].sequence == at + 1,
        rounds[at].public_snapshot matches Some(wire) && wire@ == evidence.books@[at].wire@,
        rounds[2].public_snapshot matches Some(wire) && wire@ == evidence.before_finality@,
        rounds.last().public_snapshot matches Some(wire) && wire@ == evidence.after_restart@,
{
    lemma_book_stands(rounds, evidence.books@, 4, at);
}

/// A market is accepted only by what its own journal shows: the expected rounds
/// and fills, the same status after a restart, three different processes and the
/// crash between them, the same settlement before and after it, and a root on the
/// ledger.
pub proof fn lemma_accepted_market_survived_its_crash(
    journal: MarketView,
    depth: bool,
    evidence: &MarketEvidence,
)
    requires
        journal.acceptance_fault(depth, evidence) is None,
    ensures
        journal.completed() matches Ok(rounds) && {
            let last = rounds.last();
            let id = last.certificate.commitment.key();
            let ids = words(evidence.processes@);
            &&& rounds.len() == (if depth {
                4int
            } else {
                3int
            })
            &&& matched_slots(last.result.slots@).len() == 2
            &&& last.result.arriving_remaining == 0
            &&& last.finality_observations == 14
            &&& last.canonical_root is Some
            &&& crate::market_worker::status_of(evidence.status_before, rounds)
            &&& ids.len() == 3 && ids[0] != ids[1] && ids[1] != ids[2] && ids[0] != ids[2]
            &&& trimmed(evidence.crash_exit@) == "75"@
            &&& journal.fault_observation(id) matches Ok(Some(observed)) && journal.settled(
                id,
            ) matches Ok(Some(settled)) && observed.transaction_id@ == settled.transaction_id@
                && observed.block_id@ == settled.block_id@ && observed.before_root
                == settled.before_root && observed.after_root == settled.after_root
                && observed.height == settled.height && observed.statement == settled.statement
            &&& depth ==> published_fault(rounds, evidence) is None
        },
{
}

/// A run is bound to a contract only by a manifest that names the hash of that
/// contract's own file, at the stage of observing the final metric.
pub proof fn lemma_manifest_names_the_contract(manifest: Seq<u8>, contract: Seq<u8>)
    ensures
        bound_contract(manifest, contract) is Some ==> {
            &&& json_text(manifest, "contract_sha256"@) == Some(hex_text(sha256(contract)))
            &&& json_text(manifest, "stage"@) == Some(
                "RUN_ROUGH_END_TO_END_AND_OBSERVE_FINAL_METRIC"@,
            )
            &&& json_text(manifest, "contract_id"@) is Some
        },
        market_bound(manifest, contract) matches Ok(depth) ==> {
            &&& json_error(manifest) is None
            &&& json_text(manifest, "contract_sha256"@) == Some(hex_text(sha256(contract)))
            &&& json_text(manifest, "stage"@) == Some(
                "RUN_ROUGH_END_TO_END_AND_OBSERVE_FINAL_METRIC"@,
            )
            &&& depth ==> json_text(manifest, "contract_id"@) == Some("oclob-native-depth-v1"@)
            &&& !depth ==> json_text(manifest, "contract_id"@) == Some("oclob-native-market-v1"@)
        },
{
}

/// A text occurs in another exactly where the other is made of it with something
/// before and behind it.
pub proof fn lemma_contained_text_is_a_part(before: Seq<char>, part: Seq<char>, after: Seq<char>)
    ensures
        text_contains(before + part + after, part),
        text_contains(before, part) ==> before.len() >= part.len(),
{
    let text = before + part + after;
    let at = before.len() as int;
    assert(text.subrange(at, at + part.len()) =~= part);
    assert(crate::text::occurs_at(text, part, at));
}

} // verus!
