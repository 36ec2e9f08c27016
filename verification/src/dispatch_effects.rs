//! What the queue, the handoff to the market and the market's intake come to.

use crate::bytes::{decimal, is_zero, sha256, text_bytes, Digest32};
use crate::corporate::{CorporateNativeConfig, ReserveFacts};
use crate::corporate_authorization::AuthorizationFacts;
use crate::corporate_dispatch::{
    authorized_request, claim_verified, ended_entry, enqueue_authorized_fault, enqueue_fault,
    preparation_blocked, pump_next, request_fault, reserve_request, review_needed, Claim,
    DispatchRequest, EntryState, PumpAction, PumpEvent, PumpState, QueueEntry,
};
use crate::corporate_journal_model::{receipt_refusal, JournalView, ReceiptFacts};
use crate::market_journal::{market_key, MarketCompletedRound, MarketView};
use crate::market_network::{
    listed_numbers, number_list, HandoffFacts, IngressFacts, MarketIngress,
};
use crate::signatures::ed25519_accepts;
use crate::text::text_after;
use crate::types::ClusterPublicConfig;
use vstd::prelude::*;

verus! {

/// Each action of a pump has its one cause: work is sent once its entry fits and
/// its funding is there, funding is prepared where it is still missing, an expired
/// entry is ended locally where nothing was prepared and reconciled with the
/// ledger otherwise, and every outcome is recorded as what it was, with the claim
/// that it belongs to.
pub proof fn lemma_each_action_has_its_cause(state: PumpState, event: PumpEvent)
    requires
        pump_next(state, event) is Some,
    ensures
        ({
            let (next, action) = pump_next(state, event)->0;
            let fits = event == PumpEvent::Verified { unprepared: false };
            let unprepared = event == PumpEvent::Verified { unprepared: true };
            &&& action is Submit <==> (state is Verifying && fits) || (state is Preparing && event
                is Prepared)
            &&& action is PrepareFunding <==> state is Verifying && unprepared
            &&& action is EndUnprepared <==> state is VerifyingExpiry && unprepared
            &&& action is ReconcileExpired <==> state is VerifyingExpiry && fits
            &&& action is ReportEnd <==> state is VerifyingEnd && event is Verified
            &&& action is ReportMismatch <==> event is NotVerified
            &&& action is EndForFunds <==> state is Preparing && event is PreparationLacksFunds
            &&& action is ReportAdmission <==> state is Submitting && event is Submitted
            &&& action is RecordAbort <==> state is Expiring && event is NeverReserved
            &&& action is RecordRelease <==> state == (PumpState::Expiring { unprepared: false })
                && event is Released
            &&& action is ReportReconciliationRequired <==> state is Expiring && event
                is ReconciliationFailed
            &&& action is ReportNothing <==> state is Claiming && event is NothingClaimed
            &&& action is AskForExpired <==> event == PumpEvent::EndedScan { found: false }
            &&& action is CheckNodes <==> event == PumpEvent::ExpiredClaim { found: false }
            &&& action is AskForWork <==> state is Health && event is Nodes
            &&& action matches PumpAction::AskForWork { healthy } ==> event == PumpEvent::Nodes {
                healthy,
            } && next == PumpState::Claiming { healthy }
            &&& action matches PumpAction::ReportNothing { healthy } ==> state
                == PumpState::Claiming { healthy }
            &&& action matches PumpAction::ReportRetry { attempt } ==> (state matches
                PumpState::Submitting { claim } && claim.attempt == attempt && event
                is SubmissionFailed)
            &&& action matches PumpAction::RecoverAndRetry { attempt } ==> (state matches
                PumpState::Preparing { claim } && claim.attempt == attempt && event
                is PreparationFailed)
            &&& next matches PumpState::Submitting { claim } ==> (state matches PumpState::Verifying {
                claim: held,
            } && held == claim) || (state matches PumpState::Preparing { claim: held } && held
                == claim)
            &&& next matches PumpState::Preparing { claim } ==> (state matches PumpState::Verifying {
                claim: held,
            } && held == claim)
            &&& next matches PumpState::Verifying { claim } ==> event
                == PumpEvent::DispatchClaimed { claim }
        }),
{
}

/// Every answer that a pump asked for is taken.
pub proof fn lemma_what_was_asked_is_answered(
    found: bool,
    healthy: bool,
    unprepared: bool,
    claim: Claim,
)
    ensures
        pump_next(PumpState::Ended, PumpEvent::EndedScan { found }) is Some,
        pump_next(PumpState::Expired, PumpEvent::ExpiredClaim { found }) is Some,
        pump_next(PumpState::Health, PumpEvent::Nodes { healthy }) is Some,
        pump_next(PumpState::Claiming { healthy }, PumpEvent::NothingClaimed) is Some,
        pump_next(PumpState::Claiming { healthy }, PumpEvent::ExpireClaimed) is Some,
        pump_next(PumpState::Claiming { healthy }, PumpEvent::DispatchClaimed { claim }) is Some,
        pump_next(PumpState::VerifyingEnd, PumpEvent::Verified { unprepared }) is Some,
        pump_next(PumpState::VerifyingExpiry, PumpEvent::Verified { unprepared }) is Some,
        pump_next(PumpState::Verifying { claim }, PumpEvent::Verified { unprepared }) is Some,
        pump_next(PumpState::Preparing { claim }, PumpEvent::Prepared) is Some,
        pump_next(PumpState::Preparing { claim }, PumpEvent::PreparationLacksFunds) is Some,
        pump_next(PumpState::Preparing { claim }, PumpEvent::PreparationFailed) is Some,
        pump_next(PumpState::Submitting { claim }, PumpEvent::Submitted) is Some,
        pump_next(PumpState::Submitting { claim }, PumpEvent::SubmissionFailed) is Some,
        pump_next(PumpState::Expiring { unprepared }, PumpEvent::NeverReserved) is Some,
        pump_next(PumpState::Expiring { unprepared }, PumpEvent::ReconciliationFailed) is Some,
{
}

/// A queue entry is worked on exactly where the journal holds what it names: this
/// journal, this request and its intent, and either the saved reserve or the
/// signed terms by their digest.
pub proof fn lemma_entry_names_the_journal(
    journal: JournalView,
    id: Seq<char>,
    request: DispatchRequest,
)
    ensures
        request_fault(journal, id, Some(request)) is None == {
            &&& journal.intent(id) matches Ok(Some(intent)) && request.intent_digest
                == intent.input_digest
            &&& request.journal_context == journal.context
            &&& request.request_id@ == id
            &&& if request.authorization_digest is None {
                request.version == 1 && (journal.reserve(id) matches Ok(Some(prepared))
                    && request.reserve_digest@ == sha256(prepared.request.wire@))
            } else {
                request.version == 2 && is_zero(request.reserve_digest@) && (journal.authorization(
                    id,
                ) matches Ok(Some(terms)) && (request.authorization_digest->0)@ == sha256(
                    terms.digest_bytes(),
                ))
            }
        },
        request_fault(journal, id, None) is Some,
{
}

/// A verified entry still needs its funding exactly where it names signed terms
/// and no reserve is saved.
pub proof fn lemma_terms_without_reserve_need_funding(
    journal: JournalView,
    id: Seq<char>,
    request: DispatchRequest,
)
    requires
        claim_verified(journal, id, Some(request)) is Ok,
    ensures
        request_fault(journal, id, Some(request)) is None,
        claim_verified(journal, id, Some(request))->Ok_0 == (request.version == 2 && (
        journal.reserve(id) matches Ok(None))),
{
}

/// What is queued is queued of what the journal holds and of nothing else: the
/// reserve of the request's own order, or its signed terms.
pub proof fn lemma_only_saved_work_is_queued(
    journal: JournalView,
    config: &CorporateNativeConfig,
    id: Seq<char>,
    facts: Result<ReserveFacts, String>,
    terms_facts: Result<AuthorizationFacts, String>,
)
    ensures
        enqueue_fault(journal, config, id, facts) is None ==> (journal.intent(id) matches Ok(
            Some(intent),
        ) && journal.reserve(id) matches Ok(Some(prepared)) && prepared.fault(config, facts)
            is None && prepared.order_wire@ == intent.order_wire@ && prepared.signing_key@
            == intent.signing_key@),
        enqueue_authorized_fault(journal, config, id, terms_facts) is None ==> (journal.intent(
            id,
        ) matches Ok(Some(intent)) && journal.authorization(id) matches Ok(Some(terms))
            && terms.fault(config, terms_facts) is None && terms.order_wire@ == intent.order_wire@
            && terms.signing_key@ == intent.signing_key@),
{
}

/// An entry that was queued fits the journal that it was queued from.
pub proof fn lemma_queued_entry_fits(
    journal: JournalView,
    id: Seq<char>,
    request: DispatchRequest,
    source_note: Option<Digest32>,
)
    requires
        journal.intent(id) matches Ok(Some(_)),
        (journal.reserve(id) matches Ok(Some(prepared)) && reserve_request(
            &request,
            journal,
            id,
            &(journal.intent(id)->Ok_0->Some_0),
            &prepared,
            source_note,
        )) || (journal.authorization(id) matches Ok(Some(terms)) && authorized_request(
            &request,
            journal,
            id,
            &(journal.intent(id)->Ok_0->Some_0),
            &terms,
            source_note,
        )),
    ensures
        request_fault(journal, id, Some(request)) is None,
        request.source_note == source_note,
{
}

/// A person is asked for exactly where an entry waits for one, and for the first
/// that does.
pub proof fn lemma_first_waiting_entry_is_reported(entries: Seq<QueueEntry>, start: int)
    requires
        0 <= start,
    ensures
        match review_needed(entries, start) {
            None => forall|i: int|
                start <= i < entries.len() ==> (#[trigger] entries[i]).state
                    != EntryState::ManualReview,
            Some(id) => exists|at: int|
                start <= at < entries.len() && (#[trigger] entries[at]).state
                    == EntryState::ManualReview && entries[at].request_id@ == id && forall|i: int|
                    start <= i < at ==> (#[trigger] entries[i]).state != EntryState::ManualReview,
        },
    decreases entries.len() - start,
{
    if start < entries.len() {
        if entries[start].state == EntryState::ManualReview {
            assert(entries[start].request_id@ == review_needed(entries, start)->0);
        } else {
            lemma_first_waiting_entry_is_reported(entries, start + 1);
            if review_needed(entries, start + 1) is Some {
                let id = review_needed(entries, start + 1)->0;
                let at = choose|at: int|
                    start + 1 <= at < entries.len() && (#[trigger] entries[at]).state
                        == EntryState::ManualReview && entries[at].request_id@ == id && forall|
                        i: int,
                    |
                        start + 1 <= i < at ==> (#[trigger] entries[i]).state
                            != EntryState::ManualReview;
                assert(entries[at].request_id@ == id);
            }
        }
    }
}

/// The entry that is finished without any network is the first whose end is on
/// record while the queue does not know of it; where there is none, no such entry
/// is left.
pub proof fn lemma_first_ended_entry_is_found(
    journal: JournalView,
    entries: Seq<QueueEntry>,
    start: int,
)
    requires
        0 <= start,
        ended_entry(journal, entries, start) is Ok,
    ensures
        match ended_entry(journal, entries, start)->Ok_0 {
            None => forall|i: int|
                start <= i < entries.len() && (#[trigger] entries[i]).state
                    != EntryState::AbortedBeforeReserve ==> (journal.ended_authorization(
                    entries[i].request_id@,
                ) matches Ok(None)),
            Some(at) => {
                &&& start <= at < entries.len()
                &&& entries[at].state != EntryState::AbortedBeforeReserve
                &&& journal.ended_authorization(entries[at].request_id@) matches Ok(Some(_))
                &&& forall|i: int|
                    start <= i < at && (#[trigger] entries[i]).state
                        != EntryState::AbortedBeforeReserve ==> (journal.ended_authorization(
                        entries[i].request_id@,
                    ) matches Ok(None))
            },
        },
    decreases entries.len() - start,
{
    if start < entries.len() && !(entries[start].state != EntryState::AbortedBeforeReserve && (
    journal.ended_authorization(entries[start].request_id@) matches Ok(Some(_)))) {
        lemma_first_ended_entry_is_found(journal, entries, start + 1);
    }
}

/// Funding is prepared only for a request that has its turn and its signed terms.
pub proof fn lemma_preparation_has_its_turn(
    journal: JournalView,
    id: Seq<char>,
    facility_id: Digest32,
)
    ensures
        preparation_blocked(journal, id, facility_id) is None == {
            &&& journal.turn_fault(id) is None
            &&& journal.authorization(id) matches Ok(Some(_))
            &&& journal.intent(id) matches Ok(Some(_))
            &&& journal.latest_funding(facility_id) is Ok
        },
{
}

/// An admitted request is handed over only with its intent, and with a receipt
/// that acknowledges the very ciphertexts that were sent.
pub proof fn lemma_handoff_is_of_an_admitted_request(
    journal: JournalView,
    id: Seq<char>,
    cluster: &ClusterPublicConfig,
    facts: &ReceiptFacts,
)
    ensures
        journal.handoff_fault(id, cluster, facts) is None == (journal.intent(id) matches Ok(Some(_))
            && journal.receipt(id) matches Ok(Some(receipt)) && journal.delivery(id) matches Ok(
            Some(delivery),
        ) && receipt_refusal(&receipt, &delivery.delivery, cluster, facts) is None),
{
}

/// Requests are handed over in their order: the one that is handed over next is
/// pending, and all before it are done.
pub proof fn lemma_handoffs_go_in_order(
    journal: JournalView,
    ids: Seq<String>,
    cluster: &ClusterPublicConfig,
    facts: Seq<HandoffFacts>,
    start: int,
)
    requires
        0 <= start <= ids.len(),
        journal.next_handoff(ids, cluster, facts, start) is Ok,
    ensures
        match journal.next_handoff(ids, cluster, facts, start)->Ok_0 {
            None => forall|i: int|
                start <= i < ids.len() ==> journal.handoff_fault(
                    (#[trigger] ids[i])@,
                    cluster,
                    &facts[i].receipt,
                ) is None && journal.handoff_pending(ids[i]@, facts[i].record@) == Ok::<
                    bool,
                    Seq<char>,
                >(false),
            Some(at) => {
                &&& start <= at < ids.len()
                &&& journal.handoff_fault(ids[at]@, cluster, &facts[at].receipt) is None
                &&& journal.handoff_pending(ids[at]@, facts[at].record@) == Ok::<bool, Seq<char>>(
                    true,
                )
                &&& forall|i: int|
                    start <= i < at ==> journal.handoff_fault(
                        (#[trigger] ids[i])@,
                        cluster,
                        &facts[i].receipt,
                    ) is None && journal.handoff_pending(ids[i]@, facts[i].record@) == Ok::<
                        bool,
                        Seq<char>,
                    >(false)
            },
        },
    decreases ids.len() - start,
{
    if start < ids.len() {
        if journal.handoff_state(ids[start]@, cluster, &facts[start]) == Ok::<bool, Seq<char>>(
            false,
        ) {
            lemma_handoffs_go_in_order(journal, ids, cluster, facts, start + 1);
        }
    }
}

proof fn lemma_admitted_among(journal: JournalView, count: nat, id: Seq<char>)
    requires
        count <= journal.order.len(),
    ensures
        journal.admitted_requests(count).contains(id) == (exists|i: int|
            0 <= i < count && text_after(#[trigger] journal.order[i], "receipt:"@) == Some(id)),
    decreases count,
{
    if count > 0 {
        lemma_admitted_among(journal, (count - 1) as nat, id);
        let earlier = journal.admitted_requests((count - 1) as nat);
        let all = journal.admitted_requests(count);
        match text_after(journal.order[count - 1], "receipt:"@) {
            Some(found) => {
                assert(all == earlier.push(found));
                if found == id {
                    assert(all[earlier.len() as int] == id);
                    assert(text_after(journal.order[count - 1], "receipt:"@) == Some(id));
                }
                if earlier.contains(id) {
                    let k = choose|k: int| 0 <= k < earlier.len() && earlier[k] == id;
                    assert(all[k] == id);
                }
                if all.contains(id) && found != id {
                    let k = choose|k: int| 0 <= k < all.len() && all[k] == id;
                    assert(earlier[k] == id);
                }
            },
            None => {},
        }
    }
}

/// The requests that are offered to the market are exactly those with a receipt
/// on record.
pub proof fn lemma_offered_requests_are_the_admitted(journal: JournalView, id: Seq<char>)
    ensures
        journal.admitted_requests(journal.order.len()).contains(id) == (exists|i: int|
            0 <= i < journal.order.len() && text_after(#[trigger] journal.order[i], "receipt:"@)
                == Some(id)),
{
    lemma_admitted_among(journal, journal.order.len(), id);
}

/// The market takes an order exactly where it was reserved before it trades, was
/// admitted by all seven nodes, has a sound authority, and the handoff is signed
/// by the key of the order.
pub proof fn lemma_intake_is_signed_by_the_order(
    input: &MarketIngress,
    cluster: &ClusterPublicConfig,
    facts: &IngressFacts,
)
    ensures
        input.fault(cluster, facts) is None == {
            &&& input.version == 1
            &&& facts.pretrade
            &&& cluster.fault is None
            &&& input.receipt.admitted(cluster, facts.manifest_valid, facts.receipts_valid@)
            &&& facts.authority_fault is None
            &&& ed25519_accepts(
                input.receipt.manifest.signer@,
                sha256(text_bytes("OCLOB:MARKET-INGRESS:v1"@) + input.envelope()),
                input.signature@,
            )
        },
{
}

/// A handoff that the market takes is on record from then on, behind all that
/// came before it, and only it was added.
pub proof fn lemma_taken_handoff_is_on_record(
    journal: MarketView,
    input: MarketIngress,
    cluster: &ClusterPublicConfig,
    facts: &IngressFacts,
)
    requires
        journal.accept(input, cluster, facts).1 is Ok,
        !journal.records.dom().contains(
            market_key("input:"@, input.receipt.manifest.commitment.key()),
        ),
    ensures
        ({
            let (next, at) = journal.accept(input, cluster, facts);
            let commitment = input.receipt.manifest.commitment;
            &&& input.fault(cluster, facts) is None
            &&& at->Ok_0 == journal.order.len() + 1
            &&& next.ingress(commitment) == Ok::<MarketIngress, Seq<char>>(input)
            &&& next.order == journal.order.push(market_key("input:"@, commitment.key()))
            &&& forall|key: Seq<char>|
                key != market_key("input:"@, commitment.key()) ==> (#[trigger] next.get(key))
                    == journal.get(key)
        }),
{
}

/// How many of the first `count` records complete a round.
pub open spec fn done_before(journal: MarketView, count: nat) -> nat
    decreases count,
{
    if count == 0 {
        0
    } else {
        done_before(journal, (count - 1) as nat) + (if text_after(
            journal.order[count - 1],
            "done:"@,
        ) is Some {
            1nat
        } else {
            0nat
        })
    }
}

proof fn lemma_completed_at(journal: MarketView, count: nat, at: int)
    requires
        0 <= at < count <= journal.order.len(),
        journal.completed_among(count) is Ok,
    ensures
        ({
            let rounds = journal.completed_among(count)->Ok_0;
            let place = done_before(journal, at as nat) as int;
            &&& rounds.len() == done_before(journal, count)
            &&& text_after(journal.order[at], "done:"@) is Some ==> place < rounds.len()
                && journal.done(journal.order[at]) == Ok::<
                Option<MarketCompletedRound>,
                Seq<char>,
            >(Some(rounds[place]))
        }),
    decreases count,
{
    let before = (count - 1) as nat;
    if at < before {
        lemma_completed_at(journal, before, at);
    } else if before > 0 {
        lemma_completed_at(journal, before, 0);
    }
}

/// The completed rounds are those on record, each once and in their order; the
/// book and the chain go on from the last.
pub proof fn lemma_completed_rounds_are_on_record(journal: MarketView, at: int)
    requires
        0 <= at < journal.order.len(),
        journal.completed() is Ok,
    ensures
        ({
            let rounds = journal.completed()->Ok_0;
            let place = done_before(journal, at as nat) as int;
            &&& rounds.len() == done_before(journal, journal.order.len())
            &&& text_after(journal.order[at], "done:"@) is Some ==> place < rounds.len()
                && journal.done(journal.order[at]) == Ok::<
                Option<MarketCompletedRound>,
                Seq<char>,
            >(Some(rounds[place]))
            &&& rounds.len() > 0 ==> (journal.book() matches Ok(book) && book
                == rounds.last().book@)
            &&& rounds.len() == 0 ==> (journal.book() matches Ok(book) && book.len() == 0)
        }),
{
    lemma_completed_at(journal, journal.order.len(), at);
}

/// A byte string is written as its numbers, in their order and with commas
/// between them.
pub proof fn lemma_numbers_are_listed_in_order(a: Seq<u8>, b: Seq<u8>, byte: u8)
    requires
        a.len() > 0,
        b.len() > 0,
    ensures
        listed_numbers(a + b) == listed_numbers(a) + text_bytes(","@) + listed_numbers(b),
        listed_numbers(seq![byte]) == decimal(byte as nat),
        number_list(a) == text_bytes("["@) + listed_numbers(a) + text_bytes("]"@),
        number_list(Seq::<u8>::empty()) == text_bytes("["@) + text_bytes("]"@),
    decreases b.len(),
{
    assert(number_list(Seq::<u8>::empty()) =~= text_bytes("["@) + text_bytes("]"@));
    if b.len() == 1 {
        assert((a + b).drop_last() =~= a);
        assert((a + b).last() == b[0]);
    } else {
        lemma_numbers_are_listed_in_order(a, b.drop_last(), byte);
        assert((a + b).drop_last() =~= a + b.drop_last());
        assert((a + b).last() == b.last());
        assert(listed_numbers(a + b) =~= listed_numbers(a) + text_bytes(","@) + listed_numbers(b));
    }
}

} // verus!
