//! What holds of the corporate journal across its operations.

use crate::bytes::{is_zero, Digest32};
use crate::corporate::{funded, CorporateNativeConfig, FacilityWitness};
use crate::corporate_journal::open_fault;
use crate::corporate_journal_model::{
    funding_key, funding_prefix, request_id_valid, stage_key, stage_known, submission_stage,
    AuthorizationEndReason, EndedCorporateAuthorization, JournalBody, JournalView,
    StoredCorporateIntent,
};
use crate::text::{decimal_text, lemma_decimal_round_trip, parsed_u64, text_after};
use vstd::prelude::*;

verus! {

/// The first record under a key stays, whatever is put there later.
pub proof fn lemma_first_write_wins(
    journal: JournalView,
    key: Seq<char>,
    first: JournalBody,
    second: JournalBody,
)
    requires
        journal.get(key) == Ok::<Option<JournalBody>, Seq<char>>(None),
    ensures
        ({
            let next = journal.put_first(key, first).0;
            &&& next.get(key) == Ok::<Option<JournalBody>, Seq<char>>(Some(first))
            &&& next.put_first(key, second) == (next, Ok::<JournalBody, Seq<char>>(first))
        }),
{
}

/// Putting a record leaves every record that was there, and their order, as
/// they were.
pub proof fn lemma_records_stay(
    journal: JournalView,
    key: Seq<char>,
    body: JournalBody,
    other: Seq<char>,
)
    ensures
        ({
            let next = journal.put_first(key, body).0;
            &&& journal.records.dom().contains(other) ==> next.records.dom().contains(other)
                && next.records[other] == journal.records[other]
            &&& next.context == journal.context
            &&& journal.order.is_prefix_of(next.order)
        }),
{
    let next = journal.put_first(key, body).0;
    assert(journal.order =~= next.order.subrange(0, journal.order.len() as int));
}

/// A stage's name holds no colon.
proof fn lemma_stage_has_no_colon(stage: Seq<char>)
    requires
        stage_known(stage),
    ensures
        forall|i: int| 0 <= i < stage.len() ==> stage[i] != ':',
{
    reveal_strlit("intent");
    reveal_strlit("reserve");
    reveal_strlit("admission");
    reveal_strlit("delivery");
    reveal_strlit("receipt");
    reveal_strlit("cancel");
    reveal_strlit("expiry");
    reveal_strlit("resolved");
    reveal_strlit("reserve-send");
    reveal_strlit("authorization");
    reveal_strlit("authorization-end");
    reveal_strlit("market-input");
    reveal_strlit("market");
}

/// Records of different stages, or of different requests, never share a key.
pub proof fn lemma_stage_keys_distinct(
    stage: Seq<char>,
    id: Seq<char>,
    other_stage: Seq<char>,
    other_id: Seq<char>,
)
    requires
        stage_known(stage),
        stage_known(other_stage),
        stage_key(stage, id) == stage_key(other_stage, other_id),
    ensures
        stage == other_stage,
        id == other_id,
{
    reveal_strlit(":");
    lemma_stage_has_no_colon(stage);
    lemma_stage_has_no_colon(other_stage);
    let key = stage_key(stage, id);
    assert(key[stage.len() as int] == ':');
    assert(key[other_stage.len() as int] == ':');
    if stage.len() < other_stage.len() {
        assert(key[stage.len() as int] == other_stage[stage.len() as int]);
    }
    if other_stage.len() < stage.len() {
        assert(key[other_stage.len() as int] == stage[other_stage.len() as int]);
    }
    assert(stage =~= key.subrange(0, stage.len() as int));
    assert(other_stage =~= key.subrange(0, stage.len() as int));
    assert(id =~= key.subrange((stage.len() + 1) as int, key.len() as int));
    assert(other_id =~= key.subrange((stage.len() + 1) as int, key.len() as int));
}

/// An intent's key gives back its request.
proof fn lemma_intent_key(id: Seq<char>)
    ensures
        text_after(stage_key("intent"@, id), "intent:"@) == Some(id),
{
    reveal_strlit("intent");
    reveal_strlit(":");
    reveal_strlit("intent:");
    let key = stage_key("intent"@, id);
    assert(key.subrange(0, 7) =~= "intent:"@);
    assert(key.subrange(7, key.len() as int) =~= id);
}

/// A request identifier stands for one instruction: another instruction under
/// it is refused, and the first one stays.
pub proof fn lemma_request_id_is_one_instruction(
    journal: JournalView,
    id: Seq<char>,
    intent: StoredCorporateIntent,
    other: StoredCorporateIntent,
)
    requires
        journal.save_intent(id, intent).1 is Ok,
        other.input_digest != intent.input_digest,
    ensures
        ({
            let next = journal.save_intent(id, intent).0;
            &&& next.save_intent(id, other).0 == next
            &&& next.save_intent(id, other).1 is Err
            &&& next.save_intent(id, intent) == (next, Ok::<(), Seq<char>>(()))
        }),
{
}

/// Once a request's end unsent is decided, no send of it starts, now or after
/// any number of later records, and nothing changes.
pub proof fn lemma_unsent_fence_holds(journal: JournalView, id: Seq<char>, digest: Digest32)
    requires
        journal.send_decision(id) matches Ok(Some(decision)) && !decision.may_send,
    ensures
        journal.mark_reserve_send_started(id, digest).1 is Err,
        journal.mark_reserve_send_started(id, digest).0 == journal,
{
}

/// Sealing an expired request decides its end unsent.
pub proof fn lemma_seal_fences(journal: JournalView, id: Seq<char>, digest: Digest32, at: u64)
    requires
        journal.seal_never_dispatched(id, digest, at).1 == Ok::<bool, Seq<char>>(true),
    ensures
        ({
            let next = journal.seal_never_dispatched(id, digest, at).0;
            next.send_decision(id) matches Ok(Some(decision)) && !decision.may_send
        }),
{
}

/// Once a send has started, its request is never sealed as unsent.
pub proof fn lemma_started_send_is_never_sealed(
    journal: JournalView,
    id: Seq<char>,
    digest: Digest32,
    other: Digest32,
    at: u64,
)
    requires
        journal.mark_reserve_send_started(id, digest).1 is Ok,
    ensures
        ({
            let next = journal.mark_reserve_send_started(id, digest).0;
            &&& next.send_decision(id) matches Ok(Some(decision)) && decision.may_send
            &&& next.seal_never_dispatched(id, other, at).1 != Ok::<bool, Seq<char>>(true)
        }),
{
}

/// A journal that cannot tell sent from unsent never seals: records from
/// before send tracking stay ambiguous.
pub proof fn lemma_untracked_request_is_never_sealed(
    journal: JournalView,
    id: Seq<char>,
    digest: Digest32,
    at: u64,
)
    requires
        journal.intent(id) matches Ok(Some(intent)) && !intent.reserve_send_tracking,
    ensures
        journal.seal_never_dispatched(id, digest, at) == (journal, Ok::<bool, Seq<char>>(false)),
{
}

/// An ended authorization is fenced: it cannot be sent, and its request no
/// longer holds up the queue.
pub proof fn lemma_ended_authorization_is_fenced(
    journal: JournalView,
    id: Seq<char>,
    digest: Digest32,
)
    requires
        journal.ended_authorization(id) matches Ok(Some(_)),
    ensures
        journal.mark_reserve_send_started(id, digest).1 is Err,
        journal.mark_reserve_send_started(id, digest).0 == journal,
        journal.finished(id),
        !journal.open_intent(stage_key("intent"@, id)),
        journal.turn_fault(id) is Some,
{
    lemma_intent_key(id);
}

/// Ending an authorization leaves it ended.
pub proof fn lemma_ending_ends(
    journal: JournalView,
    id: Seq<char>,
    at: u64,
    reason: AuthorizationEndReason,
    record: EndedCorporateAuthorization,
)
    requires
        journal.end_unprepared_authorization(id, at, reason, record).1 is Ok,
    ensures
        journal.end_unprepared_authorization(id, at, reason, record).0.ended_authorization(
            id,
        ) matches Ok(Some(_)),
{
}

/// An authorization with prepared or delivered work, or before its permitted
/// boundary, does not end locally.
pub proof fn lemma_local_end_needs_unprepared_work(
    journal: JournalView,
    id: Seq<char>,
    at: u64,
    reason: AuthorizationEndReason,
    record: EndedCorporateAuthorization,
)
    requires
        journal.ended_authorization(id) == Ok::<Option<EndedCorporateAuthorization>, Seq<char>>(
            None,
        ),
        (journal.stage("reserve"@, id) matches Ok(Some(_))) || (journal.intent(id) matches Ok(
            Some(intent),
        ) && !JournalView::may_end(&intent, at, reason)),
    ensures
        journal.end_unprepared_authorization(id, at, reason, record).1 is Err,
        journal.end_unprepared_authorization(id, at, reason, record).0 == journal,
{
}

proof fn lemma_oldest_open(journal: JournalView, start: int)
    requires
        0 <= start,
    ensures
        journal.oldest_open(start) matches Some(key) ==> journal.open_intent(key)
            && journal.order.contains(key),
        journal.oldest_open(start) is None ==> forall|i: int|
            start <= i < journal.order.len() ==> !journal.open_intent(#[trigger] journal.order[i]),
    decreases journal.order.len() - start,
{
    if start < journal.order.len() {
        lemma_oldest_open(journal, start + 1);
        if !journal.open_intent(journal.order[start]) && journal.oldest_open(start) is None {
            assert forall|i: int| start <= i < journal.order.len() implies !journal.open_intent(
                #[trigger] journal.order[i],
            ) by {
                if i > start {
                    assert(start + 1 <= i);
                }
            }
        }
    }
}

/// A later request never overtakes: of the requests that have an intent and
/// have not finished, at most one has its turn.
pub proof fn lemma_one_request_at_a_time(journal: JournalView, id: Seq<char>, other: Seq<char>)
    requires
        journal.turn_fault(id) is None,
        journal.turn_fault(other) is None,
        !journal.finished(id),
        !journal.finished(other),
        journal.order.contains(stage_key("intent"@, id)),
        journal.order.contains(stage_key("intent"@, other)),
    ensures
        id == other,
{
    lemma_intent_key(id);
    lemma_intent_key(other);
    lemma_oldest_open(journal, 0);
    let mine = stage_key("intent"@, id);
    let i = choose|i: int| 0 <= i < journal.order.len() && journal.order[i] == mine;
    assert(journal.open_intent(journal.order[i]));
    assert(journal.oldest_open(0) is Some);
    assert(journal.oldest_open(0) == Some(mine));
    assert(journal.oldest_open(0) == Some(stage_key("intent"@, other)));
    lemma_stage_keys_distinct("intent"@, id, "intent"@, other);
}

/// An intent that is not finished always finds the queue waiting for somebody:
/// the oldest open request has its turn.
pub proof fn lemma_oldest_request_has_its_turn(journal: JournalView, id: Seq<char>)
    requires
        request_id_valid(id),
        journal.oldest_open(0) == Some(stage_key("intent"@, id)),
    ensures
        journal.turn_fault(id) is None,
{
    lemma_oldest_open(journal, 0);
    lemma_intent_key(id);
}

/// No generic stage can finish, cancel, end or fence a request.
pub proof fn lemma_generic_stage_cannot_finish(
    journal: JournalView,
    id: Seq<char>,
    stage: Seq<char>,
    body: JournalBody,
)
    requires
        !submission_stage(stage),
    ensures
        journal.save_stage(id, stage, body) == (
            journal,
            Err::<JournalBody, Seq<char>>("unknown corporate submission stage"@),
        ),
{
}

/// The stages that finish, cancel, end or fence a request are not generic.
pub proof fn lemma_finishing_stages_are_not_generic()
    ensures
        !submission_stage("receipt"@),
        !submission_stage("cancel"@),
        !submission_stage("resolved"@),
        !submission_stage("expiry"@),
        !submission_stage("authorization"@),
        !submission_stage("authorization-end"@),
        !submission_stage("reserve-send"@),
        !submission_stage("intent"@),
{
    reveal_strlit("intent");
    reveal_strlit("reserve");
    reveal_strlit("admission");
    reveal_strlit("delivery");
    reveal_strlit("receipt");
    reveal_strlit("cancel");
    reveal_strlit("expiry");
    reveal_strlit("resolved");
    reveal_strlit("reserve-send");
    reveal_strlit("authorization");
    reveal_strlit("authorization-end");
    reveal_strlit("market-input");
    reveal_strlit("market");
    assert("receipt"@.len() == 7 && "reserve"@.len() == 7);
    assert("receipt"@[2] == 'c' && "reserve"@[2] == 's');
    assert("resolved"@.len() == 8 && "delivery"@.len() == 8);
    assert("resolved"@[0] == 'r' && "delivery"@[0] == 'd');
    assert("cancel"@[0] == 'c' && "market"@[0] == 'm');
    assert("expiry"@[0] == 'e');
    assert("reserve-send"@.len() == 12 && "market-input"@.len() == 12);
    assert("reserve-send"@[0] == 'r' && "market-input"@[0] == 'm');
    assert("intent"@[0] == 'i');
    assert("authorization"@.len() == 13 && "authorization-end"@.len() == 17);
    assert("reserve"@.len() == 7 && "admission"@.len() == 9 && "market"@.len() == 6);
}

/// An open journal opens again as it is, under its own deployment and no other:
/// a foreign journal is an error, never an empty wallet.
pub proof fn lemma_corporate_journal_reopens(journal: JournalView, secret: Digest32, other: Digest32)
    requires
        journal.get("context"@) == Ok::<Option<JournalBody>, Seq<char>>(
            Some(JournalBody::Context(journal.context)),
        ),
        !is_zero(secret@),
        other != journal.context,
    ensures
        open_fault(secret, None, journal.get("context"@), journal.context) is None,
        journal.put_first("context"@, JournalBody::Context(journal.context)).0 == journal,
        ({
            let foreign = JournalView { context: other, ..journal };
            open_fault(secret, None, foreign.get("context"@), other) is Some
        }),
{
}

proof fn lemma_newest_funding_of_prefix(
    journal: JournalView,
    longer: JournalView,
    facility_id: Digest32,
    count: nat,
)
    requires
        count <= journal.order.len() <= longer.order.len(),
        longer.order.take(journal.order.len() as int) == journal.order,
    ensures
        longer.newest_funding(facility_id, count) == journal.newest_funding(facility_id, count),
    decreases count,
{
    if count > 0 {
        lemma_newest_funding_of_prefix(journal, longer, facility_id, (count - 1) as nat);
        assert(longer.order[count - 1] == longer.order.take(
            journal.order.len() as int,
        )[count - 1]);
    }
}

/// No funding record among the first `count` is newer than the newest.
pub proof fn lemma_newest_funding_is_largest(
    journal: JournalView,
    facility_id: Digest32,
    count: nat,
    at: int,
)
    requires
        0 <= at < count <= journal.order.len(),
    ensures
        match text_after(journal.order[at], funding_prefix(facility_id)) {
            None => true,
            Some(rest) => match parsed_u64(rest) {
                None => true,
                Some(sequence) => journal.newest_funding(facility_id, count) matches Some(best)
                    && sequence <= best.0,
            },
        },
    decreases count,
{
    if at < count - 1 {
        lemma_newest_funding_is_largest(journal, facility_id, (count - 1) as nat, at);
    }
}

/// The newest saved witness is the one that the next reservation starts from,
/// at once and after the journal was opened again.
pub proof fn lemma_newest_witness_is_carried(
    journal: JournalView,
    witness: FacilityWitness,
    committed: [Digest32; 3],
    saved_committed: [Digest32; 3],
)
    requires
        journal.get("context"@) == Ok::<Option<JournalBody>, Seq<char>>(
            Some(JournalBody::Context(journal.context)),
        ),
        witness.blindings_canonical(),
        journal.get(funding_key(witness.facility_id, witness.sequence)) == Ok::<
            Option<JournalBody>,
            Seq<char>,
        >(None),
        journal.newest_funding(witness.facility_id, journal.order.len()) matches Some(best)
            ==> best.0 <= witness.sequence,
    ensures
        ({
            let (next, saved) = journal.save_funding_witness(witness, committed, saved_committed);
            let reopened = next.put_first("context"@, JournalBody::Context(next.context)).0;
            &&& saved is Ok
            &&& next.latest_funding(witness.facility_id) == Ok::<
                Option<FacilityWitness>,
                Seq<char>,
            >(Some(witness))
            &&& reopened == next
            &&& reopened.latest_funding(witness.facility_id) == Ok::<
                Option<FacilityWitness>,
                Seq<char>,
            >(Some(witness))
            &&& forall|config: CorporateNativeConfig|
                config.facility_id == witness.facility_id ==> {
                    let carried = #[trigger] funded(
                        config,
                        reopened.latest_funding(config.facility_id)->Ok_0,
                    );
                    carried.facility_values == witness.values && carried.facility_blindings
                        == witness.blindings
                }
        }),
{
    let facility = witness.facility_id;
    let key = funding_key(facility, witness.sequence);
    let prefix = funding_prefix(facility);
    let next = journal.with_record(key, JournalBody::Funding(witness));
    journal.lemma_new_record_differs(key, JournalBody::Funding(witness));
    lemma_decimal_round_trip(witness.sequence);
    assert(key.subrange(0, prefix.len() as int) =~= prefix);
    assert(key.subrange(prefix.len() as int, key.len() as int) =~= decimal_text(
        witness.sequence as nat,
    ));
    assert(next.order.take(journal.order.len() as int) =~= journal.order);
    lemma_newest_funding_of_prefix(journal, next, facility, journal.order.len());
    assert(next.order[next.order.len() - 1] == key);
    reveal_strlit("context");
    reveal_strlit("funding:");
    assert(key[0] == 'f');
    assert("context"@[0] == 'c');
}

/// A witness that is older than one saved before changes nothing of what the
/// next reservation starts from.
pub proof fn lemma_older_witness_is_not_carried(
    journal: JournalView,
    witness: FacilityWitness,
    committed: [Digest32; 3],
    saved_committed: [Digest32; 3],
)
    requires
        journal.newest_funding(witness.facility_id, journal.order.len()) matches Some(best)
            && witness.sequence < best.0 && best.1 != funding_key(
            witness.facility_id,
            witness.sequence,
        ),
    ensures
        ({
            let next = journal.save_funding_witness(witness, committed, saved_committed).0;
            next.latest_funding(witness.facility_id) == journal.latest_funding(witness.facility_id)
        }),
{
    let facility = witness.facility_id;
    let key = funding_key(facility, witness.sequence);
    let prefix = funding_prefix(facility);
    let next = journal.with_record(key, JournalBody::Funding(witness));
    lemma_decimal_round_trip(witness.sequence);
    assert(key.subrange(0, prefix.len() as int) =~= prefix);
    assert(key.subrange(prefix.len() as int, key.len() as int) =~= decimal_text(
        witness.sequence as nat,
    ));
    assert(next.order.take(journal.order.len() as int) =~= journal.order);
    lemma_newest_funding_of_prefix(journal, next, facility, journal.order.len());
    assert(next.order[next.order.len() - 1] == key);
}

} // verus!
