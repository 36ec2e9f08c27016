//! What a corporate request goes through: what is read back of what was saved,
//! when it has its turn, when it counts as sent or as never sent, and how it
//! ends.

use crate::bytes::{is_zero, sha256, sha256_value, text_bytes, Digest32};
use crate::corporate::{
    CanonicalFacility, CanonicalReservation, CorporateNativeConfig, PreparedCorporateReserve,
    ReserveFacts,
};
use crate::corporate_authorization::{AuthorizationFacts, CorporateReserveAuthorization};
use crate::corporate_expiry::{
    expiry_result, release_fault, release_terminated, resolution_fault, AcceptedRelease,
    NativeExpiryResolution, OutcomeView, ReleaseReason, ResolutionView,
};
use crate::corporate_journal_model::{
    request_id_valid, stage_key, AuthorizationEndReason, EndedCorporateAuthorization, JournalBody,
    JournalView, LifecycleCommand, ReceiptFacts, ReserveSendDecision, StoredClaimAuthorizations,
    StoredCorporateDelivery, StoredCorporateIntent,
};
use crate::corporate_reconciliation::{
    expiry_funding, expiry_start, release_terms, release_terms_fault, ExpiryStep,
};
use crate::corporate_submission::{submission_step, SubmissionFacts, SubmissionStep};
use crate::edge_client::{EdgeAdmissionReceipt, PreparedEdgeDelivery};
use crate::text::text_after;
use crate::types::ClusterPublicConfig;
use vstd::prelude::*;

verus! {

/// A request identifier has one to 64 bytes, each a letter, a digit, `-` or `_`.
pub proof fn lemma_request_id_is_plain(id: Seq<char>)
    ensures
        request_id_valid(id) == {
            let bytes = text_bytes(id);
            &&& 0 < id.len()
            &&& bytes.len() <= 64
            &&& forall|i: int|
                0 <= i < bytes.len() ==> (48 <= (#[trigger] bytes[i]) <= 57 || 65 <= bytes[i]
                    <= 90 || 97 <= bytes[i] <= 122 || bytes[i] == 45 || bytes[i] == 95)
        },
{
    let bytes = text_bytes(id);
    if request_id_valid(id) {
        assert forall|i: int| 0 <= i < bytes.len() implies (48 <= (#[trigger] bytes[i]) <= 57
            || 65 <= bytes[i] <= 90 || 97 <= bytes[i] <= 122 || bytes[i] == 45 || bytes[i]
            == 95) by {
            assert(crate::corporate_journal_model::request_byte(bytes[i]));
        }
    }
}

/// Only records of this deployment and of the current schema are read; any other
/// record under the key is an error, and no record is none.
pub proof fn lemma_only_own_records_are_read(journal: JournalView, key: Seq<char>)
    ensures
        journal.get(key) == Ok::<Option<JournalBody>, Seq<char>>(None)
            <==> !journal.records.dom().contains(key),
        journal.get(key) matches Ok(Some(body)) ==> {
            &&& journal.records[key].context == journal.context
            &&& journal.records[key].version == 2
            &&& body == journal.records[key].body
        },
        journal.records.dom().contains(key) && journal.records[key].context == journal.context
            && journal.records[key].version == 2 ==> journal.get(key) is Ok,
{
}

/// What a request's first save keeps is what is read back, under that request and
/// that stage.
pub proof fn lemma_what_is_saved_is_read_back(
    journal: JournalView,
    id: Seq<char>,
    intent: StoredCorporateIntent,
    reserve: PreparedCorporateReserve,
    admission: Vec<u8>,
    delivery: StoredCorporateDelivery,
)
    requires
        request_id_valid(id),
    ensures
        journal.intent(id) == Ok::<Option<StoredCorporateIntent>, Seq<char>>(None) ==> {
            let (next, saved) = journal.save_intent(id, intent);
            saved is Ok && next.intent(id) == Ok::<Option<StoredCorporateIntent>, Seq<char>>(
                Some(intent),
            )
        },
        journal.reserve(id) == Ok::<Option<PreparedCorporateReserve>, Seq<char>>(None) ==> {
            let (next, saved) = journal.save_stage(id, "reserve"@, JournalBody::Reserve(reserve));
            saved is Ok && next.reserve(id) == Ok::<Option<PreparedCorporateReserve>, Seq<char>>(
                Some(reserve),
            )
        },
        journal.stage("admission"@, id) == Ok::<Option<JournalBody>, Seq<char>>(None) ==> {
            let (next, saved) = journal.save_stage(
                id,
                "admission"@,
                JournalBody::Admission(admission),
            );
            saved is Ok && next.stage("admission"@, id) == Ok::<Option<JournalBody>, Seq<char>>(
                Some(JournalBody::Admission(admission)),
            )
        },
        journal.delivery(id) == Ok::<Option<StoredCorporateDelivery>, Seq<char>>(None) ==> {
            let (next, saved) = journal.save_stage(
                id,
                "delivery"@,
                JournalBody::Delivery(delivery),
            );
            saved is Ok && next.delivery(id) == Ok::<Option<StoredCorporateDelivery>, Seq<char>>(
                Some(delivery),
            )
        },
{
}

/// Signed terms are kept only with an intent that they repeat, and are read back.
pub proof fn lemma_kept_terms_fit_the_intent(
    journal: JournalView,
    id: Seq<char>,
    value: CorporateReserveAuthorization,
    config: &CorporateNativeConfig,
    facts: Result<AuthorizationFacts, String>,
    saved_facts: Result<AuthorizationFacts, String>,
)
    requires
        journal.save_authorization(id, value, config, facts, saved_facts).1 is Ok,
    ensures
        ({
            let next = journal.save_authorization(id, value, config, facts, saved_facts).0;
            &&& value.fault(config, facts) is None
            &&& journal.intent(id) matches Ok(Some(intent)) && {
                &&& value.order_wire@ == intent.order_wire@
                &&& value.signing_key@ == intent.signing_key@
                &&& value.eligibility_commitment == intent.eligibility_commitment
                &&& intent.accepted_at <= value.mandate.valid_from
                &&& value.mandate.valid_until == intent.expires_at
            }
            &&& next.authorization(id) matches Ok(Some(kept)) && {
                &&& journal.authorization(id) == Ok::<
                    Option<CorporateReserveAuthorization>,
                    Seq<char>,
                >(None) ==> kept == value
                &&& journal.authorization(id) matches Ok(Some(earlier)) ==> kept == earlier
            }
        }),
{
}

/// A receipt is kept only where it proves that all seven nodes acknowledged the
/// very ciphertexts of the delivery, and then it finishes the request.
pub proof fn lemma_kept_receipt_acknowledges_the_delivery(
    journal: JournalView,
    id: Seq<char>,
    receipt: EdgeAdmissionReceipt,
    delivery: &PreparedEdgeDelivery,
    cluster: &ClusterPublicConfig,
    facts: &ReceiptFacts,
    saved_facts: &ReceiptFacts,
)
    requires
        journal.save_receipt(id, receipt, delivery, cluster, facts, saved_facts).1 is Ok,
    ensures
        ({
            let next = journal.save_receipt(
                id,
                receipt,
                delivery,
                cluster,
                facts,
                saved_facts,
            ).0;
            &&& cluster.fault is None
            &&& facts.delivery_manifest && facts.receipt_manifest
            &&& delivery.manifest.market_id@ == cluster.market_id@
            &&& receipt.manifest@ == delivery.manifest@
            &&& receipt.admitted(cluster, facts.receipt_manifest, facts.receipts_valid@)
            &&& forall|i: int|
                0 <= i < delivery.deliveries@.len() ==> {
                    let sent = #[trigger] delivery.deliveries@[i];
                    &&& sent.party < 7
                    &&& receipt.order_share_digests@[sent.party as int] == sent.share_digest
                    &&& receipt.capability_key_share_digests@[sent.party as int] == sent.key_digest
                }
            &&& next.finished(id)
            &&& next.receipt(id) matches Ok(Some(kept)) && (journal.receipt(id) == Ok::<
                Option<EdgeAdmissionReceipt>,
                Seq<char>,
            >(None) ==> kept == receipt)
        }),
{
}

/// A cancellation is kept only for an order that was admitted, by the key that
/// signed it.
pub proof fn lemma_cancellation_is_of_the_admitted_order(
    journal: JournalView,
    id: Seq<char>,
    command: LifecycleCommand,
    signer: Digest32,
    verified: Result<(), String>,
    saved_verified: Result<(), String>,
)
    requires
        journal.save_cancellation(id, command, signer, verified, saved_verified).1 is Ok,
    ensures
        ({
            let next = journal.save_cancellation(id, command, signer, verified, saved_verified).0;
            &&& journal.intent(id) matches Ok(Some(_))
            &&& journal.receipt(id) matches Ok(Some(receipt)) && journal.delivery(id) matches Ok(
                Some(delivery),
            ) && receipt.manifest@ == delivery.delivery.manifest@ && signer
                == receipt.manifest.signer
            &&& command.reason == ReleaseReason::Cancelled
            &&& verified is Ok
            &&& next.cancellation(id) matches Ok(Some(kept)) && (journal.cancellation(id) == Ok::<
                Option<LifecycleCommand>,
                Seq<char>,
            >(None) ==> kept == command)
        }),
{
}

proof fn lemma_oldest_from(journal: JournalView, start: int)
    requires
        0 <= start <= journal.order.len(),
    ensures
        match journal.oldest_open(start) {
            None => forall|i: int|
                start <= i < journal.order.len() ==> !journal.open_intent(
                    #[trigger] journal.order[i],
                ),
            Some(key) => exists|at: int|
                start <= at < journal.order.len() && (#[trigger] journal.order[at]) == key
                    && journal.open_intent(key) && forall|i: int|
                    start <= i < at ==> !journal.open_intent(#[trigger] journal.order[i]),
        },
    decreases journal.order.len() - start,
{
    if start < journal.order.len() {
        if journal.open_intent(journal.order[start]) {
            assert(journal.order[start] == journal.oldest_open(start)->0);
        } else {
            lemma_oldest_from(journal, start + 1);
            if journal.oldest_open(start + 1) is Some {
                let key = journal.oldest_open(start + 1)->0;
                let at = choose|at: int|
                    start + 1 <= at < journal.order.len() && (#[trigger] journal.order[at]) == key
                        && journal.open_intent(key) && forall|i: int|
                        start + 1 <= i < at ==> !journal.open_intent(#[trigger] journal.order[i]);
                assert(journal.order[at] == key);
            }
        }
    }
}

/// A request has its turn exactly where it has not ended without admission and
/// either was admitted, or no other request that came before it is still open.
pub proof fn lemma_requests_take_turns(journal: JournalView, id: Seq<char>)
    ensures
        ({
            let admitted = journal.records.dom().contains(stage_key("receipt"@, id));
            let ended = journal.records.dom().contains(stage_key("resolved"@, id))
                || journal.records.dom().contains(stage_key("authorization-end"@, id));
            let own = stage_key("intent"@, id);
            &&& journal.turn_fault(id) is None ==> request_id_valid(id) && !ended
            &&& request_id_valid(id) && !ended && admitted ==> journal.turn_fault(id) is None
            &&& journal.turn_fault(id) is None && !admitted ==> {
                ||| forall|i: int|
                    0 <= i < journal.order.len() ==> !journal.open_intent(
                        #[trigger] journal.order[i],
                    )
                ||| exists|at: int|
                    0 <= at < journal.order.len() && (#[trigger] journal.order[at]) == own
                        && forall|i: int|
                        0 <= i < at ==> !journal.open_intent(#[trigger] journal.order[i])
            }
            &&& request_id_valid(id) && !ended && (forall|i: int|
                0 <= i < journal.order.len() && journal.open_intent(#[trigger] journal.order[i])
                    ==> journal.order[i] == own) ==> journal.turn_fault(id) is None
        }),
{
    lemma_oldest_from(journal, 0);
    if journal.oldest_open(0) is Some {
        let key = journal.oldest_open(0)->0;
        let at = choose|at: int|
            0 <= at < journal.order.len() && (#[trigger] journal.order[at]) == key
                && journal.open_intent(key) && forall|i: int|
                0 <= i < at ==> !journal.open_intent(#[trigger] journal.order[i]);
        assert(journal.order[at] == key);
    }
}

/// An intent is open until its request was admitted, resolved or ended.
pub proof fn lemma_open_until_finished(journal: JournalView, key: Seq<char>)
    ensures
        journal.open_intent(key) == (text_after(key, "intent:"@) matches Some(id)
            && !journal.records.dom().contains(stage_key("receipt"@, id))
            && !journal.records.dom().contains(stage_key("resolved"@, id))
            && !journal.records.dom().contains(stage_key("authorization-end"@, id))),
{
}

proof fn lemma_any_stage(journal: JournalView, stages: Seq<Seq<char>>, id: Seq<char>, start: int)
    requires
        0 <= start <= stages.len(),
    ensures
        journal.any_stage(stages, id, start) == Ok::<bool, Seq<char>>(false) ==> forall|i: int|
            start <= i < stages.len() ==> journal.stage(#[trigger] stages[i], id) == Ok::<
                Option<JournalBody>,
                Seq<char>,
            >(None),
    decreases stages.len() - start,
{
    if start < stages.len() {
        lemma_any_stage(journal, stages, id, start + 1);
    }
}

/// A request is sealed as never sent only after it has expired, where its sends
/// are tracked and nothing of it was admitted, delivered or acknowledged; the
/// fence then names this request and this reserve.
pub proof fn lemma_seal_needs_an_unsent_request(
    journal: JournalView,
    id: Seq<char>,
    digest: Digest32,
    at: u64,
)
    requires
        journal.seal_never_dispatched(id, digest, at).1 == Ok::<bool, Seq<char>>(true),
    ensures
        ({
            let next = journal.seal_never_dispatched(id, digest, at).0;
            let none = Ok::<Option<JournalBody>, Seq<char>>(None);
            &&& journal.intent(id) matches Ok(Some(intent)) && {
                &&& intent.reserve_send_tracking
                &&& intent.expires_at < at
                &&& next.send_decision(id) matches Ok(Some(decision)) && {
                    &&& !decision.may_send
                    &&& decision.intent_digest == intent.input_digest
                    &&& journal.send_binding(id, digest) == Ok::<Digest32, Seq<char>>(
                        decision.reserve_digest,
                    )
                }
            }
            &&& journal.stage("admission"@, id) == none
            &&& journal.stage("delivery"@, id) == none
            &&& journal.stage("receipt"@, id) == none
        }),
{
    let stages = seq!["admission"@, "delivery"@, "receipt"@];
    lemma_any_stage(journal, stages, id, 0);
    assert(stages[0] == "admission"@ && stages[1] == "delivery"@ && stages[2] == "receipt"@);
}

/// A send is bound to the signed terms where there are any, and a reserve under
/// them counts only where it repeats them; without signed terms it is bound to
/// the reserve itself.
pub proof fn lemma_send_is_bound_to_the_terms(
    journal: JournalView,
    id: Seq<char>,
    digest: Digest32,
)
    requires
        journal.send_binding(id, digest) is Ok,
    ensures
        journal.authorization(id) == Ok::<Option<CorporateReserveAuthorization>, Seq<char>>(None)
            ==> journal.send_binding(id, digest)->Ok_0 == digest,
        journal.authorization(id) matches Ok(Some(terms)) ==> {
            &&& (journal.send_binding(id, digest)->Ok_0)@ == sha256(terms.digest_bytes())
            &&& digest@ != sha256(terms.digest_bytes()) ==> (journal.reserve(id) matches Ok(
                Some(prepared),
            ) && digest@ == sha256(prepared.request.wire@) && prepared.request.mandate.wire@
                == terms.mandate.wire@ && prepared.order_wire@ == terms.order_wire@
                && prepared.request.order_authorization_salt == terms.order_authorization_salt
                && prepared.request.reserve_reblinding == terms.reserve_reblinding)
        },
{
}

/// The first decision about a send stays: whoever asks later is told that one.
pub proof fn lemma_first_send_decision_stays(
    journal: JournalView,
    id: Seq<char>,
    digest: Digest32,
    may_send: bool,
    later: Digest32,
    other: bool,
)
    requires
        journal.choose_reserve_send(id, digest, may_send).1 is Ok,
    ensures
        ({
            let (next, chosen) = journal.choose_reserve_send(id, digest, may_send);
            &&& journal.send_decision(id) == Ok::<Option<ReserveSendDecision>, Seq<char>>(None)
                ==> chosen == Ok::<bool, Seq<char>>(may_send)
            &&& next.send_decision(id) matches Ok(Some(decision)) && Ok::<bool, Seq<char>>(
                decision.may_send,
            ) == chosen
            &&& next.choose_reserve_send(id, later, other).0 == next
            &&& next.choose_reserve_send(id, later, other).1 is Ok ==> next.choose_reserve_send(
                id,
                later,
                other,
            ).1 == chosen
        }),
{
}

/// Signed terms end locally only where nothing was prepared, sent, delivered or
/// acknowledged for them, at a time that is theirs, and behind the fence.
pub proof fn lemma_local_end_excludes_a_send(
    journal: JournalView,
    id: Seq<char>,
    at: u64,
    reason: AuthorizationEndReason,
    record: EndedCorporateAuthorization,
)
    requires
        journal.end_unprepared_authorization(id, at, reason, record).1 is Ok,
        journal.ended_authorization(id) == Ok::<Option<EndedCorporateAuthorization>, Seq<char>>(
            None,
        ),
    ensures
        ({
            let next = journal.end_unprepared_authorization(id, at, reason, record).0;
            let none = Ok::<Option<JournalBody>, Seq<char>>(None);
            &&& journal.intent(id) matches Ok(Some(intent)) && {
                &&& intent.reserve_send_tracking
                &&& intent.accepted_at <= at
                &&& reason == AuthorizationEndReason::Expired ==> intent.expires_at < at
            }
            &&& journal.authorization(id) matches Ok(Some(_))
            &&& journal.stage("reserve"@, id) == none
            &&& journal.stage("admission"@, id) == none
            &&& journal.stage("delivery"@, id) == none
            &&& journal.stage("receipt"@, id) == none
            &&& next.send_decision(id) matches Ok(Some(decision)) && !decision.may_send
            &&& next.finished(id)
        }),
{
    let stages = seq!["reserve"@, "admission"@, "delivery"@, "receipt"@];
    lemma_any_stage(journal, stages, id, 0);
    assert(stages[0] == "reserve"@ && stages[1] == "admission"@ && stages[2] == "delivery"@
        && stages[3] == "receipt"@);
    let next = journal.end_unprepared_authorization(id, at, reason, record).0;
    assert(next.ended_authorization(id) matches Ok(Some(_)));
}

/// An end that is on record belongs to its request and its terms, and stands
/// behind the fence.
pub proof fn lemma_recorded_end_is_its_own(journal: JournalView, id: Seq<char>)
    requires
        journal.ended_authorization(id) matches Ok(Some(_)),
    ensures
        ({
            let ended = journal.ended_authorization(id)->Ok_0->Some_0;
            &&& ended.request_id@ == id
            &&& journal.authorization(id) matches Ok(Some(terms)) && ended.authorization_digest@
                == sha256(terms.digest_bytes())
            &&& journal.intent(id) matches Ok(Some(intent)) && {
                &&& intent.reserve_send_tracking
                &&& intent.accepted_at <= ended.ended_at
                &&& ended.reason == AuthorizationEndReason::Expired ==> intent.expires_at
                    < ended.ended_at
                &&& journal.send_decision(id) matches Ok(Some(decision)) && {
                    &&& !decision.may_send
                    &&& decision.intent_digest == intent.input_digest
                    &&& decision.reserve_digest == ended.authorization_digest
                }
            }
        }),
{
}

/// A release ends a reserve only as an expiry of that very reservation, before
/// anything of it was used.
pub proof fn lemma_release_is_of_the_unused_reserve(
    release: crate::corporate_expiry::ReleaseView,
    prepared: &PreparedCorporateReserve,
    verified: Result<(), String>,
)
    ensures
        release_fault(release, prepared, verified) is None == {
            &&& release.reason == ReleaseReason::Expired
            &&& release.hold_id == prepared.request.mandate.hold_id
            &&& release.sequence == 0
            &&& verified is Ok
        },
{
}

/// An end stands exactly where it names this reserve, was checked after the
/// mandate had ended, and shows the ledger's evidence: a root where nothing was
/// reserved, or a whole receipt of a release that moved the root.
pub proof fn lemma_end_needs_evidence(
    value: ResolutionView,
    prepared: &PreparedCorporateReserve,
    verified: Result<(), String>,
)
    ensures
        resolution_fault(value, prepared, verified) is None == {
            &&& value.reserve_digest@ == sha256(prepared.request.wire@)
            &&& prepared.request.mandate.valid_until < value.checked_at
            &&& 0 < value.request_id.len()
            &&& text_bytes(value.request_id).len() <= 64
            &&& match value.outcome {
                OutcomeView::NeverReserved { state_root } => !is_zero(state_root@),
                OutcomeView::Released { release, transaction_id, block_id, height, after_root } => {
                    &&& release_fault(release, prepared, verified) is None
                    &&& 0 < transaction_id.len() && text_bytes(transaction_id).len() <= 128
                    &&& 0 < block_id.len() && text_bytes(block_id).len() <= 128
                    &&& height > 0
                    &&& !is_zero(after_root@)
                    &&& after_root != release.before_root
                },
            }
        },
{
}

/// An end that claims that nothing was sent is saved only behind the fence of
/// exactly this request and reserve. What is saved is read back, and no other end
/// replaces it.
pub proof fn lemma_saved_end_stands(
    journal: JournalView,
    value: NativeExpiryResolution,
    prepared: &PreparedCorporateReserve,
    verified: Result<(), String>,
    other: NativeExpiryResolution,
)
    requires
        journal.save_expiry_resolution(value, prepared, verified).1 is Ok,
        other@ != value@,
    ensures
        ({
            let next = journal.save_expiry_resolution(value, prepared, verified).0;
            &&& resolution_fault(value@, prepared, verified) is None
            &&& value.outcome@ is NeverReserved ==> {
                let intent = journal.intent(value.request_id@)->Ok_0->Some_0;
                let decision = journal.send_decision(value.request_id@)->Ok_0->Some_0;
                &&& journal.intent(value.request_id@) matches Ok(Some(_))
                &&& journal.send_decision(value.request_id@) matches Ok(Some(_))
                &&& intent.reserve_send_tracking
                &&& !decision.may_send
                &&& decision.intent_digest == intent.input_digest
                &&& journal.send_binding(value.request_id@, value.reserve_digest) == Ok::<
                    Digest32,
                    Seq<char>,
                >(decision.reserve_digest)
            }
            &&& next.save_expiry_resolution(other, prepared, verified).0 == next
            &&& next.save_expiry_resolution(other, prepared, verified).1 is Err
        }),
{
}

/// An expired request is finished only with the end that was saved for it.
pub proof fn lemma_completed_expiry_has_its_evidence(
    journal: JournalView,
    value: NativeExpiryResolution,
    prepared: &PreparedCorporateReserve,
    verified: Result<(), String>,
)
    requires
        journal.complete_expiry(value, prepared, verified).1 is Ok,
    ensures
        ({
            let next = journal.complete_expiry(value, prepared, verified).0;
            &&& resolution_fault(value@, prepared, verified) is None
            &&& journal.expiry_resolution(prepared, verified) matches Ok(Some(kept)) && kept@
                == value@
            &&& next.finished(value.request_id@)
            &&& next.resolved(value.request_id@) matches Ok(Some(kept)) && kept@ == value@
        }),
{
}

/// The journal says that a reserve was never sent only where its terms ended
/// locally behind the fence, or its saved end says so.
pub proof fn lemma_never_reserved_has_a_reason(
    journal: JournalView,
    prepared: &PreparedCorporateReserve,
    verified: Result<(), String>,
)
    requires
        journal.was_never_reserved(prepared, verified) == Ok::<bool, Seq<char>>(true),
    ensures
        (exists|i: int|
            0 <= i < journal.order.len() && ended_for(journal, #[trigger] journal.order[i], prepared))
            || (journal.expiry_resolution(prepared, verified) matches Ok(Some(value))
            && value.outcome is NeverReserved),
{
    lemma_ended_from(journal, prepared, 0);
}

/// Whether a record is the local end of the terms behind a reserve.
pub open spec fn ended_for(
    journal: JournalView,
    key: Seq<char>,
    prepared: &PreparedCorporateReserve,
) -> bool {
    text_after(key, "authorization-end:"@) matches Some(id) && (journal.ended_authorization(
        id,
    ) matches Ok(Some(_))) && (journal.authorization(id) matches Ok(Some(terms))
        && terms.mandate.hold_id == prepared.request.mandate.hold_id) && journal.send_binding(
        id,
        sha256_value(prepared.request.wire@),
    ) is Ok
}

proof fn lemma_ended_from(journal: JournalView, prepared: &PreparedCorporateReserve, start: int)
    requires
        0 <= start <= journal.order.len(),
    ensures
        journal.ended_unsent(prepared, start) == Ok::<bool, Seq<char>>(true) ==> exists|i: int|
            start <= i < journal.order.len() && ended_for(
                journal,
                #[trigger] journal.order[i],
                prepared,
            ),
    decreases journal.order.len() - start,
{
    if start < journal.order.len() && journal.ended_unsent(prepared, start) == Ok::<
        bool,
        Seq<char>,
    >(true) {
        lemma_ended_from(journal, prepared, start + 1);
        if journal.ended_unsent(prepared, start + 1) == Ok::<bool, Seq<char>>(true) {
            let i = choose|i: int|
                start + 1 <= i < journal.order.len() && ended_for(
                    journal,
                    #[trigger] journal.order[i],
                    prepared,
                );
            assert(ended_for(journal, journal.order[i], prepared));
        }
        if !ended_for(journal, journal.order[start], prepared) {
            assert(journal.ended_unsent(prepared, start + 1) == Ok::<bool, Seq<char>>(true));
        }
    }
}

proof fn lemma_owner_among(journal: JournalView, reservation_id: Digest32, count: nat)
    requires
        count <= journal.order.len(),
        journal.reservation_owner(reservation_id, count) is Ok,
    ensures
        match journal.reservation_owner(reservation_id, count)->Ok_0 {
            None => forall|i: int|
                0 <= i < count ==> !reserves(journal, #[trigger] journal.order[i], reservation_id),
            Some(id) => {
                &&& journal.stage("admission"@, id) matches Ok(Some(JournalBody::Admission(_)))
                &&& journal.receipt(id) matches Ok(Some(_))
                &&& exists|at: int|
                    0 <= at < count && text_after(#[trigger] journal.order[at], "reserve:"@)
                        == Some(id) && reserves(journal, journal.order[at], reservation_id)
                        && forall|i: int|
                        0 <= i < count && i != at ==> !reserves(
                            journal,
                            #[trigger] journal.order[i],
                            reservation_id,
                        )
            },
        },
    decreases count,
{
    if count > 0 {
        let before = (count - 1) as nat;
        lemma_owner_among(journal, reservation_id, before);
        let key = journal.order[before as int];
        match journal.reservation_owner(reservation_id, before)->Ok_0 {
            None => {
                if reserves(journal, key, reservation_id) {
                    assert(text_after(journal.order[before as int], "reserve:"@) is Some);
                }
            },
            Some(id) => {
                assert(!reserves(journal, key, reservation_id));
                let at = choose|at: int|
                    0 <= at < before && text_after(#[trigger] journal.order[at], "reserve:"@)
                        == Some(id) && reserves(journal, journal.order[at], reservation_id)
                        && forall|i: int|
                        0 <= i < before && i != at ==> !reserves(
                            journal,
                            #[trigger] journal.order[i],
                            reservation_id,
                        );
                assert(text_after(journal.order[at], "reserve:"@) == Some(id));
            },
        }
    }
}

/// Whether a record is a reserve of a reservation.
pub open spec fn reserves(journal: JournalView, key: Seq<char>, reservation_id: Digest32) -> bool {
    text_after(key, "reserve:"@) is Some && (journal.get(key) matches Ok(
        Some(JournalBody::Reserve(prepared)),
    ) && prepared.request.mandate.hold_id == reservation_id)
}

/// A reservation is owned by the one request whose reserve it is, once that was
/// permitted and admitted to the market.
pub proof fn lemma_reservation_has_one_admitted_owner(
    journal: JournalView,
    reservation_id: Digest32,
)
    requires
        journal.admitted_reservation(reservation_id) is Ok,
    ensures
        ({
            let id = journal.admitted_reservation(reservation_id)->Ok_0;
            &&& journal.stage("admission"@, id) matches Ok(Some(JournalBody::Admission(_)))
            &&& journal.receipt(id) matches Ok(Some(_))
            &&& exists|at: int|
                0 <= at < journal.order.len() && text_after(
                    #[trigger] journal.order[at],
                    "reserve:"@,
                ) == Some(id) && reserves(journal, journal.order[at], reservation_id) && forall|
                    i: int,
                |
                    0 <= i < journal.order.len() && i != at ==> !reserves(
                        journal,
                        #[trigger] journal.order[i],
                        reservation_id,
                    )
        }),
{
    lemma_owner_among(journal, reservation_id, journal.order.len());
}

/// The funding that is carried on is a witness of this facility, at the largest
/// generation on record.
pub proof fn lemma_carried_funding_is_the_facilitys(journal: JournalView, facility_id: Digest32)
    requires
        journal.latest_funding(facility_id) matches Ok(Some(_)),
    ensures
        ({
            let witness = journal.latest_funding(facility_id)->Ok_0->Some_0;
            &&& witness.facility_id == facility_id
            &&& witness.blindings_canonical()
            &&& journal.newest_funding(facility_id, journal.order.len()) matches Some(best)
                && best.0 == witness.sequence && journal.get(best.1) == Ok::<
                Option<JournalBody>,
                Seq<char>,
            >(Some(JournalBody::Funding(witness)))
        }),
{
}

/// What a submission does next follows from what is on record: the reserve is
/// asked for while nothing was permitted, the ciphertexts are built once it was,
/// sent once they are saved, and it is complete once their receipt stands.
pub proof fn lemma_submission_follows_its_records(
    journal: JournalView,
    config: &CorporateNativeConfig,
    cluster: &ClusterPublicConfig,
    id: Seq<char>,
    source_note: Option<Digest32>,
    facts: &SubmissionFacts,
    submitted: bool,
)
    requires
        submission_step(journal, config, cluster, id, source_note, facts, submitted).1 is Ok,
    ensures
        ({
            let (next, result) = submission_step(
                journal,
                config,
                cluster,
                id,
                source_note,
                facts,
                submitted,
            );
            let step = result->Ok_0;
            let permitted = journal.stage("admission"@, id) matches Ok(Some(_));
            let sealed = journal.delivery(id) matches Ok(Some(_));
            let acknowledged = journal.receipt(id) matches Ok(Some(_));
            &&& journal.turn_fault(id) is None
            &&& journal.intent(id) matches Ok(Some(intent)) && journal.reserve(id) matches Ok(
                Some(prepared),
            ) && {
                &&& prepared.fault(config, facts.reserve) is None
                &&& prepared.order_wire@ == intent.order_wire@
                &&& prepared.signing_key@ == intent.signing_key@
                &&& prepared.eligibility_commitment == intent.eligibility_commitment
                &&& journal.delivery(id) matches Ok(Some(delivery)) ==> delivery.reserve_digest@
                    == sha256(prepared.request.wire@)
            }
            &&& step is FinalizeReservation == (!permitted && !sealed)
            &&& step is BuildDelivery == (permitted && !sealed)
            &&& step is SubmitToNodes == (sealed && !acknowledged)
            &&& step is Complete == (sealed && acknowledged)
            &&& step matches SubmissionStep::Complete { reused_completed_receipt }
                ==> reused_completed_receipt == !submitted
            &&& !(step is FinalizeReservation) ==> next == journal
        }),
{
}

/// Reconciliation starts only for a saved reserve that stands, after its mandate
/// has ended; it reads the ledger while no end is saved, and recovers the wallet
/// once one is, which has to be this request's.
pub proof fn lemma_reconciliation_starts_after_the_deadline(
    journal: JournalView,
    config: &CorporateNativeConfig,
    id: Seq<char>,
    facts: Result<ReserveFacts, String>,
    verified: Result<(), String>,
    now: u64,
)
    requires
        expiry_start(journal, config, id, facts, verified, now) is Ok,
    ensures
        ({
            let step = expiry_start(journal, config, id, facts, verified, now)->Ok_0;
            &&& journal.reserve(id) matches Ok(Some(prepared)) && {
                &&& prepared.fault(config, facts) is None
                &&& prepared.request.mandate.valid_until < now
                &&& step == ExpiryStep::ReadFunding <==> (journal.expiry_resolution(
                    &prepared,
                    verified,
                ) matches Ok(None))
                &&& step == ExpiryStep::RecoverWallet <==> (journal.expiry_resolution(
                    &prepared,
                    verified,
                ) matches Ok(Some(saved)) && saved.request_id@ == id)
            }
            &&& step == ExpiryStep::ReadFunding || step == ExpiryStep::RecoverWallet
        }),
{
}

/// The ledger's reservation is read unless the facility stands exactly where it
/// stood before the reserve and the journal seals the request as never sent.
pub proof fn lemma_moved_facility_needs_the_ledger(
    journal: JournalView,
    facility_id: Digest32,
    id: Seq<char>,
    now: u64,
    root: Digest32,
    facility: &CanonicalFacility,
)
    requires
        expiry_funding(journal, facility_id, id, now, root, facility).1 is Ok,
    ensures
        ({
            let (next, result) = expiry_funding(journal, facility_id, id, now, root, facility);
            let step = result->Ok_0;
            &&& facility.state_root == root
            &&& facility.facility_id == facility_id
            &&& step == ExpiryStep::ConfirmAbsence || step == ExpiryStep::ReadReservation
            &&& journal.reserve(id) matches Ok(Some(prepared)) && {
                let unmoved = facility.sequence == prepared.request.before_sequence
                    && facility.commitments == prepared.request.before;
                let sealed = journal.seal_never_dispatched(
                    id,
                    sha256_value(prepared.request.wire@),
                    now,
                );
                &&& step == ExpiryStep::ConfirmAbsence <==> unmoved && sealed.1 == Ok::<
                    bool,
                    Seq<char>,
                >(true)
                &&& !unmoved ==> next == journal
                &&& unmoved ==> next == sealed.0
            }
        }),
{
}

/// A release continues the ledger's head of the original, unused reserve: the
/// terms that were saved, or else new ones over an active head.
pub proof fn lemma_release_continues_the_head(
    journal: JournalView,
    id: Seq<char>,
    root: Digest32,
    head: &CanonicalReservation,
    binding: Seq<u8>,
    hold_id: Digest32,
)
    requires
        release_terms_fault(journal, id, root, head, binding) is None,
    ensures
        ({
            let (terms, saved) = release_terms(journal, id, root, head, hold_id);
            &&& head.state_root == root
            &&& head.binding@ == binding
            &&& head.sequence <= 1
            &&& saved == (journal.expiry_release(id) matches Ok(Some(_)))
            &&& journal.expiry_release(id) matches Ok(Some(kept)) ==> terms == kept@
            &&& !saved ==> {
                &&& head.status@ == "active"@
                &&& head.sequence == 0
                &&& terms.reason == ReleaseReason::Expired
                &&& terms.hold_id == hold_id
                &&& terms.sequence == 0
                &&& terms.before_root == root
                &&& terms.previous_receipt == head.head_receipt
            }
        }),
{
}

/// A reserve was released only where the ledger shows the original reservation,
/// released once by the accepted statement, with all of its amount.
pub proof fn lemma_released_reserve_is_whole(
    after: &CanonicalReservation,
    accepted: &AcceptedRelease,
    prepared: &PreparedCorporateReserve,
    binding: Seq<u8>,
)
    ensures
        release_terminated(after, accepted, prepared, binding) == {
            &&& after.status@ == "released"@
            &&& after.sequence == 1
            &&& after.binding@ == binding
            &&& after.head_receipt == accepted.statement
            &&& after.remaining_commitment == prepared.request.mandate.amount_commitment
        },
{
}

/// An end names its request, its reserve, its time and its outcome.
pub proof fn lemma_end_names_its_request(
    id: Seq<char>,
    prepared: &PreparedCorporateReserve,
    now: u64,
    outcome: OutcomeView,
)
    ensures
        expiry_result(id, prepared, now, outcome).request_id == id,
        expiry_result(id, prepared, now, outcome).reserve_digest@ == sha256(
            prepared.request.wire@,
        ),
        expiry_result(id, prepared, now, outcome).checked_at == now,
        expiry_result(id, prepared, now, outcome).outcome == outcome,
{
}

/// Kept claim signers stand only with two different legs whose keys still give
/// their public commitments, and behind a canonical response that names exactly
/// them and verifies.
pub proof fn lemma_kept_signers_stand_behind_their_response(
    record: &StoredClaimAuthorizations,
    issue_version: u16,
)
    requires
        record.public_fault(issue_version) is None,
    ensures
        record.version == issue_version,
        !is_zero(record.issue_view@),
        !is_zero(record.reservation_id@),
        !is_zero(record.order_signer@),
        record.sequence < u64::MAX,
        record.not_before < record.not_after,
        record.first.leg != record.second.leg,
        record.first.derived matches Ok(commitment) && commitment@ == record.first.authorization@,
        record.second.derived matches Ok(commitment) && commitment@ == record.second.authorization@,
        record.shape is Ok,
        0 < record.response_wire@.len() <= 65536,
        record.reply matches Ok(reply) && {
            &&& reply.reencoded@ == record.response_wire@
            &&& reply.verified is Ok
            &&& reply.version == record.version
            &&& reply.reservation_id == record.reservation_id
            &&& reply.sequence == record.sequence
            &&& reply.first.leg == record.first.leg
            &&& reply.first.recipient_commitment == record.first.recipient_commitment
            &&& reply.first.authorization@ == record.first.authorization@
            &&& reply.second.leg == record.second.leg
            &&& reply.second.recipient_commitment == record.second.recipient_commitment
            &&& reply.second.authorization@ == record.second.authorization@
        },
{
}

} // verus!
