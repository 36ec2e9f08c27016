//! Corporate-only background dispatch. Admission acknowledgements are not
//! settlement receipts. The journal remains the source of exact signed reserve,
//! proof and encrypted-delivery bytes.

use crate::bytes::{
    bytes_equal, digest_equal, digest_is_zero, hex_encode, hex_text, is_zero, push_all, push_text,
    sha256, sha256_digest, text_bytes, Digest32,
};
use crate::corporate::{
    funded, reserve_digest, BuiltRequest, CorporateNativeConfig, OrderTerms,
    PreparedCorporateReserve, ReserveFacts,
};
use crate::corporate_authorization::{
    finish_refusal, prepare_authorized_reservation, reserve_of, AuthorizationFacts,
    CorporateReserveAuthorization, FundingRead, PreparationError,
};
use crate::corporate_expiry::{ExpiryOutcome, NativeExpiryResolution};
use crate::corporate_journal::NativeCorporateJournal;
use crate::corporate_journal_model::{
    AuthorizationEndReason, EndedCorporateAuthorization, JournalBody, JournalView,
    StoredCorporateIntent,
};
use crate::corporate_submission::{
    complete_native_submission, submission_step, SubmissionFacts, SubmissionStep,
};
use crate::edge_client::EdgeAdmissionReceipt;
use crate::store::text_result;
use crate::text::joined_text;
use crate::text_map::text_equal;
use crate::types::{ClusterPublicConfig, OrderCommitment};
use vstd::prelude::*;

verus! {

/// What the dispatch queue's own encryption key is the hash of.
pub open spec fn dispatch_key_bytes(secret: Digest32) -> Seq<u8> {
    text_bytes("OCLOB:NATIVE-DISPATCH-KEY:v1"@) + secret@
}

/// Separate the queue's encryption role from the journal's even when both are
/// provisioned from the same corporate master secret.
pub fn dispatch_key(secret: &Digest32) -> (r: Result<Digest32, String>)
    ensures
        r is Ok == !is_zero(secret@),
        r matches Ok(key) ==> key@ == sha256(dispatch_key_bytes(*secret)),
        r matches Err(e) ==> e@ == "dispatch encryption key is empty"@,
{
    if digest_is_zero(secret) {
        return Err("dispatch encryption key is empty".to_owned());
    }
    let mut body: Vec<u8> = Vec::new();
    push_text(&mut body, "OCLOB:NATIVE-DISPATCH-KEY:v1");
    assert(body@ =~= text_bytes("OCLOB:NATIVE-DISPATCH-KEY:v1"@));
    push_all(&mut body, secret);
    Ok(sha256_digest(body.as_slice()))
}

/// What the queue holds of one request. The queue is bound to the journal and
/// carries no order.
pub struct DispatchRequest {
    pub version: u16,
    pub journal_context: Digest32,
    pub request_id: String,
    pub intent_digest: Digest32,
    pub reserve_digest: Digest32,
    pub authorization_digest: Option<Digest32>,
    pub source_note: Option<Digest32>,
}

/// A request that the queue is given for a prepared reserve.
pub open spec fn reserve_request(
    request: &DispatchRequest,
    journal: JournalView,
    id: Seq<char>,
    intent: &StoredCorporateIntent,
    prepared: &PreparedCorporateReserve,
    source_note: Option<Digest32>,
) -> bool {
    &&& request.version == 1
    &&& request.journal_context == journal.context
    &&& request.request_id@ == id
    &&& request.intent_digest == intent.input_digest
    &&& request.reserve_digest@ == sha256(prepared.request.wire@)
    &&& request.authorization_digest is None
    &&& request.source_note == source_note
}

/// A request that the queue is given for signed terms.
pub open spec fn authorized_request(
    request: &DispatchRequest,
    journal: JournalView,
    id: Seq<char>,
    intent: &StoredCorporateIntent,
    authorization: &CorporateReserveAuthorization,
    source_note: Option<Digest32>,
) -> bool {
    &&& request.version == 2
    &&& request.journal_context == journal.context
    &&& request.request_id@ == id
    &&& request.intent_digest == intent.input_digest
    &&& is_zero(request.reserve_digest@)
    &&& request.authorization_digest matches Some(digest) && digest@ == sha256(
        authorization.digest_bytes(),
    )
    &&& request.source_note == source_note
}

/// Why a prepared reserve may not be queued, if it may not.
pub open spec fn enqueue_fault(
    journal: JournalView,
    config: &CorporateNativeConfig,
    id: Seq<char>,
    facts: Result<ReserveFacts, String>,
) -> Option<Seq<char>> {
    match journal.intent(id) {
        Err(text) => Some(text),
        Ok(None) => Some("queued request has no saved intent"@),
        Ok(Some(intent)) => match journal.reserve(id) {
            Err(text) => Some(text),
            Ok(None) => Some("queued request has no saved signed reserve"@),
            Ok(Some(prepared)) => if prepared.fault(config, facts) is Some {
                prepared.fault(config, facts)
            } else if prepared.order_wire@ != intent.order_wire@ || prepared.signing_key@
                != intent.signing_key@ {
                Some("queued reserve differs from the original intent"@)
            } else {
                None
            },
        },
    }
}

/// Why signed terms may not be queued, if they may not.
pub open spec fn enqueue_authorized_fault(
    journal: JournalView,
    config: &CorporateNativeConfig,
    id: Seq<char>,
    facts: Result<AuthorizationFacts, String>,
) -> Option<Seq<char>> {
    match journal.intent(id) {
        Err(text) => Some(text),
        Ok(None) => Some("authorized queue request has no intent"@),
        Ok(Some(intent)) => match journal.authorization(id) {
            Err(text) => Some(text),
            Ok(None) => Some("authorized queue request has no signed terms"@),
            Ok(Some(authorization)) => if authorization.fault(config, facts) is Some {
                authorization.fault(config, facts)
            } else if authorization.order_wire@ != intent.order_wire@ || authorization.signing_key@
                != intent.signing_key@ {
                Some("authorized queue request differs from corporate intake"@)
            } else {
                None
            },
        },
    }
}

/// The queue's entry for a saved reserve that stands. `facts` are what is
/// derived from the reserve.
pub fn enqueue(
    journal: &NativeCorporateJournal,
    config: &CorporateNativeConfig,
    request_id: &str,
    source_note: Option<Digest32>,
    facts: &Result<ReserveFacts, String>,
) -> (r: Result<DispatchRequest, String>)
    requires
        journal.wf(),
    ensures
        r is Ok == enqueue_fault(journal@, config, request_id@, *facts) is None,
        r matches Ok(request) ==> reserve_request(
            &request,
            journal@,
            request_id@,
            &((journal@.intent(request_id@)->Ok_0)->0),
            &((journal@.reserve(request_id@)->Ok_0)->0),
            source_note,
        ),
        r matches Err(e) ==> Some(e@) == enqueue_fault(journal@, config, request_id@, *facts),
{
    let intent: &StoredCorporateIntent = match journal.intent(request_id) {
        Err(e) => return Err(e),
        Ok(None) => return Err("queued request has no saved intent".to_owned()),
        Ok(Some(found)) => found,
    };
    let prepared: &PreparedCorporateReserve = match journal.reserve(request_id) {
        Err(e) => return Err(e),
        Ok(None) => return Err("queued request has no saved signed reserve".to_owned()),
        Ok(Some(found)) => found,
    };
    match prepared.validate(config, facts) {
        Err(e) => return Err(e),
        Ok(_) => {},
    }
    if !bytes_equal(prepared.order_wire.as_slice(), intent.order_wire.as_slice()) || !bytes_equal(
        &prepared.signing_key,
        &intent.signing_key,
    ) {
        return Err("queued reserve differs from the original intent".to_owned());
    }
    Ok(
        DispatchRequest {
            version: 1,
            journal_context: journal.context_digest(),
            request_id: request_id.to_owned(),
            intent_digest: intent.input_digest,
            reserve_digest: reserve_digest(prepared),
            authorization_digest: None,
            source_note,
        },
    )
}

/// The queue's entry for signed terms whose funding is not yet prepared.
/// `facts` are what is derived from the terms.
pub fn enqueue_authorized(
    journal: &NativeCorporateJournal,
    config: &CorporateNativeConfig,
    request_id: &str,
    source_note: Option<Digest32>,
    facts: &Result<AuthorizationFacts, String>,
) -> (r: Result<DispatchRequest, String>)
    requires
        journal.wf(),
    ensures
        r is Ok == enqueue_authorized_fault(journal@, config, request_id@, *facts) is None,
        r matches Ok(request) ==> authorized_request(
            &request,
            journal@,
            request_id@,
            &((journal@.intent(request_id@)->Ok_0)->0),
            &((journal@.authorization(request_id@)->Ok_0)->0),
            source_note,
        ),
        r matches Err(e) ==> Some(e@) == enqueue_authorized_fault(
            journal@,
            config,
            request_id@,
            *facts,
        ),
{
    let intent: &StoredCorporateIntent = match journal.intent(request_id) {
        Err(e) => return Err(e),
        Ok(None) => return Err("authorized queue request has no intent".to_owned()),
        Ok(Some(found)) => found,
    };
    let authorization: &CorporateReserveAuthorization = match journal.authorization(request_id) {
        Err(e) => return Err(e),
        Ok(None) => return Err("authorized queue request has no signed terms".to_owned()),
        Ok(Some(found)) => found,
    };
    match authorization.validate(config, facts) {
        Err(e) => return Err(e),
        Ok(_) => {},
    }
    if !bytes_equal(authorization.order_wire.as_slice(), intent.order_wire.as_slice())
        || !bytes_equal(&authorization.signing_key, &intent.signing_key) {
        return Err("authorized queue request differs from corporate intake".to_owned());
    }
    Ok(
        DispatchRequest {
            version: 2,
            journal_context: journal.context_digest(),
            request_id: request_id.to_owned(),
            intent_digest: intent.input_digest,
            reserve_digest: [0u8;32],
            authorization_digest: Some(authorization.digest()),
            source_note,
        },
    )
}

/// The queue keeps the first bytes of a request; a retry has to carry the same.
pub fn check_enqueued(saved: &[u8], sent: &[u8]) -> (r: Result<(), String>)
    ensures
        r is Ok == (saved@ == sent@),
        r matches Err(e) ==> e@ == "dispatch request ID was reused with different contents"@,
{
    if !bytes_equal(saved, sent) {
        return Err("dispatch request ID was reused with different contents".to_owned());
    }
    Ok(())
}

/// Whether a queue entry names what the journal holds. `Err` where the journal
/// does not read.
pub open spec fn source_matches(journal: JournalView, id: Seq<char>, request: &DispatchRequest) -> Result<
    bool,
    Seq<char>,
> {
    if request.version == 1 && request.authorization_digest is None {
        match journal.reserve(id) {
            Err(text) => Err(text),
            Ok(None) => Ok(false),
            Ok(Some(prepared)) => Ok(request.reserve_digest@ == sha256(prepared.request.wire@)),
        }
    } else if request.version == 2 && request.authorization_digest is Some && is_zero(
        request.reserve_digest@,
    ) {
        match journal.authorization(id) {
            Err(text) => Err(text),
            Ok(None) => Ok(false),
            Ok(Some(authorization)) => Ok(
                (request.authorization_digest->0)@ == sha256(authorization.digest_bytes()),
            ),
        }
    } else {
        Ok(false)
    }
}

/// Why a queue entry is not dispatched, if it is not.
pub open spec fn request_fault(
    journal: JournalView,
    id: Seq<char>,
    payload: Option<DispatchRequest>,
) -> Option<Seq<char>> {
    match payload {
        None => Some("malformed encrypted dispatch payload"@),
        Some(request) => match journal.intent(id) {
            Err(text) => Some(text),
            Ok(None) => Some("dispatch intent disappeared"@),
            Ok(Some(intent)) => match source_matches(journal, id, &request) {
                Err(text) => Some(text),
                Ok(matches) => if !matches || request.journal_context != journal.context
                    || request.request_id@ != id || request.intent_digest != intent.input_digest {
                    Some("dispatch payload does not match its corporate journal"@)
                } else {
                    None
                },
            },
        },
    }
}

/// Hold a queue entry against the journal before anything is sent. `payload`
/// is the decrypted entry, where it reads.
pub fn verified_request(
    journal: &NativeCorporateJournal,
    request_id: &str,
    payload: &Option<DispatchRequest>,
) -> (r: Result<(), String>)
    requires
        journal.wf(),
    ensures
        r is Ok == request_fault(journal@, request_id@, *payload) is None,
        r matches Err(e) ==> Some(e@) == request_fault(journal@, request_id@, *payload),
{
    let request: &DispatchRequest = match payload {
        None => return Err("malformed encrypted dispatch payload".to_owned()),
        Some(found) => found,
    };
    let intent: &StoredCorporateIntent = match journal.intent(request_id) {
        Err(e) => return Err(e),
        Ok(None) => return Err("dispatch intent disappeared".to_owned()),
        Ok(Some(found)) => found,
    };
    let matches: bool = if request.version == 1 && request.authorization_digest.is_none() {
        match journal.reserve(request_id) {
            Err(e) => return Err(e),
            Ok(None) => false,
            Ok(Some(prepared)) => {
                let digest = reserve_digest(prepared);
                digest_equal(&request.reserve_digest, &digest)
            },
        }
    } else if request.version == 2 && digest_is_zero(&request.reserve_digest) {
        match &request.authorization_digest {
            None => false,
            Some(named) => match journal.authorization(request_id) {
                Err(e) => return Err(e),
                Ok(None) => false,
                Ok(Some(authorization)) => {
                    let digest = authorization.digest();
                    digest_equal(named, &digest)
                },
            },
        }
    } else {
        false
    };
    if !matches || !digest_equal(&request.journal_context, &journal.context_digest())
        || !text_equal(request.request_id.as_str(), request_id) || !digest_equal(
        &request.intent_digest,
        &intent.input_digest,
    ) {
        return Err("dispatch payload does not match its corporate journal".to_owned());
    }
    Ok(())
}

/// What a worker reports.
#[derive(Clone, Debug, PartialEq, Eq)]
pub enum DispatchProgress {
    Idle,
    WaitingForNodes,
    RetryScheduled { request_id: String, attempt: u32 },
    Admitted { request_id: String, receipt_digest: String },
    ReleaseReconciliationRequired { request_id: String },
    ManualReviewRequired { request_id: String },
    ReservationReleased { request_id: String, transaction_id: String },
    NeverReserved { request_id: String },
    FundingRejected { request_id: String },
}

/// The same report with its texts as characters.
pub enum ProgressView {
    Idle,
    WaitingForNodes,
    RetryScheduled { request_id: Seq<char>, attempt: u32 },
    Admitted { request_id: Seq<char>, receipt_digest: Seq<char> },
    ReleaseReconciliationRequired { request_id: Seq<char> },
    ManualReviewRequired { request_id: Seq<char> },
    ReservationReleased { request_id: Seq<char>, transaction_id: Seq<char> },
    NeverReserved { request_id: Seq<char> },
    FundingRejected { request_id: Seq<char> },
}

impl View for DispatchProgress {
    type V = ProgressView;

    open spec fn view(&self) -> ProgressView {
        match *self {
            DispatchProgress::Idle => ProgressView::Idle,
            DispatchProgress::WaitingForNodes => ProgressView::WaitingForNodes,
            DispatchProgress::RetryScheduled { request_id, attempt } =>
            ProgressView::RetryScheduled { request_id: request_id@, attempt },
            DispatchProgress::Admitted { request_id, receipt_digest } => ProgressView::Admitted {
                request_id: request_id@,
                receipt_digest: receipt_digest@,
            },
            DispatchProgress::ReleaseReconciliationRequired { request_id } =>
            ProgressView::ReleaseReconciliationRequired { request_id: request_id@ },
            DispatchProgress::ManualReviewRequired { request_id } =>
            ProgressView::ManualReviewRequired { request_id: request_id@ },
            DispatchProgress::ReservationReleased { request_id, transaction_id } =>
            ProgressView::ReservationReleased {
                request_id: request_id@,
                transaction_id: transaction_id@,
            },
            DispatchProgress::NeverReserved { request_id } => ProgressView::NeverReserved {
                request_id: request_id@,
            },
            DispatchProgress::FundingRejected { request_id } => ProgressView::FundingRejected {
                request_id: request_id@,
            },
        }
    }
}

/// Where a queue entry stands.
#[derive(Clone, Copy, Debug, PartialEq, Eq, Structural)]
pub enum EntryState {
    Queued,
    ManualReview,
    AbortedBeforeReserve,
    MpcAdmitted,
    Released,
}

/// One entry of the queue.
pub struct QueueEntry {
    pub request_id: String,
    pub request_digest: Digest32,
    pub state: EntryState,
}

/// The first entry that waits for a person.
pub open spec fn review_needed(entries: Seq<QueueEntry>, start: int) -> Option<Seq<char>>
    decreases entries.len() - start,
{
    if start >= entries.len() {
        None
    } else if entries[start].state == EntryState::ManualReview {
        Some(entries[start].request_id@)
    } else {
        review_needed(entries, start + 1)
    }
}

/// What to report when nothing was claimed: an exhausted request is never
/// reported as idle.
pub fn no_claim_progress(entries: &Vec<QueueEntry>, healthy: bool) -> (progress: DispatchProgress)
    ensures
        progress@ == (match review_needed(entries@, 0) {
            Some(request_id) => ProgressView::ManualReviewRequired { request_id },
            None => if healthy {
                ProgressView::Idle
            } else {
                ProgressView::WaitingForNodes
            },
        }),
{
    let mut i: usize = 0;
    while i < entries.len()
        invariant
            i <= entries@.len(),
            review_needed(entries@, i as int) == review_needed(entries@, 0),
        decreases entries@.len() - i,
    {
        let waits: bool = match entries[i].state {
            EntryState::ManualReview => true,
            _ => false,
        };
        if waits {
            return DispatchProgress::ManualReviewRequired {
                request_id: entries[i].request_id.clone(),
            };
        }
        i += 1;
    }
    if healthy {
        DispatchProgress::Idle
    } else {
        DispatchProgress::WaitingForNodes
    }
}

/// The first entry, not yet aborted, whose authorization the journal has
/// ended.
pub open spec fn ended_entry(journal: JournalView, entries: Seq<QueueEntry>, start: int) -> Result<
    Option<int>,
    Seq<char>,
>
    decreases entries.len() - start,
{
    if start >= entries.len() {
        Ok(None)
    } else if entries[start].state == EntryState::AbortedBeforeReserve {
        ended_entry(journal, entries, start + 1)
    } else {
        match journal.ended_authorization(entries[start].request_id@) {
            Err(text) => Err(text),
            Ok(Some(_)) => Ok(Some(start)),
            Ok(None) => ended_entry(journal, entries, start + 1),
        }
    }
}

/// Find a request whose end is on record but not yet in the queue: a crash
/// came between the two. No network is needed to finish it.
pub fn find_ended_entry(journal: &NativeCorporateJournal, entries: &Vec<QueueEntry>) -> (r: Result<
    Option<usize>,
    String,
>)
    requires
        journal.wf(),
    ensures
        match ended_entry(journal@, entries@, 0) {
            Err(text) => r matches Err(e) && e@ == text,
            Ok(None) => r matches Ok(None),
            Ok(Some(i)) => r matches Ok(Some(found)) && found == i && found < entries@.len(),
        },
{
    let mut i: usize = 0;
    while i < entries.len()
        invariant
            journal.wf(),
            i <= entries@.len(),
            ended_entry(journal@, entries@, i as int) == ended_entry(journal@, entries@, 0),
        decreases entries@.len() - i,
    {
        let aborted: bool = match entries[i].state {
            EntryState::AbortedBeforeReserve => true,
            _ => false,
        };
        if !aborted {
            match journal.ended_authorization(entries[i].request_id.as_str()) {
                Err(e) => return Err(e),
                Ok(Some(_)) => return Ok(Some(i)),
                Ok(None) => {},
            }
        }
        i += 1;
    }
    Ok(None)
}

/// Record the end of an authorization in the queue, and report it.
pub fn record_authorization_end(ended: &EndedCorporateAuthorization) -> (r: (
    QueueRecord,
    DispatchProgress,
))
    ensures
        r.0 == (QueueRecord::AbortBeforeReserve { at: ended.ended_at }),
        r.1@ == (match ended.reason {
            AuthorizationEndReason::Expired => ProgressView::NeverReserved {
                request_id: ended.request_id@,
            },
            AuthorizationEndReason::InsufficientFunding => ProgressView::FundingRejected {
                request_id: ended.request_id@,
            },
        }),
{
    let progress = match ended.reason {
        AuthorizationEndReason::Expired => DispatchProgress::NeverReserved {
            request_id: ended.request_id.clone(),
        },
        AuthorizationEndReason::InsufficientFunding => DispatchProgress::FundingRejected {
            request_id: ended.request_id.clone(),
        },
    };
    (QueueRecord::AbortBeforeReserve { at: ended.ended_at }, progress)
}

/// A request that the queue handed out.
#[derive(Clone, Copy, Debug, PartialEq, Eq)]
pub struct Claim {
    pub request_digest: Digest32,
    pub attempt: u32,
}

/// Where one pump of the queue stands.
#[derive(Clone, Copy, Debug, PartialEq, Eq)]
pub enum PumpState {
    /// Look for ended requests that the queue does not know of.
    Ended,
    /// Ask the queue for expired requests, without touching any node.
    Expired,
    /// Ask all nodes whether they are up.
    Health,
    /// Ask the queue for work.
    Claiming { healthy: bool },
    /// Hold an ended entry against the journal.
    VerifyingEnd,
    /// Hold an expired entry against the journal.
    VerifyingExpiry,
    /// Hold a claimed entry against the journal.
    Verifying { claim: Claim },
    /// Reconcile an expired request.
    Expiring { unprepared: bool },
    /// Prepare the funding of an authorized request.
    Preparing { claim: Claim },
    /// Send what is prepared.
    Submitting { claim: Claim },
    Finished,
}

/// What the outside answered.
#[derive(Clone, Copy, Debug, PartialEq, Eq)]
pub enum PumpEvent {
    /// The journal and the queue were compared: was an ended request found?
    EndedScan { found: bool },
    /// The queue was asked for expired requests only.
    ExpiredClaim { found: bool },
    Nodes { healthy: bool },
    /// The queue was asked for work: an expired request, a dispatch, or none.
    ExpireClaimed,
    DispatchClaimed { claim: Claim },
    NothingClaimed,
    /// The entry was held against the journal. It fits, and tells whether its
    /// funding is still to be prepared; or it does not fit.
    Verified { unprepared: bool },
    NotVerified,
    /// Preparation ended.
    Prepared,
    PreparationLacksFunds,
    PreparationFailed,
    /// A submission ended.
    Submitted,
    SubmissionFailed,
    /// A reconciliation ended.
    NeverReserved,
    Released,
    ReconciliationFailed,
}

/// What to do about it.
#[derive(Clone, Copy, Debug, PartialEq, Eq)]
pub enum PumpAction {
    /// Finish the ended request in the queue and report its end.
    ReportEnd,
    AskForExpired,
    CheckNodes,
    AskForWork { healthy: bool },
    /// Hold the entry against the journal, before anything is done about it.
    VerifyRequest,
    /// Report that the entry does not fit the journal.
    ReportMismatch,
    /// Mark the entry's release as pending, and end the authorization as
    /// expired, before any funding request exists.
    EndUnprepared,
    /// Mark the entry's release as pending, and reconcile it with the ledger.
    ReconcileExpired,
    PrepareFunding,
    /// End the authorization for want of funds.
    EndForFunds,
    /// Recover the funding witness and report a retry.
    RecoverAndRetry { attempt: u32 },
    Submit,
    ReportRetry { attempt: u32 },
    ReportAdmission,
    /// Report that nothing was claimed.
    ReportNothing { healthy: bool },
    RecordAbort,
    RecordRelease,
    ReportReconciliationRequired,
}

/// The next state and what to do. `None` for an answer that was not asked for.
pub open spec fn pump_next(state: PumpState, event: PumpEvent) -> Option<(PumpState, PumpAction)> {
    match (state, event) {
        (PumpState::Ended, PumpEvent::EndedScan { found }) => if found {
            Some((PumpState::VerifyingEnd, PumpAction::VerifyRequest))
        } else {
            Some((PumpState::Expired, PumpAction::AskForExpired))
        },
        (PumpState::VerifyingEnd, PumpEvent::Verified { .. }) => Some(
            (PumpState::Finished, PumpAction::ReportEnd),
        ),
        (PumpState::Expired, PumpEvent::ExpiredClaim { found }) => if found {
            Some((PumpState::VerifyingExpiry, PumpAction::VerifyRequest))
        } else {
            Some((PumpState::Health, PumpAction::CheckNodes))
        },
        (PumpState::VerifyingExpiry, PumpEvent::Verified { unprepared }) => Some(
            (PumpState::Expiring { unprepared }, reconcile_action(unprepared)),
        ),
        (PumpState::Health, PumpEvent::Nodes { healthy }) => Some(
            (PumpState::Claiming { healthy }, PumpAction::AskForWork { healthy }),
        ),
        (PumpState::Claiming { healthy }, PumpEvent::NothingClaimed) => Some(
            (PumpState::Finished, PumpAction::ReportNothing { healthy }),
        ),
        (PumpState::Claiming { .. }, PumpEvent::ExpireClaimed) => Some(
            (PumpState::VerifyingExpiry, PumpAction::VerifyRequest),
        ),
        (PumpState::Claiming { .. }, PumpEvent::DispatchClaimed { claim }) => Some(
            (PumpState::Verifying { claim }, PumpAction::VerifyRequest),
        ),
        (PumpState::Verifying { claim }, PumpEvent::Verified { unprepared }) => if unprepared {
            Some((PumpState::Preparing { claim }, PumpAction::PrepareFunding))
        } else {
            Some((PumpState::Submitting { claim }, PumpAction::Submit))
        },
        (PumpState::VerifyingEnd, PumpEvent::NotVerified) => Some(
            (PumpState::Finished, PumpAction::ReportMismatch),
        ),
        (PumpState::VerifyingExpiry, PumpEvent::NotVerified) => Some(
            (PumpState::Finished, PumpAction::ReportMismatch),
        ),
        (PumpState::Verifying { .. }, PumpEvent::NotVerified) => Some(
            (PumpState::Finished, PumpAction::ReportMismatch),
        ),
        (PumpState::Preparing { claim }, PumpEvent::Prepared) => Some(
            (PumpState::Submitting { claim }, PumpAction::Submit),
        ),
        (PumpState::Preparing { .. }, PumpEvent::PreparationLacksFunds) => Some(
            (PumpState::Finished, PumpAction::EndForFunds),
        ),
        (PumpState::Preparing { claim }, PumpEvent::PreparationFailed) => Some(
            (PumpState::Finished, PumpAction::RecoverAndRetry { attempt: claim.attempt }),
        ),
        (PumpState::Submitting { .. }, PumpEvent::Submitted) => Some(
            (PumpState::Finished, PumpAction::ReportAdmission),
        ),
        (PumpState::Submitting { claim }, PumpEvent::SubmissionFailed) => Some(
            (PumpState::Finished, PumpAction::ReportRetry { attempt: claim.attempt }),
        ),
        (PumpState::Expiring { .. }, PumpEvent::NeverReserved) => Some(
            (PumpState::Finished, PumpAction::RecordAbort),
        ),
        (PumpState::Expiring { unprepared }, PumpEvent::Released) => if unprepared {
            None
        } else {
            Some((PumpState::Finished, PumpAction::RecordRelease))
        },
        (PumpState::Expiring { .. }, PumpEvent::ReconciliationFailed) => Some(
            (PumpState::Finished, PumpAction::ReportReconciliationRequired),
        ),
        _ => None,
    }
}

/// How an expired request is reconciled.
pub open spec fn reconcile_action(unprepared: bool) -> PumpAction {
    if unprepared {
        PumpAction::EndUnprepared
    } else {
        PumpAction::ReconcileExpired
    }
}

fn choose_reconciliation(unprepared: bool) -> (action: PumpAction)
    ensures
        action == reconcile_action(unprepared),
{
    if unprepared {
        PumpAction::EndUnprepared
    } else {
        PumpAction::ReconcileExpired
    }
}

/// Begin one pump of the queue.
pub fn start_pump(retry_after_seconds: u64) -> (r: Result<PumpState, String>)
    ensures
        r is Ok == (1 <= retry_after_seconds <= 300),
        r matches Ok(state) ==> state == PumpState::Ended,
        r matches Err(e) ==> e@ == "dispatch retry interval outside1..300 seconds"@,
{
    if retry_after_seconds < 1 || retry_after_seconds > 300 {
        return Err("dispatch retry interval outside1..300 seconds".to_owned());
    }
    Ok(PumpState::Ended)
}

/// One step of a pump: what to do about what the outside answered. `None` for
/// an answer that was not asked for.
pub fn pump(state: PumpState, event: PumpEvent) -> (next: Option<(PumpState, PumpAction)>)
    ensures
        next == pump_next(state, event),
{
    match (state, event) {
        (PumpState::Ended, PumpEvent::EndedScan { found }) => if found {
            Some((PumpState::VerifyingEnd, PumpAction::VerifyRequest))
        } else {
            Some((PumpState::Expired, PumpAction::AskForExpired))
        },
        (PumpState::VerifyingEnd, PumpEvent::Verified { .. }) => Some(
            (PumpState::Finished, PumpAction::ReportEnd),
        ),
        (PumpState::Expired, PumpEvent::ExpiredClaim { found }) => if found {
            Some((PumpState::VerifyingExpiry, PumpAction::VerifyRequest))
        } else {
            Some((PumpState::Health, PumpAction::CheckNodes))
        },
        (PumpState::VerifyingExpiry, PumpEvent::Verified { unprepared }) => Some(
            (PumpState::Expiring { unprepared }, choose_reconciliation(unprepared)),
        ),
        (PumpState::Health, PumpEvent::Nodes { healthy }) => Some(
            (PumpState::Claiming { healthy }, PumpAction::AskForWork { healthy }),
        ),
        (PumpState::Claiming { healthy }, PumpEvent::NothingClaimed) => Some(
            (PumpState::Finished, PumpAction::ReportNothing { healthy }),
        ),
        (PumpState::Claiming { .. }, PumpEvent::ExpireClaimed) => Some(
            (PumpState::VerifyingExpiry, PumpAction::VerifyRequest),
        ),
        (PumpState::Claiming { .. }, PumpEvent::DispatchClaimed { claim }) => Some(
            (PumpState::Verifying { claim }, PumpAction::VerifyRequest),
        ),
        (PumpState::Verifying { claim }, PumpEvent::Verified { unprepared }) => if unprepared {
            Some((PumpState::Preparing { claim }, PumpAction::PrepareFunding))
        } else {
            Some((PumpState::Submitting { claim }, PumpAction::Submit))
        },
        (PumpState::VerifyingEnd, PumpEvent::NotVerified) => Some(
            (PumpState::Finished, PumpAction::ReportMismatch),
        ),
        (PumpState::VerifyingExpiry, PumpEvent::NotVerified) => Some(
            (PumpState::Finished, PumpAction::ReportMismatch),
        ),
        (PumpState::Verifying { .. }, PumpEvent::NotVerified) => Some(
            (PumpState::Finished, PumpAction::ReportMismatch),
        ),
        (PumpState::Preparing { claim }, PumpEvent::Prepared) => Some(
            (PumpState::Submitting { claim }, PumpAction::Submit),
        ),
        (PumpState::Preparing { .. }, PumpEvent::PreparationLacksFunds) => Some(
            (PumpState::Finished, PumpAction::EndForFunds),
        ),
        (PumpState::Preparing { claim }, PumpEvent::PreparationFailed) => Some(
            (PumpState::Finished, PumpAction::RecoverAndRetry { attempt: claim.attempt }),
        ),
        (PumpState::Submitting { .. }, PumpEvent::Submitted) => Some(
            (PumpState::Finished, PumpAction::ReportAdmission),
        ),
        (PumpState::Submitting { claim }, PumpEvent::SubmissionFailed) => Some(
            (PumpState::Finished, PumpAction::ReportRetry { attempt: claim.attempt }),
        ),
        (PumpState::Expiring { .. }, PumpEvent::NeverReserved) => Some(
            (PumpState::Finished, PumpAction::RecordAbort),
        ),
        (PumpState::Expiring { unprepared }, PumpEvent::Released) => if unprepared {
            None
        } else {
            Some((PumpState::Finished, PumpAction::RecordRelease))
        },
        (PumpState::Expiring { .. }, PumpEvent::ReconciliationFailed) => Some(
            (PumpState::Finished, PumpAction::ReportReconciliationRequired),
        ),
        _ => None,
    }
}

/// Whether a queued request still has its funding to prepare: signed terms
/// without a saved reserve.
pub fn needs_preparation(
    journal: &NativeCorporateJournal,
    request_id: &str,
    request: &DispatchRequest,
) -> (r: Result<bool, String>)
    requires
        journal.wf(),
    ensures
        text_result(r) == (if request.version != 2 {
            Ok::<bool, Seq<char>>(false)
        } else {
            match journal@.reserve(request_id@) {
                Err(text) => Err::<bool, Seq<char>>(text),
                Ok(None) => Ok::<bool, Seq<char>>(true),
                Ok(Some(_)) => Ok::<bool, Seq<char>>(false),
            }
        }),
{
    if request.version != 2 {
        return Ok(false);
    }
    match journal.reserve(request_id) {
        Err(e) => Err(e),
        Ok(None) => Ok(true),
        Ok(Some(_)) => Ok(false),
    }
}

/// Hold a claimed entry against the journal, and tell the pump what it found. A
/// mismatch is also reported as text.
pub fn verify_claim(
    journal: &NativeCorporateJournal,
    request_id: &str,
    payload: &Option<DispatchRequest>,
) -> (r: (PumpEvent, Option<String>))
    requires
        journal.wf(),
    ensures
        match claim_verified(journal@, request_id@, *payload) {
            Ok(unprepared) => r.0 == (PumpEvent::Verified { unprepared }) && r.1 is None,
            Err(text) => r.0 is NotVerified && (r.1 matches Some(e) && e@ == text),
        },
{
    match verified_request(journal, request_id, payload) {
        Err(e) => return (PumpEvent::NotVerified, Some(e)),
        Ok(_) => {},
    }
    match payload {
        None => (PumpEvent::NotVerified, Some("malformed encrypted dispatch payload".to_owned())),
        Some(request) => match needs_preparation(journal, request_id, request) {
            Err(e) => (PumpEvent::NotVerified, Some(e)),
            Ok(unprepared) => (PumpEvent::Verified { unprepared }, None),
        },
    }
}

/// Whether a claimed entry still has its funding to prepare, or why it does not
/// fit the journal.
pub open spec fn claim_verified(
    journal: JournalView,
    id: Seq<char>,
    payload: Option<DispatchRequest>,
) -> Result<bool, Seq<char>> {
    match request_fault(journal, id, payload) {
        Some(text) => Err(text),
        None => if (payload->0).version != 2 {
            Ok(false)
        } else {
            match journal.reserve(id) {
                Err(text) => Err(text),
                Ok(None) => Ok(true),
                Ok(Some(_)) => Ok(false),
            }
        },
    }
}

/// The receipt of an admission that the queue keeps.
#[derive(Clone, Debug, PartialEq, Eq)]
pub struct MpcAdmissionReceipt {
    pub committee_id: String,
    pub job_id: String,
    pub admitted_request_digest: Digest32,
}

/// The receipt of a release that the queue keeps.
#[derive(Clone, Debug, PartialEq, Eq)]
pub struct CanonicalReceipt {
    pub defmi_network_id: String,
    pub transaction_id: String,
    pub ledger_height: u64,
    pub request_digest: Digest32,
    pub finalized_at: u64,
}

/// What the queue records of a request that is done.
#[derive(Clone, Debug, PartialEq, Eq)]
pub enum QueueRecord {
    /// It ended at this time before anything was reserved.
    AbortBeforeReserve { at: u64 },
    Release(CanonicalReceipt),
    Admission(MpcAdmissionReceipt),
}

/// The record of an order's admission: the market's committee, the order as the
/// job, and the request that was claimed.
pub open spec fn records_admission(
    record: QueueRecord,
    market: Seq<char>,
    commitment: OrderCommitment,
    request_digest: Digest32,
) -> bool {
    record matches QueueRecord::Admission(receipt) && receipt.committee_id@ == "oclob:"@ + market
        && receipt.job_id@ == commitment.key() && receipt.admitted_request_digest == request_digest
}

/// Record an admitted order in the queue, and report it.
pub fn report_admission(
    market: &str,
    receipt: &EdgeAdmissionReceipt,
    request_id: &str,
    request_digest: &Digest32,
) -> (r: (QueueRecord, DispatchProgress))
    ensures
        records_admission(r.0, market@, receipt.manifest.commitment, *request_digest),
        r.1@ == (ProgressView::Admitted {
            request_id: request_id@,
            receipt_digest: hex_text(receipt.receipt_digest@),
        }),
{
    let record = MpcAdmissionReceipt {
        committee_id: joined_text("oclob:", market),
        job_id: receipt.commitment().hex(),
        admitted_request_digest: *request_digest,
    };
    let progress = DispatchProgress::Admitted {
        request_id: request_id.to_owned(),
        receipt_digest: hex_encode(&receipt.receipt_digest),
    };
    (QueueRecord::Admission(record), progress)
}

/// How far the submission of a claimed entry has come.
pub enum ClaimProgress {
    /// Do this next, and ask again.
    Step(SubmissionStep),
    /// Record the admission, and report it.
    Admitted { record: QueueRecord, progress: DispatchProgress },
    /// Report a retry.
    Retry { progress: DispatchProgress },
}

/// Submit a claimed entry. It is held against the journal first; where it does
/// not fit, nothing is sent and nothing is recorded. A completed submission is
/// recorded in the queue and reported as admitted, one that failed as a retry.
pub fn submit_claim(
    journal: &mut NativeCorporateJournal,
    config: &CorporateNativeConfig,
    cluster: &ClusterPublicConfig,
    request_id: &str,
    claim: &Claim,
    payload: &Option<DispatchRequest>,
    facts: &SubmissionFacts,
    submitted: bool,
) -> (r: Result<ClaimProgress, String>)
    requires
        old(journal).wf(),
        facts.receipt.complete(),
    ensures
        final(journal).wf(),
        match request_fault(old(journal)@, request_id@, *payload) {
            Some(text) => final(journal)@ == old(journal)@ && (r matches Err(e) && e@ == text),
            None => {
                let (next, step) = submission_step(
                    old(journal)@,
                    config,
                    cluster,
                    request_id@,
                    (payload->0).source_note,
                    facts,
                    submitted,
                );
                &&& final(journal)@ == next
                &&& match step {
                    Err(_) => r matches Ok(ClaimProgress::Retry { progress }) && progress@
                        == (ProgressView::RetryScheduled {
                        request_id: request_id@,
                        attempt: claim.attempt,
                    }),
                    Ok(SubmissionStep::Complete { .. }) => {
                        let receipt = old(journal)@.receipt(request_id@)->Ok_0->Some_0;
                        r matches Ok(ClaimProgress::Admitted { record, progress })
                            && records_admission(
                            record,
                            cluster.market_id@,
                            receipt.manifest.commitment,
                            claim.request_digest,
                        ) && progress@ == (ProgressView::Admitted {
                            request_id: request_id@,
                            receipt_digest: hex_text(receipt.receipt_digest@),
                        })
                    },
                    Ok(step) => r matches Ok(ClaimProgress::Step(next)) && next == step,
                }
            },
        },
{
    match verified_request(journal, request_id, payload) {
        Err(e) => return Err(e),
        Ok(_) => {},
    }
    let source_note: Option<Digest32> = match payload {
        Some(request) => request.source_note,
        None => None,
    };
    match complete_native_submission(
        journal,
        config,
        cluster,
        request_id,
        source_note,
        facts,
        submitted,
    ) {
        Err(_) => Ok(
            ClaimProgress::Retry {
                progress: DispatchProgress::RetryScheduled {
                    request_id: request_id.to_owned(),
                    attempt: claim.attempt,
                },
            },
        ),
        Ok(SubmissionStep::Complete { .. }) => match journal.receipt(request_id) {
            Err(e) => Err(e),
            Ok(None) => Err("queue admission has no durable node receipt".to_owned()),
            Ok(Some(receipt)) => {
                let (record, progress) = report_admission(
                    cluster.market_id.as_str(),
                    receipt,
                    request_id,
                    &claim.request_digest,
                );
                Ok(ClaimProgress::Admitted { record, progress })
            },
        },
        Ok(step) => Ok(ClaimProgress::Step(step)),
    }
}

/// Why the funding of a queued request cannot be prepared yet, if it cannot.
pub open spec fn preparation_blocked(journal: JournalView, id: Seq<char>, facility_id: Digest32) -> Option<
    Seq<char>,
> {
    if journal.turn_fault(id) is Some {
        journal.turn_fault(id)
    } else {
        match journal.authorization(id) {
            Err(text) => Some(text),
            Ok(None) => Some("queued authorization disappeared"@),
            Ok(Some(_)) => match journal.intent(id) {
                Err(text) => Some(text),
                Ok(None) => Some("queued intent disappeared"@),
                Ok(Some(_)) => match journal.latest_funding(facility_id) {
                    Err(text) => Some(text),
                    Ok(_) => None,
                },
            },
        }
    }
}

/// What was read and built for the funding of one queued request. `order` is
/// what its order says of the reservation, `built` what the request library
/// made; the two facts are what the outside derives from the authorization and
/// from the reserve.
pub struct PreparationRead {
    pub authorization: Result<AuthorizationFacts, String>,
    pub funding: FundingRead,
    pub order: OrderTerms,
    pub source_note: Option<Digest32>,
    pub built: Result<BuiltRequest, String>,
    pub reserve: Result<ReserveFacts, String>,
}

impl PreparationRead {
    /// Why no reserve comes of an authorization under a configuration.
    pub open spec fn refusal(
        &self,
        config: &CorporateNativeConfig,
        authorization: &CorporateReserveAuthorization,
    ) -> Option<Option<Seq<char>>> {
        finish_refusal(
            config,
            authorization.fault(config, self.authorization),
            &self.funding,
            &self.order,
            self.source_note,
            self.built,
        )
    }

    /// Whether a reserve is the one of an authorization under a configuration.
    pub open spec fn makes(
        &self,
        prepared: &PreparedCorporateReserve,
        config: &CorporateNativeConfig,
        authorization: &CorporateReserveAuthorization,
    ) -> bool {
        reserve_of(
            prepared,
            config,
            authorization,
            &self.funding,
            &self.order,
            &self.built->Ok_0,
        )
    }
}

/// Prepare the funding of a queued request: take its authorization and the
/// newest funding from the journal, make the reserve of them, and keep it. Only
/// funding that does not suffice ends the authorization; whatever else is in the
/// way is worth another try.
pub fn finish_preparation(
    journal: &mut NativeCorporateJournal,
    config: CorporateNativeConfig,
    id: &str,
    read: PreparationRead,
) -> (event: PumpEvent)
    requires
        old(journal).wf(),
    ensures
        final(journal).wf(),
        ({
            let blocked = preparation_blocked(old(journal)@, id@, config.facility_id);
            let authorization = old(journal)@.authorization(id@)->Ok_0->Some_0;
            let funding = funded(config, old(journal)@.latest_funding(config.facility_id)->Ok_0);
            if blocked is Some {
                final(journal)@ == old(journal)@ && event is PreparationFailed
            } else {
                match read.refusal(&funding, &authorization) {
                    Some(None) => final(journal)@ == old(journal)@ && event
                        is PreparationLacksFunds,
                    Some(Some(_)) => final(journal)@ == old(journal)@ && event
                        is PreparationFailed,
                    None => exists|prepared: PreparedCorporateReserve| #[trigger]
                        read.makes(&prepared, &funding, &authorization) && if prepared.fault(
                            &funding,
                            read.reserve,
                        ) is Some {
                            final(journal)@ == old(journal)@ && event is PreparationFailed
                        } else {
                            let (next, saved) = old(journal)@.save_stage(
                                id@,
                                "reserve"@,
                                JournalBody::Reserve(prepared),
                            );
                            &&& final(journal)@ == next
                            &&& if saved is Ok {
                                event is Prepared
                            } else {
                                event is PreparationFailed
                            }
                        },
                }
            }
        }),
{
    match journal.require_turn(id) {
        Err(_) => return PumpEvent::PreparationFailed,
        Ok(_) => {},
    }
    let authorization = match journal.authorization(id) {
        Ok(Some(authorization)) => authorization,
        Ok(None) => return PumpEvent::PreparationFailed,
        Err(_) => return PumpEvent::PreparationFailed,
    };
    match journal.intent(id) {
        Ok(Some(_)) => {},
        Ok(None) => return PumpEvent::PreparationFailed,
        Err(_) => return PumpEvent::PreparationFailed,
    }
    let funding = match journal.latest_funding(config) {
        Err(_) => return PumpEvent::PreparationFailed,
        Ok(funding) => funding,
    };
    let ghost asked = *authorization;
    let ghost built = read.built;
    let prepared = prepare_authorized_reservation(
        &funding,
        authorization,
        &read.authorization,
        &read.funding,
        &read.order,
        &read.source_note,
        read.built,
        &read.reserve,
    );
    match prepared {
        Err(PreparationError::InsufficientFunding) => PumpEvent::PreparationLacksFunds,
        Err(PreparationError::Retry(_)) => {
            proof {
                if read.refusal(&funding, &asked) is None {
                    let refused = choose|refused: PreparedCorporateReserve| #[trigger]
                        reserve_of(
                            &refused,
                            &funding,
                            &asked,
                            &read.funding,
                            &read.order,
                            &built->Ok_0,
                        ) && refused.fault(&funding, read.reserve) is Some;
                    assert(read.makes(&refused, &funding, &asked));
                }
            }
            PumpEvent::PreparationFailed
        },
        Ok(reserve) => {
            assert(read.makes(&reserve, &funding, &asked));
            match journal.save_stage(id, "reserve", JournalBody::Reserve(reserve)) {
                Err(_) => PumpEvent::PreparationFailed,
                Ok(_) => PumpEvent::Prepared,
            }
        },
    }
}

/// What the queue records of the canonical end of an expired request.
pub fn expiry_record(
    config: &CorporateNativeConfig,
    resolution: &NativeExpiryResolution,
    request_digest: &Digest32,
) -> (record: QueueRecord)
    ensures
        match resolution.outcome {
            ExpiryOutcome::NeverReserved { .. } => record == (QueueRecord::AbortBeforeReserve {
                at: resolution.checked_at,
            }),
            ExpiryOutcome::Released { transaction_id, height, .. } => {
                record matches QueueRecord::Release(receipt) && receipt.defmi_network_id@
                    == hex_text(config.defmi_id@) && receipt.transaction_id@ == transaction_id@
                    && receipt.ledger_height == height && receipt.request_digest == *request_digest
                    && receipt.finalized_at == resolution.checked_at
            },
        },
{
    match &resolution.outcome {
        ExpiryOutcome::NeverReserved { .. } => QueueRecord::AbortBeforeReserve {
            at: resolution.checked_at,
        },
        ExpiryOutcome::Released { transaction_id, height, .. } => QueueRecord::Release(
            CanonicalReceipt {
                defmi_network_id: hex_encode(&config.defmi_id),
                transaction_id: transaction_id.clone(),
                ledger_height: *height,
                request_digest: *request_digest,
                finalized_at: resolution.checked_at,
            },
        ),
    }
}

/// What the canonical end of an expired request is reported as.
pub fn expiry_progress(resolution: &NativeExpiryResolution, request_id: &str) -> (progress:
    DispatchProgress)
    ensures
        progress@ == (match resolution.outcome {
            ExpiryOutcome::NeverReserved { .. } => ProgressView::NeverReserved {
                request_id: request_id@,
            },
            ExpiryOutcome::Released { transaction_id, .. } => ProgressView::ReservationReleased {
                request_id: request_id@,
                transaction_id: transaction_id@,
            },
        }),
{
    match &resolution.outcome {
        ExpiryOutcome::NeverReserved { .. } => DispatchProgress::NeverReserved {
            request_id: request_id.to_owned(),
        },
        ExpiryOutcome::Released { transaction_id, .. } => DispatchProgress::ReservationReleased {
            request_id: request_id.to_owned(),
            transaction_id: transaction_id.clone(),
        },
    }
}

/// No node is contacted before the queue was asked for expired requests: funds
/// can be recovered while every node is unreachable.
pub proof fn lemma_expiry_comes_before_nodes(state: PumpState, event: PumpEvent)
    ensures
        pump_next(state, event) matches Some((_, PumpAction::CheckNodes)) ==> state
            == PumpState::Expired && (event matches PumpEvent::ExpiredClaim { found } && !found),
        pump_next(state, event) matches Some((_, PumpAction::Submit)) ==> !(state
            == PumpState::Ended) && !(state == PumpState::Expired) && !(state is Expiring),
{
}

/// An authorization ends for want of funds only when preparation found that
/// funds are missing; any other failure is tried again.
pub proof fn lemma_only_missing_funds_end_an_authorization(state: PumpState, event: PumpEvent)
    ensures
        pump_next(state, event) matches Some((_, PumpAction::EndForFunds)) ==> event
            is PreparationLacksFunds && state is Preparing,
        event is PreparationFailed && pump_next(state, event) is Some ==> (pump_next(
            state,
            event,
        )->0).1 is RecoverAndRetry,
        event is SubmissionFailed && pump_next(state, event) is Some ==> (pump_next(
            state,
            event,
        )->0).1 is ReportRetry,
{
}

/// How far a pump is from its end.
pub open spec fn pump_rank(state: PumpState) -> nat {
    match state {
        PumpState::Ended => 7,
        PumpState::Expired => 6,
        PumpState::Health => 5,
        PumpState::Claiming { .. } => 4,
        PumpState::VerifyingEnd => 1,
        PumpState::VerifyingExpiry => 2,
        PumpState::Verifying { .. } => 3,
        PumpState::Preparing { .. } => 2,
        PumpState::Submitting { .. } => 1,
        PumpState::Expiring { .. } => 1,
        PumpState::Finished => 0,
    }
}

/// Every step brings a pump closer to its end: it reports after at most seven
/// answers.
pub proof fn lemma_pump_ends(state: PumpState, event: PumpEvent)
    ensures
        pump_next(state, event) matches Some((next, _)) ==> pump_rank(next) < pump_rank(state),
        pump_next(PumpState::Finished, event) is None,
{
}

/// What an operating system says of a lock file and its directory.
#[derive(Clone, Copy, Debug, PartialEq, Eq, Structural)]
pub struct LockFacts {
    pub parent_is_dir: bool,
    pub parent_mode: u32,
    pub parent_uid: u32,
    pub is_file: bool,
    pub links: u64,
    pub uid: u32,
    pub mode: u32,
}

/// Whether anybody but the owner has any access.
pub open spec fn owner_only(mode: u32) -> bool {
    mode & 0o077 == 0
}

/// Check a lock's directory before the lock is opened.
pub fn check_lock_parent(facts: &LockFacts) -> (r: Result<(), String>)
    ensures
        r is Ok == (facts.parent_is_dir && owner_only(facts.parent_mode)),
        r matches Err(e) ==> e@ == "corporate lock parent must be an owner-only directory"@,
{
    if !facts.parent_is_dir || facts.parent_mode & 0o077 != 0 {
        return Err("corporate lock parent must be an owner-only directory".to_owned());
    }
    Ok(())
}

/// Check an opened lock: one regular owner-only file of the directory's owner.
pub fn check_lock_file(facts: &LockFacts) -> (r: Result<(), String>)
    ensures
        r is Ok == (facts.is_file && facts.links == 1 && facts.uid == facts.parent_uid
            && owner_only(facts.mode)),
        r matches Err(e) ==> e@ == "corporate lock file is unsafe"@,
{
    if !facts.is_file || facts.links != 1 || facts.uid != facts.parent_uid || facts.mode & 0o077
        != 0 {
        return Err("corporate lock file is unsafe".to_owned());
    }
    Ok(())
}

/// How long a waiting writer tries for a lock, in milliseconds.
pub const LOCK_WAIT_MILLIS: u64 = 30_000;

/// After one failed try: whether to try again.
pub fn lock_again(wait: bool, waited_millis: u64) -> (r: Result<(), String>)
    ensures
        r is Ok == (wait && waited_millis < LOCK_WAIT_MILLIS),
        r matches Err(e) ==> e@ == "corporate lock unavailable; another writer may own it"@,
{
    if !wait || waited_millis >= LOCK_WAIT_MILLIS {
        return Err("corporate lock unavailable; another writer may own it".to_owned());
    }
    Ok(())
}

/// The state of a pump after these answers, from its start on; `None` where one
/// of them was not asked for.
pub open spec fn pump_after(events: Seq<PumpEvent>) -> Option<PumpState>
    decreases events.len(),
{
    if events.len() == 0 {
        Some(PumpState::Ended)
    } else {
        match pump_after(events.drop_last()) {
            None => None,
            Some(state) => match pump_next(state, events.last()) {
                None => None,
                Some(next) => Some(next.0),
            },
        }
    }
}

/// Whether an entry was held against the journal and fits.
pub open spec fn entry_verified(events: Seq<PumpEvent>) -> bool {
    exists|i: int| 0 <= i < events.len() && (#[trigger] events[i]) is Verified
}

proof fn lemma_working_states_are_verified(events: Seq<PumpEvent>)
    ensures
        pump_after(events) matches Some(state) ==> (state is Preparing || state is Submitting
            || state is Expiring ==> entry_verified(events)),
    decreases events.len(),
{
    if events.len() > 0 {
        let before = events.drop_last();
        lemma_working_states_are_verified(before);
        if entry_verified(before) {
            let i = choose|i: int| 0 <= i < before.len() && (#[trigger] before[i]) is Verified;
            assert(events[i] is Verified);
        }
        if events.last() is Verified {
            assert(events[events.len() - 1] is Verified);
        }
    }
}

/// Nothing is done about an entry before it was held against the journal and
/// fits: no funding is prepared, nothing is sent, no end is reported and nothing
/// is reconciled.
pub proof fn lemma_work_follows_verification(events: Seq<PumpEvent>)
    requires
        events.len() > 0,
    ensures
        pump_after(events.drop_last()) matches Some(state) ==> (pump_next(
            state,
            events.last(),
        ) matches Some((_, action)) ==> (action is Submit || action is PrepareFunding || action
            is ReportEnd || action is EndUnprepared || action is ReconcileExpired || action
            is ReportAdmission || action is EndForFunds || action is RecordAbort || action
            is RecordRelease ==> entry_verified(events))),
{
    let before = events.drop_last();
    lemma_working_states_are_verified(before);
    if entry_verified(before) {
        let i = choose|i: int| 0 <= i < before.len() && (#[trigger] before[i]) is Verified;
        assert(events[i] is Verified);
    }
    if events.last() is Verified {
        assert(events[events.len() - 1] is Verified);
    }
}

} // verus!
