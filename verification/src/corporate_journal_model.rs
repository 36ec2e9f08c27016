//! What the corporate recovery journal is, and what each entry means.

use crate::bytes::{hex_text, is_zero, sha256, sha256_value, text_bytes, Digest32};
use crate::corporate::{
    CorporateNativeConfig, FacilityWitness, PreparedCorporateReserve, ReserveScope,
};
use crate::corporate_authorization::{AuthorizationFacts, CorporateReserveAuthorization};
use crate::corporate_expiry::{
    release_fault, resolution_fault, NativeExpiryResolution, NoteRelease, ReleaseReason,
    ResolutionView,
};
use crate::edge_client::{EdgeAdmissionReceipt, PreparedEdgeDelivery};
use crate::types::{ClusterPublicConfig, MPC_PARTIES};
use crate::text::{decimal_text, parsed_u64, text_after};
use vstd::prelude::*;

verus! {

/// The schema of a journal record.
pub const RECORD_VERSION: u16 = 2;

/// Only the participant's encrypted journal may serialize this value.
pub struct StoredCorporateIntent {
    pub input_digest: Digest32,
    pub order_wire: Vec<u8>,
    pub signing_key: [u8; 64],
    pub eligibility_commitment: Digest32,
    pub accepted_at: u64,
    pub expires_at: u64,
    /// Old journals cannot prove that no untracked request was sent.
    pub reserve_send_tracking: bool,
}

/// The one decision between sending a reserve and ending it unsent.
#[derive(Clone, Copy, Debug, PartialEq, Eq)]
pub struct ReserveSendDecision {
    pub intent_digest: Digest32,
    pub reserve_digest: Digest32,
    pub may_send: bool,
}

/// Ciphertexts for the nodes. `authority` is the encoding of the sealed
/// reservation authority.
pub struct StoredCorporateDelivery {
    pub reserve_digest: Digest32,
    pub delivery: PreparedEdgeDelivery,
    pub authority: Vec<u8>,
}

#[derive(Clone, Copy, Debug, PartialEq, Eq, Structural)]
pub enum AuthorizationEndReason {
    Expired,
    InsufficientFunding,
}

#[derive(Clone, Debug, PartialEq, Eq)]
pub struct EndedCorporateAuthorization {
    pub request_id: String,
    pub authorization_digest: Digest32,
    pub ended_at: u64,
    pub reason: AuthorizationEndReason,
}

/// A signed instruction about an admitted order. `wire` is its encoding.
pub struct LifecycleCommand {
    pub reason: ReleaseReason,
    pub issued_at: u64,
    pub expires_at: u64,
    pub wire: Vec<u8>,
}

/// One retained claim signer. `authorization` is the encoding of its public
/// commitment; `derived` is the commitment that the retained key gives again,
/// or why it gives none.
pub struct ClaimKeyRecord {
    pub leg: u8,
    pub recipient_commitment: Digest32,
    pub key_fingerprint: Digest32,
    pub authorization: Vec<u8>,
    pub derived: Result<Vec<u8>, String>,
}

impl ClaimKeyRecord {
    /// Why a retained key does not stand behind its commitment, if it does not.
    pub open spec fn restore_fault(&self) -> Option<Seq<char>> {
        match self.derived {
            Err(text) => Some(text@),
            Ok(commitment) => if commitment@ != self.authorization@ {
                Some("stored claim authorization key differs from its public commitment"@)
            } else {
                None
            },
        }
    }
}

/// One claim of a response.
pub struct ClaimTerm {
    pub leg: u8,
    pub recipient_commitment: Digest32,
    pub authorization: Vec<u8>,
}

impl ClaimTerm {
    /// The claim of a retained signer.
    pub open spec fn names(&self, key: &ClaimKeyRecord) -> bool {
        &&& self.leg == key.leg
        &&& self.recipient_commitment == key.recipient_commitment
        &&& self.authorization@ == key.authorization@
    }
}

/// What a signed response reads as. `reencoded` is its canonical encoding,
/// `verified` the outcome of checking its signature for the participant's view.
pub struct ClaimReply {
    pub reencoded: Vec<u8>,
    pub version: u16,
    pub reservation_id: Digest32,
    pub sequence: u64,
    pub first: ClaimTerm,
    pub second: ClaimTerm,
    pub verified: Result<(), String>,
}

/// Private one-time claim signers of one fill. `shape` is the outcome of the
/// unsigned response's own check, `reply` what the signed response reads as, or
/// why it cannot be read.
pub struct StoredClaimAuthorizations {
    pub version: u16,
    pub issue_view: Digest32,
    pub reservation_id: Digest32,
    pub sequence: u64,
    pub not_before: u64,
    pub not_after: u64,
    pub order_signer: Digest32,
    pub response_wire: Vec<u8>,
    pub first: ClaimKeyRecord,
    pub second: ClaimKeyRecord,
    pub shape: Result<(), String>,
    pub reply: Result<ClaimReply, String>,
}

/// A claim as the ledger fixes it.
pub struct CanonicalClaim {
    pub recipient_commitment: Digest32,
    pub key_fingerprint: Digest32,
    pub authorization: Vec<u8>,
    /// The outcome of the claim's own check.
    pub checked: Result<(), String>,
}

/// The longest retained response.
pub const MAX_RESPONSE_WIRE: usize = 65_536;

impl StoredClaimAuthorizations {
    /// Why the retained signers do not stand, if they do not. `issue_version`
    /// is the version of the claim protocol.
    pub open spec fn retained_fault(&self, issue_version: u16) -> Option<Seq<char>> {
        if self.version != issue_version || is_zero(self.issue_view@) || is_zero(
            self.reservation_id@,
        ) || self.sequence == u64::MAX || self.not_before >= self.not_after || is_zero(
            self.order_signer@,
        ) || self.first.leg == self.second.leg {
            Some("stored claim authorization context is inconsistent"@)
        } else {
            match (self.first.restore_fault(), self.second.restore_fault(), self.shape) {
                (Some(text), _, _) => Some(text),
                (_, Some(text), _) => Some(text),
                (_, _, Err(text)) => Some(text@),
                _ => None,
            }
        }
    }

    /// A response with exactly the claims of the retained signers.
    pub open spec fn answered_by(&self, reply: &ClaimReply) -> bool {
        &&& reply.version == self.version
        &&& reply.reservation_id == self.reservation_id
        &&& reply.sequence == self.sequence
        &&& reply.first.names(&self.first)
        &&& reply.second.names(&self.second)
    }

    /// Why the retained response does not stand, if it does not.
    pub open spec fn public_fault(&self, issue_version: u16) -> Option<Seq<char>> {
        if self.response_wire@.len() == 0 || self.response_wire@.len() > MAX_RESPONSE_WIRE {
            Some("stored claim authorization response wire is invalid"@)
        } else {
            match self.reply {
                Err(text) => Some(text@),
                Ok(reply) => if reply.reencoded@ != self.response_wire@ {
                    Some("stored claim authorization response wire is not canonical"@)
                } else if self.retained_fault(issue_version) is Some {
                    self.retained_fault(issue_version)
                } else if !self.answered_by(&reply) {
                    Some("stored claim authorization response differs from its retained keys"@)
                } else {
                    match reply.verified {
                        Err(text) => Some(text@),
                        Ok(_) => None,
                    }
                },
            }
        }
    }
}

/// The body of a journal record, as the kind of record that it reads as.
pub enum JournalBody {
    Context(Digest32),
    Intent(StoredCorporateIntent),
    Authorization(CorporateReserveAuthorization),
    AuthorizationEnd(EndedCorporateAuthorization),
    SendDecision(ReserveSendDecision),
    Reserve(PreparedCorporateReserve),
    /// The encoding of a finalized reservation.
    Admission(Vec<u8>),
    Delivery(StoredCorporateDelivery),
    Receipt(EdgeAdmissionReceipt),
    Cancel(LifecycleCommand),
    ExpiryRelease(NoteRelease),
    Resolution(NativeExpiryResolution),
    Funding(FacilityWitness),
    ClaimAuthorizations(StoredClaimAuthorizations),
    Scope(ReserveScope),
    /// Any other record, encoded.
    Other(Vec<u8>),
}

pub struct JournalRecord {
    pub version: u16,
    pub context: Digest32,
    pub body: JournalBody,
}

impl View for JournalRecord {
    type V = JournalRecord;

    open spec fn view(&self) -> JournalRecord {
        *self
    }
}

/// A journal: its deployment, its records, and the order in which they came.
#[verifier::ext_equal]
pub struct JournalView {
    pub context: Digest32,
    pub records: Map<Seq<char>, JournalRecord>,
    pub order: Seq<Seq<char>>,
}

/// A byte of a request identifier.
pub open spec fn request_byte(byte: u8) -> bool {
    ||| 48 <= byte <= 57
    ||| 65 <= byte <= 90
    ||| 97 <= byte <= 122
    ||| byte == 45
    ||| byte == 95
}

/// Letters, digits, `-` and `_`, between one and 64 of them.
pub open spec fn request_id_valid(id: Seq<char>) -> bool {
    let bytes = text_bytes(id);
    &&& 0 < id.len()
    &&& bytes.len() <= 64
    &&& forall|i: int| 0 <= i < bytes.len() ==> request_byte(#[trigger] bytes[i])
}

/// The stages that a request goes through.
pub open spec fn stage_known(stage: Seq<char>) -> bool {
    ||| stage == "intent"@
    ||| stage == "reserve"@
    ||| stage == "admission"@
    ||| stage == "delivery"@
    ||| stage == "receipt"@
    ||| stage == "cancel"@
    ||| stage == "expiry"@
    ||| stage == "resolved"@
    ||| stage == "reserve-send"@
    ||| stage == "authorization"@
    ||| stage == "authorization-end"@
    ||| stage == "market-input"@
    ||| stage == "market"@
}

/// The key of a request's record at a stage.
pub open spec fn stage_key(stage: Seq<char>, id: Seq<char>) -> Seq<char> {
    stage + ":"@ + id
}

pub open spec fn invalid_id() -> Seq<char> {
    "corporate request ID or stage is invalid"@
}

pub open spec fn legacy_record() -> Seq<char> {
    "corporate stage record has a legacy schema or belongs to another deployment; explicit migration is required"@
}

pub open spec fn malformed_record() -> Seq<char> {
    "corporate stage record is malformed or uses legacy signing custody; explicit PQC migration is required"@
}

/// The key of the canonical end of a reservation.
pub open spec fn expiry_result_key(prepared: &PreparedCorporateReserve) -> Seq<char> {
    "expiry-result:"@ + hex_text(prepared.request.mandate.hold_id@)
}

/// The key of one generation of a facility's funding.
pub open spec fn funding_key(facility_id: Digest32, sequence: u64) -> Seq<char> {
    funding_prefix(facility_id) + decimal_text(sequence as nat)
}

pub open spec fn funding_prefix(facility_id: Digest32) -> Seq<char> {
    "funding:"@ + hex_text(facility_id@) + ":"@
}

/// Read as a text result.
pub type Looked<T> = Result<Option<T>, Seq<char>>;

impl JournalView {
    /// The record under a key.
    pub open spec fn get(self, key: Seq<char>) -> Looked<JournalBody> {
        if !self.records.dom().contains(key) {
            Ok(None)
        } else if self.records[key].version != RECORD_VERSION || self.records[key].context
            != self.context {
            Err(legacy_record())
        } else {
            Ok(Some(self.records[key].body))
        }
    }

    /// The record of a request at a stage.
    pub open spec fn stage(self, stage: Seq<char>, id: Seq<char>) -> Looked<JournalBody> {
        if !request_id_valid(id) || !stage_known(stage) {
            Err(invalid_id())
        } else {
            self.get(stage_key(stage, id))
        }
    }

    pub open spec fn intent(self, id: Seq<char>) -> Looked<StoredCorporateIntent> {
        match self.stage("intent"@, id) {
            Err(text) => Err(text),
            Ok(None) => Ok(None),
            Ok(Some(JournalBody::Intent(value))) => Ok(Some(value)),
            Ok(Some(_)) => Err(malformed_record()),
        }
    }

    pub open spec fn authorization(self, id: Seq<char>) -> Looked<CorporateReserveAuthorization> {
        match self.stage("authorization"@, id) {
            Err(text) => Err(text),
            Ok(None) => Ok(None),
            Ok(Some(JournalBody::Authorization(value))) => Ok(Some(value)),
            Ok(Some(_)) => Err(malformed_record()),
        }
    }

    pub open spec fn end_record(self, id: Seq<char>) -> Looked<EndedCorporateAuthorization> {
        match self.stage("authorization-end"@, id) {
            Err(text) => Err(text),
            Ok(None) => Ok(None),
            Ok(Some(JournalBody::AuthorizationEnd(value))) => Ok(Some(value)),
            Ok(Some(_)) => Err(malformed_record()),
        }
    }

    pub open spec fn send_decision(self, id: Seq<char>) -> Looked<ReserveSendDecision> {
        match self.stage("reserve-send"@, id) {
            Err(text) => Err(text),
            Ok(None) => Ok(None),
            Ok(Some(JournalBody::SendDecision(value))) => Ok(Some(value)),
            Ok(Some(_)) => Err(malformed_record()),
        }
    }

    pub open spec fn reserve(self, id: Seq<char>) -> Looked<PreparedCorporateReserve> {
        match self.stage("reserve"@, id) {
            Err(text) => Err(text),
            Ok(None) => Ok(None),
            Ok(Some(JournalBody::Reserve(value))) => Ok(Some(value)),
            Ok(Some(_)) => Err(malformed_record()),
        }
    }

    pub open spec fn delivery(self, id: Seq<char>) -> Looked<StoredCorporateDelivery> {
        match self.stage("delivery"@, id) {
            Err(text) => Err(text),
            Ok(None) => Ok(None),
            Ok(Some(JournalBody::Delivery(value))) => Ok(Some(value)),
            Ok(Some(_)) => Err(malformed_record()),
        }
    }

    pub open spec fn receipt(self, id: Seq<char>) -> Looked<EdgeAdmissionReceipt> {
        match self.stage("receipt"@, id) {
            Err(text) => Err(text),
            Ok(None) => Ok(None),
            Ok(Some(JournalBody::Receipt(value))) => Ok(Some(value)),
            Ok(Some(_)) => Err(malformed_record()),
        }
    }

    pub open spec fn cancellation(self, id: Seq<char>) -> Looked<LifecycleCommand> {
        match self.stage("cancel"@, id) {
            Err(text) => Err(text),
            Ok(None) => Ok(None),
            Ok(Some(JournalBody::Cancel(value))) => Ok(Some(value)),
            Ok(Some(_)) => Err(malformed_record()),
        }
    }

    pub open spec fn expiry_release(self, id: Seq<char>) -> Looked<NoteRelease> {
        match self.stage("expiry"@, id) {
            Err(text) => Err(text),
            Ok(None) => Ok(None),
            Ok(Some(JournalBody::ExpiryRelease(value))) => Ok(Some(value)),
            Ok(Some(_)) => Err(malformed_record()),
        }
    }

    pub open spec fn resolved(self, id: Seq<char>) -> Looked<NativeExpiryResolution> {
        match self.stage("resolved"@, id) {
            Err(text) => Err(text),
            Ok(None) => Ok(None),
            Ok(Some(JournalBody::Resolution(value))) => Ok(Some(value)),
            Ok(Some(_)) => Err(malformed_record()),
        }
    }

    pub open spec fn resolution_record(self, key: Seq<char>) -> Looked<NativeExpiryResolution> {
        match self.get(key) {
            Err(text) => Err(text),
            Ok(None) => Ok(None),
            Ok(Some(JournalBody::Resolution(value))) => Ok(Some(value)),
            Ok(Some(_)) => Err(malformed_record()),
        }
    }

    pub open spec fn funding_record(self, key: Seq<char>) -> Looked<FacilityWitness> {
        match self.get(key) {
            Err(text) => Err(text),
            Ok(None) => Ok(None),
            Ok(Some(JournalBody::Funding(value))) => Ok(Some(value)),
            Ok(Some(_)) => Err(malformed_record()),
        }
    }

    /// A record of this deployment under a key.
    pub open spec fn with_record(self, key: Seq<char>, body: JournalBody) -> JournalView {
        JournalView {
            records: self.records.insert(
                key,
                JournalRecord { version: RECORD_VERSION, context: self.context, body },
            ),
            order: self.order.push(key),
            ..self
        }
    }

    /// Keep a body under a key unless something stands there already. The
    /// result is what then stands there.
    pub open spec fn put_first(self, key: Seq<char>, body: JournalBody) -> (
        JournalView,
        Result<JournalBody, Seq<char>>,
    ) {
        match self.get(key) {
            Err(text) => (self, Err(text)),
            Ok(Some(stored)) => (self, Ok(stored)),
            Ok(None) => (self.with_record(key, body), Ok(body)),
        }
    }

    /// Keep a request's intent.
    pub open spec fn save_intent(self, id: Seq<char>, intent: StoredCorporateIntent) -> (
        JournalView,
        Result<(), Seq<char>>,
    ) {
        if !request_id_valid(id) {
            (self, Err(invalid_id()))
        } else {
            let (next, stored) = self.put_first(
                stage_key("intent"@, id),
                JournalBody::Intent(intent),
            );
            match stored {
                Err(text) => (next, Err(text)),
                Ok(JournalBody::Intent(kept)) => if kept.input_digest != intent.input_digest {
                    (
                        next,
                        Err(
                            "corporate request ID was reused for another order instruction"@,
                        ),
                    )
                } else {
                    (next, Ok(()))
                },
                Ok(_) => (next, Err(malformed_record())),
            }
        }
    }

    /// Whether a request has been admitted, resolved or ended.
    pub open spec fn finished(self, id: Seq<char>) -> bool {
        ||| self.records.dom().contains(stage_key("receipt"@, id))
        ||| self.records.dom().contains(stage_key("resolved"@, id))
        ||| self.records.dom().contains(stage_key("authorization-end"@, id))
    }

    /// Whether a key is the intent of a request that has not finished.
    pub open spec fn open_intent(self, key: Seq<char>) -> bool {
        match text_after(key, "intent:"@) {
            Some(id) => !self.finished(id),
            None => false,
        }
    }

    /// The oldest intent from `start` on whose request has not finished.
    pub open spec fn oldest_open(self, start: int) -> Option<Seq<char>>
        decreases self.order.len() - start,
    {
        if start >= self.order.len() {
            None
        } else if self.open_intent(self.order[start]) {
            Some(self.order[start])
        } else {
            self.oldest_open(start + 1)
        }
    }

    /// Why it is not a request's turn, if it is not.
    pub open spec fn turn_fault(self, id: Seq<char>) -> Option<Seq<char>> {
        if !request_id_valid(id) {
            Some(invalid_id())
        } else if self.records.dom().contains(stage_key("resolved"@, id))
            || self.records.dom().contains(stage_key("authorization-end"@, id)) {
            Some("corporate request already ended without admission"@)
        } else if self.finished(id) {
            None
        } else {
            match self.oldest_open(0) {
                Some(key) => if key != stage_key("intent"@, id) {
                    Some("an earlier corporate request must be admitted or reconciled first"@)
                } else {
                    None
                },
                None => None,
            }
        }
    }

    /// The digest that a send is bound to: the signed authorization's where
    /// there is one, and else the reserve request's.
    pub open spec fn send_binding(self, id: Seq<char>, digest: Digest32) -> Result<
        Digest32,
        Seq<char>,
    > {
        match self.authorization(id) {
            Err(text) => Err(text),
            Ok(None) => Ok(digest),
            Ok(Some(authorization)) => {
                let binding = sha256_value(authorization.digest_bytes());
                if digest == binding {
                    Ok(binding)
                } else {
                    match self.reserve(id) {
                        Err(text) => Err(text),
                        Ok(None) => Err("authorized send lost its prepared funding"@),
                        Ok(Some(prepared)) => if digest@ != sha256(prepared.request.wire@)
                            || !prepared.request.mandate.same_as(&authorization.mandate)
                            || prepared.order_wire@ != authorization.order_wire@
                            || prepared.request.order_authorization_salt
                            != authorization.order_authorization_salt
                            || prepared.request.reserve_reblinding
                            != authorization.reserve_reblinding {
                            Err("prepared send differs from the original signed authorization"@)
                        } else {
                            Ok(binding)
                        },
                    }
                }
            },
        }
    }

    /// Decide once between sending a reserve and ending it unsent. The result
    /// is the decision that stands.
    pub open spec fn choose_reserve_send(
        self,
        id: Seq<char>,
        digest: Digest32,
        may_send: bool,
    ) -> (JournalView, Result<bool, Seq<char>>) {
        match self.intent(id) {
            Err(text) => (self, Err(text)),
            Ok(None) => (self, Err("reserve send has no durable intent"@)),
            Ok(Some(intent)) => match self.send_binding(id, digest) {
                Err(text) => (self, Err(text)),
                Ok(reserve_digest) => {
                    let (next, stored) = self.put_first(
                        stage_key("reserve-send"@, id),
                        JournalBody::SendDecision(
                            ReserveSendDecision {
                                intent_digest: intent.input_digest,
                                reserve_digest,
                                may_send,
                            },
                        ),
                    );
                    match stored {
                        Err(text) => (next, Err(text)),
                        Ok(JournalBody::SendDecision(decision)) => if decision.intent_digest
                            != intent.input_digest || decision.reserve_digest != reserve_digest {
                            (
                                next,
                                Err("reserve send decision differs from the original request"@),
                            )
                        } else {
                            (next, Ok(decision.may_send))
                        },
                        Ok(_) => (next, Err(malformed_record())),
                    }
                },
            },
        }
    }

    /// Mark a reserve as sent, unless its end unsent was decided first.
    pub open spec fn mark_reserve_send_started(self, id: Seq<char>, digest: Digest32) -> (
        JournalView,
        Result<(), Seq<char>>,
    ) {
        let (next, chosen) = self.choose_reserve_send(id, digest, true);
        match chosen {
            Err(text) => (next, Err(text)),
            Ok(true) => (next, Ok(())),
            Ok(false) => (next, Err("unsent expiry fence prevents this reserve send"@)),
        }
    }

    /// The first of some stages at which a request has a record: `Ok(true)`
    /// where there is one, the error of a record that does not read.
    pub open spec fn any_stage(self, stages: Seq<Seq<char>>, id: Seq<char>, start: int) -> Result<
        bool,
        Seq<char>,
    >
        decreases stages.len() - start,
    {
        if start >= stages.len() {
            Ok(false)
        } else {
            match self.stage(stages[start], id) {
                Err(text) => Err(text),
                Ok(Some(_)) => Ok(true),
                Ok(None) => self.any_stage(stages, id, start + 1),
            }
        }
    }

    /// Seal an expired request that was never sent. `Ok(true)` means that the
    /// fence stands and no send can follow.
    pub open spec fn seal_never_dispatched(self, id: Seq<char>, digest: Digest32, at: u64) -> (
        JournalView,
        Result<bool, Seq<char>>,
    ) {
        match self.intent(id) {
            Err(text) => (self, Err(text)),
            Ok(None) => (self, Err("unsent expiry has no intent"@)),
            Ok(Some(intent)) => if !intent.reserve_send_tracking || at <= intent.expires_at {
                (self, Ok(false))
            } else {
                match self.any_stage(seq!["admission"@, "delivery"@, "receipt"@], id, 0) {
                    Err(text) => (self, Err(text)),
                    Ok(true) => (self, Ok(false)),
                    Ok(false) => {
                        let (next, chosen) = self.choose_reserve_send(id, digest, false);
                        match chosen {
                            Err(text) => (next, Err(text)),
                            Ok(may_send) => (next, Ok(!may_send)),
                        }
                    },
                }
            },
        }
    }

    /// The end of an authorization, if it has one that could not have been
    /// sent.
    pub open spec fn ended_authorization(self, id: Seq<char>) -> Looked<
        EndedCorporateAuthorization,
    > {
        match self.end_record(id) {
            Err(text) => Err(text),
            Ok(None) => Ok(None),
            Ok(Some(value)) => match self.authorization(id) {
                Err(text) => Err(text),
                Ok(None) => Err("ended authorization lost its terms"@),
                Ok(Some(authorization)) => match self.intent(id) {
                    Err(text) => Err(text),
                    Ok(None) => Err("ended authorization lost its intent"@),
                    Ok(Some(intent)) => match self.send_decision(id) {
                        Err(text) => Err(text),
                        Ok(None) => Err("ended authorization has no send fence"@),
                        Ok(Some(decision)) => if end_consistent(
                            &value,
                            id,
                            &authorization,
                            &intent,
                            decision,
                        ) {
                            Ok(Some(value))
                        } else {
                            Err(
                                "ended authorization is inconsistent or could have been sent"@,
                            )
                        },
                    },
                },
            },
        }
    }

    /// Whether an authorization may end at `at`.
    pub open spec fn may_end(
        intent: &StoredCorporateIntent,
        at: u64,
        reason: AuthorizationEndReason,
    ) -> bool {
        &&& intent.reserve_send_tracking
        &&& at >= intent.accepted_at
        &&& reason == AuthorizationEndReason::Expired ==> at > intent.expires_at
    }

    /// End an authorization before any funding request exists: fence its send,
    /// then record the end. `record` is the end record.
    pub open spec fn end_unprepared_authorization(
        self,
        id: Seq<char>,
        at: u64,
        reason: AuthorizationEndReason,
        record: EndedCorporateAuthorization,
    ) -> (JournalView, Result<(), Seq<char>>) {
        match self.ended_authorization(id) {
            Err(text) => (self, Err(text)),
            Ok(Some(_)) => (self, Ok(())),
            Ok(None) => match self.intent(id) {
                Err(text) => (self, Err(text)),
                Ok(None) => (self, Err("ending authorization has no intent"@)),
                Ok(Some(intent)) => if !JournalView::may_end(&intent, at, reason) {
                    (self, Err("authorization cannot end before its permitted boundary"@))
                } else {
                    match self.any_stage(
                        seq!["reserve"@, "admission"@, "delivery"@, "receipt"@],
                        id,
                        0,
                    ) {
                        Err(text) => (self, Err(text)),
                        Ok(true) => (
                            self,
                            Err(
                                "prepared or delivered authorization requires canonical reconciliation"@,
                            ),
                        ),
                        Ok(false) => match self.authorization(id) {
                            Err(text) => (self, Err(text)),
                            Ok(None) => (
                                self,
                                Err("ending authorization has no signed terms"@),
                            ),
                            Ok(Some(authorization)) => {
                                let (fenced, chosen) = self.choose_reserve_send(
                                    id,
                                    sha256_value(authorization.digest_bytes()),
                                    false,
                                );
                                match chosen {
                                    Err(text) => (fenced, Err(text)),
                                    Ok(true) => (
                                        fenced,
                                        Err("authorization has an ambiguous send"@),
                                    ),
                                    Ok(false) => {
                                        let (next, stored) = fenced.put_first(
                                            stage_key("authorization-end"@, id),
                                            JournalBody::AuthorizationEnd(record),
                                        );
                                        match stored {
                                            Err(text) => (next, Err(text)),
                                            Ok(_) => match next.ended_authorization(id) {
                                                Err(text) => (next, Err(text)),
                                                Ok(None) => (
                                                    next,
                                                    Err("authorization end was not durable"@),
                                                ),
                                                Ok(Some(_)) => (next, Ok(())),
                                            },
                                        }
                                    },
                                }
                            },
                        },
                    }
                },
            },
        }
    }

    /// Why a resolution may not claim that nothing was sent, if it may not.
    pub open spec fn unsent_fault(self, value: ResolutionView) -> Option<Seq<char>> {
        if !(value.outcome is NeverReserved) {
            None
        } else {
            match self.intent(value.request_id) {
                Err(text) => Some(text),
                Ok(None) => Some("absence record lost its intent"@),
                Ok(Some(intent)) => match self.send_decision(value.request_id) {
                    Err(text) => Some(text),
                    Ok(None) => Some("absence record has no atomic unsent fence"@),
                    Ok(Some(decision)) => if !intent.reserve_send_tracking || decision.may_send
                        || decision.intent_digest != intent.input_digest {
                        Some("absence record cannot exclude an ambiguous or legacy send"@)
                    } else {
                        match self.send_binding(value.request_id, value.reserve_digest) {
                            Err(text) => Some(text),
                            Ok(binding) => if decision.reserve_digest != binding {
                                Some(
                                    "absence record cannot exclude an ambiguous or legacy send"@,
                                )
                            } else {
                                None
                            },
                        }
                    },
                },
            }
        }
    }

    /// The canonical end that is saved for a reserve. `verified` is the outcome
    /// of the saved release's own check, where there is a release.
    pub open spec fn expiry_resolution(
        self,
        prepared: &PreparedCorporateReserve,
        verified: Result<(), String>,
    ) -> Looked<NativeExpiryResolution> {
        match self.resolution_record(expiry_result_key(prepared)) {
            Err(text) => Err(text),
            Ok(None) => Ok(None),
            Ok(Some(value)) => match resolution_fault(value@, prepared, verified) {
                Some(text) => Err(text),
                None => match self.unsent_fault(value@) {
                    Some(text) => Err(text),
                    None => Ok(Some(value)),
                },
            },
        }
    }

    /// Save the canonical end of a reserve.
    pub open spec fn save_expiry_resolution(
        self,
        value: NativeExpiryResolution,
        prepared: &PreparedCorporateReserve,
        verified: Result<(), String>,
    ) -> (JournalView, Result<(), Seq<char>>) {
        match resolution_fault(value@, prepared, verified) {
            Some(text) => (self, Err(text)),
            None => match self.unsent_fault(value@) {
                Some(text) => (self, Err(text)),
                None => {
                    let (next, stored) = self.put_first(
                        expiry_result_key(prepared),
                        JournalBody::Resolution(value),
                    );
                    match stored {
                        Err(text) => (next, Err(text)),
                        Ok(JournalBody::Resolution(kept)) => match resolution_fault(
                            kept@,
                            prepared,
                            verified,
                        ) {
                            Some(text) => (next, Err(text)),
                            None => if kept@ != value@ {
                                (
                                    next,
                                    Err(
                                        "expiry result conflicts with earlier canonical evidence"@,
                                    ),
                                )
                            } else {
                                (next, Ok(()))
                            },
                        },
                        Ok(_) => (next, Err(malformed_record())),
                    }
                },
            },
        }
    }

    /// Finish an expired request with its saved canonical end.
    pub open spec fn complete_expiry(
        self,
        value: NativeExpiryResolution,
        prepared: &PreparedCorporateReserve,
        verified: Result<(), String>,
    ) -> (JournalView, Result<(), Seq<char>>) {
        match resolution_fault(value@, prepared, verified) {
            Some(text) => (self, Err(text)),
            None => match self.expiry_resolution(prepared, verified) {
                Err(text) => (self, Err(text)),
                Ok(saved) => if !(saved matches Some(kept) && kept@ == value@) {
                    (self, Err("expiry completion has no durable canonical evidence"@))
                } else if !request_id_valid(value.request_id@) {
                    (self, Err(invalid_id()))
                } else {
                    let (next, stored) = self.put_first(
                        stage_key("resolved"@, value.request_id@),
                        JournalBody::Resolution(value),
                    );
                    match stored {
                        Err(text) => (next, Err(text)),
                        Ok(JournalBody::Resolution(kept)) => if kept@ != value@ {
                            (next, Err("expiry completion conflicts with saved outcome"@))
                        } else {
                            (next, Ok(()))
                        },
                        Ok(_) => (next, Err(malformed_record())),
                    }
                },
            },
        }
    }

    /// The canonical end with which a request was finished.
    pub open spec fn completed_expiry(self, id: Seq<char>, verified: Result<(), String>) -> Looked<
        NativeExpiryResolution,
    > {
        match self.resolved(id) {
            Err(text) => Err(text),
            Ok(None) => Ok(None),
            Ok(Some(value)) => match self.reserve(id) {
                Err(text) => Err(text),
                Ok(None) => Err("completed expiry lost its reserve"@),
                Ok(Some(prepared)) => match resolution_fault(value@, &prepared, verified) {
                    Some(text) => Err(text),
                    None => if value.request_id@ != id {
                        Err("completed expiry differs from saved canonical evidence"@)
                    } else {
                        match self.expiry_resolution(&prepared, verified) {
                            Err(text) => Err(text),
                            Ok(saved) => if saved matches Some(kept) && kept@ == value@ {
                                Ok(Some(value))
                            } else {
                                Err("completed expiry differs from saved canonical evidence"@)
                            },
                        }
                    },
                },
            },
        }
    }

    /// Keep one stage of a submission. Ends, receipts, cancellations and send
    /// decisions have operations of their own.
    pub open spec fn save_stage(
        self,
        id: Seq<char>,
        stage: Seq<char>,
        body: JournalBody,
    ) -> (JournalView, Result<JournalBody, Seq<char>>) {
        if !submission_stage(stage) {
            (self, Err("unknown corporate submission stage"@))
        } else if !request_id_valid(id) {
            (self, Err(invalid_id()))
        } else {
            self.put_first(stage_key(stage, id), body)
        }
    }
}

/// The stages that a submission saves by itself.
pub open spec fn submission_stage(stage: Seq<char>) -> bool {
    ||| stage == "reserve"@
    ||| stage == "admission"@
    ||| stage == "delivery"@
    ||| stage == "market-input"@
    ||| stage == "market"@
}

/// An end that belongs to its authorization, and whose send was fenced before
/// anything went out.
pub open spec fn end_consistent(
    value: &EndedCorporateAuthorization,
    id: Seq<char>,
    authorization: &CorporateReserveAuthorization,
    intent: &StoredCorporateIntent,
    decision: ReserveSendDecision,
) -> bool {
    &&& value.request_id@ == id
    &&& value.authorization_digest@ == sha256(authorization.digest_bytes())
    &&& intent.reserve_send_tracking
    &&& !decision.may_send
    &&& decision.intent_digest == intent.input_digest
    &&& decision.reserve_digest == value.authorization_digest
    &&& value.ended_at >= intent.accepted_at
    &&& value.reason == AuthorizationEndReason::Expired ==> value.ended_at > intent.expires_at
}

/// An authorization that carries exactly the terms of the intent.
pub open spec fn authorization_fits(
    value: &CorporateReserveAuthorization,
    intent: &StoredCorporateIntent,
) -> bool {
    &&& value.order_wire@ == intent.order_wire@
    &&& value.signing_key@ == intent.signing_key@
    &&& value.eligibility_commitment == intent.eligibility_commitment
    &&& value.mandate.valid_from >= intent.accepted_at
    &&& value.mandate.valid_until == intent.expires_at
}

impl JournalView {
    /// Keep a signed authorization that stands. `facts` are what is derived from
    /// it, `saved_facts` what is derived from an authorization that was saved
    /// before.
    pub open spec fn save_authorization(
        self,
        id: Seq<char>,
        value: CorporateReserveAuthorization,
        config: &CorporateNativeConfig,
        facts: Result<AuthorizationFacts, String>,
        saved_facts: Result<AuthorizationFacts, String>,
    ) -> (JournalView, Result<(), Seq<char>>) {
        match self.intent(id) {
            Err(text) => (self, Err(text)),
            Ok(None) => (self, Err("authorization has no durable corporate intent"@)),
            Ok(Some(intent)) => if value.fault(config, facts) is Some {
                (self, Err(value.fault(config, facts)->0))
            } else if !authorization_fits(&value, &intent) {
                (self, Err("authorization differs from corporate intake"@))
            } else {
                let (next, stored) = self.put_first(
                    stage_key("authorization"@, id),
                    JournalBody::Authorization(value),
                );
                match stored {
                    Err(text) => (next, Err(text)),
                    Ok(JournalBody::Authorization(kept)) => if next != self {
                        (next, Ok(()))
                    } else if kept.fault(config, saved_facts) is Some {
                        (next, Err(kept.fault(config, saved_facts)->0))
                    } else if !authorization_fits(&kept, &intent) {
                        (next, Err("saved authorization differs from corporate intake"@))
                    } else {
                        (next, Ok(()))
                    },
                    Ok(_) => (next, Err(malformed_record())),
                }
            },
        }
    }

    /// Keep the terms of an expiry release.
    pub open spec fn save_expiry_release(
        self,
        id: Seq<char>,
        release: NoteRelease,
        prepared: &PreparedCorporateReserve,
        verified: Result<(), String>,
        saved_verified: Result<(), String>,
    ) -> (JournalView, Result<(), Seq<char>>) {
        match release_fault(release@, prepared, verified) {
            Some(text) => (self, Err(text)),
            None => if !request_id_valid(id) {
                (self, Err(invalid_id()))
            } else {
                let (next, stored) = self.put_first(
                    stage_key("expiry"@, id),
                    JournalBody::ExpiryRelease(release),
                );
                match stored {
                    Err(text) => (next, Err(text)),
                    Ok(JournalBody::ExpiryRelease(kept)) => if next != self {
                        (next, Ok(()))
                    } else {
                        match release_fault(kept@, prepared, saved_verified) {
                            Some(text) => (next, Err(text)),
                            None => (next, Ok(())),
                        }
                    },
                    Ok(_) => (next, Err(malformed_record())),
                }
            },
        }
    }

    /// Whether a record among those from `start` on ends the authorization of
    /// this reserve unsent.
    pub open spec fn ended_unsent(
        self,
        prepared: &PreparedCorporateReserve,
        start: int,
    ) -> Result<bool, Seq<char>>
        decreases self.order.len() - start,
    {
        if start >= self.order.len() {
            Ok(false)
        } else {
            match text_after(self.order[start], "authorization-end:"@) {
                None => self.ended_unsent(prepared, start + 1),
                Some(id) => match self.ended_authorization(id) {
                    Err(text) => Err(text),
                    Ok(None) => self.ended_unsent(prepared, start + 1),
                    Ok(Some(_)) => match self.authorization(id) {
                        Err(text) => Err(text),
                        Ok(None) => self.ended_unsent(prepared, start + 1),
                        Ok(Some(authorization)) => if authorization.mandate.hold_id
                            != prepared.request.mandate.hold_id {
                            self.ended_unsent(prepared, start + 1)
                        } else {
                            match self.send_binding(id, sha256_value(prepared.request.wire@)) {
                                Err(text) => Err(text),
                                Ok(_) => Ok(true),
                            }
                        },
                    },
                },
            }
        }
    }

    /// Whether the journal proves that a reserve was never sent.
    pub open spec fn was_never_reserved(
        self,
        prepared: &PreparedCorporateReserve,
        verified: Result<(), String>,
    ) -> Result<bool, Seq<char>> {
        match self.ended_unsent(prepared, 0) {
            Err(text) => Err(text),
            Ok(true) => Ok(true),
            Ok(false) => match self.expiry_resolution(prepared, verified) {
                Err(text) => Err(text),
                Ok(None) => Ok(false),
                Ok(Some(value)) => Ok(value.outcome is NeverReserved),
            },
        }
    }

    /// Keep a cancellation of an admitted order. `signer` is the public key of
    /// the intent's signing key; `verified` is the outcome of the command's own
    /// check, `saved_verified` that of a command that was saved before.
    pub open spec fn save_cancellation(
        self,
        id: Seq<char>,
        command: LifecycleCommand,
        signer: Digest32,
        verified: Result<(), String>,
        saved_verified: Result<(), String>,
    ) -> (JournalView, Result<(), Seq<char>>) {
        match self.intent(id) {
            Err(text) => (self, Err(text)),
            Ok(None) => (self, Err("cancel has no saved corporate intent"@)),
            Ok(Some(_)) => match self.receipt(id) {
                Err(text) => (self, Err(text)),
                Ok(None) => (self, Err("cancel has no admitted order"@)),
                Ok(Some(receipt)) => match self.delivery(id) {
                    Err(text) => (self, Err(text)),
                    Ok(None) => (self, Err("cancel has no saved delivery"@)),
                    Ok(Some(delivery)) => if delivery.delivery.manifest@ != receipt.manifest@
                        || signer != receipt.manifest.signer || command.reason
                        != ReleaseReason::Cancelled {
                        (
                            self,
                            Err(
                                "cancel does not belong to the originally admitted corporate order"@,
                            ),
                        )
                    } else {
                        match verified {
                            Err(text) => (self, Err(text@)),
                            Ok(_) => {
                                let (next, stored) = self.put_first(
                                    stage_key("cancel"@, id),
                                    JournalBody::Cancel(command),
                                );
                                match stored {
                                    Err(text) => (next, Err(text)),
                                    Ok(JournalBody::Cancel(_)) => if next != self {
                                        (next, Ok(()))
                                    } else {
                                        match saved_verified {
                                            Err(text) => (next, Err(text@)),
                                            Ok(_) => (next, Ok(())),
                                        }
                                    },
                                    Ok(_) => (next, Err(malformed_record())),
                                }
                            },
                        }
                    },
                },
            },
        }
    }

    /// Keep a receipt that proves that its delivery was acknowledged. `facts`
    /// are what is known of it, `saved_facts` what is known of a receipt that was
    /// saved before.
    pub open spec fn save_receipt(
        self,
        id: Seq<char>,
        receipt: EdgeAdmissionReceipt,
        delivery: &PreparedEdgeDelivery,
        cluster: &ClusterPublicConfig,
        facts: &ReceiptFacts,
        saved_facts: &ReceiptFacts,
    ) -> (JournalView, Result<(), Seq<char>>) {
        match receipt_refusal(&receipt, delivery, cluster, facts) {
            Some(text) => (self, Err(text)),
            None => if !request_id_valid(id) {
                (self, Err(invalid_id()))
            } else {
                let (next, stored) = self.put_first(
                    stage_key("receipt"@, id),
                    JournalBody::Receipt(receipt),
                );
                match stored {
                    Err(text) => (next, Err(text)),
                    Ok(JournalBody::Receipt(kept)) => if next != self {
                        (next, Ok(()))
                    } else {
                        match receipt_refusal(&kept, delivery, cluster, saved_facts) {
                            Some(text) => (next, Err(text)),
                            None => (next, Ok(())),
                        }
                    },
                    Ok(_) => (next, Err(malformed_record())),
                }
            },
        }
    }

    /// A record that was not there makes another journal.
    pub proof fn lemma_new_record_differs(self, key: Seq<char>, body: JournalBody)
        ensures
            self.with_record(key, body) != self,
    {
        assert(self.with_record(key, body).order.len() == self.order.len() + 1);
    }

    /// Keep the witness of one funding generation. `committed` are the
    /// commitments to its values, `saved_committed` those to the values of a
    /// witness that was saved before.
    pub open spec fn save_funding_witness(
        self,
        witness: FacilityWitness,
        committed: [Digest32; 3],
        saved_committed: [Digest32; 3],
    ) -> (JournalView, Result<(), Seq<char>>) {
        if !witness.blindings_canonical() {
            (self, Err("corporate scalar encoding is invalid"@))
        } else {
            let (next, stored) = self.put_first(
                funding_key(witness.facility_id, witness.sequence),
                JournalBody::Funding(witness),
            );
            let conflict =
                "two different corporate funding witnesses name the same canonical generation"@;
            match stored {
                Err(text) => (next, Err(text)),
                Ok(JournalBody::Funding(kept)) => if next != self {
                    (next, Ok(()))
                } else if kept.facility_id != witness.facility_id
                    || kept.sequence != witness.sequence {
                    (next, Err(conflict))
                } else if !kept.blindings_canonical() {
                    (next, Err("corporate scalar encoding is invalid"@))
                } else if saved_committed != committed {
                    (next, Err(conflict))
                } else {
                    (next, Ok(()))
                },
                Ok(_) => (next, Err(malformed_record())),
            }
        }
    }

    /// The newest funding generation among the first `count` records.
    pub open spec fn newest_funding(self, facility_id: Digest32, count: nat) -> Option<
        (u64, Seq<char>),
    >
        decreases count,
    {
        if count == 0 {
            None
        } else {
            let key = self.order[count - 1];
            let earlier = self.newest_funding(facility_id, (count - 1) as nat);
            match text_after(key, funding_prefix(facility_id)) {
                None => earlier,
                Some(rest) => match parsed_u64(rest) {
                    None => earlier,
                    Some(sequence) => match earlier {
                        Some(best) => if sequence >= best.0 {
                            Some((sequence, key))
                        } else {
                            earlier
                        },
                        None => Some((sequence, key)),
                    },
                },
            }
        }
    }

    /// The funding that the newest witness opens; none where there is none.
    pub open spec fn latest_funding(self, facility_id: Digest32) -> Looked<FacilityWitness> {
        match self.newest_funding(facility_id, self.order.len()) {
            None => Ok(None),
            Some(best) => match self.funding_record(best.1) {
                Err(text) => Err(text),
                Ok(None) => Err("funding witness disappeared"@),
                Ok(Some(witness)) => if witness.facility_id != facility_id || witness.sequence
                    != best.0 {
                    Err("corporate funding witness index is inconsistent"@)
                } else if !witness.blindings_canonical() {
                    Err("corporate scalar encoding is invalid"@)
                } else {
                    Ok(Some(witness))
                },
            },
        }
    }

    /// Why a request does not own its reservation for the market, if it does
    /// not. `already` says that another request was found to own it.
    pub open spec fn ownership_fault(self, id: Seq<char>, already: bool) -> Option<Seq<char>> {
        if already {
            Some("corporate journal contains duplicate reservation ownership"@)
        } else {
            match self.stage("admission"@, id) {
                Err(text) => Some(text),
                Ok(None) => Some("claim authorization reservation has no durable permit"@),
                Ok(Some(JournalBody::Admission(_))) => match self.receipt(id) {
                    Err(text) => Some(text),
                    Ok(None) => Some(
                        "claim authorization reservation was not admitted to the market"@,
                    ),
                    Ok(Some(_)) => None,
                },
                Ok(Some(_)) => Some(malformed_record()),
            }
        }
    }

    /// A fault among few records is the fault of more.
    pub proof fn lemma_owner_fault_stays(self, reservation_id: Digest32, few: nat, many: nat)
        requires
            few <= many,
            self.reservation_owner(reservation_id, few) is Err,
        ensures
            self.reservation_owner(reservation_id, many) == self.reservation_owner(
                reservation_id,
                few,
            ),
        decreases many,
    {
        if few < many {
            self.lemma_owner_fault_stays(reservation_id, few, (many - 1) as nat);
        }
    }

    /// The request that owns an admitted reservation among the first `count`
    /// records.
    pub open spec fn reservation_owner(self, reservation_id: Digest32, count: nat) -> Result<
        Option<Seq<char>>,
        Seq<char>,
    >
        decreases count,
    {
        if count == 0 {
            Ok(None)
        } else {
            match self.reservation_owner(reservation_id, (count - 1) as nat) {
                Err(text) => Err(text),
                Ok(found) => {
                    let key = self.order[count - 1];
                    match text_after(key, "reserve:"@) {
                        None => Ok(found),
                        Some(id) => match self.get(key) {
                            Err(text) => Err(text),
                            Ok(None) => Err("saved reserve disappeared"@),
                            Ok(Some(JournalBody::Reserve(prepared))) =>
                            if prepared.request.mandate.hold_id != reservation_id {
                                Ok(found)
                            } else {
                                match self.ownership_fault(id, found is Some) {
                                    Some(text) => Err(text),
                                    None => Ok(Some(id)),
                                }
                            },
                            Ok(Some(_)) => Err(malformed_record()),
                        },
                    }
                },
            }
        }
    }

    /// The request that owns an admitted reservation.
    pub open spec fn admitted_reservation(self, reservation_id: Digest32) -> Result<
        Seq<char>,
        Seq<char>,
    > {
        match self.reservation_owner(reservation_id, self.order.len()) {
            Err(text) => Err(text),
            Ok(None) => Err("claim authorization reservation is not owned by this journal"@),
            Ok(Some(id)) => Ok(id),
        }
    }

    /// The requests with an admission receipt among the first `count` records.
    pub open spec fn admitted_requests(self, count: nat) -> Seq<Seq<char>>
        decreases count,
    {
        if count == 0 {
            Seq::empty()
        } else {
            let earlier = self.admitted_requests((count - 1) as nat);
            match text_after(self.order[count - 1], "receipt:"@) {
                Some(id) => earlier.push(id),
                None => earlier,
            }
        }
    }
}

/// What the outside checks say of a receipt and its delivery at the time when
/// the intent was accepted: whether the delivery's and the receipt's manifests
/// stand, and whether each party's receipt does.
pub struct ReceiptFacts {
    pub delivery_manifest: bool,
    pub receipt_manifest: bool,
    pub receipts_valid: Vec<bool>,
}

impl ReceiptFacts {
    /// One outcome for each party.
    pub open spec fn complete(&self) -> bool {
        self.receipts_valid@.len() == MPC_PARTIES
    }
}

/// Why a stored receipt does not prove that its delivery was acknowledged, if
/// it does not.
pub open spec fn receipt_refusal(
    receipt: &EdgeAdmissionReceipt,
    delivery: &PreparedEdgeDelivery,
    cluster: &ClusterPublicConfig,
    facts: &ReceiptFacts,
) -> Option<Seq<char>> {
    if cluster.fault is Some {
        Some((cluster.fault->0)@)
    } else if !facts.delivery_manifest {
        Some("edge admission receipt is invalid"@)
    } else if delivery.manifest.market_id@ != cluster.market_id@ {
        Some("edge distributor configuration is invalid"@)
    } else if !delivery.all_addressed(cluster) {
        Some("edge admission receipt is invalid"@)
    } else if !receipt.admitted(cluster, facts.receipt_manifest, facts.receipts_valid@) {
        Some("edge admission receipt is invalid"@)
    } else if receipt.manifest@ != delivery.manifest@ {
        Some("stored receipt belongs to another encrypted delivery"@)
    } else if !acknowledges(receipt, delivery) {
        Some("stored receipt does not acknowledge the persisted ciphertexts"@)
    } else {
        None
    }
}

/// Every ciphertext that was sent is named in the receipt.
pub open spec fn acknowledges(
    receipt: &EdgeAdmissionReceipt,
    delivery: &PreparedEdgeDelivery,
) -> bool {
    forall|i: int|
        0 <= i < delivery.deliveries@.len() ==> {
            let sent = #[trigger] delivery.deliveries@[i];
            &&& sent.party < MPC_PARTIES
            &&& receipt.order_share_digests@[sent.party as int] == sent.share_digest
            &&& receipt.capability_key_share_digests@[sent.party as int] == sent.key_digest
        }
}

} // verus!
