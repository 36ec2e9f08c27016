//! Corporate-only recovery journal. Its immutable records are protocol stages,
//! not substitute settlement receipts. Competing writers use the first
//! persisted record; no writer may replace an in-flight request.

use crate::bytes::{
    bytes_equal, digest_equal, digest_is_zero, hex_encode, is_zero, push_all, push_text, sha256,
    sha256_digest, sha256_value, text_bytes, Digest32,
};
use crate::corporate::{
    funded, reserve_digest, three_digests_equal, CorporateNativeConfig, FacilityWitness,
    PreparedCorporateReserve,
};
use crate::corporate_authorization::{AuthorizationFacts, CorporateReserveAuthorization};
use crate::corporate_expiry::{
    validate_expiry_release, NativeExpiryResolution, NoteRelease, ReleaseReason,
};
pub use crate::corporate_journal_model::{
    AuthorizationEndReason, EndedCorporateAuthorization, JournalBody, JournalRecord,
    LifecycleCommand, ReserveSendDecision, StoredClaimAuthorizations, StoredCorporateDelivery,
    StoredCorporateIntent,
};
use crate::corporate_journal_model::{
    acknowledges, authorization_fits, expiry_result_key, funding_prefix, invalid_id,
    malformed_record, receipt_refusal, request_byte, request_id_valid, stage_key, stage_known,
    JournalView, Looked, ReceiptFacts, RECORD_VERSION,
};
use crate::edge_client::EdgeAdmissionReceipt;
use crate::store::text_result;
use crate::text::{append_decimal, append_text, parse_u64, strip_prefix};
use crate::text_map::{text_equal, TextMap};
use crate::types::ClusterPublicConfig;
use vstd::prelude::*;

verus! {

/// A lookup with its error text as characters.
pub open spec fn looked<T>(r: Result<Option<&T>, String>) -> Looked<T> {
    match r {
        Ok(Some(value)) => Ok(Some(*value)),
        Ok(None) => Ok(None),
        Err(text) => Err(text@),
    }
}

pub(crate) fn is_request_id(id: &str) -> (valid: bool)
    ensures
        valid == request_id_valid(id@),
{
    let bytes = id.as_bytes();
    if id.is_empty() || bytes.len() > 64 {
        return false;
    }
    let mut i: usize = 0;
    while i < bytes.len()
        invariant
            bytes@ == text_bytes(id@),
            i <= bytes@.len(),
            forall|j: int| 0 <= j < i ==> request_byte(#[trigger] bytes@[j]),
        decreases bytes@.len() - i,
    {
        let b: u8 = bytes[i];
        if !((48 <= b && b <= 57) || (65 <= b && b <= 90) || (97 <= b && b <= 122) || b == 45 || b
            == 95) {
            assert(!request_byte(bytes@[i as int]));
            return false;
        }
        i += 1;
    }
    true
}

fn is_stage(stage: &str) -> (known: bool)
    ensures
        known == stage_known(stage@),
{
    text_equal(stage, "intent") || text_equal(stage, "reserve") || text_equal(stage, "admission")
        || text_equal(stage, "delivery") || text_equal(stage, "receipt") || text_equal(
        stage,
        "cancel",
    ) || text_equal(stage, "expiry") || text_equal(stage, "resolved") || text_equal(
        stage,
        "reserve-send",
    ) || text_equal(stage, "authorization") || text_equal(stage, "authorization-end")
        || text_equal(stage, "market-input") || text_equal(stage, "market")
}

fn key_of(stage: &str, id: &str) -> (key: String)
    ensures
        key@ == stage_key(stage@, id@),
{
    let mut key: String = stage.to_owned();
    append_text(&mut key, ":");
    append_text(&mut key, id);
    key
}

/// The key of a request's record at a stage.
pub fn record_id(stage: &str, id: &str) -> (r: Result<String, String>)
    ensures
        r is Ok == (request_id_valid(id@) && stage_known(stage@)),
        r matches Ok(key) ==> key@ == stage_key(stage@, id@),
        r matches Err(e) ==> e@ == invalid_id(),
{
    if !is_request_id(id) || !is_stage(stage) {
        return Err("corporate request ID or stage is invalid".to_owned());
    }
    Ok(key_of(stage, id))
}

pub(crate) fn malformed() -> (text: String)
    ensures
        text@ == malformed_record(),
{
    "corporate stage record is malformed or uses legacy signing custody; explicit PQC migration is required".to_owned()
}

/// The journal of one deployment.
pub struct NativeCorporateJournal {
    context: Digest32,
    records: TextMap<JournalRecord>,
}

impl View for NativeCorporateJournal {
    type V = JournalView;

    closed spec fn view(&self) -> JournalView {
        JournalView {
            context: self.context,
            records: self.records@,
            order: self.records.keys(),
        }
    }
}

/// What a journal's context is the hash of: the deployment's two
/// configurations, encoded.
pub open spec fn context_bytes(config: Seq<u8>, cluster: Seq<u8>) -> Seq<u8> {
    text_bytes("OCLOB:NATIVE-JOURNAL-CONTEXT:v1"@) + config + cluster
}

/// Why a journal does not open, if it does not.
pub open spec fn open_fault(
    secret: Digest32,
    cluster_fault: Option<Seq<char>>,
    stored: Looked<JournalBody>,
    context: Digest32,
) -> Option<Seq<char>> {
    if is_zero(secret@) {
        Some("corporate journal key is empty"@)
    } else if cluster_fault is Some {
        cluster_fault
    } else {
        match stored {
            Err(text) => Some(text),
            Ok(None) => None,
            Ok(Some(JournalBody::Context(kept))) => if kept != context {
                Some("corporate journal belongs to another deployment"@)
            } else {
                None
            },
            Ok(Some(_)) => Some(malformed_record()),
        }
    }
}

impl NativeCorporateJournal {
    pub closed spec fn wf(&self) -> bool {
        self.records.wf()
    }

    /// Open the journal of a deployment on its records. `config` and
    /// `cluster_bytes` are the encodings of the two configurations. A wrong
    /// deployment is an error, never a new empty wallet.
    pub fn load(
        secret: &Digest32,
        config: &[u8],
        cluster: &ClusterPublicConfig,
        cluster_bytes: &[u8],
        records: TextMap<JournalRecord>,
    ) -> (r: Result<NativeCorporateJournal, String>)
        requires
            records.wf(),
        ensures
            ({
                let context = sha256_value(context_bytes(config@, cluster_bytes@));
                let found = JournalView { context, records: records@, order: records.keys() };
                let cluster_fault = match cluster.fault {
                    Some(text) => Some(text@),
                    None => None,
                };
                let fault = open_fault(*secret, cluster_fault, found.get("context"@), context);
                &&& r is Ok == fault is None
                &&& r matches Ok(journal) ==> journal.wf() && journal@ == found.put_first(
                    "context"@,
                    JournalBody::Context(context),
                ).0
                &&& r matches Err(e) ==> Some(e@) == fault
            }),
    {
        if digest_is_zero(secret) {
            return Err("corporate journal key is empty".to_owned());
        }
        match &cluster.fault {
            Some(text) => return Err(text.clone()),
            None => {},
        }
        let mut body: Vec<u8> = Vec::new();
        push_text(&mut body, "OCLOB:NATIVE-JOURNAL-CONTEXT:v1");
        assert(body@ =~= text_bytes("OCLOB:NATIVE-JOURNAL-CONTEXT:v1"@));
        push_all(&mut body, config);
        push_all(&mut body, cluster_bytes);
        let context = sha256_digest(body.as_slice());
        let mut journal = NativeCorporateJournal { context, records };
        let ghost found = journal@;
        match journal.get("context") {
            Err(e) => return Err(e),
            Ok(Some(JournalBody::Context(kept))) => {
                if !digest_equal(kept, &context) {
                    return Err("corporate journal belongs to another deployment".to_owned());
                }
            },
            Ok(Some(_)) => return Err(malformed()),
            Ok(None) => {},
        }
        match journal.put_first("context".to_owned(), JournalBody::Context(context)) {
            Err(e) => Err(e),
            Ok(_) => Ok(journal),
        }
    }

    /// Close the journal and give its records, as they were read.
    pub fn into_records(self) -> (records: TextMap<JournalRecord>)
        requires
            self.wf(),
        ensures
            records.wf(),
            records@ == self@.records,
            records.keys() == self@.order,
    {
        self.records
    }

    /// The records, for writing them to disk.
    pub fn records(&self) -> (records: &TextMap<JournalRecord>)
        requires
            self.wf(),
        ensures
            records.wf(),
            records@ == self@.records,
            records.keys() == self@.order,
    {
        &self.records
    }

    pub fn context_digest(&self) -> (context: Digest32)
        ensures
            context == self@.context,
    {
        self.context
    }

    /// The body under a key.
    pub(crate) fn get(&self, key: &str) -> (r: Result<Option<&JournalBody>, String>)
        requires
            self.wf(),
        ensures
            looked(r) == self@.get(key@),
    {
        match self.records.get(key) {
            None => Ok(None),
            Some(record) => {
                if record.version != RECORD_VERSION || !digest_equal(
                    &record.context,
                    &self.context,
                ) {
                    return Err(
                        "corporate stage record has a legacy schema or belongs to another deployment; explicit migration is required".to_owned(),
                    );
                }
                Ok(Some(&record.body))
            },
        }
    }

    /// Keep a body under a key unless something stands there already.
    pub(crate) fn put_first(&mut self, key: String, body: JournalBody) -> (r: Result<(), String>)
        requires
            old(self).wf(),
        ensures
            final(self).wf(),
            final(self)@ == old(self)@.put_first(key@, body).0,
            r is Ok == old(self)@.put_first(key@, body).1 is Ok,
            r matches Err(e) ==> old(self)@.put_first(key@, body).1 == Err::<
                JournalBody,
                Seq<char>,
            >(e@),
            r is Ok ==> final(self)@.get(key@) == Ok::<Option<JournalBody>, Seq<char>>(
                Some(old(self)@.put_first(key@, body).1->Ok_0),
            ),
    {
        match self.get(key.as_str()) {
            Err(e) => return Err(e),
            Ok(Some(_)) => return Ok(()),
            Ok(None) => {},
        }
        let ghost text = key@;
        let record = JournalRecord { version: RECORD_VERSION, context: self.context, body };
        self.records.insert(key, record);
        assert(self@ =~= old(self)@.with_record(text, body));
        Ok(())
    }

    /// The record of a request at a stage.
    pub fn stage(&self, id: &str, stage: &str) -> (r: Result<Option<&JournalBody>, String>)
        requires
            self.wf(),
        ensures
            looked(r) == self@.stage(stage@, id@),
    {
        match record_id(stage, id) {
            Err(e) => Err(e),
            Ok(key) => self.get(key.as_str()),
        }
    }

    pub fn intent(&self, id: &str) -> (r: Result<Option<&StoredCorporateIntent>, String>)
        requires
            self.wf(),
        ensures
            looked(r) == self@.intent(id@),
    {
        match self.stage(id, "intent") {
            Err(e) => Err(e),
            Ok(None) => Ok(None),
            Ok(Some(JournalBody::Intent(value))) => Ok(Some(value)),
            Ok(Some(_)) => Err(malformed()),
        }
    }

    pub fn authorization(&self, id: &str) -> (r: Result<
        Option<&CorporateReserveAuthorization>,
        String,
    >)
        requires
            self.wf(),
        ensures
            looked(r) == self@.authorization(id@),
    {
        match self.stage(id, "authorization") {
            Err(e) => Err(e),
            Ok(None) => Ok(None),
            Ok(Some(JournalBody::Authorization(value))) => Ok(Some(value)),
            Ok(Some(_)) => Err(malformed()),
        }
    }

    fn end_record(&self, id: &str) -> (r: Result<Option<&EndedCorporateAuthorization>, String>)
        requires
            self.wf(),
        ensures
            looked(r) == self@.end_record(id@),
    {
        match self.stage(id, "authorization-end") {
            Err(e) => Err(e),
            Ok(None) => Ok(None),
            Ok(Some(JournalBody::AuthorizationEnd(value))) => Ok(Some(value)),
            Ok(Some(_)) => Err(malformed()),
        }
    }

    pub(crate) fn send_decision(&self, id: &str) -> (r: Result<Option<&ReserveSendDecision>, String>)
        requires
            self.wf(),
        ensures
            looked(r) == self@.send_decision(id@),
    {
        match self.stage(id, "reserve-send") {
            Err(e) => Err(e),
            Ok(None) => Ok(None),
            Ok(Some(JournalBody::SendDecision(value))) => Ok(Some(value)),
            Ok(Some(_)) => Err(malformed()),
        }
    }

    pub fn reserve(&self, id: &str) -> (r: Result<Option<&PreparedCorporateReserve>, String>)
        requires
            self.wf(),
        ensures
            looked(r) == self@.reserve(id@),
    {
        match self.stage(id, "reserve") {
            Err(e) => Err(e),
            Ok(None) => Ok(None),
            Ok(Some(JournalBody::Reserve(value))) => Ok(Some(value)),
            Ok(Some(_)) => Err(malformed()),
        }
    }

    pub fn delivery(&self, id: &str) -> (r: Result<Option<&StoredCorporateDelivery>, String>)
        requires
            self.wf(),
        ensures
            looked(r) == self@.delivery(id@),
    {
        match self.stage(id, "delivery") {
            Err(e) => Err(e),
            Ok(None) => Ok(None),
            Ok(Some(JournalBody::Delivery(value))) => Ok(Some(value)),
            Ok(Some(_)) => Err(malformed()),
        }
    }

    pub fn receipt(&self, id: &str) -> (r: Result<Option<&EdgeAdmissionReceipt>, String>)
        requires
            self.wf(),
        ensures
            looked(r) == self@.receipt(id@),
    {
        match self.stage(id, "receipt") {
            Err(e) => Err(e),
            Ok(None) => Ok(None),
            Ok(Some(JournalBody::Receipt(value))) => Ok(Some(value)),
            Ok(Some(_)) => Err(malformed()),
        }
    }

    pub fn cancellation(&self, id: &str) -> (r: Result<Option<&LifecycleCommand>, String>)
        requires
            self.wf(),
        ensures
            looked(r) == self@.cancellation(id@),
    {
        match self.stage(id, "cancel") {
            Err(e) => Err(e),
            Ok(None) => Ok(None),
            Ok(Some(JournalBody::Cancel(value))) => Ok(Some(value)),
            Ok(Some(_)) => Err(malformed()),
        }
    }

    pub fn expiry_release(&self, id: &str) -> (r: Result<Option<&NoteRelease>, String>)
        requires
            self.wf(),
        ensures
            looked(r) == self@.expiry_release(id@),
    {
        match self.stage(id, "expiry") {
            Err(e) => Err(e),
            Ok(None) => Ok(None),
            Ok(Some(JournalBody::ExpiryRelease(value))) => Ok(Some(value)),
            Ok(Some(_)) => Err(malformed()),
        }
    }

    fn resolved(&self, id: &str) -> (r: Result<Option<&NativeExpiryResolution>, String>)
        requires
            self.wf(),
        ensures
            looked(r) == self@.resolved(id@),
    {
        match self.stage(id, "resolved") {
            Err(e) => Err(e),
            Ok(None) => Ok(None),
            Ok(Some(JournalBody::Resolution(value))) => Ok(Some(value)),
            Ok(Some(_)) => Err(malformed()),
        }
    }

    fn resolution_record(&self, key: &str) -> (r: Result<Option<&NativeExpiryResolution>, String>)
        requires
            self.wf(),
        ensures
            looked(r) == self@.resolution_record(key@),
    {
        match self.get(key) {
            Err(e) => Err(e),
            Ok(None) => Ok(None),
            Ok(Some(JournalBody::Resolution(value))) => Ok(Some(value)),
            Ok(Some(_)) => Err(malformed()),
        }
    }

    fn funding_record(&self, key: &str) -> (r: Result<Option<&FacilityWitness>, String>)
        requires
            self.wf(),
        ensures
            looked(r) == self@.funding_record(key@),
    {
        match self.get(key) {
            Err(e) => Err(e),
            Ok(None) => Ok(None),
            Ok(Some(JournalBody::Funding(value))) => Ok(Some(value)),
            Ok(Some(_)) => Err(malformed()),
        }
    }

    /// Keep a request's intent. The first intent of a request stays; a retry
    /// has to carry the same instruction.
    pub fn save_intent(&mut self, id: &str, intent: StoredCorporateIntent) -> (r: Result<
        (),
        String,
    >)
        requires
            old(self).wf(),
        ensures
            final(self).wf(),
            (final(self)@, text_result(r)) == old(self)@.save_intent(id@, intent),
    {
        let key: String = match record_id("intent", id) {
            Err(e) => return Err(e),
            Ok(key) => key,
        };
        let digest = intent.input_digest;
        match self.put_first(key, JournalBody::Intent(intent)) {
            Err(e) => return Err(e),
            Ok(_) => {},
        }
        match self.stage(id, "intent") {
            Err(e) => Err(e),
            Ok(Some(JournalBody::Intent(kept))) => {
                if !digest_equal(&kept.input_digest, &digest) {
                    return Err(
                        "corporate request ID was reused for another order instruction".to_owned(),
                    );
                }
                Ok(())
            },
            Ok(_) => Err(malformed()),
        }
    }

    fn has(&self, stage: &str, id: &str) -> (found: bool)
        requires
            self.wf(),
        ensures
            found == self@.records.dom().contains(stage_key(stage@, id@)),
    {
        let key = key_of(stage, id);
        self.records.contains_key(key.as_str())
    }

    fn is_finished(&self, id: &str) -> (finished: bool)
        requires
            self.wf(),
        ensures
            finished == self@.finished(id@),
    {
        self.has("receipt", id) || self.has("resolved", id) || self.has("authorization-end", id)
    }

    /// Do not let a later request overtake an ambiguous earlier reservation or
    /// partial delivery. Expired entries are retained for explicit release.
    pub fn require_turn(&self, id: &str) -> (r: Result<(), String>)
        requires
            self.wf(),
        ensures
            r is Ok == self@.turn_fault(id@) is None,
            r matches Err(e) ==> Some(e@) == self@.turn_fault(id@),
    {
        let target: String = match record_id("intent", id) {
            Err(e) => return Err(e),
            Ok(key) => key,
        };
        if self.has("resolved", id) || self.has("authorization-end", id) {
            return Err("corporate request already ended without admission".to_owned());
        }
        if self.is_finished(id) {
            return Ok(());
        }
        let total: usize = self.records.len();
        let mut i: usize = 0;
        while i < total
            invariant
                self.wf(),
                total == self@.order.len(),
                total == self.records.count(),
                i <= total,
                target@ == stage_key("intent"@, id@),
                self@.oldest_open(i as int) == self@.oldest_open(0),
                self@.turn_fault(id@) == (match self@.oldest_open(0) {
                    Some(key) => if key != target@ {
                        Some("an earlier corporate request must be admitted or reconciled first"@)
                    } else {
                        None
                    },
                    None => None,
                }),
            decreases total - i,
        {
            let key = self.records.key_at(i);
            assert(key@ == self@.order[i as int]);
            let open: bool = match strip_prefix(key, "intent:") {
                Some(rest) => !self.is_finished(rest),
                None => false,
            };
            if open {
                if !text_equal(key, target.as_str()) {
                    return Err(
                        "an earlier corporate request must be admitted or reconciled first".to_owned(),
                    );
                }
                return Ok(());
            }
            i += 1;
        }
        Ok(())
    }

    fn send_binding(&self, id: &str, digest: &Digest32) -> (r: Result<Digest32, String>)
        requires
            self.wf(),
        ensures
            text_result(r) == self@.send_binding(id@, *digest),
    {
        match self.authorization(id) {
            Err(e) => Err(e),
            Ok(None) => Ok(*digest),
            Ok(Some(authorization)) => {
                let binding = authorization.digest();
                proof {
                    crate::bytes::lemma_digest_view(
                        binding,
                        sha256_value(authorization.digest_bytes()),
                    );
                }
                if digest_equal(digest, &binding) {
                    return Ok(binding);
                }
                match self.reserve(id) {
                    Err(e) => Err(e),
                    Ok(None) => Err("authorized send lost its prepared funding".to_owned()),
                    Ok(Some(prepared)) => {
                        let own = reserve_digest(prepared);
                        if !digest_equal(digest, &own) || !bytes_equal(
                            prepared.request.mandate.wire.as_slice(),
                            authorization.mandate.wire.as_slice(),
                        ) || !bytes_equal(
                            prepared.order_wire.as_slice(),
                            authorization.order_wire.as_slice(),
                        ) || !digest_equal(
                            &prepared.request.order_authorization_salt,
                            &authorization.order_authorization_salt,
                        ) || !digest_equal(
                            &prepared.request.reserve_reblinding,
                            &authorization.reserve_reblinding,
                        ) {
                            return Err(
                                "prepared send differs from the original signed authorization".to_owned(),
                            );
                        }
                        Ok(binding)
                    },
                }
            },
        }
    }

    fn choose_reserve_send(&mut self, id: &str, digest: &Digest32, may_send: bool) -> (r: Result<
        bool,
        String,
    >)
        requires
            old(self).wf(),
        ensures
            final(self).wf(),
            (final(self)@, text_result(r)) == old(self)@.choose_reserve_send(
                id@,
                *digest,
                may_send,
            ),
    {
        let intent_digest: Digest32 = match self.intent(id) {
            Err(e) => return Err(e),
            Ok(None) => return Err("reserve send has no durable intent".to_owned()),
            Ok(Some(intent)) => intent.input_digest,
        };
        let reserve_digest: Digest32 = match self.send_binding(id, digest) {
            Err(e) => return Err(e),
            Ok(binding) => binding,
        };
        let key: String = match record_id("reserve-send", id) {
            Err(e) => return Err(e),
            Ok(key) => key,
        };
        let decision = ReserveSendDecision { intent_digest, reserve_digest, may_send };
        match self.put_first(key, JournalBody::SendDecision(decision)) {
            Err(e) => return Err(e),
            Ok(_) => {},
        }
        match self.stage(id, "reserve-send") {
            Err(e) => Err(e),
            Ok(Some(JournalBody::SendDecision(kept))) => {
                if !digest_equal(&kept.intent_digest, &intent_digest) || !digest_equal(
                    &kept.reserve_digest,
                    &reserve_digest,
                ) {
                    return Err(
                        "reserve send decision differs from the original request".to_owned(),
                    );
                }
                Ok(kept.may_send)
            },
            Ok(_) => Err(malformed()),
        }
    }

    /// Mark a reserve as sent, unless its end unsent was decided first.
    pub fn mark_reserve_send_started(&mut self, id: &str, digest: &Digest32) -> (r: Result<
        (),
        String,
    >)
        requires
            old(self).wf(),
        ensures
            final(self).wf(),
            (final(self)@, text_result(r)) == old(self)@.mark_reserve_send_started(id@, *digest),
    {
        match self.choose_reserve_send(id, digest, true) {
            Err(e) => Err(e),
            Ok(true) => Ok(()),
            Ok(false) => Err("unsent expiry fence prevents this reserve send".to_owned()),
        }
    }

    /// Seal an expired request that was never sent. One first-write-wins record
    /// decides between sending and ending unsent, including when a separate
    /// corporate process races the worker.
    pub fn seal_never_dispatched(&mut self, id: &str, digest: &Digest32, at: u64) -> (r: Result<
        bool,
        String,
    >)
        requires
            old(self).wf(),
        ensures
            final(self).wf(),
            (final(self)@, text_result(r)) == old(self)@.seal_never_dispatched(id@, *digest, at),
    {
        match self.intent(id) {
            Err(e) => return Err(e),
            Ok(None) => return Err("unsent expiry has no intent".to_owned()),
            Ok(Some(intent)) => {
                if !intent.reserve_send_tracking || at <= intent.expires_at {
                    return Ok(false);
                }
            },
        }
        proof {
            reveal_with_fuel(JournalView::any_stage, 4);
        }
        match self.stage(id, "admission") {
            Err(e) => return Err(e),
            Ok(Some(_)) => return Ok(false),
            Ok(None) => {},
        }
        match self.stage(id, "delivery") {
            Err(e) => return Err(e),
            Ok(Some(_)) => return Ok(false),
            Ok(None) => {},
        }
        match self.stage(id, "receipt") {
            Err(e) => return Err(e),
            Ok(Some(_)) => return Ok(false),
            Ok(None) => {},
        }
        match self.choose_reserve_send(id, digest, false) {
            Err(e) => Err(e),
            Ok(may_send) => Ok(!may_send),
        }
    }

    pub fn ended_authorization(&self, id: &str) -> (r: Result<
        Option<&EndedCorporateAuthorization>,
        String,
    >)
        requires
            self.wf(),
        ensures
            looked(r) == self@.ended_authorization(id@),
    {
        let value: &EndedCorporateAuthorization = match self.end_record(id) {
            Err(e) => return Err(e),
            Ok(None) => return Ok(None),
            Ok(Some(value)) => value,
        };
        let authorization: &CorporateReserveAuthorization = match self.authorization(id) {
            Err(e) => return Err(e),
            Ok(None) => return Err("ended authorization lost its terms".to_owned()),
            Ok(Some(found)) => found,
        };
        let intent: &StoredCorporateIntent = match self.intent(id) {
            Err(e) => return Err(e),
            Ok(None) => return Err("ended authorization lost its intent".to_owned()),
            Ok(Some(found)) => found,
        };
        let decision: &ReserveSendDecision = match self.send_decision(id) {
            Err(e) => return Err(e),
            Ok(None) => return Err("ended authorization has no send fence".to_owned()),
            Ok(Some(found)) => found,
        };
        let digest = authorization.digest();
        let premature: bool = match value.reason {
            AuthorizationEndReason::Expired => value.ended_at <= intent.expires_at,
            AuthorizationEndReason::InsufficientFunding => false,
        };
        if !text_equal(value.request_id.as_str(), id) || !digest_equal(
            &value.authorization_digest,
            &digest,
        ) || !intent.reserve_send_tracking || decision.may_send || !digest_equal(
            &decision.intent_digest,
            &intent.input_digest,
        ) || !digest_equal(&decision.reserve_digest, &value.authorization_digest) || value.ended_at
            < intent.accepted_at || premature {
            return Err("ended authorization is inconsistent or could have been sent".to_owned());
        }
        Ok(Some(value))
    }

    /// End an authorization, only before any funding request exists. An
    /// immutable send fence also prevents a racing preparation from ever
    /// sending its late result.
    pub fn end_unprepared_authorization(
        &mut self,
        id: &str,
        at: u64,
        reason: AuthorizationEndReason,
    ) -> (r: Result<(), String>)
        requires
            old(self).wf(),
        ensures
            final(self).wf(),
            exists|record: EndedCorporateAuthorization|
                {
                    &&& record.request_id@ == id@
                    &&& record.ended_at == at
                    &&& record.reason == reason
                    &&& old(self)@.authorization(id@) matches Ok(Some(authorization))
                        ==> record.authorization_digest@ == sha256(authorization.digest_bytes())
                    &&& #[trigger] old(self)@.end_unprepared_authorization(
                        id@,
                        at,
                        reason,
                        record,
                    ) == (final(self)@, text_result(r))
                },
    {
        let mut record = EndedCorporateAuthorization {
            request_id: id.to_owned(),
            authorization_digest: [0u8;32],
            ended_at: at,
            reason,
        };
        let signed: Option<Digest32> = match self.authorization(id) {
            Ok(Some(authorization)) => {
                let digest = authorization.digest();
                proof {
                    crate::bytes::lemma_digest_view(
                        digest,
                        sha256_value(authorization.digest_bytes()),
                    );
                }
                record.authorization_digest = digest;
                Some(digest)
            },
            _ => None,
        };
        let ghost wanted = old(self)@.end_unprepared_authorization(id@, at, reason, record);
        match self.ended_authorization(id) {
            Err(e) => {
                assert(wanted == (self@, Err::<(), Seq<char>>(e@)));
                return Err(e);
            },
            Ok(Some(_)) => {
                assert(wanted == (self@, Ok::<(), Seq<char>>(())));
                return Ok(());
            },
            Ok(None) => {},
        }
        match self.intent(id) {
            Err(e) => {
                assert(wanted == (self@, Err::<(), Seq<char>>(e@)));
                return Err(e);
            },
            Ok(None) => {
                let text: String = "ending authorization has no intent".to_owned();
                assert(wanted == (self@, Err::<(), Seq<char>>(text@)));
                return Err(text);
            },
            Ok(Some(intent)) => {
                let premature: bool = match reason {
                    AuthorizationEndReason::Expired => at <= intent.expires_at,
                    AuthorizationEndReason::InsufficientFunding => false,
                };
                if !intent.reserve_send_tracking || at < intent.accepted_at || premature {
                    let text: String = "authorization cannot end before its permitted boundary".to_owned();
                    assert(wanted == (self@, Err::<(), Seq<char>>(text@)));
                    return Err(text);
                }
            },
        }
        match self.any_preparation(id) {
            Err(e) => {
                assert(wanted == (self@, Err::<(), Seq<char>>(e@)));
                return Err(e);
            },
            Ok(true) => {
                let text: String = "prepared or delivered authorization requires canonical reconciliation".to_owned();
                assert(wanted == (self@, Err::<(), Seq<char>>(text@)));
                return Err(text);
            },
            Ok(false) => {},
        }
        match self.authorization(id) {
            Err(e) => {
                assert(wanted == (self@, Err::<(), Seq<char>>(e@)));
                return Err(e);
            },
            Ok(None) => {
                let text: String = "ending authorization has no signed terms".to_owned();
                assert(wanted == (self@, Err::<(), Seq<char>>(text@)));
                return Err(text);
            },
            Ok(Some(_)) => {},
        }
        let digest: Digest32 = match signed {
            Some(digest) => digest,
            None => record.authorization_digest,
        };
        match self.choose_reserve_send(id, &digest, false) {
            Err(e) => {
                assert(wanted == (self@, Err::<(), Seq<char>>(e@)));
                return Err(e);
            },
            Ok(true) => {
                let text: String = "authorization has an ambiguous send".to_owned();
                assert(wanted == (self@, Err::<(), Seq<char>>(text@)));
                return Err(text);
            },
            Ok(false) => {},
        }
        let key: String = key_of("authorization-end", id);
        match self.put_first(key, JournalBody::AuthorizationEnd(record)) {
            Err(e) => {
                assert(wanted == (self@, Err::<(), Seq<char>>(e@)));
                return Err(e);
            },
            Ok(_) => {},
        }
        match self.ended_authorization(id) {
            Err(e) => {
                assert(wanted == (self@, Err::<(), Seq<char>>(e@)));
                Err(e)
            },
            Ok(None) => {
                let text: String = "authorization end was not durable".to_owned();
                assert(wanted == (self@, Err::<(), Seq<char>>(text@)));
                Err(text)
            },
            Ok(Some(_)) => {
                assert(wanted == (self@, Ok::<(), Seq<char>>(())));
                Ok(())
            },
        }
    }

    fn any_preparation(&self, id: &str) -> (r: Result<bool, String>)
        requires
            self.wf(),
        ensures
            text_result(r) == self@.any_stage(
                seq!["reserve"@, "admission"@, "delivery"@, "receipt"@],
                id@,
                0,
            ),
    {
        proof {
            reveal_with_fuel(JournalView::any_stage, 5);
        }
        match self.stage(id, "reserve") {
            Err(e) => return Err(e),
            Ok(Some(_)) => return Ok(true),
            Ok(None) => {},
        }
        match self.stage(id, "admission") {
            Err(e) => return Err(e),
            Ok(Some(_)) => return Ok(true),
            Ok(None) => {},
        }
        match self.stage(id, "delivery") {
            Err(e) => return Err(e),
            Ok(Some(_)) => return Ok(true),
            Ok(None) => {},
        }
        match self.stage(id, "receipt") {
            Err(e) => Err(e),
            Ok(Some(_)) => Ok(true),
            Ok(None) => Ok(false),
        }
    }
}

fn expiry_result_id(prepared: &PreparedCorporateReserve) -> (key: String)
    ensures
        key@ == expiry_result_key(prepared),
{
    let mut key: String = "expiry-result:".to_owned();
    let hold = hex_encode(&prepared.request.mandate.hold_id);
    append_text(&mut key, hold.as_str());
    key
}

fn funding_prefix_text(facility_id: &Digest32) -> (text: String)
    ensures
        text@ == funding_prefix(*facility_id),
{
    let mut text: String = "funding:".to_owned();
    let id = hex_encode(facility_id);
    append_text(&mut text, id.as_str());
    append_text(&mut text, ":");
    text
}

pub(crate) fn authorization_is_fitting(
    value: &CorporateReserveAuthorization,
    intent: &StoredCorporateIntent,
) -> (fits: bool)
    ensures
        fits == authorization_fits(value, intent),
{
    bytes_equal(value.order_wire.as_slice(), intent.order_wire.as_slice()) && bytes_equal(
        &value.signing_key,
        &intent.signing_key,
    ) && digest_equal(&value.eligibility_commitment, &intent.eligibility_commitment)
        && value.mandate.valid_from >= intent.accepted_at && value.mandate.valid_until
        == intent.expires_at
}

/// What an input's digest is the hash of: a domain and the encoded input.
pub open spec fn input_bytes(encoded: Seq<u8>) -> Seq<u8> {
    text_bytes("OCLOB:CORPORATE-INPUT:v1"@) + encoded
}

impl NativeCorporateJournal {
    /// The digest that names an instruction. `encoded` is its encoding.
    pub fn input_digest(encoded: &[u8]) -> (digest: Digest32)
        ensures
            digest@ == sha256(input_bytes(encoded@)),
    {
        let mut body: Vec<u8> = Vec::new();
        push_text(&mut body, "OCLOB:CORPORATE-INPUT:v1");
        assert(body@ =~= text_bytes("OCLOB:CORPORATE-INPUT:v1"@));
        push_all(&mut body, encoded);
        sha256_digest(body.as_slice())
    }

    /// Keep the signed terms of a request that has an intent, after they were
    /// checked against the deployment. `facts` are what is derived from them,
    /// `saved_facts` what is derived from terms that were saved before.
    pub fn save_authorization(
        &mut self,
        id: &str,
        value: CorporateReserveAuthorization,
        config: &CorporateNativeConfig,
        facts: &Result<AuthorizationFacts, String>,
        saved_facts: &Result<AuthorizationFacts, String>,
    ) -> (r: Result<(), String>)
        requires
            old(self).wf(),
        ensures
            final(self).wf(),
            (final(self)@, text_result(r)) == old(self)@.save_authorization(
                id@,
                value,
                config,
                *facts,
                *saved_facts,
            ),
    {
        match self.intent(id) {
            Err(e) => return Err(e),
            Ok(None) => {
                return Err("authorization has no durable corporate intent".to_owned());
            },
            Ok(Some(intent)) => {
                match value.validate(config, facts) {
                    Err(e) => return Err(e),
                    Ok(_) => {},
                }
                if !authorization_is_fitting(&value, intent) {
                    return Err("authorization differs from corporate intake".to_owned());
                }
            },
        }
        let existing: bool = match self.stage(id, "authorization") {
            Err(e) => return Err(e),
            Ok(None) => false,
            Ok(Some(_)) => true,
        };
        if !existing {
            let key: String = key_of("authorization", id);
            proof {
                self@.lemma_new_record_differs(
                    stage_key("authorization"@, id@),
                    JournalBody::Authorization(value),
                );
            }
            return self.put_first(key, JournalBody::Authorization(value));
        }
        match self.authorization(id) {
            Err(e) => Err(e),
            Ok(None) => Err(malformed()),
            Ok(Some(kept)) => {
                match kept.validate(config, saved_facts) {
                    Err(e) => return Err(e),
                    Ok(_) => {},
                }
                match self.intent(id) {
                    Err(e) => Err(e),
                    Ok(None) => Err(
                        "authorization has no durable corporate intent".to_owned(),
                    ),
                    Ok(Some(intent)) => {
                        if !authorization_is_fitting(kept, intent) {
                            return Err(
                                "saved authorization differs from corporate intake".to_owned(),
                            );
                        }
                        Ok(())
                    },
                }
            },
        }
    }

    fn verify_unsent_resolution(&self, value: &NativeExpiryResolution) -> (r: Result<(), String>)
        requires
            self.wf(),
        ensures
            r is Ok == self@.unsent_fault(value@) is None,
            r matches Err(e) ==> Some(e@) == self@.unsent_fault(value@),
    {
        if !value.outcome.never_reserved() {
            return Ok(());
        }
        let id = value.request_id.as_str();
        let intent: &StoredCorporateIntent = match self.intent(id) {
            Err(e) => return Err(e),
            Ok(None) => return Err("absence record lost its intent".to_owned()),
            Ok(Some(found)) => found,
        };
        let decision: &ReserveSendDecision = match self.send_decision(id) {
            Err(e) => return Err(e),
            Ok(None) => return Err("absence record has no atomic unsent fence".to_owned()),
            Ok(Some(found)) => found,
        };
        if !intent.reserve_send_tracking || decision.may_send || !digest_equal(
            &decision.intent_digest,
            &intent.input_digest,
        ) {
            return Err("absence record cannot exclude an ambiguous or legacy send".to_owned());
        }
        match self.send_binding(id, &value.reserve_digest) {
            Err(e) => Err(e),
            Ok(binding) => {
                if !digest_equal(&decision.reserve_digest, &binding) {
                    return Err(
                        "absence record cannot exclude an ambiguous or legacy send".to_owned(),
                    );
                }
                Ok(())
            },
        }
    }

    /// The canonical end that is saved for a reserve. `verified` is the outcome
    /// of the saved release's own check, where there is a release.
    pub fn expiry_resolution(
        &self,
        prepared: &PreparedCorporateReserve,
        verified: &Result<(), String>,
    ) -> (r: Result<Option<&NativeExpiryResolution>, String>)
        requires
            self.wf(),
        ensures
            looked(r) == self@.expiry_resolution(prepared, *verified),
    {
        let key = expiry_result_id(prepared);
        match self.resolution_record(key.as_str()) {
            Err(e) => Err(e),
            Ok(None) => Ok(None),
            Ok(Some(value)) => {
                match value.validate(prepared, verified) {
                    Err(e) => return Err(e),
                    Ok(_) => {},
                }
                match self.verify_unsent_resolution(value) {
                    Err(e) => return Err(e),
                    Ok(_) => {},
                }
                Ok(Some(value))
            },
        }
    }

    /// Whether the journal proves that a reserve was never sent.
    pub fn was_never_reserved(
        &self,
        prepared: &PreparedCorporateReserve,
        verified: &Result<(), String>,
    ) -> (r: Result<bool, String>)
        requires
            self.wf(),
        ensures
            text_result(r) == self@.was_never_reserved(prepared, *verified),
    {
        let total: usize = self.records.len();
        let digest = reserve_digest(prepared);
        proof {
            crate::bytes::lemma_digest_view(digest, sha256_value(prepared.request.wire@));
        }
        let mut i: usize = 0;
        while i < total
            invariant
                self.wf(),
                total == self@.order.len(),
                total == self.records.count(),
                i <= total,
                digest == sha256_value(prepared.request.wire@),
                self@.ended_unsent(prepared, i as int) == self@.ended_unsent(prepared, 0),
            decreases total - i,
        {
            let key = self.records.key_at(i);
            assert(key@ == self@.order[i as int]);
            match strip_prefix(key, "authorization-end:") {
                None => {},
                Some(id) => {
                    match self.ended_authorization(id) {
                        Err(e) => return Err(e),
                        Ok(None) => {},
                        Ok(Some(_)) => match self.authorization(id) {
                            Err(e) => return Err(e),
                            Ok(None) => {},
                            Ok(Some(authorization)) => {
                                if digest_equal(
                                    &authorization.mandate.hold_id,
                                    &prepared.request.mandate.hold_id,
                                ) {
                                    match self.send_binding(id, &digest) {
                                        Err(e) => return Err(e),
                                        Ok(_) => return Ok(true),
                                    }
                                }
                            },
                        },
                    }
                },
            }
            i += 1;
        }
        match self.expiry_resolution(prepared, verified) {
            Err(e) => Err(e),
            Ok(None) => Ok(false),
            Ok(Some(value)) => Ok(value.outcome.never_reserved()),
        }
    }

    /// Keep the terms of an expiry release. `verified` is the outcome of its
    /// own check, `saved_verified` that of terms that were saved before.
    pub fn save_expiry_release(
        &mut self,
        id: &str,
        release: NoteRelease,
        prepared: &PreparedCorporateReserve,
        verified: &Result<(), String>,
        saved_verified: &Result<(), String>,
    ) -> (r: Result<(), String>)
        requires
            old(self).wf(),
        ensures
            final(self).wf(),
            (final(self)@, text_result(r)) == old(self)@.save_expiry_release(
                id@,
                release,
                prepared,
                *verified,
                *saved_verified,
            ),
    {
        match validate_expiry_release(&release, prepared, verified) {
            Err(e) => return Err(e),
            Ok(_) => {},
        }
        let existing: bool = match self.stage(id, "expiry") {
            Err(e) => return Err(e),
            Ok(None) => false,
            Ok(Some(_)) => true,
        };
        if !existing {
            let key: String = key_of("expiry", id);
            proof {
                self@.lemma_new_record_differs(
                    stage_key("expiry"@, id@),
                    JournalBody::ExpiryRelease(release),
                );
            }
            return self.put_first(key, JournalBody::ExpiryRelease(release));
        }
        match self.expiry_release(id) {
            Err(e) => Err(e),
            Ok(None) => Err(malformed()),
            Ok(Some(kept)) => validate_expiry_release(kept, prepared, saved_verified),
        }
    }

    /// Save the canonical end of a reserve. The first end that was saved stays.
    pub fn save_expiry_resolution(
        &mut self,
        value: NativeExpiryResolution,
        prepared: &PreparedCorporateReserve,
        verified: &Result<(), String>,
    ) -> (r: Result<(), String>)
        requires
            old(self).wf(),
        ensures
            final(self).wf(),
            (final(self)@, text_result(r)) == old(self)@.save_expiry_resolution(
                value,
                prepared,
                *verified,
            ),
    {
        match value.validate(prepared, verified) {
            Err(e) => return Err(e),
            Ok(_) => {},
        }
        match self.verify_unsent_resolution(&value) {
            Err(e) => return Err(e),
            Ok(_) => {},
        }
        let copy = value.copy();
        let key = expiry_result_id(prepared);
        let lookup = expiry_result_id(prepared);
        match self.put_first(key, JournalBody::Resolution(value)) {
            Err(e) => return Err(e),
            Ok(_) => {},
        }
        match self.resolution_record(lookup.as_str()) {
            Err(e) => Err(e),
            Ok(None) => Err(malformed()),
            Ok(Some(kept)) => {
                match kept.validate(prepared, verified) {
                    Err(e) => return Err(e),
                    Ok(_) => {},
                }
                if !kept.same(&copy) {
                    return Err(
                        "expiry result conflicts with earlier canonical evidence".to_owned(),
                    );
                }
                Ok(())
            },
        }
    }

    /// Finish an expired request with its saved canonical end.
    pub fn complete_expiry(
        &mut self,
        value: NativeExpiryResolution,
        prepared: &PreparedCorporateReserve,
        verified: &Result<(), String>,
    ) -> (r: Result<(), String>)
        requires
            old(self).wf(),
        ensures
            final(self).wf(),
            (final(self)@, text_result(r)) == old(self)@.complete_expiry(
                value,
                prepared,
                *verified,
            ),
    {
        match value.validate(prepared, verified) {
            Err(e) => return Err(e),
            Ok(_) => {},
        }
        let saved_same: bool = match self.expiry_resolution(prepared, verified) {
            Err(e) => return Err(e),
            Ok(None) => false,
            Ok(Some(kept)) => kept.same(&value),
        };
        if !saved_same {
            return Err("expiry completion has no durable canonical evidence".to_owned());
        }
        let copy = value.copy();
        let key: String = match record_id("resolved", value.request_id.as_str()) {
            Err(e) => return Err(e),
            Ok(key) => key,
        };
        match self.put_first(key, JournalBody::Resolution(value)) {
            Err(e) => return Err(e),
            Ok(_) => {},
        }
        match self.resolved(copy.request_id.as_str()) {
            Err(e) => Err(e),
            Ok(None) => Err(malformed()),
            Ok(Some(kept)) => {
                if !kept.same(&copy) {
                    return Err("expiry completion conflicts with saved outcome".to_owned());
                }
                Ok(())
            },
        }
    }

    /// The canonical end with which a request was finished.
    pub fn completed_expiry(&self, id: &str, verified: &Result<(), String>) -> (r: Result<
        Option<&NativeExpiryResolution>,
        String,
    >)
        requires
            self.wf(),
        ensures
            looked(r) == self@.completed_expiry(id@, *verified),
    {
        let value: &NativeExpiryResolution = match self.resolved(id) {
            Err(e) => return Err(e),
            Ok(None) => return Ok(None),
            Ok(Some(value)) => value,
        };
        let prepared: &PreparedCorporateReserve = match self.reserve(id) {
            Err(e) => return Err(e),
            Ok(None) => return Err("completed expiry lost its reserve".to_owned()),
            Ok(Some(found)) => found,
        };
        match value.validate(prepared, verified) {
            Err(e) => return Err(e),
            Ok(_) => {},
        }
        if !text_equal(value.request_id.as_str(), id) {
            return Err("completed expiry differs from saved canonical evidence".to_owned());
        }
        match self.expiry_resolution(prepared, verified) {
            Err(e) => Err(e),
            Ok(None) => Err("completed expiry differs from saved canonical evidence".to_owned()),
            Ok(Some(kept)) => {
                if !kept.same(value) {
                    return Err("completed expiry differs from saved canonical evidence".to_owned());
                }
                Ok(Some(value))
            },
        }
    }

    /// Keep a cancellation of an admitted order. `signer` is the public key of
    /// the intent's signing key; `verified` is the outcome of the command's own
    /// check, `saved_verified` that of a command that was saved before.
    pub fn save_cancellation(
        &mut self,
        id: &str,
        command: LifecycleCommand,
        signer: &Digest32,
        verified: &Result<(), String>,
        saved_verified: &Result<(), String>,
    ) -> (r: Result<(), String>)
        requires
            old(self).wf(),
        ensures
            final(self).wf(),
            (final(self)@, text_result(r)) == old(self)@.save_cancellation(
                id@,
                command,
                *signer,
                *verified,
                *saved_verified,
            ),
    {
        match self.intent(id) {
            Err(e) => return Err(e),
            Ok(None) => return Err("cancel has no saved corporate intent".to_owned()),
            Ok(Some(_)) => {},
        }
        let belongs: bool = {
            let receipt: &EdgeAdmissionReceipt = match self.receipt(id) {
                Err(e) => return Err(e),
                Ok(None) => return Err("cancel has no admitted order".to_owned()),
                Ok(Some(found)) => found,
            };
            let delivery: &StoredCorporateDelivery = match self.delivery(id) {
                Err(e) => return Err(e),
                Ok(None) => return Err("cancel has no saved delivery".to_owned()),
                Ok(Some(found)) => found,
            };
            let cancelled: bool = match command.reason {
                ReleaseReason::Cancelled => true,
                ReleaseReason::Expired => false,
            };
            delivery.delivery.manifest.same(&receipt.manifest) && digest_equal(
                signer,
                &receipt.manifest.signer,
            ) && cancelled
        };
        if !belongs {
            return Err(
                "cancel does not belong to the originally admitted corporate order".to_owned(),
            );
        }
        match verified {
            Err(text) => return Err(text.clone()),
            Ok(_) => {},
        }
        let existing: bool = match self.stage(id, "cancel") {
            Err(e) => return Err(e),
            Ok(None) => false,
            Ok(Some(_)) => true,
        };
        if !existing {
            let key: String = key_of("cancel", id);
            proof {
                self@.lemma_new_record_differs(
                    stage_key("cancel"@, id@),
                    JournalBody::Cancel(command),
                );
            }
            return self.put_first(key, JournalBody::Cancel(command));
        }
        match self.cancellation(id) {
            Err(e) => Err(e),
            Ok(None) => Err(malformed()),
            Ok(Some(_)) => match saved_verified {
                Err(text) => Err(text.clone()),
                Ok(_) => Ok(()),
            },
        }
    }

    /// Keep one stage of a submission. The first record of a stage stays and is
    /// what the journal then gives.
    pub fn save_stage(&mut self, id: &str, stage: &str, body: JournalBody) -> (r: Result<(), String>)
        requires
            old(self).wf(),
        ensures
            final(self).wf(),
            final(self)@ == old(self)@.save_stage(id@, stage@, body).0,
            match old(self)@.save_stage(id@, stage@, body).1 {
                Ok(kept) => r is Ok && final(self)@.stage(stage@, id@) == Ok::<
                    Option<JournalBody>,
                    Seq<char>,
                >(Some(kept)),
                Err(text) => r matches Err(e) && e@ == text,
            },
    {
        if !(text_equal(stage, "reserve") || text_equal(stage, "admission") || text_equal(
            stage,
            "delivery",
        ) || text_equal(stage, "market-input") || text_equal(stage, "market")) {
            return Err("unknown corporate submission stage".to_owned());
        }
        match record_id(stage, id) {
            Err(e) => Err(e),
            Ok(key) => self.put_first(key, body),
        }
    }

    /// Check a stored receipt against the ciphertexts that were sent.
    pub fn verify_receipt(
        receipt: &EdgeAdmissionReceipt,
        delivery: &StoredCorporateDelivery,
        cluster: &ClusterPublicConfig,
        facts: &ReceiptFacts,
    ) -> (r: Result<(), String>)
        requires
            facts.complete(),
        ensures
            ({
                let refusal = receipt_refusal(receipt, &delivery.delivery, cluster, facts);
                &&& r is Ok == refusal is None
                &&& r matches Err(e) ==> Some(e@) == refusal
            }),
    {
        match delivery.delivery.validate(cluster, facts.delivery_manifest) {
            Err(e) => return Err(e.message()),
            Ok(_) => {},
        }
        match receipt.verify(cluster, facts.receipt_manifest, &facts.receipts_valid) {
            Err(e) => return Err(e.message()),
            Ok(_) => {},
        }
        if !receipt.manifest.same(&delivery.delivery.manifest) {
            return Err("stored receipt belongs to another encrypted delivery".to_owned());
        }
        let mut i: usize = 0;
        while i < delivery.delivery.deliveries.len()
            invariant
                i <= delivery.delivery.deliveries@.len(),
                forall|j: int|
                    0 <= j < i ==> {
                        let sent = #[trigger] delivery.delivery.deliveries@[j];
                        &&& sent.party < crate::types::MPC_PARTIES
                        &&& receipt.order_share_digests@[sent.party as int] == sent.share_digest
                        &&& receipt.capability_key_share_digests@[sent.party as int]
                            == sent.key_digest
                    },
                receipt_refusal(receipt, &delivery.delivery, cluster, facts) == (if acknowledges(
                    receipt,
                    &delivery.delivery,
                ) {
                    None::<Seq<char>>
                } else {
                    Some("stored receipt does not acknowledge the persisted ciphertexts"@)
                }),
            decreases delivery.delivery.deliveries@.len() - i,
        {
            let sent = &delivery.delivery.deliveries[i];
            let party: usize = sent.party as usize;
            if party >= crate::types::MPC_PARTIES || !digest_equal(
                &receipt.order_share_digests[party],
                &sent.share_digest,
            ) || !digest_equal(&receipt.capability_key_share_digests[party], &sent.key_digest) {
                assert(delivery.delivery.deliveries@[i as int] == sent);
                assert(!acknowledges(receipt, &delivery.delivery));
                return Err(
                    "stored receipt does not acknowledge the persisted ciphertexts".to_owned(),
                );
            }
            assert(delivery.delivery.deliveries@[i as int] == sent);
            i += 1;
        }
        Ok(())
    }

    /// Keep the receipt of an admitted order, after it was checked against the
    /// delivery. `facts` are what is known of it, `saved_facts` what is known of
    /// a receipt that was saved before.
    pub fn save_receipt(
        &mut self,
        id: &str,
        receipt: EdgeAdmissionReceipt,
        delivery: &StoredCorporateDelivery,
        cluster: &ClusterPublicConfig,
        facts: &ReceiptFacts,
        saved_facts: &ReceiptFacts,
    ) -> (r: Result<(), String>)
        requires
            old(self).wf(),
            facts.complete(),
            saved_facts.complete(),
        ensures
            final(self).wf(),
            (final(self)@, text_result(r)) == old(self)@.save_receipt(
                id@,
                receipt,
                &delivery.delivery,
                cluster,
                facts,
                saved_facts,
            ),
    {
        match NativeCorporateJournal::verify_receipt(&receipt, delivery, cluster, facts) {
            Err(e) => return Err(e),
            Ok(_) => {},
        }
        let existing: bool = match self.stage(id, "receipt") {
            Err(e) => return Err(e),
            Ok(None) => false,
            Ok(Some(_)) => true,
        };
        if !existing {
            let key: String = key_of("receipt", id);
            proof {
                self@.lemma_new_record_differs(
                    stage_key("receipt"@, id@),
                    JournalBody::Receipt(receipt),
                );
            }
            return self.put_first(key, JournalBody::Receipt(receipt));
        }
        match self.receipt(id) {
            Err(e) => Err(e),
            Ok(None) => Err(malformed()),
            Ok(Some(kept)) => NativeCorporateJournal::verify_receipt(
                kept,
                delivery,
                cluster,
                saved_facts,
            ),
        }
    }

    /// Keep the witness of the generation that a reserve leads to.
    pub fn save_reserved_witness(
        &mut self,
        prepared: &PreparedCorporateReserve,
        committed: &[Digest32; 3],
        saved_committed: &[Digest32; 3],
    ) -> (r: Result<(), String>)
        requires
            old(self).wf(),
        ensures
            final(self).wf(),
            (final(self)@, text_result(r)) == old(self)@.save_funding_witness(
                prepared.facility_after,
                *committed,
                *saved_committed,
            ),
    {
        self.save_funding_witness(prepared.facility_after, committed, saved_committed)
    }

    /// Keep the witness of one funding generation. `committed` are the
    /// commitments to its values, `saved_committed` those to the values of a
    /// witness that was saved before.
    pub fn save_funding_witness(
        &mut self,
        witness: FacilityWitness,
        committed: &[Digest32; 3],
        saved_committed: &[Digest32; 3],
    ) -> (r: Result<(), String>)
        requires
            old(self).wf(),
        ensures
            final(self).wf(),
            (final(self)@, text_result(r)) == old(self)@.save_funding_witness(
                witness,
                *committed,
                *saved_committed,
            ),
    {
        match witness.commitments(committed) {
            Err(e) => return Err(e),
            Ok(_) => {},
        }
        let mut key: String = funding_prefix_text(&witness.facility_id);
        append_decimal(&mut key, witness.sequence);
        let existing: bool = match self.get(key.as_str()) {
            Err(e) => return Err(e),
            Ok(None) => false,
            Ok(Some(_)) => true,
        };
        if !existing {
            proof {
                self@.lemma_new_record_differs(key@, JournalBody::Funding(witness));
            }
            return self.put_first(key, JournalBody::Funding(witness));
        }
        match self.funding_record(key.as_str()) {
            Err(e) => Err(e),
            Ok(None) => Err(malformed()),
            Ok(Some(kept)) => {
                if !digest_equal(&kept.facility_id, &witness.facility_id) || kept.sequence
                    != witness.sequence {
                    return Err(
                        "two different corporate funding witnesses name the same canonical generation".to_owned(),
                    );
                }
                match kept.commitments(saved_committed) {
                    Err(e) => return Err(e),
                    Ok(_) => {},
                }
                if !three_digests_equal(saved_committed, committed) {
                    return Err(
                        "two different corporate funding witnesses name the same canonical generation".to_owned(),
                    );
                }
                Ok(())
            },
        }
    }

    /// The configuration that the next reservation starts from: the values and
    /// blindings of the newest funding witness, where there is one.
    pub fn latest_funding(&self, config: CorporateNativeConfig) -> (r: Result<
        CorporateNativeConfig,
        String,
    >)
        requires
            self.wf(),
        ensures
            match self@.latest_funding(config.facility_id) {
                Err(text) => r matches Err(e) && e@ == text,
                Ok(witness) => r == Ok::<CorporateNativeConfig, String>(funded(config, witness)),
            },
    {
        let mut next = config;
        match self.newest_witness(&next.facility_id) {
            Err(e) => return Err(e),
            Ok(None) => {},
            Ok(Some(witness)) => {
                next.facility_values = witness.values;
                next.facility_blindings = witness.blindings;
            },
        }
        Ok(next)
    }

    /// The newest funding witness of a facility.
    pub fn newest_witness(&self, facility_id: &Digest32) -> (r: Result<
        Option<&FacilityWitness>,
        String,
    >)
        requires
            self.wf(),
        ensures
            looked(r) == self@.latest_funding(*facility_id),
    {
        let prefix = funding_prefix_text(facility_id);
        let total: usize = self.records.len();
        let mut best: Option<(u64, &str)> = None;
        let mut i: usize = 0;
        while i < total
            invariant
                self.wf(),
                total == self@.order.len(),
                total == self.records.count(),
                i <= total,
                prefix@ == funding_prefix(*facility_id),
                match self@.newest_funding(*facility_id, i as nat) {
                    Some(found) => best matches Some(held) && held.0 == found.0 && held.1@
                        == found.1,
                    None => best is None,
                },
            decreases total - i,
        {
            let key = self.records.key_at(i);
            assert(key@ == self@.order[i as int]);
            match strip_prefix(key, prefix.as_str()) {
                None => {},
                Some(rest) => match parse_u64(rest) {
                    None => {},
                    Some(sequence) => {
                        let newer: bool = match best {
                            Some(held) => sequence >= held.0,
                            None => true,
                        };
                        if newer {
                            best = Some((sequence, key));
                        }
                    },
                },
            }
            i += 1;
        }
        match best {
            None => Ok(None),
            Some((sequence, key)) => match self.funding_record(key) {
                Err(e) => Err(e),
                Ok(None) => Err("funding witness disappeared".to_owned()),
                Ok(Some(witness)) => {
                    if !digest_equal(&witness.facility_id, facility_id) || witness.sequence
                        != sequence {
                        return Err("corporate funding witness index is inconsistent".to_owned());
                    }
                    let any: [Digest32; 3] = [[0u8;32];3];
                    match witness.commitments(&any) {
                        Err(e) => return Err(e),
                        Ok(_) => {},
                    }
                    Ok(Some(witness))
                },
            },
        }
    }

    /// The request that owns an admitted reservation. Claim keys may be issued
    /// only after the exact reserve and its market admission receipt are
    /// durable.
    pub fn admitted_reservation(&self, reservation_id: &Digest32) -> (r: Result<String, String>)
        requires
            self.wf(),
        ensures
            match self@.admitted_reservation(*reservation_id) {
                Ok(id) => r matches Ok(found) && found@ == id,
                Err(text) => r matches Err(e) && e@ == text,
            },
    {
        let total: usize = self.records.len();
        let mut found: Option<&str> = None;
        let mut i: usize = 0;
        while i < total
            invariant
                self.wf(),
                total == self@.order.len(),
                total == self.records.count(),
                i <= total,
                match self@.reservation_owner(*reservation_id, i as nat) {
                    Err(_) => false,
                    Ok(None) => found is None,
                    Ok(Some(id)) => found matches Some(text) && text@ == id,
                },
            decreases total - i,
        {
            let key = self.records.key_at(i);
            assert(key@ == self@.order[i as int]);
            match strip_prefix(key, "reserve:") {
                None => {},
                Some(id) => {
                    let owned: bool = match self.get(key) {
                        Err(e) => {
                            proof {
                                self@.lemma_owner_fault_stays(
                                    *reservation_id,
                                    (i + 1) as nat,
                                    total as nat,
                                );
                            }
                            return Err(e);
                        },
                        Ok(Some(JournalBody::Reserve(prepared))) => digest_equal(
                            &prepared.request.mandate.hold_id,
                            reservation_id,
                        ),
                        Ok(None) => {
                            proof {
                                self@.lemma_owner_fault_stays(
                                    *reservation_id,
                                    (i + 1) as nat,
                                    total as nat,
                                );
                            }
                            return Err("saved reserve disappeared".to_owned());
                        },
                        Ok(Some(_)) => {
                            proof {
                                self@.lemma_owner_fault_stays(
                                    *reservation_id,
                                    (i + 1) as nat,
                                    total as nat,
                                );
                            }
                            return Err(malformed());
                        },
                    };
                    if owned {
                        match self.check_ownership(id, found.is_some()) {
                            Err(e) => {
                                proof {
                                    self@.lemma_owner_fault_stays(
                                        *reservation_id,
                                        (i + 1) as nat,
                                        total as nat,
                                    );
                                }
                                return Err(e);
                            },
                            Ok(_) => {
                                found = Some(id);
                            },
                        }
                    }
                },
            }
            i += 1;
        }
        match found {
            None => Err("claim authorization reservation is not owned by this journal".to_owned()),
            Some(id) => Ok(id.to_owned()),
        }
    }

    fn check_ownership(&self, id: &str, already: bool) -> (r: Result<(), String>)
        requires
            self.wf(),
        ensures
            r is Ok == self@.ownership_fault(id@, already) is None,
            r matches Err(e) ==> Some(e@) == self@.ownership_fault(id@, already),
    {
        if already {
            return Err("corporate journal contains duplicate reservation ownership".to_owned());
        }
        match self.stage(id, "admission") {
            Err(e) => return Err(e),
            Ok(None) => {
                return Err("claim authorization reservation has no durable permit".to_owned());
            },
            Ok(Some(JournalBody::Admission(_))) => {},
            Ok(Some(_)) => return Err(malformed()),
        }
        match self.receipt(id) {
            Err(e) => Err(e),
            Ok(None) => Err(
                "claim authorization reservation was not admitted to the market".to_owned(),
            ),
            Ok(Some(_)) => Ok(()),
        }
    }

    /// The requests with an admission receipt, for resuming delivery of public
    /// signed admissions. No order bodies or participant keys leave here.
    pub fn admitted_request_ids(&self) -> (ids: Vec<String>)
        requires
            self.wf(),
        ensures
            crate::store::texts(ids@) == self@.admitted_requests(self@.order.len()),
    {
        let total: usize = self.records.len();
        let mut ids: Vec<String> = Vec::new();
        let mut i: usize = 0;
        assert(crate::store::texts(ids@) =~= self@.admitted_requests(0));
        while i < total
            invariant
                self.wf(),
                total == self@.order.len(),
                total == self.records.count(),
                i <= total,
                crate::store::texts(ids@) == self@.admitted_requests(i as nat),
            decreases total - i,
        {
            let key = self.records.key_at(i);
            assert(key@ == self@.order[i as int]);
            match strip_prefix(key, "receipt:") {
                None => {},
                Some(id) => {
                    let ghost before = ids@;
                    ids.push(id.to_owned());
                    assert(crate::store::texts(ids@) =~= crate::store::texts(before).push(id@));
                },
            }
            i += 1;
        }
        ids
    }
}

} // verus!
