//! One-time claim signers that a participant retains until the ledger's claims
//! name them.

use crate::bytes::{
    big_endian, bytes_equal, digest_equal, digest_is_zero, hex_encode, hex_text, is_zero,
    lemma_hex_text_injective, push_all, push_text, push_u64, sha256, sha256_digest, text_bytes,
    Digest32,
};
use crate::corporate_journal::{looked, NativeCorporateJournal};
use crate::corporate_journal_model::{
    malformed_record, CanonicalClaim, ClaimKeyRecord, ClaimReply, ClaimTerm, JournalBody,
    JournalView, Looked, StoredClaimAuthorizations, MAX_RESPONSE_WIRE,
};
use crate::text::{append_text, strip_prefix, text_after};
use vstd::prelude::*;

verus! {

/// What the name of a fill's claim signers is the hash of.
pub open spec fn claim_record_bytes(reservation_id: Digest32, sequence: u64) -> Seq<u8> {
    text_bytes("OCLOB:CLAIM-AUTHORIZATION-RECORD:v1"@) + reservation_id@ + big_endian(
        sequence as nat,
        8,
    )
}

/// The key of a fill's claim signers.
pub open spec fn claim_record_key(reservation_id: Digest32, sequence: u64) -> Seq<char> {
    "claim-authorization:"@ + hex_text(sha256(claim_record_bytes(reservation_id, sequence)))
}

pub fn claim_authorization_record_id(reservation_id: &Digest32, sequence: u64) -> (key: String)
    ensures
        key@ == claim_record_key(*reservation_id, sequence),
{
    let mut body: Vec<u8> = Vec::new();
    push_text(&mut body, "OCLOB:CLAIM-AUTHORIZATION-RECORD:v1");
    assert(body@ =~= text_bytes("OCLOB:CLAIM-AUTHORIZATION-RECORD:v1"@));
    push_all(&mut body, reservation_id);
    push_u64(&mut body, sequence);
    let digest = sha256_digest(body.as_slice());
    let mut key: String = "claim-authorization:".to_owned();
    let text = hex_encode(&digest);
    append_text(&mut key, text.as_str());
    key
}

/// New signers need a window: they cannot start at the last timestamp.
pub fn check_claim_start(now: u64) -> (r: Result<(), String>)
    ensures
        r is Ok == (now != u64::MAX),
        r matches Err(e) ==> e@
            == "claim authorization cannot start at the maximum timestamp"@,
{
    if now == u64::MAX {
        return Err("claim authorization cannot start at the maximum timestamp".to_owned());
    }
    Ok(())
}

impl ClaimKeyRecord {
    /// Check that the retained key still gives its public commitment.
    pub fn restore(&self) -> (r: Result<(), String>)
        ensures
            r is Ok == self.restore_fault() is None,
            r matches Err(e) ==> Some(e@) == self.restore_fault(),
    {
        match &self.derived {
            Err(text) => Err(text.clone()),
            Ok(commitment) => {
                if !bytes_equal(commitment.as_slice(), self.authorization.as_slice()) {
                    return Err(
                        "stored claim authorization key differs from its public commitment".to_owned(),
                    );
                }
                Ok(())
            },
        }
    }
}

impl ClaimTerm {
    fn is_claim_of(&self, key: &ClaimKeyRecord) -> (same: bool)
        ensures
            same == self.names(key),
    {
        self.leg == key.leg && digest_equal(&self.recipient_commitment, &key.recipient_commitment)
            && bytes_equal(self.authorization.as_slice(), key.authorization.as_slice())
    }
}

/// The outcome of completing a draft: the record of it, or why its response does
/// not stand.
pub open spec fn generated(
    r: Result<StoredClaimAuthorizations, String>,
    issue_version: u16,
    draft: ClaimDraft,
    now: u64,
    response_wire: Seq<u8>,
    reply: Result<ClaimReply, String>,
    fits: Result<(), String>,
) -> bool {
    match r {
        Ok(record) => draft.fault(now) is None && record.drafted(
            issue_version,
            &draft,
            now,
            response_wire,
            reply,
        ) && record.answer_fault(
            issue_version,
            draft.order_signer,
            draft.issue_view,
            draft.sequence,
            fits,
        ) is None,
        Err(e) => if draft.fault(now) is Some {
            Some(e@) == draft.fault(now)
        } else {
            forall|record: StoredClaimAuthorizations|
                record.drafted(issue_version, &draft, now, response_wire, reply)
                    ==> #[trigger] record.answer_fault(
                    issue_version,
                    draft.order_signer,
                    draft.issue_view,
                    draft.sequence,
                    fits,
                ) == Some(e@)
        },
    }
}

/// What a request for claim signers shows this participant, and the key that
/// signed the order behind it.
#[derive(Clone, Copy, Debug, PartialEq, Eq)]
pub struct ClaimRequest {
    pub view: Digest32,
    pub reservation_id: Digest32,
    pub sequence: u64,
    pub signer: Digest32,
}

/// The signers that were drawn for a request, and the response that was signed
/// over them. `shape` and `unsigned_fits` are the outcomes of the unsigned
/// response's checks, `signed_fits` that of the signed one's; `reply` is what the
/// response reads as.
pub struct ClaimDraw {
    pub first: ClaimKeyRecord,
    pub second: ClaimKeyRecord,
    pub shape: Result<(), String>,
    pub unsigned_fits: Result<(), String>,
    pub response_wire: Vec<u8>,
    pub reply: Result<ClaimReply, String>,
    pub signed_fits: Result<(), String>,
}

impl ClaimRequest {
    /// The draft that answers the request.
    pub open spec fn draft(self, draw: ClaimDraw) -> ClaimDraft {
        ClaimDraft {
            issue_view: self.view,
            reservation_id: self.reservation_id,
            sequence: self.sequence,
            order_signer: self.signer,
            first: draw.first,
            second: draw.second,
            shape: draw.shape,
            fits: draw.unsigned_fits,
        }
    }

    /// Whether a record is what the drawn signers make for the request, or an
    /// error why they make none.
    pub open spec fn draws(
        self,
        proposed: Result<StoredClaimAuthorizations, String>,
        issue_version: u16,
        draw: ClaimDraw,
        now: u64,
    ) -> bool {
        generated(
            proposed,
            issue_version,
            self.draft(draw),
            now,
            draw.response_wire@,
            draw.reply,
            draw.signed_fits,
        )
    }
}

impl StoredClaimAuthorizations {
    /// The record that a draft and its signed response make. It is valid from
    /// `now` on and without end. `reply` is what the response reads as.
    pub open spec fn drafted(
        &self,
        issue_version: u16,
        draft: &ClaimDraft,
        now: u64,
        response_wire: Seq<u8>,
        reply: Result<ClaimReply, String>,
    ) -> bool {
        &&& self.version == issue_version
        &&& self.issue_view == draft.issue_view
        &&& self.reservation_id == draft.reservation_id
        &&& self.sequence == draft.sequence
        &&& self.not_before == now
        &&& self.not_after == u64::MAX
        &&& self.order_signer == draft.order_signer
        &&& self.response_wire@ == response_wire
        &&& self.first == draft.first
        &&& self.second == draft.second
        &&& self.shape == draft.shape
        &&& self.reply == reply
    }

    /// Complete a draft with its signed response. `fits` is the outcome of
    /// checking the signed response against the request.
    pub fn generate(
        issue_version: u16,
        draft: ClaimDraft,
        now: u64,
        response_wire: Vec<u8>,
        reply: Result<ClaimReply, String>,
        fits: &Result<(), String>,
    ) -> (r: Result<StoredClaimAuthorizations, String>)
        ensures
            generated(r, issue_version, draft, now, response_wire@, reply, *fits),
    {
        match draft.check(now) {
            Err(e) => return Err(e),
            Ok(_) => {},
        }
        let signer = draft.order_signer;
        let view = draft.issue_view;
        let sequence: u64 = draft.sequence;
        let record = StoredClaimAuthorizations {
            version: issue_version,
            issue_view: draft.issue_view,
            reservation_id: draft.reservation_id,
            sequence,
            not_before: now,
            not_after: u64::MAX,
            order_signer: draft.order_signer,
            response_wire,
            first: draft.first,
            second: draft.second,
            shape: draft.shape,
            reply,
        };
        match record.public(issue_version, &signer, &view, sequence, fits) {
            Err(e) => Err(e),
            Ok(_) => Ok(record),
        }
    }

    /// Check the retained signers. `issue_version` is the version of the claim
    /// protocol.
    pub fn retained_unsigned(&self, issue_version: u16) -> (r: Result<(), String>)
        ensures
            r is Ok == self.retained_fault(issue_version) is None,
            r matches Err(e) ==> Some(e@) == self.retained_fault(issue_version),
    {
        if self.version != issue_version || digest_is_zero(&self.issue_view) || digest_is_zero(
            &self.reservation_id,
        ) || self.sequence == u64::MAX || self.not_before >= self.not_after || digest_is_zero(
            &self.order_signer,
        ) || self.first.leg == self.second.leg {
            return Err("stored claim authorization context is inconsistent".to_owned());
        }
        match self.first.restore() {
            Err(e) => return Err(e),
            Ok(_) => {},
        }
        match self.second.restore() {
            Err(e) => return Err(e),
            Ok(_) => {},
        }
        match &self.shape {
            Err(text) => Err(text.clone()),
            Ok(_) => Ok(()),
        }
    }

    /// Check the retained response and the signers behind it.
    pub fn retained_public(&self, issue_version: u16) -> (r: Result<(), String>)
        ensures
            r is Ok == self.public_fault(issue_version) is None,
            r matches Err(e) ==> Some(e@) == self.public_fault(issue_version),
    {
        if self.response_wire.len() == 0 || self.response_wire.len() > MAX_RESPONSE_WIRE {
            return Err("stored claim authorization response wire is invalid".to_owned());
        }
        let reply: &ClaimReply = match &self.reply {
            Err(text) => return Err(text.clone()),
            Ok(reply) => reply,
        };
        if !bytes_equal(reply.reencoded.as_slice(), self.response_wire.as_slice()) {
            return Err("stored claim authorization response wire is not canonical".to_owned());
        }
        match self.retained_unsigned(issue_version) {
            Err(e) => return Err(e),
            Ok(_) => {},
        }
        if reply.version != self.version || !digest_equal(
            &reply.reservation_id,
            &self.reservation_id,
        ) || reply.sequence != self.sequence || !reply.first.is_claim_of(&self.first)
            || !reply.second.is_claim_of(&self.second) {
            return Err(
                "stored claim authorization response differs from its retained keys".to_owned(),
            );
        }
        match &reply.verified {
            Err(text) => Err(text.clone()),
            Ok(_) => Ok(()),
        }
    }

    /// Why the retained response does not answer a request, if it does not.
    /// `view` and `sequence` are what the request shows this participant;
    /// `fits` is the outcome of checking the response against the request.
    pub open spec fn answer_fault(
        &self,
        issue_version: u16,
        signer: Digest32,
        view: Digest32,
        sequence: u64,
        fits: Result<(), String>,
    ) -> Option<Seq<char>> {
        if self.order_signer != signer || self.issue_view != view || self.sequence != sequence {
            Some("stored claim authorization signer is inconsistent"@)
        } else if self.public_fault(issue_version) is Some {
            self.public_fault(issue_version)
        } else {
            match fits {
                Err(text) => Some(text@),
                Ok(_) => None,
            }
        }
    }

    /// Check that the retained response answers a request of `signer`'s order.
    pub fn public(
        &self,
        issue_version: u16,
        signer: &Digest32,
        view: &Digest32,
        sequence: u64,
        fits: &Result<(), String>,
    ) -> (r: Result<(), String>)
        ensures
            r is Ok == self.answer_fault(issue_version, *signer, *view, sequence, *fits) is None,
            r matches Err(e) ==> Some(e@) == self.answer_fault(
                issue_version,
                *signer,
                *view,
                sequence,
                *fits,
            ),
    {
        if !digest_equal(&self.order_signer, signer) || !digest_equal(&self.issue_view, view)
            || self.sequence != sequence {
            return Err("stored claim authorization signer is inconsistent".to_owned());
        }
        match self.retained_public(issue_version) {
            Err(e) => return Err(e),
            Ok(_) => {},
        }
        match fits {
            Err(text) => Err(text.clone()),
            Ok(_) => Ok(()),
        }
    }
}

/// A new record of claim signers, before its response is signed: what the
/// request shows this participant, and the two signers drawn for it.
pub struct ClaimDraft {
    pub issue_view: Digest32,
    pub reservation_id: Digest32,
    pub sequence: u64,
    pub order_signer: Digest32,
    pub first: ClaimKeyRecord,
    pub second: ClaimKeyRecord,
    /// The outcome of the unsigned response's own check.
    pub shape: Result<(), String>,
    /// The outcome of checking the unsigned response against the request.
    pub fits: Result<(), String>,
}

impl ClaimDraft {
    /// Why no response is signed, if none is.
    pub open spec fn fault(&self, now: u64) -> Option<Seq<char>> {
        if now == u64::MAX {
            Some("claim authorization cannot start at the maximum timestamp"@)
        } else if is_zero(self.issue_view@) || is_zero(self.reservation_id@) || self.sequence
            == u64::MAX || is_zero(self.order_signer@) || self.first.leg == self.second.leg {
            Some("stored claim authorization context is inconsistent"@)
        } else {
            match (self.first.restore_fault(), self.second.restore_fault(), self.shape, self.fits) {
                (Some(text), _, _, _) => Some(text),
                (_, Some(text), _, _) => Some(text),
                (_, _, Err(text), _) => Some(text@),
                (_, _, _, Err(text)) => Some(text@),
                _ => None,
            }
        }
    }

    /// Check the signers drawn for a request, before the response is signed.
    pub fn check(&self, now: u64) -> (r: Result<(), String>)
        ensures
            r is Ok == self.fault(now) is None,
            r matches Err(e) ==> Some(e@) == self.fault(now),
    {
        match check_claim_start(now) {
            Err(e) => return Err(e),
            Ok(_) => {},
        }
        if digest_is_zero(&self.issue_view) || digest_is_zero(&self.reservation_id)
            || self.sequence == u64::MAX || digest_is_zero(&self.order_signer) || self.first.leg
            == self.second.leg {
            return Err("stored claim authorization context is inconsistent".to_owned());
        }
        match self.first.restore() {
            Err(e) => return Err(e),
            Ok(_) => {},
        }
        match self.second.restore() {
            Err(e) => return Err(e),
            Ok(_) => {},
        }
        match &self.shape {
            Err(text) => return Err(text.clone()),
            Ok(_) => {},
        }
        match &self.fits {
            Err(text) => Err(text.clone()),
            Ok(_) => Ok(()),
        }
    }
}

/// How far the search for a claim's signer has come: the keys seen so far, and
/// the record and place of the signer where it was found.
pub struct ClaimSearch {
    pub seen: Seq<Digest32>,
    pub found: Option<(Seq<char>, bool)>,
}

/// Look at one retained signer. `second` says which of the record's two it is.
pub open spec fn claim_step(
    search: ClaimSearch,
    claim: &CanonicalClaim,
    record: Seq<char>,
    key: &ClaimKeyRecord,
    second: bool,
) -> Result<ClaimSearch, Seq<char>> {
    let seen = search.seen.push(key.key_fingerprint);
    if search.seen.contains(key.key_fingerprint) {
        Err("corporate journal reuses a claim authorization key"@)
    } else if key.key_fingerprint != claim.key_fingerprint {
        Ok(ClaimSearch { seen, ..search })
    } else if search.found is Some || key.recipient_commitment != claim.recipient_commitment
        || key.authorization@ != claim.authorization@ {
        Err("canonical claim substituted its participant authorization"@)
    } else {
        match key.restore_fault() {
            Some(text) => Err(text),
            None => Ok(ClaimSearch { seen, found: Some((record, second)) }),
        }
    }
}

/// Look at both signers of one record.
pub open spec fn claim_record_step(
    search: ClaimSearch,
    claim: &CanonicalClaim,
    record: Seq<char>,
    stored: &StoredClaimAuthorizations,
    issue_version: u16,
) -> Result<ClaimSearch, Seq<char>> {
    match stored.public_fault(issue_version) {
        Some(text) => Err(text),
        None => match claim_step(search, claim, record, &stored.first, false) {
            Err(text) => Err(text),
            Ok(middle) => claim_step(middle, claim, record, &stored.second, true),
        },
    }
}

/// The search over the first `count` records of a journal.
pub open spec fn claim_search(
    journal: JournalView,
    claim: &CanonicalClaim,
    issue_version: u16,
    count: nat,
) -> Result<ClaimSearch, Seq<char>>
    decreases count,
{
    if count == 0 {
        Ok(ClaimSearch { seen: Seq::empty(), found: None })
    } else {
        match claim_search(journal, claim, issue_version, (count - 1) as nat) {
            Err(text) => Err(text),
            Ok(search) => {
                let key = journal.order[count - 1];
                match text_after(key, "claim-authorization:"@) {
                    None => Ok(search),
                    Some(_) => match journal.get(key) {
                        Err(text) => Err(text),
                        Ok(None) => Err("stored claim authorization disappeared"@),
                        Ok(Some(JournalBody::ClaimAuthorizations(stored))) => claim_record_step(
                            search,
                            claim,
                            key,
                            &stored,
                            issue_version,
                        ),
                        Ok(Some(_)) => Err(malformed_record()),
                    },
                }
            },
        }
    }
}

/// The retained signer that a claim names.
pub open spec fn claim_signer(
    journal: JournalView,
    claim: &CanonicalClaim,
    issue_version: u16,
) -> Result<(Seq<char>, bool), Seq<char>> {
    match claim.checked {
        Err(text) => Err(text@),
        Ok(_) => match claim_search(journal, claim, issue_version, journal.order.len()) {
            Err(text) => Err(text),
            Ok(search) => match search.found {
                None => Err("canonical claim has no retained participant authorization"@),
                Some(place) => Ok(place),
            },
        },
    }
}

impl JournalView {
    /// Answer a request for claim signers with what `key` holds.
    pub open spec fn answer_claims(
        self,
        issue_version: u16,
        key: Seq<char>,
        sequence: u64,
        view: Digest32,
        signer: Digest32,
        fits: Result<(), String>,
    ) -> Result<Seq<char>, Seq<char>> {
        match self.get(key) {
            Err(text) => Err(text),
            Ok(Some(JournalBody::ClaimAuthorizations(stored))) => match stored.answer_fault(
                issue_version,
                signer,
                view,
                sequence,
                fits,
            ) {
                Some(text) => Err(text),
                None => Ok(key),
            },
            Ok(_) => Err(malformed_record()),
        }
    }

    /// Answer a request for claim signers, keeping the proposed ones where
    /// none are kept yet.
    pub open spec fn issue_claims(
        self,
        issue_version: u16,
        reservation_id: Digest32,
        sequence: u64,
        view: Digest32,
        signer: Digest32,
        proposed: Result<StoredClaimAuthorizations, String>,
        fits: Result<(), String>,
    ) -> (JournalView, Result<Seq<char>, Seq<char>>) {
        let key = claim_record_key(reservation_id, sequence);
        match self.get(key) {
            Err(text) => (self, Err(text)),
            Ok(Some(_)) => (
                self,
                self.answer_claims(issue_version, key, sequence, view, signer, fits),
            ),
            Ok(None) => match proposed {
                Err(text) => (self, Err(text@)),
                Ok(record) => {
                    let (next, stored) = self.put_first(
                        key,
                        JournalBody::ClaimAuthorizations(record),
                    );
                    match stored {
                        Err(text) => (next, Err(text)),
                        Ok(_) => (
                            next,
                            next.answer_claims(issue_version, key, sequence, view, signer, fits),
                        ),
                    }
                },
            },
        }
    }
}

/// An answer with its texts as characters.
pub open spec fn answer(r: Result<String, String>) -> Result<Seq<char>, Seq<char>> {
    match r {
        Ok(key) => Ok(key@),
        Err(text) => Err(text@),
    }
}

/// A journal after a run of writes. Every write keeps what stands under its key
/// already, and opening a journal writes its context.
pub open spec fn journal_after(
    journal: JournalView,
    writes: Seq<(Seq<char>, JournalBody)>,
) -> JournalView
    decreases writes.len(),
{
    if writes.len() == 0 {
        journal
    } else {
        journal_after(journal, writes.drop_last()).put_first(writes.last().0, writes.last().1).0
    }
}

proof fn lemma_writes_keep(
    journal: JournalView,
    writes: Seq<(Seq<char>, JournalBody)>,
    key: Seq<char>,
)
    requires
        journal.get(key) matches Ok(Some(_)),
    ensures
        journal_after(journal, writes).get(key) == journal.get(key),
        journal_after(journal, writes).context == journal.context,
    decreases writes.len(),
{
    if writes.len() > 0 {
        lemma_writes_keep(journal, writes.drop_last(), key);
    }
}

impl ClaimRequest {
    /// The journal and the answer after the request.
    pub open spec fn issued_in(
        self,
        journal: JournalView,
        issue_version: u16,
        proposed: Result<StoredClaimAuthorizations, String>,
        fits: Result<(), String>,
    ) -> (JournalView, Result<Seq<char>, Seq<char>>) {
        journal.issue_claims(
            issue_version,
            self.reservation_id,
            self.sequence,
            self.view,
            self.signer,
            proposed,
            fits,
        )
    }

    /// The record that a journal keeps for the request.
    pub open spec fn kept_in(self, journal: JournalView) -> Looked<StoredClaimAuthorizations> {
        match journal.get(claim_record_key(self.reservation_id, self.sequence)) {
            Err(text) => Err(text),
            Ok(None) => Ok(None),
            Ok(Some(JournalBody::ClaimAuthorizations(stored))) => Ok(Some(stored)),
            Ok(Some(_)) => Err(malformed_record()),
        }
    }
}

/// A fill has one pair of claim signers. Once a request was answered, its record
/// holds a response that verifies, names the two signers that are kept and fits
/// the request. Any later request for the same fill finds that very record,
/// whatever was written to the journal in between, also where it was opened
/// again, whatever the time is, and whatever new signers are drawn. It leaves
/// the journal as it is. The same request gets the same answer; one with another
/// view or of another signer gets none.
pub proof fn lemma_claim_signers_are_drawn_once(
    journal: JournalView,
    issue_version: u16,
    request: ClaimRequest,
    draw: ClaimDraw,
    now: u64,
    proposed: Result<StoredClaimAuthorizations, String>,
    fits: Result<(), String>,
    writes: Seq<(Seq<char>, JournalBody)>,
    later: ClaimRequest,
    later_draw: ClaimDraw,
    later_now: u64,
    later_proposed: Result<StoredClaimAuthorizations, String>,
    later_fits: Result<(), String>,
)
    requires
        request.draws(proposed, issue_version, draw, now),
        request.issued_in(journal, issue_version, proposed, fits).1 is Ok,
        later.draws(later_proposed, issue_version, later_draw, later_now),
        later.reservation_id == request.reservation_id,
        later.sequence == request.sequence,
    ensures
        ({
            let (kept, first) = request.issued_in(journal, issue_version, proposed, fits);
            let found = journal_after(kept, writes);
            let (after, second) = later.issued_in(found, issue_version, later_proposed, later_fits);
            &&& request.kept_in(kept) matches Ok(Some(record)) && {
                &&& record.answer_fault(
                    issue_version,
                    request.signer,
                    request.view,
                    request.sequence,
                    fits,
                ) is None
                &&& record.reply matches Ok(reply) && reply.verified is Ok
                    && record.answered_by(&reply) && reply.reencoded@ == record.response_wire@
            }
            &&& later.kept_in(found) == request.kept_in(kept)
            &&& after == found
            &&& later == request && later_fits == fits ==> second == first
            &&& second is Ok ==> second == first
            &&& later.view != request.view || later.signer != request.signer ==> second is Err
        }),
{
    let (kept, first) = request.issued_in(journal, issue_version, proposed, fits);
    lemma_writes_keep(kept, writes, claim_record_key(request.reservation_id, request.sequence));
}

/// Whether a journal keeps a signer with this fingerprint.
pub open spec fn issued(journal: JournalView, fingerprint: Digest32) -> bool {
    exists|key: Seq<char>|
        (#[trigger] journal.get(key) matches Ok(Some(JournalBody::ClaimAuthorizations(stored)))
            && (stored.first.key_fingerprint == fingerprint || stored.second.key_fingerprint
            == fingerprint))
}

/// The first request for a fill is answered from the two signers drawn for it,
/// and from no signer of another fill: the journal keeps exactly those two more,
/// so where the draw gave none that was issued before, neither was issued before.
/// What is kept for another fill stays as it is, unless SHA-256 maps the names of
/// the two fills to one digest.
pub proof fn lemma_each_fill_has_its_own_signers(
    journal: JournalView,
    issue_version: u16,
    request: ClaimRequest,
    draw: ClaimDraw,
    now: u64,
    proposed: Result<StoredClaimAuthorizations, String>,
    fits: Result<(), String>,
    other: ClaimRequest,
    fingerprint: Digest32,
)
    requires
        request.draws(proposed, issue_version, draw, now),
        request.kept_in(journal) == Ok::<Option<StoredClaimAuthorizations>, Seq<char>>(None),
        request.issued_in(journal, issue_version, proposed, fits).1 is Ok,
        sha256(claim_record_bytes(other.reservation_id, other.sequence)) != sha256(
            claim_record_bytes(request.reservation_id, request.sequence),
        ),
    ensures
        ({
            let kept = request.issued_in(journal, issue_version, proposed, fits).0;
            &&& request.kept_in(kept) matches Ok(Some(record)) && {
                &&& record.first == draw.first
                &&& record.second == draw.second
                &&& record.response_wire@ == draw.response_wire@
                &&& record.sequence == request.sequence
                &&& record.issue_view == request.view
                &&& record.not_before == now
                &&& record.not_after == u64::MAX
            }
            &&& issued(kept, fingerprint) == (issued(journal, fingerprint) || fingerprint
                == draw.first.key_fingerprint || fingerprint == draw.second.key_fingerprint)
            &&& other.kept_in(kept) == other.kept_in(journal)
        }),
{
    let key = claim_record_key(request.reservation_id, request.sequence);
    let kept = request.issued_in(journal, issue_version, proposed, fits).0;
    let prefix = "claim-authorization:"@;
    let a = hex_text(sha256(claim_record_bytes(other.reservation_id, other.sequence)));
    let b = hex_text(sha256(claim_record_bytes(request.reservation_id, request.sequence)));
    lemma_hex_text_injective(
        sha256(claim_record_bytes(other.reservation_id, other.sequence)),
        sha256(claim_record_bytes(request.reservation_id, request.sequence)),
    );
    assert(prefix + a != prefix + b) by {
        if prefix + a == prefix + b {
            assert((prefix + a).skip(prefix.len() as int) =~= a);
            assert((prefix + b).skip(prefix.len() as int) =~= b);
        }
    }
    assert(journal.get(key) == Ok::<Option<JournalBody>, Seq<char>>(None));
    assert(kept == journal.with_record(key, JournalBody::ClaimAuthorizations(proposed->Ok_0)));
    assert forall|at: Seq<char>| at != key implies #[trigger] kept.get(at) == journal.get(at) by {
    }
    if issued(journal, fingerprint) {
        let at = choose|at: Seq<char>|
            (#[trigger] journal.get(at) matches Ok(Some(JournalBody::ClaimAuthorizations(stored)))
                && (stored.first.key_fingerprint == fingerprint || stored.second.key_fingerprint
                == fingerprint));
        assert(kept.get(at) == journal.get(at));
    }
    assert(kept.get(key) matches Ok(Some(JournalBody::ClaimAuthorizations(_))));
}

proof fn lemma_search_fault_stays(
    journal: JournalView,
    claim: &CanonicalClaim,
    issue_version: u16,
    few: nat,
    many: nat,
)
    requires
        few <= many,
        claim_search(journal, claim, issue_version, few) is Err,
    ensures
        claim_search(journal, claim, issue_version, many) == claim_search(
            journal,
            claim,
            issue_version,
            few,
        ),
    decreases many,
{
    if few < many {
        lemma_search_fault_stays(journal, claim, issue_version, few, (many - 1) as nat);
    }
}

fn holds_digest(list: &Vec<Digest32>, wanted: &Digest32) -> (found: bool)
    ensures
        found == list@.contains(*wanted),
{
    let mut i: usize = 0;
    while i < list.len()
        invariant
            i <= list@.len(),
            forall|j: int| 0 <= j < i ==> list@[j] != *wanted,
        decreases list@.len() - i,
    {
        if digest_equal(&list[i], wanted) {
            assert(list@[i as int] == *wanted);
            return true;
        }
        i += 1;
    }
    false
}

/// Look at one retained signer: `Ok(true)` where it is the claim's.
fn look_at_key(
    seen: &mut Vec<Digest32>,
    found: bool,
    claim: &CanonicalClaim,
    key: &ClaimKeyRecord,
) -> (r: Result<bool, String>)
    ensures
        forall|search: ClaimSearch, record: Seq<char>, second: bool|
            search.seen == old(seen)@ && search.found is Some == found ==> match (
            #[trigger] claim_step(search, claim, record, key, second)) {
                Err(text) => r matches Err(e) && e@ == text,
                Ok(next) => r matches Ok(here) && next.seen == final(seen)@ && next.found == (
                if here {
                    Some((record, second))
                } else {
                    search.found
                }),
            },
{
    if holds_digest(seen, &key.key_fingerprint) {
        return Err("corporate journal reuses a claim authorization key".to_owned());
    }
    seen.push(key.key_fingerprint);
    if !digest_equal(&key.key_fingerprint, &claim.key_fingerprint) {
        return Ok(false);
    }
    if found || !digest_equal(&key.recipient_commitment, &claim.recipient_commitment)
        || !bytes_equal(key.authorization.as_slice(), claim.authorization.as_slice()) {
        return Err("canonical claim substituted its participant authorization".to_owned());
    }
    match key.restore() {
        Err(e) => Err(e),
        Ok(_) => Ok(true),
    }
}

impl NativeCorporateJournal {
    /// Keep a fill's claim signers before their public commitments are
    /// returned. A racing retry adopts the first record instead of returning
    /// newly generated keys.
    pub fn save_claim_authorizations(&mut self, record: StoredClaimAuthorizations) -> (r: Result<
        (),
        String,
    >)
        requires
            old(self).wf(),
        ensures
            final(self).wf(),
            ({
                let key = claim_record_key(record.reservation_id, record.sequence);
                let put = old(self)@.put_first(key, JournalBody::ClaimAuthorizations(record));
                &&& final(self)@ == put.0
                &&& match put.1 {
                    Ok(_) => r is Ok,
                    Err(text) => r matches Err(e) && e@ == text,
                }
            }),
    {
        let key = claim_authorization_record_id(&record.reservation_id, record.sequence);
        self.put_first(key, JournalBody::ClaimAuthorizations(record))
    }

    /// Answer a request for a fill's claim signers: with the ones that are kept,
    /// or else with those that were drawn for it, which are kept first. The
    /// answer is the key of the record. `fits` is the outcome of checking the
    /// kept response against the request.
    pub fn issue_claim_authorizations(
        &mut self,
        issue_version: u16,
        request: &ClaimRequest,
        draw: ClaimDraw,
        now: u64,
        fits: &Result<(), String>,
    ) -> (r: Result<String, String>)
        requires
            old(self).wf(),
        ensures
            final(self).wf(),
            exists|proposed: Result<StoredClaimAuthorizations, String>| #[trigger]
                request.draws(proposed, issue_version, draw, now) && (final(self)@, answer(r))
                    == request.issued_in(old(self)@, issue_version, proposed, *fits),
    {
        let draft = ClaimDraft {
            issue_view: request.view,
            reservation_id: request.reservation_id,
            sequence: request.sequence,
            order_signer: request.signer,
            first: draw.first,
            second: draw.second,
            shape: draw.shape,
            fits: draw.unsigned_fits,
        };
        let proposed = StoredClaimAuthorizations::generate(
            issue_version,
            draft,
            now,
            draw.response_wire,
            draw.reply,
            &draw.signed_fits,
        );
        assert(request.draws(proposed, issue_version, draw, now));
        let key = claim_authorization_record_id(&request.reservation_id, request.sequence);
        let missing: bool = match self.get(key.as_str()) {
            Err(e) => return Err(e),
            Ok(None) => true,
            Ok(Some(_)) => false,
        };
        if missing {
            let record: StoredClaimAuthorizations = match proposed {
                Err(e) => return Err(e),
                Ok(record) => record,
            };
            match self.put_first(key.clone(), JournalBody::ClaimAuthorizations(record)) {
                Err(e) => return Err(e),
                Ok(_) => {},
            }
        }
        match self.get(key.as_str()) {
            Err(e) => return Err(e),
            Ok(Some(JournalBody::ClaimAuthorizations(stored))) => {
                match stored.public(
                    issue_version,
                    &request.signer,
                    &request.view,
                    request.sequence,
                    fits,
                ) {
                    Err(e) => return Err(e),
                    Ok(_) => {},
                }
            },
            Ok(_) => return Err(crate::corporate_journal::malformed()),
        }
        Ok(key)
    }

    /// The signers that are kept for a fill, if any are.
    pub fn saved_claim_authorizations(&self, reservation_id: &Digest32, sequence: u64) -> (r: Result<
        Option<&StoredClaimAuthorizations>,
        String,
    >)
        requires
            self.wf(),
        ensures
            looked(r) == (match self@.get(claim_record_key(*reservation_id, sequence)) {
                Err(text) => Err::<Option<StoredClaimAuthorizations>, Seq<char>>(text),
                Ok(None) => Ok::<Option<StoredClaimAuthorizations>, Seq<char>>(None),
                Ok(Some(JournalBody::ClaimAuthorizations(stored))) => Ok::<
                    Option<StoredClaimAuthorizations>,
                    Seq<char>,
                >(Some(stored)),
                Ok(Some(_)) => Err::<Option<StoredClaimAuthorizations>, Seq<char>>(
                    malformed_record(),
                ),
            }),
    {
        let key = claim_authorization_record_id(reservation_id, sequence);
        match self.get(key.as_str()) {
            Err(e) => Err(e),
            Ok(None) => Ok(None),
            Ok(Some(JournalBody::ClaimAuthorizations(stored))) => Ok(Some(stored)),
            Ok(Some(_)) => Err(crate::corporate_journal::malformed()),
        }
    }

    /// Find the one retained signer that a claim on the ledger names: the key
    /// of its record, and whether it is the record's second signer. Missing or
    /// conflicting custody fails; recovery never manufactures a replacement.
    pub fn claim_authorization(&self, claim: &CanonicalClaim, issue_version: u16) -> (r: Result<
        (String, bool),
        String,
    >)
        requires
            self.wf(),
        ensures
            match claim_signer(self@, claim, issue_version) {
                Ok(place) => r matches Ok(found) && found.0@ == place.0 && found.1 == place.1,
                Err(text) => r matches Err(e) && e@ == text,
            },
    {
        match &claim.checked {
            Err(text) => return Err(text.clone()),
            Ok(_) => {},
        }
        let total: usize = self.records().len();
        let mut seen: Vec<Digest32> = Vec::new();
        let mut found: Option<(&str, bool)> = None;
        let mut i: usize = 0;
        while i < total
            invariant
                self.wf(),
                total == self@.order.len(),
                claim.checked is Ok,
                i <= total,
                match claim_search(self@, claim, issue_version, i as nat) {
                    Err(_) => false,
                    Ok(search) => search.seen == seen@ && match search.found {
                        None => found is None,
                        Some(place) => found matches Some(held) && held.0@ == place.0 && held.1
                            == place.1,
                    },
                },
            decreases total - i,
        {
            let ghost search = claim_search(self@, claim, issue_version, i as nat)->Ok_0;
            let ghost next = claim_search(self@, claim, issue_version, (i + 1) as nat);
            let key = self.records().key_at(i);
            assert(key@ == self@.order[i as int]);
            if strip_prefix(key, "claim-authorization:").is_some() {
                let stored: &StoredClaimAuthorizations = match self.get(key) {
                    Ok(Some(JournalBody::ClaimAuthorizations(stored))) => stored,
                    Err(e) => {
                        proof {
                            lemma_search_fault_stays(
                                self@,
                                claim,
                                issue_version,
                                (i + 1) as nat,
                                total as nat,
                            );
                        }
                        return Err(e);
                    },
                    Ok(None) => {
                        proof {
                            lemma_search_fault_stays(
                                self@,
                                claim,
                                issue_version,
                                (i + 1) as nat,
                                total as nat,
                            );
                        }
                        return Err("stored claim authorization disappeared".to_owned());
                    },
                    Ok(Some(_)) => {
                        proof {
                            lemma_search_fault_stays(
                                self@,
                                claim,
                                issue_version,
                                (i + 1) as nat,
                                total as nat,
                            );
                        }
                        return Err(crate::corporate_journal::malformed());
                    },
                };
                match stored.retained_public(issue_version) {
                    Err(e) => {
                        proof {
                            lemma_search_fault_stays(
                                self@,
                                claim,
                                issue_version,
                                (i + 1) as nat,
                                total as nat,
                            );
                        }
                        return Err(e);
                    },
                    Ok(_) => {},
                }
                let ghost one = claim_step(search, claim, key@, &stored.first, false);
                match look_at_key(&mut seen, found.is_some(), claim, &stored.first) {
                    Err(e) => {
                        proof {
                            lemma_search_fault_stays(
                                self@,
                                claim,
                                issue_version,
                                (i + 1) as nat,
                                total as nat,
                            );
                        }
                        return Err(e);
                    },
                    Ok(here) => {
                        if here {
                            found = Some((key, false));
                        }
                    },
                }
                let ghost two = claim_step(one->Ok_0, claim, key@, &stored.second, true);
                match look_at_key(&mut seen, found.is_some(), claim, &stored.second) {
                    Err(e) => {
                        proof {
                            lemma_search_fault_stays(
                                self@,
                                claim,
                                issue_version,
                                (i + 1) as nat,
                                total as nat,
                            );
                        }
                        return Err(e);
                    },
                    Ok(here) => {
                        if here {
                            found = Some((key, true));
                        }
                    },
                }
            }
            i += 1;
        }
        match found {
            None => Err("canonical claim has no retained participant authorization".to_owned()),
            Some((key, second)) => Ok((key.to_owned(), second)),
        }
    }
}

} // verus!
