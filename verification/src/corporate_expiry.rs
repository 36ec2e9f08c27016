//! Corporate reconciliation of an expired request whose MPC admission is not
//! complete. Transport failure is never proof that a reserve was absent.

use crate::bytes::{
    bytes_equal, copy_bytes, digest_equal, digest_is_zero, is_zero, push_all, push_text, sha256,
    sha256_digest, sha256_value, text_bytes, Digest32,
};
use crate::corporate::{
    reserve_digest, three_digests_equal, CanonicalFacility, CanonicalReservation,
    CorporateNativeConfig, PreparedCorporateReserve,
};
use crate::text_map::text_equal;
use vstd::prelude::*;

verus! {

/// Why a reservation is released.
#[derive(Clone, Copy, Debug, PartialEq, Eq, Structural)]
pub enum ReleaseReason {
    Expired,
    Cancelled,
}

/// An instruction to release a reservation. `wire` is its exact encoding.
pub struct NoteRelease {
    pub reason: ReleaseReason,
    pub hold_id: Digest32,
    pub sequence: u64,
    pub before_root: Digest32,
    pub operation_id: Digest32,
    pub previous_receipt: Digest32,
    pub wire: Vec<u8>,
}

pub struct ReleaseView {
    pub reason: ReleaseReason,
    pub hold_id: Digest32,
    pub sequence: u64,
    pub before_root: Digest32,
    pub operation_id: Digest32,
    pub previous_receipt: Digest32,
    pub wire: Seq<u8>,
}

impl View for NoteRelease {
    type V = ReleaseView;

    open spec fn view(&self) -> ReleaseView {
        ReleaseView {
            reason: self.reason,
            hold_id: self.hold_id,
            sequence: self.sequence,
            before_root: self.before_root,
            operation_id: self.operation_id,
            previous_receipt: self.previous_receipt,
            wire: self.wire@,
        }
    }
}

impl NoteRelease {
    pub fn same(&self, other: &NoteRelease) -> (same: bool)
        ensures
            same == (self@ == other@),
    {
        self.reason == other.reason && digest_equal(&self.hold_id, &other.hold_id) && self.sequence
            == other.sequence && digest_equal(&self.before_root, &other.before_root)
            && digest_equal(&self.operation_id, &other.operation_id) && digest_equal(
            &self.previous_receipt,
            &other.previous_receipt,
        ) && bytes_equal(self.wire.as_slice(), other.wire.as_slice())
    }

    pub fn copy(&self) -> (copy: NoteRelease)
        ensures
            copy@ == self@,
    {
        NoteRelease {
            reason: self.reason,
            hold_id: self.hold_id,
            sequence: self.sequence,
            before_root: self.before_root,
            operation_id: self.operation_id,
            previous_receipt: self.previous_receipt,
            wire: copy_bytes(self.wire.as_slice()),
        }
    }
}

/// How an expired request ended.
pub enum ExpiryOutcome {
    NeverReserved { state_root: Digest32 },
    Released {
        release: NoteRelease,
        transaction_id: String,
        block_id: String,
        height: u64,
        after_root: Digest32,
    },
}

pub enum OutcomeView {
    NeverReserved { state_root: Digest32 },
    Released {
        release: ReleaseView,
        transaction_id: Seq<char>,
        block_id: Seq<char>,
        height: u64,
        after_root: Digest32,
    },
}

impl View for ExpiryOutcome {
    type V = OutcomeView;

    open spec fn view(&self) -> OutcomeView {
        match *self {
            ExpiryOutcome::NeverReserved { state_root } => OutcomeView::NeverReserved {
                state_root,
            },
            ExpiryOutcome::Released { release, transaction_id, block_id, height, after_root } =>
            OutcomeView::Released {
                release: release@,
                transaction_id: transaction_id@,
                block_id: block_id@,
                height,
                after_root,
            },
        }
    }
}

impl ExpiryOutcome {
    pub fn same(&self, other: &ExpiryOutcome) -> (same: bool)
        ensures
            same == (self@ == other@),
    {
        match (self, other) {
            (
                ExpiryOutcome::NeverReserved { state_root: a },
                ExpiryOutcome::NeverReserved { state_root: b },
            ) => digest_equal(a, b),
            (
                ExpiryOutcome::Released {
                    release: a,
                    transaction_id: ta,
                    block_id: ba,
                    height: ha,
                    after_root: ra,
                },
                ExpiryOutcome::Released {
                    release: b,
                    transaction_id: tb,
                    block_id: bb,
                    height: hb,
                    after_root: rb,
                },
            ) => a.same(b) && text_equal(ta.as_str(), tb.as_str()) && text_equal(
                ba.as_str(),
                bb.as_str(),
            ) && *ha == *hb && digest_equal(ra, rb),
            (ExpiryOutcome::NeverReserved { .. }, ExpiryOutcome::Released { .. }) => false,
            (ExpiryOutcome::Released { .. }, ExpiryOutcome::NeverReserved { .. }) => false,
        }
    }

    pub fn never_reserved(&self) -> (absent: bool)
        ensures
            absent == self is NeverReserved,
    {
        match self {
            ExpiryOutcome::NeverReserved { .. } => true,
            ExpiryOutcome::Released { .. } => false,
        }
    }

    pub fn copy(&self) -> (copy: ExpiryOutcome)
        ensures
            copy@ == self@,
    {
        match self {
            ExpiryOutcome::NeverReserved { state_root } => ExpiryOutcome::NeverReserved {
                state_root: *state_root,
            },
            ExpiryOutcome::Released { release, transaction_id, block_id, height, after_root } =>
            ExpiryOutcome::Released {
                release: release.copy(),
                transaction_id: transaction_id.clone(),
                block_id: block_id.clone(),
                height: *height,
                after_root: *after_root,
            },
        }
    }
}

/// The canonical end of an expired request.
pub struct NativeExpiryResolution {
    pub request_id: String,
    pub reserve_digest: Digest32,
    pub checked_at: u64,
    pub outcome: ExpiryOutcome,
}

pub struct ResolutionView {
    pub request_id: Seq<char>,
    pub reserve_digest: Digest32,
    pub checked_at: u64,
    pub outcome: OutcomeView,
}

impl View for NativeExpiryResolution {
    type V = ResolutionView;

    open spec fn view(&self) -> ResolutionView {
        ResolutionView {
            request_id: self.request_id@,
            reserve_digest: self.reserve_digest,
            checked_at: self.checked_at,
            outcome: self.outcome@,
        }
    }
}

/// Why a release does not end an unadmitted reserve, if it does not. `verified`
/// is the outcome of the release's own check against the mandate's scope and
/// deadline at that time.
pub open spec fn release_fault(
    release: ReleaseView,
    prepared: &PreparedCorporateReserve,
    verified: Result<(), String>,
) -> Option<Seq<char>> {
    if release.reason != ReleaseReason::Expired || release.hold_id
        != prepared.request.mandate.hold_id || release.sequence != 0 {
        Some("unadmitted expiry cannot release another or already used reserve"@)
    } else {
        match verified {
            Err(text) => Some(text@),
            Ok(_) => None,
        }
    }
}

pub fn validate_expiry_release(
    release: &NoteRelease,
    prepared: &PreparedCorporateReserve,
    verified: &Result<(), String>,
) -> (r: Result<(), String>)
    ensures
        r is Ok == release_fault(release@, prepared, *verified) is None,
        r matches Err(e) ==> Some(e@) == release_fault(release@, prepared, *verified),
{
    let expired: bool = match release.reason {
        ReleaseReason::Expired => true,
        ReleaseReason::Cancelled => false,
    };
    if !expired || !digest_equal(&release.hold_id, &prepared.request.mandate.hold_id)
        || release.sequence != 0 {
        return Err(
            "unadmitted expiry cannot release another or already used reserve".to_owned(),
        );
    }
    match verified {
        Err(text) => Err(text.clone()),
        Ok(_) => Ok(()),
    }
}

/// A text with at least one character and at most `limit` bytes.
pub open spec fn short_text(text: Seq<char>, limit: nat) -> bool {
    0 < text.len() && text_bytes(text).len() <= limit
}

fn is_short(text: &str, limit: usize) -> (short: bool)
    ensures
        short == short_text(text@, limit as nat),
{
    !text.is_empty() && text.as_bytes().len() <= limit
}

/// Why a resolution does not stand, if it does not. `verified` is the outcome
/// of the release's own check, where there is a release.
pub open spec fn resolution_fault(
    value: ResolutionView,
    prepared: &PreparedCorporateReserve,
    verified: Result<(), String>,
) -> Option<Seq<char>> {
    if value.reserve_digest@ != sha256(prepared.request.wire@) || value.checked_at
        <= prepared.request.mandate.valid_until || !short_text(value.request_id, 64) {
        Some("expiry resolution differs from its original reserve"@)
    } else {
        match value.outcome {
            OutcomeView::NeverReserved { state_root } => if is_zero(state_root@) {
                Some("expiry resolution has no canonical evidence"@)
            } else {
                None
            },
            OutcomeView::Released { release, transaction_id, block_id, height, after_root } => {
                if release_fault(release, prepared, verified) is Some {
                    release_fault(release, prepared, verified)
                } else if !short_text(transaction_id, 128) || !short_text(block_id, 128) || height
                    == 0 || is_zero(after_root@) || after_root == release.before_root {
                    Some("expiry receipt is incomplete"@)
                } else {
                    None
                }
            },
        }
    }
}

impl NativeExpiryResolution {
    pub fn validate(&self, prepared: &PreparedCorporateReserve, verified: &Result<(), String>) -> (r:
        Result<(), String>)
        ensures
            r is Ok == resolution_fault(self@, prepared, *verified) is None,
            r matches Err(e) ==> Some(e@) == resolution_fault(self@, prepared, *verified),
    {
        let digest = reserve_digest(prepared);
        if !digest_equal(&self.reserve_digest, &digest) || self.checked_at
            <= prepared.request.mandate.valid_until || !is_short(self.request_id.as_str(), 64) {
            return Err("expiry resolution differs from its original reserve".to_owned());
        }
        match &self.outcome {
            ExpiryOutcome::NeverReserved { state_root } => {
                if digest_is_zero(state_root) {
                    return Err("expiry resolution has no canonical evidence".to_owned());
                }
                Ok(())
            },
            ExpiryOutcome::Released { release, transaction_id, block_id, height, after_root } => {
                match validate_expiry_release(release, prepared, verified) {
                    Err(e) => return Err(e),
                    Ok(_) => {},
                }
                if !is_short(transaction_id.as_str(), 128) || !is_short(block_id.as_str(), 128)
                    || *height == 0 || digest_is_zero(after_root) || digest_equal(
                    after_root,
                    &release.before_root,
                ) {
                    return Err("expiry receipt is incomplete".to_owned());
                }
                Ok(())
            },
        }
    }

    pub fn same(&self, other: &NativeExpiryResolution) -> (same: bool)
        ensures
            same == (self@ == other@),
    {
        text_equal(self.request_id.as_str(), other.request_id.as_str()) && digest_equal(
            &self.reserve_digest,
            &other.reserve_digest,
        ) && self.checked_at == other.checked_at && self.outcome.same(&other.outcome)
    }

    pub fn copy(&self) -> (copy: NativeExpiryResolution)
        ensures
            copy@ == self@,
    {
        NativeExpiryResolution {
            request_id: self.request_id.clone(),
            reserve_digest: self.reserve_digest,
            checked_at: self.checked_at,
            outcome: self.outcome.copy(),
        }
    }
}

/// The canonical deadline of a reserve has passed.
pub fn check_deadline(prepared: &PreparedCorporateReserve, now: u64) -> (r: Result<(), String>)
    ensures
        r is Ok == (now > prepared.request.mandate.valid_until),
        r matches Err(e) ==> e@ == "canonical reserve deadline has not elapsed"@,
{
    if now <= prepared.request.mandate.valid_until {
        return Err("canonical reserve deadline has not elapsed".to_owned());
    }
    Ok(())
}

/// Whether the facility still stands where it stood before the reserve. `root`
/// is the state root that the ledger reported.
pub fn funding_unchanged(
    facility: &CanonicalFacility,
    root: &Digest32,
    config: &CorporateNativeConfig,
    prepared: &PreparedCorporateReserve,
) -> (r: Result<bool, String>)
    ensures
        r is Ok == (facility.state_root == *root && facility.facility_id == config.facility_id),
        r matches Ok(unchanged) ==> unchanged == (facility.sequence
            == prepared.request.before_sequence && facility.commitments == prepared.request.before),
        r matches Err(e) ==> e@ == "expiry facility read crossed canonical context"@,
{
    if !digest_equal(&facility.state_root, root) || !digest_equal(
        &facility.facility_id,
        &config.facility_id,
    ) {
        return Err("expiry facility read crossed canonical context".to_owned());
    }
    Ok(
        facility.sequence == prepared.request.before_sequence && three_digests_equal(
            &facility.commitments,
            &prepared.request.before,
        ),
    )
}

/// End a request that was never sent: the corporate unsent fence holds, the
/// facility is unchanged, and the ledger did not move while both were checked.
pub fn absence_outcome(root: &Digest32, root_afterwards: &Digest32) -> (r: Result<
    ExpiryOutcome,
    String,
>)
    ensures
        r is Ok == (*root_afterwards == *root),
        r matches Ok(outcome) ==> outcome@ == (OutcomeView::NeverReserved { state_root: *root }),
        r matches Err(e) ==> e@ == "absence observation crossed canonical generations"@,
{
    if !digest_equal(root_afterwards, root) {
        return Err("absence observation crossed canonical generations".to_owned());
    }
    Ok(ExpiryOutcome::NeverReserved { state_root: *root })
}

/// The ledger's head is the original reserve, unfilled or released once.
pub fn check_expiry_head(head: &CanonicalReservation, root: &Digest32, binding: &[u8]) -> (r: Result<
    (),
    String,
>)
    ensures
        r is Ok == (head.state_root == *root && head.binding@ == binding@ && head.sequence <= 1),
        r matches Err(e) ==> e@ == "expiry read does not identify the original unfilled reserve"@,
{
    if !digest_equal(&head.state_root, root) || !bytes_equal(head.binding.as_slice(), binding)
        || head.sequence > 1 {
        return Err("expiry read does not identify the original unfilled reserve".to_owned());
    }
    Ok(())
}

/// What the operation of an expiry release is named by.
pub open spec fn expiry_operation_bytes(prepared: &PreparedCorporateReserve) -> Seq<u8> {
    text_bytes("OCLOB:CORPORATE-EXPIRY:v1"@) + sha256(prepared.request.wire@)
}

/// The terms of a new release of an active, unused reserve.
pub fn new_expiry_release(
    head: &CanonicalReservation,
    root: &Digest32,
    prepared: &PreparedCorporateReserve,
    hold_id: &Digest32,
) -> (r: Result<NoteRelease, String>)
    ensures
        r is Ok == (head.status@ == "active"@ && head.sequence == 0),
        r matches Ok(release) ==> {
            &&& release.reason == ReleaseReason::Expired
            &&& release.hold_id == *hold_id
            &&& release.sequence == 0
            &&& release.before_root == *root
            &&& release.operation_id == sha256_value(expiry_operation_bytes(prepared))
            &&& release.previous_receipt == head.head_receipt
            &&& release.wire@.len() == 0
        },
        r matches Err(e) ==> e@ == "external release needs its canonical transaction receipt"@,
{
    if !text_equal(head.status.as_str(), "active") || head.sequence != 0 {
        return Err("external release needs its canonical transaction receipt".to_owned());
    }
    let mut body: Vec<u8> = Vec::new();
    push_text(&mut body, "OCLOB:CORPORATE-EXPIRY:v1");
    assert(body@ =~= text_bytes("OCLOB:CORPORATE-EXPIRY:v1"@));
    let digest = reserve_digest(prepared);
    push_all(&mut body, &digest);
    Ok(
        NoteRelease {
            reason: ReleaseReason::Expired,
            hold_id: *hold_id,
            sequence: head.sequence,
            before_root: *root,
            operation_id: sha256_digest(body.as_slice()),
            previous_receipt: head.head_receipt,
            wire: Vec::new(),
        },
    )
}

/// The ledger's acceptance of a release.
pub struct AcceptedRelease {
    pub statement: Digest32,
    pub transaction_id: String,
    pub block_id: String,
    pub height: u64,
    pub after_root: Digest32,
}

/// The reserve that the ledger now shows is the original one, released.
pub open spec fn release_terminated(
    after: &CanonicalReservation,
    accepted: &AcceptedRelease,
    prepared: &PreparedCorporateReserve,
    binding: Seq<u8>,
) -> bool {
    &&& after.status@ == "released"@
    &&& after.sequence == 1
    &&& after.binding@ == binding
    &&& after.head_receipt == accepted.statement
    &&& after.remaining_commitment == prepared.request.mandate.amount_commitment
}

/// End a request whose reserve was released.
pub fn released_outcome(
    after: &CanonicalReservation,
    accepted: AcceptedRelease,
    prepared: &PreparedCorporateReserve,
    binding: &[u8],
    release: NoteRelease,
) -> (r: Result<ExpiryOutcome, String>)
    ensures
        r is Ok == release_terminated(after, &accepted, prepared, binding@),
        r matches Ok(outcome) ==> outcome@ == (OutcomeView::Released {
            release: release@,
            transaction_id: accepted.transaction_id@,
            block_id: accepted.block_id@,
            height: accepted.height,
            after_root: accepted.after_root,
        }),
        r matches Err(e) ==> e@ == "expiry did not terminate the exact original reserve"@,
{
    if !text_equal(after.status.as_str(), "released") || after.sequence != 1 || !bytes_equal(
        after.binding.as_slice(),
        binding,
    ) || !digest_equal(&after.head_receipt, &accepted.statement) || !digest_equal(
        &after.remaining_commitment,
        &prepared.request.mandate.amount_commitment,
    ) {
        return Err("expiry did not terminate the exact original reserve".to_owned());
    }
    Ok(
        ExpiryOutcome::Released {
            release,
            transaction_id: accepted.transaction_id,
            block_id: accepted.block_id,
            height: accepted.height,
            after_root: accepted.after_root,
        },
    )
}

/// The end of an expired request with this outcome.
pub open spec fn expiry_result(
    request_id: Seq<char>,
    prepared: &PreparedCorporateReserve,
    now: u64,
    outcome: OutcomeView,
) -> ResolutionView {
    ResolutionView {
        request_id,
        reserve_digest: sha256_value(prepared.request.wire@),
        checked_at: now,
        outcome,
    }
}

/// Put a resolution together and check it.
pub fn resolve_expiry(
    request_id: &str,
    prepared: &PreparedCorporateReserve,
    now: u64,
    outcome: ExpiryOutcome,
    verified: &Result<(), String>,
) -> (r: Result<NativeExpiryResolution, String>)
    ensures
        ({
            let value = expiry_result(request_id@, prepared, now, outcome@);
            let fault = resolution_fault(value, prepared, *verified);
            &&& r is Ok == fault is None
            &&& r matches Ok(resolution) ==> resolution@ == value
            &&& r matches Err(e) ==> Some(e@) == fault
        }),
{
    let resolution = NativeExpiryResolution {
        request_id: request_id.to_owned(),
        reserve_digest: reserve_digest(prepared),
        checked_at: now,
        outcome,
    };
    match resolution.validate(prepared, verified) {
        Err(e) => Err(e),
        Ok(_) => Ok(resolution),
    }
}

} // verus!
