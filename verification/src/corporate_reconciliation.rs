//! Reconciliation of an expired request, one durable step at a time. Reads of
//! the ledger and the release itself happen between the steps. Each step starts
//! from the journal alone, so a restart resumes with the saved evidence.

use crate::bytes::{sha256_value, Digest32};
use crate::corporate::{
    reserve_digest, CanonicalFacility, CanonicalReservation, CorporateNativeConfig,
    PreparedCorporateReserve, ReserveFacts,
};
use crate::corporate_expiry::{
    absence_outcome, check_deadline, check_expiry_head, expiry_operation_bytes, expiry_result,
    funding_unchanged, new_expiry_release, release_fault, release_terminated, released_outcome,
    resolution_fault, resolve_expiry, validate_expiry_release, AcceptedRelease, ExpiryOutcome,
    NativeExpiryResolution, NoteRelease, OutcomeView, ReleaseReason, ReleaseView, ResolutionView,
};
use crate::corporate_journal::NativeCorporateJournal;
use crate::corporate_journal_laws::{lemma_seal_fences, lemma_started_send_is_never_sealed};
use crate::corporate_journal_model::JournalView;
use crate::store::text_result;
use crate::text_map::text_equal;
use vstd::prelude::*;

verus! {

/// What the reconciliation of an expired request does next.
#[derive(Clone, Copy, Debug, PartialEq, Eq, Structural)]
pub enum ExpiryStep {
    /// Read the state root and the facility, which decide how the request ends.
    ReadFunding,
    /// The reserve was never sent and cannot be: confirm that the ledger did
    /// not move.
    ConfirmAbsence,
    /// Read the reservation, and release it.
    ReadReservation,
    /// The canonical end is saved: recover the wallet and finish.
    RecoverWallet,
}

pub open spec fn no_saved_reserve() -> Seq<char> {
    "expired request has no saved signed reserve"@
}

/// How reconciliation starts. `facts` are what is derived from the saved
/// reserve, `verified` the outcome of the saved release's own check.
pub open spec fn expiry_start(
    journal: JournalView,
    config: &CorporateNativeConfig,
    id: Seq<char>,
    facts: Result<ReserveFacts, String>,
    verified: Result<(), String>,
    now: u64,
) -> Result<ExpiryStep, Seq<char>> {
    match journal.reserve(id) {
        Err(text) => Err(text),
        Ok(None) => Err(no_saved_reserve()),
        Ok(Some(prepared)) => if prepared.fault(config, facts) is Some {
            Err(prepared.fault(config, facts)->0)
        } else if now <= prepared.request.mandate.valid_until {
            Err("canonical reserve deadline has not elapsed"@)
        } else {
            match journal.expiry_resolution(&prepared, verified) {
                Err(text) => Err(text),
                Ok(None) => Ok(ExpiryStep::ReadFunding),
                Ok(Some(saved)) => if saved.request_id@ != id {
                    Err("expiry record belongs to another corporate request"@)
                } else {
                    Ok(ExpiryStep::RecoverWallet)
                },
            }
        },
    }
}

/// Start, or resume, the reconciliation of an expired request.
pub fn reconcile_expired_submission(
    journal: &NativeCorporateJournal,
    config: &CorporateNativeConfig,
    id: &str,
    facts: &Result<ReserveFacts, String>,
    verified: &Result<(), String>,
    now: u64,
) -> (r: Result<ExpiryStep, String>)
    requires
        journal.wf(),
    ensures
        text_result(r) == expiry_start(journal@, config, id@, *facts, *verified, now),
{
    let prepared: &PreparedCorporateReserve = match journal.reserve(id) {
        Err(e) => return Err(e),
        Ok(None) => return Err("expired request has no saved signed reserve".to_owned()),
        Ok(Some(found)) => found,
    };
    match prepared.validate(config, facts) {
        Err(e) => return Err(e),
        Ok(_) => {},
    }
    match check_deadline(prepared, now) {
        Err(e) => return Err(e),
        Ok(_) => {},
    }
    match journal.expiry_resolution(prepared, verified) {
        Err(e) => Err(e),
        Ok(None) => Ok(ExpiryStep::ReadFunding),
        Ok(Some(saved)) => {
            if !text_equal(saved.request_id.as_str(), id) {
                return Err("expiry record belongs to another corporate request".to_owned());
            }
            Ok(ExpiryStep::RecoverWallet)
        },
    }
}

/// How the request ends, given the facility that the ledger reported at `root`:
/// as unsent only where the facility stands unchanged and the journal seals the
/// request against any later send.
pub open spec fn expiry_funding(
    journal: JournalView,
    facility_id: Digest32,
    id: Seq<char>,
    now: u64,
    root: Digest32,
    facility: &CanonicalFacility,
) -> (JournalView, Result<ExpiryStep, Seq<char>>) {
    match journal.reserve(id) {
        Err(text) => (journal, Err(text)),
        Ok(None) => (journal, Err(no_saved_reserve())),
        Ok(Some(prepared)) => if facility.state_root != root || facility.facility_id
            != facility_id {
            (journal, Err("expiry facility read crossed canonical context"@))
        } else if facility.sequence != prepared.request.before_sequence || facility.commitments
            != prepared.request.before {
            (journal, Ok(ExpiryStep::ReadReservation))
        } else {
            let (next, sealed) = journal.seal_never_dispatched(
                id,
                sha256_value(prepared.request.wire@),
                now,
            );
            match sealed {
                Err(text) => (next, Err(text)),
                Ok(true) => (next, Ok(ExpiryStep::ConfirmAbsence)),
                Ok(false) => (next, Ok(ExpiryStep::ReadReservation)),
            }
        },
    }
}

/// Decide how an expired request ends.
pub fn judge_funding(
    journal: &mut NativeCorporateJournal,
    config: &CorporateNativeConfig,
    id: &str,
    now: u64,
    root: &Digest32,
    facility: &CanonicalFacility,
) -> (r: Result<ExpiryStep, String>)
    requires
        old(journal).wf(),
    ensures
        final(journal).wf(),
        (final(journal)@, text_result(r)) == expiry_funding(
            old(journal)@,
            config.facility_id,
            id@,
            now,
            *root,
            facility,
        ),
{
    let digest: Digest32 = match journal.reserve(id) {
        Err(e) => return Err(e),
        Ok(None) => return Err("expired request has no saved signed reserve".to_owned()),
        Ok(Some(prepared)) => match funding_unchanged(facility, root, config, prepared) {
            Err(e) => return Err(e),
            Ok(false) => return Ok(ExpiryStep::ReadReservation),
            Ok(true) => reserve_digest(prepared),
        },
    };
    match journal.seal_never_dispatched(id, &digest, now) {
        Err(e) => Err(e),
        Ok(true) => Ok(ExpiryStep::ConfirmAbsence),
        Ok(false) => Ok(ExpiryStep::ReadReservation),
    }
}

/// Why no release follows from the ledger's head, if none does.
pub open spec fn release_terms_fault(
    journal: JournalView,
    id: Seq<char>,
    root: Digest32,
    head: &CanonicalReservation,
    binding: Seq<u8>,
) -> Option<Seq<char>> {
    match journal.reserve(id) {
        Err(text) => Some(text),
        Ok(None) => Some(no_saved_reserve()),
        Ok(Some(_)) => if head.state_root != root || head.binding@ != binding || head.sequence
            > 1 {
            Some("expiry read does not identify the original unfilled reserve"@)
        } else {
            match journal.expiry_release(id) {
                Err(text) => Some(text),
                Ok(Some(_)) => None,
                Ok(None) => if head.status@ != "active"@ || head.sequence != 0 {
                    Some("external release needs its canonical transaction receipt"@)
                } else {
                    None
                },
            }
        },
    }
}

/// The terms under which a reserve is released: the saved ones, or new ones
/// that continue the ledger's head and have no encoding yet.
pub open spec fn release_terms(
    journal: JournalView,
    id: Seq<char>,
    root: Digest32,
    head: &CanonicalReservation,
    hold_id: Digest32,
) -> (ReleaseView, bool) {
    match journal.expiry_release(id)->Ok_0 {
        Some(saved) => (saved@, true),
        None => (
            ReleaseView {
                reason: ReleaseReason::Expired,
                hold_id,
                sequence: 0,
                before_root: root,
                operation_id: sha256_value(
                    expiry_operation_bytes(&journal.reserve(id)->Ok_0->Some_0),
                ),
                previous_receipt: head.head_receipt,
                wire: Seq::empty(),
            },
            false,
        ),
    }
}

/// The terms of the release, and whether they were saved before. `binding` is
/// the encoding of the mandate's binding, `hold_id` the hold that the head's
/// binding names.
pub fn choose_release(
    journal: &NativeCorporateJournal,
    id: &str,
    root: &Digest32,
    head: &CanonicalReservation,
    binding: &[u8],
    hold_id: &Digest32,
) -> (r: Result<(NoteRelease, bool), String>)
    requires
        journal.wf(),
    ensures
        ({
            let fault = release_terms_fault(journal@, id@, *root, head, binding@);
            &&& r is Ok == fault is None
            &&& r matches Ok(terms) ==> (terms.0@, terms.1) == release_terms(
                journal@,
                id@,
                *root,
                head,
                *hold_id,
            )
            &&& r matches Err(e) ==> Some(e@) == fault
        }),
{
    let prepared: &PreparedCorporateReserve = match journal.reserve(id) {
        Err(e) => return Err(e),
        Ok(None) => return Err("expired request has no saved signed reserve".to_owned()),
        Ok(Some(found)) => found,
    };
    match check_expiry_head(head, root, binding) {
        Err(e) => return Err(e),
        Ok(_) => {},
    }
    match journal.expiry_release(id) {
        Err(e) => Err(e),
        Ok(Some(saved)) => Ok((saved.copy(), true)),
        Ok(None) => match new_expiry_release(head, root, prepared, hold_id) {
            Err(e) => Err(e),
            Ok(release) => {
                assert(release.wire@ =~= Seq::<u8>::empty());
                Ok((release, false))
            },
        },
    }
}

/// What saving an outcome does to the journal.
pub open spec fn outcome_saved(
    before: JournalView,
    after: JournalView,
    result: Result<NativeExpiryResolution, String>,
    prepared: &PreparedCorporateReserve,
    value: NativeExpiryResolution,
    verified: Result<(), String>,
) -> bool {
    let (next, saved) = before.save_expiry_resolution(value, prepared, verified);
    &&& after == next
    &&& match result {
        Ok(kept) => saved is Ok && kept@ == value@,
        Err(e) => saved == Err::<(), Seq<char>>(e@),
    }
}

/// Save how an expired request ended. `verified` is the outcome of the
/// release's own check, where there is a release.
pub fn save_outcome(
    journal: &mut NativeCorporateJournal,
    id: &str,
    prepared: &PreparedCorporateReserve,
    now: u64,
    outcome: ExpiryOutcome,
    verified: &Result<(), String>,
) -> (r: Result<NativeExpiryResolution, String>)
    requires
        old(journal).wf(),
    ensures
        final(journal).wf(),
        end_saved(
            old(journal)@,
            final(journal)@,
            r,
            id@,
            prepared,
            now,
            outcome@,
            *verified,
        ),
{
    let resolution: NativeExpiryResolution = match resolve_expiry(
        id,
        prepared,
        now,
        outcome,
        verified,
    ) {
        Err(e) => return Err(e),
        Ok(resolution) => resolution,
    };
    let copy = resolution.copy();
    let ghost kept = resolution;
    match journal.save_expiry_resolution(resolution, prepared, verified) {
        Err(e) => Err(e),
        Ok(_) => Ok(copy),
    }
}

/// What saving a request's end does, given the outcome that the ledger showed.
pub open spec fn end_saved(
    before: JournalView,
    after: JournalView,
    result: Result<NativeExpiryResolution, String>,
    id: Seq<char>,
    prepared: &PreparedCorporateReserve,
    now: u64,
    outcome: OutcomeView,
    verified: Result<(), String>,
) -> bool {
    let value = expiry_result(id, prepared, now, outcome);
    match resolution_fault(value, prepared, verified) {
        Some(text) => after == before && (result matches Err(e) && e@ == text),
        None => exists|kept: NativeExpiryResolution| #[trigger]
            kept@ == value && outcome_saved(before, after, result, prepared, kept, verified),
    }
}

proof fn lemma_end_of_copy(
    before: JournalView,
    after: JournalView,
    result: Result<NativeExpiryResolution, String>,
    id: Seq<char>,
    copy: &PreparedCorporateReserve,
    prepared: &PreparedCorporateReserve,
    now: u64,
    outcome: OutcomeView,
    verified: Result<(), String>,
)
    requires
        copy.equals(prepared),
        end_saved(before, after, result, id, copy, now, outcome, verified),
    ensures
        end_saved(before, after, result, id, prepared, now, outcome, verified),
{
    let value = expiry_result(id, copy, now, outcome);
    assert(value == expiry_result(id, prepared, now, outcome));
    assert(resolution_fault(value, copy, verified) == resolution_fault(value, prepared, verified));
    if resolution_fault(value, copy, verified) is None {
        let kept = choose|kept: NativeExpiryResolution| #[trigger]
            kept@ == value && outcome_saved(before, after, result, copy, kept, verified);
        assert forall|other: ResolutionView|
            resolution_fault(other, copy, verified) == #[trigger] resolution_fault(
                other,
                prepared,
                verified,
            ) by {}
        assert(before.save_expiry_resolution(kept, copy, verified)
            == before.save_expiry_resolution(kept, prepared, verified));
        assert(outcome_saved(before, after, result, prepared, kept, verified));
    }
}

/// End an expired request that was never sent: the facility stands unchanged,
/// the journal seals the request against any later send, and the ledger did not
/// move meanwhile. `None` where the ledger's reservation has to be read instead.
pub fn end_unsent(
    journal: &mut NativeCorporateJournal,
    config: &CorporateNativeConfig,
    id: &str,
    now: u64,
    root: &Digest32,
    facility: &CanonicalFacility,
    root_afterwards: &Digest32,
) -> (r: Result<Option<NativeExpiryResolution>, String>)
    requires
        old(journal).wf(),
    ensures
        final(journal).wf(),
        ({
            let (sealed, step) = expiry_funding(
                old(journal)@,
                config.facility_id,
                id@,
                now,
                *root,
                facility,
            );
            match step {
                Err(text) => final(journal)@ == sealed && (r matches Err(e) && e@ == text),
                Ok(ExpiryStep::ConfirmAbsence) => if *root_afterwards != *root {
                    final(journal)@ == sealed && (r matches Err(e) && e@
                        == "absence observation crossed canonical generations"@)
                } else {
                    &&& !(r matches Ok(None))
                    &&& end_saved(
                        sealed,
                        final(journal)@,
                        match r {
                            Ok(ended) => Ok(ended->Some_0),
                            Err(e) => Err(e),
                        },
                        id@,
                        &(old(journal)@.reserve(id@)->Ok_0->Some_0),
                        now,
                        OutcomeView::NeverReserved { state_root: *root },
                        Ok(()),
                    )
                },
                Ok(_) => final(journal)@ == sealed && r == Ok::<
                    Option<NativeExpiryResolution>,
                    String,
                >(None),
            }
        }),
{
    let prepared: PreparedCorporateReserve = match journal.reserve(id) {
        Err(e) => return Err(e),
        Ok(None) => return Err("expired request has no saved signed reserve".to_owned()),
        Ok(Some(found)) => found.copy(),
    };
    let ghost saved = journal@.reserve(id@)->Ok_0->Some_0;
    match judge_funding(journal, config, id, now, root, facility) {
        Err(e) => return Err(e),
        Ok(ExpiryStep::ConfirmAbsence) => {},
        Ok(_) => return Ok(None),
    }
    let outcome = match absence_outcome(root, root_afterwards) {
        Err(e) => return Err(e),
        Ok(outcome) => outcome,
    };
    let ghost sealed = journal@;
    let ended = save_outcome(journal, id, &prepared, now, outcome, &Ok(()));
    proof {
        lemma_end_of_copy(
            sealed,
            journal@,
            ended,
            id@,
            &prepared,
            &saved,
            now,
            OutcomeView::NeverReserved { state_root: *root },
            Ok(()),
        );
    }
    match ended {
        Err(e) => Err(e),
        Ok(resolution) => Ok(Some(resolution)),
    }
}

/// End an expired request whose reserve the ledger released under the saved
/// terms. `accepted` is what the ledger accepted, `after` the reservation as it
/// then stands, `binding` the encoding of the mandate's binding, and `verified`
/// the outcome of the release's own check.
pub fn end_released(
    journal: &mut NativeCorporateJournal,
    id: &str,
    now: u64,
    accepted: AcceptedRelease,
    after: &CanonicalReservation,
    binding: &[u8],
    verified: &Result<(), String>,
) -> (r: Result<NativeExpiryResolution, String>)
    requires
        old(journal).wf(),
    ensures
        final(journal).wf(),
        ({
            let before = old(journal)@;
            match before.reserve(id@) {
                Err(text) => final(journal)@ == before && (r matches Err(e) && e@ == text),
                Ok(None) => final(journal)@ == before && (r matches Err(e) && e@
                    == no_saved_reserve()),
                Ok(Some(prepared)) => match before.expiry_release(id@) {
                    Err(text) => final(journal)@ == before && (r matches Err(e) && e@ == text),
                    Ok(None) => final(journal)@ == before && (r matches Err(e) && e@
                        == "external release needs its canonical transaction receipt"@),
                    Ok(Some(release)) => if release_fault(release@, &prepared, *verified) is Some {
                        final(journal)@ == before && (r matches Err(e) && Some(e@)
                            == release_fault(release@, &prepared, *verified))
                    } else if !release_terminated(after, &accepted, &prepared, binding@) {
                        final(journal)@ == before && (r matches Err(e) && e@
                            == "expiry did not terminate the exact original reserve"@)
                    } else {
                        end_saved(
                            before,
                            final(journal)@,
                            r,
                            id@,
                            &prepared,
                            now,
                            OutcomeView::Released {
                                release: release@,
                                transaction_id: accepted.transaction_id@,
                                block_id: accepted.block_id@,
                                height: accepted.height,
                                after_root: accepted.after_root,
                            },
                            *verified,
                        )
                    },
                },
            }
        }),
{
    let prepared: PreparedCorporateReserve = match journal.reserve(id) {
        Err(e) => return Err(e),
        Ok(None) => return Err("expired request has no saved signed reserve".to_owned()),
        Ok(Some(found)) => found.copy(),
    };
    let ghost saved = journal@.reserve(id@)->Ok_0->Some_0;
    let release = match journal.expiry_release(id) {
        Err(e) => return Err(e),
        Ok(None) => {
            return Err("external release needs its canonical transaction receipt".to_owned());
        },
        Ok(Some(release)) => release.copy(),
    };
    assert(release_fault(release@, &prepared, *verified) == release_fault(
        release@,
        &saved,
        *verified,
    ));
    match validate_expiry_release(&release, &prepared, verified) {
        Err(e) => return Err(e),
        Ok(_) => {},
    }
    let ghost shown = OutcomeView::Released {
        release: release@,
        transaction_id: accepted.transaction_id@,
        block_id: accepted.block_id@,
        height: accepted.height,
        after_root: accepted.after_root,
    };
    let outcome = match released_outcome(after, accepted, &prepared, binding, release) {
        Err(e) => return Err(e),
        Ok(outcome) => outcome,
    };
    let ghost before = journal@;
    let ended = save_outcome(journal, id, &prepared, now, outcome, verified);
    proof {
        lemma_end_of_copy(before, journal@, ended, id@, &prepared, &saved, now, shown, *verified);
    }
    ended
}

/// A request ends as unsent only behind the fence: from then on no reserve is
/// sent for it.
pub proof fn lemma_absence_is_fenced(
    journal: JournalView,
    facility_id: Digest32,
    id: Seq<char>,
    now: u64,
    root: Digest32,
    facility: &CanonicalFacility,
    digest: Digest32,
)
    requires
        expiry_funding(journal, facility_id, id, now, root, facility).1 == Ok::<
            ExpiryStep,
            Seq<char>,
        >(ExpiryStep::ConfirmAbsence),
    ensures
        expiry_funding(
            journal,
            facility_id,
            id,
            now,
            root,
            facility,
        ).0.mark_reserve_send_started(id, digest).1 is Err,
        facility.sequence == journal.reserve(id)->Ok_0->Some_0.request.before_sequence,
        facility.commitments == journal.reserve(id)->Ok_0->Some_0.request.before,
{
    let prepared = journal.reserve(id)->Ok_0->Some_0;
    lemma_seal_fences(journal, id, sha256_value(prepared.request.wire@), now);
}

/// Once a send has started, the request never ends as unsent.
pub proof fn lemma_started_send_needs_the_ledger(
    journal: JournalView,
    facility_id: Digest32,
    id: Seq<char>,
    now: u64,
    root: Digest32,
    facility: &CanonicalFacility,
    digest: Digest32,
)
    requires
        journal.mark_reserve_send_started(id, digest).1 is Ok,
    ensures
        expiry_funding(
            journal.mark_reserve_send_started(id, digest).0,
            facility_id,
            id,
            now,
            root,
            facility,
        ).1 != Ok::<ExpiryStep, Seq<char>>(ExpiryStep::ConfirmAbsence),
{
    let next = journal.mark_reserve_send_started(id, digest).0;
    let prepared = next.reserve(id)->Ok_0->Some_0;
    lemma_started_send_is_never_sealed(
        journal,
        id,
        digest,
        sha256_value(prepared.request.wire@),
        now,
    );
}

/// A saved end is reused: reconciliation goes on with it and reads nothing
/// anew, until the request itself is finished.
pub proof fn lemma_saved_end_is_reused(
    journal: JournalView,
    config: &CorporateNativeConfig,
    id: Seq<char>,
    facts: Result<ReserveFacts, String>,
    verified: Result<(), String>,
    now: u64,
)
    requires
        journal.reserve(id) matches Ok(Some(prepared)) && journal.expiry_resolution(
            &prepared,
            verified,
        ) matches Ok(Some(_)),
    ensures
        expiry_start(journal, config, id, facts, verified, now) matches Ok(step) ==> step
            == ExpiryStep::RecoverWallet,
{
}

} // verus!
