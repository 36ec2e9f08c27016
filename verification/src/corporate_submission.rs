//! Resume the exact corporate-owned reservation and seven-node delivery.
//! Credential issuance and new order construction are deliberately outside
//! this worker path: it can only send an already signed, durable instruction.

use crate::bytes::{bytes_equal, copy_bytes, digest_equal, sha256, sha256_value, Digest32};
use crate::corporate::{
    finalized_fault, reserve_digest, verify_finalized, CanonicalFacility, CanonicalReservation,
    CorporateNativeConfig, IssuedReserve, PreparedCorporateReserve, ReserveFacts,
};
use crate::corporate_journal::NativeCorporateJournal;
use crate::corporate_journal_laws::lemma_started_send_is_never_sealed;
use crate::corporate_journal_model::{
    receipt_refusal, JournalBody, JournalView, ReceiptFacts, StoredCorporateDelivery,
    StoredCorporateIntent,
};
use crate::edge_client::{EdgeAdmissionReceipt, PreparedEdgeDelivery};
use crate::store::text_result;
use crate::types::{ClusterPublicConfig, MPC_PARTIES};
use vstd::prelude::*;

verus! {

/// Where a laboratory run may stop the process: something happened outside and
/// is not yet in the journal.
#[derive(Clone, Copy, Debug, PartialEq, Eq, Structural)]
pub enum SubmissionCheckpoint {
    ReserveObservedBeforeJournal,
    NodesAcknowledgedBeforeJournal,
    ExpiryObservedBeforeJournal,
}

impl SubmissionCheckpoint {
    /// The name under which a laboratory run asks for the stop.
    pub fn name(&self) -> (name: &'static str)
        ensures
            name@ == (match self {
                SubmissionCheckpoint::ReserveObservedBeforeJournal =>
                    "after-reserve-before-journal"@,
                SubmissionCheckpoint::NodesAcknowledgedBeforeJournal =>
                    "after-node-admission-before-journal"@,
                SubmissionCheckpoint::ExpiryObservedBeforeJournal =>
                    "after-expiry-before-journal"@,
            }),
    {
        match self {
            SubmissionCheckpoint::ReserveObservedBeforeJournal => "after-reserve-before-journal",
            SubmissionCheckpoint::NodesAcknowledgedBeforeJournal =>
            "after-node-admission-before-journal",
            SubmissionCheckpoint::ExpiryObservedBeforeJournal => "after-expiry-before-journal",
        }
    }
}

/// What a submission does next. Each step leaves a record, so the step is a
/// function of the journal and a restart resumes where the last one stopped.
#[derive(Clone, Copy, Debug, PartialEq, Eq, Structural)]
pub enum SubmissionStep {
    /// Ask DeFMI for the reserve, and save its answer.
    FinalizeReservation,
    /// Check the saved answer again, build the ciphertexts, and save them.
    BuildDelivery,
    /// Send the saved ciphertexts, and save the receipt.
    SubmitToNodes,
    /// Everything is on record and stands. Tells whether the receipt was there
    /// before this run.
    Complete { reused_completed_receipt: bool },
}

/// A prepared reserve that belongs to the intent.
pub open spec fn reserve_fits(
    prepared: &PreparedCorporateReserve,
    intent: &StoredCorporateIntent,
) -> bool {
    &&& prepared.order_wire@ == intent.order_wire@
    &&& prepared.signing_key@ == intent.signing_key@
    &&& prepared.eligibility_commitment == intent.eligibility_commitment
}

/// What the outside says of a submission: what is derived from the saved
/// reserve, what is known of a saved receipt, and whether the ledger shows the
/// selected note as spent.
pub struct SubmissionFacts {
    pub reserve: Result<ReserveFacts, String>,
    pub receipt: ReceiptFacts,
    pub spent: Result<(), String>,
}

pub open spec fn fenced() -> Seq<char> {
    "unsent expiry fence prevents this reserve send"@
}

/// How a submission stands whose ciphertexts are saved.
pub open spec fn delivery_step(
    journal: JournalView,
    cluster: &ClusterPublicConfig,
    id: Seq<char>,
    prepared: &PreparedCorporateReserve,
    delivery: &StoredCorporateDelivery,
    completed: Option<EdgeAdmissionReceipt>,
    source_note: Option<Digest32>,
    facts: &SubmissionFacts,
    submitted: bool,
) -> Result<SubmissionStep, Seq<char>> {
    if delivery.reserve_digest@ != sha256(prepared.request.wire@) {
        Err("saved ciphertexts name another reserve request"@)
    } else {
        match completed {
            None => Ok(SubmissionStep::SubmitToNodes),
            Some(receipt) => match receipt_refusal(
                &receipt,
                &delivery.delivery,
                cluster,
                &facts.receipt,
            ) {
                Some(text) => Err(text),
                None => match facts.spent {
                    Err(text) => if source_note is Some {
                        Err(text@)
                    } else {
                        Ok(SubmissionStep::Complete { reused_completed_receipt: !submitted })
                    },
                    Ok(_) => Ok(SubmissionStep::Complete { reused_completed_receipt: !submitted }),
                },
            },
        }
    }
}

/// The next step of a submission, or why there is none, and the journal after
/// it. A request whose end unsent was decided is never sent; one whose reserve
/// is to be asked for is first marked as sent. `submitted` tells whether this
/// run saved the receipt.
pub open spec fn submission_step(
    journal: JournalView,
    config: &CorporateNativeConfig,
    cluster: &ClusterPublicConfig,
    id: Seq<char>,
    source_note: Option<Digest32>,
    facts: &SubmissionFacts,
    submitted: bool,
) -> (JournalView, Result<SubmissionStep, Seq<char>>) {
    if journal.turn_fault(id) is Some {
        (journal, Err(journal.turn_fault(id)->0))
    } else {
        match journal.intent(id) {
            Err(text) => (journal, Err(text)),
            Ok(None) => (journal, Err("submission has no durable intent"@)),
            Ok(Some(intent)) => match journal.reserve(id) {
                Err(text) => (journal, Err(text)),
                Ok(None) => (journal, Err("submission has no durable signed reserve"@)),
                Ok(Some(prepared)) => if prepared.fault(config, facts.reserve) is Some {
                    (journal, Err(prepared.fault(config, facts.reserve)->0))
                } else if !reserve_fits(&prepared, &intent) {
                    (journal, Err("saved reserve belongs to another durable corporate intent"@))
                } else {
                    match journal.send_decision(id) {
                        Err(text) => (journal, Err(text)),
                        Ok(decision) => if decision matches Some(kept) && !kept.may_send {
                            (journal, Err(fenced()))
                        } else {
                            match journal.receipt(id) {
                                Err(text) => (journal, Err(text)),
                                Ok(completed) => match journal.delivery(id) {
                                    Err(text) => (journal, Err(text)),
                                    Ok(Some(delivery)) => (
                                        journal,
                                        delivery_step(
                                            journal,
                                            cluster,
                                            id,
                                            &prepared,
                                            &delivery,
                                            completed,
                                            source_note,
                                            facts,
                                            submitted,
                                        ),
                                    ),
                                    Ok(None) => match journal.stage("admission"@, id) {
                                        Err(text) => (journal, Err(text)),
                                        Ok(Some(_)) => (journal, Ok(SubmissionStep::BuildDelivery)),
                                        Ok(None) => {
                                            let (next, marked) = journal.mark_reserve_send_started(
                                                id,
                                                sha256_value(prepared.request.wire@),
                                            );
                                            match marked {
                                                Err(text) => (next, Err(text)),
                                                Ok(_) => (
                                                    next,
                                                    Ok(SubmissionStep::FinalizeReservation),
                                                ),
                                            }
                                        },
                                    },
                                },
                            }
                        },
                    }
                },
            },
        }
    }
}

/// What is saved for a request, or the digest of the reserve that has to be
/// asked for.
enum Saved {
    Step(SubmissionStep),
    Reserve(Digest32),
}

fn saved_step(
    journal: &NativeCorporateJournal,
    config: &CorporateNativeConfig,
    cluster: &ClusterPublicConfig,
    id: &str,
    source_note: Option<Digest32>,
    facts: &SubmissionFacts,
    submitted: bool,
) -> (r: Result<Saved, String>)
    requires
        journal.wf(),
        facts.receipt.complete(),
    ensures
        ({
            let step = submission_step(
                journal@,
                config,
                cluster,
                id@,
                source_note,
                facts,
                submitted,
            );
            match r {
                Err(e) => step == (journal@, Err::<SubmissionStep, Seq<char>>(e@)),
                Ok(Saved::Step(found)) => step == (journal@, Ok::<SubmissionStep, Seq<char>>(found)),
                Ok(Saved::Reserve(digest)) => {
                    let (next, marked) = journal@.mark_reserve_send_started(id@, digest);
                    step == (
                        next,
                        match marked {
                            Err(text) => Err::<SubmissionStep, Seq<char>>(text),
                            Ok(_) => Ok(SubmissionStep::FinalizeReservation),
                        },
                    )
                },
            }
        }),
{
    match journal.require_turn(id) {
        Err(e) => return Err(e),
        Ok(_) => {},
    }
    let intent: &StoredCorporateIntent = match journal.intent(id) {
        Err(e) => return Err(e),
        Ok(None) => return Err("submission has no durable intent".to_owned()),
        Ok(Some(found)) => found,
    };
    let prepared: &PreparedCorporateReserve = match journal.reserve(id) {
        Err(e) => return Err(e),
        Ok(None) => return Err("submission has no durable signed reserve".to_owned()),
        Ok(Some(found)) => found,
    };
    match prepared.validate(config, &facts.reserve) {
        Err(e) => return Err(e),
        Ok(_) => {},
    }
    if !bytes_equal(prepared.order_wire.as_slice(), intent.order_wire.as_slice()) || !bytes_equal(
        &prepared.signing_key,
        &intent.signing_key,
    ) || !digest_equal(&prepared.eligibility_commitment, &intent.eligibility_commitment) {
        return Err("saved reserve belongs to another durable corporate intent".to_owned());
    }
    match journal.send_decision(id) {
        Err(e) => return Err(e),
        Ok(Some(decision)) => {
            if !decision.may_send {
                return Err("unsent expiry fence prevents this reserve send".to_owned());
            }
        },
        Ok(None) => {},
    }
    let completed: Option<&EdgeAdmissionReceipt> = match journal.receipt(id) {
        Err(e) => return Err(e),
        Ok(found) => found,
    };
    match journal.delivery(id) {
        Err(e) => Err(e),
        Ok(None) => match journal.stage(id, "admission") {
            Err(e) => Err(e),
            Ok(None) => Ok(Saved::Reserve(reserve_digest(prepared))),
            Ok(Some(_)) => Ok(Saved::Step(SubmissionStep::BuildDelivery)),
        },
        Ok(Some(delivery)) => {
            let digest = reserve_digest(prepared);
            if !digest_equal(&delivery.reserve_digest, &digest) {
                return Err("saved ciphertexts name another reserve request".to_owned());
            }
            let receipt = match completed {
                None => return Ok(Saved::Step(SubmissionStep::SubmitToNodes)),
                Some(receipt) => receipt,
            };
            match NativeCorporateJournal::verify_receipt(
                receipt,
                delivery,
                cluster,
                &facts.receipt,
            ) {
                Err(e) => return Err(e),
                Ok(_) => {},
            }
            if source_note.is_some() {
                match &facts.spent {
                    Err(text) => return Err(text.clone()),
                    Ok(_) => {},
                }
            }
            Ok(Saved::Step(SubmissionStep::Complete { reused_completed_receipt: !submitted }))
        },
    }
}

/// Decide what a submission does next. The decision to send is on record before
/// the reserve is asked for, so that a request is never both sent and ended as
/// unsent.
pub fn complete_native_submission(
    journal: &mut NativeCorporateJournal,
    config: &CorporateNativeConfig,
    cluster: &ClusterPublicConfig,
    id: &str,
    source_note: Option<Digest32>,
    facts: &SubmissionFacts,
    submitted: bool,
) -> (r: Result<SubmissionStep, String>)
    requires
        old(journal).wf(),
        facts.receipt.complete(),
    ensures
        final(journal).wf(),
        (final(journal)@, text_result(r)) == submission_step(
            old(journal)@,
            config,
            cluster,
            id@,
            source_note,
            facts,
            submitted,
        ),
{
    match saved_step(journal, config, cluster, id, source_note, facts, submitted) {
        Err(e) => Err(e),
        Ok(Saved::Step(step)) => Ok(step),
        Ok(Saved::Reserve(digest)) => match journal.mark_reserve_send_started(id, &digest) {
            Err(e) => Err(e),
            Ok(_) => Ok(SubmissionStep::FinalizeReservation),
        },
    }
}

/// What DeFMI issued for a reserve, and how the ledger then stands. `binding` is
/// the encoding of the mandate's binding, `wire` that of the issued reservation.
pub struct FinalizedRead {
    pub issued: IssuedReserve,
    pub canonical: CanonicalReservation,
    pub binding: Vec<u8>,
    pub facility: CanonicalFacility,
    pub wire: Vec<u8>,
}

impl FinalizedRead {
    /// Why the ledger does not confirm a reserve, if it does not.
    pub open spec fn fault(
        &self,
        config: &CorporateNativeConfig,
        prepared: &PreparedCorporateReserve,
        facts: Result<ReserveFacts, String>,
    ) -> Option<Seq<char>> {
        finalized_fault(
            config,
            prepared,
            facts,
            &self.issued,
            &self.canonical,
            self.binding@,
            &self.facility,
        )
    }

    fn check(
        &self,
        config: &CorporateNativeConfig,
        prepared: &PreparedCorporateReserve,
        facts: &Result<ReserveFacts, String>,
    ) -> (r: Result<(), String>)
        ensures
            r is Ok == self.fault(config, prepared, *facts) is None,
            r matches Err(e) ==> Some(e@) == self.fault(config, prepared, *facts),
    {
        verify_finalized(
            config,
            prepared,
            facts,
            &self.issued,
            &self.canonical,
            self.binding.as_slice(),
            &self.facility,
        )
    }
}

pub open spec fn another_step() -> Seq<char> {
    "corporate submission is at another step"@
}

/// Keep what DeFMI issued for the saved reserve, once the ledger confirms it.
pub fn keep_reservation(
    journal: &mut NativeCorporateJournal,
    config: &CorporateNativeConfig,
    cluster: &ClusterPublicConfig,
    id: &str,
    source_note: Option<Digest32>,
    facts: &SubmissionFacts,
    finalized: FinalizedRead,
) -> (r: Result<(), String>)
    requires
        old(journal).wf(),
        facts.receipt.complete(),
    ensures
        final(journal).wf(),
        ({
            let (marked, step) = submission_step(
                old(journal)@,
                config,
                cluster,
                id@,
                source_note,
                facts,
                false,
            );
            let prepared = old(journal)@.reserve(id@)->Ok_0->Some_0;
            match step {
                Err(text) => final(journal)@ == marked && (r matches Err(e) && e@ == text),
                Ok(SubmissionStep::FinalizeReservation) => match finalized.fault(
                    config,
                    &prepared,
                    facts.reserve,
                ) {
                    Some(text) => final(journal)@ == marked && (r matches Err(e) && e@ == text),
                    None => {
                        let (next, kept) = marked.save_stage(
                            id@,
                            "admission"@,
                            JournalBody::Admission(finalized.wire),
                        );
                        final(journal)@ == next && match kept {
                            Ok(_) => r is Ok,
                            Err(text) => r matches Err(e) && e@ == text,
                        }
                    },
                },
                Ok(_) => final(journal)@ == marked && (r matches Err(e) && e@ == another_step()),
            }
        }),
{
    let saved: Option<PreparedCorporateReserve> = match journal.reserve(id) {
        Ok(Some(found)) => Some(found.copy()),
        Ok(None) => None,
        Err(_) => None,
    };
    let ghost kept = journal@.reserve(id@)->Ok_0->Some_0;
    match complete_native_submission(journal, config, cluster, id, source_note, facts, false) {
        Err(e) => return Err(e),
        Ok(SubmissionStep::FinalizeReservation) => {},
        Ok(_) => return Err("corporate submission is at another step".to_owned()),
    }
    match saved {
        None => Err("submission has no durable signed reserve".to_owned()),
        Some(prepared) => {
            assert(finalized.fault(config, &prepared, facts.reserve) == finalized.fault(
                config,
                &kept,
                facts.reserve,
            ));
            match finalized.check(config, &prepared, &facts.reserve) {
                Err(e) => return Err(e),
                Ok(_) => {},
            }
            journal.save_stage(id, "admission", JournalBody::Admission(finalized.wire))
        },
    }
}

/// Keep the ciphertexts of a reserve that the ledger still confirms, together
/// with the witness of the funding that it leads to. `committed` are the
/// commitments to that witness, `saved_committed` those to one that was saved
/// before; `authority` is the encrypted authority over the reservation.
pub fn keep_delivery(
    journal: &mut NativeCorporateJournal,
    config: &CorporateNativeConfig,
    cluster: &ClusterPublicConfig,
    id: &str,
    source_note: Option<Digest32>,
    facts: &SubmissionFacts,
    finalized: &FinalizedRead,
    committed: &[Digest32; 3],
    saved_committed: &[Digest32; 3],
    delivery: PreparedEdgeDelivery,
    authority: Vec<u8>,
) -> (r: Result<(), String>)
    requires
        old(journal).wf(),
        facts.receipt.complete(),
    ensures
        final(journal).wf(),
        ({
            let before = old(journal)@;
            let (marked, step) = submission_step(
                before,
                config,
                cluster,
                id@,
                source_note,
                facts,
                false,
            );
            let prepared = before.reserve(id@)->Ok_0->Some_0;
            match step {
                Err(text) => final(journal)@ == marked && (r matches Err(e) && e@ == text),
                Ok(SubmissionStep::BuildDelivery) => match finalized.fault(
                    config,
                    &prepared,
                    facts.reserve,
                ) {
                    Some(text) => final(journal)@ == before && (r matches Err(e) && e@ == text),
                    None => {
                        let (witnessed, funding) = before.save_funding_witness(
                            prepared.facility_after,
                            *committed,
                            *saved_committed,
                        );
                        if funding is Err {
                            final(journal)@ == witnessed && (r matches Err(e) && e@
                                == funding->Err_0)
                        } else if cluster.nodes@.len() != MPC_PARTIES {
                            final(journal)@ == witnessed && (r matches Err(e) && e@
                                == "cluster must have seven node keys"@)
                        } else {
                            let (next, kept) = witnessed.save_stage(
                                id@,
                                "delivery"@,
                                JournalBody::Delivery(
                                    StoredCorporateDelivery {
                                        reserve_digest: sha256_value(prepared.request.wire@),
                                        delivery,
                                        authority,
                                    },
                                ),
                            );
                            final(journal)@ == next && match kept {
                                Ok(_) => r is Ok,
                                Err(text) => r matches Err(e) && e@ == text,
                            }
                        }
                    },
                },
                Ok(_) => final(journal)@ == marked && (r matches Err(e) && e@ == another_step()),
            }
        }),
{
    let saved: Option<PreparedCorporateReserve> = match journal.reserve(id) {
        Ok(Some(found)) => Some(found.copy()),
        Ok(None) => None,
        Err(_) => None,
    };
    let ghost kept = journal@.reserve(id@)->Ok_0->Some_0;
    match complete_native_submission(journal, config, cluster, id, source_note, facts, false) {
        Err(e) => return Err(e),
        Ok(SubmissionStep::BuildDelivery) => {},
        Ok(_) => return Err("corporate submission is at another step".to_owned()),
    }
    match saved {
        None => Err("submission has no durable signed reserve".to_owned()),
        Some(prepared) => {
            assert(finalized.fault(config, &prepared, facts.reserve) == finalized.fault(
                config,
                &kept,
                facts.reserve,
            ));
            match finalized.check(config, &prepared, &facts.reserve) {
                Err(e) => return Err(e),
                Ok(_) => {},
            }
            match journal.save_reserved_witness(&prepared, committed, saved_committed) {
                Err(e) => return Err(e),
                Ok(_) => {},
            }
            match delivery_keys(cluster) {
                Err(e) => return Err(e),
                Ok(_) => {},
            }
            let stored = StoredCorporateDelivery {
                reserve_digest: reserve_digest(&prepared),
                delivery,
                authority,
            };
            journal.save_stage(id, "delivery", JournalBody::Delivery(stored))
        },
    }
}

/// The encryption keys of the seven nodes, in their order.
pub fn delivery_keys(cluster: &ClusterPublicConfig) -> (r: Result<Vec<Vec<u8>>, String>)
    ensures
        r is Ok == (cluster.nodes@.len() == MPC_PARTIES),
        r matches Err(e) ==> e@ == "cluster must have seven node keys"@,
        r matches Ok(keys) ==> keys@.len() == MPC_PARTIES && forall|i: int|
            0 <= i < keys@.len() ==> (#[trigger] keys@[i])@
                == cluster.nodes@[i].share_encryption_key@,
{
    if cluster.nodes.len() != MPC_PARTIES {
        return Err("cluster must have seven node keys".to_owned());
    }
    let mut keys: Vec<Vec<u8>> = Vec::new();
    let mut i: usize = 0;
    while i < cluster.nodes.len()
        invariant
            i <= cluster.nodes@.len(),
            keys@.len() == i,
            forall|j: int|
                0 <= j < i ==> (#[trigger] keys@[j])@ == cluster.nodes@[j].share_encryption_key@,
        decreases cluster.nodes@.len() - i,
    {
        keys.push(copy_bytes(cluster.nodes[i].share_encryption_key.as_slice()));
        i += 1;
    }
    Ok(keys)
}

/// A decision not to send stops a submission for good: nothing is asked for and
/// nothing is sent, whatever else is on record.
pub proof fn lemma_fenced_request_is_never_sent(
    journal: JournalView,
    config: &CorporateNativeConfig,
    cluster: &ClusterPublicConfig,
    id: Seq<char>,
    source_note: Option<Digest32>,
    facts: &SubmissionFacts,
    submitted: bool,
)
    requires
        journal.send_decision(id) matches Ok(Some(decision)) && !decision.may_send,
    ensures
        submission_step(journal, config, cluster, id, source_note, facts, submitted).0 == journal,
        submission_step(journal, config, cluster, id, source_note, facts, submitted).1 is Err,
{
}

/// A reserve is asked for only behind the decision to send: from then on the
/// request is never sealed as unsent.
pub proof fn lemma_asked_reserve_is_marked(
    journal: JournalView,
    config: &CorporateNativeConfig,
    cluster: &ClusterPublicConfig,
    id: Seq<char>,
    source_note: Option<Digest32>,
    facts: &SubmissionFacts,
    submitted: bool,
    other: Digest32,
    at: u64,
)
    requires
        submission_step(journal, config, cluster, id, source_note, facts, submitted).1 == Ok::<
            SubmissionStep,
            Seq<char>,
        >(SubmissionStep::FinalizeReservation),
    ensures
        ({
            let next = submission_step(
                journal,
                config,
                cluster,
                id,
                source_note,
                facts,
                submitted,
            ).0;
            &&& next.send_decision(id) matches Ok(Some(decision)) && decision.may_send
            &&& next.seal_never_dispatched(id, other, at).1 != Ok::<bool, Seq<char>>(true)
        }),
{
    let prepared = journal.reserve(id)->Ok_0->Some_0;
    lemma_started_send_is_never_sealed(
        journal,
        id,
        sha256_value(prepared.request.wire@),
        other,
        at,
    );
}

/// Once ciphertexts are saved, a submission never asks for the reserve again
/// and never encrypts again: it sends the saved ones or is done.
pub proof fn lemma_saved_delivery_is_reused(
    journal: JournalView,
    config: &CorporateNativeConfig,
    cluster: &ClusterPublicConfig,
    id: Seq<char>,
    source_note: Option<Digest32>,
    facts: &SubmissionFacts,
    submitted: bool,
)
    requires
        journal.delivery(id) matches Ok(Some(_)),
    ensures
        submission_step(journal, config, cluster, id, source_note, facts, submitted).1 matches Ok(
            step,
        ) ==> step is SubmitToNodes || step is Complete,
{
}

/// Once DeFMI's answer is saved, a submission never asks for the reserve again.
pub proof fn lemma_saved_admission_is_reused(
    journal: JournalView,
    config: &CorporateNativeConfig,
    cluster: &ClusterPublicConfig,
    id: Seq<char>,
    source_note: Option<Digest32>,
    facts: &SubmissionFacts,
    submitted: bool,
)
    requires
        journal.stage("admission"@, id) matches Ok(Some(_)),
    ensures
        submission_step(journal, config, cluster, id, source_note, facts, submitted).1 != Ok::<
            SubmissionStep,
            Seq<char>,
        >(SubmissionStep::FinalizeReservation),
{
}

/// A submission is complete only with a receipt that stands, and with the
/// selected note spent where one was selected.
pub proof fn lemma_complete_submission_stands(
    journal: JournalView,
    config: &CorporateNativeConfig,
    cluster: &ClusterPublicConfig,
    id: Seq<char>,
    source_note: Option<Digest32>,
    facts: &SubmissionFacts,
    submitted: bool,
)
    requires
        submission_step(journal, config, cluster, id, source_note, facts, submitted).1 matches Ok(
            step,
        ) && step is Complete,
    ensures
        journal.reserve(id) matches Ok(Some(prepared)) && prepared.fault(config, facts.reserve)
            is None,
        journal.delivery(id) matches Ok(Some(delivery)) && journal.receipt(id) matches Ok(
            Some(receipt),
        ) && receipt_refusal(&receipt, &delivery.delivery, cluster, &facts.receipt) is None,
        source_note is Some ==> facts.spent is Ok,
{
}

} // verus!
