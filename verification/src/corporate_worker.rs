//! The corporate worker as an operator sees it: how it is started, what it
//! waits for, and how long it rests.

use crate::bytes::{digest_equal, Digest32};
use crate::corporate_dispatch::DispatchProgress;
use crate::corporate_expiry::{ExpiryOutcome, OutcomeView};
use crate::corporate_journal::{AuthorizationEndReason, NativeCorporateJournal};
use crate::corporate_journal_model::{receipt_refusal, JournalView, ReceiptFacts};
use crate::store::text_result;
use crate::text::joined_text;
use crate::text_map::text_equal;
use crate::types::ClusterPublicConfig;
use vstd::prelude::*;

verus! {

/// How the corporate worker is started.
#[derive(Clone, Debug, PartialEq, Eq)]
pub enum CorporateWorkerMode {
    Run,
    Once,
    Status,
    PreparationStatus,
    Initialize,
    WaitAdmitted(String),
    WaitReconciled(String),
}

/// The mode that the arguments ask for.
pub open spec fn asks_for(mode: CorporateWorkerMode, args: Seq<String>) -> bool {
    match mode {
        CorporateWorkerMode::Run => args.len() == 0,
        CorporateWorkerMode::Once => args.len() == 1 && args[0]@ == "--once"@,
        CorporateWorkerMode::Status => args.len() == 1 && args[0]@ == "--status"@,
        CorporateWorkerMode::PreparationStatus => args.len() == 1 && args[0]@
            == "--preparation-status"@,
        CorporateWorkerMode::Initialize => args.len() == 1 && args[0]@ == "--initialize"@,
        CorporateWorkerMode::WaitAdmitted(id) => args.len() == 2 && args[0]@ == "--wait-admitted"@
            && id@ == args[1]@,
        CorporateWorkerMode::WaitReconciled(id) => args.len() == 2 && args[0]@
            == "--wait-reconciled"@ && id@ == args[1]@,
    }
}

/// Arguments that ask for some mode.
pub open spec fn worker_args_known(args: Seq<String>) -> bool {
    ||| args.len() == 0
    ||| args.len() == 1 && (args[0]@ == "--once"@ || args[0]@ == "--status"@ || args[0]@
        == "--preparation-status"@ || args[0]@ == "--initialize"@)
    ||| args.len() == 2 && (args[0]@ == "--wait-admitted"@ || args[0]@ == "--wait-reconciled"@)
}

/// Read the corporate worker's arguments.
pub fn parse_corporate_worker_args(args: &Vec<String>) -> (r: Result<CorporateWorkerMode, String>)
    ensures
        r is Ok == worker_args_known(args@),
        r matches Ok(mode) ==> asks_for(mode, args@),
        r matches Err(e) ==> e@
            == "usage: oclob-corporate-worker [--once|--status|--preparation-status|--initialize|--wait-admitted ID|--wait-reconciled ID]"@,
{
    if args.len() == 0 {
        return Ok(CorporateWorkerMode::Run);
    }
    let first = args[0].as_str();
    if args.len() == 1 {
        if text_equal(first, "--once") {
            return Ok(CorporateWorkerMode::Once);
        }
        if text_equal(first, "--status") {
            return Ok(CorporateWorkerMode::Status);
        }
        if text_equal(first, "--preparation-status") {
            return Ok(CorporateWorkerMode::PreparationStatus);
        }
        if text_equal(first, "--initialize") {
            return Ok(CorporateWorkerMode::Initialize);
        }
    }
    if args.len() == 2 {
        if text_equal(first, "--wait-admitted") {
            return Ok(CorporateWorkerMode::WaitAdmitted(args[1].clone()));
        }
        if text_equal(first, "--wait-reconciled") {
            return Ok(CorporateWorkerMode::WaitReconciled(args[1].clone()));
        }
    }
    Err(
        "usage: oclob-corporate-worker [--once|--status|--preparation-status|--initialize|--wait-admitted ID|--wait-reconciled ID]".to_owned(),
    )
}

/// The error for a setting that is missing.
pub fn missing_setting(name: &str) -> (text: String)
    ensures
        text@ == name@ + " is required"@,
{
    joined_text(name, " is required")
}

/// Check a configured file before it is read. A private one is for its owner
/// only.
pub fn check_configured_input(symlink: bool, is_file: bool, length: u64, private: bool, mode: u32) -> (r:
    Result<(), String>)
    ensures
        r is Ok == (is_file && !symlink && 0 < length <= 1_048_576 && (private ==> mode & 0o077
            == 0)),
        r matches Err(e) ==> e@ == "configured input is not a bounded safe file"@,
{
    if !is_file || symlink || length == 0 || length > 1_048_576 || (private && mode & 0o077 != 0) {
        return Err("configured input is not a bounded safe file".to_owned());
    }
    Ok(())
}

/// How long the worker rests after a turn, in seconds. A request that waits for
/// its canonical release or for a person is not asked for so often.
pub open spec fn rest_after(progress: &DispatchProgress) -> u64 {
    if progress is ReleaseReconciliationRequired || progress is ManualReviewRequired {
        10
    } else {
        2
    }
}

pub fn rest_seconds(progress: &DispatchProgress) -> (seconds: u64)
    ensures
        seconds == rest_after(progress),
{
    match progress {
        DispatchProgress::ReleaseReconciliationRequired { request_id: _ } => 10,
        DispatchProgress::ManualReviewRequired { request_id: _ } => 10,
        _ => 2,
    }
}

/// Where an entry of the queue has ended, if it has: before a reserve, or with
/// a canonical release.
pub enum EndedEntry {
    AbortedBeforeReserve,
    Released { transaction_id: String, ledger_height: u64, request_digest: Digest32 },
    Open,
}

/// What an operator is told of a reconciled request.
#[derive(Clone, Copy, Debug, PartialEq, Eq, Structural)]
pub enum ReconciledReport {
    /// It never reserved anything; the authorization was ended here.
    EndedUnsent { funding_rejected: bool },
    /// It never reserved anything, as the ledger showed.
    NeverReserved,
    /// Its reservation was released.
    Released,
}

/// What an operator is told of a request whose authorization ended here, or
/// that the ledger settled. `ended` is the local end, `outcome` the canonical
/// one; each is absent where there is none.
pub open spec fn reconciled_report(
    entry: &EndedEntry,
    ended: Option<AuthorizationEndReason>,
    outcome: Option<OutcomeView>,
    request_digest: Digest32,
) -> Option<ReconciledReport> {
    if entry is AbortedBeforeReserve && ended is Some {
        Some(
            ReconciledReport::EndedUnsent {
                funding_rejected: ended->0 is InsufficientFunding,
            },
        )
    } else {
        match (outcome, *entry) {
            (Some(OutcomeView::NeverReserved { .. }), EndedEntry::AbortedBeforeReserve) => Some(
                ReconciledReport::NeverReserved,
            ),
            (
                Some(OutcomeView::Released { transaction_id, height, .. }),
                EndedEntry::Released { transaction_id: settled, ledger_height, request_digest: bound },
            ) => if settled@ == transaction_id && ledger_height == height && bound
                == request_digest {
                Some(ReconciledReport::Released)
            } else {
                None
            },
            _ => None,
        }
    }
}

/// Find what an operator is told of a request, if it is reconciled.
pub fn report_reconciled(
    entry: &EndedEntry,
    ended: Option<AuthorizationEndReason>,
    outcome: Option<&ExpiryOutcome>,
    request_digest: &Digest32,
) -> (report: Option<ReconciledReport>)
    ensures
        report == reconciled_report(
            entry,
            ended,
            match outcome {
                Some(outcome) => Some(outcome@),
                None => None,
            },
            *request_digest,
        ),
{
    match (entry, ended) {
        (EndedEntry::AbortedBeforeReserve, Some(reason)) => {
            return Some(
                ReconciledReport::EndedUnsent {
                    funding_rejected: reason == AuthorizationEndReason::InsufficientFunding,
                },
            );
        },
        _ => {},
    }
    match (outcome, entry) {
        (Some(ExpiryOutcome::NeverReserved { state_root: _ }), EndedEntry::AbortedBeforeReserve) => {
            Some(ReconciledReport::NeverReserved)
        },
        (
            Some(
                ExpiryOutcome::Released {
                    release: _,
                    transaction_id,
                    block_id: _,
                    height,
                    after_root: _,
                },
            ),
            EndedEntry::Released { transaction_id: settled, ledger_height, request_digest: bound },
        ) => {
            if text_equal(settled.as_str(), transaction_id.as_str()) && *ledger_height == *height
                && digest_equal(bound, request_digest) {
                Some(ReconciledReport::Released)
            } else {
                None
            }
        },
        _ => None,
    }
}

/// What waiting does next.
#[derive(Clone, Copy, Debug, PartialEq, Eq, Structural)]
pub enum Waiting {
    Report,
    Wait,
}

/// Whether a wait is over. `admission` tells whether an admission is awaited;
/// else a reconciliation is.
pub fn wait_for_entry(reached: bool, before_deadline: bool, admission: bool) -> (r: Result<
    Waiting,
    String,
>)
    ensures
        text_result(r) == (if reached {
            Ok::<Waiting, Seq<char>>(Waiting::Report)
        } else if before_deadline {
            Ok(Waiting::Wait)
        } else if admission {
            Err("timed out waiting for actual worker admission"@)
        } else {
            Err("timed out waiting for canonical expiry reconciliation"@)
        }),
{
    if reached {
        Ok(Waiting::Report)
    } else if before_deadline {
        Ok(Waiting::Wait)
    } else if admission {
        Err("timed out waiting for actual worker admission".to_owned())
    } else {
        Err("timed out waiting for canonical expiry reconciliation".to_owned())
    }
}

impl JournalView {
    /// Why an admission that the queue reports does not stand, if it does not.
    pub open spec fn queue_admission_fault(
        self,
        id: Seq<char>,
        cluster: &ClusterPublicConfig,
        facts: &ReceiptFacts,
    ) -> Option<Seq<char>> {
        match self.receipt(id) {
            Err(text) => Some(text),
            Ok(None) => Some("queue admission has no durable node receipt"@),
            Ok(Some(receipt)) => match self.delivery(id) {
                Err(text) => Some(text),
                Ok(None) => Some("queue admission has no delivery"@),
                Ok(Some(delivery)) => match self.intent(id) {
                    Err(text) => Some(text),
                    Ok(None) => Some("queue admission has no intent"@),
                    Ok(Some(_)) => receipt_refusal(&receipt, &delivery.delivery, cluster, facts),
                },
            },
        }
    }
}

impl NativeCorporateJournal {
    /// Check an admission that the queue reports against the journal, and give
    /// the digest of its receipt.
    pub fn check_queue_admission(
        &self,
        id: &str,
        cluster: &ClusterPublicConfig,
        facts: &ReceiptFacts,
    ) -> (r: Result<Digest32, String>)
        requires
            self.wf(),
            facts.complete(),
        ensures
            ({
                let fault = self@.queue_admission_fault(id@, cluster, facts);
                &&& r is Ok == fault is None
                &&& r matches Err(e) ==> Some(e@) == fault
                &&& r matches Ok(digest) ==> (self@.receipt(id@) matches Ok(Some(receipt))
                    && receipt.receipt_digest == digest)
            }),
    {
        let receipt = match self.receipt(id) {
            Err(e) => return Err(e),
            Ok(None) => return Err("queue admission has no durable node receipt".to_owned()),
            Ok(Some(receipt)) => receipt,
        };
        let delivery = match self.delivery(id) {
            Err(e) => return Err(e),
            Ok(None) => return Err("queue admission has no delivery".to_owned()),
            Ok(Some(delivery)) => delivery,
        };
        match self.intent(id) {
            Err(e) => return Err(e),
            Ok(None) => return Err("queue admission has no intent".to_owned()),
            Ok(Some(_)) => {},
        }
        match NativeCorporateJournal::verify_receipt(receipt, delivery, cluster, facts) {
            Err(e) => Err(e),
            Ok(_) => Ok(receipt.receipt_digest),
        }
    }
}

} // verus!
