//! The acceptance of queued expiry: two requests that expired while every node
//! was down, and the order that the returned note then funded.

use crate::bytes::{bytes_equal, hex_encode, hex_text, Digest32};
use crate::native_lifecycle_acceptance::{funded_by_note, is_funded_by_note, FundingReport};
use crate::native_reports::{all_stopped, field_text, seven_stopped, text_is, ReportField};
use crate::types::OrderCommitment;
use vstd::prelude::*;

verus! {

/// The longest log of the stopped worker.
pub const MAX_STOP_LOG_BYTES: usize = 65_536;

/// Check that all seven nodes were stopped.
pub fn check_nodes_stopped(text: &str) -> (r: Result<(), String>)
    ensures
        r is Ok == seven_stopped(text@),
        r matches Err(e) ==> e@
            == "all seven real MPC containers must be stopped during expiry"@,
{
    if !all_stopped(text) {
        return Err("all seven real MPC containers must be stopped during expiry".to_owned());
    }
    Ok(())
}

/// Where the last line that is not empty begins and ends; a line feed stands
/// between two lines.
pub open spec fn last_line(log: Seq<u8>, start: int, end: int) -> bool {
    &&& 0 <= start < end <= log.len()
    &&& start == 0 || log[start - 1] == 10
    &&& forall|i: int| start <= i < end ==> #[trigger] log[i] != 10
    &&& forall|i: int| end <= i < log.len() ==> #[trigger] log[i] == 10
}

/// The last event of the stopped worker's log: its last line that is not empty.
pub fn last_stop_event(log: &[u8]) -> (r: Result<(usize, usize), String>)
    ensures
        r is Ok == (log@.len() <= MAX_STOP_LOG_BYTES && exists|i: int|
            0 <= i < log@.len() && #[trigger] log@[i] != 10),
        r matches Ok((start, end)) ==> last_line(log@, start as int, end as int),
        r matches Err(e) ==> e@ == (if log@.len() > MAX_STOP_LOG_BYTES {
            "expiry stop log exceeds bound"@
        } else {
            "missing expiry stop event"@
        }),
{
    if log.len() > MAX_STOP_LOG_BYTES {
        return Err("expiry stop log exceeds bound".to_owned());
    }
    let mut end: usize = log.len();
    while end > 0 && log[end - 1] == 10
        invariant
            end <= log@.len(),
            forall|i: int| end <= i < log@.len() ==> #[trigger] log@[i] == 10,
        decreases end,
    {
        end -= 1;
    }
    if end == 0 {
        return Err("missing expiry stop event".to_owned());
    }
    let mut start: usize = end - 1;
    assert(log@[start as int] != 10);
    while start > 0 && log[start - 1] != 10
        invariant
            start < end <= log@.len(),
            forall|i: int| start <= i < end ==> #[trigger] log@[i] != 10,
        decreases start,
    {
        start -= 1;
    }
    Ok((start, end))
}

/// What the reports of a queued expiry say. A field that is absent, or of
/// another kind, is `None`; the two queues are encodings of lists.
pub struct QueuedExpiry {
    pub absent_status: Option<String>,
    pub absent_request: Option<String>,
    pub released_status: Option<String>,
    pub released_request: Option<String>,
    pub released_transaction: ReportField,
    pub stop_checkpoint: Option<String>,
    pub queue_before: Vec<u8>,
    pub queue_after: Vec<u8>,
    pub queue_length: Option<usize>,
    pub first_aborted: bool,
    pub second_transaction: ReportField,
    pub wallet_recovered: Option<bool>,
    pub wallet_balances_verified: Option<bool>,
    pub wallet_facility_sequence: Option<u64>,
    pub wallet_unfilled_releases: Option<u64>,
    pub funding: FundingReport,
}

/// One request never reserved anything, the other was released; the queue
/// survived a restart, and the returned note funded the next order.
pub open spec fn queued_expiry_stands(reports: &QueuedExpiry, order: OrderCommitment) -> bool {
    &&& field_text(reports.absent_status) == Some("never_reserved"@)
    &&& field_text(reports.absent_request) == Some("native-expiry-absent-001"@)
    &&& field_text(reports.released_status) == Some("released"@)
    &&& field_text(reports.released_request) == Some("native-expiry-release-002"@)
    &&& field_text(reports.stop_checkpoint) == Some("after-expiry-before-journal"@)
    &&& reports.queue_before@ == reports.queue_after@
    &&& reports.queue_length == Some(2usize)
    &&& reports.first_aborted
    &&& reports.second_transaction.encoded@ == reports.released_transaction.encoded@
    &&& reports.wallet_recovered == Some(true)
    &&& reports.wallet_balances_verified == Some(true)
    &&& reports.wallet_facility_sequence == Some(2u64)
    &&& reports.wallet_unfilled_releases == Some(1u64)
    &&& funded_by_note(&reports.funding, 3, order)
}

/// Check the reports of a queued expiry, and give the release's transaction.
pub fn check_queued_expiry(reports: &QueuedExpiry, order: &OrderCommitment) -> (r: Result<
    String,
    String,
>)
    ensures
        ({
            let transaction = field_text(reports.released_transaction.text);
            let stands = queued_expiry_stands(reports, *order);
            &&& r is Ok == (stands && transaction is Some)
            &&& r matches Ok(id) ==> Some(id@) == transaction
            &&& r matches Err(e) ==> e@ == (if !stands {
                "queued native expiry did not recover the exact request and reusable funds"@
            } else {
                "no release transaction"@
            })
        }),
{
    if !text_is(&reports.absent_status, "never_reserved") || !text_is(
        &reports.absent_request,
        "native-expiry-absent-001",
    ) || !text_is(&reports.released_status, "released") || !text_is(
        &reports.released_request,
        "native-expiry-release-002",
    ) || !text_is(&reports.stop_checkpoint, "after-expiry-before-journal") || !bytes_equal(
        reports.queue_before.as_slice(),
        reports.queue_after.as_slice(),
    ) || reports.queue_length != Some(2usize) || !reports.first_aborted || !bytes_equal(
        reports.second_transaction.encoded.as_slice(),
        reports.released_transaction.encoded.as_slice(),
    ) || reports.wallet_recovered != Some(true) || reports.wallet_balances_verified != Some(true)
        || reports.wallet_facility_sequence != Some(2u64) || reports.wallet_unfilled_releases
        != Some(1u64) || !is_funded_by_note(&reports.funding, 3, order) {
        return Err(
            "queued native expiry did not recover the exact request and reusable funds".to_owned(),
        );
    }
    match &reports.released_transaction.text {
        None => Err("no release transaction".to_owned()),
        Some(id) => Ok(id.clone()),
    }
}

/// A release's receipt as the corporate side reports it.
pub struct ReportedRelease {
    pub statement: Option<String>,
    pub before_root: Option<String>,
    pub after_root: Option<String>,
    pub block_id: Option<String>,
    pub height: Option<u64>,
}

/// A transaction as the ledger has accepted it.
pub struct AcceptedTransaction {
    pub statement: Digest32,
    pub before_root: Digest32,
    pub after_root: Digest32,
    pub block_id: String,
    pub height: u64,
}

/// A reported release is what the ledger accepted.
pub open spec fn release_is_canonical(
    reported: &ReportedRelease,
    accepted: &AcceptedTransaction,
) -> bool {
    &&& field_text(reported.statement) == Some(hex_text(accepted.statement@))
    &&& field_text(reported.before_root) == Some(hex_text(accepted.before_root@))
    &&& field_text(reported.after_root) == Some(hex_text(accepted.after_root@))
    &&& field_text(reported.block_id) == Some(accepted.block_id@)
    &&& reported.height == Some(accepted.height)
}

/// Check a reported release against the ledger.
pub fn check_canonical_release(reported: &ReportedRelease, accepted: &AcceptedTransaction) -> (r:
    Result<(), String>)
    ensures
        r is Ok == release_is_canonical(reported, accepted),
        r matches Err(e) ==> e@ == "corporate release receipt differs from canonical DeFMI"@,
{
    let statement = hex_encode(&accepted.statement);
    let before = hex_encode(&accepted.before_root);
    let after = hex_encode(&accepted.after_root);
    if !text_is(&reported.statement, statement.as_str()) || !text_is(
        &reported.before_root,
        before.as_str(),
    ) || !text_is(&reported.after_root, after.as_str()) || !text_is(
        &reported.block_id,
        accepted.block_id.as_str(),
    ) || reported.height != Some(accepted.height) {
        return Err("corporate release receipt differs from canonical DeFMI".to_owned());
    }
    Ok(())
}

/// Check that a node holds only the order that the refund funded.
pub fn check_fresh_order_only(record_count: usize) -> (r: Result<(), String>)
    ensures
        r is Ok == (record_count == 1),
        r matches Err(e) ==> e@
            == "MPC nodes did not receive only the fresh refund-funded order"@,
{
    if record_count != 1 {
        return Err("MPC nodes did not receive only the fresh refund-funded order".to_owned());
    }
    Ok(())
}

} // verus!
