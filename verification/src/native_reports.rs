//! The reports that a native acceptance run reads back: what each of them has
//! to say, and what follows from all of them.

use crate::bytes::{
    bytes_equal, copy_bytes, digest_equal, digest_is_zero, hex_bytes, hex_decode, hex_encode, hex_error,
    hex_text, hexadecimal, is_zero, text_bytes, to_digest, Digest32,
};
use crate::edge_client::EdgeAdmissionReceipt;
use crate::lines::{line_views, lines_of, split_lines};
use crate::text::{trim, trimmed};
use crate::text_map::text_equal;
use crate::types::{ClusterPublicConfig, OrderCommitment, MPC_PARTIES};
use vstd::prelude::*;

verus! {

/// The largest file that an acceptance run reads.
pub const MAX_INPUT_BYTES: u64 = 1_048_576;

/// Check a file before it is read.
pub fn check_input_file(is_file: bool, length: u64) -> (r: Result<(), String>)
    ensures
        r is Ok == (is_file && length <= MAX_INPUT_BYTES),
        r matches Err(e) ==> e@ == "native input file is outside its bound"@,
{
    if !is_file || length > MAX_INPUT_BYTES {
        return Err("native input file is outside its bound".to_owned());
    }
    Ok(())
}

/// The 32 bytes that a hexadecimal text spells.
pub open spec fn hex_digest(text: Seq<char>) -> Option<Digest32> {
    let bytes = hex_bytes(text_bytes(text));
    if hexadecimal(text_bytes(text)) && bytes.len() == 32 {
        Some(digest_of(bytes))
    } else {
        None
    }
}

/// The array with these 32 bytes.
pub open spec fn digest_of(bytes: Seq<u8>) -> Digest32 {
    choose|digest: Digest32| digest@ == bytes
}

/// Why a text is not 32 bytes in hexadecimal, if it is not.
pub open spec fn digest_fault(text: Seq<char>, length: Seq<char>) -> Option<Seq<char>> {
    if !hexadecimal(text_bytes(text)) {
        Some(hex_error(text))
    } else if hex_digest(text) is None {
        Some(length)
    } else {
        None
    }
}

/// Read 32 bytes in hexadecimal. `length` is what to report of another length.
fn read_digest(text: &str, length: &str) -> (r: Result<Digest32, String>)
    ensures
        r is Ok == digest_fault(text@, length@) is None,
        r matches Ok(digest) ==> Some(digest) == hex_digest(text@),
        r matches Err(e) ==> Some(e@) == digest_fault(text@, length@),
{
    match hex_decode(text) {
        Err(e) => Err(e),
        Ok(bytes) => match to_digest(&bytes) {
            None => Err(length.to_owned()),
            Some(digest) => {
                proof {
                    crate::bytes::lemma_digest_view(digest, digest_of(bytes@));
                }
                Ok(digest)
            },
        },
    }
}

/// A value of a report: its exact encoding, and its text where it is one.
pub struct ReportField {
    pub encoded: Vec<u8>,
    pub text: Option<String>,
}

pub open spec fn field_text(field: Option<String>) -> Option<Seq<char>> {
    match field {
        Some(text) => Some(text@),
        None => None,
    }
}

pub(crate) fn text_is(field: &Option<String>, expected: &str) -> (same: bool)
    ensures
        same == (field_text(*field) == Some(expected@)),
{
    match field {
        Some(text) => text_equal(text.as_str(), expected),
        None => false,
    }
}

/// The report of one settled round. A field that is absent, or of another
/// kind, is `None`.
pub struct RoundReport {
    pub contract_sha256: Option<String>,
    pub native_note_settlement: Option<bool>,
    pub atomically_settled_fills: Option<u64>,
    pub node_observed_canonical_finality: Option<u64>,
    pub claim_authorization_response_signatures: Option<u64>,
    pub claim_authorization_key_fingerprints: Option<Vec<Option<String>>>,
    pub post_match_participant_signatures: Option<u64>,
    pub fresh_claim_authorization_keys: Option<u64>,
    pub post_match_financial_approval_signatures: Option<u64>,
    pub trade_price: Option<u64>,
    pub trade_quantity: Option<u64>,
    pub maker_head_sequence_before: Option<u64>,
    pub maker_head_sequence_after: Option<u64>,
    pub arriving_order_commitment: Option<String>,
    pub canonical_transaction: ReportField,
    pub native_after_root: ReportField,
}

/// The report of the order that a recovered note funded.
pub struct ReuseReport {
    pub order_commitment: Option<String>,
    pub selected_funding_note_spent_verified: Option<bool>,
    pub canonical_reserve_verified: Option<bool>,
    pub facility_sequence: Option<u64>,
}

/// Why a round's list of fingerprints cannot be read, if it cannot.
pub open spec fn list_fault(list: Option<Vec<Option<String>>>, first: bool) -> Option<Seq<char>> {
    match list {
        None => Some(
            if first {
                "first native round lacks claim key fingerprints"@
            } else {
                "next native round lacks claim key fingerprints"@
            },
        ),
        Some(values) => if exists|i: int| 0 <= i < values@.len() && (#[trigger] values@[i]) is None {
            Some(
                if first {
                    "first native round has an invalid claim key fingerprint"@
                } else {
                    "next native round has an invalid claim key fingerprint"@
                },
            )
        } else {
            None
        },
    }
}

fn check_list(list: &Option<Vec<Option<String>>>, first: bool) -> (r: Result<(), String>)
    ensures
        r is Ok == list_fault(*list, first) is None,
        r matches Err(e) ==> Some(e@) == list_fault(*list, first),
{
    let values = match list {
        None => {
            return Err(
                if first {
                    "first native round lacks claim key fingerprints".to_owned()
                } else {
                    "next native round lacks claim key fingerprints".to_owned()
                },
            );
        },
        Some(values) => values,
    };
    let mut i: usize = 0;
    while i < values.len()
        invariant
            *list == Some(*values),
            i <= values@.len(),
            forall|j: int| 0 <= j < i ==> (#[trigger] values@[j]) is Some,
        decreases values@.len() - i,
    {
        if values[i].is_none() {
            assert(values@[i as int] is None);
            return Err(
                if first {
                    "first native round has an invalid claim key fingerprint".to_owned()
                } else {
                    "next native round has an invalid claim key fingerprint".to_owned()
                },
            );
        }
        assert(values@[i as int] is Some);
        i += 1;
    }
    Ok(())
}

/// The claim keys that the first `count` fingerprints name, or why they name
/// none: each is 32 bytes in hexadecimal, and no key occurs twice.
pub open spec fn claim_keys(fingerprints: Seq<Option<String>>, count: nat) -> Result<
    Seq<Digest32>,
    Seq<char>,
>
    decreases count,
{
    if count == 0 {
        Ok(Seq::empty())
    } else {
        match claim_keys(fingerprints, (count - 1) as nat) {
            Err(text) => Err(text),
            Ok(earlier) => {
                let text = (fingerprints[count - 1]->0)@;
                match digest_fault(
                    text,
                    "claim authorization key fingerprint has incorrect length"@,
                ) {
                    Some(fault) => Err(fault),
                    None => if earlier.contains(hex_digest(text)->0) {
                        Err("claim authorization key was reused across native rounds"@)
                    } else {
                        Ok(earlier.push(hex_digest(text)->0))
                    },
                }
            },
        }
    }
}

proof fn lemma_claim_keys_error(fingerprints: Seq<Option<String>>, at: nat, count: nat)
    requires
        at <= count,
        claim_keys(fingerprints, at) is Err,
    ensures
        claim_keys(fingerprints, count) == claim_keys(fingerprints, at),
    decreases count,
{
    if at < count {
        lemma_claim_keys_error(fingerprints, at, (count - 1) as nat);
    }
}

fn digest_listed(list: &Vec<Digest32>, wanted: &Digest32) -> (found: bool)
    ensures
        found == list@.contains(*wanted),
{
    let mut i: usize = 0;
    while i < list.len()
        invariant
            i <= list@.len(),
            forall|j: int| 0 <= j < i ==> #[trigger] list@[j] != *wanted,
        decreases list@.len() - i,
    {
        if digest_equal(&list[i], wanted) {
            assert(list@[i as int] == *wanted);
            return true;
        }
        i += 1;
    }
    false
}

/// Read one list of fingerprints behind the keys that were read before.
fn read_claim_keys(
    keys: &mut Vec<Digest32>,
    list: &Vec<Option<String>>,
    Ghost(all): Ghost<Seq<Option<String>>>,
    Ghost(from): Ghost<nat>,
) -> (r: Result<(), String>)
    requires
        from + list@.len() <= all.len(),
        forall|i: int| 0 <= i < list@.len() ==> all[from + i] == #[trigger] list@[i],
        forall|i: int| 0 <= i < list@.len() ==> (#[trigger] list@[i]) is Some,
        claim_keys(all, from) == Ok::<Seq<Digest32>, Seq<char>>(old(keys)@),
    ensures
        match claim_keys(all, (from + list@.len()) as nat) {
            Ok(read) => r is Ok && final(keys)@ == read,
            Err(text) => r matches Err(e) && e@ == text,
        },
{
    let mut i: usize = 0;
    while i < list.len()
        invariant
            i <= list@.len(),
            from + list@.len() <= all.len(),
            forall|j: int| 0 <= j < list@.len() ==> all[from + j] == #[trigger] list@[j],
            forall|j: int| 0 <= j < list@.len() ==> (#[trigger] list@[j]) is Some,
            claim_keys(all, (from + i) as nat) == Ok::<Seq<Digest32>, Seq<char>>(keys@),
        decreases list@.len() - i,
    {
        let ghost at = (from + i + 1) as nat;
        let ghost total = (from + list@.len()) as nat;
        assert(all[from + i] == list@[i as int]);
        match &list[i] {
            None => {},
            Some(text) => {
                match read_digest(
                    text.as_str(),
                    "claim authorization key fingerprint has incorrect length",
                ) {
                    Err(e) => {
                        proof {
                            lemma_claim_keys_error(all, at, total);
                        }
                        return Err(e);
                    },
                    Ok(key) => {
                        if digest_listed(keys, &key) {
                            proof {
                                lemma_claim_keys_error(all, at, total);
                            }
                            return Err(
                                "claim authorization key was reused across native rounds".to_owned(),
                            );
                        }
                        keys.push(key);
                    },
                }
            },
        }
        i += 1;
    }
    Ok(())
}

/// What two rounds say of their claim signers.
pub struct CycleClaims {
    pub first_signatures: u64,
    pub next_signatures: u64,
    pub keys: Vec<Digest32>,
}

/// All fingerprints of two rounds, in order.
pub open spec fn both_lists(first: &RoundReport, next: &RoundReport) -> Seq<Option<String>> {
    (first.claim_authorization_key_fingerprints->0)@ + (
    next.claim_authorization_key_fingerprints->0)@
}

/// Why the claim evidence of two rounds does not stand, if it does not.
pub open spec fn claims_fault(first: &RoundReport, next: &RoundReport) -> Option<Seq<char>> {
    if first.claim_authorization_response_signatures is None {
        Some("first native round lacks claim response evidence"@)
    } else if next.claim_authorization_response_signatures is None {
        Some("next native round lacks claim response evidence"@)
    } else if list_fault(first.claim_authorization_key_fingerprints, true) is Some {
        list_fault(first.claim_authorization_key_fingerprints, true)
    } else if list_fault(next.claim_authorization_key_fingerprints, false) is Some {
        list_fault(next.claim_authorization_key_fingerprints, false)
    } else {
        let all = both_lists(first, next);
        match claim_keys(all, all.len()) {
            Err(text) => Some(text),
            Ok(_) => None,
        }
    }
}

/// Read the claim evidence of two rounds.
pub fn collect_claims(first: &RoundReport, next: &RoundReport) -> (r: Result<CycleClaims, String>)
    ensures
        r is Ok == claims_fault(first, next) is None,
        r matches Err(e) ==> Some(e@) == claims_fault(first, next),
        r matches Ok(claims) ==> {
            let all = both_lists(first, next);
            &&& first.claim_authorization_response_signatures == Some(claims.first_signatures)
            &&& next.claim_authorization_response_signatures == Some(claims.next_signatures)
            &&& claim_keys(all, all.len()) == Ok::<Seq<Digest32>, Seq<char>>(claims.keys@)
        },
{
    let first_signatures: u64 = match first.claim_authorization_response_signatures {
        None => {
            return Err("first native round lacks claim response evidence".to_owned());
        },
        Some(count) => count,
    };
    let next_signatures: u64 = match next.claim_authorization_response_signatures {
        None => {
            return Err("next native round lacks claim response evidence".to_owned());
        },
        Some(count) => count,
    };
    match check_list(&first.claim_authorization_key_fingerprints, true) {
        Err(e) => return Err(e),
        Ok(_) => {},
    }
    match check_list(&next.claim_authorization_key_fingerprints, false) {
        Err(e) => return Err(e),
        Ok(_) => {},
    }
    let ghost all = both_lists(first, next);
    let mut keys: Vec<Digest32> = Vec::new();
    assert(keys@ =~= Seq::<Digest32>::empty());
    match (&first.claim_authorization_key_fingerprints, &next.claim_authorization_key_fingerprints) {
        (Some(first_list), Some(next_list)) => {
            let ghost middle = first_list@.len();
            assert(forall|i: int| 0 <= i < first_list@.len() ==> all[i] == first_list@[i]);
            match read_claim_keys(&mut keys, first_list, Ghost(all), Ghost(0)) {
                Err(e) => {
                    proof {
                        lemma_claim_keys_error(all, middle, all.len());
                    }
                    return Err(e);
                },
                Ok(_) => {},
            }
            match read_claim_keys(&mut keys, next_list, Ghost(all), Ghost(middle)) {
                Err(e) => return Err(e),
                Ok(_) => {},
            }
        },
        _ => {},
    }
    Ok(CycleClaims { first_signatures, next_signatures, keys })
}

/// No claim key is used twice over the rounds of a cycle.
pub proof fn lemma_claim_keys_are_fresh(fingerprints: Seq<Option<String>>, count: nat)
    requires
        claim_keys(fingerprints, count) is Ok,
    ensures
        (claim_keys(fingerprints, count)->Ok_0).no_duplicates(),
        (claim_keys(fingerprints, count)->Ok_0).len() == count,
    decreases count,
{
    if count > 0 {
        lemma_claim_keys_are_fresh(fingerprints, (count - 1) as nat);
    }
}

/// Two rounds that settled exactly the refund-funded second match.
pub open spec fn cycle_stands(
    first: &RoundReport,
    next: &RoundReport,
    source: &ReuseReport,
    reuse: OrderCommitment,
    contract_hash: Seq<char>,
) -> bool {
    &&& field_text(first.contract_sha256) == Some(contract_hash)
    &&& field_text(next.contract_sha256) == Some(contract_hash)
    &&& first.native_note_settlement == Some(true)
    &&& next.native_note_settlement == Some(true)
    &&& first.atomically_settled_fills == Some(2u64)
    &&& next.atomically_settled_fills == Some(1u64)
    &&& first.node_observed_canonical_finality == Some(14u64)
    &&& next.node_observed_canonical_finality == Some(7u64)
    &&& first.claim_authorization_response_signatures == Some(4u64)
    &&& next.claim_authorization_response_signatures == Some(2u64)
    &&& (first.claim_authorization_key_fingerprints->0)@.len() == 8
    &&& (next.claim_authorization_key_fingerprints->0)@.len() == 4
    &&& first.post_match_participant_signatures == Some(4u64)
    &&& next.post_match_participant_signatures == Some(2u64)
    &&& first.fresh_claim_authorization_keys == Some(8u64)
    &&& next.fresh_claim_authorization_keys == Some(4u64)
    &&& first.post_match_financial_approval_signatures == Some(0u64)
    &&& next.post_match_financial_approval_signatures == Some(0u64)
    &&& next.trade_price == Some(101u64)
    &&& next.trade_quantity == Some(1u64)
    &&& next.maker_head_sequence_before == Some(1u64)
    &&& next.maker_head_sequence_after == Some(2u64)
    &&& field_text(next.arriving_order_commitment) == Some(reuse.key())
    &&& field_text(source.order_commitment) == Some(reuse.key())
    &&& source.selected_funding_note_spent_verified == Some(true)
    &&& source.canonical_reserve_verified == Some(true)
    &&& source.facility_sequence == Some(4u64)
    &&& first.canonical_transaction.encoded@ != next.canonical_transaction.encoded@
}

fn cycle_holds(
    first: &RoundReport,
    next: &RoundReport,
    source: &ReuseReport,
    reuse: &OrderCommitment,
    contract_hash: &str,
) -> (stands: bool)
    requires
        first.claim_authorization_key_fingerprints is Some,
        next.claim_authorization_key_fingerprints is Some,
    ensures
        stands == cycle_stands(first, next, source, *reuse, contract_hash@),
{
    let first_keys: usize = match &first.claim_authorization_key_fingerprints {
        Some(list) => list.len(),
        None => 0,
    };
    let next_keys: usize = match &next.claim_authorization_key_fingerprints {
        Some(list) => list.len(),
        None => 0,
    };
    let commitment = reuse.hex();
    text_is(&first.contract_sha256, contract_hash) && text_is(&next.contract_sha256, contract_hash)
        && first.native_note_settlement == Some(true) && next.native_note_settlement == Some(true)
        && first.atomically_settled_fills == Some(2u64) && next.atomically_settled_fills == Some(
        1u64,
    ) && first.node_observed_canonical_finality == Some(14u64)
        && next.node_observed_canonical_finality == Some(7u64)
        && first.claim_authorization_response_signatures == Some(4u64)
        && next.claim_authorization_response_signatures == Some(2u64) && first_keys == 8
        && next_keys == 4 && first.post_match_participant_signatures == Some(4u64)
        && next.post_match_participant_signatures == Some(2u64)
        && first.fresh_claim_authorization_keys == Some(8u64)
        && next.fresh_claim_authorization_keys == Some(4u64)
        && first.post_match_financial_approval_signatures == Some(0u64)
        && next.post_match_financial_approval_signatures == Some(0u64) && next.trade_price == Some(
        101u64,
    ) && next.trade_quantity == Some(1u64) && next.maker_head_sequence_before == Some(1u64)
        && next.maker_head_sequence_after == Some(2u64) && text_is(
        &next.arriving_order_commitment,
        commitment.as_str(),
    ) && text_is(&source.order_commitment, commitment.as_str())
        && source.selected_funding_note_spent_verified == Some(true)
        && source.canonical_reserve_verified == Some(true) && source.facility_sequence == Some(4u64)
        && !bytes_equal(
        first.canonical_transaction.encoded.as_slice(),
        next.canonical_transaction.encoded.as_slice(),
    )
}

/// Which acceptance a wallet's report belongs to.
#[derive(Clone, Copy, Debug, PartialEq, Eq, Structural)]
pub enum WalletKind {
    Cycle,
    Wallet,
}

/// The report of a recovered wallet.
pub struct WalletReport {
    pub wallet_recovered: Option<bool>,
    pub expected_private_balances_verified: Option<bool>,
    pub notes: Option<u64>,
    pub facility_sequence: Option<u64>,
    pub canonical_notes: Option<Vec<Option<String>>>,
    pub facility_id: Option<String>,
}

/// The text to report of a note that has another length.
pub open spec fn note_length(kind: WalletKind) -> Seq<char> {
    match kind {
        WalletKind::Cycle => "invalid cycle note length"@,
        WalletKind::Wallet => "recovered note ID has wrong length"@,
    }
}

/// Why a listed note names no identifier, if it names none.
pub open spec fn note_fault(kind: WalletKind, note: Option<String>) -> Option<Seq<char>> {
    match note {
        None => Some(
            match kind {
                WalletKind::Cycle => "invalid cycle note"@,
                WalletKind::Wallet => "invalid recovered note ID"@,
            },
        ),
        Some(text) => digest_fault(text@, note_length(kind)),
    }
}

/// The identifier of a listed note, which the ledger is asked for.
pub fn note_id(kind: WalletKind, note: &Option<String>) -> (r: Result<Digest32, String>)
    ensures
        r is Ok == note_fault(kind, *note) is None,
        r matches Ok(id) ==> Some(id) == hex_digest((note->0)@),
        r matches Err(e) ==> Some(e@) == note_fault(kind, *note),
{
    match note {
        None => Err(
            match kind {
                WalletKind::Cycle => "invalid cycle note".to_owned(),
                WalletKind::Wallet => "invalid recovered note ID".to_owned(),
            },
        ),
        Some(text) => match kind {
            WalletKind::Cycle => read_digest(text.as_str(), "invalid cycle note length"),
            WalletKind::Wallet => read_digest(text.as_str(), "recovered note ID has wrong length"),
        },
    }
}

/// Check that the ledger has a note, unlocked, under its own identifier.
pub fn check_note(kind: WalletKind, id: &Digest32, note_id: &Digest32, lock_id: &Digest32) -> (r:
    Result<(), String>)
    ensures
        r is Ok == (*note_id == *id && is_zero(lock_id@)),
        r matches Err(e) ==> e@ == (match kind {
            WalletKind::Cycle => "cycle note is not the canonical recipient output"@,
            WalletKind::Wallet => "recovered note is not the actual unlocked canonical output"@,
        }),
{
    if !digest_equal(note_id, id) || !digest_is_zero(lock_id) {
        return Err(
            match kind {
                WalletKind::Cycle => "cycle note is not the canonical recipient output".to_owned(),
                WalletKind::Wallet =>
                "recovered note is not the actual unlocked canonical output".to_owned(),
            },
        );
    }
    Ok(())
}

/// Why a report does not name its facility, if it does not.
pub open spec fn facility_fault(kind: WalletKind, report: &WalletReport) -> Option<Seq<char>> {
    match report.facility_id {
        None => Some(
            match kind {
                WalletKind::Cycle => "cycle facility absent"@,
                WalletKind::Wallet => "facility ID absent"@,
            },
        ),
        Some(text) => digest_fault(
            text@,
            match kind {
                WalletKind::Cycle => "cycle facility length differs"@,
                WalletKind::Wallet => "facility ID has wrong length"@,
            },
        ),
    }
}

/// The facility that a wallet's report names.
pub fn report_facility(kind: WalletKind, report: &WalletReport) -> (r: Result<Digest32, String>)
    ensures
        r is Ok == facility_fault(kind, report) is None,
        r matches Err(e) ==> Some(e@) == facility_fault(kind, report),
        r matches Ok(id) ==> Some(id) == hex_digest((report.facility_id->0)@),
{
    match &report.facility_id {
        None => Err(
            match kind {
                WalletKind::Cycle => "cycle facility absent".to_owned(),
                WalletKind::Wallet => "facility ID absent".to_owned(),
            },
        ),
        Some(text) => match kind {
            WalletKind::Cycle => read_digest(text.as_str(), "cycle facility length differs"),
            WalletKind::Wallet => read_digest(text.as_str(), "facility ID has wrong length"),
        },
    }
}

/// Check a facility's place on the ledger.
pub fn check_facility(kind: WalletKind, canonical: u64, expected: u64) -> (r: Result<(), String>)
    ensures
        r is Ok == (canonical == expected),
        r matches Err(e) ==> e@ == (match kind {
            WalletKind::Cycle => "canonical cycle facility differs from the private witness"@,
            WalletKind::Wallet => "canonical facility did not advance through wallet reuse"@,
        }),
{
    if canonical != expected {
        return Err(
            match kind {
                WalletKind::Cycle =>
                "canonical cycle facility differs from the private witness".to_owned(),
                WalletKind::Wallet =>
                "canonical facility did not advance through wallet reuse".to_owned(),
            },
        );
    }
    Ok(())
}

/// What the ledger says of a note.
pub struct LedgerNote {
    pub note_id: Digest32,
    pub lock_id: Digest32,
}

/// A wallet's report, and what the ledger answered on it: each listed note, in
/// order, and the place of the facility. An answer that did not come is the
/// text of its failure.
pub struct WalletEvidence {
    pub report: WalletReport,
    pub notes: Vec<Result<LedgerNote, String>>,
    pub facility: Result<u64, String>,
}

/// The text to report of a note that the ledger does not have as listed.
pub open spec fn note_differs(kind: WalletKind) -> Seq<char> {
    match kind {
        WalletKind::Cycle => "cycle note is not the canonical recipient output"@,
        WalletKind::Wallet => "recovered note is not the actual unlocked canonical output"@,
    }
}

/// Why one listed note does not stand, if it does not: it names an identifier,
/// the ledger answered, and has the note unlocked under that identifier.
pub open spec fn listed_fault(
    kind: WalletKind,
    note: Option<String>,
    answer: Option<Result<LedgerNote, String>>,
) -> Option<Seq<char>> {
    if note_fault(kind, note) is Some {
        note_fault(kind, note)
    } else {
        match answer {
            None => Some(note_differs(kind)),
            Some(Err(text)) => Some(text@),
            Some(Ok(found)) => if Some(found.note_id) != hex_digest((note->0)@) || !is_zero(
                found.lock_id@,
            ) {
                Some(note_differs(kind))
            } else {
                None
            },
        }
    }
}

/// The answer on the note at an index.
pub open spec fn answer_at(answers: Seq<Result<LedgerNote, String>>, index: int) -> Option<
    Result<LedgerNote, String>,
> {
    if index < answers.len() {
        Some(answers[index])
    } else {
        None
    }
}

/// Why the first `count` listed notes do not stand, if they do not.
pub open spec fn notes_fault(
    kind: WalletKind,
    notes: Seq<Option<String>>,
    answers: Seq<Result<LedgerNote, String>>,
    count: nat,
) -> Option<Seq<char>>
    decreases count,
{
    if count == 0 {
        None
    } else if notes_fault(kind, notes, answers, (count - 1) as nat) is Some {
        notes_fault(kind, notes, answers, (count - 1) as nat)
    } else {
        listed_fault(kind, notes[count - 1], answer_at(answers, count - 1))
    }
}

proof fn lemma_notes_fault_stays(
    kind: WalletKind,
    notes: Seq<Option<String>>,
    answers: Seq<Result<LedgerNote, String>>,
    at: nat,
    count: nat,
)
    requires
        at <= count,
        notes_fault(kind, notes, answers, at) is Some,
    ensures
        notes_fault(kind, notes, answers, count) == notes_fault(kind, notes, answers, at),
    decreases count,
{
    if at < count {
        lemma_notes_fault_stays(kind, notes, answers, at, (count - 1) as nat);
    }
}

/// Why a wallet does not stand, if it does not: its report verified exactly
/// `count` notes and its facility at `sequence`, and the ledger has every note
/// that it lists.
pub open spec fn wallet_fault(
    kind: WalletKind,
    wallet: &WalletEvidence,
    count: u64,
    sequence: u64,
) -> Option<Seq<char>> {
    let report = wallet.report;
    if report.wallet_recovered != Some(true) || report.expected_private_balances_verified != Some(
        true,
    ) || report.notes != Some(count) || report.facility_sequence != Some(sequence) {
        Some(
            match kind {
                WalletKind::Cycle =>
                    "corporate cycle recovery did not validate the expected balances"@,
                WalletKind::Wallet =>
                    "corporate recovery report did not verify its actual wallet"@,
            },
        )
    } else {
        match report.canonical_notes {
            None => Some(
                match kind {
                    WalletKind::Cycle => "cycle notes missing"@,
                    WalletKind::Wallet => "recovered canonical notes absent"@,
                },
            ),
            Some(notes) => if notes@.len() != count {
                Some(
                    match kind {
                        WalletKind::Cycle => "cycle note count differs"@,
                        WalletKind::Wallet => "wallet note count differs"@,
                    },
                )
            } else {
                notes_fault(kind, notes@, wallet.notes@, notes@.len())
            },
        }
    }
}

fn check_listed(kind: WalletKind, note: &Option<String>, answer: Option<&Result<LedgerNote, String>>)
    -> (r: Result<(), String>)
    ensures
        ({
            let given = match answer {
                Some(answer) => Some(*answer),
                None => None,
            };
            &&& r is Ok == listed_fault(kind, *note, given) is None
            &&& r matches Err(e) ==> Some(e@) == listed_fault(kind, *note, given)
        }),
{
    let id = match note_id(kind, note) {
        Err(e) => return Err(e),
        Ok(id) => id,
    };
    match answer {
        None => Err(
            match kind {
                WalletKind::Cycle => "cycle note is not the canonical recipient output".to_owned(),
                WalletKind::Wallet =>
                "recovered note is not the actual unlocked canonical output".to_owned(),
            },
        ),
        Some(Err(text)) => Err(text.clone()),
        Some(Ok(found)) => check_note(kind, &id, &found.note_id, &found.lock_id),
    }
}

/// Check a wallet's report, and every note that it lists against the ledger.
pub fn check_wallet(kind: WalletKind, wallet: &WalletEvidence, count: u64, sequence: u64) -> (r:
    Result<(), String>)
    ensures
        r is Ok == wallet_fault(kind, wallet, count, sequence) is None,
        r matches Err(e) ==> Some(e@) == wallet_fault(kind, wallet, count, sequence),
{
    let report = &wallet.report;
    if report.wallet_recovered != Some(true) || report.expected_private_balances_verified != Some(
        true,
    ) || report.notes != Some(count) || report.facility_sequence != Some(sequence) {
        return Err(
            match kind {
                WalletKind::Cycle =>
                "corporate cycle recovery did not validate the expected balances".to_owned(),
                WalletKind::Wallet =>
                "corporate recovery report did not verify its actual wallet".to_owned(),
            },
        );
    }
    let notes = match &report.canonical_notes {
        None => {
            return Err(
                match kind {
                    WalletKind::Cycle => "cycle notes missing".to_owned(),
                    WalletKind::Wallet => "recovered canonical notes absent".to_owned(),
                },
            );
        },
        Some(notes) => notes,
    };
    if notes.len() as u64 != count {
        return Err(
            match kind {
                WalletKind::Cycle => "cycle note count differs".to_owned(),
                WalletKind::Wallet => "wallet note count differs".to_owned(),
            },
        );
    }
    let mut i: usize = 0;
    while i < notes.len()
        invariant
            wallet_fault(kind, wallet, count, sequence) == notes_fault(
                kind,
                notes@,
                wallet.notes@,
                notes@.len(),
            ),
            i <= notes@.len(),
            notes_fault(kind, notes@, wallet.notes@, i as nat) is None,
        decreases notes@.len() - i,
    {
        let answer = if i < wallet.notes.len() {
            Some(&wallet.notes[i])
        } else {
            None
        };
        match check_listed(kind, &notes[i], answer) {
            Err(e) => {
                proof {
                    lemma_notes_fault_stays(
                        kind,
                        notes@,
                        wallet.notes@,
                        (i + 1) as nat,
                        notes@.len(),
                    );
                }
                return Err(e);
            },
            Ok(_) => {},
        }
        i += 1;
    }
    Ok(())
}

/// Why a wallet's facility does not stand, if it does not: the report names it
/// and the ledger has it at `expected`.
pub open spec fn advanced_fault(kind: WalletKind, wallet: &WalletEvidence, expected: u64) -> Option<
    Seq<char>,
> {
    if facility_fault(kind, &wallet.report) is Some {
        facility_fault(kind, &wallet.report)
    } else {
        match wallet.facility {
            Err(text) => Some(text@),
            Ok(sequence) => if sequence != expected {
                Some(
                    match kind {
                        WalletKind::Cycle =>
                            "canonical cycle facility differs from the private witness"@,
                        WalletKind::Wallet =>
                            "canonical facility did not advance through wallet reuse"@,
                    },
                )
            } else {
                None
            },
        }
    }
}

/// Check the facility that a wallet's report names against the ledger.
pub fn check_advanced(kind: WalletKind, wallet: &WalletEvidence, expected: u64) -> (r: Result<
    (),
    String,
>)
    ensures
        r is Ok == advanced_fault(kind, wallet, expected) is None,
        r matches Err(e) ==> Some(e@) == advanced_fault(kind, wallet, expected),
{
    match report_facility(kind, &wallet.report) {
        Err(e) => return Err(e),
        Ok(_) => {},
    }
    match &wallet.facility {
        Err(text) => Err(text.clone()),
        Ok(sequence) => check_facility(kind, *sequence, expected),
    }
}

/// A wallet that a run expects: its report's file, its notes, its facility's
/// place, and whether the ledger's facility is checked too.
pub struct ExpectedWallet {
    pub path: String,
    pub notes: u64,
    pub facility_sequence: u64,
    pub final_report: bool,
}

pub open spec fn expects(
    wallet: ExpectedWallet,
    path: Seq<char>,
    notes: u64,
    facility_sequence: u64,
    final_report: bool,
) -> bool {
    wallet.path@ == path && wallet.notes == notes && wallet.facility_sequence == facility_sequence
        && wallet.final_report == final_report
}

/// The wallets of a completed cycle.
pub fn cycle_wallets() -> (wallets: Vec<ExpectedWallet>)
    ensures
        wallets@.len() == 4,
        expects(wallets@[0], "/handoff/maker.wallet.json"@, 2, 4, false),
        expects(wallets@[1], "/handoff/taker.wallet.json"@, 3, 3, false),
        expects(wallets@[2], "/handoff/maker-cycle-final.wallet.json"@, 3, 5, true),
        expects(wallets@[3], "/handoff/taker-cycle-final.wallet.json"@, 5, 5, true),
{
    let mut wallets: Vec<ExpectedWallet> = Vec::new();
    wallets.push(
        ExpectedWallet {
            path: "/handoff/maker.wallet.json".to_owned(),
            notes: 2,
            facility_sequence: 4,
            final_report: false,
        },
    );
    wallets.push(
        ExpectedWallet {
            path: "/handoff/taker.wallet.json".to_owned(),
            notes: 3,
            facility_sequence: 3,
            final_report: false,
        },
    );
    wallets.push(
        ExpectedWallet {
            path: "/handoff/maker-cycle-final.wallet.json".to_owned(),
            notes: 3,
            facility_sequence: 5,
            final_report: true,
        },
    );
    wallets.push(
        ExpectedWallet {
            path: "/handoff/taker-cycle-final.wallet.json".to_owned(),
            notes: 5,
            facility_sequence: 5,
            final_report: true,
        },
    );
    wallets
}

/// Why one wallet of a completed cycle does not stand, if it does not.
pub open spec fn cycle_wallet_fault(
    wallet: &WalletEvidence,
    count: u64,
    sequence: u64,
    final_report: bool,
) -> Option<Seq<char>> {
    if wallet_fault(WalletKind::Cycle, wallet, count, sequence) is Some {
        wallet_fault(WalletKind::Cycle, wallet, count, sequence)
    } else if final_report {
        advanced_fault(WalletKind::Cycle, wallet, sequence)
    } else {
        None
    }
}

/// Why the wallets of a completed cycle do not stand, if they do not: both
/// sides after the first round, then both sides at the end.
pub open spec fn wallets_fault(wallets: Seq<WalletEvidence>) -> Option<Seq<char>> {
    if wallets.len() != 4 {
        Some("corporate cycle recovery did not validate the expected balances"@)
    } else if cycle_wallet_fault(&wallets[0], 2, 4, false) is Some {
        cycle_wallet_fault(&wallets[0], 2, 4, false)
    } else if cycle_wallet_fault(&wallets[1], 3, 3, false) is Some {
        cycle_wallet_fault(&wallets[1], 3, 3, false)
    } else if cycle_wallet_fault(&wallets[2], 3, 5, true) is Some {
        cycle_wallet_fault(&wallets[2], 3, 5, true)
    } else {
        cycle_wallet_fault(&wallets[3], 5, 5, true)
    }
}

fn check_cycle_wallet(wallet: &WalletEvidence, expected: &ExpectedWallet) -> (r: Result<(), String>)
    ensures
        ({
            let fault = cycle_wallet_fault(
                wallet,
                expected.notes,
                expected.facility_sequence,
                expected.final_report,
            );
            &&& r is Ok == fault is None
            &&& r matches Err(e) ==> Some(e@) == fault
        }),
{
    match check_wallet(WalletKind::Cycle, wallet, expected.notes, expected.facility_sequence) {
        Err(e) => return Err(e),
        Ok(_) => {},
    }
    if expected.final_report {
        check_advanced(WalletKind::Cycle, wallet, expected.facility_sequence)
    } else {
        Ok(())
    }
}

fn check_cycle_wallets(wallets: &Vec<WalletEvidence>) -> (r: Result<(), String>)
    ensures
        r is Ok == wallets_fault(wallets@) is None,
        r matches Err(e) ==> Some(e@) == wallets_fault(wallets@),
{
    if wallets.len() != 4 {
        return Err("corporate cycle recovery did not validate the expected balances".to_owned());
    }
    let expected = cycle_wallets();
    match check_cycle_wallet(&wallets[0], &expected[0]) {
        Err(e) => return Err(e),
        Ok(_) => {},
    }
    match check_cycle_wallet(&wallets[1], &expected[1]) {
        Err(e) => return Err(e),
        Ok(_) => {},
    }
    match check_cycle_wallet(&wallets[2], &expected[2]) {
        Err(e) => return Err(e),
        Ok(_) => {},
    }
    check_cycle_wallet(&wallets[3], &expected[3])
}

/// The receipt of the order that a recovered note funded. `manifest_valid` says
/// whether its manifest stands now; each of `receipts_valid` whether that
/// party's receipt is signed under its key.
pub struct ReuseEvidence {
    pub receipt: EdgeAdmissionReceipt,
    pub manifest_valid: bool,
    pub receipts_valid: Vec<bool>,
}

/// Why the receipt of a reuse does not stand, if it does not.
pub open spec fn reuse_fault(reuse: &ReuseEvidence, cluster: &ClusterPublicConfig) -> Option<
    Seq<char>,
> {
    if cluster.fault is Some {
        Some((cluster.fault->0)@)
    } else if reuse.receipts_valid@.len() != MPC_PARTIES || !reuse.receipt.admitted(
        cluster,
        reuse.manifest_valid,
        reuse.receipts_valid@,
    ) {
        Some("edge admission receipt is invalid"@)
    } else {
        None
    }
}

/// Check the receipt of a reuse.
pub fn check_reuse(reuse: &ReuseEvidence, cluster: &ClusterPublicConfig) -> (r: Result<(), String>)
    ensures
        r is Ok == reuse_fault(reuse, cluster) is None,
        r matches Err(e) ==> Some(e@) == reuse_fault(reuse, cluster),
{
    match &cluster.fault {
        Some(text) => return Err(text.clone()),
        None => {},
    }
    if reuse.receipts_valid.len() != MPC_PARTIES {
        return Err("edge admission receipt is invalid".to_owned());
    }
    match reuse.receipt.verify(cluster, reuse.manifest_valid, &reuse.receipts_valid) {
        Err(e) => Err(e.message()),
        Ok(_) => Ok(()),
    }
}

/// Whether one identifier comes before another: it is smaller at the first byte
/// in which they differ.
pub open spec fn digest_before(left: Digest32, right: Digest32) -> bool {
    exists|k: int|
        0 <= k < 32 && #[trigger] left@[k] < right@[k] && forall|j: int|
            0 <= j < k ==> #[trigger] left@[j] == right@[j]
}

proof fn lemma_before_transitive(first: Digest32, second: Digest32, third: Digest32)
    requires
        digest_before(first, second),
        digest_before(second, third),
    ensures
        digest_before(first, third),
{
    let a = choose|k: int|
        0 <= k < 32 && #[trigger] first@[k] < second@[k] && forall|j: int|
            0 <= j < k ==> #[trigger] first@[j] == second@[j];
    let b = choose|k: int|
        0 <= k < 32 && #[trigger] second@[k] < third@[k] && forall|j: int|
            0 <= j < k ==> #[trigger] second@[j] == third@[j];
    let k = if a < b {
        a
    } else {
        b
    };
    assert(first@[k] < third@[k]);
    assert forall|j: int| 0 <= j < k implies #[trigger] first@[j] == third@[j] by {
        assert(first@[j] == second@[j]);
        assert(second@[j] == third@[j]);
    }
}

fn comes_before(left: &Digest32, right: &Digest32) -> (before: bool)
    ensures
        before == digest_before(*left, *right),
        !before ==> *left == *right || digest_before(*right, *left),
{
    let mut i: usize = 0;
    while i < 32
        invariant
            i <= 32,
            forall|j: int| 0 <= j < i ==> #[trigger] left@[j] == right@[j],
        decreases 32 - i,
    {
        if left[i] < right[i] {
            assert(left@[i as int] < right@[i as int]);
            return true;
        }
        if right[i] < left[i] {
            assert(right@[i as int] < left@[i as int]);
            assert forall|j: int| 0 <= j < i implies #[trigger] right@[j] == left@[j] by {
                assert(left@[j] == right@[j]);
            }
            return false;
        }
        i += 1;
    }
    assert(left@ =~= right@);
    proof {
        crate::bytes::lemma_digest_view(*left, *right);
    }
    false
}

/// Identifiers in strictly increasing order.
pub open spec fn increasing(keys: Seq<Digest32>) -> bool {
    forall|i: int, j: int|
        #![trigger keys[i], keys[j]]
        0 <= i < j < keys.len() ==> digest_before(keys[i], keys[j])
}

/// Put a new key in its place.
fn insert_key(keys: &mut Vec<Digest32>, key: Digest32)
    requires
        increasing(old(keys)@),
        !old(keys)@.contains(key),
        old(keys)@.len() < usize::MAX,
    ensures
        increasing(final(keys)@),
        exists|at: int|
            0 <= at <= old(keys)@.len() && final(keys)@ == #[trigger] old(keys)@.insert(at, key),
{
    let mut at: usize = 0;
    while at < keys.len() && comes_before(&keys[at], &key)
        invariant
            at <= keys@.len(),
            forall|j: int| 0 <= j < at ==> digest_before(#[trigger] keys@[j], key),
        decreases keys@.len() - at,
    {
        at += 1;
    }
    let ghost before = keys@;
    proof {
        assert forall|j: int| at <= j < before.len() implies digest_before(
            key,
            #[trigger] before[j],
        ) by {
            assert(before[at as int] != key);
            if j > at {
                assert(digest_before(before[at as int], before[j]));
                lemma_before_transitive(key, before[at as int], before[j]);
            }
        }
    }
    keys.insert(at, key);
    assert(keys@ == before.insert(at as int, key));
    proof {
        let after = keys@;
        assert forall|i: int, j: int|
            #![trigger after[i], after[j]]
            0 <= i < j < after.len() implies digest_before(after[i], after[j]) by {
            if i < at {
                assert(after[i] == before[i]);
            } else if i > at {
                assert(after[i] == before[i - 1]);
            }
            if j < at {
                assert(after[j] == before[j]);
            } else if j > at {
                assert(after[j] == before[j - 1]);
            }
        }
    }
}

/// The same keys in increasing order.
pub fn sorted_keys(keys: &Vec<Digest32>) -> (sorted: Vec<Digest32>)
    requires
        keys@.no_duplicates(),
    ensures
        increasing(sorted@),
        sorted@.len() == keys@.len(),
        forall|key: Digest32| #[trigger] sorted@.contains(key) == keys@.contains(key),
{
    let mut sorted: Vec<Digest32> = Vec::new();
    let mut i: usize = 0;
    while i < keys.len()
        invariant
            keys@.no_duplicates(),
            i <= keys@.len(),
            increasing(sorted@),
            sorted@.len() == i,
            forall|key: Digest32| #[trigger]
                sorted@.contains(key) == keys@.take(i as int).contains(key),
        decreases keys@.len() - i,
    {
        let ghost before = sorted@;
        let key = keys[i];
        proof {
            let taken = keys@.take(i as int);
            if taken.contains(key) {
                let j = choose|j: int| 0 <= j < taken.len() && taken[j] == key;
                assert(keys@[j] == keys@[i as int]);
            }
            assert(!before.contains(key));
        }
        insert_key(&mut sorted, key);
        proof {
            let at = choose|at: int|
                0 <= at <= before.len() && sorted@ == #[trigger] before.insert(at, key);
            let taken = keys@.take(i as int);
            let longer = keys@.take(i + 1);
            assert(longer =~= taken.push(key));
            assert forall|other: Digest32| #[trigger] sorted@.contains(other) == longer.contains(
                other,
            ) by {
                before.insert_ensures(at, key);
                if sorted@.contains(other) {
                    let j = choose|j: int| 0 <= j < sorted@.len() && sorted@[j] == other;
                    if j == at {
                        assert(longer[i as int] == other);
                    } else {
                        let k = if j < at {
                            j
                        } else {
                            j - 1
                        };
                        assert(before[k] == other);
                        assert(before.contains(other));
                        let n = choose|n: int| 0 <= n < taken.len() && taken[n] == other;
                        assert(longer[n] == other);
                    }
                }
                if longer.contains(other) {
                    let j = choose|j: int| 0 <= j < longer.len() && longer[j] == other;
                    if j == i {
                        assert(sorted@[at] == other);
                    } else {
                        assert(taken[j] == other);
                        assert(taken.contains(other));
                        assert(before.contains(other));
                        let k = choose|k: int| 0 <= k < before.len() && before[k] == other;
                        if k < at {
                            assert(sorted@[k] == other);
                        } else {
                            assert(sorted@[k + 1] == other);
                        }
                    }
                }
            }
        }
        i += 1;
    }
    assert(keys@.take(keys@.len() as int) =~= keys@);
    sorted
}

/// What a completed cycle adds up to, and where it is published. The two roots
/// are the first round's, as its report encodes it, and the ledger's afterwards.
pub struct CycleTotals {
    pub target: String,
    pub first_settlement_root: Vec<u8>,
    pub native_after_root: String,
    pub completed_native_rounds: u64,
    pub total_native_fills: u64,
    pub claim_signatures: u64,
    pub claim_keys: Vec<Digest32>,
    pub claim_authorization_key_fingerprints: Vec<String>,
    pub fresh_claim_authorization_keys: u64,
    pub post_match_financial_approval_signatures: u64,
    pub recipient_claims_redeemed: u64,
    pub private_facility_witnesses_recovered: u64,
    pub recovered_note_funded_next_order: bool,
    pub next_order_matched: bool,
    pub next_order_mpc_nodes: u64,
    pub final_facility_sequences: [u64; 2],
}

/// Where a completed cycle is published: apart from the final result where a
/// lifecycle run goes on from it.
pub open spec fn cycle_path(continues_lifecycle: bool) -> Seq<char> {
    if continues_lifecycle {
        "/handoff/native-cycle-complete.json"@
    } else {
        "/handoff/native-result.json"@
    }
}

/// Where a completed cycle is published.
pub fn cycle_target(continues_lifecycle: bool) -> (path: String)
    ensures
        path@ == cycle_path(continues_lifecycle),
{
    if continues_lifecycle {
        "/handoff/native-cycle-complete.json".to_owned()
    } else {
        "/handoff/native-result.json".to_owned()
    }
}

pub fn hex_keys(keys: &Vec<Digest32>) -> (texts: Vec<String>)
    ensures
        texts@.len() == keys@.len(),
        forall|i: int| 0 <= i < keys@.len() ==> (#[trigger] texts@[i])@ == hex_text(keys@[i]@),
{
    let mut texts: Vec<String> = Vec::new();
    let mut i: usize = 0;
    while i < keys.len()
        invariant
            i <= keys@.len(),
            texts@.len() == i,
            forall|j: int| 0 <= j < i ==> (#[trigger] texts@[j])@ == hex_text(keys@[j]@),
        decreases keys@.len() - i,
    {
        texts.push(hex_encode(&keys[i]));
        i += 1;
    }
    texts
}

/// The totals of an accepted cycle, at the ledger's root.
pub open spec fn cycle_adds_up(
    totals: &CycleTotals,
    first: &RoundReport,
    next: &RoundReport,
    root: Digest32,
    continues_lifecycle: bool,
) -> bool {
    let all = both_lists(first, next);
    let keys = claim_keys(all, all.len())->Ok_0;
    &&& totals.target@ == cycle_path(continues_lifecycle)
    &&& totals.first_settlement_root@ == first.native_after_root.encoded@
    &&& totals.native_after_root@ == hex_text(root@)
    &&& totals.completed_native_rounds == 2
    &&& totals.total_native_fills == 3
    &&& totals.claim_signatures == 6
    &&& totals.claim_keys@.len() == 12
    &&& increasing(totals.claim_keys@)
    &&& forall|key: Digest32| #[trigger] totals.claim_keys@.contains(key) == keys.contains(key)
    &&& totals.claim_authorization_key_fingerprints@.len() == 12
    &&& forall|i: int|
        0 <= i < 12 ==> (#[trigger] totals.claim_authorization_key_fingerprints@[i])@ == hex_text(
            totals.claim_keys@[i]@,
        )
    &&& totals.fresh_claim_authorization_keys == 12
    &&& totals.post_match_financial_approval_signatures == 0
    &&& totals.recipient_claims_redeemed == 8
    &&& totals.private_facility_witnesses_recovered == 4
    &&& totals.recovered_note_funded_next_order
    &&& totals.next_order_matched
    &&& totals.next_order_mpc_nodes == MPC_PARTIES
    &&& totals.final_facility_sequences@ == seq![5u64, 5u64]
}

/// Why a cycle is not accepted, if it is not: the receipt of the order that the
/// recovered note funded, the claims of both rounds, the rounds themselves, the
/// four wallets, and the ledger's root.
pub open spec fn cycle_fault(
    first: &RoundReport,
    next: &RoundReport,
    source: &ReuseReport,
    reuse: &ReuseEvidence,
    cluster: &ClusterPublicConfig,
    contract_hash: Seq<char>,
    wallets: Seq<WalletEvidence>,
    root: Result<Digest32, String>,
) -> Option<Seq<char>> {
    if reuse_fault(reuse, cluster) is Some {
        reuse_fault(reuse, cluster)
    } else if claims_fault(first, next) is Some {
        claims_fault(first, next)
    } else if !cycle_stands(first, next, source, reuse.receipt.manifest.commitment, contract_hash) {
        Some("native cycle is missing its exact refund-funded second match"@)
    } else if wallets_fault(wallets) is Some {
        wallets_fault(wallets)
    } else {
        match root {
            Err(text) => Some(text@),
            Ok(_) => None,
        }
    }
}

/// Accept a cycle: two settled rounds, the second funded by what the first
/// refunded, and the wallets of both sides as the ledger has them. The claim
/// keys of both rounds are given in increasing order. `root` is the ledger's
/// root, `continues_lifecycle` tells whether a lifecycle run goes on from here.
pub fn finalize_cycle_acceptance(
    first: &RoundReport,
    next: &RoundReport,
    source: &ReuseReport,
    reuse: &ReuseEvidence,
    cluster: &ClusterPublicConfig,
    contract_hash: &str,
    wallets: &Vec<WalletEvidence>,
    root: &Result<Digest32, String>,
    continues_lifecycle: bool,
) -> (r: Result<CycleTotals, String>)
    ensures
        ({
            let fault = cycle_fault(
                first,
                next,
                source,
                reuse,
                cluster,
                contract_hash@,
                wallets@,
                *root,
            );
            &&& r is Ok == fault is None
            &&& r matches Err(e) ==> Some(e@) == fault
        }),
        r matches Ok(totals) ==> cycle_adds_up(
            &totals,
            first,
            next,
            root->Ok_0,
            continues_lifecycle,
        ),
{
    match check_reuse(reuse, cluster) {
        Err(e) => return Err(e),
        Ok(_) => {},
    }
    let claims = match collect_claims(first, next) {
        Err(e) => return Err(e),
        Ok(claims) => claims,
    };
    if !cycle_holds(first, next, source, &reuse.receipt.commitment(), contract_hash) {
        return Err("native cycle is missing its exact refund-funded second match".to_owned());
    }
    match check_cycle_wallets(wallets) {
        Err(e) => return Err(e),
        Ok(_) => {},
    }
    let root: &Digest32 = match root {
        Err(text) => return Err(text.clone()),
        Ok(root) => root,
    };
    proof {
        let all = both_lists(first, next);
        lemma_claim_keys_are_fresh(all, all.len());
    }
    let keys = sorted_keys(&claims.keys);
    let fingerprints = hex_keys(&keys);
    let totals = CycleTotals {
        target: cycle_target(continues_lifecycle),
        first_settlement_root: copy_bytes(first.native_after_root.encoded.as_slice()),
        native_after_root: hex_encode(root),
        completed_native_rounds: 2,
        total_native_fills: 3,
        claim_signatures: claims.first_signatures + claims.next_signatures,
        fresh_claim_authorization_keys: keys.len() as u64,
        claim_keys: keys,
        claim_authorization_key_fingerprints: fingerprints,
        post_match_financial_approval_signatures: 0,
        recipient_claims_redeemed: 8,
        private_facility_witnesses_recovered: 4,
        recovered_note_funded_next_order: true,
        next_order_matched: true,
        next_order_mpc_nodes: MPC_PARTIES as u64,
        final_facility_sequences: [5, 5],
    };
    assert(totals.final_facility_sequences@ =~= seq![5u64, 5u64]);
    Ok(totals)
}

/// In an accepted cycle the ledger has every note of the four wallets unlocked
/// under its own identifier, and both facilities at their last place.
pub proof fn lemma_accepted_cycle_is_canonical(
    first: &RoundReport,
    next: &RoundReport,
    source: &ReuseReport,
    reuse: &ReuseEvidence,
    cluster: &ClusterPublicConfig,
    contract_hash: Seq<char>,
    wallets: Seq<WalletEvidence>,
    root: Result<Digest32, String>,
    wallet: int,
    note: int,
)
    requires
        cycle_fault(first, next, source, reuse, cluster, contract_hash, wallets, root) is None,
        0 <= wallet < 4,
        0 <= note < (wallets[wallet].report.canonical_notes->0)@.len(),
    ensures
        ({
            let listed = (wallets[wallet].report.canonical_notes->0)@[note];
            &&& note < wallets[wallet].notes@.len()
            &&& wallets[wallet].notes@[note] matches Ok(found) && Some(found.note_id) == hex_digest(
                (listed->0)@,
            ) && is_zero(found.lock_id@)
        }),
        wallets[2].facility matches Ok(sequence) && sequence == 5,
        wallets[3].facility matches Ok(sequence) && sequence == 5,
{
    let notes = (wallets[wallet].report.canonical_notes->0)@;
    let answers = wallets[wallet].notes@;
    if notes_fault(WalletKind::Cycle, notes, answers, (note + 1) as nat) is Some {
        lemma_notes_fault_stays(
            WalletKind::Cycle,
            notes,
            answers,
            (note + 1) as nat,
            notes.len(),
        );
    }
}

/// Check that a wallet's acceptance follows its own settlement.
pub fn check_preceding_settlement(round: &RoundReport, contract_hash: &str) -> (r: Result<(), String>)
    ensures
        r is Ok == (field_text(round.contract_sha256) == Some(contract_hash@)
            && round.native_note_settlement == Some(true)),
        r matches Err(e) ==> e@ == "wallet acceptance lacks its exact preceding settlement"@,
{
    if !text_is(&round.contract_sha256, contract_hash) || round.native_note_settlement != Some(
        true,
    ) {
        return Err("wallet acceptance lacks its exact preceding settlement".to_owned());
    }
    Ok(())
}

/// Why a wallet's acceptance is refused, if it is: the settlement before it,
/// both wallets, the receipt and report of the order that a recovered note
/// funded, and both facilities.
pub open spec fn reuse_acceptance_fault(
    round: &RoundReport,
    maker: &WalletEvidence,
    taker: &WalletEvidence,
    source: &ReuseReport,
    reuse: &ReuseEvidence,
    pretrade: bool,
    cluster: &ClusterPublicConfig,
    contract_hash: Seq<char>,
    root: Result<Digest32, String>,
) -> Option<Seq<char>> {
    if field_text(round.contract_sha256) != Some(contract_hash) || round.native_note_settlement
        != Some(true) {
        Some("wallet acceptance lacks its exact preceding settlement"@)
    } else if wallet_fault(WalletKind::Wallet, maker, 1, 2) is Some {
        wallet_fault(WalletKind::Wallet, maker, 1, 2)
    } else if wallet_fault(WalletKind::Wallet, taker, 2, 2) is Some {
        wallet_fault(WalletKind::Wallet, taker, 2, 2)
    } else if reuse_fault(reuse, cluster) is Some {
        reuse_fault(reuse, cluster)
    } else if !pretrade || field_text(source.order_commitment) != Some(
        reuse.receipt.manifest.commitment.key(),
    ) || source.selected_funding_note_spent_verified != Some(true)
        || source.canonical_reserve_verified != Some(true) || source.facility_sequence != Some(
        3u64,
    ) {
        Some("new order did not prove consumption of its selected recovered note"@)
    } else if advanced_fault(WalletKind::Wallet, maker, 2) is Some {
        advanced_fault(WalletKind::Wallet, maker, 2)
    } else if advanced_fault(WalletKind::Wallet, taker, 3) is Some {
        advanced_fault(WalletKind::Wallet, taker, 3)
    } else {
        match root {
            Err(text) => Some(text@),
            Ok(_) => None,
        }
    }
}

/// What an accepted reuse adds up to, and where it is published. The two roots
/// are the settled round's, as its report encodes it, and the ledger's
/// afterwards.
pub struct ReuseTotals {
    pub target: String,
    pub native_settlement_root: Vec<u8>,
    pub native_after_root: String,
    pub recipient_claims_redeemed: u64,
    pub private_facility_witnesses_recovered: u64,
    pub recovered_note_funded_next_order: bool,
    pub next_order_mpc_nodes: u64,
    pub next_order_commitment: String,
    pub next_order_matched: bool,
    pub verdict: String,
}

/// The totals of an accepted reuse, at the ledger's root.
pub open spec fn reuse_adds_up(
    totals: &ReuseTotals,
    round: &RoundReport,
    reuse: &ReuseEvidence,
    root: Digest32,
) -> bool {
    &&& totals.target@ == "/handoff/native-result.json"@
    &&& totals.native_settlement_root@ == round.native_after_root.encoded@
    &&& totals.native_after_root@ == hex_text(root@)
    &&& totals.recipient_claims_redeemed == 3
    &&& totals.private_facility_witnesses_recovered == 2
    &&& totals.recovered_note_funded_next_order
    &&& totals.next_order_mpc_nodes == MPC_PARTIES
    &&& totals.next_order_commitment@ == reuse.receipt.manifest.commitment.key()
    &&& !totals.next_order_matched
    &&& totals.verdict@ == "smoke_only"@
}

/// Accept a wallet's reuse: both recovered wallets, and the order that a
/// recovered note funded. `pretrade` tells whether that order reserved before it
/// trades; `root` is the ledger's root.
pub fn finalize_wallet_acceptance(
    round: &RoundReport,
    maker: &WalletEvidence,
    taker: &WalletEvidence,
    source: &ReuseReport,
    reuse: &ReuseEvidence,
    pretrade: bool,
    cluster: &ClusterPublicConfig,
    contract_hash: &str,
    root: &Result<Digest32, String>,
) -> (r: Result<ReuseTotals, String>)
    ensures
        ({
            let fault = reuse_acceptance_fault(
                round,
                maker,
                taker,
                source,
                reuse,
                pretrade,
                cluster,
                contract_hash@,
                *root,
            );
            &&& r is Ok == fault is None
            &&& r matches Err(e) ==> Some(e@) == fault
        }),
        r matches Ok(totals) ==> reuse_adds_up(&totals, round, reuse, root->Ok_0),
{
    match check_preceding_settlement(round, contract_hash) {
        Err(e) => return Err(e),
        Ok(_) => {},
    }
    match check_wallet(WalletKind::Wallet, maker, 1, 2) {
        Err(e) => return Err(e),
        Ok(_) => {},
    }
    match check_wallet(WalletKind::Wallet, taker, 2, 2) {
        Err(e) => return Err(e),
        Ok(_) => {},
    }
    match check_reuse(reuse, cluster) {
        Err(e) => return Err(e),
        Ok(_) => {},
    }
    let commitment = reuse.receipt.commitment().hex();
    if !pretrade || !text_is(&source.order_commitment, commitment.as_str())
        || source.selected_funding_note_spent_verified != Some(true)
        || source.canonical_reserve_verified != Some(true) || source.facility_sequence != Some(
        3u64,
    ) {
        return Err(
            "new order did not prove consumption of its selected recovered note".to_owned(),
        );
    }
    match check_advanced(WalletKind::Wallet, maker, 2) {
        Err(e) => return Err(e),
        Ok(_) => {},
    }
    match check_advanced(WalletKind::Wallet, taker, 3) {
        Err(e) => return Err(e),
        Ok(_) => {},
    }
    match root {
        Err(text) => Err(text.clone()),
        Ok(root) => Ok(
            ReuseTotals {
                target: "/handoff/native-result.json".to_owned(),
                native_settlement_root: copy_bytes(round.native_after_root.encoded.as_slice()),
                native_after_root: hex_encode(root),
                recipient_claims_redeemed: 3,
                private_facility_witnesses_recovered: 2,
                recovered_note_funded_next_order: true,
                next_order_mpc_nodes: MPC_PARTIES as u64,
                next_order_commitment: commitment,
                next_order_matched: false,
                verdict: "smoke_only".to_owned(),
            },
        ),
    }
}

/// What the queue says of one request.
pub struct DeferredRequest {
    pub request_id: ReportField,
    pub authorization_digest: ReportField,
    pub order_commitment: ReportField,
    pub funding_prepared: Option<bool>,
    pub admitted: Option<bool>,
    pub ended: Option<bool>,
}

/// What was observed of an intake while the nodes and the ledger were down. The
/// queue's two states are the encodings before and after a restart.
pub struct DeferredIntake {
    pub nodes_running: String,
    pub ledger_paused: String,
    pub before: Vec<DeferredRequest>,
    pub after: Vec<DeferredRequest>,
    pub queue_before: Vec<u8>,
    pub queue_after: Vec<u8>,
    pub rejected_status: Option<String>,
    pub rejected_funding_prepared: Option<bool>,
}

/// Seven lines that each say `false`.
pub open spec fn seven_stopped(text: Seq<char>) -> bool {
    let lines = lines_of(text_bytes(text));
    lines.len() == 7 && forall|i: int|
        0 <= i < lines.len() ==> #[trigger] lines[i] == text_bytes("false"@)
}

/// Whether a text is seven lines that each say `false`.
pub fn all_stopped(text: &str) -> (stopped: bool)
    ensures
        stopped == seven_stopped(text@),
{
    let lines = split_lines(text.as_bytes());
    if lines.len() != 7 {
        return false;
    }
    let mut i: usize = 0;
    while i < lines.len()
        invariant
            line_views(lines@) == lines_of(text_bytes(text@)),
            lines@.len() == 7,
            i <= lines@.len(),
            forall|j: int|
                0 <= j < i ==> #[trigger] lines_of(text_bytes(text@))[j] == text_bytes("false"@),
        decreases lines@.len() - i,
    {
        assert(line_views(lines@)[i as int] == lines@[i as int]@);
        if !bytes_equal(lines[i].as_slice(), "false".as_bytes()) {
            return false;
        }
        i += 1;
    }
    true
}

/// The first request of a list with an identifier.
pub open spec fn request_with(list: Seq<DeferredRequest>, id: Seq<u8>, from: nat) -> Option<
    DeferredRequest,
>
    decreases list.len() - from,
{
    if from >= list.len() {
        None
    } else if list[from as int].request_id.encoded@ == id {
        Some(list[from as int])
    } else {
        request_with(list, id, from + 1)
    }
}

fn find_request<'a>(list: &'a Vec<DeferredRequest>, id: &[u8]) -> (found: Option<
    &'a DeferredRequest,
>)
    ensures
        match request_with(list@, id@, 0) {
            Some(request) => found matches Some(given) && *given == request,
            None => found is None,
        },
{
    let mut i: usize = 0;
    while i < list.len()
        invariant
            i <= list@.len(),
            request_with(list@, id@, 0) == request_with(list@, id@, i as nat),
        decreases list@.len() - i,
    {
        if bytes_equal(list[i].request_id.encoded.as_slice(), id) {
            return Some(&list[i]);
        }
        i += 1;
    }
    None
}

/// Why a request was not handled as a deferred one, if it was not; else the
/// order that it put into the market, if it put one there.
pub open spec fn deferred_outcome(original: DeferredRequest, after: Seq<DeferredRequest>) -> Result<
    Option<Seq<char>>,
    Seq<char>,
> {
    match request_with(after, original.request_id.encoded@, 0) {
        None => Err("deferred request disappeared"@),
        Some(updated) => {
            let digest_shaped = match original.authorization_digest.text {
                Some(text) => text_bytes(text@).len() == 64,
                None => false,
            };
            if original.funding_prepared != Some(false) || original.admitted != Some(false)
                || !digest_shaped || original.authorization_digest.encoded@
                != updated.authorization_digest.encoded@ || original.order_commitment.encoded@
                != updated.order_commitment.encoded@ {
                Err("deferred intake prepared funding offline or changed signed terms"@)
            } else if field_text(original.request_id.text) == Some("native-maker-too-large"@) {
                if updated.funding_prepared != Some(false) || updated.admitted != Some(false)
                    || updated.ended != Some(true) {
                    Err("over-capacity request produced a financial reserve"@)
                } else {
                    Ok(None)
                }
            } else if updated.funding_prepared != Some(true) || updated.admitted != Some(true)
                || updated.ended != Some(false) {
                Err("deferred accepted maker did not reach real MPC admission"@)
            } else {
                match updated.order_commitment.text {
                    None => Err("missing admitted commitment"@),
                    Some(text) => Ok(Some(text@)),
                }
            }
        },
    }
}

fn check_deferred(original: &DeferredRequest, after: &Vec<DeferredRequest>) -> (r: Result<
    Option<String>,
    String,
>)
    ensures
        match deferred_outcome(*original, after@) {
            Ok(Some(order)) => r matches Ok(Some(text)) && text@ == order,
            Ok(None) => r matches Ok(None),
            Err(text) => r matches Err(e) && e@ == text,
        },
{
    let updated = match find_request(after, original.request_id.encoded.as_slice()) {
        None => return Err("deferred request disappeared".to_owned()),
        Some(updated) => updated,
    };
    let digest_shaped: bool = match &original.authorization_digest.text {
        Some(text) => text.as_str().as_bytes().len() == 64,
        None => false,
    };
    if original.funding_prepared != Some(false) || original.admitted != Some(false)
        || !digest_shaped || !bytes_equal(
        original.authorization_digest.encoded.as_slice(),
        updated.authorization_digest.encoded.as_slice(),
    ) || !bytes_equal(
        original.order_commitment.encoded.as_slice(),
        updated.order_commitment.encoded.as_slice(),
    ) {
        return Err(
            "deferred intake prepared funding offline or changed signed terms".to_owned(),
        );
    }
    if text_is(&original.request_id.text, "native-maker-too-large") {
        if updated.funding_prepared != Some(false) || updated.admitted != Some(false)
            || updated.ended != Some(true) {
            return Err("over-capacity request produced a financial reserve".to_owned());
        }
        return Ok(None);
    }
    if updated.funding_prepared != Some(true) || updated.admitted != Some(true) || updated.ended
        != Some(false) {
        return Err("deferred accepted maker did not reach real MPC admission".to_owned());
    }
    match &updated.order_commitment.text {
        None => Err("missing admitted commitment".to_owned()),
        Some(text) => Ok(Some(text.clone())),
    }
}

/// The orders that the first `count` deferred requests put into the market.
pub open spec fn deferred_orders(
    before: Seq<DeferredRequest>,
    after: Seq<DeferredRequest>,
    count: nat,
) -> Result<Set<Seq<char>>, Seq<char>>
    decreases count,
{
    if count == 0 {
        Ok(Set::empty())
    } else {
        match deferred_orders(before, after, (count - 1) as nat) {
            Err(text) => Err(text),
            Ok(earlier) => match deferred_outcome(before[count - 1], after) {
                Err(text) => Err(text),
                Ok(None) => Ok(earlier),
                Ok(Some(order)) => Ok(earlier.insert(order)),
            },
        }
    }
}

proof fn lemma_deferred_error(
    before: Seq<DeferredRequest>,
    after: Seq<DeferredRequest>,
    at: nat,
    count: nat,
)
    requires
        at <= count,
        deferred_orders(before, after, at) is Err,
    ensures
        deferred_orders(before, after, count) == deferred_orders(before, after, at),
    decreases count,
{
    if at < count {
        lemma_deferred_error(before, after, at, (count - 1) as nat);
    }
}

/// The source orders of the makers that were settled.
pub open spec fn maker_orders(makers: Seq<Digest32>) -> Set<Seq<char>> {
    Set::new(|order: Seq<char>| exists|i: int|
        0 <= i < makers.len() && order == hex_text((#[trigger] makers[i])@))
}

/// Why a deferred intake is not accepted, if it is not: it ran while nodes and
/// ledger were down, the queue survived a restart and refused the order that
/// was too large, and exactly two makers went on to be settled.
pub open spec fn deferred_fault(intake: &DeferredIntake, makers: Seq<Digest32>) -> Option<Seq<char>> {
    if !seven_stopped(intake.nodes_running@) || trimmed(intake.ledger_paused@) != "true"@ {
        Some("deferred intake did not run during actual MPC and DeFMI outage"@)
    } else if intake.before@.len() != 3 || intake.after@.len() != 3 || intake.queue_before@
        != intake.queue_after@ || field_text(intake.rejected_status) != Some("funding_rejected"@)
        || intake.rejected_funding_prepared != Some(false) {
        Some("deferred queue did not reject overcommit or survive restart"@)
    } else {
        match deferred_orders(intake.before@, intake.after@, intake.before@.len()) {
            Err(text) => Some(text),
            Ok(accepted) => if accepted.len() != 2 || maker_orders(makers) != accepted {
                Some("deferred makers differ from the makers actually settled"@)
            } else {
                None
            },
        }
    }
}

/// A list of texts, none twice, as a set.
pub open spec fn lists(texts: Seq<String>, set: Set<Seq<char>>) -> bool {
    &&& forall|i: int, j: int|
        0 <= i < j < texts.len() ==> (#[trigger] texts[i])@ != (#[trigger] texts[j])@
    &&& forall|i: int| 0 <= i < texts.len() ==> set.contains((#[trigger] texts[i])@)
    &&& forall|text: Seq<char>| #[trigger]
        set.contains(text) ==> exists|i: int| 0 <= i < texts.len() && (#[trigger] texts[i])@ == text
}

proof fn lemma_listed_count(texts: Seq<String>, set: Set<Seq<char>>)
    requires
        lists(texts, set),
    ensures
        set.finite(),
        set.len() == texts.len(),
{
    let views = Seq::new(texts.len(), |i: int| texts[i]@);
    assert(views.no_duplicates()) by {
        assert forall|i: int, j: int|
            0 <= i < views.len() && 0 <= j < views.len() && i != j implies views[i] != views[j] by {
            if i < j {
                assert(texts[i]@ != texts[j]@);
            } else {
                assert(texts[j]@ != texts[i]@);
            }
        }
    }
    views.unique_seq_to_set();
    assert(views.to_set() =~= set) by {
        assert forall|text: Seq<char>| views.to_set().contains(text) == set.contains(text) by {
            if views.to_set().contains(text) {
                let i = choose|i: int| 0 <= i < views.len() && views[i] == text;
                assert(set.contains(texts[i]@));
            }
            if set.contains(text) {
                let i = choose|i: int| 0 <= i < texts.len() && (#[trigger] texts[i])@ == text;
                assert(views[i] == text);
            }
        }
    }
}

fn text_listed(list: &Vec<String>, wanted: &str) -> (found: bool)
    ensures
        found == (exists|i: int| 0 <= i < list@.len() && (#[trigger] list@[i])@ == wanted@),
{
    let mut i: usize = 0;
    while i < list.len()
        invariant
            i <= list@.len(),
            forall|j: int| 0 <= j < i ==> (#[trigger] list@[j])@ != wanted@,
        decreases list@.len() - i,
    {
        if text_equal(list[i].as_str(), wanted) {
            assert(list@[i as int]@ == wanted@);
            return true;
        }
        i += 1;
    }
    false
}

/// Whether the makers' source orders are exactly the listed ones.
fn makers_are(makers: &Vec<Digest32>, accepted: &Vec<String>) -> (same: bool)
    ensures
        forall|set: Set<Seq<char>>| #[trigger]
            lists(accepted@, set) ==> same == (maker_orders(makers@) == set),
{
    let mut names: Vec<String> = Vec::new();
    let mut i: usize = 0;
    while i < makers.len()
        invariant
            i <= makers@.len(),
            names@.len() == i,
            forall|j: int| 0 <= j < i ==> (#[trigger] names@[j])@ == hex_text(makers@[j]@),
            forall|j: int|
                0 <= j < i ==> exists|k: int|
                    0 <= k < accepted@.len() && (#[trigger] accepted@[k])@ == hex_text(
                        (#[trigger] makers@[j])@,
                    ),
        decreases makers@.len() - i,
    {
        let name = hex_encode(&makers[i]);
        if !text_listed(accepted, name.as_str()) {
            assert forall|set: Set<Seq<char>>| #[trigger] lists(accepted@, set) implies !(
            maker_orders(makers@) == set) by {
                let text = hex_text(makers@[i as int]@);
                assert(maker_orders(makers@).contains(text));
                if set.contains(text) {
                    let k = choose|k: int|
                        0 <= k < accepted@.len() && (#[trigger] accepted@[k])@ == text;
                    assert(accepted@[k]@ == name@);
                }
            }
            return false;
        }
        names.push(name);
        i += 1;
    }
    let mut k: usize = 0;
    while k < accepted.len()
        invariant
            k <= accepted@.len(),
            names@.len() == makers@.len(),
            forall|j: int|
                0 <= j < makers@.len() ==> (#[trigger] names@[j])@ == hex_text(makers@[j]@),
            forall|j: int|
                0 <= j < k ==> exists|l: int|
                    0 <= l < makers@.len() && (#[trigger] accepted@[j])@ == hex_text(
                        (#[trigger] makers@[l])@,
                    ),
        decreases accepted@.len() - k,
    {
        if !text_listed(&names, accepted[k].as_str()) {
            assert forall|set: Set<Seq<char>>| #[trigger] lists(accepted@, set) implies !(
            maker_orders(makers@) == set) by {
                let text = accepted@[k as int]@;
                assert(set.contains(text));
                if maker_orders(makers@).contains(text) {
                    let l = choose|l: int|
                        0 <= l < makers@.len() && text == hex_text((#[trigger] makers@[l])@);
                    assert(names@[l]@ == text);
                }
            }
            return false;
        }
        let ghost found = choose|l: int|
            0 <= l < names@.len() && (#[trigger] names@[l])@ == accepted@[k as int]@;
        assert(accepted@[k as int]@ == hex_text(makers@[found]@));
        k += 1;
    }
    assert forall|set: Set<Seq<char>>| #[trigger] lists(accepted@, set) implies maker_orders(makers@)
        == set by {
        assert forall|text: Seq<char>| maker_orders(makers@).contains(text) == set.contains(text) by {
            if maker_orders(makers@).contains(text) {
                let l = choose|l: int|
                    0 <= l < makers@.len() && text == hex_text((#[trigger] makers@[l])@);
                let j = choose|j: int|
                    0 <= j < accepted@.len() && (#[trigger] accepted@[j])@ == hex_text(
                        (#[trigger] makers@[l])@,
                    );
                assert(set.contains(accepted@[j]@));
            }
            if set.contains(text) {
                let j = choose|j: int| 0 <= j < accepted@.len() && (#[trigger] accepted@[j])@ == text;
                let l = choose|l: int|
                    0 <= l < makers@.len() && (#[trigger] accepted@[j])@ == hex_text(
                        (#[trigger] makers@[l])@,
                    );
                assert(text == hex_text(makers@[l]@));
            }
        }
        assert(maker_orders(makers@) =~= set);
    }
    true
}

/// What an accepted deferred intake shows.
#[derive(Clone, Copy, Debug, PartialEq, Eq, Structural)]
pub struct DeferredReport {
    pub queued_without_funding: u64,
    pub accepted_maker_orders: u64,
    pub over_capacity_rejected: u64,
    pub actual_mpc_outage: bool,
    pub actual_defmi_pause: bool,
    pub concurrent_intake_clients: u64,
    pub original_authorizations_unchanged: bool,
    pub worker_restart_unchanged: bool,
}

impl DeferredReport {
    /// Three requests that were queued by two clients while nodes and ledger
    /// were down: two were accepted, and one exceeded the funds.
    pub open spec fn accepted(&self) -> bool {
        &&& self.queued_without_funding == 3
        &&& self.accepted_maker_orders == 2
        &&& self.over_capacity_rejected == 1
        &&& self.actual_mpc_outage
        &&& self.actual_defmi_pause
        &&& self.concurrent_intake_clients == 2
        &&& self.original_authorizations_unchanged
        &&& self.worker_restart_unchanged
    }
}

/// Accept a deferred intake. `makers` are the source orders of the makers that
/// were settled: the signed original order, which the admission binds to the
/// funded one.
pub fn verify_deferred_intake(intake: &DeferredIntake, makers: &Vec<Digest32>) -> (r: Result<
    DeferredReport,
    String,
>)
    ensures
        r is Ok == deferred_fault(intake, makers@) is None,
        r matches Err(e) ==> Some(e@) == deferred_fault(intake, makers@),
        r matches Ok(report) ==> report.accepted(),
{
    if !all_stopped(intake.nodes_running.as_str()) || !text_equal(
        trim(intake.ledger_paused.as_str()),
        "true",
    ) {
        return Err("deferred intake did not run during actual MPC and DeFMI outage".to_owned());
    }
    if intake.before.len() != 3 || intake.after.len() != 3 || !bytes_equal(
        intake.queue_before.as_slice(),
        intake.queue_after.as_slice(),
    ) || !text_is(&intake.rejected_status, "funding_rejected") || intake.rejected_funding_prepared
        != Some(false) {
        return Err("deferred queue did not reject overcommit or survive restart".to_owned());
    }
    let mut accepted: Vec<String> = Vec::new();
    let ghost mut set: Set<Seq<char>> = Set::empty();
    let mut i: usize = 0;
    while i < intake.before.len()
        invariant
            i <= intake.before@.len(),
            deferred_orders(intake.before@, intake.after@, i as nat) == Ok::<
                Set<Seq<char>>,
                Seq<char>,
            >(set),
            lists(accepted@, set),
            deferred_fault(intake, makers@) == (match deferred_orders(
                intake.before@,
                intake.after@,
                intake.before@.len(),
            ) {
                Err(text) => Some(text),
                Ok(accepted) => if accepted.len() != 2 || maker_orders(makers@) != accepted {
                    Some("deferred makers differ from the makers actually settled"@)
                } else {
                    None
                },
            }),
        decreases intake.before@.len() - i,
    {
        match check_deferred(&intake.before[i], &intake.after) {
            Err(e) => {
                proof {
                    lemma_deferred_error(
                        intake.before@,
                        intake.after@,
                        (i + 1) as nat,
                        intake.before@.len(),
                    );
                }
                return Err(e);
            },
            Ok(None) => {},
            Ok(Some(order)) => {
                let ghost next = set.insert(order@);
                if text_listed(&accepted, order.as_str()) {
                    assert(set.contains(order@));
                    assert(next =~= set);
                } else {
                    let ghost before = accepted@;
                    let ghost text = order@;
                    accepted.push(order);
                    assert(lists(accepted@, next)) by {
                        assert(forall|j: int| 0 <= j < before.len() ==> accepted@[j] == before[j]);
                        assert(accepted@[before.len() as int]@ == text);
                        assert forall|other: Seq<char>| #[trigger]
                            next.contains(other) implies exists|j: int|
                            0 <= j < accepted@.len() && (#[trigger] accepted@[j])@ == other by {
                            if other == text {
                                assert(accepted@[before.len() as int]@ == other);
                            } else {
                                let j = choose|j: int|
                                    0 <= j < before.len() && (#[trigger] before[j])@ == other;
                                assert(accepted@[j]@ == other);
                            }
                        }
                    }
                }
                proof {
                    set = next;
                }
            },
        }
        i += 1;
    }
    proof {
        lemma_listed_count(accepted@, set);
    }
    if accepted.len() != 2 || !makers_are(makers, &accepted) {
        return Err("deferred makers differ from the makers actually settled".to_owned());
    }
    Ok(
        DeferredReport {
            queued_without_funding: 3,
            accepted_maker_orders: 2,
            over_capacity_rejected: 1,
            actual_mpc_outage: true,
            actual_defmi_pause: true,
            concurrent_intake_clients: 2,
            original_authorizations_unchanged: true,
            worker_restart_unchanged: true,
        },
    )
}

} // verus!
