//! What the acceptance runs and the edge's intake come to: which evidence is
//! enough, and how an order goes on.

use crate::bytes::{hex_bytes, hexadecimal, is_zero, text_bytes, Digest32};
use crate::cluster_acceptance::{
    agreement_fault, receipts_fault, workers_fault,
};
use crate::corporate::{CorporateNativeConfig, PreparedCorporateReserve};
use crate::corporate_journal_model::{JournalView, StoredCorporateIntent};
use crate::edge_client::round_agreed;
use crate::edge_submit::{
    expected_wallet, intake_reserve, wallet_acceptance_fault, IntakeRead, NativeOrderInstruction,
    RecoveredWallet, Scenario, WalletAcceptance,
};
use crate::executor::{NodeExecutionReceipt, RoundPlan};
use crate::lab_provision::lab_orders;
use crate::native_acceptance::{
    expected_fills, mode_for, NativeContract, NativeMode,
};
use crate::native_reports::{
    advanced_fault, deferred_fault, deferred_orders, deferred_outcome, hex_digest, maker_orders,
    notes_fault, request_with, wallet_fault, DeferredIntake, DeferredRequest, LedgerNote,
    WalletEvidence, WalletKind,
};
use crate::text::{blank_char, trimmed, trimmed_end, trimmed_start};
use crate::types::{ClusterPublicConfig, MpcBatchResult};
use vstd::prelude::*;

verus! {

/// How a request's intake goes on: its intent is saved first; then, for the same
/// instruction and in its turn, its reserve is prepared; and once that is saved,
/// it is submitted.
pub proof fn lemma_intake_goes_on_where_it_stopped(
    journal: JournalView,
    id: Seq<char>,
    input_digest: Digest32,
)
    requires
        journal.intake_step(id, input_digest) is Ok,
    ensures
        ({
            let step = journal.intake_step(id, input_digest)->Ok_0;
            &&& step is SaveIntent <==> (journal.intent(id) matches Ok(None))
            &&& step is PrepareReserve <==> (journal.intent(id) matches Ok(Some(_))) && (
            journal.reserve(id) matches Ok(None))
            &&& step is Submit <==> (journal.intent(id) matches Ok(Some(_))) && (journal.reserve(
                id,
            ) matches Ok(Some(_)))
            &&& journal.intent(id) matches Ok(Some(intent)) ==> intent.input_digest == input_digest
                && journal.turn_fault(id) is None
        }),
{
}

/// The reserve of an intent is of its own order, key and eligibility, on the
/// facility as it was read, for the mandate's facility and asset, and from now
/// until the order expires.
pub proof fn lemma_intake_reserve_is_the_intents(
    prepared: &PreparedCorporateReserve,
    funding: &CorporateNativeConfig,
    intent: &StoredCorporateIntent,
    made: &IntakeRead,
    now: u64,
)
    requires
        intake_reserve(prepared, funding, intent, made, now),
    ensures
        prepared.order_wire@ == intent.order_wire@,
        prepared.signing_key == intent.signing_key,
        prepared.eligibility_commitment == intent.eligibility_commitment,
        prepared.side_blinding == made.secrets.side_blinding,
        prepared.reserve_blinding == made.secrets.reserve_blinding,
        prepared.request.order_authorization_salt == made.secrets.order_authorization_salt,
        prepared.request.reserve_reblinding == made.secrets.reserve_reblinding,
        prepared.request.order_commitment == made.order.commitment,
        prepared.request.before_sequence == made.read.facility.sequence,
        prepared.request.before == made.read.facility.commitments,
        prepared.request.after == (made.built->Ok_0).after,
        prepared.request.wire == (made.built->Ok_0).wire,
        prepared.request.mandate.facility_id == funding.facility_id,
        prepared.request.mandate.asset_id == funding.asset_id,
        prepared.request.mandate.hold_id == made.terms.reservation_id,
        prepared.request.mandate.valid_from == now,
        prepared.request.mandate.valid_until == made.terms.expires_at,
        prepared.facility_after.values@[0] + made.order.reservation_limit
            == funding.facility_values@[0],
        prepared.facility_after.values@[1] == funding.facility_values@[1]
            + made.order.reservation_limit,
        prepared.facility_after.sequence == made.read.facility.sequence + 1,
{
}

/// An instruction is taken exactly where its side reserves the configured asset,
/// cash for a buyer and the security for a seller, it lives between ten seconds
/// and an hour, and a funding note that it names is 32 bytes in hexadecimal.
pub proof fn lemma_instruction_reserves_the_configured_asset(
    instruction: &NativeOrderInstruction,
    cash: Digest32,
    security: Digest32,
    configured: Digest32,
)
    ensures
        instruction.instruction_fault(cash, security, configured) is None == {
            &&& instruction.side is Buy ==> configured == cash
            &&& instruction.side is Sell ==> configured == security
            &&& 10 <= instruction.valid_for_seconds <= 3600
            &&& instruction.source_note matches Some(text) ==> hexadecimal(text_bytes(text@))
                && hex_bytes(text_bytes(text@)).len() == 32
        },
{
}

/// An order can be cancelled exactly where it was admitted, and its delivery and
/// receipt are of one order.
pub proof fn lemma_admitted_order_can_be_cancelled(journal: JournalView, id: Seq<char>)
    ensures
        journal.cancel_fault(id) is None == {
            &&& journal.intent(id) matches Ok(Some(_))
            &&& journal.delivery(id) matches Ok(Some(delivery)) && journal.receipt(id) matches Ok(
                Some(receipt),
            ) && delivery.delivery.manifest.commitment == receipt.manifest.commitment
        },
{
}

/// Whatever was executed, a side's expected funds are what it started with: 120 of
/// the security for the maker and 10,000 in cash for the taker.
pub proof fn lemma_expected_wallets_conserve(acceptance: WalletAcceptance, scenario: Scenario)
    ensures
        ({
            let (values, sequence, notes) = expected_wallet(acceptance, scenario);
            &&& scenario is Maker ==> values.0 + values.1 + values.2 == 120
            &&& scenario is Taker ==> values.0 + values.1 + values.2 == 10_000
        }),
{
}

/// A recovered wallet is accepted only with exactly the expected funds, place and
/// notes, or with its original funds where only a queued request expired.
pub proof fn lemma_accepted_wallet_is_the_expected(
    acceptance: WalletAcceptance,
    scenario: Scenario,
    recovered: &RecoveredWallet,
    configured: [u64; 3],
)
    requires
        wallet_acceptance_fault(acceptance, scenario, recovered, configured) is None,
        !(acceptance is Unasked),
    ensures
        acceptance is QueuedExpiry ==> {
            &&& scenario is Maker
            &&& recovered.facility_values@ == configured@
            &&& recovered.facility_sequence == 2
            &&& recovered.unfilled_release_notes@.len() == 1
            &&& recovered.notes == 0
        },
        !(acceptance is QueuedExpiry) ==> {
            let (values, sequence, notes) = expected_wallet(acceptance, scenario);
            &&& recovered.facility_values@[0] == values.0
            &&& recovered.facility_values@[1] == values.1
            &&& recovered.facility_values@[2] == values.2
            &&& recovered.facility_sequence == sequence
            &&& recovered.notes == notes
            &&& acceptance is CancelFinal ==> recovered.own_asset_refund is Some
        },
{
    if !(acceptance is QueuedExpiry) {
        let (values, sequence, notes) = expected_wallet(acceptance, scenario);
        let expected = seq![values.0, values.1, values.2];
        assert(recovered.facility_values@ == expected);
        assert(expected[0] == values.0 && expected[1] == values.1 && expected[2] == values.2);
    }
}

proof fn lemma_notes_listed(
    kind: WalletKind,
    notes: Seq<Option<String>>,
    answers: Seq<Result<LedgerNote, String>>,
    count: nat,
    at: int,
)
    requires
        0 <= at < count,
        notes_fault(kind, notes, answers, count) is None,
    ensures
        ({
            &&& notes[at] is Some
            &&& at < answers.len()
            &&& answers[at] matches Ok(found) && Some(found.note_id) == hex_digest(
                (notes[at]->0)@,
            ) && is_zero(found.lock_id@)
        }),
    decreases count,
{
    if at < count - 1 {
        lemma_notes_listed(kind, notes, answers, (count - 1) as nat, at);
    }
}

/// A wallet's evidence is enough only where it was recovered with the balances,
/// the number of notes and the place that are expected, and the ledger has every
/// note that it lists, unlocked and under its own identifier.
pub proof fn lemma_wallet_evidence_is_canonical(
    kind: WalletKind,
    wallet: &WalletEvidence,
    count: u64,
    sequence: u64,
    note: int,
)
    requires
        wallet_fault(kind, wallet, count, sequence) is None,
    ensures
        wallet.report.wallet_recovered == Some(true),
        wallet.report.expected_private_balances_verified == Some(true),
        wallet.report.notes == Some(count),
        wallet.report.facility_sequence == Some(sequence),
        wallet.report.canonical_notes matches Some(listed) && listed@.len() == count,
        0 <= note < count ==> {
            let listed = (wallet.report.canonical_notes->0)@[note];
            &&& listed is Some
            &&& note < wallet.notes@.len()
            &&& wallet.notes@[note] matches Ok(found) && Some(found.note_id) == hex_digest(
                (listed->0)@,
            ) && is_zero(found.lock_id@)
        },
{
    if 0 <= note < count {
        let listed = (wallet.report.canonical_notes->0)@;
        lemma_notes_listed(kind, listed, wallet.notes@, listed.len(), note);
    }
}

/// A facility stands only where the report names it and the ledger has it at the
/// expected place.
pub proof fn lemma_facility_evidence_is_canonical(
    kind: WalletKind,
    wallet: &WalletEvidence,
    expected: u64,
)
    requires
        advanced_fault(kind, wallet, expected) is None,
    ensures
        wallet.facility matches Ok(sequence) && sequence == expected,
        wallet.report.facility_id matches Some(text) && hexadecimal(text_bytes(text@))
            && hex_digest(text@) is Some,
{
}

/// The request that is looked up is the first with its identifier, and there is
/// none only where no request has it.
pub proof fn lemma_first_request_is_found(list: Seq<DeferredRequest>, id: Seq<u8>, from: nat)
    ensures
        match request_with(list, id, from) {
            None => forall|i: int|
                from <= i < list.len() ==> (#[trigger] list[i]).request_id.encoded@ != id,
            Some(found) => exists|at: int|
                from <= at < list.len() && (#[trigger] list[at]) == found
                    && found.request_id.encoded@ == id && forall|i: int|
                    from <= i < at ==> (#[trigger] list[i]).request_id.encoded@ != id,
        },
    decreases list.len() - from,
{
    if from < list.len() {
        if list[from as int].request_id.encoded@ == id {
            assert(list[from as int] == request_with(list, id, from)->0);
        } else {
            lemma_first_request_is_found(list, id, from + 1);
            if request_with(list, id, from + 1) is Some {
                let found = request_with(list, id, from + 1)->0;
                let at = choose|at: int|
                    from + 1 <= at < list.len() && (#[trigger] list[at]) == found
                        && found.request_id.encoded@ == id && forall|i: int|
                        from + 1 <= i < at ==> (#[trigger] list[i]).request_id.encoded@ != id;
                assert(list[at] == found);
            }
        }
    }
}

proof fn lemma_deferred_among(
    before: Seq<DeferredRequest>,
    after: Seq<DeferredRequest>,
    count: nat,
    order: Seq<char>,
)
    requires
        count <= before.len(),
        deferred_orders(before, after, count) is Ok,
    ensures
        deferred_orders(before, after, count)->Ok_0.contains(order) == (exists|i: int|
            0 <= i < count && deferred_outcome(#[trigger] before[i], after) == Ok::<
                Option<Seq<char>>,
                Seq<char>,
            >(Some(order))),
        forall|i: int| 0 <= i < count ==> deferred_outcome(#[trigger] before[i], after) is Ok,
    decreases count,
{
    if count > 0 {
        lemma_deferred_among(before, after, (count - 1) as nat, order);
        if deferred_orders(before, after, count)->Ok_0.contains(order) {
            if deferred_outcome(before[count - 1], after) == Ok::<Option<Seq<char>>, Seq<char>>(
                Some(order),
            ) {
                assert(deferred_outcome(before[count - 1], after) == Ok::<
                    Option<Seq<char>>,
                    Seq<char>,
                >(Some(order)));
            }
        }
    }
}

/// An accepted deferred intake put exactly its makers' orders into the market:
/// each request of before is still there with the same signed terms, none had any
/// funding while the ledger was down, and the orders that were then admitted are
/// those that were settled.
pub proof fn lemma_deferred_intake_settles_its_makers(
    intake: &DeferredIntake,
    makers: Seq<Digest32>,
    at: int,
    order: Seq<char>,
)
    requires
        deferred_fault(intake, makers) is None,
        0 <= at < intake.before@.len(),
    ensures
        intake.before@.len() == 3 && intake.after@.len() == 3,
        intake.queue_before@ == intake.queue_after@,
        intake.before@[at].funding_prepared == Some(false),
        intake.before@[at].admitted == Some(false),
        request_with(intake.after@, intake.before@[at].request_id.encoded@, 0) matches Some(updated)
            && updated.authorization_digest.encoded@
            == intake.before@[at].authorization_digest.encoded@ && updated.order_commitment.encoded@
            == intake.before@[at].order_commitment.encoded@ && (updated.funding_prepared
            == updated.admitted) && (updated.admitted == Some(true) ==> updated.ended == Some(
            false,
        )) && (updated.admitted == Some(false) ==> updated.ended == Some(true)),
        maker_orders(makers).contains(order) == (exists|i: int|
            0 <= i < intake.before@.len() && deferred_outcome(
                #[trigger] intake.before@[i],
                intake.after@,
            ) == Ok::<Option<Seq<char>>, Seq<char>>(Some(order))),
{
    lemma_deferred_among(intake.before@, intake.after@, intake.before@.len(), order);
    assert(deferred_outcome(intake.before@[at], intake.after@) is Ok);
}

proof fn lemma_workers(
    replies: Seq<Option<Result<NodeExecutionReceipt, String>>>,
    start: int,
)
    requires
        0 <= start <= replies.len(),
    ensures
        workers_fault(replies, start) is None == (forall|i: int|
            start <= i < replies.len() ==> ((#[trigger] replies[i]) matches Some(Ok(_)))),
    decreases replies.len() - start,
{
    if start < replies.len() {
        lemma_workers(replies, start + 1);
        if workers_fault(replies, start) is None {
            assert forall|i: int| start <= i < replies.len() implies (
            (#[trigger] replies[i]) matches Some(Ok(_))) by {
                if i == start {
                    assert(replies[start] matches Some(Ok(_)));
                }
            }
        } else if forall|i: int|
            start <= i < replies.len() ==> ((#[trigger] replies[i]) matches Some(Ok(_))) {
            assert(replies[start] matches Some(Ok(_)));
        }
    }
}

proof fn lemma_receipts_all_stand(
    cluster: &ClusterPublicConfig,
    plan: &RoundPlan,
    receipts: Seq<NodeExecutionReceipt>,
    program: Seq<u8>,
    match_slots: u16,
    count: nat,
)
    ensures
        receipts_fault(cluster, plan, receipts, program, match_slots, count) is None == (forall|
            i: int,
        |
            0 <= i < count ==> #[trigger] crate::edge_client::receipt_stands(
                cluster,
                plan,
                receipts,
                program,
                match_slots,
                i,
            )),
    decreases count,
{
    if count > 0 {
        lemma_receipts_all_stand(
            cluster,
            plan,
            receipts,
            program,
            match_slots,
            (count - 1) as nat,
        );
        let last = crate::edge_client::receipt_stands(
            cluster,
            plan,
            receipts,
            program,
            match_slots,
            count - 1,
        );
        if receipts_fault(cluster, plan, receipts, program, match_slots, count) is None {
            assert(last);
        }
    }
}

/// A distributed match is agreed on exactly where every node executed the round
/// and the round is agreed on as any other is.
pub proof fn lemma_distributed_agreement_is_unanimous(
    cluster: &ClusterPublicConfig,
    plan: &RoundPlan,
    receipts: Seq<NodeExecutionReceipt>,
    program: Seq<u8>,
    match_slots: u16,
    replies: Seq<Option<Result<NodeExecutionReceipt, String>>>,
)
    ensures
        agreement_fault(cluster, plan, receipts, program, match_slots) is None == round_agreed(
            cluster,
            plan,
            receipts,
            program,
            match_slots,
        ),
        workers_fault(replies, 0) is None == (forall|i: int|
            0 <= i < replies.len() ==> ((#[trigger] replies[i]) matches Some(Ok(_)))),
{
    lemma_workers(replies, 0);
    lemma_receipts_all_stand(cluster, plan, receipts, program, match_slots, receipts.len());
}

/// What a run does follows from its contract: an expiry contract only expires, a
/// lifecycle phase needs a lifecycle, a second match needs a cycle, and a wallet's
/// acceptance ends a cycle where there is one.
pub proof fn lemma_contract_decides_the_run(
    contract: NativeContract,
    phase: bool,
    next_match: bool,
    finalize: bool,
)
    ensures
        ({
            let mode = mode_for(contract, phase, next_match, finalize);
            let lifecycle = contract is FirstLifecycle || contract is SecondLifecycle || contract
                is Worker;
            let cycle = contract is Cycle || lifecycle;
            let expiry = contract is FirstExpiry || contract is SecondExpiry;
            &&& mode == Ok::<NativeMode, Seq<char>>(NativeMode::Expiry) <==> expiry
            &&& mode == Ok::<NativeMode, Seq<char>>(
                NativeMode::LifecyclePhase { worker: contract is Worker },
            ) <==> phase && lifecycle
            &&& mode is Err <==> !expiry && ((phase && !lifecycle) || (!phase && next_match
                && !cycle))
            &&& mode == Ok::<NativeMode, Seq<char>>(NativeMode::FinalizeWallet) <==> !expiry
                && !phase && !next_match && finalize && !cycle
            &&& mode == Ok::<NativeMode, Seq<char>>(
                NativeMode::FinalizeCycle { continues_lifecycle: lifecycle },
            ) <==> !phase && finalize && cycle
        }),
{
}

/// The fills of a run leave nothing of the arriving order, and as many slots trade
/// as there are makers.
pub proof fn lemma_expected_fills_are_complete(
    result: &MpcBatchResult,
    makers: int,
    next_match: bool,
    multifill: bool,
)
    requires
        expected_fills(result, makers, next_match, multifill),
    ensures
        result.arriving_remaining == 0,
        crate::market_runtime::matched_slots(result.slots@).len() == makers,
        next_match ==> result.slots@[0].trade_price == 101 && result.slots@[0].trade_quantity == 1,
        !next_match && multifill ==> result.slots@[0].trade_price == 100
            && result.slots@[0].trade_quantity == 60,
        multifill ==> result.slots@[1].trade_price == 101 && result.slots@[1].trade_quantity == 30,
        !next_match && !multifill ==> result.slots@[0].trade_price == 100
            && result.slots@[0].trade_quantity == 40,
{
}

/// In the laboratory what sells rests and what buys trades at once or not at all.
pub proof fn lemma_lab_sells_rest(maker: bool, at: int)
    requires
        0 <= at < lab_orders(maker).len(),
    ensures
        lab_orders(maker)[at].side is Sell <==> lab_orders(maker)[at].time_in_force
            is GoodTilCancelled,
        lab_orders(maker)[at].side is Buy <==> lab_orders(maker)[at].time_in_force
            is ImmediateOrCancel,
        10 <= lab_orders(maker)[at].valid_for_seconds <= 3600,
        lab_orders(maker)[at].quantity > 0,
{
}

proof fn lemma_start_trimmed(text: Seq<char>) -> (cut: int)
    ensures
        0 <= cut <= text.len(),
        trimmed_start(text) == text.subrange(cut, text.len() as int),
        forall|i: int| 0 <= i < cut ==> blank_char(#[trigger] text[i]),
        cut < text.len() ==> !blank_char(text[cut]),
    decreases text.len(),
{
    if text.len() > 0 && blank_char(text[0]) {
        let rest = text.drop_first();
        let cut = lemma_start_trimmed(rest);
        assert(rest.subrange(cut, rest.len() as int) =~= text.subrange(
            cut + 1,
            text.len() as int,
        ));
        assert forall|i: int| 0 <= i < cut + 1 implies blank_char(#[trigger] text[i]) by {
            if i > 0 {
                assert(rest[i - 1] == text[i]);
            }
        }
        if cut < rest.len() {
            assert(rest[cut] == text[cut + 1]);
        }
        cut + 1
    } else {
        assert(text.subrange(0, text.len() as int) =~= text);
        0
    }
}

proof fn lemma_end_trimmed(text: Seq<char>) -> (cut: int)
    ensures
        0 <= cut <= text.len(),
        trimmed_end(text) == text.subrange(0, cut),
        forall|i: int| cut <= i < text.len() ==> blank_char(#[trigger] text[i]),
        cut > 0 ==> !blank_char(text[cut - 1]),
    decreases text.len(),
{
    if text.len() > 0 && blank_char(text.last()) {
        let rest = text.drop_last();
        let cut = lemma_end_trimmed(rest);
        assert(rest.subrange(0, cut) =~= text.subrange(0, cut));
        assert forall|i: int| cut <= i < text.len() implies blank_char(#[trigger] text[i]) by {
            if i < text.len() - 1 {
                assert(rest[i] == text[i]);
            }
        }
        if cut > 0 {
            assert(rest[cut - 1] == text[cut - 1]);
        }
        cut
    } else {
        assert(text.subrange(0, text.len() as int) =~= text);
        text.len() as int
    }
}

/// Trimming takes the white space away at both ends and nothing else.
pub proof fn lemma_trimming_takes_only_white_space(text: Seq<char>) -> (ends: (int, int))
    ensures
        0 <= ends.0 <= ends.1 <= text.len(),
        trimmed(text) == text.subrange(ends.0, ends.1),
        forall|i: int| 0 <= i < ends.0 ==> blank_char(#[trigger] text[i]),
        forall|i: int| ends.1 <= i < text.len() ==> blank_char(#[trigger] text[i]),
        ends.0 < ends.1 ==> !blank_char(text[ends.0]) && !blank_char(text[ends.1 - 1]),
{
    let start = lemma_start_trimmed(text);
    let rest = trimmed_start(text);
    let end = lemma_end_trimmed(rest);
    assert(rest.subrange(0, end) =~= text.subrange(start, start + end));
    assert forall|i: int| start + end <= i < text.len() implies blank_char(#[trigger] text[i]) by {
        assert(rest[i - start] == text[i]);
    }
    if end > 0 {
        assert(rest[end - 1] == text[start + end - 1]);
    }
    (start, start + end)
}

} // verus!
