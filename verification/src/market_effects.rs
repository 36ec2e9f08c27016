//! What each step of the market comes to, told by what the journal holds and
//! what came back.

use crate::bytes::{is_zero, text_bytes, Digest32};
use crate::edge_client::AgreedRoundExecution;
use crate::executor::RoundPlan;
use crate::market_journal::{market_key, MarketBookEntry, MarketCompletedRound, MarketView};
use crate::market_network::IngressFacts;
use crate::market_runtime::{
    all_asked, book_after, completes, direction_for, fill_order_at, fill_set_stands, finality_of,
    limit_context_bytes, list_bytes, listed, matched_slots, plan_expiry, rest_after, FillOrder,
    NativeFillRequest, ObservedFinality, PriceLimitDirection, SettleStep, Settled, StepView,
};
use crate::market_steps::{certified, place_requestable, OrderVotes};
use crate::types::{
    CertificateView, ClusterPublicConfig, MpcSlotResult, OrderCertificate, OrderCommitment,
    MPC_PARTIES,
};
use vstd::prelude::*;

verus! {

proof fn lemma_earliest(journal: MarketView, book: Seq<MarketBookEntry>, deadline: u64, count: nat)
    requires
        count <= book.len(),
        journal.earliest_deadline(book, deadline, count) is Ok,
    ensures
        ({
            let earliest = journal.earliest_deadline(book, deadline, count)->Ok_0;
            &&& earliest <= deadline
            &&& forall|i: int|
                0 <= i < count ==> (journal.ingress((#[trigger] book[i]).commitment) matches Ok(
                    input,
                ) && earliest <= input.receipt.manifest.retention_deadline)
            &&& earliest == deadline || exists|i: int|
                0 <= i < count && (journal.ingress((#[trigger] book[i]).commitment) matches Ok(
                    input,
                ) && earliest == input.receipt.manifest.retention_deadline)
        }),
    decreases count,
{
    if count > 0 {
        let before = (count - 1) as nat;
        lemma_earliest(journal, book, deadline, before);
        let earlier = journal.earliest_deadline(book, deadline, before)->Ok_0;
        let earliest = journal.earliest_deadline(book, deadline, count)->Ok_0;
        assert(journal.ingress(book[before as int].commitment) is Ok);
        if earliest == earlier && earlier != deadline {
            let i = choose|i: int|
                0 <= i < before && (journal.ingress((#[trigger] book[i]).commitment) matches Ok(
                    input,
                ) && earlier == input.receipt.manifest.retention_deadline);
            assert(journal.ingress(book[i].commitment) is Ok);
        }
    }
}

/// A round is planned for the order at the head of the queue, once it has its
/// place, against every order of the book in its order. The deadline of the round
/// is the earliest retention deadline among the arriving order and the orders of
/// the book: no order of the round is kept for less long, and one of them is kept
/// exactly so long.
pub proof fn lemma_no_order_outlives_its_round(
    journal: MarketView,
    cluster: &ClusterPublicConfig,
    facts: &IngressFacts,
    match_slots: u16,
    settled: bool,
    resting: Seq<OrderCommitment>,
    deadline: u64,
)
    requires
        journal.step(cluster, facts, match_slots, settled) == Ok::<StepView, Seq<char>>(
            StepView::Plan { resting, deadline },
        ),
    ensures
        journal.next() matches Ok(Some(input)) && {
            let own = input.receipt.manifest;
            &&& journal.certificate(own.commitment.key()) matches Ok(Some(_))
            &&& journal.plan(own.commitment.key()) matches Ok(None)
            &&& journal.book() matches Ok(book) && {
                &&& book.len() <= match_slots
                &&& resting.len() == book.len()
                &&& forall|i: int|
                    0 <= i < book.len() ==> resting[i] == (#[trigger] book[i]).commitment
                &&& deadline <= own.retention_deadline
                &&& forall|i: int|
                    0 <= i < book.len() ==> (journal.ingress(
                        (#[trigger] book[i]).commitment,
                    ) matches Ok(other) && deadline <= other.receipt.manifest.retention_deadline)
                &&& deadline == own.retention_deadline || exists|i: int|
                    0 <= i < book.len() && (journal.ingress(
                        (#[trigger] book[i]).commitment,
                    ) matches Ok(other) && deadline == other.receipt.manifest.retention_deadline)
            }
        },
{
    let input = journal.next()->Ok_0->Some_0;
    let book = journal.book()->Ok_0;
    lemma_earliest(journal, book, input.receipt.manifest.retention_deadline, book.len());
}

/// A plan ends at its deadline or five minutes after it was signed, whichever
/// comes first.
pub proof fn lemma_plan_ends_in_time(deadline: u64, at: u64)
    requires
        at + 300 <= u64::MAX,
    ensures
        plan_expiry(deadline, at) <= deadline,
        plan_expiry(deadline, at) <= at + 300,
        plan_expiry(deadline, at) == deadline || plan_expiry(deadline, at) == at + 300,
{
}

/// What the market does about the order at the head of its queue follows from
/// what is on record: it asks for a place while there is none, plans while there
/// is no plan, has the plan executed while there is no execution, settles what
/// traded until the nodes' finality is on record, and only then finishes; a round
/// in which nothing traded is finished without a settlement.
pub proof fn lemma_market_takes_its_steps_in_order(
    journal: MarketView,
    cluster: &ClusterPublicConfig,
    facts: &IngressFacts,
    match_slots: u16,
    settled: bool,
)
    requires
        journal.step(cluster, facts, match_slots, settled) is Ok,
    ensures
        ({
            let step = journal.step(cluster, facts, match_slots, settled)->Ok_0;
            &&& step is Idle == (journal.next() matches Ok(None))
            &&& !(step is Idle) ==> {
                let input = journal.next()->Ok_0->Some_0;
                let own = input.receipt.manifest;
                let id = own.commitment.key();
                let certificate = journal.certificate(id)->Ok_0;
                let plan = journal.plan(id)->Ok_0;
                let execution = journal.execution(id)->Ok_0;
                let traded = exists|i: int|
                    0 <= i < (execution->Some_0).result.slots@.len()
                        && (#[trigger] (execution->Some_0).result.slots@[i]).matched;
                let final_on_record = journal.get(market_key("depth-finality:"@, id)) matches Ok(
                    Some(_),
                );
                &&& step is Certify == certificate is None
                &&& step is Plan == (certificate is Some && plan is None)
                &&& step is Execute == (certificate is Some && plan is Some && execution is None)
                &&& step is Settle == (certificate is Some && plan is Some && execution is Some
                    && traded && !(settled && final_on_record))
                &&& step is Finish == (certificate is Some && plan is Some && execution is Some
                    && (!traded || (settled && final_on_record)))
                &&& step matches StepView::Certify { previous, commitment, expires_at } ==> {
                    &&& commitment == own.commitment
                    &&& expires_at == own.retention_deadline
                    &&& input.fault(cluster, facts) is None
                    &&& journal.completed() matches Ok(rounds) && match previous {
                        None => rounds.len() == 0,
                        Some(last) => rounds.len() > 0 && last == rounds.last().certificate@,
                    }
                }
                &&& step matches StepView::Settle { slots } ==> slots == matched_slots(
                    (execution->Some_0).result.slots@,
                )
                &&& step matches StepView::Finish { slots } ==> slots == matched_slots(
                    (execution->Some_0).result.slots@,
                )
            }
        }),
{
    let id = (journal.next()->Ok_0->Some_0).receipt.manifest.commitment.key();
    let slots = (journal.execution(id)->Ok_0->Some_0).result.slots@;
    lemma_traded_is_not_empty(slots, slots.len());
}

proof fn lemma_traded_is_not_empty(slots: Seq<MpcSlotResult>, count: nat)
    requires
        count <= slots.len(),
    ensures
        (crate::market_runtime::matched_among(slots, count).len() > 0) == (exists|i: int|
            0 <= i < count && (#[trigger] slots[i]).matched),
    decreases count,
{
    if count > 0 {
        lemma_traded_is_not_empty(slots, (count - 1) as nat);
        if slots[count - 1].matched {
            assert(slots[count - 1].matched);
        } else if exists|i: int| 0 <= i < count && (#[trigger] slots[i]).matched {
            let i = choose|i: int| 0 <= i < count && (#[trigger] slots[i]).matched;
            assert(i < count - 1);
        }
    }
}

/// How many of the first `count` orders of a book have something left after a
/// round.
pub open spec fn kept_before(
    book: Seq<MarketBookEntry>,
    slots: Seq<MpcSlotResult>,
    count: nat,
) -> nat
    decreases count,
{
    if count == 0 {
        0
    } else {
        kept_before(book, slots, (count - 1) as nat) + (if slots[count - 1].trade_quantity
            < book[count - 1].remaining {
            1nat
        } else {
            0nat
        })
    }
}

proof fn lemma_rest_at(
    book: Seq<MarketBookEntry>,
    slots: Seq<MpcSlotResult>,
    count: nat,
    at: int,
)
    requires
        count <= book.len(),
        rest_after(book, slots, count) is Ok,
        0 <= at < count,
    ensures
        ({
            let rest = rest_after(book, slots, count)->Ok_0;
            let place = kept_before(book, slots, at as nat) as int;
            &&& rest.len() == kept_before(book, slots, count)
            &&& at < slots.len()
            &&& slots[at].trade_quantity <= book[at].remaining
            &&& slots[at].trade_quantity < book[at].remaining ==> {
                &&& place < rest.len()
                &&& rest[place].commitment == book[at].commitment
                &&& rest[place].remaining + slots[at].trade_quantity == book[at].remaining
            }
        }),
    decreases count,
{
    let last = (count - 1) as nat;
    if at < last {
        lemma_rest_at(book, slots, last, at);
    } else if last > 0 {
        lemma_rest_at(book, slots, last, 0);
    }
}

proof fn lemma_rest_refused(book: Seq<MarketBookEntry>, slots: Seq<MpcSlotResult>, count: nat)
    requires
        count <= book.len(),
    ensures
        rest_after(book, slots, count) is Ok == (forall|i: int|
            0 <= i < count ==> i < slots.len() && slots[i].trade_quantity <= (
            #[trigger] book[i]).remaining),
    decreases count,
{
    if count > 0 {
        lemma_rest_refused(book, slots, (count - 1) as nat);
        let last = book[count - 1];
        if rest_after(book, slots, count) is Ok {
            assert forall|i: int| 0 <= i < count implies i < slots.len()
                && slots[i].trade_quantity <= (#[trigger] book[i]).remaining by {
                if i < count - 1 {
                    assert(book[i].remaining >= 0);
                }
            }
        } else if forall|i: int|
            0 <= i < count ==> i < slots.len() && slots[i].trade_quantity <= (
            #[trigger] book[i]).remaining {
            assert(slots[count - 1].trade_quantity <= book[count - 1].remaining);
        }
    }
}

/// Each order of the book loses what its own slot traded and nothing else. Who
/// has nothing left leaves the book; the others stay in their order, and behind
/// them stands what is left of the arriving order.
pub proof fn lemma_each_order_loses_its_own_trade(
    book: Seq<MarketBookEntry>,
    slots: Seq<MpcSlotResult>,
    arriving: OrderCommitment,
    arriving_remaining: u64,
)
    requires
        book_after(book, slots, arriving, arriving_remaining) is Ok,
    ensures
        ({
            let next = book_after(book, slots, arriving, arriving_remaining)->Ok_0;
            let kept = kept_before(book, slots, book.len());
            &&& forall|i: int|
                0 <= i < book.len() ==> {
                    let place = kept_before(book, slots, i as nat) as int;
                    &&& i < slots.len()
                    &&& slots[i].trade_quantity <= (#[trigger] book[i]).remaining
                    &&& slots[i].trade_quantity < book[i].remaining ==> {
                        &&& place < kept
                        &&& next[place].commitment == book[i].commitment
                        &&& next[place].remaining + slots[i].trade_quantity == book[i].remaining
                    }
                }
            &&& next.len() == kept + (if arriving_remaining > 0 {
                1int
            } else {
                0int
            })
            &&& arriving_remaining > 0 ==> next.last().commitment == arriving
                && next.last().remaining == arriving_remaining
        }),
{
    let rest = rest_after(book, slots, book.len())->Ok_0;
    let next = book_after(book, slots, arriving, arriving_remaining)->Ok_0;
    let kept = kept_before(book, slots, book.len());
    assert(rest.len() == kept) by {
        if book.len() > 0 {
            lemma_rest_at(book, slots, book.len(), 0);
        }
    }
    assert forall|i: int| 0 <= i < book.len() implies {
        let place = kept_before(book, slots, i as nat) as int;
        &&& i < slots.len()
        &&& slots[i].trade_quantity <= (#[trigger] book[i]).remaining
        &&& slots[i].trade_quantity < book[i].remaining ==> {
            &&& place < kept
            &&& next[place].commitment == book[i].commitment
            &&& next[place].remaining + slots[i].trade_quantity == book[i].remaining
        }
    } by {
        lemma_rest_at(book, slots, book.len(), i);
    }
}

/// A round's result is taken exactly where it has a slot for every order of the
/// book and no slot trades more than its order has.
pub proof fn lemma_result_fits_the_book(
    book: Seq<MarketBookEntry>,
    slots: Seq<MpcSlotResult>,
    arriving: OrderCommitment,
    arriving_remaining: u64,
)
    ensures
        book_after(book, slots, arriving, arriving_remaining) is Ok == (forall|i: int|
            0 <= i < book.len() ==> i < slots.len() && slots[i].trade_quantity <= (
            #[trigger] book[i]).remaining),
{
    lemma_rest_refused(book, slots, book.len());
}

/// A round is recorded as completed with the order, the certificate and the
/// execution that are on record, the book that its own result leaves, and the
/// settlement where anything traded, which every node has then confirmed.
pub proof fn lemma_completed_round_is_on_record(journal: MarketView)
    requires
        journal.finish_facts() is Ok,
    ensures
        ({
            let (commitment, certificate, execution, next, settled) = journal.finish_facts()->Ok_0;
            let id = commitment.key();
            let traded = exists|i: int|
                0 <= i < execution.result.slots@.len() && (
                #[trigger] execution.result.slots@[i]).matched;
            &&& journal.next() matches Ok(Some(input)) && commitment
                == input.receipt.manifest.commitment
            &&& journal.certificate(id) == Ok::<Option<OrderCertificate>, Seq<char>>(
                Some(certificate),
            )
            &&& journal.execution(id) == Ok::<Option<AgreedRoundExecution>, Seq<char>>(
                Some(execution),
            )
            &&& journal.book() matches Ok(book) && book_after(
                book,
                execution.result.slots@,
                commitment,
                execution.result.arriving_remaining,
            ) == Ok::<Seq<MarketBookEntry>, Seq<char>>(next)
            &&& settled is Some == traded
            &&& settled matches Some(accepted) ==> {
                &&& journal.settled(id) == Ok::<Option<Settled>, Seq<char>>(Some(accepted))
                &&& journal.get(market_key("depth-finality:"@, id)) matches Ok(Some(_))
            }
        }),
{
    let execution = journal.finish_facts()->Ok_0.2;
    lemma_traded_is_not_empty(execution.result.slots@, execution.result.slots@.len());
}

/// What a completed round tells: its certificate, its result and the book after
/// it; the transaction and the root of its settlement where there was one; seven
/// observations for each slot that traded; and the published book.
pub proof fn lemma_completed_round_tells_its_settlement(
    round: MarketCompletedRound,
    certificate: OrderCertificate,
    execution: AgreedRoundExecution,
    book: Seq<MarketBookEntry>,
    settled: Option<Settled>,
    snapshot: Seq<u8>,
)
    requires
        completes(round, certificate, execution, book, settled, snapshot),
    ensures
        round.certificate.sequence == certificate.sequence,
        round.certificate.commitment == certificate.commitment,
        round.certificate.digest == certificate.digest,
        round.certificate.previous_certificate == certificate.previous_certificate,
        round.result.slots@ == execution.result.slots@,
        round.result.arriving_remaining == execution.result.arriving_remaining,
        round.result.output_digest == execution.result.output_digest,
        round.book@ == book,
        round.transaction_id is Some == settled is Some,
        round.canonical_root is Some == settled is Some,
        settled matches Some(accepted) ==> {
            &&& (round.transaction_id->0)@ == accepted.transaction_id@
            &&& round.canonical_root->0 == accepted.after_root
        },
        round.finality_observations == 7 * matched_slots(execution.result.slots@).len(),
        round.public_snapshot is Some,
        (round.public_snapshot->0)@ == snapshot,
{
}

/// Over the fills of one round, in the order of the slots that traded: each is
/// about its own slot and the order that rests there; no fill that another one
/// follows closes the taker, and the last closes it exactly where nothing is left
/// of the arriving order; every fill but the last leaves a state for the next;
/// none is good for longer than both of its orders are kept.
pub proof fn lemma_only_the_last_fill_closes(
    orders: Seq<FillOrder>,
    plan: &RoundPlan,
    slots: Seq<usize>,
    output: Digest32,
    direction: PriceLimitDirection,
    arriving_deadline: u64,
    maker_deadlines: Seq<u64>,
    arriving_remaining: u64,
)
    requires
        orders.len() == slots.len(),
        maker_deadlines.len() == slots.len(),
        forall|i: int|
            0 <= i < orders.len() ==> fill_order_at(
                #[trigger] orders[i],
                plan,
                slots,
                i,
                output,
                direction,
                arriving_deadline,
                maker_deadlines[i],
                arriving_remaining,
            ),
    ensures
        forall|i: int|
            0 <= i < orders.len() ==> (#[trigger] orders[i]).slot == slots[i] && orders[i].maker
                == plan.resting@[slots[i] as int] && orders[i].direction == direction,
        forall|i: int|
            0 <= i < orders.len() - 1 ==> !(#[trigger] orders[i]).closes_taker
                && orders[i].projects_taker,
        orders.len() > 0 ==> orders.last().closes_taker == (arriving_remaining == 0)
            && !orders.last().projects_taker,
        forall|i: int|
            0 <= i < orders.len() ==> {
                let deadline = (#[trigger] orders[i]).deadline;
                &&& deadline <= arriving_deadline
                &&& deadline <= maker_deadlines[i]
                &&& deadline == arriving_deadline || deadline == maker_deadlines[i]
            },
        forall|i: int, j: int|
            0 <= i < orders.len() && 0 <= j < orders.len() ==> (
            #[trigger] orders[i]).limit_context@ == (#[trigger] orders[j]).limit_context@,
{
    assert forall|i: int| 0 <= i < orders.len() implies (#[trigger] orders[i]).slot == slots[i]
        && orders[i].maker == plan.resting@[slots[i] as int] && orders[i].direction
        == direction by {
        assert(fill_order_at(
            orders[i],
            plan,
            slots,
            i,
            output,
            direction,
            arriving_deadline,
            maker_deadlines[i],
            arriving_remaining,
        ));
    }
}

/// What is signed of the arriving order's limit fixes the order, its place and
/// the round's output.
pub proof fn lemma_limit_context_fixes_the_round(
    a: &RoundPlan,
    output_a: Digest32,
    b: &RoundPlan,
    output_b: Digest32,
)
    requires
        limit_context_bytes(a, output_a) == limit_context_bytes(b, output_b),
    ensures
        a.arriving == b.arriving,
        a.ordering_certificate.digest == b.ordering_certificate.digest,
        output_a == output_b,
{
    let label = text_bytes("OCLOB:SIGNED-TAKER-LIMIT:v1"@);
    let x = limit_context_bytes(a, output_a);
    let y = limit_context_bytes(b, output_b);
    let n = label.len() as int;
    assert(x.subrange(n, n + 32) =~= a.arriving.0@);
    assert(y.subrange(n, n + 32) =~= b.arriving.0@);
    assert(x.subrange(n + 32, n + 64) =~= a.ordering_certificate.digest@);
    assert(y.subrange(n + 32, n + 64) =~= b.ordering_certificate.digest@);
    assert(x.subrange(n + 64, n + 96) =~= output_a@);
    assert(y.subrange(n + 64, n + 96) =~= output_b@);
    crate::bytes::lemma_digest_view(a.arriving.0, b.arriving.0);
    crate::bytes::lemma_digest_view(a.ordering_certificate.digest, b.ordering_certificate.digest);
    crate::bytes::lemma_digest_view(output_a, output_b);
}

/// Who reserved the quote asset buys, and the limit is the most to pay; who
/// reserved the base asset sells, and the limit is the least to take; any other
/// asset is outside the market.
pub proof fn lemma_reserved_asset_tells_the_side(asset: Digest32, base: Digest32, quote: Digest32)
    requires
        base != quote,
    ensures
        (direction_for(asset, base, quote) matches Some(PriceLimitDirection::MaximumBuyPrice)) == (
        asset == quote),
        (direction_for(asset, base, quote) matches Some(PriceLimitDirection::MinimumSellPrice)) == (
        asset == base),
        direction_for(asset, base, quote) is None == (asset != base && asset != quote),
{
}

/// Settling a round: while no fills are signed they are signed; signed fills that
/// are not those of the slots that traded are refused; the others are handed
/// over until the ledger has accepted them, as one batch where they are several,
/// and then confirmed.
pub proof fn lemma_settlement_sends_what_was_signed(
    journal: MarketView,
    id: Seq<char>,
    plan: &RoundPlan,
    execution: &AgreedRoundExecution,
    slots: Seq<usize>,
)
    requires
        journal.settle_step(id, plan, execution, slots) is Ok,
    ensures
        ({
            let step = journal.settle_step(id, plan, execution, slots)->Ok_0;
            let requests = journal.signed(id)->Ok_0;
            &&& step is Sign == requests is None
            &&& requests matches Some(list) ==> {
                &&& list@.len() == slots.len()
                &&& forall|i: int|
                    0 <= i < slots.len() ==> (#[trigger] list@[i]).slot == slots[i]
                        && list@[i].round_id == plan.round_id && list@[i].mpc_result_digest
                        == execution.receipts@[0].public_output_sha256
                &&& step is Submit == (journal.settled(id) matches Ok(None))
                &&& step is Confirm == (journal.settled(id) matches Ok(Some(_)))
                &&& step matches SettleStep::Submit { batch } ==> batch == (list@.len() >= 2)
                &&& step matches SettleStep::Confirm { batch } ==> batch == (list@.len() >= 2)
            }
        }),
{
}

/// The nodes are told the round and the output of this very plan and execution,
/// the statement that the fills signed, and the receipt and the height that the
/// ledger gave.
pub proof fn lemma_nodes_are_told_the_settlement(
    plan: &RoundPlan,
    output: Digest32,
    statement: Digest32,
    settled: &Settled,
)
    ensures
        ({
            let finality = finality_of(plan, output, statement, settled);
            &&& finality.round_id == plan.round_id
            &&& finality.public_output_sha256 == output
            &&& finality.transition_digest == statement
            &&& finality.canonical_receipt_digest == settled.statement
            &&& finality.canonical_height == settled.height
        }),
{
}

/// Where all were asked, each of the seven parties observed the fill of each
/// signed request.
pub proof fn lemma_every_party_observed_every_fill(
    observed: Seq<ObservedFinality>,
    requests: Seq<NativeFillRequest>,
    at: int,
    party: int,
)
    requires
        all_asked(observed, requests),
        0 <= at < requests.len(),
        0 <= party < 7,
    ensures
        observed.len() == 7 * requests.len(),
        observed[7 * at + party].slot == requests[at].slot,
        observed[7 * at + party].party == party,
{
    let k = 7 * at + party;
    assert(k / 7 == at && k % 7 == party) by (nonlinear_arith)
        requires
            k == 7 * at + party,
            0 <= party < 7,
            0 <= at,
    ;
    assert(observed.len() == requests.len() * MPC_PARTIES);
    assert(0 <= k < observed.len());
    assert(observed[k].slot == requests[k / MPC_PARTIES as int].slot);
}

proof fn lemma_listed_parts(a: Seq<Vec<u8>>, b: Seq<Vec<u8>>, count: nat)
    requires
        a.len() > 0,
        0 < count <= b.len(),
    ensures
        listed(a + b, (a.len() + count) as nat) == listed(a, a.len()) + text_bytes(","@) + listed(
            b,
            count,
        ),
    decreases count,
{
    lemma_listed_prefix(a, b, a.len());
    if count == 1 {
        assert((a + b)[a.len() as int] == b[0]);
    } else {
        lemma_listed_parts(a, b, (count - 1) as nat);
        assert((a + b)[a.len() + count - 1] == b[count - 1]);
        assert(listed(a + b, (a.len() + count) as nat) =~= listed(a, a.len()) + text_bytes(","@)
            + listed(b, count));
    }
}

proof fn lemma_listed_prefix(a: Seq<Vec<u8>>, b: Seq<Vec<u8>>, count: nat)
    requires
        count <= a.len(),
    ensures
        listed(a + b, count) == listed(a, count),
    decreases count,
{
    if count > 0 {
        lemma_listed_prefix(a, b, (count - 1) as nat);
        assert((a + b)[count - 1] == a[count - 1]);
        assert((a + b)[0] == a[0]);
    }
}

/// The encoding of a list holds the encodings of its values, in their order and
/// with commas between them.
pub proof fn lemma_list_holds_its_values(a: Seq<Vec<u8>>, b: Seq<Vec<u8>>, value: Vec<u8>)
    requires
        a.len() > 0,
        b.len() > 0,
    ensures
        list_bytes(Seq::<Vec<u8>>::empty()) == text_bytes("["@) + text_bytes("]"@),
        list_bytes(seq![value]) == text_bytes("["@) + value@ + text_bytes("]"@),
        list_bytes(a + b) == text_bytes("["@) + listed(a, a.len()) + text_bytes(","@) + listed(
            b,
            b.len(),
        ) + text_bytes("]"@),
{
    lemma_listed_parts(a, b, b.len());
    assert((a + b).len() == a.len() + b.len());
    assert(list_bytes(Seq::<Vec<u8>>::empty()) =~= text_bytes("["@) + text_bytes("]"@));
    assert(list_bytes(a + b) =~= text_bytes("["@) + listed(a, a.len()) + text_bytes(","@) + listed(
        b,
        b.len(),
    ) + text_bytes("]"@));
}

/// A certificate names the market, the order and the end that were asked for,
/// and stands directly behind the previous one, or first in its market. A place
/// is asked for only while the order is kept, and never for the order that has
/// the last place.
pub proof fn lemma_certificate_is_for_the_order(
    certificate: OrderCertificate,
    cluster: &ClusterPublicConfig,
    previous: Option<CertificateView>,
    commitment: OrderCommitment,
    expires_at: u64,
    votes: &OrderVotes,
    now: Option<u64>,
)
    requires
        certified(certificate, cluster, previous, commitment, expires_at, votes),
        place_requestable(cluster, previous, commitment, expires_at, now),
    ensures
        certificate.market_id@ == cluster.market_id@,
        certificate.commitment == commitment,
        certificate.expires_at == expires_at,
        certificate.digest == votes.digest,
        now is Some,
        now->0 <= expires_at,
        previous matches Some(last) ==> {
            &&& certificate.sequence == last.sequence + 1
            &&& certificate.previous_certificate == last.digest
            &&& last.commitment != certificate.commitment
            &&& last.market_id == certificate.market_id@
        },
        previous is None ==> certificate.sequence == 1 && is_zero(
            certificate.previous_certificate@,
        ),
{
}

/// The fills on record are those of the slots that traded: as many, in their
/// order, each of this round and of its output.
pub proof fn lemma_fill_set_is_the_matching(
    requests: Seq<NativeFillRequest>,
    slots: Seq<usize>,
    round_id: Digest32,
    output: Digest32,
)
    ensures
        fill_set_stands(requests, slots, round_id, output) == {
            &&& requests.len() == slots.len()
            &&& forall|i: int|
                0 <= i < requests.len() ==> (#[trigger] requests[i]).slot == slots[i]
                    && requests[i].round_id == round_id && requests[i].mpc_result_digest == output
        },
{
}

} // verus!
