//! What holds of the market journal and of the book over whole runs.

use crate::bytes::{is_zero, Digest32};
use crate::market_journal::{
    foreign_record, market_key, market_open_fault, place, MarketBody, MarketBookEntry, MarketView,
};
use crate::market_network::{IngressFacts, MarketIngress};
use crate::market_runtime::{
    book_after, book_orders, matched_among, matched_slots, rest_after, SettleStep,
};
use crate::edge_client::AgreedRoundExecution;
use crate::executor::RoundPlan;
use crate::text::text_after;
use crate::types::{ClusterPublicConfig, MpcSlotResult, OrderCommitment};
use vstd::prelude::*;

verus! {

/// The quantity that rests in a book.
pub open spec fn resting_quantity(book: Seq<MarketBookEntry>) -> nat
    decreases book.len(),
{
    if book.len() == 0 {
        0
    } else {
        resting_quantity(book.drop_last()) + book.last().remaining as nat
    }
}

/// The quantity that the first `count` slots traded.
pub open spec fn traded_quantity(slots: Seq<MpcSlotResult>, count: nat) -> nat
    decreases count,
{
    if count == 0 {
        0
    } else {
        traded_quantity(slots, (count - 1) as nat) + slots[count - 1].trade_quantity as nat
    }
}

proof fn lemma_rest_conserves(book: Seq<MarketBookEntry>, slots: Seq<MpcSlotResult>, count: nat)
    requires
        count <= book.len(),
        rest_after(book, slots, count) is Ok,
    ensures
        resting_quantity(rest_after(book, slots, count)->Ok_0) + traded_quantity(slots, count)
            == resting_quantity(book.take(count as int)),
    decreases count,
{
    assert(book.take(0) =~= Seq::<MarketBookEntry>::empty());
    if count > 0 {
        let at = (count - 1) as nat;
        lemma_rest_conserves(book, slots, at);
        assert(book.take(count as int).drop_last() =~= book.take(at as int));
        let earlier = rest_after(book, slots, at)->Ok_0;
        let left = rest_after(book, slots, count)->Ok_0;
        if slots[at as int].trade_quantity != book[at as int].remaining {
            assert(left.drop_last() =~= earlier);
        }
    }
}

/// A round neither makes nor loses quantity: what rests afterwards and what
/// traded is what rested before and what is left of the arriving order.
pub proof fn lemma_book_conserves(
    book: Seq<MarketBookEntry>,
    slots: Seq<MpcSlotResult>,
    arriving: OrderCommitment,
    arriving_remaining: u64,
)
    requires
        book_after(book, slots, arriving, arriving_remaining) is Ok,
    ensures
        resting_quantity(book_after(book, slots, arriving, arriving_remaining)->Ok_0)
            + traded_quantity(slots, book.len()) == resting_quantity(book) + arriving_remaining,
{
    lemma_rest_conserves(book, slots, book.len());
    assert(book.take(book.len() as int) =~= book);
    let rest = rest_after(book, slots, book.len())->Ok_0;
    if arriving_remaining > 0 {
        let next = book_after(book, slots, arriving, arriving_remaining)->Ok_0;
        assert(next.drop_last() =~= rest);
    }
}

proof fn lemma_rest_members(book: Seq<MarketBookEntry>, slots: Seq<MpcSlotResult>, count: nat)
    requires
        count <= book.len(),
        book_orders(book).no_duplicates(),
        rest_after(book, slots, count) is Ok,
    ensures
        ({
            let rest = rest_after(book, slots, count)->Ok_0;
            &&& rest.len() <= count
            &&& book_orders(rest).no_duplicates()
            &&& forall|i: int| 0 <= i < rest.len() ==> (#[trigger] rest[i]).remaining > 0
            &&& forall|i: int|
                0 <= i < rest.len() ==> exists|j: int|
                    0 <= j < count && (#[trigger] book[j]).commitment == (
                    #[trigger] rest[i]).commitment && rest[i].remaining <= book[j].remaining
        }),
    decreases count,
{
    if count > 0 {
        let at = (count - 1) as nat;
        lemma_rest_members(book, slots, at);
        let earlier = rest_after(book, slots, at)->Ok_0;
        let rest = rest_after(book, slots, count)->Ok_0;
        assert forall|i: int| 0 <= i < rest.len() implies exists|j: int|
            0 <= j < count && (#[trigger] book[j]).commitment == (#[trigger] rest[i]).commitment
                && rest[i].remaining <= book[j].remaining by {
            if i < earlier.len() {
                assert(rest[i] == earlier[i]);
                let j = choose|j: int|
                    0 <= j < at && (#[trigger] book[j]).commitment == earlier[i].commitment
                        && earlier[i].remaining <= book[j].remaining;
                assert(book[j].commitment == rest[i].commitment);
            } else {
                assert(book[at as int].commitment == rest[i].commitment);
            }
        }
        assert forall|i: int, j: int|
            0 <= i < rest.len() && 0 <= j < rest.len() && i != j implies book_orders(rest)[i]
            != book_orders(rest)[j] by {
            if i < earlier.len() && j < earlier.len() {
                assert(book_orders(earlier)[i] != book_orders(earlier)[j]);
            } else {
                let other = if i < earlier.len() {
                    i
                } else {
                    j
                };
                assert(rest[other] == earlier[other]);
                let k = choose|k: int|
                    0 <= k < at && (#[trigger] book[k]).commitment == earlier[other].commitment
                        && earlier[other].remaining <= book[k].remaining;
                assert(book_orders(book)[k] != book_orders(book)[at as int]);
            }
        }
    }
}

/// The book stays a book: it grows by one order at most, no order stands in it
/// twice, each has something left, and none has more left than before.
pub proof fn lemma_book_stays_valid(
    book: Seq<MarketBookEntry>,
    slots: Seq<MpcSlotResult>,
    arriving: OrderCommitment,
    arriving_remaining: u64,
)
    requires
        book_orders(book).no_duplicates(),
        !book_orders(book).contains(arriving),
        book_after(book, slots, arriving, arriving_remaining) is Ok,
    ensures
        ({
            let next = book_after(book, slots, arriving, arriving_remaining)->Ok_0;
            &&& next.len() <= book.len() + 1
            &&& book_orders(next).no_duplicates()
            &&& forall|i: int| 0 <= i < next.len() ==> (#[trigger] next[i]).remaining > 0
            &&& forall|i: int|
                0 <= i < next.len() ==> (#[trigger] next[i]).commitment == arriving || exists|j: int|
                    0 <= j < book.len() && (#[trigger] book[j]).commitment == next[i].commitment
                        && next[i].remaining <= book[j].remaining
        }),
{
    lemma_rest_members(book, slots, book.len());
    let rest = rest_after(book, slots, book.len())->Ok_0;
    let next = book_after(book, slots, arriving, arriving_remaining)->Ok_0;
    assert forall|i: int| 0 <= i < next.len() implies (#[trigger] next[i]).commitment == arriving
        || exists|j: int|
        0 <= j < book.len() && (#[trigger] book[j]).commitment == next[i].commitment
            && next[i].remaining <= book[j].remaining by {
        if i < rest.len() {
            assert(next[i] == rest[i]);
        }
    }
    assert forall|i: int, j: int|
        0 <= i < next.len() && 0 <= j < next.len() && i != j implies book_orders(next)[i]
        != book_orders(next)[j] by {
        if i < rest.len() && j < rest.len() {
            assert(book_orders(rest)[i] != book_orders(rest)[j]);
        } else {
            let other = if i < rest.len() {
                i
            } else {
                j
            };
            assert(next[other] == rest[other]);
            let k = choose|k: int|
                0 <= k < book.len() && (#[trigger] book[k]).commitment == rest[other].commitment
                    && rest[other].remaining <= book[k].remaining;
            assert(book_orders(book)[k] != arriving);
        }
    }
}

proof fn lemma_matched_among(slots: Seq<MpcSlotResult>, count: nat)
    requires
        count <= slots.len() <= usize::MAX,
    ensures
        ({
            let traded = matched_among(slots, count);
            &&& forall|k: int|
                0 <= k < traded.len() ==> (#[trigger] traded[k]) < count
                    && slots[traded[k] as int].matched
            &&& forall|k: int, l: int|
                0 <= k < l < traded.len() ==> #[trigger] traded[k] < #[trigger] traded[l]
            &&& forall|i: int|
                0 <= i < count && (#[trigger] slots[i]).matched ==> traded.contains(i as usize)
        }),
    decreases count,
{
    if count > 0 {
        let at = (count - 1) as nat;
        lemma_matched_among(slots, at);
        let earlier = matched_among(slots, at);
        let traded = matched_among(slots, count);
        assert forall|i: int| 0 <= i < count && (#[trigger] slots[i]).matched implies traded.contains(
            i as usize,
        ) by {
            if i < at {
                let k = choose|k: int| 0 <= k < earlier.len() && earlier[k] == i as usize;
                assert(traded[k] == i as usize);
            } else {
                assert(traded[traded.len() - 1] == i as usize);
            }
        }
    }
}

/// What is settled is what traded: the slots of a settlement are exactly those
/// that traded, each once, in ascending order.
pub proof fn lemma_settled_slots_are_those_that_traded(slots: Seq<MpcSlotResult>)
    requires
        slots.len() <= usize::MAX,
    ensures
        ({
            let traded = matched_slots(slots);
            &&& forall|k: int|
                0 <= k < traded.len() ==> (#[trigger] traded[k]) < slots.len()
                    && slots[traded[k] as int].matched
            &&& forall|k: int, l: int|
                0 <= k < l < traded.len() ==> #[trigger] traded[k] < #[trigger] traded[l]
            &&& forall|i: int|
                0 <= i < slots.len() && (#[trigger] slots[i]).matched ==> traded.contains(
                    i as usize,
                )
        }),
{
    lemma_matched_among(slots, slots.len());
}

/// The first record under a key stays: a second write gives the first body
/// back and changes nothing.
pub proof fn lemma_market_first_write_wins(
    journal: MarketView,
    key: Seq<char>,
    first: MarketBody,
    second: MarketBody,
)
    requires
        journal.get(key) == Ok::<Option<MarketBody>, Seq<char>>(None),
    ensures
        ({
            let (kept, written) = journal.put(key, first);
            &&& written == Ok::<MarketBody, Seq<char>>(first)
            &&& kept.put(key, second) == (kept, written)
        }),
{
}

/// A write leaves every other record, and every record that was there, alone.
pub proof fn lemma_market_records_stay(
    journal: MarketView,
    key: Seq<char>,
    body: MarketBody,
    other: Seq<char>,
)
    requires
        journal.records.dom().contains(other) || other != key,
    ensures
        journal.put(key, body).0.get(other) == journal.get(other),
{
}

/// An exact retry of an accepted handoff gets its place again and changes
/// nothing, whatever the time and whatever is known of it by then.
pub proof fn lemma_market_intake_retry(
    journal: MarketView,
    input: MarketIngress,
    cluster: &ClusterPublicConfig,
    facts: &IngressFacts,
    later: &IngressFacts,
)
    requires
        journal.accept(input, cluster, facts).1 is Ok,
        forall|i: int|
            0 <= i < journal.order.len() ==> journal.records.dom().contains(
                #[trigger] journal.order[i],
            ),
    ensures
        ({
            let (kept, at) = journal.accept(input, cluster, facts);
            kept.accept(input, cluster, later) == (kept, at)
        }),
{
    let key = market_key("input:"@, input.receipt.manifest.commitment.key());
    let (kept, at) = journal.accept(input, cluster, facts);
    if !journal.records.dom().contains(key) {
        let order = kept.order;
        let last = journal.order.len() as int;
        assert(order[last] == key);
        let found = order.index_of(key);
        assert(order[found] == key);
        if found < last {
            assert(journal.order[found] == key);
        }
        assert(place(order, key) == last + 1);
    }
}

/// Once a handoff is accepted no other envelope takes its order's place, even
/// one that the order's own key signed.
pub proof fn lemma_market_intake_is_not_replaced(
    journal: MarketView,
    input: MarketIngress,
    other: MarketIngress,
    cluster: &ClusterPublicConfig,
    facts: &IngressFacts,
    later: &IngressFacts,
)
    requires
        journal.accept(input, cluster, facts).1 is Ok,
        other.receipt.manifest.commitment == input.receipt.manifest.commitment,
        other.digest_value() != input.digest_value(),
    ensures
        ({
            let kept = journal.accept(input, cluster, facts).0;
            kept.accept(other, cluster, later) == (
                kept,
                Err::<int, Seq<char>>("market commitment already has another envelope"@),
            )
        }),
{
}

/// A refused handoff leaves the journal as it was.
pub proof fn lemma_refused_intake_changes_nothing(
    journal: MarketView,
    input: MarketIngress,
    cluster: &ClusterPublicConfig,
    facts: &IngressFacts,
)
    requires
        journal.accept(input, cluster, facts).1 is Err,
    ensures
        journal.accept(input, cluster, facts).0 == journal,
{
}

/// An open journal opens again as it is, and under no other deployment.
pub proof fn lemma_market_journal_reopens(journal: MarketView, secret: Digest32, other: Digest32)
    requires
        journal.get("context"@) == Ok::<Option<MarketBody>, Seq<char>>(
            Some(MarketBody::Context(journal.context)),
        ),
        !is_zero(secret@),
        other != journal.context,
    ensures
        market_open_fault(secret, None, journal.get("context"@), journal.context) is None,
        journal.put("context"@, MarketBody::Context(journal.context)).0 == journal,
        ({
            let foreign = MarketView { context: other, ..journal };
            market_open_fault(secret, None, foreign.get("context"@), other) == Some(
                foreign_record(),
            )
        }),
{
}

/// Whether the record at a place is a handoff whose round is completed.
pub open spec fn round_completed(journal: MarketView, at: int) -> bool {
    match text_after(journal.order[at], "input:"@) {
        None => true,
        Some(id) => journal.done(market_key("done:"@, id)) matches Ok(Some(_)),
    }
}

proof fn lemma_next_from(journal: MarketView, start: nat)
    requires
        journal.next_from(start) is Ok,
    ensures
        match journal.next_from(start)->Ok_0 {
            None => forall|i: int|
                start <= i < journal.order.len() ==> #[trigger] round_completed(journal, i),
            Some(input) => exists|at: int|
                {
                    &&& start <= at < journal.order.len()
                    &&& !(#[trigger] round_completed(journal, at))
                    &&& journal.input(journal.order[at]) == Ok::<Option<MarketIngress>, Seq<char>>(
                        Some(input),
                    )
                    &&& forall|i: int| start <= i < at ==> #[trigger] round_completed(journal, i)
                },
        } || (exists|at: int|
            start <= at < journal.order.len() && journal.input(journal.order[at]) == Ok::<
                Option<MarketIngress>,
                Seq<char>,
            >(None) && !(#[trigger] round_completed(journal, at))),
    decreases journal.order.len() - start,
{
    if start < journal.order.len() {
        let skipped = match text_after(journal.order[start as int], "input:"@) {
            None => true,
            Some(id) => journal.done(market_key("done:"@, id)) matches Ok(Some(_)),
        };
        if skipped {
            assert(round_completed(journal, start as int));
            lemma_next_from(journal, start + 1);
        } else {
            assert(!round_completed(journal, start as int));
        }
    }
}

/// The market works in the order of intake: every handoff before the one that
/// it works on has its round completed, and it is idle only when all have.
pub proof fn lemma_market_works_in_order(journal: MarketView)
    requires
        journal.next() is Ok,
        forall|i: int|
            0 <= i < journal.order.len() ==> journal.records.dom().contains(
                #[trigger] journal.order[i],
            ),
    ensures
        match journal.next()->Ok_0 {
            None => forall|i: int|
                0 <= i < journal.order.len() ==> #[trigger] round_completed(journal, i),
            Some(input) => exists|at: int|
                {
                    &&& 0 <= at < journal.order.len()
                    &&& !(#[trigger] round_completed(journal, at))
                    &&& journal.input(journal.order[at]) == Ok::<Option<MarketIngress>, Seq<char>>(
                        Some(input),
                    )
                    &&& forall|i: int| 0 <= i < at ==> #[trigger] round_completed(journal, i)
                },
        },
{
    lemma_next_from(journal, 0);
    assert forall|at: int| 0 <= at < journal.order.len() implies journal.input(journal.order[at])
        != Ok::<Option<MarketIngress>, Seq<char>>(None) by {}
}

/// A signed settlement is never made anew: once the signed fills are kept, the
/// round submits those or confirms them, and no later write replaces them.
pub proof fn lemma_signed_settlement_is_kept(
    journal: MarketView,
    id: Seq<char>,
    plan: &RoundPlan,
    execution: &AgreedRoundExecution,
    slots: Seq<usize>,
    key: Seq<char>,
    body: MarketBody,
)
    requires
        journal.signed(id) matches Ok(Some(_)),
    ensures
        journal.put(key, body).0.signed(id) == journal.signed(id),
        journal.put(key, body).0.settle_step(id, plan, execution, slots) != Ok::<
            SettleStep,
            Seq<char>,
        >(SettleStep::Sign),
{
}

} // verus!
