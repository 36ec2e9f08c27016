//! Scenario-independent market pipeline. Inputs are certified encrypted orders;
//! all matching and cryptographic work is done by the nodes and the ledger.

use crate::bytes::{digest_equal, push_all, push_text, sha256, sha256_digest, text_bytes, Digest32};
use crate::edge_client::{
    all_came, finality_requestable, finalize_agreed_private_state, first_failure, values_of,
    AgreedRoundExecution, EdgeClientError, ReplyFailure,
};
use crate::executor::{PartyExecutionError, RoundPlan};
use crate::market_journal::{
    found, key_of, malformed_market_record, market_key, MarketBody, MarketBookEntry,
    MarketCompletedRound, MarketJournal, MarketView,
};
use crate::market_network::{IngressFacts, MarketIngress, MarketServiceConfig};
use crate::scalars::{point_decodes, ristretto_decodes};
use crate::store::text_result;
use crate::store_model::PrivateStateFinality;
use crate::text_map::text_equal;
use crate::types::{
    CertificateView, ClusterPublicConfig, MpcSlotResult, OrderCertificate, OrderCommitment,
    MPC_PARTIES,
};
use vstd::prelude::*;

verus! {

/// A settlement that the ledger has accepted.
#[derive(Clone, Debug, PartialEq, Eq)]
pub struct Settled {
    pub transaction_id: String,
    pub block_id: String,
    pub before_root: Digest32,
    pub after_root: Digest32,
    pub height: u64,
    pub statement: Digest32,
}

/// A signed fill, ready for the ledger. `wire` is its encoding.
#[derive(Clone, Debug, PartialEq, Eq)]
pub struct NativeFillRequest {
    pub round_id: Digest32,
    pub slot: usize,
    pub mpc_result_digest: Digest32,
    pub wire: Vec<u8>,
}

/// A point in time, as the operating system's clock gives it.
#[verifier::external_type_specification]
#[verifier::external_body]
pub struct ExSystemTime(std::time::SystemTime);

/// `SystemTime::now` reads the clock; nothing is promised of what it shows.
pub assume_specification[ std::time::SystemTime::now ]() -> (time: std::time::SystemTime);

/// Calls `SystemTime::duration_since` with the start of the Unix epoch and gives
/// the whole seconds; there are none where the clock shows a time before it.
/// Nothing is promised of their number, which is the machine's.
#[verifier::external_body]
fn seconds_since_epoch(time: &std::time::SystemTime) -> (elapsed: Option<u64>) {
    time.duration_since(std::time::UNIX_EPOCH).ok().map(|elapsed| elapsed.as_secs())
}

/// The time that a clock shows, in whole seconds since the Unix epoch.
/// `elapsed` is what the clock gave, if it gave anything.
pub fn clock_time(elapsed: Option<u64>) -> (r: Result<u64, String>)
    ensures
        r is Ok == elapsed is Some,
        r matches Ok(seconds) ==> elapsed == Some(seconds),
        r matches Err(e) ==> e@ == "second time provided was later than self"@,
{
    match elapsed {
        Some(seconds) => Ok(seconds),
        None => Err("second time provided was later than self".to_owned()),
    }
}

/// The current time, in whole seconds since the Unix epoch.
pub fn now() -> (r: Result<u64, String>)
    ensures
        r matches Err(e) ==> e@ == "second time provided was later than self"@,
{
    let time = std::time::SystemTime::now();
    clock_time(seconds_since_epoch(&time))
}

/// What the market does next for the order at the head of its queue.
pub enum MarketStep {
    /// There is no order to work on.
    Idle,
    /// Ask the nodes for the order's place, behind that of the last completed
    /// round.
    Certify {
        previous: Option<OrderCertificate>,
        commitment: OrderCommitment,
        expires_at: u64,
    },
    /// Sign the plan of a round against these resting orders. No order of the
    /// round is kept beyond the deadline.
    Plan { resting: Vec<OrderCommitment>, deadline: u64 },
    /// Have the nodes execute the plan.
    Execute,
    /// Settle the slots that traded.
    Settle { slots: Vec<usize> },
    /// Record the round as completed.
    Finish { slots: Vec<usize> },
}

pub enum StepView {
    Idle,
    Certify { previous: Option<CertificateView>, commitment: OrderCommitment, expires_at: u64 },
    Plan { resting: Seq<OrderCommitment>, deadline: u64 },
    Execute,
    Settle { slots: Seq<usize> },
    Finish { slots: Seq<usize> },
}

impl View for MarketStep {
    type V = StepView;

    open spec fn view(&self) -> StepView {
        match *self {
            MarketStep::Idle => StepView::Idle,
            MarketStep::Certify { previous, commitment, expires_at } => StepView::Certify {
                previous: match previous {
                    Some(certificate) => Some(certificate@),
                    None => None,
                },
                commitment,
                expires_at,
            },
            MarketStep::Plan { resting, deadline } => StepView::Plan { resting: resting@, deadline },
            MarketStep::Execute => StepView::Execute,
            MarketStep::Settle { slots } => StepView::Settle { slots: slots@ },
            MarketStep::Finish { slots } => StepView::Finish { slots: slots@ },
        }
    }
}

/// The places of the slots that traded, among the first `count`.
pub open spec fn matched_among(slots: Seq<MpcSlotResult>, count: nat) -> Seq<usize>
    decreases count,
{
    if count == 0 {
        Seq::empty()
    } else if slots[count - 1].matched {
        matched_among(slots, (count - 1) as nat).push((count - 1) as usize)
    } else {
        matched_among(slots, (count - 1) as nat)
    }
}

/// The places of the slots that traded.
pub open spec fn matched_slots(slots: Seq<MpcSlotResult>) -> Seq<usize> {
    matched_among(slots, slots.len())
}

/// The orders of a book.
pub open spec fn book_orders(book: Seq<MarketBookEntry>) -> Seq<OrderCommitment> {
    book.map_values(|entry: MarketBookEntry| entry.commitment)
}

impl MarketView {
    pub open spec fn certificate(self, id: Seq<char>) -> Result<
        Option<OrderCertificate>,
        Seq<char>,
    > {
        match self.get(market_key("certificate:"@, id)) {
            Err(text) => Err(text),
            Ok(None) => Ok(None),
            Ok(Some(MarketBody::Certificate(value))) => Ok(Some(value)),
            Ok(Some(_)) => Err(malformed_market_record()),
        }
    }

    pub open spec fn plan(self, id: Seq<char>) -> Result<Option<RoundPlan>, Seq<char>> {
        match self.get(market_key("plan:"@, id)) {
            Err(text) => Err(text),
            Ok(None) => Ok(None),
            Ok(Some(MarketBody::Plan(value))) => Ok(Some(value)),
            Ok(Some(_)) => Err(malformed_market_record()),
        }
    }

    pub open spec fn execution(self, id: Seq<char>) -> Result<
        Option<AgreedRoundExecution>,
        Seq<char>,
    > {
        match self.get(market_key("execution:"@, id)) {
            Err(text) => Err(text),
            Ok(None) => Ok(None),
            Ok(Some(MarketBody::Execution(value))) => Ok(Some(value)),
            Ok(Some(_)) => Err(malformed_market_record()),
        }
    }

    pub open spec fn signed(self, id: Seq<char>) -> Result<
        Option<Vec<NativeFillRequest>>,
        Seq<char>,
    > {
        match self.get(market_key("signed:"@, id)) {
            Err(text) => Err(text),
            Ok(None) => Ok(None),
            Ok(Some(MarketBody::Signed(value))) => Ok(Some(value)),
            Ok(Some(_)) => Err(malformed_market_record()),
        }
    }

    pub open spec fn settled(self, id: Seq<char>) -> Result<Option<Settled>, Seq<char>> {
        match self.get(market_key("settled:"@, id)) {
            Err(text) => Err(text),
            Ok(None) => Ok(None),
            Ok(Some(MarketBody::Settled(value))) => Ok(Some(value)),
            Ok(Some(_)) => Err(malformed_market_record()),
        }
    }

    /// The book that the last completed round left.
    pub open spec fn book(self) -> Result<Seq<MarketBookEntry>, Seq<char>> {
        match self.completed() {
            Err(text) => Err(text),
            Ok(rounds) => Ok(
                if rounds.len() == 0 {
                    Seq::empty()
                } else {
                    rounds.last().book@
                },
            ),
        }
    }

    /// The certificate of the last completed round.
    pub open spec fn last_certificate(self) -> Result<Option<CertificateView>, Seq<char>> {
        match self.completed() {
            Err(text) => Err(text),
            Ok(rounds) => Ok(
                if rounds.len() == 0 {
                    None
                } else {
                    Some(rounds.last().certificate@)
                },
            ),
        }
    }

    /// The earliest of a deadline and those of the first `count` orders of a
    /// book.
    pub open spec fn earliest_deadline(
        self,
        book: Seq<MarketBookEntry>,
        deadline: u64,
        count: nat,
    ) -> Result<u64, Seq<char>>
        decreases count,
    {
        if count == 0 {
            Ok(deadline)
        } else {
            match self.earliest_deadline(book, deadline, (count - 1) as nat) {
                Err(text) => Err(text),
                Ok(earlier) => match self.ingress(book[count - 1].commitment) {
                    Err(text) => Err(text),
                    Ok(input) => Ok(
                        if input.receipt.manifest.retention_deadline < earlier {
                            input.receipt.manifest.retention_deadline
                        } else {
                            earlier
                        },
                    ),
                },
            }
        }
    }

    /// What the market does next. `settled` tells whether the slots that traded
    /// have been settled in this turn; they count as settled only where their
    /// finality is on record too.
    pub open spec fn step(
        self,
        cluster: &ClusterPublicConfig,
        facts: &IngressFacts,
        match_slots: u16,
        settled: bool,
    ) -> Result<StepView, Seq<char>> {
        match self.next() {
            Err(text) => Err(text),
            Ok(None) => Ok(StepView::Idle),
            Ok(Some(input)) => match self.book() {
                Err(text) => Err(text),
                Ok(book) => if book.len() > match_slots {
                    Err(
                        "native market book capacity needs explicit expansion or lifecycle processing"@,
                    )
                } else {
                    self.step_for(input, book, cluster, facts, settled)
                },
            },
        }
    }

    pub open spec fn step_for(
        self,
        input: MarketIngress,
        book: Seq<MarketBookEntry>,
        cluster: &ClusterPublicConfig,
        facts: &IngressFacts,
        settled: bool,
    ) -> Result<StepView, Seq<char>> {
        let manifest = input.receipt.manifest;
        let id = manifest.commitment.key();
        match self.certificate(id) {
            Err(text) => Err(text),
            Ok(None) => match input.fault(cluster, facts) {
                Some(text) => Err(text),
                None => Ok(
                    StepView::Certify {
                        previous: self.last_certificate()->Ok_0,
                        commitment: manifest.commitment,
                        expires_at: manifest.retention_deadline,
                    },
                ),
            },
            Ok(Some(_)) => match self.plan(id) {
                Err(text) => Err(text),
                Ok(None) => match self.earliest_deadline(
                    book,
                    manifest.retention_deadline,
                    book.len(),
                ) {
                    Err(text) => Err(text),
                    Ok(deadline) => Ok(StepView::Plan { resting: book_orders(book), deadline }),
                },
                Ok(Some(_)) => match self.execution(id) {
                    Err(text) => Err(text),
                    Ok(None) => Ok(StepView::Execute),
                    Ok(Some(execution)) => {
                        let slots = matched_slots(execution.result.slots@);
                        if slots.len() == 0 {
                            Ok(StepView::Finish { slots })
                        } else if !settled {
                            Ok(StepView::Settle { slots })
                        } else {
                            match self.get(market_key("depth-finality:"@, id)) {
                                Err(text) => Err(text),
                                Ok(None) => Ok(StepView::Settle { slots }),
                                Ok(Some(_)) => Ok(StepView::Finish { slots }),
                            }
                        }
                    },
                },
            },
        }
    }
}

/// The places of the slots that traded.
pub fn traded_slots(slots: &Vec<MpcSlotResult>) -> (traded: Vec<usize>)
    ensures
        traded@ == matched_slots(slots@),
{
    let mut traded: Vec<usize> = Vec::new();
    let mut i: usize = 0;
    while i < slots.len()
        invariant
            i <= slots@.len(),
            traded@ == matched_among(slots@, i as nat),
        decreases slots@.len() - i,
    {
        if slots[i].matched {
            traded.push(i);
        }
        i += 1;
    }
    traded
}

/// A step with its error text as characters.
pub open spec fn step_result(r: Result<MarketStep, String>) -> Result<StepView, Seq<char>> {
    match r {
        Ok(step) => Ok(step@),
        Err(text) => Err(text@),
    }
}

fn malformed() -> (text: String)
    ensures
        text@ == malformed_market_record(),
{
    "market record is malformed".to_owned()
}

impl MarketJournal {
    pub fn certificate(&self, id: &str) -> (r: Result<Option<&OrderCertificate>, String>)
        requires
            self.wf(),
        ensures
            found(r) == self@.certificate(id@),
    {
        let key = key_of("certificate:", id);
        match self.get(key.as_str()) {
            Err(e) => Err(e),
            Ok(None) => Ok(None),
            Ok(Some(MarketBody::Certificate(value))) => Ok(Some(value)),
            Ok(Some(_)) => Err(malformed()),
        }
    }

    pub fn plan(&self, id: &str) -> (r: Result<Option<&RoundPlan>, String>)
        requires
            self.wf(),
        ensures
            found(r) == self@.plan(id@),
    {
        let key = key_of("plan:", id);
        match self.get(key.as_str()) {
            Err(e) => Err(e),
            Ok(None) => Ok(None),
            Ok(Some(MarketBody::Plan(value))) => Ok(Some(value)),
            Ok(Some(_)) => Err(malformed()),
        }
    }

    pub fn execution(&self, id: &str) -> (r: Result<Option<&AgreedRoundExecution>, String>)
        requires
            self.wf(),
        ensures
            found(r) == self@.execution(id@),
    {
        let key = key_of("execution:", id);
        match self.get(key.as_str()) {
            Err(e) => Err(e),
            Ok(None) => Ok(None),
            Ok(Some(MarketBody::Execution(value))) => Ok(Some(value)),
            Ok(Some(_)) => Err(malformed()),
        }
    }

    pub fn signed(&self, id: &str) -> (r: Result<Option<&Vec<NativeFillRequest>>, String>)
        requires
            self.wf(),
        ensures
            found(r) == self@.signed(id@),
    {
        let key = key_of("signed:", id);
        match self.get(key.as_str()) {
            Err(e) => Err(e),
            Ok(None) => Ok(None),
            Ok(Some(MarketBody::Signed(value))) => Ok(Some(value)),
            Ok(Some(_)) => Err(malformed()),
        }
    }

    pub fn settled(&self, id: &str) -> (r: Result<Option<&Settled>, String>)
        requires
            self.wf(),
        ensures
            found(r) == self@.settled(id@),
    {
        let key = key_of("settled:", id);
        match self.get(key.as_str()) {
            Err(e) => Err(e),
            Ok(None) => Ok(None),
            Ok(Some(MarketBody::Settled(value))) => Ok(Some(value)),
            Ok(Some(_)) => Err(malformed()),
        }
    }

    /// The book that the last completed round left.
    pub fn book(&self) -> (r: Result<Vec<MarketBookEntry>, String>)
        requires
            self.wf(),
        ensures
            match self@.book() {
                Ok(book) => r matches Ok(entries) && entries@ == book,
                Err(text) => r matches Err(e) && e@ == text,
            },
    {
        let rounds = match self.completed() {
            Err(e) => return Err(e),
            Ok(rounds) => rounds,
        };
        let mut entries: Vec<MarketBookEntry> = Vec::new();
        if rounds.len() == 0 {
            assert(entries@ =~= Seq::<MarketBookEntry>::empty());
            return Ok(entries);
        }
        let last = rounds[rounds.len() - 1];
        let mut i: usize = 0;
        while i < last.book.len()
            invariant
                i <= last.book@.len(),
                entries@ == last.book@.take(i as int),
            decreases last.book@.len() - i,
        {
            entries.push(last.book[i]);
            i += 1;
            assert(entries@ =~= last.book@.take(i as int));
        }
        assert(entries@ =~= last.book@);
        Ok(entries)
    }

    /// The certificate of the last completed round.
    fn last_certificate(&self) -> (r: Result<Option<OrderCertificate>, String>)
        requires
            self.wf(),
        ensures
            match self@.last_certificate() {
                Err(text) => r matches Err(e) && e@ == text,
                Ok(None) => r matches Ok(None),
                Ok(Some(view)) => r matches Ok(Some(certificate)) && certificate@ == view,
            },
    {
        let rounds = match self.completed() {
            Err(e) => return Err(e),
            Ok(rounds) => rounds,
        };
        if rounds.len() == 0 {
            return Ok(None);
        }
        let last = rounds[rounds.len() - 1];
        Ok(Some(last.certificate.copy()))
    }

    /// The earliest of a deadline and those of the orders of a book.
    fn round_deadline(&self, book: &Vec<MarketBookEntry>, deadline: u64) -> (r: Result<u64, String>)
        requires
            self.wf(),
        ensures
            match self@.earliest_deadline(book@, deadline, book@.len()) {
                Ok(earliest) => r == Ok::<u64, String>(earliest),
                Err(text) => r matches Err(e) && e@ == text,
            },
    {
        let mut earliest: u64 = deadline;
        let mut i: usize = 0;
        while i < book.len()
            invariant
                self.wf(),
                i <= book@.len(),
                self@.earliest_deadline(book@, deadline, i as nat) == Ok::<u64, Seq<char>>(
                    earliest,
                ),
            decreases book@.len() - i,
        {
            match self.ingress(&book[i].commitment) {
                Err(e) => {
                    proof {
                        lemma_deadline_error(
                            self@,
                            book@,
                            deadline,
                            i as nat + 1,
                            book@.len(),
                        );
                    }
                    return Err(e);
                },
                Ok(input) => {
                    if input.receipt.manifest.retention_deadline < earliest {
                        earliest = input.receipt.manifest.retention_deadline;
                    }
                },
            }
            i += 1;
        }
        Ok(earliest)
    }
}

/// The market's runtime: a cluster, its market and its journal. `match_slots` is
/// the number of slots of the matching program.
pub struct NativeMarketRuntime {
    pub cluster: ClusterPublicConfig,
    pub config: MarketServiceConfig,
    pub journal: MarketJournal,
    pub match_slots: u16,
}

impl NativeMarketRuntime {
    /// What the market does next. `facts` are what is known of the order at the
    /// head of the queue; `settled` tells whether the slots that traded have
    /// been settled in this turn.
    pub fn pump(&self, facts: &IngressFacts, settled: bool) -> (r: Result<MarketStep, String>)
        requires
            self.journal.wf(),
            facts.receipts_valid@.len() == MPC_PARTIES,
        ensures
            step_result(r) == self.journal@.step(&self.cluster, facts, self.match_slots, settled),
    {
        let input = match self.journal.next() {
            Err(e) => return Err(e),
            Ok(None) => return Ok(MarketStep::Idle),
            Ok(Some(input)) => input,
        };
        let book = match self.journal.book() {
            Err(e) => return Err(e),
            Ok(book) => book,
        };
        if book.len() > self.match_slots as usize {
            return Err(
                "native market book capacity needs explicit expansion or lifecycle processing".to_owned(),
            );
        }
        let commitment = input.receipt.commitment();
        let deadline: u64 = input.receipt.manifest.retention_deadline;
        let id = commitment.hex();
        match self.journal.certificate(id.as_str()) {
            Err(e) => return Err(e),
            Ok(None) => {
                match input.verify(&self.cluster, facts) {
                    Err(e) => return Err(e),
                    Ok(_) => {},
                }
                return match self.journal.last_certificate() {
                    Err(e) => Err(e),
                    Ok(previous) => Ok(
                        MarketStep::Certify { previous, commitment, expires_at: deadline },
                    ),
                };
            },
            Ok(Some(_)) => {},
        }
        match self.journal.plan(id.as_str()) {
            Err(e) => return Err(e),
            Ok(None) => {
                let deadline: u64 = match self.journal.round_deadline(&book, deadline) {
                    Err(e) => return Err(e),
                    Ok(deadline) => deadline,
                };
                let resting = orders_of(&book);
                return Ok(MarketStep::Plan { resting, deadline });
            },
            Ok(Some(_)) => {},
        }
        match self.journal.execution(id.as_str()) {
            Err(e) => Err(e),
            Ok(None) => Ok(MarketStep::Execute),
            Ok(Some(execution)) => {
                let slots = traded_slots(&execution.result.slots);
                if slots.len() == 0 {
                    return Ok(MarketStep::Finish { slots });
                }
                if !settled {
                    return Ok(MarketStep::Settle { slots });
                }
                match self.journal.get(key_of("depth-finality:", id.as_str()).as_str()) {
                    Err(e) => Err(e),
                    Ok(None) => Ok(MarketStep::Settle { slots }),
                    Ok(Some(_)) => Ok(MarketStep::Finish { slots }),
                }
            },
        }
    }
}

proof fn lemma_deadline_error(
    journal: MarketView,
    book: Seq<MarketBookEntry>,
    deadline: u64,
    at: nat,
    count: nat,
)
    requires
        at <= count,
        journal.earliest_deadline(book, deadline, at) is Err,
    ensures
        journal.earliest_deadline(book, deadline, count) == journal.earliest_deadline(
            book,
            deadline,
            at,
        ),
    decreases count,
{
    if at < count {
        lemma_deadline_error(journal, book, deadline, at, (count - 1) as nat);
    }
}

fn orders_of(book: &Vec<MarketBookEntry>) -> (orders: Vec<OrderCommitment>)
    ensures
        orders@ == book_orders(book@),
{
    let mut orders: Vec<OrderCommitment> = Vec::new();
    let mut i: usize = 0;
    while i < book.len()
        invariant
            i <= book@.len(),
            orders@ == book_orders(book@.take(i as int)),
        decreases book@.len() - i,
    {
        orders.push(book[i].commitment);
        i += 1;
        assert(orders@ =~= book_orders(book@.take(i as int)));
    }
    assert(book@.take(i as int) =~= book@);
    orders
}

/// How long a plan lives at most, in seconds.
pub const PLAN_SECONDS: u64 = 300;

/// When a plan that is signed at a time ends: at the deadline, and no later than
/// five minutes on.
pub open spec fn plan_expiry(deadline: u64, at: u64) -> u64 {
    if deadline < at + PLAN_SECONDS {
        deadline
    } else {
        (at + PLAN_SECONDS) as u64
    }
}

/// Sign the plan of a round at a time. It lives until the deadline, and no
/// longer than five minutes.
pub fn plan_round(
    certificate: &OrderCertificate,
    resting: Vec<OrderCommitment>,
    deadline: u64,
    at: u64,
    coordinator: &Digest32,
    match_slots: u16,
) -> (r: Result<RoundPlan, PartyExecutionError>)
    requires
        at + PLAN_SECONDS <= u64::MAX,
    ensures
        ({
            let expiry = plan_expiry(deadline, at);
            &&& r matches Ok(plan) ==> plan.signed_from(
                certificate,
                resting@,
                at,
                expiry,
                coordinator@,
            ) && plan.valid_at(at, match_slots)
            &&& r matches Err(e) ==> e is Plan
            &&& r is Err ==> forall|plan: RoundPlan|
                plan.signed_from(certificate, resting@, at, expiry, coordinator@) ==> !(
                #[trigger] plan.valid_at(at, match_slots))
        }),
        r matches Ok(plan) ==> {
            &&& plan.arriving == certificate.commitment
            &&& plan.resting@ == resting@
            &&& plan.issued_at == at
            &&& plan.expires_at <= deadline
            &&& plan.expires_at <= at + 300
            &&& plan.expires_at == deadline || plan.expires_at == at + 300
        },
{
    let expiry: u64 = if deadline < at + PLAN_SECONDS {
        deadline
    } else {
        at + PLAN_SECONDS
    };
    let copy = certificate.copy();
    assert forall|plan: RoundPlan|
        plan.signed_from(&copy, resting@, at, expiry, coordinator@) == plan.signed_from(
            certificate,
            resting@,
            at,
            expiry,
            coordinator@,
        ) by {
        assert(copy.market_id@ == copy@.market_id);
        assert(copy@.sequence == copy.sequence && copy@.commitment == copy.commitment);
    }
    RoundPlan::sign(copy, resting, at, expiry, coordinator, match_slots)
}

/// What the first `count` resting orders leave in the book after a round.
pub open spec fn rest_after(
    book: Seq<MarketBookEntry>,
    slots: Seq<MpcSlotResult>,
    count: nat,
) -> Result<Seq<MarketBookEntry>, Seq<char>>
    decreases count,
{
    if count == 0 {
        Ok(Seq::empty())
    } else {
        let at = count - 1;
        match rest_after(book, slots, at as nat) {
            Err(text) => Err(text),
            Ok(earlier) => if at >= slots.len() {
                Err("market result omitted a resting slot"@)
            } else if slots[at].trade_quantity > book[at].remaining {
                Err("market result exceeds resting quantity"@)
            } else if slots[at].trade_quantity == book[at].remaining {
                Ok(earlier)
            } else {
                Ok(
                    earlier.push(
                        MarketBookEntry {
                            commitment: book[at].commitment,
                            remaining: (book[at].remaining - slots[at].trade_quantity) as u64,
                        },
                    ),
                )
            },
        }
    }
}

/// The book after a round: what rests on, and behind it what is left of the
/// arriving order.
pub open spec fn book_after(
    book: Seq<MarketBookEntry>,
    slots: Seq<MpcSlotResult>,
    arriving: OrderCommitment,
    arriving_remaining: u64,
) -> Result<Seq<MarketBookEntry>, Seq<char>> {
    match rest_after(book, slots, book.len()) {
        Err(text) => Err(text),
        Ok(rest) => if arriving_remaining > 0 {
            Ok(rest.push(MarketBookEntry { commitment: arriving, remaining: arriving_remaining }))
        } else {
            Ok(rest)
        },
    }
}

proof fn lemma_rest_error(
    book: Seq<MarketBookEntry>,
    slots: Seq<MpcSlotResult>,
    at: nat,
    count: nat,
)
    requires
        at <= count,
        rest_after(book, slots, at) is Err,
    ensures
        rest_after(book, slots, count) == rest_after(book, slots, at),
    decreases count,
{
    if at < count {
        lemma_rest_error(book, slots, at, (count - 1) as nat);
    }
}

/// The book after a round.
pub fn next_book(
    book: &Vec<MarketBookEntry>,
    slots: &Vec<MpcSlotResult>,
    arriving: &OrderCommitment,
    arriving_remaining: u64,
) -> (r: Result<Vec<MarketBookEntry>, String>)
    ensures
        match book_after(book@, slots@, *arriving, arriving_remaining) {
            Ok(next) => r matches Ok(entries) && entries@ == next,
            Err(text) => r matches Err(e) && e@ == text,
        },
{
    let mut next: Vec<MarketBookEntry> = Vec::new();
    let mut i: usize = 0;
    assert(next@ =~= Seq::<MarketBookEntry>::empty());
    while i < book.len()
        invariant
            i <= book@.len(),
            rest_after(book@, slots@, i as nat) == Ok::<Seq<MarketBookEntry>, Seq<char>>(next@),
        decreases book@.len() - i,
    {
        let entry = book[i];
        if i >= slots.len() {
            proof {
                lemma_rest_error(book@, slots@, i as nat + 1, book@.len());
            }
            return Err("market result omitted a resting slot".to_owned());
        }
        let spent: u64 = slots[i].trade_quantity;
        if spent > entry.remaining {
            proof {
                lemma_rest_error(book@, slots@, i as nat + 1, book@.len());
            }
            return Err("market result exceeds resting quantity".to_owned());
        }
        let remaining: u64 = entry.remaining - spent;
        if remaining > 0 {
            next.push(MarketBookEntry { commitment: entry.commitment, remaining });
        }
        i += 1;
    }
    if arriving_remaining > 0 {
        next.push(MarketBookEntry { commitment: *arriving, remaining: arriving_remaining });
    }
    Ok(next)
}

/// A completed round, as it follows from what the journal holds.
pub open spec fn completes(
    round: MarketCompletedRound,
    certificate: OrderCertificate,
    execution: AgreedRoundExecution,
    book: Seq<MarketBookEntry>,
    settled: Option<Settled>,
    snapshot: Seq<u8>,
) -> bool {
    let slots = matched_slots(execution.result.slots@);
    &&& round.certificate@ == certificate@
    &&& round.result@ == execution.result@
    &&& round.book@ == book
    &&& match settled {
        Some(settled) => (round.transaction_id matches Some(id) && id@ == settled.transaction_id@)
            && round.canonical_root == Some(settled.after_root),
        None => round.transaction_id is None && round.canonical_root is None,
    }
    &&& round.finality_observations == slots.len() * MPC_PARTIES
    &&& round.public_snapshot matches Some(kept) && kept@ == snapshot
}

impl MarketView {
    /// Keep a completed round unless one is kept already.
    pub open spec fn put_done(self, commitment: OrderCommitment, round: MarketCompletedRound) -> (
        MarketView,
        Result<(), Seq<char>>,
    ) {
        let (next, kept) = self.put(
            market_key("done:"@, commitment.key()),
            MarketBody::Done(round),
        );
        match kept {
            Ok(_) => (next, Ok(())),
            Err(text) => (next, Err(text)),
        }
    }

    /// What the ledger accepted for an order's round, where the round traded.
    pub open spec fn settled_for(self, id: Seq<char>, traded: bool) -> Result<
        Option<Settled>,
        Seq<char>,
    > {
        if traded {
            match self.settled(id) {
                Err(text) => Err(text),
                Ok(None) => Err(not_ready()),
                Ok(Some(settled)) => Ok(Some(settled)),
            }
        } else {
            Ok(None)
        }
    }

    /// Why the round at the head of the queue cannot be completed, if it
    /// cannot; else its order, certificate, execution, the book after it, and
    /// what the ledger accepted for it.
    pub open spec fn finish_facts(self) -> Result<
        (
            OrderCommitment,
            OrderCertificate,
            AgreedRoundExecution,
            Seq<MarketBookEntry>,
            Option<Settled>,
        ),
        Seq<char>,
    > {
        match self.next() {
            Err(text) => Err(text),
            Ok(None) => Err(not_ready()),
            Ok(Some(input)) => {
                let commitment = input.receipt.manifest.commitment;
                let id = commitment.key();
                match self.book() {
                    Err(text) => Err(text),
                    Ok(book) => match self.certificate(id) {
                        Err(text) => Err(text),
                        Ok(None) => Err(not_ready()),
                        Ok(Some(certificate)) => match self.execution(id) {
                            Err(text) => Err(text),
                            Ok(None) => Err(not_ready()),
                            Ok(Some(execution)) => {
                                let slots = matched_slots(execution.result.slots@);
                                let settled = self.settled_for(id, slots.len() > 0);
                                if slots.len() * MPC_PARTIES > usize::MAX {
                                    Err(not_ready())
                                } else if settled is Err {
                                    Err(settled->Err_0)
                                } else {
                                    match book_after(
                                        book,
                                        execution.result.slots@,
                                        commitment,
                                        execution.result.arriving_remaining,
                                    ) {
                                        Err(text) => Err(text),
                                        Ok(next) => if settled->Ok_0 is Some {
                                            match self.get(market_key("depth-finality:"@, id)) {
                                                Err(text) => Err(text),
                                                Ok(None) => Err("depth finality not durable"@),
                                                Ok(Some(_)) => Ok(
                                                    (
                                                        commitment,
                                                        certificate,
                                                        execution,
                                                        next,
                                                        settled->Ok_0,
                                                    ),
                                                ),
                                            }
                                        } else {
                                            Ok((commitment, certificate, execution, next, None))
                                        },
                                    }
                                }
                            },
                        },
                    },
                }
            },
        }
    }
}

pub open spec fn not_ready() -> Seq<char> {
    "market round is not ready to be completed"@
}

pub(crate) fn round_not_ready() -> (text: String)
    ensures
        text@ == not_ready(),
{
    "market round is not ready to be completed".to_owned()
}

impl NativeMarketRuntime {
    /// Record the round at the head of the queue as completed, with what the
    /// journal holds of its settlement where it traded. `snapshot` is the
    /// encoding of the public book, or why there is none.
    pub fn finish_round(&mut self, snapshot: Result<Vec<u8>, String>) -> (r: Result<(), String>)
        requires
            old(self).journal.wf(),
        ensures
            final(self).journal.wf(),
            final(self).cluster == old(self).cluster,
            final(self).config == old(self).config,
            final(self).match_slots == old(self).match_slots,
            match old(self).journal@.finish_facts() {
                Err(text) => final(self).journal@ == old(self).journal@ && (r matches Err(e) && e@ == text),
                Ok((commitment, certificate, execution, book, settled)) => match snapshot {
                    Err(text) => final(self).journal@ == old(self).journal@ && (r matches Err(e) && e@ == text@),
                    Ok(public) => exists|round: MarketCompletedRound| #[trigger]
                        completes(round, certificate, execution, book, settled, public@)
                            && (final(self).journal@, text_result(r)) == old(self).journal@.put_done(
                            commitment,
                            round,
                        ),
                },
            },
    {
        let commitment = match self.journal.next() {
            Err(e) => return Err(e),
            Ok(None) => return Err(round_not_ready()),
            Ok(Some(input)) => input.receipt.commitment(),
        };
        let id = commitment.hex();
        let book = match self.journal.book() {
            Err(e) => return Err(e),
            Ok(book) => book,
        };
        let certificate = match self.journal.certificate(id.as_str()) {
            Err(e) => return Err(e),
            Ok(None) => return Err(round_not_ready()),
            Ok(Some(certificate)) => certificate.copy(),
        };
        let execution = match self.journal.execution(id.as_str()) {
            Err(e) => return Err(e),
            Ok(None) => return Err(round_not_ready()),
            Ok(Some(execution)) => execution,
        };
        let ghost kept = *execution;
        let slots = traded_slots(&execution.result.slots);
        if slots.len() > usize::MAX / 7 {
            return Err(round_not_ready());
        }
        let settled: Option<&Settled> = if slots.len() > 0 {
            match self.journal.settled(id.as_str()) {
                Err(e) => return Err(e),
                Ok(None) => return Err(round_not_ready()),
                Ok(Some(settled)) => Some(settled),
            }
        } else {
            None
        };
        let observations: usize = slots.len() * 7;
        let next = match next_book(
            &book,
            &execution.result.slots,
            &commitment,
            execution.result.arriving_remaining,
        ) {
            Err(e) => return Err(e),
            Ok(next) => next,
        };
        let result = execution.result.copy();
        if settled.is_some() {
            let key = key_of("depth-finality:", id.as_str());
            match self.journal.get(key.as_str()) {
                Err(e) => return Err(e),
                Ok(None) => return Err("depth finality not durable".to_owned()),
                Ok(Some(_)) => {},
            }
        }
        let public = match snapshot {
            Err(e) => return Err(e),
            Ok(public) => public,
        };
        let (transaction_id, canonical_root) = match settled {
            Some(settled) => (Some(settled.transaction_id.clone()), Some(settled.after_root)),
            None => (None, None),
        };
        let round = MarketCompletedRound {
            certificate,
            result,
            book: next,
            transaction_id,
            canonical_root,
            finality_observations: observations,
            public_snapshot: Some(public),
        };
        let ghost facts = old(self).journal@.finish_facts()->Ok_0;
        assert(facts.0 == commitment && facts.2 == kept && facts.3 == next@);
        assert(completes(round, facts.1, facts.2, facts.3, facts.4, public@));
        let ghost made = round;
        let r = self.journal.put(key_of("done:", id.as_str()), MarketBody::Done(round));
        assert((self.journal@, text_result(r)) == old(self).journal@.put_done(facts.0, made));
        r
    }
}

/// Check the ledger's reserve scope against the pinned committee. `committee`
/// is the committee's encoded public key.
pub fn check_market_scope(committee_digest: &Digest32, committee: &[u8]) -> (r: Result<(), String>)
    ensures
        r is Ok == (committee_digest@ == sha256(committee@)),
        r matches Err(e) ==> e@ == "market native scope differs from pinned committee"@,
{
    let pinned = sha256_digest(committee);
    if !digest_equal(committee_digest, &pinned) {
        proof {
            crate::bytes::lemma_digest_view(*committee_digest, pinned);
        }
        return Err("market native scope differs from pinned committee".to_owned());
    }
    Ok(())
}

/// Which bound a limit price is.
#[derive(Clone, Copy, Debug, PartialEq, Eq, Structural)]
pub enum PriceLimitDirection {
    MaximumBuyPrice,
    MinimumSellPrice,
}

/// The bound that the arriving order's price is, by the asset it reserved: who
/// reserved the quote asset buys, who reserved the base asset sells.
pub open spec fn direction_for(asset: Digest32, base: Digest32, quote: Digest32) -> Option<
    PriceLimitDirection,
> {
    if asset == quote {
        Some(PriceLimitDirection::MaximumBuyPrice)
    } else if asset == base {
        Some(PriceLimitDirection::MinimumSellPrice)
    } else {
        None
    }
}

pub fn limit_direction(asset: &Digest32, config: &MarketServiceConfig) -> (r: Result<
    PriceLimitDirection,
    String,
>)
    ensures
        r is Ok == direction_for(*asset, config.base_asset, config.quote_asset) is Some,
        r matches Ok(direction) ==> Some(direction) == direction_for(
            *asset,
            config.base_asset,
            config.quote_asset,
        ),
        r matches Err(e) ==> e@ == "arrival reservation is outside this market pair"@,
{
    if digest_equal(asset, &config.quote_asset) {
        Ok(PriceLimitDirection::MaximumBuyPrice)
    } else if digest_equal(asset, &config.base_asset) {
        Ok(PriceLimitDirection::MinimumSellPrice)
    } else {
        Err("arrival reservation is outside this market pair".to_owned())
    }
}

/// What the proof of one fill is about.
#[derive(Clone, Copy, Debug, PartialEq, Eq)]
pub struct FillOrder {
    pub slot: usize,
    pub maker: OrderCommitment,
    pub direction: PriceLimitDirection,
    pub limit_context: Digest32,
    pub deadline: u64,
    /// The fill that ends the arriving order.
    pub closes_taker: bool,
    /// A later fill of the round starts from the state after this one.
    pub projects_taker: bool,
}

/// What binds the arriving order's limit to one certified round.
pub open spec fn limit_context_bytes(plan: &RoundPlan, output: Digest32) -> Seq<u8> {
    text_bytes("OCLOB:SIGNED-TAKER-LIMIT:v1"@) + plan.arriving.0@ + plan.ordering_certificate.digest@
        + output@
}

fn limit_context(plan: &RoundPlan, output: &Digest32) -> (context: Digest32)
    ensures
        context@ == sha256(limit_context_bytes(plan, *output)),
{
    let mut body: Vec<u8> = Vec::new();
    push_text(&mut body, "OCLOB:SIGNED-TAKER-LIMIT:v1");
    push_all(&mut body, &plan.arriving.0);
    push_all(&mut body, &plan.ordering_certificate.digest);
    push_all(&mut body, output);
    assert(body@ =~= limit_context_bytes(plan, *output));
    sha256_digest(body.as_slice())
}

/// The fill at a position among the slots that traded.
pub open spec fn fill_order_at(
    order: FillOrder,
    plan: &RoundPlan,
    slots: Seq<usize>,
    position: int,
    output: Digest32,
    direction: PriceLimitDirection,
    arriving_deadline: u64,
    maker_deadline: u64,
    arriving_remaining: u64,
) -> bool {
    &&& order.slot == slots[position]
    &&& order.maker == plan.resting@[slots[position] as int]
    &&& order.direction == direction
    &&& order.limit_context@ == sha256(limit_context_bytes(plan, output))
    &&& order.deadline == (if maker_deadline < arriving_deadline {
        maker_deadline
    } else {
        arriving_deadline
    })
    &&& order.closes_taker == (position + 1 == slots.len() && arriving_remaining == 0)
    &&& order.projects_taker == (position + 1 < slots.len())
}

impl MarketView {
    /// Why the fill at a position cannot be proved, if it cannot.
    pub open spec fn fill_fault(self, plan: &RoundPlan, slot: usize) -> Option<Seq<char>> {
        if slot >= plan.resting@.len() {
            Some("matched slot has no original order"@)
        } else {
            match self.ingress(plan.resting@[slot as int]) {
                Err(text) => Some(text),
                Ok(_) => None,
            }
        }
    }

    /// Why the fills of a round cannot be proved, if they cannot.
    pub open spec fn fills_fault(
        self,
        plan: &RoundPlan,
        direction: Option<PriceLimitDirection>,
        slots: Seq<usize>,
        count: nat,
    ) -> Option<Seq<char>>
        decreases count,
    {
        if count == 0 {
            match self.ingress(plan.arriving) {
                Err(text) => Some(text),
                Ok(_) => match direction {
                    None => Some("arrival reservation is outside this market pair"@),
                    Some(_) => None,
                },
            }
        } else {
            match self.fills_fault(plan, direction, slots, (count - 1) as nat) {
                Some(text) => Some(text),
                None => self.fill_fault(plan, slots[count - 1]),
            }
        }
    }
}

proof fn lemma_fills_fault_stays(
    journal: MarketView,
    plan: &RoundPlan,
    direction: Option<PriceLimitDirection>,
    slots: Seq<usize>,
    at: nat,
    count: nat,
)
    requires
        at <= count,
        journal.fills_fault(plan, direction, slots, at) is Some,
    ensures
        journal.fills_fault(plan, direction, slots, count) == journal.fills_fault(
            plan,
            direction,
            slots,
            at,
        ),
    decreases count,
{
    if at < count {
        lemma_fills_fault_stays(journal, plan, direction, slots, at, (count - 1) as nat);
    }
}

impl NativeMarketRuntime {
    /// The fills that a round's proofs are about, in the order of the slots that
    /// traded. `taker_asset` is the asset that the arriving order reserved.
    pub fn fill_orders(
        &self,
        plan: &RoundPlan,
        slots: &Vec<usize>,
        arriving_remaining: u64,
        output: &Digest32,
        taker_asset: &Digest32,
    ) -> (r: Result<Vec<FillOrder>, String>)
        requires
            self.journal.wf(),
        ensures
            ({
                let direction = direction_for(*taker_asset, self.config.base_asset, self.config.quote_asset);
                let fault = self.journal@.fills_fault(plan, direction, slots@, slots@.len());
                &&& r is Ok == fault is None
                &&& r matches Err(e) ==> Some(e@) == fault
                &&& r matches Ok(orders) ==> {
                    &&& orders@.len() == slots@.len()
                    &&& forall|i: int|
                        0 <= i < orders@.len() ==> fill_order_at(
                            #[trigger] orders@[i],
                            plan,
                            slots@,
                            i,
                            *output,
                            direction->0,
                            (self.journal@.ingress(
                                plan.arriving,
                            )->Ok_0).receipt.manifest.retention_deadline,
                            (self.journal@.ingress(
                                plan.resting@[slots@[i] as int],
                            )->Ok_0).receipt.manifest.retention_deadline,
                            arriving_remaining,
                        )
                }
            }),
            r matches Ok(orders) ==> {
                &&& forall|i: int|
                    0 <= i < orders@.len() ==> (#[trigger] orders@[i]).slot == slots@[i]
                        && orders@[i].maker == plan.resting@[slots@[i] as int]
                &&& forall|i: int|
                    0 <= i < orders@.len() - 1 ==> !(#[trigger] orders@[i]).closes_taker
                        && orders@[i].projects_taker
                &&& orders@.len() > 0 ==> orders@.last().closes_taker == (arriving_remaining == 0)
                    && !orders@.last().projects_taker
            },
    {
        let ghost bound = direction_for(*taker_asset, self.config.base_asset, self.config.quote_asset);
        let arriving_deadline: u64 = match self.journal.ingress(&plan.arriving) {
            Err(e) => {
                proof {
                    lemma_fills_fault_stays(self.journal@, plan, bound, slots@, 0, slots@.len());
                }
                return Err(e);
            },
            Ok(input) => input.receipt.manifest.retention_deadline,
        };
        let direction = match limit_direction(taker_asset, &self.config) {
            Err(e) => {
                proof {
                    lemma_fills_fault_stays(self.journal@, plan, bound, slots@, 0, slots@.len());
                }
                return Err(e);
            },
            Ok(direction) => direction,
        };
        let mut orders: Vec<FillOrder> = Vec::new();
        let mut i: usize = 0;
        while i < slots.len()
            invariant
                self.journal.wf(),
                i <= slots@.len(),
                bound == Some(direction),
                bound == direction_for(*taker_asset, self.config.base_asset, self.config.quote_asset),
                self.journal@.fills_fault(plan, bound, slots@, i as nat) is None,
                self.journal@.ingress(plan.arriving) is Ok,
                arriving_deadline == (self.journal@.ingress(
                    plan.arriving,
                )->Ok_0).receipt.manifest.retention_deadline,
                orders@.len() == i,
                forall|j: int|
                    0 <= j < i ==> fill_order_at(
                        #[trigger] orders@[j],
                        plan,
                        slots@,
                        j,
                        *output,
                        direction,
                        arriving_deadline,
                        (self.journal@.ingress(
                            plan.resting@[slots@[j] as int],
                        )->Ok_0).receipt.manifest.retention_deadline,
                        arriving_remaining,
                    ),
            decreases slots@.len() - i,
        {
            let slot: usize = slots[i];
            if slot >= plan.resting.len() {
                proof {
                    lemma_fills_fault_stays(self.journal@, plan, bound, slots@, i as nat + 1, slots@.len());
                }
                return Err("matched slot has no original order".to_owned());
            }
            let maker = plan.resting[slot];
            let maker_deadline: u64 = match self.journal.ingress(&maker) {
                Err(e) => {
                    proof {
                        lemma_fills_fault_stays(
                            self.journal@,
                            plan,
                            bound,
                            slots@,
                            i as nat + 1,
                            slots@.len(),
                        );
                    }
                    return Err(e);
                },
                Ok(input) => input.receipt.manifest.retention_deadline,
            };
            let context = limit_context(plan, output);
            let deadline: u64 = if maker_deadline < arriving_deadline {
                maker_deadline
            } else {
                arriving_deadline
            };
            let last: bool = i + 1 == slots.len();
            let order = FillOrder {
                slot,
                maker,
                direction,
                limit_context: context,
                deadline,
                closes_taker: last && arriving_remaining == 0,
                projects_taker: !last,
            };
            orders.push(order);
            i += 1;
        }
        Ok(orders)
    }
}

/// Check that a public commitment is the encoding of a point.
pub fn check_point(bytes: &Digest32) -> (r: Result<(), String>)
    ensures
        r is Ok == ristretto_decodes(bytes@),
        r matches Err(e) ==> e@ == "invalid public commitment"@,
{
    if !point_decodes(bytes) {
        return Err("invalid public commitment".to_owned());
    }
    Ok(())
}

/// Which parties complete a proof themselves; the others observe.
pub fn proof_completion(party: usize) -> (method: String)
    ensures
        method@ == (if party == 0 || party == 3 || party == 6 {
            "complete"@
        } else {
            "complete_observer"@
        }),
{
    if party == 0 || party == 3 || party == 6 {
        "complete".to_owned()
    } else {
        "complete_observer".to_owned()
    }
}

/// The signed fills are those of exactly the slots that traded.
pub open spec fn fill_set_stands(
    requests: Seq<NativeFillRequest>,
    slots: Seq<usize>,
    round_id: Digest32,
    output: Digest32,
) -> bool {
    &&& requests.len() == slots.len()
    &&& forall|i: int|
        0 <= i < requests.len() ==> {
            let request = #[trigger] requests[i];
            request.slot == slots[i] && request.round_id == round_id && request.mpc_result_digest
                == output
        }
}

pub fn check_fill_set(
    requests: &Vec<NativeFillRequest>,
    slots: &Vec<usize>,
    round_id: &Digest32,
    output: &Digest32,
) -> (r: Result<(), String>)
    ensures
        r is Ok == fill_set_stands(requests@, slots@, *round_id, *output),
        r matches Err(e) ==> e@ == "durable native fill set differs from actual matching"@,
{
    if requests.len() != slots.len() {
        return Err("durable native fill set differs from actual matching".to_owned());
    }
    let mut i: usize = 0;
    while i < requests.len()
        invariant
            i <= requests@.len(),
            requests@.len() == slots@.len(),
            forall|j: int|
                0 <= j < i ==> {
                    let request = #[trigger] requests@[j];
                    request.slot == slots@[j] && request.round_id == *round_id
                        && request.mpc_result_digest == *output
                },
        decreases requests@.len() - i,
    {
        let request = &requests[i];
        if request.slot != slots[i] || !digest_equal(&request.round_id, round_id) || !digest_equal(
            &request.mpc_result_digest,
            output,
        ) {
            assert(requests@[i as int] == request);
            return Err("durable native fill set differs from actual matching".to_owned());
        }
        i += 1;
    }
    Ok(())
}

/// What settling a round does next.
#[derive(Clone, Copy, Debug, PartialEq, Eq, Structural)]
pub enum SettleStep {
    /// Open the authorities, prove the fills and have them signed.
    Sign,
    /// Hand the signed fills to the ledger: as one batch if there are several.
    Submit { batch: bool },
    /// Have every node observe the ledger's result, and finalize its state.
    Confirm { batch: bool },
}

impl MarketView {
    /// What settling the round of an order does next. The signed fills are kept
    /// before the ledger sees them, so that a restart sends the same ones again.
    pub open spec fn settle_step(
        self,
        id: Seq<char>,
        plan: &RoundPlan,
        execution: &AgreedRoundExecution,
        slots: Seq<usize>,
    ) -> Result<SettleStep, Seq<char>> {
        if execution.receipts@.len() == 0 {
            Err("market execution has no node receipts"@)
        } else {
            match self.signed(id) {
                Err(text) => Err(text),
                Ok(None) => Ok(SettleStep::Sign),
                Ok(Some(requests)) => if !fill_set_stands(
                    requests@,
                    slots,
                    plan.round_id,
                    execution.receipts@[0].public_output_sha256,
                ) {
                    Err("durable native fill set differs from actual matching"@)
                } else {
                    match self.settled(id) {
                        Err(text) => Err(text),
                        Ok(None) => Ok(SettleStep::Submit { batch: requests@.len() > 1 }),
                        Ok(Some(_)) => Ok(SettleStep::Confirm { batch: requests@.len() > 1 }),
                    }
                },
            }
        }
    }
}

impl NativeMarketRuntime {
    /// What settling the round of an order does next.
    pub fn settle(
        &self,
        id: &str,
        plan: &RoundPlan,
        execution: &AgreedRoundExecution,
        slots: &Vec<usize>,
    ) -> (r: Result<SettleStep, String>)
        requires
            self.journal.wf(),
        ensures
            text_result(r) == self.journal@.settle_step(id@, plan, execution, slots@),
    {
        if execution.receipts.len() == 0 {
            return Err("market execution has no node receipts".to_owned());
        }
        let output: Digest32 = execution.receipts[0].public_output_sha256;
        let requests = match self.journal.signed(id) {
            Err(e) => return Err(e),
            Ok(None) => return Ok(SettleStep::Sign),
            Ok(Some(requests)) => requests,
        };
        match check_fill_set(requests, slots, &plan.round_id, &output) {
            Err(e) => return Err(e),
            Ok(_) => {},
        }
        let batch: bool = requests.len() > 1;
        match self.journal.settled(id) {
            Err(e) => Err(e),
            Ok(None) => Ok(SettleStep::Submit { batch }),
            Ok(Some(_)) => Ok(SettleStep::Confirm { batch }),
        }
    }
}

/// What the nodes are told when the ledger has settled a round. `statement` is
/// what the signed fills, or their batch, state.
pub fn settlement_finality(
    plan: &RoundPlan,
    output: &Digest32,
    statement: &Digest32,
    settled: &Settled,
) -> (finality: PrivateStateFinality)
    ensures
        finality == finality_of(plan, *output, *statement, settled),
{
    PrivateStateFinality {
        round_id: plan.round_id,
        public_output_sha256: *output,
        transition_digest: *statement,
        canonical_receipt_digest: settled.statement,
        canonical_height: settled.height,
    }
}

/// One node's own observation of the ledger: which party was asked about the
/// fill of which slot, and what it read. `aggregate` is the finality that
/// follows from it, or why none does.
pub struct ObservedFinality {
    pub slot: usize,
    pub party: usize,
    pub transaction_id: String,
    pub block_id: String,
    pub before_root: Digest32,
    pub after_root: Digest32,
    pub aggregate: Result<PrivateStateFinality, String>,
}

/// Why a node's observation is refused, if it is.
pub open spec fn observation_fault(
    observed: &ObservedFinality,
    settled: &Settled,
    finality: PrivateStateFinality,
) -> Option<Seq<char>> {
    if observed.transaction_id@ != settled.transaction_id@ || observed.before_root
        != settled.before_root || observed.after_root != settled.after_root || observed.block_id@
        != settled.block_id@ {
        Some("market node canonical observation differs from committed transaction"@)
    } else {
        match observed.aggregate {
            Err(text) => Some(text@),
            Ok(aggregate) => if aggregate != finality {
                Some("market node canonical observation differs from committed transaction"@)
            } else {
                None
            },
        }
    }
}

fn finality_equal(a: &PrivateStateFinality, b: &PrivateStateFinality) -> (same: bool)
    ensures
        same == (*a == *b),
{
    digest_equal(&a.round_id, &b.round_id) && digest_equal(
        &a.public_output_sha256,
        &b.public_output_sha256,
    ) && digest_equal(&a.transition_digest, &b.transition_digest) && digest_equal(
        &a.canonical_receipt_digest,
        &b.canonical_receipt_digest,
    ) && a.canonical_height == b.canonical_height
}

/// Check one node's observation of a settled round.
pub fn check_observation(
    observed: &ObservedFinality,
    settled: &Settled,
    finality: &PrivateStateFinality,
) -> (r: Result<(), String>)
    ensures
        r is Ok == observation_fault(observed, settled, *finality) is None,
        r matches Err(e) ==> Some(e@) == observation_fault(observed, settled, *finality),
{
    if !text_equal(observed.transaction_id.as_str(), settled.transaction_id.as_str())
        || !digest_equal(&observed.before_root, &settled.before_root) || !digest_equal(
        &observed.after_root,
        &settled.after_root,
    ) || !text_equal(observed.block_id.as_str(), settled.block_id.as_str()) {
        return Err(
            "market node canonical observation differs from committed transaction".to_owned(),
        );
    }
    match &observed.aggregate {
        Err(text) => Err(text.clone()),
        Ok(aggregate) => {
            if !finality_equal(aggregate, finality) {
                return Err(
                    "market node canonical observation differs from committed transaction".to_owned(),
                );
            }
            Ok(())
        },
    }
}

/// The first refused observation among the first `count`.
pub open spec fn observations_fault(
    observed: Seq<ObservedFinality>,
    settled: &Settled,
    finality: PrivateStateFinality,
    count: nat,
) -> Option<Seq<char>>
    decreases count,
{
    if count == 0 {
        None
    } else {
        match observations_fault(observed, settled, finality, (count - 1) as nat) {
            Some(text) => Some(text),
            None => observation_fault(&observed[count - 1], settled, finality),
        }
    }
}

proof fn lemma_observations_fault_stays(
    observed: Seq<ObservedFinality>,
    settled: &Settled,
    finality: PrivateStateFinality,
    at: nat,
    count: nat,
)
    requires
        at <= count,
        observations_fault(observed, settled, finality, at) is Some,
    ensures
        observations_fault(observed, settled, finality, count) == observations_fault(
            observed,
            settled,
            finality,
            at,
        ),
    decreases count,
{
    if at < count {
        lemma_observations_fault_stays(observed, settled, finality, at, (count - 1) as nat);
    }
}

/// Check the observations of a settled round, one by one.
fn check_observations(
    observed: &Vec<ObservedFinality>,
    settled: &Settled,
    finality: &PrivateStateFinality,
) -> (r: Result<(), String>)
    ensures
        ({
            let fault = observations_fault(observed@, settled, *finality, observed@.len());
            &&& r is Ok == fault is None
            &&& r matches Err(e) ==> Some(e@) == fault
        }),
{
    let mut i: usize = 0;
    while i < observed.len()
        invariant
            i <= observed@.len(),
            observations_fault(observed@, settled, *finality, i as nat) is None,
        decreases observed@.len() - i,
    {
        match check_observation(&observed[i], settled, finality) {
            Err(e) => {
                proof {
                    lemma_observations_fault_stays(
                        observed@,
                        settled,
                        *finality,
                        (i + 1) as nat,
                        observed@.len(),
                    );
                }
                return Err(e);
            },
            Ok(_) => {},
        }
        i += 1;
    }
    Ok(())
}

/// Every party was asked about every signed fill, fill by fill and in the order
/// of the parties.
pub open spec fn all_asked(
    observed: Seq<ObservedFinality>,
    requests: Seq<NativeFillRequest>,
) -> bool {
    &&& observed.len() == requests.len() * MPC_PARTIES
    &&& forall|k: int|
        0 <= k < observed.len() ==> (#[trigger] observed[k]).slot == requests[k
            / MPC_PARTIES as int].slot && observed[k].party == k % MPC_PARTIES as int
}

fn check_asked(observed: &Vec<ObservedFinality>, requests: &Vec<NativeFillRequest>) -> (asked: bool)
    ensures
        asked == all_asked(observed@, requests@),
{
    if observed.len() % 7 != 0 || observed.len() / 7 != requests.len() {
        return false;
    }
    let mut k: usize = 0;
    while k < observed.len()
        invariant
            observed@.len() == requests@.len() * 7,
            k <= observed@.len(),
            forall|j: int|
                0 <= j < k ==> (#[trigger] observed@[j]).slot == requests@[j / 7].slot
                    && observed@[j].party == j % 7,
        decreases observed@.len() - k,
    {
        assert(k / 7 < requests@.len());
        if observed[k].slot != requests[k / 7].slot || observed[k].party != k % 7 {
            assert(!(observed@[k as int].slot == requests@[k as int / 7].slot
                && observed@[k as int].party == k as int % 7));
            return false;
        }
        k += 1;
    }
    true
}

/// What the nodes are told when the ledger has settled a round.
pub open spec fn finality_of(
    plan: &RoundPlan,
    output: Digest32,
    statement: Digest32,
    settled: &Settled,
) -> PrivateStateFinality {
    PrivateStateFinality {
        round_id: plan.round_id,
        public_output_sha256: output,
        transition_digest: statement,
        canonical_receipt_digest: settled.statement,
        canonical_height: settled.height,
    }
}

/// The first `count` encoded values of a list, with commas between them.
pub open spec fn listed(values: Seq<Vec<u8>>, count: nat) -> Seq<u8>
    decreases count,
{
    if count == 0 {
        Seq::empty()
    } else if count == 1 {
        values[0]@
    } else {
        listed(values, (count - 1) as nat) + text_bytes(","@) + values[count - 1]@
    }
}

/// The encoding of a list of encoded values.
pub open spec fn list_bytes(values: Seq<Vec<u8>>) -> Seq<u8> {
    text_bytes("["@) + listed(values, values.len()) + text_bytes("]"@)
}

/// Encode a list of encoded values.
pub fn encode_list(values: &Vec<Vec<u8>>) -> (wire: Vec<u8>)
    ensures
        wire@ == list_bytes(values@),
{
    let mut wire: Vec<u8> = Vec::new();
    push_text(&mut wire, "[");
    let mut i: usize = 0;
    assert(wire@ =~= text_bytes("["@) + listed(values@, 0));
    while i < values.len()
        invariant
            i <= values@.len(),
            wire@ == text_bytes("["@) + listed(values@, i as nat),
        decreases values@.len() - i,
    {
        if i > 0 {
            push_text(&mut wire, ",");
        }
        push_all(&mut wire, values[i].as_slice());
        i += 1;
        assert(wire@ =~= text_bytes("["@) + listed(values@, i as nat));
    }
    push_text(&mut wire, "]");
    wire
}

/// How long the nodes have to finalize their private state.
pub const FINALITY_NANOS: u128 = 30_000_000_000;

impl MarketView {
    /// What the nodes are told of a settled round. `statement` is what the
    /// signed fills, or their batch, state.
    pub open spec fn confirmed_finality(self, id: Seq<char>, statement: Digest32) -> PrivateStateFinality {
        finality_of(
            &(self.plan(id)->Ok_0->Some_0),
            (self.execution(id)->Ok_0->Some_0).receipts@[0].public_output_sha256,
            statement,
            &(self.settled(id)->Ok_0->Some_0),
        )
    }

    /// Why the settlement of an order's round is not confirmed, if it is not:
    /// the round is signed and settled on record, every party observed every
    /// fill of it, and all observations agree with what the ledger accepted.
    pub open spec fn confirm_fault(
        self,
        id: Seq<char>,
        observed: Seq<ObservedFinality>,
        statement: Result<Digest32, String>,
    ) -> Option<Seq<char>> {
        match self.plan(id) {
            Err(text) => Some(text),
            Ok(None) => Some(not_ready()),
            Ok(Some(plan)) => match self.execution(id) {
                Err(text) => Some(text),
                Ok(None) => Some(not_ready()),
                Ok(Some(execution)) => match self.settle_step(
                    id,
                    &plan,
                    &execution,
                    matched_slots(execution.result.slots@),
                ) {
                    Err(text) => Some(text),
                    Ok(step) => if !(step is Confirm) {
                        Some(not_ready())
                    } else if statement is Err {
                        Some(statement->Err_0@)
                    } else if !all_asked(observed, (self.signed(id)->Ok_0->Some_0)@) {
                        Some(observation_differs())
                    } else {
                        observations_fault(
                            observed,
                            &(self.settled(id)->Ok_0->Some_0),
                            self.confirmed_finality(id, statement->Ok_0),
                            observed.len(),
                        )
                    },
                },
            },
        }
    }
}

pub open spec fn observation_differs() -> Seq<char> {
    "market node canonical observation differs from committed transaction"@
}

impl NativeMarketRuntime {
    fn check_confirmation(
        &self,
        id: &str,
        observed: &Vec<ObservedFinality>,
        statement: &Result<Digest32, String>,
    ) -> (r: Result<PrivateStateFinality, String>)
        requires
            self.journal.wf(),
        ensures
            r is Ok == self.journal@.confirm_fault(id@, observed@, *statement) is None,
            r matches Ok(finality) ==> statement is Ok && finality
                == self.journal@.confirmed_finality(id@, statement->Ok_0),
            r matches Err(e) ==> Some(e@) == self.journal@.confirm_fault(
                id@,
                observed@,
                *statement,
            ),
    {
        let plan = match self.journal.plan(id) {
            Err(e) => return Err(e),
            Ok(None) => return Err(round_not_ready()),
            Ok(Some(plan)) => plan,
        };
        let execution = match self.journal.execution(id) {
            Err(e) => return Err(e),
            Ok(None) => return Err(round_not_ready()),
            Ok(Some(execution)) => execution,
        };
        let slots = traded_slots(&execution.result.slots);
        match self.settle(id, plan, execution, &slots) {
            Err(e) => return Err(e),
            Ok(SettleStep::Confirm { .. }) => {},
            Ok(SettleStep::Sign) => return Err(round_not_ready()),
            Ok(SettleStep::Submit { .. }) => return Err(round_not_ready()),
        }
        let statement: &Digest32 = match statement {
            Err(text) => return Err(text.clone()),
            Ok(statement) => statement,
        };
        let requests = match self.journal.signed(id) {
            Ok(Some(requests)) => requests,
            Ok(None) => return Err(round_not_ready()),
            Err(e) => return Err(e),
        };
        let settled = match self.journal.settled(id) {
            Ok(Some(settled)) => settled,
            Ok(None) => return Err(round_not_ready()),
            Err(e) => return Err(e),
        };
        let finality = settlement_finality(
            plan,
            &execution.receipts[0].public_output_sha256,
            statement,
            settled,
        );
        if !check_asked(observed, requests) {
            return Err(
                "market node canonical observation differs from committed transaction".to_owned(),
            );
        }
        match check_observations(observed, settled, &finality) {
            Err(e) => Err(e),
            Ok(_) => Ok(finality),
        }
    }

    /// Confirm the settlement of an order's round: what the journal holds as
    /// signed and settled was observed by every node for every fill, and every
    /// node then finalized its private state. `finalized` are the nodes' replies
    /// to that, in their order: the encoded receipt of each, which are kept as a
    /// list.
    pub fn confirm_settlement(
        &mut self,
        id: &str,
        observed: &Vec<ObservedFinality>,
        statement: &Result<Digest32, String>,
        finalized: Vec<Result<Vec<u8>, ReplyFailure>>,
    ) -> (r: Result<(), String>)
        requires
            old(self).journal.wf(),
        ensures
            final(self).journal.wf(),
            final(self).cluster == old(self).cluster,
            final(self).config == old(self).config,
            final(self).match_slots == old(self).match_slots,
            ({
                let before = old(self).journal@;
                let after = final(self).journal@;
                match before.confirm_fault(id@, observed@, *statement) {
                    Some(text) => after == before && (r matches Err(e) && e@ == text),
                    None => if !finality_requestable(
                        &old(self).cluster,
                        &(before.execution(id@)->Ok_0->Some_0),
                        &before.confirmed_finality(id@, statement->Ok_0),
                        FINALITY_NANOS,
                    ) {
                        after == before && (r matches Err(e) && e@
                            == "edge distributor configuration is invalid"@)
                    } else if !all_came(finalized@) {
                        after == before && r is Err && exists|failure: EdgeClientError| #[trigger]
                            first_failure(finalized@, failure) && r->Err_0@ == failure.text()
                    } else {
                        exists|receipts: Vec<u8>|
                            receipts@ == list_bytes(values_of(finalized@)) && {
                                let (next, kept) = #[trigger] before.put(
                                    market_key("depth-finality:"@, id@),
                                    MarketBody::Other(receipts),
                                );
                                after == next && match kept {
                                    Err(text) => r matches Err(e) && e@ == text,
                                    Ok(_) => r is Ok,
                                }
                            }
                    },
                }
            }),
    {
        let finality = match self.check_confirmation(id, observed, statement) {
            Err(e) => return Err(e),
            Ok(finality) => finality,
        };
        let told = match self.journal.execution(id) {
            Err(e) => return Err(e),
            Ok(None) => return Err(round_not_ready()),
            Ok(Some(execution)) => finalize_agreed_private_state(
                &self.cluster,
                execution,
                &finality,
                FINALITY_NANOS,
                finalized,
            ),
        };
        match told {
            Err(e) => Err(e.message()),
            Ok(receipts) => {
                let wire = encode_list(&receipts);
                self.journal.put(key_of("depth-finality:", id), MarketBody::Other(wire))
            },
        }
    }
}

/// A settlement is confirmed only where the signed fills on record are those of
/// the slots that traded, what the ledger accepted is on record, and all seven
/// nodes observed exactly that for every fill.
pub proof fn lemma_confirmed_settlement_was_observed(
    journal: MarketView,
    id: Seq<char>,
    observed: Seq<ObservedFinality>,
    statement: Result<Digest32, String>,
    at: int,
)
    requires
        journal.confirm_fault(id, observed, statement) is None,
    ensures
        journal.signed(id) matches Ok(Some(requests)) && journal.execution(id) matches Ok(
            Some(execution),
        ) && journal.plan(id) matches Ok(Some(plan)) && fill_set_stands(
            requests@,
            matched_slots(execution.result.slots@),
            plan.round_id,
            execution.receipts@[0].public_output_sha256,
        ) && all_asked(observed, requests@),
        journal.settled(id) matches Ok(Some(settled)) && (0 <= at < observed.len() ==> {
            &&& observed[at].transaction_id@ == settled.transaction_id@
            &&& observed[at].block_id@ == settled.block_id@
            &&& observed[at].before_root == settled.before_root
            &&& observed[at].after_root == settled.after_root
        }),
{
    let plan = journal.plan(id)->Ok_0->Some_0;
    let execution = journal.execution(id)->Ok_0->Some_0;
    let settled = journal.settled(id)->Ok_0->Some_0;
    let finality = finality_of(
        &plan,
        execution.receipts@[0].public_output_sha256,
        statement->Ok_0,
        &settled,
    );
    if 0 <= at < observed.len() && observation_fault(&observed[at], &settled, finality) is Some {
        lemma_refused_observation_shows(observed, &settled, finality, at);
    }
}

/// One refused observation among others makes them fail.
proof fn lemma_refused_observation_shows(
    observed: Seq<ObservedFinality>,
    settled: &Settled,
    finality: PrivateStateFinality,
    at: int,
)
    requires
        0 <= at < observed.len(),
        observation_fault(&observed[at], settled, finality) is Some,
    ensures
        observations_fault(observed, settled, finality, observed.len()) is Some,
{
    if observations_fault(observed, settled, finality, at as nat) is Some {
        lemma_observations_fault_stays(observed, settled, finality, at as nat, observed.len());
    } else {
        assert(observations_fault(observed, settled, finality, (at + 1) as nat) is Some);
        lemma_observations_fault_stays(
            observed,
            settled,
            finality,
            (at + 1) as nat,
            observed.len(),
        );
    }
}

} // verus!
