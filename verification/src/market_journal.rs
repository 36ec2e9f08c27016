//! Resident market progress: immutable records, each kept the first time it is
//! written. No participant signing key, credential or plaintext order belongs
//! here.

use crate::bytes::{
    digest_equal, digest_is_zero, is_zero, push_all, push_text, sha256_digest, sha256_value,
    text_bytes, Digest32,
};
use crate::edge_client::AgreedRoundExecution;
use crate::executor::RoundPlan;
use crate::market_network::{IngressFacts, MarketIngress};
use crate::market_runtime::{NativeFillRequest, Settled};
use crate::text::{append_text, strip_prefix, text_after};
use crate::text_map::TextMap;
use crate::types::{
    ClusterPublicConfig, MpcBatchResult, OrderCertificate, OrderCommitment, MPC_PARTIES,
};
use vstd::prelude::*;

verus! {

/// An order that rests in the book. What remains of it is disclosed only by
/// the certified matching result.
#[derive(Clone, Copy, Debug, PartialEq, Eq)]
pub struct MarketBookEntry {
    pub commitment: OrderCommitment,
    pub remaining: u64,
}

/// A round whose effects are all durable. `public_snapshot` is the encoding of
/// the book that the public may see after it.
pub struct MarketCompletedRound {
    pub certificate: OrderCertificate,
    pub result: MpcBatchResult,
    pub book: Vec<MarketBookEntry>,
    pub transaction_id: Option<String>,
    pub canonical_root: Option<Digest32>,
    pub finality_observations: usize,
    pub public_snapshot: Option<Vec<u8>>,
}

/// The body of a record, as the kind of record that it reads as.
pub enum MarketBody {
    Context(Digest32),
    Input(MarketIngress),
    Certificate(OrderCertificate),
    Plan(RoundPlan),
    Execution(AgreedRoundExecution),
    Signed(Vec<NativeFillRequest>),
    Settled(Settled),
    Done(MarketCompletedRound),
    /// Any other record, encoded.
    Other(Vec<u8>),
}

pub struct MarketRecord {
    pub context: Digest32,
    pub body: MarketBody,
}

impl View for MarketRecord {
    type V = MarketRecord;

    open spec fn view(&self) -> MarketRecord {
        *self
    }
}

/// A market journal: its deployment, its records, and the order in which they
/// came.
#[verifier::ext_equal]
pub struct MarketView {
    pub context: Digest32,
    pub records: Map<Seq<char>, MarketRecord>,
    pub order: Seq<Seq<char>>,
}

pub open spec fn foreign_record() -> Seq<char> {
    "market record belongs to another deployment"@
}

pub open spec fn malformed_market_record() -> Seq<char> {
    "market record is malformed"@
}

/// The key of an order's record of a kind: the kind's prefix and the order's
/// commitment in hexadecimal.
pub open spec fn market_key(prefix: Seq<char>, id: Seq<char>) -> Seq<char> {
    prefix + id
}

/// The place of a key, counted from one.
pub open spec fn place(order: Seq<Seq<char>>, key: Seq<char>) -> int {
    order.index_of(key) + 1
}

impl MarketView {
    /// The body under a key.
    pub open spec fn get(self, key: Seq<char>) -> Result<Option<MarketBody>, Seq<char>> {
        if !self.records.dom().contains(key) {
            Ok(None)
        } else if self.records[key].context != self.context {
            Err(foreign_record())
        } else {
            Ok(Some(self.records[key].body))
        }
    }

    pub open spec fn with_record(self, key: Seq<char>, body: MarketBody) -> MarketView {
        MarketView {
            records: self.records.insert(key, MarketRecord { context: self.context, body }),
            order: self.order.push(key),
            ..self
        }
    }

    /// Keep a body under a key unless something stands there already. The
    /// result is what then stands there.
    pub open spec fn put(self, key: Seq<char>, body: MarketBody) -> (
        MarketView,
        Result<MarketBody, Seq<char>>,
    ) {
        match self.get(key) {
            Err(text) => (self, Err(text)),
            Ok(Some(kept)) => (self, Ok(kept)),
            Ok(None) => (self.with_record(key, body), Ok(body)),
        }
    }

    pub open spec fn input(self, key: Seq<char>) -> Result<Option<MarketIngress>, Seq<char>> {
        match self.get(key) {
            Err(text) => Err(text),
            Ok(None) => Ok(None),
            Ok(Some(MarketBody::Input(value))) => Ok(Some(value)),
            Ok(Some(_)) => Err(malformed_market_record()),
        }
    }

    pub open spec fn done(self, key: Seq<char>) -> Result<Option<MarketCompletedRound>, Seq<char>> {
        match self.get(key) {
            Err(text) => Err(text),
            Ok(None) => Ok(None),
            Ok(Some(MarketBody::Done(value))) => Ok(Some(value)),
            Ok(Some(_)) => Err(malformed_market_record()),
        }
    }

    /// Take a handoff in, and give its place.
    pub open spec fn accept(
        self,
        input: MarketIngress,
        cluster: &ClusterPublicConfig,
        facts: &IngressFacts,
    ) -> (MarketView, Result<int, Seq<char>>) {
        let key = market_key("input:"@, input.receipt.manifest.commitment.key());
        if self.records.dom().contains(key) {
            match self.input(key) {
                Err(text) => (self, Err(text)),
                Ok(None) => (self, Err("market input disappeared"@)),
                Ok(Some(saved)) => if saved.digest_value() != input.digest_value() {
                    (self, Err("market commitment already has another envelope"@))
                } else {
                    (self, Ok(place(self.order, key)))
                },
            }
        } else {
            match input.fault(cluster, facts) {
                Some(text) => (self, Err(text)),
                None => (
                    self.with_record(key, MarketBody::Input(input)),
                    Ok(self.order.len() as int + 1),
                ),
            }
        }
    }

    /// The handoff of an order.
    pub open spec fn ingress(self, commitment: OrderCommitment) -> Result<
        MarketIngress,
        Seq<char>,
    > {
        match self.input(market_key("input:"@, commitment.key())) {
            Err(text) => Err(text),
            Ok(None) => Err("market order has no durable intake"@),
            Ok(Some(input)) => Ok(input),
        }
    }

    /// The first handoff at or after a place that has no completed round.
    pub open spec fn next_from(self, start: nat) -> Result<Option<MarketIngress>, Seq<char>>
        decreases self.order.len() - start,
    {
        if start >= self.order.len() {
            Ok(None)
        } else {
            match text_after(self.order[start as int], "input:"@) {
                None => self.next_from(start + 1),
                Some(id) => match self.done(market_key("done:"@, id)) {
                    Err(text) => Err(text),
                    Ok(Some(_)) => self.next_from(start + 1),
                    Ok(None) => self.input(self.order[start as int]),
                },
            }
        }
    }

    /// The handoff that the market works on: the oldest without a completed
    /// round.
    pub open spec fn next(self) -> Result<Option<MarketIngress>, Seq<char>> {
        self.next_from(0)
    }

    /// The completed rounds among the first `count` records, in order.
    pub open spec fn completed_among(self, count: nat) -> Result<
        Seq<MarketCompletedRound>,
        Seq<char>,
    >
        decreases count,
    {
        if count == 0 {
            Ok(Seq::empty())
        } else {
            match self.completed_among((count - 1) as nat) {
                Err(text) => Err(text),
                Ok(earlier) => {
                    let key = self.order[count - 1];
                    if text_after(key, "done:"@) is None {
                        Ok(earlier)
                    } else {
                        match self.done(key) {
                            Err(text) => Err(text),
                            Ok(None) => Err("market completion disappeared"@),
                            Ok(Some(round)) => Ok(earlier.push(round)),
                        }
                    }
                },
            }
        }
    }

    /// Every completed round, in order.
    pub open spec fn completed(self) -> Result<Seq<MarketCompletedRound>, Seq<char>> {
        self.completed_among(self.order.len())
    }
}

/// A lookup with its error text as characters.
pub open spec fn found<T>(r: Result<Option<&T>, String>) -> Result<Option<T>, Seq<char>> {
    match r {
        Ok(Some(value)) => Ok(Some(*value)),
        Ok(None) => Ok(None),
        Err(text) => Err(text@),
    }
}

/// A list of references, as the values behind them.
pub open spec fn values<T>(list: Seq<&T>) -> Seq<T> {
    list.map_values(|value: &T| *value)
}

/// What a market journal's context is the hash of: the cluster's encoded
/// configuration.
pub open spec fn market_context_bytes(cluster: Seq<u8>) -> Seq<u8> {
    text_bytes("OCLOB:MARKET-JOURNAL:v1"@) + cluster
}

/// Why a market journal does not open, if it does not.
pub open spec fn market_open_fault(
    secret: Digest32,
    cluster_fault: Option<Seq<char>>,
    stored: Result<Option<MarketBody>, Seq<char>>,
    context: Digest32,
) -> Option<Seq<char>> {
    if is_zero(secret@) {
        Some("empty market journal key"@)
    } else if cluster_fault is Some {
        cluster_fault
    } else {
        match stored {
            Err(text) => Some(text),
            Ok(None) => None,
            Ok(Some(MarketBody::Context(kept))) => if kept != context {
                Some("market journal belongs to another deployment"@)
            } else {
                None
            },
            Ok(Some(_)) => Some(malformed_market_record()),
        }
    }
}

/// The journal of one market.
pub struct MarketJournal {
    context: Digest32,
    records: TextMap<MarketRecord>,
}

impl View for MarketJournal {
    type V = MarketView;

    closed spec fn view(&self) -> MarketView {
        MarketView {
            context: self.context,
            records: self.records@,
            order: self.records.keys(),
        }
    }
}

fn malformed() -> (text: String)
    ensures
        text@ == malformed_market_record(),
{
    "market record is malformed".to_owned()
}

pub(crate) fn key_of(prefix: &str, id: &str) -> (key: String)
    ensures
        key@ == market_key(prefix@, id@),
{
    let mut key: String = prefix.to_owned();
    append_text(&mut key, id);
    key
}

impl MarketJournal {
    pub closed spec fn wf(&self) -> bool {
        self.records.wf()
    }

    /// Open the journal of a market on its records. `cluster_wire` is the
    /// encoding of the cluster's configuration.
    pub fn open(
        secret: &Digest32,
        cluster: &ClusterPublicConfig,
        cluster_wire: &[u8],
        records: TextMap<MarketRecord>,
    ) -> (r: Result<MarketJournal, String>)
        requires
            records.wf(),
        ensures
            ({
                let context = sha256_value(market_context_bytes(cluster_wire@));
                let before = MarketView { context, records: records@, order: records.keys() };
                let cluster_fault = match cluster.fault {
                    Some(text) => Some(text@),
                    None => None,
                };
                let fault = market_open_fault(
                    *secret,
                    cluster_fault,
                    before.get("context"@),
                    context,
                );
                &&& r is Ok == fault is None
                &&& r matches Ok(journal) ==> journal.wf() && journal@ == before.put(
                    "context"@,
                    MarketBody::Context(context),
                ).0
                &&& r matches Err(e) ==> Some(e@) == fault
            }),
    {
        if digest_is_zero(secret) {
            return Err("empty market journal key".to_owned());
        }
        match &cluster.fault {
            Some(text) => return Err(text.clone()),
            None => {},
        }
        let mut body: Vec<u8> = Vec::new();
        push_text(&mut body, "OCLOB:MARKET-JOURNAL:v1");
        push_all(&mut body, cluster_wire);
        assert(body@ =~= market_context_bytes(cluster_wire@));
        let context = sha256_digest(body.as_slice());
        let mut journal = MarketJournal { context, records };
        match journal.get("context") {
            Err(e) => return Err(e),
            Ok(Some(MarketBody::Context(kept))) => {
                if !digest_equal(kept, &context) {
                    return Err("market journal belongs to another deployment".to_owned());
                }
            },
            Ok(Some(_)) => return Err(malformed()),
            Ok(None) => {},
        }
        match journal.put("context".to_owned(), MarketBody::Context(context)) {
            Err(e) => Err(e),
            Ok(_) => Ok(journal),
        }
    }

    /// Close the journal and give its records, as they were read.
    pub fn into_records(self) -> (records: TextMap<MarketRecord>)
        requires
            self.wf(),
        ensures
            records.wf(),
            records@ == self@.records,
            records.keys() == self@.order,
    {
        self.records
    }

    /// The records, for writing them to disk.
    pub fn records(&self) -> (records: &TextMap<MarketRecord>)
        requires
            self.wf(),
        ensures
            records.wf(),
            records@ == self@.records,
            records.keys() == self@.order,
    {
        &self.records
    }

    /// The body under a key.
    pub fn get(&self, key: &str) -> (r: Result<Option<&MarketBody>, String>)
        requires
            self.wf(),
        ensures
            found(r) == self@.get(key@),
    {
        match self.records.get(key) {
            None => Ok(None),
            Some(record) => {
                if !digest_equal(&record.context, &self.context) {
                    return Err("market record belongs to another deployment".to_owned());
                }
                Ok(Some(&record.body))
            },
        }
    }

    /// Keep a body under a key unless something stands there already. What then
    /// stands there is what the journal gives.
    pub fn put(&mut self, key: String, body: MarketBody) -> (r: Result<(), String>)
        requires
            old(self).wf(),
        ensures
            final(self).wf(),
            final(self)@ == old(self)@.put(key@, body).0,
            match old(self)@.put(key@, body).1 {
                Ok(kept) => r is Ok && final(self)@.get(key@) == Ok::<
                    Option<MarketBody>,
                    Seq<char>,
                >(Some(kept)),
                Err(text) => r matches Err(e) && e@ == text,
            },
    {
        match self.get(key.as_str()) {
            Err(e) => return Err(e),
            Ok(Some(_)) => return Ok(()),
            Ok(None) => {},
        }
        let ghost text = key@;
        let record = MarketRecord { context: self.context, body };
        self.records.insert(key, record);
        assert(self@ =~= old(self)@.with_record(text, body));
        Ok(())
    }

    fn input(&self, key: &str) -> (r: Result<Option<&MarketIngress>, String>)
        requires
            self.wf(),
        ensures
            found(r) == self@.input(key@),
    {
        match self.get(key) {
            Err(e) => Err(e),
            Ok(None) => Ok(None),
            Ok(Some(MarketBody::Input(value))) => Ok(Some(value)),
            Ok(Some(_)) => Err(malformed()),
        }
    }

    pub(crate) fn done(&self, key: &str) -> (r: Result<Option<&MarketCompletedRound>, String>)
        requires
            self.wf(),
        ensures
            found(r) == self@.done(key@),
    {
        match self.get(key) {
            Err(e) => Err(e),
            Ok(None) => Ok(None),
            Ok(Some(MarketBody::Done(value))) => Ok(Some(value)),
            Ok(Some(_)) => Err(malformed()),
        }
    }

    /// The place of a key that is there, counted from one.
    fn place_of(&self, key: &str) -> (at: u64)
        requires
            self.wf(),
            self@.records.dom().contains(key@),
        ensures
            at == place(self@.order, key@),
    {
        proof {
            self.records.lemma_positions();
            let at = choose|at: int|
                0 <= at < self.records.count() && #[trigger] self.records.key_of(at) == key@;
            assert(self@.order[at] == key@);
        }
        let total: usize = self.records.len();
        let mut i: usize = 0;
        while i < total
            invariant
                self.wf(),
                total == self@.order.len(),
                total == self.records.count(),
                i <= total,
                self@.order.contains(key@),
                forall|j: int| 0 <= j < i ==> #[trigger] self@.order[j] != key@,
            decreases total - i,
        {
            let found_key = self.records.key_at(i);
            assert(found_key@ == self@.order[i as int]);
            if crate::text_map::text_equal(found_key, key) {
                proof {
                    let at = self@.order.index_of(key@);
                    self.records.lemma_positions();
                    assert(self@.order[at] == key@);
                    if at != i {
                        assert(self@.order[i as int] == self@.order[at]);
                    }
                }
                return i as u64 + 1;
            }
            i += 1;
        }
        proof {
            let at = choose|at: int| 0 <= at < self@.order.len() && self@.order[at] == key@;
            assert(self@.order[at] != key@);
        }
        0
    }

    /// Take a handoff in, and give its place. The same handoff gets the same
    /// place again, whatever the time; another one for the same order is
    /// refused.
    pub fn accept(
        &mut self,
        input: MarketIngress,
        cluster: &ClusterPublicConfig,
        facts: &IngressFacts,
    ) -> (r: Result<u64, String>)
        requires
            old(self).wf(),
            facts.receipts_valid@.len() == MPC_PARTIES,
        ensures
            final(self).wf(),
            final(self)@ == old(self)@.accept(input, cluster, facts).0,
            match old(self)@.accept(input, cluster, facts).1 {
                Ok(at) => r matches Ok(sequence) && sequence == at,
                Err(text) => r matches Err(e) && e@ == text,
            },
    {
        let commitment = input.receipt.commitment();
        let id = commitment.hex();
        let key = key_of("input:", id.as_str());
        if self.records.contains_key(key.as_str()) {
            let same: bool = match self.input(key.as_str()) {
                Err(e) => return Err(e),
                Ok(None) => return Err("market input disappeared".to_owned()),
                Ok(Some(saved)) => {
                    let kept = saved.digest();
                    let given = input.digest();
                    digest_equal(&kept, &given)
                },
            };
            if !same {
                return Err("market commitment already has another envelope".to_owned());
            }
            return Ok(self.place_of(key.as_str()));
        }
        match input.verify(cluster, facts) {
            Err(e) => return Err(e),
            Ok(_) => {},
        }
        match self.put(key, MarketBody::Input(input)) {
            Err(e) => Err(e),
            Ok(_) => {
                assert(self@.order.len() == self.records.count());
                assert(self@.order.len() == old(self)@.order.len() + 1);
                Ok(self.records.len() as u64)
            },
        }
    }

    /// The handoff of an order.
    pub fn ingress(&self, commitment: &OrderCommitment) -> (r: Result<&MarketIngress, String>)
        requires
            self.wf(),
        ensures
            match self@.ingress(*commitment) {
                Ok(input) => r matches Ok(given) && *given == input,
                Err(text) => r matches Err(e) && e@ == text,
            },
    {
        let id = commitment.hex();
        let key = key_of("input:", id.as_str());
        match self.input(key.as_str()) {
            Err(e) => Err(e),
            Ok(None) => Err("market order has no durable intake".to_owned()),
            Ok(Some(input)) => Ok(input),
        }
    }

    /// The handoff that the market works on: the oldest without a completed
    /// round.
    pub fn next(&self) -> (r: Result<Option<&MarketIngress>, String>)
        requires
            self.wf(),
        ensures
            found(r) == self@.next(),
    {
        let total: usize = self.records.len();
        let mut i: usize = 0;
        while i < total
            invariant
                self.wf(),
                total == self@.order.len(),
                total == self.records.count(),
                i <= total,
                self@.next() == self@.next_from(i as nat),
            decreases total - i,
        {
            let key = self.records.key_at(i);
            assert(key@ == self@.order[i as int]);
            match strip_prefix(key, "input:") {
                None => {},
                Some(id) => {
                    let finished = key_of("done:", id);
                    match self.done(finished.as_str()) {
                        Err(e) => return Err(e),
                        Ok(None) => return self.input(key),
                        Ok(Some(_)) => {},
                    }
                },
            }
            i += 1;
        }
        Ok(None)
    }

    /// Every completed round, in order.
    pub fn completed(&self) -> (r: Result<Vec<&MarketCompletedRound>, String>)
        requires
            self.wf(),
        ensures
            match self@.completed() {
                Ok(rounds) => r matches Ok(list) && values(list@) == rounds,
                Err(text) => r matches Err(e) && e@ == text,
            },
    {
        let total: usize = self.records.len();
        let mut rounds: Vec<&MarketCompletedRound> = Vec::new();
        let mut i: usize = 0;
        assert(values(rounds@) =~= Seq::<MarketCompletedRound>::empty());
        while i < total
            invariant
                self.wf(),
                total == self@.order.len(),
                total == self.records.count(),
                i <= total,
                self@.completed_among(i as nat) == Ok::<Seq<MarketCompletedRound>, Seq<char>>(
                    values(rounds@),
                ),
            decreases total - i,
        {
            let key = self.records.key_at(i);
            assert(key@ == self@.order[i as int]);
            if strip_prefix(key, "done:").is_some() {
                match self.done(key) {
                    Err(e) => {
                        proof {
                            lemma_completed_error(self@, i as nat + 1, self@.order.len());
                        }
                        return Err(e);
                    },
                    Ok(None) => {
                        proof {
                            lemma_completed_error(self@, i as nat + 1, self@.order.len());
                        }
                        return Err("market completion disappeared".to_owned());
                    },
                    Ok(Some(round)) => {
                        let ghost before = rounds@;
                        rounds.push(round);
                        assert(values(rounds@) =~= values(before).push(*round));
                    },
                }
            }
            i += 1;
        }
        Ok(rounds)
    }
}

/// A record that cannot be read stops the list where it stands.
proof fn lemma_completed_error(journal: MarketView, at: nat, count: nat)
    requires
        at <= count,
        journal.completed_among(at) is Err,
    ensures
        journal.completed_among(count) == journal.completed_among(at),
    decreases count,
{
    if at < count {
        lemma_completed_error(journal, at, (count - 1) as nat);
    }
}

} // verus!
