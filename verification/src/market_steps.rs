//! The steps of a market round. Each takes what the nodes or the ledger
//! returned, checks it against what the journal holds, and puts it on record.

use crate::bytes::{is_zero, Digest32};
use crate::edge_client::{
    all_came, collect_order_certificate, execute_agreed_round, first_failure, round_agreed,
    round_requestable, values_of, voters_of, votes_in_order, AgreedRoundExecution, EdgeClientError, ReplyFailure,
};
use crate::executor::{NodeExecutionReceipt, RoundPlan};
use crate::market_journal::{key_of, market_key, MarketBody, MarketView};
use crate::market_network::IngressFacts;
use crate::market_runtime::{
    check_fill_set, fill_set_stands, matched_slots, not_ready, plan_expiry, plan_round,
    round_not_ready, traded_slots, MarketStep, NativeFillRequest, NativeMarketRuntime, SettleStep,
    Settled, StepView, PLAN_SECONDS,
};
use crate::store::text_result;
use crate::types::{
    CertificateView, ClusterPublicConfig, OrderCertificate, OrderCommitment, MPC_PARTIES,
};
use vstd::prelude::*;

verus! {

/// How long the nodes have to vote on an order's place.
pub const VOTE_NANOS: u128 = 30_000_000_000;

/// How long the nodes have to execute a round.
pub const ROUND_NANOS: u128 = 300_000_000_000;

/// What the nodes replied when they were asked to vote on an order's place: the
/// node and its encoded vote, where one came. `digest` is the digest of the
/// certificate that the votes make; `quorum` is the outcome of checking them
/// against the pinned identities.
pub struct OrderVotes {
    pub replies: Vec<Option<(u16, Vec<u8>)>>,
    pub digest: Digest32,
    pub quorum: Result<(), String>,
}

/// Whether an order can be asked a place for behind the last certificate.
pub open spec fn place_requestable(
    cluster: &ClusterPublicConfig,
    previous: Option<CertificateView>,
    commitment: OrderCommitment,
    expires_at: u64,
    now: Option<u64>,
) -> bool {
    &&& cluster.fault is None
    &&& now matches Some(at) && at <= expires_at
    &&& match previous {
        Some(certificate) => certificate.market_id == cluster.market_id@ && certificate.commitment
            != commitment && certificate.sequence < u64::MAX,
        None => true,
    }
}

/// The certificate that votes make of an order: directly behind the previous
/// one, or the first of the market, with every node that voted by ascending
/// node.
pub open spec fn certified(
    certificate: OrderCertificate,
    cluster: &ClusterPublicConfig,
    previous: Option<CertificateView>,
    commitment: OrderCommitment,
    expires_at: u64,
    votes: &OrderVotes,
) -> bool {
    &&& certificate.market_id@ == cluster.market_id@
    &&& certificate.commitment == commitment
    &&& certificate.expires_at == expires_at
    &&& certificate.voters@ == voters_of(votes_in_order(votes.replies@))
    &&& certificate.digest == votes.digest
    &&& match previous {
        Some(last) => certificate.sequence == last.sequence + 1
            && certificate.previous_certificate == last.digest,
        None => certificate.sequence == 1 && is_zero(certificate.previous_certificate@),
    }
}

impl MarketView {
    /// Keep a body under a key unless something stands there already.
    pub open spec fn keep(self, key: Seq<char>, body: MarketBody) -> (
        MarketView,
        Result<(), Seq<char>>,
    ) {
        let (next, kept) = self.put(key, body);
        match kept {
            Ok(_) => (next, Ok(())),
            Err(text) => (next, Err(text)),
        }
    }

    /// The key of the order at the head of the queue.
    pub open spec fn head(self) -> Seq<char> {
        (self.next()->Ok_0->Some_0).receipt.manifest.commitment.key()
    }
}

impl NativeMarketRuntime {
    /// The same service with another journal.
    pub open spec fn same_service(&self, other: &NativeMarketRuntime) -> bool {
        self.cluster == other.cluster && self.config == other.config && self.match_slots
            == other.match_slots
    }

    /// The key of the order at the head of the queue.
    fn head(&self) -> (id: Option<String>)
        requires
            self.journal.wf(),
        ensures
            id is Some == (self.journal@.next() matches Ok(Some(_))),
            id matches Some(text) ==> text@ == self.journal@.head(),
    {
        match self.journal.next() {
            Err(_) => None,
            Ok(None) => None,
            Ok(Some(input)) => Some(input.receipt.commitment().hex()),
        }
    }

    /// Certify the place of the order at the head of the queue, and keep the
    /// certificate. `now` is the time, if known.
    pub fn certify(&mut self, facts: &IngressFacts, votes: OrderVotes, now: Option<u64>) -> (r: Result<
        (),
        String,
    >)
        requires
            old(self).journal.wf(),
            facts.receipts_valid@.len() == MPC_PARTIES,
        ensures
            final(self).journal.wf(),
            final(self).same_service(old(self)),
            ({
                let before = old(self).journal@;
                let after = final(self).journal@;
                let cluster = &old(self).cluster;
                match before.step(cluster, facts, old(self).match_slots, false) {
                    Err(text) => after == before && (r matches Err(e) && e@ == text),
                    Ok(StepView::Certify { previous, commitment, expires_at }) => if cluster.fault
                        is Some {
                        after == before && (r matches Err(e) && e@ == (cluster.fault->0)@)
                    } else if !place_requestable(cluster, previous, commitment, expires_at, now) {
                        after == before && (r matches Err(e) && e@
                            == "edge distributor configuration is invalid"@)
                    } else if votes.quorum is Err {
                        after == before && (r matches Err(e) && e@
                            == "five valid ordering votes were not obtained"@)
                    } else {
                        exists|certificate: OrderCertificate| #[trigger]
                            certified(
                                certificate,
                                cluster,
                                previous,
                                commitment,
                                expires_at,
                                &votes,
                            ) && (after, text_result(r)) == before.keep(
                                market_key("certificate:"@, commitment.key()),
                                MarketBody::Certificate(certificate),
                            )
                    },
                    Ok(_) => after == before && (r matches Err(e) && e@ == not_ready()),
                }
            }),
    {
        let (previous, commitment, expires_at) = match self.pump(facts, false) {
            Err(e) => return Err(e),
            Ok(MarketStep::Certify { previous, commitment, expires_at }) => (
                previous,
                commitment,
                expires_at,
            ),
            Ok(_) => return Err(round_not_ready()),
        };
        let certificate = match collect_order_certificate(
            &self.cluster,
            previous.as_ref(),
            commitment,
            expires_at,
            now,
            VOTE_NANOS,
            votes.replies,
            votes.digest,
            &votes.quorum,
        ) {
            Err(e) => return Err(e.message()),
            Ok((certificate, _)) => certificate,
        };
        let id = commitment.hex();
        proof {
            let seen = match previous {
                Some(kept) => Some(kept@),
                None => None,
            };
            assert(certified(
                certificate,
                &self.cluster,
                seen,
                commitment,
                expires_at,
                &votes,
            ));
        }
        self.journal.put(key_of("certificate:", id.as_str()), MarketBody::Certificate(certificate))
    }

    /// Sign the plan of the certified order against the book, and keep it.
    pub fn sign_plan(&mut self, facts: &IngressFacts, at: u64, coordinator: &Digest32) -> (r: Result<
        (),
        String,
    >)
        requires
            old(self).journal.wf(),
            facts.receipts_valid@.len() == MPC_PARTIES,
            at + PLAN_SECONDS <= u64::MAX,
        ensures
            final(self).journal.wf(),
            final(self).same_service(old(self)),
            ({
                let before = old(self).journal@;
                let after = final(self).journal@;
                let slots = old(self).match_slots;
                match before.step(&old(self).cluster, facts, slots, false) {
                    Err(text) => after == before && (r matches Err(e) && e@ == text),
                    Ok(StepView::Plan { resting, deadline }) => {
                        let id = before.head();
                        let certificate = before.certificate(id)->Ok_0->Some_0;
                        let expiry = plan_expiry(deadline, at);
                        ||| exists|plan: RoundPlan| #[trigger]
                            plan.signed_from(&certificate, resting, at, expiry, coordinator@)
                                && plan.valid_at(at, slots) && (after, text_result(r))
                                == before.keep(market_key("plan:"@, id), MarketBody::Plan(plan))
                        ||| {
                            &&& after == before
                            &&& r matches Err(e) && e@ == "distributed round plan is invalid"@
                            &&& forall|plan: RoundPlan|
                                plan.signed_from(
                                    &certificate,
                                    resting,
                                    at,
                                    expiry,
                                    coordinator@,
                                ) ==> !(#[trigger] plan.valid_at(at, slots))
                        }
                    },
                    Ok(_) => after == before && (r matches Err(e) && e@ == not_ready()),
                }
            }),
    {
        let (resting, deadline) = match self.pump(facts, false) {
            Err(e) => return Err(e),
            Ok(MarketStep::Plan { resting, deadline }) => (resting, deadline),
            Ok(_) => return Err(round_not_ready()),
        };
        let id = match self.head() {
            None => return Err(round_not_ready()),
            Some(id) => id,
        };
        let certificate = match self.journal.certificate(id.as_str()) {
            Err(e) => return Err(e),
            Ok(None) => return Err(round_not_ready()),
            Ok(Some(certificate)) => certificate,
        };
        let ghost book = resting@;
        let ghost kept = *certificate;
        let ghost step = self.journal@.step(&self.cluster, facts, self.match_slots, false);
        assert(step matches Ok(StepView::Plan { resting: orders, deadline: end }) && orders == book
            && end == deadline);
        assert(self.journal@.certificate(self.journal@.head())->Ok_0->Some_0 == kept);
        match plan_round(certificate, resting, deadline, at, coordinator, self.match_slots) {
            Err(e) => {
                assert(e.text() == "distributed round plan is invalid"@);
                Err(e.message())
            },
            Ok(plan) => {
                proof {
                    let expiry = plan_expiry(deadline, at);
                    assert(plan.signed_from(&kept, book, at, expiry, coordinator@));
                }
                self.journal.put(key_of("plan:", id.as_str()), MarketBody::Plan(plan))
            },
        }
    }

    /// Accept the execution of the round's plan, and keep it. `quorum` is the
    /// outcome of checking the plan's certificate, `replies` are those of the
    /// nodes in their order, and `program` is the digest of the canonical matching program.
    pub fn accept_execution(
        &mut self,
        facts: &IngressFacts,
        quorum: &Result<(), String>,
        now: Option<u64>,
        replies: Vec<Result<NodeExecutionReceipt, ReplyFailure>>,
        program: &Digest32,
    ) -> (r: Result<(), String>)
        requires
            old(self).journal.wf(),
            facts.receipts_valid@.len() == MPC_PARTIES,
        ensures
            final(self).journal.wf(),
            final(self).same_service(old(self)),
            ({
                let before = old(self).journal@;
                let after = final(self).journal@;
                let cluster = &old(self).cluster;
                let slots = old(self).match_slots;
                match before.step(cluster, facts, slots, false) {
                    Err(text) => after == before && (r matches Err(e) && e@ == text),
                    Ok(StepView::Execute) => {
                        let id = before.head();
                        let plan = before.plan(id)->Ok_0->Some_0;
                        if cluster.fault is Some {
                            after == before && (r matches Err(e) && e@ == (cluster.fault->0)@)
                        } else if !round_requestable(
                            cluster,
                            &plan,
                            *quorum,
                            now,
                            ROUND_NANOS,
                            slots,
                        ) {
                            after == before && (r matches Err(e) && e@
                                == "edge distributor configuration is invalid"@)
                        } else if !all_came(replies@) {
                            after == before && r is Err && exists|failure: EdgeClientError|
                                #[trigger]
                                first_failure(replies@, failure) && r->Err_0@ == failure.text()
                        } else if !round_agreed(
                            cluster,
                            &plan,
                            values_of(replies@),
                            program@,
                            slots,
                        ) {
                            after == before && (r matches Err(e) && e@
                                == "edge admission receipt is invalid"@)
                        } else {
                            exists|execution: AgreedRoundExecution| #[trigger]
                                agreed_by(execution, values_of(replies@)) && (
                                    after,
                                    text_result(r),
                                ) == before.keep(
                                    market_key("execution:"@, id),
                                    MarketBody::Execution(execution),
                                )
                        }
                    },
                    Ok(_) => after == before && (r matches Err(e) && e@ == not_ready()),
                }
            }),
    {
        match self.pump(facts, false) {
            Err(e) => return Err(e),
            Ok(MarketStep::Execute) => {},
            Ok(_) => return Err(round_not_ready()),
        }
        let id = match self.head() {
            None => return Err(round_not_ready()),
            Some(id) => id,
        };
        let accepted = match self.journal.plan(id.as_str()) {
            Err(e) => return Err(e),
            Ok(None) => return Err(round_not_ready()),
            Ok(Some(plan)) => execute_agreed_round(
                &self.cluster,
                plan,
                quorum,
                now,
                ROUND_NANOS,
                replies,
                program,
                self.match_slots,
            ),
        };
        match accepted {
            Err(e) => {
                assert(!all_came(replies@) ==> first_failure(replies@, e) || e is Configuration
                    || self.cluster.fault is Some);
                Err(e.message())
            },
            Ok(execution) => {
                assert(agreed_by(execution, values_of(replies@)));
                self.journal.put(
                    key_of("execution:", id.as_str()),
                    MarketBody::Execution(execution),
                )
            },
        }
    }

    /// Keep the signed fills of the round before the ledger sees them. They are
    /// those of exactly the slots that traded.
    pub fn keep_signed(&mut self, id: &str, requests: Vec<NativeFillRequest>) -> (r: Result<(), String>)
        requires
            old(self).journal.wf(),
        ensures
            final(self).journal.wf(),
            final(self).same_service(old(self)),
            ({
                let before = old(self).journal@;
                let after = final(self).journal@;
                match before.round_step(id@) {
                    Err(text) => after == before && (r matches Err(e) && e@ == text),
                    Ok(SettleStep::Sign) => {
                        let plan = before.plan(id@)->Ok_0->Some_0;
                        let execution = before.execution(id@)->Ok_0->Some_0;
                        if !fill_set_stands(
                            requests@,
                            matched_slots(execution.result.slots@),
                            plan.round_id,
                            execution.receipts@[0].public_output_sha256,
                        ) {
                            after == before && (r matches Err(e) && e@
                                == "durable native fill set differs from actual matching"@)
                        } else {
                            (after, text_result(r)) == before.keep(
                                market_key("signed:"@, id@),
                                MarketBody::Signed(requests),
                            )
                        }
                    },
                    Ok(_) => after == before && (r matches Err(e) && e@ == not_ready()),
                }
            }),
    {
        match self.round_step(id) {
            Err(e) => return Err(e),
            Ok(SettleStep::Sign) => {},
            Ok(_) => return Err(round_not_ready()),
        }
        match (self.journal.plan(id), self.journal.execution(id)) {
            (Ok(Some(plan)), Ok(Some(execution))) => {
                let slots = traded_slots(&execution.result.slots);
                match check_fill_set(
                    &requests,
                    &slots,
                    &plan.round_id,
                    &execution.receipts[0].public_output_sha256,
                ) {
                    Err(e) => return Err(e),
                    Ok(_) => {},
                }
            },
            _ => return Err(round_not_ready()),
        }
        self.journal.put(key_of("signed:", id), MarketBody::Signed(requests))
    }

    /// Keep what the ledger accepted for the signed fills on record.
    pub fn keep_settled(&mut self, id: &str, accepted: Settled) -> (r: Result<(), String>)
        requires
            old(self).journal.wf(),
        ensures
            final(self).journal.wf(),
            final(self).same_service(old(self)),
            ({
                let before = old(self).journal@;
                let after = final(self).journal@;
                match before.round_step(id@) {
                    Err(text) => after == before && (r matches Err(e) && e@ == text),
                    Ok(SettleStep::Submit { batch: _ }) => (after, text_result(r)) == before.keep(
                        market_key("settled:"@, id@),
                        MarketBody::Settled(accepted),
                    ),
                    Ok(_) => after == before && (r matches Err(e) && e@ == not_ready()),
                }
            }),
    {
        match self.round_step(id) {
            Err(e) => return Err(e),
            Ok(SettleStep::Submit { batch: _ }) => {},
            Ok(_) => return Err(round_not_ready()),
        }
        self.journal.put(key_of("settled:", id), MarketBody::Settled(accepted))
    }

    /// What settling the round of an order does next, by what is on record.
    pub fn round_step(&self, id: &str) -> (r: Result<SettleStep, String>)
        requires
            self.journal.wf(),
        ensures
            text_result(r) == self.journal@.round_step(id@),
    {
        let plan = match self.journal.plan(id) {
            Err(e) => return Err(e),
            Ok(None) => return Err(round_not_ready()),
            Ok(Some(plan)) => plan,
        };
        match self.journal.execution(id) {
            Err(e) => Err(e),
            Ok(None) => Err(round_not_ready()),
            Ok(Some(execution)) => {
                let slots = traded_slots(&execution.result.slots);
                self.settle(id, plan, execution, &slots)
            },
        }
    }
}

/// What seven agreeing receipts make.
pub open spec fn agreed_by(
    execution: AgreedRoundExecution,
    receipts: Seq<NodeExecutionReceipt>,
) -> bool {
    execution.receipts@ == receipts && execution.result@ == receipts[0].result@
}

impl MarketView {
    /// What settling the round of an order does next, by what is on record.
    pub open spec fn round_step(self, id: Seq<char>) -> Result<SettleStep, Seq<char>> {
        match self.plan(id) {
            Err(text) => Err(text),
            Ok(None) => Err(not_ready()),
            Ok(Some(plan)) => match self.execution(id) {
                Err(text) => Err(text),
                Ok(None) => Err(not_ready()),
                Ok(Some(execution)) => self.settle_step(
                    id,
                    &plan,
                    &execution,
                    matched_slots(execution.result.slots@),
                ),
            },
        }
    }
}

proof fn lemma_round_keys_differ(id: Seq<char>)
    ensures
        market_key("signed:"@, id) != market_key("plan:"@, id),
        market_key("signed:"@, id) != market_key("execution:"@, id),
        market_key("signed:"@, id) != market_key("settled:"@, id),
        market_key("settled:"@, id) != market_key("plan:"@, id),
        market_key("settled:"@, id) != market_key("execution:"@, id),
{
    reveal_strlit("signed:");
    reveal_strlit("settled:");
    reveal_strlit("plan:");
    reveal_strlit("execution:");
    assert(market_key("signed:"@, id)[0] == 's' && market_key("settled:"@, id)[0] == 's');
    assert(market_key("plan:"@, id)[0] == 'p' && market_key("execution:"@, id)[0] == 'e');
    assert(market_key("signed:"@, id)[1] == 'i' && market_key("settled:"@, id)[1] == 'e');
}

/// The fills that were signed first are the ones that the ledger gets, also
/// after a restart: once kept they are submitted, and no other set replaces
/// them.
pub proof fn lemma_signed_fills_are_kept(
    journal: MarketView,
    id: Seq<char>,
    requests: Vec<NativeFillRequest>,
    others: Vec<NativeFillRequest>,
)
    requires
        journal.round_step(id) == Ok::<SettleStep, Seq<char>>(SettleStep::Sign),
        journal.settled(id) == Ok::<Option<Settled>, Seq<char>>(None),
        fill_set_stands(
            requests@,
            matched_slots((journal.execution(id)->Ok_0->Some_0).result.slots@),
            (journal.plan(id)->Ok_0->Some_0).round_id,
            (journal.execution(id)->Ok_0->Some_0).receipts@[0].public_output_sha256,
        ),
    ensures
        ({
            let (next, kept) = journal.keep(
                market_key("signed:"@, id),
                MarketBody::Signed(requests),
            );
            &&& kept is Ok
            &&& next.signed(id) == Ok::<Option<Vec<NativeFillRequest>>, Seq<char>>(Some(requests))
            &&& next.round_step(id) == Ok::<SettleStep, Seq<char>>(
                SettleStep::Submit { batch: requests@.len() > 1 },
            )
            &&& next.keep(market_key("signed:"@, id), MarketBody::Signed(others)).0 == next
        }),
{
    lemma_round_keys_differ(id);
}

/// What the ledger accepted for a round is kept once, and from then on the
/// round is confirmed and never handed over again.
pub proof fn lemma_settled_round_is_not_sent_again(
    journal: MarketView,
    id: Seq<char>,
    accepted: Settled,
    other: Settled,
)
    requires
        journal.round_step(id) matches Ok(SettleStep::Submit { batch: _ }),
    ensures
        ({
            let (next, kept) = journal.keep(
                market_key("settled:"@, id),
                MarketBody::Settled(accepted),
            );
            &&& kept is Ok
            &&& next.settled(id) == Ok::<Option<Settled>, Seq<char>>(Some(accepted))
            &&& next.round_step(id) matches Ok(SettleStep::Confirm { batch: _ })
            &&& next.keep(market_key("settled:"@, id), MarketBody::Settled(other)).0 == next
        }),
{
    lemma_round_keys_differ(id);
}

} // verus!
