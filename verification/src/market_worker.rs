//! The resident market as an operator sees it: how it is started, what it
//! reports, and what its acceptance has to show.

use crate::bytes::{
    bytes_equal, copy_bytes, digest_equal, hex_encode, hex_text, hex_value, sha256, sha256_digest,
    text_bytes,
};
use crate::json::{json_check, json_error, json_text, json_text_field};
use crate::market_journal::{
    found, key_of, malformed_market_record, market_key, values, MarketBody, MarketCompletedRound,
    MarketJournal, MarketView,
};
use crate::market_runtime::{matched_slots, traded_slots, Settled};
use crate::store::{text_result, texts};
use crate::text::{number_error, parsed_u64, read_number, split_words, trim, trimmed, words};
use crate::text_map::text_equal;
use crate::types::{MpcSlotResult, Side};
use vstd::prelude::*;

verus! {

/// How the worker is started.
#[derive(Clone, Copy, Debug, PartialEq, Eq, Structural)]
pub enum WorkerMode {
    Run,
    Initialize,
    Status,
    Acceptance,
    WaitRounds(u64),
}

pub open spec fn worker_usage() -> Seq<char> {
    "usage: oclob-market-worker [--initialize|--status|--wait-rounds N|--acceptance]"@
}

/// The mode that the arguments ask for.
pub open spec fn worker_mode(args: Seq<String>) -> Result<WorkerMode, Seq<char>> {
    if args.len() == 0 {
        Ok(WorkerMode::Run)
    } else if args.len() == 1 && args[0]@ == "--initialize"@ {
        Ok(WorkerMode::Initialize)
    } else if args.len() == 1 && args[0]@ == "--status"@ {
        Ok(WorkerMode::Status)
    } else if args.len() == 1 && args[0]@ == "--acceptance"@ {
        Ok(WorkerMode::Acceptance)
    } else if args.len() == 2 && args[0]@ == "--wait-rounds"@ {
        match parsed_u64(args[1]@) {
            Some(count) => Ok(WorkerMode::WaitRounds(count)),
            None => Err(number_error(args[1]@)),
        }
    } else {
        Err(worker_usage())
    }
}

/// Read the worker's arguments.
pub fn parse_worker_args(args: &Vec<String>) -> (r: Result<WorkerMode, String>)
    ensures
        text_result(r) == worker_mode(args@),
{
    if args.len() == 0 {
        return Ok(WorkerMode::Run);
    }
    let first = args[0].as_str();
    if args.len() == 1 && text_equal(first, "--initialize") {
        return Ok(WorkerMode::Initialize);
    }
    if args.len() == 1 && text_equal(first, "--status") {
        return Ok(WorkerMode::Status);
    }
    if args.len() == 1 && text_equal(first, "--acceptance") {
        return Ok(WorkerMode::Acceptance);
    }
    if args.len() == 2 && text_equal(first, "--wait-rounds") {
        return match read_number(args[1].as_str()) {
            Ok(count) => Ok(WorkerMode::WaitRounds(count)),
            Err(e) => Err(e),
        };
    }
    Err(
        "usage: oclob-market-worker [--initialize|--status|--wait-rounds N|--acceptance]".to_owned(),
    )
}

/// The largest configuration file.
pub const MAX_CONFIG_BYTES: usize = 16_777_216;

/// Check the length of a configuration file.
pub fn check_config_length(length: usize) -> (r: Result<(), String>)
    ensures
        r is Ok == (length <= MAX_CONFIG_BYTES),
        r matches Err(e) ==> e@ == "market configuration exceeds size bound"@,
{
    if length > MAX_CONFIG_BYTES {
        return Err("market configuration exceeds size bound".to_owned());
    }
    Ok(())
}

/// What an error is reported as: the hash of its text.
pub fn error_digest(text: &str) -> (digest: String)
    ensures
        digest@ == hex_text(sha256(text_bytes(text@))),
{
    let digest = sha256_digest(text.as_bytes());
    hex_encode(&digest)
}

/// What waiting for rounds does next.
#[derive(Clone, Copy, Debug, PartialEq, Eq, Structural)]
pub enum WaitStep {
    Done,
    Wait,
}

/// Whether the awaited rounds are there, or why waiting ends.
pub fn wait_rounds(completed: u64, wanted: u64, before_deadline: bool) -> (r: Result<
    WaitStep,
    String,
>)
    ensures
        text_result(r) == (if completed >= wanted {
            Ok::<WaitStep, Seq<char>>(WaitStep::Done)
        } else if before_deadline {
            Ok(WaitStep::Wait)
        } else {
            Err("resident market did not complete expected rounds"@)
        }),
{
    if completed >= wanted {
        Ok(WaitStep::Done)
    } else if before_deadline {
        Ok(WaitStep::Wait)
    } else {
        Err("resident market did not complete expected rounds".to_owned())
    }
}

impl MarketView {
    /// Bind the journal to the settings that it was first opened with.
    pub open spec fn bind_settings(self, wire: Vec<u8>) -> (MarketView, Result<(), Seq<char>>) {
        let (next, kept) = self.put("settings"@, MarketBody::Other(wire));
        match kept {
            Err(text) => (next, Err(text)),
            Ok(MarketBody::Other(saved)) => if saved@ == wire@ {
                (next, Ok(()))
            } else {
                (next, Err("market settings differ from the durable deployment"@))
            },
            Ok(_) => (next, Err(malformed_market_record())),
        }
    }

    /// The public book that the last completed round left, where there is one.
    pub open spec fn public_book(self) -> Result<Option<Vec<u8>>, Seq<char>> {
        match self.completed() {
            Err(text) => Err(text),
            Ok(rounds) => if rounds.len() == 0 {
                Ok(None)
            } else {
                match rounds.last().public_snapshot {
                    None => Err(
                        "historical round lacks native depth; explicit migration required"@,
                    ),
                    Some(book) => Ok(Some(book)),
                }
            },
        }
    }
}

impl MarketJournal {
    /// Bind the journal to the settings that it was first opened with. `wire`
    /// is their encoding.
    pub fn bind_settings(&mut self, wire: Vec<u8>) -> (r: Result<(), String>)
        requires
            old(self).wf(),
        ensures
            final(self).wf(),
            (final(self)@, text_result(r)) == old(self)@.bind_settings(wire),
    {
        let expected = crate::bytes::copy_bytes(wire.as_slice());
        match self.put("settings".to_owned(), MarketBody::Other(wire)) {
            Err(e) => return Err(e),
            Ok(_) => {},
        }
        match self.get("settings") {
            Err(e) => Err(e),
            Ok(Some(MarketBody::Other(saved))) => {
                if !bytes_equal(saved.as_slice(), expected.as_slice()) {
                    return Err("market settings differ from the durable deployment".to_owned());
                }
                Ok(())
            },
            Ok(_) => Err("market record is malformed".to_owned()),
        }
    }

    /// The public book that the last completed round left, where there is one.
    pub fn public_book(&self) -> (r: Result<Option<&Vec<u8>>, String>)
        requires
            self.wf(),
        ensures
            found(r) == self@.public_book(),
    {
        let rounds = match self.completed() {
            Err(e) => return Err(e),
            Ok(rounds) => rounds,
        };
        if rounds.len() == 0 {
            return Ok(None);
        }
        match &rounds[rounds.len() - 1].public_snapshot {
            None => Err(
                "historical round lacks native depth; explicit migration required".to_owned(),
            ),
            Some(book) => Ok(Some(book)),
        }
    }
}

/// The time at which a public book is verified: when its first attestation was
/// issued. `issued_at` are the times of its attestations.
pub fn book_time(issued_at: &Vec<u64>) -> (r: Result<u64, String>)
    ensures
        r is Ok == (issued_at@.len() > 0),
        r matches Ok(time) ==> time == issued_at@[0],
        r matches Err(e) ==> e@ == "depth signatures absent"@,
{
    if issued_at.len() == 0 {
        return Err("depth signatures absent".to_owned());
    }
    Ok(issued_at[0])
}

/// What an operator sees of the market.
pub struct MarketStatus {
    pub completed_market_rounds: usize,
    pub autonomously_settled_fills: u64,
    pub completed_round_digests: Vec<String>,
    pub transaction_ids: Vec<String>,
    pub canonical_roots: Vec<String>,
}

/// The fills of the first `count` rounds.
pub open spec fn fills_of(rounds: Seq<MarketCompletedRound>, count: nat) -> nat
    decreases count,
{
    if count == 0 {
        0
    } else {
        fills_of(rounds, (count - 1) as nat) + matched_slots(rounds[count - 1].result.slots@).len()
    }
}

/// The transactions of the first `count` rounds, in order.
pub open spec fn transactions_of(rounds: Seq<MarketCompletedRound>, count: nat) -> Seq<Seq<char>>
    decreases count,
{
    if count == 0 {
        Seq::empty()
    } else {
        match rounds[count - 1].transaction_id {
            Some(id) => transactions_of(rounds, (count - 1) as nat).push(id@),
            None => transactions_of(rounds, (count - 1) as nat),
        }
    }
}

/// The ledger's roots after the first `count` rounds, in order.
pub open spec fn roots_of(rounds: Seq<MarketCompletedRound>, count: nat) -> Seq<Seq<char>>
    decreases count,
{
    if count == 0 {
        Seq::empty()
    } else {
        match rounds[count - 1].canonical_root {
            Some(root) => roots_of(rounds, (count - 1) as nat).push(hex_text(root@)),
            None => roots_of(rounds, (count - 1) as nat),
        }
    }
}

/// The certificates of the rounds, in order.
pub open spec fn round_digests(rounds: Seq<MarketCompletedRound>) -> Seq<Seq<char>> {
    Seq::new(rounds.len(), |i: int| hex_text(rounds[i].certificate.digest@))
}

pub open spec fn status_of(status: MarketStatus, rounds: Seq<MarketCompletedRound>) -> bool {
    &&& status.completed_market_rounds == rounds.len()
    &&& status.autonomously_settled_fills == fills_of(rounds, rounds.len())
    &&& texts(status.completed_round_digests@) == round_digests(rounds)
    &&& texts(status.transaction_ids@) == transactions_of(rounds, rounds.len())
    &&& texts(status.canonical_roots@) == roots_of(rounds, rounds.len())
}

proof fn lemma_fills_grow(rounds: Seq<MarketCompletedRound>, at: nat, count: nat)
    requires
        at <= count,
    ensures
        fills_of(rounds, at) <= fills_of(rounds, count),
    decreases count,
{
    if at < count {
        lemma_fills_grow(rounds, at, (count - 1) as nat);
    }
}

impl MarketJournal {
    /// What an operator sees of the market.
    pub fn status(&self) -> (r: Result<MarketStatus, String>)
        requires
            self.wf(),
        ensures
            match self@.completed() {
                Err(text) => r matches Err(e) && e@ == text,
                Ok(rounds) => if fills_of(rounds, rounds.len()) > u64::MAX {
                    r matches Err(e) && e@ == "market status exceeds its range"@
                } else {
                    r matches Ok(status) && status_of(status, rounds)
                },
            },
    {
        let list = match self.completed() {
            Err(e) => return Err(e),
            Ok(list) => list,
        };
        let ghost rounds = values(list@);
        let mut fills: u64 = 0;
        let mut digests: Vec<String> = Vec::new();
        let mut transactions: Vec<String> = Vec::new();
        let mut roots: Vec<String> = Vec::new();
        let mut i: usize = 0;
        assert(texts(digests@) =~= Seq::<Seq<char>>::empty());
        assert(texts(transactions@) =~= Seq::<Seq<char>>::empty());
        assert(texts(roots@) =~= Seq::<Seq<char>>::empty());
        while i < list.len()
            invariant
                rounds == values(list@),
                self@.completed() == Ok::<Seq<MarketCompletedRound>, Seq<char>>(rounds),
                i <= list@.len(),
                fills == fills_of(rounds, i as nat),
                texts(digests@) == round_digests(rounds).take(i as int),
                texts(transactions@) == transactions_of(rounds, i as nat),
                texts(roots@) == roots_of(rounds, i as nat),
            decreases list@.len() - i,
        {
            let round = list[i];
            assert(rounds[i as int] == *round);
            let traded = traded_slots(&round.result.slots);
            proof {
                lemma_fills_grow(rounds, (i + 1) as nat, rounds.len());
            }
            if traded.len() as u64 > u64::MAX - fills {
                return Err("market status exceeds its range".to_owned());
            }
            fills = fills + traded.len() as u64;
            let ghost before = digests@;
            digests.push(hex_encode(&round.certificate.digest));
            assert(texts(digests@) =~= texts(before).push(hex_text(round.certificate.digest@)));
            assert(round_digests(rounds).take(i + 1) =~= round_digests(rounds).take(i as int).push(
                hex_text(round.certificate.digest@),
            ));
            match &round.transaction_id {
                Some(id) => {
                    let ghost before = transactions@;
                    transactions.push(id.clone());
                    assert(texts(transactions@) =~= texts(before).push(id@));
                },
                None => {},
            }
            match &round.canonical_root {
                Some(root) => {
                    let ghost before = roots@;
                    roots.push(hex_encode(root));
                    assert(texts(roots@) =~= texts(before).push(hex_text(root@)));
                },
                None => {},
            }
            i += 1;
        }
        assert(round_digests(rounds).take(i as int) =~= round_digests(rounds));
        Ok(
            MarketStatus {
                completed_market_rounds: list.len(),
                autonomously_settled_fills: fills,
                completed_round_digests: digests,
                transaction_ids: transactions,
                canonical_roots: roots,
            },
        )
    }
}

/// Whether an acceptance run observes public depth too, or why its manifest
/// does not bind it.
pub open spec fn market_bound(manifest: Seq<u8>, contract: Seq<u8>) -> Result<bool, Seq<char>> {
    let id = json_text(manifest, "contract_id"@);
    if json_error(manifest) is Some {
        Err(json_error(manifest)->0)
    } else if json_text(manifest, "contract_sha256"@) != Some(hex_text(sha256(contract))) || json_text(
        manifest,
        "stage"@,
    ) != Some("RUN_ROUGH_END_TO_END_AND_OBSERVE_FINAL_METRIC"@) {
        Err("resident market acceptance preflight failed"@)
    } else if id == Some("oclob-native-depth-v1"@) {
        Ok(true)
    } else if id == Some("oclob-native-market-v1"@) {
        Ok(false)
    } else {
        Err("resident market acceptance preflight failed"@)
    }
}

fn field_is(manifest: &[u8], field: &str, expected: &str) -> (same: bool)
    ensures
        same == (json_text(manifest@, field@) == Some(expected@)),
{
    match json_text_field(manifest, field) {
        Some(text) => text_equal(text.as_str(), expected),
        None => false,
    }
}

/// Find out what an acceptance run observes.
pub fn market_preflight(manifest: &[u8], contract: &[u8]) -> (r: Result<bool, String>)
    ensures
        text_result(r) == market_bound(manifest@, contract@),
{
    match json_check(manifest) {
        Err(e) => return Err(e),
        Ok(_) => {},
    }
    let digest = sha256_digest(contract);
    let hash = hex_encode(&digest);
    let depth: bool = field_is(manifest, "contract_id", "oclob-native-depth-v1");
    if !field_is(manifest, "contract_sha256", hash.as_str()) || (!depth && !field_is(
        manifest,
        "contract_id",
        "oclob-native-market-v1",
    )) || !field_is(manifest, "stage", "RUN_ROUGH_END_TO_END_AND_OBSERVE_FINAL_METRIC") {
        proof {
            reveal_strlit("oclob-native-depth-v1");
            reveal_strlit("oclob-native-market-v1");
        }
        return Err("resident market acceptance preflight failed".to_owned());
    }
    Ok(depth)
}

/// The value of the fills among the first `count` slots, if 64 bits hold it at
/// every step.
pub open spec fn notional_of(slots: Seq<MpcSlotResult>, count: nat) -> Option<nat>
    decreases count,
{
    if count == 0 {
        Some(0)
    } else {
        match notional_of(slots, (count - 1) as nat) {
            None => None,
            Some(total) => {
                let slot = slots[count - 1];
                let value = slot.trade_price as nat * slot.trade_quantity as nat;
                if !slot.matched {
                    Some(total)
                } else if value > u64::MAX || total + value > u64::MAX {
                    None
                } else {
                    Some(total + value)
                }
            },
        }
    }
}

proof fn lemma_notional_overflow(slots: Seq<MpcSlotResult>, at: nat, count: nat)
    requires
        at <= count,
        notional_of(slots, at) is None,
    ensures
        notional_of(slots, count) is None,
    decreases count,
{
    if at < count {
        lemma_notional_overflow(slots, at, (count - 1) as nat);
    }
}

/// The value of the fills of a round.
pub fn notional(slots: &Vec<MpcSlotResult>) -> (r: Result<u64, String>)
    ensures
        r is Ok == notional_of(slots@, slots@.len()) is Some,
        r matches Ok(total) ==> notional_of(slots@, slots@.len()) == Some(total as nat),
        r matches Err(e) ==> e@ == "notional overflow"@,
{
    let mut total: u64 = 0;
    let mut i: usize = 0;
    while i < slots.len()
        invariant
            i <= slots@.len(),
            notional_of(slots@, i as nat) == Some(total as nat),
        decreases slots@.len() - i,
    {
        let slot = slots[i];
        if slot.matched {
            match slot.trade_price.checked_mul(slot.trade_quantity) {
                None => {
                    proof {
                        lemma_notional_overflow(slots@, (i + 1) as nat, slots@.len());
                    }
                    return Err("notional overflow".to_owned());
                },
                Some(value) => match total.checked_add(value) {
                    None => {
                        proof {
                            lemma_notional_overflow(slots@, (i + 1) as nat, slots@.len());
                        }
                        return Err("notional overflow".to_owned());
                    },
                    Some(sum) => {
                        total = sum;
                    },
                },
            }
        }
        i += 1;
    }
    Ok(total)
}

pub open spec fn expected_rounds(depth: bool) -> int {
    if depth {
        4
    } else {
        3
    }
}

/// As many rounds as orders, and nothing settled before the last one.
pub open spec fn rounds_stand(rounds: Seq<MarketCompletedRound>, depth: bool) -> bool {
    &&& rounds.len() == expected_rounds(depth)
    &&& forall|i: int|
        0 <= i < rounds.len() - 1 ==> (#[trigger] rounds[i]).transaction_id is None
}

/// The last round took the best prices first, settled exactly what was
/// predicted, and every node observed both fills.
pub open spec fn fills_stand(last: &MarketCompletedRound, depth: bool) -> bool {
    let slots = last.result.slots@;
    let traded = matched_slots(slots);
    let first = if depth {
        1int
    } else {
        0int
    };
    &&& traded.len() == 2
    &&& traded[0] == first
    &&& slots[first].trade_price == (if depth {
        100u64
    } else {
        101u64
    })
    &&& slots[first].trade_quantity == 30
    &&& traded[1] == first + 1
    &&& slots[first + 1].trade_price == 100
    &&& slots[first + 1].trade_quantity == (if depth {
        45u64
    } else {
        60u64
    })
    &&& notional_of(slots, slots.len()) == Some(
        if depth {
            7500nat
        } else {
            9030nat
        },
    )
    &&& last.result.arriving_remaining == 0
    &&& last.finality_observations == 14
}

/// 64 hexadecimal digits.
pub open spec fn process_id(text: Seq<char>) -> bool {
    let bytes = text_bytes(text);
    bytes.len() == 64 && forall|i: int|
        0 <= i < bytes.len() ==> hex_value(#[trigger] bytes[i]) is Some
}

/// Three different processes, and the exit code of the one that was stopped.
pub open spec fn crash_observed(processes: Seq<char>, exit: Seq<char>) -> bool {
    let ids = words(processes);
    &&& ids.len() == 3
    &&& ids[0] != ids[1]
    &&& ids[1] != ids[2]
    &&& ids[0] != ids[2]
    &&& forall|i: int| 0 <= i < ids.len() ==> process_id(#[trigger] ids[i])
    &&& trimmed(exit) == "75"@
}

fn is_process_id(text: &str) -> (valid: bool)
    ensures
        valid == process_id(text@),
{
    let bytes = text.as_bytes();
    if bytes.len() != 64 {
        return false;
    }
    let mut i: usize = 0;
    while i < bytes.len()
        invariant
            bytes@ == text_bytes(text@),
            bytes@.len() == 64,
            i <= bytes@.len(),
            forall|j: int| 0 <= j < i ==> hex_value(#[trigger] bytes@[j]) is Some,
        decreases bytes@.len() - i,
    {
        let b: u8 = bytes[i];
        if !((48 <= b && b <= 57) || (65 <= b && b <= 70) || (97 <= b && b <= 102)) {
            assert(hex_value(bytes@[i as int]) is None);
            return false;
        }
        i += 1;
    }
    true
}

/// Check that a crash was observed: three different processes, and the exit
/// code of the one that was stopped.
pub fn check_crash(processes: &str, exit: &str) -> (r: Result<Vec<String>, String>)
    ensures
        r is Ok == crash_observed(processes@, exit@),
        r matches Ok(ids) ==> texts(ids@) == words(processes@),
        r matches Err(e) ==> e@
            == "actual market crash and process replacement were not observed"@,
{
    let ids = split_words(processes);
    assert(texts(ids@) =~= words(processes@));
    if ids.len() != 3 || text_equal(ids[0].as_str(), ids[1].as_str()) || text_equal(
        ids[1].as_str(),
        ids[2].as_str(),
    ) || text_equal(ids[0].as_str(), ids[2].as_str()) {
        return Err("actual market crash and process replacement were not observed".to_owned());
    }
    let mut i: usize = 0;
    while i < ids.len()
        invariant
            ids@.len() == 3,
            texts(ids@) == words(processes@),
            i <= ids@.len(),
            forall|j: int| 0 <= j < i ==> process_id(#[trigger] words(processes@)[j]),
        decreases ids@.len() - i,
    {
        assert(texts(ids@)[i as int] == ids@[i as int]@);
        if !is_process_id(ids[i].as_str()) {
            return Err("actual market crash and process replacement were not observed".to_owned());
        }
        i += 1;
    }
    if !text_equal(trim(exit), "75") {
        return Err("actual market crash and process replacement were not observed".to_owned());
    }
    Ok(ids)
}

fn check_fills(last: &MarketCompletedRound, depth: bool) -> (r: Result<u64, String>)
    ensures
        ({
            let slots = last.result.slots@;
            let total = notional_of(slots, slots.len());
            &&& r is Ok == (total is Some && fills_stand(last, depth))
            &&& r matches Ok(value) ==> total == Some(value as nat)
            &&& r matches Err(e) ==> e@ == (if total is None {
                "notional overflow"@
            } else {
                "secret price priority or autonomous canonical fills differ from prediction"@
            })
        }),
{
    let slots = &last.result.slots;
    let value: u64 = match notional(slots) {
        Err(e) => return Err(e),
        Ok(value) => value,
    };
    let traded = traded_slots(slots);
    let first: usize = if depth {
        1
    } else {
        0
    };
    let price: u64 = if depth {
        100
    } else {
        101
    };
    let quantity: u64 = if depth {
        45
    } else {
        60
    };
    let total: u64 = if depth {
        7500
    } else {
        9030
    };
    let count: usize = slots.len();
    proof {
        assert(slots@.len() == count);
        crate::market_laws::lemma_settled_slots_are_those_that_traded(slots@);
    }
    if traded.len() != 2 || traded[0] != first || traded[1] != first + 1 || slots[first].trade_price
        != price || slots[first].trade_quantity != 30 || slots[first + 1].trade_price != 100
        || slots[first + 1].trade_quantity != quantity || value != total
        || last.result.arriving_remaining != 0 || last.finality_observations != 14 {
        return Err(
            "secret price priority or autonomous canonical fills differ from prediction".to_owned(),
        );
    }
    Ok(value)
}

/// What was observed around a restart of the market: the status before it, the
/// processes and the exit of the one that was stopped. Where public depth is
/// observed too: the books that were published after each round, and the
/// encodings of those that the public saw before finality and after the restart.
pub struct MarketEvidence {
    pub status_before: MarketStatus,
    pub processes: String,
    pub crash_exit: String,
    pub books: Vec<PublishedBook>,
    pub before_finality: Vec<u8>,
    pub after_restart: Vec<u8>,
}

fn texts_equal(a: &Vec<String>, b: &Vec<String>) -> (same: bool)
    ensures
        same == (texts(a@) == texts(b@)),
{
    if a.len() != b.len() {
        assert(texts(a@).len() != texts(b@).len());
        return false;
    }
    let mut i: usize = 0;
    while i < a.len()
        invariant
            i <= a@.len(),
            a@.len() == b@.len(),
            forall|j: int| 0 <= j < i ==> (#[trigger] a@[j])@ == b@[j]@,
        decreases a@.len() - i,
    {
        if !text_equal(a[i].as_str(), b[i].as_str()) {
            assert(texts(a@)[i as int] != texts(b@)[i as int]);
            return false;
        }
        i += 1;
    }
    assert(texts(a@) =~= texts(b@));
    true
}

impl MarketStatus {
    /// Statuses that show the same.
    pub open spec fn shows(&self, other: &MarketStatus) -> bool {
        &&& self.completed_market_rounds == other.completed_market_rounds
        &&& self.autonomously_settled_fills == other.autonomously_settled_fills
        &&& texts(self.completed_round_digests@) == texts(other.completed_round_digests@)
        &&& texts(self.transaction_ids@) == texts(other.transaction_ids@)
        &&& texts(self.canonical_roots@) == texts(other.canonical_roots@)
    }

    pub fn same(&self, other: &MarketStatus) -> (same: bool)
        ensures
            same == self.shows(other),
    {
        self.completed_market_rounds == other.completed_market_rounds
            && self.autonomously_settled_fills == other.autonomously_settled_fills && texts_equal(
            &self.completed_round_digests,
            &other.completed_round_digests,
        ) && texts_equal(&self.transaction_ids, &other.transaction_ids) && texts_equal(
            &self.canonical_roots,
            &other.canonical_roots,
        )
    }
}

/// What the accepted run of a market with public depth shows besides: the
/// quantities before and after its trade, and the book that the public saw last,
/// encoded.
pub struct AcceptedDepth {
    pub canonically_published_depth_snapshots: u64,
    pub public_depth_stays_old_before_finality: bool,
    pub network_reader_requires_no_corporate_keys_or_journal: bool,
    pub pretrade_100_quantity: u64,
    pub posttrade_100_quantity: u64,
    pub posttrade_101_quantity: u64,
    pub public_snapshot: Vec<u8>,
}

/// What an accepted market shows.
pub struct AcceptedMarket {
    pub target: String,
    pub native_note_settlement: bool,
    pub admitted_orders: u64,
    pub completed_market_rounds: u64,
    pub autonomously_settled_fills: u64,
    pub notional: u64,
    pub node_finality_observations: u64,
    pub post_match_participant_signatures: u64,
    pub restart_did_not_duplicate_settlement: bool,
    pub canonical_response_loss_recovered: bool,
    pub service_processes: Vec<String>,
    pub native_transaction_id: Option<String>,
    pub native_after_root: String,
    pub status: String,
    pub independent_operators: bool,
    pub wan_evidence: bool,
    pub depth: Option<AcceptedDepth>,
}

impl AcceptedMarket {
    /// The report of a market whose last round is `last`.
    pub open spec fn reports(
        &self,
        last: &MarketCompletedRound,
        depth: bool,
        evidence: &MarketEvidence,
    ) -> bool {
        &&& self.target@ == "/handoff/native-result.json"@
        &&& self.native_note_settlement
        &&& self.admitted_orders == expected_rounds(depth)
        &&& self.completed_market_rounds == expected_rounds(depth)
        &&& self.autonomously_settled_fills == 2
        &&& self.notional == (if depth {
            7500u64
        } else {
            9030u64
        })
        &&& self.node_finality_observations == 14
        &&& self.post_match_participant_signatures == 0
        &&& self.restart_did_not_duplicate_settlement
        &&& self.canonical_response_loss_recovered
        &&& texts(self.service_processes@) == words(evidence.processes@)
        &&& match last.transaction_id {
            Some(id) => self.native_transaction_id matches Some(reported) && reported@ == id@,
            None => self.native_transaction_id is None,
        }
        &&& last.canonical_root matches Some(root) && self.native_after_root@ == hex_text(root@)
        &&& self.status@ == "smoke_only"@
        &&& !self.independent_operators
        &&& !self.wan_evidence
        &&& self.depth is Some == depth
        &&& self.depth matches Some(book) ==> {
            &&& book.canonically_published_depth_snapshots == 4
            &&& book.public_depth_stays_old_before_finality
            &&& book.network_reader_requires_no_corporate_keys_or_journal
            &&& book.pretrade_100_quantity == 90
            &&& book.posttrade_100_quantity == 15
            &&& book.posttrade_101_quantity == 30
            &&& book.public_snapshot@ == evidence.after_restart@
        }
    }
}

pub open spec fn same_settlement(a: Settled, b: Settled) -> bool {
    &&& a.transaction_id@ == b.transaction_id@
    &&& a.block_id@ == b.block_id@
    &&& a.before_root == b.before_root
    &&& a.after_root == b.after_root
    &&& a.height == b.height
    &&& a.statement == b.statement
}

fn is_same_settlement(a: &Settled, b: &Settled) -> (same: bool)
    ensures
        same == same_settlement(*a, *b),
{
    text_equal(a.transaction_id.as_str(), b.transaction_id.as_str()) && text_equal(
        a.block_id.as_str(),
        b.block_id.as_str(),
    ) && digest_equal(&a.before_root, &b.before_root) && digest_equal(&a.after_root, &b.after_root)
        && a.height == b.height && digest_equal(&a.statement, &b.statement)
}

impl MarketView {
    /// What was observed of a settlement just before the market was stopped.
    pub open spec fn fault_observation(self, id: Seq<char>) -> Result<Option<Settled>, Seq<char>> {
        match self.get(market_key("fault-observation:"@, id)) {
            Err(text) => Err(text),
            Ok(None) => Ok(None),
            Ok(Some(MarketBody::Settled(value))) => Ok(Some(value)),
            Ok(Some(_)) => Err(malformed_market_record()),
        }
    }

    /// Why the recovered settlement is not the observed one, if it is not.
    pub open spec fn recovery_fault(self, id: Seq<char>) -> Option<Seq<char>> {
        match self.fault_observation(id) {
            Err(text) => Some(text),
            Ok(None) => Some("canonical fault observation absent"@),
            Ok(Some(observed)) => match self.settled(id) {
                Err(text) => Some(text),
                Ok(None) => Some("actual recovered canonical receipt absent"@),
                Ok(Some(settled)) => if !same_settlement(observed, settled) {
                    Some("exact native request retry produced a different canonical receipt"@)
                } else {
                    None
                },
            },
        }
    }

    /// Why a market is not accepted, if it is not.
    pub open spec fn acceptance_fault(self, depth: bool, evidence: &MarketEvidence) -> Option<
        Seq<char>,
    > {
        match self.completed() {
            Err(text) => Some(text),
            Ok(rounds) => if !rounds_stand(rounds, depth) {
                Some("resident market did not execute expected rounds"@)
            } else {
                let last = rounds.last();
                let slots = last.result.slots@;
                if notional_of(slots, slots.len()) is None {
                    Some("notional overflow"@)
                } else if !fills_stand(&last, depth) {
                    Some(
                        "secret price priority or autonomous canonical fills differ from prediction"@,
                    )
                } else if fills_of(rounds, rounds.len()) > u64::MAX {
                    Some("market status exceeds its range"@)
                } else if !status_of(evidence.status_before, rounds) {
                    Some("market restart changed completed rounds or canonical settlement"@)
                } else if !crash_observed(evidence.processes@, evidence.crash_exit@) {
                    Some("actual market crash and process replacement were not observed"@)
                } else if self.recovery_fault(last.certificate.commitment.key()) is Some {
                    self.recovery_fault(last.certificate.commitment.key())
                } else if last.canonical_root is None {
                    Some("canonical root absent"@)
                } else if depth {
                    published_fault(rounds, evidence)
                } else {
                    None
                }
            },
        }
    }
}

impl MarketJournal {
    fn check_recovery(&self, id: &str) -> (r: Result<(), String>)
        requires
            self.wf(),
        ensures
            r is Ok == self@.recovery_fault(id@) is None,
            r matches Err(e) ==> Some(e@) == self@.recovery_fault(id@),
    {
        let key = key_of("fault-observation:", id);
        let observed = match self.get(key.as_str()) {
            Err(e) => return Err(e),
            Ok(None) => return Err("canonical fault observation absent".to_owned()),
            Ok(Some(MarketBody::Settled(value))) => value,
            Ok(Some(_)) => return Err("market record is malformed".to_owned()),
        };
        match self.settled(id) {
            Err(e) => Err(e),
            Ok(None) => Err("actual recovered canonical receipt absent".to_owned()),
            Ok(Some(settled)) => {
                if !is_same_settlement(observed, settled) {
                    return Err(
                        "exact native request retry produced a different canonical receipt".to_owned(),
                    );
                }
                Ok(())
            },
        }
    }

    /// Accept a market by what its own journal holds and what was observed of
    /// its processes. This observes; it executes nothing.
    pub fn acceptance(&self, depth: bool, evidence: &MarketEvidence) -> (r: Result<
        AcceptedMarket,
        String,
    >)
        requires
            self.wf(),
        ensures
            r is Ok == self@.acceptance_fault(depth, evidence) is None,
            r matches Err(e) ==> Some(e@) == self@.acceptance_fault(depth, evidence),
            r matches Ok(accepted) ==> accepted.reports(
                &self@.completed()->Ok_0.last(),
                depth,
                evidence,
            ),
    {
        let rounds = match self.completed() {
            Err(e) => return Err(e),
            Ok(rounds) => rounds,
        };
        let ghost all = values(rounds@);
        let expected: usize = if depth {
            4
        } else {
            3
        };
        if rounds.len() != expected {
            return Err("resident market did not execute expected rounds".to_owned());
        }
        let mut i: usize = 0;
        while i < expected - 1
            invariant
                all == values(rounds@),
                rounds@.len() == expected,
                expected == expected_rounds(depth),
                self@.completed() == Ok::<Seq<MarketCompletedRound>, Seq<char>>(all),
                i <= expected - 1,
                forall|j: int| 0 <= j < i ==> (#[trigger] all[j]).transaction_id is None,
            decreases expected - 1 - i,
        {
            assert(all[i as int] == *rounds@[i as int]);
            if rounds[i].transaction_id.is_some() {
                assert(all[i as int].transaction_id is Some);
                return Err("resident market did not execute expected rounds".to_owned());
            }
            i += 1;
        }
        let last = rounds[expected - 1];
        assert(all.last() == *last);
        let value: u64 = match check_fills(last, depth) {
            Err(e) => return Err(e),
            Ok(value) => value,
        };
        let status = match self.status() {
            Err(e) => return Err(e),
            Ok(status) => status,
        };
        if !evidence.status_before.same(&status) {
            return Err(
                "market restart changed completed rounds or canonical settlement".to_owned(),
            );
        }
        let ids = match check_crash(evidence.processes.as_str(), evidence.crash_exit.as_str()) {
            Err(e) => return Err(e),
            Ok(ids) => ids,
        };
        let id = last.certificate.commitment.hex();
        match self.check_recovery(id.as_str()) {
            Err(e) => return Err(e),
            Ok(_) => {},
        }
        let root: String = match &last.canonical_root {
            None => return Err("canonical root absent".to_owned()),
            Some(root) => hex_encode(root),
        };
        let book: Option<AcceptedDepth> = if depth {
            match check_published(&rounds, evidence) {
                Err(e) => return Err(e),
                Ok(_) => {},
            }
            Some(
                AcceptedDepth {
                    canonically_published_depth_snapshots: 4,
                    public_depth_stays_old_before_finality: true,
                    network_reader_requires_no_corporate_keys_or_journal: true,
                    pretrade_100_quantity: 90,
                    posttrade_100_quantity: 15,
                    posttrade_101_quantity: 30,
                    public_snapshot: copy_bytes(&evidence.after_restart),
                },
            )
        } else {
            None
        };
        let orders: u64 = if depth {
            4
        } else {
            3
        };
        let native_transaction_id: Option<String> = match &last.transaction_id {
            Some(id) => Some(id.clone()),
            None => None,
        };
        Ok(
            AcceptedMarket {
                target: "/handoff/native-result.json".to_owned(),
                native_note_settlement: true,
                admitted_orders: orders,
                completed_market_rounds: orders,
                autonomously_settled_fills: 2,
                notional: value,
                node_finality_observations: 14,
                post_match_participant_signatures: 0,
                restart_did_not_duplicate_settlement: true,
                canonical_response_loss_recovered: true,
                service_processes: ids,
                native_transaction_id,
                native_after_root: root,
                status: "smoke_only".to_owned(),
                independent_operators: false,
                wan_evidence: false,
                depth: book,
            },
        )
    }
}

/// One price level of a public book.
#[derive(Clone, Copy, Debug, PartialEq, Eq, Structural)]
pub struct PublicLevel {
    pub side: Side,
    pub price: u64,
    pub quantity: u64,
}

/// A public book as it was published. `wire` is its encoding; `fault` is why
/// its signatures do not stand, if they do not.
pub struct PublishedBook {
    pub sequence: u64,
    pub levels: Vec<PublicLevel>,
    pub wire: Vec<u8>,
    pub fault: Option<String>,
}

/// The offers that the public may see after the round at a place, counted from
/// zero: price and quantity of each level.
pub open spec fn expected_levels(round: int) -> Seq<(u64, u64)> {
    if round == 0 {
        seq![(101u64, 30u64)]
    } else if round == 1 {
        seq![(100u64, 30u64), (101u64, 30u64)]
    } else if round == 2 {
        seq![(100u64, 90u64), (101u64, 30u64)]
    } else {
        seq![(100u64, 15u64), (101u64, 30u64)]
    }
}

pub open spec fn levels_are(levels: Seq<PublicLevel>, expected: Seq<(u64, u64)>) -> bool {
    &&& levels.len() == expected.len()
    &&& forall|i: int|
        0 <= i < levels.len() ==> (#[trigger] levels[i]).side is Sell && levels[i].price
            == expected[i].0 && levels[i].quantity == expected[i].1
}

/// Why the published book of a round does not stand, if it does not.
pub open spec fn depth_fault(
    round: int,
    kept: Option<Vec<u8>>,
    book: &PublishedBook,
) -> Option<Seq<char>> {
    if book.fault is Some {
        Some((book.fault->0)@)
    } else if book.sequence != round + 1 || !(kept matches Some(wire) && wire@ == book.wire@)
        || !levels_are(book.levels@, expected_levels(round)) {
        Some("network public price-level snapshot differs from actual completed MPC"@)
    } else {
        None
    }
}

fn level_is(level: &PublicLevel, price: u64, quantity: u64) -> (same: bool)
    ensures
        same == (level.side is Sell && level.price == price && level.quantity == quantity),
{
    level.side == Side::Sell && level.price == price && level.quantity == quantity
}

fn snapshot_is(kept: &Option<Vec<u8>>, wire: &Vec<u8>) -> (same: bool)
    ensures
        same == (kept matches Some(saved) && saved@ == wire@),
{
    match kept {
        Some(saved) => bytes_equal(saved.as_slice(), wire.as_slice()),
        None => false,
    }
}

/// Check the published book of the round at a place, counted from zero, against
/// what the journal keeps of that round.
pub fn check_depth(round: u64, kept: &Option<Vec<u8>>, book: &PublishedBook) -> (r: Result<
    (),
    String,
>)
    requires
        round < 4,
    ensures
        r is Ok == depth_fault(round as int, *kept, book) is None,
        r matches Err(e) ==> Some(e@) == depth_fault(round as int, *kept, book),
{
    match &book.fault {
        Some(text) => return Err(text.clone()),
        None => {},
    }
    let levels = &book.levels;
    let shown: bool = if round == 0 {
        levels.len() == 1 && level_is(&levels[0], 101, 30)
    } else if round == 1 {
        levels.len() == 2 && level_is(&levels[0], 100, 30) && level_is(&levels[1], 101, 30)
    } else if round == 2 {
        levels.len() == 2 && level_is(&levels[0], 100, 90) && level_is(&levels[1], 101, 30)
    } else {
        levels.len() == 2 && level_is(&levels[0], 100, 15) && level_is(&levels[1], 101, 30)
    };
    assert(shown == levels_are(levels@, expected_levels(round as int))) by {
        let expected = expected_levels(round as int);
        if levels@.len() == expected.len() {
            assert(levels@[0].side is Sell || !(levels@[0].side is Sell));
            if levels@.len() == 2 {
                assert(levels@[1].side is Sell || !(levels@[1].side is Sell));
            }
        }
    }
    if book.sequence != round + 1 || !snapshot_is(kept, &book.wire) || !shown {
        return Err(
            "network public price-level snapshot differs from actual completed MPC".to_owned(),
        );
    }
    Ok(())
}

/// Check that the public saw the old book until finality, and the final one
/// after a restart.
pub fn check_depth_stability(
    third: &Option<Vec<u8>>,
    last: &Option<Vec<u8>>,
    before_finality: &Vec<u8>,
    after_restart: &Vec<u8>,
) -> (r: Result<(), String>)
    ensures
        r is Ok == ((third matches Some(wire) && wire@ == before_finality@) && (
        last matches Some(wire) && wire@ == after_restart@)),
        r matches Err(e) ==> e@
            == "public depth changed before finality or during completed restart"@,
{
    if !snapshot_is(third, before_finality) || !snapshot_is(last, after_restart) {
        return Err("public depth changed before finality or during completed restart".to_owned());
    }
    Ok(())
}

/// Why one of the first `count` published books does not stand, if one does
/// not.
pub open spec fn books_fault(
    rounds: Seq<MarketCompletedRound>,
    books: Seq<PublishedBook>,
    count: nat,
) -> Option<Seq<char>>
    decreases count,
{
    if count == 0 {
        None
    } else {
        match books_fault(rounds, books, (count - 1) as nat) {
            Some(text) => Some(text),
            None => depth_fault(
                count - 1,
                rounds[count - 1].public_snapshot,
                &books[count - 1],
            ),
        }
    }
}

/// Whether a kept snapshot is exactly what was seen.
pub open spec fn seen(kept: Option<Vec<u8>>, wire: Seq<u8>) -> bool {
    kept matches Some(saved) && saved@ == wire
}

/// Why the public depth of four rounds does not stand, if it does not: the book
/// of every round, the old book until finality, and the final one after a
/// restart.
pub open spec fn published_fault(
    rounds: Seq<MarketCompletedRound>,
    evidence: &MarketEvidence,
) -> Option<Seq<char>> {
    if evidence.books@.len() != 4 {
        Some("network public price-level snapshot differs from actual completed MPC"@)
    } else if books_fault(rounds, evidence.books@, 4) is Some {
        books_fault(rounds, evidence.books@, 4)
    } else if !seen(rounds[2].public_snapshot, evidence.before_finality@) || !seen(
        rounds.last().public_snapshot,
        evidence.after_restart@,
    ) {
        Some("public depth changed before finality or during completed restart"@)
    } else {
        None
    }
}

/// Check the public depth of four completed rounds.
fn check_published(rounds: &Vec<&MarketCompletedRound>, evidence: &MarketEvidence) -> (r: Result<
    (),
    String,
>)
    requires
        rounds@.len() == 4,
    ensures
        r is Ok == published_fault(values(rounds@), evidence) is None,
        r matches Err(e) ==> Some(e@) == published_fault(values(rounds@), evidence),
{
    let ghost all = values(rounds@);
    let books = &evidence.books;
    if books.len() != 4 {
        return Err(
            "network public price-level snapshot differs from actual completed MPC".to_owned(),
        );
    }
    assert(all[0] == *rounds@[0] && all[1] == *rounds@[1] && all[2] == *rounds@[2] && all[3]
        == *rounds@[3]);
    proof {
        reveal_with_fuel(books_fault, 5);
    }
    match check_depth(0, &rounds[0].public_snapshot, &books[0]) {
        Err(e) => return Err(e),
        Ok(_) => {},
    }
    match check_depth(1, &rounds[1].public_snapshot, &books[1]) {
        Err(e) => return Err(e),
        Ok(_) => {},
    }
    match check_depth(2, &rounds[2].public_snapshot, &books[2]) {
        Err(e) => return Err(e),
        Ok(_) => {},
    }
    match check_depth(3, &rounds[3].public_snapshot, &books[3]) {
        Err(e) => return Err(e),
        Ok(_) => {},
    }
    check_depth_stability(
        &rounds[2].public_snapshot,
        &rounds[3].public_snapshot,
        &evidence.before_finality,
        &evidence.after_restart,
    )
}

} // verus!
