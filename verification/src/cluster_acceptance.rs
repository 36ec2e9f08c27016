//! The acceptance of distributed matching: two orders through seven nodes, and
//! the exact public results.

use crate::bytes::{hex_encode, hex_text, sha256, sha256_digest, Digest32};
use crate::edge_client::{outcomes_agree, receipt_stands, same_outcome, EdgeAdmissionReceipt};
use crate::executor::{NodeExecutionReceipt, RoundPlan};
use crate::json::{json_check, json_error, json_text, json_text_field};
use crate::signatures::{ed25519_key_decodes, key_decodes};
use crate::text::{append_decimal, append_text, decimal_text};
use crate::text_map::text_equal;
use crate::types::{ClusterPublicConfig, MpcBatchResult, MpcSlotResult};
use vstd::prelude::*;

verus! {

/// The largest file that an acceptance run reads.
pub const MAX_FILE_BYTES: u64 = 4_194_304;

/// The files of an acceptance run.
pub struct AcceptancePaths {
    pub cluster: String,
    pub identity: String,
    pub maker: String,
    pub taker: String,
    pub contract: String,
    pub manifest: String,
    pub artifact: String,
}

/// The seven arguments, each behind its name.
pub open spec fn acceptance_args_named(args: Seq<String>) -> bool {
    &&& args.len() == 14
    &&& args[0]@ == "--cluster"@
    &&& args[2]@ == "--identity"@
    &&& args[4]@ == "--maker"@
    &&& args[6]@ == "--taker"@
    &&& args[8]@ == "--contract"@
    &&& args[10]@ == "--manifest"@
    &&& args[12]@ == "--artifact"@
}

/// Read the arguments of an acceptance run.
pub fn parse_args(args: &Vec<String>) -> (r: Result<AcceptancePaths, String>)
    ensures
        r is Ok == acceptance_args_named(args@),
        r matches Ok(paths) ==> paths.cluster@ == args@[1]@ && paths.identity@ == args@[3]@
            && paths.maker@ == args@[5]@ && paths.taker@ == args@[7]@ && paths.contract@
            == args@[9]@ && paths.manifest@ == args@[11]@ && paths.artifact@ == args@[13]@,
        r matches Err(e) ==> e@
            == "usage: oclob-cluster-e2e --cluster PATH --identity PATH --maker PATH --taker PATH --contract PATH --manifest PATH --artifact PATH"@,
{
    if args.len() != 14 || !text_equal(args[0].as_str(), "--cluster") || !text_equal(
        args[2].as_str(),
        "--identity",
    ) || !text_equal(args[4].as_str(), "--maker") || !text_equal(args[6].as_str(), "--taker")
        || !text_equal(args[8].as_str(), "--contract") || !text_equal(
        args[10].as_str(),
        "--manifest",
    ) || !text_equal(args[12].as_str(), "--artifact") {
        return Err(
            "usage: oclob-cluster-e2e --cluster PATH --identity PATH --maker PATH --taker PATH --contract PATH --manifest PATH --artifact PATH".to_owned(),
        );
    }
    Ok(
        AcceptancePaths {
            cluster: args[1].clone(),
            identity: args[3].clone(),
            maker: args[5].clone(),
            taker: args[7].clone(),
            contract: args[9].clone(),
            manifest: args[11].clone(),
            artifact: args[13].clone(),
        },
    )
}

/// Check a file before it is read.
pub fn check_bounded_file(symlink: bool, is_file: bool, length: u64) -> (r: Result<(), String>)
    ensures
        r is Ok == (!symlink && is_file && 0 < length <= MAX_FILE_BYTES),
        r matches Err(e) ==> e@ == "input path is unsafe"@,
{
    if symlink || !is_file || length == 0 || length > MAX_FILE_BYTES {
        return Err("input path is unsafe".to_owned());
    }
    Ok(())
}

/// Check what was read of a file whose length was checked before.
pub fn check_read_length(length: u64) -> (r: Result<(), String>)
    ensures
        r is Ok == (length <= MAX_FILE_BYTES),
        r matches Err(e) ==> e@ == "input path exceeds the maximum size"@,
{
    if length > MAX_FILE_BYTES {
        return Err("input path exceeds the maximum size".to_owned());
    }
    Ok(())
}

/// The contract and the manifest that a run is bound to.
pub struct ResearchBinding {
    pub contract_sha256: String,
    pub manifest_id: String,
}

/// Why a contract and a manifest are not the approved pair, if they are not.
pub open spec fn binding_fault(contract: Seq<u8>, manifest: Seq<u8>) -> Option<Seq<char>> {
    let id = json_text(contract, "contract_id"@);
    if json_error(contract) is Some {
        Some("distributed research contract is malformed"@)
    } else if json_error(manifest) is Some {
        json_error(manifest)
    } else if id is None {
        Some("distributed research contract has no id"@)
    } else if json_text(manifest, "manifest_id"@) is None {
        Some("distributed research manifest has no id"@)
    } else if json_text(manifest, "contract_sha256"@) is None {
        Some("distributed research manifest has no contract digest"@)
    } else if id != Some("oclob-distributed-edge-mpc-v1"@) || json_text(manifest, "contract_id"@)
        != id || json_text(manifest, "contract_sha256"@) != Some(hex_text(sha256(contract)))
        || json_text(manifest, "stage"@) != Some("RUN_ROUGH_END_TO_END_AND_OBSERVE_FINAL_METRIC"@)
        || json_text(manifest, "primary_metric"@) != Some("complete_distributed_matching_path"@) {
        Some("distributed research contract and manifest are not the approved pair"@)
    } else {
        None
    }
}

fn field_is(text: &[u8], field: &str, expected: &str) -> (same: bool)
    ensures
        same == (json_text(text@, field@) == Some(expected@)),
{
    match json_text_field(text, field) {
        Some(value) => text_equal(value.as_str(), expected),
        None => false,
    }
}

/// Bind a run to its contract and manifest.
pub fn validate_research_binding(contract: &[u8], manifest: &[u8]) -> (r: Result<
    ResearchBinding,
    String,
>)
    ensures
        r is Ok == binding_fault(contract@, manifest@) is None,
        r matches Err(e) ==> Some(e@) == binding_fault(contract@, manifest@),
        r matches Ok(binding) ==> binding.contract_sha256@ == hex_text(sha256(contract@)) && Some(
            binding.manifest_id@,
        ) == json_text(manifest@, "manifest_id"@),
{
    if json_check(contract).is_err() {
        return Err("distributed research contract is malformed".to_owned());
    }
    match json_check(manifest) {
        Err(e) => return Err(e),
        Ok(_) => {},
    }
    let contract_id = match json_text_field(contract, "contract_id") {
        None => return Err("distributed research contract has no id".to_owned()),
        Some(id) => id,
    };
    let manifest_id = match json_text_field(manifest, "manifest_id") {
        None => return Err("distributed research manifest has no id".to_owned()),
        Some(id) => id,
    };
    let expected = match json_text_field(manifest, "contract_sha256") {
        None => return Err("distributed research manifest has no contract digest".to_owned()),
        Some(digest) => digest,
    };
    let digest = sha256_digest(contract);
    let actual = hex_encode(&digest);
    if !text_equal(contract_id.as_str(), "oclob-distributed-edge-mpc-v1") || !field_is(
        manifest,
        "contract_id",
        contract_id.as_str(),
    ) || !text_equal(expected.as_str(), actual.as_str()) || !field_is(
        manifest,
        "stage",
        "RUN_ROUGH_END_TO_END_AND_OBSERVE_FINAL_METRIC",
    ) || !field_is(manifest, "primary_metric", "complete_distributed_matching_path") {
        return Err(
            "distributed research contract and manifest are not the approved pair".to_owned(),
        );
    }
    Ok(ResearchBinding { contract_sha256: expected, manifest_id })
}

/// Check that two handoffs are of two orders in this market.
pub fn check_two_orders(
    cluster: &ClusterPublicConfig,
    maker: &EdgeAdmissionReceipt,
    taker: &EdgeAdmissionReceipt,
) -> (r: Result<(), String>)
    ensures
        r is Ok == (maker.manifest.market_id@ == cluster.market_id@ && taker.manifest.market_id@
            == cluster.market_id@ && maker.manifest.commitment != taker.manifest.commitment),
        r matches Err(e) ==> e@
            == "edge handoff does not describe two distinct orders in this market"@,
{
    let first = maker.commitment();
    let second = taker.commitment();
    if !text_equal(maker.manifest.market_id.as_str(), cluster.market_id.as_str()) || !text_equal(
        taker.manifest.market_id.as_str(),
        cluster.market_id.as_str(),
    ) || first.same(&second) {
        return Err(
            "edge handoff does not describe two distinct orders in this market".to_owned(),
        );
    }
    Ok(())
}

/// What happens after a node failed to execute a plan.
pub enum ExecutionRetry {
    Again,
    GiveUp(String),
}

/// The report of a node that gave no receipt.
pub open spec fn execution_report(party: u16, expired: bool, first: Seq<char>, last: Seq<char>) -> Seq<
    char,
> {
    "node "@ + decimal_text(party as nat) + (if expired {
        " execution expired; first error: "@
    } else {
        " execution failed; first error: "@
    }) + first + "; last error: "@ + last
}

/// Whether to ask a node again: before the deadline, and while the plan lives.
/// `first` is the first error of the node, which after a failed last attempt
/// may not have been noted.
pub fn retry_node(
    party: u16,
    before_deadline: bool,
    now: u64,
    expires_at: u64,
    first: Option<&str>,
    last: &str,
) -> (step: ExecutionRetry)
    ensures
        ({
            let told = match first {
                Some(text) => text@,
                None => if before_deadline {
                    last@
                } else {
                    "unknown"@
                },
            };
            if before_deadline && now < expires_at {
                step is Again
            } else {
                step matches ExecutionRetry::GiveUp(text) && text@ == execution_report(
                    party,
                    before_deadline,
                    told,
                    last@,
                )
            }
        }),
{
    if before_deadline && now < expires_at {
        return ExecutionRetry::Again;
    }
    let mut text: String = "node ".to_owned();
    append_decimal(&mut text, party as u64);
    if before_deadline {
        append_text(&mut text, " execution expired; first error: ");
    } else {
        append_text(&mut text, " execution failed; first error: ");
    }
    match first {
        Some(told) => append_text(&mut text, told),
        None => if before_deadline {
            append_text(&mut text, last)
        } else {
            append_text(&mut text, "unknown")
        },
    }
    append_text(&mut text, "; last error: ");
    append_text(&mut text, last);
    ExecutionRetry::GiveUp(text)
}

/// One node's outcome: its receipt or its report, or nothing where its worker
/// panicked.
pub open spec fn worker_fault(reply: Option<Result<NodeExecutionReceipt, String>>) -> Option<
    Seq<char>,
> {
    match reply {
        None => Some("node execution worker panicked"@),
        Some(Err(text)) => Some(text@),
        Some(Ok(_)) => None,
    }
}

/// The first fault from `start` on.
pub open spec fn workers_fault(
    replies: Seq<Option<Result<NodeExecutionReceipt, String>>>,
    start: int,
) -> Option<Seq<char>>
    decreases replies.len() - start,
{
    if start >= replies.len() {
        None
    } else if worker_fault(replies[start]) is Some {
        worker_fault(replies[start])
    } else {
        workers_fault(replies, start + 1)
    }
}

/// Gather the receipts of all nodes, in the order of the nodes.
pub fn execute_all(replies: Vec<Option<Result<NodeExecutionReceipt, String>>>) -> (r: Result<
    Vec<NodeExecutionReceipt>,
    String,
>)
    ensures
        r is Ok == workers_fault(replies@, 0) is None,
        r matches Err(e) ==> Some(e@) == workers_fault(replies@, 0),
        r matches Ok(receipts) ==> receipts@.len() == replies@.len() && forall|i: int|
            0 <= i < replies@.len() ==> replies@[i] == Some(
                Ok::<NodeExecutionReceipt, String>(#[trigger] receipts@[i]),
            ),
{
    let mut receipts: Vec<NodeExecutionReceipt> = Vec::new();
    let ghost all = replies@;
    let mut rest = replies;
    let ghost mut done: int = 0;
    while rest.len() > 0
        invariant
            all == replies@,
            0 <= done <= all.len(),
            rest@ == all.skip(done),
            receipts@.len() == done,
            workers_fault(all, done) == workers_fault(all, 0),
            forall|i: int|
                0 <= i < done ==> all[i] == Some(
                    Ok::<NodeExecutionReceipt, String>(#[trigger] receipts@[i]),
                ),
        decreases rest@.len(),
    {
        assert(rest@[0] == all[done]);
        let reply = rest.remove(0);
        match reply {
            None => return Err("node execution worker panicked".to_owned()),
            Some(Err(text)) => return Err(text),
            Some(Ok(receipt)) => receipts.push(receipt),
        }
        proof {
            done = done + 1;
            assert(rest@ =~= all.skip(done));
        }
    }
    assert(done == all.len());
    Ok(receipts)
}

/// Why the receipts of the first `count` nodes do not stand, if they do not.
pub open spec fn receipts_fault(
    cluster: &ClusterPublicConfig,
    plan: &RoundPlan,
    receipts: Seq<NodeExecutionReceipt>,
    program: Seq<u8>,
    match_slots: u16,
    count: nat,
) -> Option<Seq<char>>
    decreases count,
{
    if count == 0 {
        None
    } else {
        match receipts_fault(cluster, plan, receipts, program, match_slots, (count - 1) as nat) {
            Some(text) => Some(text),
            None => if !ed25519_key_decodes(cluster.nodes@[count - 1].receipt_verifying_key@) {
                Some("node receipt key is invalid"@)
            } else if !receipt_stands(cluster, plan, receipts, program, match_slots, count - 1) {
                Some("distributed party receipt is invalid"@)
            } else {
                None
            },
        }
    }
}

proof fn lemma_receipts_fault_stays(
    cluster: &ClusterPublicConfig,
    plan: &RoundPlan,
    receipts: Seq<NodeExecutionReceipt>,
    program: Seq<u8>,
    match_slots: u16,
    at: nat,
    count: nat,
)
    requires
        at <= count,
        receipts_fault(cluster, plan, receipts, program, match_slots, at) is Some,
    ensures
        receipts_fault(cluster, plan, receipts, program, match_slots, count) == receipts_fault(
            cluster,
            plan,
            receipts,
            program,
            match_slots,
            at,
        ),
    decreases count,
{
    if at < count {
        lemma_receipts_fault_stays(
            cluster,
            plan,
            receipts,
            program,
            match_slots,
            at,
            (count - 1) as nat,
        );
    }
}

/// Why the nodes' receipts show no agreed result, if they show none.
pub open spec fn agreement_fault(
    cluster: &ClusterPublicConfig,
    plan: &RoundPlan,
    receipts: Seq<NodeExecutionReceipt>,
    program: Seq<u8>,
    match_slots: u16,
) -> Option<Seq<char>> {
    let fault = receipts_fault(cluster, plan, receipts, program, match_slots, receipts.len());
    if receipts.len() != cluster.nodes@.len() {
        Some("not all seven nodes returned a receipt"@)
    } else if fault is Some {
        fault
    } else if receipts.len() == 0 {
        Some("cluster returned no receipts"@)
    } else if !(forall|i: int|
        0 <= i < receipts.len() ==> same_outcome(&#[trigger] receipts[i], &receipts[0])) {
        Some("the seven parties did not agree on code and output"@)
    } else {
        None
    }
}

/// The result that all nodes agree on.
pub fn agreed_result(
    cluster: &ClusterPublicConfig,
    plan: &RoundPlan,
    receipts: &Vec<NodeExecutionReceipt>,
    program: &Digest32,
    match_slots: u16,
) -> (r: Result<MpcBatchResult, String>)
    ensures
        ({
            let fault = agreement_fault(cluster, plan, receipts@, program@, match_slots);
            &&& r is Ok == fault is None
            &&& r matches Err(e) ==> Some(e@) == fault
            &&& r matches Ok(result) ==> result@ == receipts@[0].result@
        }),
{
    if receipts.len() != cluster.nodes.len() {
        return Err("not all seven nodes returned a receipt".to_owned());
    }
    let mut i: usize = 0;
    while i < receipts.len()
        invariant
            receipts@.len() == cluster.nodes@.len(),
            i <= receipts@.len(),
            receipts_fault(cluster, plan, receipts@, program@, match_slots, i as nat) is None,
        decreases receipts@.len() - i,
    {
        let key = &cluster.nodes[i].receipt_verifying_key;
        let party: u16 = (i % 65536) as u16;
        if !key_decodes(key) {
            proof {
                lemma_receipts_fault_stays(
                    cluster,
                    plan,
                    receipts@,
                    program@,
                    match_slots,
                    (i + 1) as nat,
                    receipts@.len(),
                );
            }
            return Err("node receipt key is invalid".to_owned());
        }
        match receipts[i].verify(plan, party, key, program, match_slots) {
            Err(e) => {
                proof {
                    lemma_receipts_fault_stays(
                        cluster,
                        plan,
                        receipts@,
                        program@,
                        match_slots,
                        (i + 1) as nat,
                        receipts@.len(),
                    );
                }
                return Err(e.message());
            },
            Ok(_) => {},
        }
        i += 1;
    }
    if receipts.len() == 0 {
        return Err("cluster returned no receipts".to_owned());
    }
    if !outcomes_agree(receipts) {
        return Err("the seven parties did not agree on code and output".to_owned());
    }
    Ok(receipts[0].result.copy())
}

/// A slot in which nothing happened.
pub open spec fn slot_empty(slot: MpcSlotResult) -> bool {
    !slot.matched && slot.trade_price == 0 && slot.trade_quantity == 0
}

fn empty_from(slots: &Vec<MpcSlotResult>, start: usize) -> (empty: bool)
    requires
        start <= slots@.len(),
    ensures
        empty == (forall|i: int| start <= i < slots@.len() ==> slot_empty(#[trigger] slots@[i])),
{
    let mut i: usize = start;
    while i < slots.len()
        invariant
            start <= i <= slots@.len(),
            forall|j: int| start <= j < i ==> slot_empty(#[trigger] slots@[j]),
        decreases slots@.len() - i,
    {
        let slot = slots[i];
        if slot.matched || slot.trade_price != 0 || slot.trade_quantity != 0 {
            assert(!slot_empty(slots@[i as int]));
            return false;
        }
        i += 1;
    }
    true
}

/// Check the public result of the maker's arrival: nothing trades, and all
/// sixty rest.
pub fn validate_maker_result(result: &MpcBatchResult, match_slots: u16) -> (r: Result<(), String>)
    ensures
        r is Ok == (result.slots@.len() == match_slots && result.arriving_remaining == 60
            && forall|i: int|
            0 <= i < result.slots@.len() ==> slot_empty(#[trigger] result.slots@[i])),
        r matches Err(e) ==> e@
            == "maker resting transition produced an unexpected public result"@,
{
    if result.slots.len() != match_slots as usize || !empty_from(&result.slots, 0)
        || result.arriving_remaining != 60 {
        return Err("maker resting transition produced an unexpected public result".to_owned());
    }
    Ok(())
}

/// Check the public result of the taker's arrival: forty at one hundred in the
/// first slot, nothing else, and nothing left.
pub fn validate_taker_result(result: &MpcBatchResult, match_slots: u16) -> (r: Result<(), String>)
    requires
        match_slots > 0,
    ensures
        r is Ok == (result.slots@.len() == match_slots && result.slots@[0].matched
            && result.slots@[0].trade_price == 100 && result.slots@[0].trade_quantity == 40
            && result.arriving_remaining == 0 && forall|i: int|
            1 <= i < result.slots@.len() ==> slot_empty(#[trigger] result.slots@[i])),
        r matches Err(e) ==> e@ == "taker transition produced an unexpected public result"@,
{
    if result.slots.len() != match_slots as usize || !result.slots[0].matched
        || result.slots[0].trade_price != 100 || result.slots[0].trade_quantity != 40
        || result.arriving_remaining != 0 || !empty_from(&result.slots, 1) {
        return Err("taker transition produced an unexpected public result".to_owned());
    }
    Ok(())
}

/// Check that a retried round gave the same receipts.
pub fn check_round_retry(
    first: &Vec<NodeExecutionReceipt>,
    retried: &Vec<NodeExecutionReceipt>,
) -> (r: Result<(), String>)
    ensures
        r is Ok == (first@.len() == retried@.len() && forall|i: int|
            0 <= i < first@.len() ==> (#[trigger] first@[i])@ == retried@[i]@),
        r matches Err(e) ==> e@ == "idempotent round retry did not return identical receipts"@,
{
    if first.len() != retried.len() {
        return Err("idempotent round retry did not return identical receipts".to_owned());
    }
    let mut i: usize = 0;
    while i < first.len()
        invariant
            i <= first@.len(),
            first@.len() == retried@.len(),
            forall|j: int| 0 <= j < i ==> (#[trigger] first@[j])@ == retried@[j]@,
        decreases first@.len() - i,
    {
        if !first[i].same(&retried[i]) {
            assert(first@[i as int]@ != retried@[i as int]@);
            return Err("idempotent round retry did not return identical receipts".to_owned());
        }
        i += 1;
    }
    Ok(())
}

} // verus!
