//! What a node, the private ingress and an operator get to see: what a stored
//! state must hold, who may ask what, and what a market's status adds up to.

use crate::bytes::{hex_text, hexadecimal, is_zero, text_bytes, Digest32};
use crate::claim_authorizations::{claim_search, claim_signer, claim_step};
use crate::corporate_journal_model::{CanonicalClaim, JournalBody, JournalView};
use crate::deployment_policy::{
    marker_fault, protected_faults, provisioning, DeploymentCryptoPolicy, MarkerFile, MarkerStep,
    PathState, ProtectedPath,
};
use crate::json::{json_field_count, json_field_present, json_number, json_text};
use crate::market_journal::MarketCompletedRound;
use crate::market_runtime::matched_slots;
use crate::market_worker::{
    expected_rounds, fills_of, notional_of, roots_of, rounds_stand, status_of, transactions_of,
    MarketStatus,
};
use crate::native_admission::{
    chain_permitted, ingress_action, ActionView, ApplicationReserveScope, IngressRequest, PeerRole,
};
use crate::native_reports::{claim_keys, hex_digest};
use crate::store_file::{payload_state, ParsedStore};
use crate::store_model::{round_key, StoreView};
use crate::text::text_after;
use crate::types::MpcSlotResult;
use vstd::prelude::*;

verus! {

/// A state that a node opens holds only what is its own: records filed under
/// their commitment and sealed to its party; rounds that are complete results of
/// its party; private heads of orders on record that point at the private state
/// of a completed and finalized round; and a chain whose length is its number of
/// places, with at most one open vote, for the next place.
pub proof fn lemma_opened_state_is_the_nodes_own(
    store: StoreView,
    party: u16,
    match_slots: u16,
    key: Seq<char>,
    sequence: u64,
)
    requires
        store.reopen_fault(party, match_slots) is None,
    ensures
        store.party == party,
        store.ordered_commitments.len() == store.ordering_sequence,
        (store.ordering_sequence == 0) == is_zero(store.ordering_head@),
        store.ordering_votes.dom().len() <= 1,
        store.ordering_votes.dom().contains(sequence) && store.ordering_sequence < u64::MAX ==> {
            &&& sequence == store.ordering_sequence + 1
            &&& !is_zero(store.ordering_votes[sequence].statement_digest@)
            &&& store.ordering_votes[sequence].expires_at > 0
        },
        store.records.dom().contains(key) ==> {
            let record = store.records[key];
            &&& key == record.manifest.commitment.key()
            &&& record.sealed.commitment == record.manifest.commitment
            &&& record.sealed.party == party
            &&& record.sealed_capability_key_share matches Some(share) ==> {
                &&& share.order_commitment == record.manifest.commitment
                &&& share.capability_commitment == record.manifest.settlement_capability_commitment
                &&& share.party == party
            }
        },
        store.completed_rounds.dom().contains(key) ==> {
            let receipt = store.completed_rounds[key];
            &&& key == round_key(receipt.round_id)
            &&& receipt.party == party
            &&& receipt.result.slots.len() == match_slots
            &&& receipt.public_output_sha256 == receipt.result.output_digest
            &&& !is_zero(receipt.private_state_sha256@)
        },
        store.private_heads.dom().contains(key) ==> {
            let head = store.private_heads[key];
            let round = round_key(head.round_id);
            &&& store.records.dom().contains(key)
            &&& head.wire_offset % 4 == 0
            &&& head.wire_offset <= 4 * match_slots
            &&& store.completed_rounds.dom().contains(round)
            &&& store.completed_rounds[round].private_state_sha256 == head.private_state_sha256
            &&& store.finalized_private_rounds.dom().contains(round)
            &&& store.finalized_private_rounds[round].transition_digest == head.transition_digest
            &&& store.finalized_private_rounds[round].canonical_receipt_digest
                == head.canonical_receipt_digest
            &&& store.finalized_private_rounds[round].canonical_height == head.canonical_height
        },
        store.finalized_private_rounds.dom().contains(key) ==> {
            &&& store.completed_rounds.dom().contains(key)
            &&& store.completed_rounds[key].public_output_sha256
                == store.finalized_private_rounds[key].public_output_sha256
            &&& store.finalized_private_rounds[key].canonical_height > 0
        },
{
    assert(store.reopens(party, match_slots));
}

/// A migration keeps everything but the receipts of completed rounds; of a store
/// from before ordering there are only the party, the generation and the records
/// to keep. A state of the current version is taken as it is.
pub proof fn lemma_migration_keeps_the_rest(number: u64, parsed: &ParsedStore)
    requires
        payload_state(Some(Some(number)), parsed) is Ok,
    ensures
        ({
            let (state, changed) = payload_state(Some(Some(number)), parsed)->Ok_0;
            &&& 2 <= number <= 5
            &&& changed == (number < 5)
            &&& state.version == 5
            &&& number == 5 ==> parsed.state is Some && state == (parsed.state->0)@
            &&& number < 5 ==> state.completed_rounds.dom() == Set::<Seq<char>>::empty()
            &&& number == 3 || number == 4 ==> parsed.state is Some && {
                let before = (parsed.state->0)@;
                &&& before.version == number
                &&& state.party == before.party
                &&& state.generation == before.generation
                &&& state.records == before.records
                &&& state.ordering_sequence == before.ordering_sequence
                &&& state.ordering_head == before.ordering_head
                &&& state.ordering_votes == before.ordering_votes
                &&& state.ordered_commitments == before.ordered_commitments
                &&& state.private_heads == before.private_heads
                &&& state.finalized_private_rounds == before.finalized_private_rounds
            }
            &&& number == 2 ==> parsed.legacy is Some && {
                let before = parsed.legacy->0;
                &&& state.party == before.party
                &&& state.generation == before.generation
                &&& state.records == before.records@
                &&& state.ordering_sequence == 0
                &&& is_zero(state.ordering_head@)
                &&& state.ordering_votes.dom() == Set::<u64>::empty()
                &&& state.ordered_commitments == Set::<Seq<char>>::empty()
                &&& state.private_heads.dom() == Set::<Seq<char>>::empty()
                &&& state.finalized_private_rounds.dom() == Set::<Seq<char>>::empty()
            }
        }),
{
    let (state, changed) = payload_state(Some(Some(number)), parsed)->Ok_0;
    assert(number == 2 ==> is_zero(state.ordering_head@));
    assert(number < 5 ==> state.completed_rounds.dom() =~= Set::<Seq<char>>::empty());
    assert(number == 2 ==> state.ordering_votes.dom() =~= Set::<u64>::empty());
    assert(number == 2 ==> state.private_heads.dom() =~= Set::<Seq<char>>::empty());
    assert(number == 2 ==> state.finalized_private_rounds.dom() =~= Set::<Seq<char>>::empty());
}

/// Who may write what on the chain: the market's two roles settle, a participant
/// redeems claims and releases its own expired reservation, and nobody else
/// writes anything.
pub proof fn lemma_each_role_writes_its_own(
    role: PeerRole,
    request: &IngressRequest,
    scope: ApplicationReserveScope,
)
    ensures
        ({
            let may = |method: Seq<char>|
                chain_permitted(role, method, request.release, scope) == Ok::<bool, Seq<char>>(
                    true,
                );
            let market = role is Coordinator || role is Settlement;
            &&& may("defmivm.issueApplicationNoteFill"@) == market
            &&& may("defmivm.issueApplicationNoteFillBatch"@) == market
            &&& may("defmivm.issueNoteClaimRedemption"@) == (role is Participant)
            &&& may("defmivm.issueApplicationNoteRelease"@) == (market || (role is Participant && (
            request.release matches Ok(release) && release.message_fault is None && release.scope
                == scope && release.reason is Expired && release.committee_public@.len() == 0
                && release.signature@.len() == 0)))
            &&& may("defmivm.stateRoot"@)
            &&& may("defmivm.note"@)
            &&& may("defmivm.applicationNoteReservation"@)
            &&& may("defmivm.txStatus"@)
        }),
{
    reveal_strlit("defmivm.issueApplicationNoteFill");
    reveal_strlit("defmivm.issueApplicationNoteFillBatch");
    reveal_strlit("defmivm.issueNoteClaimRedemption");
    reveal_strlit("defmivm.issueApplicationNoteRelease");
    reveal_strlit("defmivm.stateRoot");
    reveal_strlit("defmivm.asset");
    reveal_strlit("defmivm.note");
    reveal_strlit("defmivm.listNotes");
    reveal_strlit("defmivm.noteSerial");
    reveal_strlit("defmivm.creditFacility");
    reveal_strlit("defmivm.creditHold");
    reveal_strlit("defmivm.applicationNoteReservation");
    reveal_strlit("defmivm.noteClaim");
    reveal_strlit("defmivm.listNoteClaims");
    reveal_strlit("defmivm.txStatus");
    reveal_strlit("defmivm.network");
    assert("defmivm.issueApplicationNoteFill"@.len() == 32);
    assert("defmivm.issueApplicationNoteFillBatch"@.len() == 37);
    assert("defmivm.issueNoteClaimRedemption"@.len() == 32);
    assert("defmivm.issueApplicationNoteRelease"@.len() == 35);
    assert("defmivm.issueApplicationNoteFill"@[13] != "defmivm.issueNoteClaimRedemption"@[13]);
    assert("defmivm.applicationNoteReservation"@.len() == 34);
}

/// What the ingress grants: its scope to everybody; a reservation, or the recovery
/// of one, only to a participant and only of this deployment; and a chain request
/// only in a whole envelope and with a method that the caller's role may use.
pub proof fn lemma_ingress_grants_what_is_owed(
    role: PeerRole,
    request: &IngressRequest,
    scope: ApplicationReserveScope,
    id: u64,
    method: Seq<char>,
)
    ensures
        ({
            let granted = ingress_action(role, request, scope);
            let params = request.params@;
            &&& granted == Ok::<ActionView, Seq<char>>(ActionView::Scope) <==> request.method@
                == "scope"@ && json_field_count(params) == Some(0usize)
            &&& granted == Ok::<ActionView, Seq<char>>(ActionView::Reserve) <==> request.method@
                == "reserve"@ && role is Participant && (request.reserve matches Ok(asked) && asked
                == scope)
            &&& granted == Ok::<ActionView, Seq<char>>(ActionView::Recover) <==> request.method@
                == "recover_reservation"@ && role is Participant && (request.reserve matches Ok(
                asked,
            ) && asked == scope)
            &&& granted == Ok::<ActionView, Seq<char>>(ActionView::Chain { id, method })
                <==> {
                    &&& request.method@ == "chain"@
                    &&& json_field_count(params) == Some(4usize)
                    &&& json_text(params, "jsonrpc"@) == Some("2.0"@)
                    &&& json_number(params, "id"@) == Some(Some(id))
                    &&& json_text(params, "method"@) == Some(method)
                    &&& json_field_present(params, "params"@)
                    &&& chain_permitted(role, method, request.release, scope) == Ok::<
                        bool,
                        Seq<char>,
                    >(true)
                }
        }),
{
    reveal_strlit("scope");
    reveal_strlit("reserve");
    reveal_strlit("recover_reservation");
    reveal_strlit("chain");
    assert("scope"@.len() == 5 && "reserve"@.len() == 7 && "recover_reservation"@.len() == 19
        && "chain"@.len() == 5);
    assert("scope"@[0] != "chain"@[0]);
}

proof fn lemma_protected_absent(paths: Seq<ProtectedPath>, count: nat)
    requires
        count <= paths.len(),
    ensures
        protected_faults(paths, count) is None == (forall|i: int|
            0 <= i < count ==> (#[trigger] paths[i]).state is Absent),
    decreases count,
{
    if count > 0 {
        lemma_protected_absent(paths, (count - 1) as nat);
        if protected_faults(paths, count) is None {
            assert forall|i: int| 0 <= i < count implies (#[trigger] paths[i]).state is Absent by {
                if i == count - 1 {
                    assert(paths[count - 1].state is Absent);
                }
            }
        } else if forall|i: int| 0 <= i < count ==> (#[trigger] paths[i]).state is Absent {
            assert(paths[count - 1].state is Absent);
        }
    }
}

/// A marker is created exactly for a policy with an encoding where there is no
/// marker yet, nothing that it protects is there, and its directory is no link.
/// A marker that is there has to be a private regular file of at most 512 bytes
/// with exactly the policy's encoding.
pub proof fn lemma_marker_is_created_for_fresh_state(
    policy: &DeploymentCryptoPolicy,
    marker: MarkerFile,
    marker_symlink: bool,
    protected: Seq<ProtectedPath>,
    parent: Option<PathState>,
    expected: Seq<u8>,
)
    ensures
        provisioning(policy, None, marker_symlink, protected, parent) == Ok::<
            MarkerStep,
            Seq<char>,
        >(MarkerStep::Create) <==> {
            &&& policy.encoded is Some
            &&& !marker_symlink
            &&& forall|i: int| 0 <= i < protected.len() ==> (#[trigger] protected[i]).state is Absent
            &&& parent is Some
            &&& !(parent->0 is Symlink)
        },
        provisioning(policy, Some(marker), marker_symlink, protected, parent) != Ok::<
            MarkerStep,
            Seq<char>,
        >(MarkerStep::Create),
        marker_fault(&marker, expected) is None <==> {
            &&& !marker.symlink
            &&& marker.metadata_fault is None
            &&& marker.is_file
            &&& 0 < marker.length <= 512
            &&& marker.mode & 0o077 == 0
            &&& marker.content matches Ok(actual) && actual@ == expected
        },
{
    lemma_protected_absent(protected, protected.len());
}

proof fn lemma_fills_parts(
    a: Seq<MarketCompletedRound>,
    b: Seq<MarketCompletedRound>,
    count: nat,
)
    requires
        count <= a.len() + b.len(),
    ensures
        count <= a.len() ==> {
            &&& fills_of(a + b, count) == fills_of(a, count)
            &&& transactions_of(a + b, count) == transactions_of(a, count)
            &&& roots_of(a + b, count) == roots_of(a, count)
        },
        count >= a.len() ==> {
            let rest = (count - a.len()) as nat;
            &&& fills_of(a + b, count) == fills_of(a, a.len()) + fills_of(b, rest)
            &&& transactions_of(a + b, count) == transactions_of(a, a.len()) + transactions_of(
                b,
                rest,
            )
            &&& roots_of(a + b, count) == roots_of(a, a.len()) + roots_of(b, rest)
        },
    decreases count,
{
    if count > 0 {
        lemma_fills_parts(a, b, (count - 1) as nat);
        if count <= a.len() {
            assert((a + b)[count - 1] == a[count - 1]);
        } else {
            assert((a + b)[count - 1] == b[count - 1 - a.len()]);
        }
    }
    if count >= a.len() {
        let rest = (count - a.len()) as nat;
        assert(transactions_of(a + b, count) =~= transactions_of(a, a.len()) + transactions_of(
            b,
            rest,
        ));
        assert(roots_of(a + b, count) =~= roots_of(a, a.len()) + roots_of(b, rest));
    }
}

/// A market's status adds up over its rounds: the fills are counted, and the
/// transactions and roots listed in order, round by round. One round adds its
/// slots that traded, and its transaction and root where it has them.
pub proof fn lemma_status_adds_up(
    a: Seq<MarketCompletedRound>,
    b: Seq<MarketCompletedRound>,
    round: MarketCompletedRound,
    status: MarketStatus,
)
    ensures
        fills_of(a + b, (a + b).len()) == fills_of(a, a.len()) + fills_of(b, b.len()),
        transactions_of(a + b, (a + b).len()) == transactions_of(a, a.len()) + transactions_of(
            b,
            b.len(),
        ),
        roots_of(a + b, (a + b).len()) == roots_of(a, a.len()) + roots_of(b, b.len()),
        fills_of(seq![round], 1) == matched_slots(round.result.slots@).len(),
        round.transaction_id matches Some(id) ==> transactions_of(seq![round], 1) == seq![id@],
        round.transaction_id is None ==> transactions_of(seq![round], 1).len() == 0,
        round.canonical_root matches Some(root) ==> roots_of(seq![round], 1) == seq![
            hex_text(root@),
        ],
        round.canonical_root is None ==> roots_of(seq![round], 1).len() == 0,
        status_of(status, a) ==> {
            &&& status.completed_market_rounds == a.len()
            &&& status.completed_round_digests@.len() == a.len()
            &&& status.autonomously_settled_fills == fills_of(a, a.len())
            &&& forall|i: int|
                0 <= i < a.len() ==> (#[trigger] status.completed_round_digests@[i])@ == hex_text(
                    a[i].certificate.digest@,
                )
        },
{
    lemma_fills_parts(a, b, (a + b).len());
    assert((a + b).len() == a.len() + b.len());
    reveal_with_fuel(fills_of, 2);
    reveal_with_fuel(transactions_of, 2);
    reveal_with_fuel(roots_of, 2);
    if round.transaction_id is Some {
        assert(transactions_of(seq![round], 1) =~= seq![(round.transaction_id->0)@]);
    }
    if round.canonical_root is Some {
        assert(roots_of(seq![round], 1) =~= seq![hex_text((round.canonical_root->0)@)]);
    }
    if status_of(status, a) {
        let shown = crate::store::texts(status.completed_round_digests@);
        assert(shown.len() == a.len());
        assert forall|i: int| 0 <= i < a.len() implies (
        #[trigger] status.completed_round_digests@[i])@ == hex_text(a[i].certificate.digest@) by {
            assert(shown[i] == hex_text(a[i].certificate.digest@));
        }
    }
}

proof fn lemma_notional_parts(a: Seq<MpcSlotResult>, b: Seq<MpcSlotResult>, count: nat)
    requires
        count <= a.len() + b.len(),
    ensures
        count <= a.len() ==> notional_of(a + b, count) == notional_of(a, count),
        count >= a.len() && notional_of(a + b, count) is Some ==> {
            let rest = (count - a.len()) as nat;
            &&& notional_of(a, a.len()) is Some
            &&& notional_of(b, rest) is Some
            &&& notional_of(a + b, count)->0 == notional_of(a, a.len())->0 + notional_of(b, rest)->0
        },
    decreases count,
{
    if count > 0 {
        lemma_notional_parts(a, b, (count - 1) as nat);
        if count <= a.len() {
            assert((a + b)[count - 1] == a[count - 1]);
        } else {
            assert((a + b)[count - 1] == b[count - 1 - a.len()]);
        }
    }
}

/// The value of a round's fills adds up: a slot that traded is worth its price
/// times its quantity, and one that did not is worth nothing.
pub proof fn lemma_notional_adds_up(
    a: Seq<MpcSlotResult>,
    b: Seq<MpcSlotResult>,
    slot: MpcSlotResult,
)
    ensures
        notional_of(a + b, (a + b).len()) matches Some(both) ==> {
            &&& notional_of(a, a.len()) is Some
            &&& notional_of(b, b.len()) is Some
            &&& both == notional_of(a, a.len())->0 + notional_of(b, b.len())->0
            &&& both <= u64::MAX
        },
        !slot.matched ==> notional_of(seq![slot], 1) == Some(0nat),
        slot.matched && slot.trade_price * slot.trade_quantity <= u64::MAX ==> notional_of(
            seq![slot],
            1,
        ) == Some((slot.trade_price * slot.trade_quantity) as nat),
        slot.matched && slot.trade_price * slot.trade_quantity > u64::MAX ==> notional_of(
            seq![slot],
            1,
        ) is None,
{
    lemma_notional_parts(a, b, (a + b).len());
    assert((a + b).len() == a.len() + b.len());
    reveal_with_fuel(notional_of, 2);
    lemma_notional_bounded(a + b, (a + b).len());
    assert(slot.trade_price as nat * slot.trade_quantity as nat == slot.trade_price
        * slot.trade_quantity);
}

proof fn lemma_notional_bounded(slots: Seq<MpcSlotResult>, count: nat)
    requires
        count <= slots.len(),
    ensures
        notional_of(slots, count) matches Some(total) ==> total <= u64::MAX,
    decreases count,
{
    if count > 0 {
        lemma_notional_bounded(slots, (count - 1) as nat);
    }
}

/// An accepted market has three rounds, or four with public depth, of which none
/// but the last settled anything.
pub proof fn lemma_only_the_last_round_settles(rounds: Seq<MarketCompletedRound>, depth: bool)
    ensures
        rounds_stand(rounds, depth) == {
            &&& rounds.len() == (if depth {
                4int
            } else {
                3int
            })
            &&& forall|i: int|
                0 <= i < rounds.len() - 1 ==> (#[trigger] rounds[i]).transaction_id is None
        },
        expected_rounds(depth) == (if depth {
            4int
        } else {
            3int
        }),
{
}

/// The claim keys of a report are its fingerprints, one by one and in their order,
/// and all different.
pub proof fn lemma_claim_keys_are_the_fingerprints(
    fingerprints: Seq<Option<String>>,
    count: nat,
    at: int,
)
    requires
        0 <= at < count <= fingerprints.len(),
        claim_keys(fingerprints, count) is Ok,
    ensures
        ({
            let keys = claim_keys(fingerprints, count)->Ok_0;
            &&& keys.len() == count
            &&& hexadecimal(text_bytes((fingerprints[at]->0)@))
            &&& hex_digest((fingerprints[at]->0)@) == Some(keys[at])
        }),
    decreases count,
{
    let before = (count - 1) as nat;
    if at < before {
        lemma_claim_keys_are_the_fingerprints(fingerprints, before, at);
    } else if before > 0 {
        lemma_claim_keys_are_the_fingerprints(fingerprints, before, 0);
    }
}

/// The keys of the claim signers among the first `count` records, two of each, in
/// order.
pub open spec fn kept_fingerprints(journal: JournalView, count: nat) -> Seq<Digest32>
    decreases count,
{
    if count == 0 {
        Seq::empty()
    } else {
        let earlier = kept_fingerprints(journal, (count - 1) as nat);
        let key = journal.order[count - 1];
        match text_after(key, "claim-authorization:"@) {
            None => earlier,
            Some(_) => match journal.get(key) {
                Ok(Some(JournalBody::ClaimAuthorizations(stored))) => earlier.push(
                    stored.first.key_fingerprint,
                ).push(stored.second.key_fingerprint),
                _ => earlier,
            },
        }
    }
}

/// Whether a record's signer is the one that a claim names.
pub open spec fn signer_of(
    journal: JournalView,
    key: Seq<char>,
    second: bool,
    claim: &CanonicalClaim,
) -> bool {
    text_after(key, "claim-authorization:"@) is Some && (journal.get(key) matches Ok(
        Some(JournalBody::ClaimAuthorizations(stored)),
    ) && {
        let signer = if second {
            stored.second
        } else {
            stored.first
        };
        &&& signer.key_fingerprint == claim.key_fingerprint
        &&& signer.recipient_commitment == claim.recipient_commitment
        &&& signer.authorization@ == claim.authorization@
        &&& signer.restore_fault() is None
    })
}

proof fn lemma_search_among(
    journal: JournalView,
    claim: &CanonicalClaim,
    issue_version: u16,
    count: nat,
)
    requires
        count <= journal.order.len(),
        claim_search(journal, claim, issue_version, count) is Ok,
    ensures
        ({
            let search = claim_search(journal, claim, issue_version, count)->Ok_0;
            &&& search.seen == kept_fingerprints(journal, count)
            &&& search.seen.no_duplicates()
            &&& search.found is None ==> !search.seen.contains(claim.key_fingerprint)
            &&& search.found matches Some(place) ==> search.seen.contains(claim.key_fingerprint)
                && signer_of(journal, place.0, place.1, claim)
        }),
    decreases count,
{
    if count > 0 {
        let before = (count - 1) as nat;
        lemma_search_among(journal, claim, issue_version, before);
        let start = claim_search(journal, claim, issue_version, before)->Ok_0;
        let search = claim_search(journal, claim, issue_version, count)->Ok_0;
        let key = journal.order[before as int];
        if text_after(key, "claim-authorization:"@) is Some {
            let stored = journal.get(key)->Ok_0->Some_0->ClaimAuthorizations_0;
            let middle = claim_step(start, claim, key, &stored.first, false)->Ok_0;
            assert(claim_step(start, claim, key, &stored.first, false) is Ok);
            assert(middle.seen == start.seen.push(stored.first.key_fingerprint));
            assert(search.seen == middle.seen.push(stored.second.key_fingerprint));
            lemma_push_contains(start.seen, stored.first.key_fingerprint, claim.key_fingerprint);
            lemma_push_contains(middle.seen, stored.second.key_fingerprint, claim.key_fingerprint);
            lemma_push_distinct(start.seen, stored.first.key_fingerprint);
            lemma_push_distinct(middle.seen, stored.second.key_fingerprint);
        }
    }
}

proof fn lemma_push_contains(list: Seq<Digest32>, item: Digest32, wanted: Digest32)
    ensures
        list.push(item).contains(wanted) == (list.contains(wanted) || item == wanted),
{
    let longer = list.push(item);
    if list.contains(wanted) {
        let k = choose|k: int| 0 <= k < list.len() && list[k] == wanted;
        assert(longer[k] == wanted);
    }
    if item == wanted {
        assert(longer[list.len() as int] == wanted);
    }
    if longer.contains(wanted) && item != wanted {
        let k = choose|k: int| 0 <= k < longer.len() && longer[k] == wanted;
        assert(list[k] == wanted);
    }
}

proof fn lemma_push_distinct(list: Seq<Digest32>, item: Digest32)
    requires
        list.no_duplicates(),
        !list.contains(item),
    ensures
        list.push(item).no_duplicates(),
{
    let longer = list.push(item);
    assert forall|i: int, j: int|
        0 <= i < longer.len() && 0 <= j < longer.len() && i != j implies longer[i] != longer[j] by {
        if i == list.len() {
            assert(list[j] != item);
        } else if j == list.len() {
            assert(list[i] != item);
        }
    }
}

/// The signer of a claim is found only in a record that keeps it: with the claim's
/// own key, recipient and commitment, in a journal that keeps no key twice. Where
/// no record keeps the claim's key, none is found.
pub proof fn lemma_found_signer_is_the_claims(
    journal: JournalView,
    claim: &CanonicalClaim,
    issue_version: u16,
)
    requires
        claim_search(journal, claim, issue_version, journal.order.len()) is Ok,
    ensures
        ({
            let keys = kept_fingerprints(journal, journal.order.len());
            let answer = claim_signer(journal, claim, issue_version);
            &&& keys.no_duplicates()
            &&& answer matches Ok(place) ==> claim.checked is Ok && signer_of(
                journal,
                place.0,
                place.1,
                claim,
            )
            &&& claim.checked is Ok ==> answer is Ok == keys.contains(claim.key_fingerprint)
        }),
{
    lemma_search_among(journal, claim, issue_version, journal.order.len());
}

} // verus!
