//! Matching rounds: the signed plan, the parties' receipts, the runtime
//! configuration and the private state that a round leaves behind.

use crate::bytes::{
    big_endian, bytes_end_with, bytes_equal, bytes_start_with, decimal, digest_equal,
    digest_is_zero, ends_with, is_zero, length_prefixed, push_all, push_big_endian, push_decimal,
    push_text, push_u16, push_u64, put_bytes, sha256, sha256_digest, starts_with, text_bytes,
    Digest32,
};
use crate::lines::{line_views, lines_of, split_lines};
use crate::signatures::{
    ed25519_accepts, ed25519_public, ed25519_signature, public_key, sign, verify_strict,
};
use crate::text::{append_signed, signed_text};
use crate::text_map::text_equal;
use crate::types::{
    commitment_position, commitments_distinct, BatchView, MpcBatchResult, MpcSlotResult,
    OrderCertificate, OrderCommitment, MPC_PARTIES,
};
use vstd::prelude::*;

verus! {

const VERSION: u16 = 1;

const PROOF_SLOT_METADATA_VERSION: u16 = 2;

/// The longest life of a round plan, in seconds.
pub const MAX_PLAN_SECONDS: u64 = 300;

#[derive(Clone, Debug, PartialEq, Eq)]
pub enum PartyExecutionError {
    Plan,
    Receipt,
    Config,
    ProgramMismatch,
    PartyBinding,
    Replay,
    PartyFailed(i32),
    Timeout,
    Output,
    UnsafePath,
    Node(String),
    Mpc(String),
    Io(String),
}

impl PartyExecutionError {
    pub open spec fn text(&self) -> Seq<char> {
        match *self {
            PartyExecutionError::Plan => "distributed round plan is invalid"@,
            PartyExecutionError::Receipt => "distributed party receipt is invalid"@,
            PartyExecutionError::Config => "party runtime configuration is invalid"@,
            PartyExecutionError::ProgramMismatch =>
                "compiled MP-SPDZ program does not match the canonical source"@,
            PartyExecutionError::PartyBinding => "party input belongs to another node"@,
            PartyExecutionError::Replay => "round identifier was already used"@,
            PartyExecutionError::PartyFailed(status) => "MP-SPDZ party exited with status "@
                + signed_text(status as int),
            PartyExecutionError::Timeout => "MP-SPDZ party timed out"@,
            PartyExecutionError::Output => "MP-SPDZ public output is malformed"@,
            PartyExecutionError::UnsafePath => "unsafe runtime path or file"@,
            PartyExecutionError::Node(text) => text@,
            PartyExecutionError::Mpc(text) => text@,
            PartyExecutionError::Io(text) => text@,
        }
    }

    /// The text that a caller reports.
    pub fn message(&self) -> (text: String)
        ensures
            text@ == self.text(),
    {
        match self {
            PartyExecutionError::Plan => "distributed round plan is invalid".to_owned(),
            PartyExecutionError::Receipt => "distributed party receipt is invalid".to_owned(),
            PartyExecutionError::Config => "party runtime configuration is invalid".to_owned(),
            PartyExecutionError::ProgramMismatch =>
            "compiled MP-SPDZ program does not match the canonical source".to_owned(),
            PartyExecutionError::PartyBinding => "party input belongs to another node".to_owned(),
            PartyExecutionError::Replay => "round identifier was already used".to_owned(),
            PartyExecutionError::PartyFailed(status) => {
                let mut text: String = "MP-SPDZ party exited with status ".to_owned();
                append_signed(&mut text, *status);
                text
            },
            PartyExecutionError::Timeout => "MP-SPDZ party timed out".to_owned(),
            PartyExecutionError::Output => "MP-SPDZ public output is malformed".to_owned(),
            PartyExecutionError::UnsafePath => "unsafe runtime path or file".to_owned(),
            PartyExecutionError::Node(text) => text.clone(),
            PartyExecutionError::Mpc(text) => text.clone(),
            PartyExecutionError::Io(text) => text.clone(),
        }
    }
}

/// Public, coordinator-signed input to a matching round. It contains only the
/// previously fixed order commitments and their certified sequence.
#[derive(Clone, Debug, PartialEq, Eq)]
pub struct RoundPlan {
    pub version: u16,
    pub market_id: String,
    pub sequence: u64,
    pub ordering_certificate: OrderCertificate,
    pub resting: Vec<OrderCommitment>,
    pub arriving: OrderCommitment,
    pub issued_at: u64,
    pub expires_at: u64,
    pub coordinator: Digest32,
    pub round_id: Digest32,
    pub signature: Vec<u8>,
}

/// The bytes of a list of commitments, one after the other.
pub open spec fn commitment_bytes(list: Seq<OrderCommitment>) -> Seq<u8>
    decreases list.len(),
{
    if list.len() == 0 {
        Seq::empty()
    } else {
        commitment_bytes(list.drop_last()) + list.last().0@
    }
}

pub fn push_commitments(out: &mut Vec<u8>, list: &[OrderCommitment])
    ensures
        final(out)@ == old(out)@ + commitment_bytes(list@),
{
    let mut i: usize = 0;
    assert(list@.take(0) =~= Seq::<OrderCommitment>::empty());
    assert(out@ =~= old(out)@ + commitment_bytes(list@.take(0)));
    while i < list.len()
        invariant
            i <= list@.len(),
            out@ == old(out)@ + commitment_bytes(list@.take(i as int)),
        decreases list@.len() - i,
    {
        push_all(out, &list[i].0);
        i += 1;
        assert(list@.take(i as int).drop_last() =~= list@.take(i - 1));
        assert(list@.take(i as int).last() == list@[i - 1]);
        assert(out@ =~= old(out)@ + commitment_bytes(list@.take(i as int)));
    }
    assert(list@.take(i as int) =~= list@);
}

impl RoundPlan {
    /// What the round identifier is the hash of: every field that the
    /// coordinator decides.
    pub open spec fn unsigned_bytes(&self) -> Seq<u8> {
        text_bytes("OCLOB:DISTRIBUTED-ROUND-PLAN:v1"@) + big_endian(self.version as nat, 2)
            + length_prefixed(text_bytes(self.market_id@)) + big_endian(self.sequence as nat, 8)
            + self.ordering_certificate.digest@ + big_endian(self.resting@.len(), 2)
            + commitment_bytes(self.resting@) + self.arriving.0@ + big_endian(
            self.issued_at as nat,
            8,
        ) + big_endian(self.expires_at as nat, 8) + self.coordinator@
    }

    /// What the coordinator signs.
    pub open spec fn signed_bytes(&self) -> Seq<u8> {
        text_bytes("OCLOB:DISTRIBUTED-ROUND-PLAN:v1"@) + self.round_id@
    }

    /// The plan that a coordinator makes of a certificate and a resting book.
    pub open spec fn signed_from(
        &self,
        certificate: &OrderCertificate,
        resting: Seq<OrderCommitment>,
        issued_at: u64,
        expires_at: u64,
        secret: Seq<u8>,
    ) -> bool {
        &&& self.version == 1
        &&& self.market_id@ == certificate.market_id@
        &&& self.sequence == certificate.sequence
        &&& self.ordering_certificate@ == certificate@
        &&& self.resting@ == resting
        &&& self.arriving == certificate.commitment
        &&& self.issued_at == issued_at
        &&& self.expires_at == expires_at
        &&& self.coordinator@ == ed25519_public(secret)
        &&& self.round_id@ == sha256(self.unsigned_bytes())
        &&& self.signature@ == ed25519_signature(secret, self.signed_bytes())
    }

    /// A plan that may be executed at `now` by nodes with `match_slots` slots.
    pub open spec fn valid_at(&self, now: u64, match_slots: u16) -> bool {
        &&& self.version == 1
        &&& 0 < self.market_id@.len()
        &&& text_bytes(self.market_id@).len() <= 64
        &&& self.sequence != 0
        &&& self.ordering_certificate.market_id@ == self.market_id@
        &&& self.ordering_certificate.sequence == self.sequence
        &&& self.ordering_certificate.commitment == self.arriving
        &&& self.expires_at <= self.ordering_certificate.expires_at
        &&& !is_zero(self.coordinator@)
        &&& !is_zero(self.arriving.0@)
        &&& self.resting@.len() <= match_slots
        &&& !self.resting@.contains(self.arriving)
        &&& self.resting@.no_duplicates()
        &&& self.issued_at <= now <= self.expires_at
        &&& self.expires_at - self.issued_at <= MAX_PLAN_SECONDS
        &&& self.round_id@ == sha256(self.unsigned_bytes())
        &&& ed25519_accepts(self.coordinator@, self.signed_bytes(), self.signature@)
    }

    fn unsigned_body(&self) -> (body: Vec<u8>)
        ensures
            body@ == self.unsigned_bytes(),
    {
        let mut body: Vec<u8> = Vec::new();
        push_text(&mut body, "OCLOB:DISTRIBUTED-ROUND-PLAN:v1");
        assert(body@ =~= text_bytes("OCLOB:DISTRIBUTED-ROUND-PLAN:v1"@));
        push_u16(&mut body, self.version);
        put_bytes(&mut body, self.market_id.as_str().as_bytes());
        push_u64(&mut body, self.sequence);
        push_all(&mut body, &self.ordering_certificate.digest);
        push_big_endian(&mut body, self.resting.len() as u64, 2);
        push_commitments(&mut body, self.resting.as_slice());
        push_all(&mut body, &self.arriving.0);
        push_u64(&mut body, self.issued_at);
        push_u64(&mut body, self.expires_at);
        push_all(&mut body, &self.coordinator);
        body
    }

    fn signature_body(&self) -> (body: Vec<u8>)
        ensures
            body@ == self.signed_bytes(),
    {
        let mut body: Vec<u8> = Vec::new();
        push_text(&mut body, "OCLOB:DISTRIBUTED-ROUND-PLAN:v1");
        assert(body@ =~= text_bytes("OCLOB:DISTRIBUTED-ROUND-PLAN:v1"@));
        push_all(&mut body, &self.round_id);
        body
    }

    pub fn verify(&self, now: u64, match_slots: u16) -> (r: Result<(), PartyExecutionError>)
        ensures
            r is Ok == self.valid_at(now, match_slots),
            r matches Err(e) ==> e is Plan,
    {
        if self.version != VERSION || self.market_id.as_str().is_empty()
            || self.market_id.as_str().as_bytes().len() > 64 || self.sequence == 0 || !text_equal(
            self.ordering_certificate.market_id.as_str(),
            self.market_id.as_str(),
        ) || self.ordering_certificate.sequence != self.sequence
            || !self.ordering_certificate.commitment.same(&self.arriving) || self.expires_at
            > self.ordering_certificate.expires_at || digest_is_zero(&self.coordinator)
            || digest_is_zero(&self.arriving.0) || self.resting.len() > match_slots as usize
            || commitment_position(self.resting.as_slice(), &self.arriving).is_some()
            || self.issued_at > now || now > self.expires_at || self.expires_at - self.issued_at
            > MAX_PLAN_SECONDS {
            return Err(PartyExecutionError::Plan);
        }
        let body = self.unsigned_body();
        let derived = sha256_digest(body.as_slice());
        if !digest_equal(&self.round_id, &derived) {
            return Err(PartyExecutionError::Plan);
        }
        if !commitments_distinct(self.resting.as_slice()) {
            return Err(PartyExecutionError::Plan);
        }
        let signed = self.signature_body();
        if !verify_strict(&self.coordinator, signed.as_slice(), self.signature.as_slice()) {
            return Err(PartyExecutionError::Plan);
        }
        Ok(())
    }

    /// Verify the coordinator signature and the complete quorum certificate.
    /// `quorum` is the outcome of checking the certificate's votes against the
    /// pinned ordering identities: a digest alone is deliberately insufficient.
    pub fn verify_ordering(&self, quorum: &Result<(), String>, now: u64, match_slots: u16) -> (r:
        Result<(), PartyExecutionError>)
        ensures
            r is Ok == (self.valid_at(now, match_slots) && quorum is Ok),
            r matches Err(e) ==> e is Plan,
    {
        if self.verify(now, match_slots).is_err() {
            return Err(PartyExecutionError::Plan);
        }
        match quorum {
            Ok(_) => Ok(()),
            Err(_) => Err(PartyExecutionError::Plan),
        }
    }

    /// Build and sign the plan that executes a certified order against the
    /// resting book.
    pub fn sign(
        ordering_certificate: OrderCertificate,
        resting: Vec<OrderCommitment>,
        issued_at: u64,
        expires_at: u64,
        coordinator: &Digest32,
        match_slots: u16,
    ) -> (r: Result<RoundPlan, PartyExecutionError>)
        ensures
            r matches Ok(plan) ==> plan.signed_from(
                &ordering_certificate,
                resting@,
                issued_at,
                expires_at,
                coordinator@,
            ) && plan.valid_at(issued_at, match_slots),
            r matches Err(e) ==> e is Plan,
            r is Err ==> forall|plan: RoundPlan|
                plan.signed_from(
                    &ordering_certificate,
                    resting@,
                    issued_at,
                    expires_at,
                    coordinator@,
                ) ==> !(#[trigger] plan.valid_at(issued_at, match_slots)),
    {
        let market_id = ordering_certificate.market_id.clone();
        let sequence: u64 = ordering_certificate.sequence;
        let arriving = ordering_certificate.commitment;
        let mut plan = RoundPlan {
            version: VERSION,
            market_id,
            sequence,
            ordering_certificate,
            resting,
            arriving,
            issued_at,
            expires_at,
            coordinator: public_key(coordinator),
            round_id: [0u8;32],
            signature: Vec::new(),
        };
        let body = plan.unsigned_body();
        plan.round_id = sha256_digest(body.as_slice());
        assert(plan.unsigned_bytes() == body@);
        let signed = plan.signature_body();
        plan.signature = sign(coordinator, signed.as_slice());
        assert(plan.signed_bytes() == signed@);
        match plan.verify(issued_at, match_slots) {
            Ok(_) => Ok(plan),
            Err(e) => {
                let ghost mine = plan;
                assert forall|other: RoundPlan|
                    other.signed_from(
                        &mine.ordering_certificate,
                        mine.resting@,
                        issued_at,
                        expires_at,
                        coordinator@,
                    ) implies !(#[trigger] other.valid_at(issued_at, match_slots)) by {
                    assert(other.unsigned_bytes() == mine.unsigned_bytes());
                    assert(other.signed_bytes() == mine.signed_bytes());
                }
                Err(e)
            },
        }
    }
}

/// Signed by exactly one independently operated MPC party. The receipt has no
/// order values other than the matching result that the protocol intentionally
/// opens after the order sequence is fixed.
#[derive(Clone, Debug, PartialEq, Eq)]
pub struct NodeExecutionReceipt {
    pub version: u16,
    pub party: u16,
    pub round_id: Digest32,
    pub generation: u64,
    pub round_commitment: Digest32,
    pub program_sha256: Digest32,
    pub artifact_sha256: Digest32,
    /// Commitment to the exact prior private-state heads used as this round's
    /// input. It prevents a delayed finalization from overwriting a newer head.
    pub private_parent_digest: Digest32,
    /// Digest of this node's durable share of the post-match private book.
    pub private_state_sha256: Digest32,
    pub public_output_sha256: Digest32,
    pub result: MpcBatchResult,
    pub execution_ms: u64,
    pub signer: Digest32,
    pub signature: Vec<u8>,
}

pub struct ReceiptView {
    pub version: u16,
    pub party: u16,
    pub round_id: Digest32,
    pub generation: u64,
    pub round_commitment: Digest32,
    pub program_sha256: Digest32,
    pub artifact_sha256: Digest32,
    pub private_parent_digest: Digest32,
    pub private_state_sha256: Digest32,
    pub public_output_sha256: Digest32,
    pub result: BatchView,
    pub execution_ms: u64,
    pub signer: Digest32,
    pub signature: Seq<u8>,
}

impl View for NodeExecutionReceipt {
    type V = ReceiptView;

    open spec fn view(&self) -> ReceiptView {
        ReceiptView {
            version: self.version,
            party: self.party,
            round_id: self.round_id,
            generation: self.generation,
            round_commitment: self.round_commitment,
            program_sha256: self.program_sha256,
            artifact_sha256: self.artifact_sha256,
            private_parent_digest: self.private_parent_digest,
            private_state_sha256: self.private_state_sha256,
            public_output_sha256: self.public_output_sha256,
            result: self.result@,
            execution_ms: self.execution_ms,
            signer: self.signer,
            signature: self.signature@,
        }
    }
}

/// One slot as it stands in a signed receipt.
pub open spec fn slot_bytes(slot: MpcSlotResult) -> Seq<u8> {
    seq![
        if slot.matched {
            1u8
        } else {
            0u8
        },
    ] + big_endian(slot.trade_price as nat, 8) + big_endian(slot.trade_quantity as nat, 8)
}

pub open spec fn slots_bytes(slots: Seq<MpcSlotResult>) -> Seq<u8>
    decreases slots.len(),
{
    if slots.len() == 0 {
        Seq::empty()
    } else {
        slots_bytes(slots.drop_last()) + slot_bytes(slots.last())
    }
}

fn push_slots(out: &mut Vec<u8>, slots: &[MpcSlotResult])
    ensures
        final(out)@ == old(out)@ + slots_bytes(slots@),
{
    let mut i: usize = 0;
    assert(slots@.take(0) =~= Seq::<MpcSlotResult>::empty());
    assert(out@ =~= old(out)@ + slots_bytes(slots@.take(0)));
    while i < slots.len()
        invariant
            i <= slots@.len(),
            out@ == old(out)@ + slots_bytes(slots@.take(i as int)),
        decreases slots@.len() - i,
    {
        let ghost before = out@;
        let slot = &slots[i];
        out.push(if slot.matched { 1u8 } else { 0u8 });
        push_u64(out, slot.trade_price);
        push_u64(out, slot.trade_quantity);
        i += 1;
        assert(out@ =~= before + slot_bytes(slots@[i - 1]));
        assert(slots@.take(i as int).drop_last() =~= slots@.take(i - 1));
        assert(slots@.take(i as int).last() == slots@[i - 1]);
        assert(out@ =~= old(out)@ + slots_bytes(slots@.take(i as int)));
    }
    assert(slots@.take(i as int) =~= slots@);
}

impl NodeExecutionReceipt {
    /// What the party signs: every field but the signature.
    pub open spec fn signed_bytes(&self) -> Seq<u8> {
        text_bytes("OCLOB:DISTRIBUTED-PARTY-RECEIPT:v1"@) + big_endian(self.version as nat, 2)
            + big_endian(self.party as nat, 2) + self.round_id@ + big_endian(
            self.generation as nat,
            8,
        ) + self.round_commitment@ + self.program_sha256@ + self.artifact_sha256@
            + self.private_parent_digest@ + self.private_state_sha256@ + self.public_output_sha256@
            + big_endian(self.result.slots@.len(), 2) + slots_bytes(self.result.slots@)
            + big_endian(self.result.arriving_remaining as nat, 8) + big_endian(
            self.execution_ms as nat,
            8,
        ) + self.signer@
    }

    /// A receipt of `expected_party` for `plan`, made with the pinned program.
    pub open spec fn valid_for(
        &self,
        plan: &RoundPlan,
        expected_party: u16,
        expected_signer: Seq<u8>,
        expected_program: Seq<u8>,
        match_slots: u16,
    ) -> bool {
        &&& self.version == 1
        &&& self.party == expected_party
        &&& self.party < MPC_PARTIES
        &&& self.round_id@ == plan.round_id@
        &&& self.program_sha256@ == expected_program
        &&& !is_zero(self.private_parent_digest@)
        &&& !is_zero(self.private_state_sha256@)
        &&& self.public_output_sha256@ == self.result.output_digest@
        &&& self.result.slots@.len() == match_slots
        &&& self.signer@ == expected_signer
        &&& ed25519_accepts(expected_signer, self.signed_bytes(), self.signature@)
    }

    fn signature_body(&self) -> (body: Vec<u8>)
        ensures
            body@ == self.signed_bytes(),
    {
        let mut body: Vec<u8> = Vec::new();
        push_text(&mut body, "OCLOB:DISTRIBUTED-PARTY-RECEIPT:v1");
        assert(body@ =~= text_bytes("OCLOB:DISTRIBUTED-PARTY-RECEIPT:v1"@));
        push_u16(&mut body, self.version);
        push_u16(&mut body, self.party);
        push_all(&mut body, &self.round_id);
        push_u64(&mut body, self.generation);
        push_all(&mut body, &self.round_commitment);
        push_all(&mut body, &self.program_sha256);
        push_all(&mut body, &self.artifact_sha256);
        push_all(&mut body, &self.private_parent_digest);
        push_all(&mut body, &self.private_state_sha256);
        push_all(&mut body, &self.public_output_sha256);
        push_big_endian(&mut body, self.result.slots.len() as u64, 2);
        push_slots(&mut body, self.result.slots.as_slice());
        push_u64(&mut body, self.result.arriving_remaining);
        push_u64(&mut body, self.execution_ms);
        push_all(&mut body, &self.signer);
        body
    }

    /// Check the receipt against the plan, the expected party and its pinned
    /// key. `expected_program` is the digest of the canonical matching program.
    pub fn verify(
        &self,
        plan: &RoundPlan,
        expected_party: u16,
        expected_signer: &Digest32,
        expected_program: &Digest32,
        match_slots: u16,
    ) -> (r: Result<(), PartyExecutionError>)
        ensures
            r is Ok == self.valid_for(
                plan,
                expected_party,
                expected_signer@,
                expected_program@,
                match_slots,
            ),
            r matches Err(e) ==> e is Receipt,
    {
        if self.version != VERSION || self.party != expected_party || self.party as usize
            >= MPC_PARTIES || !digest_equal(&self.round_id, &plan.round_id) || !digest_equal(
            &self.program_sha256,
            expected_program,
        ) || digest_is_zero(&self.private_parent_digest) || digest_is_zero(
            &self.private_state_sha256,
        ) || !digest_equal(&self.public_output_sha256, &self.result.output_digest)
            || self.result.slots.len() != match_slots as usize || !digest_equal(
            &self.signer,
            expected_signer,
        ) {
            return Err(PartyExecutionError::Receipt);
        }
        let body = self.signature_body();
        if !verify_strict(expected_signer, body.as_slice(), self.signature.as_slice()) {
            return Err(PartyExecutionError::Receipt);
        }
        Ok(())
    }

    pub fn same(&self, other: &NodeExecutionReceipt) -> (same: bool)
        ensures
            same == (self@ == other@),
    {
        self.version == other.version && self.party == other.party && digest_equal(
            &self.round_id,
            &other.round_id,
        ) && self.generation == other.generation && digest_equal(
            &self.round_commitment,
            &other.round_commitment,
        ) && digest_equal(&self.program_sha256, &other.program_sha256) && digest_equal(
            &self.artifact_sha256,
            &other.artifact_sha256,
        ) && digest_equal(&self.private_parent_digest, &other.private_parent_digest)
            && digest_equal(&self.private_state_sha256, &other.private_state_sha256)
            && digest_equal(&self.public_output_sha256, &other.public_output_sha256)
            && self.result.same(&other.result) && self.execution_ms == other.execution_ms
            && digest_equal(&self.signer, &other.signer) && bytes_equal(
            self.signature.as_slice(),
            other.signature.as_slice(),
        )
    }
}

/// A byte of a program name.
pub open spec fn program_byte(byte: u8) -> bool {
    ||| 48 <= byte <= 57
    ||| 65 <= byte <= 90
    ||| 97 <= byte <= 122
    ||| byte == 95
    ||| byte == 45
}

/// A matching program's name: letters, digits, `_` and `-`, at least one.
pub open spec fn program_name_valid(name: Seq<char>) -> bool {
    let bytes = text_bytes(name);
    &&& 0 < name.len()
    &&& forall|i: int| 0 <= i < bytes.len() ==> program_byte(#[trigger] bytes[i])
}

/// ASCII white space.
pub open spec fn blank_byte(byte: u8) -> bool {
    byte == 32 || byte == 9 || byte == 10 || byte == 12 || byte == 13
}

/// `host:port` without white space, in at most 255 bytes.
pub open spec fn host_line_valid(line: Seq<u8>) -> bool {
    &&& 0 < line.len() <= 255
    &&& forall|i: int| 0 <= i < line.len() ==> !blank_byte(#[trigger] line[i])
    &&& line.contains(58u8)
}

/// One host line for each party.
pub open spec fn hosts_valid(hosts: Seq<u8>) -> bool {
    let lines = lines_of(hosts);
    &&& lines.len() == MPC_PARTIES
    &&& forall|i: int| 0 <= i < lines.len() ==> host_line_valid(#[trigger] lines[i])
}

fn is_program_name(name: &str) -> (valid: bool)
    ensures
        valid == program_name_valid(name@),
{
    if name.is_empty() {
        return false;
    }
    let bytes = name.as_bytes();
    let mut i: usize = 0;
    while i < bytes.len()
        invariant
            bytes@ == text_bytes(name@),
            i <= bytes@.len(),
            forall|j: int| 0 <= j < i ==> program_byte(#[trigger] bytes@[j]),
        decreases bytes@.len() - i,
    {
        let b: u8 = bytes[i];
        if !((48 <= b && b <= 57) || (65 <= b && b <= 90) || (97 <= b && b <= 122) || b == 95 || b
            == 45) {
            assert(!program_byte(bytes@[i as int]));
            return false;
        }
        i += 1;
    }
    true
}

fn is_host_line(line: &[u8]) -> (valid: bool)
    ensures
        valid == host_line_valid(line@),
{
    if line.len() == 0 || line.len() > 255 {
        return false;
    }
    let mut colon: bool = false;
    let mut i: usize = 0;
    while i < line.len()
        invariant
            i <= line@.len(),
            forall|j: int| 0 <= j < i ==> !blank_byte(#[trigger] line@[j]),
            colon == (exists|j: int| 0 <= j < i && #[trigger] line@[j] == 58u8),
        decreases line@.len() - i,
    {
        let b: u8 = line[i];
        if b == 32 || b == 9 || b == 10 || b == 12 || b == 13 {
            assert(blank_byte(line@[i as int]));
            return false;
        }
        if b == 58 {
            assert(line@[i as int] == 58u8);
            colon = true;
        }
        i += 1;
    }
    colon
}

fn are_hosts(hosts: &[u8]) -> (valid: bool)
    ensures
        valid == hosts_valid(hosts@),
{
    let lines = split_lines(hosts);
    assert(line_views(lines@).len() == lines@.len());
    if lines.len() != MPC_PARTIES {
        return false;
    }
    let mut i: usize = 0;
    while i < lines.len()
        invariant
            i <= lines@.len(),
            line_views(lines@) == lines_of(hosts@),
            lines@.len() == MPC_PARTIES,
            forall|j: int| 0 <= j < i ==> host_line_valid(#[trigger] line_views(lines@)[j]),
        decreases lines@.len() - i,
    {
        if !is_host_line(lines[i].as_slice()) {
            assert(!host_line_valid(line_views(lines@)[i as int]));
            return false;
        }
        i += 1;
    }
    true
}

/// The longest run of one matching round, in nanoseconds.
pub const MAX_TIMEOUT_NANOS: u128 = 600_000_000_000;

/// One file that the matching program is made of: its path below the engine's
/// root and its contents.
pub struct ArtifactFile {
    pub path: Vec<u8>,
    pub contents: Vec<u8>,
}

pub open spec fn artifact_bytes(files: Seq<ArtifactFile>) -> Seq<u8>
    decreases files.len(),
{
    if files.len() == 0 {
        text_bytes("OCLOB:MP-SPDZ-ARTIFACT:v1"@)
    } else {
        artifact_bytes(files.drop_last()) + length_prefixed(files.last().path@) + length_prefixed(
            files.last().contents@,
        )
    }
}

/// The digest of the program's files, in the order given. There are at least
/// the engine, the schedule and one bytecode file.
pub fn artifact_digest(files: &Vec<ArtifactFile>) -> (r: Result<Digest32, PartyExecutionError>)
    ensures
        r is Ok == (files@.len() >= 3),
        r matches Ok(digest) ==> digest@ == sha256(artifact_bytes(files@)),
        r matches Err(e) ==> e is ProgramMismatch,
{
    if files.len() < 3 {
        return Err(PartyExecutionError::ProgramMismatch);
    }
    let mut body: Vec<u8> = Vec::new();
    push_text(&mut body, "OCLOB:MP-SPDZ-ARTIFACT:v1");
    assert(files@.take(0) =~= Seq::<ArtifactFile>::empty());
    assert(body@ =~= artifact_bytes(files@.take(0)));
    let mut i: usize = 0;
    while i < files.len()
        invariant
            i <= files@.len(),
            body@ == artifact_bytes(files@.take(i as int)),
        decreases files@.len() - i,
    {
        put_bytes(&mut body, files[i].path.as_slice());
        put_bytes(&mut body, files[i].contents.as_slice());
        i += 1;
        assert(files@.take(i as int).drop_last() =~= files@.take(i - 1));
        assert(files@.take(i as int).last() == files@[i - 1]);
    }
    assert(files@.take(i as int) =~= files@);
    Ok(sha256_digest(body.as_slice()))
}

/// Whether a file in the bytecode directory belongs to a program.
pub fn is_bytecode_name(program: &str, name: &str) -> (belongs: bool)
    ensures
        belongs == (starts_with(text_bytes(name@), text_bytes(program@).push(45u8)) && ends_with(
            text_bytes(name@),
            text_bytes(".bc"@),
        )),
{
    let mut prefix: Vec<u8> = Vec::new();
    push_text(&mut prefix, program);
    assert(prefix@ =~= text_bytes(program@));
    prefix.push(45u8);
    bytes_start_with(name.as_bytes(), prefix.as_slice()) && bytes_end_with(
        name.as_bytes(),
        ".bc".as_bytes(),
    )
}

/// Runtime owned by one MPC operator. It runs only that operator's party.
pub struct PartyExecutor {
    pub party: u16,
    pub program: String,
    pub hosts: String,
    pub timeout_nanos: u128,
    pub signing_key: Digest32,
    pub program_sha256: Digest32,
    pub artifact_sha256: Digest32,
}

/// A configuration under which a party may run.
pub open spec fn executor_config_valid(
    party: u16,
    program: Seq<char>,
    hosts: Seq<char>,
    timeout_nanos: u128,
) -> bool {
    &&& party < MPC_PARTIES
    &&& 0 < timeout_nanos <= MAX_TIMEOUT_NANOS
    &&& program_name_valid(program)
    &&& hosts_valid(text_bytes(hosts))
}

impl PartyExecutor {
    /// Check the plain settings, before any path is touched.
    pub fn check_config(party: u16, program: &str, hosts: &str, timeout_nanos: u128) -> (r: Result<
        (),
        PartyExecutionError,
    >)
        ensures
            r is Ok == executor_config_valid(party, program@, hosts@, timeout_nanos),
            r matches Err(e) ==> e is Config,
    {
        if party as usize >= MPC_PARTIES || timeout_nanos == 0 || timeout_nanos > MAX_TIMEOUT_NANOS {
            return Err(PartyExecutionError::Config);
        }
        if !is_program_name(program) {
            return Err(PartyExecutionError::Config);
        }
        if !are_hosts(hosts.as_bytes()) {
            return Err(PartyExecutionError::Config);
        }
        Ok(())
    }

    /// Pin one party to its settings, the canonical program source and the
    /// compiled files. `source` is the installed program source.
    pub fn open(
        party: u16,
        program: String,
        hosts: String,
        timeout_nanos: u128,
        signing_key: Digest32,
        source: &[u8],
        expected_source: &[u8],
        files: &Vec<ArtifactFile>,
    ) -> (r: Result<PartyExecutor, PartyExecutionError>)
        ensures
            r is Ok == (executor_config_valid(party, program@, hosts@, timeout_nanos) && source@
                == expected_source@ && files@.len() >= 3),
            r matches Ok(executor) ==> {
                &&& executor.party == party
                &&& executor.program == program
                &&& executor.hosts == hosts
                &&& executor.timeout_nanos == timeout_nanos
                &&& executor.signing_key == signing_key
                &&& executor.program_sha256@ == sha256(source@)
                &&& executor.artifact_sha256@ == sha256(artifact_bytes(files@))
            },
            r matches Err(e) ==> if executor_config_valid(party, program@, hosts@, timeout_nanos) {
                e is ProgramMismatch
            } else {
                e is Config
            },
    {
        match PartyExecutor::check_config(party, program.as_str(), hosts.as_str(), timeout_nanos) {
            Err(e) => return Err(e),
            Ok(_) => {},
        }
        if !bytes_equal(source, expected_source) {
            return Err(PartyExecutionError::ProgramMismatch);
        }
        let program_sha256 = sha256_digest(source);
        match artifact_digest(files) {
            Err(e) => Err(e),
            Ok(artifact_sha256) => Ok(
                PartyExecutor {
                    party,
                    program,
                    hosts,
                    timeout_nanos,
                    signing_key,
                    program_sha256,
                    artifact_sha256,
                },
            ),
        }
    }

    pub fn verifying_key(&self) -> (key: Digest32)
        ensures
            key@ == ed25519_public(self.signing_key@),
    {
        public_key(&self.signing_key)
    }
}

/// What the engine's process reports when it is polled.
#[derive(Clone, Copy, Debug, PartialEq, Eq, Structural)]
pub enum ChildStatus {
    Running,
    Succeeded,
    Failed(i32),
}

/// What to do about the engine's process.
#[derive(Clone, Debug, PartialEq, Eq)]
pub enum ChildStep {
    Finish,
    Poll,
    Kill,
    Report(i32),
}

/// One poll of the engine's process: a process that is still running at the
/// deadline is killed, and then the round timed out.
pub fn wait_child(status: ChildStatus, before_deadline: bool) -> (step: ChildStep)
    ensures
        step == (match status {
            ChildStatus::Succeeded => ChildStep::Finish,
            ChildStatus::Failed(code) => ChildStep::Report(code),
            ChildStatus::Running => if before_deadline {
                ChildStep::Poll
            } else {
                ChildStep::Kill
            },
        }),
{
    match status {
        ChildStatus::Succeeded => ChildStep::Finish,
        ChildStatus::Failed(code) => ChildStep::Report(code),
        ChildStatus::Running => if before_deadline {
            ChildStep::Poll
        } else {
            ChildStep::Kill
        },
    }
}

/// The kind of a directory entry.
#[derive(Clone, Copy, Debug, PartialEq, Eq, Structural)]
pub enum EntryKind {
    File,
    Symlink,
    Other,
}

/// What a party takes over from the engine's key directory.
#[derive(Clone, Copy, Debug, PartialEq, Eq, Structural)]
pub enum RuntimeEntry {
    Skip,
    /// Copy with owner-only permissions.
    Private,
    /// Copy with public permissions.
    Public,
}

/// The file name of a party's own transport key.
pub open spec fn own_key_name(party: u16) -> Seq<u8> {
    seq![80u8] + decimal(party as nat) + text_bytes(".key"@)
}

/// A link that certificate hashes may use: a plain name of a party certificate.
pub open spec fn link_allowed(components: nat, target: Option<Seq<u8>>) -> bool {
    &&& components == 1
    &&& target matches Some(name) && starts_with(name, text_bytes("P"@)) && ends_with(
        name,
        text_bytes(".pem"@),
    )
}

/// Which entries of the engine's key directory reach a party's private runtime
/// view: its own key and public certificates only. `None` refuses the round.
pub open spec fn runtime_entry_choice(
    name: Seq<u8>,
    party: u16,
    kind: EntryKind,
    link_components: nat,
    link_name: Option<Seq<u8>>,
) -> Option<RuntimeEntry> {
    let own = name == own_key_name(party);
    let certificate = ends_with(name, text_bytes(".pem"@)) || ends_with(name, text_bytes(".0"@));
    if !own && !certificate {
        Some(RuntimeEntry::Skip)
    } else if kind == EntryKind::Other || (kind == EntryKind::Symlink && !(ends_with(
        name,
        text_bytes(".0"@),
    ) && link_allowed(link_components, link_name))) {
        None
    } else if own {
        Some(RuntimeEntry::Private)
    } else {
        Some(RuntimeEntry::Public)
    }
}

/// Decide about one entry. For a link, `link_components` counts the components
/// of its target and `link_name` is the target's file name where it has one.
pub fn runtime_entry(
    name: &[u8],
    party: u16,
    kind: EntryKind,
    link_components: usize,
    link_name: Option<&[u8]>,
) -> (r: Result<RuntimeEntry, PartyExecutionError>)
    ensures
        ({
            let target = match link_name {
                Some(text) => Some(text@),
                None => None,
            };
            match runtime_entry_choice(name@, party, kind, link_components as nat, target) {
                Some(choice) => r == Ok::<RuntimeEntry, PartyExecutionError>(choice),
                None => r matches Err(e) && e is UnsafePath,
            }
        }),
{
    let mut own_name: Vec<u8> = Vec::new();
    own_name.push(80u8);
    push_decimal(&mut own_name, party as u64);
    push_text(&mut own_name, ".key");
    assert(own_name@ =~= own_key_name(party));
    let own: bool = bytes_equal(name, own_name.as_slice());
    let hashed: bool = bytes_end_with(name, ".0".as_bytes());
    let certificate: bool = bytes_end_with(name, ".pem".as_bytes()) || hashed;
    if !own && !certificate {
        return Ok(RuntimeEntry::Skip);
    }
    match kind {
        EntryKind::Other => return Err(PartyExecutionError::UnsafePath),
        EntryKind::Symlink => {
            if !hashed {
                return Err(PartyExecutionError::UnsafePath);
            }
            match link_name {
                None => return Err(PartyExecutionError::UnsafePath),
                Some(target) => {
                    if link_components != 1 || !bytes_start_with(target, "P".as_bytes())
                        || !bytes_end_with(target, ".pem".as_bytes()) {
                        return Err(PartyExecutionError::UnsafePath);
                    }
                },
            }
        },
        EntryKind::File => {},
    }
    if own {
        Ok(RuntimeEntry::Private)
    } else {
        Ok(RuntimeEntry::Public)
    }
}

/// No other party's key is ever copied into a party's runtime view.
pub proof fn lemma_other_keys_stay_out(
    name: Seq<u8>,
    party: u16,
    kind: EntryKind,
    link_components: nat,
    link_name: Option<Seq<u8>>,
)
    requires
        name != own_key_name(party),
        !ends_with(name, text_bytes(".pem"@)),
        !ends_with(name, text_bytes(".0"@)),
    ensures
        runtime_entry_choice(name, party, kind, link_components, link_name) == Some(
            RuntimeEntry::Skip,
        ),
{
}

/// The settlement-side reading of one executed fill. `digest` is what the
/// settlement library gives for the two bound reservations and the flag.
#[derive(Clone, Copy, Debug, PartialEq, Eq)]
pub struct NativeFillExecution {
    pub taker_may_close: bool,
    pub digest: Digest32,
}

/// The digests of a fill between two bound reservations, for a taker that may
/// not close and for one that may.
#[derive(Clone, Copy, Debug, PartialEq, Eq)]
pub struct FillDigests {
    pub open: Digest32,
    pub closing: Digest32,
}

/// Owner-only binding between an extracted proof handoff and the exact public
/// result of the same execution.
pub struct ProofSlotMetadata {
    pub version: u16,
    pub party: u16,
    pub round_id: Digest32,
    pub slot: u16,
    pub public_output_sha256: Digest32,
    pub private_state_sha256: Digest32,
    pub persistence_sha256: Digest32,
    pub proof_wires: u64,
    pub signer: Digest32,
    pub signature: Vec<u8>,
    pub native_fill: Option<NativeFillExecution>,
}

impl ProofSlotMetadata {
    /// The fill's digest, or zero bytes where nothing was filled.
    pub open spec fn fill_bytes(&self) -> Seq<u8> {
        match self.native_fill {
            Some(fill) => fill.digest@,
            None => Seq::new(32, |i: int| 0u8),
        }
    }

    pub open spec fn signed_bytes(&self) -> Seq<u8> {
        let head = text_bytes("OCLOB:PROOF-SLOT-METADATA:v1"@) + big_endian(self.version as nat, 2)
            + big_endian(self.party as nat, 2) + self.round_id@ + big_endian(self.slot as nat, 2)
            + self.public_output_sha256@ + self.private_state_sha256@ + self.persistence_sha256@
            + big_endian(self.proof_wires as nat, 8) + self.signer@;
        if self.version >= 2 {
            head + self.fill_bytes()
        } else {
            head
        }
    }

    fn signature_body(&self) -> (body: Vec<u8>)
        ensures
            body@ == self.signed_bytes(),
    {
        let mut body: Vec<u8> = Vec::new();
        push_text(&mut body, "OCLOB:PROOF-SLOT-METADATA:v1");
        assert(body@ =~= text_bytes("OCLOB:PROOF-SLOT-METADATA:v1"@));
        push_u16(&mut body, self.version);
        push_u16(&mut body, self.party);
        push_all(&mut body, &self.round_id);
        push_u16(&mut body, self.slot);
        push_all(&mut body, &self.public_output_sha256);
        push_all(&mut body, &self.private_state_sha256);
        push_all(&mut body, &self.persistence_sha256);
        push_u64(&mut body, self.proof_wires);
        push_all(&mut body, &self.signer);
        if self.version >= 2 {
            match self.native_fill {
                Some(fill) => push_all(&mut body, &fill.digest),
                None => {
                    let zero: Digest32 = [0u8;32];
                    assert(zero@ =~= Seq::new(32, |i: int| 0u8));
                    push_all(&mut body, &zero);
                },
            }
        }
        body
    }

    pub fn verify_signature(&self, expected_signer: &Digest32) -> (valid: bool)
        ensures
            valid == (self.signer@ == expected_signer@ && self.signature@.len() == 64
                && ed25519_accepts(expected_signer@, self.signed_bytes(), self.signature@)),
    {
        if !digest_equal(&self.signer, expected_signer) || self.signature.len() != 64 {
            return false;
        }
        let body = self.signature_body();
        verify_strict(expected_signer, body.as_slice(), self.signature.as_slice())
    }

    pub fn sign(&mut self, key: &Digest32)
        ensures
            final(self).signer@ == ed25519_public(key@),
            final(self).signature@ == ed25519_signature(key@, final(self).signed_bytes()),
            *final(self) == (ProofSlotMetadata {
                signer: final(self).signer,
                signature: final(self).signature,
                ..*old(self)
            }),
    {
        self.signer = public_key(key);
        let body = self.signature_body();
        self.signature = sign(key, body.as_slice());
        assert(self.signed_bytes() == body@);
    }
}

/// Where the shares of a persistence file lie.
#[derive(Clone, Copy, Debug, PartialEq, Eq, Structural)]
pub struct PersistenceHeader {
    pub data_offset: usize,
    pub element_bytes: usize,
}

/// How many secret wires the matching program persists, and which of them
/// belong to the book and to each slot's settlement proof.
#[derive(Clone, Copy, Debug, PartialEq, Eq, Structural)]
pub struct WireLayout {
    pub persistence_wires: u32,
    pub book_wires: u32,
    pub proof_wires_per_fill: u32,
    pub match_slots: u16,
}

/// The first byte of a slot's proof shares.
pub open spec fn proof_start(header: PersistenceHeader, layout: WireLayout, slot: int) -> int {
    header.data_offset + (layout.book_wires + slot * layout.proof_wires_per_fill)
        * header.element_bytes
}

/// The byte behind a slot's proof shares.
pub open spec fn proof_end(header: PersistenceHeader, layout: WireLayout, slot: int) -> int {
    proof_start(header, layout, slot) + layout.proof_wires_per_fill * header.element_bytes
}

/// The proof file of a slot: the header and that slot's shares alone.
pub open spec fn proof_file(
    bytes: Seq<u8>,
    header: PersistenceHeader,
    layout: WireLayout,
    slot: int,
) -> Seq<u8> {
    bytes.take(header.data_offset as int) + bytes.subrange(
        proof_start(header, layout, slot),
        proof_end(header, layout, slot),
    )
}

/// A persistence file that holds every wire, and every slot's proof shares.
pub open spec fn persistence_complete(
    bytes: Seq<u8>,
    header: PersistenceHeader,
    layout: WireLayout,
) -> bool {
    &&& bytes.len() == header.data_offset + header.element_bytes * layout.persistence_wires
    &&& forall|slot: int|
        0 <= slot < layout.match_slots ==> #[trigger] proof_end(header, layout, slot)
            <= bytes.len()
}

/// Whether `slot` is the last slot that traded.
pub open spec fn last_matched(slots: Seq<MpcSlotResult>, slot: int) -> bool {
    &&& 0 <= slot < slots.len()
    &&& slots[slot].matched
    &&& forall|later: int| slot < later < slots.len() ==> !(#[trigger] slots[later]).matched
}

/// What a slot's proof says about settlement: nothing without a trade between
/// two bound reservations, and a closing taker only on the last trade of an
/// order that was filled completely.
pub open spec fn native_fill(
    result: BatchView,
    slot: int,
    bound: Option<FillDigests>,
) -> Option<NativeFillExecution> {
    if 0 <= slot < result.slots.len() && result.slots[slot].matched {
        match bound {
            Some(digests) => {
                let may_close = result.arriving_remaining == 0 && last_matched(result.slots, slot);
                Some(
                    NativeFillExecution {
                        taker_may_close: may_close,
                        digest: if may_close {
                            digests.closing
                        } else {
                            digests.open
                        },
                    },
                )
            },
            None => None,
        }
    } else {
        None
    }
}

fn is_last_matched(slots: &[MpcSlotResult], slot: usize) -> (last: bool)
    ensures
        last == last_matched(slots@, slot as int),
{
    if slot >= slots.len() || !slots[slot].matched {
        return false;
    }
    let mut i: usize = slot + 1;
    while i < slots.len()
        invariant
            slot < i <= slots@.len(),
            forall|later: int| slot < later < i ==> !(#[trigger] slots@[later]).matched,
        decreases slots@.len() - i,
    {
        if slots[i].matched {
            assert(slots@[i as int].matched);
            return false;
        }
        i += 1;
    }
    true
}

/// Decide what one slot's proof says about settlement.
pub fn native_fill_execution(
    result: &MpcBatchResult,
    slot: usize,
    bound: &Option<FillDigests>,
) -> (fill: Option<NativeFillExecution>)
    ensures
        fill == native_fill(result@, slot as int, *bound),
{
    if slot >= result.slots.len() || !result.slots[slot].matched {
        return None;
    }
    match bound {
        None => None,
        Some(digests) => {
            let taker_may_close: bool = result.arriving_remaining == 0 && is_last_matched(
                result.slots.as_slice(),
                slot,
            );
            Some(
                NativeFillExecution {
                    taker_may_close,
                    digest: if taker_may_close {
                        digests.closing
                    } else {
                        digests.open
                    },
                },
            )
        },
    }
}

/// Whether a slot's proof lets the taker close.
pub open spec fn closes_taker(result: BatchView, slot: int, bound: Option<FillDigests>) -> bool {
    match native_fill(result, slot, bound) {
        Some(fill) => fill.taker_may_close,
        None => false,
    }
}

/// At most one fill of a round lets the taker close, and none does while part
/// of the taker's order is left.
pub proof fn lemma_one_closing_fill(
    result: BatchView,
    a: int,
    b: int,
    bound_a: Option<FillDigests>,
    bound_b: Option<FillDigests>,
)
    ensures
        closes_taker(result, a, bound_a) && closes_taker(result, b, bound_b) ==> a == b,
        closes_taker(result, a, bound_a) ==> result.arriving_remaining == 0,
{
    if closes_taker(result, a, bound_a) && closes_taker(result, b, bound_b) {
        assert(last_matched(result.slots, a) && last_matched(result.slots, b));
        if a < b {
            assert(!result.slots[b].matched);
        }
        if b < a {
            assert(!result.slots[a].matched);
        }
    }
}

/// One slot's proof file and its signed description.
pub struct ProofSlot {
    pub proof: Vec<u8>,
    pub metadata: ProofSlotMetadata,
}

/// What a round leaves with a party: the digest of its private state, and one
/// proof file for each slot.
pub struct RetainedState {
    pub digest: Digest32,
    pub slots: Vec<ProofSlot>,
}

fn proof_slot_file(bytes: &[u8], header: &PersistenceHeader, layout: &WireLayout, slot: u16) -> (r:
    Option<Vec<u8>>)
    ensures
        r is Some == (proof_end(*header, *layout, slot as int) <= bytes@.len()),
        r matches Some(file) ==> file@ == proof_file(bytes@, *header, *layout, slot as int),
{
    let per_fill: u128 = layout.proof_wires_per_fill as u128;
    let element: u128 = header.element_bytes as u128;
    let offset: u128 = header.data_offset as u128;
    assert(slot as u128 * per_fill <= 0xffff * 0xffff_ffff) by (nonlinear_arith)
        requires
            0 <= slot <= 0xffff,
            0 <= per_fill <= 0xffff_ffff,
    ;
    let first: u128 = layout.book_wires as u128 + slot as u128 * per_fill;
    assert(0 <= first <= 0x1_0000_0000_0000_0000) by {
        assert(first <= 0xffff_ffff + 0xffff * 0xffff_ffff);
    }
    assert(0 <= first * element <= 0x1_0000_0000_0000_0000 * 0xffff_ffff_ffff_ffff) by (
    nonlinear_arith)
        requires
            0 <= first <= 0x1_0000_0000_0000_0000,
            0 <= element <= 0xffff_ffff_ffff_ffff,
    ;
    assert(0 <= per_fill * element <= 0xffff_ffff * 0xffff_ffff_ffff_ffff) by (nonlinear_arith)
        requires
            0 <= per_fill <= 0xffff_ffff,
            0 <= element <= 0xffff_ffff_ffff_ffff,
    ;
    let skipped: u128 = first * element;
    let wanted: u128 = per_fill * element;
    assert(skipped <= 0xffff_ffff_ffff_ffff_0000_0000_0000_0000);
    assert(wanted <= 0xffff_ffff_ffff_ffff_ffff_ffff);
    if wanted > bytes.len() as u128 || offset > bytes.len() as u128 || skipped
        > bytes.len() as u128 {
        return None;
    }
    let start: u128 = offset + skipped;
    let end: u128 = start + wanted;
    if end > bytes.len() as u128 {
        return None;
    }
    let mut file: Vec<u8> = Vec::new();
    push_all(&mut file, vstd::slice::slice_subrange(bytes, 0, header.data_offset));
    push_all(&mut file, vstd::slice::slice_subrange(bytes, start as usize, end as usize));
    assert(file@ =~= proof_file(bytes@, *header, *layout, slot as int));
    Some(file)
}

impl PartyExecutor {
    /// One slot of the retained state, as this party signs it.
    pub open spec fn retained_slot(
        &self,
        kept: &ProofSlot,
        bytes: Seq<u8>,
        header: PersistenceHeader,
        layout: WireLayout,
        round_id: Digest32,
        result: BatchView,
        bound: Option<FillDigests>,
        slot: int,
    ) -> bool {
        let metadata = kept.metadata;
        &&& kept.proof@ == proof_file(bytes, header, layout, slot)
        &&& metadata.version == 2
        &&& metadata.party == self.party
        &&& metadata.round_id == round_id
        &&& metadata.slot == slot
        &&& metadata.public_output_sha256 == result.output_digest
        &&& metadata.private_state_sha256@ == sha256(bytes)
        &&& metadata.persistence_sha256@ == sha256(kept.proof@)
        &&& metadata.proof_wires == layout.proof_wires_per_fill
        &&& metadata.native_fill == native_fill(result, slot, bound)
        &&& metadata.signer@ == ed25519_public(self.signing_key@)
        &&& metadata.signature@ == ed25519_signature(self.signing_key@, metadata.signed_bytes())
    }

    /// The retained state of a round: the digest of the whole output, and one
    /// signed proof file for each slot.
    pub open spec fn retained(
        &self,
        state: &RetainedState,
        bytes: Seq<u8>,
        header: PersistenceHeader,
        layout: WireLayout,
        round_id: Digest32,
        result: BatchView,
        bound: Seq<Option<FillDigests>>,
    ) -> bool {
        &&& state.digest@ == sha256(bytes)
        &&& state.slots@.len() == layout.match_slots
        &&& forall|slot: int|
            0 <= slot < layout.match_slots ==> self.retained_slot(
                &(#[trigger] state.slots@[slot]),
                bytes,
                header,
                layout,
                round_id,
                result,
                bound[slot],
                slot,
            )
    }

    /// Cut the party-local persistence output into the private state and one
    /// signed proof file for each slot. `decoded` is the file's header where it
    /// decodes; `bound` holds the fill digests of each slot whose two
    /// orders carry reservations.
    pub fn retain_private_state(
        &self,
        bytes: &[u8],
        decoded: &Option<PersistenceHeader>,
        layout: &WireLayout,
        round_id: &Digest32,
        result: &MpcBatchResult,
        bound: &Vec<Option<FillDigests>>,
    ) -> (r: Result<RetainedState, PartyExecutionError>)
        requires
            bound@.len() == layout.match_slots,
        ensures
            r is Ok == (decoded matches Some(h) && persistence_complete(bytes@, *h, *layout)),
            r matches Ok(state) ==> self.retained(
                &state,
                bytes@,
                decoded->0,
                *layout,
                *round_id,
                result@,
                bound@,
            ),
            r matches Err(e) ==> e is Output,
    {
        let digest = sha256_digest(bytes);
        let header: PersistenceHeader = match decoded {
            None => return Err(PartyExecutionError::Output),
            Some(h) => *h,
        };
        let wires: u128 = layout.persistence_wires as u128;
        let element: u128 = header.element_bytes as u128;
        assert(0 <= element * wires <= 0xffff_ffff * 0xffff_ffff_ffff_ffff) by (nonlinear_arith)
            requires
                0 <= wires <= 0xffff_ffff,
                0 <= element <= 0xffff_ffff_ffff_ffff,
        ;
        let expected: u128 = header.data_offset as u128 + element * wires;
        if bytes.len() as u128 != expected {
            return Err(PartyExecutionError::Output);
        }
        let mut slots: Vec<ProofSlot> = Vec::new();
        let mut slot: u16 = 0;
        while slot < layout.match_slots
            invariant
                slot <= layout.match_slots,
                slots@.len() == slot,
                *decoded == Some(header),
                digest@ == sha256(bytes@),
                bound@.len() == layout.match_slots,
                bytes@.len() == header.data_offset + header.element_bytes
                    * layout.persistence_wires,
                forall|k: int|
                    0 <= k < slot ==> #[trigger] proof_end(header, *layout, k) <= bytes@.len(),
                forall|k: int|
                    0 <= k < slot ==> self.retained_slot(
                        &(#[trigger] slots@[k]),
                        bytes@,
                        header,
                        *layout,
                        *round_id,
                        result@,
                        bound@[k],
                        k,
                    ),
            decreases layout.match_slots - slot,
        {
            let proof: Vec<u8> = match proof_slot_file(bytes, &header, layout, slot) {
                None => {
                    assert(proof_end(header, *layout, slot as int) > bytes@.len());
                    return Err(PartyExecutionError::Output);
                },
                Some(file) => file,
            };
            let mut metadata = ProofSlotMetadata {
                version: PROOF_SLOT_METADATA_VERSION,
                party: self.party,
                round_id: *round_id,
                slot,
                public_output_sha256: result.output_digest,
                private_state_sha256: digest,
                persistence_sha256: sha256_digest(proof.as_slice()),
                proof_wires: layout.proof_wires_per_fill as u64,
                signer: self.verifying_key(),
                signature: Vec::new(),
                native_fill: native_fill_execution(result, slot as usize, &bound[slot as usize]),
            };
            metadata.sign(&self.signing_key);
            slots.push(ProofSlot { proof, metadata });
            slot += 1;
        }
        Ok(RetainedState { digest, slots })
    }

    /// The receipt that this party signs for one executed round, over the
    /// private state that it retained.
    pub open spec fn receipt_of(
        &self,
        receipt: &NodeExecutionReceipt,
        prepared: &crate::store::PreparedPartyInput,
        plan: &RoundPlan,
        result: BatchView,
        state: Seq<u8>,
        execution_ms: u64,
    ) -> bool {
        &&& receipt.version == 1
        &&& receipt.party == self.party
        &&& receipt.round_id == plan.round_id
        &&& receipt.generation == prepared.generation
        &&& receipt.round_commitment == prepared.round_commitment
        &&& receipt.program_sha256 == self.program_sha256
        &&& receipt.artifact_sha256 == self.artifact_sha256
        &&& receipt.private_parent_digest == prepared.private_parent_digest
        &&& receipt.private_state_sha256@ == sha256(state)
        &&& receipt.public_output_sha256 == result.output_digest
        &&& receipt.result@ == result
        &&& receipt.execution_ms == execution_ms
        &&& receipt.signer@ == ed25519_public(self.signing_key@)
        &&& receipt.signature@ == ed25519_signature(self.signing_key@, receipt.signed_bytes())
    }

    /// Why a run of the engine gives no receipt, if it gives none before the
    /// receipt itself is checked: the first step that failed.
    pub open spec fn run_fault(
        &self,
        prepared: &crate::store::PreparedPartyInput,
        run: PartyRun,
        layout: WireLayout,
    ) -> Option<PartyExecutionError> {
        if run.engine is Err {
            Some(PartyExecutionError::Mpc(run.engine->Err_0))
        } else if prepared.party != self.party {
            Some(PartyExecutionError::PartyBinding)
        } else if directory_fault(run.round_directory) is Some {
            directory_fault(run.round_directory)
        } else if run.started is Err {
            Some(run.started->Err_0)
        } else {
            match (child_fault(run.status), run.result, run.state) {
                (Some(fault), _, _) => Some(fault),
                (None, Err(fault), _) => Some(fault),
                (None, Ok(_), Err(fault)) => Some(fault),
                (None, Ok(_), Ok(bytes)) => if directory_fault(run.state_directory) is Some {
                    directory_fault(run.state_directory)
                } else if run.moved is Err {
                    Some(run.moved->Err_0)
                } else if run.bound@.len() != layout.match_slots || !(run.header matches Some(h)
                    && persistence_complete(bytes@, h, layout)) {
                    Some(PartyExecutionError::Output)
                } else {
                    None
                },
            }
        }
    }

    /// Turn one run of the matching engine into this party's retained state and
    /// its signed receipt. A round whose directory is there already was used
    /// before and is refused. `expected_program` is the digest of the canonical
    /// matching program.
    pub fn execute(
        &self,
        prepared: &crate::store::PreparedPartyInput,
        plan: &RoundPlan,
        run: PartyRun,
        layout: &WireLayout,
        expected_program: &Digest32,
    ) -> (r: Result<ExecutedRound, PartyExecutionError>)
        ensures
            match self.run_fault(prepared, run, *layout) {
                Some(fault) => r == Err::<ExecutedRound, PartyExecutionError>(fault),
                None => match r {
                    Ok(round) => {
                        &&& self.receipt_of(
                            &round.receipt,
                            prepared,
                            plan,
                            run.result->Ok_0@,
                            (run.state->Ok_0)@,
                            run.execution_ms,
                        )
                        &&& round.receipt.valid_for(
                            plan,
                            self.party,
                            ed25519_public(self.signing_key@),
                            expected_program@,
                            layout.match_slots,
                        )
                        &&& self.retained(
                            &round.state,
                            (run.state->Ok_0)@,
                            run.header->0,
                            *layout,
                            plan.round_id,
                            run.result->Ok_0@,
                            run.bound@,
                        )
                    },
                    Err(e) => e is Receipt && forall|receipt: NodeExecutionReceipt|
                        self.receipt_of(
                            &receipt,
                            prepared,
                            plan,
                            run.result->Ok_0@,
                            (run.state->Ok_0)@,
                            run.execution_ms,
                        ) ==> !(#[trigger] receipt.valid_for(
                            plan,
                            self.party,
                            ed25519_public(self.signing_key@),
                            expected_program@,
                            layout.match_slots,
                        )),
                },
            },
    {
        match run.engine {
            Err(text) => return Err(PartyExecutionError::Mpc(text)),
            Ok(_) => {},
        }
        if prepared.party != self.party {
            return Err(PartyExecutionError::PartyBinding);
        }
        match check_directory(run.round_directory) {
            Err(e) => return Err(e),
            Ok(_) => {},
        }
        match run.started {
            Err(e) => return Err(e),
            Ok(_) => {},
        }
        match run.status {
            ChildStatus::Succeeded => {},
            ChildStatus::Failed(code) => return Err(PartyExecutionError::PartyFailed(code)),
            ChildStatus::Running => return Err(PartyExecutionError::Timeout),
        }
        let result: MpcBatchResult = match run.result {
            Err(e) => return Err(e),
            Ok(value) => value,
        };
        let bytes: Vec<u8> = match run.state {
            Err(e) => return Err(e),
            Ok(bytes) => bytes,
        };
        match check_directory(run.state_directory) {
            Err(e) => return Err(e),
            Ok(_) => {},
        }
        match run.moved {
            Err(e) => return Err(e),
            Ok(_) => {},
        }
        if run.bound.len() != layout.match_slots as usize {
            return Err(PartyExecutionError::Output);
        }
        let state = match self.retain_private_state(
            bytes.as_slice(),
            &run.header,
            layout,
            &plan.round_id,
            &result,
            &run.bound,
        ) {
            Err(_) => return Err(PartyExecutionError::Output),
            Ok(state) => state,
        };
        let signer = self.verifying_key();
        let public_output_sha256 = result.output_digest;
        let mut receipt = NodeExecutionReceipt {
            version: VERSION,
            party: self.party,
            round_id: plan.round_id,
            generation: prepared.generation,
            round_commitment: prepared.round_commitment,
            program_sha256: self.program_sha256,
            artifact_sha256: self.artifact_sha256,
            private_parent_digest: prepared.private_parent_digest,
            private_state_sha256: state.digest,
            public_output_sha256,
            result,
            execution_ms: run.execution_ms,
            signer,
            signature: Vec::new(),
        };
        let body = receipt.signature_body();
        receipt.signature = sign(&self.signing_key, body.as_slice());
        assert(receipt.signed_bytes() == body@);
        match receipt.verify(plan, self.party, &signer, expected_program, layout.match_slots) {
            Ok(_) => Ok(ExecutedRound { receipt, state }),
            Err(e) => {
                let ghost mine = receipt;
                assert forall|other: NodeExecutionReceipt|
                    self.receipt_of(
                        &other,
                        prepared,
                        plan,
                        mine.result@,
                        bytes@,
                        run.execution_ms,
                    ) implies !(#[trigger] other.valid_for(
                    plan,
                    self.party,
                    ed25519_public(self.signing_key@),
                    expected_program@,
                    layout.match_slots,
                )) by {
                    assert(other.result@.slots == mine.result@.slots);
                    assert(other.result.slots@ == mine.result.slots@);
                    assert(other.result.output_digest == mine.result.output_digest);
                    assert(other.signed_bytes() == mine.signed_bytes());
                }
                Err(e)
            },
        }
    }
}

/// What making a directory gave.
pub enum DirectoryMade {
    Made,
    Exists,
    Symlink,
    Failed(String),
}

/// Why a directory that must be new was not made, if it was not.
pub open spec fn directory_fault(made: DirectoryMade) -> Option<PartyExecutionError> {
    match made {
        DirectoryMade::Made => None,
        DirectoryMade::Exists => Some(PartyExecutionError::Replay),
        DirectoryMade::Symlink => Some(PartyExecutionError::UnsafePath),
        DirectoryMade::Failed(text) => Some(PartyExecutionError::Io(text)),
    }
}

fn check_directory(made: DirectoryMade) -> (r: Result<(), PartyExecutionError>)
    ensures
        match directory_fault(made) {
            None => r is Ok,
            Some(fault) => r == Err::<(), PartyExecutionError>(fault),
        },
{
    match made {
        DirectoryMade::Made => Ok(()),
        DirectoryMade::Exists => Err(PartyExecutionError::Replay),
        DirectoryMade::Symlink => Err(PartyExecutionError::UnsafePath),
        DirectoryMade::Failed(text) => Err(PartyExecutionError::Io(text)),
    }
}

/// Why the engine's process did not finish, if it did not: it failed, or was
/// still running at the deadline.
pub open spec fn child_fault(status: ChildStatus) -> Option<PartyExecutionError> {
    match status {
        ChildStatus::Succeeded => None,
        ChildStatus::Failed(code) => Some(PartyExecutionError::PartyFailed(code)),
        ChildStatus::Running => Some(PartyExecutionError::Timeout),
    }
}

/// What one run of the engine brought, step by step.
pub struct PartyRun {
    /// The outcome of checking the pinned engine.
    pub engine: Result<(), String>,
    /// The round's own directory.
    pub round_directory: DirectoryMade,
    /// The outcome of writing the runtime view and the input, and of starting
    /// the process.
    pub started: Result<(), PartyExecutionError>,
    /// The process when it was last polled.
    pub status: ChildStatus,
    pub execution_ms: u64,
    /// The public output.
    pub result: Result<MpcBatchResult, PartyExecutionError>,
    /// The party-local persistence output.
    pub state: Result<Vec<u8>, PartyExecutionError>,
    /// The directory that retains the private state.
    pub state_directory: DirectoryMade,
    /// The outcome of moving the persistence output there.
    pub moved: Result<(), PartyExecutionError>,
    /// The persistence output's header, where it decodes.
    pub header: Option<PersistenceHeader>,
    /// The fill digests of each slot whose two orders carry reservations.
    pub bound: Vec<Option<FillDigests>>,
}

/// The outcome of a round at one party.
pub struct ExecutedRound {
    pub receipt: NodeExecutionReceipt,
    pub state: RetainedState,
}

} // verus!
