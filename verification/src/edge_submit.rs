//! The corporate edge's order intake: what a private instruction may ask for,
//! how a request goes on, and what a recovered wallet does next.

use crate::bytes::{
    bytes_equal, copy_bytes, digest_equal, hex_bytes, hex_decode, hex_encode, hex_text, hexadecimal,
    push_all, push_text, sha256, sha256_digest, text_bytes, to_digest, Digest32,
};
use crate::chance::{draw_bytes, draw_fault, draw_sized, drawn_digest};
use crate::corporate::{
    facility_moves, funded, mandate_of, prepare_reservation_from_note, request_of, reserve_fault,
    BuiltRequest, CorporateNativeConfig, MandateTerms, OrderTerms, PreparedCorporateReserve,
    ReserveRead, ReserveSecrets, SignedOrder,
};
use crate::corporate_journal::NativeCorporateJournal;
use crate::corporate_journal_model::{JournalBody, JournalView, StoredCorporateIntent};
use crate::store::text_result;
use crate::text_map::text_equal;
use crate::types::{Side, TimeInForce};
use vstd::prelude::*;

verus! {

/// The largest file that the edge reads.
pub const MAX_FILE_BYTES: u64 = 1_048_576;

/// Which side of the demonstration an edge plays.
#[derive(Clone, Copy, Debug, PartialEq, Eq, Structural)]
pub enum Scenario {
    Maker,
    Taker,
}

/// The arguments of the edge's command.
pub struct EdgeArgs {
    pub cluster: String,
    pub identity: String,
    pub handoff: String,
    pub settlement_handoff: String,
    pub scenario: Scenario,
}

pub open spec fn scenario_named(name: Seq<char>) -> Option<Scenario> {
    if name == "maker"@ {
        Some(Scenario::Maker)
    } else if name == "taker"@ {
        Some(Scenario::Taker)
    } else {
        None
    }
}

/// The five arguments, each behind its name.
pub open spec fn edge_args_named(args: Seq<String>) -> bool {
    &&& args.len() == 10
    &&& args[0]@ == "--cluster"@
    &&& args[2]@ == "--identity"@
    &&& args[4]@ == "--handoff"@
    &&& args[6]@ == "--settlement-handoff"@
    &&& args[8]@ == "--scenario"@
}

/// Read the arguments of the edge's command.
pub fn parse_args(args: &Vec<String>) -> (r: Result<EdgeArgs, String>)
    ensures
        r is Ok == (edge_args_named(args@) && scenario_named(args@[9]@) is Some),
        r matches Ok(read) ==> read.cluster@ == args@[1]@ && read.identity@ == args@[3]@
            && read.handoff@ == args@[5]@ && read.settlement_handoff@ == args@[7]@ && Some(
            read.scenario,
        ) == scenario_named(args@[9]@),
        r matches Err(e) ==> e@ == (if !edge_args_named(args@) {
            "usage: oclob-edge-submit --cluster PATH --identity PATH --handoff PATH --settlement-handoff PATH --scenario maker|taker"@
        } else {
            "scenario must be maker or taker"@
        }),
{
    if args.len() != 10 || !text_equal(args[0].as_str(), "--cluster") || !text_equal(
        args[2].as_str(),
        "--identity",
    ) || !text_equal(args[4].as_str(), "--handoff") || !text_equal(
        args[6].as_str(),
        "--settlement-handoff",
    ) || !text_equal(args[8].as_str(), "--scenario") {
        return Err(
            "usage: oclob-edge-submit --cluster PATH --identity PATH --handoff PATH --settlement-handoff PATH --scenario maker|taker".to_owned(),
        );
    }
    let scenario = if text_equal(args[9].as_str(), "maker") {
        Scenario::Maker
    } else if text_equal(args[9].as_str(), "taker") {
        Scenario::Taker
    } else {
        return Err("scenario must be maker or taker".to_owned());
    };
    Ok(
        EdgeArgs {
            cluster: args[1].clone(),
            identity: args[3].clone(),
            handoff: args[5].clone(),
            settlement_handoff: args[7].clone(),
            scenario,
        },
    )
}

/// Check a file before it is read.
pub fn check_json_file(symlink: bool, is_file: bool, length: u64) -> (r: Result<(), String>)
    ensures
        r is Ok == (!symlink && is_file && 0 < length <= MAX_FILE_BYTES),
        r matches Err(e) ==> e@ == "input path is unsafe"@,
{
    if symlink || !is_file || length == 0 || length > MAX_FILE_BYTES {
        return Err("input path is unsafe".to_owned());
    }
    Ok(())
}

/// Check that only its owner can read a private file. `order_file` tells whether
/// it is the order file or the funding configuration.
pub fn check_owner_only(mode: u32, order_file: bool) -> (r: Result<(), String>)
    ensures
        r is Ok == (mode & 0o077 == 0),
        r matches Err(e) ==> e@ == (if order_file {
            "corporate order file must be owner-only"@
        } else {
            "native funding configuration must be owner-only"@
        }),
{
    if mode & 0o077 != 0 {
        return Err(
            if order_file {
                "corporate order file must be owner-only".to_owned()
            } else {
                "native funding configuration must be owner-only".to_owned()
            },
        );
    }
    Ok(())
}

/// Private corporate input. It is never sent to the coordinator.
pub struct NativeOrderInstruction {
    pub side: Side,
    pub limit_price: u64,
    pub quantity: u64,
    pub time_in_force: TimeInForce,
    pub valid_for_seconds: u64,
    pub source_note: Option<String>,
}

impl NativeOrderInstruction {
    /// Why the named funding note cannot be read, if it cannot.
    pub open spec fn source_fault(&self) -> Option<Seq<char>> {
        match self.source_note {
            None => None,
            Some(text) => if !hexadecimal(text_bytes(text@)) {
                Some("funding note must be hexadecimal"@)
            } else if hex_bytes(text_bytes(text@)).len() != 32 {
                Some("funding note must contain 32 bytes"@)
            } else {
                None
            },
        }
    }

    /// The funding note that the instruction names, if it names one.
    pub fn source(&self) -> (r: Result<Option<Digest32>, String>)
        ensures
            r is Ok == self.source_fault() is None,
            r matches Err(e) ==> Some(e@) == self.source_fault(),
            r matches Ok(note) ==> note is Some == self.source_note is Some,
            r matches Ok(Some(note)) ==> note@ == hex_bytes(text_bytes((self.source_note->0)@)),
    {
        match &self.source_note {
            None => Ok(None),
            Some(text) => match hex_decode(text.as_str()) {
                Err(_) => Err("funding note must be hexadecimal".to_owned()),
                Ok(bytes) => match to_digest(&bytes) {
                    None => Err("funding note must contain 32 bytes".to_owned()),
                    Some(note) => Ok(Some(note)),
                },
            },
        }
    }

    /// Why an instruction is outside the configuration, if it is. The asset
    /// that an order reserves is cash for a buyer and the security for a
    /// seller.
    pub open spec fn instruction_fault(
        &self,
        cash: Digest32,
        security: Digest32,
        configured: Digest32,
    ) -> Option<Seq<char>> {
        let asset = if self.side is Buy {
            cash
        } else {
            security
        };
        if asset != configured || !(10 <= self.valid_for_seconds <= 3600) {
            Some("order asset or validity is outside the corporate configuration"@)
        } else {
            self.source_fault()
        }
    }

    pub fn check(&self, cash: &Digest32, security: &Digest32, configured: &Digest32) -> (r: Result<
        (),
        String,
    >)
        ensures
            r is Ok == self.instruction_fault(*cash, *security, *configured) is None,
            r matches Err(e) ==> Some(e@) == self.instruction_fault(*cash, *security, *configured),
    {
        let fits: bool = match self.side {
            Side::Buy => digest_equal(cash, configured),
            Side::Sell => digest_equal(security, configured),
        };
        if !fits || self.valid_for_seconds < 10 || self.valid_for_seconds > 3600 {
            return Err(
                "order asset or validity is outside the corporate configuration".to_owned(),
            );
        }
        match self.source() {
            Err(e) => Err(e),
            Ok(_) => Ok(()),
        }
    }

    /// When an order that is taken in now expires.
    pub fn expires_at(&self, now: u64) -> (r: Result<u64, String>)
        ensures
            r is Ok == (now + self.valid_for_seconds <= u64::MAX),
            r matches Ok(at) ==> at == now + self.valid_for_seconds,
            r matches Err(e) ==> e@ == "order expiry overflow"@,
    {
        match now.checked_add(self.valid_for_seconds) {
            Some(at) => Ok(at),
            None => Err("order expiry overflow".to_owned()),
        }
    }
}

/// The terms of the demonstration's order.
#[derive(Clone, Copy, Debug, PartialEq, Eq, Structural)]
pub struct DemoTerms {
    pub side: Side,
    pub limit_price: u64,
    pub quantity: u64,
    pub time_in_force: TimeInForce,
    pub expires_at: u64,
}

/// The maker sells sixty at one hundred until cancelled; the taker buys forty
/// at up to one hundred and one, immediately or not at all. Both live for ten
/// minutes.
pub open spec fn demo_terms(scenario: Scenario, now: u64) -> DemoTerms {
    let expires_at = if now + 600 <= u64::MAX {
        (now + 600) as u64
    } else {
        u64::MAX
    };
    match scenario {
        Scenario::Maker => DemoTerms {
            side: Side::Sell,
            limit_price: 100,
            quantity: 60,
            time_in_force: TimeInForce::GoodTilCancelled,
            expires_at,
        },
        Scenario::Taker => DemoTerms {
            side: Side::Buy,
            limit_price: 101,
            quantity: 40,
            time_in_force: TimeInForce::ImmediateOrCancel,
            expires_at,
        },
    }
}

pub fn demo_order(scenario: Scenario, now: u64) -> (terms: DemoTerms)
    ensures
        terms == demo_terms(scenario, now),
{
    let expires_at: u64 = now.saturating_add(600);
    match scenario {
        Scenario::Maker => DemoTerms {
            side: Side::Sell,
            limit_price: 100,
            quantity: 60,
            time_in_force: TimeInForce::GoodTilCancelled,
            expires_at,
        },
        Scenario::Taker => DemoTerms {
            side: Side::Buy,
            limit_price: 101,
            quantity: 40,
            time_in_force: TimeInForce::ImmediateOrCancel,
            expires_at,
        },
    }
}

/// Where a native intake keeps its journal, the file of the journal's key, and
/// the request that it is about.
pub struct IntakeSettings {
    pub journal: String,
    pub journal_key: String,
    pub request_id: String,
}

/// Read the settings of a native intake. All three are needed.
pub fn intake_settings(
    journal: Option<String>,
    journal_key: Option<String>,
    request_id: Option<String>,
) -> (r: Result<IntakeSettings, String>)
    ensures
        r is Ok == (journal is Some && journal_key is Some && request_id is Some),
        r matches Ok(settings) ==> settings.journal@ == (journal->0)@ && settings.journal_key@
            == (journal_key->0)@ && settings.request_id@ == (request_id->0)@,
        r matches Err(e) ==> e@ == (if journal is None {
            "native intake requires a durable corporate journal path"@
        } else if journal_key is None {
            "native intake requires a private corporate journal key file"@
        } else {
            "native intake requires a stable corporate request ID"@
        }),
{
    match (journal, journal_key, request_id) {
        (None, _, _) => Err("native intake requires a durable corporate journal path".to_owned()),
        (_, None, _) => Err(
            "native intake requires a private corporate journal key file".to_owned(),
        ),
        (_, _, None) => Err("native intake requires a stable corporate request ID".to_owned()),
        (Some(journal), Some(journal_key), Some(request_id)) => Ok(
            IntakeSettings { journal, journal_key, request_id },
        ),
    }
}

/// A demonstration order with the values that make its commitment unlinkable.
pub struct DemoOrder {
    pub terms: DemoTerms,
    pub nonce: Digest32,
    pub salt: Digest32,
}

/// Why no demonstration order comes of its two draws, if none does.
pub open spec fn demo_draws_fault(
    nonce: Result<Vec<u8>, String>,
    salt: Result<Vec<u8>, String>,
) -> Option<Seq<char>> {
    if draw_fault(nonce, 32) is Some {
        draw_fault(nonce, 32)
    } else {
        draw_fault(salt, 32)
    }
}

impl DemoOrder {
    /// The order of a scenario with exactly the drawn nonce and salt.
    pub open spec fn made_of(
        &self,
        scenario: Scenario,
        now: u64,
        nonce: Result<Vec<u8>, String>,
        salt: Result<Vec<u8>, String>,
    ) -> bool {
        &&& self.terms == demo_terms(scenario, now)
        &&& self.nonce@ == (nonce->Ok_0)@
        &&& self.salt@ == (salt->Ok_0)@
    }

    /// Make a demonstration order of what was drawn for it.
    pub fn from_draws(
        scenario: Scenario,
        now: u64,
        nonce: Result<Vec<u8>, String>,
        salt: Result<Vec<u8>, String>,
    ) -> (r: Result<DemoOrder, String>)
        ensures
            r is Ok == demo_draws_fault(nonce, salt) is None,
            r matches Ok(order) ==> order.made_of(scenario, now, nonce, salt),
            r matches Err(e) ==> Some(e@) == demo_draws_fault(nonce, salt),
    {
        let nonce: Digest32 = match drawn_digest(nonce) {
            Err(e) => return Err(e),
            Ok(nonce) => nonce,
        };
        let salt: Digest32 = match drawn_digest(salt) {
            Err(e) => return Err(e),
            Ok(salt) => salt,
        };
        Ok(DemoOrder { terms: demo_order(scenario, now), nonce, salt })
    }
}

/// Draw the nonce and the salt of a demonstration order. Whatever the source
/// returns, the order is the one that `from_draws` makes of two draws of 32
/// bytes.
pub fn draw_demo_order(scenario: Scenario, now: u64) -> (r: Result<DemoOrder, String>)
    ensures
        r matches Ok(order) ==> order.terms == demo_terms(scenario, now),
        exists|nonce: Result<Vec<u8>, String>, salt: Result<Vec<u8>, String>|
            #![trigger demo_draws_fault(nonce, salt)]
            draw_sized(nonce, 32) && draw_sized(salt, 32) && match r {
                Ok(order) => demo_draws_fault(nonce, salt) is None && order.made_of(
                    scenario,
                    now,
                    nonce,
                    salt,
                ),
                Err(e) => demo_draws_fault(nonce, salt) == Some(e@),
            },
{
    let nonce: Result<Vec<u8>, String> = draw_bytes(32);
    let salt: Result<Vec<u8>, String> = draw_bytes(32);
    DemoOrder::from_draws(scenario, now, nonce, salt)
}

/// The commitment to an order's eligibility in the laboratory.
pub fn hidden_eligibility_commitment(nullifier: &Digest32, market: &str) -> (commitment: Digest32)
    ensures
        commitment@ == sha256(
            text_bytes("OCLOB:LAB-ELIGIBILITY-COMMITMENT:v1"@) + nullifier@ + text_bytes(market@),
        ),
{
    let mut body: Vec<u8> = Vec::new();
    push_text(&mut body, "OCLOB:LAB-ELIGIBILITY-COMMITMENT:v1");
    push_all(&mut body, nullifier);
    push_text(&mut body, market);
    assert(body@ =~= text_bytes("OCLOB:LAB-ELIGIBILITY-COMMITMENT:v1"@) + nullifier@ + text_bytes(
        market@,
    ));
    sha256_digest(body.as_slice())
}

/// The encoding that an instruction's digest is the hash of: a list of the
/// protocol's name, the market and the instruction. `market` and `instruction`
/// are the encodings of the two.
pub fn order_input(market: &[u8], instruction: &[u8]) -> (input: Vec<u8>)
    ensures
        input@ == text_bytes("[\"oclob-corporate-order-v1\","@) + market@ + text_bytes(","@)
            + instruction@ + text_bytes("]"@),
{
    let mut input: Vec<u8> = Vec::new();
    push_text(&mut input, "[\"oclob-corporate-order-v1\",");
    push_all(&mut input, market);
    push_text(&mut input, ",");
    push_all(&mut input, instruction);
    push_text(&mut input, "]");
    assert(input@ =~= text_bytes("[\"oclob-corporate-order-v1\","@) + market@ + text_bytes(","@)
        + instruction@ + text_bytes("]"@));
    input
}

/// The same for the demonstration's order.
pub fn demo_input(market: &[u8], scenario: Scenario) -> (input: Vec<u8>)
    ensures
        input@ == text_bytes("[\"oclob-demo-order-v1\","@) + market@ + text_bytes(
            match scenario {
                Scenario::Maker => ",\"sell-60-at-100-gtc\"]"@,
                Scenario::Taker => ",\"buy-40-at-101-ioc\"]"@,
            },
        ),
{
    let mut input: Vec<u8> = Vec::new();
    push_text(&mut input, "[\"oclob-demo-order-v1\",");
    push_all(&mut input, market);
    match scenario {
        Scenario::Maker => {
            push_text(&mut input, ",\"sell-60-at-100-gtc\"]");
            assert(input@ =~= text_bytes("[\"oclob-demo-order-v1\","@) + market@ + text_bytes(
                ",\"sell-60-at-100-gtc\"]"@,
            ));
        },
        Scenario::Taker => {
            push_text(&mut input, ",\"buy-40-at-101-ioc\"]");
            assert(input@ =~= text_bytes("[\"oclob-demo-order-v1\","@) + market@ + text_bytes(
                ",\"buy-40-at-101-ioc\"]"@,
            ));
        },
    }
    input
}

/// How a request's intake goes on.
#[derive(Clone, Copy, Debug, PartialEq, Eq, Structural)]
pub enum IntakeStep {
    /// Make the order and keep its intent.
    SaveIntent,
    /// Prepare the reservation and keep it.
    PrepareReserve,
    /// Go on with the reservation that was kept.
    Submit,
}

impl JournalView {
    /// How a request's intake goes on, or why it does not.
    pub open spec fn intake_step(self, id: Seq<char>, input_digest: Digest32) -> Result<
        IntakeStep,
        Seq<char>,
    > {
        match self.intent(id) {
            Err(text) => Err(text),
            Ok(None) => Ok(IntakeStep::SaveIntent),
            Ok(Some(intent)) => if intent.input_digest != input_digest {
                Err("corporate request ID names a different order instruction"@)
            } else if self.turn_fault(id) is Some {
                Err(self.turn_fault(id)->0)
            } else {
                match self.reserve(id) {
                    Err(text) => Err(text),
                    Ok(None) => Ok(IntakeStep::PrepareReserve),
                    Ok(Some(_)) => Ok(IntakeStep::Submit),
                }
            },
        }
    }

    /// Why an order cannot be cancelled, if it cannot.
    pub open spec fn cancel_fault(self, id: Seq<char>) -> Option<Seq<char>> {
        match self.intent(id) {
            Err(text) => Some(text),
            Ok(None) => Some("cancel has no original corporate intent"@),
            Ok(Some(_)) => match self.delivery(id) {
                Err(text) => Some(text),
                Ok(None) => Some("cancel has no admitted delivery"@),
                Ok(Some(delivery)) => match self.receipt(id) {
                    Err(text) => Some(text),
                    Ok(None) => Some("cancel has no admission receipt"@),
                    Ok(Some(receipt)) => if delivery.delivery.manifest.commitment
                        != receipt.manifest.commitment {
                        Some("cancel journal delivery differs from its receipt"@)
                    } else {
                        None
                    },
                },
            },
        }
    }
}

/// What an intake read and made for a new reserve: what the outside brings to
/// its mandate, the encoding with the signature, what the order says, the
/// secrets that were drawn, and the request that was built.
pub struct IntakeRead {
    pub read: ReserveRead,
    pub terms: MandateTerms,
    pub mandate_wire: Vec<u8>,
    pub order: OrderTerms,
    pub secrets: ReserveSecrets,
    pub built: Result<BuiltRequest, String>,
}

/// The reserve of an intent: its order, key and eligibility commitment, under
/// the mandate that was signed now.
pub open spec fn intake_reserve(
    prepared: &PreparedCorporateReserve,
    funding: &CorporateNativeConfig,
    intent: &StoredCorporateIntent,
    made: &IntakeRead,
    now: u64,
) -> bool {
    &&& prepared.request == request_of(
        mandate_of(funding, made.read.scope, made.terms, made.mandate_wire, now),
        &made.order,
        &made.secrets,
        &made.read.facility,
        made.built->Ok_0,
    )
    &&& prepared.order_wire@ == intent.order_wire@
    &&& prepared.signing_key == intent.signing_key
    &&& prepared.eligibility_commitment == intent.eligibility_commitment
    &&& prepared.side_blinding == made.secrets.side_blinding
    &&& prepared.reserve_blinding == made.secrets.reserve_blinding
    &&& facility_moves(
        &prepared.facility_after,
        funding,
        made.order.reservation_limit,
        made.read.facility.sequence,
        made.secrets.reserve_blinding,
    )
}

impl NativeCorporateJournal {
    /// Prepare the reserve of a request whose intent is kept: take the newest
    /// funding from the journal, make the reserve of it, and keep it.
    pub fn prepare_intake(
        &mut self,
        config: CorporateNativeConfig,
        id: &str,
        input_digest: &Digest32,
        source_note: &Option<Digest32>,
        made: IntakeRead,
        now: u64,
    ) -> (r: Result<(), String>)
        requires
            old(self).wf(),
            made.secrets.canonical(),
        ensures
            final(self).wf(),
            ({
                let before = old(self)@;
                match before.intake_step(id@, *input_digest) {
                    Err(text) => final(self)@ == before && (r matches Err(e) && e@ == text),
                    Ok(IntakeStep::PrepareReserve) => match before.latest_funding(
                        config.facility_id,
                    ) {
                        Err(text) => final(self)@ == before && (r matches Err(e) && e@ == text),
                        Ok(witness) => {
                            let funding = funded(config, witness);
                            let intent = before.intent(id@)->Ok_0->Some_0;
                            match reserve_fault(
                                &funding,
                                &made.read,
                                &made.order,
                                *source_note,
                                made.built,
                            ) {
                                Some(text) => final(self)@ == before && (r matches Err(e) && e@
                                    == text),
                                None => exists|prepared: PreparedCorporateReserve| #[trigger]
                                    intake_reserve(&prepared, &funding, &intent, &made, now) && {
                                        let (next, kept) = before.save_stage(
                                            id@,
                                            "reserve"@,
                                            JournalBody::Reserve(prepared),
                                        );
                                        &&& final(self)@ == next
                                        &&& match kept {
                                            Ok(_) => r is Ok,
                                            Err(text) => r matches Err(e) && e@ == text,
                                        }
                                    },
                            }
                        },
                    },
                    Ok(_) => final(self)@ == before && (r matches Err(e) && e@
                        == "corporate intake does not wait for a reserve"@),
                }
            }),
    {
        match self.intake_step(id, input_digest) {
            Err(e) => return Err(e),
            Ok(IntakeStep::PrepareReserve) => {},
            Ok(_) => return Err("corporate intake does not wait for a reserve".to_owned()),
        }
        let funding = match self.latest_funding(config) {
            Err(e) => return Err(e),
            Ok(funding) => funding,
        };
        let signed = match self.intent(id) {
            Err(e) => return Err(e),
            Ok(None) => {
                return Err("corporate intake does not wait for a reserve".to_owned());
            },
            Ok(Some(intent)) => SignedOrder {
                order_wire: copy_bytes(intent.order_wire.as_slice()),
                signing_key: intent.signing_key,
                eligibility_commitment: intent.eligibility_commitment,
            },
        };
        let ghost intent = self@.intent(id@)->Ok_0->Some_0;
        match prepare_reservation_from_note(
            &funding,
            &made.read,
            made.terms,
            made.mandate_wire,
            signed,
            &made.order,
            &made.secrets,
            source_note,
            made.built,
            now,
        ) {
            Err(e) => Err(e),
            Ok(prepared) => {
                assert(intake_reserve(&prepared, &funding, &intent, &made, now));
                self.save_stage(id, "reserve", JournalBody::Reserve(prepared))
            },
        }
    }

    /// How a request's intake goes on. A request identifier names one
    /// instruction for good.
    pub fn intake_step(&self, id: &str, input_digest: &Digest32) -> (r: Result<IntakeStep, String>)
        requires
            self.wf(),
        ensures
            text_result(r) == self@.intake_step(id@, *input_digest),
    {
        match self.intent(id) {
            Err(e) => return Err(e),
            Ok(None) => return Ok(IntakeStep::SaveIntent),
            Ok(Some(intent)) => {
                if !digest_equal(&intent.input_digest, input_digest) {
                    return Err(
                        "corporate request ID names a different order instruction".to_owned(),
                    );
                }
            },
        }
        match self.require_turn(id) {
            Err(e) => return Err(e),
            Ok(_) => {},
        }
        match self.reserve(id) {
            Err(e) => Err(e),
            Ok(None) => Ok(IntakeStep::PrepareReserve),
            Ok(Some(_)) => Ok(IntakeStep::Submit),
        }
    }

    /// Check that an order can be cancelled: it was admitted, and everything
    /// that the cancellation refers to is kept.
    pub fn check_cancellable(&self, id: &str) -> (r: Result<(), String>)
        requires
            self.wf(),
        ensures
            r is Ok == self@.cancel_fault(id@) is None,
            r matches Err(e) ==> Some(e@) == self@.cancel_fault(id@),
    {
        match self.intent(id) {
            Err(e) => return Err(e),
            Ok(None) => return Err("cancel has no original corporate intent".to_owned()),
            Ok(Some(_)) => {},
        }
        let delivered = match self.delivery(id) {
            Err(e) => return Err(e),
            Ok(None) => return Err("cancel has no admitted delivery".to_owned()),
            Ok(Some(delivery)) => delivery.delivery.manifest.commitment,
        };
        let admitted = match self.receipt(id) {
            Err(e) => return Err(e),
            Ok(None) => return Err("cancel has no admission receipt".to_owned()),
            Ok(Some(receipt)) => receipt.commitment(),
        };
        if !delivered.same(&admitted) {
            return Err("cancel journal delivery differs from its receipt".to_owned());
        }
        Ok(())
    }
}

/// How long a cancellation lives at most, in seconds.
pub const CANCEL_SECONDS: u64 = 900;

/// When a cancellation that is signed now expires: with its order, and after a
/// quarter of an hour at the latest.
pub fn cancellation_expiry(now: u64, retention_deadline: u64) -> (at: u64)
    requires
        now + CANCEL_SECONDS <= u64::MAX,
    ensures
        at == (if now + CANCEL_SECONDS < retention_deadline {
            now + CANCEL_SECONDS
        } else {
            retention_deadline as int
        }),
{
    if now + CANCEL_SECONDS < retention_deadline {
        now + CANCEL_SECONDS
    } else {
        retention_deadline
    }
}

/// Check a handoff that is there already. `raced` tells whether another writer
/// put it there just now.
pub fn check_published(existing: &[u8], value: &[u8], raced: bool) -> (r: Result<(), String>)
    ensures
        r is Ok == (existing@ == value@),
        r matches Err(e) ==> e@ == (if raced {
            "another writer published a different request"@
        } else {
            "public handoff already contains a different request"@
        }),
{
    if !bytes_equal(existing, value) {
        return Err(
            if raced {
                "another writer published a different request".to_owned()
            } else {
                "public handoff already contains a different request".to_owned()
            },
        );
    }
    Ok(())
}

/// What a wallet holds after it was recovered from the ledger.
pub struct RecoveredWallet {
    pub facility_values: [u64; 3],
    pub facility_sequence: u64,
    pub notes: usize,
    pub unfilled_release_notes: Vec<Digest32>,
    pub own_asset_refund: Option<Digest32>,
}

/// An order to be placed next, and the file that it is kept in.
pub struct NextOrder {
    pub path: String,
    pub instruction: NativeOrderInstruction,
}

/// What follows the recovery of a wallet.
pub enum WalletStep {
    /// Say what was recovered; nothing is asserted of it.
    Report,
    /// The funds of a queued request came back: place the next order, and say
    /// so.
    QueuedExpiry(NextOrder),
    /// The balances are the expected ones. There may be a next order to place.
    Accepted(Option<NextOrder>),
}

/// What a wallet's acceptance is asked for.
#[derive(Clone, Copy, Debug, PartialEq, Eq, Structural)]
pub enum WalletAcceptance {
    Unasked,
    First,
    CycleFirst,
    CycleFinal,
    CancelFinal,
    ExpiryFinal,
    QueuedExpiry,
}

pub open spec fn acceptance_named(name: Seq<char>) -> WalletAcceptance {
    if name == "queued-expiry"@ {
        WalletAcceptance::QueuedExpiry
    } else if name == "1"@ {
        WalletAcceptance::First
    } else if name == "cycle-first"@ {
        WalletAcceptance::CycleFirst
    } else if name == "cycle-final"@ {
        WalletAcceptance::CycleFinal
    } else if name == "cancel-final"@ {
        WalletAcceptance::CancelFinal
    } else if name == "expiry-final"@ {
        WalletAcceptance::ExpiryFinal
    } else {
        WalletAcceptance::Unasked
    }
}

fn acceptance_of(name: &str) -> (acceptance: WalletAcceptance)
    ensures
        acceptance == acceptance_named(name@),
{
    if text_equal(name, "queued-expiry") {
        WalletAcceptance::QueuedExpiry
    } else if text_equal(name, "1") {
        WalletAcceptance::First
    } else if text_equal(name, "cycle-first") {
        WalletAcceptance::CycleFirst
    } else if text_equal(name, "cycle-final") {
        WalletAcceptance::CycleFinal
    } else if text_equal(name, "cancel-final") {
        WalletAcceptance::CancelFinal
    } else if text_equal(name, "expiry-final") {
        WalletAcceptance::ExpiryFinal
    } else {
        WalletAcceptance::Unasked
    }
}

/// The balances that the executed fills leave: what is free, held and received,
/// the facility's place, and the number of notes.
pub open spec fn expected_wallet(acceptance: WalletAcceptance, scenario: Scenario) -> (
    (u64, u64, u64),
    u64,
    usize,
) {
    match (acceptance, scenario) {
        (WalletAcceptance::CycleFirst, Scenario::Maker) => ((0, 30, 90), 4, 2),
        (WalletAcceptance::CycleFirst, Scenario::Taker) => ((970, 0, 9030), 3, 3),
        (WalletAcceptance::CycleFinal, Scenario::Maker) => ((0, 29, 91), 5, 3),
        (WalletAcceptance::CycleFinal, Scenario::Taker) => ((869, 0, 9131), 5, 5),
        (WalletAcceptance::CancelFinal, Scenario::Maker) => ((29, 0, 91), 6, 4),
        (WalletAcceptance::ExpiryFinal, Scenario::Maker) => ((29, 0, 91), 8, 4),
        (_, Scenario::Maker) => ((60, 20, 40), 2, 1),
        (_, Scenario::Taker) => ((6000, 0, 4000), 2, 2),
    }
}

fn wallet_expected(acceptance: WalletAcceptance, scenario: Scenario) -> (expected: (
    (u64, u64, u64),
    u64,
    usize,
))
    ensures
        expected == expected_wallet(acceptance, scenario),
{
    match (acceptance, scenario) {
        (WalletAcceptance::CycleFirst, Scenario::Maker) => ((0, 30, 90), 4, 2),
        (WalletAcceptance::CycleFirst, Scenario::Taker) => ((970, 0, 9030), 3, 3),
        (WalletAcceptance::CycleFinal, Scenario::Maker) => ((0, 29, 91), 5, 3),
        (WalletAcceptance::CycleFinal, Scenario::Taker) => ((869, 0, 9131), 5, 5),
        (WalletAcceptance::CancelFinal, Scenario::Maker) => ((29, 0, 91), 6, 4),
        (WalletAcceptance::ExpiryFinal, Scenario::Maker) => ((29, 0, 91), 8, 4),
        (_, Scenario::Maker) => ((60, 20, 40), 2, 1),
        (_, Scenario::Taker) => ((6000, 0, 4000), 2, 2),
    }
}

/// An order that is good until cancelled and spends a note.
pub open spec fn places(
    order: NextOrder,
    path: Seq<char>,
    side: Side,
    limit_price: u64,
    quantity: u64,
    valid_for_seconds: u64,
    note: Digest32,
) -> bool {
    let instruction = order.instruction;
    &&& order.path@ == path
    &&& instruction.side == side
    &&& instruction.limit_price == limit_price
    &&& instruction.quantity == quantity
    &&& instruction.time_in_force is GoodTilCancelled
    &&& instruction.valid_for_seconds == valid_for_seconds
    &&& instruction.source_note matches Some(text) && text@ == hex_text(note@)
}

fn next_order(
    path: &str,
    side: Side,
    limit_price: u64,
    quantity: u64,
    valid_for_seconds: u64,
    note: &Digest32,
) -> (order: NextOrder)
    ensures
        places(order, path@, side, limit_price, quantity, valid_for_seconds, *note),
{
    NextOrder {
        path: path.to_owned(),
        instruction: NativeOrderInstruction {
            side,
            limit_price,
            quantity,
            time_in_force: TimeInForce::GoodTilCancelled,
            valid_for_seconds,
            source_note: Some(hex_encode(note)),
        },
    }
}

/// Whether a refund has to be there for the next order of a scenario, and what
/// is said where it is not.
pub open spec fn refund_needed(acceptance: WalletAcceptance, scenario: Scenario) -> Option<
    Seq<char>,
> {
    if acceptance is CancelFinal {
        Some("cancellation refund is absent"@)
    } else if scenario is Taker && (acceptance is First || acceptance is CycleFirst) {
        Some("actual cash refund note was not recovered"@)
    } else {
        None
    }
}

/// Whether a queued request's funds came back untouched.
pub open spec fn queued_funds_restored(
    scenario: Scenario,
    recovered: &RecoveredWallet,
    configured: [u64; 3],
) -> bool {
    &&& scenario is Maker
    &&& recovered.facility_sequence == 2
    &&& recovered.facility_values@ == configured@
    &&& recovered.unfilled_release_notes@.len() == 1
    &&& recovered.notes == 0
}

/// Why a recovered wallet is not accepted, if it is not.
pub open spec fn wallet_acceptance_fault(
    acceptance: WalletAcceptance,
    scenario: Scenario,
    recovered: &RecoveredWallet,
    configured: [u64; 3],
) -> Option<Seq<char>> {
    if acceptance is Unasked {
        None
    } else if acceptance is QueuedExpiry {
        if queued_funds_restored(scenario, recovered, configured) {
            None
        } else {
            Some("queued expiry did not restore the original corporate funds"@)
        }
    } else {
        let (values, sequence, notes) = expected_wallet(acceptance, scenario);
        if recovered.facility_values@ != seq![values.0, values.1, values.2]
            || recovered.facility_sequence != sequence || recovered.notes != notes {
            Some("lab wallet recovery differs from the executed native fill"@)
        } else if recovered.own_asset_refund is None {
            refund_needed(acceptance, scenario)
        } else {
            None
        }
    }
}

/// What follows the recovery of a wallet that is accepted.
pub open spec fn wallet_goes_on(
    step: WalletStep,
    acceptance: WalletAcceptance,
    scenario: Scenario,
    recovered: &RecoveredWallet,
) -> bool {
    match acceptance {
        WalletAcceptance::Unasked => step is Report,
        WalletAcceptance::QueuedExpiry => step matches WalletStep::QueuedExpiry(order) && places(
            order,
            "/corporate/queued-expiry-reuse.json"@,
            Side::Sell,
            102,
            5,
            600,
            recovered.unfilled_release_notes@[0],
        ),
        _ => step matches WalletStep::Accepted(next) && (if acceptance is CancelFinal {
            next matches Some(order) && places(
                order,
                "/corporate/expiry-order.json"@,
                Side::Sell,
                102,
                5,
                60,
                recovered.own_asset_refund->0,
            )
        } else if scenario is Taker && acceptance is CycleFirst {
            next matches Some(order) && places(
                order,
                "/corporate/cycle-reuse-order.json"@,
                Side::Buy,
                101,
                1,
                600,
                recovered.own_asset_refund->0,
            )
        } else if scenario is Taker && acceptance is First {
            next matches Some(order) && places(
                order,
                "/corporate/reuse-order.json"@,
                Side::Buy,
                40,
                1,
                600,
                recovered.own_asset_refund->0,
            )
        } else {
            next is None
        }),
    }
}

fn three_equal(a: &[u64; 3], x: u64, y: u64, z: u64) -> (same: bool)
    ensures
        same == (a@ == seq![x, y, z]),
{
    let same: bool = a[0] == x && a[1] == y && a[2] == z;
    assert(same ==> a@ =~= seq![x, y, z]);
    assert(a@ == seq![x, y, z] ==> a@[0] == x && a@[1] == y && a@[2] == z);
    same
}

/// Accept a recovered wallet, and find what follows. Fixed financial
/// assertions belong to the named acceptances alone; without one the recovery
/// is only reported.
pub fn recover_native_wallet(
    acceptance: &str,
    scenario: Scenario,
    recovered: &RecoveredWallet,
    configured: &[u64; 3],
) -> (r: Result<WalletStep, String>)
    ensures
        ({
            let asked = acceptance_named(acceptance@);
            let fault = wallet_acceptance_fault(asked, scenario, recovered, *configured);
            &&& r is Ok == fault is None
            &&& r matches Err(e) ==> Some(e@) == fault
            &&& r matches Ok(step) ==> wallet_goes_on(step, asked, scenario, recovered)
        }),
{
    let asked = acceptance_of(acceptance);
    if asked == WalletAcceptance::Unasked {
        return Ok(WalletStep::Report);
    }
    if asked == WalletAcceptance::QueuedExpiry {
        let restored: bool = three_equal(
            &recovered.facility_values,
            configured[0],
            configured[1],
            configured[2],
        );
        assert(seq![configured@[0], configured@[1], configured@[2]] =~= configured@);
        if scenario != Scenario::Maker || recovered.facility_sequence != 2 || !restored
            || recovered.unfilled_release_notes.len() != 1 || recovered.notes != 0 {
            return Err("queued expiry did not restore the original corporate funds".to_owned());
        }
        return Ok(
            WalletStep::QueuedExpiry(
                next_order(
                    "/corporate/queued-expiry-reuse.json",
                    Side::Sell,
                    102,
                    5,
                    600,
                    &recovered.unfilled_release_notes[0],
                ),
            ),
        );
    }
    let (values, sequence, notes) = wallet_expected(asked, scenario);
    if !three_equal(&recovered.facility_values, values.0, values.1, values.2)
        || recovered.facility_sequence != sequence || recovered.notes != notes {
        return Err("lab wallet recovery differs from the executed native fill".to_owned());
    }
    if asked == WalletAcceptance::CancelFinal {
        return match &recovered.own_asset_refund {
            None => Err("cancellation refund is absent".to_owned()),
            Some(note) => Ok(
                WalletStep::Accepted(
                    Some(
                        next_order(
                            "/corporate/expiry-order.json",
                            Side::Sell,
                            102,
                            5,
                            60,
                            note,
                        ),
                    ),
                ),
            ),
        };
    }
    if scenario == Scenario::Taker && (asked == WalletAcceptance::First || asked
        == WalletAcceptance::CycleFirst) {
        let note = match &recovered.own_asset_refund {
            None => return Err("actual cash refund note was not recovered".to_owned()),
            Some(note) => note,
        };
        let order = if asked == WalletAcceptance::CycleFirst {
            next_order("/corporate/cycle-reuse-order.json", Side::Buy, 101, 1, 600, note)
        } else {
            next_order("/corporate/reuse-order.json", Side::Buy, 40, 1, 600, note)
        };
        return Ok(WalletStep::Accepted(Some(order)));
    }
    Ok(WalletStep::Accepted(None))
}

/// The order that follows a recovery spends exactly the recovered note: its
/// instruction reads back as that note.
pub proof fn lemma_next_order_spends_the_note(
    order: NextOrder,
    path: Seq<char>,
    side: Side,
    limit_price: u64,
    quantity: u64,
    valid_for_seconds: u64,
    note: Digest32,
)
    requires
        places(order, path, side, limit_price, quantity, valid_for_seconds, note),
    ensures
        order.instruction.source_fault() is None,
        hex_bytes(text_bytes((order.instruction.source_note->0)@)) == note@,
{
    crate::bytes::lemma_hex_round_trip(note@);
}

} // verus!
