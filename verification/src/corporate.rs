//! Pretrade path owned by the corporate participant, not the coordinator.

use crate::bytes::{
    bytes_equal, copy_bytes, digest_equal, digest_is_zero, is_zero, sha256_digest, sha256_value,
    Digest32,
};
use crate::chance::{draw_bytes, draw_fault, draw_sized, drawn_digest, drawn_scalar, reduced};
use crate::market_network::MarketEndpoint;
use crate::scalars::{
    canonical_scalar, group_order, little_endian_value, scalar_difference, scalar_is_canonical,
    scalar_sum,
};
use crate::text_map::text_equal;
use crate::types::Side;
use vstd::prelude::*;

verus! {

/// The amount width that the application binds.
pub const AMOUNT_BITS: u32 = 32;

/// Owner-only corporate configuration. Never mount this file in an MPC node
/// or coordinator container. Facility witness order: available, held,
/// outstanding.
pub struct CorporateNativeConfig {
    pub host: String,
    pub port: u16,
    pub server_name: String,
    /// Where the market asks this participant for claim authorizations.
    pub claim_authorization_endpoint: MarketEndpoint,
    pub venue_id: Digest32,
    pub defmi_id: Digest32,
    pub issuer_public: Vec<u8>,
    pub facility_id: Digest32,
    pub asset_id: Digest32,
    pub facility_values: [u64; 3],
    pub facility_blindings: [Digest32; 3],
    pub wallet_spend_secret: Digest32,
    /// Independent key-exchange seeds; required on backup and restore.
    pub wallet_opening_seed: Vec<u8>,
    /// Separate recipient key for encrypted holder custody.
    pub credential_custody_seed: Vec<u8>,
    pub identity_seed: Digest32,
}

impl CorporateNativeConfig {
    /// Why there is no credential custody key, if there is none: its seed has 96
    /// bytes and is not that of the note opening key.
    pub open spec fn custody_fault(&self) -> Option<Seq<char>> {
        if self.credential_custody_seed@.len() != 96 {
            Some("corporate credential custody requires its independent 96-byte seed"@)
        } else if self.credential_custody_seed@ == self.wallet_opening_seed@ {
            Some("credential custody and note delivery require separate keys"@)
        } else {
            None
        }
    }

    /// The seed of the credential custody key.
    pub fn credential_custody_key(&self) -> (r: Result<&Vec<u8>, String>)
        ensures
            r is Ok == self.custody_fault() is None,
            r matches Ok(seed) ==> seed@ == self.credential_custody_seed@,
            r matches Err(e) ==> Some(e@) == self.custody_fault(),
    {
        if self.credential_custody_seed.len() != 96 {
            return Err(
                "corporate credential custody requires its independent 96-byte seed".to_owned(),
            );
        }
        if bytes_equal(
            self.credential_custody_seed.as_slice(),
            self.wallet_opening_seed.as_slice(),
        ) {
            return Err("credential custody and note delivery require separate keys".to_owned());
        }
        Ok(&self.credential_custody_seed)
    }

    /// The seed of the note opening key.
    pub fn note_opening_key(&self) -> (r: Result<&Vec<u8>, String>)
        ensures
            r is Ok == (self.wallet_opening_seed@.len() == 96),
            r matches Ok(seed) ==> seed@ == self.wallet_opening_seed@,
            r matches Err(e) ==> e@
                == "corporate wallet requires its independent 96-byte opening seed"@,
    {
        if self.wallet_opening_seed.len() != 96 {
            return Err(
                "corporate wallet requires its independent 96-byte opening seed".to_owned(),
            );
        }
        Ok(&self.wallet_opening_seed)
    }
}

/// Private witness of one canonical facility generation. Only the encrypted
/// corporate journal stores these values, and commitment readback validates
/// them.
#[derive(Clone, Copy, Debug, PartialEq, Eq)]
pub struct FacilityWitness {
    pub facility_id: Digest32,
    pub sequence: u64,
    pub values: [u64; 3],
    pub blindings: [Digest32; 3],
}

impl FacilityWitness {
    pub open spec fn blindings_canonical(&self) -> bool {
        &&& canonical_scalar(self.blindings@[0]@)
        &&& canonical_scalar(self.blindings@[1]@)
        &&& canonical_scalar(self.blindings@[2]@)
    }

    /// The commitments to the three values. `committed` is what the commitment
    /// library gives for them; blindings that are not canonical commit to
    /// nothing.
    pub fn commitments(&self, committed: &[Digest32; 3]) -> (r: Result<[Digest32; 3], String>)
        ensures
            r is Ok == self.blindings_canonical(),
            r matches Ok(c) ==> c == *committed,
            r matches Err(e) ==> e@ == "corporate scalar encoding is invalid"@,
    {
        if !scalar_is_canonical(&self.blindings[0]) || !scalar_is_canonical(&self.blindings[1])
            || !scalar_is_canonical(&self.blindings[2]) {
            return Err("corporate scalar encoding is invalid".to_owned());
        }
        Ok(*committed)
    }
}

pub fn three_digests_equal(a: &[Digest32; 3], b: &[Digest32; 3]) -> (same: bool)
    ensures
        same == (*a == *b),
{
    let same: bool = digest_equal(&a[0], &b[0]) && digest_equal(&a[1], &b[1]) && digest_equal(
        &a[2],
        &b[2],
    );
    proof {
        if same {
            assert forall|i: int| 0 <= i < 3 implies a[i] == b[i] by {
                assert(a@[0] == b@[0] && a@[1] == b@[1] && a@[2] == b@[2]);
            }
            assert(*a =~= *b);
        }
    }
    same
}

/// The part of DeFMI's application scope that the corporate side pins.
#[derive(Clone, Copy, Debug, PartialEq, Eq)]
pub struct ReserveScope {
    pub application_binding: Digest32,
    pub venue_id: Digest32,
    pub defmi_id: Digest32,
    pub amount_bits: u32,
}

impl ReserveScope {
    /// The scope of the configured deployment. `manifest` is the digest of the
    /// application manifest.
    pub open spec fn configured(&self, config: &CorporateNativeConfig, manifest: Digest32) -> bool {
        &&& self.venue_id == config.venue_id
        &&& self.defmi_id == config.defmi_id
        &&& self.application_binding == manifest
        &&& self.amount_bits == AMOUNT_BITS
    }

    pub fn is_configured(&self, config: &CorporateNativeConfig, manifest: &Digest32) -> (same: bool)
        ensures
            same == self.configured(config, *manifest),
    {
        digest_equal(&self.venue_id, &config.venue_id) && digest_equal(
            &self.defmi_id,
            &config.defmi_id,
        ) && digest_equal(&self.application_binding, manifest) && self.amount_bits == AMOUNT_BITS
    }
}

/// Check the scope that DeFMI reports.
pub fn check_scope(scope: &ReserveScope, config: &CorporateNativeConfig, manifest: &Digest32) -> (r:
    Result<(), String>)
    ensures
        r is Ok == scope.configured(config, *manifest),
        r matches Err(e) ==> e@ == "DeFMI returned another configured application scope"@,
{
    if !scope.is_configured(config, manifest) {
        return Err("DeFMI returned another configured application scope".to_owned());
    }
    Ok(())
}

/// A participant's signed instruction to reserve. `wire` is the encoding of
/// the whole mandate, signature included.
pub struct ReserveMandate {
    pub version: u16,
    pub scope: ReserveScope,
    pub request_commitment: Digest32,
    pub facility_id: Digest32,
    pub hold_id: Digest32,
    pub asset_id: Digest32,
    pub amount_commitment: Digest32,
    pub participant_handle: Digest32,
    pub entity_commitment: Digest32,
    pub credential_digest: Digest32,
    pub settlement_terms_commitment: Digest32,
    pub valid_from: u64,
    pub valid_until: u64,
    pub participant_public: Vec<u8>,
    pub wire: Vec<u8>,
}

impl ReserveMandate {
    /// Mandates with one encoding are one mandate.
    pub open spec fn same_as(&self, other: &ReserveMandate) -> bool {
        self.wire@ == other.wire@
    }

    /// Mandates that agree in every field.
    pub open spec fn equals(&self, other: &ReserveMandate) -> bool {
        &&& self.version == other.version
        &&& self.scope == other.scope
        &&& self.request_commitment == other.request_commitment
        &&& self.facility_id == other.facility_id
        &&& self.hold_id == other.hold_id
        &&& self.asset_id == other.asset_id
        &&& self.amount_commitment == other.amount_commitment
        &&& self.participant_handle == other.participant_handle
        &&& self.entity_commitment == other.entity_commitment
        &&& self.credential_digest == other.credential_digest
        &&& self.settlement_terms_commitment == other.settlement_terms_commitment
        &&& self.valid_from == other.valid_from
        &&& self.valid_until == other.valid_until
        &&& self.participant_public@ == other.participant_public@
        &&& self.wire@ == other.wire@
    }

    pub fn copy(&self) -> (copy: ReserveMandate)
        ensures
            copy.equals(self),
    {
        ReserveMandate {
            version: self.version,
            scope: self.scope,
            request_commitment: self.request_commitment,
            facility_id: self.facility_id,
            hold_id: self.hold_id,
            asset_id: self.asset_id,
            amount_commitment: self.amount_commitment,
            participant_handle: self.participant_handle,
            entity_commitment: self.entity_commitment,
            credential_digest: self.credential_digest,
            settlement_terms_commitment: self.settlement_terms_commitment,
            valid_from: self.valid_from,
            valid_until: self.valid_until,
            participant_public: copy_bytes(self.participant_public.as_slice()),
            wire: copy_bytes(self.wire.as_slice()),
        }
    }
}

/// What the order, identity and commitment libraries bring to a new mandate.
/// The amount commitment opens under the reserve blinding, the commitment to
/// the settlement terms under the side blinding.
pub struct MandateTerms {
    pub request_commitment: Digest32,
    pub reservation_id: Digest32,
    pub amount_commitment: Digest32,
    pub participant_handle: Digest32,
    pub entity_commitment: Digest32,
    pub credential_digest: Digest32,
    pub settlement_terms_commitment: Digest32,
    pub expires_at: u64,
    pub participant_public: Vec<u8>,
}

/// The version of a mandate.
pub const MANDATE_VERSION: u16 = 2;

/// The mandate over a scope and an order's terms, from now until the order
/// expires.
pub open spec fn mandate_of(
    config: &CorporateNativeConfig,
    scope: ReserveScope,
    terms: MandateTerms,
    wire: Vec<u8>,
    now: u64,
) -> ReserveMandate {
    ReserveMandate {
        version: MANDATE_VERSION,
        scope,
        request_commitment: terms.request_commitment,
        facility_id: config.facility_id,
        hold_id: terms.reservation_id,
        asset_id: config.asset_id,
        amount_commitment: terms.amount_commitment,
        participant_handle: terms.participant_handle,
        entity_commitment: terms.entity_commitment,
        credential_digest: terms.credential_digest,
        settlement_terms_commitment: terms.settlement_terms_commitment,
        valid_from: now,
        valid_until: terms.expires_at,
        participant_public: terms.participant_public,
        wire,
    }
}

/// Write the mandate of a new order. `wire` is its encoding with the signature.
pub fn write_mandate(
    config: &CorporateNativeConfig,
    scope: &ReserveScope,
    terms: MandateTerms,
    wire: Vec<u8>,
    now: u64,
) -> (mandate: ReserveMandate)
    ensures
        mandate == mandate_of(config, *scope, terms, wire, now),
{
    ReserveMandate {
        version: MANDATE_VERSION,
        scope: *scope,
        request_commitment: terms.request_commitment,
        facility_id: config.facility_id,
        hold_id: terms.reservation_id,
        asset_id: config.asset_id,
        amount_commitment: terms.amount_commitment,
        participant_handle: terms.participant_handle,
        entity_commitment: terms.entity_commitment,
        credential_digest: terms.credential_digest,
        settlement_terms_commitment: terms.settlement_terms_commitment,
        valid_from: now,
        valid_until: terms.expires_at,
        participant_public: terms.participant_public,
        wire,
    }
}

/// A reservation request as it is sent. `wire` is its exact encoding.
pub struct ReserveRequest {
    pub mandate: ReserveMandate,
    pub order_commitment: Digest32,
    pub order_authorization_salt: Digest32,
    pub reserve_reblinding: Digest32,
    pub before_sequence: u64,
    pub before: [Digest32; 3],
    pub after: [Digest32; 3],
    pub wire: Vec<u8>,
}

/// Persist encrypted BEFORE the first reserve RPC. These bytes cannot be sent
/// to the issuer, coordinator, logs or nodes; only `request` crosses to DeFMI.
pub struct PreparedCorporateReserve {
    pub request: ReserveRequest,
    pub order_wire: Vec<u8>,
    pub signing_key: [u8; 64],
    pub eligibility_commitment: Digest32,
    pub side_blinding: Digest32,
    pub reserve_blinding: Digest32,
    pub facility_after: FacilityWitness,
}

/// What the order and commitment libraries derive from a prepared reserve: the
/// order's terms, and the values that the mandate has to repeat.
pub struct ReserveFacts {
    pub application_binding: Digest32,
    pub reservation_id: Digest32,
    pub order_commitment: Digest32,
    pub participant_public: Vec<u8>,
    pub request_commitment: Digest32,
    pub amount_commitment: Digest32,
    pub settlement_terms_commitment: Digest32,
    pub facility_after_commitments: [Digest32; 3],
}

/// The text of a reserve that does not match.
pub open spec fn reserve_mismatch() -> Seq<char> {
    "saved corporate reserve does not match the configured order or funding witness"@
}

pub open spec fn scalar_invalid() -> Seq<char> {
    "corporate scalar encoding is invalid"@
}

impl PreparedCorporateReserve {
    /// Reserves that agree in every field.
    pub open spec fn equals(&self, other: &PreparedCorporateReserve) -> bool {
        &&& self.request.mandate.equals(&other.request.mandate)
        &&& self.request.order_commitment == other.request.order_commitment
        &&& self.request.order_authorization_salt == other.request.order_authorization_salt
        &&& self.request.reserve_reblinding == other.request.reserve_reblinding
        &&& self.request.before_sequence == other.request.before_sequence
        &&& self.request.before == other.request.before
        &&& self.request.after == other.request.after
        &&& self.request.wire@ == other.request.wire@
        &&& self.order_wire@ == other.order_wire@
        &&& self.signing_key == other.signing_key
        &&& self.eligibility_commitment == other.eligibility_commitment
        &&& self.side_blinding == other.side_blinding
        &&& self.reserve_blinding == other.reserve_blinding
        &&& self.facility_after == other.facility_after
    }

    pub fn copy(&self) -> (copy: PreparedCorporateReserve)
        ensures
            copy.equals(self),
    {
        PreparedCorporateReserve {
            request: ReserveRequest {
                mandate: self.request.mandate.copy(),
                order_commitment: self.request.order_commitment,
                order_authorization_salt: self.request.order_authorization_salt,
                reserve_reblinding: self.request.reserve_reblinding,
                before_sequence: self.request.before_sequence,
                before: self.request.before,
                after: self.request.after,
                wire: copy_bytes(self.request.wire.as_slice()),
            },
            order_wire: copy_bytes(self.order_wire.as_slice()),
            signing_key: self.signing_key,
            eligibility_commitment: self.eligibility_commitment,
            side_blinding: self.side_blinding,
            reserve_blinding: self.reserve_blinding,
            facility_after: self.facility_after,
        }
    }

    /// The parts of a reserve that are compared before any scalar is decoded.
    pub open spec fn terms_match(&self, config: &CorporateNativeConfig, facts: &ReserveFacts) -> bool {
        let mandate = self.request.mandate;
        &&& mandate.scope.application_binding == facts.application_binding
        &&& mandate.scope.venue_id == config.venue_id
        &&& mandate.scope.defmi_id == config.defmi_id
        &&& mandate.facility_id == config.facility_id
        &&& mandate.asset_id == config.asset_id
        &&& mandate.hold_id == facts.reservation_id
        &&& self.request.order_commitment == facts.order_commitment
        &&& mandate.participant_public@ == facts.participant_public@
        &&& mandate.request_commitment == facts.request_commitment
    }

    /// Why a saved reserve does not fit its order and deployment, if it does
    /// not: the first thing that is wrong.
    pub open spec fn fault(
        &self,
        config: &CorporateNativeConfig,
        facts: Result<ReserveFacts, String>,
    ) -> Option<Seq<char>> {
        match facts {
            Err(text) => Some(text@),
            Ok(facts) => if !self.terms_match(config, &facts) {
                Some(reserve_mismatch())
            } else if !canonical_scalar(self.reserve_blinding@) {
                Some(scalar_invalid())
            } else if self.request.mandate.amount_commitment != facts.amount_commitment {
                Some(reserve_mismatch())
            } else if !canonical_scalar(self.side_blinding@) {
                Some(scalar_invalid())
            } else if self.request.mandate.settlement_terms_commitment
                != facts.settlement_terms_commitment || self.facility_after.facility_id
                != config.facility_id || self.facility_after.sequence
                != self.request.before_sequence + 1 {
                Some(reserve_mismatch())
            } else if !self.facility_after.blindings_canonical() {
                Some(scalar_invalid())
            } else if facts.facility_after_commitments != self.request.after {
                Some(reserve_mismatch())
            } else if !canonical_scalar(self.request.reserve_reblinding@) {
                Some(scalar_invalid())
            } else {
                None
            },
        }
    }

    pub fn validate(&self, config: &CorporateNativeConfig, facts: &Result<ReserveFacts, String>) -> (r:
        Result<(), String>)
        ensures
            r is Ok == self.fault(config, *facts) is None,
            r matches Err(e) ==> Some(e@) == self.fault(config, *facts),
    {
        let facts: &ReserveFacts = match facts {
            Err(text) => return Err(text.clone()),
            Ok(found) => found,
        };
        let mandate = &self.request.mandate;
        if !digest_equal(&mandate.scope.application_binding, &facts.application_binding)
            || !digest_equal(&mandate.scope.venue_id, &config.venue_id) || !digest_equal(
            &mandate.scope.defmi_id,
            &config.defmi_id,
        ) || !digest_equal(&mandate.facility_id, &config.facility_id) || !digest_equal(
            &mandate.asset_id,
            &config.asset_id,
        ) || !digest_equal(&mandate.hold_id, &facts.reservation_id) || !digest_equal(
            &self.request.order_commitment,
            &facts.order_commitment,
        ) || !bytes_equal(
            mandate.participant_public.as_slice(),
            facts.participant_public.as_slice(),
        ) || !digest_equal(&mandate.request_commitment, &facts.request_commitment) {
            return Err(mismatch_text());
        }
        if !scalar_is_canonical(&self.reserve_blinding) {
            return Err(scalar_text());
        }
        if !digest_equal(&mandate.amount_commitment, &facts.amount_commitment) {
            return Err(mismatch_text());
        }
        if !scalar_is_canonical(&self.side_blinding) {
            return Err(scalar_text());
        }
        let follows: bool = match self.request.before_sequence.checked_add(1) {
            Some(next) => self.facility_after.sequence == next,
            None => false,
        };
        if !digest_equal(
            &mandate.settlement_terms_commitment,
            &facts.settlement_terms_commitment,
        ) || !digest_equal(&self.facility_after.facility_id, &config.facility_id) || !follows {
            return Err(mismatch_text());
        }
        match self.facility_after.commitments(&facts.facility_after_commitments) {
            Err(e) => return Err(e),
            Ok(commitments) => {
                if !three_digests_equal(&commitments, &self.request.after) {
                    return Err(mismatch_text());
                }
            },
        }
        if !scalar_is_canonical(&self.request.reserve_reblinding) {
            return Err(scalar_text());
        }
        Ok(())
    }
}

fn mismatch_text() -> (text: String)
    ensures
        text@ == reserve_mismatch(),
{
    "saved corporate reserve does not match the configured order or funding witness".to_owned()
}

fn scalar_text() -> (text: String)
    ensures
        text@ == scalar_invalid(),
{
    "corporate scalar encoding is invalid".to_owned()
}

/// The digest that names a reserve request: the hash of its exact encoding.
pub fn reserve_digest(prepared: &PreparedCorporateReserve) -> (digest: Digest32)
    ensures
        digest == sha256_value(prepared.request.wire@),
{
    sha256_digest(prepared.request.wire.as_slice())
}

/// What the ledger says about a note's serial.
pub struct SerialRead {
    pub state_root: Digest32,
    pub spent: bool,
}

/// One of the wallet's notes, in the order of the scan. `serial` is the
/// ledger's answer about it, or why there is none.
pub struct ScannedNote {
    pub note_id: Digest32,
    pub lock_id: Digest32,
    pub value: u64,
    pub serial: Result<SerialRead, String>,
}

/// The outcome of choosing a funding note.
pub enum NoteChoice {
    /// The position of the chosen note in the scan.
    Selected(usize),
    /// The ledger moved on while notes were checked.
    StateChanged,
    /// The ledger did not answer.
    Unreadable(String),
    /// No note serves.
    Missing,
}

/// The same outcome with its text as characters.
pub enum NoteChoiceView {
    Selected(int),
    StateChanged,
    Unreadable(Seq<char>),
    Missing,
}

impl View for NoteChoice {
    type V = NoteChoiceView;

    open spec fn view(&self) -> NoteChoiceView {
        match *self {
            NoteChoice::Selected(i) => NoteChoiceView::Selected(i as int),
            NoteChoice::StateChanged => NoteChoiceView::StateChanged,
            NoteChoice::Unreadable(text) => NoteChoiceView::Unreadable(text@),
            NoteChoice::Missing => NoteChoiceView::Missing,
        }
    }
}

/// A note that is free, large enough, and the one asked for if one was.
pub open spec fn note_eligible(note: &ScannedNote, limit: u64, wanted: Option<Digest32>) -> bool {
    &&& is_zero(note.lock_id@)
    &&& note.value >= limit
    &&& wanted matches Some(id) ==> id == note.note_id
}

/// The first eligible note from `start` on that is unspent at `root`.
pub open spec fn chosen_note(
    notes: Seq<ScannedNote>,
    limit: u64,
    wanted: Option<Digest32>,
    root: Digest32,
    start: int,
) -> NoteChoiceView
    decreases notes.len() - start,
{
    if start >= notes.len() {
        NoteChoiceView::Missing
    } else if !note_eligible(&notes[start], limit, wanted) {
        chosen_note(notes, limit, wanted, root, start + 1)
    } else {
        match notes[start].serial {
            Err(text) => NoteChoiceView::Unreadable(text@),
            Ok(read) => if read.state_root != root {
                NoteChoiceView::StateChanged
            } else if read.spent {
                chosen_note(notes, limit, wanted, root, start + 1)
            } else {
                NoteChoiceView::Selected(start)
            },
        }
    }
}

/// Choose the note that funds an order. An explicitly selected note is used or
/// nothing is: it is never silently replaced by another funding input if it is
/// missing, spent or too small.
pub fn choose_funding_note(
    notes: &Vec<ScannedNote>,
    limit: u64,
    wanted: &Option<Digest32>,
    root: &Digest32,
) -> (choice: NoteChoice)
    ensures
        choice@ == chosen_note(notes@, limit, *wanted, *root, 0),
{
    let mut i: usize = 0;
    while i < notes.len()
        invariant
            i <= notes@.len(),
            chosen_note(notes@, limit, *wanted, *root, i as int) == chosen_note(
                notes@,
                limit,
                *wanted,
                *root,
                0,
            ),
        decreases notes@.len() - i,
    {
        let note = &notes[i];
        let named: bool = match wanted {
            Some(id) => digest_equal(id, &note.note_id),
            None => true,
        };
        if digest_is_zero(&note.lock_id) && note.value >= limit && named {
            match &note.serial {
                Err(text) => return NoteChoice::Unreadable(text.clone()),
                Ok(read) => {
                    if !digest_equal(&read.state_root, root) {
                        return NoteChoice::StateChanged;
                    }
                    if !read.spent {
                        return NoteChoice::Selected(i);
                    }
                },
            }
        }
        i += 1;
    }
    NoteChoice::Missing
}

/// A chosen note is free, unspent and large enough, and it is the note that was
/// asked for.
pub proof fn lemma_chosen_note_serves(
    notes: Seq<ScannedNote>,
    limit: u64,
    wanted: Option<Digest32>,
    root: Digest32,
    start: int,
)
    requires
        0 <= start,
    ensures
        chosen_note(notes, limit, wanted, root, start) matches NoteChoiceView::Selected(i) ==> {
            &&& start <= i < notes.len()
            &&& note_eligible(&notes[i], limit, wanted)
            &&& notes[i].serial matches Ok(read) && !read.spent && read.state_root == root
        },
    decreases notes.len() - start,
{
    if start < notes.len() {
        lemma_chosen_note_serves(notes, limit, wanted, root, start + 1);
    }
}

/// Why a facility cannot move `limit` from available to held, if it cannot.
pub open spec fn facility_fault(
    config: &CorporateNativeConfig,
    limit: u64,
    before_sequence: u64,
) -> Option<Seq<char>> {
    if before_sequence == u64::MAX {
        Some("facility sequence exhausted"@)
    } else if config.facility_values@[0] < limit {
        Some("facility underflow"@)
    } else if config.facility_values@[1] + limit > u64::MAX {
        Some("facility overflow"@)
    } else if !canonical_scalar(config.facility_blindings@[0]@) || !canonical_scalar(
        config.facility_blindings@[1]@,
    ) {
        Some(scalar_invalid())
    } else {
        None
    }
}

/// The witness of the facility after `limit` went from available to held.
pub open spec fn facility_moves(
    after: &FacilityWitness,
    config: &CorporateNativeConfig,
    limit: u64,
    before_sequence: u64,
    reserve_blinding: Digest32,
) -> bool {
    let order = group_order();
    let moved = little_endian_value(reserve_blinding@);
    &&& after.facility_id == config.facility_id
    &&& after.sequence == before_sequence + 1
    &&& after.values@[0] == config.facility_values@[0] - limit
    &&& after.values@[1] == config.facility_values@[1] + limit
    &&& after.values@[2] == config.facility_values@[2]
    &&& canonical_scalar(after.blindings@[0]@)
    &&& canonical_scalar(after.blindings@[1]@)
    &&& little_endian_value(after.blindings@[0]@) == (little_endian_value(
        config.facility_blindings@[0]@,
    ) + order - moved) as nat % order
    &&& little_endian_value(after.blindings@[1]@) == (little_endian_value(
        config.facility_blindings@[1]@,
    ) + moved) % order
    &&& after.blindings@[2] == config.facility_blindings@[2]
}

/// Move a reservation's limit from available to held.
pub fn facility_after(
    config: &CorporateNativeConfig,
    limit: u64,
    before_sequence: u64,
    reserve_blinding: &Digest32,
) -> (r: Result<FacilityWitness, String>)
    requires
        canonical_scalar(reserve_blinding@),
    ensures
        r is Ok == facility_fault(config, limit, before_sequence) is None,
        r matches Ok(after) ==> facility_moves(
            &after,
            config,
            limit,
            before_sequence,
            *reserve_blinding,
        ),
        r matches Err(e) ==> Some(e@) == facility_fault(config, limit, before_sequence),
{
    let sequence: u64 = match before_sequence.checked_add(1) {
        None => return Err("facility sequence exhausted".to_owned()),
        Some(next) => next,
    };
    let available: u64 = match config.facility_values[0].checked_sub(limit) {
        None => return Err("facility underflow".to_owned()),
        Some(rest) => rest,
    };
    let held: u64 = match config.facility_values[1].checked_add(limit) {
        None => return Err("facility overflow".to_owned()),
        Some(sum) => sum,
    };
    if !scalar_is_canonical(&config.facility_blindings[0]) || !scalar_is_canonical(
        &config.facility_blindings[1],
    ) {
        return Err(scalar_text());
    }
    let available_blinding = scalar_difference(&config.facility_blindings[0], reserve_blinding);
    let held_blinding = scalar_sum(&config.facility_blindings[1], reserve_blinding);
    Ok(
        FacilityWitness {
            facility_id: config.facility_id,
            sequence,
            values: [available, held, config.facility_values[2]],
            blindings: [available_blinding, held_blinding, config.facility_blindings[2]],
        },
    )
}

/// A reservation moves value and blinding from available to held and loses
/// neither: the two sums stay what they were.
pub proof fn lemma_reservation_conserves_funding(
    after: &FacilityWitness,
    config: &CorporateNativeConfig,
    limit: u64,
    before_sequence: u64,
    reserve_blinding: Digest32,
)
    requires
        facility_moves(after, config, limit, before_sequence, reserve_blinding),
        canonical_scalar(config.facility_blindings@[0]@),
        canonical_scalar(config.facility_blindings@[1]@),
        canonical_scalar(reserve_blinding@),
    ensures
        after.values@[0] + after.values@[1] + after.values@[2] == config.facility_values@[0]
            + config.facility_values@[1] + config.facility_values@[2],
        (little_endian_value(after.blindings@[0]@) + little_endian_value(after.blindings@[1]@))
            % group_order() == (little_endian_value(config.facility_blindings@[0]@)
            + little_endian_value(config.facility_blindings@[1]@)) % group_order(),
{
    let order = group_order() as int;
    let moved = little_endian_value(reserve_blinding@) as int;
    let a = little_endian_value(config.facility_blindings@[0]@) as int;
    let b = little_endian_value(config.facility_blindings@[1]@) as int;
    let x = (a + order - moved) % order;
    let y = (b + moved) % order;
    vstd::arithmetic::div_mod::lemma_add_mod_noop(a + order - moved, b + moved, order);
    assert((x + y) % order == (a + order - moved + b + moved) % order);
    assert(a + order - moved + b + moved == order + (a + b));
    vstd::arithmetic::div_mod::lemma_mod_add_multiples_vanish(a + b, order);
}

/// The ledger's reading of a reservation.
pub struct CanonicalReservation {
    pub binding: Vec<u8>,
    pub status: String,
    pub accepted_height: u64,
    pub sequence: u64,
    pub escrow_note_id: Digest32,
    pub reserve_receipt_digest: Digest32,
    pub head_receipt: Digest32,
    pub remaining_commitment: Digest32,
    pub state_root: Digest32,
}

/// What an issued permit names.
pub struct IssuedPermit {
    pub escrow_note_id: Digest32,
    pub reserve_receipt_digest: Digest32,
}

/// The ledger's reading of a facility: its generation and its commitments to
/// what is available, held and outstanding.
pub struct CanonicalFacility {
    pub facility_id: Digest32,
    pub state_root: Digest32,
    pub sequence: u64,
    pub commitments: [Digest32; 3],
}

/// The ledger holds exactly the reservation that the permit names.
pub open spec fn reservation_confirmed(
    canonical: &CanonicalReservation,
    permit: &IssuedPermit,
    binding: Seq<u8>,
) -> bool {
    &&& canonical.binding@ == binding
    &&& canonical.status@ == "active"@
    &&& canonical.accepted_height != 0
    &&& canonical.sequence == 0
    &&& canonical.escrow_note_id == permit.escrow_note_id
    &&& canonical.reserve_receipt_digest == permit.reserve_receipt_digest
}

/// The ledger has reached the witness's generation, and at that generation it
/// commits to the witness's values.
pub open spec fn witness_confirmed(
    facility: &CanonicalFacility,
    sequence: u64,
    commitments: [Digest32; 3],
) -> bool {
    &&& facility.sequence >= sequence
    &&& facility.sequence == sequence ==> facility.commitments == commitments
}

/// What an issuer answered to a reserve: what the permit names, and the outcomes
/// of its own check and of the admission's check against it.
pub struct IssuedReserve {
    pub permit: IssuedPermit,
    pub permit_checked: Result<(), String>,
    pub authority_checked: Result<(), String>,
}

/// Why an answered reserve does not stand, if it does not. `binding` is the
/// encoding of the mandate's binding.
pub open spec fn finalized_fault(
    config: &CorporateNativeConfig,
    prepared: &PreparedCorporateReserve,
    facts: Result<ReserveFacts, String>,
    issued: &IssuedReserve,
    canonical: &CanonicalReservation,
    binding: Seq<u8>,
    facility: &CanonicalFacility,
) -> Option<Seq<char>> {
    if prepared.fault(config, facts) is Some {
        prepared.fault(config, facts)
    } else if issued.permit_checked is Err {
        Some((issued.permit_checked->Err_0)@)
    } else if issued.authority_checked is Err {
        Some((issued.authority_checked->Err_0)@)
    } else if !reservation_confirmed(canonical, &issued.permit, binding) {
        Some("corporate canonical reserve readback differs from the issued permit"@)
    } else if !witness_confirmed(
        facility,
        prepared.facility_after.sequence,
        prepared.request.after,
    ) {
        Some("canonical facility differs from the reserved witness generation"@)
    } else {
        None
    }
}

/// Compare an answered reserve with the ledger before an order is distributed:
/// an issuer's signature alone is insufficient, and a private witness does not
/// advance merely because a request succeeded.
pub fn verify_finalized(
    config: &CorporateNativeConfig,
    prepared: &PreparedCorporateReserve,
    facts: &Result<ReserveFacts, String>,
    issued: &IssuedReserve,
    canonical: &CanonicalReservation,
    binding: &[u8],
    facility: &CanonicalFacility,
) -> (r: Result<(), String>)
    ensures
        ({
            let fault = finalized_fault(
                config,
                prepared,
                *facts,
                issued,
                canonical,
                binding@,
                facility,
            );
            &&& r is Ok == fault is None
            &&& r matches Err(e) ==> Some(e@) == fault
        }),
{
    match prepared.validate(config, facts) {
        Err(e) => return Err(e),
        Ok(_) => {},
    }
    match &issued.permit_checked {
        Err(text) => return Err(text.clone()),
        Ok(_) => {},
    }
    match &issued.authority_checked {
        Err(text) => return Err(text.clone()),
        Ok(_) => {},
    }
    if !bytes_equal(canonical.binding.as_slice(), binding) || !text_equal(
        canonical.status.as_str(),
        "active",
    ) || canonical.accepted_height == 0 || canonical.sequence != 0 || !digest_equal(
        &canonical.escrow_note_id,
        &issued.permit.escrow_note_id,
    ) || !digest_equal(
        &canonical.reserve_receipt_digest,
        &issued.permit.reserve_receipt_digest,
    ) {
        return Err(
            "corporate canonical reserve readback differs from the issued permit".to_owned(),
        );
    }
    let witness = &prepared.facility_after;
    if facility.sequence < witness.sequence || (facility.sequence == witness.sequence
        && !three_digests_equal(&facility.commitments, &prepared.request.after)) {
        return Err("canonical facility differs from the reserved witness generation".to_owned());
    }
    Ok(())
}

/// The blinding under which a reserved order is delivered: that of the reserve
/// and the one that the admission added.
pub fn delivery_blinding(
    config: &CorporateNativeConfig,
    prepared: &PreparedCorporateReserve,
    facts: &Result<ReserveFacts, String>,
) -> (r: Result<Digest32, String>)
    ensures
        r is Ok == prepared.fault(config, *facts) is None,
        r matches Err(e) ==> Some(e@) == prepared.fault(config, *facts),
        r matches Ok(blinding) ==> canonical_scalar(blinding@) && little_endian_value(blinding@)
            == (little_endian_value(prepared.reserve_blinding@) + little_endian_value(
            prepared.request.reserve_reblinding@,
        )) % group_order(),
{
    match prepared.validate(config, facts) {
        Err(e) => return Err(e),
        Ok(_) => {},
    }
    Ok(scalar_sum(&prepared.reserve_blinding, &prepared.request.reserve_reblinding))
}

/// The configured facility, at a generation.
pub open spec fn configured_witness(config: &CorporateNativeConfig, sequence: u64) -> FacilityWitness {
    FacilityWitness {
        facility_id: config.facility_id,
        sequence,
        values: config.facility_values,
        blindings: config.facility_blindings,
    }
}

/// A configuration with the funding that a witness opens, where there is one.
pub open spec fn funded(
    config: CorporateNativeConfig,
    witness: Option<FacilityWitness>,
) -> CorporateNativeConfig {
    match witness {
        Some(witness) => CorporateNativeConfig {
            facility_values: witness.values,
            facility_blindings: witness.blindings,
            ..config
        },
        None => config,
    }
}

/// The outcome of preparing a reservation from the ledger's notes.
pub open spec fn preparation_fault(
    scope: &ReserveScope,
    config: &CorporateNativeConfig,
    manifest: Digest32,
    roots_agree: bool,
    choice: NoteChoiceView,
) -> Option<Seq<char>> {
    if !scope.configured(config, manifest) {
        Some("DeFMI returned another configured application scope"@)
    } else if !roots_agree {
        Some("canonical funding changed; rebuild the same request before submission"@)
    } else if !canonical_scalar(config.wallet_spend_secret@) {
        Some(scalar_invalid())
    } else if config.wallet_opening_seed@.len() != 96 {
        Some("corporate wallet requires its independent 96-byte opening seed"@)
    } else {
        match choice {
            NoteChoiceView::Selected(_) => if configured_witness(config, 0).blindings_canonical() {
                None
            } else {
                Some(scalar_invalid())
            },
            NoteChoiceView::StateChanged => Some("funding state changed during note selection"@),
            NoteChoiceView::Unreadable(text) => Some(text),
            NoteChoiceView::Missing => Some(
                "corporate wallet has no sufficient selected unspent funding note"@,
            ),
        }
    }
}

/// Choose the funding of a new reservation: the configured application, one
/// ledger state, and one sufficient unspent note. `roots` are the state roots
/// that the notes, the facility and the ledger itself were read at.
pub fn choose_reservation_funding(
    scope: &ReserveScope,
    config: &CorporateNativeConfig,
    manifest: &Digest32,
    roots: &[Digest32; 3],
    notes: &Vec<ScannedNote>,
    limit: u64,
    source_note: &Option<Digest32>,
) -> (r: Result<usize, String>)
    ensures
        ({
            let agree = roots@[1] == roots@[0] && roots@[2] == roots@[0];
            let choice = chosen_note(notes@, limit, *source_note, roots@[0], 0);
            let fault = preparation_fault(scope, config, *manifest, agree, choice);
            &&& r is Ok == fault is None
            &&& r matches Ok(i) ==> choice == NoteChoiceView::Selected(i as int)
            &&& r matches Err(e) ==> Some(e@) == fault
        }),
{
    match check_scope(scope, config, manifest) {
        Err(e) => return Err(e),
        Ok(_) => {},
    }
    if !digest_equal(&roots[1], &roots[0]) || !digest_equal(&roots[2], &roots[0]) {
        return Err(
            "canonical funding changed; rebuild the same request before submission".to_owned(),
        );
    }
    if !scalar_is_canonical(&config.wallet_spend_secret) {
        return Err(scalar_text());
    }
    match config.note_opening_key() {
        Err(e) => return Err(e),
        Ok(_) => {},
    }
    match choose_funding_note(notes, limit, source_note, &roots[0]) {
        NoteChoice::Selected(i) => {
            if !scalar_is_canonical(&config.facility_blindings[0]) || !scalar_is_canonical(
                &config.facility_blindings[1],
            ) || !scalar_is_canonical(&config.facility_blindings[2]) {
                return Err(scalar_text());
            }
            Ok(i)
        },
        NoteChoice::StateChanged => Err("funding state changed during note selection".to_owned()),
        NoteChoice::Unreadable(text) => Err(text),
        NoteChoice::Missing => Err(
            "corporate wallet has no sufficient selected unspent funding note".to_owned(),
        ),
    }
}

/// The number that a side's commitment opens to.
pub fn side_number(side: Side) -> (number: u64)
    ensures
        number == (match side {
            Side::Buy => 0u64,
            Side::Sell => 1u64,
        }),
{
    match side {
        Side::Buy => 0,
        Side::Sell => 1,
    }
}

/// The secrets of one reservation: the salt of its order commitment and the
/// blindings of its commitments.
#[derive(Clone, Copy)]
pub struct ReserveSecrets {
    pub order_authorization_salt: Digest32,
    pub reserve_blinding: Digest32,
    pub reserve_reblinding: Digest32,
    pub side_blinding: Digest32,
}

impl ReserveSecrets {
    pub open spec fn canonical(&self) -> bool {
        &&& canonical_scalar(self.reserve_blinding@)
        &&& canonical_scalar(self.reserve_reblinding@)
        &&& canonical_scalar(self.side_blinding@)
    }

    /// The secrets that draws make: the salt as it was drawn, and each blinding
    /// reduced.
    pub open spec fn made_of(&self, draws: &ReserveDraws) -> bool {
        &&& self.order_authorization_salt@ == (draws.order_authorization_salt->Ok_0)@
        &&& reduced(self.reserve_blinding@, (draws.reserve_blinding->Ok_0)@)
        &&& reduced(self.reserve_reblinding@, (draws.reserve_reblinding->Ok_0)@)
        &&& reduced(self.side_blinding@, (draws.side_blinding->Ok_0)@)
    }

    /// Make the secrets of a reservation of what was drawn for them.
    pub fn from_draws(draws: ReserveDraws) -> (r: Result<ReserveSecrets, String>)
        ensures
            r is Ok == draws.fault() is None,
            r matches Ok(secrets) ==> secrets.made_of(&draws),
            r matches Err(e) ==> Some(e@) == draws.fault(),
    {
        let order_authorization_salt: Digest32 = match drawn_digest(
            draws.order_authorization_salt,
        ) {
            Err(e) => return Err(e),
            Ok(salt) => salt,
        };
        let reserve_blinding: Digest32 = match drawn_scalar(draws.reserve_blinding) {
            Err(e) => return Err(e),
            Ok(blinding) => blinding,
        };
        let reserve_reblinding: Digest32 = match drawn_scalar(draws.reserve_reblinding) {
            Err(e) => return Err(e),
            Ok(blinding) => blinding,
        };
        let side_blinding: Digest32 = match drawn_scalar(draws.side_blinding) {
            Err(e) => return Err(e),
            Ok(blinding) => blinding,
        };
        Ok(
            ReserveSecrets {
                order_authorization_salt,
                reserve_blinding,
                reserve_reblinding,
                side_blinding,
            },
        )
    }

    /// Draw the secrets of a new reservation. Whatever the source returns, they
    /// are the ones that `from_draws` makes of four draws of the right sizes.
    pub fn draw() -> (r: Result<ReserveSecrets, String>)
        ensures
            r matches Ok(secrets) ==> secrets.canonical(),
            exists|draws: ReserveDraws| #[trigger]
                draws.sized() && match r {
                    Ok(secrets) => draws.fault() is None && secrets.made_of(&draws),
                    Err(e) => draws.fault() == Some(e@),
                },
    {
        let draws = ReserveDraws {
            order_authorization_salt: draw_bytes(32),
            reserve_blinding: draw_bytes(64),
            reserve_reblinding: draw_bytes(64),
            side_blinding: draw_bytes(64),
        };
        assert(draws.sized());
        ReserveSecrets::from_draws(draws)
    }
}

/// What the random source returned for a reservation's secrets.
pub struct ReserveDraws {
    pub order_authorization_salt: Result<Vec<u8>, String>,
    pub reserve_blinding: Result<Vec<u8>, String>,
    pub reserve_reblinding: Result<Vec<u8>, String>,
    pub side_blinding: Result<Vec<u8>, String>,
}

impl ReserveDraws {
    /// 32 bytes for the salt and 64 for each blinding, where there are any.
    pub open spec fn sized(&self) -> bool {
        &&& draw_sized(self.order_authorization_salt, 32)
        &&& draw_sized(self.reserve_blinding, 64)
        &&& draw_sized(self.reserve_reblinding, 64)
        &&& draw_sized(self.side_blinding, 64)
    }

    /// Why no secrets come of the draws, if none do: the first that does not
    /// serve.
    pub open spec fn fault(&self) -> Option<Seq<char>> {
        if draw_fault(self.order_authorization_salt, 32) is Some {
            draw_fault(self.order_authorization_salt, 32)
        } else if draw_fault(self.reserve_blinding, 64) is Some {
            draw_fault(self.reserve_blinding, 64)
        } else if draw_fault(self.reserve_reblinding, 64) is Some {
            draw_fault(self.reserve_reblinding, 64)
        } else {
            draw_fault(self.side_blinding, 64)
        }
    }
}

/// An order, the key that signs for it, and the commitment to its eligibility.
pub struct SignedOrder {
    pub order_wire: Vec<u8>,
    pub signing_key: [u8; 64],
    pub eligibility_commitment: Digest32,
}

/// What an order says of its reservation.
#[derive(Clone, Copy)]
pub struct OrderTerms {
    pub commitment: Digest32,
    pub reservation_limit: u64,
}

/// What the request library made of a mandate, the secrets and one note: the
/// index of that note, the facility's commitments after the reservation, and
/// the encoding of the request.
pub struct BuiltRequest {
    pub source_index: usize,
    pub after: [Digest32; 3],
    pub wire: Vec<u8>,
}

/// The request of a mandate on the facility as the ledger has it.
pub open spec fn request_of(
    mandate: ReserveMandate,
    order: &OrderTerms,
    secrets: &ReserveSecrets,
    facility: &CanonicalFacility,
    built: BuiltRequest,
) -> ReserveRequest {
    ReserveRequest {
        mandate,
        order_commitment: order.commitment,
        order_authorization_salt: secrets.order_authorization_salt,
        reserve_reblinding: secrets.reserve_reblinding,
        before_sequence: facility.sequence,
        before: facility.commitments,
        after: built.after,
        wire: built.wire,
    }
}

/// Put a reserve together: the request, its order, and the facility after the
/// order's limit went from available to held.
pub fn assemble_reserve(
    config: &CorporateNativeConfig,
    mandate: ReserveMandate,
    signed: SignedOrder,
    order: &OrderTerms,
    secrets: &ReserveSecrets,
    facility: &CanonicalFacility,
    built: BuiltRequest,
) -> (r: Result<PreparedCorporateReserve, String>)
    requires
        canonical_scalar(secrets.reserve_blinding@),
    ensures
        ({
            let fault = facility_fault(config, order.reservation_limit, facility.sequence);
            &&& r is Ok == fault is None
            &&& r matches Err(e) ==> Some(e@) == fault
        }),
        r matches Ok(prepared) ==> {
            &&& prepared.request == request_of(mandate, order, secrets, facility, built)
            &&& prepared.order_wire == signed.order_wire
            &&& prepared.signing_key == signed.signing_key
            &&& prepared.eligibility_commitment == signed.eligibility_commitment
            &&& prepared.side_blinding == secrets.side_blinding
            &&& prepared.reserve_blinding == secrets.reserve_blinding
            &&& facility_moves(
                &prepared.facility_after,
                config,
                order.reservation_limit,
                facility.sequence,
                secrets.reserve_blinding,
            )
        },
{
    let after = match facility_after(
        config,
        order.reservation_limit,
        facility.sequence,
        &secrets.reserve_blinding,
    ) {
        Err(e) => return Err(e),
        Ok(after) => after,
    };
    Ok(
        PreparedCorporateReserve {
            request: ReserveRequest {
                mandate,
                order_commitment: order.commitment,
                order_authorization_salt: secrets.order_authorization_salt,
                reserve_reblinding: secrets.reserve_reblinding,
                before_sequence: facility.sequence,
                before: facility.commitments,
                after: built.after,
                wire: built.wire,
            },
            order_wire: signed.order_wire,
            signing_key: signed.signing_key,
            eligibility_commitment: signed.eligibility_commitment,
            side_blinding: secrets.side_blinding,
            reserve_blinding: secrets.reserve_blinding,
            facility_after: after,
        },
    )
}

/// What preparing a reservation read from DeFMI and the ledger. `root` is the
/// state root of the notes, `chain_root` the one that the ledger itself reported
/// afterwards; `manifest` is the digest of the application manifest.
pub struct ReserveRead {
    pub scope: ReserveScope,
    pub manifest: Digest32,
    pub root: Digest32,
    pub chain_root: Digest32,
    pub facility: CanonicalFacility,
    pub notes: Vec<ScannedNote>,
}

/// Why no reserve is made of what was read and built, if none is: no funding
/// was found, the request was not built, it was built on another note than the
/// chosen one, or the facility cannot move the limit.
pub open spec fn reserve_fault(
    config: &CorporateNativeConfig,
    read: &ReserveRead,
    order: &OrderTerms,
    source_note: Option<Digest32>,
    built: Result<BuiltRequest, String>,
) -> Option<Seq<char>> {
    let agree = read.facility.state_root == read.root && read.chain_root == read.root;
    let choice = chosen_note(read.notes@, order.reservation_limit, source_note, read.root, 0);
    let fault = preparation_fault(&read.scope, config, read.manifest, agree, choice);
    if fault is Some {
        fault
    } else {
        match built {
            Err(text) => Some(text@),
            Ok(built) => if choice != NoteChoiceView::Selected(built.source_index as int) {
                Some("canonical funding changed; rebuild the same request before submission"@)
            } else {
                facility_fault(config, order.reservation_limit, read.facility.sequence)
            },
        }
    }
}

/// The reserve of a mandate, its order and secrets, on the facility as it was
/// read.
pub open spec fn new_reserve(
    prepared: &PreparedCorporateReserve,
    config: &CorporateNativeConfig,
    read: &ReserveRead,
    mandate: ReserveMandate,
    signed: &SignedOrder,
    order: &OrderTerms,
    secrets: &ReserveSecrets,
    built: BuiltRequest,
) -> bool {
    &&& prepared.request == request_of(mandate, order, secrets, &read.facility, built)
    &&& prepared.order_wire == signed.order_wire
    &&& prepared.signing_key == signed.signing_key
    &&& prepared.eligibility_commitment == signed.eligibility_commitment
    &&& prepared.side_blinding == secrets.side_blinding
    &&& prepared.reserve_blinding == secrets.reserve_blinding
    &&& facility_moves(
        &prepared.facility_after,
        config,
        order.reservation_limit,
        read.facility.sequence,
        secrets.reserve_blinding,
    )
}

/// Make the reserve of a new order: choose its funding, write its mandate, and
/// put the request that was built on the chosen note together with the order.
pub fn prepare_reservation_from_note(
    config: &CorporateNativeConfig,
    read: &ReserveRead,
    terms: MandateTerms,
    mandate_wire: Vec<u8>,
    signed: SignedOrder,
    order: &OrderTerms,
    secrets: &ReserveSecrets,
    source_note: &Option<Digest32>,
    built: Result<BuiltRequest, String>,
    now: u64,
) -> (r: Result<PreparedCorporateReserve, String>)
    requires
        secrets.canonical(),
    ensures
        ({
            let fault = reserve_fault(config, read, order, *source_note, built);
            &&& r is Ok == fault is None
            &&& r matches Err(e) ==> Some(e@) == fault
        }),
        r matches Ok(prepared) ==> new_reserve(
            &prepared,
            config,
            read,
            mandate_of(config, read.scope, terms, mandate_wire, now),
            &signed,
            order,
            secrets,
            built->Ok_0,
        ),
{
    let roots: [Digest32; 3] = [read.root, read.facility.state_root, read.chain_root];
    let chosen: usize = match choose_reservation_funding(
        &read.scope,
        config,
        &read.manifest,
        &roots,
        &read.notes,
        order.reservation_limit,
        source_note,
    ) {
        Err(e) => return Err(e),
        Ok(i) => i,
    };
    let built = match built {
        Err(e) => return Err(e),
        Ok(built) => built,
    };
    if built.source_index != chosen {
        return Err(
            "canonical funding changed; rebuild the same request before submission".to_owned(),
        );
    }
    let mandate = write_mandate(config, &read.scope, terms, mandate_wire, now);
    assemble_reserve(config, mandate, signed, order, secrets, &read.facility, built)
}

/// Make the reserve of a new order on any sufficient note.
pub fn prepare_reservation(
    config: &CorporateNativeConfig,
    read: &ReserveRead,
    terms: MandateTerms,
    mandate_wire: Vec<u8>,
    signed: SignedOrder,
    order: &OrderTerms,
    secrets: &ReserveSecrets,
    built: Result<BuiltRequest, String>,
    now: u64,
) -> (r: Result<PreparedCorporateReserve, String>)
    requires
        secrets.canonical(),
    ensures
        ({
            let fault = reserve_fault(config, read, order, None, built);
            &&& r is Ok == fault is None
            &&& r matches Err(e) ==> Some(e@) == fault
        }),
        r matches Ok(prepared) ==> new_reserve(
            &prepared,
            config,
            read,
            mandate_of(config, read.scope, terms, mandate_wire, now),
            &signed,
            order,
            secrets,
            built->Ok_0,
        ),
{
    prepare_reservation_from_note(
        config,
        read,
        terms,
        mandate_wire,
        signed,
        order,
        secrets,
        &None,
        built,
        now,
    )
}

} // verus!
