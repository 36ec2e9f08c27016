//! Signed corporate terms are durable before funding preparation. The worker
//! needs neither a credential issuer key nor a credential witness to resume.

use crate::bytes::{
    bytes_equal, copy_bytes, digest_equal, push_all, push_text, sha256, sha256_digest, text_bytes,
    Digest32,
};
use crate::corporate::{
    assemble_reserve, check_scope, choose_funding_note, chosen_note, configured_witness,
    facility_fault, facility_moves, mandate_of, three_digests_equal, write_mandate, BuiltRequest,
    CanonicalFacility, CorporateNativeConfig, FacilityWitness, MandateTerms, NoteChoice,
    NoteChoiceView, OrderTerms, PreparedCorporateReserve, ReserveFacts, ReserveMandate,
    ReserveScope, ReserveSecrets, ScannedNote, SignedOrder,
};
use crate::scalars::{canonical_scalar, scalar_is_canonical};
use vstd::prelude::*;

verus! {

/// What an anonymous presentation says of its holder.
pub struct PresentedIdentity {
    pub subject_line_id: Digest32,
    pub credential_digest: Digest32,
    pub nullifier: Digest32,
    pub context: Vec<u8>,
}

/// Private, encrypted corporate-journal material, never a public RPC payload.
/// Only the presentation and the original mandate cross to DeFMI. `wire` is the
/// exact encoding of the whole authorization.
pub struct CorporateReserveAuthorization {
    pub mandate: ReserveMandate,
    pub order_wire: Vec<u8>,
    pub signing_key: [u8; 64],
    pub eligibility_commitment: Digest32,
    pub order_authorization_salt: Digest32,
    pub reserve_reblinding: Digest32,
    pub reserve_blinding: Digest32,
    pub side_blinding: Digest32,
    pub identity: PresentedIdentity,
    pub wire: Vec<u8>,
}

/// What the order, identity and commitment libraries derive from an
/// authorization. `scope` and `mandate` are the outcomes of their own checks.
pub struct AuthorizationFacts {
    pub scope: Result<(), String>,
    pub manifest: Digest32,
    pub mandate: Result<(), String>,
    pub reservation_id: Digest32,
    pub expires_at: u64,
    pub handle: Digest32,
    pub order_participant_handle: Digest32,
    pub participant_public: Vec<u8>,
    pub request_commitment: Digest32,
    pub amount_commitment: Digest32,
    pub settlement_terms_commitment: Digest32,
    pub order_nullifier: Digest32,
    pub identity_context: Vec<u8>,
}

pub open spec fn authorization_mismatch() -> Seq<char> {
    "corporate authorization differs from the immutable order or deployment"@
}

pub open spec fn authorization_scalar_invalid() -> Seq<char> {
    "non-canonical corporate scalar"@
}

fn mismatch() -> (text: String)
    ensures
        text@ == authorization_mismatch(),
{
    "corporate authorization differs from the immutable order or deployment".to_owned()
}

fn not_canonical() -> (text: String)
    ensures
        text@ == authorization_scalar_invalid(),
{
    "non-canonical corporate scalar".to_owned()
}

impl CorporateReserveAuthorization {
    /// What the digest of an authorization is the hash of.
    pub open spec fn digest_bytes(&self) -> Seq<u8> {
        text_bytes("OCLOB:CORPORATE-AUTHORIZATION:v1"@) + self.wire@
    }

    pub fn digest(&self) -> (digest: Digest32)
        ensures
            digest@ == sha256(self.digest_bytes()),
    {
        let mut body: Vec<u8> = Vec::new();
        push_text(&mut body, "OCLOB:CORPORATE-AUTHORIZATION:v1");
        assert(body@ =~= text_bytes("OCLOB:CORPORATE-AUTHORIZATION:v1"@));
        push_all(&mut body, self.wire.as_slice());
        sha256_digest(body.as_slice())
    }

    /// The terms that are compared before any scalar is decoded.
    pub open spec fn terms_match(
        &self,
        config: &CorporateNativeConfig,
        facts: &AuthorizationFacts,
    ) -> bool {
        let mandate = self.mandate;
        &&& mandate.facility_id == config.facility_id
        &&& mandate.asset_id == config.asset_id
        &&& mandate.hold_id == facts.reservation_id
        &&& mandate.valid_until == facts.expires_at
        &&& mandate.participant_handle == facts.handle
        &&& mandate.participant_handle == facts.order_participant_handle
        &&& mandate.participant_public@ == facts.participant_public@
        &&& mandate.request_commitment == facts.request_commitment
    }

    /// Who the authorization speaks for.
    pub open spec fn identity_matches(&self, facts: &AuthorizationFacts) -> bool {
        &&& self.mandate.entity_commitment == self.identity.subject_line_id
        &&& self.mandate.credential_digest == self.identity.credential_digest
        &&& self.identity.nullifier == facts.order_nullifier
        &&& self.identity.context@ == facts.identity_context@
    }

    /// Why an authorization does not stand, if it does not: the first thing
    /// that is wrong.
    pub open spec fn fault(
        &self,
        config: &CorporateNativeConfig,
        facts: Result<AuthorizationFacts, String>,
    ) -> Option<Seq<char>> {
        match facts {
            Err(text) => Some(text@),
            Ok(facts) => match facts.scope {
                Err(text) => Some(text@),
                Ok(_) => if !self.mandate.scope.configured(config, facts.manifest) {
                    Some("DeFMI returned another configured application scope"@)
                } else {
                    match facts.mandate {
                        Err(text) => Some(text@),
                        Ok(_) => if !self.terms_match(config, &facts) {
                            Some(authorization_mismatch())
                        } else if !canonical_scalar(self.reserve_blinding@) {
                            Some(authorization_scalar_invalid())
                        } else if self.mandate.amount_commitment != facts.amount_commitment {
                            Some(authorization_mismatch())
                        } else if !canonical_scalar(self.side_blinding@) {
                            Some(authorization_scalar_invalid())
                        } else if self.mandate.settlement_terms_commitment
                            != facts.settlement_terms_commitment || !self.identity_matches(
                            &facts,
                        ) {
                            Some(authorization_mismatch())
                        } else if !canonical_scalar(self.reserve_reblinding@) {
                            Some(authorization_scalar_invalid())
                        } else {
                            None
                        },
                    }
                },
            },
        }
    }

    pub fn validate(
        &self,
        config: &CorporateNativeConfig,
        facts: &Result<AuthorizationFacts, String>,
    ) -> (r: Result<(), String>)
        ensures
            r is Ok == self.fault(config, *facts) is None,
            r matches Err(e) ==> Some(e@) == self.fault(config, *facts),
    {
        let facts: &AuthorizationFacts = match facts {
            Err(text) => return Err(text.clone()),
            Ok(found) => found,
        };
        match validate_scope(config, &self.mandate.scope, &facts.scope, &facts.manifest) {
            Err(e) => return Err(e),
            Ok(_) => {},
        }
        match &facts.mandate {
            Err(text) => return Err(text.clone()),
            Ok(_) => {},
        }
        let mandate = &self.mandate;
        if !digest_equal(&mandate.facility_id, &config.facility_id) || !digest_equal(
            &mandate.asset_id,
            &config.asset_id,
        ) || !digest_equal(&mandate.hold_id, &facts.reservation_id) || mandate.valid_until
            != facts.expires_at || !digest_equal(&mandate.participant_handle, &facts.handle)
            || !digest_equal(&mandate.participant_handle, &facts.order_participant_handle)
            || !bytes_equal(
            mandate.participant_public.as_slice(),
            facts.participant_public.as_slice(),
        ) || !digest_equal(&mandate.request_commitment, &facts.request_commitment) {
            return Err(mismatch());
        }
        if !scalar_is_canonical(&self.reserve_blinding) {
            return Err(not_canonical());
        }
        if !digest_equal(&mandate.amount_commitment, &facts.amount_commitment) {
            return Err(mismatch());
        }
        if !scalar_is_canonical(&self.side_blinding) {
            return Err(not_canonical());
        }
        if !digest_equal(
            &mandate.settlement_terms_commitment,
            &facts.settlement_terms_commitment,
        ) || !digest_equal(&mandate.entity_commitment, &self.identity.subject_line_id)
            || !digest_equal(&mandate.credential_digest, &self.identity.credential_digest)
            || !digest_equal(&self.identity.nullifier, &facts.order_nullifier) || !bytes_equal(
            self.identity.context.as_slice(),
            facts.identity_context.as_slice(),
        ) {
            return Err(mismatch());
        }
        if !scalar_is_canonical(&self.reserve_reblinding) {
            return Err(not_canonical());
        }
        Ok(())
    }
}

impl CorporateReserveAuthorization {
    /// Draft the mandate of a new order. Its encoding comes with the signature.
    /// `checked` is the outcome of the scope's own check, `manifest` the digest
    /// of the application manifest.
    pub fn draft_mandate(
        config: &CorporateNativeConfig,
        scope: &ReserveScope,
        checked: &Result<(), String>,
        manifest: &Digest32,
        terms: MandateTerms,
        now: u64,
    ) -> (r: Result<ReserveMandate, String>)
        ensures
            r is Ok == (checked is Ok && scope.configured(config, *manifest)),
            r matches Err(e) ==> e@ == (match checked {
                Err(text) => text@,
                Ok(_) => "DeFMI returned another configured application scope"@,
            }),
            r matches Ok(mandate) ==> mandate.wire@.len() == 0 && mandate == mandate_of(
                config,
                *scope,
                terms,
                mandate.wire,
                now,
            ),
    {
        match validate_scope(config, scope, checked, manifest) {
            Err(e) => return Err(e),
            Ok(_) => {},
        }
        Ok(write_mandate(config, scope, terms, Vec::new(), now))
    }

    /// Put an authorization together from its drafted mandate and the encoding
    /// that came with the signature, and check it.
    pub fn create(
        config: &CorporateNativeConfig,
        scope: &ReserveScope,
        checked: &Result<(), String>,
        manifest: &Digest32,
        terms: MandateTerms,
        mandate_wire: Vec<u8>,
        order: SignedOrder,
        secrets: &ReserveSecrets,
        identity: PresentedIdentity,
        wire: Vec<u8>,
        facts: &Result<AuthorizationFacts, String>,
        now: u64,
    ) -> (r: Result<CorporateReserveAuthorization, String>)
        ensures
            ({
                let authorization = CorporateReserveAuthorization {
                    mandate: mandate_of(config, *scope, terms, mandate_wire, now),
                    order_wire: order.order_wire,
                    signing_key: order.signing_key,
                    eligibility_commitment: order.eligibility_commitment,
                    order_authorization_salt: secrets.order_authorization_salt,
                    reserve_reblinding: secrets.reserve_reblinding,
                    reserve_blinding: secrets.reserve_blinding,
                    side_blinding: secrets.side_blinding,
                    identity,
                    wire,
                };
                let fault = match checked {
                    Err(text) => Some(text@),
                    Ok(_) => if !scope.configured(config, *manifest) {
                        Some("DeFMI returned another configured application scope"@)
                    } else {
                        authorization.fault(config, *facts)
                    },
                };
                &&& r is Ok == fault is None
                &&& r matches Ok(made) ==> made == authorization
                &&& r matches Err(e) ==> Some(e@) == fault
            }),
    {
        match validate_scope(config, scope, checked, manifest) {
            Err(e) => return Err(e),
            Ok(_) => {},
        }
        let authorization = CorporateReserveAuthorization {
            mandate: write_mandate(config, scope, terms, mandate_wire, now),
            order_wire: order.order_wire,
            signing_key: order.signing_key,
            eligibility_commitment: order.eligibility_commitment,
            order_authorization_salt: secrets.order_authorization_salt,
            reserve_reblinding: secrets.reserve_reblinding,
            reserve_blinding: secrets.reserve_blinding,
            side_blinding: secrets.side_blinding,
            identity,
            wire,
        };
        match authorization.validate(config, facts) {
            Err(e) => Err(e),
            Ok(_) => Ok(authorization),
        }
    }
}

/// Check a scope against the deployment. `checked` is the outcome of the
/// scope's own check, `manifest` the digest of the application manifest.
pub fn validate_scope(
    config: &CorporateNativeConfig,
    scope: &ReserveScope,
    checked: &Result<(), String>,
    manifest: &Digest32,
) -> (r: Result<(), String>)
    ensures
        r is Ok == (checked is Ok && scope.configured(config, *manifest)),
        r matches Err(e) ==> e@ == (match checked {
            Err(text) => text@,
            Ok(_) => "DeFMI returned another configured application scope"@,
        }),
{
    match checked {
        Err(text) => Err(text.clone()),
        Ok(_) => check_scope(scope, config, manifest),
    }
}

#[derive(Clone, Debug, PartialEq, Eq)]
pub enum PreparationError {
    Retry(String),
    InsufficientFunding,
}

impl From<String> for PreparationError {
    fn from(value: String) -> (error: PreparationError) {
        PreparationError::Retry(value)
    }
}

impl vstd::std_specs::convert::FromSpecImpl<String> for PreparationError {
    open spec fn obeys_from_spec() -> bool {
        true
    }

    open spec fn from_spec(value: String) -> PreparationError {
        PreparationError::Retry(value)
    }
}

impl PreparationError {
    /// The text that a worker reports.
    pub fn message(&self) -> (text: String)
        ensures
            text@ == (match self {
                PreparationError::Retry(message) => message@,
                PreparationError::InsufficientFunding =>
                    "corporate order exceeds currently available selected funding"@,
            }),
    {
        match self {
            PreparationError::Retry(message) => message.clone(),
            PreparationError::InsufficientFunding =>
            "corporate order exceeds currently available selected funding".to_owned(),
        }
    }
}

/// What funding preparation found on the ledger.
pub struct FundingRead {
    /// The outcome of checking the mandate against the scope and the time.
    pub mandate_live: Result<(), String>,
    /// The state root of the notes.
    pub root: Digest32,
    /// The state root that the ledger itself reported afterwards.
    pub chain_root: Digest32,
    pub facility: CanonicalFacility,
    /// The commitments to the configured facility values.
    pub configured_commitments: [Digest32; 3],
    pub notes: Vec<ScannedNote>,
}

/// Why funding is not prepared: `Some(None)` for funding that does not
/// suffice, `Some(Some(text))` for anything worth another try.
pub open spec fn funding_refusal(
    config: &CorporateNativeConfig,
    authorization_fault: Option<Seq<char>>,
    read: &FundingRead,
    limit: u64,
    source_note: Option<Digest32>,
) -> Option<Option<Seq<char>>> {
    let witness = configured_witness(config, read.facility.sequence);
    if authorization_fault is Some {
        Some(authorization_fault)
    } else if read.mandate_live is Err {
        Some(Some(read.mandate_live->Err_0@))
    } else if read.facility.state_root != read.root || read.chain_root != read.root {
        Some(Some("canonical funding changed during preparation"@))
    } else if !witness.blindings_canonical() {
        Some(Some("corporate scalar encoding is invalid"@))
    } else if read.configured_commitments != read.facility.commitments {
        Some(Some("corporate funding witness is not the current canonical generation"@))
    } else if config.facility_values@[0] < limit {
        Some(None)
    } else if !canonical_scalar(config.wallet_spend_secret@) {
        Some(Some(authorization_scalar_invalid()))
    } else {
        match chosen_note(read.notes@, limit, source_note, read.root, 0) {
            NoteChoiceView::Selected(_) => None,
            NoteChoiceView::StateChanged => Some(
                Some("funding state changed during note selection"@),
            ),
            NoteChoiceView::Unreadable(text) => Some(Some(text)),
            NoteChoiceView::Missing => Some(None),
        }
    }
}

/// Choose the funding of an authorized reservation. Only missing funds end an
/// authorization; whatever else fails is worth another try.
pub fn choose_authorized_funding(
    config: &CorporateNativeConfig,
    authorization: &CorporateReserveAuthorization,
    facts: &Result<AuthorizationFacts, String>,
    read: &FundingRead,
    limit: u64,
    source_note: &Option<Digest32>,
) -> (r: Result<usize, PreparationError>)
    ensures
        ({
            let refusal = funding_refusal(
                config,
                authorization.fault(config, *facts),
                read,
                limit,
                *source_note,
            );
            &&& r is Ok == refusal is None
            &&& r matches Ok(i) ==> chosen_note(read.notes@, limit, *source_note, read.root, 0)
                == NoteChoiceView::Selected(i as int)
            &&& r matches Err(PreparationError::Retry(text)) ==> refusal == Some(Some(text@))
            &&& r matches Err(PreparationError::InsufficientFunding) ==> refusal == Some(
                None::<Seq<char>>,
            )
        }),
{
    match authorization.validate(config, facts) {
        Err(text) => return Err(PreparationError::Retry(text)),
        Ok(_) => {},
    }
    match &read.mandate_live {
        Err(text) => return Err(PreparationError::Retry(text.clone())),
        Ok(_) => {},
    }
    if !digest_equal(&read.facility.state_root, &read.root) || !digest_equal(
        &read.chain_root,
        &read.root,
    ) {
        return Err(
            PreparationError::Retry("canonical funding changed during preparation".to_owned()),
        );
    }
    let before = FacilityWitness {
        facility_id: config.facility_id,
        sequence: read.facility.sequence,
        values: config.facility_values,
        blindings: config.facility_blindings,
    };
    match before.commitments(&read.configured_commitments) {
        Err(text) => return Err(PreparationError::Retry(text)),
        Ok(commitments) => {
            if !three_digests_equal(&commitments, &read.facility.commitments) {
                return Err(
                    PreparationError::Retry(
                        "corporate funding witness is not the current canonical generation".to_owned(),
                    ),
                );
            }
        },
    }
    if config.facility_values[0] < limit {
        return Err(PreparationError::InsufficientFunding);
    }
    if !scalar_is_canonical(&config.wallet_spend_secret) {
        return Err(PreparationError::Retry(not_canonical()));
    }
    match choose_funding_note(&read.notes, limit, source_note, &read.root) {
        NoteChoice::Selected(i) => Ok(i),
        NoteChoice::StateChanged => Err(
            PreparationError::Retry("funding state changed during note selection".to_owned()),
        ),
        NoteChoice::Unreadable(text) => Err(PreparationError::Retry(text)),
        NoteChoice::Missing => Err(PreparationError::InsufficientFunding),
    }
}

/// Why no reserve comes of an authorization and a built request: `Some(None)`
/// for funding that does not suffice, `Some(Some(text))` for anything worth
/// another try.
pub open spec fn finish_refusal(
    config: &CorporateNativeConfig,
    authorization_fault: Option<Seq<char>>,
    read: &FundingRead,
    order: &OrderTerms,
    source_note: Option<Digest32>,
    built: Result<BuiltRequest, String>,
) -> Option<Option<Seq<char>>> {
    let limit = order.reservation_limit;
    let funding = funding_refusal(config, authorization_fault, read, limit, source_note);
    if funding is Some {
        funding
    } else {
        match built {
            Err(text) => Some(Some(text@)),
            Ok(built) => if chosen_note(read.notes@, limit, source_note, read.root, 0)
                != NoteChoiceView::Selected(built.source_index as int) {
                Some(Some("canonical funding changed during preparation"@))
            } else {
                match facility_fault(config, limit, read.facility.sequence) {
                    Some(text) => Some(Some(text)),
                    None => None,
                }
            },
        }
    }
}

/// Put the reserve of an authorized request together, and check it: the
/// authorization and its funding stand, and the request was built on the chosen
/// note. `built` is what the request library made of them, `facts` what the
/// order and commitment libraries derive from the reserve.
pub fn prepare_authorized_reservation(
    config: &CorporateNativeConfig,
    authorization: &CorporateReserveAuthorization,
    authorization_facts: &Result<AuthorizationFacts, String>,
    read: &FundingRead,
    order: &OrderTerms,
    source_note: &Option<Digest32>,
    built: Result<BuiltRequest, String>,
    facts: &Result<ReserveFacts, String>,
) -> (r: Result<PreparedCorporateReserve, PreparationError>)
    ensures
        match finish_refusal(
            config,
            authorization.fault(config, *authorization_facts),
            read,
            order,
            *source_note,
            built,
        ) {
            Some(None) => r == Err::<PreparedCorporateReserve, PreparationError>(
                PreparationError::InsufficientFunding,
            ),
            Some(Some(text)) => r matches Err(PreparationError::Retry(e)) && e@ == text,
            None => match r {
                Ok(prepared) => {
                    &&& reserve_of(&prepared, config, authorization, read, order, &built->Ok_0)
                    &&& prepared.fault(config, *facts) is None
                },
                Err(PreparationError::Retry(text)) => exists|prepared: PreparedCorporateReserve|
                    #[trigger]
                    reserve_of(&prepared, config, authorization, read, order, &built->Ok_0)
                        && prepared.fault(config, *facts) == Some(text@),
                Err(PreparationError::InsufficientFunding) => false,
            },
        },
{
    let chosen: usize = match choose_authorized_funding(
        config,
        authorization,
        authorization_facts,
        read,
        order.reservation_limit,
        source_note,
    ) {
        Err(e) => return Err(e),
        Ok(i) => i,
    };
    let built = match built {
        Err(text) => return Err(PreparationError::Retry(text)),
        Ok(built) => built,
    };
    if built.source_index != chosen {
        return Err(
            PreparationError::Retry("canonical funding changed during preparation".to_owned()),
        );
    }
    let signed = SignedOrder {
        order_wire: copy_bytes(authorization.order_wire.as_slice()),
        signing_key: authorization.signing_key,
        eligibility_commitment: authorization.eligibility_commitment,
    };
    let secrets = ReserveSecrets {
        order_authorization_salt: authorization.order_authorization_salt,
        reserve_blinding: authorization.reserve_blinding,
        reserve_reblinding: authorization.reserve_reblinding,
        side_blinding: authorization.side_blinding,
    };
    let prepared = match assemble_reserve(
        config,
        authorization.mandate.copy(),
        signed,
        order,
        &secrets,
        &read.facility,
        built,
    ) {
        Err(text) => return Err(PreparationError::Retry(text)),
        Ok(prepared) => prepared,
    };
    assert(reserve_of(&prepared, config, authorization, read, order, &built));
    match prepared.validate(config, facts) {
        Err(text) => Err(PreparationError::Retry(text)),
        Ok(_) => Ok(prepared),
    }
}

/// The reserve of an authorization: its mandate, salt, blindings and order, the
/// facility as it was read, what was built, and the facility after the order's
/// limit went from available to held.
pub open spec fn reserve_of(
    prepared: &PreparedCorporateReserve,
    config: &CorporateNativeConfig,
    authorization: &CorporateReserveAuthorization,
    read: &FundingRead,
    order: &OrderTerms,
    built: &BuiltRequest,
) -> bool {
    let request = prepared.request;
    &&& request.mandate.equals(&authorization.mandate)
    &&& request.order_commitment == order.commitment
    &&& request.order_authorization_salt == authorization.order_authorization_salt
    &&& request.reserve_reblinding == authorization.reserve_reblinding
    &&& request.before_sequence == read.facility.sequence
    &&& request.before == read.facility.commitments
    &&& request.after == built.after
    &&& request.wire@ == built.wire@
    &&& prepared.order_wire@ == authorization.order_wire@
    &&& prepared.signing_key == authorization.signing_key
    &&& prepared.eligibility_commitment == authorization.eligibility_commitment
    &&& prepared.side_blinding == authorization.side_blinding
    &&& prepared.reserve_blinding == authorization.reserve_blinding
    &&& facility_moves(
        &prepared.facility_after,
        config,
        order.reservation_limit,
        read.facility.sequence,
        authorization.reserve_blinding,
    )
}

} // verus!
