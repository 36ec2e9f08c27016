//! Private DeFMI ingress, separate from the market coordinator: which caller
//! may ask what.

use crate::bytes::{digest_equal, Digest32};
use crate::corporate_expiry::ReleaseReason;
use crate::json::{
    json_field_count, json_field_present, json_has_field, json_number, json_object_len, json_text,
    json_text_field, json_u64_field,
};
use crate::text::first_chars;
use crate::text_map::text_equal;
use vstd::prelude::*;

verus! {

/// What a certificate entitles its holder to be.
#[derive(Clone, Copy, Debug, PartialEq, Eq, Structural)]
pub enum PeerRole {
    Participant,
    Coordinator,
    Settlement,
    Operator,
}

/// A caller that the operator has configured. `application_key` verifies what
/// the caller signs.
#[derive(Clone, Copy, Debug, PartialEq, Eq)]
pub struct Principal {
    pub certificate_sha256: Digest32,
    pub role: PeerRole,
    pub application_key: Digest32,
}

/// The reserve scope of one issuer deployment.
#[derive(Clone, Copy, Debug, PartialEq, Eq)]
pub struct ApplicationReserveScope {
    pub application_binding: Digest32,
    pub venue_id: Digest32,
    pub defmi_id: Digest32,
    pub committee_key_digest: Digest32,
    pub pq_committee_digest: Digest32,
    pub committee_epoch: u64,
    pub amount_bits: u32,
}

impl ApplicationReserveScope {
    pub fn same(&self, other: &ApplicationReserveScope) -> (same: bool)
        ensures
            same == (*self == *other),
    {
        digest_equal(&self.application_binding, &other.application_binding) && digest_equal(
            &self.venue_id,
            &other.venue_id,
        ) && digest_equal(&self.defmi_id, &other.defmi_id) && digest_equal(
            &self.committee_key_digest,
            &other.committee_key_digest,
        ) && digest_equal(&self.pq_committee_digest, &other.pq_committee_digest)
            && self.committee_epoch == other.committee_epoch && self.amount_bits
            == other.amount_bits
    }
}

/// A release that a caller asks the ledger for. `message_fault` is why it has
/// no message to sign, if it has none.
pub struct AskedRelease {
    pub scope: ApplicationReserveScope,
    pub reason: ReleaseReason,
    pub committee_public: Vec<u8>,
    pub signature: Vec<u8>,
    pub message_fault: Option<String>,
}

/// A request at the ingress. `params` is the encoding of its parameters.
/// `reserve` is the scope of the reservation that the parameters describe, and
/// `release` the release in them; each is an error text where they describe
/// none.
pub struct IngressRequest {
    pub method: String,
    pub params: Vec<u8>,
    pub reserve: Result<ApplicationReserveScope, String>,
    pub release: Result<AskedRelease, String>,
}

/// What the ingress does for a caller.
#[derive(Clone, Debug, PartialEq, Eq)]
pub enum IngressAction {
    /// Answer with the scope.
    Scope,
    /// Answer with the finalized reservation, if there is one.
    Recover,
    /// Answer with the finalized reservation, or verify and finalize it.
    Reserve,
    /// Hand a method to the chain, and answer under this identifier.
    Chain { id: u64, method: String },
}

pub enum ActionView {
    Scope,
    Recover,
    Reserve,
    Chain { id: u64, method: Seq<char> },
}

impl View for IngressAction {
    type V = ActionView;

    open spec fn view(&self) -> ActionView {
        match *self {
            IngressAction::Scope => ActionView::Scope,
            IngressAction::Recover => ActionView::Recover,
            IngressAction::Reserve => ActionView::Reserve,
            IngressAction::Chain { id, method } => ActionView::Chain { id, method: method@ },
        }
    }
}

/// The methods that only read the chain.
pub open spec fn chain_read(method: Seq<char>) -> bool {
    ||| method == "defmivm.stateRoot"@
    ||| method == "defmivm.asset"@
    ||| method == "defmivm.note"@
    ||| method == "defmivm.listNotes"@
    ||| method == "defmivm.noteSerial"@
    ||| method == "defmivm.creditFacility"@
    ||| method == "defmivm.creditHold"@
    ||| method == "defmivm.applicationNoteReservation"@
    ||| method == "defmivm.noteClaim"@
    ||| method == "defmivm.listNoteClaims"@
    ||| method == "defmivm.txStatus"@
    ||| method == "defmivm.network"@
}

/// The methods by which the market settles.
pub open spec fn settlement_write(method: Seq<char>) -> bool {
    ||| method == "defmivm.issueApplicationNoteFill"@
    ||| method == "defmivm.issueApplicationNoteFillBatch"@
    ||| method == "defmivm.issueApplicationNoteRelease"@
}

/// A release that a participant may ask for by itself: of its own deployment,
/// for expiry, and without a committee's signature. The chain checks the
/// deadline and the reservation's head.
pub open spec fn participant_release(release: &AskedRelease, scope: ApplicationReserveScope) -> bool {
    &&& release.scope == scope
    &&& release.reason is Expired
    &&& release.committee_public@.len() == 0
    &&& release.signature@.len() == 0
}

/// Whether a role may use a chain method; an error is a release that cannot be
/// read.
pub open spec fn chain_permitted(
    role: PeerRole,
    method: Seq<char>,
    release: Result<AskedRelease, String>,
    scope: ApplicationReserveScope,
) -> Result<bool, Seq<char>> {
    if role is Participant && method == "defmivm.issueApplicationNoteRelease"@ {
        match release {
            Err(text) => Err(text@),
            Ok(release) => match release.message_fault {
                Some(text) => Err(text@),
                None => Ok(participant_release(&release, scope)),
            },
        }
    } else {
        Ok(
            chain_read(method) || (role is Participant && method
                == "defmivm.issueNoteClaimRedemption"@) || ((role is Coordinator
                || role is Settlement) && settlement_write(method)),
        )
    }
}

/// What the ingress does for a chain request, or why it refuses.
pub open spec fn chain_action(
    role: PeerRole,
    request: &IngressRequest,
    scope: ApplicationReserveScope,
) -> Result<ActionView, Seq<char>> {
    let params = request.params@;
    if json_field_count(params) is None {
        Err("chain request must be an object"@)
    } else if json_field_count(params) != Some(4usize) || json_text(params, "jsonrpc"@) != Some(
        "2.0"@,
    ) {
        Err("chain request envelope is malformed"@)
    } else {
        match json_number(params, "id"@) {
            Some(Some(id)) => match json_text(params, "method"@) {
                None => Err("chain method is invalid"@),
                Some(method) => if !json_field_present(params, "params"@) {
                    Err("chain params are missing"@)
                } else {
                    match chain_permitted(role, method, request.release, scope) {
                        Err(text) => Err(text),
                        Ok(true) => Ok(ActionView::Chain { id, method }),
                        Ok(false) => Err(
                            "chain method is not authorized at the private ingress"@,
                        ),
                    }
                },
            },
            _ => Err("chain request ID is invalid"@),
        }
    }
}

/// What the ingress does for a caller, or why it refuses.
pub open spec fn ingress_action(
    role: PeerRole,
    request: &IngressRequest,
    scope: ApplicationReserveScope,
) -> Result<ActionView, Seq<char>> {
    let method = request.method@;
    if method == "scope"@ && json_field_count(request.params@) == Some(0usize) {
        Ok(ActionView::Scope)
    } else if (method == "reserve"@ || method == "recover_reservation"@) && role is Participant {
        match request.reserve {
            Err(text) => Err(text@),
            Ok(asked) => if asked != scope {
                Err("reservation belongs to another issuer deployment"@)
            } else if method == "recover_reservation"@ {
                Ok(ActionView::Recover)
            } else {
                Ok(ActionView::Reserve)
            },
        }
    } else if method == "chain"@ {
        chain_action(role, request, scope)
    } else {
        Err("private ingress operation is not authorized"@)
    }
}

fn is_chain_read(method: &str) -> (read: bool)
    ensures
        read == chain_read(method@),
{
    text_equal(method, "defmivm.stateRoot") || text_equal(method, "defmivm.asset") || text_equal(
        method,
        "defmivm.note",
    ) || text_equal(method, "defmivm.listNotes") || text_equal(method, "defmivm.noteSerial")
        || text_equal(method, "defmivm.creditFacility") || text_equal(method, "defmivm.creditHold")
        || text_equal(method, "defmivm.applicationNoteReservation") || text_equal(
        method,
        "defmivm.noteClaim",
    ) || text_equal(method, "defmivm.listNoteClaims") || text_equal(method, "defmivm.txStatus")
        || text_equal(method, "defmivm.network")
}

fn is_settlement_write(method: &str) -> (write: bool)
    ensures
        write == settlement_write(method@),
{
    text_equal(method, "defmivm.issueApplicationNoteFill") || text_equal(
        method,
        "defmivm.issueApplicationNoteFillBatch",
    ) || text_equal(method, "defmivm.issueApplicationNoteRelease")
}

fn check_chain_method(
    role: PeerRole,
    method: &str,
    release: &Result<AskedRelease, String>,
    scope: &ApplicationReserveScope,
) -> (r: Result<bool, String>)
    ensures
        crate::store::text_result(r) == chain_permitted(role, method@, *release, *scope),
{
    if role == PeerRole::Participant && text_equal(method, "defmivm.issueApplicationNoteRelease") {
        proof {
            reveal_strlit("defmivm.issueApplicationNoteRelease");
            reveal_strlit("defmivm.issueNoteClaimRedemption");
        }
        return match release {
            Err(text) => Err(text.clone()),
            Ok(release) => match &release.message_fault {
                Some(text) => Err(text.clone()),
                None => Ok(
                    release.scope.same(scope) && release.reason == ReleaseReason::Expired
                        && release.committee_public.len() == 0 && release.signature.len() == 0,
                ),
            },
        };
    }
    Ok(
        is_chain_read(method) || (role == PeerRole::Participant && text_equal(
            method,
            "defmivm.issueNoteClaimRedemption",
        )) || ((role == PeerRole::Coordinator || role == PeerRole::Settlement)
            && is_settlement_write(method)),
    )
}

/// A decision with its error text as characters.
pub open spec fn action_result(r: Result<IngressAction, String>) -> Result<ActionView, Seq<char>> {
    match r {
        Ok(action) => Ok(action@),
        Err(text) => Err(text@),
    }
}

fn dispatch_chain(role: PeerRole, request: &IngressRequest, scope: &ApplicationReserveScope) -> (r:
    Result<IngressAction, String>)
    ensures
        action_result(r) == chain_action(role, request, *scope),
{
    let params = request.params.as_slice();
    match json_object_len(params) {
        None => return Err("chain request must be an object".to_owned()),
        Some(count) => {
            if count != 4 {
                return Err("chain request envelope is malformed".to_owned());
            }
        },
    }
    match json_text_field(params, "jsonrpc") {
        None => return Err("chain request envelope is malformed".to_owned()),
        Some(version) => {
            if !text_equal(version.as_str(), "2.0") {
                return Err("chain request envelope is malformed".to_owned());
            }
        },
    }
    let id: u64 = match json_u64_field(params, "id") {
        Some(Some(id)) => id,
        _ => return Err("chain request ID is invalid".to_owned()),
    };
    let method = match json_text_field(params, "method") {
        None => return Err("chain method is invalid".to_owned()),
        Some(method) => method,
    };
    if !json_has_field(params, "params") {
        return Err("chain params are missing".to_owned());
    }
    match check_chain_method(role, method.as_str(), &request.release, scope) {
        Err(e) => Err(e),
        Ok(permitted) => {
            if !permitted {
                return Err("chain method is not authorized at the private ingress".to_owned());
            }
            Ok(IngressAction::Chain { id, method })
        },
    }
}

/// The ingress of one issuer deployment. The operator constructs it; it is
/// never read from a request.
pub struct AdmissionAuthority {
    pub scope: ApplicationReserveScope,
}

impl AdmissionAuthority {
    /// What the ingress does for a caller of a role, or why it refuses.
    pub fn dispatch(&self, role: PeerRole, request: &IngressRequest) -> (r:
        Result<IngressAction, String>)
        ensures
            action_result(r) == ingress_action(role, request, self.scope),
    {
        let scope = &self.scope;
        let method = request.method.as_str();
        if text_equal(method, "scope") && json_object_len(request.params.as_slice()) == Some(0usize) {
            return Ok(IngressAction::Scope);
        }
        let recover: bool = text_equal(method, "recover_reservation");
        if (text_equal(method, "reserve") || recover) && role == PeerRole::Participant {
            return match &request.reserve {
                Err(text) => Err(text.clone()),
                Ok(asked) => {
                    if !asked.same(scope) {
                        return Err("reservation belongs to another issuer deployment".to_owned());
                    }
                    if recover {
                        Ok(IngressAction::Recover)
                    } else {
                        Ok(IngressAction::Reserve)
                    }
                },
            };
        }
        if text_equal(method, "chain") {
            return dispatch_chain(role, request, scope);
        }
        Err("private ingress operation is not authorized".to_owned())
    }
}

/// What follows the look at the ledger for a reservation.
#[derive(Clone, Copy, Debug, PartialEq, Eq, Structural)]
pub enum ReserveStep {
    /// Answer with what the ledger has finalized.
    Answer,
    /// Pass the lookup's error on.
    Refuse,
    /// Verify the mandate, have it approved, and finalize it.
    Finalize,
}

/// Canonical state is read first: a replay of the same mandate after a lost
/// reply must not need the spent notes or the old facility generation. Only a
/// reservation that the ledger does not have is issued, and never by a
/// recovery.
pub fn after_lookup(recover_only: bool, finalized: bool) -> (step: ReserveStep)
    ensures
        step == (if finalized {
            ReserveStep::Answer
        } else if recover_only {
            ReserveStep::Refuse
        } else {
            ReserveStep::Finalize
        }),
{
    if finalized {
        ReserveStep::Answer
    } else if recover_only {
        ReserveStep::Refuse
    } else {
        ReserveStep::Finalize
    }
}

/// The most connections at a time.
pub const MAX_CONNECTIONS: usize = 16;

/// Whether one more connection is served.
pub fn serves_another(connections: usize) -> (serves: bool)
    ensures
        serves == (connections < MAX_CONNECTIONS),
{
    connections < MAX_CONNECTIONS
}

/// Check the configured callers; each of `faults` is what is wrong with one of
/// them, if anything.
pub fn check_principals(faults: &Vec<Option<String>>) -> (r: Result<(), String>)
    ensures
        r is Ok == (faults@.len() > 0 && forall|i: int|
            0 <= i < faults@.len() ==> (#[trigger] faults@[i]) is None),
        r matches Err(e) ==> if faults@.len() == 0 {
            e@ == "private ingress requires configured principals"@
        } else {
            exists|i: int|
                0 <= i < faults@.len() && ((#[trigger] faults@[i]) matches Some(text) && e@ == text@)
                    && forall|j: int| 0 <= j < i ==> (#[trigger] faults@[j]) is None
        },
{
    if faults.len() == 0 {
        return Err("private ingress requires configured principals".to_owned());
    }
    let mut i: usize = 0;
    while i < faults.len()
        invariant
            i <= faults@.len(),
            faults@.len() > 0,
            forall|j: int| 0 <= j < i ==> (#[trigger] faults@[j]) is None,
        decreases faults@.len() - i,
    {
        match &faults[i] {
            Some(text) => {
                assert(faults@[i as int] is Some);
                return Err(text.clone());
            },
            None => {
                assert(faults@[i as int] is None);
            },
        }
        i += 1;
    }
    Ok(())
}

/// The role of the first configured caller with a certificate.
pub fn role_of(principals: &Vec<Principal>, peer: &Digest32) -> (r: Result<PeerRole, String>)
    ensures
        r is Ok == (exists|i: int|
            0 <= i < principals@.len() && (#[trigger] principals@[i]).certificate_sha256 == *peer),
        r matches Ok(role) ==> exists|i: int|
            0 <= i < principals@.len() && (#[trigger] principals@[i]).certificate_sha256 == *peer
                && principals@[i].role == role && forall|j: int|
                0 <= j < i ==> (#[trigger] principals@[j]).certificate_sha256 != *peer,
        r matches Err(e) ==> e@ == "unknown private ingress principal"@,
{
    let mut i: usize = 0;
    while i < principals.len()
        invariant
            i <= principals@.len(),
            forall|j: int| 0 <= j < i ==> (#[trigger] principals@[j]).certificate_sha256 != *peer,
        decreases principals@.len() - i,
    {
        if digest_equal(&principals[i].certificate_sha256, peer) {
            assert(principals@[i as int].certificate_sha256 == *peer);
            return Ok(principals[i].role);
        }
        i += 1;
    }
    Err("unknown private ingress principal".to_owned())
}

/// Check the length of a request line. `bound` is the protocol's limit.
pub fn check_request_length(length: usize, bound: usize) -> (r: Result<(), String>)
    ensures
        r is Ok == (length <= bound),
        r matches Err(e) ==> e@ == "private ingress request exceeds its wire bound"@,
{
    if length > bound {
        return Err("private ingress request exceeds its wire bound".to_owned());
    }
    Ok(())
}

/// The most characters of an error that a caller is told.
pub const MAX_ERROR_CHARS: usize = 512;

/// An error text as a caller is told it: its beginning.
pub fn bounded_error(text: &str) -> (told: String)
    ensures
        told@ == (if text@.len() <= MAX_ERROR_CHARS {
            text@
        } else {
            text@.take(MAX_ERROR_CHARS as int)
        }),
{
    first_chars(text, MAX_ERROR_CHARS)
}

/// A participant's writes to the chain are the release of an expired
/// reservation of its own deployment and the redemption of a claim.
pub proof fn lemma_participant_writes(
    request: &IngressRequest,
    scope: ApplicationReserveScope,
    id: u64,
    method: Seq<char>,
)
    requires
        chain_action(PeerRole::Participant, request, scope) == Ok::<ActionView, Seq<char>>(
            ActionView::Chain { id, method },
        ),
        !chain_read(method),
    ensures
        method == "defmivm.issueNoteClaimRedemption"@ || (method
            == "defmivm.issueApplicationNoteRelease"@ && (request.release matches Ok(release)
            && participant_release(&release, scope))),
{
}

/// An operator reads the chain and writes nothing; nobody reserves but a
/// participant.
pub proof fn lemma_operator_only_reads(
    request: &IngressRequest,
    scope: ApplicationReserveScope,
    action: ActionView,
)
    requires
        ingress_action(PeerRole::Operator, request, scope) == Ok::<ActionView, Seq<char>>(action),
    ensures
        action is Scope || (action matches ActionView::Chain { id, method } && chain_read(method)),
{
}

/// The market's roles settle and read, and do nothing else on the chain.
pub proof fn lemma_market_roles_settle(
    role: PeerRole,
    request: &IngressRequest,
    scope: ApplicationReserveScope,
    action: ActionView,
)
    requires
        role is Coordinator || role is Settlement,
        ingress_action(role, request, scope) == Ok::<ActionView, Seq<char>>(action),
    ensures
        action is Scope || (action matches ActionView::Chain { id, method } && (chain_read(method)
            || settlement_write(method))),
{
}

} // verus!
