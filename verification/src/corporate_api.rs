//! Owner-only corporate RPC. Never mount this service's identity or journal in
//! the public reader, market coordinator, or MPC containers.

use crate::bytes::{bytes_equal, digest_equal, digest_is_zero, is_zero, sha256, Digest32};
use crate::claim_authorizations::{
    answer, claim_authorization_record_id, claim_record_key, ClaimDraw, ClaimRequest,
};
use crate::corporate::{
    three_digests_equal, CanonicalFacility, CorporateNativeConfig, FacilityWitness,
    PreparedCorporateReserve, ReserveFacts, ReserveScope,
};
use crate::corporate_authorization::{AuthorizationFacts, CorporateReserveAuthorization};
use crate::corporate_client::AnswerKind;
use crate::corporate_dispatch::{
    authorized_request, enqueue_authorized, enqueue_authorized_fault, DispatchRequest,
};
use crate::corporate_journal::{is_request_id, NativeCorporateJournal, StoredCorporateIntent};
use crate::corporate_journal_model::{
    authorization_fits, request_id_valid, JournalView, StoredClaimAuthorizations,
};
use crate::market_network::MarketEndpoint;
use crate::store::text_result;
use crate::text_map::text_equal;
use vstd::prelude::*;

verus! {

/// The fixed size of a corporate request on the wire.
pub const REQUEST_BYTES: usize = 16_777_216;

/// The fixed size of a corporate response on the wire.
pub const RESPONSE_BYTES: usize = 1_048_576;

#[derive(Clone, Debug, PartialEq, Eq)]
pub struct CorporateApiConfig {
    pub endpoint: MarketEndpoint,
    /// Exact corporate client certificates; sharing a CA is insufficient.
    pub clients: Vec<Digest32>,
    /// Market certificates may invoke only claim-key commitment issuance.
    pub claim_authorization_clients: Vec<Digest32>,
}

/// Whether a list holds a fingerprint.
pub fn pinned(list: &Vec<Digest32>, fingerprint: &Digest32) -> (found: bool)
    ensures
        found == list@.contains(*fingerprint),
{
    let mut i: usize = 0;
    while i < list.len()
        invariant
            i <= list@.len(),
            forall|j: int| 0 <= j < i ==> list@[j] != *fingerprint,
        decreases list@.len() - i,
    {
        if digest_equal(&list[i], fingerprint) {
            assert(list@[i as int] == *fingerprint);
            return true;
        }
        i += 1;
    }
    false
}

fn holds_zero(list: &Vec<Digest32>) -> (found: bool)
    ensures
        found == (exists|i: int| 0 <= i < list@.len() && is_zero((#[trigger] list@[i])@)),
{
    let mut i: usize = 0;
    while i < list.len()
        invariant
            i <= list@.len(),
            forall|j: int| 0 <= j < i ==> !is_zero((#[trigger] list@[j])@),
        decreases list@.len() - i,
    {
        if digest_is_zero(&list[i]) {
            assert(is_zero(list@[i as int]@));
            return true;
        }
        i += 1;
    }
    false
}

/// Both lists pin at least one certificate, none of them empty, and no
/// certificate stands in both.
pub open spec fn acl_scoped(config: &CorporateApiConfig) -> bool {
    &&& config.clients@.len() > 0
    &&& config.claim_authorization_clients@.len() > 0
    &&& forall|i: int| 0 <= i < config.clients@.len() ==> !is_zero((#[trigger] config.clients@[i])@)
    &&& forall|i: int|
        0 <= i < config.claim_authorization_clients@.len() ==> !is_zero(
            (#[trigger] config.claim_authorization_clients@[i])@,
        )
    &&& forall|i: int|
        0 <= i < config.clients@.len() ==> !config.claim_authorization_clients@.contains(
            #[trigger] config.clients@[i],
        )
}

pub fn validate_operation_acl(config: &CorporateApiConfig) -> (r: Result<(), String>)
    ensures
        r is Ok == acl_scoped(config),
        r matches Err(e) ==> e@
            == "corporate API requires exact operation-scoped client certificate pins"@,
{
    let mut shared: bool = false;
    let mut i: usize = 0;
    while i < config.clients.len()
        invariant
            i <= config.clients@.len(),
            shared == (exists|j: int|
                0 <= j < i && config.claim_authorization_clients@.contains(
                    #[trigger] config.clients@[j],
                )),
        decreases config.clients@.len() - i,
    {
        if pinned(&config.claim_authorization_clients, &config.clients[i]) {
            assert(config.claim_authorization_clients@.contains(config.clients@[i as int]));
            shared = true;
        }
        i += 1;
    }
    if config.clients.len() == 0 || config.claim_authorization_clients.len() == 0 || holds_zero(
        &config.clients,
    ) || holds_zero(&config.claim_authorization_clients) || shared {
        return Err(
            "corporate API requires exact operation-scoped client certificate pins".to_owned(),
        );
    }
    Ok(())
}

/// One side of a fill that claims are issued for.
#[derive(Clone, Copy, Debug, PartialEq, Eq)]
pub struct ClaimSide {
    pub reservation_id: Digest32,
    pub participant_handle: Digest32,
    pub asset_id: Digest32,
    pub sequence: u64,
}

/// A request for claim signers of one fill.
#[derive(Clone, Copy, Debug, PartialEq, Eq)]
pub struct ClaimIssue {
    pub payer: ClaimSide,
    pub payee: ClaimSide,
}

/// What a corporate client may ask for.
pub enum CorporateRequest {
    Enqueue {
        request_id: String,
        intent: StoredCorporateIntent,
        authorization: CorporateReserveAuthorization,
        source_note: Option<Digest32>,
    },
    IssueClaimAuthorizations {
        reservation_id: Digest32,
        issue: ClaimIssue,
        prior_fills: Vec<PriorFill>,
    },
    QueueStatus,
    WalletSnapshot,
}

/// Whether a certificate may make a request: the market's certificates for
/// claim signers, the owner's for everything else.
pub open spec fn authorized(
    config: &CorporateApiConfig,
    request: &CorporateRequest,
    fingerprint: Digest32,
) -> bool {
    if request is IssueClaimAuthorizations {
        config.claim_authorization_clients@.contains(fingerprint)
    } else {
        config.clients@.contains(fingerprint)
    }
}

pub fn client_is_authorized(
    config: &CorporateApiConfig,
    request: &CorporateRequest,
    fingerprint: &Digest32,
) -> (allowed: bool)
    ensures
        allowed == authorized(config, request, *fingerprint),
{
    match request {
        CorporateRequest::IssueClaimAuthorizations { .. } => pinned(
            &config.claim_authorization_clients,
            fingerprint,
        ),
        CorporateRequest::Enqueue { .. } => pinned(&config.clients, fingerprint),
        CorporateRequest::QueueStatus => pinned(&config.clients, fingerprint),
        CorporateRequest::WalletSnapshot => pinned(&config.clients, fingerprint),
    }
}

/// Check that a caller may make a request.
pub fn check_client(config: &CorporateApiConfig, request: &CorporateRequest, peer: &Digest32) -> (r:
    Result<(), String>)
    ensures
        r is Ok == authorized(config, request, *peer),
        r matches Err(e) ==> e@ == "corporate client not authorized"@,
{
    if !client_is_authorized(config, request, peer) {
        return Err("corporate client not authorized".to_owned());
    }
    Ok(())
}

/// Check the certificate that a corporate service presents.
pub fn check_corporate_peer(endpoint: &MarketEndpoint, peer: &Digest32) -> (r: Result<(), String>)
    ensures
        r is Ok == (endpoint.certificate_sha256 == *peer),
        r matches Err(e) ==> e@ == "corporate endpoint pin mismatch"@,
{
    if !digest_equal(peer, &endpoint.certificate_sha256) {
        return Err("corporate endpoint pin mismatch".to_owned());
    }
    Ok(())
}

/// Under a scoped list, no certificate has both authorities: what may issue
/// claim signers may neither queue orders nor read the wallet, and the other
/// way round.
pub proof fn lemma_authorities_are_disjoint(
    config: &CorporateApiConfig,
    claim: &CorporateRequest,
    owner: &CorporateRequest,
    fingerprint: Digest32,
)
    requires
        acl_scoped(config),
        claim is IssueClaimAuthorizations,
        !(owner is IssueClaimAuthorizations),
    ensures
        !(authorized(config, claim, fingerprint) && authorized(config, owner, fingerprint)),
{
    if authorized(config, claim, fingerprint) && authorized(config, owner, fingerprint) {
        let i = choose|i: int| 0 <= i < config.clients@.len() && config.clients@[i] == fingerprint;
        assert(!config.claim_authorization_clients@.contains(config.clients@[i]));
    }
}

/// An intake that may touch the journal: a valid name, a tracked intent that is
/// not from the future, and an authorization of exactly that intent.
pub open spec fn intake_well_formed(
    id: Seq<char>,
    intent: &StoredCorporateIntent,
    authorization: &CorporateReserveAuthorization,
    now: u64,
) -> bool {
    &&& request_id_valid(id)
    &&& intent.reserve_send_tracking
    &&& intent.accepted_at <= now
    &&& authorization.mandate.valid_from <= now
    &&& authorization_fits(authorization, intent)
}

/// Intents with the same terms.
pub open spec fn same_intent(a: &StoredCorporateIntent, b: &StoredCorporateIntent) -> bool {
    &&& a.input_digest == b.input_digest
    &&& a.order_wire@ == b.order_wire@
    &&& a.signing_key@ == b.signing_key@
    &&& a.eligibility_commitment == b.eligibility_commitment
    &&& a.accepted_at == b.accepted_at
    &&& a.expires_at == b.expires_at
    &&& a.reserve_send_tracking == b.reserve_send_tracking
}

fn intents_same(a: &StoredCorporateIntent, b: &StoredCorporateIntent) -> (same: bool)
    ensures
        same == same_intent(a, b),
{
    digest_equal(&a.input_digest, &b.input_digest) && bytes_equal(
        a.order_wire.as_slice(),
        b.order_wire.as_slice(),
    ) && bytes_equal(&a.signing_key, &b.signing_key) && digest_equal(
        &a.eligibility_commitment,
        &b.eligibility_commitment,
    ) && a.accepted_at == b.accepted_at && a.expires_at == b.expires_at && a.reserve_send_tracking
        == b.reserve_send_tracking
}

/// Why an intake is refused, if it is. `offered` is what is derived from the
/// authorization, `market` the order's market where the order reads.
pub open spec fn intake_fault(
    journal: JournalView,
    config: &CorporateNativeConfig,
    cluster_market: Seq<char>,
    id: Seq<char>,
    intent: &StoredCorporateIntent,
    authorization: &CorporateReserveAuthorization,
    offered: Result<AuthorizationFacts, String>,
    market: Result<Seq<char>, Seq<char>>,
    now: u64,
) -> Option<Seq<char>> {
    if !intake_well_formed(id, intent, authorization, now) {
        Some("invalid corporate authorization"@)
    } else if authorization.fault(config, offered) is Some {
        authorization.fault(config, offered)
    } else if market is Err {
        Some(market->Err_0)
    } else if market->Ok_0 != cluster_market {
        Some("corporate market mismatch"@)
    } else {
        match journal.intent(id) {
            Err(text) => Some(text),
            Ok(saved) => if saved matches Some(kept) && !same_intent(&kept, intent) {
                Some("corporate request conflicts with saved intent"@)
            } else if saved is None && intent.expires_at <= now {
                Some("new corporate request expired"@)
            } else {
                match journal.authorization(id) {
                    Err(text) => Some(text),
                    Ok(None) => None,
                    Ok(Some(kept)) => if sha256(kept.digest_bytes()) != sha256(
                        authorization.digest_bytes(),
                    ) {
                        Some("corporate request conflicts with saved authorization"@)
                    } else {
                        None
                    },
                }
            },
        }
    }
}

/// Check an intake. Nothing is written before every check has passed.
pub fn check_intake(
    journal: &NativeCorporateJournal,
    config: &CorporateNativeConfig,
    cluster_market: &str,
    request_id: &str,
    intent: &StoredCorporateIntent,
    authorization: &CorporateReserveAuthorization,
    offered: &Result<AuthorizationFacts, String>,
    market: &Result<String, String>,
    now: u64,
) -> (r: Result<(), String>)
    requires
        journal.wf(),
    ensures
        ({
            let read = match *market {
                Ok(text) => Ok(text@),
                Err(text) => Err(text@),
            };
            let fault = intake_fault(
                journal@,
                config,
                cluster_market@,
                request_id@,
                intent,
                authorization,
                *offered,
                read,
                now,
            );
            &&& r is Ok == fault is None
            &&& r matches Err(e) ==> Some(e@) == fault
        }),
{
    if !is_request_id(request_id) || !intent.reserve_send_tracking || intent.accepted_at > now
        || authorization.mandate.valid_from > now
        || !crate::corporate_journal::authorization_is_fitting(authorization, intent) {
        return Err("invalid corporate authorization".to_owned());
    }
    match authorization.validate(config, offered) {
        Err(e) => return Err(e),
        Ok(_) => {},
    }
    match market {
        Err(text) => return Err(text.clone()),
        Ok(text) => {
            if !text_equal(text.as_str(), cluster_market) {
                return Err("corporate market mismatch".to_owned());
            }
        },
    }
    match journal.intent(request_id) {
        Err(e) => return Err(e),
        Ok(Some(saved)) => {
            if !intents_same(saved, intent) {
                return Err("corporate request conflicts with saved intent".to_owned());
            }
        },
        Ok(None) => {
            if intent.expires_at <= now {
                return Err("new corporate request expired".to_owned());
            }
        },
    }
    match journal.authorization(request_id) {
        Err(e) => Err(e),
        Ok(None) => Ok(()),
        Ok(Some(saved)) => {
            let kept = saved.digest();
            let offered = authorization.digest();
            if !digest_equal(&kept, &offered) {
                return Err("corporate request conflicts with saved authorization".to_owned());
            }
            Ok(())
        },
    }
}

/// The journal after an accepted intake: the intent first, then its signed
/// terms.
pub open spec fn intake_saved(
    journal: JournalView,
    id: Seq<char>,
    intent: StoredCorporateIntent,
    authorization: CorporateReserveAuthorization,
    config: &CorporateNativeConfig,
    offered: Result<AuthorizationFacts, String>,
    saved: Result<AuthorizationFacts, String>,
) -> (JournalView, Result<(), Seq<char>>) {
    let (kept, first) = journal.save_intent(id, intent);
    match first {
        Err(text) => (kept, Err(text)),
        Ok(_) => kept.save_authorization(id, authorization, config, offered, saved),
    }
}

/// Take one order into the journal: check it whole, then keep the intent and
/// its signed terms. Admission, matching, proving and settlement remain worker
/// duties.
pub fn accept_intake(
    journal: &mut NativeCorporateJournal,
    config: &CorporateNativeConfig,
    cluster_market: &str,
    request_id: &str,
    intent: StoredCorporateIntent,
    authorization: CorporateReserveAuthorization,
    offered: &Result<AuthorizationFacts, String>,
    saved: &Result<AuthorizationFacts, String>,
    market: &Result<String, String>,
    now: u64,
) -> (r: Result<(), String>)
    requires
        old(journal).wf(),
    ensures
        final(journal).wf(),
        ({
            let read = match *market {
                Ok(text) => Ok(text@),
                Err(text) => Err(text@),
            };
            let fault = intake_fault(
                old(journal)@,
                config,
                cluster_market@,
                request_id@,
                &intent,
                &authorization,
                *offered,
                read,
                now,
            );
            match fault {
                Some(text) => final(journal)@ == old(journal)@ && (r matches Err(e) && e@ == text),
                None => (final(journal)@, text_result(r)) == intake_saved(
                    old(journal)@,
                    request_id@,
                    intent,
                    authorization,
                    config,
                    *offered,
                    *saved,
                ),
            }
        }),
{
    match check_intake(
        journal,
        config,
        cluster_market,
        request_id,
        &intent,
        &authorization,
        offered,
        market,
        now,
    ) {
        Err(e) => return Err(e),
        Ok(_) => {},
    }
    match journal.save_intent(request_id, intent) {
        Err(e) => return Err(e),
        Ok(_) => {},
    }
    journal.save_authorization(request_id, authorization, config, offered, saved)
}

/// An order is refused before anything is written where its identifier is not
/// valid, where its authorization is for another facility or asset than the
/// configured ones, and where it is new and has expired.
pub proof fn lemma_invalid_intake_is_refused(
    journal: JournalView,
    config: &CorporateNativeConfig,
    cluster_market: Seq<char>,
    id: Seq<char>,
    intent: &StoredCorporateIntent,
    authorization: &CorporateReserveAuthorization,
    offered: Result<AuthorizationFacts, String>,
    market: Result<Seq<char>, Seq<char>>,
    now: u64,
)
    requires
        ({
            ||| !request_id_valid(id)
            ||| authorization.mandate.facility_id != config.facility_id
            ||| authorization.mandate.asset_id != config.asset_id
            ||| journal.intent(id) == Ok::<Option<StoredCorporateIntent>, Seq<char>>(None)
                && intent.expires_at <= now
        }),
    ensures
        intake_fault(
            journal,
            config,
            cluster_market,
            id,
            intent,
            authorization,
            offered,
            market,
            now,
        ) is Some,
{
}

/// An exact retry of a saved intake passes every check, also after the request
/// has expired.
pub proof fn lemma_exact_retry_is_accepted(
    journal: JournalView,
    config: &CorporateNativeConfig,
    id: Seq<char>,
    intent: StoredCorporateIntent,
    authorization: CorporateReserveAuthorization,
    offered: Result<AuthorizationFacts, String>,
    market: Seq<char>,
    later: u64,
)
    requires
        intake_well_formed(id, &intent, &authorization, later),
        authorization.fault(config, offered) is None,
        journal.intent(id) matches Ok(Some(kept)) && same_intent(&kept, &intent),
        journal.authorization(id) matches Ok(Some(kept)) && kept.digest_bytes()
            == authorization.digest_bytes(),
    ensures
        intake_fault(
            journal,
            config,
            market,
            id,
            &intent,
            &authorization,
            offered,
            Ok(market),
            later,
        ) is None,
{
}

/// What other libraries say of an intake: what they derive from the offered
/// authorization and from the one that is then on record, and the order's market
/// where the order reads.
pub struct IntakeFacts {
    pub offered: Result<AuthorizationFacts, String>,
    pub saved: Result<AuthorizationFacts, String>,
    pub market: Result<String, String>,
}

/// What a service does about a request.
pub enum ApiAction {
    /// List the queue.
    ListQueue,
    /// Read the wallet from the ledger.
    ReadWallet,
    /// Issue claim signers for one fill.
    IssueClaims { reservation_id: Digest32, issue: ClaimIssue, prior_fills: Vec<PriorFill> },
    /// Put an entry into the queue.
    Enqueue(DispatchRequest),
}

/// A corporate service: its configuration, the market that it trades in, and
/// its journal.
pub struct CorporateApi {
    pub config: CorporateNativeConfig,
    pub market_id: String,
    pub journal: NativeCorporateJournal,
}

/// The market that an order names, with the texts as characters.
pub open spec fn market_view(market: Result<String, String>) -> Result<Seq<char>, Seq<char>> {
    match market {
        Ok(text) => Ok(text@),
        Err(text) => Err(text@),
    }
}

impl CorporateApi {
    /// Handle a request. Only an order changes the journal, and only when every
    /// check has passed; what is queued is what the journal then holds.
    pub fn handle(&mut self, request: CorporateRequest, facts: IntakeFacts, now: u64) -> (r: Result<
        ApiAction,
        String,
    >)
        requires
            old(self).journal.wf(),
        ensures
            final(self).journal.wf(),
            final(self).config == old(self).config,
            final(self).market_id == old(self).market_id,
            match request {
                CorporateRequest::QueueStatus => r matches Ok(ApiAction::ListQueue)
                    && final(self).journal@ == old(self).journal@,
                CorporateRequest::WalletSnapshot => r matches Ok(ApiAction::ReadWallet)
                    && final(self).journal@ == old(self).journal@,
                CorporateRequest::IssueClaimAuthorizations { reservation_id, issue, prior_fills } =>
                {
                    &&& r == Ok::<ApiAction, String>(
                        ApiAction::IssueClaims { reservation_id, issue, prior_fills },
                    )
                    &&& final(self).journal@ == old(self).journal@
                },
                CorporateRequest::Enqueue { request_id, intent, authorization, source_note } => {
                    let fault = intake_fault(
                        old(self).journal@,
                        &old(self).config,
                        old(self).market_id@,
                        request_id@,
                        &intent,
                        &authorization,
                        facts.offered,
                        market_view(facts.market),
                        now,
                    );
                    let (saved, kept) = intake_saved(
                        old(self).journal@,
                        request_id@,
                        intent,
                        authorization,
                        &old(self).config,
                        facts.offered,
                        facts.saved,
                    );
                    let queued = enqueue_authorized_fault(
                        saved,
                        &old(self).config,
                        request_id@,
                        facts.saved,
                    );
                    if fault is Some {
                        final(self).journal@ == old(self).journal@ && (r matches Err(e) && Some(e@)
                            == fault)
                    } else if kept is Err {
                        final(self).journal@ == saved && (r matches Err(e) && e@ == kept->Err_0)
                    } else if queued is Some {
                        final(self).journal@ == saved && (r matches Err(e) && Some(e@) == queued)
                    } else {
                        final(self).journal@ == saved && (r matches Ok(ApiAction::Enqueue(entry))
                            && authorized_request(
                            &entry,
                            saved,
                            request_id@,
                            &((saved.intent(request_id@)->Ok_0)->0),
                            &((saved.authorization(request_id@)->Ok_0)->0),
                            source_note,
                        ))
                    }
                },
            },
    {
        match request {
            CorporateRequest::QueueStatus => Ok(ApiAction::ListQueue),
            CorporateRequest::WalletSnapshot => Ok(ApiAction::ReadWallet),
            CorporateRequest::IssueClaimAuthorizations { reservation_id, issue, prior_fills } => Ok(
                ApiAction::IssueClaims { reservation_id, issue, prior_fills },
            ),
            CorporateRequest::Enqueue { request_id, intent, authorization, source_note } => {
                match accept_intake(
                    &mut self.journal,
                    &self.config,
                    self.market_id.as_str(),
                    request_id.as_str(),
                    intent,
                    authorization,
                    &facts.offered,
                    &facts.saved,
                    &facts.market,
                    now,
                ) {
                    Err(e) => return Err(e),
                    Ok(_) => {},
                }
                match enqueue_authorized(
                    &self.journal,
                    &self.config,
                    request_id.as_str(),
                    source_note,
                    &facts.saved,
                ) {
                    Err(e) => Err(e),
                    Ok(entry) => Ok(ApiAction::Enqueue(entry)),
                }
            },
        }
    }
}

/// The ledger's head of a reservation, as far as claims depend on it.
#[derive(Clone, Copy, Debug, PartialEq, Eq)]
pub struct ReserveHead {
    pub state_root: Digest32,
    pub active: bool,
    pub sequence: u64,
    pub hold_id: Digest32,
    pub asset_id: Digest32,
    pub scope: ReserveScope,
    pub mandate_digest: Digest32,
    pub escrow_note_id: Digest32,
}

/// A certified fill that is not yet on the ledger. The two projections are what
/// the settlement library makes of the payer's and the payee's head, where the
/// fill touches them.
pub struct PriorFill {
    pub before_root: Digest32,
    pub scope: ReserveScope,
    pub batched: bool,
    pub operation_id: Digest32,
    pub securities_hold: Digest32,
    pub cash_hold: Digest32,
    pub payer_after: Result<ReserveHead, String>,
    pub payee_after: Result<ReserveHead, String>,
}

impl PriorFill {
    /// Whether the fill moves a reservation.
    pub open spec fn touches(&self, hold_id: Digest32) -> bool {
        self.securities_hold == hold_id || self.cash_hold == hold_id
    }
}

/// What an issued permit says of its reservation.
pub struct PermitTerms {
    pub reservation_id: Digest32,
    pub asset_id: Digest32,
    pub participant_handle: Digest32,
    pub facility_id: Digest32,
    pub venue_id: Digest32,
    pub authority_digest: Digest32,
    pub escrow_note_id: Digest32,
}

fn scopes_same(a: &ReserveScope, b: &ReserveScope) -> (same: bool)
    ensures
        same == (*a == *b),
{
    digest_equal(&a.application_binding, &b.application_binding) && digest_equal(
        &a.venue_id,
        &b.venue_id,
    ) && digest_equal(&a.defmi_id, &b.defmi_id) && a.amount_bits == b.amount_bits
}

/// The side of a fill that a reservation is on.
pub open spec fn local_side(issue: &ClaimIssue, reservation_id: Digest32) -> Option<ClaimSide> {
    if issue.payer.reservation_id == reservation_id {
        Some(issue.payer)
    } else if issue.payee.reservation_id == reservation_id {
        Some(issue.payee)
    } else {
        None
    }
}

/// A permit of this corporate wallet for this side of the fill. `handle` is the
/// wallet's own participant handle.
pub open spec fn permit_owned(
    permit: &PermitTerms,
    local: ClaimSide,
    config: &CorporateNativeConfig,
    handle: Digest32,
) -> bool {
    &&& local.reservation_id == permit.reservation_id
    &&& local.asset_id == permit.asset_id
    &&& local.participant_handle == permit.participant_handle
    &&& permit.facility_id == config.facility_id
    &&& permit.asset_id == config.asset_id
    &&& permit.participant_handle == handle
}

/// Both heads are active at one root and belong to the two sides.
pub open spec fn heads_current(
    payer: ReserveHead,
    payee: ReserveHead,
    issue: &ClaimIssue,
    root: Digest32,
    scope: ReserveScope,
) -> bool {
    &&& payer.state_root == root
    &&& payee.state_root == root
    &&& payer.active
    &&& payee.active
    &&& payer.hold_id == issue.payer.reservation_id
    &&& payee.hold_id == issue.payee.reservation_id
    &&& payer.asset_id == issue.payer.asset_id
    &&& payee.asset_id == issue.payee.asset_id
    &&& payer.scope == scope
    &&& payee.scope == scope
}

/// The two heads while prior fills are followed.
pub struct HeadPair {
    pub payer: ReserveHead,
    pub payee: ReserveHead,
}

/// A prior fill that belongs to the same root and deployment and to a batch,
/// and that did not come before.
pub open spec fn fill_well_formed(
    fills: Seq<PriorFill>,
    i: int,
    root: Digest32,
    application: Digest32,
    config: &CorporateNativeConfig,
) -> bool {
    let fill = fills[i];
    &&& fill.before_root == root
    &&& fill.scope.application_binding == application
    &&& fill.scope.venue_id == config.venue_id
    &&& fill.scope.defmi_id == config.defmi_id
    &&& fill.batched
    &&& forall|j: int| 0 <= j < i ==> (#[trigger] fills[j]).operation_id != fill.operation_id
}

/// What one prior fill makes of the two heads.
pub open spec fn follow_fill(fill: &PriorFill, pair: HeadPair) -> Result<HeadPair, Seq<char>> {
    let payer = if fill.touches(pair.payer.hold_id) {
        match fill.payer_after {
            Ok(head) => Ok(head),
            Err(text) => Err(text@),
        }
    } else {
        Ok(pair.payer)
    };
    let payee = if fill.touches(pair.payee.hold_id) {
        match fill.payee_after {
            Ok(head) => Ok(head),
            Err(text) => Err(text@),
        }
    } else {
        Ok(pair.payee)
    };
    match (payer, payee) {
        (Err(text), _) => Err(text),
        (_, Err(text)) => Err(text),
        (Ok(payer), Ok(payee)) => if !fill.touches(pair.payer.hold_id) && !fill.touches(
            pair.payee.hold_id,
        ) {
            Err("claim authorization prior fill advances neither participant"@)
        } else {
            Ok(HeadPair { payer, payee })
        },
    }
}

/// The two heads after the first `count` prior fills.
pub open spec fn followed_heads(
    start: HeadPair,
    fills: Seq<PriorFill>,
    root: Digest32,
    application: Digest32,
    config: &CorporateNativeConfig,
    count: nat,
) -> Result<HeadPair, Seq<char>>
    decreases count,
{
    if count == 0 {
        Ok(start)
    } else {
        match followed_heads(start, fills, root, application, config, (count - 1) as nat) {
            Err(text) => Err(text),
            Ok(pair) => if !fill_well_formed(fills, count - 1, root, application, config) {
                Err("claim authorization prior-fill chain is malformed"@)
            } else {
                follow_fill(&fills[count - 1], pair)
            },
        }
    }
}

/// The heads that the prior fills lead to are the ones that the issue extends.
pub open spec fn chain_extended(pair: HeadPair, issue: &ClaimIssue) -> bool {
    &&& pair.payer.active
    &&& pair.payee.active
    &&& pair.payer.sequence == issue.payer.sequence
    &&& pair.payee.sequence == issue.payee.sequence
    &&& pair.payer.hold_id == issue.payer.reservation_id
    &&& pair.payee.hold_id == issue.payee.reservation_id
}

/// What a claim request is checked against.
pub struct ClaimContext {
    /// The wallet's own participant handle.
    pub handle: Digest32,
    /// The digest of the application manifest.
    pub application: Digest32,
    /// The outcomes of the permit's and the admission's own checks.
    pub permit_valid: Result<(), String>,
    pub admission_valid: Result<(), String>,
    /// The ledger's root before and after the reads, and the two heads.
    pub root: Digest32,
    pub payer_head: ReserveHead,
    pub payee_head: ReserveHead,
    pub root_afterwards: Digest32,
}

/// Why new claim signers are refused, if they are. `scope` is that of the saved
/// reserve's mandate.
pub open spec fn claim_fault(
    config: &CorporateNativeConfig,
    reservation_id: Digest32,
    issue: &ClaimIssue,
    fills: Seq<PriorFill>,
    permit: &PermitTerms,
    scope: ReserveScope,
    context: &ClaimContext,
    match_slots: u16,
) -> Option<Seq<char>> {
    match local_side(issue, reservation_id) {
        None => Some("claim authorization was requested from another participant"@),
        Some(local) => if !permit_owned(permit, local, config, context.handle) {
            Some("claim authorization permit is not owned by this corporate wallet"@)
        } else if context.permit_valid is Err {
            Some(context.permit_valid->Err_0@)
        } else if context.admission_valid is Err {
            Some(context.admission_valid->Err_0@)
        } else if permit.venue_id != config.venue_id {
            Some("claim authorization permit names another venue"@)
        } else if fills.len() >= match_slots {
            Some("claim authorization prior-fill chain exceeds one market round"@)
        } else if !heads_current(
            context.payer_head,
            context.payee_head,
            issue,
            context.root,
            scope,
        ) {
            Some("claim authorization request is not at active canonical reserve heads"@)
        } else {
            match followed_heads(
                HeadPair { payer: context.payer_head, payee: context.payee_head },
                fills,
                context.root,
                context.application,
                config,
                fills.len(),
            ) {
                Err(text) => Some(text),
                Ok(pair) => {
                    let head = if reservation_id == issue.payer.reservation_id {
                        pair.payer
                    } else {
                        pair.payee
                    };
                    if !chain_extended(pair, issue) {
                        Some(
                            "claim authorization issue does not extend the certified fill chain"@,
                        )
                    } else if head.mandate_digest != permit.authority_digest || head.escrow_note_id
                        != permit.escrow_note_id {
                        Some(
                            "claim authorization local head differs from its durable permit"@,
                        )
                    } else if context.root_afterwards != context.root {
                        Some(
                            "claim authorization reserve reads crossed canonical generations"@,
                        )
                    } else {
                        None
                    }
                },
            }
        },
    }
}

proof fn lemma_chain_fault_stays(
    start: HeadPair,
    fills: Seq<PriorFill>,
    root: Digest32,
    application: Digest32,
    config: &CorporateNativeConfig,
    few: nat,
    many: nat,
)
    requires
        few <= many,
        followed_heads(start, fills, root, application, config, few) is Err,
    ensures
        followed_heads(start, fills, root, application, config, many) == followed_heads(
            start,
            fills,
            root,
            application,
            config,
            few,
        ),
    decreases many,
{
    if few < many {
        lemma_chain_fault_stays(start, fills, root, application, config, few, (many - 1) as nat);
    }
}

fn operation_repeats(fills: &Vec<PriorFill>, i: usize) -> (repeats: bool)
    requires
        i < fills@.len(),
    ensures
        repeats == (exists|j: int|
            0 <= j < i && (#[trigger] fills@[j]).operation_id == fills@[i as int].operation_id),
{
    let mut j: usize = 0;
    while j < i
        invariant
            j <= i < fills@.len(),
            forall|k: int|
                0 <= k < j ==> (#[trigger] fills@[k]).operation_id
                    != fills@[i as int].operation_id,
        decreases i - j,
    {
        if digest_equal(&fills[j].operation_id, &fills[i].operation_id) {
            assert(fills@[j as int].operation_id == fills@[i as int].operation_id);
            return true;
        }
        j += 1;
    }
    false
}

fn follow(fill: &PriorFill, pair: HeadPair) -> (r: Result<HeadPair, String>)
    ensures
        text_result(r) == follow_fill(fill, pair),
{
    let payer_touched: bool = digest_equal(&fill.securities_hold, &pair.payer.hold_id)
        || digest_equal(&fill.cash_hold, &pair.payer.hold_id);
    let payee_touched: bool = digest_equal(&fill.securities_hold, &pair.payee.hold_id)
        || digest_equal(&fill.cash_hold, &pair.payee.hold_id);
    let payer: ReserveHead = if payer_touched {
        match &fill.payer_after {
            Err(text) => return Err(text.clone()),
            Ok(head) => *head,
        }
    } else {
        pair.payer
    };
    let payee: ReserveHead = if payee_touched {
        match &fill.payee_after {
            Err(text) => return Err(text.clone()),
            Ok(head) => *head,
        }
    } else {
        pair.payee
    };
    if !payer_touched && !payee_touched {
        return Err("claim authorization prior fill advances neither participant".to_owned());
    }
    Ok(HeadPair { payer, payee })
}

fn follow_fills(
    payer: &ReserveHead,
    payee: &ReserveHead,
    fills: &Vec<PriorFill>,
    root: &Digest32,
    application: &Digest32,
    config: &CorporateNativeConfig,
) -> (r: Result<HeadPair, String>)
    ensures
        text_result(r) == followed_heads(
            HeadPair { payer: *payer, payee: *payee },
            fills@,
            *root,
            *application,
            config,
            fills@.len(),
        ),
{
    let ghost start = HeadPair { payer: *payer, payee: *payee };
    let mut pair = HeadPair { payer: *payer, payee: *payee };
    let mut i: usize = 0;
    while i < fills.len()
        invariant
            start == (HeadPair { payer: *payer, payee: *payee }),
            i <= fills@.len(),
            followed_heads(start, fills@, *root, *application, config, i as nat) == Ok::<
                HeadPair,
                Seq<char>,
            >(pair),
        decreases fills@.len() - i,
    {
        let fill = &fills[i];
        let repeats: bool = operation_repeats(fills, i);
        if !digest_equal(&fill.before_root, root) || !digest_equal(
            &fill.scope.application_binding,
            application,
        ) || !digest_equal(&fill.scope.venue_id, &config.venue_id) || !digest_equal(
            &fill.scope.defmi_id,
            &config.defmi_id,
        ) || !fill.batched || repeats {
            proof {
                assert(!fill_well_formed(fills@, i as int, *root, *application, config));
                lemma_chain_fault_stays(
                    start,
                    fills@,
                    *root,
                    *application,
                    config,
                    (i + 1) as nat,
                    fills@.len(),
                );
            }
            return Err("claim authorization prior-fill chain is malformed".to_owned());
        }
        assert(fill_well_formed(fills@, i as int, *root, *application, config));
        match follow(fill, pair) {
            Err(e) => {
                proof {
                    lemma_chain_fault_stays(
                        start,
                        fills@,
                        *root,
                        *application,
                        config,
                        (i + 1) as nat,
                        fills@.len(),
                    );
                }
                return Err(e);
            },
            Ok(next) => {
                pair = next;
            },
        }
        i += 1;
    }
    Ok(pair)
}

/// Check a request for new claim signers: the reservation is this wallet's, the
/// ledger's heads are current, and the issue extends them by exactly the
/// certified fills that are not yet on the ledger.
pub fn check_claim_issue(
    config: &CorporateNativeConfig,
    reservation_id: &Digest32,
    issue: &ClaimIssue,
    prior_fills: &Vec<PriorFill>,
    permit: &PermitTerms,
    scope: &ReserveScope,
    context: &ClaimContext,
    match_slots: u16,
) -> (r: Result<(), String>)
    ensures
        ({
            let fault = claim_fault(
                config,
                *reservation_id,
                issue,
                prior_fills@,
                permit,
                *scope,
                context,
                match_slots,
            );
            &&& r is Ok == fault is None
            &&& r matches Err(e) ==> Some(e@) == fault
        }),
{
    let local: ClaimSide = if digest_equal(&issue.payer.reservation_id, reservation_id) {
        issue.payer
    } else if digest_equal(&issue.payee.reservation_id, reservation_id) {
        issue.payee
    } else {
        return Err("claim authorization was requested from another participant".to_owned());
    };
    if !digest_equal(&local.reservation_id, &permit.reservation_id) || !digest_equal(
        &local.asset_id,
        &permit.asset_id,
    ) || !digest_equal(&local.participant_handle, &permit.participant_handle) || !digest_equal(
        &permit.facility_id,
        &config.facility_id,
    ) || !digest_equal(&permit.asset_id, &config.asset_id) || !digest_equal(
        &permit.participant_handle,
        &context.handle,
    ) {
        return Err("claim authorization permit is not owned by this corporate wallet".to_owned());
    }
    match &context.permit_valid {
        Err(text) => return Err(text.clone()),
        Ok(_) => {},
    }
    match &context.admission_valid {
        Err(text) => return Err(text.clone()),
        Ok(_) => {},
    }
    if !digest_equal(&permit.venue_id, &config.venue_id) {
        return Err("claim authorization permit names another venue".to_owned());
    }
    if prior_fills.len() >= match_slots as usize {
        return Err("claim authorization prior-fill chain exceeds one market round".to_owned());
    }
    let payer = &context.payer_head;
    let payee = &context.payee_head;
    if !digest_equal(&payer.state_root, &context.root) || !digest_equal(
        &payee.state_root,
        &context.root,
    ) || !payer.active || !payee.active || !digest_equal(
        &payer.hold_id,
        &issue.payer.reservation_id,
    ) || !digest_equal(&payee.hold_id, &issue.payee.reservation_id) || !digest_equal(
        &payer.asset_id,
        &issue.payer.asset_id,
    ) || !digest_equal(&payee.asset_id, &issue.payee.asset_id) || !scopes_same(&payer.scope, scope)
        || !scopes_same(&payee.scope, scope) {
        return Err(
            "claim authorization request is not at active canonical reserve heads".to_owned(),
        );
    }
    let pair: HeadPair = match follow_fills(
        payer,
        payee,
        prior_fills,
        &context.root,
        &context.application,
        config,
    ) {
        Err(e) => return Err(e),
        Ok(pair) => pair,
    };
    if !pair.payer.active || !pair.payee.active || pair.payer.sequence != issue.payer.sequence
        || pair.payee.sequence != issue.payee.sequence || !digest_equal(
        &pair.payer.hold_id,
        &issue.payer.reservation_id,
    ) || !digest_equal(&pair.payee.hold_id, &issue.payee.reservation_id) {
        return Err(
            "claim authorization issue does not extend the certified fill chain".to_owned(),
        );
    }
    let head: ReserveHead = if digest_equal(reservation_id, &issue.payer.reservation_id) {
        pair.payer
    } else {
        pair.payee
    };
    if !digest_equal(&head.mandate_digest, &permit.authority_digest) || !digest_equal(
        &head.escrow_note_id,
        &permit.escrow_note_id,
    ) {
        return Err("claim authorization local head differs from its durable permit".to_owned());
    }
    if !digest_equal(&context.root_afterwards, &context.root) {
        return Err("claim authorization reserve reads crossed canonical generations".to_owned());
    }
    Ok(())
}

/// One note of the wallet, as a snapshot reads it.
#[derive(Clone, Copy, Debug, PartialEq, Eq)]
pub struct WalletNote {
    pub note_id: Digest32,
    pub lock_id: Digest32,
    pub value: u64,
    pub state_root: Digest32,
    pub spent: bool,
}

/// The escrow note of one reservation, and whether the reservation is active.
#[derive(Clone, Copy, Debug, PartialEq, Eq)]
pub struct Escrow {
    pub note_id: Digest32,
    pub active: bool,
}

/// What a snapshot says of one asset.
#[derive(Clone, Copy, Debug, PartialEq, Eq, Structural)]
pub struct AssetBalance {
    pub spendable: u128,
    pub locked: u128,
}

/// The unspent, unlocked value among the first `count` notes.
pub open spec fn spendable(notes: Seq<WalletNote>, count: nat) -> nat
    decreases count,
{
    if count == 0 {
        0
    } else {
        let note = notes[count - 1];
        spendable(notes, (count - 1) as nat) + if !note.spent && is_zero(note.lock_id@) {
            note.value as nat
        } else {
            0
        }
    }
}

/// A reservation of the wallet, as the ledger shows it. `skipped` marks one
/// that was never sent.
pub struct ReservationRead {
    pub skipped: bool,
    pub state_root: Digest32,
    pub binding_matches: bool,
    pub status: String,
    pub escrow_note_id: Digest32,
}

/// A reservation that a snapshot can use.
pub open spec fn reservation_stands(read: &ReservationRead, root: Digest32) -> bool {
    &&& read.state_root == root
    &&& read.binding_matches
    &&& read.status@ == "active"@ || read.status@ == "consumed"@ || read.status@ == "released"@
}

/// The escrow notes of the first `count` reservations, by note; a later
/// reservation of one note stands for it.
pub open spec fn escrow_notes(reads: Seq<ReservationRead>, count: nat) -> Map<Digest32, bool>
    decreases count,
{
    if count == 0 {
        Map::empty()
    } else {
        let read = reads[count - 1];
        let earlier = escrow_notes(reads, (count - 1) as nat);
        if read.skipped {
            earlier
        } else {
            earlier.insert(read.escrow_note_id, read.status@ == "active"@)
        }
    }
}

/// A list of escrows, one for each note, read as a map.
pub open spec fn escrow_map(escrows: Seq<Escrow>, map: Map<Digest32, bool>) -> bool {
    &&& forall|i: int, j: int|
        0 <= i < j < escrows.len() ==> (#[trigger] escrows[i]).note_id != (
        #[trigger] escrows[j]).note_id
    &&& forall|i: int|
        0 <= i < escrows.len() ==> map.dom().contains((#[trigger] escrows[i]).note_id)
            && map[escrows[i].note_id] == escrows[i].active
    &&& forall|note_id: Digest32| #[trigger]
        map.dom().contains(note_id) ==> exists|i: int|
            0 <= i < escrows.len() && (#[trigger] escrows[i]).note_id == note_id
}

fn put_escrow(escrows: &mut Vec<Escrow>, note_id: Digest32, active: bool)
    ensures
        forall|map: Map<Digest32, bool>| #[trigger]
            escrow_map(old(escrows)@, map) ==> escrow_map(
                final(escrows)@,
                map.insert(note_id, active),
            ),
{
    let ghost before = escrows@;
    let mut i: usize = 0;
    while i < escrows.len()
        invariant
            escrows@ == before,
            before == old(escrows)@,
            i <= escrows@.len(),
            forall|j: int| 0 <= j < i ==> (#[trigger] escrows@[j]).note_id != note_id,
        decreases escrows@.len() - i,
    {
        if digest_equal(&escrows[i].note_id, &note_id) {
            escrows.set(i, Escrow { note_id, active });
            assert forall|map: Map<Digest32, bool>| #[trigger]
                escrow_map(before, map) implies escrow_map(
                escrows@,
                map.insert(note_id, active),
            ) by {
                let next = map.insert(note_id, active);
                assert forall|p: int, q: int|
                    0 <= p < q < escrows@.len() implies (#[trigger] escrows@[p]).note_id != (
                #[trigger] escrows@[q]).note_id by {
                    assert(before[p].note_id != before[q].note_id);
                }
                assert forall|p: int| 0 <= p < escrows@.len() implies next.dom().contains(
                    (#[trigger] escrows@[p]).note_id,
                ) && next[escrows@[p].note_id] == escrows@[p].active by {
                    if p != i {
                        assert(map.dom().contains(before[p].note_id));
                        if p < i {
                            assert(before[p].note_id != before[i as int].note_id);
                        } else {
                            assert(before[i as int].note_id != before[p].note_id);
                        }
                    }
                }
                assert forall|id: Digest32| #[trigger] next.dom().contains(id) implies exists|
                    p: int,
                |
                    0 <= p < escrows@.len() && (#[trigger] escrows@[p]).note_id == id by {
                    if id == note_id {
                        assert(escrows@[i as int].note_id == id);
                    } else {
                        assert(map.dom().contains(id));
                        let p = choose|p: int|
                            0 <= p < before.len() && (#[trigger] before[p]).note_id == id;
                        assert(escrows@[p].note_id == id);
                    }
                }
            }
            return;
        }
        i += 1;
    }
    escrows.push(Escrow { note_id, active });
    assert forall|map: Map<Digest32, bool>| #[trigger]
        escrow_map(before, map) implies escrow_map(escrows@, map.insert(note_id, active)) by {
        let next = map.insert(note_id, active);
        let last = before.len() as int;
        assert forall|p: int, q: int| 0 <= p < q < escrows@.len() implies (
        #[trigger] escrows@[p]).note_id != (#[trigger] escrows@[q]).note_id by {
            if q == last {
                assert(before[p].note_id != note_id);
            } else {
                assert(before[p].note_id != before[q].note_id);
            }
        }
        assert forall|p: int| 0 <= p < escrows@.len() implies next.dom().contains(
            (#[trigger] escrows@[p]).note_id,
        ) && next[escrows@[p].note_id] == escrows@[p].active by {
            if p < last {
                assert(map.dom().contains(before[p].note_id));
                assert(before[p].note_id != note_id);
            }
        }
        assert forall|id: Digest32| #[trigger] next.dom().contains(id) implies exists|p: int|
            0 <= p < escrows@.len() && (#[trigger] escrows@[p]).note_id == id by {
            if id == note_id {
                assert(escrows@[last].note_id == id);
            } else {
                assert(map.dom().contains(id));
                let p = choose|p: int| 0 <= p < before.len() && (#[trigger] before[p]).note_id == id;
                assert(escrows@[p].note_id == id);
            }
        }
    }
}

/// The escrow notes of the wallet's reservations at `root`.
pub fn wallet_escrows(reads: &Vec<ReservationRead>, root: &Digest32) -> (r: Result<
    Vec<Escrow>,
    String,
>)
    ensures
        r is Ok == (forall|i: int|
            0 <= i < reads@.len() && !(#[trigger] reads@[i]).skipped ==> reservation_stands(
                &reads@[i],
                *root,
            )),
        r matches Ok(escrows) ==> escrow_map(escrows@, escrow_notes(reads@, reads@.len())),
        r matches Err(e) ==> e@ == "wallet reservation changed"@,
{
    let mut escrows: Vec<Escrow> = Vec::new();
    let mut i: usize = 0;
    while i < reads.len()
        invariant
            i <= reads@.len(),
            forall|j: int|
                0 <= j < i && !(#[trigger] reads@[j]).skipped ==> reservation_stands(
                    &reads@[j],
                    *root,
                ),
            escrow_map(escrows@, escrow_notes(reads@, i as nat)),
        decreases reads@.len() - i,
    {
        let read = &reads[i];
        if !read.skipped {
            let active: bool = text_equal(read.status.as_str(), "active");
            if !digest_equal(&read.state_root, root) || !read.binding_matches || !(active
                || text_equal(read.status.as_str(), "consumed") || text_equal(
                read.status.as_str(),
                "released",
            )) {
                assert(!reservation_stands(&reads@[i as int], *root));
                return Err("wallet reservation changed".to_owned());
            }
            put_escrow(&mut escrows, read.escrow_note_id, active);
        }
        i += 1;
    }
    Ok(escrows)
}

/// Whether a note is the escrow of some reservation.
pub open spec fn escrow_known(escrows: Seq<Escrow>, note_id: Digest32) -> bool {
    exists|i: int| 0 <= i < escrows.len() && (#[trigger] escrows[i]).note_id == note_id
}

/// Why the first `count` notes do not make a snapshot at `root`, if they do
/// not. `own` says whether the asset is the facility's.
pub open spec fn notes_fault(
    notes: Seq<WalletNote>,
    escrows: Seq<Escrow>,
    own: bool,
    root: Digest32,
    count: nat,
) -> Option<Seq<char>>
    decreases count,
{
    if count == 0 {
        None
    } else {
        let note = notes[count - 1];
        match notes_fault(notes, escrows, own, root, (count - 1) as nat) {
            Some(text) => Some(text),
            None => if note.state_root != root {
                Some("wallet snapshot changed"@)
            } else if !note.spent && !is_zero(note.lock_id@) && (!own || !escrow_known(
                escrows,
                note.note_id,
            )) {
                Some("wallet contains an unsupported lock"@)
            } else {
                None
            },
        }
    }
}

/// Every active reservation's escrow note is among the wallet's unspent locked
/// notes.
pub open spec fn escrows_covered(escrows: Seq<Escrow>, notes: Seq<WalletNote>) -> bool {
    forall|i: int|
        0 <= i < escrows.len() && (#[trigger] escrows[i]).active ==> exists|j: int|
            0 <= j < notes.len() && (#[trigger] notes[j]).note_id == escrows[i].note_id
                && !notes[j].spent && !is_zero(notes[j].lock_id@)
}

/// The balance of one asset, or why there is none. `held` is what the facility
/// holds.
pub open spec fn asset_balance(
    notes: Seq<WalletNote>,
    escrows: Seq<Escrow>,
    own: bool,
    root: Digest32,
    read_root: Digest32,
    held: u64,
) -> Result<(nat, nat), Seq<char>> {
    if read_root != root {
        Err("wallet snapshot changed"@)
    } else if notes_fault(notes, escrows, own, root, notes.len()) is Some {
        Err(notes_fault(notes, escrows, own, root, notes.len())->0)
    } else if own && !escrows_covered(escrows, notes) {
        Err("active reservation has no owned escrow note"@)
    } else {
        Ok(
            (
                spendable(notes, notes.len()),
                if own {
                    held as nat
                } else {
                    0
                },
            ),
        )
    }
}

fn is_escrow(escrows: &Vec<Escrow>, note_id: &Digest32) -> (known: bool)
    ensures
        known == escrow_known(escrows@, *note_id),
{
    let mut i: usize = 0;
    while i < escrows.len()
        invariant
            i <= escrows@.len(),
            forall|j: int| 0 <= j < i ==> (#[trigger] escrows@[j]).note_id != *note_id,
        decreases escrows@.len() - i,
    {
        if digest_equal(&escrows[i].note_id, note_id) {
            assert(escrows@[i as int].note_id == *note_id);
            return true;
        }
        i += 1;
    }
    false
}

fn has_locked_note(notes: &Vec<WalletNote>, note_id: &Digest32) -> (found: bool)
    ensures
        found == (exists|j: int|
            0 <= j < notes@.len() && (#[trigger] notes@[j]).note_id == *note_id && !notes@[j].spent
                && !is_zero(notes@[j].lock_id@)),
{
    let mut i: usize = 0;
    while i < notes.len()
        invariant
            i <= notes@.len(),
            forall|j: int|
                0 <= j < i ==> !((#[trigger] notes@[j]).note_id == *note_id && !notes@[j].spent
                    && !is_zero(notes@[j].lock_id@)),
        decreases notes@.len() - i,
    {
        let note = &notes[i];
        if digest_equal(&note.note_id, note_id) && !note.spent && !digest_is_zero(&note.lock_id) {
            assert(notes@[i as int] == note);
            return true;
        }
        i += 1;
    }
    false
}

proof fn lemma_notes_fault_stays(
    notes: Seq<WalletNote>,
    escrows: Seq<Escrow>,
    own: bool,
    root: Digest32,
    few: nat,
    many: nat,
)
    requires
        few <= many,
        notes_fault(notes, escrows, own, root, few) is Some,
    ensures
        notes_fault(notes, escrows, own, root, many) == notes_fault(
            notes,
            escrows,
            own,
            root,
            few,
        ),
    decreases many,
{
    if few < many {
        lemma_notes_fault_stays(notes, escrows, own, root, few, (many - 1) as nat);
    }
}

/// The balance of one asset. Escrow note face values remain immutable after a
/// partial fill, so what is locked is the facility's held amount and not the
/// sum of the notes.
pub fn wallet_asset(
    notes: &Vec<WalletNote>,
    escrows: &Vec<Escrow>,
    own: bool,
    root: &Digest32,
    read_root: &Digest32,
    held: u64,
) -> (r: Result<AssetBalance, String>)
    ensures
        match asset_balance(notes@, escrows@, own, *root, *read_root, held) {
            Ok(pair) => r matches Ok(balance) && balance.spendable == pair.0 && balance.locked
                == pair.1,
            Err(text) => r matches Err(e) && e@ == text,
        },
{
    if !digest_equal(read_root, root) {
        return Err("wallet snapshot changed".to_owned());
    }
    let mut available: u128 = 0;
    let mut i: usize = 0;
    let total: usize = notes.len();
    while i < total
        invariant
            *read_root == *root,
            total == notes@.len(),
            i <= total,
            available == spendable(notes@, i as nat),
            available <= i * 0xffff_ffff_ffff_ffff,
            notes_fault(notes@, escrows@, own, *root, i as nat) is None,
        decreases total - i,
    {
        let note = &notes[i];
        if !digest_equal(&note.state_root, root) {
            proof {
                lemma_notes_fault_stays(
                    notes@,
                    escrows@,
                    own,
                    *root,
                    (i + 1) as nat,
                    notes@.len(),
                );
            }
            return Err("wallet snapshot changed".to_owned());
        }
        if !note.spent {
            if digest_is_zero(&note.lock_id) {
                assert(i * 0xffff_ffff_ffff_ffff <= 0xffff_ffff_ffff_fffe * 0xffff_ffff_ffff_ffff)
                    by (nonlinear_arith)
                    requires
                        0 <= i <= 0xffff_ffff_ffff_fffe,
                ;
                available = available + note.value as u128;
            } else {
                if !own || !is_escrow(escrows, &note.note_id) {
                    proof {
                        lemma_notes_fault_stays(
                            notes@,
                            escrows@,
                            own,
                            *root,
                            (i + 1) as nat,
                            notes@.len(),
                        );
                    }
                    return Err("wallet contains an unsupported lock".to_owned());
                }
            }
        }
        i += 1;
    }
    if own {
        let mut k: usize = 0;
        while k < escrows.len()
            invariant
                own,
                *read_root == *root,
                notes_fault(notes@, escrows@, own, *root, notes@.len()) is None,
                k <= escrows@.len(),
                forall|j: int|
                    0 <= j < k && (#[trigger] escrows@[j]).active ==> exists|n: int|
                        0 <= n < notes@.len() && (#[trigger] notes@[n]).note_id
                            == escrows@[j].note_id && !notes@[n].spent && !is_zero(
                            notes@[n].lock_id@,
                        ),
            decreases escrows@.len() - k,
        {
            if escrows[k].active && !has_locked_note(notes, &escrows[k].note_id) {
                assert(escrows@[k as int].active);
                assert(!escrows_covered(escrows@, notes@));
                return Err("active reservation has no owned escrow note".to_owned());
            }
            k += 1;
        }
    }
    Ok(
        AssetBalance {
            spendable: available,
            locked: if own {
                held as u128
            } else {
                0
            },
        },
    )
}

/// The facility that a wallet without reservations starts from. `commitments`
/// are those to the configured values.
pub fn initial_facility(
    config: &CorporateNativeConfig,
    canonical: &CanonicalFacility,
    root: &Digest32,
    commitments: &[Digest32; 3],
) -> (r: Result<FacilityWitness, String>)
    ensures
        ({
            let witness = FacilityWitness {
                facility_id: config.facility_id,
                sequence: canonical.sequence,
                values: config.facility_values,
                blindings: config.facility_blindings,
            };
            let named = canonical.state_root == *root && canonical.facility_id
                == config.facility_id;
            &&& r is Ok == (named && witness.blindings_canonical() && canonical.commitments
                == *commitments)
            &&& r matches Ok(found) ==> found == witness
            &&& r matches Err(e) ==> e@ == if named && !witness.blindings_canonical() {
                "corporate scalar encoding is invalid"@
            } else {
                "initial facility witness does not match canonical state"@
            }
        }),
{
    let witness = FacilityWitness {
        facility_id: config.facility_id,
        sequence: canonical.sequence,
        values: config.facility_values,
        blindings: config.facility_blindings,
    };
    if !digest_equal(&canonical.state_root, root) || !digest_equal(
        &canonical.facility_id,
        &config.facility_id,
    ) {
        return Err("initial facility witness does not match canonical state".to_owned());
    }
    match witness.commitments(commitments) {
        Err(e) => return Err(e),
        Ok(found) => {
            if !three_digests_equal(&found, &canonical.commitments) {
                return Err("initial facility witness does not match canonical state".to_owned());
            }
        },
    }
    Ok(witness)
}

/// What a corporate service answers. Values that only other libraries read are
/// kept as their encodings.
#[derive(Clone, Debug, PartialEq, Eq)]
pub enum CorporateResponse {
    Queued { request_id: String, already_present: bool },
    Queue { entries: Vec<u8> },
    Wallet { snapshot: Vec<u8> },
    ClaimAuthorizations { authorizations: Vec<u8> },
    Rejected,
}

impl CorporateResponse {
    pub open spec fn kind_of(&self) -> AnswerKind {
        match *self {
            CorporateResponse::Queued { .. } => AnswerKind::Other,
            CorporateResponse::Queue { .. } => AnswerKind::Queue,
            CorporateResponse::Wallet { .. } => AnswerKind::Wallet,
            CorporateResponse::ClaimAuthorizations { .. } => AnswerKind::Other,
            CorporateResponse::Rejected => AnswerKind::Rejected,
        }
    }

    /// Which kind of answer this is.
    pub fn kind(&self) -> (kind: AnswerKind)
        ensures
            kind == self.kind_of(),
    {
        match self {
            CorporateResponse::Queued { .. } => AnswerKind::Other,
            CorporateResponse::Queue { .. } => AnswerKind::Queue,
            CorporateResponse::Wallet { .. } => AnswerKind::Wallet,
            CorporateResponse::ClaimAuthorizations { .. } => AnswerKind::Other,
            CorporateResponse::Rejected => AnswerKind::Rejected,
        }
    }
}

/// Take the claim authorizations out of a participant's answer. `endpoint` is
/// the outcome of the endpoint's own check, `response` what the call gave, and
/// `verified` the outcome of checking the authorizations against the issue and
/// the expected signer. Any other answer is a rejection.
pub fn request_claim_authorizations(
    endpoint: &Result<(), String>,
    response: Result<CorporateResponse, String>,
    verified: &Result<(), String>,
) -> (r: Result<Vec<u8>, String>)
    ensures
        match (*endpoint, response) {
            (Err(text), _) => r matches Err(e) && e@ == text@,
            (Ok(_), Err(text)) => r matches Err(e) && e@ == text@,
            (Ok(_), Ok(CorporateResponse::ClaimAuthorizations { authorizations })) => {
                match *verified {
                    Err(text) => r matches Err(e) && e@ == text@,
                    Ok(_) => r == Ok::<Vec<u8>, String>(authorizations),
                }
            },
            (Ok(_), Ok(_)) => r matches Err(e) && e@
                == "corporate claim authorization request was rejected"@,
        },
{
    match endpoint {
        Err(text) => return Err(text.clone()),
        Ok(_) => {},
    }
    match response {
        Err(text) => Err(text),
        Ok(CorporateResponse::ClaimAuthorizations { authorizations }) => match verified {
            Err(text) => Err(text.clone()),
            Ok(_) => Ok(authorizations),
        },
        Ok(_) => Err("corporate claim authorization request was rejected".to_owned()),
    }
}

/// What was read and drawn for new claim signers: what the saved permit says,
/// what the ledger showed, and the signers.
pub struct FreshClaims {
    pub permit: PermitTerms,
    pub context: ClaimContext,
    pub draw: ClaimDraw,
}

/// What the outside says of a request for claim signers: the outcome of the
/// issue's own check, what is derived from the saved reserve, the key that
/// verifies the order's signatures, the digest and the sequence that the issue
/// shows this participant, and whether a kept response fits the request. `fresh`
/// is what new signers take, or why it did not come.
pub struct ClaimFacts {
    pub issue_version: u16,
    pub issue_valid: Result<(), String>,
    pub reserve: Result<ReserveFacts, String>,
    pub signer: Digest32,
    pub view: Digest32,
    pub sequence: u64,
    pub fits: Result<(), String>,
    pub fresh: Result<FreshClaims, String>,
}

impl ClaimFacts {
    pub open spec fn request(&self, reservation_id: Digest32) -> ClaimRequest {
        ClaimRequest {
            view: self.view,
            reservation_id,
            sequence: self.sequence,
            signer: self.signer,
        }
    }
}

/// Why no new signers are issued for an admitted reservation, if none are.
/// `scope` is that of the saved reserve's mandate.
pub open spec fn fresh_fault(
    config: &CorporateNativeConfig,
    reservation_id: Digest32,
    issue: &ClaimIssue,
    fills: Seq<PriorFill>,
    scope: ReserveScope,
    fresh: Result<FreshClaims, String>,
    match_slots: u16,
) -> Option<Seq<char>> {
    match fresh {
        Err(text) => Some(text@),
        Ok(fresh) => claim_fault(
            config,
            reservation_id,
            issue,
            fills,
            &fresh.permit,
            scope,
            &fresh.context,
            match_slots,
        ),
    }
}

/// The saved reserve of an admitted reservation, or why claims on it are
/// refused: the journal owns the reservation, it was admitted to the market, and
/// its reserve still stands.
pub open spec fn claimed_reserve(
    journal: JournalView,
    config: &CorporateNativeConfig,
    reservation_id: Digest32,
    facts: &ClaimFacts,
) -> Result<PreparedCorporateReserve, Seq<char>> {
    match facts.issue_valid {
        Err(text) => Err(text@),
        Ok(_) => match journal.admitted_reservation(reservation_id) {
            Err(text) => Err(text),
            Ok(id) => match journal.reserve(id) {
                Err(text) => Err(text),
                Ok(None) => Err("saved reserve disappeared"@),
                Ok(Some(prepared)) => match prepared.fault(config, facts.reserve) {
                    Some(text) => Err(text),
                    None => Ok(prepared),
                },
            },
        },
    }
}

impl CorporateApi {
    /// Answer the market's request for one fill's claim signers. Only an
    /// admitted reservation of this journal is answered: with the signers that
    /// are kept for the fill, or else with new ones, where the ledger's heads are
    /// current and the issue extends them by exactly the certified fills.
    pub fn issue_claim_authorizations(
        &mut self,
        reservation_id: &Digest32,
        issue: &ClaimIssue,
        prior_fills: &Vec<PriorFill>,
        facts: ClaimFacts,
        match_slots: u16,
        now: u64,
    ) -> (r: Result<String, String>)
        requires
            old(self).journal.wf(),
        ensures
            final(self).journal.wf(),
            final(self).config == old(self).config,
            final(self).market_id == old(self).market_id,
            ({
                let before = old(self).journal@;
                let after = final(self).journal@;
                let config = &old(self).config;
                let key = claim_record_key(*reservation_id, facts.sequence);
                match claimed_reserve(before, config, *reservation_id, &facts) {
                    Err(text) => after == before && (r matches Err(e) && e@ == text),
                    Ok(prepared) => match before.get(key) {
                        Err(text) => after == before && (r matches Err(e) && e@ == text),
                        Ok(Some(_)) => after == before && answer(r) == before.answer_claims(
                            facts.issue_version,
                            key,
                            facts.sequence,
                            facts.view,
                            facts.signer,
                            facts.fits,
                        ),
                        Ok(None) => match fresh_fault(
                            config,
                            *reservation_id,
                            issue,
                            prior_fills@,
                            prepared.request.mandate.scope,
                            facts.fresh,
                            match_slots,
                        ) {
                            Some(text) => after == before && (r matches Err(e) && e@ == text),
                            None => exists|proposed: Result<StoredClaimAuthorizations, String>|
                                #[trigger]
                                facts.request(*reservation_id).draws(
                                    proposed,
                                    facts.issue_version,
                                    (facts.fresh->Ok_0).draw,
                                    now,
                                ) && (after, answer(r)) == before.issue_claims(
                                    facts.issue_version,
                                    *reservation_id,
                                    facts.sequence,
                                    facts.view,
                                    facts.signer,
                                    proposed,
                                    facts.fits,
                                ),
                        },
                    },
                }
            }),
    {
        match facts.issue_valid {
            Err(text) => return Err(text),
            Ok(_) => {},
        }
        let id = match self.journal.admitted_reservation(reservation_id) {
            Err(e) => return Err(e),
            Ok(id) => id,
        };
        let scope: ReserveScope = match self.journal.reserve(id.as_str()) {
            Err(e) => return Err(e),
            Ok(None) => return Err("saved reserve disappeared".to_owned()),
            Ok(Some(prepared)) => {
                match prepared.validate(&self.config, &facts.reserve) {
                    Err(e) => return Err(e),
                    Ok(_) => {},
                }
                prepared.request.mandate.scope
            },
        };
        match self.journal.saved_claim_authorizations(reservation_id, facts.sequence) {
            Err(e) => return Err(e),
            Ok(Some(stored)) => {
                return match stored.public(
                    facts.issue_version,
                    &facts.signer,
                    &facts.view,
                    facts.sequence,
                    &facts.fits,
                ) {
                    Err(e) => Err(e),
                    Ok(_) => Ok(claim_authorization_record_id(reservation_id, facts.sequence)),
                };
            },
            Ok(None) => {},
        }
        let fresh: FreshClaims = match facts.fresh {
            Err(text) => return Err(text),
            Ok(fresh) => fresh,
        };
        match check_claim_issue(
            &self.config,
            reservation_id,
            issue,
            prior_fills,
            &fresh.permit,
            &scope,
            &fresh.context,
            match_slots,
        ) {
            Err(e) => return Err(e),
            Ok(_) => {},
        }
        let request = ClaimRequest {
            view: facts.view,
            reservation_id: *reservation_id,
            sequence: facts.sequence,
            signer: facts.signer,
        };
        let ghost asked = facts.request(*reservation_id);
        let ghost drawn = (facts.fresh->Ok_0).draw;
        assert(request == asked);
        let r = self.journal.issue_claim_authorizations(
            facts.issue_version,
            &request,
            fresh.draw,
            now,
            &facts.fits,
        );
        proof {
            let proposed = choose|proposed: Result<StoredClaimAuthorizations, String>| #[trigger]
                request.draws(proposed, facts.issue_version, fresh.draw, now) && (
                self.journal@,
                answer(r),
            ) == old(self).journal@.issue_claims(
                    facts.issue_version,
                    *reservation_id,
                    facts.sequence,
                    facts.view,
                    facts.signer,
                    proposed,
                    facts.fits,
                );
            assert(asked.draws(proposed, facts.issue_version, drawn, now));
        }
        r
    }
}

} // verus!
