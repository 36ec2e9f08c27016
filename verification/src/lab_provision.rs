//! The plan of an isolated seven-node laboratory: who may do what, which
//! services listen where, and which orders are placed. Production operators
//! create their keys independently.

use crate::bytes::{
    copy_bytes, digest_equal, hex_encode, hex_text, is_zero, push_text, sha256, sha256_digest,
    sha256_value, text_bytes, Digest32,
};
use crate::chance::{
    draw_bytes, draw_fault, draw_sized, drawn_digest, drawn_scalar, drawn_seed, reduced,
};
use crate::corporate::{configured_witness, CorporateNativeConfig};
use crate::corporate_api::{acl_scoped, CorporateApiConfig};
use crate::deployment_policy::PathState;
use crate::executor::{host_line_valid, hosts_valid};
use crate::lines::{lemma_lines_append, lines_of};
use crate::market_network::{MarketEndpoint, MarketServiceConfig};
use crate::native_admission::{PeerRole, Principal};
use crate::node_service::{identity_published, CONFIG_VERSION};
use crate::scalars::{canonical_scalar, little_endian_value};
use crate::text::{append_decimal, append_text, decimal_text, joined_text};
use crate::text_map::text_equal;
use crate::types::{
    ClusterNodePublic, ClusterPublicConfig, Side, TimeInForce, MPC_PARTIES,
    SETTLEMENT_KEY_THRESHOLD,
};
use vstd::prelude::*;

verus! {

/// The matching program of the laboratory.
pub const PROGRAM: &'static str = "oclob_match_v1";

/// The market of the laboratory.
pub const MARKET: &'static str = "JGB10Y-JPY";

pub const RPC_PORT: u16 = 7443;

pub const PROOF_PORT: u16 = 8443;

/// A path from the root of the file system.
pub open spec fn absolute(path: Seq<char>) -> bool {
    path.len() > 0 && path[0] == '/'
}

/// The directory that the laboratory is written to.
pub fn parse_output(args: &Vec<String>) -> (r: Result<String, String>)
    ensures
        ({
            let named = args@.len() == 2 && args@[0]@ == "--out"@;
            &&& r is Ok == (named && absolute(args@[1]@))
            &&& r matches Ok(output) ==> output@ == args@[1]@
            &&& r matches Err(e) ==> e@ == (if !named {
                "usage: oclob-lab-provision --out DIRECTORY"@
            } else {
                "provisioning output must be an absolute path"@
            })
        }),
{
    if args.len() != 2 || !text_equal(args[0].as_str(), "--out") {
        return Err("usage: oclob-lab-provision --out DIRECTORY".to_owned());
    }
    let output = args[1].as_str();
    if output.is_empty() || output.get_char(0) != '/' {
        return Err("provisioning output must be an absolute path".to_owned());
    }
    Ok(args[1].clone())
}

/// Refuse a path that is there already.
pub fn reject_existing(path: &str, state: &PathState) -> (r: Result<(), String>)
    ensures
        r is Ok == (*state is Absent),
        r matches Err(e) ==> e@ == (match *state {
            PathState::Unreadable(text) => text@,
            _ => "refusing to overwrite "@ + path@,
        }),
{
    match state {
        PathState::Absent => Ok(()),
        PathState::Unreadable(text) => Err(text.clone()),
        _ => Err(joined_text("refusing to overwrite ", path)),
    }
}

/// The name of a node.
pub open spec fn node_name(party: nat) -> Seq<char> {
    "oclob-node-"@ + decimal_text(party)
}

pub fn node_host(party: u16) -> (name: String)
    ensures
        name@ == node_name(party as nat),
{
    let mut name: String = "oclob-node-".to_owned();
    append_decimal(&mut name, party as u64);
    name
}

/// The line of one node in the list of matching hosts.
pub open spec fn host_line(party: nat) -> Seq<char> {
    node_name(party) + ":5000"@
}

/// The lines of the first `count` nodes, each with its line feed.
pub open spec fn host_lines(count: nat) -> Seq<char>
    decreases count,
{
    if count == 0 {
        Seq::empty()
    } else {
        host_lines((count - 1) as nat) + host_line((count - 1) as nat) + "\n"@
    }
}

/// The list of matching hosts.
pub fn mpc_hosts() -> (hosts: String)
    ensures
        hosts@ == host_lines(MPC_PARTIES as nat),
{
    let mut hosts: String = String::new();
    let mut party: u16 = 0;
    assert(hosts@ =~= host_lines(0));
    while party < 7
        invariant
            party <= 7,
            hosts@ == host_lines(party as nat),
        decreases 7 - party,
    {
        append_text(&mut hosts, "oclob-node-");
        append_decimal(&mut hosts, party as u64);
        append_text(&mut hosts, ":5000");
        append_text(&mut hosts, "\n");
        party += 1;
        assert(hosts@ =~= host_lines(party as nat));
    }
    hosts
}

/// Text without white space, in ASCII.
pub open spec fn plain(text: Seq<char>) -> bool {
    forall|i: int| 0 <= i < text.len() ==> '!' <= #[trigger] text[i] <= '~'
}

proof fn lemma_plain_digits(value: nat)
    ensures
        plain(decimal_text(value)),
        0 < decimal_text(value).len() <= value + 1,
    decreases value,
{
    reveal_strlit("0");
    reveal_strlit("1");
    reveal_strlit("2");
    reveal_strlit("3");
    reveal_strlit("4");
    reveal_strlit("5");
    reveal_strlit("6");
    reveal_strlit("7");
    reveal_strlit("8");
    reveal_strlit("9");
    if value >= 10 {
        lemma_plain_digits(value / 10);
        assert(value / 10 + 1 <= value);
    }
}

proof fn lemma_host_line(party: nat)
    requires
        party < MPC_PARTIES,
    ensures
        host_line_valid(text_bytes(host_line(party))),
        text_bytes(host_line(party) + "\n"@) == text_bytes(host_line(party)) + seq![10u8],
        vstd::utf8::is_ascii_chars(host_line(party) + "\n"@),
{
    let line = host_line(party);
    let whole = line + "\n"@;
    reveal_strlit("oclob-node-");
    reveal_strlit(":5000");
    reveal_strlit("\n");
    lemma_plain_digits(party);
    assert(plain("oclob-node-"@));
    assert(plain(":5000"@));
    assert(plain(line));
    assert(vstd::utf8::is_ascii_chars(line));
    assert(vstd::utf8::is_ascii_chars(whole));
    vstd::utf8::is_ascii_chars_encode_utf8(line);
    vstd::utf8::is_ascii_chars_encode_utf8(whole);
    let bytes = text_bytes(line);
    assert forall|i: int| 0 <= i < bytes.len() implies !crate::executor::blank_byte(
        #[trigger] bytes[i],
    ) by {
        assert(line[i] as u8 == bytes[i]);
    }
    let colon = (line.len() - 5) as int;
    assert(line[colon] == ':');
    assert(bytes[colon] == line[colon] as u8);
    assert(bytes.contains(58u8));
    assert(text_bytes(whole) =~= bytes + seq![10u8]) by {
        assert(whole.len() == line.len() + 1);
        assert forall|i: int| 0 <= i < whole.len() implies text_bytes(whole)[i] == (bytes + seq![
            10u8,
        ])[i] by {
            assert(whole[i] as u8 == text_bytes(whole)[i]);
            if i < line.len() {
                assert(whole[i] == line[i]);
                assert(line[i] as u8 == bytes[i]);
            } else {
                assert(whole[i] == '\n');
            }
        }
    }
}

proof fn lemma_host_lines(count: nat)
    requires
        count <= MPC_PARTIES,
    ensures
        vstd::utf8::is_ascii_chars(host_lines(count)),
        ({
            let bytes = text_bytes(host_lines(count));
            let lines = lines_of(bytes);
            &&& bytes.len() > 0 ==> bytes.last() == 10u8
            &&& lines.len() == count
            &&& forall|i: int| 0 <= i < lines.len() ==> host_line_valid(#[trigger] lines[i])
        }),
    decreases count,
{
    if count == 0 {
        vstd::utf8::is_ascii_chars_encode_utf8(host_lines(0));
    } else {
        let before = (count - 1) as nat;
        lemma_host_lines(before);
        lemma_host_line(before);
        let earlier = host_lines(before);
        let tail = host_line(before) + "\n"@;
        let all = host_lines(count);
        assert(all =~= earlier + tail);
        assert(vstd::utf8::is_ascii_chars(all)) by {
            assert forall|i: int| 0 <= i < all.len() implies '\0' <= #[trigger] all[i] <= '\u{7f}' by {
                if i < earlier.len() {
                    assert(all[i] == earlier[i]);
                } else {
                    assert(all[i] == tail[i - earlier.len()]);
                }
            }
        }
        vstd::utf8::is_ascii_chars_encode_utf8(all);
        vstd::utf8::is_ascii_chars_encode_utf8(earlier);
        vstd::utf8::is_ascii_chars_encode_utf8(tail);
        let line = text_bytes(host_line(before));
        assert(text_bytes(all) =~= text_bytes(earlier) + line + seq![10u8]) by {
            assert(text_bytes(tail) == line + seq![10u8]);
            assert forall|i: int| 0 <= i < all.len() implies text_bytes(all)[i] == (text_bytes(
                earlier,
            ) + line + seq![10u8])[i] by {
                assert(all[i] as u8 == text_bytes(all)[i]);
                if i < earlier.len() {
                    assert(earlier[i] as u8 == text_bytes(earlier)[i]);
                } else {
                    let j = i - earlier.len();
                    assert(tail[j] as u8 == text_bytes(tail)[j]);
                }
            }
        }
        assert(line.last() != 13u8) by {
            assert(!crate::executor::blank_byte(line[line.len() - 1]));
        }
        assert forall|i: int| 0 <= i < line.len() implies #[trigger] line[i] != 10u8 by {
            assert(!crate::executor::blank_byte(line[i]));
        }
        lemma_lines_append(text_bytes(earlier), line);
    }
}

/// The nodes accept the hosts that the laboratory gives them.
pub proof fn lemma_provisioned_hosts_are_valid()
    ensures
        hosts_valid(text_bytes(host_lines(MPC_PARTIES as nat))),
{
    lemma_host_lines(MPC_PARTIES as nat);
}

/// The identity of the laboratory's venue.
pub fn venue_id() -> (id: Digest32)
    ensures
        id == sha256_value(text_bytes("defmi:oclob:v1"@)),
{
    sha256_digest("defmi:oclob:v1".as_bytes())
}

/// The identity of the laboratory's ledger.
pub fn defmi_id() -> (id: Digest32)
    ensures
        id == sha256_value(text_bytes("oclob-integrated-defmi-v1"@)),
{
    sha256_digest("oclob-integrated-defmi-v1".as_bytes())
}

/// The facility of a participant.
pub fn facility_id(label: &str) -> (id: Digest32)
    ensures
        id@ == sha256(text_bytes("OCLOB:LAB:NATIVE-FACILITY:v1"@) + text_bytes(label@)),
{
    let mut body: Vec<u8> = Vec::new();
    push_text(&mut body, "OCLOB:LAB:NATIVE-FACILITY:v1");
    push_text(&mut body, label);
    assert(body@ =~= text_bytes("OCLOB:LAB:NATIVE-FACILITY:v1"@) + text_bytes(label@));
    sha256_digest(body.as_slice())
}

/// Who a caller is: its certificate, and the key that verifies what it signs.
#[derive(Clone, Copy, Debug, PartialEq, Eq)]
pub struct CallerIdentity {
    pub certificate_sha256: Digest32,
    pub application_key: Digest32,
}

impl CallerIdentity {
    pub open spec fn in_role(self, role: PeerRole) -> Principal {
        Principal {
            certificate_sha256: self.certificate_sha256,
            role,
            application_key: self.application_key,
        }
    }

    pub fn principal(&self, role: PeerRole) -> (principal: Principal)
        ensures
            principal == self.in_role(role),
    {
        Principal {
            certificate_sha256: self.certificate_sha256,
            role,
            application_key: self.application_key,
        }
    }
}

/// The callers that every node accepts: two participants, the coordinator and
/// the settlement service.
pub fn node_principals(
    maker: &CallerIdentity,
    taker: &CallerIdentity,
    coordinator: &CallerIdentity,
    settlement: &CallerIdentity,
) -> (principals: Vec<Principal>)
    ensures
        principals@ == seq![
            maker.in_role(PeerRole::Participant),
            taker.in_role(PeerRole::Participant),
            coordinator.in_role(PeerRole::Coordinator),
            settlement.in_role(PeerRole::Settlement),
        ],
{
    let mut principals: Vec<Principal> = Vec::new();
    principals.push(maker.principal(PeerRole::Participant));
    principals.push(taker.principal(PeerRole::Participant));
    principals.push(coordinator.principal(PeerRole::Coordinator));
    principals.push(settlement.principal(PeerRole::Settlement));
    assert(principals@ =~= seq![
        maker.in_role(PeerRole::Participant),
        taker.in_role(PeerRole::Participant),
        coordinator.in_role(PeerRole::Coordinator),
        settlement.in_role(PeerRole::Settlement),
    ]);
    principals
}

/// The callers that the ledger's ingress accepts: those of the nodes, and each
/// node itself. A node observes finality under its own certificate; it can read
/// and cannot write.
pub fn ledger_principals(principals: &Vec<Principal>, nodes: &Vec<CallerIdentity>) -> (all: Vec<
    Principal,
>)
    ensures
        all@ == principals@ + Seq::new(
            nodes@.len(),
            |i: int| nodes@[i].in_role(PeerRole::Operator),
        ),
{
    let mut all: Vec<Principal> = Vec::new();
    let mut i: usize = 0;
    while i < principals.len()
        invariant
            i <= principals@.len(),
            all@ == principals@.take(i as int),
        decreases principals@.len() - i,
    {
        all.push(principals[i]);
        i += 1;
        assert(all@ =~= principals@.take(i as int));
    }
    assert(all@ =~= principals@);
    let mut k: usize = 0;
    assert(all@ =~= principals@ + Seq::new(0, |i: int| nodes@[i].in_role(PeerRole::Operator)));
    while k < nodes.len()
        invariant
            k <= nodes@.len(),
            all@ == principals@ + Seq::new(
                k as nat,
                |i: int| nodes@[i].in_role(PeerRole::Operator),
            ),
        decreases nodes@.len() - k,
    {
        all.push(nodes[k].principal(PeerRole::Operator));
        k += 1;
        assert(all@ =~= principals@ + Seq::new(
            k as nat,
            |i: int| nodes@[i].in_role(PeerRole::Operator),
        ));
    }
    all
}

/// An endpoint whose server name is its host.
pub open spec fn endpoint_at(
    endpoint: MarketEndpoint,
    host: Seq<char>,
    port: u16,
    certificate: Digest32,
) -> bool {
    endpoint.host@ == host && endpoint.server_name@ == host && endpoint.port == port
        && endpoint.certificate_sha256 == certificate
}

fn endpoint(host: &str, port: u16, certificate: &Digest32) -> (endpoint: MarketEndpoint)
    ensures
        endpoint_at(endpoint, host@, port, *certificate),
{
    MarketEndpoint {
        host: host.to_owned(),
        port,
        server_name: host.to_owned(),
        certificate_sha256: *certificate,
    }
}

/// The corporate service of a participant: its own client may use the queue and
/// the wallet, the coordinator may ask for claim authorizations.
pub fn corporate_api_config(
    role: &str,
    certificate: &Digest32,
    client: &Digest32,
    coordinator: &Digest32,
) -> (config: CorporateApiConfig)
    ensures
        endpoint_at(config.endpoint, "oclob-"@ + role@ + "-api"@, 9890, *certificate),
        config.clients@ == seq![*client],
        config.claim_authorization_clients@ == seq![*coordinator],
{
    let mut host: String = "oclob-".to_owned();
    append_text(&mut host, role);
    append_text(&mut host, "-api");
    let mut clients: Vec<Digest32> = Vec::new();
    clients.push(*client);
    assert(clients@ =~= seq![*client]);
    let mut coordinators: Vec<Digest32> = Vec::new();
    coordinators.push(*coordinator);
    assert(coordinators@ =~= seq![*coordinator]);
    CorporateApiConfig {
        endpoint: endpoint(host.as_str(), 9890, certificate),
        clients,
        claim_authorization_clients: coordinators,
    }
}

/// A provisioned corporate service starts: its two lists of certificates do not
/// overlap as long as the participant's and the coordinator's differ.
pub proof fn lemma_provisioned_api_is_scoped(
    config: &CorporateApiConfig,
    client: Digest32,
    coordinator: Digest32,
)
    requires
        config.clients@ == seq![client],
        config.claim_authorization_clients@ == seq![coordinator],
        !crate::bytes::is_zero(client@),
        !crate::bytes::is_zero(coordinator@),
    ensures
        acl_scoped(config) <==> client != coordinator,
{
    assert(config.clients@[0] == client);
    assert(config.claim_authorization_clients@[0] == coordinator);
    assert(config.claim_authorization_clients@.contains(coordinator));
}

/// The market of the laboratory.
pub fn market_config(
    certificate: &Digest32,
    maker: &Digest32,
    taker: &Digest32,
    base_asset: &Digest32,
    quote_asset: &Digest32,
) -> (config: MarketServiceConfig)
    ensures
        endpoint_at(config.endpoint, "oclob-market"@, 9445, *certificate),
        config.participants@ == seq![*maker, *taker],
        config.journal@ == "/market/state.enc"@,
        config.journal_key@ == "/market-identity/journal-key.raw"@,
        config.base_asset == *base_asset,
        config.quote_asset == *quote_asset,
{
    let mut participants: Vec<Digest32> = Vec::new();
    participants.push(*maker);
    participants.push(*taker);
    assert(participants@ =~= seq![*maker, *taker]);
    MarketServiceConfig {
        endpoint: endpoint("oclob-market", 9445, certificate),
        participants,
        journal: "/market/state.enc".to_owned(),
        journal_key: "/market-identity/journal-key.raw".to_owned(),
        base_asset: *base_asset,
        quote_asset: *quote_asset,
    }
}

/// Where the public book is served.
pub fn book_endpoint(certificate: &Digest32) -> (found: MarketEndpoint)
    ensures
        endpoint_at(found, "oclob-public-book"@, 9446, *certificate),
{
    endpoint("oclob-public-book", 9446, certificate)
}

/// The cluster of the laboratory. `fault` is why the network layer refuses it,
/// if it does.
pub fn cluster_config(nodes: Vec<ClusterNodePublic>, fault: Option<String>) -> (config:
    ClusterPublicConfig)
    ensures
        config.market_id@ == MARKET@,
        config.program@ == PROGRAM@,
        config.settlement_release_threshold == SETTLEMENT_KEY_THRESHOLD,
        config.nodes == nodes,
        config.fault == fault,
{
    ClusterPublicConfig {
        market_id: MARKET.to_owned(),
        program: PROGRAM.to_owned(),
        settlement_release_threshold: SETTLEMENT_KEY_THRESHOLD,
        nodes,
        fault,
    }
}

/// Every provisioned node starts: its private identity is the one that the
/// cluster publishes for it.
pub proof fn lemma_provisioned_identity_is_published(
    config: &ClusterPublicConfig,
    party: u16,
    receipt_key: Digest32,
)
    requires
        config.program@ == PROGRAM@,
        party < config.nodes@.len(),
        config.nodes@[party as int].party == party,
        config.nodes@[party as int].receipt_verifying_key == receipt_key,
    ensures
        identity_published(config, party, receipt_key, PROGRAM@),
{
}

/// Check the directory of recipient keys: one distinct key for each of the two
/// custody services.
pub fn check_recipient_views(views: &Vec<Digest32>) -> (r: Result<(), String>)
    ensures
        r is Ok == (views@.len() == 2 && views@[0] != views@[1]),
        r matches Err(e) ==> e@
            == "recipient opening directory must contain one distinct key per custody service"@,
{
    if views.len() != 2 || digest_equal(&views[0], &views[1]) {
        return Err(
            "recipient opening directory must contain one distinct key per custody service".to_owned(),
        );
    }
    Ok(())
}

/// A participant of the laboratory.
pub struct LabParticipant {
    pub role: String,
    pub subject: u64,
    pub label: String,
    pub amount: u64,
    pub client_directory: String,
}

/// The participant of a side: the maker holds 120 of the security, the taker
/// 10,000 in cash.
pub fn lab_participant(maker: bool) -> (participant: LabParticipant)
    ensures
        maker ==> participant.role@ == "maker"@ && participant.subject == 11
            && participant.label@ == "distributed-maker"@ && participant.amount == 120
            && participant.client_directory@ == "maker-client"@,
        !maker ==> participant.role@ == "taker"@ && participant.subject == 22
            && participant.label@ == "distributed-taker"@ && participant.amount == 10_000
            && participant.client_directory@ == "taker-client"@,
{
    if maker {
        LabParticipant {
            role: "maker".to_owned(),
            subject: 11,
            label: "distributed-maker".to_owned(),
            amount: 120,
            client_directory: "maker-client".to_owned(),
        }
    } else {
        LabParticipant {
            role: "taker".to_owned(),
            subject: 22,
            label: "distributed-taker".to_owned(),
            amount: 10_000,
            client_directory: "taker-client".to_owned(),
        }
    }
}

/// The secrets of a participant: the seed of its identity, the spend key and the
/// seeds of its wallet, the blinding of its capacity, and the keys of its own
/// journal and of its signing client's.
pub struct ParticipantSecrets {
    pub identity_seed: Digest32,
    pub spend: Digest32,
    pub opening_seed: Vec<u8>,
    pub custody_seed: Vec<u8>,
    pub capacity_blinding: Digest32,
    pub journal_key: Digest32,
    pub client_journal_key: Digest32,
}

impl ParticipantSecrets {
    /// Scalars below the group order and seeds of their full length.
    pub open spec fn usable(&self) -> bool {
        &&& canonical_scalar(self.spend@)
        &&& canonical_scalar(self.capacity_blinding@)
        &&& self.opening_seed@.len() == 96
        &&& self.custody_seed@.len() == 96
    }

    /// The secrets that draws make: seeds and keys as they were drawn, scalars
    /// reduced.
    pub open spec fn made_of(&self, draws: &ParticipantDraws) -> bool {
        &&& self.identity_seed@ == (draws.identity_seed->Ok_0)@
        &&& reduced(self.spend@, (draws.spend->Ok_0)@)
        &&& self.opening_seed@ == (draws.opening_seed->Ok_0)@
        &&& self.custody_seed@ == (draws.custody_seed->Ok_0)@
        &&& reduced(self.capacity_blinding@, (draws.capacity_blinding->Ok_0)@)
        &&& self.journal_key@ == (draws.journal_key->Ok_0)@
        &&& self.client_journal_key@ == (draws.client_journal_key->Ok_0)@
    }

    /// Make the secrets of a participant of what was drawn for them.
    pub fn from_draws(draws: ParticipantDraws) -> (r: Result<ParticipantSecrets, String>)
        ensures
            r is Ok == draws.fault() is None,
            r matches Ok(secrets) ==> secrets.made_of(&draws) && secrets.usable(),
            r matches Err(e) ==> Some(e@) == draws.fault(),
    {
        let identity_seed: Digest32 = match drawn_digest(draws.identity_seed) {
            Err(e) => return Err(e),
            Ok(seed) => seed,
        };
        let spend: Digest32 = match drawn_scalar(draws.spend) {
            Err(e) => return Err(e),
            Ok(spend) => spend,
        };
        let opening_seed: Vec<u8> = match drawn_seed(draws.opening_seed, 96) {
            Err(e) => return Err(e),
            Ok(seed) => seed,
        };
        let custody_seed: Vec<u8> = match drawn_seed(draws.custody_seed, 96) {
            Err(e) => return Err(e),
            Ok(seed) => seed,
        };
        let capacity_blinding: Digest32 = match drawn_scalar(draws.capacity_blinding) {
            Err(e) => return Err(e),
            Ok(blinding) => blinding,
        };
        let journal_key: Digest32 = match drawn_digest(draws.journal_key) {
            Err(e) => return Err(e),
            Ok(key) => key,
        };
        let client_journal_key: Digest32 = match drawn_digest(draws.client_journal_key) {
            Err(e) => return Err(e),
            Ok(key) => key,
        };
        Ok(
            ParticipantSecrets {
                identity_seed,
                spend,
                opening_seed,
                custody_seed,
                capacity_blinding,
                journal_key,
                client_journal_key,
            },
        )
    }

    /// Draw the secrets of a participant. Whatever the source returns, they are
    /// the ones that `from_draws` makes of seven draws of the right sizes.
    pub fn draw() -> (r: Result<ParticipantSecrets, String>)
        ensures
            r matches Ok(secrets) ==> secrets.usable(),
            exists|draws: ParticipantDraws| #[trigger]
                draws.sized() && match r {
                    Ok(secrets) => draws.fault() is None && secrets.made_of(&draws),
                    Err(e) => draws.fault() == Some(e@),
                },
    {
        let draws = ParticipantDraws {
            identity_seed: draw_bytes(32),
            spend: draw_bytes(64),
            opening_seed: draw_bytes(96),
            custody_seed: draw_bytes(96),
            capacity_blinding: draw_bytes(64),
            journal_key: draw_bytes(32),
            client_journal_key: draw_bytes(32),
        };
        assert(draws.sized());
        ParticipantSecrets::from_draws(draws)
    }
}

/// What the random source returned for a participant's secrets.
pub struct ParticipantDraws {
    pub identity_seed: Result<Vec<u8>, String>,
    pub spend: Result<Vec<u8>, String>,
    pub opening_seed: Result<Vec<u8>, String>,
    pub custody_seed: Result<Vec<u8>, String>,
    pub capacity_blinding: Result<Vec<u8>, String>,
    pub journal_key: Result<Vec<u8>, String>,
    pub client_journal_key: Result<Vec<u8>, String>,
}

impl ParticipantDraws {
    /// 32 bytes for a key or an identity, 64 for a scalar and 96 for a seed of
    /// the wallet, where there are any.
    pub open spec fn sized(&self) -> bool {
        &&& draw_sized(self.identity_seed, 32)
        &&& draw_sized(self.spend, 64)
        &&& draw_sized(self.opening_seed, 96)
        &&& draw_sized(self.custody_seed, 96)
        &&& draw_sized(self.capacity_blinding, 64)
        &&& draw_sized(self.journal_key, 32)
        &&& draw_sized(self.client_journal_key, 32)
    }

    /// Why no secrets come of the draws, if none do: the first that does not
    /// serve.
    pub open spec fn fault(&self) -> Option<Seq<char>> {
        if draw_fault(self.identity_seed, 32) is Some {
            draw_fault(self.identity_seed, 32)
        } else if draw_fault(self.spend, 64) is Some {
            draw_fault(self.spend, 64)
        } else if draw_fault(self.opening_seed, 96) is Some {
            draw_fault(self.opening_seed, 96)
        } else if draw_fault(self.custody_seed, 96) is Some {
            draw_fault(self.custody_seed, 96)
        } else if draw_fault(self.capacity_blinding, 64) is Some {
            draw_fault(self.capacity_blinding, 64)
        } else if draw_fault(self.journal_key, 32) is Some {
            draw_fault(self.journal_key, 32)
        } else {
            draw_fault(self.client_journal_key, 32)
        }
    }
}

/// The configuration of a participant: the whole amount is available, nothing
/// is held or outstanding.
pub open spec fn participant_configured(
    config: &CorporateNativeConfig,
    maker: bool,
    secrets: &ParticipantSecrets,
    certificate: Digest32,
    issuer_public: Seq<u8>,
    asset_id: Digest32,
) -> bool {
    &&& config.host@ == "oclob-defmi"@
    &&& config.port == 9443
    &&& config.server_name@ == "oclob-defmi"@
    &&& endpoint_at(
        config.claim_authorization_endpoint,
        "oclob-"@ + (if maker {
            "maker"@
        } else {
            "taker"@
        }) + "-api"@,
        9890,
        certificate,
    )
    &&& config.venue_id == sha256_value(text_bytes("defmi:oclob:v1"@))
    &&& config.defmi_id == sha256_value(text_bytes("oclob-integrated-defmi-v1"@))
    &&& config.issuer_public@ == issuer_public
    &&& config.facility_id@ == sha256(
        text_bytes("OCLOB:LAB:NATIVE-FACILITY:v1"@) + text_bytes(
            if maker {
                "distributed-maker"@
            } else {
                "distributed-taker"@
            },
        ),
    )
    &&& config.asset_id == asset_id
    &&& config.facility_values@ == seq![
        if maker {
            120u64
        } else {
            10_000u64
        },
        0u64,
        0u64,
    ]
    &&& config.facility_blindings@[0] == secrets.capacity_blinding
    &&& is_zero(config.facility_blindings@[1]@)
    &&& is_zero(config.facility_blindings@[2]@)
    &&& config.wallet_spend_secret == secrets.spend
    &&& config.wallet_opening_seed@ == secrets.opening_seed@
    &&& config.credential_custody_seed@ == secrets.custody_seed@
    &&& config.identity_seed == secrets.identity_seed
}

/// The owner-only configuration of a participant, whose corporate service
/// presents `certificate`.
pub fn participant_config(
    maker: bool,
    secrets: &ParticipantSecrets,
    certificate: &Digest32,
    issuer_public: Vec<u8>,
    asset_id: &Digest32,
) -> (config: CorporateNativeConfig)
    ensures
        participant_configured(&config, maker, secrets, *certificate, issuer_public@, *asset_id),
{
    let participant = lab_participant(maker);
    let zero: Digest32 = [0u8;32];
    let mut host: String = "oclob-".to_owned();
    append_text(&mut host, participant.role.as_str());
    append_text(&mut host, "-api");
    let config = CorporateNativeConfig {
        host: "oclob-defmi".to_owned(),
        port: 9443,
        server_name: "oclob-defmi".to_owned(),
        claim_authorization_endpoint: endpoint(host.as_str(), 9890, certificate),
        venue_id: venue_id(),
        defmi_id: defmi_id(),
        issuer_public,
        facility_id: facility_id(participant.label.as_str()),
        asset_id: *asset_id,
        facility_values: [participant.amount, 0, 0],
        facility_blindings: [secrets.capacity_blinding, zero, zero],
        wallet_spend_secret: secrets.spend,
        wallet_opening_seed: copy_bytes(secrets.opening_seed.as_slice()),
        credential_custody_seed: copy_bytes(secrets.custody_seed.as_slice()),
        identity_seed: secrets.identity_seed,
    };
    assert(config.facility_values@ =~= seq![participant.amount, 0u64, 0u64]);
    config
}

proof fn lemma_zero_value(bytes: Seq<u8>)
    requires
        is_zero(bytes),
    ensures
        little_endian_value(bytes) == 0,
    decreases bytes.len(),
{
    if bytes.len() > 0 {
        assert(bytes[0] == 0);
        lemma_zero_value(bytes.drop_first());
    }
}

/// Every provisioned wallet works: its blindings and its spend key are
/// canonical, its note opening key is there, and so is its custody key unless
/// the two drawn seeds are the same.
pub proof fn lemma_provisioned_wallet_is_usable(
    config: &CorporateNativeConfig,
    maker: bool,
    secrets: &ParticipantSecrets,
    certificate: Digest32,
    issuer_public: Seq<u8>,
    asset_id: Digest32,
    sequence: u64,
)
    requires
        secrets.usable(),
        participant_configured(config, maker, secrets, certificate, issuer_public, asset_id),
    ensures
        configured_witness(config, sequence).blindings_canonical(),
        canonical_scalar(config.wallet_spend_secret@),
        config.wallet_opening_seed@.len() == 96,
        secrets.opening_seed@ != secrets.custody_seed@ ==> config.custody_fault() is None,
{
    lemma_zero_value(config.facility_blindings@[1]@);
    lemma_zero_value(config.facility_blindings@[2]@);
}

/// An order that the laboratory keeps for a participant.
pub struct LabOrder {
    pub file: String,
    pub side: Side,
    pub limit_price: u64,
    pub quantity: u64,
    pub time_in_force: TimeInForce,
    pub valid_for_seconds: u64,
    /// The participant's signing client gets it too.
    pub for_client: bool,
}

pub struct LabOrderView {
    pub file: Seq<char>,
    pub side: Side,
    pub limit_price: u64,
    pub quantity: u64,
    pub time_in_force: TimeInForce,
    pub valid_for_seconds: u64,
    pub for_client: bool,
}

impl View for LabOrder {
    type V = LabOrderView;

    open spec fn view(&self) -> LabOrderView {
        LabOrderView {
            file: self.file@,
            side: self.side,
            limit_price: self.limit_price,
            quantity: self.quantity,
            time_in_force: self.time_in_force,
            valid_for_seconds: self.valid_for_seconds,
            for_client: self.for_client,
        }
    }
}

/// An order of the laboratory: sells rest, buys trade at once or not at all.
pub open spec fn lab_order(
    file: Seq<char>,
    side: Side,
    limit_price: u64,
    quantity: u64,
    valid_for_seconds: u64,
    for_client: bool,
) -> LabOrderView {
    LabOrderView {
        file,
        side,
        limit_price,
        quantity,
        time_in_force: if side is Sell {
            TimeInForce::GoodTilCancelled
        } else {
            TimeInForce::ImmediateOrCancel
        },
        valid_for_seconds,
        for_client,
    }
}

/// The orders that the laboratory keeps for a participant.
pub open spec fn lab_orders(maker: bool) -> Seq<LabOrderView> {
    let common = seq![
        lab_order("queued-expiry-order.json"@, Side::Sell, 102, 5, 45, false),
        lab_order("cycle-order.json"@, Side::Buy, 104, 90, 1200, false),
        lab_order("over-capacity-order.json"@, Side::Sell, 101, 70, 600, false),
    ];
    if maker {
        common + seq![
            lab_order("multifill-order.json"@, Side::Sell, 101, 60, 600, false),
            lab_order("depth-high-order.json"@, Side::Sell, 101, 30, 1200, true),
            lab_order("depth-low1-order.json"@, Side::Sell, 100, 30, 1200, true),
            lab_order("depth-low2-order.json"@, Side::Sell, 100, 60, 1200, true),
            lab_order("market-high-order.json"@, Side::Sell, 101, 60, 1200, false),
            lab_order("market-low-order.json"@, Side::Sell, 100, 60, 1200, false),
        ]
    } else {
        common + seq![
            lab_order("multifill-order.json"@, Side::Buy, 101, 90, 600, false),
            lab_order("depth-buy-order.json"@, Side::Buy, 101, 75, 1200, true),
        ]
    }
}

/// Orders as their views.
pub open spec fn order_views(orders: Seq<LabOrder>) -> Seq<LabOrderView> {
    Seq::new(orders.len(), |i: int| orders[i]@)
}

fn put_order(
    orders: &mut Vec<LabOrder>,
    file: &str,
    side: Side,
    limit_price: u64,
    quantity: u64,
    valid_for_seconds: u64,
    for_client: bool,
)
    ensures
        order_views(final(orders)@) == order_views(old(orders)@).push(
            lab_order(file@, side, limit_price, quantity, valid_for_seconds, for_client),
        ),
{
    let time_in_force = match side {
        Side::Sell => TimeInForce::GoodTilCancelled,
        Side::Buy => TimeInForce::ImmediateOrCancel,
    };
    orders.push(
        LabOrder {
            file: file.to_owned(),
            side,
            limit_price,
            quantity,
            time_in_force,
            valid_for_seconds,
            for_client,
        },
    );
    assert(order_views(orders@) =~= order_views(old(orders)@).push(
        lab_order(file@, side, limit_price, quantity, valid_for_seconds, for_client),
    ));
}

/// The orders that the laboratory keeps for a participant.
pub fn participant_orders(maker: bool) -> (orders: Vec<LabOrder>)
    ensures
        order_views(orders@) == lab_orders(maker),
{
    let mut orders: Vec<LabOrder> = Vec::new();
    assert(order_views(orders@) =~= Seq::<LabOrderView>::empty());
    put_order(&mut orders, "queued-expiry-order.json", Side::Sell, 102, 5, 45, false);
    put_order(&mut orders, "cycle-order.json", Side::Buy, 104, 90, 1200, false);
    put_order(&mut orders, "over-capacity-order.json", Side::Sell, 101, 70, 600, false);
    if maker {
        put_order(&mut orders, "multifill-order.json", Side::Sell, 101, 60, 600, false);
        put_order(&mut orders, "depth-high-order.json", Side::Sell, 101, 30, 1200, true);
        put_order(&mut orders, "depth-low1-order.json", Side::Sell, 100, 30, 1200, true);
        put_order(&mut orders, "depth-low2-order.json", Side::Sell, 100, 60, 1200, true);
        put_order(&mut orders, "market-high-order.json", Side::Sell, 101, 60, 1200, false);
        put_order(&mut orders, "market-low-order.json", Side::Sell, 100, 60, 1200, false);
    } else {
        put_order(&mut orders, "multifill-order.json", Side::Buy, 101, 90, 600, false);
        put_order(&mut orders, "depth-buy-order.json", Side::Buy, 101, 75, 1200, true);
    }
    assert(order_views(orders@) =~= lab_orders(maker));
    orders
}

/// A certificate that the laboratory's authority issues. A server's certificate
/// carries its name as a DNS name too.
pub struct LeafPlan {
    pub directory: String,
    pub common_name: String,
    /// What the names of its two files begin with.
    pub prefix: String,
    pub server: bool,
}

pub struct LeafView {
    pub directory: Seq<char>,
    pub common_name: Seq<char>,
    pub prefix: Seq<char>,
    pub server: bool,
}

impl View for LeafPlan {
    type V = LeafView;

    open spec fn view(&self) -> LeafView {
        LeafView {
            directory: self.directory@,
            common_name: self.common_name@,
            prefix: self.prefix@,
            server: self.server,
        }
    }
}

pub open spec fn leaf(
    directory: Seq<char>,
    common_name: Seq<char>,
    prefix: Seq<char>,
    server: bool,
) -> LeafView {
    LeafView { directory, common_name, prefix, server }
}

/// The certificate of a node.
pub open spec fn node_leaf(party: nat) -> LeafView {
    leaf("node-"@ + decimal_text(party), node_name(party), ""@, true)
}

/// The certificates of the laboratory: four clients, five services and the
/// nodes.
pub open spec fn lab_leaves() -> Seq<LeafView> {
    seq![
        leaf("maker"@, "oclob-maker"@, ""@, false),
        leaf("taker"@, "oclob-taker"@, ""@, false),
        leaf("coordinator"@, "oclob-coordinator"@, ""@, false),
        leaf("settlement"@, "oclob-settlement"@, ""@, false),
        leaf("maker"@, "oclob-maker-api"@, "api-"@, true),
        leaf("taker"@, "oclob-taker-api"@, "api-"@, true),
        leaf("market"@, "oclob-market"@, ""@, true),
        leaf("public-book"@, "oclob-public-book"@, ""@, true),
        leaf("defmi"@, "oclob-defmi"@, ""@, true),
    ] + Seq::new(MPC_PARTIES as nat, |party: int| node_leaf(party as nat))
}

pub open spec fn leaf_views(leaves: Seq<LeafPlan>) -> Seq<LeafView> {
    Seq::new(leaves.len(), |i: int| leaves[i]@)
}

fn put_leaf(leaves: &mut Vec<LeafPlan>, directory: &str, common_name: &str, prefix: &str, server: bool)
    ensures
        leaf_views(final(leaves)@) == leaf_views(old(leaves)@).push(
            leaf(directory@, common_name@, prefix@, server),
        ),
{
    leaves.push(
        LeafPlan {
            directory: directory.to_owned(),
            common_name: common_name.to_owned(),
            prefix: prefix.to_owned(),
            server,
        },
    );
    assert(leaf_views(leaves@) =~= leaf_views(old(leaves)@).push(
        leaf(directory@, common_name@, prefix@, server),
    ));
}

/// The certificates that the laboratory's authority issues, in this order.
pub fn certificate_plan() -> (leaves: Vec<LeafPlan>)
    ensures
        leaf_views(leaves@) == lab_leaves(),
{
    let mut leaves: Vec<LeafPlan> = Vec::new();
    assert(leaf_views(leaves@) =~= Seq::<LeafView>::empty());
    put_leaf(&mut leaves, "maker", "oclob-maker", "", false);
    put_leaf(&mut leaves, "taker", "oclob-taker", "", false);
    put_leaf(&mut leaves, "coordinator", "oclob-coordinator", "", false);
    put_leaf(&mut leaves, "settlement", "oclob-settlement", "", false);
    put_leaf(&mut leaves, "maker", "oclob-maker-api", "api-", true);
    put_leaf(&mut leaves, "taker", "oclob-taker-api", "api-", true);
    put_leaf(&mut leaves, "market", "oclob-market", "", true);
    put_leaf(&mut leaves, "public-book", "oclob-public-book", "", true);
    put_leaf(&mut leaves, "defmi", "oclob-defmi", "", true);
    let ghost services = leaf_views(leaves@);
    let mut party: u16 = 0;
    assert(services + Seq::new(0, |p: int| node_leaf(p as nat)) =~= services);
    while party < 7
        invariant
            party <= 7,
            leaf_views(leaves@) == services + Seq::new(
                party as nat,
                |p: int| node_leaf(p as nat),
            ),
        decreases 7 - party,
    {
        let mut directory: String = "node-".to_owned();
        append_decimal(&mut directory, party as u64);
        let name = node_host(party);
        put_leaf(&mut leaves, directory.as_str(), name.as_str(), "", true);
        party += 1;
        assert(leaf_views(leaves@) =~= services + Seq::new(
            party as nat,
            |p: int| node_leaf(p as nat),
        ));
    }
    assert(leaf_views(leaves@) =~= lab_leaves());
    leaves
}

/// The settings of a node that are the same in every laboratory.
pub struct NodeSettings {
    pub version: u16,
    pub party: u16,
    pub listen: String,
    pub proof_listen: String,
    pub program: String,
    pub mpc_hosts: String,
    pub execution_timeout_seconds: u64,
    pub rpc_timeout_seconds: u64,
    pub max_connections: u64,
    pub minimum_response_millis: u64,
    pub proof_state_file: String,
    pub trusted_defmi_id: String,
    pub trusted_reservation_venue_id: String,
    pub finality_host: String,
    pub finality_port: u16,
}

/// A node listens on all addresses; a request may take a minute longer than the
/// execution that it waits for.
pub fn node_settings(party: u16) -> (settings: NodeSettings)
    ensures
        settings.version == CONFIG_VERSION,
        settings.party == party,
        settings.listen@ == "0.0.0.0:"@ + decimal_text(RPC_PORT as nat),
        settings.proof_listen@ == "0.0.0.0:"@ + decimal_text(PROOF_PORT as nat),
        settings.program@ == PROGRAM@,
        settings.mpc_hosts@ == host_lines(MPC_PARTIES as nat),
        settings.execution_timeout_seconds == 300,
        settings.rpc_timeout_seconds == 360,
        settings.max_connections == 64,
        settings.minimum_response_millis == 10,
        settings.proof_state_file@ == "/state/mpc/private-state/proof-state.qps"@,
        settings.trusted_defmi_id@ == hex_text(sha256(text_bytes("oclob-integrated-defmi-v1"@))),
        settings.trusted_reservation_venue_id@ == hex_text(sha256(text_bytes("defmi:oclob:v1"@))),
        settings.finality_host@ == "oclob-defmi"@,
        settings.finality_port == 9443,
{
    let mut listen: String = "0.0.0.0:".to_owned();
    append_decimal(&mut listen, RPC_PORT as u64);
    let mut proof_listen: String = "0.0.0.0:".to_owned();
    append_decimal(&mut proof_listen, PROOF_PORT as u64);
    NodeSettings {
        version: CONFIG_VERSION,
        party,
        listen,
        proof_listen,
        program: PROGRAM.to_owned(),
        mpc_hosts: mpc_hosts(),
        execution_timeout_seconds: 300,
        rpc_timeout_seconds: 360,
        max_connections: 64,
        minimum_response_millis: 10,
        proof_state_file: "/state/mpc/private-state/proof-state.qps".to_owned(),
        trusted_defmi_id: hex_encode(&sha256_digest("oclob-integrated-defmi-v1".as_bytes())),
        trusted_reservation_venue_id: hex_encode(&sha256_digest("defmi:oclob:v1".as_bytes())),
        finality_host: "oclob-defmi".to_owned(),
        finality_port: 9443,
    }
}

/// The files of a client identity inside its container.
pub struct ClientIdentityPaths {
    pub tls_certificate: String,
    pub tls_private_key: String,
    pub tls_ca: String,
    pub application_signing_key: String,
}

pub fn client_identity(directory: &str) -> (paths: ClientIdentityPaths)
    ensures
        paths.tls_certificate@ == directory@ + "/tls.pem"@,
        paths.tls_private_key@ == directory@ + "/tls-key.pem"@,
        paths.tls_ca@ == "/public/ca.pem"@,
        paths.application_signing_key@ == directory@ + "/application-key.raw"@,
{
    ClientIdentityPaths {
        tls_certificate: joined_text(directory, "/tls.pem"),
        tls_private_key: joined_text(directory, "/tls-key.pem"),
        tls_ca: "/public/ca.pem".to_owned(),
        application_signing_key: joined_text(directory, "/application-key.raw"),
    }
}

} // verus!
