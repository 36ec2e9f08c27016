//! Authenticated, fixed-size market intake. It carries only signed public
//! receipts and threshold-encrypted reservation authority, never an order body.

use crate::bytes::{
    big_endian, big_endian_value, bytes_equal, copy_bytes, decimal, digest_equal, is_zero,
    lemma_big_endian_value_round_trip, lemma_digest_view, lemma_pow256_small, lemma_u32_big_endian,
    push_all, push_decimal, push_text, push_u32, read_u32, sha256, sha256_digest, sha256_value,
    text_bytes, Digest32,
};
use crate::corporate_journal::{malformed, JournalBody, NativeCorporateJournal};
use crate::corporate_journal_model::{malformed_record, receipt_refusal, JournalView, ReceiptFacts};
use crate::edge_client::EdgeAdmissionReceipt;
use crate::signatures::{
    ed25519_accepts, ed25519_public, ed25519_signature, public_key, sign, verify_strict,
};
use crate::store::text_result;
use crate::types::{ClusterPublicConfig, MPC_PARTIES};
use vstd::prelude::*;

verus! {

/// The size of every request on the wire.
pub const REQUEST_BYTES: usize = 262_144;

/// The size of every response on the wire.
pub const RESPONSE_BYTES: usize = 1024;

/// Where a service listens, and the exact certificate that it presents.
#[derive(Clone, Debug, PartialEq, Eq)]
pub struct MarketEndpoint {
    pub host: String,
    pub port: u16,
    pub server_name: String,
    pub certificate_sha256: Digest32,
}

/// The configuration of a market service. The two paths are those of the
/// journal and of its key.
#[derive(Clone, Debug, PartialEq, Eq)]
pub struct MarketServiceConfig {
    pub endpoint: MarketEndpoint,
    pub participants: Vec<Digest32>,
    pub journal: String,
    pub journal_key: String,
    pub base_asset: Digest32,
    pub quote_asset: Digest32,
}

/// A record of a fixed size: the length of the body, the body, and zeros.
pub open spec fn market_frame(body: Seq<u8>, size: nat) -> Seq<u8> {
    big_endian(body.len() as u32 as nat, 4) + body + Seq::new(
        (size - 4 - body.len()) as nat,
        |i: int| 0u8,
    )
}

/// The length that a record claims for its body.
pub open spec fn claimed_length(record: Seq<u8>) -> nat {
    big_endian_value(record.subrange(0, 4))
}

/// A record whose length fits and whose padding is zero.
pub open spec fn frame_stands(record: Seq<u8>) -> bool {
    let length = claimed_length(record);
    &&& 0 < length <= record.len() - 4
    &&& forall|i: int| 4 + length <= i < record.len() ==> #[trigger] record[i] == 0
}

/// The body of a record that stands.
pub open spec fn frame_body(record: Seq<u8>) -> Seq<u8> {
    record.subrange(4, (4 + claimed_length(record)) as int)
}

/// Append a body to the output as a record of `size` bytes.
#[verifier::truncate]
pub fn write_record(writer: &mut Vec<u8>, body: &[u8], size: usize) -> (r: Result<(), String>)
    ensures
        r is Ok == (body@.len() + 4 <= size),
        r is Ok ==> final(writer)@ == old(writer)@ + market_frame(body@, size as nat),
        r matches Err(e) ==> e@ == "market input exceeds fixed record size"@ && final(writer)@
            == old(writer)@,
{
    if size < 4 || body.len() > size - 4 {
        return Err("market input exceeds fixed record size".to_owned());
    }
    let ghost before = writer@;
    push_u32(writer, body.len() as u32);
    push_all(writer, body);
    let padding: usize = size - 4 - body.len();
    let mut i: usize = 0;
    let ghost head = big_endian(body@.len() as u32 as nat, 4) + body@;
    assert(writer@ =~= before + (head + Seq::new(0, |j: int| 0u8)));
    while i < padding
        invariant
            i <= padding,
            writer@ == before + (head + Seq::new(i as nat, |j: int| 0u8)),
        decreases padding - i,
    {
        writer.push(0u8);
        i += 1;
        assert(writer@ =~= before + (head + Seq::new(i as nat, |j: int| 0u8)));
    }
    Ok(())
}

/// Read the body of the record that the first `size` bytes of the input are.
pub fn read_record(reader: &[u8], size: usize) -> (r: Result<Vec<u8>, String>)
    requires
        4 <= size,
    ensures
        r is Ok == (size <= reader@.len() && frame_stands(reader@.take(size as int))),
        r matches Ok(body) ==> body@ == frame_body(reader@.take(size as int)),
        r matches Err(e) ==> e@ == (if size <= reader@.len() {
            "market frame length or padding invalid"@
        } else {
            "failed to fill whole buffer"@
        }),
{
    if reader.len() < size {
        return Err("failed to fill whole buffer".to_owned());
    }
    let ghost record = reader@.take(size as int);
    assert(record.subrange(0, 4) =~= reader@.subrange(0, 4));
    let length: usize = read_u32(reader, 0) as usize;
    if length == 0 || length > size - 4 {
        return Err("market frame length or padding invalid".to_owned());
    }
    let mut i: usize = 4 + length;
    while i < size
        invariant
            record == reader@.take(size as int),
            size <= reader@.len(),
            length == claimed_length(record),
            0 < length <= size - 4,
            4 + length <= i <= size,
            forall|j: int| 4 + length <= j < i ==> #[trigger] record[j] == 0,
        decreases size - i,
    {
        if reader[i] != 0 {
            assert(record[i as int] != 0);
            return Err("market frame length or padding invalid".to_owned());
        }
        assert(record[i as int] == 0);
        i += 1;
    }
    let mut body: Vec<u8> = Vec::new();
    let mut k: usize = 4;
    while k < 4 + length
        invariant
            record == reader@.take(size as int),
            size <= reader@.len(),
            length <= size - 4,
            4 <= k <= 4 + length,
            body@ == record.subrange(4, k as int),
        decreases 4 + length - k,
    {
        body.push(reader[k]);
        k += 1;
        assert(body@ =~= record.subrange(4, k as int));
    }
    Ok(body)
}

/// What is written is read back: a record of a body that fits, and that is not
/// empty, stands and holds that body.
pub proof fn lemma_record_round_trip(body: Seq<u8>, size: nat)
    requires
        0 < body.len() <= u32::MAX,
        body.len() + 4 <= size,
    ensures
        market_frame(body, size).len() == size,
        frame_stands(market_frame(body, size)),
        frame_body(market_frame(body, size)) == body,
{
    let record = market_frame(body, size);
    lemma_u32_big_endian(body.len() as u32);
    assert(record.subrange(0, 4) =~= big_endian(body.len() as nat, 4));
    assert(frame_body(record) =~= body);
}

/// A record that stands is the record of its body, byte for byte: no other
/// length and no other padding is read.
pub proof fn lemma_record_is_canonical(record: Seq<u8>)
    requires
        record.len() >= 4,
        frame_stands(record),
    ensures
        record == market_frame(frame_body(record), record.len()),
{
    let body = frame_body(record);
    let head = record.subrange(0, 4);
    lemma_big_endian_value_round_trip(head);
    lemma_pow256_small();
    assert(record =~= big_endian(body.len() as nat, 4) + body + Seq::new(
        (record.len() - 4 - body.len()) as nat,
        |i: int| 0u8,
    ));
}

/// A byte string as a list of decimal numbers.
pub open spec fn number_list(data: Seq<u8>) -> Seq<u8> {
    text_bytes("["@) + listed_numbers(data) + text_bytes("]"@)
}

pub open spec fn listed_numbers(data: Seq<u8>) -> Seq<u8>
    decreases data.len(),
{
    if data.len() == 0 {
        Seq::empty()
    } else if data.len() == 1 {
        decimal(data[0] as nat)
    } else {
        listed_numbers(data.drop_last()) + text_bytes(","@) + decimal(data.last() as nat)
    }
}

fn push_number_list(out: &mut Vec<u8>, data: &[u8])
    ensures
        final(out)@ == old(out)@ + number_list(data@),
{
    let ghost before = out@;
    push_text(out, "[");
    let ghost opened = out@;
    let mut i: usize = 0;
    assert(opened =~= opened + listed_numbers(data@.take(0)));
    while i < data.len()
        invariant
            i <= data@.len(),
            out@ == opened + listed_numbers(data@.take(i as int)),
        decreases data@.len() - i,
    {
        let ghost next = data@.take(i + 1);
        assert(next.drop_last() =~= data@.take(i as int));
        if i > 0 {
            push_text(out, ",");
        }
        push_decimal(out, data[i] as u64);
        i += 1;
        assert(out@ =~= opened + listed_numbers(next));
    }
    assert(data@.take(i as int) =~= data@);
    push_text(out, "]");
    assert(out@ =~= before + number_list(data@));
}

/// A participant's handoff of an admitted order to the market. The receipt is
/// there both as a value and as its encoding; the sealed reservation authority
/// only as its encoding.
pub struct MarketIngress {
    pub version: u16,
    pub receipt: EdgeAdmissionReceipt,
    pub receipt_wire: Vec<u8>,
    pub authority: Vec<u8>,
    pub signature: Vec<u8>,
}

/// What other parts of the protocol say of a handoff: whether its order was
/// reserved before it traded, whether the manifest and each node's receipt
/// stand, and what is wrong with the sealed authority, if anything.
pub struct IngressFacts {
    pub pretrade: bool,
    pub manifest_valid: bool,
    pub receipts_valid: Vec<bool>,
    pub authority_fault: Option<String>,
}

impl MarketIngress {
    /// The encoding that the order key signs: all but the signature.
    pub open spec fn envelope(&self) -> Seq<u8> {
        text_bytes("["@) + decimal(self.version as nat) + text_bytes(","@) + self.receipt_wire@
            + text_bytes(","@) + self.authority@ + text_bytes("]"@)
    }

    /// The encoding of the whole handoff.
    pub open spec fn wire(&self) -> Seq<u8> {
        text_bytes("{\"version\":"@) + decimal(self.version as nat) + text_bytes(
            ",\"receipt\":"@,
        ) + self.receipt_wire@ + text_bytes(",\"authority\":"@) + self.authority@ + text_bytes(
            ",\"signature\":"@,
        ) + number_list(self.signature@) + text_bytes("}"@)
    }

    /// The statement that the order key signs.
    pub open spec fn statement_value(&self) -> Seq<u8> {
        sha256(text_bytes("OCLOB:MARKET-INGRESS:v1"@) + self.envelope())
    }

    /// The identity of the whole handoff, signature and all.
    pub open spec fn digest_value(&self) -> Digest32 {
        sha256_value(text_bytes("OCLOB:MARKET-INGRESS-DIGEST:v1"@) + self.wire())
    }

    /// Why a handoff is refused, if it is.
    pub open spec fn fault(&self, cluster: &ClusterPublicConfig, facts: &IngressFacts) -> Option<
        Seq<char>,
    > {
        if self.version != 1 || !facts.pretrade {
            Some("market intake refuses legacy or unknown input"@)
        } else if cluster.fault is Some {
            Some((cluster.fault->0)@)
        } else if !self.receipt.admitted(cluster, facts.manifest_valid, facts.receipts_valid@) {
            Some("edge admission receipt is invalid"@)
        } else if facts.authority_fault is Some {
            Some((facts.authority_fault->0)@)
        } else if !ed25519_accepts(
            self.receipt.manifest.signer@,
            self.statement_value(),
            self.signature@,
        ) {
            Some("market input signature is invalid"@)
        } else {
            None
        }
    }

    fn statement(&self) -> (digest: Digest32)
        ensures
            digest@ == self.statement_value(),
    {
        let mut body: Vec<u8> = Vec::new();
        push_text(&mut body, "OCLOB:MARKET-INGRESS:v1");
        push_text(&mut body, "[");
        push_decimal(&mut body, self.version as u64);
        push_text(&mut body, ",");
        push_all(&mut body, self.receipt_wire.as_slice());
        push_text(&mut body, ",");
        push_all(&mut body, self.authority.as_slice());
        push_text(&mut body, "]");
        assert(body@ =~= text_bytes("OCLOB:MARKET-INGRESS:v1"@) + self.envelope());
        sha256_digest(body.as_slice())
    }

    /// Sign the handoff of an admitted order with that order's key.
    pub fn sign(
        receipt: EdgeAdmissionReceipt,
        receipt_wire: Vec<u8>,
        authority: Vec<u8>,
        key: &Digest32,
    ) -> (r: Result<MarketIngress, String>)
        ensures
            r is Ok == (receipt.manifest.signer@ == ed25519_public(key@)),
            r matches Ok(input) ==> {
                &&& input.version == 1
                &&& input.receipt == receipt
                &&& input.receipt_wire == receipt_wire
                &&& input.authority == authority
                &&& input.signature@ == ed25519_signature(key@, input.statement_value())
            },
            r matches Err(e) ==> e@ == "market input signer differs from admitted order"@,
    {
        let signer = public_key(key);
        if !digest_equal(&receipt.manifest.signer, &signer) {
            proof {
                lemma_digest_view(receipt.manifest.signer, signer);
            }
            return Err("market input signer differs from admitted order".to_owned());
        }
        let mut input = MarketIngress {
            version: 1,
            receipt,
            receipt_wire,
            authority,
            signature: Vec::new(),
        };
        let ghost unsigned = input;
        let statement = input.statement();
        input.signature = sign(key, &statement);
        assert(input.envelope() == unsigned.envelope());
        Ok(input)
    }

    pub fn digest(&self) -> (digest: Digest32)
        ensures
            digest == self.digest_value(),
    {
        let mut body: Vec<u8> = Vec::new();
        push_text(&mut body, "OCLOB:MARKET-INGRESS-DIGEST:v1");
        push_text(&mut body, "{\"version\":");
        push_decimal(&mut body, self.version as u64);
        push_text(&mut body, ",\"receipt\":");
        push_all(&mut body, self.receipt_wire.as_slice());
        push_text(&mut body, ",\"authority\":");
        push_all(&mut body, self.authority.as_slice());
        push_text(&mut body, ",\"signature\":");
        push_number_list(&mut body, self.signature.as_slice());
        push_text(&mut body, "}");
        assert(body@ =~= text_bytes("OCLOB:MARKET-INGRESS-DIGEST:v1"@) + self.wire());
        sha256_digest(body.as_slice())
    }

    /// Check a handoff that arrives fresh.
    pub fn verify(&self, cluster: &ClusterPublicConfig, facts: &IngressFacts) -> (r: Result<
        (),
        String,
    >)
        requires
            facts.receipts_valid@.len() == MPC_PARTIES,
        ensures
            r is Ok == self.fault(cluster, facts) is None,
            r matches Err(e) ==> Some(e@) == self.fault(cluster, facts),
    {
        if self.version != 1 || !facts.pretrade {
            return Err("market intake refuses legacy or unknown input".to_owned());
        }
        match self.receipt.verify(cluster, facts.manifest_valid, &facts.receipts_valid) {
            Err(e) => return Err(e.message()),
            Ok(_) => {},
        }
        match &facts.authority_fault {
            Some(text) => return Err(text.clone()),
            None => {},
        }
        let statement = self.statement();
        if !verify_strict(&self.receipt.manifest.signer, &statement, self.signature.as_slice()) {
            return Err("market input signature is invalid".to_owned());
        }
        Ok(())
    }
}

/// The market's answer to a handoff.
#[derive(Clone, Copy, Debug, PartialEq, Eq)]
pub struct Acknowledgement {
    pub accepted: bool,
    pub digest: Digest32,
    pub sequence: u64,
}

impl Acknowledgement {
    /// The answer to a handoff: its digest and place, or a refusal that says
    /// nothing more.
    pub open spec fn answers(&self, accepted: Option<u64>, digest: Digest32) -> bool {
        match accepted {
            Some(sequence) => self.accepted && self.digest == digest && self.sequence == sequence,
            None => !self.accepted && is_zero(self.digest@) && self.sequence == 0,
        }
    }

    pub fn answer(accepted: Option<u64>, digest: &Digest32) -> (ack: Acknowledgement)
        ensures
            ack.answers(accepted, *digest),
    {
        match accepted {
            Some(sequence) => Acknowledgement { accepted: true, digest: *digest, sequence },
            None => {
                let digest: Digest32 = [0u8;32];
                Acknowledgement { accepted: false, digest, sequence: 0 }
            },
        }
    }

    /// Whether this answer acknowledges exactly the handoff with this digest.
    pub open spec fn acknowledges(&self, digest: Digest32) -> bool {
        self.accepted && self.digest == digest && self.sequence != 0
    }

    pub fn check(&self, digest: &Digest32) -> (r: Result<(), String>)
        ensures
            r is Ok == self.acknowledges(*digest),
            r matches Err(e) ==> e@ == "market did not acknowledge exact durable intake"@,
    {
        if !self.accepted || !digest_equal(&self.digest, digest) || self.sequence == 0 {
            return Err("market did not acknowledge exact durable intake".to_owned());
        }
        Ok(())
    }
}

/// A participant takes the answer for an acknowledgement exactly when the
/// market kept this handoff at a place.
pub proof fn lemma_only_kept_input_is_acknowledged(
    ack: Acknowledgement,
    accepted: Option<u64>,
    kept: Digest32,
    sent: Digest32,
)
    requires
        ack.answers(accepted, kept),
        accepted != Some(0u64),
    ensures
        ack.acknowledges(sent) <==> accepted is Some && kept == sent,
{
}

/// Check the certificate that the market presents.
pub fn check_market_peer(endpoint: &MarketEndpoint, peer: &Digest32) -> (r: Result<(), String>)
    ensures
        r is Ok == (endpoint.certificate_sha256 == *peer),
        r matches Err(e) ==> e@ == "market TLS peer differs from configured pin"@,
{
    if !digest_equal(peer, &endpoint.certificate_sha256) {
        return Err("market TLS peer differs from configured pin".to_owned());
    }
    Ok(())
}

/// Check that a caller of the market is one of its participants.
pub fn check_participant(config: &MarketServiceConfig, peer: &Digest32) -> (r: Result<(), String>)
    ensures
        r is Ok == config.participants@.contains(*peer),
        r matches Err(e) ==> e@ == "market intake caller is not a participant"@,
{
    let mut i: usize = 0;
    while i < config.participants.len()
        invariant
            i <= config.participants@.len(),
            forall|j: int| 0 <= j < i ==> #[trigger] config.participants@[j] != *peer,
        decreases config.participants@.len() - i,
    {
        if digest_equal(&config.participants[i], peer) {
            assert(config.participants@[i as int] == *peer);
            return Ok(());
        }
        i += 1;
    }
    Err("market intake caller is not a participant".to_owned())
}

/// The identity of a destination: the hash of the endpoint's encoding.
pub fn endpoint_digest(wire: &[u8]) -> (digest: Digest32)
    ensures
        digest == sha256_value(wire@),
{
    sha256_digest(wire)
}

/// What a participant keeps of a handoff: the destination and the handoff.
pub open spec fn handoff_bytes(endpoint: Digest32, input: Digest32) -> Seq<u8> {
    endpoint@ + input@
}

pub fn handoff_record(endpoint: &Digest32, input: &Digest32) -> (record: Vec<u8>)
    ensures
        record@ == handoff_bytes(*endpoint, *input),
{
    let mut record: Vec<u8> = Vec::new();
    push_all(&mut record, endpoint);
    push_all(&mut record, input);
    assert(record@ =~= handoff_bytes(*endpoint, *input));
    record
}

/// Two handoffs with the same record go to the same destination and are the
/// same handoff.
pub proof fn lemma_handoff_record_is_exact(
    endpoint: Digest32,
    input: Digest32,
    other_endpoint: Digest32,
    other_input: Digest32,
)
    requires
        handoff_bytes(endpoint, input) == handoff_bytes(other_endpoint, other_input),
    ensures
        endpoint == other_endpoint,
        input == other_input,
{
    let a = handoff_bytes(endpoint, input);
    let b = handoff_bytes(other_endpoint, other_input);
    assert(a.subrange(0, 32) =~= endpoint@);
    assert(b.subrange(0, 32) =~= other_endpoint@);
    assert(a.subrange(32, 64) =~= input@);
    assert(b.subrange(32, 64) =~= other_input@);
    lemma_digest_view(endpoint, other_endpoint);
    lemma_digest_view(input, other_input);
}

impl JournalView {
    /// Why an admitted request cannot be handed to the market, if it cannot.
    pub open spec fn handoff_fault(
        self,
        id: Seq<char>,
        cluster: &ClusterPublicConfig,
        facts: &ReceiptFacts,
    ) -> Option<Seq<char>> {
        match self.intent(id) {
            Err(text) => Some(text),
            Ok(None) => Some("market publishing lost original intent"@),
            Ok(Some(_)) => match self.receipt(id) {
                Err(text) => Some(text),
                Ok(None) => Some("market publishing lost node receipt"@),
                Ok(Some(receipt)) => match self.delivery(id) {
                    Err(text) => Some(text),
                    Ok(None) => Some("market publishing lost encrypted authority"@),
                    Ok(Some(delivery)) => receipt_refusal(
                        &receipt,
                        &delivery.delivery,
                        cluster,
                        facts,
                    ),
                },
            },
        }
    }

    /// Whether a handoff still has to be made.
    pub open spec fn handoff_pending(self, id: Seq<char>, record: Seq<u8>) -> Result<
        bool,
        Seq<char>,
    > {
        match self.stage("market"@, id) {
            Err(text) => Err(text),
            Ok(None) => Ok(true),
            Ok(Some(JournalBody::Other(saved))) => if saved@ == record {
                Ok(false)
            } else {
                Err("market destination or original handoff changed"@)
            },
            Ok(Some(_)) => Err(malformed_record()),
        }
    }

    /// Keep a handoff that the market has acknowledged.
    pub open spec fn save_handoff(self, id: Seq<char>, record: Vec<u8>) -> (
        JournalView,
        Result<(), Seq<char>>,
    ) {
        let (next, kept) = self.save_stage(id, "market"@, JournalBody::Other(record));
        match kept {
            Err(text) => (next, Err(text)),
            Ok(JournalBody::Other(saved)) => if saved@ == record@ {
                (next, Ok(()))
            } else {
                (next, Err("durable market handoff differs from acknowledgement"@))
            },
            Ok(_) => (next, Err(malformed_record())),
        }
    }
}

impl NativeCorporateJournal {
    /// Check that an admitted request can be handed to the market: everything
    /// that the handoff is made of is there, and the receipt acknowledges what
    /// was sent.
    pub fn check_handoff(
        &self,
        id: &str,
        cluster: &ClusterPublicConfig,
        facts: &ReceiptFacts,
    ) -> (r: Result<(), String>)
        requires
            self.wf(),
            facts.complete(),
        ensures
            ({
                let fault = self@.handoff_fault(id@, cluster, facts);
                &&& r is Ok == fault is None
                &&& r matches Err(e) ==> Some(e@) == fault
            }),
    {
        match self.intent(id) {
            Err(e) => return Err(e),
            Ok(None) => return Err("market publishing lost original intent".to_owned()),
            Ok(Some(_)) => {},
        }
        let receipt = match self.receipt(id) {
            Err(e) => return Err(e),
            Ok(None) => return Err("market publishing lost node receipt".to_owned()),
            Ok(Some(receipt)) => receipt,
        };
        let delivery = match self.delivery(id) {
            Err(e) => return Err(e),
            Ok(None) => return Err("market publishing lost encrypted authority".to_owned()),
            Ok(Some(delivery)) => delivery,
        };
        NativeCorporateJournal::verify_receipt(receipt, delivery, cluster, facts)
    }

    /// Whether a handoff still has to be made.
    pub fn handoff_pending(&self, id: &str, record: &[u8]) -> (r: Result<bool, String>)
        requires
            self.wf(),
        ensures
            text_result(r) == self@.handoff_pending(id@, record@),
    {
        match self.stage(id, "market") {
            Err(e) => Err(e),
            Ok(None) => Ok(true),
            Ok(Some(JournalBody::Other(saved))) => {
                if !bytes_equal(saved.as_slice(), record) {
                    return Err("market destination or original handoff changed".to_owned());
                }
                Ok(false)
            },
            Ok(Some(_)) => Err(malformed()),
        }
    }

    /// Keep a handoff that the market has acknowledged.
    pub fn save_handoff(&mut self, id: &str, record: Vec<u8>) -> (r: Result<(), String>)
        requires
            old(self).wf(),
        ensures
            final(self).wf(),
            (final(self)@, text_result(r)) == old(self)@.save_handoff(id@, record),
    {
        let expected = copy_bytes(record.as_slice());
        match self.save_stage(id, "market", JournalBody::Other(record)) {
            Err(e) => return Err(e),
            Ok(_) => {},
        }
        match self.stage(id, "market") {
            Err(e) => Err(e),
            Ok(Some(JournalBody::Other(saved))) => {
                if !bytes_equal(saved.as_slice(), expected.as_slice()) {
                    return Err("durable market handoff differs from acknowledgement".to_owned());
                }
                Ok(())
            },
            Ok(_) => Err(malformed()),
        }
    }
}

/// What the outside checks say of one admitted request at the time when its
/// intent was accepted, and the record of its handoff.
pub struct HandoffFacts {
    pub receipt: ReceiptFacts,
    pub record: Vec<u8>,
}

impl JournalView {
    /// Whether one admitted request still has to be handed over, or why it
    /// cannot be.
    pub open spec fn handoff_state(
        self,
        id: Seq<char>,
        cluster: &ClusterPublicConfig,
        facts: &HandoffFacts,
    ) -> Result<bool, Seq<char>> {
        match self.handoff_fault(id, cluster, &facts.receipt) {
            Some(text) => Err(text),
            None => self.handoff_pending(id, facts.record@),
        }
    }

    /// The first request from `start` on that has to be handed over.
    pub open spec fn next_handoff(
        self,
        ids: Seq<String>,
        cluster: &ClusterPublicConfig,
        facts: Seq<HandoffFacts>,
        start: int,
    ) -> Result<Option<int>, Seq<char>>
        decreases ids.len() - start,
    {
        if start >= ids.len() {
            Ok(None)
        } else {
            match self.handoff_state(ids[start]@, cluster, &facts[start]) {
                Err(text) => Err(text),
                Ok(true) => Ok(Some(start)),
                Ok(false) => self.next_handoff(ids, cluster, facts, start + 1),
            }
        }
    }
}

/// The next admitted request to hand to the market, in the order of admission.
/// What was handed over before is checked again and skipped; one whose records
/// do not stand stops the rest.
pub fn publish_corporate_admissions(
    journal: &NativeCorporateJournal,
    ids: &Vec<String>,
    cluster: &ClusterPublicConfig,
    facts: &Vec<HandoffFacts>,
) -> (r: Result<Option<usize>, String>)
    requires
        journal.wf(),
        facts@.len() == ids@.len(),
        forall|i: int|
            0 <= i < facts@.len() ==> (#[trigger] facts@[i]).receipt.complete(),
    ensures
        match journal@.next_handoff(ids@, cluster, facts@, 0) {
            Err(text) => r matches Err(e) && e@ == text,
            Ok(None) => r matches Ok(None),
            Ok(Some(at)) => r matches Ok(Some(found)) && found == at,
        },
{
    let mut i: usize = 0;
    while i < ids.len()
        invariant
            journal.wf(),
            facts@.len() == ids@.len(),
            forall|j: int|
                0 <= j < facts@.len() ==> (#[trigger] facts@[j]).receipt.complete(),
            i <= ids@.len(),
            journal@.next_handoff(ids@, cluster, facts@, i as int) == journal@.next_handoff(
                ids@,
                cluster,
                facts@,
                0,
            ),
        decreases ids@.len() - i,
    {
        let id = ids[i].as_str();
        let known = &facts[i];
        match journal.check_handoff(id, cluster, &known.receipt) {
            Err(e) => return Err(e),
            Ok(_) => {},
        }
        match journal.handoff_pending(id, known.record.as_slice()) {
            Err(e) => return Err(e),
            Ok(true) => return Ok(Some(i)),
            Ok(false) => {},
        }
        i += 1;
    }
    Ok(None)
}

/// A handoff is made once: when it has been kept, it is not pending again, and
/// another destination or another handoff of the same request is refused.
pub proof fn lemma_handoff_is_made_once(
    journal: JournalView,
    id: Seq<char>,
    record: Vec<u8>,
    other: Seq<u8>,
)
    requires
        journal.save_handoff(id, record).1 is Ok,
    ensures
        ({
            let kept = journal.save_handoff(id, record).0;
            &&& kept.handoff_pending(id, record@) == Ok::<bool, Seq<char>>(false)
            &&& other != record@ ==> kept.handoff_pending(id, other) == Err::<bool, Seq<char>>(
                "market destination or original handoff changed"@,
            )
        }),
{
}

} // verus!
