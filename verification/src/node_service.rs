//! The start of a node: one process owns one share and one matching party.

use crate::bytes::{
    digest_equal, hex_bytes, hex_decode, hexadecimal, text_bytes, to_digest, Digest32,
};
use crate::native_acceptance::ISSUER_KEY_BYTES;
use crate::native_admission::{PeerRole, Principal};
use crate::text::joined_text;
use crate::text_map::text_equal;
use crate::types::ClusterPublicConfig;
use vstd::prelude::*;

verus! {

/// The largest configuration file.
pub const MAX_CONFIG_BYTES: u64 = 1_048_576;

/// The version of the node's configuration.
pub const CONFIG_VERSION: u16 = 4;

/// The path behind `--config`.
pub fn parse_config_path(args: &Vec<String>) -> (r: Result<String, String>)
    ensures
        r is Ok == (args@.len() == 2 && args@[0]@ == "--config"@),
        r matches Ok(path) ==> path@ == args@[1]@,
        r matches Err(e) ==> e@ == "usage: oclob-node --config PATH"@,
{
    if args.len() != 2 || !text_equal(args[0].as_str(), "--config") {
        return Err("usage: oclob-node --config PATH".to_owned());
    }
    Ok(args[1].clone())
}

/// Check a configuration file before it is read.
pub fn check_config_file(symlink: bool, is_file: bool, length: u64) -> (r: Result<(), String>)
    ensures
        r is Ok == (!symlink && is_file && 0 < length <= MAX_CONFIG_BYTES),
        r matches Err(e) ==> e@ == "node configuration path is unsafe"@,
{
    if symlink || !is_file || length == 0 || length > MAX_CONFIG_BYTES {
        return Err("node configuration path is unsafe".to_owned());
    }
    Ok(())
}

/// Check the version of a node's configuration.
pub fn check_config_version(version: u16) -> (r: Result<(), String>)
    ensures
        r is Ok == (version == CONFIG_VERSION),
        r matches Err(e) ==> e@ == "unsupported node configuration version"@,
{
    if version != CONFIG_VERSION {
        return Err("unsupported node configuration version".to_owned());
    }
    Ok(())
}

/// A node's private identity is the one that the cluster publishes for it.
pub open spec fn identity_published(
    cluster: &ClusterPublicConfig,
    party: u16,
    receipt_key: Digest32,
    program: Seq<char>,
) -> bool {
    &&& cluster.nodes@[party as int].party == party
    &&& cluster.nodes@[party as int].receipt_verifying_key == receipt_key
    &&& cluster.program@ == program
}

/// Check a node's private identity against the cluster's configuration.
/// `receipt_key` is the public key of the node's receipt signer.
pub fn check_identity(
    cluster: &ClusterPublicConfig,
    party: u16,
    receipt_key: &Digest32,
    program: &str,
) -> (r: Result<(), String>)
    ensures
        r is Ok == (party < cluster.nodes@.len() && identity_published(
            cluster,
            party,
            *receipt_key,
            program@,
        )),
        r matches Err(e) ==> e@ == (if party >= cluster.nodes@.len() {
            "node is absent from the public cluster configuration"@
        } else {
            "node private identity does not match the public cluster configuration"@
        }),
{
    let index: usize = party as usize;
    if index >= cluster.nodes.len() {
        return Err("node is absent from the public cluster configuration".to_owned());
    }
    let node = &cluster.nodes[index];
    if node.party != party || !digest_equal(&node.receipt_verifying_key, receipt_key) || !text_equal(
        cluster.program.as_str(),
        program,
    ) {
        return Err(
            "node private identity does not match the public cluster configuration".to_owned(),
        );
    }
    Ok(())
}

/// Read 32 bytes in hexadecimal. `label` names the value in an error.
pub fn parse_hex_32(value: &str, label: &str) -> (r: Result<Digest32, String>)
    ensures
        ({
            let bytes = text_bytes(value@);
            &&& r is Ok == (hexadecimal(bytes) && hex_bytes(bytes).len() == 32)
            &&& r matches Ok(digest) ==> digest@ == hex_bytes(bytes)
            &&& r matches Err(e) ==> e@ == label@ + (if !hexadecimal(bytes) {
                " is not hex"@
            } else {
                " is not 32 bytes"@
            })
        }),
{
    match hex_decode(value) {
        Err(_) => Err(joined_text(label, " is not hex")),
        Ok(bytes) => match to_digest(&bytes) {
            None => Err(joined_text(label, " is not 32 bytes")),
            Some(digest) => Ok(digest),
        },
    }
}

/// Read the issuer's hybrid key in hexadecimal.
pub fn parse_issuer_key(value: &str) -> (r: Result<Vec<u8>, String>)
    ensures
        ({
            let bytes = text_bytes(value@);
            &&& r is Ok == (hexadecimal(bytes) && hex_bytes(bytes).len() == ISSUER_KEY_BYTES)
            &&& r matches Ok(key) ==> key@ == hex_bytes(bytes)
            &&& r matches Err(e) ==> e@ == (if !hexadecimal(bytes) {
                "malformed hybrid issuer key"@
            } else {
                "legacy issuer key requires PQC re-enrollment"@
            })
        }),
{
    match hex_decode(value) {
        Err(_) => Err("malformed hybrid issuer key".to_owned()),
        Ok(key) => {
            if key.len() != ISSUER_KEY_BYTES {
                return Err("legacy issuer key requires PQC re-enrollment".to_owned());
            }
            Ok(key)
        },
    }
}

/// Read the fingerprint of the separate pre-trade acknowledgement protocol,
/// where one is configured. `key_fault` is why its bytes are no key, if they
/// are none.
pub fn parse_ack_fingerprint(value: Option<&str>, key_fault: Option<String>) -> (r: Result<
    Option<Digest32>,
    String,
>)
    ensures
        match value {
            None => r == Ok::<Option<Digest32>, String>(None),
            Some(text) => {
                let bytes = text_bytes(text@);
                let shaped = hexadecimal(bytes) && hex_bytes(bytes).len() == 32;
                &&& r is Ok == (shaped && key_fault is None)
                &&& r matches Ok(found) ==> (found matches Some(digest) && digest@ == hex_bytes(
                    bytes,
                ))
                &&& r matches Err(e) ==> e@ == (if !hexadecimal(bytes) {
                    "QOMM pre-trade ACK fingerprint is not hexadecimal"@
                } else if !shaped {
                    "QOMM pre-trade ACK fingerprint must be 32 bytes"@
                } else {
                    (key_fault->0)@
                })
            },
        },
{
    let text = match value {
        None => return Ok(None),
        Some(text) => text,
    };
    let bytes = match hex_decode(text) {
        Err(_) => {
            return Err("QOMM pre-trade ACK fingerprint is not hexadecimal".to_owned());
        },
        Ok(bytes) => bytes,
    };
    match to_digest(&bytes) {
        None => Err("QOMM pre-trade ACK fingerprint must be 32 bytes".to_owned()),
        Some(digest) => match key_fault {
            Some(text) => Err(text),
            None => Ok(Some(digest)),
        },
    }
}

/// The certificate of the first configured coordinator, which alone may ask for
/// proofs.
pub fn proof_coordinator(principals: &Vec<Principal>) -> (r: Result<Digest32, String>)
    ensures
        r is Ok == (exists|i: int|
            0 <= i < principals@.len() && (#[trigger] principals@[i]).role is Coordinator),
        r matches Ok(certificate) ==> exists|i: int|
            0 <= i < principals@.len() && (#[trigger] principals@[i]).role is Coordinator
                && principals@[i].certificate_sha256 == certificate && forall|j: int|
                0 <= j < i ==> !((#[trigger] principals@[j]).role is Coordinator),
        r matches Err(e) ==> e@ == "node configuration has no proof coordinator"@,
{
    let mut i: usize = 0;
    while i < principals.len()
        invariant
            i <= principals@.len(),
            forall|j: int| 0 <= j < i ==> !((#[trigger] principals@[j]).role is Coordinator),
        decreases principals@.len() - i,
    {
        if principals[i].role == PeerRole::Coordinator {
            assert(principals@[i as int].role is Coordinator);
            return Ok(principals[i].certificate_sha256);
        }
        i += 1;
    }
    Err("node configuration has no proof coordinator".to_owned())
}

} // verus!
