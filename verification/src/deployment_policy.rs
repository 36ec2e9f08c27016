//! Deployment-wide cryptographic policy and persistent-state admission guard.
//!
//! The policy comes from the operator-controlled cluster configuration. It is
//! not negotiated by peers and it cannot be attached to an existing state tree.

use crate::bytes::bytes_equal;
use crate::paths::{join_path, parent_of, path_below, path_parent};
use crate::text::append_text;
use crate::text_map::text_equal;
use vstd::prelude::*;

verus! {

/// The longest policy marker.
pub const MAX_POLICY_BYTES: u64 = 512;

/// The name of the file that holds a state's policy.
pub const STATE_POLICY_FILE: &'static str = "deployment-crypto-policy.bin";

/// Whether a deployment insists on post-quantum protection.
#[derive(Clone, Copy, Debug, PartialEq, Eq, Structural)]
pub enum PqcMode {
    Off,
    On,
}

/// How a proof backend is protected.
#[derive(Clone, Copy, Debug, PartialEq, Eq, Structural)]
pub enum ProofSecurity {
    Classical,
    PostQuantum,
}

/// A deployment's cryptographic policy. `encoded` is its canonical encoding,
/// where it has one.
#[derive(Clone, Debug, PartialEq, Eq)]
pub struct DeploymentCryptoPolicy {
    pub version: u16,
    pub deployment_id: String,
    pub mode: PqcMode,
    pub encoded: Option<Vec<u8>>,
}

/// Require two independently supplied configurations to name the exact same
/// deployment policy.
pub fn require_same(expected: &DeploymentCryptoPolicy, actual: &DeploymentCryptoPolicy) -> (r:
    Result<(), String>)
    ensures
        r is Ok == (expected.version == actual.version && expected.deployment_id@
            == actual.deployment_id@ && expected.mode == actual.mode),
        r matches Err(e) ==> e@ == "deployment cryptographic policies do not match"@,
{
    if expected.version != actual.version || !text_equal(
        expected.deployment_id.as_str(),
        actual.deployment_id.as_str(),
    ) || expected.mode != actual.mode {
        return Err("deployment cryptographic policies do not match".to_owned());
    }
    Ok(())
}

/// Require that a proof backend satisfies the policy. Proof issuance here is
/// classical; a deployment that insists on post-quantum protection therefore
/// stops before any proof state, key or financial journal is opened.
pub fn require_proof_backend(policy: &DeploymentCryptoPolicy, security: ProofSecurity) -> (r: Result<
    (),
    String,
>)
    ensures
        r is Ok == (policy.mode is Off || security is PostQuantum),
        r matches Err(e) ==> e@
            == "deployment requires a post-quantum proof backend; the selected OCLOB proof backend is not eligible"@,
{
    if policy.mode == PqcMode::On && security == ProofSecurity::Classical {
        return Err(
            "deployment requires a post-quantum proof backend; the selected OCLOB proof backend is not eligible".to_owned(),
        );
    }
    Ok(())
}

/// Where the policy of a persistent state stands: beside it.
pub fn marker_next_to(state: &str) -> (r: Result<String, String>)
    ensures
        r is Ok == (path_parent(state@) matches Some(parent) && parent.len() > 0),
        r matches Ok(marker) ==> marker@ == path_below(
            path_parent(state@)->0,
            STATE_POLICY_FILE@,
        ),
        r matches Err(e) ==> e@ == "persistent state path has no parent"@,
{
    match parent_of(state) {
        None => Err("persistent state path has no parent".to_owned()),
        Some(parent) => {
            if parent.as_str().is_empty() {
                return Err("persistent state path has no parent".to_owned());
            }
            Ok(join_path(parent.as_str(), STATE_POLICY_FILE))
        },
    }
}

/// What the file system says of a marker that is there. `metadata_fault` is why
/// its metadata could not be read, if it could not; `content` is what reading it
/// gave.
pub struct MarkerFile {
    pub symlink: bool,
    pub metadata_fault: Option<String>,
    pub is_file: bool,
    pub length: u64,
    pub mode: u32,
    pub content: Result<Vec<u8>, String>,
}

/// Why a marker does not stand for a policy, if it does not.
pub open spec fn marker_fault(marker: &MarkerFile, expected: Seq<u8>) -> Option<Seq<char>> {
    if marker.symlink {
        Some("deployment policy paths must not be symbolic links"@)
    } else if marker.metadata_fault is Some {
        Some((marker.metadata_fault->0)@)
    } else if !marker.is_file || marker.length == 0 || marker.length > MAX_POLICY_BYTES
        || marker.mode & 0o077 != 0 {
        Some("deployment policy marker has unsafe type, size, or permissions"@)
    } else {
        match marker.content {
            Err(text) => Some(text@),
            Ok(actual) => if actual@ != expected {
                Some("persisted deployment cryptographic policy does not match startup policy"@)
            } else {
                None
            },
        }
    }
}

/// Check a marker against the policy at startup: a private regular file that
/// holds exactly the expected encoding.
pub fn verify_marker_bytes(marker: &MarkerFile, expected: &[u8]) -> (r: Result<(), String>)
    ensures
        r is Ok == marker_fault(marker, expected@) is None,
        r matches Err(e) ==> Some(e@) == marker_fault(marker, expected@),
{
    if marker.symlink {
        return Err("deployment policy paths must not be symbolic links".to_owned());
    }
    match &marker.metadata_fault {
        Some(text) => return Err(text.clone()),
        None => {},
    }
    if !marker.is_file || marker.length == 0 || marker.length > MAX_POLICY_BYTES || marker.mode
        & 0o077 != 0 {
        return Err(
            "deployment policy marker has unsafe type, size, or permissions".to_owned(),
        );
    }
    match &marker.content {
        Err(text) => Err(text.clone()),
        Ok(actual) => {
            if !bytes_equal(actual.as_slice(), expected) {
                return Err(
                    "persisted deployment cryptographic policy does not match startup policy".to_owned(),
                );
            }
            Ok(())
        },
    }
}

/// What the file system says of a path.
pub enum PathState {
    Absent,
    Present,
    Symlink,
    Unreadable(String),
}

/// A path that a policy protects.
pub struct ProtectedPath {
    pub path: String,
    pub state: PathState,
}

/// Why a protected path is in the way of a fresh state, if it is.
pub open spec fn protected_fault(path: &ProtectedPath) -> Option<Seq<char>> {
    match path.state {
        PathState::Absent => None,
        PathState::Symlink => Some("deployment policy paths must not be symbolic links"@),
        PathState::Present => Some(
            "policy-less existing state at "@ + path.path@
                + "; explicit authenticated migration is required"@,
        ),
        PathState::Unreadable(text) => Some(text@),
    }
}

/// The first fault among the first `count` protected paths.
pub open spec fn protected_faults(paths: Seq<ProtectedPath>, count: nat) -> Option<Seq<char>>
    decreases count,
{
    if count == 0 {
        None
    } else {
        match protected_faults(paths, (count - 1) as nat) {
            Some(text) => Some(text),
            None => protected_fault(&paths[count - 1]),
        }
    }
}

proof fn lemma_protected_fault_stays(paths: Seq<ProtectedPath>, at: nat, count: nat)
    requires
        at <= count,
        protected_faults(paths, at) is Some,
    ensures
        protected_faults(paths, count) == protected_faults(paths, at),
    decreases count,
{
    if at < count {
        lemma_protected_fault_stays(paths, at, (count - 1) as nat);
    }
}

/// What provisioning a state does with its marker.
#[derive(Clone, Copy, Debug, PartialEq, Eq, Structural)]
pub enum MarkerStep {
    /// The marker is there, and stands for the policy.
    Verified,
    /// Nothing is there yet: write the marker, then start from it.
    Create,
}

/// What provisioning does, or why it is refused. `marker` is the marker, where
/// it exists; `parent` is the state of the marker's directory, where it has one.
pub open spec fn provisioning(
    policy: &DeploymentCryptoPolicy,
    marker: Option<MarkerFile>,
    marker_symlink: bool,
    protected: Seq<ProtectedPath>,
    parent: Option<PathState>,
) -> Result<MarkerStep, Seq<char>> {
    if policy.encoded is None {
        Err("deployment cryptographic policy is invalid"@)
    } else if marker is Some {
        match marker_fault(&marker->0, (policy.encoded->0)@) {
            Some(text) => Err(text),
            None => Ok(MarkerStep::Verified),
        }
    } else if marker_symlink {
        Err("deployment policy paths must not be symbolic links"@)
    } else if protected_faults(protected, protected.len()) is Some {
        Err(protected_faults(protected, protected.len())->0)
    } else {
        match parent {
            None => Err("deployment policy marker has no parent"@),
            Some(PathState::Symlink) => Err("deployment policy paths must not be symbolic links"@),
            Some(_) => Ok(MarkerStep::Create),
        }
    }
}

fn check_protected(path: &ProtectedPath) -> (r: Result<(), String>)
    ensures
        r is Ok == protected_fault(path) is None,
        r matches Err(e) ==> Some(e@) == protected_fault(path),
{
    match &path.state {
        PathState::Absent => Ok(()),
        PathState::Symlink => Err(
            "deployment policy paths must not be symbolic links".to_owned(),
        ),
        PathState::Present => {
            let mut text: String = "policy-less existing state at ".to_owned();
            append_text(&mut text, path.path.as_str());
            append_text(&mut text, "; explicit authenticated migration is required");
            Err(text)
        },
        PathState::Unreadable(text) => Err(text.clone()),
    }
}

/// Provision a marker only for a genuinely fresh state boundary. A missing
/// marker next to any existing protected artifact is an explicit migration
/// requirement, never permission to retrofit the policy.
pub fn initialize_fresh_state(
    policy: &DeploymentCryptoPolicy,
    marker: &Option<MarkerFile>,
    marker_symlink: bool,
    protected: &Vec<ProtectedPath>,
    parent: &Option<PathState>,
) -> (r: Result<MarkerStep, String>)
    ensures
        crate::store::text_result(r) == provisioning(
            policy,
            *marker,
            marker_symlink,
            protected@,
            *parent,
        ),
{
    let expected = match &policy.encoded {
        None => {
            return Err("deployment cryptographic policy is invalid".to_owned());
        },
        Some(expected) => expected,
    };
    match marker {
        Some(found) => {
            return match verify_marker_bytes(found, expected.as_slice()) {
                Err(e) => Err(e),
                Ok(_) => Ok(MarkerStep::Verified),
            };
        },
        None => {},
    }
    if marker_symlink {
        return Err("deployment policy paths must not be symbolic links".to_owned());
    }
    let mut i: usize = 0;
    while i < protected.len()
        invariant
            i <= protected@.len(),
            protected_faults(protected@, i as nat) is None,
            policy.encoded is Some,
            *marker is None,
            !marker_symlink,
        decreases protected@.len() - i,
    {
        match check_protected(&protected[i]) {
            Err(e) => {
                proof {
                    lemma_protected_fault_stays(protected@, i as nat + 1, protected@.len());
                }
                return Err(e);
            },
            Ok(_) => {},
        }
        i += 1;
    }
    match parent {
        None => Err("deployment policy marker has no parent".to_owned()),
        Some(PathState::Symlink) => Err(
            "deployment policy paths must not be symbolic links".to_owned(),
        ),
        Some(_) => Ok(MarkerStep::Create),
    }
}

/// Why a restart is refused, if it is.
pub open spec fn restart_fault(policy: &DeploymentCryptoPolicy, marker: Option<MarkerFile>) -> Option<
    Seq<char>,
> {
    match (policy.encoded, marker) {
        (None, _) => Some("deployment cryptographic policy is invalid"@),
        (Some(_), None) => Some(
            "persistent state has no deployment cryptographic policy; explicit fresh provisioning or authenticated migration is required"@,
        ),
        (Some(expected), Some(found)) => marker_fault(&found, expected@),
    }
}

/// The normal restart path: the marker exists and holds exactly the policy.
/// Absence is refused even when the data file happens to be absent: only the
/// explicit fresh-state path may create the marker.
pub fn require_existing_state(policy: &DeploymentCryptoPolicy, marker: &Option<MarkerFile>) -> (r:
    Result<(), String>)
    ensures
        r is Ok == restart_fault(policy, *marker) is None,
        r matches Err(e) ==> Some(e@) == restart_fault(policy, *marker),
{
    let expected = match &policy.encoded {
        None => {
            return Err("deployment cryptographic policy is invalid".to_owned());
        },
        Some(expected) => expected,
    };
    match marker {
        None => Err(
            "persistent state has no deployment cryptographic policy; explicit fresh provisioning or authenticated migration is required".to_owned(),
        ),
        Some(found) => verify_marker_bytes(found, expected.as_slice()),
    }
}

/// A policy cannot be added to state that is there already: where there is no
/// marker and anything protected exists, nothing is created.
pub proof fn lemma_policy_is_not_added_to_existing_state(
    policy: &DeploymentCryptoPolicy,
    marker_symlink: bool,
    protected: Seq<ProtectedPath>,
    parent: Option<PathState>,
    at: int,
)
    requires
        0 <= at < protected.len(),
        !(protected[at].state is Absent),
    ensures
        provisioning(policy, None, marker_symlink, protected, parent) is Err,
{
    if protected_faults(protected, at as nat) is Some {
        lemma_protected_fault_stays(protected, at as nat, protected.len());
    } else {
        assert(protected_faults(protected, (at + 1) as nat) is Some);
        lemma_protected_fault_stays(protected, (at + 1) as nat, protected.len());
    }
}

/// The exact policy survives a restart and no other does: beside a marker that
/// a policy started from, exactly the policies of the same encoding start.
pub proof fn lemma_marker_holds_one_policy(
    marker: MarkerFile,
    policy: &DeploymentCryptoPolicy,
    other: &DeploymentCryptoPolicy,
)
    requires
        restart_fault(policy, Some(marker)) is None,
    ensures
        restart_fault(other, Some(marker)) is None <==> (other.encoded is Some && (
        other.encoded->0)@ == (policy.encoded->0)@),
{
}

/// A policy starts only beside a private regular file that holds exactly its
/// encoding, whether the state is fresh or not.
pub proof fn lemma_startup_needs_its_marker(
    policy: &DeploymentCryptoPolicy,
    marker: MarkerFile,
    marker_symlink: bool,
    protected: Seq<ProtectedPath>,
    parent: Option<PathState>,
)
    ensures
        restart_fault(policy, None) is Some,
        restart_fault(policy, Some(marker)) is None <==> provisioning(
            policy,
            Some(marker),
            marker_symlink,
            protected,
            parent,
        ) == Ok::<MarkerStep, Seq<char>>(MarkerStep::Verified),
        restart_fault(policy, Some(marker)) is None ==> policy.encoded is Some && !marker.symlink
            && marker.is_file && marker.mode & 0o077 == 0 && (marker.content matches Ok(bytes)
            && bytes@ == (policy.encoded->0)@),
{
}

} // verus!
