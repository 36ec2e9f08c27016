//! The corporate service's command line: what an operator asks of a running
//! service, and how the answer is read.

use crate::store::text_result;
use crate::text::{joined_text, parse_u128_text, u128_text};
use crate::text_map::text_equal;
use vstd::prelude::*;

verus! {

/// What an operator asks of a running service.
#[derive(Clone, Copy, Debug, PartialEq, Eq, Structural)]
pub enum ClientMode {
    Serve,
    Status,
    Ping,
    ExpectDenied,
    Wallet,
    ExpectLocked,
}

/// The mode that the arguments ask for.
pub open spec fn client_mode(args: Seq<String>) -> Option<ClientMode> {
    if args.len() == 0 {
        Some(ClientMode::Serve)
    } else if args.len() != 1 && !(args.len() == 2 && args[0]@ == "--expect-locked"@) {
        None
    } else if args[0]@ == "--status"@ {
        Some(ClientMode::Status)
    } else if args[0]@ == "--ping"@ {
        Some(ClientMode::Ping)
    } else if args[0]@ == "--expect-denied"@ {
        Some(ClientMode::ExpectDenied)
    } else if args[0]@ == "--wallet"@ {
        Some(ClientMode::Wallet)
    } else if args[0]@ == "--expect-locked"@ {
        Some(ClientMode::ExpectLocked)
    } else {
        None
    }
}

/// Read the arguments of the corporate service.
pub fn parse_client_args(args: &Vec<String>) -> (r: Result<ClientMode, String>)
    ensures
        r is Ok == client_mode(args@) is Some,
        r matches Ok(mode) ==> Some(mode) == client_mode(args@),
        r matches Err(e) ==> e@ == "invalid arguments"@,
{
    if args.len() == 0 {
        return Ok(ClientMode::Serve);
    }
    let first = args[0].as_str();
    if args.len() != 1 && !(args.len() == 2 && text_equal(first, "--expect-locked")) {
        return Err("invalid arguments".to_owned());
    }
    if text_equal(first, "--status") {
        Ok(ClientMode::Status)
    } else if text_equal(first, "--ping") {
        Ok(ClientMode::Ping)
    } else if text_equal(first, "--expect-denied") {
        Ok(ClientMode::ExpectDenied)
    } else if text_equal(first, "--wallet") {
        Ok(ClientMode::Wallet)
    } else if text_equal(first, "--expect-locked") {
        Ok(ClientMode::ExpectLocked)
    } else {
        Err("invalid arguments".to_owned())
    }
}

/// Whether a mode asks for the wallet; else it asks for the queue.
pub fn asks_for_wallet(mode: ClientMode) -> (wallet: bool)
    ensures
        wallet == (mode is Wallet || mode is ExpectLocked),
{
    mode == ClientMode::Wallet || mode == ClientMode::ExpectLocked
}

/// The kind of answer that a service gave.
#[derive(Clone, Copy, Debug, PartialEq, Eq, Structural)]
pub enum AnswerKind {
    Queue,
    Wallet,
    Rejected,
    Other,
}

/// What is made of an answer.
#[derive(Clone, Copy, Debug, PartialEq, Eq, Structural)]
pub enum ClientStep {
    AccessDenied,
    Ready,
    CheckLocked,
    Print,
}

/// What is made of an answer to a mode, or why it is an error. `answer` is
/// absent where there was none.
pub open spec fn client_step(mode: ClientMode, answer: Result<AnswerKind, String>) -> Result<
    ClientStep,
    Seq<char>,
> {
    if mode is ExpectDenied {
        if answer is Ok {
            Err("unauthorized access succeeded"@)
        } else {
            Ok(ClientStep::AccessDenied)
        }
    } else {
        match answer {
            Err(text) => Err(text@),
            Ok(AnswerKind::Rejected) => Err("request rejected"@),
            Ok(kind) => if mode is Ping {
                if kind is Queue {
                    Ok(ClientStep::Ready)
                } else {
                    Err("unexpected response"@)
                }
            } else if mode is ExpectLocked {
                Ok(ClientStep::CheckLocked)
            } else {
                Ok(ClientStep::Print)
            },
        }
    }
}

/// Find what is made of an answer.
pub fn read_answer(mode: ClientMode, answer: &Result<AnswerKind, String>) -> (r: Result<
    ClientStep,
    String,
>)
    ensures
        text_result(r) == client_step(mode, *answer),
{
    if mode == ClientMode::ExpectDenied {
        return if answer.is_ok() {
            Err("unauthorized access succeeded".to_owned())
        } else {
            Ok(ClientStep::AccessDenied)
        };
    }
    let kind = match answer {
        Err(text) => return Err(text.clone()),
        Ok(kind) => *kind,
    };
    if kind == AnswerKind::Rejected {
        return Err("request rejected".to_owned());
    }
    if mode == ClientMode::Ping {
        return if kind == AnswerKind::Queue {
            Ok(ClientStep::Ready)
        } else {
            Err("unexpected response".to_owned())
        };
    }
    if mode == ClientMode::ExpectLocked {
        Ok(ClientStep::CheckLocked)
    } else {
        Ok(ClientStep::Print)
    }
}

/// What a wallet's snapshot says of one asset.
pub struct AssetReport {
    pub asset_id: Option<String>,
    pub locked: Option<String>,
}

/// What a wallet's snapshot says. A field that is absent, or of another kind,
/// is `None`.
pub struct SnapshotReport {
    pub facility_asset: Option<String>,
    pub facility_held: Option<String>,
    pub assets: Option<Vec<AssetReport>>,
    pub scope: Option<String>,
}

/// The first asset with an identifier.
pub open spec fn asset_with(assets: Seq<AssetReport>, id: Seq<char>, from: nat) -> Option<
    AssetReport,
>
    decreases assets.len() - from,
{
    if from >= assets.len() {
        None
    } else if assets[from as int].asset_id matches Some(text) && text@ == id {
        Some(assets[from as int])
    } else {
        asset_with(assets, id, from + 1)
    }
}

/// Why a wallet does not hold the expected amount locked, if it does not.
pub open spec fn locked_fault(
    amount: Option<Seq<char>>,
    kind: AnswerKind,
    snapshot: &SnapshotReport,
) -> Option<Seq<char>> {
    match amount {
        None => Some("expected amount missing"@),
        Some(amount) => match u128_text(amount) {
            None => Some("invalid expected amount"@),
            Some(expected) => if !(kind is Wallet) {
                Some("unexpected response"@)
            } else {
                match snapshot.facility_asset {
                    None => Some("asset missing"@),
                    Some(asset) => match snapshot.assets {
                        None => Some("assets missing"@),
                        Some(assets) => match asset_with(assets@, asset@, 0) {
                            None => Some("own asset missing"@),
                            Some(own) => if !(own.locked matches Some(text) && text@ == expected)
                                || !(snapshot.facility_held matches Some(text) && text@ == expected)
                                || !(snapshot.scope matches Some(text) && text@
                                == "canonical_notes_and_reservation_heads"@) {
                                Some(
                                    "canonical locked amount differs from expected current remainder"@,
                                )
                            } else {
                                None
                            },
                        },
                    },
                }
            },
        },
    }
}

fn find_asset<'a>(assets: &'a Vec<AssetReport>, id: &str) -> (found: Option<&'a AssetReport>)
    ensures
        match asset_with(assets@, id@, 0) {
            Some(asset) => found matches Some(given) && *given == asset,
            None => found is None,
        },
{
    let mut i: usize = 0;
    while i < assets.len()
        invariant
            i <= assets@.len(),
            asset_with(assets@, id@, 0) == asset_with(assets@, id@, i as nat),
        decreases assets@.len() - i,
    {
        let named: bool = match &assets[i].asset_id {
            Some(text) => text_equal(text.as_str(), id),
            None => false,
        };
        if named {
            return Some(&assets[i]);
        }
        i += 1;
    }
    None
}

fn field_is(field: &Option<String>, expected: &str) -> (same: bool)
    ensures
        same == (*field matches Some(text) && text@ == expected@),
{
    match field {
        Some(text) => text_equal(text.as_str(), expected),
        None => false,
    }
}

/// Check that a wallet holds exactly the expected amount locked, in its own
/// asset and in its facility alike.
pub fn check_locked(amount: Option<&str>, kind: AnswerKind, snapshot: &SnapshotReport) -> (r: Result<
    (),
    String,
>)
    ensures
        ({
            let fault = locked_fault(
                match amount {
                    Some(text) => Some(text@),
                    None => None,
                },
                kind,
                snapshot,
            );
            &&& r is Ok == fault is None
            &&& r matches Err(e) ==> Some(e@) == fault
        }),
{
    let expected = match amount {
        None => return Err("expected amount missing".to_owned()),
        Some(text) => match parse_u128_text(text) {
            None => return Err("invalid expected amount".to_owned()),
            Some(expected) => expected,
        },
    };
    if kind != AnswerKind::Wallet {
        return Err("unexpected response".to_owned());
    }
    let asset = match &snapshot.facility_asset {
        None => return Err("asset missing".to_owned()),
        Some(asset) => asset,
    };
    let assets = match &snapshot.assets {
        None => return Err("assets missing".to_owned()),
        Some(assets) => assets,
    };
    match find_asset(assets, asset.as_str()) {
        None => Err("own asset missing".to_owned()),
        Some(own) => {
            if !field_is(&own.locked, expected.as_str()) || !field_is(
                &snapshot.facility_held,
                expected.as_str(),
            ) || !field_is(&snapshot.scope, "canonical_notes_and_reservation_heads") {
                return Err(
                    "canonical locked amount differs from expected current remainder".to_owned(),
                );
            }
            Ok(())
        },
    }
}

/// The error for a setting that is missing.
pub fn missing_setting(name: &str) -> (text: String)
    ensures
        text@ == name@ + " missing"@,
{
    joined_text(name, " missing")
}

/// Check a file before it is read. A private one is for its owner only.
pub fn check_client_input(symlink: bool, is_file: bool, length: u64, private: bool, mode: u32) -> (r:
    Result<(), String>)
    ensures
        r is Ok == (is_file && !symlink && 0 < length <= 1_048_576 && (private ==> mode & 0o077
            == 0)),
        r matches Err(e) ==> e@ == "unsafe input"@,
{
    if !is_file || symlink || length == 0 || length > 1_048_576 || (private && mode & 0o077 != 0) {
        return Err("unsafe input".to_owned());
    }
    Ok(())
}

} // verus!
