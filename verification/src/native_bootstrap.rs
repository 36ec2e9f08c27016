//! The first key ceremony of a deployment, and the public book's command line.

use crate::bytes::{push_all, push_text, sha256, sha256_digest, text_bytes, Digest32};
use crate::deployment_policy::PathState;
use crate::store::text_result;
use crate::text::{append_text, number_error, parsed_u64, read_number};
use crate::text_map::text_equal;
use vstd::prelude::*;

verus! {

/// The files of a key ceremony.
pub struct BootstrapArgs {
    pub cluster: String,
    pub identity: String,
    pub output: String,
}

/// Read the arguments of a key ceremony.
pub fn parse_bootstrap_args(args: &Vec<String>) -> (r: Result<BootstrapArgs, String>)
    ensures
        r is Ok == (args@.len() == 3),
        r matches Ok(read) ==> read.cluster@ == args@[0]@ && read.identity@ == args@[1]@
            && read.output@ == args@[2]@,
        r matches Err(e) ==> e@
            == "usage: oclob-native-bootstrap CLUSTER IDENTITY PUBLIC-OUTPUT"@,
{
    if args.len() != 3 {
        return Err("usage: oclob-native-bootstrap CLUSTER IDENTITY PUBLIC-OUTPUT".to_owned());
    }
    Ok(
        BootstrapArgs {
            cluster: args[0].clone(),
            identity: args[1].clone(),
            output: args[2].clone(),
        },
    )
}

/// Check that a committee's file is not there yet.
pub fn check_no_committee(path: &str, state: &PathState) -> (r: Result<(), String>)
    ensures
        r is Ok == (*state is Absent),
        r matches Err(e) ==> e@ == (match *state {
            PathState::Unreadable(text) => text@,
            _ => "existing committee state at "@ + path@ + "; explicit migration is required"@,
        }),
{
    match state {
        PathState::Absent => Ok(()),
        PathState::Unreadable(text) => Err(text.clone()),
        _ => {
            let mut text: String = "existing committee state at ".to_owned();
            append_text(&mut text, path);
            append_text(&mut text, "; explicit migration is required");
            Err(text)
        },
    }
}

/// The session of a deployment's key ceremony. `policy` is the encoding of the
/// deployment's cryptographic policy.
pub fn ceremony_session(policy: &[u8], market: &str) -> (session: Digest32)
    ensures
        session@ == sha256(text_bytes("OCLOB:NATIVE:DKG:v1"@) + policy@ + text_bytes(market@)),
{
    let mut body: Vec<u8> = Vec::new();
    push_text(&mut body, "OCLOB:NATIVE:DKG:v1");
    push_all(&mut body, policy);
    push_text(&mut body, market);
    assert(body@ =~= text_bytes("OCLOB:NATIVE:DKG:v1"@) + policy@ + text_bytes(market@));
    sha256_digest(body.as_slice())
}

/// How the public book is started.
#[derive(Clone, Debug, PartialEq, Eq)]
pub enum BookMode {
    Serve,
    Http(String),
    Get(u64),
}

/// Read the arguments of the public book.
pub fn parse_book_args(args: &Vec<String>) -> (r: Result<BookMode, String>)
    ensures
        ({
            let http = args@.len() == 2 && args@[0]@ == "--http"@;
            let get = args@.len() == 2 && args@[0]@ == "--get"@;
            if http {
                r matches Ok(BookMode::Http(address)) && address@ == args@[1]@
            } else if get {
                match parsed_u64(args@[1]@) {
                    Some(minimum) => r == Ok::<BookMode, String>(BookMode::Get(minimum)),
                    None => r matches Err(e) && e@ == number_error(args@[1]@),
                }
            } else if args@.len() == 0 {
                r == Ok::<BookMode, String>(BookMode::Serve)
            } else {
                r matches Err(e) && e@
                    == "usage: oclob-public-book [--get MINIMUM_SEQUENCE | --http IP:PORT]"@
            }
        }),
{
    if args.len() == 2 && text_equal(args[0].as_str(), "--http") {
        return Ok(BookMode::Http(args[1].clone()));
    }
    if args.len() == 2 && text_equal(args[0].as_str(), "--get") {
        return match read_number(args[1].as_str()) {
            Ok(minimum) => Ok(BookMode::Get(minimum)),
            Err(e) => Err(e),
        };
    }
    if args.len() != 0 {
        return Err(
            "usage: oclob-public-book [--get MINIMUM_SEQUENCE | --http IP:PORT]".to_owned(),
        );
    }
    Ok(BookMode::Serve)
}

/// What fetching the public book does after an attempt.
#[derive(Clone, Copy, Debug, PartialEq, Eq, Structural)]
pub enum FetchStep {
    Done,
    Again,
}

/// Whether to fetch the public book again.
pub fn fetch_again(error: Option<String>, before_deadline: bool) -> (r: Result<FetchStep, String>)
    ensures
        text_result(r) == (match error {
            None => Ok::<FetchStep, Seq<char>>(FetchStep::Done),
            Some(text) => if before_deadline {
                Ok(FetchStep::Again)
            } else {
                Err(text@)
            },
        }),
{
    match error {
        None => Ok(FetchStep::Done),
        Some(text) => if before_deadline {
            Ok(FetchStep::Again)
        } else {
            Err(text)
        },
    }
}

} // verus!
