//! The protocol version handshake.

use crate::text::push_str;
use crate::util::{decimal, int_text, ExitValue, Failure};
use vstd::prelude::*;

verus! {

/// The protocol version this client speaks.
pub const PROTOCOL_VERSION: i64 = 1;

/// The diagnostic for a server that speaks protocol `server`.
pub open spec fn mismatch_text(server: i64) -> Seq<char> {
    "The protocol versions of paperd and the specified server do not match. paperd protocol version: "@
        + decimal(PROTOCOL_VERSION as int) + "; server protocol version: "@ + decimal(
        server as int,
    ) + ". Please use a version of paperd compatible with this build of Paper."@
}

/// Accepts a server that speaks `server`; otherwise fails with exit code 1 and a
/// diagnostic naming both versions.
pub fn check_protocol_version(server: i64) -> (r: Result<(), Failure>)
    ensures
        r is Ok <==> server == PROTOCOL_VERSION,
        r is Err ==> r->Err_0.exit == ExitValue::Code(1) && r->Err_0.message is Some
            && r->Err_0.message->Some_0@ == mismatch_text(server),
{
    if server == PROTOCOL_VERSION {
        return Ok(());
    }
    let mut m = "The protocol versions of paperd and the specified server do not match. paperd protocol version: ".to_owned();
    push_str(&mut m, int_text(PROTOCOL_VERSION).as_str());
    push_str(&mut m, "; server protocol version: ");
    push_str(&mut m, int_text(server).as_str());
    push_str(&mut m, ". Please use a version of paperd compatible with this build of Paper.");
    Err(Failure { exit: ExitValue::Code(1), message: Some(m) })
}

/// Whether a server jar that declares protocol `declared` can be run.
pub fn jar_protocol_matches(declared: i64) -> (r: bool)
    ensures
        r == (declared == PROTOCOL_VERSION),
{
    declared == PROTOCOL_VERSION
}

} // verus!
