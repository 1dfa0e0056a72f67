//! The requests a client sends, their type ids, and the replies it expects.

use crate::util::{failure, ExitValue, Failure};
use vstd::prelude::*;

verus! {

/// A request type with a fixed type id on the wire.
pub trait MessageHandler {
    spec fn spec_type_id() -> i64;

    fn type_id() -> (r: i64)
        ensures
            r == Self::spec_type_id(),
    ;
}

/// Asks for the server's protocol version.
pub struct ProtocolVersionMessage {}

/// Asks the server to stop.
pub struct StopMessage {}

/// Asks the server to restart.
pub struct RestartMessage {}

/// Asks for the server's status.
pub struct StatusMessage {}

/// Runs a command on the server.
pub struct SendCommandMessage {
    pub message: String,
}

/// Asks for a timings report.
pub struct TimingsMessage {}

/// Subscribes process `pid` to the server's log stream.
pub struct LogsMessage {
    pub pid: i32,
}

/// Ends the log subscription of process `pid`.
pub struct EndLogsListenerMessage {
    pub pid: i32,
}

/// Asks for completions of a partial command.
pub struct TabCompleteMessage {
    pub command: String,
}

/// Asks for the console's status-bar figures.
pub struct ConsoleStatusMessage {}

/// The envelope a server replies with when it cannot give a typed reply.
#[derive(Clone, Debug)]
pub struct ServerErrorMessage {
    pub error: Option<String>,
    pub is_shutdown: bool,
}

impl MessageHandler for ProtocolVersionMessage {
    open spec fn spec_type_id() -> i64 { 0 }

    fn type_id() -> (r: i64) { 0 }
}

impl MessageHandler for StopMessage {
    open spec fn spec_type_id() -> i64 { 1 }

    fn type_id() -> (r: i64) { 1 }
}

impl MessageHandler for RestartMessage {
    open spec fn spec_type_id() -> i64 { 2 }

    fn type_id() -> (r: i64) { 2 }
}

impl MessageHandler for StatusMessage {
    open spec fn spec_type_id() -> i64 { 3 }

    fn type_id() -> (r: i64) { 3 }
}

impl MessageHandler for SendCommandMessage {
    open spec fn spec_type_id() -> i64 { 4 }

    fn type_id() -> (r: i64) { 4 }
}

impl MessageHandler for TimingsMessage {
    open spec fn spec_type_id() -> i64 { 5 }

    fn type_id() -> (r: i64) { 5 }
}

impl MessageHandler for LogsMessage {
    open spec fn spec_type_id() -> i64 { 6 }

    fn type_id() -> (r: i64) { 6 }
}

impl MessageHandler for EndLogsListenerMessage {
    open spec fn spec_type_id() -> i64 { 7 }

    fn type_id() -> (r: i64) { 7 }
}

impl MessageHandler for ConsoleStatusMessage {
    open spec fn spec_type_id() -> i64 { 8 }

    fn type_id() -> (r: i64) { 8 }
}

impl MessageHandler for TabCompleteMessage {
    open spec fn spec_type_id() -> i64 { 9 }

    fn type_id() -> (r: i64) { 9 }
}

/// Every request, as one closed type.
#[derive(Clone, Debug, PartialEq, Eq)]
pub enum Request {
    ProtocolVersion,
    Stop,
    Restart,
    Status,
    SendCommand(String),
    Timings,
    Logs(i32),
    EndLogs(i32),
    ConsoleStatus,
    TabComplete(String),
}

/// The type id of a request on the wire.
pub open spec fn spec_request_type(r: Request) -> i64 {
    match r {
        Request::ProtocolVersion => 0,
        Request::Stop => 1,
        Request::Restart => 2,
        Request::Status => 3,
        Request::SendCommand(_) => 4,
        Request::Timings => 5,
        Request::Logs(_) => 6,
        Request::EndLogs(_) => 7,
        Request::ConsoleStatus => 8,
        Request::TabComplete(_) => 9,
    }
}

/// The server answers a request of this kind.
pub open spec fn spec_expects_reply(r: Request) -> bool {
    match r {
        Request::ProtocolVersion | Request::Status | Request::Timings | Request::Logs(_)
        | Request::ConsoleStatus | Request::TabComplete(_) => true,
        _ => false,
    }
}

impl Request {
    /// The type id of this request on the wire.
    pub fn type_id(&self) -> (r: i64)
        ensures
            r == spec_request_type(*self),
    {
        match self {
            Request::ProtocolVersion => ProtocolVersionMessage::type_id(),
            Request::Stop => StopMessage::type_id(),
            Request::Restart => RestartMessage::type_id(),
            Request::Status => StatusMessage::type_id(),
            Request::SendCommand(_) => SendCommandMessage::type_id(),
            Request::Timings => TimingsMessage::type_id(),
            Request::Logs(_) => LogsMessage::type_id(),
            Request::EndLogs(_) => EndLogsListenerMessage::type_id(),
            Request::ConsoleStatus => ConsoleStatusMessage::type_id(),
            Request::TabComplete(_) => TabCompleteMessage::type_id(),
        }
    }

    /// Whether the server answers this request.
    pub fn expects_reply(&self) -> (r: bool)
        ensures
            r == spec_expects_reply(*self),
    {
        match self {
            Request::ProtocolVersion | Request::Status | Request::Timings | Request::Logs(_)
            | Request::ConsoleStatus | Request::TabComplete(_) => true,
            _ => false,
        }
    }
}

/// What a reply decodes to, for the requests whose replies the logic reads.
#[derive(Clone, Debug, PartialEq, Eq)]
pub enum Reply {
    ProtocolVersion(i64),
    /// The status report; its contents are only displayed.
    Status,
    Timings { message: Option<String>, done: bool },
}

/// How a reply payload is read: as the expected reply, else as the error
/// envelope. A clean shutdown is no error; an envelope's text is the diagnostic.
pub open spec fn spec_reply_outcome<R>(
    typed: Option<R>,
    envelope: Option<ServerErrorMessage>,
) -> Result<R, ExitValue> {
    match typed {
        Some(r) => Ok(r),
        None => match envelope {
            Some(e) => if e.is_shutdown {
                Err(ExitValue::Shutdown)
            } else {
                Err(ExitValue::Code(1))
            },
            None => Err(ExitValue::Code(1)),
        },
    }
}

/// Reads a reply from its two decodings: `typed` as the expected reply and
/// `envelope` as the error envelope (`None` where that decoding failed).
pub fn handle_message<R>(typed: Option<R>, envelope: Option<ServerErrorMessage>) -> (r: Result<
    R,
    Failure,
>)
    ensures
        match r {
            Ok(v) => spec_reply_outcome(typed, envelope) == Ok::<R, ExitValue>(v),
            Err(f) => spec_reply_outcome(typed, envelope) == Err::<R, ExitValue>(f.exit),
        },
        typed is None && envelope is Some && !envelope->Some_0.is_shutdown ==> r is Err
            && r->Err_0.message == envelope->Some_0.error,
{
    match typed {
        Some(v) => Ok(v),
        None => match envelope {
            Some(e) => {
                if e.is_shutdown {
                    Err(Failure { exit: ExitValue::Shutdown, message: None })
                } else {
                    Err(Failure { exit: ExitValue::Code(1), message: e.error })
                }
            },
            None => Err(failure("Failed to parse response from server")),
        },
    }
}

} // verus!
