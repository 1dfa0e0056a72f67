//! The conversation of a one-shot client command: handshake, request, reply.
//!
//! The caller performs each action on a freshly connected channel and reports
//! back; the session decides the next action and the command's outcome.

use crate::ansi::{spec_get_string, spec_parse, StyledMessage};
use crate::messages::{Reply, Request};
use crate::protocol::{check_protocol_version, mismatch_text, PROTOCOL_VERSION};
use crate::util::{ExitValue, Failure};
use vstd::prelude::*;

verus! {

/// A one-shot command.
#[derive(Clone, Debug, PartialEq, Eq)]
pub enum Command {
    Status,
    Stop,
    Restart,
    Send(String),
    Timings,
}

/// The request a command sends.
pub open spec fn command_request(c: Command) -> Request {
    match c {
        Command::Status => Request::Status,
        Command::Stop => Request::Stop,
        Command::Restart => Request::Restart,
        Command::Send(s) => Request::SendCommand(s),
        Command::Timings => Request::Timings,
    }
}

/// Which reply to decode next.
#[derive(Copy, Clone, Debug, PartialEq, Eq, Structural)]
pub enum ReplyKind {
    ProtocolVersion,
    Status,
    Timings,
}

/// The reply a command waits for, if any.
pub open spec fn command_reply(c: Command) -> Option<ReplyKind> {
    match c {
        Command::Status => Some(ReplyKind::Status),
        Command::Timings => Some(ReplyKind::Timings),
        _ => None,
    }
}

/// What the caller does next.
#[derive(Debug)]
pub enum SessionAction {
    /// Send this request.
    Send(Request),
    /// Print the text, if any, then receive a reply of this kind.
    Receive(ReplyKind, Option<String>),
    /// The command is over, with this outcome and diagnostic.
    Finish(Result<(), ExitValue>, Option<String>),
}

/// What the caller reports after an action.
pub enum SessionEvent {
    /// The request was sent, or sending failed.
    Sent(Result<(), Failure>),
    /// A reply was read, or reading failed.
    Replied(Result<Reply, Failure>),
}

/// Where the conversation stands.
#[derive(Copy, Clone, Debug, PartialEq, Eq, Structural)]
pub enum Stage {
    SendingVersion,
    AwaitingVersion,
    SendingCommand,
    AwaitingReply,
    Finished,
}

/// The stage after an action: a finish ends the conversation, a send of the
/// command's request awaits its outcome, and a receive awaits the version reply
/// right after the version request and the command's reply otherwise.
pub open spec fn next_stage(stage: Stage, a: SessionAction) -> Stage {
    match a {
        SessionAction::Finish(_, _) => Stage::Finished,
        SessionAction::Send(_) => Stage::SendingCommand,
        SessionAction::Receive(_, _) => if stage == Stage::SendingVersion {
            Stage::AwaitingVersion
        } else {
            Stage::AwaitingReply
        },
    }
}

/// A one-shot command's conversation.
pub struct ClientSession {
    pub command: Command,
    pub stage: Stage,
}

/// The command ends in failure with exit code 1.
pub open spec fn fails(a: SessionAction) -> bool {
    a matches SessionAction::Finish(Err(ExitValue::Code(1)), _)
}

/// The command ends in failure with exit code 1 and diagnostic `text`.
pub open spec fn fails_with(a: SessionAction, text: Seq<char>) -> bool {
    match a {
        SessionAction::Finish(Err(ExitValue::Code(1)), Some(m)) => m@ == text,
        _ => false,
    }
}

/// The next action receives a timings reply, after showing `shown`.
pub open spec fn receives_timings_showing(a: SessionAction, shown: Option<Seq<char>>) -> bool {
    match a {
        SessionAction::Receive(ReplyKind::Timings, t) => match (t, shown) {
            (Some(x), Some(y)) => x@ == y,
            (None, None) => true,
            _ => false,
        },
        _ => false,
    }
}

/// The action that follows `ev` in stage `stage` of `command`'s conversation:
/// a failed send or receive ends the command with the failure's outcome; the
/// version reply decides whether the command's request is sent at all; an
/// unexpected event fails the command.
pub open spec fn spec_session_step(stage: Stage, command: Command, ev: SessionEvent, r: SessionAction) -> bool {
    match ev {
        SessionEvent::Sent(Err(f)) => r == SessionAction::Finish(Err(f.exit), f.message),
        SessionEvent::Replied(Err(f)) => r == SessionAction::Finish(Err(f.exit), f.message),
        SessionEvent::Sent(Ok(_)) => match stage {
            Stage::SendingVersion => r == SessionAction::Receive(ReplyKind::ProtocolVersion, None),
            Stage::SendingCommand => match command_reply(command) {
                Some(k) => r == SessionAction::Receive(k, None),
                None => r == SessionAction::Finish(Ok(()), None),
            },
            _ => fails(r),
        },
        SessionEvent::Replied(Ok(rep)) => match stage {
            Stage::AwaitingVersion => match rep {
                Reply::ProtocolVersion(v) => if v == PROTOCOL_VERSION {
                    r == SessionAction::Send(command_request(command))
                } else {
                    fails_with(r, mismatch_text(v))
                },
                _ => fails(r),
            },
            Stage::AwaitingReply => match rep {
                Reply::Status => if command == Command::Status {
                    r == SessionAction::Finish(Ok(()), None)
                } else {
                    fails(r)
                },
                Reply::Timings { message, done } => if command != Command::Timings {
                    fails(r)
                } else if done {
                    r == SessionAction::Finish(Ok(()), None)
                } else {
                    receives_timings_showing(
                        r,
                        match message {
                            Some(m) => Some(spec_get_string(spec_parse(m@))),
                            None => None,
                        },
                    )
                },
                Reply::ProtocolVersion(_) => fails(r),
            },
            _ => fails(r),
        },
    }
}

impl ClientSession {
    /// A session for `command`; its first action sends the version request.
    pub fn new(command: Command) -> (r: (ClientSession, SessionAction))
        ensures
            r.0.command == command,
            r.0.stage == Stage::SendingVersion,
            r.1 == SessionAction::Send(Request::ProtocolVersion),
    {
        (ClientSession { command, stage: Stage::SendingVersion }, SessionAction::Send(Request::ProtocolVersion))
    }

    fn request(&self) -> (r: Request)
        ensures
            r == command_request(self.command),
    {
        match &self.command {
            Command::Status => Request::Status,
            Command::Stop => Request::Stop,
            Command::Restart => Request::Restart,
            Command::Send(s) => Request::SendCommand(s.clone()),
            Command::Timings => Request::Timings,
        }
    }

    /// Takes in the result of the last action and gives the next one.
    pub fn on_event(&mut self, ev: SessionEvent) -> (r: SessionAction)
        requires
            old(self).stage != Stage::Finished,
        ensures
            final(self).command == old(self).command,
            final(self).stage == next_stage(old(self).stage, r),
            spec_session_step(old(self).stage, old(self).command, ev, r),
    {
        let stage = self.stage;
        let action = match ev {
            SessionEvent::Sent(Err(f)) => SessionAction::Finish(Err(f.exit), f.message),
            SessionEvent::Replied(Err(f)) => SessionAction::Finish(Err(f.exit), f.message),
            SessionEvent::Sent(Ok(())) => {
                match stage {
                    Stage::SendingVersion => SessionAction::Receive(ReplyKind::ProtocolVersion, None),
                    Stage::SendingCommand => {
                        match &self.command {
                            Command::Status => SessionAction::Receive(ReplyKind::Status, None),
                            Command::Timings => SessionAction::Receive(ReplyKind::Timings, None),
                            _ => SessionAction::Finish(Ok(()), None),
                        }
                    },
                    _ => SessionAction::Finish(Err(ExitValue::Code(1)), None),
                }
            },
            SessionEvent::Replied(Ok(rep)) => {
                match stage {
                    Stage::AwaitingVersion => {
                        match rep {
                            Reply::ProtocolVersion(v) => {
                                match check_protocol_version(v) {
                                    Ok(()) => SessionAction::Send(self.request()),
                                    Err(f) => SessionAction::Finish(Err(f.exit), f.message),
                                }
                            },
                            _ => SessionAction::Finish(Err(ExitValue::Code(1)), None),
                        }
                    },
                    Stage::AwaitingReply => {
                        match rep {
                            Reply::Status => {
                                match &self.command {
                                    Command::Status => SessionAction::Finish(Ok(()), None),
                                    _ => SessionAction::Finish(Err(ExitValue::Code(1)), None),
                                }
                            },
                            Reply::Timings { message, done } => {
                                let timings = match &self.command {
                                    Command::Timings => true,
                                    _ => false,
                                };
                                if !timings {
                                    SessionAction::Finish(Err(ExitValue::Code(1)), None)
                                } else if done {
                                    SessionAction::Finish(Ok(()), None)
                                } else {
                                    match message {
                                        Some(m) => SessionAction::Receive(
                                            ReplyKind::Timings,
                                            Some(StyledMessage::parse(m.as_str()).get_string()),
                                        ),
                                        None => SessionAction::Receive(ReplyKind::Timings, None),
                                    }
                                }
                            },
                            Reply::ProtocolVersion(_) => SessionAction::Finish(
                                Err(ExitValue::Code(1)),
                                None,
                            ),
                        }
                    },
                    _ => SessionAction::Finish(Err(ExitValue::Code(1)), None),
                }
            },
        };
        self.stage = match &action {
            SessionAction::Finish(_, _) => Stage::Finished,
            SessionAction::Send(_) => Stage::SendingCommand,
            SessionAction::Receive(_, _) => if stage == Stage::SendingVersion {
                Stage::AwaitingVersion
            } else {
                Stage::AwaitingReply
            },
        };
        action
    }
}

} // verus!
