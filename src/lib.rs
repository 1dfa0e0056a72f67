//! Control protocol and console engine for a daemonized game server.

pub mod text;
pub mod ansi;
pub mod render;
pub mod carry;
pub mod wire;
pub mod transfer;
pub mod util;
pub mod messages;
pub mod messaging;
pub mod protocol;
pub mod session;
pub mod console;
pub mod cmd;
pub mod timings;
pub mod status;
pub mod runner;
pub mod daemon;
pub mod roundtrip;
pub mod stop;
