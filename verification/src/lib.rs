//! An interactive command shell whose command set can be extended at
//! runtime by plugins running in an isolated sandbox.
//!
//! This crate is the shell's core: the command and plugin registries with
//! their uniqueness invariants, the command-name policy, the dispatcher and
//! its `Running`/`Stopped` state machine, and the data model of the
//! host/guest interface. Everything here is plain data and verified logic;
//! reading the console and driving the sandbox engine are left to the
//! embedding program, which feeds lines in and carries the returned
//! outcomes out.

pub mod dispatch;
pub mod host;
pub mod plugin_ie;
pub mod shell;
pub mod simple_plug;
pub mod strings;
pub mod tokens;

pub use crate::dispatch::Outcome;
pub use crate::host::{CommandDecl, Level, LogLine, PluginInfo};
pub use crate::plugin_ie::PluginIe;
pub use crate::shell::{
    Cmd, CmdEntry, CmdImpl, LoadReject, NativeCmd, PendingCmds, Plugin, PluginId, RegisterError,
    Shell, ShellCtx,
};
pub use crate::tokens::parse_cmd;
