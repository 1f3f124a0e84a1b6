//! Data model of the host/guest interface.
//!
//! A plugin is reached through a fixed, synchronous calling contract: the
//! host calls the guest's `init` once, right after instantiation, and then
//! `run_command` once per dispatched command; the guest calls back only
//! through the narrow capability surface, of which the observable part is
//! leveled log lines. Everything crossing the boundary is plain data —
//! strings, string sequences, and the small enumerations below — so the
//! records here are the whole wire vocabulary.

use vstd::prelude::*;

verus! {

/// Severity of a log line emitted through the host's logging capability.
#[derive(Clone, Copy, PartialEq, Eq, Structural, Debug)]
pub enum Level {
    Debug,
    Info,
    Warn,
    Error,
}

impl Level {
    /// The tag under which a line of this level is rendered.
    pub open spec fn label(self) -> Seq<char> {
        match self {
            Level::Debug => "DEBUG"@,
            Level::Info => "INFO"@,
            Level::Warn => "WARN"@,
            Level::Error => "ERROR"@,
        }
    }

    /// Runtime form of [`Level::label`].
    pub fn as_str(&self) -> (r: &'static str)
        ensures
            r@ == self.label(),
    {
        match self {
            Level::Debug => "DEBUG",
            Level::Info => "INFO",
            Level::Warn => "WARN",
            Level::Error => "ERROR",
        }
    }
}

/// One message a guest handed to the logging capability, to be rendered
/// tagged with its level.
#[derive(PartialEq, Eq, Debug)]
pub struct LogLine {
    pub level: Level,
    pub message: String,
}

/// One command a plugin declares in the result of `init`: the name under
/// which it is dispatched, plus the usage and description shown by `help`.
#[derive(PartialEq, Eq, Debug)]
pub struct CommandDecl {
    pub name: String,
    pub usage: String,
    pub description: String,
}

impl Clone for CommandDecl {
    fn clone(&self) -> (r: Self)
        ensures
            r == *self,
    {
        CommandDecl {
            name: self.name.clone(),
            usage: self.usage.clone(),
            description: self.description.clone(),
        }
    }
}

/// The metadata a plugin returns from a successful `init` call: its unique,
/// non-empty name, a description and version, and the commands it declares.
/// Produced once per load; immutable thereafter.
#[derive(PartialEq, Eq, Debug)]
pub struct PluginInfo {
    pub name: String,
    pub description: String,
    pub version: String,
    pub commands: Vec<CommandDecl>,
}

/// Field-by-field agreement of two metadata records; the declared command
/// lists are compared as sequences.
pub open spec fn info_matches(a: PluginInfo, b: PluginInfo) -> bool {
    &&& a.name == b.name
    &&& a.description == b.description
    &&& a.version == b.version
    &&& a.commands@ == b.commands@
}

impl Clone for PluginInfo {
    fn clone(&self) -> (r: Self)
        ensures
            info_matches(r, *self),
    {
        PluginInfo {
            name: self.name.clone(),
            description: self.description.clone(),
            version: self.version.clone(),
            commands: clone_decls(&self.commands),
        }
    }
}

/// An element-by-element copy of a declared command list.
pub fn clone_decls(v: &Vec<CommandDecl>) -> (r: Vec<CommandDecl>)
    ensures
        r@ == v@,
{
    let mut r: Vec<CommandDecl> = Vec::new();
    let mut i: usize = 0;
    while i < v.len()
        invariant
            i <= v.len(),
            r@ =~= v@.take(i as int),
        decreases v.len() - i,
    {
        r.push(v[i].clone());
        proof {
            assert(r@ =~= v@.take(i as int + 1));
        }
        i = i + 1;
    }
    proof {
        assert(r@ =~= v@);
    }
    r
}

} // verus!
