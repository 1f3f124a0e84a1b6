//! The shell's registries, their invariants, and the operations that keep
//! them consistent.
//!
//! The execution context ([`ShellCtx`]) bundles the command table, the
//! plugin table, the pending-commands slot and the running flag; every
//! mutation goes through the operations here, each of which preserves
//! [`ShellCtx::wf`]: command names are unique and syntactically valid,
//! plugin names are unique and non-empty, and every forward entry points at
//! a loaded plugin. Registration is first-writer-wins: a name, once taken,
//! is never overwritten.

use vstd::prelude::*;
use vstd::string::StrSliceExecFns;
use crate::host::{CommandDecl, PluginInfo};
use crate::strings::{is_alnum, is_space};

verus! {

/// What `help` shows for one registered command.
#[derive(PartialEq, Eq, Debug)]
pub struct Cmd {
    /// Usage of the command.
    pub usage: String,
    pub description: String,
}

impl Clone for Cmd {
    fn clone(&self) -> (r: Self)
        ensures
            r == *self,
    {
        Cmd { usage: self.usage.clone(), description: self.description.clone() }
    }
}

/// The built-in commands, a closed set.
#[derive(Clone, Copy, PartialEq, Eq, Structural, Debug)]
pub enum NativeCmd {
    Quit,
    Help,
    ListPlugins,
    Load,
}

/// The runner bound to a command name: a built-in, or a forward to the
/// named plugin. Resolution is an exhaustive match; there is no open-ended
/// dispatch.
#[derive(PartialEq, Eq, Debug)]
pub enum CmdImpl {
    Native(NativeCmd),
    Wasm { plugin: String, cmd: String },
}

impl Clone for CmdImpl {
    fn clone(&self) -> (r: Self)
        ensures
            r == *self,
    {
        match self {
            CmdImpl::Native(n) => CmdImpl::Native(*n),
            CmdImpl::Wasm { plugin, cmd } => CmdImpl::Wasm {
                plugin: plugin.clone(),
                cmd: cmd.clone(),
            },
        }
    }
}

/// Display tag for a loaded plugin; the registry itself is keyed by name.
#[derive(Clone, Copy, PartialEq, Eq, Structural, Hash, Debug)]
pub struct PluginId(pub u32);

/// One row of the command registry.
#[derive(PartialEq, Eq, Debug)]
pub struct CmdEntry {
    pub name: String,
    pub cmd: Cmd,
    pub imp: CmdImpl,
}

/// One row of the plugin registry: the tag it was given at load time and
/// the metadata its `init` returned.
#[derive(PartialEq, Eq, Debug)]
pub struct Plugin {
    pub id: PluginId,
    pub info: PluginInfo,
}

/// Agreement of two plugin rows up to the command-list container.
pub open spec fn plugin_matches(a: Plugin, b: Plugin) -> bool {
    a.id == b.id && crate::host::info_matches(a.info, b.info)
}

impl Clone for Plugin {
    fn clone(&self) -> (r: Self)
        ensures
            plugin_matches(r, *self),
    {
        Plugin { id: self.id, info: self.info.clone() }
    }
}

/// Commands declared by a just-loaded plugin, staged until the dispatcher
/// drains them into the command registry.
#[derive(PartialEq, Eq, Debug)]
pub struct PendingCmds {
    pub plugin: String,
    pub commands: Vec<CommandDecl>,
}

/// The execution context: all shared mutable shell state.
pub struct ShellCtx {
    /// The command registry.
    pub cmds: Vec<CmdEntry>,
    /// Is the shell still running? Cleared exactly once, by `quit`.
    pub running: bool,
    /// The tag of the most recent plugin loaded.
    pub last_id: PluginId,
    /// The plugin registry.
    pub plugins: Vec<Plugin>,
    /// At most one undrained batch of declared commands.
    pub pending: Option<PendingCmds>,
}

/// The shell: the execution context plus the session operations.
pub struct Shell {
    pub ctx: ShellCtx,
}

/// Why a registration was refused.
#[derive(Clone, Copy, PartialEq, Eq, Structural, Debug)]
pub enum RegisterError {
    /// The name violates the naming policy ([`valid_cmd_name`]).
    InvalidName,
    /// The name is already bound; the original entry is kept.
    DuplicateName,
}

/// Why a load was refused after the guest's `init` returned.
#[derive(Clone, Copy, PartialEq, Eq, Structural, Debug)]
pub enum LoadReject {
    /// The guest returned a malformed, empty plugin name.
    EmptyName,
    /// A plugin of that name is already loaded; no implicit replace.
    DuplicateName,
}

/// The naming policy for registered commands. A name is rejected when it is
/// 16 characters or longer, contains a separator character, or contains no
/// alphanumeric character at all.
pub open spec fn valid_cmd_name(s: Seq<char>) -> bool {
    &&& s.len() < 16
    &&& forall|i: int| 0 <= i < s.len() ==> !is_space(#[trigger] s[i])
    &&& exists|i: int| 0 <= i < s.len() && is_alnum(#[trigger] s[i])
}

/// Runtime test for [`valid_cmd_name`].
pub fn check_cmd_name(name: &str) -> (r: bool)
    ensures
        r == valid_cmd_name(name@),
{
    let len = name.unicode_len();
    if len >= 16 {
        return false;
    }
    let mut has_alnum = false;
    let mut i: usize = 0;
    while i < len
        invariant
            i <= len,
            len == name@.len(),
            len < 16,
            forall|k: int| 0 <= k < i ==> !is_space(#[trigger] name@[k]),
            has_alnum == exists|k: int| 0 <= k < i && is_alnum(#[trigger] name@[k]),
        decreases len - i,
    {
        let c = name.get_char(i);
        if crate::strings::space_char(c) {
            return false;
        }
        if crate::strings::alnum_char(c) {
            has_alnum = true;
            proof {
                assert(is_alnum(name@[i as int]));
            }
        }
        i = i + 1;
    }
    has_alnum
}

/// The first registry row bound to `name`; under [`unique_cmd_names`] it is
/// the only one.
pub open spec fn lookup_cmd(cmds: Seq<CmdEntry>, name: Seq<char>) -> Option<CmdEntry>
    decreases cmds.len(),
{
    if cmds.len() == 0 {
        None
    } else if cmds[0].name@ == name {
        Some(cmds[0])
    } else {
        lookup_cmd(cmds.drop_first(), name)
    }
}

/// The first plugin row bound to `name`.
pub open spec fn lookup_plugin(ps: Seq<Plugin>, name: Seq<char>) -> Option<Plugin>
    decreases ps.len(),
{
    if ps.len() == 0 {
        None
    } else if ps[0].info.name@ == name {
        Some(ps[0])
    } else {
        lookup_plugin(ps.drop_first(), name)
    }
}

/// No two registry rows share a command name.
pub open spec fn unique_cmd_names(cmds: Seq<CmdEntry>) -> bool {
    forall|i: int, j: int|
        0 <= i < j < cmds.len() ==> (#[trigger] cmds[i]).name@ != (#[trigger] cmds[j]).name@
}

/// No two plugin rows share a plugin name.
pub open spec fn unique_plugin_names(ps: Seq<Plugin>) -> bool {
    forall|i: int, j: int|
        0 <= i < j < ps.len() ==> (#[trigger] ps[i]).info.name@ != (#[trigger] ps[j]).info.name@
}

/// A lookup misses exactly when no row carries the name.
pub proof fn lemma_lookup_cmd_none(cmds: Seq<CmdEntry>, name: Seq<char>)
    ensures
        (lookup_cmd(cmds, name) is None) <==> (forall|i: int|
            0 <= i < cmds.len() ==> (#[trigger] cmds[i]).name@ != name),
    decreases cmds.len(),
{
    if cmds.len() > 0 {
        lemma_lookup_cmd_none(cmds.drop_first(), name);
        if lookup_cmd(cmds, name) is None {
            assert forall|i: int| 0 <= i < cmds.len() implies (#[trigger] cmds[i]).name@
                != name by {
                if i > 0 {
                    assert(cmds.drop_first()[i - 1] == cmds[i]);
                }
            }
        } else {
            if cmds[0].name@ != name {
                let j = choose|j: int|
                    0 <= j < cmds.drop_first().len() && (#[trigger] cmds.drop_first()[j]).name@
                        == name;
                assert(cmds[j + 1] == cmds.drop_first()[j]);
            }
        }
    }
}

/// Appending a row changes no earlier binding and binds a fresh name.
pub proof fn lemma_lookup_cmd_push(cmds: Seq<CmdEntry>, e: CmdEntry, name: Seq<char>)
    ensures
        lookup_cmd(cmds.push(e), name) == (if lookup_cmd(cmds, name) is Some {
            lookup_cmd(cmds, name)
        } else if e.name@ == name {
            Some(e)
        } else {
            None
        }),
    decreases cmds.len(),
{
    if cmds.len() == 0 {
        assert(cmds.push(e)[0] == e);
        assert(cmds.push(e).drop_first() =~= Seq::<CmdEntry>::empty());
    } else {
        assert(cmds.push(e)[0] == cmds[0]);
        assert(cmds.push(e).drop_first() =~= cmds.drop_first().push(e));
        lemma_lookup_cmd_push(cmds.drop_first(), e, name);
    }
}

/// Plugin-table analogue of [`lemma_lookup_cmd_none`].
pub proof fn lemma_lookup_plugin_none(ps: Seq<Plugin>, name: Seq<char>)
    ensures
        (lookup_plugin(ps, name) is None) <==> (forall|i: int|
            0 <= i < ps.len() ==> (#[trigger] ps[i]).info.name@ != name),
    decreases ps.len(),
{
    if ps.len() > 0 {
        lemma_lookup_plugin_none(ps.drop_first(), name);
        if lookup_plugin(ps, name) is None {
            assert forall|i: int| 0 <= i < ps.len() implies (#[trigger] ps[i]).info.name@
                != name by {
                if i > 0 {
                    assert(ps.drop_first()[i - 1] == ps[i]);
                }
            }
        } else {
            if ps[0].info.name@ != name {
                let j = choose|j: int|
                    0 <= j < ps.drop_first().len() && (#[trigger] ps.drop_first()[j]).info.name@
                        == name;
                assert(ps[j + 1] == ps.drop_first()[j]);
            }
        }
    }
}

/// Plugin-table analogue of [`lemma_lookup_cmd_push`].
pub proof fn lemma_lookup_plugin_push(ps: Seq<Plugin>, p: Plugin, name: Seq<char>)
    ensures
        lookup_plugin(ps.push(p), name) == (if lookup_plugin(ps, name) is Some {
            lookup_plugin(ps, name)
        } else if p.info.name@ == name {
            Some(p)
        } else {
            None
        }),
    decreases ps.len(),
{
    if ps.len() == 0 {
        assert(ps.push(p)[0] == p);
        assert(ps.push(p).drop_first() =~= Seq::<Plugin>::empty());
    } else {
        assert(ps.push(p)[0] == ps[0]);
        assert(ps.push(p).drop_first() =~= ps.drop_first().push(p));
        lemma_lookup_plugin_push(ps.drop_first(), p, name);
    }
}

impl ShellCtx {
    /// Is a command of this name registered?
    pub open spec fn has_cmd(self, name: Seq<char>) -> bool {
        lookup_cmd(self.cmds@, name) is Some
    }

    /// The registry row bound to a registered name.
    pub open spec fn cmd_named(self, name: Seq<char>) -> CmdEntry {
        lookup_cmd(self.cmds@, name)->Some_0
    }

    /// Is a plugin of this name loaded?
    pub open spec fn has_plugin(self, name: Seq<char>) -> bool {
        lookup_plugin(self.plugins@, name) is Some
    }

    /// A runner is admissible: a forward must point at a loaded plugin.
    pub open spec fn imp_ok(self, imp: CmdImpl) -> bool {
        match imp {
            CmdImpl::Native(_) => true,
            CmdImpl::Wasm { plugin, cmd } => self.has_plugin(plugin@),
        }
    }

    /// Well-formedness: the registry invariants of the execution context.
    pub open spec fn wf(self) -> bool {
        &&& unique_cmd_names(self.cmds@)
        &&& unique_plugin_names(self.plugins@)
        &&& forall|i: int|
            0 <= i < self.cmds@.len() ==> valid_cmd_name((#[trigger] self.cmds@[i]).name@)
        &&& forall|i: int|
            0 <= i < self.cmds@.len() ==> self.imp_ok((#[trigger] self.cmds@[i]).imp)
        &&& forall|i: int|
            0 <= i < self.plugins@.len() ==> (#[trigger] self.plugins@[i]).info.name@.len() > 0
        &&& match self.pending {
            Some(p) => self.has_plugin(p.plugin@),
            None => true,
        }
    }

    /// Index of the registry row bound to `name`, if any.
    pub(crate) fn find_cmd_idx(&self, name: &str) -> (r: Option<usize>)
        ensures
            match r {
                Some(i) => i < self.cmds@.len() && self.cmds@[i as int].name@ == name@
                    && lookup_cmd(self.cmds@, name@) == Some(self.cmds@[i as int]),
                None => lookup_cmd(self.cmds@, name@) is None,
            },
    {
        let n = self.cmds.len();
        let mut i: usize = 0;
        proof {
            assert(self.cmds@.skip(0) =~= self.cmds@);
        }
        while i < n
            invariant
                i <= n,
                n == self.cmds@.len(),
                lookup_cmd(self.cmds@, name@) == lookup_cmd(self.cmds@.skip(i as int), name@),
            decreases n - i,
        {
            proof {
                assert(self.cmds@.skip(i as int)[0] == self.cmds@[i as int]);
                assert(self.cmds@.skip(i as int).drop_first() =~= self.cmds@.skip(i as int + 1));
            }
            if crate::strings::str_eq(self.cmds[i].name.as_str(), name) {
                return Some(i);
            }
            i = i + 1;
        }
        None
    }

    /// Runtime test for [`ShellCtx::has_cmd`].
    pub fn contains_cmd(&self, name: &str) -> (r: bool)
        ensures
            r == self.has_cmd(name@),
    {
        self.find_cmd_idx(name).is_some()
    }

    /// Index of the plugin row bound to `name`, if any.
    pub(crate) fn find_plugin_idx(&self, name: &str) -> (r: Option<usize>)
        ensures
            match r {
                Some(i) => i < self.plugins@.len() && self.plugins@[i as int].info.name@ == name@
                    && lookup_plugin(self.plugins@, name@) == Some(self.plugins@[i as int]),
                None => lookup_plugin(self.plugins@, name@) is None,
            },
    {
        let n = self.plugins.len();
        let mut i: usize = 0;
        proof {
            assert(self.plugins@.skip(0) =~= self.plugins@);
        }
        while i < n
            invariant
                i <= n,
                n == self.plugins@.len(),
                lookup_plugin(self.plugins@, name@) == lookup_plugin(
                    self.plugins@.skip(i as int),
                    name@,
                ),
            decreases n - i,
        {
            proof {
                assert(self.plugins@.skip(i as int)[0] == self.plugins@[i as int]);
                assert(self.plugins@.skip(i as int).drop_first() =~= self.plugins@.skip(
                    i as int + 1,
                ));
            }
            if crate::strings::str_eq(self.plugins[i].info.name.as_str(), name) {
                return Some(i);
            }
            i = i + 1;
        }
        None
    }

    /// Runtime test for [`ShellCtx::has_plugin`].
    pub fn contains_plugin(&self, name: &str) -> (r: bool)
        ensures
            r == self.has_plugin(name@),
    {
        self.find_plugin_idx(name).is_some()
    }
}

/// The new registry is the old one plus one row holding exactly the
/// registered values.
pub open spec fn pushed_cmd(
    old_cmds: Seq<CmdEntry>,
    new_cmds: Seq<CmdEntry>,
    name: String,
    cmd: Cmd,
    imp: CmdImpl,
) -> bool {
    new_cmds == old_cmds.push(CmdEntry { name: name, cmd: cmd, imp: imp })
}

impl Shell {
    /// A fresh shell: running, no plugins, nothing pending, and exactly the
    /// four built-in commands registered.
    pub fn new() -> (r: Shell)
        ensures
            r.ctx.wf(),
            r.ctx.running,
            r.ctx.plugins@.len() == 0,
            r.ctx.pending is None,
            r.ctx.last_id == PluginId(0),
            r.ctx.cmds@.len() == 4,
            r.ctx.cmds@[0].name@ == "quit"@,
            r.ctx.cmds@[0].imp == CmdImpl::Native(NativeCmd::Quit),
            r.ctx.cmds@[0].cmd.usage@ == "quit"@,
            r.ctx.cmds@[0].cmd.description@ == "Quit the app"@,
            r.ctx.cmds@[1].name@ == "load"@,
            r.ctx.cmds@[1].imp == CmdImpl::Native(NativeCmd::Load),
            r.ctx.cmds@[1].cmd.usage@ == "load <wasm file>"@,
            r.ctx.cmds@[1].cmd.description@
                == "Load, and initialize the plugin from the given file path"@,
            r.ctx.cmds@[2].name@ == "help"@,
            r.ctx.cmds@[2].imp == CmdImpl::Native(NativeCmd::Help),
            r.ctx.cmds@[2].cmd.usage@ == "help"@,
            r.ctx.cmds@[2].cmd.description@ == "Show all commands"@,
            r.ctx.cmds@[3].name@ == "list-plugins"@,
            r.ctx.cmds@[3].imp == CmdImpl::Native(NativeCmd::ListPlugins),
            r.ctx.cmds@[3].cmd.usage@ == "list-plugins"@,
            r.ctx.cmds@[3].cmd.description@ == "List all plugins loaded"@,
    {
        proof {
            reveal_strlit("quit");
            reveal_strlit("load");
            reveal_strlit("help");
            reveal_strlit("list-plugins");
            assert(valid_cmd_name("quit"@)) by {
                assert(is_alnum("quit"@[0]));
            }
            assert(valid_cmd_name("load"@)) by {
                assert(is_alnum("load"@[0]));
            }
            assert(valid_cmd_name("help"@)) by {
                assert(is_alnum("help"@[0]));
            }
            assert(valid_cmd_name("list-plugins"@)) by {
                assert(is_alnum("list-plugins"@[0]));
            }
            assert("quit"@[0] == 'q' && "load"@[0] == 'l' && "help"@[0] == 'h');
            assert("list-plugins"@.len() == 12);
        }
        let mut shell = Shell {
            ctx: ShellCtx {
                cmds: Vec::new(),
                running: true,
                last_id: PluginId(0),
                plugins: Vec::new(),
                pending: None,
            },
        };
        let _r0 = shell.register_cmd(
            "quit".to_owned(),
            Cmd { usage: "quit".to_owned(), description: "Quit the app".to_owned() },
            CmdImpl::Native(NativeCmd::Quit),
        );
        proof {
            assert(_r0 is Ok);
            assert(shell.ctx.cmds@[0].name@ == "quit"@);
            lemma_lookup_cmd_none(shell.ctx.cmds@, "load"@);
            assert(!shell.ctx.has_cmd("load"@));
        }
        let _r1 = shell.register_cmd(
            "load".to_owned(),
            Cmd {
                usage: "load <wasm file>".to_owned(),
                description: "Load, and initialize the plugin from the given file path".to_owned(),
            },
            CmdImpl::Native(NativeCmd::Load),
        );
        proof {
            assert(_r1 is Ok);
            assert(shell.ctx.cmds@[0].name@ == "quit"@);
            assert(shell.ctx.cmds@[1].name@ == "load"@);
            lemma_lookup_cmd_none(shell.ctx.cmds@, "help"@);
            assert(!shell.ctx.has_cmd("help"@));
        }
        let _r2 = shell.register_cmd(
            "help".to_owned(),
            Cmd { usage: "help".to_owned(), description: "Show all commands".to_owned() },
            CmdImpl::Native(NativeCmd::Help),
        );
        proof {
            assert(_r2 is Ok);
            assert(shell.ctx.cmds@[0].name@ == "quit"@);
            assert(shell.ctx.cmds@[1].name@ == "load"@);
            assert(shell.ctx.cmds@[2].name@ == "help"@);
            lemma_lookup_cmd_none(shell.ctx.cmds@, "list-plugins"@);
            assert(!shell.ctx.has_cmd("list-plugins"@));
        }
        let _r3 = shell.register_cmd(
            "list-plugins".to_owned(),
            Cmd {
                usage: "list-plugins".to_owned(),
                description: "List all plugins loaded".to_owned(),
            },
            CmdImpl::Native(NativeCmd::ListPlugins),
        );
        proof {
            assert(_r3 is Ok);
        }
        shell
    }

    /// The descriptor registered under `name`, if any.
    pub fn get_cmd(&self, name: &str) -> (r: Option<&Cmd>)
        ensures
            match r {
                Some(c) => self.ctx.has_cmd(name@) && *c == self.ctx.cmd_named(name@).cmd,
                None => !self.ctx.has_cmd(name@),
            },
    {
        match self.ctx.find_cmd_idx(name) {
            Some(i) => Some(&self.ctx.cmds[i].cmd),
            None => None,
        }
    }

    /// Is the shell still in its `Running` state?
    pub fn is_running(&self) -> (r: bool)
        ensures
            r == self.ctx.running,
    {
        self.ctx.running
    }

    /// Is a batch of declared commands still waiting to be drained?
    pub fn has_pending(&self) -> (r: bool)
        ensures
            r == (self.ctx.pending is Some),
    {
        self.ctx.pending.is_some()
    }

    /// Binds `name` to a descriptor and a runner. First writer wins: a name
    /// already bound is refused and the registry is left untouched, as it
    /// is for a name violating the naming policy.
    pub fn register_cmd(&mut self, name: String, cmd: Cmd, imp: CmdImpl) -> (r: Result<
        (),
        RegisterError,
    >)
        requires
            old(self).ctx.wf(),
            old(self).ctx.imp_ok(imp),
        ensures
            final(self).ctx.wf(),
            (r matches Ok(())) <==> (valid_cmd_name(name@) && !old(self).ctx.has_cmd(name@)),
            r matches Ok(()) ==> pushed_cmd(old(self).ctx.cmds@, final(self).ctx.cmds@, name, cmd, imp),
            (r == Err::<(), RegisterError>(RegisterError::InvalidName)) <==> !valid_cmd_name(name@),
            (r == Err::<(), RegisterError>(RegisterError::DuplicateName)) <==> (valid_cmd_name(
                name@,
            ) && old(self).ctx.has_cmd(name@)),
            r matches Err(_) ==> final(self).ctx == old(self).ctx,
            final(self).ctx.running == old(self).ctx.running,
            final(self).ctx.plugins == old(self).ctx.plugins,
            final(self).ctx.pending == old(self).ctx.pending,
            final(self).ctx.last_id == old(self).ctx.last_id,
    {
        if !check_cmd_name(name.as_str()) {
            return Err(RegisterError::InvalidName);
        }
        if self.ctx.find_cmd_idx(name.as_str()).is_some() {
            return Err(RegisterError::DuplicateName);
        }
        proof {
            lemma_lookup_cmd_none(self.ctx.cmds@, name@);
        }
        let ghost pre = self.ctx;
        let entry = CmdEntry { name: name, cmd: cmd, imp: imp };
        self.ctx.cmds.push(entry);
        proof {
            let cs = self.ctx.cmds@;
            assert(forall|i: int| 0 <= i < pre.cmds@.len() ==> #[trigger] cs[i] == pre.cmds@[i]);
            assert(cs[cs.len() - 1] == entry);
            assert(unique_cmd_names(cs));
            assert(forall|i: int|
                0 <= i < cs.len() ==> valid_cmd_name((#[trigger] cs[i]).name@));
            assert(forall|i: int| 0 <= i < cs.len() ==> self.ctx.imp_ok((#[trigger] cs[i]).imp)) by {
                assert(self.ctx.plugins == pre.plugins);
                assert(forall|i: int|
                    0 <= i < pre.cmds@.len() ==> pre.imp_ok((#[trigger] pre.cmds@[i]).imp));
            }
        }
        Ok(())
    }
}

/// A plugin that can be looked up stays visible when another row is added.
pub proof fn lemma_has_plugin_push_mono(ps: Seq<Plugin>, p: Plugin, name: Seq<char>)
    requires
        lookup_plugin(ps, name) is Some,
    ensures
        lookup_plugin(ps.push(p), name) is Some,
{
    lemma_lookup_plugin_push(ps, p, name);
}

/// The registry row a drained declaration becomes: the declared descriptor
/// under the declared name, forwarding to the owning plugin.
pub open spec fn decl_entry(plugin: String, d: CommandDecl) -> CmdEntry {
    CmdEntry {
        name: d.name,
        cmd: Cmd { usage: d.usage, description: d.description },
        imp: CmdImpl::Wasm { plugin: plugin, cmd: d.name },
    }
}

/// One drain step: the declaration is inserted when its name passes the
/// policy and is still free; otherwise the registry is unchanged.
pub open spec fn commit_step(cmds: Seq<CmdEntry>, plugin: String, d: CommandDecl) -> Seq<
    CmdEntry,
> {
    if valid_cmd_name(d.name@) && lookup_cmd(cmds, d.name@) is None {
        cmds.push(decl_entry(plugin, d))
    } else {
        cmds
    }
}

/// Draining a whole batch of declarations, first to last.
pub open spec fn commit_decls(
    cmds: Seq<CmdEntry>,
    plugin: String,
    decls: Seq<CommandDecl>,
) -> Seq<CmdEntry>
    decreases decls.len(),
{
    if decls.len() == 0 {
        cmds
    } else {
        commit_decls(commit_step(cmds, plugin, decls[0]), plugin, decls.drop_first())
    }
}

/// The declarations a drain turns away, in order, each with its reason.
pub open spec fn rejected_decls(
    cmds: Seq<CmdEntry>,
    plugin: String,
    decls: Seq<CommandDecl>,
) -> Seq<(CommandDecl, RegisterError)>
    decreases decls.len(),
{
    if decls.len() == 0 {
        Seq::empty()
    } else {
        let rest = rejected_decls(commit_step(cmds, plugin, decls[0]), plugin, decls.drop_first());
        if !valid_cmd_name(decls[0].name@) {
            seq![(decls[0], RegisterError::InvalidName)] + rest
        } else if lookup_cmd(cmds, decls[0].name@) is Some {
            seq![(decls[0], RegisterError::DuplicateName)] + rest
        } else {
            rest
        }
    }
}

impl Shell {
    /// Completes a load whose sandbox instantiation and `init` call both
    /// succeeded: registers the plugin under the name its metadata carries
    /// and stages its declared commands for the next drain. A load that
    /// failed earlier never reaches this point, so it leaves both
    /// registries exactly as they were.
    pub fn load_plugin(&mut self, info: PluginInfo) -> (r: Result<PluginId, LoadReject>)
        requires
            old(self).ctx.wf(),
            old(self).ctx.pending is None,
        ensures
            final(self).ctx.wf(),
            (r matches Ok(_)) <==> (info.name@.len() > 0 && !old(self).ctx.has_plugin(
                info.name@,
            )),
            (r == Err::<PluginId, LoadReject>(LoadReject::EmptyName)) <==> info.name@.len() == 0,
            (r == Err::<PluginId, LoadReject>(LoadReject::DuplicateName)) <==> (info.name@.len()
                > 0 && old(self).ctx.has_plugin(info.name@)),
            r matches Err(_) ==> final(self).ctx == old(self).ctx,
            r matches Ok(id) ==> {
                &&& id.0 == (if old(self).ctx.last_id.0 == u32::MAX {
                    0u32
                } else {
                    (old(self).ctx.last_id.0 + 1) as u32
                })
                &&& final(self).ctx.last_id == id
                &&& final(self).ctx.plugins@ == old(self).ctx.plugins@.push(
                    Plugin { id: id, info: info },
                )
                &&& final(self).ctx.cmds == old(self).ctx.cmds
                &&& final(self).ctx.running == old(self).ctx.running
                &&& final(self).ctx.pending matches Some(p) && p.plugin@ == info.name@
                    && p.commands@ == info.commands@
            },
    {
        if info.name.as_str().is_empty() {
            return Err(LoadReject::EmptyName);
        }
        if self.ctx.contains_plugin(info.name.as_str()) {
            return Err(LoadReject::DuplicateName);
        }
        proof {
            lemma_lookup_plugin_none(self.ctx.plugins@, info.name@);
        }
        let id = PluginId(
            if self.ctx.last_id.0 == u32::MAX {
                0
            } else {
                self.ctx.last_id.0 + 1
            },
        );
        let pending = PendingCmds {
            plugin: info.name.clone(),
            commands: crate::host::clone_decls(&info.commands),
        };
        let ghost pre = self.ctx;
        let ghost row = Plugin { id: id, info: info };
        self.ctx.plugins.push(Plugin { id: id, info: info });
        self.ctx.pending = Some(pending);
        self.ctx.last_id = id;
        proof {
            let ps = self.ctx.plugins@;
            assert(forall|i: int|
                0 <= i < pre.plugins@.len() ==> #[trigger] ps[i] == pre.plugins@[i]);
            assert(ps[ps.len() - 1] == row);
            assert(unique_plugin_names(ps));
            lemma_lookup_plugin_push(pre.plugins@, row, row.info.name@);
            assert(self.ctx.has_plugin(row.info.name@));
            assert forall|i: int|
                0 <= i < self.ctx.cmds@.len() implies self.ctx.imp_ok(
                (#[trigger] self.ctx.cmds@[i]).imp,
            ) by {
                assert(pre.imp_ok(pre.cmds@[i].imp));
                if let CmdImpl::Wasm { plugin, cmd } = self.ctx.cmds@[i].imp {
                    lemma_has_plugin_push_mono(pre.plugins@, row, plugin@);
                }
            }
        }
        Ok(id)
    }

    /// Drains the pending-commands slot: every declaration of the
    /// just-loaded plugin is inserted as a forward entry, except those whose
    /// name fails the policy or is already taken — those are returned, in
    /// order, with their reasons, and the earlier binding stays.
    pub fn commit_pending(&mut self) -> (r: Vec<(CommandDecl, RegisterError)>)
        requires
            old(self).ctx.wf(),
        ensures
            final(self).ctx.wf(),
            final(self).ctx.pending is None,
            final(self).ctx.plugins == old(self).ctx.plugins,
            final(self).ctx.running == old(self).ctx.running,
            final(self).ctx.last_id == old(self).ctx.last_id,
            match old(self).ctx.pending {
                None => final(self).ctx.cmds == old(self).ctx.cmds && r@.len() == 0,
                Some(p) => final(self).ctx.cmds@ == commit_decls(
                    old(self).ctx.cmds@,
                    p.plugin,
                    p.commands@,
                ) && r@ == rejected_decls(old(self).ctx.cmds@, p.plugin, p.commands@),
            },
    {
        let pending = self.ctx.pending.take();
        match pending {
            None => Vec::new(),
            Some(p) => {
                let mut rejects: Vec<(CommandDecl, RegisterError)> = Vec::new();
                let n = p.commands.len();
                let mut i: usize = 0;
                proof {
                    assert(p.commands@.skip(0) =~= p.commands@);
                    assert(rejects@ + rejected_decls(
                        self.ctx.cmds@,
                        p.plugin,
                        p.commands@,
                    ) =~= rejected_decls(self.ctx.cmds@, p.plugin, p.commands@));
                }
                while i < n
                    invariant
                        i <= n,
                        n == p.commands@.len(),
                        self.ctx.wf(),
                        self.ctx.plugins == old(self).ctx.plugins,
                        self.ctx.running == old(self).ctx.running,
                        self.ctx.last_id == old(self).ctx.last_id,
                        self.ctx.pending is None,
                        self.ctx.has_plugin(p.plugin@),
                        commit_decls(old(self).ctx.cmds@, p.plugin, p.commands@) == commit_decls(
                            self.ctx.cmds@,
                            p.plugin,
                            p.commands@.skip(i as int),
                        ),
                        rejected_decls(old(self).ctx.cmds@, p.plugin, p.commands@) == rejects@
                            + rejected_decls(
                            self.ctx.cmds@,
                            p.plugin,
                            p.commands@.skip(i as int),
                        ),
                    decreases n - i,
                {
                    let ghost cur = self.ctx.cmds@;
                    let ghost dv = p.commands@[i as int];
                    proof {
                        assert(p.commands@.skip(i as int)[0] == dv);
                        assert(p.commands@.skip(i as int).drop_first() =~= p.commands@.skip(
                            i as int + 1,
                        ));
                    }
                    let d = &p.commands[i];
                    let entry_cmd = Cmd {
                        usage: d.usage.clone(),
                        description: d.description.clone(),
                    };
                    let imp = CmdImpl::Wasm { plugin: p.plugin.clone(), cmd: d.name.clone() };
                    let res = self.register_cmd(d.name.clone(), entry_cmd, imp);
                    match res {
                        Ok(()) => {
                            proof {
                                assert(self.ctx.cmds@ == commit_step(cur, p.plugin, dv));
                            }
                        },
                        Err(e) => {
                            rejects.push((d.clone(), e));
                            proof {
                                assert(self.ctx.cmds@ == commit_step(cur, p.plugin, dv));
                                let rest = rejected_decls(
                                    self.ctx.cmds@,
                                    p.plugin,
                                    p.commands@.skip(i as int + 1),
                                );
                                assert(rejected_decls(cur, p.plugin, p.commands@.skip(i as int))
                                    == seq![(dv, e)] + rest);
                                assert(rejects@ + rest =~= rejects@.drop_last() + (seq![(dv, e)]
                                    + rest));
                            }
                        },
                    }
                    i = i + 1;
                }
                proof {
                    assert(p.commands@.skip(n as int) =~= Seq::<CommandDecl>::empty());
                    assert(rejects@ + Seq::<(CommandDecl, RegisterError)>::empty() =~= rejects@);
                }
                rejects
            },
        }
    }
}

/// A freshly declared, validly named command is bound by the drain step
/// that inserts it: from then on it resolves to its declared descriptor,
/// forwarding to its owning plugin.
pub proof fn lemma_commit_step_registers(cmds: Seq<CmdEntry>, plugin: String, d: CommandDecl)
    requires
        valid_cmd_name(d.name@),
        lookup_cmd(cmds, d.name@) is None,
    ensures
        lookup_cmd(commit_step(cmds, plugin, d), d.name@) == Some(decl_entry(plugin, d)),
{
    lemma_lookup_cmd_push(cmds, decl_entry(plugin, d), d.name@);
}

/// First writer wins, across a whole drain: a name already bound in the
/// registry keeps exactly its binding through any batch of declared
/// commands; a later declaration of the same name is rejected, never an
/// overwrite.
pub proof fn lemma_commit_first_writer_wins(
    cmds: Seq<CmdEntry>,
    plugin: String,
    decls: Seq<CommandDecl>,
    name: Seq<char>,
)
    requires
        lookup_cmd(cmds, name) is Some,
    ensures
        lookup_cmd(commit_decls(cmds, plugin, decls), name) == lookup_cmd(cmds, name),
    decreases decls.len(),
{
    if decls.len() > 0 {
        let next = commit_step(cmds, plugin, decls[0]);
        if valid_cmd_name(decls[0].name@) && lookup_cmd(cmds, decls[0].name@) is None {
            lemma_lookup_cmd_push(cmds, decl_entry(plugin, decls[0]), name);
        }
        lemma_commit_first_writer_wins(next, plugin, decls.drop_first(), name);
    }
}

/// No two rows of a well-formed registry share a name (the uniqueness
/// invariant, stated on its own).
pub proof fn lemma_cmd_names_unique(ctx: ShellCtx, i: int, j: int)
    requires
        ctx.wf(),
        0 <= i < ctx.cmds@.len(),
        0 <= j < ctx.cmds@.len(),
        i != j,
    ensures
        ctx.cmds@[i].name@ != ctx.cmds@[j].name@,
{
}

} // verus!
