//! The dispatcher: resolving an input line to a runner and executing it.
//!
//! Per line: tokenize; an empty token sequence is a silent no-op; look the
//! first token up in the command registry; a miss is reported and changes
//! nothing; a built-in runs here; a forward is handed back to the caller as
//! an [`Outcome::Forward`], to be carried across the sandbox boundary. The
//! only transition of the shell's state machine is `Running -> Stopped`,
//! taken exactly when the `quit` built-in runs.

use vstd::prelude::*;
use vstd::seq_lib::lemma_multiset_commutative;
use crate::shell::{lookup_cmd, Cmd, CmdEntry, CmdImpl, NativeCmd, Plugin, Shell, ShellCtx};
use crate::strings::{lemma_lex_le_total, lemma_lex_le_trans, lex_le, str_le};
use crate::tokens::tokens_of;

verus! {

/// What the dispatcher hands back to its caller for one input line.
/// Rendering text and driving the sandbox are the caller's side of the
/// split: the variants carry the data those need.
#[derive(PartialEq, Eq, Debug)]
pub enum Outcome {
    /// No tokens: a silent no-op.
    Empty,
    /// The first token names no registered command; state unchanged.
    Unknown,
    /// `quit` ran: the shell is now stopped.
    Quit,
    /// `help` ran: every command's descriptor, sorted ascending by usage.
    Help { cmds: Vec<Cmd> },
    /// `list-plugins` ran: the plugin rows, in load order.
    Plugins { plugins: Vec<Plugin> },
    /// `load` ran without a path argument; state unchanged.
    MissingPath,
    /// `load` ran: the caller is to load the file at `path` and hand the
    /// result back to [`Shell::load_plugin`].
    Load { path: String },
    /// A plugin command: the caller is to invoke `run_command(cmd, args)`
    /// on the named plugin's instance.
    Forward { plugin: String, cmd: String, args: Vec<String> },
}

/// The descriptors of all registered commands, in registration order.
pub open spec fn cmd_descs(cmds: Seq<CmdEntry>) -> Seq<Cmd> {
    cmds.map_values(|e: CmdEntry| e.cmd)
}

/// Ascending by usage string.
pub open spec fn sorted_cmds(s: Seq<Cmd>) -> bool {
    forall|i: int, j: int|
        0 <= i < j < s.len() ==> lex_le((#[trigger] s[i]).usage@, (#[trigger] s[j]).usage@)
}

/// Inserting anywhere adds exactly one occurrence to the multiset.
proof fn lemma_insert_to_multiset<A>(s: Seq<A>, k: int, x: A)
    requires
        0 <= k <= s.len(),
    ensures
        s.insert(k, x).to_multiset() == s.to_multiset().insert(x),
{
    broadcast use vstd::seq_lib::group_to_multiset_ensures;

    assert(s.insert(k, x) =~= s.take(k).push(x) + s.skip(k));
    assert(s =~= s.take(k) + s.skip(k));
    lemma_multiset_commutative(s.take(k).push(x), s.skip(k));
    lemma_multiset_commutative(s.take(k), s.skip(k));
    assert(s.insert(k, x).to_multiset() =~= s.to_multiset().insert(x));
}

impl Cmd {
    /// The `help` listing: every registered command's descriptor — built-in
    /// and plugin-declared alike — sorted ascending by usage string.
    pub fn help_exec(ctx: &ShellCtx) -> (r: Vec<Cmd>)
        ensures
            sorted_cmds(r@),
            r@.to_multiset() == cmd_descs(ctx.cmds@).to_multiset(),
    {
        broadcast use vstd::seq_lib::group_to_multiset_ensures;

        let mut out: Vec<Cmd> = Vec::new();
        let n = ctx.cmds.len();
        let mut i: usize = 0;
        proof {
            assert(cmd_descs(ctx.cmds@.take(0)) =~= Seq::<Cmd>::empty());
            assert(out@.to_multiset() =~= cmd_descs(ctx.cmds@.take(0)).to_multiset());
        }
        while i < n
            invariant
                i <= n,
                n == ctx.cmds@.len(),
                sorted_cmds(out@),
                out@.to_multiset() == cmd_descs(ctx.cmds@.take(i as int)).to_multiset(),
            decreases n - i,
        {
            let x = ctx.cmds[i].cmd.clone();
            let mut k: usize = 0;
            while k < out.len() && str_le(out[k].usage.as_str(), x.usage.as_str())
                invariant
                    k <= out@.len(),
                    forall|m: int| 0 <= m < k ==> lex_le((#[trigger] out@[m]).usage@, x.usage@),
                decreases out@.len() - k,
            {
                k = k + 1;
            }
            proof {
                assert forall|m: int| k <= m < out@.len() implies lex_le(
                    x.usage@,
                    (#[trigger] out@[m]).usage@,
                ) by {
                    lemma_lex_le_total(out@[k as int].usage@, x.usage@);
                    if m > k {
                        lemma_lex_le_trans(x.usage@, out@[k as int].usage@, out@[m].usage@);
                    }
                }
            }
            let ghost pre = out@;
            out.insert(k, x);
            proof {
                pre.insert_ensures(k as int, x);
                assert(sorted_cmds(out@)) by {
                    assert forall|a: int, b: int| 0 <= a < b < out@.len() implies lex_le(
                        (#[trigger] out@[a]).usage@,
                        (#[trigger] out@[b]).usage@,
                    ) by {
                        if b < k {
                        } else if a < k && b == k {
                        } else if a < k && b > k {
                            assert(out@[b] == pre[b - 1]);
                        } else if a == k {
                            assert(out@[b] == pre[b - 1]);
                        } else {
                            assert(out@[a] == pre[a - 1]);
                            assert(out@[b] == pre[b - 1]);
                        }
                    }
                }
                lemma_insert_to_multiset(pre, k as int, x);
                assert(cmd_descs(ctx.cmds@.take(i as int + 1)) =~= cmd_descs(
                    ctx.cmds@.take(i as int),
                ).push(ctx.cmds@[i as int].cmd));
                vstd::seq_lib::to_multiset_build::<Cmd>(
                    cmd_descs(ctx.cmds@.take(i as int)),
                    ctx.cmds@[i as int].cmd,
                );
            }
            i = i + 1;
        }
        proof {
            assert(ctx.cmds@.take(n as int) =~= ctx.cmds@);
        }
        out
    }

    /// The `list-plugins` listing: one row per loaded plugin, in load
    /// order; empty exactly when no plugin is loaded.
    pub fn plugins_exec(ctx: &ShellCtx) -> (r: Vec<Plugin>)
        ensures
            r@.len() == ctx.plugins@.len(),
            forall|i: int|
                0 <= i < r@.len() ==> crate::shell::plugin_matches(
                    #[trigger] r@[i],
                    ctx.plugins@[i],
                ),
    {
        let mut out: Vec<Plugin> = Vec::new();
        let n = ctx.plugins.len();
        let mut i: usize = 0;
        while i < n
            invariant
                i <= n,
                n == ctx.plugins@.len(),
                out@.len() == i,
                forall|m: int|
                    0 <= m < i ==> crate::shell::plugin_matches(
                        #[trigger] out@[m],
                        ctx.plugins@[m],
                    ),
            decreases n - i,
        {
            out.push(ctx.plugins[i].clone());
            i = i + 1;
        }
        out
    }

    /// The `load` built-in's argument handling: the path is the first
    /// argument after the command name; without one the load is refused.
    pub fn load_exec(args: &Vec<String>) -> (r: Option<String>)
        ensures
            match r {
                Some(p) => args@.len() > 0 && p@ == args@[0]@,
                None => args@.len() == 0,
            },
    {
        if args.len() == 0 {
            None
        } else {
            Some(args[0].clone())
        }
    }
}

/// The dispatcher's contract, shared by [`Shell::dispatch_tokens`] and
/// [`Shell::dispatch_line`]: `t` are the line's tokens, `pre` and `post`
/// the execution context around the step, `r` the outcome. Dispatch never
/// edits the registries or the pending slot, and clears the running flag
/// exactly when the resolved runner is the `quit` built-in.
pub open spec fn dispatch_post(pre: ShellCtx, post: ShellCtx, t: Seq<Seq<char>>, r: Outcome) -> bool {
    &&& post.cmds == pre.cmds
    &&& post.plugins == pre.plugins
    &&& post.pending == pre.pending
    &&& post.last_id == pre.last_id
    &&& if t.len() == 0 {
        r is Empty && post.running == pre.running
    } else {
        match lookup_cmd(pre.cmds@, t[0]) {
            None => r is Unknown && post.running == pre.running,
            Some(e) => match e.imp {
                CmdImpl::Native(NativeCmd::Quit) => r is Quit && post.running == false,
                CmdImpl::Native(NativeCmd::Help) => post.running == pre.running && (r matches
                    Outcome::Help { cmds } && sorted_cmds(cmds@) && cmds@.to_multiset()
                    == cmd_descs(pre.cmds@).to_multiset()),
                CmdImpl::Native(NativeCmd::ListPlugins) => post.running == pre.running && (r matches
                    Outcome::Plugins { plugins } && plugins@.len() == pre.plugins@.len() && forall|
                        i: int,
                    |
                        0 <= i < plugins@.len() ==> crate::shell::plugin_matches(
                            #[trigger] plugins@[i],
                            pre.plugins@[i],
                        )),
                CmdImpl::Native(NativeCmd::Load) => post.running == pre.running && (if t.len() < 2 {
                    r is MissingPath
                } else {
                    r matches Outcome::Load { path } && path@ == t[1]
                }),
                CmdImpl::Wasm { plugin, cmd } => post.running == pre.running && (r matches
                    Outcome::Forward { plugin: fp, cmd: fc, args } && fp@ == plugin@ && fc@ == t[0]
                    && args.deep_view() == t.skip(1)),
            },
        }
    }
}

impl Shell {
    /// One dispatch step on an already-tokenized line.
    pub fn dispatch_tokens(&mut self, tokens: &Vec<String>) -> (r: Outcome)
        requires
            old(self).ctx.wf(),
        ensures
            final(self).ctx.wf(),
            dispatch_post(old(self).ctx, final(self).ctx, tokens.deep_view(), r),
    {
        if tokens.len() == 0 {
            return Outcome::Empty;
        }
        let name: &str = tokens[0].as_str();
        proof {
            assert(tokens.deep_view()[0] == tokens@[0]@);
        }
        let idx = match self.ctx.find_cmd_idx(name) {
            None => {
                return Outcome::Unknown;
            },
            Some(i) => i,
        };
        let imp = self.ctx.cmds[idx].imp.clone();
        match imp {
            CmdImpl::Native(NativeCmd::Quit) => {
                self.ctx.running = false;
                Outcome::Quit
            },
            CmdImpl::Native(NativeCmd::Help) => Outcome::Help { cmds: Cmd::help_exec(&self.ctx) },
            CmdImpl::Native(NativeCmd::ListPlugins) => Outcome::Plugins {
                plugins: Cmd::plugins_exec(&self.ctx),
            },
            CmdImpl::Native(NativeCmd::Load) => {
                if tokens.len() < 2 {
                    Outcome::MissingPath
                } else {
                    proof {
                        assert(tokens.deep_view()[1] == tokens@[1]@);
                    }
                    Outcome::Load { path: tokens[1].clone() }
                }
            },
            CmdImpl::Wasm { plugin, cmd: _ } => {
                let mut args: Vec<String> = Vec::new();
                let mut j: usize = 1;
                while j < tokens.len()
                    invariant
                        1 <= j <= tokens@.len(),
                        args@.len() == j - 1,
                        forall|m: int| 0 <= m < j - 1 ==> (#[trigger] args@[m])@ == tokens@[m + 1]@,
                    decreases tokens@.len() - j,
                {
                    args.push(tokens[j].clone());
                    j = j + 1;
                }
                proof {
                    assert(args.deep_view() =~= tokens.deep_view().skip(1));
                }
                Outcome::Forward { plugin: plugin, cmd: tokens[0].clone(), args: args }
            },
        }
    }

    /// One dispatch step on a raw input line.
    pub fn dispatch_line(&mut self, line: &str) -> (r: Outcome)
        requires
            old(self).ctx.wf(),
        ensures
            final(self).ctx.wf(),
            dispatch_post(old(self).ctx, final(self).ctx, tokens_of(line@), r),
    {
        let toks = crate::tokens::parse_cmd(line);
        let mut owned: Vec<String> = Vec::new();
        let mut i: usize = 0;
        while i < toks.len()
            invariant
                i <= toks@.len(),
                owned@.len() == i,
                forall|m: int| 0 <= m < i ==> (#[trigger] owned@[m])@ == toks@[m]@,
            decreases toks@.len() - i,
        {
            owned.push(toks[i].to_owned());
            i = i + 1;
        }
        proof {
            assert(owned.deep_view() =~= toks.deep_view());
        }
        self.dispatch_tokens(&owned)
    }
}

} // verus!
