use plugin_app::dispatch::Outcome;
use plugin_app::host::{CommandDecl, PluginInfo};
use plugin_app::shell::{check_cmd_name, Cmd, CmdImpl, LoadReject, NativeCmd, RegisterError, Shell};
use plugin_app::tokens::parse_cmd;

fn cmd(usage: &str, description: &str) -> Cmd {
    Cmd { usage: usage.to_owned(), description: description.to_owned() }
}

fn decl(name: &str, usage: &str, description: &str) -> CommandDecl {
    CommandDecl {
        name: name.to_owned(),
        usage: usage.to_owned(),
        description: description.to_owned(),
    }
}

fn info(name: &str, commands: Vec<CommandDecl>) -> PluginInfo {
    PluginInfo {
        name: name.to_owned(),
        description: format!("plugin {name}"),
        version: "1.0.0".to_owned(),
        commands,
    }
}

#[test]
fn tokenize_empty_and_blank_lines() {
    assert_eq!(parse_cmd(""), Vec::<&str>::new());
    assert_eq!(parse_cmd(" \t \r\n"), Vec::<&str>::new());
}

#[test]
fn tokenize_splits_on_whitespace_runs() {
    assert_eq!(parse_cmd("  hello   world "), vec!["hello", "world"]);
    assert_eq!(parse_cmd("\tload a.wasm\n"), vec!["load", "a.wasm"]);
    assert_eq!(parse_cmd("quit"), vec!["quit"]);
}

#[test]
fn name_policy_accepts_and_rejects() {
    assert!(check_cmd_name("quit"));
    assert!(check_cmd_name("list-plugins"));
    assert!(check_cmd_name("abcdefghijklmno")); // 15 characters
    assert!(check_cmd_name("-x")); // contains an alphanumeric
    assert!(!check_cmd_name("abcdefghijklmnop")); // 16 characters
    assert!(!check_cmd_name("a b")); // contains whitespace
    assert!(!check_cmd_name("--")); // no alphanumeric at all
    assert!(!check_cmd_name(""));
}

#[test]
fn new_shell_has_the_builtins() {
    let shell = Shell::new();
    assert!(shell.is_running());
    assert!(!shell.has_pending());
    assert_eq!(shell.get_cmd("quit").unwrap().usage, "quit");
    assert_eq!(shell.get_cmd("help").unwrap().usage, "help");
    assert_eq!(shell.get_cmd("list-plugins").unwrap().usage, "list-plugins");
    assert_eq!(shell.get_cmd("load").unwrap().usage, "load <wasm file>");
    assert!(shell.get_cmd("nope").is_none());
}

#[test]
fn duplicate_registration_is_rejected_and_original_kept() {
    let mut shell = Shell::new();
    let r = shell.register_cmd(
        "quit".to_owned(),
        cmd("quit again", "an impostor"),
        CmdImpl::Native(NativeCmd::Help),
    );
    assert_eq!(r, Err(RegisterError::DuplicateName));
    let kept = shell.get_cmd("quit").unwrap();
    assert_eq!(kept.usage, "quit");
    assert_eq!(kept.description, "Quit the app");
}

#[test]
fn invalid_name_registration_is_rejected() {
    let mut shell = Shell::new();
    let r = shell.register_cmd(
        "bad name".to_owned(),
        cmd("bad name", "has a space"),
        CmdImpl::Native(NativeCmd::Help),
    );
    assert_eq!(r, Err(RegisterError::InvalidName));
    assert!(shell.get_cmd("bad name").is_none());
}

#[test]
fn help_output_is_sorted_by_usage() {
    let mut shell = Shell::new();
    match shell.dispatch_line("help") {
        Outcome::Help { cmds } => {
            let usages: Vec<&str> = cmds.iter().map(|c| c.usage.as_str()).collect();
            assert_eq!(usages, vec!["help", "list-plugins", "load <wasm file>", "quit"]);
        }
        other => panic!("expected Help, got {other:?}"),
    }
}

#[test]
fn quit_stops_the_shell() {
    let mut shell = Shell::new();
    assert!(shell.is_running());
    let out = shell.dispatch_line("quit");
    assert_eq!(out, Outcome::Quit);
    assert!(!shell.is_running());
}

#[test]
fn unknown_command_is_reported_and_changes_nothing() {
    let mut shell = Shell::new();
    assert_eq!(shell.dispatch_line("nope"), Outcome::Unknown);
    assert!(shell.is_running());
    assert!(shell.get_cmd("quit").is_some());
}

#[test]
fn blank_line_is_a_silent_no_op() {
    let mut shell = Shell::new();
    assert_eq!(shell.dispatch_line("   "), Outcome::Empty);
    assert!(shell.is_running());
}

#[test]
fn load_exec_picks_the_first_argument() {
    assert_eq!(Cmd::load_exec(&vec![]), None);
    assert_eq!(
        Cmd::load_exec(&vec!["a.wasm".to_owned(), "ignored".to_owned()]),
        Some("a.wasm".to_owned())
    );
}

#[test]
fn registry_membership_is_queryable() {
    let mut shell = Shell::new();
    assert!(shell.ctx.contains_cmd("quit"));
    assert!(!shell.ctx.contains_cmd("greet"));
    assert!(!shell.ctx.contains_plugin("alpha"));
    shell.load_plugin(info("alpha", vec![decl("greet", "greet", "hi")])).unwrap();
    shell.commit_pending();
    assert!(shell.ctx.contains_plugin("alpha"));
    assert!(shell.ctx.contains_cmd("greet"));
}

#[test]
fn load_needs_a_path() {
    let mut shell = Shell::new();
    assert_eq!(shell.dispatch_line("load"), Outcome::MissingPath);
    match shell.dispatch_line("load plugin.wasm extra") {
        Outcome::Load { path } => assert_eq!(path, "plugin.wasm"),
        other => panic!("expected Load, got {other:?}"),
    }
}

#[test]
fn failed_load_leaves_the_registries_empty() {
    // The embedding program reports a missing or malformed file itself and
    // never reaches load_plugin, so the registries stay as they were.
    let mut shell = Shell::new();
    match shell.dispatch_line("load does-not-exist.wasm") {
        Outcome::Load { path } => assert_eq!(path, "does-not-exist.wasm"),
        other => panic!("expected Load, got {other:?}"),
    }
    match shell.dispatch_line("list-plugins") {
        Outcome::Plugins { plugins } => assert!(plugins.is_empty()),
        other => panic!("expected Plugins, got {other:?}"),
    }
    match shell.dispatch_line("help") {
        Outcome::Help { cmds } => assert_eq!(cmds.len(), 4),
        other => panic!("expected Help, got {other:?}"),
    }
}

#[test]
fn plugin_load_stages_and_commit_registers_commands() {
    let mut shell = Shell::new();
    let id = shell
        .load_plugin(info("alpha", vec![decl("greet", "greet <who>", "say hi")]))
        .unwrap();
    assert_eq!(id.0, 1);
    assert!(shell.has_pending());
    assert!(shell.get_cmd("greet").is_none());
    let rejected = shell.commit_pending();
    assert!(rejected.is_empty());
    assert!(!shell.has_pending());
    assert_eq!(shell.get_cmd("greet").unwrap().usage, "greet <who>");
    match shell.dispatch_line("greet world") {
        Outcome::Forward { plugin, cmd, args } => {
            assert_eq!(plugin, "alpha");
            assert_eq!(cmd, "greet");
            assert_eq!(args, vec!["world".to_owned()]);
        }
        other => panic!("expected Forward, got {other:?}"),
    }
}

#[test]
fn plugin_name_conflicts_are_rejected() {
    let mut shell = Shell::new();
    shell.load_plugin(info("alpha", vec![])).unwrap();
    shell.commit_pending();
    let r = shell.load_plugin(info("alpha", vec![]));
    assert_eq!(r, Err(LoadReject::DuplicateName));
    match shell.dispatch_line("list-plugins") {
        Outcome::Plugins { plugins } => {
            assert_eq!(plugins.len(), 1);
            assert_eq!(plugins[0].info.name, "alpha");
        }
        other => panic!("expected Plugins, got {other:?}"),
    }
}

#[test]
fn empty_plugin_name_is_rejected() {
    let mut shell = Shell::new();
    let r = shell.load_plugin(info("", vec![]));
    assert_eq!(r, Err(LoadReject::EmptyName));
    match shell.dispatch_line("list-plugins") {
        Outcome::Plugins { plugins } => assert!(plugins.is_empty()),
        other => panic!("expected Plugins, got {other:?}"),
    }
}

#[test]
fn conflicting_command_keeps_first_writer() {
    let mut shell = Shell::new();
    shell
        .load_plugin(info("alpha", vec![decl("conflict", "conflict (alpha)", "from alpha")]))
        .unwrap();
    assert!(shell.commit_pending().is_empty());
    shell
        .load_plugin(info("beta", vec![decl("conflict", "conflict (beta)", "from beta")]))
        .unwrap();
    let rejected = shell.commit_pending();
    assert_eq!(rejected.len(), 1);
    assert_eq!(rejected[0].0.name, "conflict");
    assert_eq!(rejected[0].1, RegisterError::DuplicateName);
    // The first plugin's command is still dispatchable, unchanged.
    assert_eq!(shell.get_cmd("conflict").unwrap().usage, "conflict (alpha)");
    match shell.dispatch_line("conflict") {
        Outcome::Forward { plugin, cmd, args } => {
            assert_eq!(plugin, "alpha");
            assert_eq!(cmd, "conflict");
            assert!(args.is_empty());
        }
        other => panic!("expected Forward, got {other:?}"),
    }
}

#[test]
fn invalid_declared_command_is_rejected_alone() {
    let mut shell = Shell::new();
    shell
        .load_plugin(info(
            "alpha",
            vec![
                decl("ok-one", "ok-one", "fine"),
                decl("bad name", "bad name", "whitespace"),
                decl("ok-two", "ok-two", "fine too"),
            ],
        ))
        .unwrap();
    let rejected = shell.commit_pending();
    assert_eq!(rejected.len(), 1);
    assert_eq!(rejected[0].0.name, "bad name");
    assert_eq!(rejected[0].1, RegisterError::InvalidName);
    // The rest of the batch is registered.
    assert!(shell.get_cmd("ok-one").is_some());
    assert!(shell.get_cmd("ok-two").is_some());
    assert!(shell.get_cmd("bad name").is_none());
}

#[test]
fn help_lists_plugin_commands_after_drain() {
    let mut shell = Shell::new();
    shell
        .load_plugin(info("alpha", vec![decl("hello", "hello <language>", "greets")]))
        .unwrap();
    // Staged but not yet drained: help does not show it yet.
    match shell.dispatch_line("help") {
        Outcome::Help { cmds } => assert_eq!(cmds.len(), 4),
        other => panic!("expected Help, got {other:?}"),
    }
    shell.commit_pending();
    match shell.dispatch_line("help") {
        Outcome::Help { cmds } => {
            let usages: Vec<&str> = cmds.iter().map(|c| c.usage.as_str()).collect();
            assert_eq!(
                usages,
                vec!["hello <language>", "help", "list-plugins", "load <wasm file>", "quit"]
            );
        }
        other => panic!("expected Help, got {other:?}"),
    }
}
