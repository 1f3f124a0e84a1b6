use plugin_app::dispatch::Outcome;
use plugin_app::host::Level;
use plugin_app::plugin_ie::PluginIe;
use plugin_app::shell::Shell;
use plugin_app::simple_plug::call_from_rust;

#[test]
fn level_labels() {
    assert_eq!(Level::Debug.as_str(), "DEBUG");
    assert_eq!(Level::Info.as_str(), "INFO");
    assert_eq!(Level::Warn.as_str(), "WARN");
    assert_eq!(Level::Error.as_str(), "ERROR");
}

#[test]
fn simple_plug_message() {
    assert_eq!(
        call_from_rust(),
        "You call me from Rust but i was actually a wasm function DAYUMN"
    );
}

#[test]
fn plugin_ie_init_declares_hello() {
    let (info, log) = PluginIe::init();
    assert_eq!(info.name, "plugin-ie");
    assert_eq!(info.version, "0.1.0");
    assert_eq!(info.commands.len(), 1);
    assert_eq!(info.commands[0].name, "hello");
    assert_eq!(info.commands[0].usage, "hello <language>");
    assert_eq!(log.len(), 1);
    assert_eq!(log[0].level, Level::Debug);
    assert_eq!(log[0].message, "Hello my friend!");
}

#[test]
fn plugin_ie_greets_in_each_language() {
    let cases = [
        ("english", "Hello!"),
        ("french", "Bonjour!"),
        ("italian", "Ciao!"),
        ("german", "Hallo!"),
    ];
    for (lang, greeting) in cases {
        let log = PluginIe::run_command("hello".to_owned(), vec![lang.to_owned()]);
        assert_eq!(log.len(), 1);
        assert_eq!(log[0].level, Level::Info);
        assert_eq!(log[0].message, greeting);
    }
}

#[test]
fn plugin_ie_warns_on_unsupported_language() {
    let log = PluginIe::run_command("hello".to_owned(), vec!["spanish".to_owned()]);
    assert_eq!(log.len(), 1);
    assert_eq!(log[0].level, Level::Warn);
    assert_eq!(log[0].message, "unsupported language spanish");
}

#[test]
fn plugin_ie_reports_bad_argument_count() {
    let log = PluginIe::run_command("hello".to_owned(), vec![]);
    assert_eq!(log.len(), 1);
    assert_eq!(log[0].level, Level::Error);
    assert_eq!(
        log[0].message,
        "hello command expects the language you want to say hello in as the first argument"
    );
}

#[test]
fn plugin_ie_rejects_unknown_command() {
    let log = PluginIe::run_command("goodbye".to_owned(), vec![]);
    assert_eq!(log.len(), 1);
    assert_eq!(log[0].level, Level::Error);
    assert_eq!(log[0].message, "command not defined in this plugin");
}

/// The whole greeting session: load the reference plugin, drain its
/// declared command, dispatch `hello english` to it, then an unsupported
/// language; the shell keeps running throughout.
#[test]
fn hello_session_forwards_and_reports() {
    let mut shell = Shell::new();
    let (info, _init_log) = PluginIe::init();
    shell.load_plugin(info).unwrap();
    let rejected = shell.commit_pending();
    assert!(rejected.is_empty());

    match shell.dispatch_line("hello english") {
        Outcome::Forward { plugin, cmd, args } => {
            assert_eq!(plugin, "plugin-ie");
            assert_eq!(cmd, "hello");
            assert_eq!(args, vec!["english".to_owned()]);
            let log = PluginIe::run_command(cmd, args);
            assert_eq!(log[0].level, Level::Info);
            assert_eq!(log[0].message, "Hello!");
        }
        other => panic!("expected Forward, got {other:?}"),
    }

    match shell.dispatch_line("hello spanish") {
        Outcome::Forward { plugin, cmd, args } => {
            assert_eq!(plugin, "plugin-ie");
            let log = PluginIe::run_command(cmd, args);
            assert_eq!(log[0].level, Level::Warn);
            assert_eq!(log[0].message, "unsupported language spanish");
        }
        other => panic!("expected Forward, got {other:?}"),
    }

    assert!(shell.is_running());
}

/// A guest whose `init` traps contributes nothing: the embedding program
/// gets the trap before any metadata exists, so neither registry gains an
/// entry and nothing is staged.
#[test]
fn trapped_init_contributes_nothing() {
    let mut shell = Shell::new();
    // The trap happens on the sandbox side; load_plugin is never reached.
    assert!(!shell.has_pending());
    match shell.dispatch_line("list-plugins") {
        Outcome::Plugins { plugins } => assert!(plugins.is_empty()),
        other => panic!("expected Plugins, got {other:?}"),
    }
    match shell.dispatch_line("help") {
        Outcome::Help { cmds } => assert_eq!(cmds.len(), 4),
        other => panic!("expected Help, got {other:?}"),
    }
    assert!(shell.is_running());
}
