//! The reference plugin: a guest that greets in several languages.
//!
//! This is the guest side of the host/guest contract, written against the
//! same data model the host dispatches over. Its `init` declares one
//! command, `hello`; `run_command` answers it. Where a sandboxed build of
//! this plugin would call the host's logging capability, these functions
//! return the log lines for the caller to render, so the guest logic is
//! plain verified code.

use vstd::prelude::*;
use vstd::string::StringExecFns;
use crate::host::{CommandDecl, Level, LogLine, PluginInfo};

verus! {

/// The greeting plugin.
pub struct PluginIe;

impl PluginIe {
    /// The plugin's metadata: called once, right after instantiation,
    /// before anything else. Returns the metadata together with the log
    /// lines emitted while initializing.
    pub fn init() -> (r: (PluginInfo, Vec<LogLine>))
        ensures
            r.0.name@ == "plugin-ie"@,
            r.0.description@ == "Says hello in several languages"@,
            r.0.version@ == "0.1.0"@,
            r.0.commands@.len() == 1,
            r.0.commands@[0].name@ == "hello"@,
            r.0.commands@[0].usage@ == "hello <language>"@,
            r.0.commands@[0].description@
                == "Says \"hello\" in the specified language, only french, english, italian and german are supported."@,
            r.1@.len() == 1,
            r.1@[0].level == Level::Debug,
            r.1@[0].message@ == "Hello my friend!"@,
    {
        let mut commands: Vec<CommandDecl> = Vec::new();
        commands.push(
            CommandDecl {
                name: "hello".to_owned(),
                usage: "hello <language>".to_owned(),
                description:
                    "Says \"hello\" in the specified language, only french, english, italian and german are supported.".to_owned(),
            },
        );
        let info = PluginInfo {
            name: "plugin-ie".to_owned(),
            description: "Says hello in several languages".to_owned(),
            version: "0.1.0".to_owned(),
            commands: commands,
        };
        let mut log: Vec<LogLine> = Vec::new();
        log.push(LogLine { level: Level::Debug, message: "Hello my friend!".to_owned() });
        (info, log)
    }

    /// One dispatched command: called once per forward addressed to this
    /// plugin, never concurrently. Failures inside the guest are reported
    /// through the returned log lines, not by a typed error.
    pub fn run_command(name: String, args: Vec<String>) -> (log: Vec<LogLine>)
        ensures
            log@.len() == 1,
            name@ != "hello"@ ==> log@[0].level == Level::Error && log@[0].message@
                == "command not defined in this plugin"@,
            name@ == "hello"@ && args@.len() != 1 ==> log@[0].level == Level::Error
                && log@[0].message@
                == "hello command expects the language you want to say hello in as the first argument"@,
            name@ == "hello"@ && args@.len() == 1 ==> {
                &&& args@[0]@ == "english"@ ==> log@[0].level == Level::Info && log@[0].message@
                    == "Hello!"@
                &&& args@[0]@ == "french"@ ==> log@[0].level == Level::Info && log@[0].message@
                    == "Bonjour!"@
                &&& args@[0]@ == "italian"@ ==> log@[0].level == Level::Info && log@[0].message@
                    == "Ciao!"@
                &&& args@[0]@ == "german"@ ==> log@[0].level == Level::Info && log@[0].message@
                    == "Hallo!"@
                &&& (args@[0]@ != "english"@ && args@[0]@ != "french"@ && args@[0]@ != "italian"@
                    && args@[0]@ != "german"@) ==> log@[0].level == Level::Warn && log@[0].message@
                    == "unsupported language "@ + args@[0]@
            },
    {
        let mut log: Vec<LogLine> = Vec::new();
        if !crate::strings::str_eq(name.as_str(), "hello") {
            log.push(
                LogLine {
                    level: Level::Error,
                    message: "command not defined in this plugin".to_owned(),
                },
            );
            return log;
        }
        if args.len() != 1 {
            log.push(
                LogLine {
                    level: Level::Error,
                    message:
                        "hello command expects the language you want to say hello in as the first argument".to_owned(),
                },
            );
            return log;
        }
        let lang: &str = args[0].as_str();
        proof {
            reveal_strlit("english");
            reveal_strlit("french");
            reveal_strlit("italian");
            reveal_strlit("german");
            assert("english"@.len() == 7);
            assert("french"@.len() == 6);
            assert("italian"@.len() == 7);
            assert("german"@.len() == 6);
            assert("english"@[0] == 'e');
            assert("italian"@[0] == 'i');
            assert("french"@[0] == 'f');
            assert("german"@[0] == 'g');
            assert("english"@ != "french"@);
            assert("english"@ != "italian"@);
            assert("english"@ != "german"@);
            assert("french"@ != "italian"@);
            assert("french"@ != "german"@);
            assert("italian"@ != "german"@);
        }
        if crate::strings::str_eq(lang, "english") {
            log.push(LogLine { level: Level::Info, message: "Hello!".to_owned() });
        } else if crate::strings::str_eq(lang, "french") {
            log.push(LogLine { level: Level::Info, message: "Bonjour!".to_owned() });
        } else if crate::strings::str_eq(lang, "italian") {
            log.push(LogLine { level: Level::Info, message: "Ciao!".to_owned() });
        } else if crate::strings::str_eq(lang, "german") {
            log.push(LogLine { level: Level::Info, message: "Hallo!".to_owned() });
        } else {
            let mut message = "unsupported language ".to_owned();
            message.append(lang);
            log.push(LogLine { level: Level::Warn, message: message });
        }
        log
    }
}

} // verus!
