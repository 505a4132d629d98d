//! The command line verbs shared by the desktop app and `nexa-service`.
//!
//! The elevated copy of the program is started with one of the service verbs, so both
//! binaries understand the same ones. The elevation plumbing (`--result-file <path>`) is taken
//! off the command line before the verb is read.
use vstd::prelude::*;
use crate::host::Platform;
use crate::elevate::{take_result_file_arg, is_first_arg, RESULT_FILE_ARG};
use crate::text::str_eq;

verus! {

/// A verb the program handles and then exits.
#[derive(Debug, Clone, Copy, PartialEq, Eq, Structural)]
pub enum CliVerb {
    Install,
    Uninstall,
    Start,
    Stop,
    /// Print whether the service runs.
    Status,
    /// Run the service detached from the terminal.
    Daemon,
    /// Run the service attached, for service managers.
    Foreground,
    /// Run under the Windows service control manager.
    Service,
}

/// The verb a command line word names.
pub open spec fn spec_verb(word: Seq<char>) -> Option<CliVerb> {
    if word == "--install"@ {
        Some(CliVerb::Install)
    } else if word == "--uninstall"@ {
        Some(CliVerb::Uninstall)
    } else if word == "--start"@ {
        Some(CliVerb::Start)
    } else if word == "--stop"@ {
        Some(CliVerb::Stop)
    } else if word == "--status"@ {
        Some(CliVerb::Status)
    } else if word == "--daemon"@ {
        Some(CliVerb::Daemon)
    } else if word == "--foreground"@ {
        Some(CliVerb::Foreground)
    } else if word == "--service"@ {
        Some(CliVerb::Service)
    } else {
        None
    }
}

fn verb_of(word: &str) -> (v: Option<CliVerb>)
    ensures
        v == spec_verb(word@),
{
    if str_eq(word, "--install") {
        Some(CliVerb::Install)
    } else if str_eq(word, "--uninstall") {
        Some(CliVerb::Uninstall)
    } else if str_eq(word, "--start") {
        Some(CliVerb::Start)
    } else if str_eq(word, "--stop") {
        Some(CliVerb::Stop)
    } else if str_eq(word, "--status") {
        Some(CliVerb::Status)
    } else if str_eq(word, "--daemon") {
        Some(CliVerb::Daemon)
    } else if str_eq(word, "--foreground") {
        Some(CliVerb::Foreground)
    } else if str_eq(word, "--service") {
        Some(CliVerb::Service)
    } else {
        None
    }
}

/// A verb to carry out, and where to report its outcome when an elevating parent asked.
#[derive(Debug)]
pub struct CliCommand {
    pub verb: CliVerb,
    pub result_file: Option<String>,
}

/// The verb the program handles on `p`, read from the arguments left once the result file
/// flag is gone: the second one, when it names a verb; `--service` only means something on
/// Windows.
pub open spec fn spec_handled(p: Platform, rest: Seq<String>) -> Option<CliVerb> {
    if rest.len() < 2 {
        None
    } else {
        match spec_verb(rest[1]@) {
            Some(CliVerb::Service) => if p == Platform::Windows {
                Some(CliVerb::Service)
            } else {
                None
            },
            v => v,
        }
    }
}

/// Consumes the service management verbs: strips `--result-file <path>` from `args` (as
/// [`take_result_file_arg`] does) and returns the verb to carry out, or `None` when the
/// arguments name none and the program should go on starting normally.
pub fn handle_args(p: Platform, args: &mut Vec<String>) -> (r: Option<CliCommand>)
    ensures
        (forall|k: int| 0 <= k < old(args).len() ==> old(args)@[k]@ != RESULT_FILE_ARG@) ==> final(args)@ == old(args)@,
        forall|i: int| #[trigger] is_first_arg(old(args)@, RESULT_FILE_ARG@, i) ==> final(args)@ == (if i + 1 < old(args).len() {
            old(args)@.remove(i).remove(i)
        } else {
            old(args)@.remove(i)
        }),
        r is None ==> spec_handled(p, final(args)@) is None,
        r matches Some(c) ==> spec_handled(p, final(args)@) == Some(c.verb),
        forall|i: int| #[trigger] is_first_arg(old(args)@, RESULT_FILE_ARG@, i) ==> (r matches Some(c) ==> c.result_file == (
            if i + 1 < old(args).len() {
                Some(old(args)@[i + 1])
            } else {
                None
            })),
        (forall|k: int| 0 <= k < old(args).len() ==> old(args)@[k]@ != RESULT_FILE_ARG@) ==> (r matches Some(c) ==> c.result_file is None),
{
    let result_file = take_result_file_arg(args);
    if args.len() < 2 {
        return None;
    }
    let verb = match verb_of(args[1].as_str()) {
        None => return None,
        Some(v) => v,
    };
    if verb == CliVerb::Service && p != Platform::Windows {
        return None;
    }
    Some(CliCommand { verb, result_file })
}

/// What `--status` prints.
pub fn status_text(running: bool) -> (r: String)
    ensures
        r@ == "Service running: "@ + (if running { "true"@ } else { "false"@ }),
{
    let mut m: Vec<char> = Vec::new();
    crate::text::append_str(&mut m, "Service running: ");
    if running {
        crate::text::append_str(&mut m, "true");
    } else {
        crate::text::append_str(&mut m, "false");
    }
    crate::text::string_of(m.as_slice())
}

/// How the service process is brought up.
#[derive(Debug)]
pub struct LaunchPlan {
    /// Fork into the background first.
    pub daemonize: bool,
    /// The log file under the service log directory.
    pub log_file: String,
}

/// Runs the IPC server daemonized: detached from the terminal on Unix, logging to
/// `nexa-service.log`.
pub fn run_daemon(p: Platform) -> (plan: LaunchPlan)
    ensures
        plan.daemonize == (p == Platform::Linux || p == Platform::MacOs),
        plan.log_file@ == "nexa-service.log"@,
{
    LaunchPlan {
        daemonize: p == Platform::Linux || p == Platform::MacOs,
        log_file: String::from_str("nexa-service.log"),
    }
}

/// Runs the IPC server in the foreground, as systemd and launchd need it: the main process
/// stays attached.
pub fn run_foreground() -> (plan: LaunchPlan)
    ensures
        !plan.daemonize,
        plan.log_file@ == "nexa-service.log"@,
{
    LaunchPlan { daemonize: false, log_file: String::from_str("nexa-service.log") }
}

} // verus!
