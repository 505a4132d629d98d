//! Registration of the system service, per platform.
//!
//! On Windows the `sc.exe` calls are written into a batch file whose output is redirected into
//! a log, and that batch file is re-launched through the UAC prompt when it needs to be. On Unix
//! the unit file or launchd plist is written by this program, so the whole operation re-launches
//! the current executable elevated (see [`crate::elevate`]). This module says what to run, and
//! reads what came back: the service state, the outcome of a command, whether to wait longer.
use vstd::prelude::*;
use crate::codes;
use crate::error::{AppError, detail_of, opt_view};
use crate::runner::err_parts;
use crate::host::{Platform, join, push_component};
use crate::elevate::{CommandOutput, texts, spec_quote_powershell, spec_format_output, format_output};
use crate::text::{
    append_str, chars_of, string_of, str_eq, has_prefix, contains, str_contains, find_char,
    spec_trim, trim,
};
use crate::num::{dec, push_decimal};

verus! {

/// The name the service is registered under.
pub const SERVICE_NAME: &'static str = "nexa-service";

/// The name service managers show.
pub const SERVICE_DISPLAY_NAME: &'static str = "Nexa Service";

/// The text `services.msc` shows for the entry.
pub const SERVICE_DESCRIPTION: &'static str = "Runs the nexa proxy (TUN mode) without a signed-in desktop session.";

/// The argument that hands control to the Windows service control manager.
pub const SERVICE_ARGUMENT: &'static str = "--service";

/// How `sc.exe` words a refused operation.
pub const ACCESS_DENIED: &'static str = "Access is denied";

/// `sc start` on a service that is already running.
pub const ALREADY_RUNNING: &'static str = "1056";

/// `sc stop` on a service that is not started.
pub const NOT_STARTED: &'static str = "1062";

/// `sc` on a service that does not exist.
pub const NOT_INSTALLED: &'static str = "1060";

/// Seconds Windows gets to bring a started or stopped service to the requested state.
pub const WINDOWS_SETTLE_SECS: u64 = 20;

/// Seconds systemd gets to bring a started service up.
pub const LINUX_SETTLE_SECS: u64 = 5;

/// What the service manager says about the service.
#[derive(Debug, Clone, Copy, PartialEq, Eq, Structural)]
pub enum ServiceState {
    /// Nothing is registered with the service manager.
    NotInstalled,
    /// Registered, but the process is not running.
    Stopped,
    /// Registered and running.
    Running,
}

/// The batch line that accepts exit code `code` of the previous command as success.
pub open spec fn spec_tolerate(code: Seq<char>) -> Seq<char> {
    "if %errorlevel%=="@ + code + " exit /b 0"@
}

/// Accepts a nonzero exit code from the previous command as success. `errorlevel` is compared
/// literally: `if errorlevel N` would mean "N or higher".
pub fn tolerate(code: &str) -> (r: String)
    ensures
        r@ == spec_tolerate(code@),
{
    let mut m: Vec<char> = Vec::new();
    append_str(&mut m, "if %errorlevel%==");
    append_str(&mut m, code);
    append_str(&mut m, " exit /b 0");
    string_of(m.as_slice())
}

/// The `binPath=` value: the executable between escaped quotes, then the service argument.
pub open spec fn spec_bin_path(binary: Seq<char>) -> Seq<char> {
    seq!['\\', '"'] + binary + seq!['\\', '"'] + " --service"@
}

/// The `binPath=` value for `binary`: `sc` takes the whole command line as one value, and an
/// unescaped quote around a path with spaces makes it fail.
pub fn bin_path_value(binary: &str) -> (r: String)
    ensures
        r@ == spec_bin_path(binary@),
{
    let mut m: Vec<char> = Vec::new();
    m.push('\\');
    m.push('"');
    append_str(&mut m, binary);
    m.push('\\');
    m.push('"');
    append_str(&mut m, " --service");
    assert(m@ =~= spec_bin_path(binary@));
    string_of(m.as_slice())
}

/// A line that is copied into the batch file as it is: control flow, and commands that carry
/// their own redirection.
pub open spec fn is_complete_line(line: Seq<char>) -> bool {
    has_prefix(line, "if "@) || line == "exit /b %errorlevel%"@ || line.contains('>')
}

/// The redirection appended to every other line.
pub open spec fn log_redirect(log: Seq<char>) -> Seq<char> {
    ">> \""@ + log + "\" 2>&1"@
}

/// One line of the batch file, with its line ending.
pub open spec fn logged_line(line: Seq<char>, log: Seq<char>) -> Seq<char> {
    if is_complete_line(line) {
        line + "\r\n"@
    } else {
        line + seq![' '] + log_redirect(log) + "\r\n"@
    }
}

/// The batch file body for `lines`.
pub open spec fn logged_lines(lines: Seq<Seq<char>>, log: Seq<char>) -> Seq<char>
    decreases lines.len(),
{
    if lines.len() == 0 {
        Seq::empty()
    } else {
        logged_lines(lines.drop_last(), log) + logged_line(lines.last(), log)
    }
}

/// The whole batch file: echo off, then every line.
pub open spec fn spec_with_logging(lines: Seq<Seq<char>>, log: Seq<char>) -> Seq<char> {
    "@echo off\r\n"@ + logged_lines(lines, log)
}

fn line_is_complete(line: &str) -> (b: bool)
    ensures
        b == is_complete_line(line@),
{
    let v = chars_of(line);
    let p = chars_of("if ");
    if crate::text::starts_with(v.as_slice(), p.as_slice()) {
        return true;
    }
    if str_eq(line, "exit /b %errorlevel%") {
        return true;
    }
    match find_char(v.as_slice(), '>') {
        Some(i) => {
            assert(line@[i as int] == '>');
            true
        },
        None => false,
    }
}

/// Turns command lines into a batch script whose output is captured in `log`. Lines that are
/// already complete are copied verbatim; every other one gets the redirection appended.
pub fn with_logging(lines: &[String], log: &str) -> (r: String)
    ensures
        r@ == spec_with_logging(texts(lines@), log@),
{
    let mut out: Vec<char> = Vec::new();
    append_str(&mut out, "@echo off\r\n");
    let ghost start = out@;
    let mut i: usize = 0;
    while i < lines.len()
        invariant
            i <= lines.len(),
            start == "@echo off\r\n"@,
            out@ == start + logged_lines(texts(lines@.subrange(0, i as int)), log@),
        decreases lines.len() - i,
    {
        let line = lines[i].as_str();
        append_str(&mut out, line);
        if !line_is_complete(line) {
            out.push(' ');
            append_str(&mut out, ">> \"");
            append_str(&mut out, log);
            append_str(&mut out, "\" 2>&1");
        }
        append_str(&mut out, "\r\n");
        proof {
            let t = texts(lines@.subrange(0, i + 1));
            assert(t.drop_last() =~= texts(lines@.subrange(0, i as int)));
            assert(t.last() == lines@[i as int]@);
        }
        i = i + 1;
        assert(out@ =~= start + logged_lines(texts(lines@.subrange(0, i as int)), log@));
    }
    assert(lines@.subrange(0, lines.len() as int) =~= lines@);
    string_of(out.as_slice())
}

/// Whether an operation asks for the UAC prompt up front or only when refused.
#[derive(Debug, Clone, Copy, PartialEq, Eq, Structural)]
pub enum Escalation {
    /// It always needs administrative rights (`sc create`).
    Always,
    /// Run it as the invoking user first, and escalate only when that is refused.
    OnAccessDenied,
}

/// What to check once a batch file succeeded.
#[derive(Debug, Clone, Copy, PartialEq, Eq, Structural)]
pub enum Followup {
    /// The service must now exist, then reach `Running`.
    PresentThenRunning,
    /// The service must be gone.
    Absent,
    /// The service must reach the given state.
    Settle(ServiceState),
}

/// One batch run: its lines, how it escalates, the code its failure carries, what is checked
/// afterwards and the code a service that never reaches the state it should gets.
#[derive(Debug, Clone)]
pub struct BatchPlan {
    pub lines: Vec<String>,
    pub escalation: Escalation,
    pub failure: String,
    pub followup: Followup,
    pub settle_failure: String,
}

fn owned(s: &str) -> (r: String)
    ensures
        r@ == s@,
{
    String::from_str(s)
}

/// The `sc create` / `sc config` line of the install: a service that already exists is
/// re-pointed at `bin_path`. Each branch carries its own redirection into `log`.
pub open spec fn create_or_config(bin_path: Seq<char>, log: Seq<char>) -> Seq<char> {
    let redirect = "> \""@ + log + "\" 2>&1"@;
    "if errorlevel 1 (sc.exe create nexa-service binPath= \""@ + bin_path
        + "\" start= auto DisplayName= \"Nexa Service\" "@ + redirect
        + ") else (sc.exe config nexa-service binPath= \""@ + bin_path + "\" start= auto "@
        + redirect + ")"@
}

/// The install batch: register (or re-point) the service, describe it, start it.
pub open spec fn spec_install_lines(bin_path: Seq<char>, log: Seq<char>) -> Seq<Seq<char>> {
    seq![
        "sc.exe query nexa-service >nul 2>&1"@,
        create_or_config(bin_path, log),
        "if errorlevel 1 exit /b %errorlevel%"@,
        "sc.exe description nexa-service \"Runs the nexa proxy (TUN mode) without a signed-in desktop session.\""@,
        "if errorlevel 1 exit /b %errorlevel%"@,
        "sc.exe start nexa-service"@,
        spec_tolerate(ALREADY_RUNNING@),
        "exit /b %errorlevel%"@,
    ]
}

/// Registers the service for `binary` and starts it. It always needs the prompt; afterwards
/// the service has to exist and reach `Running`.
pub fn install(binary: &str, log: &str) -> (plan: BatchPlan)
    ensures
        texts(plan.lines@) == spec_install_lines(spec_bin_path(binary@), log@),
        plan.escalation == Escalation::Always,
        plan.failure@ == codes::SERVICE_INSTALL_FAILED@,
        plan.followup == Followup::PresentThenRunning,
        plan.settle_failure@ == codes::SERVICE_START_FAILED@,
{
    let bin_path = bin_path_value(binary);
    let mut c: Vec<char> = Vec::new();
    append_str(&mut c, "if errorlevel 1 (sc.exe create nexa-service binPath= \"");
    append_str(&mut c, bin_path.as_str());
    append_str(&mut c, "\" start= auto DisplayName= \"Nexa Service\" ");
    append_str(&mut c, "> \"");
    append_str(&mut c, log);
    append_str(&mut c, "\" 2>&1");
    append_str(&mut c, ") else (sc.exe config nexa-service binPath= \"");
    append_str(&mut c, bin_path.as_str());
    append_str(&mut c, "\" start= auto ");
    append_str(&mut c, "> \"");
    append_str(&mut c, log);
    append_str(&mut c, "\" 2>&1");
    append_str(&mut c, ")");
    assert(c@ =~= create_or_config(bin_path@, log@));
    let mut lines: Vec<String> = Vec::new();
    lines.push(owned("sc.exe query nexa-service >nul 2>&1"));
    lines.push(string_of(c.as_slice()));
    lines.push(owned("if errorlevel 1 exit /b %errorlevel%"));
    lines.push(owned("sc.exe description nexa-service \"Runs the nexa proxy (TUN mode) without a signed-in desktop session.\""));
    lines.push(owned("if errorlevel 1 exit /b %errorlevel%"));
    lines.push(owned("sc.exe start nexa-service"));
    lines.push(tolerate(ALREADY_RUNNING));
    lines.push(owned("exit /b %errorlevel%"));
    assert(texts(lines@) =~= spec_install_lines(spec_bin_path(binary@), log@));
    BatchPlan {
        lines,
        escalation: Escalation::Always,
        failure: owned(codes::SERVICE_INSTALL_FAILED),
        followup: Followup::PresentThenRunning,
        settle_failure: owned(codes::SERVICE_START_FAILED),
    }
}

/// Removes the service: nothing to run when it does not exist (`exists` is what
/// [`service_exists`] said), else stop and delete it, after which it must be gone.
pub fn uninstall(exists: bool) -> (plan: Option<BatchPlan>)
    ensures
        !exists ==> plan is None,
        exists ==> (plan matches Some(p) && texts(p.lines@) == seq![
            "sc.exe stop nexa-service"@,
            "sc.exe delete nexa-service"@,
            "exit /b %errorlevel%"@,
        ] && p.escalation == Escalation::OnAccessDenied && p.failure@ == codes::SERVICE_UNINSTALL_FAILED@
            && p.followup == Followup::Absent && p.settle_failure@ == codes::SERVICE_UNINSTALL_FAILED@),
{
    if !exists {
        return None;
    }
    let mut lines: Vec<String> = Vec::new();
    lines.push(owned("sc.exe stop nexa-service"));
    lines.push(owned("sc.exe delete nexa-service"));
    lines.push(owned("exit /b %errorlevel%"));
    assert(texts(lines@) =~= seq![
        "sc.exe stop nexa-service"@,
        "sc.exe delete nexa-service"@,
        "exit /b %errorlevel%"@,
    ]);
    Some(BatchPlan {
        lines,
        escalation: Escalation::OnAccessDenied,
        failure: owned(codes::SERVICE_UNINSTALL_FAILED),
        followup: Followup::Absent,
        settle_failure: owned(codes::SERVICE_UNINSTALL_FAILED),
    })
}

/// Starts the service; already running counts as started. It must then reach `Running`.
pub fn start() -> (plan: BatchPlan)
    ensures
        texts(plan.lines@) == seq![
            "sc.exe start nexa-service"@,
            spec_tolerate(ALREADY_RUNNING@),
            "exit /b %errorlevel%"@,
        ],
        plan.escalation == Escalation::OnAccessDenied,
        plan.failure@ == codes::SERVICE_START_FAILED@,
        plan.followup == Followup::Settle(ServiceState::Running),
        plan.settle_failure@ == codes::SERVICE_START_FAILED@,
{
    let mut lines: Vec<String> = Vec::new();
    lines.push(owned("sc.exe start nexa-service"));
    lines.push(tolerate(ALREADY_RUNNING));
    lines.push(owned("exit /b %errorlevel%"));
    assert(texts(lines@) =~= seq![
        "sc.exe start nexa-service"@,
        spec_tolerate(ALREADY_RUNNING@),
        "exit /b %errorlevel%"@,
    ]);
    BatchPlan {
        lines,
        escalation: Escalation::OnAccessDenied,
        failure: owned(codes::SERVICE_START_FAILED),
        followup: Followup::Settle(ServiceState::Running),
        settle_failure: owned(codes::SERVICE_START_FAILED),
    }
}

/// Stops the service; not started and not installed count as stopped. It must then reach
/// `Stopped`.
pub fn stop() -> (plan: BatchPlan)
    ensures
        texts(plan.lines@) == seq![
            "sc.exe stop nexa-service"@,
            spec_tolerate(NOT_STARTED@),
            spec_tolerate(NOT_INSTALLED@),
            "exit /b %errorlevel%"@,
        ],
        plan.escalation == Escalation::OnAccessDenied,
        plan.failure@ == codes::SERVICE_STOP_FAILED@,
        plan.followup == Followup::Settle(ServiceState::Stopped),
        plan.settle_failure@ == codes::SERVICE_STOP_FAILED@,
{
    let mut lines: Vec<String> = Vec::new();
    lines.push(owned("sc.exe stop nexa-service"));
    lines.push(tolerate(NOT_STARTED));
    lines.push(tolerate(NOT_INSTALLED));
    lines.push(owned("exit /b %errorlevel%"));
    assert(texts(lines@) =~= seq![
        "sc.exe stop nexa-service"@,
        spec_tolerate(NOT_STARTED@),
        spec_tolerate(NOT_INSTALLED@),
        "exit /b %errorlevel%"@,
    ]);
    BatchPlan {
        lines,
        escalation: Escalation::OnAccessDenied,
        failure: owned(codes::SERVICE_STOP_FAILED),
        followup: Followup::Settle(ServiceState::Stopped),
        settle_failure: owned(codes::SERVICE_STOP_FAILED),
    }
}

/// The PowerShell script that re-launches the batch file `bat` through the UAC prompt and exits
/// with its exit code; a declined prompt leaves no process and exits 1.
pub open spec fn spec_elevated_batch_script(bat: Seq<char>) -> Seq<char> {
    "$ErrorActionPreference = 'Stop'; $p = Start-Process -FilePath 'cmd.exe' -ArgumentList '/c', "@
        + spec_quote_powershell(bat)
        + " -Verb RunAs -Wait -PassThru; if ($null -eq $p) { exit 1 }; exit $p.ExitCode"@
}

/// The `powershell -Command` script for an elevated batch run.
pub fn elevated_batch_script(bat: &str) -> (r: String)
    ensures
        r@ == spec_elevated_batch_script(bat@),
{
    let q = crate::elevate::quote_powershell(bat);
    let mut m: Vec<char> = Vec::new();
    append_str(&mut m, "$ErrorActionPreference = 'Stop'; $p = Start-Process -FilePath 'cmd.exe' -ArgumentList '/c', ");
    append_str(&mut m, q.as_str());
    append_str(&mut m, " -Verb RunAs -Wait -PassThru; if ($null -eq $p) { exit 1 }; exit $p.ExitCode");
    string_of(m.as_slice())
}

/// The log as the batch run left it: trimmed, and absent when empty.
pub open spec fn spec_log_text(log: Option<Seq<char>>) -> Seq<char> {
    match log {
        Some(t) => spec_trim(t),
        None => Seq::empty(),
    }
}

fn log_text(log: Option<&str>) -> (r: String)
    ensures
        r@ == spec_log_text(match log {
            Some(t) => Some(t@),
            None => None,
        }),
{
    match log {
        Some(t) => trim(t),
        None => String::new(),
    }
}

/// Whether an unprivileged run was refused for want of rights: exit code 5, or the refusal in
/// its log.
pub fn is_access_denied(out: &CommandOutput, log: Option<&str>) -> (b: bool)
    ensures
        b == (out.code == Some(5i32) || contains(spec_log_text(match log {
            Some(t) => Some(t@),
            None => None,
        }), ACCESS_DENIED@)),
{
    if out.code == Some(5i32) {
        return true;
    }
    let t = log_text(log);
    str_contains(t.as_str(), ACCESS_DENIED)
}

/// Whether the batch file has to be run again through the prompt: the unprivileged run failed
/// and was refused.
pub fn needs_escalation(plain: &CommandOutput, log: Option<&str>) -> (b: bool)
    ensures
        b == (!plain.success && (plain.code == Some(5i32) || contains(spec_log_text(match log {
            Some(t) => Some(t@),
            None => None,
        }), ACCESS_DENIED@))),
{
    !plain.success && is_access_denied(plain, log)
}

/// The last-resort diagnostic of a launcher whose log is empty: what it printed, or its exit
/// status when it printed nothing.
pub open spec fn spec_launcher_detail(out: CommandOutput) -> Seq<char> {
    let d = spec_format_output(out.stdout@, out.stderr@);
    if d.len() == 0 {
        out.status@ + " (no output)"@
    } else {
        d
    }
}

/// What the launcher printed, as one diagnostic.
pub fn launcher_detail(out: &CommandOutput) -> (r: String)
    ensures
        r@ == spec_launcher_detail(*out),
{
    let d = format_output(out);
    if d.as_str().is_empty() {
        let mut m: Vec<char> = chars_of(out.status.as_str());
        append_str(&mut m, " (no output)");
        string_of(m.as_slice())
    } else {
        d
    }
}

/// The outcome of a batch run: success when it exited with zero; a declined prompt when it ran
/// elevated and left nothing in its log; else a failure with `failure`'s code explained by the
/// log, or by what the launcher printed.
pub open spec fn spec_batch_outcome(out: CommandOutput, elevated: bool, log: Option<Seq<char>>, failure: Seq<char>) -> Result<(), (Seq<char>, Option<Seq<char>>)> {
    let text = spec_log_text(log);
    if out.success {
        Ok(())
    } else if elevated && text.len() == 0 {
        Err((codes::SERVICE_ELEVATION_DENIED@, detail_of(spec_launcher_detail(out))))
    } else if text.len() == 0 {
        Err((failure, detail_of(spec_launcher_detail(out))))
    } else {
        Err((failure, Some(text)))
    }
}

/// Reads the outcome of a batch run from how it exited and what its log holds.
pub fn batch_outcome(out: &CommandOutput, elevated: bool, log: Option<&str>, failure: &str) -> (r: Result<(), AppError>)
    ensures
        err_parts(r) == spec_batch_outcome(*out, elevated, match log {
            Some(t) => Some(t@),
            None => None,
        }, failure@),
{
    let text = log_text(log);
    if out.success {
        return Ok(());
    }
    if elevated && text.as_str().is_empty() {
        let d = launcher_detail(out);
        return Err(AppError::with_detail(codes::SERVICE_ELEVATION_DENIED, d.as_str()));
    }
    if text.as_str().is_empty() {
        let d = launcher_detail(out);
        Err(AppError::with_detail(failure, d.as_str()))
    } else {
        Err(AppError::with_detail(failure, text.as_str()))
    }
}

/// What `sc query` says: no such service, running, or registered and not running. No answer
/// at all counts as not installed.
pub open spec fn spec_sc_state(query: Option<Seq<char>>) -> ServiceState {
    match query {
        None => ServiceState::NotInstalled,
        Some(t) => if contains(t, NOT_INSTALLED@) {
            ServiceState::NotInstalled
        } else if contains(t, "RUNNING"@) {
            ServiceState::Running
        } else {
            ServiceState::Stopped
        },
    }
}

/// The Windows service state, read from the text of `sc query` (`None` when it could not run).
pub fn state(query: Option<&str>) -> (s: ServiceState)
    ensures
        s == spec_sc_state(match query {
            Some(t) => Some(t@),
            None => None,
        }),
{
    match query {
        None => ServiceState::NotInstalled,
        Some(t) => if str_contains(t, NOT_INSTALLED) {
            ServiceState::NotInstalled
        } else if str_contains(t, "RUNNING") {
            ServiceState::Running
        } else {
            ServiceState::Stopped
        },
    }
}

/// Whether the service exists, as far as `sc query` can tell; when it could not run, the
/// service is assumed to exist so that an uninstall is still attempted.
pub fn service_exists(query: Option<&str>) -> (b: bool)
    ensures
        b == match query {
            None => true,
            Some(t) => !contains(t@, NOT_INSTALLED@),
        },
{
    match query {
        None => true,
        Some(t) => !str_contains(t, NOT_INSTALLED),
    }
}

/// An install that reported success has to leave a service behind.
pub fn verify_present(query: Option<&str>) -> (r: Result<(), AppError>)
    ensures
        err_parts(r) == match query {
            Some(t) => if !contains(t@, NOT_INSTALLED@) {
                Ok(())
            } else {
                Err((codes::SERVICE_INSTALL_FAILED@, detail_of(t@)))
            },
            None => Err((codes::SERVICE_INSTALL_FAILED@, None)),
        },
{
    match query {
        Some(t) => if !str_contains(t, NOT_INSTALLED) {
            Ok(())
        } else {
            Err(AppError::with_detail(codes::SERVICE_INSTALL_FAILED, t))
        },
        None => Err(AppError::new(codes::SERVICE_INSTALL_FAILED)),
    }
}

/// An uninstall that reported success has to leave no service behind.
pub fn verify_absent(query: Option<&str>) -> (r: Result<(), AppError>)
    ensures
        err_parts(r) == match query {
            Some(t) => if contains(t@, NOT_INSTALLED@) {
                Ok(())
            } else {
                Err((codes::SERVICE_UNINSTALL_FAILED@, detail_of(t@)))
            },
            None => Ok(()),
        },
{
    match query {
        Some(t) => if str_contains(t, NOT_INSTALLED) {
            Ok(())
        } else {
            Err(AppError::with_detail(codes::SERVICE_UNINSTALL_FAILED, t))
        },
        None => Ok(()),
    }
}

/// How a state is named in a diagnostic.
pub open spec fn state_word(s: ServiceState) -> Seq<char> {
    match s {
        ServiceState::Running => "running"@,
        ServiceState::Stopped => "stopped"@,
        ServiceState::NotInstalled => "missing"@,
    }
}

/// One look at a service that was told to reach `expected`: done when it did; a failure when
/// it vanished or `timed_out` is set (the diagnostic names the state it is stuck in, the wait
/// in seconds and, on Windows, the `sc query` text in `query`); else keep waiting (`None`).
pub open spec fn spec_settle_step(expected: ServiceState, current: ServiceState, timed_out: bool, failure: Seq<char>, secs: u64, query: Option<Seq<char>>) -> Option<Result<(), (Seq<char>, Option<Seq<char>>)>> {
    if current == expected {
        Some(Ok(()))
    } else if current == ServiceState::NotInstalled {
        Some(Err((failure, Some("the service is no longer registered"@))))
    } else if timed_out {
        let base = "the service is still "@ + state_word(current) + " after "@ + dec(secs as nat) + seq!['s'];
        Some(Err((failure, Some(match query {
            None => base,
            Some(q) => base + seq!['\n'] + q,
        }))))
    } else {
        None
    }
}

/// Decides one round of waiting for a started or stopped service.
pub fn settle_step(expected: ServiceState, current: ServiceState, timed_out: bool, failure: &str, secs: u64, query: Option<&str>) -> (r: Option<Result<(), AppError>>)
    ensures
        match r {
            None => spec_settle_step(expected, current, timed_out, failure@, secs, match query {
                Some(q) => Some(q@),
                None => None,
            }) is None,
            Some(x) => spec_settle_step(expected, current, timed_out, failure@, secs, match query {
                Some(q) => Some(q@),
                None => None,
            }) == Some(err_parts(x)),
        },
{
    if current == expected {
        return Some(Ok(()));
    }
    if current == ServiceState::NotInstalled {
        proof {
            reveal_strlit("the service is no longer registered");
        }
        return Some(Err(AppError::with_detail(failure, "the service is no longer registered")));
    }
    if !timed_out {
        return None;
    }
    let mut m: Vec<char> = Vec::new();
    append_str(&mut m, "the service is still ");
    match current {
        ServiceState::Running => append_str(&mut m, "running"),
        ServiceState::Stopped => append_str(&mut m, "stopped"),
        ServiceState::NotInstalled => append_str(&mut m, "missing"),
    }
    append_str(&mut m, " after ");
    push_decimal(&mut m, secs);
    m.push('s');
    match query {
        None => {},
        Some(q) => {
            m.push('\n');
            append_str(&mut m, q);
        },
    }
    proof {
        reveal_strlit("the service is still ");
        let base = "the service is still "@ + state_word(current) + " after "@ + dec(secs as nat) + seq!['s'];
        match query {
            None => assert(m@ =~= base),
            Some(q) => assert(m@ =~= base + seq!['\n'] + q@),
        }
    }
    let d = string_of(m.as_slice());
    Some(Err(AppError::with_detail(failure, d.as_str())))
}

/// The binaries the service control manager could start, in order of preference: the bundled
/// `nexa-service.exe` under `resources`, then beside the executable.
pub fn service_binary_candidates(dir: &str) -> (r: Vec<String>)
    ensures
        texts(r@) == seq![
            join(Platform::Windows, join(Platform::Windows, dir@, "resources"@), "nexa-service.exe"@),
            join(Platform::Windows, dir@, "nexa-service.exe"@),
        ],
{
    let mut a: Vec<char> = chars_of(dir);
    push_component(Platform::Windows, &mut a, "resources");
    push_component(Platform::Windows, &mut a, "nexa-service.exe");
    let mut b: Vec<char> = chars_of(dir);
    push_component(Platform::Windows, &mut b, "nexa-service.exe");
    let mut r: Vec<String> = Vec::new();
    r.push(string_of(a.as_slice()));
    r.push(string_of(b.as_slice()));
    assert(texts(r@) =~= seq![
        join(Platform::Windows, join(Platform::Windows, dir@, "resources"@), "nexa-service.exe"@),
        join(Platform::Windows, dir@, "nexa-service.exe"@),
    ]);
    r
}

/// The first candidate that is a file, else the running executable.
pub fn choose_service_binary(candidates: &Vec<String>, is_file: &Vec<bool>, exe: &str) -> (r: String)
    requires
        candidates.len() == is_file.len(),
    ensures
        (exists|i: int| 0 <= i < is_file.len() && is_file@[i]) ==> exists|i: int| {
            &&& 0 <= i < is_file.len()
            &&& is_file@[i]
            &&& forall|k: int| 0 <= k < i ==> !is_file@[k]
            &&& r@ == candidates@[i]@
        },
        (forall|i: int| 0 <= i < is_file.len() ==> !is_file@[i]) ==> r@ == exe@,
{
    let mut i: usize = 0;
    while i < candidates.len()
        invariant
            i <= candidates.len(),
            candidates.len() == is_file.len(),
            forall|k: int| 0 <= k < i ==> !is_file@[k],
        decreases candidates.len() - i,
    {
        if is_file[i] {
            return String::from_str(candidates[i].as_str());
        }
        i = i + 1;
    }
    String::from_str(exe)
}

/// The command systemd runs: the dedicated `nexa-service` binary beside the executable when it
/// exists, else the executable itself with `--foreground`.
pub open spec fn spec_linux_service_exec(exe: Seq<char>, has_service_binary: bool) -> Seq<char> {
    if has_service_binary {
        crate::host::sibling(exe, "nexa-service"@)
    } else {
        exe + " --foreground"@
    }
}

/// The `ExecStart=` command for `exe`.
pub fn linux_service_exec_with(exe_path: &str, has_service_binary: bool) -> (r: String)
    ensures
        r@ == spec_linux_service_exec(exe_path@, has_service_binary),
{
    if has_service_binary {
        crate::host::with_file_name(exe_path, "nexa-service")
    } else {
        let mut m: Vec<char> = chars_of(exe_path);
        append_str(&mut m, " --foreground");
        string_of(m.as_slice())
    }
}

/// The systemd unit for the service.
pub open spec fn spec_linux_unit(exec: Seq<char>) -> Seq<char> {
    "[Unit]\nDescription=Nexa Service\nAfter=network.target\n\n[Service]\nType=simple\nExecStart="@
        + exec
        + "\nRestart=on-failure\nRestartSec=5\nUser=root\n\n[Install]\nWantedBy=multi-user.target\n"@
}

/// The unit file content for `exe_path`.
pub fn linux_unit_content(exe_path: &str, has_service_binary: bool) -> (r: String)
    ensures
        r@ == spec_linux_unit(spec_linux_service_exec(exe_path@, has_service_binary)),
{
    let exec = linux_service_exec_with(exe_path, has_service_binary);
    let mut m: Vec<char> = Vec::new();
    append_str(&mut m, "[Unit]\nDescription=Nexa Service\nAfter=network.target\n\n[Service]\nType=simple\nExecStart=");
    append_str(&mut m, exec.as_str());
    append_str(&mut m, "\nRestart=on-failure\nRestartSec=5\nUser=root\n\n[Install]\nWantedBy=multi-user.target\n");
    string_of(m.as_slice())
}

/// The launchd property list for the service.
pub open spec fn spec_macos_plist(exe: Seq<char>) -> Seq<char> {
    "<?xml version=\"1.0\" encoding=\"UTF-8\"?>\n<!DOCTYPE plist PUBLIC \"-//Apple//DTD PLIST 1.0//EN\" \"http://www.apple.com/DTDs/PropertyList-1.0.dtd\">\n<plist version=\"1.0\">\n<dict>\n    <key>Label</key>\n    <string>com.nexa.nexa-service</string>\n    <key>ProgramArguments</key>\n    <array>\n        <string>"@
        + exe
        + "</string>\n        <string>--foreground</string>\n    </array>\n    <key>RunAtLoad</key>\n    <true/>\n    <key>KeepAlive</key>\n    <true/>\n    <key>StandardOutPath</key>\n    <string>/var/log/nexa-service.log</string>\n    <key>StandardErrorPath</key>\n    <string>/var/log/nexa-service.log</string>\n</dict>\n</plist>\n"@
}

/// The plist content for `exe_path`.
pub fn macos_plist_content(exe_path: &str) -> (r: String)
    ensures
        r@ == spec_macos_plist(exe_path@),
{
    let mut m: Vec<char> = Vec::new();
    append_str(&mut m, "<?xml version=\"1.0\" encoding=\"UTF-8\"?>\n<!DOCTYPE plist PUBLIC \"-//Apple//DTD PLIST 1.0//EN\" \"http://www.apple.com/DTDs/PropertyList-1.0.dtd\">\n<plist version=\"1.0\">\n<dict>\n    <key>Label</key>\n    <string>com.nexa.nexa-service</string>\n    <key>ProgramArguments</key>\n    <array>\n        <string>");
    append_str(&mut m, exe_path);
    append_str(&mut m, "</string>\n        <string>--foreground</string>\n    </array>\n    <key>RunAtLoad</key>\n    <true/>\n    <key>KeepAlive</key>\n    <true/>\n    <key>StandardOutPath</key>\n    <string>/var/log/nexa-service.log</string>\n    <key>StandardErrorPath</key>\n    <string>/var/log/nexa-service.log</string>\n</dict>\n</plist>\n");
    string_of(m.as_slice())
}

/// The Unix state: the definition file is the registration, and a registered service is
/// running or stopped.
pub open spec fn spec_unix_state(registered: bool, running: bool) -> ServiceState {
    if !registered {
        ServiceState::NotInstalled
    } else if running {
        ServiceState::Running
    } else {
        ServiceState::Stopped
    }
}

/// The state on Linux and macOS from whether the unit or plist exists and the service runs.
pub fn unix_state(registered: bool, running: bool) -> (s: ServiceState)
    ensures
        s == spec_unix_state(registered, running),
{
    if !registered {
        ServiceState::NotInstalled
    } else if running {
        ServiceState::Running
    } else {
        ServiceState::Stopped
    }
}

/// Whether one line of `launchctl print` says the job runs.
pub open spec fn is_running_line(line: Seq<char>) -> bool {
    spec_trim(line) == "state = running"@
}

/// Whether some line of `text` (split at line feeds) says the job runs.
pub open spec fn has_running_line(text: Seq<char>) -> bool {
    exists|a: int, b: int| #![trigger is_running_line(text.subrange(a, b))] 0 <= a <= b <= text.len()
        && (a == 0 || text[a - 1] == '\n')
        && (b == text.len() || text[b] == '\n')
        && (forall|k: int| a <= k < b ==> text[k] != '\n')
        && is_running_line(text.subrange(a, b))
}

/// Whether `launchctl print system/<label>` says the daemon runs: it succeeded and one of its
/// lines, trimmed, reads `state = running`.
pub fn launchd_running(out: &CommandOutput) -> (b: bool)
    ensures
        b == (out.success && has_running_line(out.stdout@)),
{
    if !out.success {
        return false;
    }
    let v = chars_of(out.stdout.as_str());
    let mut a: usize = 0;
    let mut b: usize = 0;
    while b <= v.len()
        invariant
            a <= b <= v.len(),
            v@ == out.stdout@,
            out.success,
            a == 0 || v@[a - 1] == '\n',
            forall|k: int| a <= k < b ==> v@[k] != '\n',
            forall|x: int, y: int| 0 <= x <= y <= v.len() && y < a && (x == 0 || v@[x - 1] == '\n') && v@[y] == '\n'
                && (forall|k: int| x <= k < y ==> v@[k] != '\n') ==> !is_running_line(v@.subrange(x, y)),
        decreases v.len() + 1 - b,
    {
        if b == v.len() || v[b] == '\n' {
            let line = slice_line(v.as_slice(), a, b);
            let t = crate::text::trim_chars(line.as_slice());
            let ts = string_of(t.as_slice());
            if str_eq(ts.as_str(), "state = running") {
                assert(is_running_line(v@.subrange(a as int, b as int)));
                assert(has_running_line(out.stdout@));
                return true;
            }
            if b == v.len() {
                proof {
                    assert forall|x: int, y: int| 0 <= x <= y <= v@.len() && (x == 0 || v@[x - 1] == '\n')
                        && (y == v@.len() || v@[y] == '\n') && (forall|k: int| x <= k < y ==> v@[k] != '\n')
                        implies !is_running_line(v@.subrange(x, y)) by {
                        if y < a {
                        } else if x < a {
                            assert(v@[a - 1] == '\n');
                        } else if x > a {
                            assert(v@[x - 1] != '\n');
                        } else {
                            if y < b as int {
                                assert(v@[y] != '\n');
                            }
                        }
                    }
                }
                return false;
            }
            proof {
                assert forall|x: int, y: int| 0 <= x <= y <= v.len() && y < b + 1 && (x == 0 || v@[x - 1] == '\n') && v@[y] == '\n'
                    && (forall|k: int| x <= k < y ==> v@[k] != '\n') implies !is_running_line(v@.subrange(x, y)) by {
                    if y < a {
                    } else if x < a {
                        assert(v@[a - 1] == '\n');
                    } else if x > a {
                        assert(v@[x - 1] != '\n');
                    } else {
                        if y < b as int {
                            assert(v@[y] != '\n');
                        }
                    }
                }
            }
            a = b + 1;
        }
        b = b + 1;
    }
    false
}

fn slice_line(v: &[char], a: usize, b: usize) -> (r: Vec<char>)
    requires
        a <= b <= v.len(),
    ensures
        r@ == v@.subrange(a as int, b as int),
{
    crate::text::slice_chars(v, a, b)
}

/// Whether `systemctl is-active` printed `active`.
pub fn systemctl_active(out: &CommandOutput) -> (b: bool)
    ensures
        b == (spec_trim(out.stdout@) == "active"@),
{
    let t = trim(out.stdout.as_str());
    str_eq(t.as_str(), "active")
}

/// Whether `sc query` (its standard output) names the service running.
pub fn sc_running(out: &CommandOutput) -> (b: bool)
    ensures
        b == contains(out.stdout@, "RUNNING"@),
{
    str_contains(out.stdout.as_str(), "RUNNING")
}

/// Whether the service runs, from the platform's probe (`sc query`, `systemctl is-active` or
/// `launchctl print`); a probe that could not run says no.
pub open spec fn spec_is_service_running(p: Platform, probe: Option<CommandOutput>) -> bool {
    match probe {
        None => false,
        Some(out) => match p {
            Platform::Windows => contains(out.stdout@, "RUNNING"@),
            Platform::Linux => spec_trim(out.stdout@) == "active"@,
            Platform::MacOs => out.success && has_running_line(out.stdout@),
            Platform::Other => false,
        },
    }
}

/// Whether the service runs on `p`, from what its probe printed.
pub fn is_service_running(p: Platform, probe: Option<&CommandOutput>) -> (b: bool)
    ensures
        b == spec_is_service_running(p, match probe {
            Some(o) => Some(*o),
            None => None,
        }),
{
    match probe {
        None => false,
        Some(out) => match p {
            Platform::Windows => sc_running(out),
            Platform::Linux => systemctl_active(out),
            Platform::MacOs => launchd_running(out),
            Platform::Other => false,
        },
    }
}

/// The state on `p`: on Windows what `sc query` said (`query`), on Linux and macOS whether the
/// definition file exists and the service runs; nothing is installed elsewhere.
pub fn service_state(p: Platform, query: Option<&str>, registered: bool, running: bool) -> (s: ServiceState)
    ensures
        s == match p {
            Platform::Windows => spec_sc_state(match query {
                Some(t) => Some(t@),
                None => None,
            }),
            Platform::Linux | Platform::MacOs => spec_unix_state(registered, running),
            Platform::Other => ServiceState::NotInstalled,
        },
{
    match p {
        Platform::Windows => state(query),
        Platform::Linux | Platform::MacOs => unix_state(registered, running),
        Platform::Other => ServiceState::NotInstalled,
    }
}

/// The outcome of a service manager command: success when it exited with zero, else `failure`
/// explained by its standard error.
pub fn command_outcome(out: &CommandOutput, failure: &str) -> (r: Result<(), AppError>)
    ensures
        err_parts(r) == (if out.success {
            Ok(())
        } else {
            Err((failure@, detail_of(out.stderr@)))
        }),
{
    if out.success {
        Ok(())
    } else {
        Err(AppError::with_detail(failure, out.stderr.as_str()))
    }
}

/// A service operation.
#[derive(Debug, Clone, Copy, PartialEq, Eq, Structural)]
pub enum ServiceOp {
    Install,
    Uninstall,
    Start,
    Stop,
}

/// The command line verb that asks the elevated copy for an operation.
pub open spec fn op_verb(op: ServiceOp) -> Seq<char> {
    match op {
        ServiceOp::Install => "--install"@,
        ServiceOp::Uninstall => "--uninstall"@,
        ServiceOp::Start => "--start"@,
        ServiceOp::Stop => "--stop"@,
    }
}

/// How an operation is carried out.
#[derive(Debug, Clone)]
pub enum ServiceRoute {
    /// Windows: run the operation's batch file (see [`install`], [`uninstall`], [`start`], [`stop`]).
    Batch(ServiceOp),
    /// Linux or macOS with administrative rights: perform the operation in this process.
    Inline(ServiceOp),
    /// Re-launch this program elevated with these arguments.
    Elevate(Vec<String>),
    /// Nothing can perform it here.
    Fail(AppError),
}

/// How `op` is carried out on `p`, given whether this process is already privileged.
pub open spec fn spec_route(p: Platform, op: ServiceOp, privileged: bool, r: ServiceRoute) -> bool {
    match p {
        Platform::Windows => r == ServiceRoute::Batch(op),
        _ => if !privileged {
            r matches ServiceRoute::Elevate(args) && texts(args@) == seq![op_verb(op)]
        } else if p == Platform::Other {
            r matches ServiceRoute::Fail(e) && e.spec_parts() == (codes::SERVICE_UNSUPPORTED_PLATFORM@, None::<Seq<char>>)
        } else {
            r == ServiceRoute::Inline(op)
        },
    }
}

fn route(p: Platform, op: ServiceOp, privileged: bool) -> (r: ServiceRoute)
    ensures
        spec_route(p, op, privileged, r),
{
    match p {
        Platform::Windows => ServiceRoute::Batch(op),
        _ => if !privileged {
            let verb = match op {
                ServiceOp::Install => owned("--install"),
                ServiceOp::Uninstall => owned("--uninstall"),
                ServiceOp::Start => owned("--start"),
                ServiceOp::Stop => owned("--stop"),
            };
            let mut args: Vec<String> = Vec::new();
            args.push(verb);
            assert(texts(args@) =~= seq![op_verb(op)]);
            ServiceRoute::Elevate(args)
        } else if p == Platform::Other {
            ServiceRoute::Fail(AppError::new(codes::SERVICE_UNSUPPORTED_PLATFORM))
        } else {
            ServiceRoute::Inline(op)
        },
    }
}

/// Registers the service and starts it: on Windows through the install batch, elsewhere in
/// this process when privileged and through the elevation prompt otherwise.
pub fn install_service(p: Platform, privileged: bool) -> (r: ServiceRoute)
    ensures
        spec_route(p, ServiceOp::Install, privileged, r),
{
    route(p, ServiceOp::Install, privileged)
}

/// Removes the service (see [`install_service`] for the routes).
pub fn uninstall_service(p: Platform, privileged: bool) -> (r: ServiceRoute)
    ensures
        spec_route(p, ServiceOp::Uninstall, privileged, r),
{
    route(p, ServiceOp::Uninstall, privileged)
}

/// Starts the service (see [`install_service`] for the routes).
pub fn start_service(p: Platform, privileged: bool) -> (r: ServiceRoute)
    ensures
        spec_route(p, ServiceOp::Start, privileged, r),
{
    route(p, ServiceOp::Start, privileged)
}

/// Stops the service (see [`install_service`] for the routes).
pub fn stop_service(p: Platform, privileged: bool) -> (r: ServiceRoute)
    ensures
        spec_route(p, ServiceOp::Stop, privileged, r),
{
    route(p, ServiceOp::Stop, privileged)
}


/// One step of a service operation on Linux or macOS.
#[derive(Debug, Clone)]
pub enum UnixStep {
    /// Write the service definition (the systemd unit or the launchd plist).
    WriteDefinition,
    /// Remove the service definition; best effort.
    RemoveDefinition,
    /// Run `program args`; a failure is reported under `failure`, or ignored when it is `None`.
    Run { program: String, args: Vec<String>, failure: Option<String> },
}

/// A step as plain values: its kind (0 write, 1 remove, 2 run), program, arguments and
/// failure code.
pub open spec fn unix_step_view(s: UnixStep) -> (u8, Seq<char>, Seq<Seq<char>>, Option<Seq<char>>) {
    match s {
        UnixStep::WriteDefinition => (0u8, Seq::empty(), Seq::empty(), None),
        UnixStep::RemoveDefinition => (1u8, Seq::empty(), Seq::empty(), None),
        UnixStep::Run { program, args, failure } => (2u8, program@, texts(args@), opt_view(failure)),
    }
}

/// A service operation on Linux or macOS: its steps, in order, and the state the service must
/// then reach with the code it fails under when it never does.
#[derive(Debug, Clone)]
pub struct UnixPlan {
    pub steps: Vec<UnixStep>,
    pub settle: Option<(ServiceState, String)>,
}

/// A command step as plain values.
pub open spec fn run_view(program: Seq<char>, args: Seq<Seq<char>>, failure: Option<Seq<char>>) -> (u8, Seq<char>, Seq<Seq<char>>, Option<Seq<char>>) {
    (2u8, program, args, failure)
}

/// The steps of `op` on `p` (`definition` is the path of the unit or plist): on Linux an
/// install writes the unit, reloads systemd, enables the service and starts it, and must then
/// see it running (`service.start_failed` otherwise); an uninstall stops, disables, removes the
/// unit and reloads, all best effort. On macOS an install writes the plist and loads it; an
/// uninstall unloads it and removes it. Start and stop go to `systemctl` or `launchctl`. There
/// is no such plan on other platforms.
pub open spec fn spec_unix_plan(p: Platform, op: ServiceOp, definition: Seq<char>) -> Option<(Seq<(u8, Seq<char>, Seq<Seq<char>>, Option<Seq<char>>)>, Option<(ServiceState, Seq<char>)>)> {
    let sc = "systemctl"@;
    let lc = "launchctl"@;
    let svc = "nexa-service"@;
    let label = "com.nexa.nexa-service"@;
    let write = (0u8, Seq::<char>::empty(), Seq::<Seq<char>>::empty(), None::<Seq<char>>);
    let remove = (1u8, Seq::<char>::empty(), Seq::<Seq<char>>::empty(), None::<Seq<char>>);
    match (p, op) {
        (Platform::Linux, ServiceOp::Install) => Some((seq![
            write,
            run_view(sc, seq!["daemon-reload"@], Some(codes::SERVICE_DEFINITION_FAILED@)),
            run_view(sc, seq!["enable"@, svc], Some(codes::SERVICE_INSTALL_FAILED@)),
            run_view(sc, seq!["start"@, svc], Some(codes::SERVICE_START_FAILED@)),
        ], Some((ServiceState::Running, codes::SERVICE_START_FAILED@)))),
        (Platform::Linux, ServiceOp::Uninstall) => Some((seq![
            run_view(sc, seq!["stop"@, svc], None),
            run_view(sc, seq!["disable"@, svc], None),
            remove,
            run_view(sc, seq!["daemon-reload"@], None),
        ], None)),
        (Platform::Linux, ServiceOp::Start) => Some((seq![run_view(sc, seq!["start"@, svc], Some(codes::SERVICE_START_FAILED@))], None)),
        (Platform::Linux, ServiceOp::Stop) => Some((seq![run_view(sc, seq!["stop"@, svc], Some(codes::SERVICE_STOP_FAILED@))], None)),
        (Platform::MacOs, ServiceOp::Install) => Some((seq![
            write,
            run_view(lc, seq!["load"@, definition], Some(codes::SERVICE_INSTALL_FAILED@)),
        ], None)),
        (Platform::MacOs, ServiceOp::Uninstall) => Some((seq![
            run_view(lc, seq!["unload"@, definition], None),
            remove,
        ], None)),
        (Platform::MacOs, ServiceOp::Start) => Some((seq![run_view(lc, seq!["start"@, label], Some(codes::SERVICE_START_FAILED@))], None)),
        (Platform::MacOs, ServiceOp::Stop) => Some((seq![run_view(lc, seq!["stop"@, label], Some(codes::SERVICE_STOP_FAILED@))], None)),
        _ => None,
    }
}

fn run_step(program: &str, first: &str, second: Option<&str>, failure: Option<&str>) -> (s: UnixStep)
    ensures
        unix_step_view(s) == run_view(program@, match second {
            Some(x) => seq![first@, x@],
            None => seq![first@],
        }, match failure {
            Some(f) => Some(f@),
            None => None,
        }),
{
    let mut v: Vec<String> = Vec::new();
    v.push(String::from_str(first));
    match second {
        Some(x) => v.push(String::from_str(x)),
        None => {},
    }
    let s = UnixStep::Run {
        program: String::from_str(program),
        args: v,
        failure: match failure {
            Some(f) => Some(String::from_str(f)),
            None => None,
        },
    };
    assert(texts(v@) =~= match second {
        Some(x) => seq![first@, x@],
        None => seq![first@],
    });
    s
}

/// The plan of `op` on `p` for a unit or plist at `definition`.
pub fn unix_plan(p: Platform, op: ServiceOp, definition: &str) -> (r: Option<UnixPlan>)
    ensures
        match spec_unix_plan(p, op, definition@) {
            None => r is None,
            Some((steps, settle)) => r matches Some(plan) && plan.steps@.map_values(|s: UnixStep| unix_step_view(s)) == steps
                && match (plan.settle, settle) {
                    (None, None) => true,
                    (Some((st, code)), Some((st2, code2))) => st == st2 && code@ == code2,
                    _ => false,
                },
        },
{
    proof {
        reveal_strlit("systemctl");
        reveal_strlit("launchctl");
        reveal_strlit("nexa-service");
        reveal_strlit("com.nexa.nexa-service");
        reveal_strlit("daemon-reload");
        reveal_strlit("enable");
        reveal_strlit("start");
        reveal_strlit("stop");
        reveal_strlit("disable");
        reveal_strlit("load");
        reveal_strlit("unload");
    }
    let mut steps: Vec<UnixStep> = Vec::new();
    let settle: Option<(ServiceState, String)> = match (p, op) {
        (Platform::Linux, ServiceOp::Install) => {
            steps.push(UnixStep::WriteDefinition);
            steps.push(run_step("systemctl", "daemon-reload", None, Some(codes::SERVICE_DEFINITION_FAILED)));
            steps.push(run_step("systemctl", "enable", Some("nexa-service"), Some(codes::SERVICE_INSTALL_FAILED)));
            steps.push(run_step("systemctl", "start", Some("nexa-service"), Some(codes::SERVICE_START_FAILED)));
            Some((ServiceState::Running, String::from_str(codes::SERVICE_START_FAILED)))
        },
        (Platform::Linux, ServiceOp::Uninstall) => {
            steps.push(run_step("systemctl", "stop", Some("nexa-service"), None));
            steps.push(run_step("systemctl", "disable", Some("nexa-service"), None));
            steps.push(UnixStep::RemoveDefinition);
            steps.push(run_step("systemctl", "daemon-reload", None, None));
            None
        },
        (Platform::Linux, ServiceOp::Start) => {
            steps.push(run_step("systemctl", "start", Some("nexa-service"), Some(codes::SERVICE_START_FAILED)));
            None
        },
        (Platform::Linux, ServiceOp::Stop) => {
            steps.push(run_step("systemctl", "stop", Some("nexa-service"), Some(codes::SERVICE_STOP_FAILED)));
            None
        },
        (Platform::MacOs, ServiceOp::Install) => {
            steps.push(UnixStep::WriteDefinition);
            steps.push(run_step("launchctl", "load", Some(definition), Some(codes::SERVICE_INSTALL_FAILED)));
            None
        },
        (Platform::MacOs, ServiceOp::Uninstall) => {
            steps.push(run_step("launchctl", "unload", Some(definition), None));
            steps.push(UnixStep::RemoveDefinition);
            None
        },
        (Platform::MacOs, ServiceOp::Start) => {
            steps.push(run_step("launchctl", "start", Some("com.nexa.nexa-service"), Some(codes::SERVICE_START_FAILED)));
            None
        },
        (Platform::MacOs, ServiceOp::Stop) => {
            steps.push(run_step("launchctl", "stop", Some("com.nexa.nexa-service"), Some(codes::SERVICE_STOP_FAILED)));
            None
        },
        _ => {
            return None;
        },
    };
    let plan = UnixPlan { steps, settle };
    let ghost expected = spec_unix_plan(p, op, definition@)->0;
    assert(plan.steps@.map_values(|s: UnixStep| unix_step_view(s)) =~= expected.0);
    Some(plan)
}


/// The program that drives services on `p`: `systemctl` on Linux, `launchctl` on macOS.
pub open spec fn service_manager(p: Platform) -> Seq<char> {
    if p == Platform::Linux { "systemctl"@ } else { "launchctl"@ }
}

/// Whether every step of `steps` runs `program` with `verb` as its first argument and fails
/// under `code`.
pub open spec fn all_run(steps: Seq<(u8, Seq<char>, Seq<Seq<char>>, Option<Seq<char>>)>, program: Seq<char>, verb: Seq<char>, code: Seq<char>) -> bool {
    forall|k: int| 0 <= k < steps.len() ==> {
        &&& (#[trigger] steps[k]).0 == 2u8
        &&& steps[k].1 == program
        &&& steps[k].2.len() >= 1
        &&& steps[k].2[0] == verb
        &&& steps[k].3 == Some(code)
    }
}

/// Whether some step of `steps` runs `program args`.
pub open spec fn runs(steps: Seq<(u8, Seq<char>, Seq<Seq<char>>, Option<Seq<char>>)>, program: Seq<char>, args: Seq<Seq<char>>) -> bool {
    exists|k: int| 0 <= k < steps.len() && (#[trigger] steps[k]).0 == 2u8 && steps[k].1 == program && steps[k].2 == args
}

/// Each Unix service operation does what its name says, through the platform's service
/// manager: a stop only stops (failing as `service.stop_failed`) and a start only starts
/// (failing as `service.start_failed`), both without waiting on a state; an install first
/// writes the definition, and on Linux enables and starts the service and must then see it
/// running (`service.start_failed` otherwise), on macOS loads it; an uninstall ignores every
/// failure, removes the definition and on Linux stops and disables the service first, on macOS
/// unloads it. Windows and other platforms have no such plan.
pub proof fn law_unix_plans_do_what_they_say(p: Platform, d: Seq<char>)
    ensures
        (p == Platform::Linux || p == Platform::MacOs) ==> ({
            let svc = if p == Platform::Linux { "nexa-service"@ } else { "com.nexa.nexa-service"@ };
            let m = service_manager(p);
            &&& spec_unix_plan(p, ServiceOp::Stop, d) matches Some((steps, settle)) && steps.len() == 1
                && all_run(steps, m, "stop"@, codes::SERVICE_STOP_FAILED@) && steps[0].2 == seq!["stop"@, svc] && settle is None
            &&& spec_unix_plan(p, ServiceOp::Start, d) matches Some((steps, settle)) && steps.len() == 1
                && all_run(steps, m, "start"@, codes::SERVICE_START_FAILED@) && steps[0].2 == seq!["start"@, svc] && settle is None
            &&& spec_unix_plan(p, ServiceOp::Install, d) matches Some((steps, settle)) && steps.len() >= 2
                && steps[0].0 == 0u8
                && (forall|k: int| 1 <= k < steps.len() ==> (#[trigger] steps[k]).0 == 2u8 && steps[k].1 == m && steps[k].3 is Some)
            &&& spec_unix_plan(p, ServiceOp::Uninstall, d) matches Some((steps, settle)) && settle is None
                && (forall|k: int| 0 <= k < steps.len() ==> (#[trigger] steps[k]).3 is None && (steps[k].0 == 2u8 ==> steps[k].1 == m))
                && (exists|k: int| 0 <= k < steps.len() && (#[trigger] steps[k]).0 == 1u8)
        }),
        spec_unix_plan(Platform::Linux, ServiceOp::Install, d) matches Some((steps, settle))
            && runs(steps, "systemctl"@, seq!["enable"@, "nexa-service"@])
            && runs(steps, "systemctl"@, seq!["start"@, "nexa-service"@])
            && steps.last() == (2u8, "systemctl"@, seq!["start"@, "nexa-service"@], Some(codes::SERVICE_START_FAILED@))
            && settle == Some((ServiceState::Running, codes::SERVICE_START_FAILED@)),
        spec_unix_plan(Platform::Linux, ServiceOp::Uninstall, d) matches Some((steps, _))
            && runs(steps, "systemctl"@, seq!["stop"@, "nexa-service"@])
            && runs(steps, "systemctl"@, seq!["disable"@, "nexa-service"@]),
        spec_unix_plan(Platform::MacOs, ServiceOp::Install, d) matches Some((steps, settle))
            && runs(steps, "launchctl"@, seq!["load"@, d]) && settle is None,
        spec_unix_plan(Platform::MacOs, ServiceOp::Uninstall, d) matches Some((steps, _))
            && runs(steps, "launchctl"@, seq!["unload"@, d]),
        spec_unix_plan(Platform::Windows, ServiceOp::Stop, d) is None,
        spec_unix_plan(Platform::Other, ServiceOp::Stop, d) is None,
{
    let li_plan = spec_unix_plan(Platform::Linux, ServiceOp::Install, d)->0;
    let li = li_plan.0;
    assert(li[2].2 == seq!["enable"@, "nexa-service"@]);
    assert(li[3].2 == seq!["start"@, "nexa-service"@]);
    let lu_plan = spec_unix_plan(Platform::Linux, ServiceOp::Uninstall, d)->0;
    let lu = lu_plan.0;
    assert(lu[0].2 == seq!["stop"@, "nexa-service"@]);
    assert(lu[1].2 == seq!["disable"@, "nexa-service"@]);
    assert(lu[2].0 == 1u8);
    let mi_plan = spec_unix_plan(Platform::MacOs, ServiceOp::Install, d)->0;
    let mi = mi_plan.0;
    assert(mi[1].2 == seq!["load"@, d]);
    let mu_plan = spec_unix_plan(Platform::MacOs, ServiceOp::Uninstall, d)->0;
    let mu = mu_plan.0;
    assert(mu[0].2 == seq!["unload"@, d]);
    assert(mu[1].0 == 1u8);
}

} // verus!
