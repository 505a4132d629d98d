use nexa::codes;
use nexa::elevate::CommandOutput;
use nexa::host::Platform;
use nexa::platform::{
    batch_outcome, bin_path_value, choose_service_binary, command_outcome, elevated_batch_script,
    install, install_service, is_service_running, launchd_running, linux_service_exec_with,
    linux_unit_content, macos_plist_content, needs_escalation, service_binary_candidates,
    service_exists, service_state, settle_step, start, state, stop, tolerate, uninstall,
    uninstall_service, unix_state, verify_absent, verify_present, with_logging, Escalation,
    Followup, ServiceOp, ServiceRoute, ServiceState, unix_plan, UnixStep,
};

fn output(success: bool, code: Option<i32>, stdout: &str, stderr: &str, status: &str) -> CommandOutput {
    CommandOutput {
        success,
        code,
        stdout: stdout.to_string(),
        stderr: stderr.to_string(),
        status: status.to_string(),
    }
}

/// The installer writes `"<exe>" --service`; the whole value has to stay one argument.
#[test]
fn bin_path_escapes_the_quotes_around_the_executable() {
    assert_eq!(
        bin_path_value(r"C:\Program Files\nexa\nexa-service.exe"),
        r#"\"C:\Program Files\nexa\nexa-service.exe\" --service"#
    );
}

/// Control-flow lines must not be redirected: appending to a log would swallow the exit
/// code the caller reads back.
#[test]
fn only_command_lines_are_redirected_into_the_log() {
    let script = with_logging(
        &[
            "sc.exe stop nexa-service".to_string(),
            "if errorlevel 1 exit /b %errorlevel%".to_string(),
            "exit /b %errorlevel%".to_string(),
            "sc.exe query nexa-service >nul 2>&1".to_string(),
        ],
        r"C:\Temp\out.log",
    );

    assert!(script.starts_with("@echo off\r\n"));
    assert!(script.contains(r#"sc.exe stop nexa-service >> "C:\Temp\out.log" 2>&1"#));
    assert!(script.contains("if errorlevel 1 exit /b %errorlevel%\r\n"));
    assert!(!script.contains("if errorlevel 1 exit /b %errorlevel% >>"));
    // A line that already redirects keeps its own and gets no second one.
    assert!(script.contains("sc.exe query nexa-service >nul 2>&1\r\n"));
    assert_eq!(script.matches("sc.exe query nexa-service").count(), 1);
}

#[test]
fn a_state_that_is_already_reached_is_not_a_failure() {
    assert_eq!(tolerate("1056"), "if %errorlevel%==1056 exit /b 0");
    let s = start();
    assert_eq!(s.lines, vec!["sc.exe start nexa-service", "if %errorlevel%==1056 exit /b 0", "exit /b %errorlevel%"]);
    assert_eq!(s.escalation, Escalation::OnAccessDenied);
    assert_eq!(s.failure, codes::SERVICE_START_FAILED);
    assert_eq!(s.followup, Followup::Settle(ServiceState::Running));
    let t = stop();
    assert_eq!(t.lines[1], "if %errorlevel%==1062 exit /b 0");
    assert_eq!(t.lines[2], "if %errorlevel%==1060 exit /b 0");
    assert_eq!(t.followup, Followup::Settle(ServiceState::Stopped));
}

#[test]
fn install_registers_or_repoints_then_starts() {
    let plan = install(r"C:\nexa\nexa-service.exe", r"C:\t\x.log");
    assert_eq!(plan.escalation, Escalation::Always);
    assert_eq!(plan.followup, Followup::PresentThenRunning);
    assert_eq!(plan.lines[0], "sc.exe query nexa-service >nul 2>&1");
    assert_eq!(
        plan.lines[1],
        r#"if errorlevel 1 (sc.exe create nexa-service binPath= "\"C:\nexa\nexa-service.exe\" --service" start= auto DisplayName= "Nexa Service" > "C:\t\x.log" 2>&1) else (sc.exe config nexa-service binPath= "\"C:\nexa\nexa-service.exe\" --service" start= auto > "C:\t\x.log" 2>&1)"#
    );
    assert_eq!(plan.lines.len(), 8);
    assert!(uninstall(false).is_none());
    assert_eq!(uninstall(true).unwrap().lines, vec!["sc.exe stop nexa-service", "sc.exe delete nexa-service", "exit /b %errorlevel%"]);
}

#[test]
fn the_prompt_gets_the_batch_file_quoted() {
    assert_eq!(
        elevated_batch_script(r"C:\It's\a.bat"),
        r"$ErrorActionPreference = 'Stop'; $p = Start-Process -FilePath 'cmd.exe' -ArgumentList '/c', 'C:\It''s\a.bat' -Verb RunAs -Wait -PassThru; if ($null -eq $p) { exit 1 }; exit $p.ExitCode"
    );
}

#[test]
fn a_refused_run_is_escalated_and_a_silent_prompt_is_a_refusal() {
    assert!(needs_escalation(&output(false, Some(5), "", "", ""), None));
    assert!(needs_escalation(&output(false, Some(1), "", "", ""), Some("[SC] OpenService FAILED 5:\n\nAccess is denied.\n")));
    assert!(!needs_escalation(&output(false, Some(1060), "", "", ""), Some("does not exist")));
    assert!(!needs_escalation(&output(true, Some(0), "", "", ""), None));

    assert!(batch_outcome(&output(true, Some(0), "", "", ""), true, None, codes::SERVICE_START_FAILED).is_ok());
    let declined = batch_outcome(&output(false, Some(1), "", "", "exit code: 1"), true, Some("  "), codes::SERVICE_START_FAILED).unwrap_err();
    assert_eq!(declined.code, codes::SERVICE_ELEVATION_DENIED);
    assert_eq!(declined.detail.as_deref(), Some("exit code: 1 (no output)"));
    let logged = batch_outcome(&output(false, Some(1056), "", "", ""), true, Some(" [SC] failed 1053 \r\n"), codes::SERVICE_START_FAILED).unwrap_err();
    assert_eq!(logged.code, codes::SERVICE_START_FAILED);
    assert_eq!(logged.detail.as_deref(), Some("[SC] failed 1053"));
    let plain = batch_outcome(&output(false, Some(2), "oops", "", ""), false, None, codes::SERVICE_STOP_FAILED).unwrap_err();
    assert_eq!(plain.code, codes::SERVICE_STOP_FAILED);
    assert_eq!(plain.detail.as_deref(), Some("oops"));
}

#[test]
fn sc_query_decides_the_windows_state() {
    assert_eq!(state(None), ServiceState::NotInstalled);
    assert_eq!(state(Some("[SC] EnumQueryServicesStatus:OpenService FAILED 1060:")), ServiceState::NotInstalled);
    assert_eq!(state(Some("STATE              : 4  RUNNING")), ServiceState::Running);
    assert_eq!(state(Some("STATE              : 1  STOPPED")), ServiceState::Stopped);
    assert!(service_exists(None));
    assert!(!service_exists(Some("FAILED 1060")));
    assert!(verify_present(Some("RUNNING")).is_ok());
    assert_eq!(verify_present(None).unwrap_err().code, codes::SERVICE_INSTALL_FAILED);
    assert_eq!(verify_present(Some("FAILED 1060")).unwrap_err().detail.as_deref(), Some("FAILED 1060"));
    assert!(verify_absent(None).is_ok());
    assert!(verify_absent(Some("FAILED 1060")).is_ok());
    assert_eq!(verify_absent(Some("STOPPED")).unwrap_err().code, codes::SERVICE_UNINSTALL_FAILED);
}

#[test]
fn waiting_for_a_state_ends_in_time() {
    assert!(settle_step(ServiceState::Running, ServiceState::Running, false, codes::SERVICE_START_FAILED, 20, None).unwrap().is_ok());
    assert!(settle_step(ServiceState::Running, ServiceState::Stopped, false, codes::SERVICE_START_FAILED, 20, None).is_none());
    let gone = settle_step(ServiceState::Stopped, ServiceState::NotInstalled, false, codes::SERVICE_STOP_FAILED, 20, None).unwrap().unwrap_err();
    assert_eq!(gone.detail.as_deref(), Some("the service is no longer registered"));
    let late = settle_step(ServiceState::Running, ServiceState::Stopped, true, codes::SERVICE_START_FAILED, 20, Some("WIN32_EXIT_CODE : 1067")).unwrap().unwrap_err();
    assert_eq!(late.code, codes::SERVICE_START_FAILED);
    assert_eq!(late.detail.as_deref(), Some("the service is still stopped after 20s\nWIN32_EXIT_CODE : 1067"));
    let linux = settle_step(ServiceState::Running, ServiceState::Stopped, true, codes::SERVICE_START_FAILED, 5, None).unwrap().unwrap_err();
    assert_eq!(linux.detail.as_deref(), Some("the service is still stopped after 5s"));
}

#[test]
fn the_bundled_service_binary_is_preferred() {
    let c = service_binary_candidates(r"C:\Program Files\nexa");
    assert_eq!(c, vec![r"C:\Program Files\nexa\resources\nexa-service.exe", r"C:\Program Files\nexa\nexa-service.exe"]);
    assert_eq!(choose_service_binary(&c, &vec![false, true], r"C:\x.exe"), c[1]);
    assert_eq!(choose_service_binary(&c, &vec![true, true], r"C:\x.exe"), c[0]);
    assert_eq!(choose_service_binary(&c, &vec![false, false], r"C:\x.exe"), r"C:\x.exe");
}

#[test]
fn systemd_runs_the_dedicated_binary_when_there_is_one() {
    assert_eq!(linux_service_exec_with("/opt/nexa/nexa", true), "/opt/nexa/nexa-service");
    assert_eq!(linux_service_exec_with("/opt/nexa/nexa", false), "/opt/nexa/nexa --foreground");
    let unit = linux_unit_content("/opt/nexa/nexa", false);
    assert!(unit.starts_with("[Unit]\nDescription=Nexa Service\n"));
    assert!(unit.contains("\nExecStart=/opt/nexa/nexa --foreground\n"));
    assert!(unit.ends_with("WantedBy=multi-user.target\n"));
    let plist = macos_plist_content("/Applications/Nexa.app/Contents/MacOS/nexa");
    assert!(plist.contains("<string>/Applications/Nexa.app/Contents/MacOS/nexa</string>\n        <string>--foreground</string>"));
    assert!(plist.contains("<string>com.nexa.nexa-service</string>"));
}

#[test]
fn each_platform_reads_its_own_probe() {
    assert!(is_service_running(Platform::Windows, Some(&output(true, Some(0), "STATE : 4 RUNNING", "", ""))));
    assert!(!is_service_running(Platform::Windows, None));
    assert!(is_service_running(Platform::Linux, Some(&output(true, Some(0), "active\n", "", ""))));
    assert!(!is_service_running(Platform::Linux, Some(&output(false, Some(3), "inactive\n", "", ""))));
    let print = "system/com.nexa.nexa-service = {\n\tactive count = 1\n\tstate = running\n}\n";
    assert!(launchd_running(&output(true, Some(0), print, "", "")));
    assert!(!launchd_running(&output(false, Some(1), print, "", "")));
    assert!(!launchd_running(&output(true, Some(0), "state = waiting\n", "", "")));
    assert!(is_service_running(Platform::MacOs, Some(&output(true, Some(0), "x\r\n    state = running\r\n", "", ""))));
    assert!(!is_service_running(Platform::Other, Some(&output(true, Some(0), "RUNNING", "", ""))));
}

#[test]
fn the_state_comes_from_the_registration_and_the_probe() {
    assert_eq!(unix_state(false, true), ServiceState::NotInstalled);
    assert_eq!(unix_state(true, true), ServiceState::Running);
    assert_eq!(unix_state(true, false), ServiceState::Stopped);
    assert_eq!(service_state(Platform::Windows, Some("RUNNING"), false, false), ServiceState::Running);
    assert_eq!(service_state(Platform::Linux, None, true, false), ServiceState::Stopped);
    assert_eq!(service_state(Platform::Other, Some("RUNNING"), true, true), ServiceState::NotInstalled);
    assert!(command_outcome(&output(true, Some(0), "", "", ""), codes::SERVICE_START_FAILED).is_ok());
    let e = command_outcome(&output(false, Some(5), "", "Unit not found", ""), codes::SERVICE_START_FAILED).unwrap_err();
    assert_eq!((e.code.as_str(), e.detail.as_deref()), (codes::SERVICE_START_FAILED, Some("Unit not found")));
}

#[test]
fn operations_go_through_the_right_channel() {
    assert!(matches!(install_service(Platform::Windows, false), ServiceRoute::Batch(ServiceOp::Install)));
    assert!(matches!(install_service(Platform::Linux, true), ServiceRoute::Inline(ServiceOp::Install)));
    match uninstall_service(Platform::MacOs, false) {
        ServiceRoute::Elevate(args) => assert_eq!(args, vec!["--uninstall"]),
        other => panic!("an unprivileged uninstall is elevated: {other:?}"),
    }
    match install_service(Platform::Other, true) {
        ServiceRoute::Fail(e) => assert_eq!(e.code, codes::SERVICE_UNSUPPORTED_PLATFORM),
        other => panic!("nothing can install here: {other:?}"),
    }
}

fn run_of(step: &UnixStep) -> Option<(String, Vec<String>, Option<String>)> {
    match step {
        UnixStep::Run { program, args, failure } => Some((program.clone(), args.clone(), failure.clone())),
        _ => None,
    }
}

#[test]
fn a_linux_install_is_registered_started_and_must_then_run() {
    let plan = unix_plan(Platform::Linux, ServiceOp::Install, "/etc/systemd/system/nexa-service.service").unwrap();
    assert!(matches!(plan.steps[0], UnixStep::WriteDefinition));
    let runs: Vec<_> = plan.steps[1..].iter().map(|s| run_of(s).unwrap()).collect();
    assert_eq!(runs[0], ("systemctl".to_string(), vec!["daemon-reload".to_string()], Some(codes::SERVICE_DEFINITION_FAILED.to_string())));
    assert_eq!(runs[1].1, vec!["enable", "nexa-service"]);
    assert_eq!(runs[1].2.as_deref(), Some(codes::SERVICE_INSTALL_FAILED));
    assert_eq!(runs[2].1, vec!["start", "nexa-service"]);
    assert_eq!(runs[2].2.as_deref(), Some(codes::SERVICE_START_FAILED));
    let (state, code) = plan.settle.unwrap();
    assert_eq!(state, ServiceState::Running);
    assert_eq!(code, codes::SERVICE_START_FAILED);
}

#[test]
fn uninstalling_on_unix_is_best_effort_and_macos_loads_the_plist() {
    let plan = unix_plan(Platform::Linux, ServiceOp::Uninstall, "/u").unwrap();
    assert_eq!(plan.steps.len(), 4);
    assert!(matches!(plan.steps[2], UnixStep::RemoveDefinition));
    assert!(plan.steps.iter().filter_map(run_of).all(|r| r.2.is_none()));
    assert!(plan.settle.is_none());
    let mac = unix_plan(Platform::MacOs, ServiceOp::Install, "/Library/LaunchDaemons/com.nexa.nexa-service.plist").unwrap();
    assert_eq!(
        run_of(&mac.steps[1]).unwrap(),
        (
            "launchctl".to_string(),
            vec!["load".to_string(), "/Library/LaunchDaemons/com.nexa.nexa-service.plist".to_string()],
            Some(codes::SERVICE_INSTALL_FAILED.to_string())
        )
    );
    let stop = unix_plan(Platform::MacOs, ServiceOp::Stop, "/p").unwrap();
    assert_eq!(run_of(&stop.steps[0]).unwrap().1, vec!["stop", "com.nexa.nexa-service"]);
    assert!(unix_plan(Platform::Windows, ServiceOp::Start, "x").is_none());
}

#[test]
fn the_windows_install_names_the_code_of_a_service_that_never_runs() {
    let plan = install(r"C:\nexa\nexa-service.exe", r"C:\t\x.log");
    assert_eq!(plan.failure, codes::SERVICE_INSTALL_FAILED);
    assert_eq!(plan.settle_failure, codes::SERVICE_START_FAILED);
    assert_eq!(stop().settle_failure, codes::SERVICE_STOP_FAILED);
}
