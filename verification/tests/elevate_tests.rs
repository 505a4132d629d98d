use nexa::codes;
use nexa::elevate::{
    applescript, decode_failure, elevated_args, elevation_verdict, executable_to_launch,
    format_output, inline_outcome, is_elevated_child, no_elevation_channel, outcome_from_output,
    parse_result_line, pkexec_spawn, prompt_spawn, quote_applescript, quote_powershell,
    quote_shell, result_line, shell_command, spawn_or_failure, strip_deleted_marker,
    sudo_script, take_result_file_arg, terminal_spawn, uac_script, CommandOutput, ElevatedSpawn,
    ELEVATED_ARG, RESULT_FILE_ARG,
};
use nexa::error::AppError;

fn output(success: bool, code: Option<i32>, stdout: &str, stderr: &str, status: &str) -> CommandOutput {
    CommandOutput {
        success,
        code,
        stdout: stdout.to_string(),
        stderr: stderr.to_string(),
        status: status.to_string(),
    }
}

#[test]
fn lifts_the_result_file_flag_out_of_the_command_line() {
    let mut args = vec![
        "nexa".to_string(),
        "--install".to_string(),
        ELEVATED_ARG.to_string(),
        RESULT_FILE_ARG.to_string(),
        "/tmp/nexapipe-elevate.result".to_string(),
    ];

    assert_eq!(
        take_result_file_arg(&mut args).as_deref(),
        Some("/tmp/nexapipe-elevate.result")
    );
    // The verb has to stay first: that is the position `cli::handle_args` reads.
    assert_eq!(args, vec!["nexa", "--install", ELEVATED_ARG]);
}

#[test]
fn a_missing_result_file_path_is_not_an_argument() {
    let mut args = vec!["nexa".to_string(), RESULT_FILE_ARG.to_string()];

    assert_eq!(take_result_file_arg(&mut args), None);
    assert_eq!(args, vec!["nexa"]);
}

#[test]
fn arguments_without_the_flag_are_left_alone() {
    let mut args = vec!["nexa".to_string(), "--start".to_string()];
    assert_eq!(take_result_file_arg(&mut args), None);
    assert_eq!(args, vec!["nexa", "--start"]);
}

#[test]
fn the_child_reads_back_the_result_file_its_parent_appended() {
    let requested = vec!["--install".to_string()];
    let mut args = elevated_args(&requested, "/tmp/r.result");
    assert_eq!(args, vec!["--install", "--elevated", "--result-file", "/tmp/r.result"]);
    assert!(is_elevated_child(&args));
    assert_eq!(take_result_file_arg(&mut args).as_deref(), Some("/tmp/r.result"));
    assert_eq!(args, vec!["--install", "--elevated"]);
    assert!(!is_elevated_child(&["nexa".to_string(), "--install".to_string()]));
}

#[test]
fn a_deleted_executable_is_replaced_by_the_file_at_its_path() {
    assert_eq!(strip_deleted_marker("/usr/bin/nexa (deleted)").as_deref(), Some("/usr/bin/nexa"));
    assert_eq!(strip_deleted_marker("/usr/bin/nexa"), None);
    assert_eq!(executable_to_launch("/usr/bin/nexa (deleted)", true), "/usr/bin/nexa");
    assert_eq!(executable_to_launch("/usr/bin/nexa (deleted)", false), "/usr/bin/nexa (deleted)");
    assert_eq!(executable_to_launch("/usr/bin/nexa", true), "/usr/bin/nexa");
}

#[test]
fn quoting_follows_each_language() {
    assert_eq!(quote_shell("it's"), r"'it'\''s'");
    assert_eq!(quote_shell("plain"), "'plain'");
    assert_eq!(quote_powershell("O'Brien"), "'O''Brien'");
    assert_eq!(quote_applescript(r#"say "hi" \ bye"#), r#"say \"hi\" \\ bye"#);
}

#[test]
fn the_prompt_scripts_quote_every_word() {
    let args = vec!["--install".to_string(), "a b".to_string()];
    assert_eq!(shell_command("/opt/nexa", &args), "'/opt/nexa' '--install' 'a b'");
    assert_eq!(
        sudo_script("/opt/nexa", &args),
        "sudo -- '/opt/nexa' '--install' 'a b' ; echo ; echo \"Press Enter to close this window.\" ; read _"
    );
    assert_eq!(
        applescript("/opt/nexa", &vec!["--start".to_string()]),
        "do shell script \"'/opt/nexa' '--start'\" with administrator privileges"
    );
    assert_eq!(
        uac_script(r"C:\nexa.exe", &vec!["--install".to_string(), "--elevated".to_string()]),
        r"$ErrorActionPreference = 'Stop'; $p = Start-Process -FilePath 'C:\nexa.exe' -ArgumentList @('--install','--elevated') -Verb RunAs -Wait -WindowStyle Hidden -PassThru; exit $p.ExitCode"
    );
}

#[test]
fn a_result_line_reads_back_as_what_was_written() {
    assert_eq!(result_line(None), "OK:");
    assert_eq!(result_line(Some(r#"{"code":"x"}"#)), r#"ERR:{"code":"x"}"#);
    assert_eq!(parse_result_line("OK:"), Some(Ok(())));
    assert_eq!(parse_result_line("  OK:\n"), Some(Ok(())));
    assert_eq!(parse_result_line(r#"ERR:{"a":"b:c"}"#), Some(Err(r#"{"a":"b:c"}"#.to_string())));
    assert_eq!(parse_result_line("ERR:"), Some(Err(String::new())));
    assert_eq!(parse_result_line("MAYBE:x"), None);
    assert_eq!(parse_result_line("no separator"), None);
    let written = result_line(Some("access denied"));
    assert_eq!(parse_result_line(&written), Some(Err("access denied".to_string())));
}

#[test]
fn prose_from_an_old_child_becomes_a_legacy_failure() {
    let legacy = decode_failure(None, "it broke");
    assert_eq!(legacy.code, codes::SERVICE_LEGACY_FAILURE);
    assert_eq!(legacy.detail.as_deref(), Some("it broke"));
    let decoded = AppError::new(codes::SERVICE_INSTALL_FAILED);
    assert_eq!(decode_failure(Some(decoded.clone()), "ignored").code, "service.install_failed");
}

#[test]
fn a_child_without_a_result_file_is_judged_by_its_exit() {
    assert!(outcome_from_output(&output(true, Some(0), "", "", "exit status: 0")).is_ok());
    let both = outcome_from_output(&output(false, Some(1), " out \n", "err\n", "exit status: 1")).unwrap_err();
    assert_eq!(both.code, codes::SERVICE_FAILED);
    assert_eq!(both.detail.as_deref(), Some("out\nerr"));
    let silent = outcome_from_output(&output(false, Some(3), "", "  ", "exit status: 3")).unwrap_err();
    assert_eq!(silent.detail.as_deref(), Some("child exited with exit status: 3"));
    assert_eq!(format_output(&output(true, None, "a", "", "")), "a");
    assert_eq!(format_output(&output(true, None, "", "b", "")), "b");
    let reported = inline_outcome(Some(Err(AppError::new(codes::SERVICE_START_FAILED))), &output(true, Some(0), "", "", ""));
    assert_eq!(reported.unwrap_err().code, "service.start_failed");
}

#[test]
fn pkexec_separates_a_dismissed_prompt_from_a_failure() {
    let cancelled = pkexec_spawn(&output(false, Some(126), "", "", "exit status: 126"));
    assert!(cancelled.denied && cancelled.failure.is_none());
    let failed = pkexec_spawn(&output(false, Some(127), "", "", "exit status: 127"));
    assert!(!failed.denied);
    let f = failed.failure.unwrap();
    assert_eq!(f.code, codes::SERVICE_ELEVATION_FAILED);
    assert_eq!(f.detail.as_deref(), Some("pkexec exited with exit status: 127"));
    let explained = pkexec_spawn(&output(false, Some(1), "", "no agent", "exit status: 1"));
    assert_eq!(explained.failure.unwrap().detail.as_deref(), Some("no agent"));
    assert!(pkexec_spawn(&output(true, Some(0), "", "", "")).failure.is_none());
}

#[test]
fn each_silent_elevation_is_reported_for_what_it_was() {
    // Something came back: that is the answer.
    assert!(elevation_verdict(Some(Ok(())), None).is_ok());
    // Inline run that reported nothing.
    assert_eq!(elevation_verdict(None, None).unwrap_err().code, codes::SERVICE_FAILED);
    // The launcher failed outright.
    let failed = spawn_or_failure(Err(AppError::new(codes::SERVICE_ELEVATION_UNAVAILABLE)));
    assert_eq!(elevation_verdict(None, Some(failed)).unwrap_err().code, codes::SERVICE_ELEVATION_UNAVAILABLE);
    // A dismissed prompt.
    let denied = prompt_spawn(&output(false, Some(1), "", "cancelled", "exit status: 1"));
    let e = elevation_verdict(None, Some(denied)).unwrap_err();
    assert_eq!(e.code, codes::SERVICE_ELEVATION_DENIED);
    assert_eq!(e.detail.as_deref(), Some("cancelled"));
    // A prompt that was accepted but left nothing and said nothing.
    let quiet = ElevatedSpawn { waited: true, failure: None, denied: false, hint: String::new() };
    let e = elevation_verdict(None, Some(quiet)).unwrap_err();
    assert_eq!((e.code.as_str(), e.detail), (codes::SERVICE_ELEVATION_DENIED, None));
    // A terminal still waiting for a password.
    let waiting = terminal_spawn(None);
    assert!(!waiting.waited);
    let e = elevation_verdict(None, Some(waiting)).unwrap_err();
    assert_eq!(e.code, codes::SERVICE_ELEVATION_INCOMPLETE);
    assert_eq!(e.detail.as_deref(), Some("Waiting for sudo authentication in the terminal window."));
    assert_eq!(
        terminal_spawn(Some("not found")).hint,
        "Failed to launch a terminal emulator: not found"
    );
    let none = no_elevation_channel("/usr/bin/nexa");
    assert_eq!(none.code, codes::SERVICE_ELEVATION_UNAVAILABLE);
    assert_eq!(
        none.detail.as_deref(),
        Some("neither polkit (pkexec) nor a terminal emulator is available; run `sudo /usr/bin/nexa --install` manually")
    );
}
