use nexa::cli::{handle_args, run_daemon, run_foreground, status_text, CliVerb};
use nexa::host::Platform;

fn args(words: &[&str]) -> Vec<String> {
    words.iter().map(|w| w.to_string()).collect()
}

#[test]
fn the_verb_is_read_once_the_result_file_is_gone() {
    let mut a = args(&["nexa", "--install", "--elevated", "--result-file", "/tmp/r"]);
    let c = handle_args(Platform::Linux, &mut a).unwrap();
    assert_eq!(c.verb, CliVerb::Install);
    assert_eq!(c.result_file.as_deref(), Some("/tmp/r"));
    assert_eq!(a, args(&["nexa", "--install", "--elevated"]));

    let mut b = args(&["nexa", "--status"]);
    let c = handle_args(Platform::MacOs, &mut b).unwrap();
    assert_eq!((c.verb, c.result_file), (CliVerb::Status, None));
}

#[test]
fn unknown_or_foreign_verbs_start_the_app_normally() {
    assert!(handle_args(Platform::Linux, &mut args(&["nexa"])).is_none());
    assert!(handle_args(Platform::Linux, &mut args(&["nexa", "--frobnicate"])).is_none());
    assert!(handle_args(Platform::Linux, &mut args(&["nexa", "--service"])).is_none());
    assert_eq!(handle_args(Platform::Windows, &mut args(&["nexa", "--service"])).unwrap().verb, CliVerb::Service);
    assert_eq!(handle_args(Platform::Linux, &mut args(&["nexa", "--foreground"])).unwrap().verb, CliVerb::Foreground);
}

#[test]
fn the_service_is_daemonized_only_where_it_can_be() {
    assert!(run_daemon(Platform::Linux).daemonize);
    assert!(!run_daemon(Platform::Windows).daemonize);
    assert!(!run_foreground().daemonize);
    assert_eq!(run_foreground().log_file, "nexa-service.log");
    assert_eq!(status_text(true), "Service running: true");
    assert_eq!(status_text(false), "Service running: false");
}
