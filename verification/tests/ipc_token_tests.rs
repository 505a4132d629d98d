use nexa::codes;
use nexa::host::Platform;
use nexa::ipc_token::{
    ensure_token, generate_token, hex_token, profile_roots_from, profile_token_paths_from, read_token,
    read_token_at, read_tokens, reject_world_readable, service_token_paths, token_matches,
    token_matches_any, token_path, unix_home_roots, unix_service_token_paths_from, EnsureEvent,
    EnsureStep, FileRead,
};

#[test]
fn matching_only_happens_for_the_whole_token() {
    assert!(token_matches("abc123", "abc123"));
    assert!(!token_matches("abc123", "abc124"));
    assert!(!token_matches("abc123", "abc1234"));
    assert!(!token_matches("abc123", "ABC123"));
}

#[test]
fn any_published_token_authenticates() {
    let tokens = vec!["first".to_string(), "second".to_string()];
    assert!(token_matches_any(&tokens, "second"));
    assert!(!token_matches_any(&tokens, "third"));
    assert!(!token_matches_any(&[], "first"));
}

#[test]
fn macos_scans_the_directory_its_homes_live_in() {
    assert!(
        unix_home_roots(Platform::MacOs).contains(&"/Users".to_string()),
        "macOS homes are under /Users: {:?}",
        unix_home_roots(Platform::MacOs)
    );
}

#[test]
fn linux_scans_the_runtime_and_home_roots() {
    let roots = unix_home_roots(Platform::Linux);

    assert!(roots.contains(&"/run/user".to_string()), "{roots:?}");
    assert!(roots.contains(&"/home".to_string()), "{roots:?}");
}

#[test]
fn the_profiles_root_is_found_when_running_as_local_system() {
    let roots = profile_roots_from(
        Some(r"C:\Windows\System32\config\systemprofile"),
        Some(r"C:\Users\Public"),
        Some("C:"),
    );

    assert!(
        roots.iter().any(|root| root == r"C:\Users"),
        "the real profiles root must be a candidate: {roots:?}"
    );
    // The misleading one is still tried — it costs a directory scan and nothing else.
    assert!(roots.contains(&r"C:\Windows\System32\config".to_string()));
}

#[test]
fn a_missing_token_file_means_nobody_authenticated_yet() {
    assert_eq!(read_token_at("/tmp/absent/ipc.token", FileRead::NotFound, None).unwrap(), None);
}

#[test]
fn an_empty_token_file_means_nobody_authenticated_yet() {
    // A plain write leaves the file readable by others; an empty token is no token all the same.
    assert_eq!(read_token_at("/tmp/empty/ipc.token", FileRead::Contents("\n".to_string()), Some(0o644)).unwrap(), None);
}

#[test]
fn an_empty_or_unreadable_token_file_is_told_apart() {
    assert_eq!(read_token_at("/t/ipc.token", FileRead::Contents("\n".to_string()), Some(0o600)).unwrap(), None);
    let e = read_token_at("/t/ipc.token", FileRead::Failed("denied".to_string()), None).unwrap_err();
    assert_eq!(e.code, codes::SERVICE_IPC_TOKEN);
    let shared = read_token_at("/t/ipc.token", FileRead::Contents("abc".to_string()), Some(0o644)).unwrap_err();
    assert_eq!(shared.code, codes::SERVICE_IPC_TOKEN);
    assert!(reject_world_readable("/t/ipc.token", Some(0o600)).is_ok());
    assert!(reject_world_readable("/t/ipc.token", None).is_ok());
    assert!(reject_world_readable("/t/ipc.token", Some(0o640)).is_err());
}

#[test]
fn a_generated_token_reads_back_identical() {
    let token = generate_token();
    assert_eq!(token.len(), 64, "32 bytes render as 64 hex characters");
    assert!(token.chars().all(|c| c.is_ascii_hexdigit() && !c.is_ascii_uppercase()));
    let read = read_token_at("/t/ipc.token", FileRead::Contents(format!("{token}\n")), Some(0o600)).unwrap();
    assert_eq!(read.as_deref(), Some(token.as_str()));
    // Two tokens are not the same token.
    assert_ne!(generate_token(), token);
}

#[test]
fn ensuring_a_token_creates_reuses_or_refuses() {
    assert!(matches!(ensure_token("/t/nexapipe/ipc.token", EnsureEvent::Begin(Some("/t/nexapipe".to_string()))), EnsureStep::CreateDir(d) if d == "/t/nexapipe"));
    assert!(matches!(ensure_token("ipc.token", EnsureEvent::Begin(None)), EnsureStep::Finished(Err(_))));
    match ensure_token("/t/ipc.token", EnsureEvent::Read(FileRead::NotFound, None)) {
        EnsureStep::WriteFile(t) => assert_eq!(t.len(), 64),
        other => panic!("a missing token is generated: {other:?}"),
    }
    match ensure_token("/t/ipc.token", EnsureEvent::Read(FileRead::Contents(" abc \n".to_string()), Some(0o600))) {
        EnsureStep::Finished(Ok(t)) => assert_eq!(t, "abc"),
        other => panic!("an existing token is reused: {other:?}"),
    }
    assert!(matches!(ensure_token("/t/ipc.token", EnsureEvent::Read(FileRead::Contents("  ".to_string()), None)), EnsureStep::Finished(Err(_))));
    match ensure_token("/t/ipc.token", EnsureEvent::Wrote { token: "xyz".to_string(), result: Ok(()) }) {
        EnsureStep::Finished(Ok(t)) => assert_eq!(t, "xyz"),
        other => panic!("a written token is the token: {other:?}"),
    }
}

#[test]
fn every_published_token_is_a_candidate_and_the_first_wins_for_the_desktop() {
    let results = vec![
        Ok(None),
        Ok(Some("one".to_string())),
        Err(nexa::error::AppError::new(codes::SERVICE_IPC_TOKEN)),
        Ok(Some("two".to_string())),
    ];
    let tokens = read_tokens(results);
    assert_eq!(tokens, vec!["one", "two"]);
    assert_eq!(read_token(tokens), Some("one".to_string()));
    assert_eq!(read_token(vec![]), None);
}

#[test]
fn the_token_path_follows_the_environment() {
    assert_eq!(
        token_path(Platform::Linux, None, None, Some("/run/user/1000".to_string()), Some("/home/a".to_string()), "/tmp"),
        "/run/user/1000/nexapipe/ipc.token"
    );
    assert_eq!(
        token_path(Platform::Linux, None, None, Some("  ".to_string()), Some("/home/a".to_string()), "/tmp"),
        "/home/a/.cache/nexapipe/ipc.token"
    );
    assert_eq!(
        token_path(Platform::Windows, None, Some(r"C:\Users\a\AppData\Local".to_string()), None, None, r"C:\Temp"),
        r"C:\Users\a\AppData\Local\nexapipe\ipc.token"
    );
    assert_eq!(
        token_path(Platform::MacOs, Some("/x/token".to_string()), None, None, None, "/tmp"),
        "/x/token"
    );
}

#[test]
fn every_scanned_root_yields_both_token_layouts() {
    let candidates = unix_service_token_paths_from(&vec!["/home/alice".to_string()]);
    assert_eq!(
        candidates,
        vec!["/home/alice/nexapipe/ipc.token", "/home/alice/.cache/nexapipe/ipc.token"]
    );
    let profiles = profile_token_paths_from(&vec![r"C:\Users\bob".to_string()]);
    assert_eq!(profiles, vec![r"C:\Users\bob\AppData\Local\nexapipe\ipc.token"]);
    let all = service_token_paths(Some("/o".to_string()), "/own".to_string(), candidates);
    assert_eq!(all[0], "/o");
    assert_eq!(all[1], "/own");
    assert_eq!(all.len(), 4);
    assert_eq!(service_token_paths(Some(" ".to_string()), "/own".to_string(), vec![]), vec!["/own"]);
}

#[test]
fn the_desktop_session_path_is_a_service_candidate() {
    let path = "/tmp/candidates/nexapipe/ipc.token".to_string();
    let token = generate_token();
    // The session's path, handed over through the override, is the first place looked at.
    let candidates = service_token_paths(Some(path.clone()), "/own/nexapipe/ipc.token".to_string(), vec![]);
    assert_eq!(candidates.first(), Some(&path));
    let found = read_token(read_tokens(vec![read_token_at(
        &candidates[0],
        FileRead::Contents(format!("{token}\n")),
        Some(0o600),
    )]));
    assert_eq!(found.as_deref(), Some(token.as_str()));
}

#[test]
fn this_accounts_token_file_is_a_service_candidate() {
    // An account whose home is under /Users, as on macOS.
    let home = "/Users/alice".to_string();
    assert!(unix_home_roots(Platform::MacOs).contains(&"/Users".to_string()));
    let scanned = unix_service_token_paths_from(&vec![home]);
    let expected = "/Users/alice/.cache/nexapipe/ipc.token".to_string();
    assert!(scanned.contains(&expected), "{expected:?} must be found by the scan, which reached {scanned:?}");
}

#[test]
fn a_refused_token_file_is_named_as_debug_formatting_prints_it() {
    let e = reject_world_readable("/t/ipc.token", Some(0o644)).unwrap_err();
    assert_eq!(
        e.detail.as_deref(),
        Some(r#""/t/ipc.token" is readable by other accounts (mode 644); delete it so it is regenerated private"#)
    );
    let odd = reject_world_readable("/t/a\tb\"c", Some(0o604)).unwrap_err();
    assert_eq!(
        odd.detail.as_deref(),
        Some(r#""/t/a\tb\"c" is readable by other accounts (mode 604); delete it so it is regenerated private"#)
    );
}

#[test]
fn a_bare_system_drive_gives_the_profiles_root_at_that_drive() {
    assert_eq!(profile_roots_from(None, None, Some("C:")), vec![r"C:\Users".to_string()]);
    // Already rooted at the profiles directory: not listed twice.
    assert_eq!(
        profile_roots_from(Some(r"C:\Users\alice"), None, Some("C:")),
        vec![r"C:\Users".to_string()]
    );
}

#[test]
fn a_token_is_the_hex_of_its_bytes_high_nibble_first() {
    assert_eq!(hex_token(&[0x00, 0x0a, 0xab, 0xf1, 0xff]), "000aabf1ff");
    let all: Vec<u8> = (0..=255).collect();
    let expected: String = all.iter().map(|b| format!("{b:02x}")).collect();
    assert_eq!(hex_token(&all), expected);
    assert_eq!(hex_token(&[]), "");
}
