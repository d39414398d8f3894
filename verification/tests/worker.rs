use std::path::PathBuf;

use backend::worker::{parse_result_path, resolve_binary, WORKER_BIN_NAME};

#[test]
fn env_override_wins_over_sibling() {
    let exe = PathBuf::from("/opt/app/backend");
    let got = resolve_binary(Some("/custom/engine-worker"), exe.to_str());
    assert_eq!(PathBuf::from(got), PathBuf::from("/custom/engine-worker"));
}

#[test]
fn empty_env_falls_back_to_sibling() {
    let exe = PathBuf::from("/opt/app/backend");
    let got = resolve_binary(Some(""), exe.to_str());
    assert_eq!(PathBuf::from(got), PathBuf::from("/opt/app/engine-worker"));
}

#[test]
fn no_env_uses_sibling_of_current_exe() {
    let exe = PathBuf::from("/opt/app/backend");
    let got = resolve_binary(None, exe.to_str());
    assert_eq!(PathBuf::from(got), PathBuf::from("/opt/app/engine-worker"));
}

#[test]
fn no_exe_falls_back_to_bare_name() {
    let got = resolve_binary(None, None);
    assert_eq!(PathBuf::from(got), PathBuf::from(WORKER_BIN_NAME));
}

#[test]
fn parses_result_path_ignoring_log_noise() {
    let stdout = b"[2026-07-12 14:00] [error] bruit libslic3r\nR /tmp/wsm-load-42.bin\n";
    assert_eq!(
        parse_result_path(stdout),
        Some("/tmp/wsm-load-42.bin".to_string())
    );
    assert_eq!(parse_result_path(b"pas de ligne R"), None);
}
