use actions_runner::constants::{Architecture, OsPlatform};
use actions_runner::self_updater::{
    accept_package, archive_format, archive_name, check_digest, construct_download_url,
    download_url, generate_update_script, needs_update, package_source, update_script_name,
    update_step, verify_hash, ArchiveFormat, DownloadRetry, DownloadStep, PackageError,
    RunnerRefreshMessage, UpdateStep,
};

// The SHA-256 of "abc".
const ABC: &str = "ba7816bf8f01cfea414140de5dae2223b00361a396177a9cb410ff61f20015ad";

fn message(url: &str, hash: &str) -> RunnerRefreshMessage {
    RunnerRefreshMessage {
        target_version: "2.1".to_string(),
        download_url: url.to_string(),
        hash_value: hash.to_string(),
    }
}

#[test]
fn only_another_version_is_an_update() {
    assert!(!needs_update("v2.0", "2.0"));
    assert!(needs_update("2.1", "2.0"));
    assert_eq!(update_step(true, "2.1", "2.0"), UpdateStep::Skip);
    assert_eq!(update_step(false, "2.0", "2.0"), UpdateStep::Skip);
    assert_eq!(update_step(false, "2.1", "2.0"), UpdateStep::Download);
}

#[test]
fn packages_are_named_by_platform() {
    let url = construct_download_url("v2.1", OsPlatform::Linux, Architecture::X64);
    assert_eq!(
        url,
        "https://github.com/actions/runner/releases/download/v2.1/actions-runner-linux-x64-2.1.tar.gz"
    );
    let url = construct_download_url("2.1", OsPlatform::Windows, Architecture::Arm64);
    assert!(url.ends_with("actions-runner-win-arm64-2.1.zip"));
    assert_eq!(
        download_url(&Some("https://x".to_string()), "1", OsPlatform::MacOS, Architecture::X64),
        "https://x"
    );
    assert_eq!(archive_format("a.zip"), Some(ArchiveFormat::Zip));
    assert_eq!(archive_format("a.tar.gz"), Some(ArchiveFormat::TarGz));
    assert_eq!(archive_format("a.rar"), None);
    assert!(archive_name(OsPlatform::Windows).ends_with(".zip"));
}

#[test]
fn downloads_are_tried_a_limited_number_of_times() {
    let mut retry = DownloadRetry::new();
    let mut steps = 0;
    loop {
        match retry.failed() {
            DownloadStep::Retry(n, delay) => {
                steps += 1;
                assert_eq!((n, delay), (steps, 30));
            }
            DownloadStep::GiveUp => break,
        }
    }
    assert_eq!(steps, 2);
}

#[test]
fn packages_are_verified() {
    assert!(verify_hash(b"abc", ABC).is_ok());
    assert!(verify_hash(b"abc", &ABC.to_uppercase()).is_ok());
    let mismatch = verify_hash(b"abd", ABC).unwrap_err();
    assert_eq!(mismatch.expected, ABC);
    assert_ne!(mismatch.computed, ABC);
    assert!(check_digest(&[0x00, 0xff, 0x1a], "00FF1a").is_ok());
    assert!(check_digest(&[0x00], "01").is_err());
}

#[test]
fn a_package_without_a_hash_is_not_verified() {
    assert!(matches!(accept_package(&message("u", ""), b"x"), Ok(false)));
    assert!(matches!(accept_package(&message("u", ABC), b"abc"), Ok(true)));
    assert!(matches!(
        accept_package(&message("u", ABC), b"x"),
        Err(PackageError::Mismatch(_))
    ));
    assert!(matches!(package_source(&message("", "")), Err(PackageError::NoDownloadUrl)));
    assert!(matches!(package_source(&message("u", "")), Ok(url) if url == "u"));
}

#[test]
fn the_script_replaces_the_runner() {
    let script = generate_update_script(OsPlatform::Linux, "/r", "/r/_work/_update");
    assert!(script.starts_with("#!/bin/bash\n"));
    assert!(script.contains("RUNNER_ROOT=\"/r\"\nUPDATE_DIR=\"/r/_work/_update\"\n"));
    assert!(script.ends_with("exec \"$RUNNER_ROOT/bin/Runner.Listener\" run\n"));
    let script = generate_update_script(OsPlatform::Windows, "C:\\r", "C:\\u");
    assert!(script.contains("set RUNNER_ROOT=C:\\r\nset UPDATE_DIR=C:\\u\n"));
    assert_eq!(update_script_name(OsPlatform::MacOS), "RunnerService.sh.update");
    assert_eq!(update_script_name(OsPlatform::Windows), "RunnerService.cmd.update");
}
