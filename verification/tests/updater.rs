use croni::updater::valid_repository;
use sha2::{Digest, Sha256};

#[test]
fn validates_github_repository_names() {
    assert!(valid_repository("usuario/CRONI"));
    assert!(valid_repository("mi-org/croni.browser"));
    assert!(!valid_repository(""));
    assert!(!valid_repository("usuario"));
    assert!(!valid_repository("usuario/repo/extra"));
    assert!(!valid_repository("usuario/repo?otro"));
}

use croni::updater::{
    apply_mode, check_downloaded_executable, ensure_github_download_url, fits_within_limit,
    http_target, is_configured, parse_checksum, plan_update, release_api_url, status_is_success,
    to_hex_lower, update_file_name, updater_arguments, user_agent, verify_staged_executable,
    ApplyMode, Release, ReleaseAsset, UpdateError,
};

fn asset(name: &str, url: &str) -> ReleaseAsset {
    ReleaseAsset { name: name.to_string(), browser_download_url: url.to_string() }
}

fn release(tag: &str, assets: Vec<ReleaseAsset>) -> Release {
    Release { tag_name: tag.to_string(), assets }
}

fn hex(bytes: &[u8]) -> String {
    format!("{:x}", Sha256::digest(bytes))
}

#[test]
fn configured_only_with_a_valid_repository() {
    assert!(is_configured("iansitooas/CRONI"));
    assert!(!is_configured(""));
    assert!(!is_configured("a/b c"));
}

#[test]
fn versions_compare_by_semver() {
    let assets = || {
        vec![
            asset("CRONI.exe", "https://github.com/o/r/a"),
            asset("CRONI.exe.sha256", "https://github.com/o/r/b"),
        ]
    };
    let plan = plan_update(&release("v1.10.0", assets()), "1.9.3").unwrap().unwrap();
    assert_eq!(plan.version, "1.10.0");
    assert!(plan_update(&release("1.9.3", assets()), "1.10.0").unwrap().is_none());
    assert!(plan_update(&release("1.0.0-beta", assets()), "1.0.0").unwrap().is_none());
    assert_eq!(plan_update(&release("1.0", assets()), "0.5.6").err(), Some(UpdateError::InvalidRemoteVersion));
}

#[test]
fn digests_are_written_in_lowercase_hex() {
    assert_eq!(to_hex_lower(&vec![0x00, 0xab, 0x7f]).into_iter().collect::<String>(), "00ab7f");
}

#[test]
fn newer_release_is_planned() {
    let r = release(
        "v0.6.0",
        vec![
            asset("croni.EXE", "https://github.com/o/r/releases/download/v0.6.0/CRONI.exe"),
            asset("CRONI.exe.sha256", "https://github.com/o/r/releases/download/v0.6.0/CRONI.exe.sha256"),
        ],
    );
    let plan = plan_update(&r, "0.5.6").unwrap().unwrap();
    assert_eq!(plan.version, "0.6.0");
    assert_eq!(plan.executable_url, "https://github.com/o/r/releases/download/v0.6.0/CRONI.exe");
    assert_eq!(plan.checksum_url, "https://github.com/o/r/releases/download/v0.6.0/CRONI.exe.sha256");
}

#[test]
fn same_or_older_release_is_current() {
    let r = release("V0.5.6", Vec::new());
    assert!(plan_update(&r, "0.5.6").unwrap().is_none());
    let r = release("0.4.0", Vec::new());
    assert!(plan_update(&r, "0.5.6").unwrap().is_none());
}

#[test]
fn release_errors_are_reported() {
    assert_eq!(plan_update(&release("latest", Vec::new()), "0.5.6").err(), Some(UpdateError::InvalidRemoteVersion));
    assert_eq!(plan_update(&release("1.0.0", Vec::new()), "local").err(), Some(UpdateError::InvalidLocalVersion));
    assert_eq!(plan_update(&release("1.0.0", Vec::new()), "0.5.6").err(), Some(UpdateError::MissingExecutable));
    let only_exe = vec![asset("CRONI.exe", "https://github.com/x")];
    assert_eq!(plan_update(&release("1.0.0", only_exe), "0.5.6").err(), Some(UpdateError::MissingChecksum));
    let elsewhere = vec![
        asset("CRONI.exe", "https://evil.example/CRONI.exe"),
        asset("CRONI.exe.sha256", "https://github.com/x"),
    ];
    assert_eq!(plan_update(&release("1.0.0", elsewhere), "0.5.6").err(), Some(UpdateError::DisallowedDownloadUrl));
}

#[test]
fn download_urls_must_be_github_https() {
    assert_eq!(ensure_github_download_url("https://github.com/a"), Ok(()));
    assert_eq!(ensure_github_download_url("http://github.com/a"), Err(UpdateError::DisallowedDownloadUrl));
    assert_eq!(ensure_github_download_url("https://api.github.com/a"), Err(UpdateError::DisallowedDownloadUrl));
    assert_eq!(ensure_github_download_url("::"), Err(UpdateError::InvalidDownloadUrl));
}

#[test]
fn checksum_file_gives_lowercase_digest() {
    let digest = "ABCDEF0123456789abcdef0123456789ABCDEF0123456789abcdef0123456789";
    let text = format!("  {digest}  CRONI.exe\n");
    assert_eq!(parse_checksum(text.into_bytes()), Ok(digest.to_ascii_lowercase()));
    assert_eq!(parse_checksum(b"1234 CRONI.exe".to_vec()), Err(UpdateError::InvalidChecksum));
    assert_eq!(parse_checksum(Vec::new()), Err(UpdateError::InvalidChecksum));
    assert_eq!(parse_checksum(vec![0xc3]), Err(UpdateError::ChecksumNotText));
}


#[test]
fn downloaded_executable_is_checked() {
    let mut exe = vec![0u8; 2048];
    exe[0] = b'M';
    exe[1] = b'Z';
    let digest = hex(&exe);
    assert_eq!(check_downloaded_executable(&exe, &digest), Ok(()));
    assert_eq!(
        check_downloaded_executable(&exe, &digest.to_ascii_uppercase()),
        Err(UpdateError::DownloadChecksumMismatch)
    );
    assert_eq!(check_downloaded_executable(&exe, &"0".repeat(64)), Err(UpdateError::DownloadChecksumMismatch));
    assert_eq!(check_downloaded_executable(&vec![b'M', b'Z'], &digest), Err(UpdateError::DownloadNotExecutable));
    assert_eq!(verify_staged_executable(&exe, &digest.to_ascii_uppercase()), Ok(()));
    assert_eq!(verify_staged_executable(&exe, &"0".repeat(64)), Err(UpdateError::StagedModified));
    assert_eq!(verify_staged_executable(&vec![0u8; 4096], &digest), Err(UpdateError::StagedNotExecutable));
}

#[test]
fn update_files_and_requests() {
    assert_eq!(update_file_name("1.2.3"), "CRONI-1.2.3.exe");
    assert_eq!(release_api_url("o/r"), "https://api.github.com/repos/o/r/releases/latest");
    assert_eq!(user_agent("0.5.6"), "CRONI/0.5.6");
    assert!(status_is_success(200));
    assert!(status_is_success(299));
    assert!(!status_is_success(300));
    assert!(!status_is_success(199));
    assert_eq!(
        updater_arguments(42, "u.exe", "CRONI.exe", "ab"),
        vec!["--croni-apply-update", "42", "u.exe", "CRONI.exe", "ab"]
    );
}

#[test]
fn http_targets_need_https_and_a_host() {
    let t = http_target("https://github.com/o/r/releases?x=1").unwrap();
    assert_eq!(t.host, "github.com");
    assert_eq!(t.port, 443);
    assert_eq!(t.resource, "/o/r/releases?x=1");
    assert_eq!(http_target("https://example.com:8443/a").unwrap().port, 8443);
    assert_eq!(http_target("http://github.com/").err(), Some(UpdateError::NotHttps));
    assert_eq!(http_target("github.com").err(), Some(UpdateError::InvalidUpdateUrl));
}

#[test]
fn downloads_stay_within_their_limit() {
    assert!(fits_within_limit(10, 5, 15));
    assert!(!fits_within_limit(10, 6, 15));
    assert!(!fits_within_limit(usize::MAX, 1, usize::MAX));
}

#[test]
fn updater_command_line_is_recognized() {
    let args = |v: &[&str]| v.iter().map(|s| s.to_string()).collect::<Vec<_>>();
    assert_eq!(apply_mode(&args(&["croni"])), ApplyMode::NotRequested);
    assert_eq!(apply_mode(&args(&["croni", "https://x"])), ApplyMode::NotRequested);
    assert_eq!(apply_mode(&args(&["croni", "--croni-apply-update", "1"])), ApplyMode::Incomplete);
    assert_eq!(
        apply_mode(&args(&["croni", "--croni-apply-update", "1", "u", "t", "s"])),
        ApplyMode::Apply
    );
}

#[test]
fn update_errors_have_messages() {
    assert_eq!(UpdateError::NotHttps.message(), "la actualización sólo admite HTTPS");
    assert_eq!(UpdateError::IncompleteArguments.message(), "parámetros de actualización incompletos");
}
