use sha2::{Digest, Sha256};
use zkteco_bridge::update::{
    asset_name, check_checksum_file, check_hash_in_text, current_version, latest_redirect_url, next_step,
    parse_version_from_url, release_url, reports_version, tag_version, update_status, version_newer,
    UpdateOpts, UpdateStep,
};

#[test]
fn version_compare() {
    assert!(version_newer("0.2.10", "0.2.9"));
    assert!(version_newer("0.3.0", "0.2.99"));
    assert!(version_newer("1.0.0", "0.9.9"));
    assert!(!version_newer("0.2.9", "0.2.9"));
    assert!(!version_newer("0.2.8", "0.2.9"));
    assert!(version_newer("v0.2.10", "0.2.9"));
}

#[test]
fn parses_version_from_redirect_url() {
    let url = "https://github.com/anonto42/fbsy/releases/download/v0.3.1/fbsy-linux-x86_64";
    assert_eq!(parse_version_from_url(url).as_deref(), Some("0.3.1"));
    assert_eq!(parse_version_from_url("https://example.com/no/version"), None);
}

#[test]
fn checksum_fails_closed_when_no_entry_for_asset() {
    let bytes = b"binary content";
    let text = "deadbeef00000000000000000000000000000000000000000000000000000000  other-platform";
    let result = check_hash_in_text(text, "fbsy-linux-x86_64", bytes);
    assert!(result.is_err());
    let msg = result.unwrap_err();
    assert!(msg.contains("no SHA-256 entry"), "expected fail-closed error, got: {msg}");
}

#[test]
fn checksum_fails_closed_on_hash_mismatch() {
    let bytes = b"binary content";
    let wrong_hash = "0".repeat(64);
    let text = format!("{wrong_hash}  fbsy-linux-x86_64");
    let result = check_hash_in_text(&text, "fbsy-linux-x86_64", bytes);
    assert!(result.is_err());
    let msg = result.unwrap_err();
    assert!(msg.contains("checksum mismatch"), "expected mismatch error, got: {msg}");
}

#[test]
fn checksum_passes_with_correct_hash() {
    let bytes = b"binary content";
    let mut hasher = Sha256::new();
    hasher.update(bytes);
    let hash = format!("{:x}", hasher.finalize());
    let text = format!("{hash}  fbsy-linux-x86_64");
    assert!(check_hash_in_text(&text, "fbsy-linux-x86_64", bytes).is_ok(), "correct hash should pass");
}

#[test]
fn checksum_fails_closed_when_text_is_empty() {
    let result = check_hash_in_text("", "fbsy-linux-x86_64", b"anything");
    assert!(result.is_err());
    assert!(result.unwrap_err().contains("no SHA-256 entry"));
}

#[test]
fn checksum_entries_accept_upper_case_and_other_lines() {
    let bytes = b"payload";
    let hash = format!("{:x}", Sha256::digest(bytes));
    let text = format!("abc  other\n\n{}  fbsy-macos-arm64\r\n", hash.to_uppercase());
    assert!(check_hash_in_text(&text, "fbsy-macos-arm64", bytes).is_ok());
    assert!(check_checksum_file(text.as_bytes(), "fbsy-macos-arm64", bytes).is_ok());
    let err = check_hash_in_text(&format!("{}  a", "1".repeat(64)), "a", bytes).unwrap_err();
    assert_eq!(err, format!("checksum mismatch for 'a' (expected {}, got {hash})", "1".repeat(64)));
    assert_eq!(
        check_hash_in_text("x", "a", bytes).unwrap_err(),
        "no SHA-256 entry for 'a' in checksums.txt — update aborted"
    );
}

#[test]
fn versions_missing_parts_count_as_zero() {
    assert!(!version_newer("1.0", "1.0.0"));
    assert!(version_newer("1.0.1", "1.0"));
    assert!(!version_newer("x", "0"));
    assert_eq!(tag_version("vv1.2"), "1.2");
    let st = update_status("0.1.0", "0.2.0");
    assert!(st.newer);
    assert_eq!(st.latest, "0.2.0");
}

#[test]
fn update_steps_follow_the_flags() {
    let newer = update_status("0.1.0", "0.2.0");
    let same = update_status("0.2.0", "0.2.0");
    assert_eq!(next_step(&same, UpdateOpts::default()), UpdateStep::UpToDate);
    assert_eq!(next_step(&newer, UpdateOpts { check_only: true, ..UpdateOpts::default() }), UpdateStep::ReportOnly);
    assert_eq!(next_step(&newer, UpdateOpts::default()), UpdateStep::Confirm);
    assert_eq!(next_step(&newer, UpdateOpts { auto: true, ..UpdateOpts::default() }), UpdateStep::Install);
}

#[test]
fn release_files_and_assets() {
    assert_eq!(asset_name("linux", "x86_64"), "fbsy-linux-x86_64");
    assert_eq!(asset_name("macos", "aarch64"), "fbsy-macos-arm64");
    assert_eq!(asset_name("freebsd", "x86_64"), "");
    assert_eq!(
        release_url("0.3.1", "checksums.txt"),
        "https://github.com/anonto42/fbsy/releases/download/v0.3.1/checksums.txt"
    );
    assert_eq!(
        latest_redirect_url("fbsy-linux-x86_64"),
        "https://github.com/anonto42/fbsy/releases/latest/download/fbsy-linux-x86_64"
    );
    assert!(reports_version("fbsy 0.3.1", "0.3.1"));
    assert!(!reports_version("fbsy 0.3.0", "0.3.1"));
    assert_eq!(current_version(), "0.1.0");
}
