use onetcli::update::format_bytes;

#[test]
fn test_format_bytes() {
    assert_eq!(format_bytes(0), "0 B");
    assert_eq!(format_bytes(1024), "1.0 KB");
}

/// The same size formatted through `f64`, as the dialog computes it.
fn format_bytes_f64(value: u64) -> String {
    const KB: f64 = 1024.0;
    const MB: f64 = KB * 1024.0;
    const GB: f64 = MB * 1024.0;
    let value = value as f64;
    if value >= GB {
        format!("{:.2} GB", value / GB)
    } else if value >= MB {
        format!("{:.2} MB", value / MB)
    } else if value >= KB {
        format!("{:.1} KB", value / KB)
    } else {
        format!("{} B", value as u64)
    }
}

#[test]
fn format_bytes_units_and_rounding() {
    assert_eq!(format_bytes(1023), "1023 B");
    assert_eq!(format_bytes(1536), "1.5 KB");
    assert_eq!(format_bytes(1048576), "1.00 MB");
    assert_eq!(format_bytes(1073741824), "1.00 GB");
    assert_eq!(format_bytes(1610612736), "1.50 GB");
    // 1.25 KiB lies exactly between 1.2 and 1.3: ties go to the even digit.
    assert_eq!(format_bytes(1280), "1.2 KB");
    assert_eq!(format_bytes(u64::MAX), "17179869184.00 GB");
}

#[test]
fn format_bytes_agrees_with_f64_formatting() {
    let mut values: Vec<u64> = Vec::new();
    for i in 0..5000u64 {
        values.push(i);
        values.push(i * 997 + 1000);
        values.push(i * 1_048_573 + 17);
        values.push(i.wrapping_mul(0x9E37_79B9_7F4A_7C15));
    }
    for shift in 0..64u32 {
        let base = 1u64 << shift;
        values.push(base);
        values.push(base.wrapping_sub(1));
        values.push(base.wrapping_add(1));
        values.push(base + base / 2);
        values.push(base + base / 4);
        values.push(base + base / 8);
    }
    values.push(u64::MAX);
    values.push(u64::MAX - 1024);
    for v in values {
        assert_eq!(format_bytes(v), format_bytes_f64(v), "value {}", v);
    }
}

use onetcli::update::{
    check_update, download_file_name, is_cross_device_link_error, parse_version,
    select_download_url, Platform, SemVersion, UpdateDownloads, UpdateResponse,
};

#[test]
fn test_parse_version() {
    let parsed = parse_version("v1.2.3").expect("version parses");
    assert_eq!(parsed, SemVersion::new(1, 2, 3));
}

fn is_newer(latest: &str, current: &str) -> bool {
    let latest = parse_version(latest).expect("latest version parses");
    let current = parse_version(current).expect("current version parses");
    latest.is_newer_than(&current)
}

#[test]
fn test_version_compare() {
    let newer = parse_version("1.2.0").unwrap();
    let older = parse_version("1.1.9").unwrap();
    assert!(newer.is_newer_than(&older));
    assert!(!is_newer("1.1.0", "1.1.0"));
    assert!(is_newer("1.1.1", "1.1.0"));
    assert!(!is_newer("1.0.9", "1.1.0"));
}

#[test]
fn parse_version_rejects_malformed() {
    assert!(parse_version("1.0").is_none());
    assert!(parse_version("vv1.0.0").is_none());
    assert!(parse_version("  v2.0.0-beta.1  ").is_some());
    assert!(is_newer("2.0.0", "2.0.0-rc.1"));
}

fn response(version: &str) -> UpdateResponse {
    UpdateResponse {
        version: version.to_string(),
        download_url: Some("https://example.com/all".to_string()),
        downloads: Some(UpdateDownloads {
            windows: Some("https://example.com/win.exe".to_string()),
            macos: None,
            linux: Some("https://example.com/app.tar.gz".to_string()),
        }),
        release_notes: Some("notes".to_string()),
    }
}

#[test]
fn download_url_prefers_platform_then_general_then_default() {
    let r = response("1.0.0");
    assert_eq!(
        select_download_url(&r, Some("d".to_string()), Platform::Linux),
        Some("https://example.com/app.tar.gz".to_string())
    );
    assert_eq!(
        select_download_url(&r, Some("d".to_string()), Platform::MacOs),
        Some("https://example.com/all".to_string())
    );
    let bare = UpdateResponse { version: "1.0.0".to_string(), download_url: None, downloads: None, release_notes: None };
    assert_eq!(select_download_url(&bare, Some("d".to_string()), Platform::Linux), Some("d".to_string()));
    assert_eq!(select_download_url(&bare, None, Platform::Linux), None);
}

#[test]
fn update_offered_only_for_newer_versions() {
    let info = check_update(&response("v1.3.0"), "1.2.9", None, Platform::Windows).expect("newer");
    assert_eq!(info.latest_version, "v1.3.0");
    assert_eq!(info.current_version, "1.2.9");
    assert_eq!(info.download_url, Some("https://example.com/win.exe".to_string()));
    assert!(check_update(&response("1.2.9"), "1.2.9", None, Platform::Linux).is_none());
    assert!(check_update(&response("not a version"), "1.2.9", None, Platform::Linux).is_none());
}

#[test]
fn download_file_name_keeps_the_extension() {
    assert_eq!(
        download_file_name("1.2.3", "https://example.com/dl/app.tar.gz", Platform::Linux),
        "pig-update-1.2.3.gz"
    );
    assert_eq!(
        download_file_name("feature/x", "https://example.com/dl/app", Platform::Linux),
        "pig-update-feature-x"
    );
    assert_eq!(
        download_file_name("1.0.0", "https://example.com/dl/app", Platform::Windows),
        "pig-update-1.0.0.exe"
    );
    assert_eq!(
        download_file_name("1.0.0", "https://example.com/dl/.hidden", Platform::Linux),
        "pig-update-1.0.0"
    );
}

#[test]
fn cross_device_link_is_error_18() {
    assert!(is_cross_device_link_error(Some(18)));
    assert!(!is_cross_device_link_error(Some(2)));
    assert!(!is_cross_device_link_error(None));
}

#[test]
fn pre_release_and_build_order_follow_semver() {
    assert!(is_newer("1.0.0-alpha.10", "1.0.0-alpha.2"));
    assert!(is_newer("1.0.0-alpha.beta", "1.0.0-alpha.1"));
    assert!(is_newer("1.0.0-alpha.1", "1.0.0-alpha"));
    assert!(is_newer("1.0.0-beta", "1.0.0-alpha.9"));
    assert!(is_newer("1.0.0", "1.0.0-rc.1"));
    assert!(is_newer("1.0.0+10", "1.0.0+9"));
    assert!(is_newer("1.0.0+01", "1.0.0+1"));
    assert!(is_newer("1.0.0+a", "1.0.0+1"));
    assert!(!is_newer("1.0.0+1", "1.0.0+1"));
}
