use orbit::adapters::snap::{SnapAdapter, SnapInfo};
use orbit::models::{InstallScope, PackageSource};

fn lines(v: &[&str]) -> Vec<String> {
    v.iter().map(|s| s.to_string()).collect()
}

#[test]
fn snap_backend_and_name() {
    assert_eq!(SnapAdapter::new().backend_id(), "snap");
    assert_eq!(SnapAdapter::snap_name("snap:firefox"), "firefox");
    assert_eq!(SnapAdapter::snap_name("firefox"), "firefox");
}

#[test]
fn snap_paths() {
    assert_eq!(SnapAdapter::image_path("firefox"), "/var/lib/snapd/snaps/firefox.snap");
    assert_eq!(SnapAdapter::data_dir("firefox"), "/var/snap/firefox");
    assert_eq!(SnapAdapter::mount_dir("firefox"), "/snap/firefox/current");
    assert_eq!(SnapAdapter::config_dir("firefox"), "/var/snap/firefox/current");
}

#[test]
fn snap_listing_line_fields() {
    let e = SnapAdapter::listing_line(
        "firefox   128.0-1   4650  latest/stable  mozilla**  -",
    )
    .unwrap();
    assert_eq!(e.name, "firefox");
    assert_eq!(e.version, "128.0-1");
    assert_eq!(e.notes, "-");
    let e = SnapAdapter::listing_line("core22 20240111").unwrap();
    assert_eq!(e.name, "core22");
    assert_eq!(e.version, "20240111");
    assert_eq!(e.notes, "");
    assert!(SnapAdapter::listing_line("").is_none());
    assert!(SnapAdapter::listing_line("Name  Version  Rev").is_none());
    assert!(SnapAdapter::listing_line("    ").is_none());
}

#[test]
fn snap_listed_footprint_fields() {
    let e = SnapAdapter::listing_line("firefox 128.0 4650 latest/stable mozilla -").unwrap();
    let fp = SnapAdapter::listed_footprint(e, 4096);
    assert_eq!(fp.id, "snap:firefox");
    assert_eq!(fp.display_name, "firefox");
    assert_eq!(fp.source, PackageSource::Snap);
    assert_eq!(fp.version, "128.0");
    assert_eq!(fp.architecture, "");
    assert_eq!(fp.scope, InstallScope::System);
    assert_eq!(fp.size_bytes.total_footprint, 4096);
    assert_eq!(fp.size_bytes.package_size, 0);
}

#[test]
fn snap_parse_info_fields() {
    let ls = lines(&[
        "name:      firefox",
        "summary:   Mozilla Firefox web browser",
        "publisher: Mozilla**",
        "contact:   https://support.mozilla.org",
        "license:   MPL-2.0",
        "description: |",
        "version:   128.0",
    ]);
    let info = SnapAdapter::parse_info(&ls);
    assert_eq!(info.version, "128.0");
    assert_eq!(info.summary, "Mozilla Firefox web browser");
    assert_eq!(info.description, "|");
    assert_eq!(info.homepage, Some("https://support.mozilla.org".to_string()));
    assert_eq!(info.license, Some("MPL-2.0".to_string()));
}

#[test]
fn snap_parse_info_unset_license_and_empty_contact() {
    let info = SnapAdapter::parse_info(&lines(&["license: unset", "contact:   "]));
    assert_eq!(info.license, None);
    assert_eq!(info.homepage, None);
    let info = SnapAdapter::parse_info(&Vec::new());
    assert_eq!(info.version, "");
}

#[test]
fn snap_footprint_from_info() {
    let info = SnapInfo {
        version: "1.0".to_string(),
        summary: "S".to_string(),
        description: "D".to_string(),
        homepage: Some("https://x".to_string()),
        license: None,
    };
    let fp = SnapAdapter::footprint("hello", info, 10);
    assert_eq!(fp.id, "snap:hello");
    assert_eq!(fp.display_name, "hello");
    assert_eq!(fp.version, "1.0");
    assert_eq!(fp.summary, "S");
    assert_eq!(fp.description, "D");
    assert_eq!(fp.homepage, Some("https://x".to_string()));
    assert_eq!(fp.license, None);
    assert_eq!(fp.size_bytes.total_footprint, 10);
}
