use orbit::adapters::flatpak::{FlatpakAdapter, FlatpakInfo, FlatpakListEntry};
use orbit::models::{DependencyType, InstallScope, PackageSource, SizeBreakdown};

fn lines(v: &[&str]) -> Vec<String> {
    v.iter().map(|s| s.to_string()).collect()
}

#[test]
fn flatpak_backend_and_id() {
    assert_eq!(FlatpakAdapter::new().backend_id(), "flatpak");
    assert_eq!(FlatpakAdapter::flatpak_id("flatpak:org.gnome.Maps"), "org.gnome.Maps");
    assert_eq!(FlatpakAdapter::flatpak_id("org.gnome.Maps"), "org.gnome.Maps");
}

#[test]
fn flatpak_size_parts_units() {
    assert_eq!(FlatpakAdapter::size_parts("384.3 MB"), Some(("384.3".to_string(), 1_000_000)));
    assert_eq!(FlatpakAdapter::size_parts("  12 kB "), Some(("12".to_string(), 1000)));
    assert_eq!(FlatpakAdapter::size_parts("12 KB"), Some(("12".to_string(), 1000)));
    assert_eq!(FlatpakAdapter::size_parts("1.5\u{a0}GB"), Some(("1.5".to_string(), 1_000_000_000)));
    assert_eq!(FlatpakAdapter::size_parts("2\u{202f}TB"), Some(("2".to_string(), 1_000_000_000_000)));
    assert_eq!(FlatpakAdapter::size_parts("7 B"), Some(("7".to_string(), 1)));
    assert_eq!(FlatpakAdapter::size_parts("7 bytes"), Some(("7".to_string(), 1)));
    assert_eq!(FlatpakAdapter::size_parts("42"), Some(("42".to_string(), 1_000_000)));
    assert_eq!(FlatpakAdapter::size_parts("   "), None);
    assert_eq!(FlatpakAdapter::size_parts(""), None);
}

#[test]
fn flatpak_decimal_point() {
    assert_eq!(FlatpakAdapter::decimal_point("384,3"), "384.3");
    assert_eq!(FlatpakAdapter::decimal_point("384.3"), "384.3");
}

#[test]
fn flatpak_install_candidates_and_pick() {
    let user = FlatpakAdapter::install_candidates("org.a.B", "user", "/home/u");
    assert_eq!(
        user,
        vec![
            "/home/u/.local/share/flatpak/app/org.a.B/current/active/files".to_string(),
            "/home/u/.local/share/flatpak/app/org.a.B/active/files".to_string(),
        ]
    );
    let sys = FlatpakAdapter::install_candidates("org.a.B", "system", "/home/u");
    assert_eq!(sys[0], "/var/lib/flatpak/app/org.a.B/current/active/files");
    assert_eq!(sys[1], "/var/lib/flatpak/app/org.a.B/active/files");
    assert_eq!(FlatpakAdapter::pick_install_dir(&sys, &vec![false, true]), sys[1]);
    assert_eq!(FlatpakAdapter::pick_install_dir(&sys, &vec![true, true]), sys[0]);
    assert_eq!(FlatpakAdapter::pick_install_dir(&sys, &vec![false, false]), sys[0]);
}

#[test]
fn flatpak_directories() {
    assert_eq!(FlatpakAdapter::system_app_dir("org.a.B"), "/var/lib/flatpak/app/org.a.B");
    assert_eq!(
        FlatpakAdapter::user_app_dir("/root", "org.a.B"),
        "/root/.local/share/flatpak/app/org.a.B"
    );
    assert_eq!(
        FlatpakAdapter::active_files_dir("/var/lib/flatpak/app/org.a.B"),
        "/var/lib/flatpak/app/org.a.B/current/active/files"
    );
}

#[test]
fn flatpak_listing_line_fields() {
    let e = FlatpakAdapter::listing_line(
        "org.gnome.Maps\tMaps\t45.1\tstable\tx86_64\tuser\t12.3 MB",
    )
    .unwrap();
    assert_eq!(e.app_id, "org.gnome.Maps");
    assert_eq!(e.display_name, "Maps");
    assert_eq!(e.version, "45.1");
    assert_eq!(e.arch, "x86_64");
    assert_eq!(e.installation, "user");
    assert_eq!(e.size_text, Some("12.3 MB".to_string()));
    assert!(FlatpakAdapter::listing_line("").is_none());
    assert!(FlatpakAdapter::listing_line("Application ID\tName").is_none());
}

#[test]
fn flatpak_listing_line_short() {
    let e = FlatpakAdapter::listing_line("org.x.Y").unwrap();
    assert_eq!(e.app_id, "org.x.Y");
    assert_eq!(e.display_name, "org.x.Y");
    assert_eq!(e.version, "");
    assert_eq!(e.arch, "");
    assert_eq!(e.installation, "system");
    assert_eq!(e.size_text, None);
}

#[test]
fn flatpak_measured_size() {
    assert!(FlatpakAdapter::measured_size(0).is_none());
    let b = FlatpakAdapter::measured_size(500).unwrap();
    assert_eq!(b.total_footprint, 500);
    assert_eq!(b.package_size, 500);
    assert_eq!(b.config_size, 0);
    assert_eq!(b.cache_size, 0);
}

#[test]
fn flatpak_listed_footprint_fields() {
    let e = FlatpakListEntry {
        app_id: "org.gnome.Maps".to_string(),
        display_name: "Maps".to_string(),
        version: "45.1".to_string(),
        arch: "x86_64".to_string(),
        installation: "user".to_string(),
        size_text: None,
    };
    let sizes = SizeBreakdown {
        package_size: 7,
        config_size: 0,
        cache_size: 0,
        data_size: 0,
        shared_size: 0,
        total_footprint: 7,
    };
    let fp = FlatpakAdapter::listed_footprint(e, sizes);
    assert_eq!(fp.id, "flatpak:org.gnome.Maps");
    assert_eq!(fp.display_name, "Maps");
    assert_eq!(fp.source, PackageSource::Flatpak);
    assert_eq!(fp.scope, InstallScope::User);
    assert_eq!(fp.size_bytes, sizes);
    assert_eq!(fp.installed_at, None);
    assert!(fp.tracked_files.is_empty());
}

#[test]
fn flatpak_parse_info_header_and_table() {
    let ls = lines(&[
        "",
        "Maps - Find places around the world",
        "",
        "          ID: org.gnome.Maps",
        "Version: 45.1",
        "Arch: x86_64",
        "License: GPL-2.0+",
        "Origin: flathub",
    ]);
    let info = FlatpakAdapter::parse_info("org.gnome.Maps", &ls);
    assert_eq!(info.display_name, "Maps");
    assert_eq!(info.summary, "Find places around the world");
    assert_eq!(info.version, "45.1");
    assert_eq!(info.arch, "x86_64");
    assert_eq!(info.license, Some("GPL-2.0+".to_string()));
}

#[test]
fn flatpak_parse_info_defaults() {
    let info = FlatpakAdapter::parse_info("org.x.Y", &Vec::new());
    assert_eq!(info.display_name, "org.x.Y");
    assert_eq!(info.summary, "");
    assert_eq!(info.license, None);
    let ls = lines(&["Just A Name", "ID: org.x.Y", "License:   ", "Version:1"]);
    let info = FlatpakAdapter::parse_info("org.x.Y", &ls);
    assert_eq!(info.display_name, "Just A Name");
    assert_eq!(info.summary, "");
    assert_eq!(info.license, None);
    assert_eq!(info.version, "1");
}

#[test]
fn flatpak_parse_shown_size() {
    assert_eq!(FlatpakAdapter::parse_shown_size(&Some(lines(&[" 123456 ", "x"]))), 123456);
    assert_eq!(FlatpakAdapter::parse_shown_size(&Some(lines(&["12 MB"]))), 0);
    assert_eq!(FlatpakAdapter::parse_shown_size(&Some(Vec::new())), 0);
    assert_eq!(FlatpakAdapter::parse_shown_size(&None), 0);
}

#[test]
fn flatpak_footprint_from_info() {
    let info = FlatpakInfo {
        display_name: "Maps".to_string(),
        summary: "Find places".to_string(),
        version: "45.1".to_string(),
        arch: "aarch64".to_string(),
        license: Some("GPL".to_string()),
    };
    let sizes = FlatpakAdapter::measured_size(99).unwrap();
    let fp = FlatpakAdapter::footprint("org.gnome.Maps", "system", info, sizes);
    assert_eq!(fp.id, "flatpak:org.gnome.Maps");
    assert_eq!(fp.scope, InstallScope::System);
    assert_eq!(fp.summary, "Find places");
    assert_eq!(fp.license, Some("GPL".to_string()));
    assert_eq!(fp.architecture, "aarch64");
    assert_eq!(fp.size_bytes.total_footprint, 99);
}

#[test]
fn flatpak_runtime_dependency() {
    let d = FlatpakAdapter::runtime_dependency(Some("org.gnome.Platform/x86_64/45".to_string()));
    assert_eq!(d.len(), 1);
    assert_eq!(d[0].name, "org.gnome.Platform/x86_64/45");
    assert_eq!(d[0].version, "");
    assert_eq!(d[0].dependency_type, DependencyType::Runtime);
    assert!(FlatpakAdapter::runtime_dependency(Some(String::new())).is_empty());
    assert!(FlatpakAdapter::runtime_dependency(None).is_empty());
}
