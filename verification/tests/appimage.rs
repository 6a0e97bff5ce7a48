use orbit::adapters::appimage::AppImageAdapter;
use orbit::models::{InstallScope, PackageSource};

#[test]
fn appimage_backend_and_file_name() {
    assert_eq!(AppImageAdapter::new().backend_id(), "appimage");
    assert_eq!(AppImageAdapter::file_name("appimage:Foo.AppImage"), "Foo.AppImage");
    assert_eq!(AppImageAdapter::file_name("Foo.AppImage"), "Foo.AppImage");
}

#[test]
fn appimage_scan_dirs_in_order() {
    assert_eq!(AppImageAdapter::home_or_root(None), "/root");
    assert_eq!(AppImageAdapter::home_or_root(Some("/home/u".to_string())), "/home/u");
    assert_eq!(
        AppImageAdapter::scan_dirs("/home/u"),
        vec![
            "/home/u/Applications".to_string(),
            "/home/u/AppImages".to_string(),
            "/home/u/bin".to_string(),
            "/home/u/.local/bin".to_string(),
            "/opt".to_string(),
            "/usr/local/bin".to_string(),
        ]
    );
}

#[test]
fn appimage_extension_check() {
    assert!(AppImageAdapter::has_appimage_extension("/opt/Foo.AppImage"));
    assert!(AppImageAdapter::has_appimage_extension("/opt/Foo.appimage"));
    assert!(AppImageAdapter::has_appimage_extension("/opt/Foo.APPIMAGE"));
    assert!(!AppImageAdapter::has_appimage_extension("/opt/Foo.deb"));
    assert!(!AppImageAdapter::has_appimage_extension("/opt/foo"));
}

#[test]
fn appimage_file_output_check() {
    assert!(AppImageAdapter::file_output_says_appimage("ELF 64-bit LSB executable, AppImage"));
    assert!(AppImageAdapter::file_output_says_appimage("ELF Type 3 image"));
    assert!(!AppImageAdapter::file_output_says_appimage("data"));
}

#[test]
fn appimage_segment_kinds() {
    assert!(AppImageAdapter::is_version_seg("1.5.3"));
    assert!(!AppImageAdapter::is_version_seg("2"));
    assert!(!AppImageAdapter::is_version_seg("v1.2"));
    assert!(!AppImageAdapter::is_version_seg("1.2b"));
    assert!(!AppImageAdapter::is_version_seg(""));
    assert!(AppImageAdapter::is_arch_seg("x86_64"));
    assert!(AppImageAdapter::is_arch_seg("linux64"));
    assert!(AppImageAdapter::is_arch_seg("AppImage"));
    assert!(!AppImageAdapter::is_arch_seg("X86_64"));
}

#[test]
fn appimage_extract_version() {
    assert_eq!(AppImageAdapter::extract_version("Obsidian-1.5.3.AppImage"), "1.5.3");
    assert_eq!(AppImageAdapter::extract_version("Tool-1.0-2.1.AppImage"), "2.1");
    assert_eq!(AppImageAdapter::extract_version("Tool-1.0-x64.AppImage"), "1.0");
    assert_eq!(AppImageAdapter::extract_version("app-v2.AppImage"), "");
    assert_eq!(AppImageAdapter::extract_version("app-2-x64.AppImage"), "");
    assert_eq!(AppImageAdapter::extract_version("noversion"), "");
}

#[test]
fn appimage_parse_name() {
    assert_eq!(AppImageAdapter::parse_name("Obsidian-1.5.3.AppImage"), "Obsidian");
    assert_eq!(
        AppImageAdapter::parse_name("balena_etcher-1.18.11-x64.AppImage"),
        "Balena Etcher"
    );
    assert_eq!(AppImageAdapter::parse_name("my-cool-app-x86_64.AppImage"), "My Cool App");
    assert_eq!(AppImageAdapter::parse_name("1.2.AppImage"), "1.2");
    assert_eq!(AppImageAdapter::parse_name("-.AppImage"), "-");
    assert_eq!(AppImageAdapter::parse_name("plain"), "Plain");
}

#[test]
fn appimage_footprint_for_file() {
    let fp = AppImageAdapter::footprint_for_file(
        "Obsidian-1.5.3.AppImage",
        "/home/u/Applications/Obsidian-1.5.3.AppImage".to_string(),
        1000,
        Some(1_700_000_000),
    );
    assert_eq!(fp.id, "appimage:Obsidian-1.5.3.AppImage");
    assert_eq!(fp.display_name, "Obsidian");
    assert_eq!(fp.version, "1.5.3");
    assert_eq!(fp.source, PackageSource::Loose);
    assert_eq!(fp.scope, InstallScope::User);
    assert_eq!(fp.tracked_files, vec!["/home/u/Applications/Obsidian-1.5.3.AppImage".to_string()]);
    assert_eq!(fp.size_bytes.package_size, 1000);
    assert_eq!(fp.size_bytes.total_footprint, 1000);
    assert_eq!(fp.installed_at, Some(1_700_000_000));
    let fp = AppImageAdapter::footprint_for_file("a.AppImage", "/opt/a.AppImage".to_string(), 1, None);
    assert_eq!(fp.installed_at, None);
}

#[test]
fn appimage_footprint_at_keeps_time() {
    let fp = AppImageAdapter::footprint_at("a.AppImage", "/opt/a.AppImage".to_string(), 5, Some(42));
    assert_eq!(fp.installed_at, Some(42));
    assert_eq!(fp.display_name, "A");
}
