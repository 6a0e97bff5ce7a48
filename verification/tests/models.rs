use orbit::clock::{now_unix_seconds, utc_timestamp, utc_timestamp_valid};
use orbit::models::{
    dependency, new_footprint, AppFootprint, DependencyType, InstallScope, PackageSource,
    SizeBreakdown, UninstallOptions,
};

#[test]
fn default_sizes_are_zero() {
    let b = SizeBreakdown::default();
    assert_eq!(
        b,
        SizeBreakdown {
            package_size: 0,
            config_size: 0,
            cache_size: 0,
            data_size: 0,
            shared_size: 0,
            total_footprint: 0
        }
    );
}

#[test]
fn default_uninstall_options() {
    let o = UninstallOptions::default();
    assert!(o.remove_configs);
    assert!(o.remove_cache);
    assert!(!o.remove_data);
    assert!(!o.remove_orphan_deps);
    assert!(!o.clean_flatpak_runtimes);
    assert!(o.create_backup);
}

#[test]
fn default_footprint_is_empty_and_stamped_now() {
    let before = now_unix_seconds().unwrap();
    let fp = AppFootprint::default();
    let after = now_unix_seconds().unwrap();
    assert_eq!(fp.id, "");
    assert_eq!(fp.source, PackageSource::Unknown);
    assert_eq!(fp.scope, InstallScope::System);
    assert_eq!(fp.size_bytes, SizeBreakdown::default());
    assert!(fp.tracked_files.is_empty() && fp.dependencies.is_empty());
    assert!(!fp.is_orphan_candidate);
    assert!(fp.installed_at.is_none() && fp.last_accessed.is_none() && fp.icon.is_none());
    assert!(before <= fp.integrity_status.checked_at && fp.integrity_status.checked_at <= after);
    assert!(fp.integrity_status.checksum_algorithm.is_empty());
}

#[test]
fn footprint_with_fields() {
    let fp = new_footprint(
        "apt:vim".to_string(),
        "Vim".to_string(),
        PackageSource::Apt,
        "9.0".to_string(),
        "amd64".to_string(),
        InstallScope::System,
        vec!["/usr/bin/vim".to_string()],
        vec!["/etc/vimrc".to_string()],
        SizeBreakdown::default(),
        Some(5),
        "editor".to_string(),
        "long".to_string(),
        Some("https://vim.org".to_string()),
        Some("Vim".to_string()),
    );
    assert_eq!(fp.id, "apt:vim");
    assert_eq!(fp.display_name, "Vim");
    assert_eq!(fp.architecture, "amd64");
    assert_eq!(fp.tracked_files, vec!["/usr/bin/vim".to_string()]);
    assert_eq!(fp.declared_configs, vec!["/etc/vimrc".to_string()]);
    assert_eq!(fp.installed_at, Some(5));
    assert_eq!(fp.homepage.as_deref(), Some("https://vim.org"));
    assert!(fp.discovered_configs.is_empty());
}

#[test]
fn dependency_without_version() {
    let d = dependency("libc6".to_string(), DependencyType::Recommended);
    assert_eq!(d.name, "libc6");
    assert_eq!(d.version, "");
    assert_eq!(d.dependency_type, DependencyType::Recommended);
}

#[test]
fn timestamps_chrono_accepts() {
    assert!(utc_timestamp_valid(0));
    assert_eq!(utc_timestamp(1_700_000_000), Some(1_700_000_000));
    assert_eq!(utc_timestamp(-1), Some(-1));
    assert_eq!(utc_timestamp(i64::MAX), None);
    assert_eq!(utc_timestamp(i64::MIN), None);
    // The ends of chrono's calendar.
    assert_eq!(chrono::DateTime::<chrono::Utc>::MIN_UTC.timestamp(), -8_334_601_228_800);
    assert_eq!(chrono::DateTime::<chrono::Utc>::MAX_UTC.timestamp(), 8_210_266_876_799);
    assert!(utc_timestamp_valid(-8_334_601_228_800));
    assert!(!utc_timestamp_valid(-8_334_601_228_801));
    assert!(utc_timestamp_valid(8_210_266_876_799));
    assert!(!utc_timestamp_valid(8_210_266_876_800));
}

#[test]
fn stored_labels() {
    assert_eq!(PackageSource::Apt.label(), "apt");
    assert_eq!(PackageSource::Loose.label(), "loose");
    assert_eq!(PackageSource::from_label("flatpak"), Some(PackageSource::Flatpak));
    assert_eq!(PackageSource::from_label("Flatpak"), None);
    assert_eq!(PackageSource::from_label(""), None);
    assert_eq!(InstallScope::User.label(), "user");
    assert_eq!(InstallScope::from_label("system"), Some(InstallScope::System));
    assert_eq!(InstallScope::from_label("global"), None);
}
