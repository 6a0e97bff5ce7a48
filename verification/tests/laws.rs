use orbit::adapters::appimage::AppImageAdapter;
use orbit::adapters::dnf::DnfAdapter;
use orbit::adapters::dpkg::DpkgAdapter;
use orbit::adapters::sizes::{format_size, size_breakdown};
use orbit::adapters::uninstall::{build_plan, removal_failed, removal_succeeded};
use orbit::adapters::{prefixed_id, strip_source_prefix};
use orbit::discovery::backend_for_source;
use orbit::models::{InstallScope, PackageSource, StageType, UninstallOptions};

#[test]
fn law_id_roundtrip() {
    assert_eq!(DnfAdapter::package_name(&prefixed_id("rpm:", "bash")), "bash");
    assert_eq!(DpkgAdapter::package_name(&prefixed_id("apt:", "apt:odd")), "apt:odd");
    assert_eq!(strip_source_prefix(&prefixed_id("snap:", ""), "snap:"), "");
}

#[test]
fn law_plan_shape() {
    for remove_configs in [true, false] {
        let options = UninstallOptions { remove_configs, ..UninstallOptions::default() };
        let plan = build_plan(
            "apt:a",
            "a".to_string(),
            "d".to_string(),
            vec!["/usr/bin/a".to_string(), "/usr/share/applications/a.desktop".to_string()],
            vec!["/etc/a".to_string()],
            Vec::new(),
            options,
            0,
            "/bk",
            &vec![1],
        );
        assert_eq!(plan.stages[0].stage_type, StageType::RemovePackage);
        assert!(plan.stages[0].requires_root && !plan.stages[0].reversible);
        assert!(plan.stages[1..].iter().all(|s| s.reversible));
        assert_eq!(
            plan.stages.iter().any(|s| s.stage_type == StageType::RemoveConfigs),
            remove_configs
        );
        for s in plan.stages.iter().filter(|s| s.stage_type == StageType::RemoveDesktopEntries) {
            assert!(s.items.iter().all(|i| i.ends_with(".desktop")));
        }
    }
}

#[test]
fn law_result_consistent() {
    let plan = build_plan("apt:a", "a".to_string(), "d".to_string(), Vec::new(), Vec::new(), Vec::new(), UninstallOptions::default(), 9, "/bk", &vec![]);
    for r in [removal_succeeded(&plan), removal_failed(&plan, "e".to_string())] {
        assert_eq!(r.success, r.error_message.is_none());
        if r.success {
            assert_eq!(r.space_freed, 9);
        } else {
            assert_eq!(r.space_freed, 0);
        }
    }
}

#[test]
fn law_extracted_version_is_a_version() {
    for f in ["Obsidian-1.5.3.AppImage", "x-v1-2", "a-1.0-b.AppImage", "plain"] {
        let v = AppImageAdapter::extract_version(f);
        assert!(v.is_empty() || AppImageAdapter::is_version_seg(&v));
    }
}

#[test]
fn law_humanized_name_empty_only_for_empty() {
    assert_eq!(DpkgAdapter::humanize_package_name(""), "");
    for n in ["-", "a", "--x--", "lib"] {
        assert!(!DpkgAdapter::humanize_package_name(n).is_empty());
    }
}

#[test]
fn law_bytes_below_kib() {
    assert_eq!(format_size(0), "0 B");
    assert_eq!(format_size(1023), "1023 B");
}

#[test]
fn law_dependency_names_non_empty() {
    let d = DpkgAdapter::parse_deplist(" , a |  | b, N/A,  ,c (>= 1)");
    assert!(d.iter().all(|x| !x.name.is_empty() && !x.name.chars().any(char::is_whitespace)));
    assert_eq!(d.len(), 3);
}

#[test]
fn law_backends_distinct() {
    let all = [
        PackageSource::Apt,
        PackageSource::Rpm,
        PackageSource::Flatpak,
        PackageSource::Snap,
        PackageSource::Loose,
        PackageSource::Unknown,
    ];
    for a in all {
        for b in all {
            if a != b && backend_for_source(a).is_some() {
                assert_ne!(backend_for_source(a), backend_for_source(b));
            }
        }
    }
}

#[test]
fn law_categories_within_total() {
    let files = vec![
        ("etc/a".to_string(), 3u64),
        ("opt/b".to_string(), 4),
        ("/usr/lib/c".to_string(), 5),
    ];
    let b = size_breakdown(&files).unwrap();
    assert!(b.config_size + b.cache_size + b.data_size + b.shared_size <= b.total_footprint);
}

#[test]
fn law_labels_read_back() {
    for s in [
        PackageSource::Apt,
        PackageSource::Rpm,
        PackageSource::Flatpak,
        PackageSource::Snap,
        PackageSource::Loose,
        PackageSource::Unknown,
    ] {
        assert_eq!(PackageSource::from_label(s.label()), Some(s));
    }
    for s in [InstallScope::System, InstallScope::User] {
        assert_eq!(InstallScope::from_label(s.label()), Some(s));
    }
}

#[test]
fn law_humanized_name_shape() {
    for (name, expect) in [
        ("GIMP--Plugin", "Gimp Plugin"),
        ("python3-json", "Python3 JSON"),
        ("-x-", "X"),
        ("---", "---"),
    ] {
        let r = DpkgAdapter::humanize_package_name(name);
        assert_eq!(r, expect);
        let segs: Vec<&str> = name.split('-').filter(|s| !s.is_empty()).collect();
        if !segs.is_empty() {
            assert!(!r.contains('-'));
            assert_eq!(r.to_ascii_lowercase(), segs.join(" ").to_ascii_lowercase());
        }
    }
}
