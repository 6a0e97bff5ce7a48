use orbit::adapters::dnf::{DnfAdapter, RpmPackageInfo, RpmPlanInfo};
use orbit::adapters::uninstall::{FallbackReason, PrivilegedOutcome, RemovalStep};
use orbit::adapters::AdapterError;
use orbit::models::{
    DependencyType, InstallScope, PackageSource, SizeBreakdown, StageType, UninstallOptions,
    UninstallWarning,
};
use tokio_util::sync::CancellationToken;

fn lines(v: &[&str]) -> Vec<String> {
    v.iter().map(|s| s.to_string()).collect()
}

#[test]
fn rpm_backend_and_package_name() {
    assert_eq!(DnfAdapter::new().backend_id(), "rpm");
    assert_eq!(DnfAdapter::package_name("rpm:bash"), "bash");
    assert_eq!(DnfAdapter::package_name("bash"), "bash");
    assert_eq!(DnfAdapter::package_name("apt:bash"), "apt:bash");
}

#[test]
fn rpm_listing_line_fields() {
    let fp = DnfAdapter::listing_line("bash\t5.2.26-3.fc40\tx86_64\t8200000\t2000000\t1700000000\tThe GNU Bourne Again shell").unwrap();
    assert_eq!(fp.id, "rpm:bash");
    assert_eq!(fp.display_name, "bash");
    assert_eq!(fp.source, PackageSource::Rpm);
    assert_eq!(fp.version, "5.2.26-3.fc40");
    assert_eq!(fp.architecture, "x86_64");
    assert_eq!(fp.scope, InstallScope::System);
    assert_eq!(fp.size_bytes.total_footprint, 8200000);
    assert_eq!(fp.size_bytes.package_size, 2000000);
    assert_eq!(fp.installed_at, Some(1700000000));
    assert_eq!(fp.summary, "The GNU Bourne Again shell");
    assert!(DnfAdapter::listing_line("").is_none());
}

#[test]
fn rpm_listing_line_missing_fields_default() {
    let fp = DnfAdapter::listing_line("gpg-pubkey\tx\t\tnotanumber").unwrap();
    assert_eq!(fp.version, "x");
    assert_eq!(fp.architecture, "");
    assert_eq!(fp.size_bytes.total_footprint, 0);
    assert_eq!(fp.size_bytes.package_size, 0);
    assert_eq!(fp.installed_at, None);
    assert_eq!(fp.summary, "");
}

#[test]
fn rpm_listing_out_of_range_install_time_is_dropped() {
    let fp = DnfAdapter::listing_line("a\t1\tx\t1\t1\t9223372036854775807\ts").unwrap();
    assert_eq!(fp.installed_at, None);
}

#[test]
fn rpm_list_installed_and_cancellation() {
    let ls = lines(&["a\t1\tx86_64\t10\t5\t0\tA", "", "b\t2\tnoarch\t20\t6\t1\tB"]);
    let token = CancellationToken::new();
    let apps = DnfAdapter::list_installed(&ls, &token).unwrap();
    assert_eq!(apps.len(), 2);
    assert_eq!(apps[0].id, "rpm:a");
    assert_eq!(apps[1].id, "rpm:b");
    token.cancel();
    assert!(matches!(DnfAdapter::list_installed(&ls, &token), Err(AdapterError::Cancelled)));
}

#[test]
fn rpm_file_entries_parse_sizes() {
    let ls = lines(&["/usr/bin/bash\t1000", "", "/etc/bashrc\tx", "etc/foo"]);
    let e = DnfAdapter::file_entries(&ls);
    assert_eq!(
        e,
        vec![
            ("/usr/bin/bash".to_string(), 1000),
            ("/etc/bashrc".to_string(), 0),
            ("etc/foo".to_string(), 0)
        ]
    );
}

#[test]
fn rpm_requirements_skip_capabilities() {
    let ls = lines(&[
        "/bin/sh",
        "rpmlib(CompressedFileNames) <= 3.0.4-1",
        "libc.so.6()(64bit)",
        "libc.so.6(GLIBC_2.34)(64bit)",
        "libz.so(ZLIB_1.2)",
        "glibc >= 2.34",
        "",
        "  ",
    ]);
    let deps = DnfAdapter::requirements(&ls);
    let names: Vec<&str> = deps.iter().map(|d| d.name.as_str()).collect();
    assert_eq!(names, vec!["/bin/sh", "libc.so.6()(64bit)", "libc.so.6(GLIBC_2.34)(64bit)", "glibc", "  "]);
    assert!(deps.iter().all(|d| d.version.is_empty() && d.dependency_type == DependencyType::Required));
}

#[test]
fn rpm_parse_info_errors_and_fields() {
    assert!(matches!(DnfAdapter::parse_info("foo", &vec![]), Err(AdapterError::AppNotFound(m)) if m == "foo"));
    assert!(matches!(DnfAdapter::parse_info("foo", &lines(&["a\tb\tc"])), Err(AdapterError::Parse(m)) if m == "unexpected rpm info format"));
    let info = DnfAdapter::parse_info(
        "bash",
        &lines(&["bash\t5.2\tx86_64\t100\t40\t1700000000\tShell\thttps://gnu.org\tGPL\tmore"]),
    )
    .unwrap();
    assert_eq!(info.name, "bash");
    assert_eq!(info.installed_size, 100);
    assert_eq!(info.archive_size, 40);
    assert_eq!(info.install_time, Some(1700000000));
    assert_eq!(info.homepage.as_deref(), Some("https://gnu.org"));
    assert_eq!(info.license.as_deref(), Some("GPL\tmore"));
    let bare = DnfAdapter::parse_info("x", &lines(&["x\t1\ta\t1\t1\t1\t\t"])).unwrap();
    assert_eq!(bare.homepage, None);
    assert_eq!(bare.license, None);
}

fn info() -> RpmPackageInfo {
    RpmPackageInfo {
        name: "bash".into(),
        version: "5.2".into(),
        arch: "x86_64".into(),
        installed_size: 1000,
        archive_size: 400,
        install_time: Some(5),
        summary: "Shell".into(),
        homepage: None,
        license: Some("GPL".into()),
    }
}

#[test]
fn rpm_footprint_sizes() {
    let fp = DnfAdapter::footprint(info(), vec!["/usr/bin/bash".into()], vec!["/etc/bashrc".into()], None);
    assert_eq!(fp.id, "rpm:bash");
    assert_eq!(fp.size_bytes.package_size, 400);
    assert_eq!(fp.size_bytes.total_footprint, 1000);
    assert_eq!(fp.tracked_files, vec!["/usr/bin/bash".to_string()]);
    assert_eq!(fp.declared_configs, vec!["/etc/bashrc".to_string()]);
    assert_eq!(fp.installed_at, Some(5));
    assert_eq!(fp.license.as_deref(), Some("GPL"));
    let measured = SizeBreakdown { package_size: 0, config_size: 7, cache_size: 0, data_size: 3, shared_size: 0, total_footprint: 2000 };
    let fp2 = DnfAdapter::footprint(info(), vec![], vec![], Some(measured));
    assert_eq!(fp2.size_bytes, SizeBreakdown { package_size: 400, total_footprint: 2000, ..measured });
    let small = SizeBreakdown { total_footprint: 10, ..measured };
    let fp3 = DnfAdapter::footprint(info(), vec![], vec![], Some(small));
    assert_eq!(fp3.size_bytes.total_footprint, 1000);
    assert_eq!(fp3.size_bytes.config_size, 7);
}

#[test]
fn rpm_plan() {
    assert!(matches!(DnfAdapter::parse_plan_info("p", &lines(&["onlyname"])), Err(AdapterError::Parse(m)) if m == "unexpected rpm format"));
    let pi = DnfAdapter::parse_plan_info("p", &lines(&["p\t1-1\t3000\t2048\tsummary\twith\ttabs"])).unwrap();
    assert_eq!(pi.installed_size, 3000);
    assert_eq!(pi.archive_size, 2048);
    let plan = DnfAdapter::uninstall_plan(
        "rpm:p",
        RpmPlanInfo { name: "p".into(), installed_size: 3000, archive_size: 2048 },
        vec!["/usr/bin/p".into(), "/usr/share/applications/p.desktop".into()],
        vec!["/etc/p.conf".into()],
        vec!["q".into()],
        UninstallOptions::default(),
        "/var/backups/orbit",
        &vec![10, 20],
    );
    let backup = plan.backup_recommendation.as_ref().unwrap();
    assert_eq!(backup.path, "/var/backups/orbit/p");
    assert_eq!(backup.estimated_size, 30);
    assert_eq!(plan.app_id, "rpm:p");
    assert_eq!(plan.app_name, "p");
    assert_eq!(plan.total_space_to_free, 3000);
    assert_eq!(plan.stages.len(), 3);
    assert_eq!(plan.stages[0].description, "Remove RPM package 'p' (archive size: 2.0 KB)");
    assert_eq!(plan.stages[1].stage_type, StageType::RemoveConfigs);
    assert_eq!(plan.stages[1].description, "Remove 1 config files");
    assert_eq!(plan.stages[2].stage_type, StageType::RemoveDesktopEntries);
    assert_eq!(plan.stages[2].items, vec!["/usr/share/applications/p.desktop".to_string()]);
    assert!(matches!(&plan.warnings[0], UninstallWarning::RequiredBySystem(v) if v == &vec!["q".to_string()]));
}

#[test]
fn rpm_removal_decisions() {
    let plan = DnfAdapter::uninstall_plan(
        "rpm:p",
        RpmPlanInfo { name: "p".into(), installed_size: 3000, archive_size: 1 },
        vec![],
        vec![],
        vec![],
        UninstallOptions::default(),
        "/b",
        &vec![],
    );
    assert!(plan.backup_recommendation.is_none());
    match DnfAdapter::after_pkexec(&plan, &PrivilegedOutcome::Exited { success: true, exit_code: Some(0), stderr: String::new() }) {
        RemovalStep::Done(r) => {
            assert!(r.success);
            assert_eq!(r.space_freed, 3000);
            assert_eq!(r.stages_completed, vec![StageType::RemovePackage]);
        }
        _ => panic!("expected done"),
    }
    match DnfAdapter::after_pkexec(&plan, &PrivilegedOutcome::Exited { success: false, exit_code: Some(126), stderr: " denied \n".into() }) {
        RemovalStep::Done(r) => {
            assert!(!r.success);
            assert_eq!(r.space_freed, 0);
            assert_eq!(r.error_message.as_deref(), Some("pkexec rpm -e failed: denied"));
        }
        _ => panic!("expected done"),
    }
    assert!(matches!(
        DnfAdapter::after_pkexec(&plan, &PrivilegedOutcome::Exited { success: false, exit_code: Some(127), stderr: String::new() }),
        RemovalStep::Fallback(FallbackReason::HelperNotFound)
    ));
    assert!(matches!(DnfAdapter::after_pkexec(&plan, &PrivilegedOutcome::NotStarted), RemovalStep::Fallback(FallbackReason::HelperNotStarted)));
    let r = DnfAdapter::after_rpm(&plan, FallbackReason::HelperNotFound, false, "error: x\n");
    assert_eq!(r.error_message.as_deref(), Some("rpm -e failed: error: x"));
    let r = DnfAdapter::after_rpm(&plan, FallbackReason::HelperNotStarted, false, "e");
    assert_eq!(r.error_message.as_deref(), Some("rpm -e failed: e. Try with sudo."));
    assert!(DnfAdapter::after_rpm(&plan, FallbackReason::HelperNotStarted, true, "").success);
}
