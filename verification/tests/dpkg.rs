use orbit::adapters::dpkg::{AptDetails, DpkgAdapter, DpkgEntry, DpkgInfo, DpkgPlanInfo};
use orbit::adapters::uninstall::{FallbackReason, PrivilegedOutcome, RemovalStep};
use orbit::adapters::AdapterError;
use orbit::models::{DependencyType, PackageSource, SizeBreakdown, StageType, UninstallOptions};
use tokio_util::sync::CancellationToken;

fn lines(v: &[&str]) -> Vec<String> {
    v.iter().map(|s| s.to_string()).collect()
}

fn names(d: &[orbit::models::DependencyInfo]) -> Vec<String> {
    d.iter().map(|x| x.name.clone()).collect()
}

#[test]
fn dpkg_backend_and_names() {
    assert_eq!(DpkgAdapter::new().backend_id(), "dpkg");
    assert_eq!(DpkgAdapter::package_name("apt:vim"), "vim");
    assert!(DpkgAdapter::is_installed("install ok installed"));
    assert!(!DpkgAdapter::is_installed("deinstall ok config-files"));
}

#[test]
fn dpkg_humanize_package_name() {
    assert_eq!(DpkgAdapter::humanize_package_name("gnome-text-editor"), "Gnome Text Editor");
    assert_eq!(DpkgAdapter::humanize_package_name("libssl-dev"), "Libssl Dev");
    assert_eq!(DpkgAdapter::humanize_package_name("python3-json"), "Python3 JSON");
    assert_eq!(DpkgAdapter::humanize_package_name("openssh-SERVER"), "Openssh Server");
    assert_eq!(DpkgAdapter::humanize_package_name("http--ui-"), "HTTP UI");
    assert_eq!(DpkgAdapter::humanize_package_name("---"), "---");
    assert_eq!(DpkgAdapter::humanize_package_name(""), "");
}

#[test]
fn dpkg_parse_deplist() {
    let d = DpkgAdapter::parse_deplist("libc6 (>= 2.34), libfoo | libbar (<< 2), , N/A");
    assert_eq!(names(&d), vec!["libc6", "libfoo", "libbar"]);
    assert!(d.iter().all(|x| x.dependency_type == DependencyType::Required && x.version.is_empty()));
    assert!(DpkgAdapter::parse_deplist("").is_empty());
}

#[test]
fn dpkg_dependencies_from_fields() {
    let d = DpkgAdapter::dependencies(&lines(&["libc6 (>= 2.34)", "", "N/A", "debconf | cdebconf", "x"]));
    assert_eq!(names(&d), vec!["libc6", "debconf", "cdebconf", "x"]);
}

#[test]
fn dpkg_conffiles() {
    let c = DpkgAdapter::conffiles(&lines(&[" /etc/foo.conf 0123abcd", "", "   ", "/etc/bar obsolete"]));
    assert_eq!(c, vec!["/etc/foo.conf".to_string(), "/etc/bar".to_string()]);
}

#[test]
fn dpkg_reverse_dependencies() {
    let r = DpkgAdapter::reverse_dependencies(
        "libfoo",
        &lines(&["libfoo", "Reverse Depends:", "  bar", "  libfoo", "", "  |baz"]),
    );
    assert_eq!(r, vec!["bar".to_string(), "|baz".to_string()]);
    assert!(DpkgAdapter::reverse_dependencies("x", &vec![]).is_empty());
    let r2 = DpkgAdapter::reverse_dependencies("x", &lines(&["x", "reverse depends:", "y"]));
    assert_eq!(r2, vec!["y".to_string()]);
}

#[test]
fn dpkg_listing_and_archive_sizes() {
    let ls = lines(&[
        "vim\t2:9.0\tamd64\t3000\tinstall ok installed\tVi IMproved",
        "old\t1\tamd64\t10\tdeinstall ok config-files\tgone",
        "",
        "gnome-maps\t45\tamd64\tx\tinstall ok installed",
    ]);
    let token = CancellationToken::new();
    let entries = DpkgAdapter::installed_entries(&ls, &token).unwrap();
    assert_eq!(entries.len(), 2);
    assert_eq!(entries[0].name, "vim");
    assert_eq!(entries[0].installed_size_kb, 3000);
    assert_eq!(entries[1].installed_size_kb, 0);
    assert_eq!(entries[1].summary, "");

    let mut sizes: Vec<(String, u64)> = Vec::new();
    DpkgAdapter::record_archive_sizes(
        &mut sizes,
        &lines(&["Package: vim", "Version: 1", "Size: 1500", "", "Package: vim", "Size: 1600", "Size: bad", "Package:  gnome-maps ", "Size:  77 "]),
    );
    assert_eq!(sizes, vec![("vim".to_string(), 1500), ("vim".to_string(), 1600), ("gnome-maps".to_string(), 77)]);
    assert_eq!(DpkgAdapter::archive_size_of(&sizes, "vim"), Some(1600));
    assert_eq!(DpkgAdapter::archive_size_of(&sizes, "emacs"), None);

    let apps = DpkgAdapter::listed_packages(&entries, &sizes, &token).unwrap();
    assert_eq!(apps[0].id, "apt:vim");
    assert_eq!(apps[0].display_name, "Vim");
    assert_eq!(apps[0].source, PackageSource::Apt);
    assert_eq!(apps[0].size_bytes.total_footprint, 3000 * 1024);
    assert_eq!(apps[0].size_bytes.package_size, 1600);
    assert_eq!(apps[1].display_name, "Gnome Maps");
    assert_eq!(apps[1].size_bytes.package_size, 77);

    token.cancel();
    assert!(matches!(DpkgAdapter::installed_entries(&ls, &token), Err(AdapterError::Cancelled)));
    assert!(matches!(DpkgAdapter::listed_packages(&entries, &sizes, &token), Err(AdapterError::Cancelled)));
}

#[test]
fn dpkg_listed_package_without_archive_size() {
    let e = DpkgEntry { name: "x".into(), version: "1".into(), arch: "all".into(), installed_size_kb: 2, summary: "s".into() };
    let fp = DpkgAdapter::listed_package(&e, &vec![]);
    assert_eq!(fp.size_bytes.package_size, 2048);
    assert_eq!(fp.size_bytes.total_footprint, 2048);
}

#[test]
fn dpkg_parse_info() {
    assert!(matches!(DpkgAdapter::parse_info("vim", &vec![]), Err(AdapterError::AppNotFound(m)) if m == "vim"));
    assert!(matches!(DpkgAdapter::parse_info("vim", &lines(&["vim\t1\tamd64\t3"])), Err(AdapterError::Parse(m)) if m == "unexpected dpkg info format"));
    assert!(matches!(DpkgAdapter::parse_info("vim", &lines(&["vim\t1\tamd64\t3\tdeinstall ok config-files"])), Err(AdapterError::AppNotFound(m)) if m == "vim not installed"));
    let info = DpkgAdapter::parse_info("vim", &lines(&["vim\t2:9.0\tamd64\t3000\tinstall ok installed\tVi IMproved\tMaint"])).unwrap();
    assert_eq!(info.name, "vim");
    assert_eq!(info.installed_size_kb, 3000);
    assert_eq!(info.summary, "Vi IMproved");
}

#[test]
fn dpkg_apt_details_and_appstream() {
    let d = DpkgAdapter::parse_apt_details(&lines(&[
        "Package: vim",
        "Homepage: https://www.vim.org/",
        "Original-License: Vim",
        "Size: 1724",
        "Homepage:   ",
        "Size: x",
        "Size: 1800",
    ]));
    assert_eq!(d.homepage.as_deref(), Some("https://www.vim.org/"));
    assert_eq!(d.license.as_deref(), Some("Vim"));
    assert_eq!(d.archive_size, Some(1800));
    let d2 = DpkgAdapter::parse_apt_details(&lines(&["Size: 10", "Size: nope"]));
    assert_eq!(d2.archive_size, None);
    assert_eq!(DpkgAdapter::appstream_name(true, &lines(&["Identifier: x", "Nombre:  ", "Nombre: Vim ", "Nombre: Other"])).as_deref(), Some("Vim"));
    assert_eq!(DpkgAdapter::appstream_name(false, &lines(&["Nombre: Vim"])), None);
    assert_eq!(DpkgAdapter::appstream_name(true, &lines(&["Name: Vim"])), None);
}

#[test]
fn dpkg_footprint_assembly() {
    let info = || DpkgInfo { name: "vim".into(), version: "9".into(), arch: "amd64".into(), installed_size_kb: 3, summary: "s".into() };
    let fp = DpkgAdapter::footprint(info(), vec!["/usr/bin/vim".into()], vec![], None, None, None);
    assert_eq!(fp.display_name, "Vim");
    assert_eq!(fp.size_bytes, SizeBreakdown { package_size: 0, config_size: 0, cache_size: 0, data_size: 0, shared_size: 0, total_footprint: 3072 });
    let measured = SizeBreakdown { package_size: 0, config_size: 5, cache_size: 0, data_size: 0, shared_size: 0, total_footprint: 9000 };
    let details = AptDetails { homepage: Some("h".into()), license: None, archive_size: Some(1234) };
    let fp2 = DpkgAdapter::footprint(info(), vec![], vec![], Some(measured), Some(details), Some("Vim Editor".into()));
    assert_eq!(fp2.display_name, "Vim Editor");
    assert_eq!(fp2.size_bytes.package_size, 1234);
    assert_eq!(fp2.size_bytes.total_footprint, 9000);
    assert_eq!(fp2.homepage.as_deref(), Some("h"));
}

#[test]
fn dpkg_plan_and_removal() {
    assert!(matches!(DpkgAdapter::parse_plan_info("vim", &lines(&["vim"])), Err(AdapterError::Parse(m)) if m == "unexpected dpkg format"));
    let pi = DpkgAdapter::parse_plan_info("vim", &lines(&["vim\t9\t1536\tdesc\twith tab"])).unwrap();
    assert_eq!(pi.installed_size_kb, 1536);
    let mut opts = UninstallOptions::default();
    opts.remove_configs = false;
    let plan = DpkgAdapter::uninstall_plan(
        "apt:vim",
        DpkgPlanInfo { name: "vim".into(), installed_size_kb: 1536 },
        vec!["/usr/bin/vim".into()],
        vec!["/etc/vimrc".into()],
        vec![],
        opts,
        "/home/u/.local/share/orbit/backups",
        &vec![300],
    );
    assert_eq!(plan.stages.len(), 1);
    let backup = plan.backup_recommendation.as_ref().unwrap();
    assert_eq!(backup.path, "/home/u/.local/share/orbit/backups/vim");
    assert_eq!(backup.estimated_size, 300);
    assert_eq!(plan.stages[0].description, "Remove APT package 'vim' (size: 1.5 MB)");
    assert_eq!(plan.total_space_to_free, 1536 * 1024);
    assert!(plan.warnings.is_empty());
    match DpkgAdapter::after_pkexec(&plan, &PrivilegedOutcome::Exited { success: false, exit_code: Some(1), stderr: "E: no\n".into() }) {
        RemovalStep::Done(r) => assert_eq!(r.error_message.as_deref(), Some("pkexec apt-get remove failed: E: no")),
        _ => panic!(),
    }
    let r = DpkgAdapter::after_apt_get(&plan, false, "E: Could not open lock file\n");
    assert_eq!(r.error_message.as_deref(), Some("apt-get remove failed: E: Could not open lock file. Try with sudo."));
    assert_eq!(r.stages_failed, vec![StageType::RemovePackage]);
    assert!(matches!(
        DpkgAdapter::after_pkexec(&plan, &PrivilegedOutcome::NotStarted),
        RemovalStep::Fallback(FallbackReason::HelperNotStarted)
    ));
}
