use orbit::adapters::appimage::AppImageAdapter;
use orbit::discovery::{backend_for_source, next_step, ScanProgress, ScanStep};
use orbit::models::PackageSource;

fn app(name: &str) -> orbit::models::AppFootprint {
    AppImageAdapter::footprint_at(name, format!("/opt/{}", name), 1, None)
}

#[test]
fn backends_of_sources() {
    assert_eq!(backend_for_source(PackageSource::Rpm), Some("rpm"));
    assert_eq!(backend_for_source(PackageSource::Apt), Some("dpkg"));
    assert_eq!(backend_for_source(PackageSource::Flatpak), Some("flatpak"));
    assert_eq!(backend_for_source(PackageSource::Snap), Some("snap"));
    assert_eq!(backend_for_source(PackageSource::Loose), Some("appimage"));
    assert_eq!(backend_for_source(PackageSource::Unknown), None);
}

#[test]
fn scan_collects_apps_and_errors() {
    let mut p = ScanProgress::new();
    assert!(p.apps.is_empty() && p.errors.is_empty());
    p.record("appimage", Ok(vec![app("a.AppImage"), app("b.AppImage")]));
    p.record("snap", Err("snap failed: nope".to_string()));
    p.record("flatpak", Ok(vec![app("c.AppImage")]));
    assert_eq!(p.apps.len(), 3);
    assert_eq!(p.apps[0].id, "appimage:a.AppImage");
    assert_eq!(p.apps[2].id, "appimage:c.AppImage");
    assert_eq!(p.errors, vec![("snap".to_string(), "snap failed: nope".to_string())]);
    let r = p.finish(None);
    assert_eq!(r.total, 3);
    assert_eq!(r.errors.len(), 1);
}

#[test]
fn scan_records_store_failure() {
    let mut p = ScanProgress::new();
    p.record("rpm", Ok(vec![app("a.AppImage")]));
    let r = p.finish(Some("disk full".to_string()));
    assert_eq!(r.total, 1);
    assert_eq!(r.errors, vec![("database".to_string(), "disk full".to_string())]);
}

#[test]
fn interrupted_scan_keeps_what_was_found() {
    let mut p = ScanProgress::new();
    p.record("rpm", Ok(vec![app("a.AppImage")]));
    p.record("dpkg", Err("x".to_string()));
    let r = p.interrupted();
    assert_eq!(r.total, 1);
    assert_eq!(r.errors, vec![("dpkg".to_string(), "x".to_string())]);
}

#[test]
fn scan_steps() {
    assert_eq!(next_step(true, true), ScanStep::Stop);
    assert_eq!(next_step(true, false), ScanStep::Stop);
    assert_eq!(next_step(false, false), ScanStep::Skip);
    assert_eq!(next_step(false, true), ScanStep::List);
}
