use orbit::adapters::uninstall::{
    after_direct_removal, after_privileged_removal, build_plan, removal_failed, removal_succeeded,
    select_desktop_entries, FallbackReason, PrivilegedOutcome, RemovalStep,
};
use orbit::models::{StageType, UninstallOptions, UninstallWarning};

fn strings(v: &[&str]) -> Vec<String> {
    v.iter().map(|s| s.to_string()).collect()
}

fn options(remove_configs: bool) -> UninstallOptions {
    UninstallOptions { remove_configs, ..UninstallOptions::default() }
}

#[test]
fn desktop_entries_are_selected_in_order() {
    let files = strings(&["/usr/bin/a", "/usr/share/applications/a.desktop", "/x.desktop.bak", "/b.desktop"]);
    assert_eq!(
        select_desktop_entries(&files),
        strings(&["/usr/share/applications/a.desktop", "/b.desktop"])
    );
    assert!(select_desktop_entries(&Vec::new()).is_empty());
}

#[test]
fn plan_with_every_stage() {
    let plan = build_plan(
        "apt:a",
        "a".to_string(),
        "Remove package a".to_string(),
        strings(&["/usr/bin/a", "/usr/share/applications/a.desktop"]),
        strings(&["/etc/a.conf", "/etc/a2.conf"]),
        strings(&["b", "c"]),
        options(true),
        4096,
        "/bk",
        &vec![u64::MAX, 1],
    );
    assert_eq!(plan.app_id, "apt:a");
    assert_eq!(plan.app_name, "a");
    assert_eq!(plan.total_space_to_free, 4096);
    assert_eq!(plan.stages.len(), 3);
    assert_eq!(plan.stages[0].stage_type, StageType::RemovePackage);
    assert_eq!(plan.stages[0].description, "Remove package a");
    assert_eq!(plan.stages[0].items.len(), 2);
    assert!(plan.stages[0].requires_root);
    assert!(!plan.stages[0].reversible);
    assert_eq!(plan.stages[1].stage_type, StageType::RemoveConfigs);
    assert_eq!(plan.stages[1].description, "Remove 2 config files");
    assert!(plan.stages[1].requires_root);
    assert!(plan.stages[1].reversible);
    assert_eq!(plan.stages[2].stage_type, StageType::RemoveDesktopEntries);
    assert_eq!(plan.stages[2].description, "Remove 1 desktop entries");
    assert!(!plan.stages[2].requires_root);
    assert!(plan.stages[2].reversible);
    let backup = plan.backup_recommendation.as_ref().unwrap();
    assert_eq!(backup.path, "/bk/a");
    assert_eq!(backup.estimated_size, u64::MAX);
    assert_eq!(plan.warnings.len(), 1);
    assert!(matches!(&plan.warnings[0], UninstallWarning::RequiredBySystem(v) if v == &strings(&["b", "c"])));
}

#[test]
fn plan_without_optional_stages() {
    let plan = build_plan(
        "rpm:a",
        "a".to_string(),
        "d".to_string(),
        strings(&["/usr/bin/a"]),
        strings(&["/etc/a.conf"]),
        Vec::new(),
        options(false),
        0,
        "/bk",
        &vec![5],
    );
    assert_eq!(plan.stages.len(), 1);
    assert!(plan.warnings.is_empty());
    // A backup is asked for by default, whether or not configs are removed.
    let backup = plan.backup_recommendation.as_ref().unwrap();
    assert_eq!(backup.estimated_size, 5);
    let plan = build_plan("rpm:a", "a".to_string(), "d".to_string(), Vec::new(), Vec::new(), Vec::new(), options(true), 0, "/bk", &vec![]);
    assert_eq!(plan.stages.len(), 1);
    assert!(plan.backup_recommendation.is_none());
    assert!(plan.stages[0].items.is_empty());
}

fn plan() -> orbit::models::UninstallPlan {
    build_plan("apt:a", "a".to_string(), "d".to_string(), Vec::new(), Vec::new(), Vec::new(), options(true), 77, "/bk", &vec![])
}

#[test]
fn results_of_removal() {
    let p = plan();
    let ok = removal_succeeded(&p);
    assert_eq!(ok.app_id, "apt:a");
    assert!(ok.success);
    assert_eq!(ok.stages_completed, vec![StageType::RemovePackage]);
    assert!(ok.stages_failed.is_empty());
    assert_eq!(ok.space_freed, 77);
    assert!(ok.error_message.is_none());
    assert!(ok.backup_path.is_none());
    let bad = removal_failed(&p, "boom".to_string());
    assert!(!bad.success);
    assert!(bad.stages_completed.is_empty());
    assert_eq!(bad.stages_failed, vec![StageType::RemovePackage]);
    assert_eq!(bad.space_freed, 0);
    assert_eq!(bad.error_message.as_deref(), Some("boom"));
}

#[test]
fn decisions_after_privileged_removal() {
    let p = plan();
    let done = after_privileged_removal(&p, &PrivilegedOutcome::Exited { success: true, exit_code: Some(0), stderr: "x".into() }, "pre: ");
    assert!(matches!(done, RemovalStep::Done(r) if r.success && r.space_freed == 77));
    let failed = after_privileged_removal(&p, &PrivilegedOutcome::Exited { success: false, exit_code: Some(1), stderr: "  nope \n".into() }, "pre: ");
    assert!(matches!(failed, RemovalStep::Done(r) if !r.success && r.error_message.as_deref() == Some("pre: nope")));
    let killed = after_privileged_removal(&p, &PrivilegedOutcome::Exited { success: false, exit_code: None, stderr: String::new() }, "pre: ");
    assert!(matches!(killed, RemovalStep::Done(r) if r.error_message.as_deref() == Some("pre: ")));
    assert!(matches!(
        after_privileged_removal(&p, &PrivilegedOutcome::Exited { success: false, exit_code: Some(127), stderr: String::new() }, "pre: "),
        RemovalStep::Fallback(FallbackReason::HelperNotFound)
    ));
    assert!(matches!(
        after_privileged_removal(&p, &PrivilegedOutcome::NotStarted, "pre: "),
        RemovalStep::Fallback(FallbackReason::HelperNotStarted)
    ));
}

#[test]
fn results_after_direct_removal() {
    let p = plan();
    assert!(after_direct_removal(&p, true, "ignored", "a", "b").success);
    let r = after_direct_removal(&p, false, "\tdenied\n", "apt-get remove failed: ", ". Try with sudo.");
    assert_eq!(r.error_message.as_deref(), Some("apt-get remove failed: denied. Try with sudo."));
}

#[test]
fn no_backup_when_not_asked() {
    let opts = UninstallOptions { create_backup: false, ..UninstallOptions::default() };
    let plan = build_plan(
        "apt:a",
        "a".to_string(),
        "d".to_string(),
        Vec::new(),
        strings(&["/etc/a.conf"]),
        Vec::new(),
        opts,
        0,
        "/bk",
        &vec![5],
    );
    assert!(plan.backup_recommendation.is_none());
}
