//! Staged uninstall: the plan shown before removal, and the decisions
//! taken while the package manager removes the package.

use vstd::prelude::*;

use crate::adapters::sizes::{sum_of, sum_sizes};
use crate::models::{
    BackupRecommendation, StageType, SystemPath, UninstallOptions, UninstallPlan,
    UninstallResult, UninstallStage, UninstallWarning,
};
use crate::text::{
    chars_of, dec, ends_with, ends_with_str, push_dec, push_str, string_views, trim, trim_exec,
};

verus! {

// ---------------------------------------------------------------------------
// Plans
// ---------------------------------------------------------------------------

/// What a stage holds, as characters.
pub struct StageFields {
    pub stage_type: StageType,
    pub description: Seq<char>,
    pub items: Seq<Seq<char>>,
    pub requires_root: bool,
    pub reversible: bool,
}

pub open spec fn stage_is(s: UninstallStage, f: StageFields) -> bool {
    &&& s.stage_type == f.stage_type
    &&& s.description@ == f.description
    &&& string_views(s.items@) == f.items
    &&& s.requires_root == f.requires_root
    &&& s.reversible == f.reversible
}

/// The files that are desktop entries (their path ends in `.desktop`), in
/// order.
pub open spec fn desktop_entries(files: Seq<Seq<char>>) -> Seq<Seq<char>>
    decreases files.len(),
{
    if files.len() == 0 {
        Seq::empty()
    } else if ends_with(files.last(), ".desktop"@) {
        desktop_entries(files.drop_last()).push(files.last())
    } else {
        desktop_entries(files.drop_last())
    }
}

/// The stages of a package removal, in order: remove the package (root,
/// not reversible); remove the declared configuration files, when asked
/// to and there are some (root, reversible); remove the desktop entries
/// among the package's files, when there are some (no root, reversible).
pub open spec fn planned_stages(
    package_description: Seq<char>,
    files: Seq<Seq<char>>,
    configs: Seq<Seq<char>>,
    options: UninstallOptions,
) -> Seq<StageFields> {
    let package = StageFields {
        stage_type: StageType::RemovePackage,
        description: package_description,
        items: files,
        requires_root: true,
        reversible: false,
    };
    let config_stage = if options.remove_configs && configs.len() > 0 {
        seq![
            StageFields {
                stage_type: StageType::RemoveConfigs,
                description: "Remove "@ + dec(configs.len()) + " config files"@,
                items: configs,
                requires_root: true,
                reversible: true,
            },
        ]
    } else {
        Seq::empty()
    };
    let desktop = desktop_entries(files);
    let desktop_stage = if desktop.len() > 0 {
        seq![
            StageFields {
                stage_type: StageType::RemoveDesktopEntries,
                description: "Remove "@ + dec(desktop.len()) + " desktop entries"@,
                items: desktop,
                requires_root: false,
                reversible: true,
            },
        ]
    } else {
        Seq::empty()
    };
    seq![package] + config_stage + desktop_stage
}

/// The plan's stages are exactly `expected`.
pub open spec fn stages_are(stages: Seq<UninstallStage>, expected: Seq<StageFields>) -> bool {
    &&& stages.len() == expected.len()
    &&& forall|i: int| 0 <= i < stages.len() ==> stage_is(#[trigger] stages[i], expected[i])
}

/// The warnings of a removal: the installed packages that depend on this
/// one, when there are any.
pub open spec fn warnings_are(warnings: Seq<UninstallWarning>, rev_deps: Seq<Seq<char>>) -> bool {
    if rev_deps.len() > 0 {
        &&& warnings.len() == 1
        &&& warnings[0] matches UninstallWarning::RequiredBySystem(v) && string_views(v@)
            == rev_deps
    } else {
        warnings.len() == 0
    }
}

/// The sum of the sizes, or `u64::MAX` when it does not fit.
pub open spec fn saturated_sum(sizes: Seq<u64>) -> u64 {
    if sum_of(sizes) > u64::MAX {
        u64::MAX
    } else {
        sum_of(sizes) as u64
    }
}

/// The backup recommended before a removal: when a backup is asked for
/// and the package has configuration files, a backup of them under
/// `backup_root/<name>`, estimated at the sum of `config_sizes` (saturated
/// at `u64::MAX`); otherwise none.
pub open spec fn backup_is(
    b: Option<BackupRecommendation>,
    options: UninstallOptions,
    configs: Seq<Seq<char>>,
    backup_root: Seq<char>,
    name: Seq<char>,
    config_sizes: Seq<u64>,
) -> bool {
    if options.create_backup && configs.len() > 0 {
        b matches Some(rec) && rec.path@ == backup_root + "/"@ + name && rec.estimated_size
            == saturated_sum(config_sizes)
    } else {
        b is None
    }
}

/// The files among `files` that are desktop entries, in order.
pub fn select_desktop_entries(files: &Vec<SystemPath>) -> (r: Vec<SystemPath>)
    ensures
        string_views(r@) == desktop_entries(string_views(files@)),
{
    let mut out: Vec<SystemPath> = Vec::new();
    let mut i: usize = 0;
    while i < files.len()
        invariant
            i <= files@.len(),
            string_views(out@) == desktop_entries(string_views(files@).take(i as int)),
        decreases files@.len() - i,
    {
        let ghost prev = out@;
        proof {
            assert(string_views(files@).take(i + 1).drop_last() =~= string_views(files@).take(
                i as int,
            ));
            assert(string_views(files@).take(i + 1).last() == files@[i as int]@);
        }
        let f = chars_of(files[i].as_str());
        if ends_with_str(&f, ".desktop") {
            let e = files[i].clone();
            out.push(e);
            assert(string_views(out@) =~= string_views(prev).push(e@));
        }
        i += 1;
    }
    assert(string_views(files@).take(files@.len() as int) =~= string_views(files@));
    out
}

/// `"Remove " + count + suffix`.
fn count_description(count: usize, suffix: &str) -> (r: String)
    ensures
        r@ == "Remove "@ + dec(count as nat) + suffix@,
{
    let mut s = String::new();
    push_str(&mut s, "Remove ");
    push_dec(&mut s, count as u64);
    push_str(&mut s, suffix);
    assert(s@ =~= "Remove "@ + dec(count as nat) + suffix@);
    s
}

/// The staged removal plan of a package: the stages of `planned_stages`,
/// a warning naming the reverse dependencies when there are some, the
/// given amount of space to free, and a backup of the configuration files
/// under `backup_root` when one is asked for (see `backup_is`);
/// `config_sizes` are the sizes of the configuration files.
pub fn build_plan(
    app_id: &str,
    name: String,
    package_description: String,
    all_files: Vec<SystemPath>,
    config_files: Vec<SystemPath>,
    rev_deps: Vec<String>,
    options: UninstallOptions,
    total_space_to_free: u64,
    backup_root: &str,
    config_sizes: &Vec<u64>,
) -> (r: UninstallPlan)
    ensures
        r.app_id@ == app_id@,
        r.app_name@ == name@,
        stages_are(
            r.stages@,
            planned_stages(
                package_description@,
                string_views(all_files@),
                string_views(config_files@),
                options,
            ),
        ),
        warnings_are(r.warnings@, string_views(rev_deps@)),
        r.total_space_to_free == total_space_to_free,
        backup_is(
            r.backup_recommendation,
            options,
            string_views(config_files@),
            backup_root@,
            name@,
            config_sizes@,
        ),
{
    let ghost files_v = string_views(all_files@);
    let ghost configs_v = string_views(config_files@);
    let backup = if options.create_backup && config_files.len() > 0 {
        let mut path = String::new();
        push_str(&mut path, backup_root);
        push_str(&mut path, "/");
        push_str(&mut path, name.as_str());
        assert(path@ =~= backup_root@ + "/"@ + name@);
        let estimated_size = match sum_sizes(config_sizes) {
            Some(t) => t,
            None => u64::MAX,
        };
        Some(BackupRecommendation { path, estimated_size })
    } else {
        None
    };
    let desktop = select_desktop_entries(&all_files);
    let mut stages: Vec<UninstallStage> = Vec::new();
    stages.push(
        UninstallStage {
            stage_type: StageType::RemovePackage,
            description: package_description,
            items: all_files,
            requires_root: true,
            reversible: false,
        },
    );
    if options.remove_configs && config_files.len() > 0 {
        let description = count_description(config_files.len(), " config files");
        stages.push(
            UninstallStage {
                stage_type: StageType::RemoveConfigs,
                description,
                items: config_files,
                requires_root: true,
                reversible: true,
            },
        );
    }
    if desktop.len() > 0 {
        let description = count_description(desktop.len(), " desktop entries");
        stages.push(
            UninstallStage {
                stage_type: StageType::RemoveDesktopEntries,
                description,
                items: desktop,
                requires_root: false,
                reversible: true,
            },
        );
    }
    let mut warnings: Vec<UninstallWarning> = Vec::new();
    if rev_deps.len() > 0 {
        warnings.push(UninstallWarning::RequiredBySystem(rev_deps));
    }
    let app_id_owned = String::from_str(app_id);
    UninstallPlan {
        app_id: app_id_owned,
        app_name: name,
        stages,
        total_space_to_free,
        warnings,
        backup_recommendation: backup,
    }
}

// ---------------------------------------------------------------------------
// Removal
// ---------------------------------------------------------------------------

/// How the privileged removal command (run through `pkexec`) ended.
#[derive(Debug)]
pub enum PrivilegedOutcome {
    /// The command ran and exited.
    Exited { success: bool, exit_code: Option<i32>, stderr: String },
    /// The command could not be started.
    NotStarted,
}

/// Why the removal falls back to running the package manager directly.
#[derive(Debug, Clone, Copy, PartialEq, Eq, Structural)]
pub enum FallbackReason {
    /// `pkexec` exited with status 127 (command not found).
    HelperNotFound,
    /// `pkexec` could not be started at all.
    HelperNotStarted,
}

/// What to do after the privileged removal.
#[derive(Debug)]
pub enum RemovalStep {
    Done(UninstallResult),
    Fallback(FallbackReason),
}

/// `r` reports the successful removal of the plan's package: the package
/// stage completed and the plan's space freed.
pub open spec fn reports_success(r: UninstallResult, plan: UninstallPlan) -> bool {
    &&& r.app_id@ == plan.app_id@
    &&& r.success
    &&& r.stages_completed@ == seq![StageType::RemovePackage]
    &&& r.stages_failed@.len() == 0
    &&& r.space_freed == plan.total_space_to_free
    &&& r.backup_path is None
    &&& r.error_message is None
}

/// `r` reports the failed removal of the plan's package with `message`:
/// the package stage failed and nothing was freed.
pub open spec fn reports_failure(r: UninstallResult, plan: UninstallPlan, message: Seq<char>) -> bool {
    &&& r.app_id@ == plan.app_id@
    &&& !r.success
    &&& r.stages_completed@.len() == 0
    &&& r.stages_failed@ == seq![StageType::RemovePackage]
    &&& r.space_freed == 0
    &&& r.backup_path is None
    &&& r.error_message matches Some(m) && m@ == message
}

/// The result of a successful removal.
pub fn removal_succeeded(plan: &UninstallPlan) -> (r: UninstallResult)
    ensures
        reports_success(r, *plan),
{
    let mut completed: Vec<StageType> = Vec::new();
    completed.push(StageType::RemovePackage);
    assert(completed@ =~= seq![StageType::RemovePackage]);
    UninstallResult {
        app_id: plan.app_id.clone(),
        success: true,
        stages_completed: completed,
        stages_failed: Vec::new(),
        space_freed: plan.total_space_to_free,
        backup_path: None,
        error_message: None,
    }
}

/// The result of a failed removal.
pub fn removal_failed(plan: &UninstallPlan, message: String) -> (r: UninstallResult)
    ensures
        reports_failure(r, *plan, message@),
{
    let mut failed: Vec<StageType> = Vec::new();
    failed.push(StageType::RemovePackage);
    assert(failed@ =~= seq![StageType::RemovePackage]);
    UninstallResult {
        app_id: plan.app_id.clone(),
        success: false,
        stages_completed: Vec::new(),
        stages_failed: failed,
        space_freed: 0,
        backup_path: None,
        error_message: Some(message),
    }
}

/// `prefix + trim(detail) + suffix`.
fn failure_message(prefix: &str, detail: &str, suffix: &str) -> (r: String)
    ensures
        r@ == prefix@ + trim(detail@) + suffix@,
{
    let d = chars_of(detail);
    let t = trim_exec(&d);
    let mut s = String::new();
    push_str(&mut s, prefix);
    let mut i: usize = 0;
    while i < t.len()
        invariant
            i <= t@.len(),
            s@ == prefix@ + t@.take(i as int),
        decreases t@.len() - i,
    {
        crate::text::push_char(&mut s, t[i]);
        assert(t@.take(i + 1) =~= t@.take(i as int).push(t@[i as int]));
        i += 1;
    }
    push_str(&mut s, suffix);
    assert(t@.take(t@.len() as int) =~= t@);
    assert(Seq::<char>::empty() + prefix@ =~= prefix@);
    s
}

/// The decision after the privileged removal: done when it succeeded;
/// fall back to the package manager itself when `pkexec` was not found
/// (exit status 127) or could not start; otherwise a failure whose message
/// is `failure_prefix` followed by the trimmed standard error.
pub fn after_privileged_removal(
    plan: &UninstallPlan,
    outcome: &PrivilegedOutcome,
    failure_prefix: &str,
) -> (r: RemovalStep)
    ensures
        match *outcome {
            PrivilegedOutcome::Exited { success, exit_code, stderr } => {
                if success {
                    r matches RemovalStep::Done(res) && reports_success(res, *plan)
                } else if exit_code == Some(127i32) {
                    r == RemovalStep::Fallback(FallbackReason::HelperNotFound)
                } else {
                    r matches RemovalStep::Done(res) && reports_failure(
                        res,
                        *plan,
                        failure_prefix@ + trim(stderr@),
                    )
                }
            },
            PrivilegedOutcome::NotStarted => r == RemovalStep::Fallback(
                FallbackReason::HelperNotStarted,
            ),
        },
{
    match outcome {
        PrivilegedOutcome::Exited { success, exit_code, stderr } => {
            if *success {
                RemovalStep::Done(removal_succeeded(plan))
            } else if *exit_code == Some(127i32) {
                RemovalStep::Fallback(FallbackReason::HelperNotFound)
            } else {
                let message = failure_message(failure_prefix, stderr.as_str(), "");
                proof {
                    reveal_strlit("");
                }
                assert(failure_prefix@ + trim(stderr@) + ""@ =~= failure_prefix@ + trim(stderr@));
                RemovalStep::Done(removal_failed(plan, message))
            }
        },
        PrivilegedOutcome::NotStarted => RemovalStep::Fallback(FallbackReason::HelperNotStarted),
    }
}

/// The result of running the package manager directly: success when it
/// succeeded, otherwise a failure whose message is `prefix`, the trimmed
/// standard error and `suffix`.
pub fn after_direct_removal(
    plan: &UninstallPlan,
    success: bool,
    stderr: &str,
    prefix: &str,
    suffix: &str,
) -> (r: UninstallResult)
    ensures
        success ==> reports_success(r, *plan),
        !success ==> reports_failure(r, *plan, prefix@ + trim(stderr@) + suffix@),
{
    if success {
        removal_succeeded(plan)
    } else {
        let message = failure_message(prefix, stderr, suffix);
        removal_failed(plan, message)
    }
}

} // verus!
