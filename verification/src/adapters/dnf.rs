//! RPM-based systems: what `rpm` prints, read into footprints, plans and
//! removal results.

use vstd::prelude::*;

use tokio_util::sync::CancellationToken;

use crate::adapters::fields::{
    first_word_or_self, first_word_or_self_exec, nth_i64, nth_i64_exec, nth_or_empty,
    nth_string, nth_u64_or_zero, nth_u64_or_zero_exec, piece_views,
};
use crate::adapters::sizes::{format_size, format_size_spec};
use crate::adapters::uninstall::{
    after_direct_removal, after_privileged_removal, backup_is, build_plan, planned_stages,
    reports_failure, reports_success, stages_are, warnings_are, FallbackReason,
    PrivilegedOutcome, RemovalStep,
};
use crate::adapters::{strip_source_prefix, unprefixed, AdapterError};
use crate::clock::{utc_timestamp, utc_timestamp_representable};
use crate::models::{
    dependencies_are, dependency, describes, footprints_describe, new_footprint, opt_view,
    zero_sizes, AppFootprint, DependencyInfo, DependencyType, FootprintFields, InstallScope,
    PackageSource, SizeBreakdown, SystemPath, UninstallOptions, UninstallPlan, UninstallResult,
};
use crate::text::{
    chars_of, contains, contains_str, push_str, split, split_exec, splitn, splitn_exec,
    starts_with, starts_with_str, string_of, string_views, trim,
};

verus! {

/// The adapter for RPM packages.
pub struct DnfAdapter;

/// A timestamp kept only when `chrono` can represent it.
pub open spec fn representable(ts: Option<i64>) -> Option<i64> {
    match ts {
        Some(t) => if utc_timestamp_representable(t) {
            Some(t)
        } else {
            None
        },
        None => None,
    }
}

pub fn representable_exec(ts: Option<i64>) -> (r: Option<i64>)
    ensures
        r == representable(ts),
{
    match ts {
        Some(t) => utc_timestamp(t),
        None => None,
    }
}

/// The pieces of a tab-separated line.
pub open spec fn tab_fields(line: Seq<char>) -> Seq<Seq<char>> {
    split(line, "\t"@)
}

fn tab_fields_exec(line: &str) -> (r: Vec<Vec<char>>)
    ensures
        piece_views(r@) == tab_fields(line@),
{
    let c = chars_of(line);
    let tab = chars_of("\t");
    proof {
        reveal_strlit("\t");
    }
    split_exec(&c, &tab)
}

/// A line of `rpm -qa --queryformat
/// '%{NAME}\t%{VERSION}-%{RELEASE}\t%{ARCH}\t%{SIZE}\t%{ARCHIVESIZE}\t%{INSTALLTIME}\t%{SUMMARY}\n'`
/// read as a footprint; empty lines are skipped.
pub open spec fn rpm_listing_fields(line: Seq<char>) -> Option<FootprintFields> {
    if line.len() == 0 {
        None
    } else {
        let p = tab_fields(line);
        let name = nth_or_empty(p, 0);
        Some(
            FootprintFields {
                id: "rpm:"@ + name,
                display_name: name,
                source: PackageSource::Rpm,
                version: nth_or_empty(p, 1),
                architecture: nth_or_empty(p, 2),
                scope: InstallScope::System,
                tracked_files: Seq::empty(),
                declared_configs: Seq::empty(),
                size_bytes: SizeBreakdown {
                    package_size: nth_u64_or_zero(p, 4),
                    total_footprint: nth_u64_or_zero(p, 3),
                    ..zero_sizes()
                },
                installed_at: representable(nth_i64(p, 5)),
                summary: nth_or_empty(p, 6),
                description: Seq::empty(),
                homepage: None,
                license: None,
            },
        )
    }
}

/// The footprints listed by `rpm -qa`, one per non-empty line.
pub open spec fn rpm_listing(lines: Seq<Seq<char>>) -> Seq<FootprintFields> {
    lines.filter_map(|l: Seq<char>| rpm_listing_fields(l))
}

/// A line read from `rpm -q --qf '[%{FILENAMES}\t%{FILESIZES}\n]'`:
/// the file's path and its size (0 when unreadable); empty lines skipped.
pub open spec fn rpm_file_entry(line: Seq<char>) -> Option<(Seq<char>, u64)> {
    if line.len() == 0 {
        None
    } else {
        Some((nth_or_empty(tab_fields(line), 0), nth_u64_or_zero(tab_fields(line), 1)))
    }
}

/// A requirement printed by `rpm -qR`, when it names a package: empty
/// lines, `rpmlib(...)` capabilities and shared-library capabilities
/// (containing `.so(`) are skipped; the name is the first word.
pub open spec fn rpm_requirement(line: Seq<char>) -> Option<Seq<char>> {
    if line.len() > 0 && !starts_with(line, "rpmlib("@) && !contains(line, ".so("@) {
        Some(first_word_or_self(line))
    } else {
        None
    }
}

/// What `rpm -q --queryformat` tells of one package for its footprint.
pub struct RpmPackageInfo {
    pub name: String,
    pub version: String,
    pub arch: String,
    pub installed_size: u64,
    pub archive_size: u64,
    pub install_time: Option<i64>,
    pub summary: String,
    pub homepage: Option<String>,
    pub license: Option<String>,
}

/// A piece kept only when present and not empty.
pub open spec fn non_empty_piece(parts: Seq<Seq<char>>, k: int) -> Option<Seq<char>> {
    if 0 <= k < parts.len() && parts[k].len() > 0 {
        Some(parts[k])
    } else {
        None
    }
}

fn non_empty_piece_exec(parts: &Vec<Vec<char>>, k: usize) -> (r: Option<String>)
    ensures
        opt_view(r) == non_empty_piece(piece_views(parts@), k as int),
{
    if k < parts.len() && parts[k].len() > 0 {
        Some(string_of(&parts[k]))
    } else {
        None
    }
}

/// What `rpm -q --queryformat` tells of a package for its removal plan.
pub struct RpmPlanInfo {
    pub name: String,
    pub installed_size: u64,
    pub archive_size: u64,
}

impl DnfAdapter {
    pub fn new() -> (r: Self) {
        DnfAdapter
    }

    /// The backend's identifier.
    pub fn backend_id(&self) -> (r: &'static str)
        ensures
            r@ == "rpm"@,
    {
        "rpm"
    }

    /// The package named by an application id (`"rpm:bash"` → `"bash"`).
    pub fn package_name(app_id: &str) -> (r: String)
        ensures
            r@ == unprefixed(app_id@, "rpm:"@),
    {
        strip_source_prefix(app_id, "rpm:")
    }

    /// One line of the installed-package listing, as a footprint.
    pub fn listing_line(line: &str) -> (r: Option<AppFootprint>)
        ensures
            match rpm_listing_fields(line@) {
                Some(f) => r matches Some(fp) && describes(fp, f),
                None => r is None,
            },
    {
        if line.is_empty() {
            return None;
        }
        let p = tab_fields_exec(line);
        let name = nth_string(&p, 0);
        let mut id = String::new();
        push_str(&mut id, "rpm:");
        push_str(&mut id, name.as_str());
        assert(id@ =~= "rpm:"@ + name@);
        let display_name = name;
        let version = nth_string(&p, 1);
        let arch = nth_string(&p, 2);
        let installed_size = nth_u64_or_zero_exec(&p, 3);
        let archive_size = nth_u64_or_zero_exec(&p, 4);
        let install_ts = nth_i64_exec(&p, 5);
        let summary = nth_string(&p, 6);
        let mut size = SizeBreakdown::default();
        size.package_size = archive_size;
        size.total_footprint = installed_size;
        let installed_at = representable_exec(install_ts);
        let no_files: Vec<SystemPath> = Vec::new();
        let no_configs: Vec<SystemPath> = Vec::new();
        assert(string_views(no_files@) =~= Seq::empty());
        assert(string_views(no_configs@) =~= Seq::empty());
        Some(
            new_footprint(
                id,
                display_name,
                PackageSource::Rpm,
                version,
                arch,
                InstallScope::System,
                no_files,
                no_configs,
                size,
                installed_at,
                summary,
                String::new(),
                None,
                None,
            ),
        )
    }

    /// The installed packages, one footprint per non-empty line of the
    /// listing; the token is consulted before each line, and a cancellation
    /// stops the listing with `Cancelled`.
    pub fn list_installed(lines: &Vec<String>, cancel: &CancellationToken) -> (r: Result<
        Vec<AppFootprint>,
        AdapterError,
    >)
        ensures
            r matches Ok(v) ==> footprints_describe(v@, rpm_listing(string_views(lines@))),
            r matches Err(e) ==> e is Cancelled,
            lines@.len() == 0 ==> r is Ok,
    {
        let mut apps: Vec<AppFootprint> = Vec::new();
        let mut i: usize = 0;
        while i < lines.len()
            invariant
                i <= lines@.len(),
                footprints_describe(apps@, rpm_listing(string_views(lines@).take(i as int))),
            decreases lines@.len() - i,
        {
            if cancel.is_cancelled() {
                return Err(AdapterError::Cancelled);
            }
            let ghost pre = string_views(lines@).take(i as int);
            let ghost post = string_views(lines@).take(i + 1);
            proof {
                assert(post.drop_last() =~= pre);
                assert(post.last() == lines@[i as int]@);
            }
            match Self::listing_line(lines[i].as_str()) {
                Some(fp) => {
                    let ghost prev = apps@;
                    apps.push(fp);
                    proof {
                        assert(rpm_listing(post) == rpm_listing(pre).push(
                            rpm_listing_fields(post.last()).unwrap(),
                        )) by {
                            assert(rpm_listing(post) =~= rpm_listing(pre) + seq![
                                rpm_listing_fields(post.last()).unwrap(),
                            ]);
                        }
                        assert forall|k: int| 0 <= k < apps@.len() implies describes(
                            #[trigger] apps@[k],
                            rpm_listing(post)[k],
                        ) by {
                            if k < prev.len() {
                                assert(apps@[k] == prev[k]);
                            }
                        }
                    }
                },
                None => {},
            }
            i += 1;
        }
        assert(string_views(lines@).take(lines@.len() as int) =~= string_views(lines@));
        Ok(apps)
    }

    /// The files and sizes printed for a package, one per non-empty line.
    pub fn file_entries(lines: &Vec<String>) -> (r: Vec<(String, u64)>)
        ensures
            crate::adapters::sizes::file_views(r@) == string_views(lines@).filter_map(
                |l: Seq<char>| rpm_file_entry(l),
            ),
    {
        let mut out: Vec<(String, u64)> = Vec::new();
        let mut i: usize = 0;
        while i < lines.len()
            invariant
                i <= lines@.len(),
                crate::adapters::sizes::file_views(out@) == string_views(lines@).take(
                    i as int,
                ).filter_map(|l: Seq<char>| rpm_file_entry(l)),
            decreases lines@.len() - i,
        {
            let ghost pre = string_views(lines@).take(i as int);
            let ghost post = string_views(lines@).take(i + 1);
            proof {
                assert(post.drop_last() =~= pre);
                assert(post.last() == lines@[i as int]@);
            }
            if !lines[i].as_str().is_empty() {
                let p = tab_fields_exec(lines[i].as_str());
                let path = nth_string(&p, 0);
                let size = nth_u64_or_zero_exec(&p, 1);
                let ghost prev = out@;
                out.push((path, size));
                assert(crate::adapters::sizes::file_views(out@) =~= crate::adapters::sizes::file_views(
                    prev,
                ) + seq![(path@, size)]);
            }
            i += 1;
        }
        assert(string_views(lines@).take(lines@.len() as int) =~= string_views(lines@));
        out
    }

    /// The packages required by a package (`rpm -qR`), skipping the
    /// capabilities that are not packages.
    pub fn requirements(lines: &Vec<String>) -> (r: Vec<DependencyInfo>)
        ensures
            dependencies_are(
                r@,
                string_views(lines@).filter_map(|l: Seq<char>| rpm_requirement(l)),
                DependencyType::Required,
            ),
    {
        let mut out: Vec<DependencyInfo> = Vec::new();
        let mut i: usize = 0;
        while i < lines.len()
            invariant
                i <= lines@.len(),
                dependencies_are(
                    out@,
                    string_views(lines@).take(i as int).filter_map(
                        |l: Seq<char>| rpm_requirement(l),
                    ),
                    DependencyType::Required,
                ),
            decreases lines@.len() - i,
        {
            let ghost pre = string_views(lines@).take(i as int);
            let ghost post = string_views(lines@).take(i + 1);
            proof {
                assert(post.drop_last() =~= pre);
                assert(post.last() == lines@[i as int]@);
            }
            let l = chars_of(lines[i].as_str());
            if l.len() > 0 && !starts_with_str(&l, "rpmlib(") && !contains_str(&l, ".so(") {
                let name = first_word_or_self_exec(&l);
                let d = dependency(string_of(&name), DependencyType::Required);
                let ghost prev = out@;
                out.push(d);
                proof {
                    let names = post.filter_map(|l: Seq<char>| rpm_requirement(l));
                    assert(names =~= pre.filter_map(|l: Seq<char>| rpm_requirement(l)) + seq![
                        name@,
                    ]);
                    assert forall|k: int| 0 <= k < out@.len() implies {
                        &&& (#[trigger] out@[k]).name@ == names[k]
                        &&& out@[k].version@.len() == 0
                        &&& out@[k].dependency_type == DependencyType::Required
                    } by {
                        if k < prev.len() {
                            assert(out@[k] == prev[k]);
                        }
                    }
                }
            }
            i += 1;
        }
        assert(string_views(lines@).take(lines@.len() as int) =~= string_views(lines@));
        out
    }

    /// The package information for a footprint, from the first line of
    /// `rpm -q --queryformat '%{NAME}\t%{VERSION}-%{RELEASE}\t%{ARCH}\t%{SIZE}\t
    /// %{ARCHIVESIZE}\t%{INSTALLTIME}\t%{SUMMARY}\t%{URL}\t%{LICENSE}\n'`
    /// split into at most nine fields: not found when nothing was printed,
    /// a parse error with fewer than six fields.
    pub fn parse_info(pkg: &str, lines: &Vec<String>) -> (r: Result<RpmPackageInfo, AdapterError>)
        ensures
            lines@.len() == 0 ==> (r matches Err(AdapterError::AppNotFound(m)) && m@ == pkg@),
            lines@.len() > 0 ==> ({
                let p = splitn(lines@[0]@, 9, "\t"@);
                if p.len() < 6 {
                    r matches Err(AdapterError::Parse(m)) && m@ == "unexpected rpm info format"@
                } else {
                    r matches Ok(info) && {
                        &&& info.name@ == p[0]
                        &&& info.version@ == p[1]
                        &&& info.arch@ == p[2]
                        &&& info.installed_size == nth_u64_or_zero(p, 3)
                        &&& info.archive_size == nth_u64_or_zero(p, 4)
                        &&& info.install_time == nth_i64(p, 5)
                        &&& info.summary@ == nth_or_empty(p, 6)
                        &&& opt_view(info.homepage) == non_empty_piece(p, 7)
                        &&& opt_view(info.license) == non_empty_piece(p, 8)
                    }
                }
            }),
    {
        if lines.len() == 0 {
            return Err(AdapterError::AppNotFound(String::from_str(pkg)));
        }
        let c = chars_of(lines[0].as_str());
        let tab = chars_of("\t");
        proof {
            reveal_strlit("\t");
        }
        let p = splitn_exec(&c, 9, &tab);
        if p.len() < 6 {
            return Err(AdapterError::Parse(String::from_str("unexpected rpm info format")));
        }
        Ok(
            RpmPackageInfo {
                name: string_of(&p[0]),
                version: string_of(&p[1]),
                arch: string_of(&p[2]),
                installed_size: nth_u64_or_zero_exec(&p, 3),
                archive_size: nth_u64_or_zero_exec(&p, 4),
                install_time: nth_i64_exec(&p, 5),
                summary: nth_string(&p, 6),
                homepage: non_empty_piece_exec(&p, 7),
                license: non_empty_piece_exec(&p, 8),
            },
        )
    }

    /// The footprint of a package from its information, files, declared
    /// configuration files and, when it could be measured, the breakdown
    /// of its files' sizes: the archive size is the package size, and the
    /// total is never less than the size `rpm` records.
    pub fn footprint(
        info: RpmPackageInfo,
        files: Vec<SystemPath>,
        configs: Vec<SystemPath>,
        detailed: Option<SizeBreakdown>,
    ) -> (r: AppFootprint)
        ensures
            describes(
                r,
                FootprintFields {
                    id: "rpm:"@ + info.name@,
                    display_name: info.name@,
                    source: PackageSource::Rpm,
                    version: info.version@,
                    architecture: info.arch@,
                    scope: InstallScope::System,
                    tracked_files: string_views(files@),
                    declared_configs: string_views(configs@),
                    size_bytes: ({
                        let base = match detailed {
                            Some(b) => b,
                            None => SizeBreakdown {
                                package_size: info.archive_size,
                                total_footprint: info.installed_size,
                                ..zero_sizes()
                            },
                        };
                        SizeBreakdown {
                            package_size: info.archive_size,
                            total_footprint: if base.total_footprint < info.installed_size {
                                info.installed_size
                            } else {
                                base.total_footprint
                            },
                            ..base
                        }
                    }),
                    installed_at: representable(info.install_time),
                    summary: info.summary@,
                    description: Seq::empty(),
                    homepage: opt_view(info.homepage),
                    license: opt_view(info.license),
                },
            ),
    {
        let mut size = match detailed {
            Some(b) => b,
            None => {
                let mut b = SizeBreakdown::default();
                b.package_size = info.archive_size;
                b.total_footprint = info.installed_size;
                b
            },
        };
        size.package_size = info.archive_size;
        if size.total_footprint < info.installed_size {
            size.total_footprint = info.installed_size;
        }
        let mut id = String::new();
        push_str(&mut id, "rpm:");
        push_str(&mut id, info.name.as_str());
        assert(id@ =~= "rpm:"@ + info.name@);
        let installed_at = representable_exec(info.install_time);
        new_footprint(
            id,
            info.name,
            PackageSource::Rpm,
            info.version,
            info.arch,
            InstallScope::System,
            files,
            configs,
            size,
            installed_at,
            info.summary,
            String::new(),
            info.homepage,
            info.license,
        )
    }

    /// The package information for a removal plan, from the first line of
    /// `rpm -q --queryformat '%{NAME}\t%{VERSION}-%{RELEASE}\t%{SIZE}\t
    /// %{ARCHIVESIZE}\t%{SUMMARY}\n'` split into at most five fields: not
    /// found when nothing was printed, a parse error with fewer than two.
    pub fn parse_plan_info(pkg: &str, lines: &Vec<String>) -> (r: Result<RpmPlanInfo, AdapterError>)
        ensures
            lines@.len() == 0 ==> (r matches Err(AdapterError::AppNotFound(m)) && m@ == pkg@),
            lines@.len() > 0 ==> ({
                let p = splitn(lines@[0]@, 5, "\t"@);
                if p.len() < 2 {
                    r matches Err(AdapterError::Parse(m)) && m@ == "unexpected rpm format"@
                } else {
                    r matches Ok(info) && {
                        &&& info.name@ == p[0]
                        &&& info.installed_size == nth_u64_or_zero(p, 2)
                        &&& info.archive_size == nth_u64_or_zero(p, 3)
                    }
                }
            }),
    {
        if lines.len() == 0 {
            return Err(AdapterError::AppNotFound(String::from_str(pkg)));
        }
        let c = chars_of(lines[0].as_str());
        let tab = chars_of("\t");
        proof {
            reveal_strlit("\t");
        }
        let p = splitn_exec(&c, 5, &tab);
        if p.len() < 2 {
            return Err(AdapterError::Parse(String::from_str("unexpected rpm format")));
        }
        Ok(
            RpmPlanInfo {
                name: string_of(&p[0]),
                installed_size: nth_u64_or_zero_exec(&p, 2),
                archive_size: nth_u64_or_zero_exec(&p, 3),
            },
        )
    }

    /// The removal plan of an RPM package: its files, its declared
    /// configuration files and the installed packages that require it;
    /// the space to free is the installed size.
    pub fn uninstall_plan(
        app_id: &str,
        info: RpmPlanInfo,
        all_files: Vec<SystemPath>,
        config_files: Vec<SystemPath>,
        rev_deps: Vec<String>,
        options: UninstallOptions,
        backup_root: &str,
        config_sizes: &Vec<u64>,
    ) -> (r: UninstallPlan)
        ensures
            r.app_id@ == app_id@,
            r.app_name@ == info.name@,
            stages_are(
                r.stages@,
                planned_stages(
                    "Remove RPM package '"@ + info.name@ + "' (archive size: "@
                        + format_size_spec(info.archive_size) + ")"@,
                    string_views(all_files@),
                    string_views(config_files@),
                    options,
                ),
            ),
            warnings_are(r.warnings@, string_views(rev_deps@)),
            r.total_space_to_free == info.installed_size,
            backup_is(
                r.backup_recommendation,
                options,
                string_views(config_files@),
                backup_root@,
                info.name@,
                config_sizes@,
            ),
    {
        let mut description = String::new();
        push_str(&mut description, "Remove RPM package '");
        push_str(&mut description, info.name.as_str());
        push_str(&mut description, "' (archive size: ");
        let size_text = format_size(info.archive_size);
        push_str(&mut description, size_text.as_str());
        push_str(&mut description, ")");
        assert(description@ =~= "Remove RPM package '"@ + info.name@ + "' (archive size: "@
            + format_size_spec(info.archive_size) + ")"@);
        build_plan(
            app_id,
            info.name,
            description,
            all_files,
            config_files,
            rev_deps,
            options,
            info.installed_size,
            backup_root,
            config_sizes,
        )
    }

    /// After `pkexec rpm -e`: done, or fall back to plain `rpm -e`.
    pub fn after_pkexec(plan: &UninstallPlan, outcome: &PrivilegedOutcome) -> (r: RemovalStep)
        ensures
            match *outcome {
                PrivilegedOutcome::Exited { success, exit_code, stderr } => {
                    if success {
                        r matches RemovalStep::Done(res) && reports_success(res, *plan)
                    } else if exit_code == Some(127i32) {
                        r == RemovalStep::Fallback(FallbackReason::HelperNotFound)
                    } else {
                        r matches RemovalStep::Done(res) && reports_failure(
                            res,
                            *plan,
                            "pkexec rpm -e failed: "@ + trim(stderr@),
                        )
                    }
                },
                PrivilegedOutcome::NotStarted => r == RemovalStep::Fallback(
                    FallbackReason::HelperNotStarted,
                ),
            },
    {
        after_privileged_removal(plan, outcome, "pkexec rpm -e failed: ")
    }

    /// After plain `rpm -e`, run because `pkexec` was missing (`reason`).
    pub fn after_rpm(plan: &UninstallPlan, reason: FallbackReason, success: bool, stderr: &str) -> (r:
        UninstallResult)
        ensures
            success ==> reports_success(r, *plan),
            !success ==> reports_failure(
                r,
                *plan,
                "rpm -e failed: "@ + trim(stderr@) + (if reason == FallbackReason::HelperNotFound {
                    ""@
                } else {
                    ". Try with sudo."@
                }),
            ),
    {
        let suffix = if reason == FallbackReason::HelperNotFound {
            ""
        } else {
            ". Try with sudo."
        };
        after_direct_removal(plan, success, stderr, "rpm -e failed: ", suffix)
    }
}

} // verus!
