//! The canonical application footprint and the records around it.
//!
//! Instants are seconds since the Unix epoch; the free-form `details` of a
//! history entry is JSON text.

use vstd::prelude::*;

use crate::clock::now_unix_seconds;
use crate::text::{chars_eq_str, chars_of, string_views};

verus! {

pub type SystemPath = String;

#[derive(Debug, Clone, Copy, PartialEq, Eq, Structural)]
pub enum PackageSource {
    Apt,
    Rpm,
    Flatpak,
    Snap,
    Loose,
    Unknown,
}

#[derive(Debug, Clone, Copy, PartialEq, Eq, Structural)]
pub enum InstallScope {
    System,
    User,
}

/// The name under which a source is stored (the `source` column).
pub open spec fn source_label(s: PackageSource) -> Seq<char> {
    match s {
        PackageSource::Apt => "apt"@,
        PackageSource::Rpm => "rpm"@,
        PackageSource::Flatpak => "flatpak"@,
        PackageSource::Snap => "snap"@,
        PackageSource::Loose => "loose"@,
        PackageSource::Unknown => "unknown"@,
    }
}

impl PackageSource {
    /// The name under which the source is stored.
    pub fn label(&self) -> (r: &'static str)
        ensures
            r@ == source_label(*self),
    {
        match self {
            PackageSource::Apt => "apt",
            PackageSource::Rpm => "rpm",
            PackageSource::Flatpak => "flatpak",
            PackageSource::Snap => "snap",
            PackageSource::Loose => "loose",
            PackageSource::Unknown => "unknown",
        }
    }

    /// The source stored under `name`, if any.
    pub fn from_label(name: &str) -> (r: Option<PackageSource>)
        ensures
            match r {
                Some(s) => source_label(s) == name@,
                None => forall|s: PackageSource| source_label(s) != name@,
            },
    {
        let c = chars_of(name);
        if chars_eq_str(&c, "apt") {
            Some(PackageSource::Apt)
        } else if chars_eq_str(&c, "rpm") {
            Some(PackageSource::Rpm)
        } else if chars_eq_str(&c, "flatpak") {
            Some(PackageSource::Flatpak)
        } else if chars_eq_str(&c, "snap") {
            Some(PackageSource::Snap)
        } else if chars_eq_str(&c, "loose") {
            Some(PackageSource::Loose)
        } else if chars_eq_str(&c, "unknown") {
            Some(PackageSource::Unknown)
        } else {
            None
        }
    }
}

/// The name under which a scope is stored (the `scope` column).
pub open spec fn scope_label(s: InstallScope) -> Seq<char> {
    match s {
        InstallScope::System => "system"@,
        InstallScope::User => "user"@,
    }
}

impl InstallScope {
    /// The name under which the scope is stored.
    pub fn label(&self) -> (r: &'static str)
        ensures
            r@ == scope_label(*self),
    {
        match self {
            InstallScope::System => "system",
            InstallScope::User => "user",
        }
    }

    /// The scope stored under `name`, if any.
    pub fn from_label(name: &str) -> (r: Option<InstallScope>)
        ensures
            match r {
                Some(s) => scope_label(s) == name@,
                None => forall|s: InstallScope| scope_label(s) != name@,
            },
    {
        let c = chars_of(name);
        if chars_eq_str(&c, "system") {
            Some(InstallScope::System)
        } else if chars_eq_str(&c, "user") {
            Some(InstallScope::User)
        } else {
            None
        }
    }
}

#[derive(Debug, Clone, Copy, PartialEq, Eq, Structural)]
pub enum DependencyType {
    Required,
    Recommended,
    Suggested,
    Runtime,
}

#[derive(Debug, Clone, Copy, PartialEq, Eq, Structural)]
pub struct SizeBreakdown {
    pub package_size: u64,
    pub config_size: u64,
    pub cache_size: u64,
    pub data_size: u64,
    pub shared_size: u64,
    pub total_footprint: u64,
}

/// The breakdown with every size zero.
pub open spec fn zero_sizes() -> SizeBreakdown {
    SizeBreakdown {
        package_size: 0,
        config_size: 0,
        cache_size: 0,
        data_size: 0,
        shared_size: 0,
        total_footprint: 0,
    }
}

impl Default for SizeBreakdown {
    fn default() -> (r: Self)
        ensures
            r == zero_sizes(),
    {
        SizeBreakdown {
            package_size: 0,
            config_size: 0,
            cache_size: 0,
            data_size: 0,
            shared_size: 0,
            total_footprint: 0,
        }
    }
}

#[derive(Debug, Clone)]
pub struct IntegrityStatus {
    /// Seconds since the Unix epoch.
    pub checked_at: i64,
    pub modified_files: Vec<SystemPath>,
    pub missing_files: Vec<SystemPath>,
    pub checksum_algorithm: String,
}

#[derive(Debug, Clone)]
pub struct SandboxPermission {
    pub permission_type: String,
    pub resource: String,
    pub granted: bool,
}

#[derive(Debug, Clone)]
pub struct ProcessInfo {
    pub pid: u32,
    pub name: String,
    pub cmdline: String,
    pub memory_bytes: u64,
}

#[derive(Debug, Clone)]
pub struct DependencyInfo {
    pub name: String,
    pub version: String,
    pub dependency_type: DependencyType,
}

#[derive(Debug, Clone, Copy, PartialEq, Eq, Structural)]
pub struct UninstallOptions {
    pub remove_configs: bool,
    pub remove_cache: bool,
    pub remove_data: bool,
    pub remove_orphan_deps: bool,
    pub clean_flatpak_runtimes: bool,
    pub create_backup: bool,
}

impl Default for UninstallOptions {
    /// Configurations and caches go, user data stays, and a backup is made.
    fn default() -> (r: Self)
        ensures
            r == (UninstallOptions {
                remove_configs: true,
                remove_cache: true,
                remove_data: false,
                remove_orphan_deps: false,
                clean_flatpak_runtimes: false,
                create_backup: true,
            }),
    {
        UninstallOptions {
            remove_configs: true,
            remove_cache: true,
            remove_data: false,
            remove_orphan_deps: false,
            clean_flatpak_runtimes: false,
            create_backup: true,
        }
    }
}

#[derive(Debug, Clone, Copy, PartialEq, Eq, Structural)]
pub enum StageType {
    StopProcesses,
    StopServices,
    RemovePackage,
    RemoveConfigs,
    RemoveCache,
    RemoveData,
    RemoveDesktopEntries,
    RemoveOrphanDeps,
    CleanFlatpakRuntimes,
}

#[derive(Debug, Clone)]
pub struct UninstallStage {
    pub stage_type: StageType,
    pub description: String,
    pub items: Vec<SystemPath>,
    pub requires_root: bool,
    pub reversible: bool,
}

#[derive(Debug, Clone)]
pub enum UninstallWarning {
    RunningProcesses(Vec<ProcessInfo>),
    SharedDependencies(Vec<String>),
    ModifiedConfigs(Vec<SystemPath>),
    RequiredBySystem(Vec<String>),
    LargeDataLoss(u64),
}

#[derive(Debug, Clone)]
pub struct BackupRecommendation {
    pub path: SystemPath,
    pub estimated_size: u64,
}

#[derive(Debug, Clone)]
pub struct UninstallPlan {
    pub app_id: String,
    pub app_name: String,
    pub stages: Vec<UninstallStage>,
    pub total_space_to_free: u64,
    pub warnings: Vec<UninstallWarning>,
    pub backup_recommendation: Option<BackupRecommendation>,
}

#[derive(Debug, Clone)]
pub struct UninstallResult {
    pub app_id: String,
    pub success: bool,
    pub stages_completed: Vec<StageType>,
    pub stages_failed: Vec<StageType>,
    pub space_freed: u64,
    pub backup_path: Option<SystemPath>,
    pub error_message: Option<String>,
}

#[derive(Debug, Clone, Copy, PartialEq, Eq, Structural)]
pub enum RiskLevel {
    Low,
    Medium,
    High,
    Critical,
}

#[derive(Debug, Clone)]
pub enum PrivacyConcern {
    Unsandboxed { risk_level: RiskLevel, description: String },
    FullHomeAccess,
    NetworkAccess,
    MediaDeviceAccess(String),
    LocationAccess,
    Custom { severity: RiskLevel, description: String },
}

#[derive(Debug, Clone)]
pub struct PrivacyReport {
    pub score: u8,
    pub concerns: Vec<PrivacyConcern>,
}

#[derive(Debug, Clone, Copy, PartialEq, Eq, Structural)]
pub enum OperationType {
    Scan,
    Uninstall,
    Clean,
    PermissionChange,
    Freeze,
    Backup,
}

#[derive(Debug, Clone, Copy, PartialEq, Eq, Structural)]
pub enum OperationStatus {
    Pending,
    Success,
    Failed,
    Cancelled,
}

#[derive(Debug, Clone)]
pub struct HistoryEntry {
    pub id: i64,
    pub operation: OperationType,
    pub app_id: Option<String>,
    pub app_name: Option<String>,
    /// JSON text.
    pub details: String,
    pub status: OperationStatus,
    /// Seconds since the Unix epoch.
    pub started_at: i64,
    pub completed_at: Option<i64>,
    pub space_freed: u64,
    pub error: Option<String>,
}

#[derive(Debug, Clone)]
pub struct AppFootprint {
    pub id: String,
    pub display_name: String,
    pub source: PackageSource,
    pub version: String,
    pub architecture: String,
    pub scope: InstallScope,
    pub tracked_files: Vec<SystemPath>,
    pub declared_configs: Vec<SystemPath>,
    pub discovered_configs: Vec<SystemPath>,
    pub discovered_cache: Vec<SystemPath>,
    pub discovered_data: Vec<SystemPath>,
    pub desktop_entries: Vec<SystemPath>,
    pub systemd_services: Vec<String>,
    pub running_processes: Vec<ProcessInfo>,
    pub dependencies: Vec<String>,
    pub reverse_dependencies: Vec<String>,
    pub is_orphan_candidate: bool,
    pub size_bytes: SizeBreakdown,
    pub integrity_status: IntegrityStatus,
    pub sandbox_permissions: Vec<SandboxPermission>,
    /// Seconds since the Unix epoch.
    pub last_accessed: Option<i64>,
    /// Seconds since the Unix epoch.
    pub installed_at: Option<i64>,
    pub icon: Option<String>,
    pub summary: String,
    pub description: String,
    pub homepage: Option<String>,
    pub license: Option<String>,
}

/// The characters of an optional string.
pub open spec fn opt_view(o: Option<String>) -> Option<Seq<char>> {
    match o {
        Some(s) => Some(s@),
        None => None,
    }
}

/// The fields of a footprint that the adapters fill in.
pub struct FootprintFields {
    pub id: Seq<char>,
    pub display_name: Seq<char>,
    pub source: PackageSource,
    pub version: Seq<char>,
    pub architecture: Seq<char>,
    pub scope: InstallScope,
    pub tracked_files: Seq<Seq<char>>,
    pub declared_configs: Seq<Seq<char>>,
    pub size_bytes: SizeBreakdown,
    pub installed_at: Option<i64>,
    pub summary: Seq<char>,
    pub description: Seq<char>,
    pub homepage: Option<Seq<char>>,
    pub license: Option<Seq<char>>,
}

/// Every field that the adapters never fill in holds its default value.
pub open spec fn rest_is_default(fp: AppFootprint) -> bool {
    &&& fp.discovered_configs@.len() == 0
    &&& fp.discovered_cache@.len() == 0
    &&& fp.discovered_data@.len() == 0
    &&& fp.desktop_entries@.len() == 0
    &&& fp.systemd_services@.len() == 0
    &&& fp.running_processes@.len() == 0
    &&& fp.dependencies@.len() == 0
    &&& fp.reverse_dependencies@.len() == 0
    &&& !fp.is_orphan_candidate
    &&& fp.integrity_status.modified_files@.len() == 0
    &&& fp.integrity_status.missing_files@.len() == 0
    &&& fp.integrity_status.checksum_algorithm@.len() == 0
    &&& fp.sandbox_permissions@.len() == 0
    &&& fp.last_accessed is None
    &&& fp.icon is None
}

/// `fp` carries exactly the fields `f`, every other field holding its
/// default value (the integrity check time is the time of construction).
pub open spec fn describes(fp: AppFootprint, f: FootprintFields) -> bool {
    &&& fp.id@ == f.id
    &&& fp.display_name@ == f.display_name
    &&& fp.source == f.source
    &&& fp.version@ == f.version
    &&& fp.architecture@ == f.architecture
    &&& fp.scope == f.scope
    &&& string_views(fp.tracked_files@) == f.tracked_files
    &&& string_views(fp.declared_configs@) == f.declared_configs
    &&& fp.size_bytes == f.size_bytes
    &&& fp.installed_at == f.installed_at
    &&& fp.summary@ == f.summary
    &&& fp.description@ == f.description
    &&& opt_view(fp.homepage) == f.homepage
    &&& opt_view(fp.license) == f.license
    &&& rest_is_default(fp)
}

/// Each footprint carries the corresponding fields, in order.
pub open spec fn footprints_describe(fps: Seq<AppFootprint>, fields: Seq<FootprintFields>) -> bool {
    &&& fps.len() == fields.len()
    &&& forall|i: int| 0 <= i < fps.len() ==> describes(#[trigger] fps[i], fields[i])
}

/// The names of the dependencies, all of the given type and without
/// version.
pub open spec fn dependencies_are(
    deps: Seq<DependencyInfo>,
    names: Seq<Seq<char>>,
    kind: DependencyType,
) -> bool {
    &&& deps.len() == names.len()
    &&& forall|i: int|
        0 <= i < deps.len() ==> {
            &&& (#[trigger] deps[i]).name@ == names[i]
            &&& deps[i].version@.len() == 0
            &&& deps[i].dependency_type == kind
        }
}

/// A dependency without version.
pub fn dependency(name: String, kind: DependencyType) -> (r: DependencyInfo)
    ensures
        r.name@ == name@,
        r.version@.len() == 0,
        r.dependency_type == kind,
{
    DependencyInfo { name, version: String::new(), dependency_type: kind }
}

impl Default for AppFootprint {
    /// An empty footprint of unknown source, installed system-wide, whose
    /// integrity status is stamped with the current time (0 when the system
    /// clock reads a time before the Unix epoch).
    fn default() -> (r: Self)
        ensures
            describes(
                r,
                FootprintFields {
                    id: Seq::empty(),
                    display_name: Seq::empty(),
                    source: PackageSource::Unknown,
                    version: Seq::empty(),
                    architecture: Seq::empty(),
                    scope: InstallScope::System,
                    tracked_files: Seq::empty(),
                    declared_configs: Seq::empty(),
                    size_bytes: zero_sizes(),
                    installed_at: None,
                    summary: Seq::empty(),
                    description: Seq::empty(),
                    homepage: None,
                    license: None,
                },
            ),
    {
        let r = AppFootprint {
            id: String::new(),
            display_name: String::new(),
            source: PackageSource::Unknown,
            version: String::new(),
            architecture: String::new(),
            scope: InstallScope::System,
            tracked_files: Vec::new(),
            declared_configs: Vec::new(),
            discovered_configs: Vec::new(),
            discovered_cache: Vec::new(),
            discovered_data: Vec::new(),
            desktop_entries: Vec::new(),
            systemd_services: Vec::new(),
            running_processes: Vec::new(),
            dependencies: Vec::new(),
            reverse_dependencies: Vec::new(),
            is_orphan_candidate: false,
            size_bytes: SizeBreakdown::default(),
            integrity_status: IntegrityStatus {
                checked_at: match now_unix_seconds() {
                    Some(t) => t,
                    None => 0,
                },
                modified_files: Vec::new(),
                missing_files: Vec::new(),
                checksum_algorithm: String::new(),
            },
            sandbox_permissions: Vec::new(),
            last_accessed: None,
            installed_at: None,
            icon: None,
            summary: String::new(),
            description: String::new(),
            homepage: None,
            license: None,
        };
        assert(string_views(r.tracked_files@) =~= Seq::empty());
        assert(string_views(r.declared_configs@) =~= Seq::empty());
        r
    }
}

/// A footprint carrying the given fields, every other field holding its
/// default value.
pub fn new_footprint(
    id: String,
    display_name: String,
    source: PackageSource,
    version: String,
    architecture: String,
    scope: InstallScope,
    tracked_files: Vec<SystemPath>,
    declared_configs: Vec<SystemPath>,
    size_bytes: SizeBreakdown,
    installed_at: Option<i64>,
    summary: String,
    description: String,
    homepage: Option<String>,
    license: Option<String>,
) -> (r: AppFootprint)
    ensures
        describes(
            r,
            FootprintFields {
                id: id@,
                display_name: display_name@,
                source,
                version: version@,
                architecture: architecture@,
                scope,
                tracked_files: string_views(tracked_files@),
                declared_configs: string_views(declared_configs@),
                size_bytes,
                installed_at,
                summary: summary@,
                description: description@,
                homepage: opt_view(homepage),
                license: opt_view(license),
            },
        ),
{
    let mut fp = AppFootprint::default();
    fp.id = id;
    fp.display_name = display_name;
    fp.source = source;
    fp.version = version;
    fp.architecture = architecture;
    fp.scope = scope;
    fp.tracked_files = tracked_files;
    fp.declared_configs = declared_configs;
    fp.size_bytes = size_bytes;
    fp.installed_at = installed_at;
    fp.summary = summary;
    fp.description = description;
    fp.homepage = homepage;
    fp.license = license;
    fp
}

} // verus!
