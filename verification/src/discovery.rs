//! Bookkeeping of a scan over all package adapters.

use vstd::prelude::*;

use crate::models::{AppFootprint, PackageSource};

verus! {

/// The outcome of a scan: how many applications were found, and the
/// backends (or the database) that failed with their messages.
pub struct ScanResult {
    pub total: usize,
    pub errors: Vec<(String, String)>,
}

pub open spec fn pair_views(v: Seq<(String, String)>) -> Seq<(Seq<char>, Seq<char>)> {
    v.map_values(|p: (String, String)| (p.0@, p.1@))
}

/// What a scan has gathered so far.
pub struct ScanProgress {
    pub apps: Vec<AppFootprint>,
    pub errors: Vec<(String, String)>,
}

/// The backend that lists the applications of a source.
pub open spec fn backend_name(source: PackageSource) -> Option<Seq<char>> {
    match source {
        PackageSource::Rpm => Some("rpm"@),
        PackageSource::Apt => Some("dpkg"@),
        PackageSource::Flatpak => Some("flatpak"@),
        PackageSource::Snap => Some("snap"@),
        PackageSource::Loose => Some("appimage"@),
        PackageSource::Unknown => None,
    }
}

/// The backend that lists the applications of a source, if any.
pub fn backend_for_source(source: PackageSource) -> (r: Option<&'static str>)
    ensures
        match r {
            Some(b) => backend_name(source) == Some(b@),
            None => backend_name(source) is None,
        },
{
    match source {
        PackageSource::Rpm => Some("rpm"),
        PackageSource::Apt => Some("dpkg"),
        PackageSource::Flatpak => Some("flatpak"),
        PackageSource::Snap => Some("snap"),
        PackageSource::Loose => Some("appimage"),
        PackageSource::Unknown => None,
    }
}

/// What a scan does next with a backend.
#[derive(Debug, Clone, Copy, PartialEq, Eq, Structural)]
pub enum ScanStep {
    /// The scan was cancelled: stop with what was found so far.
    Stop,
    /// The backend's tool is not installed: go on to the next backend.
    Skip,
    /// List the backend's applications and record the outcome.
    List,
}

/// The next step of a scan, before asking a backend: stop when cancelled,
/// skip a backend that is not available, list it otherwise.
pub fn next_step(cancelled: bool, available: bool) -> (r: ScanStep)
    ensures
        r == (if cancelled {
            ScanStep::Stop
        } else if !available {
            ScanStep::Skip
        } else {
            ScanStep::List
        }),
{
    if cancelled {
        ScanStep::Stop
    } else if !available {
        ScanStep::Skip
    } else {
        ScanStep::List
    }
}

impl ScanProgress {
    /// Nothing found, nothing failed.
    pub fn new() -> (r: Self)
        ensures
            r.apps@.len() == 0,
            r.errors@.len() == 0,
    {
        ScanProgress { apps: Vec::new(), errors: Vec::new() }
    }

    /// Records what a backend listed: its applications are added after
    /// those found so far; its failure is recorded with its message.
    pub fn record(&mut self, backend_id: &str, outcome: Result<Vec<AppFootprint>, String>)
        ensures
            match outcome {
                Ok(v) => {
                    &&& final(self).apps@ == old(self).apps@ + v@
                    &&& final(self).errors@ == old(self).errors@
                },
                Err(m) => {
                    &&& final(self).apps@ == old(self).apps@
                    &&& pair_views(final(self).errors@) == pair_views(old(self).errors@).push(
                        (backend_id@, m@),
                    )
                },
            },
    {
        match outcome {
            Ok(v) => {
                let mut v = v;
                self.apps.append(&mut v);
            },
            Err(m) => {
                let ghost prev = self.errors@;
                self.errors.push((String::from_str(backend_id), m));
                assert(pair_views(self.errors@) =~= pair_views(prev).push((backend_id@, m@)));
            },
        }
    }

    /// The result of a scan stopped by cancellation: what was found so far,
    /// without storing it.
    pub fn interrupted(self) -> (r: ScanResult)
        ensures
            r.total == self.apps@.len(),
            r.errors@ == self.errors@,
    {
        ScanResult { total: self.apps.len(), errors: self.errors }
    }

    /// The result of a completed scan, once its applications have been
    /// stored; a storage failure is recorded under `database`.
    pub fn finish(self, store_error: Option<String>) -> (r: ScanResult)
        ensures
            r.total == self.apps@.len(),
            match store_error {
                Some(m) => pair_views(r.errors@) == pair_views(self.errors@).push(
                    ("database"@, m@),
                ),
                None => r.errors@ == self.errors@,
            },
    {
        let total = self.apps.len();
        let mut errors = self.errors;
        match store_error {
            Some(m) => {
                let ghost prev = errors@;
                errors.push((String::from_str("database"), m));
                assert(pair_views(errors@) =~= pair_views(prev).push(("database"@, m@)));
            },
            None => {},
        }
        ScanResult { total, errors }
    }
}

} // verus!
