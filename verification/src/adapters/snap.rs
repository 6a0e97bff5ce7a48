//! Snap packages: what `snap list` and `snap info` print, read into
//! footprints; where snaps keep their files.

use vstd::prelude::*;

use crate::adapters::fields::nth_or_empty;
use crate::adapters::{strip_source_prefix, unprefixed};
use crate::models::{
    describes, new_footprint, opt_view, zero_sizes, AppFootprint, FootprintFields,
    InstallScope, PackageSource, SizeBreakdown, SystemPath,
};
use crate::text::{
    chars_eq_str, chars_of, push_str, starts_with, starts_with_str, string_of, string_views,
    strip_prefix, strip_prefix_exec, trim, trim_exec, views, words, words_exec,
};

verus! {

/// The adapter for snaps.
pub struct SnapAdapter;

/// A snap listed by `snap list` (`Name Version Rev Tracking Publisher
/// Notes`).
pub struct SnapListEntry {
    pub name: String,
    pub version: String,
    pub notes: String,
}

/// What `snap info` tells of a snap.
pub struct SnapInfo {
    pub version: String,
    pub summary: String,
    pub description: String,
    pub homepage: Option<String>,
    pub license: Option<String>,
}

pub struct SnapInfoFields {
    pub version: Seq<char>,
    pub summary: Seq<char>,
    pub description: Seq<char>,
    pub homepage: Option<Seq<char>>,
    pub license: Option<Seq<char>>,
}

pub open spec fn snap_info_view(i: SnapInfo) -> SnapInfoFields {
    SnapInfoFields {
        version: i.version@,
        summary: i.summary@,
        description: i.description@,
        homepage: opt_view(i.homepage),
        license: opt_view(i.license),
    }
}

/// The details after one more line of `snap info`: `version:`, `summary:`
/// and `description:` lines are read; a `license:` line other than empty or
/// `unset`; a non-empty `contact:` line as the homepage.
pub open spec fn snap_info_step(d: SnapInfoFields, l: Seq<char>) -> SnapInfoFields {
    if starts_with(l, "name:"@) {
        d
    } else if starts_with(l, "version:"@) {
        SnapInfoFields { version: trim(l.skip(8)), ..d }
    } else if starts_with(l, "summary:"@) {
        SnapInfoFields { summary: trim(l.skip(8)), ..d }
    } else if starts_with(l, "description:"@) {
        SnapInfoFields { description: trim(l.skip(12)), ..d }
    } else if starts_with(l, "license:"@) {
        let v = trim(l.skip(8));
        if v.len() > 0 && v != "unset"@ {
            SnapInfoFields { license: Some(v), ..d }
        } else {
            d
        }
    } else if starts_with(l, "contact:"@) {
        let v = trim(l.skip(8));
        if v.len() > 0 {
            SnapInfoFields { homepage: Some(v), ..d }
        } else {
            d
        }
    } else {
        d
    }
}

/// The details in a `snap info` output, read line by line.
pub open spec fn snap_info_fields(lines: Seq<Seq<char>>) -> SnapInfoFields
    decreases lines.len(),
{
    if lines.len() == 0 {
        SnapInfoFields {
            version: Seq::empty(),
            summary: Seq::empty(),
            description: Seq::empty(),
            homepage: None,
            license: None,
        }
    } else {
        snap_info_step(snap_info_fields(lines.drop_last()), lines.last())
    }
}

fn snap_info_step_exec(info: &mut SnapInfo, line: &str)
    ensures
        snap_info_view(*final(info)) == snap_info_step(snap_info_view(*old(info)), line@),
{
    let l = chars_of(line);
    proof {
        reveal_strlit("version:");
        reveal_strlit("summary:");
        reveal_strlit("description:");
        reveal_strlit("license:");
        reveal_strlit("contact:");
    }
    if starts_with_str(&l, "name:") {
        return;
    }
    match strip_prefix_exec(&l, "version:") {
        Some(v) => {
            info.version = string_of(&trim_exec(&v));
            return;
        },
        None => {},
    }
    match strip_prefix_exec(&l, "summary:") {
        Some(v) => {
            info.summary = string_of(&trim_exec(&v));
            return;
        },
        None => {},
    }
    match strip_prefix_exec(&l, "description:") {
        Some(v) => {
            info.description = string_of(&trim_exec(&v));
            return;
        },
        None => {},
    }
    match strip_prefix_exec(&l, "license:") {
        Some(v) => {
            let t = trim_exec(&v);
            if t.len() > 0 && !chars_eq_str(&t, "unset") {
                info.license = Some(string_of(&t));
            }
            return;
        },
        None => {},
    }
    match strip_prefix_exec(&l, "contact:") {
        Some(v) => {
            let t = trim_exec(&v);
            if t.len() > 0 {
                info.homepage = Some(string_of(&t));
            }
        },
        None => {},
    }
}

impl SnapAdapter {
    pub fn new() -> (r: Self) {
        SnapAdapter
    }

    /// The backend's identifier.
    pub fn backend_id(&self) -> (r: &'static str)
        ensures
            r@ == "snap"@,
    {
        "snap"
    }

    /// The snap named by an application id (`"snap:firefox"` →
    /// `"firefox"`).
    pub fn snap_name(app_id: &str) -> (r: String)
        ensures
            r@ == unprefixed(app_id@, "snap:"@),
    {
        strip_source_prefix(app_id, "snap:")
    }

    /// The squashfs image of a snap.
    pub fn image_path(name: &str) -> (r: String)
        ensures
            r@ == "/var/lib/snapd/snaps/"@ + name@ + ".snap"@,
    {
        let mut s = String::new();
        push_str(&mut s, "/var/lib/snapd/snaps/");
        push_str(&mut s, name);
        push_str(&mut s, ".snap");
        assert(s@ =~= "/var/lib/snapd/snaps/"@ + name@ + ".snap"@);
        s
    }

    /// The writable data directory of a snap.
    pub fn data_dir(name: &str) -> (r: String)
        ensures
            r@ == "/var/snap/"@ + name@,
    {
        let mut s = String::new();
        push_str(&mut s, "/var/snap/");
        push_str(&mut s, name);
        assert(s@ =~= "/var/snap/"@ + name@);
        s
    }

    /// Where the current revision of a snap is mounted.
    pub fn mount_dir(name: &str) -> (r: String)
        ensures
            r@ == "/snap/"@ + name@ + "/current"@,
    {
        let mut s = String::new();
        push_str(&mut s, "/snap/");
        push_str(&mut s, name);
        push_str(&mut s, "/current");
        assert(s@ =~= "/snap/"@ + name@ + "/current"@);
        s
    }

    /// The configuration directory of the current revision of a snap.
    pub fn config_dir(name: &str) -> (r: String)
        ensures
            r@ == "/var/snap/"@ + name@ + "/current"@,
    {
        let mut s = String::new();
        push_str(&mut s, "/var/snap/");
        push_str(&mut s, name);
        push_str(&mut s, "/current");
        assert(s@ =~= "/var/snap/"@ + name@ + "/current"@);
        s
    }

    /// One line of `snap list`: nothing for an empty line, the header or a
    /// line without words; otherwise the first word (the name), the second
    /// (the version) and the sixth (the notes).
    pub fn listing_line(line: &str) -> (r: Option<SnapListEntry>)
        ensures
            (line@.len() == 0 || starts_with(line@, "Name "@) || words(line@).len() == 0) ==> r is None,
            !(line@.len() == 0 || starts_with(line@, "Name "@) || words(line@).len() == 0) ==> (r matches Some(e) && {
                &&& e.name@ == words(line@)[0]
                &&& e.version@ == nth_or_empty(words(line@), 1)
                &&& e.notes@ == nth_or_empty(words(line@), 5)
            }),
    {
        let c = chars_of(line);
        if c.len() == 0 || starts_with_str(&c, "Name ") {
            return None;
        }
        let w = words_exec(&c);
        if w.len() == 0 {
            return None;
        }
        Some(
            SnapListEntry {
                name: string_of(&w[0]),
                version: crate::adapters::fields::nth_string(&w, 1),
                notes: crate::adapters::fields::nth_string(&w, 5),
            },
        )
    }

    /// The footprint of a listed snap measured at `size` bytes.
    pub fn listed_footprint(e: SnapListEntry, size: u64) -> (r: AppFootprint)
        ensures
            describes(
                r,
                FootprintFields {
                    id: "snap:"@ + e.name@,
                    display_name: e.name@,
                    source: PackageSource::Snap,
                    version: e.version@,
                    architecture: Seq::empty(),
                    scope: InstallScope::System,
                    tracked_files: Seq::empty(),
                    declared_configs: Seq::empty(),
                    size_bytes: SizeBreakdown { total_footprint: size, ..zero_sizes() },
                    installed_at: None,
                    summary: Seq::empty(),
                    description: Seq::empty(),
                    homepage: None,
                    license: None,
                },
            ),
    {
        let mut id = String::new();
        push_str(&mut id, "snap:");
        push_str(&mut id, e.name.as_str());
        assert(id@ =~= "snap:"@ + e.name@);
        let mut sizes = SizeBreakdown::default();
        sizes.total_footprint = size;
        let no_files: Vec<SystemPath> = Vec::new();
        let no_configs: Vec<SystemPath> = Vec::new();
        assert(string_views(no_files@) =~= Seq::empty());
        assert(string_views(no_configs@) =~= Seq::empty());
        new_footprint(
            id,
            e.name,
            PackageSource::Snap,
            e.version,
            String::new(),
            InstallScope::System,
            no_files,
            no_configs,
            sizes,
            None,
            String::new(),
            String::new(),
            None,
            None,
        )
    }

    /// The details of a snap from `snap info` (see `snap_info_fields`).
    pub fn parse_info(lines: &Vec<String>) -> (r: SnapInfo)
        ensures
            snap_info_view(r) == snap_info_fields(string_views(lines@)),
    {
        let mut info = SnapInfo {
            version: String::new(),
            summary: String::new(),
            description: String::new(),
            homepage: None,
            license: None,
        };
        let mut i: usize = 0;
        while i < lines.len()
            invariant
                i <= lines@.len(),
                snap_info_view(info) == snap_info_fields(string_views(lines@).take(i as int)),
            decreases lines@.len() - i,
        {
            let ghost pre = string_views(lines@).take(i as int);
            let ghost post = string_views(lines@).take(i + 1);
            proof {
                assert(post.drop_last() =~= pre);
                assert(post.last() == lines@[i as int]@);
            }
            snap_info_step_exec(&mut info, lines[i].as_str());
            i += 1;
        }
        assert(string_views(lines@).take(lines@.len() as int) =~= string_views(lines@));
        info
    }

    /// The footprint of the snap `name` from `snap info`, measured at
    /// `size` bytes.
    pub fn footprint(name: &str, info: SnapInfo, size: u64) -> (r: AppFootprint)
        ensures
            describes(
                r,
                FootprintFields {
                    id: "snap:"@ + name@,
                    display_name: name@,
                    source: PackageSource::Snap,
                    version: info.version@,
                    architecture: Seq::empty(),
                    scope: InstallScope::System,
                    tracked_files: Seq::empty(),
                    declared_configs: Seq::empty(),
                    size_bytes: SizeBreakdown { total_footprint: size, ..zero_sizes() },
                    installed_at: None,
                    summary: info.summary@,
                    description: info.description@,
                    homepage: opt_view(info.homepage),
                    license: opt_view(info.license),
                },
            ),
    {
        let mut id = String::new();
        push_str(&mut id, "snap:");
        push_str(&mut id, name);
        assert(id@ =~= "snap:"@ + name@);
        let mut sizes = SizeBreakdown::default();
        sizes.total_footprint = size;
        let no_files: Vec<SystemPath> = Vec::new();
        let no_configs: Vec<SystemPath> = Vec::new();
        assert(string_views(no_files@) =~= Seq::empty());
        assert(string_views(no_configs@) =~= Seq::empty());
        new_footprint(
            id,
            String::from_str(name),
            PackageSource::Snap,
            info.version,
            String::new(),
            InstallScope::System,
            no_files,
            no_configs,
            sizes,
            None,
            info.summary,
            info.description,
            info.homepage,
            info.license,
        )
    }
}

} // verus!
