//! Flatpak applications: what `flatpak list` and `flatpak info` print, read
//! into footprints and dependencies.

use vstd::prelude::*;

use crate::adapters::fields::{nth_or_empty, nth_string, piece_views};
use crate::adapters::{strip_source_prefix, unprefixed};
use crate::models::{
    dependencies_are, dependency, describes, new_footprint, opt_view, zero_sizes, AppFootprint,
    DependencyInfo, DependencyType, FootprintFields, InstallScope, PackageSource, SizeBreakdown,
    SystemPath,
};
use crate::text::{
    chars_eq_str, chars_of, find, find_exec, parse_u64, parse_u64_exec, push_str, split,
    split_exec, starts_with, starts_with_str, string_of, string_views, strip_prefix,
    strip_prefix_exec, sub_chars, trim, trim_exec, views, words, words_exec,
};

verus! {

/// The adapter for Flatpak applications.
pub struct FlatpakAdapter;

// ---------------------------------------------------------------------------
// Sizes as printed
// ---------------------------------------------------------------------------

/// `s` with every `a` replaced by `b`.
pub open spec fn replace_char(s: Seq<char>, a: char, b: char) -> Seq<char> {
    s.map_values(|c: char| if c == a {
        b
    } else {
        c
    })
}

fn replace_char_exec(s: &Vec<char>, a: char, b: char) -> (r: Vec<char>)
    ensures
        r@ == replace_char(s@, a, b),
{
    let mut out: Vec<char> = Vec::new();
    let mut i: usize = 0;
    while i < s.len()
        invariant
            i <= s@.len(),
            out@ == replace_char(s@.take(i as int), a, b),
        decreases s@.len() - i,
    {
        let c = if s[i] == a {
            b
        } else {
            s[i]
        };
        out.push(c);
        assert(replace_char(s@.take(i + 1), a, b) =~= replace_char(s@.take(i as int), a, b).push(
            c,
        ));
        i += 1;
    }
    assert(s@.take(s@.len() as int) =~= s@);
    out
}

/// The words of a size as printed by Flatpak (`"384.3 MB"`), once trimmed
/// and with no-break spaces made plain spaces.
pub open spec fn size_words(s: Seq<char>) -> Seq<Seq<char>> {
    words(replace_char(replace_char(trim(s), '\u{a0}', ' '), '\u{202f}', ' '))
}

/// The factor of a unit as printed by Flatpak (SI units; unknown units
/// count as bytes).
pub open spec fn unit_multiplier(unit: Seq<char>) -> u64 {
    if unit == "B"@ {
        1
    } else if unit == "KB"@ || unit == "kB"@ {
        1000
    } else if unit == "MB"@ {
        1_000_000
    } else if unit == "GB"@ {
        1_000_000_000
    } else if unit == "TB"@ {
        1_000_000_000_000
    } else {
        1
    }
}

/// The number and the unit factor of a printed size: the first word and
/// the factor of the second word (megabytes when there is none); nothing
/// when the text has no word.
pub open spec fn size_parts(s: Seq<char>) -> Option<(Seq<char>, u64)> {
    let w = size_words(s);
    if w.len() == 0 {
        None
    } else {
        Some((w[0], unit_multiplier(if w.len() > 1 {
            w[1]
        } else {
            "MB"@
        })))
    }
}

// ---------------------------------------------------------------------------
// Listings and details
// ---------------------------------------------------------------------------

/// An application listed by `flatpak list --app
/// --columns=application,name,version,branch,arch,installation,size`.
pub struct FlatpakListEntry {
    pub app_id: String,
    pub display_name: String,
    pub version: String,
    pub arch: String,
    pub installation: String,
    pub size_text: Option<String>,
}

/// The pieces of a tab-separated line.
pub open spec fn tab_fields(line: Seq<char>) -> Seq<Seq<char>> {
    split(line, "\t"@)
}

/// The installation scope named by a Flatpak installation column.
pub open spec fn scope_of(installation: Seq<char>) -> InstallScope {
    if installation == "user"@ {
        InstallScope::User
    } else {
        InstallScope::System
    }
}

/// A size measured from the listing, when it is positive: the archive and
/// the total are that size.
pub open spec fn measured(size: u64) -> Option<SizeBreakdown> {
    if size > 0 {
        Some(SizeBreakdown { total_footprint: size, package_size: size, ..zero_sizes() })
    } else {
        None
    }
}

/// What `flatpak info` tells of an application.
pub struct FlatpakInfo {
    pub display_name: String,
    pub summary: String,
    pub version: String,
    pub arch: String,
    pub license: Option<String>,
}

pub struct FlatpakInfoFields {
    pub display_name: Seq<char>,
    pub summary: Seq<char>,
    pub version: Seq<char>,
    pub arch: Seq<char>,
    pub license: Option<Seq<char>>,
    pub inside_table: bool,
}

/// The details after one more line of `flatpak info`: blank lines change
/// nothing; the `ID:` line opens the table; before it, a line
/// `"<Name> - <Summary>"` (or just `"<Name>"`) names the application;
/// inside it, `Version:`, `Arch:` and non-empty `License:` lines are read.
pub open spec fn info_step(d: FlatpakInfoFields, line: Seq<char>) -> FlatpakInfoFields {
    if trim(line).len() == 0 {
        d
    } else if starts_with(trim(line), "ID:"@) {
        FlatpakInfoFields { inside_table: true, ..d }
    } else if !d.inside_table {
        header_step(d, line)
    } else {
        table_step(d, line)
    }
}

/// A line before the table: `"<Name> - <Summary>"` or just `"<Name>"`.
pub open spec fn header_step(d: FlatpakInfoFields, line: Seq<char>) -> FlatpakInfoFields {
    match find(line, " - "@) {
        Some(pos) => FlatpakInfoFields {
            display_name: trim(line.take(pos)),
            summary: trim(line.skip(pos + 3)),
            ..d
        },
        None => FlatpakInfoFields { display_name: trim(line), ..d },
    }
}

/// A line of the table: `Version:`, `Arch:` or a non-empty `License:`.
pub open spec fn table_step(d: FlatpakInfoFields, line: Seq<char>) -> FlatpakInfoFields {
    match strip_prefix(line, "Version:"@) {
        Some(v) => FlatpakInfoFields { version: trim(v), ..d },
        None => match strip_prefix(line, "Arch:"@) {
            Some(v) => FlatpakInfoFields { arch: trim(v), ..d },
            None => match strip_prefix(line, "License:"@) {
                Some(v) => if trim(v).len() > 0 {
                    FlatpakInfoFields { license: Some(trim(v)), ..d }
                } else {
                    d
                },
                None => d,
            },
        },
    }
}

/// The details in a `flatpak info` output about `fp_id`, read line by
/// line; the name defaults to the id.
pub open spec fn info_fields(fp_id: Seq<char>, lines: Seq<Seq<char>>) -> FlatpakInfoFields
    decreases lines.len(),
{
    if lines.len() == 0 {
        FlatpakInfoFields {
            display_name: fp_id,
            summary: Seq::empty(),
            version: Seq::empty(),
            arch: Seq::empty(),
            license: None,
            inside_table: false,
        }
    } else {
        info_step(info_fields(fp_id, lines.drop_last()), lines.last())
    }
}

/// The size printed by `flatpak info --show-size`: the trimmed first line
/// as a number, else 0.
pub open spec fn shown_size(lines: Option<Seq<Seq<char>>>) -> u64 {
    match lines {
        Some(ls) => if ls.len() > 0 {
            match parse_u64(trim(ls[0])) {
                Some(v) => v,
                None => 0,
            }
        } else {
            0
        },
        None => 0,
    }
}

pub open spec fn info_view(info: FlatpakInfo, inside_table: bool) -> FlatpakInfoFields {
    FlatpakInfoFields {
        display_name: info.display_name@,
        summary: info.summary@,
        version: info.version@,
        arch: info.arch@,
        license: opt_view(info.license),
        inside_table,
    }
}

fn header_step_exec(info: &mut FlatpakInfo, l: &Vec<char>)
    ensures
        info_view(*final(info), false) == header_step(info_view(*old(info), false), l@),
{
    let sep = chars_of(" - ");
    match find_exec(l, &sep) {
        Some(pos) => {
            proof {
                reveal_strlit(" - ");
                crate::text::lemma_find_in_bounds(l@, sep@);
                assert(pos + 3 <= l@.len());
                assert(l@.len() == l.len());
            }
            let head = sub_chars(l, 0, pos);
            let tail = sub_chars(l, pos + 3, l.len());
            assert(head@ =~= l@.take(pos as int));
            assert(tail@ =~= l@.skip(pos + 3));
            info.display_name = string_of(&trim_exec(&head));
            info.summary = string_of(&trim_exec(&tail));
        },
        None => {
            info.display_name = string_of(&trim_exec(l));
        },
    }
}

fn table_step_exec(info: &mut FlatpakInfo, l: &Vec<char>)
    ensures
        info_view(*final(info), true) == table_step(info_view(*old(info), true), l@),
{
    match strip_prefix_exec(l, "Version:") {
        Some(v) => {
            info.version = string_of(&trim_exec(&v));
        },
        None => match strip_prefix_exec(l, "Arch:") {
            Some(v) => {
                info.arch = string_of(&trim_exec(&v));
            },
            None => match strip_prefix_exec(l, "License:") {
                Some(v) => {
                    let lt = trim_exec(&v);
                    if lt.len() > 0 {
                        info.license = Some(string_of(&lt));
                    }
                },
                None => {},
            },
        },
    }
}

/// Reads one more line of `flatpak info` (see `info_step`); returns
/// whether the table has been entered.
fn info_step_exec(info: &mut FlatpakInfo, inside_table: bool, line: &str) -> (r: bool)
    ensures
        info_view(*final(info), r) == info_step(info_view(*old(info), inside_table), line@),
{
    let l = chars_of(line);
    let t = trim_exec(&l);
    if t.len() == 0 {
        return inside_table;
    }
    if starts_with_str(&t, "ID:") {
        return true;
    }
    if !inside_table {
        header_step_exec(info, &l);
        false
    } else {
        table_step_exec(info, &l);
        true
    }
}

impl FlatpakAdapter {
    pub fn new() -> (r: Self) {
        FlatpakAdapter
    }

    /// The backend's identifier.
    pub fn backend_id(&self) -> (r: &'static str)
        ensures
            r@ == "flatpak"@,
    {
        "flatpak"
    }

    /// The Flatpak application id named by an application id
    /// (`"flatpak:org.gnome.Maps"` → `"org.gnome.Maps"`).
    pub fn flatpak_id(app_id: &str) -> (r: String)
        ensures
            r@ == unprefixed(app_id@, "flatpak:"@),
    {
        strip_source_prefix(app_id, "flatpak:")
    }

    /// The number and the unit factor of a printed size (see `size_parts`).
    pub fn size_parts(s: &str) -> (r: Option<(String, u64)>)
        ensures
            match size_parts(s@) {
                Some((n, m)) => r matches Some((rn, rm)) && rn@ == n && rm == m,
                None => r is None,
            },
    {
        let c = chars_of(s);
        let t = trim_exec(&c);
        let a = replace_char_exec(&t, '\u{a0}', ' ');
        let b = replace_char_exec(&a, '\u{202f}', ' ');
        let w = words_exec(&b);
        if w.len() == 0 {
            return None;
        }
        let num = string_of(&w[0]);
        let unit = if w.len() > 1 {
            w[1].clone()
        } else {
            chars_of("MB")
        };
        let m: u64 = if chars_eq_str(&unit, "B") {
            1
        } else if chars_eq_str(&unit, "KB") || chars_eq_str(&unit, "kB") {
            1000
        } else if chars_eq_str(&unit, "MB") {
            1_000_000
        } else if chars_eq_str(&unit, "GB") {
            1_000_000_000
        } else if chars_eq_str(&unit, "TB") {
            1_000_000_000_000
        } else {
            1
        };
        Some((num, m))
    }

    /// A number written with a decimal comma, rewritten with a decimal
    /// point (`"384,3"` → `"384.3"`).
    pub fn decimal_point(num: &str) -> (r: String)
        ensures
            r@ == replace_char(num@, ',', '.'),
    {
        let c = chars_of(num);
        let d = replace_char_exec(&c, ',', '.');
        string_of(&d)
    }

    /// The directories where the files of an application may live, most
    /// likely first: under the user's data directory for a `user`
    /// installation, under `/var/lib/flatpak` otherwise.
    pub fn install_candidates(app_id: &str, installation: &str, home: &str) -> (r: Vec<String>)
        ensures
            r@.len() == 2,
            ({
                let base = if installation@ == "user"@ {
                    home@ + "/.local/share/flatpak/app/"@ + app_id@
                } else {
                    "/var/lib/flatpak/app/"@ + app_id@
                };
                &&& r@[0]@ == base + "/current/active/files"@
                &&& r@[1]@ == base + "/active/files"@
            }),
    {
        let inst = chars_of(installation);
        let mut base = String::new();
        if chars_eq_str(&inst, "user") {
            push_str(&mut base, home);
            push_str(&mut base, "/.local/share/flatpak/app/");
            push_str(&mut base, app_id);
        } else {
            push_str(&mut base, "/var/lib/flatpak/app/");
            push_str(&mut base, app_id);
        }
        let mut current = base.clone();
        push_str(&mut current, "/current/active/files");
        let mut active = base;
        push_str(&mut active, "/active/files");
        let mut out: Vec<String> = Vec::new();
        out.push(current);
        out.push(active);
        proof {
            let b = if installation@ == "user"@ {
                home@ + "/.local/share/flatpak/app/"@ + app_id@
            } else {
                "/var/lib/flatpak/app/"@ + app_id@
            };
            assert(out@[0]@ =~= b + "/current/active/files"@);
            assert(out@[1]@ =~= b + "/active/files"@);
        }
        out
    }

    /// The first candidate that exists, else the first candidate.
    pub fn pick_install_dir(candidates: &Vec<String>, exists: &Vec<bool>) -> (r: String)
        requires
            candidates@.len() > 0,
            exists@.len() == candidates@.len(),
        ensures
            (exists|i: int|
                0 <= i < candidates@.len() && exists@[i] && r@ == candidates@[i]@ && forall|
                    j: int,
                | 0 <= j < i ==> !exists@[j]) || ((forall|i: int|
                0 <= i < candidates@.len() ==> !exists@[i]) && r@ == candidates@[0]@),
    {
        let mut i: usize = 0;
        while i < candidates.len()
            invariant
                i <= candidates@.len(),
                exists@.len() == candidates@.len(),
                forall|j: int| 0 <= j < i ==> !exists@[j],
            decreases candidates@.len() - i,
        {
            if exists[i] {
                let r = candidates[i].clone();
                assert(0 <= i < candidates@.len() && exists@[i as int] && r@ == candidates@[i as int]@);
                return r;
            }
            i += 1;
        }
        candidates[0].clone()
    }

    /// The system-wide directory of an application.
    pub fn system_app_dir(fp_id: &str) -> (r: String)
        ensures
            r@ == "/var/lib/flatpak/app/"@ + fp_id@,
    {
        let mut s = String::new();
        push_str(&mut s, "/var/lib/flatpak/app/");
        push_str(&mut s, fp_id);
        assert(s@ =~= "/var/lib/flatpak/app/"@ + fp_id@);
        s
    }

    /// The per-user directory of an application.
    pub fn user_app_dir(home: &str, fp_id: &str) -> (r: String)
        ensures
            r@ == home@ + "/.local/share/flatpak/app/"@ + fp_id@,
    {
        let mut s = String::new();
        push_str(&mut s, home);
        push_str(&mut s, "/.local/share/flatpak/app/");
        push_str(&mut s, fp_id);
        assert(s@ =~= home@ + "/.local/share/flatpak/app/"@ + fp_id@);
        s
    }

    /// The directory holding the active files of an installed application.
    pub fn active_files_dir(base: &str) -> (r: String)
        ensures
            r@ == base@ + "/current/active/files"@,
    {
        let mut s = String::from_str(base);
        push_str(&mut s, "/current/active/files");
        s
    }

    /// One line of `flatpak list`: nothing for an empty line or the header;
    /// otherwise the application id, its name (the id when missing), the
    /// version, the architecture, the installation (`system` when missing)
    /// and the size text when present.
    pub fn listing_line(line: &str) -> (r: Option<FlatpakListEntry>)
        ensures
            line@.len() == 0 || starts_with(line@, "Application ID"@) ==> r is None,
            !(line@.len() == 0 || starts_with(line@, "Application ID"@)) ==> (r matches Some(
                e,
            ) && {
                let p = tab_fields(line@);
                &&& e.app_id@ == p[0]
                &&& e.display_name@ == (if p.len() > 1 {
                    p[1]
                } else {
                    p[0]
                })
                &&& e.version@ == nth_or_empty(p, 2)
                &&& e.arch@ == nth_or_empty(p, 4)
                &&& e.installation@ == (if p.len() > 5 {
                    p[5]
                } else {
                    "system"@
                })
                &&& opt_view(e.size_text) == (if p.len() > 6 {
                    Some(p[6])
                } else {
                    None
                })
            }),
    {
        let c = chars_of(line);
        if c.len() == 0 || starts_with_str(&c, "Application ID") {
            return None;
        }
        let tab = chars_of("\t");
        proof {
            reveal_strlit("\t");
        }
        let p = split_exec(&c, &tab);
        proof {
            assert(crate::text::split(line@, "\t"@).len() > 0) by {
                crate::text::lemma_split_nonempty(Seq::empty(), line@, "\t"@);
            }
        }
        let app_id = string_of(&p[0]);
        let display_name = if p.len() > 1 {
            string_of(&p[1])
        } else {
            string_of(&p[0])
        };
        let installation = if p.len() > 5 {
            string_of(&p[5])
        } else {
            String::from_str("system")
        };
        let size_text = if p.len() > 6 {
            Some(string_of(&p[6]))
        } else {
            None
        };
        Some(
            FlatpakListEntry {
                app_id,
                display_name,
                version: nth_string(&p, 2),
                arch: nth_string(&p, 4),
                installation,
                size_text,
            },
        )
    }

    /// The size of an application as listed or shown, when positive.
    pub fn measured_size(size: u64) -> (r: Option<SizeBreakdown>)
        ensures
            r == measured(size),
    {
        if size > 0 {
            let mut b = SizeBreakdown::default();
            b.total_footprint = size;
            b.package_size = size;
            Some(b)
        } else {
            None
        }
    }

    /// The footprint of a listed application with the given sizes.
    pub fn listed_footprint(e: FlatpakListEntry, size_bytes: SizeBreakdown) -> (r: AppFootprint)
        ensures
            describes(
                r,
                FootprintFields {
                    id: "flatpak:"@ + e.app_id@,
                    display_name: e.display_name@,
                    source: PackageSource::Flatpak,
                    version: e.version@,
                    architecture: e.arch@,
                    scope: scope_of(e.installation@),
                    tracked_files: Seq::empty(),
                    declared_configs: Seq::empty(),
                    size_bytes,
                    installed_at: None,
                    summary: Seq::empty(),
                    description: Seq::empty(),
                    homepage: None,
                    license: None,
                },
            ),
    {
        let mut id = String::new();
        push_str(&mut id, "flatpak:");
        push_str(&mut id, e.app_id.as_str());
        assert(id@ =~= "flatpak:"@ + e.app_id@);
        let inst = chars_of(e.installation.as_str());
        let scope = if chars_eq_str(&inst, "user") {
            InstallScope::User
        } else {
            InstallScope::System
        };
        let no_files: Vec<SystemPath> = Vec::new();
        let no_configs: Vec<SystemPath> = Vec::new();
        assert(string_views(no_files@) =~= Seq::empty());
        assert(string_views(no_configs@) =~= Seq::empty());
        new_footprint(
            id,
            e.display_name,
            PackageSource::Flatpak,
            e.version,
            e.arch,
            scope,
            no_files,
            no_configs,
            size_bytes,
            None,
            String::new(),
            String::new(),
            None,
            None,
        )
    }

    /// The details of an application from `flatpak info` (see
    /// `info_fields`).
    pub fn parse_info(fp_id: &str, lines: &Vec<String>) -> (r: FlatpakInfo)
        ensures
            info_view(r, info_fields(fp_id@, string_views(lines@)).inside_table) == info_fields(
                fp_id@,
                string_views(lines@),
            ),
    {
        let mut info = FlatpakInfo {
            display_name: String::from_str(fp_id),
            summary: String::new(),
            version: String::new(),
            arch: String::new(),
            license: None,
        };
        let mut inside_table = false;
        let mut i: usize = 0;
        while i < lines.len()
            invariant
                i <= lines@.len(),
                info_view(info, inside_table) == info_fields(
                    fp_id@,
                    string_views(lines@).take(i as int),
                ),
            decreases lines@.len() - i,
        {
            let ghost pre = string_views(lines@).take(i as int);
            let ghost post = string_views(lines@).take(i + 1);
            proof {
                assert(post.drop_last() =~= pre);
                assert(post.last() == lines@[i as int]@);
            }
            inside_table = info_step_exec(&mut info, inside_table, lines[i].as_str());
            i += 1;
        }
        assert(string_views(lines@).take(lines@.len() as int) =~= string_views(lines@));
        info
    }

    /// The size printed by `flatpak info --show-size`, when it could be read
    /// (see `shown_size`).
    pub fn parse_shown_size(lines: &Option<Vec<String>>) -> (r: u64)
        ensures
            r == shown_size(
                match lines {
                    Some(ls) => Some(string_views(ls@)),
                    None => None,
                },
            ),
    {
        match lines {
            Some(ls) => {
                if ls.len() > 0 {
                    let c = chars_of(ls[0].as_str());
                    let t = trim_exec(&c);
                    match parse_u64_exec(&t) {
                        Some(v) => v,
                        None => 0,
                    }
                } else {
                    0
                }
            },
            None => 0,
        }
    }

    /// The footprint of an installed application from `flatpak info`, in
    /// the installation `installation` (`"user"` or `"system"`), with the
    /// given sizes.
    pub fn footprint(
        fp_id: &str,
        installation: &str,
        info: FlatpakInfo,
        size_bytes: SizeBreakdown,
    ) -> (r: AppFootprint)
        ensures
            describes(
                r,
                FootprintFields {
                    id: "flatpak:"@ + fp_id@,
                    display_name: info.display_name@,
                    source: PackageSource::Flatpak,
                    version: info.version@,
                    architecture: info.arch@,
                    scope: scope_of(installation@),
                    tracked_files: Seq::empty(),
                    declared_configs: Seq::empty(),
                    size_bytes,
                    installed_at: None,
                    summary: info.summary@,
                    description: Seq::empty(),
                    homepage: None,
                    license: opt_view(info.license),
                },
            ),
    {
        let mut id = String::new();
        push_str(&mut id, "flatpak:");
        push_str(&mut id, fp_id);
        assert(id@ =~= "flatpak:"@ + fp_id@);
        let inst = chars_of(installation);
        let scope = if chars_eq_str(&inst, "user") {
            InstallScope::User
        } else {
            InstallScope::System
        };
        let no_files: Vec<SystemPath> = Vec::new();
        let no_configs: Vec<SystemPath> = Vec::new();
        assert(string_views(no_files@) =~= Seq::empty());
        assert(string_views(no_configs@) =~= Seq::empty());
        new_footprint(
            id,
            info.display_name,
            PackageSource::Flatpak,
            info.version,
            info.arch,
            scope,
            no_files,
            no_configs,
            size_bytes,
            None,
            info.summary,
            String::new(),
            None,
            info.license,
        )
    }

    /// The runtime an application depends on, from the first line printed
    /// by `flatpak info --show-runtime` when it is not empty.
    pub fn runtime_dependency(first_line: Option<String>) -> (r: Vec<DependencyInfo>)
        ensures
            dependencies_are(
                r@,
                match first_line {
                    Some(l) => if l@.len() > 0 {
                        seq![l@]
                    } else {
                        Seq::empty()
                    },
                    None => Seq::empty(),
                },
                DependencyType::Runtime,
            ),
    {
        let mut deps: Vec<DependencyInfo> = Vec::new();
        match first_line {
            Some(l) => {
                if !l.as_str().is_empty() {
                    let ghost n = l@;
                    deps.push(dependency(l, DependencyType::Runtime));
                    assert(deps@.len() == 1);
                    assert(deps@[0].name@ == seq![n][0]);
                }
            },
            None => {},
        }
        deps
    }
}

} // verus!
