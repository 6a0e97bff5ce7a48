//! Debian-based systems: what `dpkg-query`, `apt-cache` and `appstreamcli`
//! print, read into footprints, dependencies, plans and removal results.

use vstd::prelude::*;

use tokio_util::sync::CancellationToken;

use crate::adapters::fields::{
    first_word_or_self, first_word_or_self_exec, nth_or_empty, nth_string, nth_u64_or_zero,
    nth_u64_or_zero_exec, piece_views,
};
use crate::adapters::sizes::{format_size, format_size_spec};
use crate::adapters::uninstall::{
    after_direct_removal, after_privileged_removal, backup_is, build_plan, planned_stages,
    reports_failure, reports_success, stages_are, warnings_are, FallbackReason,
    PrivilegedOutcome, RemovalStep,
};
use crate::adapters::{strip_source_prefix, unprefixed, AdapterError};
use crate::case::{
    all_ascii, ascii_upper, char_to_uppercase, char_uppercase, lower_seq, lowercase, to_lowercase,
    to_uppercase, upper_seq, uppercase,
};
use crate::models::{
    dependencies_are, dependency, describes, footprints_describe, new_footprint, opt_view,
    zero_sizes, AppFootprint, DependencyInfo, DependencyType, FootprintFields, InstallScope,
    PackageSource, SizeBreakdown, SystemPath, UninstallOptions, UninstallPlan, UninstallResult,
};
use crate::text::{
    chars_eq, chars_eq_ignore_ascii_case, chars_eq_str, chars_of, contains, contains_str,
    eq_ignore_ascii_case, join, join_push, parse_u64, parse_u64_exec, push_str, split,
    split_exec, split_from, splitn, splitn_exec, starts_with, string_of, string_views,
    strip_prefix, strip_prefix_exec, sub_string, trim, trim_exec, views, words, words_exec,
};

verus! {

/// The adapter for Debian packages.
pub struct DpkgAdapter;

// ---------------------------------------------------------------------------
// Names
// ---------------------------------------------------------------------------

/// Words written in capitals when they appear in a package name.
pub open spec fn is_acronym(w: Seq<char>) -> bool {
    ||| w == "3d"@ ||| w == "api"@ ||| w == "cli"@ ||| w == "cpu"@ ||| w == "dbus"@
    ||| w == "diy"@ ||| w == "dns"@ ||| w == "esr"@ ||| w == "gui"@ ||| w == "gpu"@
    ||| w == "http"@ ||| w == "https"@ ||| w == "json"@ ||| w == "jwt"@ ||| w == "lts"@
    ||| w == "nvme"@ ||| w == "pdf"@ ||| w == "php"@ ||| w == "png"@ ||| w == "rest"@
    ||| w == "rpc"@ ||| w == "sdk"@ ||| w == "sql"@ ||| w == "ssh"@ ||| w == "ssl"@
    ||| w == "tls"@ ||| w == "ui"@ ||| w == "uri"@ ||| w == "url"@ ||| w == "usb"@
    ||| w == "utf"@ ||| w == "vpn"@ ||| w == "xml"@ ||| w == "yaml"@
}

pub fn is_acronym_exec(w: &Vec<char>) -> (r: bool)
    ensures
        r == is_acronym(w@),
{
    chars_eq_str(w, "3d") || chars_eq_str(w, "api") || chars_eq_str(w, "cli") || chars_eq_str(
        w,
        "cpu",
    ) || chars_eq_str(w, "dbus") || chars_eq_str(w, "diy") || chars_eq_str(w, "dns")
        || chars_eq_str(w, "esr") || chars_eq_str(w, "gui") || chars_eq_str(w, "gpu")
        || chars_eq_str(w, "http") || chars_eq_str(w, "https") || chars_eq_str(w, "json")
        || chars_eq_str(w, "jwt") || chars_eq_str(w, "lts") || chars_eq_str(w, "nvme")
        || chars_eq_str(w, "pdf") || chars_eq_str(w, "php") || chars_eq_str(w, "png")
        || chars_eq_str(w, "rest") || chars_eq_str(w, "rpc") || chars_eq_str(w, "sdk")
        || chars_eq_str(w, "sql") || chars_eq_str(w, "ssh") || chars_eq_str(w, "ssl")
        || chars_eq_str(w, "tls") || chars_eq_str(w, "ui") || chars_eq_str(w, "uri")
        || chars_eq_str(w, "url") || chars_eq_str(w, "usb") || chars_eq_str(w, "utf")
        || chars_eq_str(w, "vpn") || chars_eq_str(w, "xml") || chars_eq_str(w, "yaml")
}

/// One dash-separated word of a package name, for people: an acronym in
/// capitals, any other word with a capital initial and the rest in lower
/// case.
pub open spec fn humanize_word(w: Seq<char>) -> Seq<char> {
    if is_acronym(lowercase(w)) {
        uppercase(lowercase(w))
    } else if w.len() == 0 {
        Seq::empty()
    } else {
        char_uppercase(w[0]) + lowercase(w.drop_first())
    }
}

/// The non-empty pieces, each made into a word for people.
pub open spec fn humanized_words(pieces: Seq<Seq<char>>) -> Seq<Seq<char>>
    decreases pieces.len(),
{
    if pieces.len() == 0 {
        Seq::empty()
    } else if pieces.last().len() > 0 {
        humanized_words(pieces.drop_last()).push(humanize_word(pieces.last()))
    } else {
        humanized_words(pieces.drop_last())
    }
}

/// The non-empty dash-separated words of a package name, for people.
pub open spec fn name_words(name: Seq<char>) -> Seq<Seq<char>> {
    humanized_words(split(name, "-"@))
}

/// A package name for people: its words joined by spaces
/// (`"gnome-text-editor"` → `"Gnome Text Editor"`, `"libssl-dev"` →
/// `"Libssl Dev"`), or the name itself when that leaves nothing.
pub open spec fn humanize_name(name: Seq<char>) -> Seq<char> {
    let joined = join(name_words(name), " "@);
    if joined.len() == 0 {
        name
    } else {
        joined
    }
}

/// `humanize_word` on an ASCII word: an acronym in capitals, any other
/// word with a capital initial and the rest in lower case.
pub open spec fn ascii_humanize_word(w: Seq<char>) -> Seq<char> {
    if is_acronym(lower_seq(w)) {
        upper_seq(lower_seq(w))
    } else if w.len() == 0 {
        Seq::empty()
    } else {
        seq![ascii_upper(w[0])] + lower_seq(w.drop_first())
    }
}

/// `humanized_words` on ASCII pieces.
pub open spec fn ascii_humanized_words(pieces: Seq<Seq<char>>) -> Seq<Seq<char>>
    decreases pieces.len(),
{
    if pieces.len() == 0 {
        Seq::empty()
    } else if pieces.last().len() > 0 {
        ascii_humanized_words(pieces.drop_last()).push(ascii_humanize_word(pieces.last()))
    } else {
        ascii_humanized_words(pieces.drop_last())
    }
}

/// `humanize_name` on an ASCII name.
pub open spec fn ascii_humanize_name(name: Seq<char>) -> Seq<char> {
    let joined = join(ascii_humanized_words(split(name, "-"@)), " "@);
    if joined.len() == 0 {
        name
    } else {
        joined
    }
}

/// The pieces of an ASCII text split at `sep` are ASCII.
proof fn lemma_split_ascii(cur: Seq<char>, s: Seq<char>, sep: Seq<char>)
    requires
        all_ascii(cur),
        all_ascii(s),
    ensures
        forall|k: int|
            0 <= k < split_from(cur, s, sep).len() ==> all_ascii(
                #[trigger] split_from(cur, s, sep)[k],
            ),
    decreases s.len(),
{
    if sep.len() > 0 && starts_with(s, sep) {
        let rest = s.skip(sep.len() as int);
        assert(all_ascii(rest)) by {
            assert forall|k: int| 0 <= k < rest.len() implies crate::case::ascii_char(
                #[trigger] rest[k],
            ) by {
                assert(rest[k] == s[k + sep.len()]);
            }
        }
        lemma_split_ascii(Seq::empty(), rest, sep);
        let a = seq![cur];
        let b = split_from(Seq::empty(), rest, sep);
        assert(split_from(cur, s, sep) == a + b);
        assert forall|k: int| 0 <= k < (a + b).len() implies all_ascii(#[trigger] (a + b)[k]) by {
            if k >= 1 {
                assert((a + b)[k] == b[k - 1]);
            } else {
                assert((a + b)[k] == cur);
            }
        }
    } else if s.len() == 0 {
        assert(split_from(cur, s, sep) == seq![cur]);
        assert(seq![cur][0] == cur);
    } else {
        let c2 = cur.push(s[0]);
        assert(all_ascii(c2)) by {
            assert forall|k: int| 0 <= k < c2.len() implies crate::case::ascii_char(
                #[trigger] c2[k],
            ) by {
                if k < cur.len() {
                    assert(c2[k] == cur[k]);
                }
            }
        }
        assert(all_ascii(s.drop_first())) by {
            assert forall|k: int| 0 <= k < s.drop_first().len() implies crate::case::ascii_char(
                #[trigger] s.drop_first()[k],
            ) by {
                assert(s.drop_first()[k] == s[k + 1]);
            }
        }
        lemma_split_ascii(c2, s.drop_first(), sep);
        assert(split_from(cur, s, sep) == split_from(c2, s.drop_first(), sep));
    }
}

pub fn humanize_word_exec(w: &str) -> (r: String)
    ensures
        r@ == humanize_word(w@),
        all_ascii(w@) ==> r@ == ascii_humanize_word(w@),
{
    let lower = to_lowercase(w);
    let lc = chars_of(lower.as_str());
    if is_acronym_exec(&lc) {
        return to_uppercase(lower.as_str());
    }
    let c = chars_of(w);
    if c.len() == 0 {
        return String::new();
    }
    let mut out = char_to_uppercase(c[0]);
    let rest = sub_string(&c, 1, c.len());
    assert(c@.subrange(1, c@.len() as int) =~= c@.drop_first());
    let rest_lower = to_lowercase(rest.as_str());
    push_str(&mut out, rest_lower.as_str());
    proof {
        if all_ascii(w@) {
            assert(crate::case::ascii_char(c@[0]));
            assert(all_ascii(rest@));
        }
    }
    out
}

// ---------------------------------------------------------------------------
// Dependencies
// ---------------------------------------------------------------------------

/// The package named by one alternative of a dependency (`"libc6 (>= 2.34)"`
/// → `"libc6"`).
pub open spec fn alternative_name(alt: Seq<char>) -> Seq<char> {
    trim(first_word_or_self(alt))
}

/// The packages named by the alternatives, skipping empty names.
pub open spec fn alternative_names(alts: Seq<Seq<char>>) -> Seq<Seq<char>>
    decreases alts.len(),
{
    if alts.len() == 0 {
        Seq::empty()
    } else if alternative_name(alts.last()).len() > 0 {
        alternative_names(alts.drop_last()).push(alternative_name(alts.last()))
    } else {
        alternative_names(alts.drop_last())
    }
}

/// The packages named by the alternatives of one dependency group
/// (`"a | b (>= 1)"`); none for an empty group or `N/A`.
pub open spec fn group_names(group: Seq<char>) -> Seq<Seq<char>> {
    let t = trim(group);
    if t.len() == 0 || t == "N/A"@ {
        Seq::empty()
    } else {
        alternative_names(split(t, " | "@))
    }
}

/// The packages named by the groups, in order.
pub open spec fn groups_names(groups: Seq<Seq<char>>) -> Seq<Seq<char>>
    decreases groups.len(),
{
    if groups.len() == 0 {
        Seq::empty()
    } else {
        groups_names(groups.drop_last()) + group_names(groups.last())
    }
}

/// The packages named by a dependency field such as
/// `"libc6 (>= 2.34), libfoo | libbar"`: every alternative of every
/// comma-separated group.
pub open spec fn deplist_names(field: Seq<char>) -> Seq<Seq<char>> {
    groups_names(split(field, ", "@))
}

/// The packages named by one printed dependency field; none for an empty
/// line or `N/A`.
pub open spec fn field_line_names(line: Seq<char>) -> Seq<Seq<char>> {
    if line.len() == 0 || line == "N/A"@ {
        Seq::empty()
    } else {
        deplist_names(line)
    }
}

/// The packages named by the dependency fields printed one per line
/// (`Depends`, `Pre-Depends`, `Recommends`, `Suggests`), skipping empty
/// lines and `N/A`.
pub open spec fn dependency_lines_names(lines: Seq<Seq<char>>) -> Seq<Seq<char>>
    decreases lines.len(),
{
    if lines.len() == 0 {
        Seq::empty()
    } else {
        dependency_lines_names(lines.drop_last()) + field_line_names(lines.last())
    }
}

/// Appends the dependencies named by `alternatives` to `deps`.
fn push_alternatives(deps: &mut Vec<DependencyInfo>, alternatives: &Vec<Vec<char>>, Ghost(
    base,
): Ghost<Seq<Seq<char>>>)
    requires
        dependencies_are(old(deps)@, base, DependencyType::Required),
    ensures
        dependencies_are(
            final(deps)@,
            base + alternative_names(views(alternatives@)),
            DependencyType::Required,
        ),
{
    let mut j: usize = 0;
    while j < alternatives.len()
        invariant
            j <= alternatives@.len(),
            dependencies_are(
                deps@,
                base + alternative_names(views(alternatives@).take(j as int)),
                DependencyType::Required,
            ),
        decreases alternatives@.len() - j,
    {
        let ghost pre = views(alternatives@).take(j as int);
        let ghost post = views(alternatives@).take(j + 1);
        proof {
            assert(post.drop_last() =~= pre);
            assert(post.last() == alternatives@[j as int]@);
        }
        let word = first_word_or_self_exec(&alternatives[j]);
        let name = trim_exec(&word);
        if name.len() > 0 {
            let d = dependency(string_of(&name), DependencyType::Required);
            let ghost prev = deps@;
            deps.push(d);
            proof {
                let names = base + alternative_names(post);
                assert(names =~= (base + alternative_names(pre)).push(name@));
                assert forall|k: int| 0 <= k < deps@.len() implies {
                    &&& (#[trigger] deps@[k]).name@ == names[k]
                    &&& deps@[k].version@.len() == 0
                    &&& deps@[k].dependency_type == DependencyType::Required
                } by {
                    if k < prev.len() {
                        assert(deps@[k] == prev[k]);
                    }
                }
            }
        }
        j += 1;
    }
    assert(views(alternatives@).take(alternatives@.len() as int) =~= views(alternatives@));
}

/// Appends the dependencies named by the field `field` to `deps`.
fn push_deplist(deps: &mut Vec<DependencyInfo>, field: &Vec<char>, Ghost(base): Ghost<
    Seq<Seq<char>>,
>)
    requires
        dependencies_are(old(deps)@, base, DependencyType::Required),
    ensures
        dependencies_are(final(deps)@, base + deplist_names(field@), DependencyType::Required),
{
    let sep = chars_of(", ");
    let bar = chars_of(" | ");
    proof {
        reveal_strlit(", ");
        reveal_strlit(" | ");
    }
    let groups = split_exec(field, &sep);
    let mut i: usize = 0;
    while i < groups.len()
        invariant
            i <= groups@.len(),
            bar@ == " | "@,
            views(groups@) == split(field@, ", "@),
            dependencies_are(
                deps@,
                base + groups_names(views(groups@).take(i as int)),
                DependencyType::Required,
            ),
        decreases groups@.len() - i,
    {
        let ghost pre = views(groups@).take(i as int);
        let ghost post = views(groups@).take(i + 1);
        proof {
            assert(post.drop_last() =~= pre);
            assert(post.last() == groups@[i as int]@);
        }
        let t = trim_exec(&groups[i]);
        proof {
            reveal_strlit(" | ");
            assert(groups_names(post) == groups_names(pre) + group_names(groups@[i as int]@));
        }
        if t.len() == 0 || chars_eq_str(&t, "N/A") {
            assert(group_names(groups@[i as int]@) =~= Seq::<Seq<char>>::empty());
            assert(base + groups_names(post) =~= base + groups_names(pre));
        } else {
            let alternatives = split_exec(&t, &bar);
            push_alternatives(deps, &alternatives, Ghost(base + groups_names(pre)));
            assert(base + groups_names(post) =~= base + groups_names(pre) + alternative_names(
                views(alternatives@),
            ));
        }
        i += 1;
    }
    assert(views(groups@).take(groups@.len() as int) =~= views(groups@));
}

// ---------------------------------------------------------------------------
// Listings
// ---------------------------------------------------------------------------

/// A package listed by `dpkg-query -W -f '${Package}\t${Version}\t
/// ${Architecture}\t${Installed-Size}\t${Status}\t${Description}\n'`.
pub struct DpkgEntry {
    pub name: String,
    pub version: String,
    pub arch: String,
    pub installed_size_kb: u64,
    pub summary: String,
}

/// What a listing line holds, as characters.
pub struct DpkgEntryFields {
    pub name: Seq<char>,
    pub version: Seq<char>,
    pub arch: Seq<char>,
    pub installed_size_kb: u64,
    pub summary: Seq<char>,
}

pub open spec fn entry_is(e: DpkgEntry, f: DpkgEntryFields) -> bool {
    &&& e.name@ == f.name
    &&& e.version@ == f.version
    &&& e.arch@ == f.arch
    &&& e.installed_size_kb == f.installed_size_kb
    &&& e.summary@ == f.summary
}

/// A status that contains `installed` (`"install ok installed"`).
pub open spec fn status_installed(status: Seq<char>) -> bool {
    contains(status, "installed"@)
}

/// The pieces of a tab-separated line.
pub open spec fn tab_fields(line: Seq<char>) -> Seq<Seq<char>> {
    split(line, "\t"@)
}

fn tab_fields_exec(line: &str) -> (r: Vec<Vec<char>>)
    ensures
        piece_views(r@) == tab_fields(line@),
{
    let c = chars_of(line);
    let tab = chars_of("\t");
    proof {
        reveal_strlit("\t");
    }
    split_exec(&c, &tab)
}

/// A listing line read as a package, kept when its status says installed;
/// empty lines are skipped.
pub open spec fn listing_entry(line: Seq<char>) -> Option<DpkgEntryFields> {
    if line.len() == 0 {
        None
    } else {
        let p = tab_fields(line);
        if !status_installed(nth_or_empty(p, 4)) {
            None
        } else {
            Some(
                DpkgEntryFields {
                    name: nth_or_empty(p, 0),
                    version: nth_or_empty(p, 1),
                    arch: nth_or_empty(p, 2),
                    installed_size_kb: nth_u64_or_zero(p, 3),
                    summary: nth_or_empty(p, 5),
                },
            )
        }
    }
}

/// The archive sizes printed by `apt-cache show`, the current package
/// being `cur`: a `Package: ` line names the package, a `Size: ` line with
/// a number records its size.
pub open spec fn archive_sizes_from(cur: Seq<char>, lines: Seq<Seq<char>>) -> Seq<(Seq<char>, u64)>
    decreases lines.len(),
{
    if lines.len() == 0 {
        Seq::empty()
    } else {
        let l = lines[0];
        let rest = lines.drop_first();
        match strip_prefix(l, "Package: "@) {
            Some(v) => archive_sizes_from(trim(v), rest),
            None => match strip_prefix(l, "Size: "@) {
                Some(v) => match parse_u64(trim(v)) {
                    Some(size) => seq![(cur, size)] + archive_sizes_from(cur, rest),
                    None => archive_sizes_from(cur, rest),
                },
                None => archive_sizes_from(cur, rest),
            },
        }
    }
}

/// The archive sizes in one `apt-cache show` output, in order.
pub open spec fn archive_sizes(lines: Seq<Seq<char>>) -> Seq<(Seq<char>, u64)> {
    archive_sizes_from(Seq::empty(), lines)
}

/// The size recorded last for `name`, as a map whose later insertions
/// replace earlier ones.
pub open spec fn size_lookup(sizes: Seq<(Seq<char>, u64)>, name: Seq<char>) -> Option<u64>
    decreases sizes.len(),
{
    if sizes.len() == 0 {
        None
    } else if sizes.last().0 == name {
        Some(sizes.last().1)
    } else {
        size_lookup(sizes.drop_last(), name)
    }
}

pub open spec fn size_views(sizes: Seq<(String, u64)>) -> Seq<(Seq<char>, u64)> {
    sizes.map_values(|p: (String, u64)| (p.0@, p.1))
}

/// The footprint of a listed package: the archive size when one was
/// recorded (else the installed size), the installed size in bytes, and a
/// name for people.
pub open spec fn listed_footprint(e: DpkgEntryFields, sizes: Seq<(Seq<char>, u64)>) -> FootprintFields {
    let total = (e.installed_size_kb * 1024) as u64;
    FootprintFields {
        id: "apt:"@ + e.name,
        display_name: humanize_name(e.name),
        source: PackageSource::Apt,
        version: e.version,
        architecture: e.arch,
        scope: InstallScope::System,
        tracked_files: Seq::empty(),
        declared_configs: Seq::empty(),
        size_bytes: SizeBreakdown {
            package_size: match size_lookup(sizes, e.name) {
                Some(s) => s,
                None => total,
            },
            total_footprint: total,
            ..zero_sizes()
        },
        installed_at: None,
        summary: e.summary,
        description: Seq::empty(),
        homepage: None,
        license: None,
    }
}

pub open spec fn entry_views(entries: Seq<DpkgEntry>) -> Seq<DpkgEntryFields> {
    entries.map_values(
        |e: DpkgEntry|
            DpkgEntryFields {
                name: e.name@,
                version: e.version@,
                arch: e.arch@,
                installed_size_kb: e.installed_size_kb,
                summary: e.summary@,
            },
    )
}

/// Every installed size, in bytes, fits in `u64`.
pub open spec fn sizes_fit(entries: Seq<DpkgEntry>) -> bool {
    forall|i: int| 0 <= i < entries.len() ==> #[trigger] entries[i].installed_size_kb <= u64::MAX / 1024
}

// ---------------------------------------------------------------------------
// Package details
// ---------------------------------------------------------------------------

/// What `dpkg-query -W -f '${Package}\t${Version}\t${Architecture}\t
/// ${Installed-Size}\t${Status}\t${Description}\t${Maintainer}\n'` tells
/// of an installed package.
pub struct DpkgInfo {
    pub name: String,
    pub version: String,
    pub arch: String,
    pub installed_size_kb: u64,
    pub summary: String,
}

/// What `apt-cache show` tells of a package beyond `dpkg`.
pub struct AptDetails {
    pub homepage: Option<String>,
    pub license: Option<String>,
    pub archive_size: Option<u64>,
}

pub struct AptDetailsFields {
    pub homepage: Option<Seq<char>>,
    pub license: Option<Seq<char>>,
    pub archive_size: Option<u64>,
}

/// The details after one more line of `apt-cache show`: a non-empty
/// `Homepage: `; a non-empty `License: ` (or else `Original-License: `);
/// a `Size: ` line sets the archive size, or clears it when not a number.
pub open spec fn details_step(d: AptDetailsFields, l: Seq<char>) -> AptDetailsFields {
    let homepage = match strip_prefix(l, "Homepage: "@) {
        Some(v) => if trim(v).len() > 0 {
            Some(trim(v))
        } else {
            d.homepage
        },
        None => d.homepage,
    };
    let license_value = match strip_prefix(l, "License: "@) {
        Some(v) => Some(v),
        None => strip_prefix(l, "Original-License: "@),
    };
    let license = match license_value {
        Some(v) => if trim(v).len() > 0 {
            Some(trim(v))
        } else {
            d.license
        },
        None => d.license,
    };
    let archive_size = match strip_prefix(l, "Size: "@) {
        Some(v) => parse_u64(trim(v)),
        None => d.archive_size,
    };
    AptDetailsFields { homepage, license, archive_size }
}

/// The details in an `apt-cache show` output, read line by line.
pub open spec fn apt_details(lines: Seq<Seq<char>>) -> AptDetailsFields
    decreases lines.len(),
{
    if lines.len() == 0 {
        AptDetailsFields { homepage: None, license: None, archive_size: None }
    } else {
        details_step(apt_details(lines.drop_last()), lines.last())
    }
}

pub open spec fn details_view(d: AptDetails) -> AptDetailsFields {
    AptDetailsFields {
        homepage: opt_view(d.homepage),
        license: opt_view(d.license),
        archive_size: d.archive_size,
    }
}

/// The first value of a `Nombre: ` line of `appstreamcli search` that is
/// not blank, trimmed.
pub open spec fn appstream_name_in(lines: Seq<Seq<char>>) -> Option<Seq<char>>
    decreases lines.len(),
{
    if lines.len() == 0 {
        None
    } else {
        match strip_prefix(lines[0], "Nombre: "@) {
            Some(v) => if trim(v).len() > 0 {
                Some(trim(v))
            } else {
                appstream_name_in(lines.drop_first())
            },
            None => appstream_name_in(lines.drop_first()),
        }
    }
}

/// What `dpkg-query` tells of a package for its removal plan.
pub struct DpkgPlanInfo {
    pub name: String,
    pub installed_size_kb: u64,
}

/// A configuration file named by a `${Conffiles}` line (`"/etc/foo.conf
/// 0123abcd"` → `"/etc/foo.conf"`).
pub open spec fn conffile_of(line: Seq<char>) -> Option<Seq<char>> {
    if line.len() > 0 && words(line).len() > 0 {
        Some(words(line)[0])
    } else {
        None
    }
}

/// The lines after the first (none when there are none).
pub open spec fn after_first(lines: Seq<Seq<char>>) -> Seq<Seq<char>> {
    if lines.len() == 0 {
        lines
    } else {
        lines.drop_first()
    }
}

/// A reverse dependency printed by `apt-cache rdepends --installed`: the
/// trimmed line, unless blank, the package itself or the header.
pub open spec fn reverse_dependency(line: Seq<char>, pkg: Seq<char>) -> Option<Seq<char>> {
    let t = trim(line);
    if t.len() > 0 && t != pkg && !eq_ignore_ascii_case(t, "Reverse Depends:"@) {
        Some(t)
    } else {
        None
    }
}

impl DpkgAdapter {
    pub fn new() -> (r: Self) {
        DpkgAdapter
    }

    /// The backend's identifier.
    pub fn backend_id(&self) -> (r: &'static str)
        ensures
            r@ == "dpkg"@,
    {
        "dpkg"
    }

    /// The package named by an application id (`"apt:vim"` → `"vim"`).
    pub fn package_name(app_id: &str) -> (r: String)
        ensures
            r@ == unprefixed(app_id@, "apt:"@),
    {
        strip_source_prefix(app_id, "apt:")
    }

    /// Whether a `dpkg` status says the package is installed.
    pub fn is_installed(status: &str) -> (r: bool)
        ensures
            r == status_installed(status@),
    {
        let s = chars_of(status);
        contains_str(&s, "installed")
    }

    /// A package name for people (see `humanize_name`).
    pub fn humanize_package_name(name: &str) -> (r: String)
        ensures
            r@ == humanize_name(name@),
            all_ascii(name@) ==> r@ == ascii_humanize_name(name@),
    {
        let c = chars_of(name);
        let dash = chars_of("-");
        proof {
            reveal_strlit("-");
            if all_ascii(name@) {
                lemma_split_ascii(Seq::empty(), name@, "-"@);
            }
        }
        let pieces = split_exec(&c, &dash);
        let mut out = String::new();
        let mut first = true;
        let ghost mut done: Seq<Seq<char>> = Seq::empty();
        let mut i: usize = 0;
        while i < pieces.len()
            invariant
                i <= pieces@.len(),
                views(pieces@) == split(name@, "-"@),
                done == humanized_words(views(pieces@).take(i as int)),
                all_ascii(name@) ==> done == ascii_humanized_words(views(pieces@).take(i as int)),
                all_ascii(name@) ==> forall|k: int|
                    0 <= k < pieces@.len() ==> all_ascii(#[trigger] views(pieces@)[k]),
                first == (done.len() == 0),
                out@ == join(done, " "@),
            decreases pieces@.len() - i,
        {
            let ghost pre = views(pieces@).take(i as int);
            let ghost post = views(pieces@).take(i + 1);
            proof {
                reveal_with_fuel(Seq::filter, 1);
                assert(post.drop_last() =~= pre);
                assert(post.last() == pieces@[i as int]@);
            }
            if pieces[i].len() > 0 {
                let piece = string_of(&pieces[i]);
                proof {
                    if all_ascii(name@) {
                        assert(all_ascii(views(pieces@)[i as int]));
                    }
                }
                let w = humanize_word_exec(piece.as_str());
                join_push(&mut out, w.as_str(), " ", first, Ghost(done));
                proof {
                    done = done.push(w@);
                }
                first = false;
            }
            i += 1;
        }
        proof {
            assert(views(pieces@).take(pieces@.len() as int) =~= views(pieces@));
        }
        if out.as_str().is_empty() {
            String::from_str(name)
        } else {
            out
        }
    }

    /// The packages named by a dependency field (`Depends` and the like).
    pub fn parse_deplist(dep_field: &str) -> (r: Vec<DependencyInfo>)
        ensures
            dependencies_are(r@, deplist_names(dep_field@), DependencyType::Required),
    {
        let mut deps: Vec<DependencyInfo> = Vec::new();
        let f = chars_of(dep_field);
        push_deplist(&mut deps, &f, Ghost(Seq::empty()));
        assert(Seq::<Seq<char>>::empty() + deplist_names(dep_field@) =~= deplist_names(
            dep_field@,
        ));
        deps
    }

    /// The dependencies printed by `dpkg-query -W -f '${Depends}\n
    /// ${Pre-Depends}\n${Recommends}\n${Suggests}\n'`, all counted as
    /// required.
    pub fn dependencies(lines: &Vec<String>) -> (r: Vec<DependencyInfo>)
        ensures
            dependencies_are(
                r@,
                dependency_lines_names(string_views(lines@)),
                DependencyType::Required,
            ),
    {
        let mut deps: Vec<DependencyInfo> = Vec::new();
        let mut i: usize = 0;
        while i < lines.len()
            invariant
                i <= lines@.len(),
                dependencies_are(
                    deps@,
                    dependency_lines_names(string_views(lines@).take(i as int)),
                    DependencyType::Required,
                ),
            decreases lines@.len() - i,
        {
            let ghost pre = string_views(lines@).take(i as int);
            let ghost post = string_views(lines@).take(i + 1);
            proof {
                assert(post.drop_last() =~= pre);
                assert(post.last() == lines@[i as int]@);
            }
            let l = chars_of(lines[i].as_str());
            if l.len() == 0 || chars_eq_str(&l, "N/A") {
                assert(field_line_names(l@) =~= Seq::<Seq<char>>::empty());
                assert(dependency_lines_names(post) =~= dependency_lines_names(pre));
            } else {
                push_deplist(&mut deps, &l, Ghost(dependency_lines_names(pre)));
            }
            i += 1;
        }
        assert(string_views(lines@).take(lines@.len() as int) =~= string_views(lines@));
        deps
    }

    /// The configuration files named by `dpkg-query -W -f '${Conffiles}\n'`.
    pub fn conffiles(lines: &Vec<String>) -> (r: Vec<SystemPath>)
        ensures
            string_views(r@) == string_views(lines@).filter_map(|l: Seq<char>| conffile_of(l)),
    {
        let mut out: Vec<SystemPath> = Vec::new();
        let mut i: usize = 0;
        while i < lines.len()
            invariant
                i <= lines@.len(),
                string_views(out@) == string_views(lines@).take(i as int).filter_map(
                    |l: Seq<char>| conffile_of(l),
                ),
            decreases lines@.len() - i,
        {
            let ghost pre = string_views(lines@).take(i as int);
            let ghost post = string_views(lines@).take(i + 1);
            proof {
                assert(post.drop_last() =~= pre);
                assert(post.last() == lines@[i as int]@);
            }
            let l = chars_of(lines[i].as_str());
            if l.len() > 0 {
                let ws = words_exec(&l);
                if ws.len() > 0 {
                    let w = string_of(&ws[0]);
                    let ghost prev = out@;
                    out.push(w);
                    assert(string_views(out@) =~= string_views(prev).push(w@));
                }
            }
            i += 1;
        }
        assert(string_views(lines@).take(lines@.len() as int) =~= string_views(lines@));
        out
    }

    /// The installed packages that depend on `pkg`, from the output of
    /// `apt-cache rdepends --installed`: every line after the first,
    /// trimmed, except blank lines, `pkg` itself and the header.
    pub fn reverse_dependencies(pkg: &str, lines: &Vec<String>) -> (r: Vec<String>)
        ensures
            string_views(r@) == after_first(string_views(lines@)).filter_map(
                |l: Seq<char>| reverse_dependency(l, pkg@),
            ),
    {
        let ghost all = after_first(string_views(lines@));
        let pc = chars_of(pkg);
        let header = chars_of("Reverse Depends:");
        let mut out: Vec<String> = Vec::new();
        if lines.len() == 0 {
            assert(string_views(out@) =~= Seq::<Seq<char>>::empty());
            return out;
        }
        let mut i: usize = 1;
        while i < lines.len()
            invariant
                1 <= i <= lines@.len(),
                all == after_first(string_views(lines@)),
                pc@ == pkg@,
                header@ == "Reverse Depends:"@,
                string_views(out@) == all.take(i - 1).filter_map(
                    |l: Seq<char>| reverse_dependency(l, pkg@),
                ),
            decreases lines@.len() - i,
        {
            let ghost pre = all.take(i - 1);
            let ghost post = all.take(i as int);
            proof {
                assert(post.drop_last() =~= pre);
                assert(all[i - 1] == lines@[i as int]@);
                assert(post.last() == lines@[i as int]@);
            }
            let l = chars_of(lines[i].as_str());
            let t = trim_exec(&l);
            if t.len() > 0 && !chars_eq(&t, &pc) && !chars_eq_ignore_ascii_case(&t, &header) {
                let s = string_of(&t);
                let ghost prev = out@;
                out.push(s);
                assert(string_views(out@) =~= string_views(prev).push(s@));
            }
            i += 1;
        }
        assert(all.take(lines@.len() - 1) =~= all);
        out
    }

    /// One line of the installed-package listing, kept when installed.
    pub fn listing_line(line: &str) -> (r: Option<DpkgEntry>)
        ensures
            match listing_entry(line@) {
                Some(f) => r matches Some(e) && entry_is(e, f),
                None => r is None,
            },
    {
        if line.is_empty() {
            return None;
        }
        let p = tab_fields_exec(line);
        let status = nth_string(&p, 4);
        if !Self::is_installed(status.as_str()) {
            return None;
        }
        Some(
            DpkgEntry {
                name: nth_string(&p, 0),
                version: nth_string(&p, 1),
                arch: nth_string(&p, 2),
                installed_size_kb: nth_u64_or_zero_exec(&p, 3),
                summary: nth_string(&p, 5),
            },
        )
    }

    /// The installed packages of the listing, in order; the token is
    /// consulted before each line, and a cancellation stops the listing
    /// with `Cancelled`.
    pub fn installed_entries(lines: &Vec<String>, cancel: &CancellationToken) -> (r: Result<
        Vec<DpkgEntry>,
        AdapterError,
    >)
        ensures
            r matches Ok(v) ==> entry_views(v@) == string_views(lines@).filter_map(
                |l: Seq<char>| listing_entry(l),
            ),
            r matches Err(e) ==> e is Cancelled,
            lines@.len() == 0 ==> r is Ok,
    {
        let mut out: Vec<DpkgEntry> = Vec::new();
        let mut i: usize = 0;
        while i < lines.len()
            invariant
                i <= lines@.len(),
                entry_views(out@) == string_views(lines@).take(i as int).filter_map(
                    |l: Seq<char>| listing_entry(l),
                ),
            decreases lines@.len() - i,
        {
            if cancel.is_cancelled() {
                return Err(AdapterError::Cancelled);
            }
            let ghost pre = string_views(lines@).take(i as int);
            let ghost post = string_views(lines@).take(i + 1);
            proof {
                assert(post.drop_last() =~= pre);
                assert(post.last() == lines@[i as int]@);
            }
            match Self::listing_line(lines[i].as_str()) {
                Some(e) => {
                    let ghost prev = out@;
                    let ghost ev = DpkgEntryFields {
                        name: e.name@,
                        version: e.version@,
                        arch: e.arch@,
                        installed_size_kb: e.installed_size_kb,
                        summary: e.summary@,
                    };
                    out.push(e);
                    assert(entry_views(out@) =~= entry_views(prev).push(ev));
                },
                None => {},
            }
            i += 1;
        }
        assert(string_views(lines@).take(lines@.len() as int) =~= string_views(lines@));
        Ok(out)
    }

    /// Records the archive sizes printed by one `apt-cache show` call after
    /// those already recorded.
    pub fn record_archive_sizes(sizes: &mut Vec<(String, u64)>, lines: &Vec<String>)
        ensures
            size_views(final(sizes)@) == size_views(old(sizes)@) + archive_sizes(
                string_views(lines@),
            ),
    {
        let ghost all = string_views(lines@);
        let mut cur: Vec<char> = Vec::new();
        let mut i: usize = 0;
        assert(all.skip(0) =~= all);
        assert(size_views(sizes@) + archive_sizes(all) =~= size_views(old(sizes)@)
            + archive_sizes_from(cur@, all.skip(0)));
        while i < lines.len()
            invariant
                i <= lines@.len(),
                all == string_views(lines@),
                size_views(old(sizes)@) + archive_sizes(all) == size_views(sizes@)
                    + archive_sizes_from(cur@, all.skip(i as int)),
            decreases lines@.len() - i,
        {
            proof {
                assert(all.skip(i as int).drop_first() =~= all.skip(i + 1));
                assert(all.skip(i as int)[0] == lines@[i as int]@);
            }
            let l = chars_of(lines[i].as_str());
            match strip_prefix_exec(&l, "Package: ") {
                Some(v) => {
                    cur = trim_exec(&v);
                },
                None => match strip_prefix_exec(&l, "Size: ") {
                    Some(v) => {
                        let t = trim_exec(&v);
                        match parse_u64_exec(&t) {
                            Some(size) => {
                                let ghost prev = sizes@;
                                let name = string_of(&cur);
                                sizes.push((name, size));
                                assert(size_views(sizes@) =~= size_views(prev) + seq![
                                    (cur@, size),
                                ]);
                                assert(size_views(sizes@) + archive_sizes_from(
                                    cur@,
                                    all.skip(i + 1),
                                ) =~= size_views(prev) + (seq![(cur@, size)] + archive_sizes_from(
                                    cur@,
                                    all.skip(i + 1),
                                )));
                            },
                            None => {},
                        }
                    },
                    None => {},
                },
            }
            i += 1;
        }
        assert(all.skip(i as int) =~= Seq::<Seq<char>>::empty());
        assert(size_views(sizes@) + Seq::<(Seq<char>, u64)>::empty() =~= size_views(sizes@));
    }

    /// The size recorded last for `name`.
    pub fn archive_size_of(sizes: &Vec<(String, u64)>, name: &str) -> (r: Option<u64>)
        ensures
            r == size_lookup(size_views(sizes@), name@),
    {
        let n = chars_of(name);
        let mut i: usize = sizes.len();
        assert(size_views(sizes@).take(sizes@.len() as int) =~= size_views(sizes@));
        while i > 0
            invariant
                i <= sizes@.len(),
                n@ == name@,
                size_lookup(size_views(sizes@), name@) == size_lookup(
                    size_views(sizes@).take(i as int),
                    name@,
                ),
            decreases i,
        {
            let ghost cur = size_views(sizes@).take(i as int);
            proof {
                assert(cur.drop_last() =~= size_views(sizes@).take(i - 1));
                assert(cur.last() == (sizes@[i - 1].0@, sizes@[i - 1].1));
            }
            let k = chars_of(sizes[i - 1].0.as_str());
            if chars_eq(&k, &n) {
                return Some(sizes[i - 1].1);
            }
            i -= 1;
        }
        None
    }

    /// The footprint of a listed package (see `listed_footprint`).
    pub fn listed_package(e: &DpkgEntry, sizes: &Vec<(String, u64)>) -> (r: AppFootprint)
        requires
            e.installed_size_kb <= u64::MAX / 1024,
        ensures
            describes(
                r,
                listed_footprint(
                    DpkgEntryFields {
                        name: e.name@,
                        version: e.version@,
                        arch: e.arch@,
                        installed_size_kb: e.installed_size_kb,
                        summary: e.summary@,
                    },
                    size_views(sizes@),
                ),
            ),
    {
        let total = e.installed_size_kb * 1024;
        let package_size = match Self::archive_size_of(sizes, e.name.as_str()) {
            Some(s) => s,
            None => total,
        };
        let display_name = Self::humanize_package_name(e.name.as_str());
        let mut id = String::new();
        push_str(&mut id, "apt:");
        push_str(&mut id, e.name.as_str());
        assert(id@ =~= "apt:"@ + e.name@);
        let mut size = SizeBreakdown::default();
        size.package_size = package_size;
        size.total_footprint = total;
        let no_files: Vec<SystemPath> = Vec::new();
        let no_configs: Vec<SystemPath> = Vec::new();
        assert(string_views(no_files@) =~= Seq::empty());
        assert(string_views(no_configs@) =~= Seq::empty());
        new_footprint(
            id,
            display_name,
            PackageSource::Apt,
            e.version.clone(),
            e.arch.clone(),
            InstallScope::System,
            no_files,
            no_configs,
            size,
            None,
            e.summary.clone(),
            String::new(),
            None,
            None,
        )
    }

    /// The footprints of the listed packages, in order; the token is
    /// consulted before each package, and a cancellation stops the listing
    /// with `Cancelled`.
    pub fn listed_packages(
        entries: &Vec<DpkgEntry>,
        sizes: &Vec<(String, u64)>,
        cancel: &CancellationToken,
    ) -> (r: Result<Vec<AppFootprint>, AdapterError>)
        requires
            sizes_fit(entries@),
        ensures
            r matches Ok(v) ==> footprints_describe(
                v@,
                entry_views(entries@).map_values(
                    |e: DpkgEntryFields| listed_footprint(e, size_views(sizes@)),
                ),
            ),
            r matches Err(e) ==> e is Cancelled,
            entries@.len() == 0 ==> r is Ok,
    {
        let ghost all = entry_views(entries@).map_values(
            |e: DpkgEntryFields| listed_footprint(e, size_views(sizes@)),
        );
        let mut apps: Vec<AppFootprint> = Vec::new();
        let mut i: usize = 0;
        while i < entries.len()
            invariant
                i <= entries@.len(),
                sizes_fit(entries@),
                all == entry_views(entries@).map_values(
                    |e: DpkgEntryFields| listed_footprint(e, size_views(sizes@)),
                ),
                apps@.len() == i,
                forall|k: int| 0 <= k < i ==> describes(#[trigger] apps@[k], all[k]),
            decreases entries@.len() - i,
        {
            if cancel.is_cancelled() {
                return Err(AdapterError::Cancelled);
            }
            assert(entries@[i as int].installed_size_kb <= u64::MAX / 1024);
            let fp = Self::listed_package(&entries[i], sizes);
            let ghost prev = apps@;
            apps.push(fp);
            proof {
                assert forall|k: int| 0 <= k < i + 1 implies describes(
                    #[trigger] apps@[k],
                    all[k],
                ) by {
                    if k < i {
                        assert(apps@[k] == prev[k]);
                    }
                }
            }
            i += 1;
        }
        Ok(apps)
    }

    /// The package information from the first line of the detailed
    /// `dpkg-query` output: not found when nothing was printed, a parse
    /// error with fewer than five tab-separated fields, not found (`"<pkg>
    /// not installed"`) when the status does not say installed.
    pub fn parse_info(pkg: &str, lines: &Vec<String>) -> (r: Result<DpkgInfo, AdapterError>)
        ensures
            lines@.len() == 0 ==> (r matches Err(AdapterError::AppNotFound(m)) && m@ == pkg@),
            lines@.len() > 0 ==> ({
                let p = tab_fields(lines@[0]@);
                if p.len() < 5 {
                    r matches Err(AdapterError::Parse(m)) && m@ == "unexpected dpkg info format"@
                } else if !status_installed(p[4]) {
                    r matches Err(AdapterError::AppNotFound(m)) && m@ == pkg@ + " not installed"@
                } else {
                    r matches Ok(info) && {
                        &&& info.name@ == p[0]
                        &&& info.version@ == p[1]
                        &&& info.arch@ == p[2]
                        &&& info.installed_size_kb == nth_u64_or_zero(p, 3)
                        &&& info.summary@ == nth_or_empty(p, 5)
                    }
                }
            }),
    {
        if lines.len() == 0 {
            return Err(AdapterError::AppNotFound(String::from_str(pkg)));
        }
        let p = tab_fields_exec(lines[0].as_str());
        if p.len() < 5 {
            return Err(AdapterError::Parse(String::from_str("unexpected dpkg info format")));
        }
        let status = string_of(&p[4]);
        if !Self::is_installed(status.as_str()) {
            let mut m = String::from_str(pkg);
            push_str(&mut m, " not installed");
            return Err(AdapterError::AppNotFound(m));
        }
        Ok(
            DpkgInfo {
                name: string_of(&p[0]),
                version: string_of(&p[1]),
                arch: string_of(&p[2]),
                installed_size_kb: nth_u64_or_zero_exec(&p, 3),
                summary: nth_string(&p, 5),
            },
        )
    }

    /// The homepage, license and archive size in an `apt-cache show`
    /// output (see `apt_details`).
    pub fn parse_apt_details(lines: &Vec<String>) -> (r: AptDetails)
        ensures
            details_view(r) == apt_details(string_views(lines@)),
    {
        let mut d = AptDetails { homepage: None, license: None, archive_size: None };
        let mut i: usize = 0;
        while i < lines.len()
            invariant
                i <= lines@.len(),
                details_view(d) == apt_details(string_views(lines@).take(i as int)),
            decreases lines@.len() - i,
        {
            let ghost pre = string_views(lines@).take(i as int);
            let ghost post = string_views(lines@).take(i + 1);
            proof {
                assert(post.drop_last() =~= pre);
                assert(post.last() == lines@[i as int]@);
            }
            let l = chars_of(lines[i].as_str());
            match strip_prefix_exec(&l, "Homepage: ") {
                Some(v) => {
                    let h = trim_exec(&v);
                    if h.len() > 0 {
                        d.homepage = Some(string_of(&h));
                    }
                },
                None => {},
            }
            let license_value = match strip_prefix_exec(&l, "License: ") {
                Some(v) => Some(v),
                None => strip_prefix_exec(&l, "Original-License: "),
            };
            match license_value {
                Some(v) => {
                    let lc = trim_exec(&v);
                    if lc.len() > 0 {
                        d.license = Some(string_of(&lc));
                    }
                },
                None => {},
            }
            match strip_prefix_exec(&l, "Size: ") {
                Some(v) => {
                    let t = trim_exec(&v);
                    d.archive_size = parse_u64_exec(&t);
                },
                None => {},
            }
            i += 1;
        }
        assert(string_views(lines@).take(lines@.len() as int) =~= string_views(lines@));
        d
    }

    /// The name `appstreamcli search` gives a package, if it succeeded and
    /// printed one (see `appstream_name_in`).
    pub fn appstream_name(success: bool, lines: &Vec<String>) -> (r: Option<String>)
        ensures
            opt_view(r) == (if success {
                appstream_name_in(string_views(lines@))
            } else {
                None
            }),
    {
        if !success {
            return None;
        }
        let ghost all = string_views(lines@);
        let mut i: usize = 0;
        assert(all.skip(0) =~= all);
        while i < lines.len()
            invariant
                i <= lines@.len(),
                success,
                all == string_views(lines@),
                appstream_name_in(all) == appstream_name_in(all.skip(i as int)),
            decreases lines@.len() - i,
        {
            proof {
                assert(all.skip(i as int).drop_first() =~= all.skip(i + 1));
                assert(all.skip(i as int).len() > 0);
                assert(all.skip(i as int)[0] == lines@[i as int]@);
            }
            let l = chars_of(lines[i].as_str());
            match strip_prefix_exec(&l, "Nombre: ") {
                Some(v) => {
                    let t = trim_exec(&v);
                    if t.len() > 0 {
                        let name = string_of(&t);
                        assert(appstream_name_in(all.skip(i as int)) == Some(t@));
                        return Some(name);
                    }
                },
                None => {},
            }
            i += 1;
        }
        None
    }

    /// The footprint of an installed package from its information, files,
    /// declared configuration files, the breakdown of its files' sizes
    /// when it could be measured, the `apt-cache show` details when they
    /// could be read and the AppStream name when there is one: the total is
    /// never less than the installed size, the archive size replaces the
    /// package size when known, and the name falls back to the package name
    /// for people.
    pub fn footprint(
        info: DpkgInfo,
        files: Vec<SystemPath>,
        configs: Vec<SystemPath>,
        detailed: Option<SizeBreakdown>,
        details: Option<AptDetails>,
        appstream: Option<String>,
    ) -> (r: AppFootprint)
        requires
            info.installed_size_kb <= u64::MAX / 1024,
        ensures
            describes(
                r,
                FootprintFields {
                    id: "apt:"@ + info.name@,
                    display_name: match appstream {
                        Some(n) => n@,
                        None => humanize_name(info.name@),
                    },
                    source: PackageSource::Apt,
                    version: info.version@,
                    architecture: info.arch@,
                    scope: InstallScope::System,
                    tracked_files: string_views(files@),
                    declared_configs: string_views(configs@),
                    size_bytes: ({
                        let installed = (info.installed_size_kb * 1024) as u64;
                        let base = match detailed {
                            Some(b) => b,
                            None => SizeBreakdown { total_footprint: installed, ..zero_sizes() },
                        };
                        let archive = match details {
                            Some(d) => d.archive_size,
                            None => None,
                        };
                        SizeBreakdown {
                            package_size: match archive {
                                Some(a) => a,
                                None => base.package_size,
                            },
                            total_footprint: if base.total_footprint < installed {
                                installed
                            } else {
                                base.total_footprint
                            },
                            ..base
                        }
                    }),
                    installed_at: None,
                    summary: info.summary@,
                    description: Seq::empty(),
                    homepage: match details {
                        Some(d) => opt_view(d.homepage),
                        None => None,
                    },
                    license: match details {
                        Some(d) => opt_view(d.license),
                        None => None,
                    },
                },
            ),
    {
        let installed = info.installed_size_kb * 1024;
        let mut size = match detailed {
            Some(b) => b,
            None => {
                let mut b = SizeBreakdown::default();
                b.total_footprint = installed;
                b
            },
        };
        if size.total_footprint < installed {
            size.total_footprint = installed;
        }
        let (homepage, license, archive) = match details {
            Some(d) => (d.homepage, d.license, d.archive_size),
            None => (None, None, None),
        };
        match archive {
            Some(a) => {
                size.package_size = a;
            },
            None => {},
        }
        let display_name = match appstream {
            Some(n) => n,
            None => Self::humanize_package_name(info.name.as_str()),
        };
        let mut id = String::new();
        push_str(&mut id, "apt:");
        push_str(&mut id, info.name.as_str());
        assert(id@ =~= "apt:"@ + info.name@);
        new_footprint(
            id,
            display_name,
            PackageSource::Apt,
            info.version,
            info.arch,
            InstallScope::System,
            files,
            configs,
            size,
            None,
            info.summary,
            String::new(),
            homepage,
            license,
        )
    }

    /// The package information for a removal plan, from the first line of
    /// `dpkg-query -W -f '${Package}\t${Version}\t${Installed-Size}\t
    /// ${Description}\n'` split into at most four fields: not found when
    /// nothing was printed, a parse error with fewer than two fields.
    pub fn parse_plan_info(pkg: &str, lines: &Vec<String>) -> (r: Result<DpkgPlanInfo, AdapterError>)
        ensures
            lines@.len() == 0 ==> (r matches Err(AdapterError::AppNotFound(m)) && m@ == pkg@),
            lines@.len() > 0 ==> ({
                let p = splitn(lines@[0]@, 4, "\t"@);
                if p.len() < 2 {
                    r matches Err(AdapterError::Parse(m)) && m@ == "unexpected dpkg format"@
                } else {
                    r matches Ok(info) && info.name@ == p[0] && info.installed_size_kb
                        == nth_u64_or_zero(p, 2)
                }
            }),
    {
        if lines.len() == 0 {
            return Err(AdapterError::AppNotFound(String::from_str(pkg)));
        }
        let c = chars_of(lines[0].as_str());
        let tab = chars_of("\t");
        proof {
            reveal_strlit("\t");
        }
        let p = splitn_exec(&c, 4, &tab);
        if p.len() < 2 {
            return Err(AdapterError::Parse(String::from_str("unexpected dpkg format")));
        }
        Ok(DpkgPlanInfo { name: string_of(&p[0]), installed_size_kb: nth_u64_or_zero_exec(&p, 2) })
    }

    /// The removal plan of an APT package: its files, its declared
    /// configuration files and the installed packages that depend on it;
    /// the space to free is the installed size in bytes.
    pub fn uninstall_plan(
        app_id: &str,
        info: DpkgPlanInfo,
        all_files: Vec<SystemPath>,
        config_files: Vec<SystemPath>,
        rev_deps: Vec<String>,
        options: UninstallOptions,
        backup_root: &str,
        config_sizes: &Vec<u64>,
    ) -> (r: UninstallPlan)
        requires
            info.installed_size_kb <= u64::MAX / 1024,
        ensures
            r.app_id@ == app_id@,
            r.app_name@ == info.name@,
            stages_are(
                r.stages@,
                planned_stages(
                    "Remove APT package '"@ + info.name@ + "' (size: "@ + format_size_spec(
                        (info.installed_size_kb * 1024) as u64,
                    ) + ")"@,
                    string_views(all_files@),
                    string_views(config_files@),
                    options,
                ),
            ),
            warnings_are(r.warnings@, string_views(rev_deps@)),
            r.total_space_to_free == info.installed_size_kb * 1024,
            backup_is(
                r.backup_recommendation,
                options,
                string_views(config_files@),
                backup_root@,
                info.name@,
                config_sizes@,
            ),
    {
        let installed = info.installed_size_kb * 1024;
        let mut description = String::new();
        push_str(&mut description, "Remove APT package '");
        push_str(&mut description, info.name.as_str());
        push_str(&mut description, "' (size: ");
        let size_text = format_size(installed);
        push_str(&mut description, size_text.as_str());
        push_str(&mut description, ")");
        assert(description@ =~= "Remove APT package '"@ + info.name@ + "' (size: "@
            + format_size_spec(installed) + ")"@);
        build_plan(
            app_id,
            info.name,
            description,
            all_files,
            config_files,
            rev_deps,
            options,
            installed,
            backup_root,
            config_sizes,
        )
    }

    /// After `pkexec apt-get remove -y`: done, or fall back to plain
    /// `apt-get remove -y`.
    pub fn after_pkexec(plan: &UninstallPlan, outcome: &PrivilegedOutcome) -> (r: RemovalStep)
        ensures
            match *outcome {
                PrivilegedOutcome::Exited { success, exit_code, stderr } => {
                    if success {
                        r matches RemovalStep::Done(res) && reports_success(res, *plan)
                    } else if exit_code == Some(127i32) {
                        r == RemovalStep::Fallback(FallbackReason::HelperNotFound)
                    } else {
                        r matches RemovalStep::Done(res) && reports_failure(
                            res,
                            *plan,
                            "pkexec apt-get remove failed: "@ + trim(stderr@),
                        )
                    }
                },
                PrivilegedOutcome::NotStarted => r == RemovalStep::Fallback(
                    FallbackReason::HelperNotStarted,
                ),
            },
    {
        after_privileged_removal(plan, outcome, "pkexec apt-get remove failed: ")
    }

    /// After plain `apt-get remove -y`.
    pub fn after_apt_get(plan: &UninstallPlan, success: bool, stderr: &str) -> (r: UninstallResult)
        ensures
            success ==> reports_success(r, *plan),
            !success ==> reports_failure(
                r,
                *plan,
                "apt-get remove failed: "@ + trim(stderr@) + ". Try with sudo."@,
            ),
    {
        after_direct_removal(plan, success, stderr, "apt-get remove failed: ", ". Try with sudo.")
    }
}

} // verus!
