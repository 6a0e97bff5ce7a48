//! What the backend readers give, stated over the text they read: which
//! fields of a line land where, which lines set which details, and which
//! paths fall in which size category.

use vstd::prelude::*;

use crate::adapters::appimage::{
    arch_segment, extract_version_spec, kept_segments, last_version, stem_or_self, version_segment,
};
use crate::adapters::dnf::{rpm_file_entry, rpm_listing_fields, rpm_requirement};
use crate::adapters::dpkg::{
    appstream_name_in, apt_details, archive_sizes, archive_sizes_from, ascii_humanize_word, conffile_of, is_acronym, listed_footprint, listing_entry,
    reverse_dependency, size_lookup,
};
use crate::adapters::fields::{nth_i64, nth_or_empty, nth_u64_or_zero};
use crate::adapters::flatpak::{info_fields, measured, scope_of, shown_size, unit_multiplier};
use crate::adapters::sizes::{
    as_f64, category_total, du_bytes_spec, first_name, format_size_spec, leading_name, path_category, pow1024,
    sum_of, tenths, total_of, unit_index, unit_name, SizeCategory,
};
use crate::adapters::snap::snap_info_fields;
use crate::adapters::uninstall::{backup_is, desktop_entries, planned_stages};
use crate::case::{ascii_lower, ascii_upper, lower_seq};
use crate::clock::utc_timestamp_representable;
use crate::discovery::backend_name;
use crate::models::{
    scope_label, source_label, BackupRecommendation, InstallScope, PackageSource, StageType,
    UninstallOptions,
};
use crate::text::{
    contains, dec, ends_with, eq_ignore_ascii_case, find, is_ws, parse_u64, split, starts_with,
    strip_prefix, trim, trim_end, trim_start, words,
};

verus! {

// ---------------------------------------------------------------------------
// Removal plans
// ---------------------------------------------------------------------------

/// The package files whose path ends in `.desktop`, in order.
pub open spec fn desktop_files(files: Seq<Seq<char>>) -> Seq<Seq<char>> {
    files.filter(|f: Seq<char>| ends_with(f, ".desktop"@))
}

proof fn lemma_desktop_entries_are_desktop_files(files: Seq<Seq<char>>)
    ensures
        desktop_entries(files) == desktop_files(files),
    decreases files.len(),
{
    reveal_with_fuel(Seq::filter, 1);
    if files.len() > 0 {
        lemma_desktop_entries_are_desktop_files(files.drop_last());
        assert(files.drop_last().filter(|f: Seq<char>| ends_with(f, ".desktop"@)) == desktop_files(
            files.drop_last(),
        ));
    }
}

/// A removal plan removes every package file whose path ends in
/// `.desktop`, and nothing else, in a stage of its own: the stage is there
/// exactly when there is such a file, holds all of them in order, says how
/// many, needs no root and can be undone.
pub proof fn lemma_desktop_stage(
    package_description: Seq<char>,
    files: Seq<Seq<char>>,
    configs: Seq<Seq<char>>,
    options: UninstallOptions,
)
    ensures
        desktop_entries(files) == desktop_files(files),
        ({
            let st = planned_stages(package_description, files, configs, options);
            let d = desktop_files(files);
            &&& (exists|i: int|
                0 <= i < st.len() && (#[trigger] st[i]).stage_type
                    == StageType::RemoveDesktopEntries) <==> d.len() > 0
            &&& forall|i: int|
                0 <= i < st.len() && (#[trigger] st[i]).stage_type
                    == StageType::RemoveDesktopEntries ==> {
                    &&& st[i].items == d
                    &&& st[i].description == "Remove "@ + dec(d.len()) + " desktop entries"@
                    &&& !st[i].requires_root
                    &&& st[i].reversible
                }
        }),
{
    lemma_desktop_entries_are_desktop_files(files);
    let st = planned_stages(package_description, files, configs, options);
    let d = desktop_files(files);
    let has_cfg = options.remove_configs && configs.len() > 0;
    assert(st[0].stage_type == StageType::RemovePackage);
    if has_cfg {
        assert(st[1].stage_type == StageType::RemoveConfigs);
    }
    if d.len() > 0 {
        let k = st.len() - 1;
        assert(st[k].stage_type == StageType::RemoveDesktopEntries);
    } else {
        assert(st.len() == 1 + (if has_cfg {
            1int
        } else {
            0
        }));
    }
}

// ---------------------------------------------------------------------------
// dpkg listings and apt-cache details
// ---------------------------------------------------------------------------

/// A line of the dpkg listing
/// (`${Package}\t${Version}\t${Architecture}\t${Installed-Size}\t${Status}\t${Description}`)
/// is read when it is not empty and its status field contains
/// `installed`; the name is the first field, the version the second, the
/// architecture the third, the installed size (KiB) the fourth and the
/// summary the sixth, and the listed footprint carries them.
pub proof fn lemma_dpkg_listing_fields(line: Seq<char>, sizes: Seq<(Seq<char>, u64)>)
    ensures
        ({
            let p = split(line, "\t"@);
            &&& listing_entry(line) is Some <==> (line.len() > 0 && contains(
                nth_or_empty(p, 4),
                "installed"@,
            ))
            &&& listing_entry(line) matches Some(e) ==> {
                &&& e.name == nth_or_empty(p, 0)
                &&& e.version == nth_or_empty(p, 1)
                &&& e.arch == nth_or_empty(p, 2)
                &&& e.installed_size_kb == nth_u64_or_zero(p, 3)
                &&& e.summary == nth_or_empty(p, 5)
                &&& listed_footprint(e, sizes).id == "apt:"@ + nth_or_empty(p, 0)
                &&& listed_footprint(e, sizes).version == nth_or_empty(p, 1)
                &&& listed_footprint(e, sizes).architecture == nth_or_empty(p, 2)
                &&& listed_footprint(e, sizes).summary == nth_or_empty(p, 5)
            }
        }),
{
}

proof fn lemma_strip_prefix_concat(p: Seq<char>, v: Seq<char>)
    ensures
        strip_prefix(p + v, p) == Some(v),
{
    assert((p + v).take(p.len() as int) =~= p);
    assert((p + v).skip(p.len() as int) =~= v);
}

/// What one more line of `apt-cache show` sets, whatever came before: a
/// `License: ` or `Original-License: ` line with a value that is not blank
/// sets the license to the trimmed value, a `Homepage: ` line likewise the
/// homepage, and a `Size: ` line with a number the archive size.
pub proof fn lemma_apt_details_lines(ls: Seq<Seq<char>>, v: Seq<char>)
    ensures
        trim(v).len() > 0 ==> apt_details(ls.push("License: "@ + v)).license == Some(trim(v)),
        trim(v).len() > 0 ==> apt_details(ls.push("Original-License: "@ + v)).license == Some(
            trim(v),
        ),
        trim(v).len() > 0 ==> apt_details(ls.push("Homepage: "@ + v)).homepage == Some(trim(v)),
        parse_u64(trim(v)) is Some ==> apt_details(ls.push("Size: "@ + v)).archive_size
            == parse_u64(trim(v)),
{
    reveal_strlit("License: ");
    reveal_strlit("Original-License: ");
    reveal_strlit("Homepage: ");
    reveal_strlit("Size: ");
    assert(ls.push("License: "@ + v).drop_last() =~= ls);
    assert(ls.push("Original-License: "@ + v).drop_last() =~= ls);
    assert(ls.push("Homepage: "@ + v).drop_last() =~= ls);
    assert(ls.push("Size: "@ + v).drop_last() =~= ls);
    lemma_strip_prefix_concat("License: "@, v);
    lemma_strip_prefix_concat("Original-License: "@, v);
    lemma_strip_prefix_concat("Homepage: "@, v);
    lemma_strip_prefix_concat("Size: "@, v);
    let o = "Original-License: "@ + v;
    assert(o[0] == 'O');
    assert(!starts_with(o, "License: "@)) by {
        if starts_with(o, "License: "@) {
            assert(o.take(9)[0] == 'O');
        }
    }
}

// ---------------------------------------------------------------------------
// AppImage file names
// ---------------------------------------------------------------------------

/// The architecture and platform words dropped from the end of an AppImage
/// name are exactly `x86_64`, `amd64`, `i386`, `i686`, `aarch64`, `arm64`,
/// `armhf`, `x64`, `x86`, `linux`, `linux64`, `linux32` and `AppImage`.
pub proof fn lemma_arch_words(s: Seq<char>)
    ensures
        arch_segment(s) <==> (s == "x86_64"@ || s == "amd64"@ || s == "i386"@ || s == "i686"@
            || s == "aarch64"@ || s == "arm64"@ || s == "armhf"@ || s == "x64"@ || s == "x86"@
            || s == "linux"@ || s == "linux64"@ || s == "linux32"@ || s == "AppImage"@),
{
}

// ---------------------------------------------------------------------------
// Size categories
// ---------------------------------------------------------------------------

proof fn lemma_leading_name(s: Seq<char>, w: Seq<char>)
    requires
        w.len() < s.len(),
        s.take(w.len() as int) == w,
        s[w.len() as int] == '/',
        forall|k: int| 0 <= k < w.len() ==> #[trigger] w[k] != '/',
    ensures
        leading_name(s) == w,
    decreases w.len(),
{
    if w.len() == 0 {
        assert(s[0] == '/');
    } else {
        assert(s[0] == s.take(w.len() as int)[0]);
        assert(s[0] == w[0]);
        let s1 = s.skip(1);
        let w1 = w.skip(1);
        assert(s1.take(w1.len() as int) =~= w1) by {
            assert forall|k: int| 0 <= k < w1.len() implies s1.take(w1.len() as int)[k] == w1[k] by {
                assert(s.take(w.len() as int)[k + 1] == w[k + 1]);
            }
        }
        assert(s1[w1.len() as int] == s[w.len() as int]);
        assert forall|k: int| 0 <= k < w1.len() implies #[trigger] w1[k] != '/' by {
            assert(w1[k] == w[k + 1]);
        }
        lemma_leading_name(s1, w1);
        assert(seq![w[0]] + w1 =~= w);
    }
}

/// The first name of a path starting with `/` + `w` + `/` (with no `/`
/// in `w`) is `w`.
proof fn lemma_first_name(path: Seq<char>, w: Seq<char>)
    requires
        starts_with(path, "/"@ + w + "/"@),
        forall|k: int| 0 <= k < w.len() ==> #[trigger] w[k] != '/',
    ensures
        first_name(path) == w,
{
    reveal_strlit("/");
    let pre = "/"@ + w + "/"@;
    assert(path[0] == pre[0]);
    let s = path.skip(1);
    assert(s.take(w.len() as int) =~= w) by {
        assert forall|k: int| 0 <= k < w.len() implies s.take(w.len() as int)[k] == w[k] by {
            assert(path.take(pre.len() as int)[k + 1] == pre[k + 1]);
        }
    }
    assert(s[w.len() as int] == '/') by {
        assert(path.take(pre.len() as int)[w.len() + 1int] == pre[w.len() + 1int]);
    }
    lemma_leading_name(s, w);
}

proof fn lemma_prefix_extends(path: Seq<char>, a: Seq<char>, b: Seq<char>)
    requires
        starts_with(path, a + b),
    ensures
        starts_with(path, a),
{
    assert((a + b).take(a.len() as int) =~= a);
    assert(path.take(a.len() as int) =~= path.take((a + b).len() as int).take(a.len() as int));
}

/// Where a file's bytes are counted, by the directory it lies in:
/// `/etc/` → configuration; `/var/cache/` → cache; `/usr/share/`,
/// `/usr/local/share/`, `/var/lib/`, `/var/opt/` and `/opt/` → data;
/// `/usr/lib/`, `/usr/lib64/` and `/usr/libexec/` → shared.
pub proof fn lemma_category_of_directory(p: Seq<char>)
    ensures
        starts_with(p, "/etc/"@) ==> path_category(p) == SizeCategory::Config,
        starts_with(p, "/var/cache/"@) ==> path_category(p) == SizeCategory::Cache,
        starts_with(p, "/usr/share/"@) ==> path_category(p) == SizeCategory::Data,
        starts_with(p, "/usr/local/share/"@) ==> path_category(p) == SizeCategory::Data,
        starts_with(p, "/var/lib/"@) ==> path_category(p) == SizeCategory::Data,
        starts_with(p, "/var/opt/"@) ==> path_category(p) == SizeCategory::Data,
        starts_with(p, "/opt/"@) ==> path_category(p) == SizeCategory::Data,
        starts_with(p, "/usr/lib/"@) ==> path_category(p) == SizeCategory::Shared,
        starts_with(p, "/usr/lib64/"@) ==> path_category(p) == SizeCategory::Shared,
        starts_with(p, "/usr/libexec/"@) ==> path_category(p) == SizeCategory::Shared,
{
    reveal_strlit("/");
    reveal_strlit("etc");
    reveal_strlit("var");
    reveal_strlit("usr");
    reveal_strlit("opt");
    reveal_strlit("/etc/");
    reveal_strlit("/var/cache/");
    reveal_strlit("/usr/share/");
    reveal_strlit("/usr/local/share/");
    reveal_strlit("/var/lib/");
    reveal_strlit("/var/opt/");
    reveal_strlit("/opt/");
    reveal_strlit("/usr/lib/");
    reveal_strlit("/usr/lib64/");
    reveal_strlit("/usr/libexec/");
    reveal_strlit("cache/");
    reveal_strlit("lib/");
    reveal_strlit("opt/");
    reveal_strlit("share/");
    reveal_strlit("local/share/");
    reveal_strlit("lib64/");
    reveal_strlit("libexec/");
    assert("/etc/"@ =~= "/"@ + "etc"@ + "/"@);
    assert("/opt/"@ =~= "/"@ + "opt"@ + "/"@);
    if starts_with(p, "/etc/"@) {
        lemma_first_name(p, "etc"@);
    }
    if starts_with(p, "/opt/"@) {
        lemma_first_name(p, "opt"@);
        assert("opt"@[0] != "etc"@[0] && "opt"@[0] != "var"@[0] && "opt"@[0] != "usr"@[0]);
        assert(first_name(p) != "etc"@ && first_name(p) != "var"@ && first_name(p) != "usr"@);
    }
    if starts_with(p, "/var/cache/"@) {
        assert("/var/cache/"@ =~= ("/"@ + "var"@ + "/"@) + "cache/"@);
        lemma_prefix_extends(p, "/"@ + "var"@ + "/"@, "cache/"@);
        lemma_first_name(p, "var"@);
        assert("var"@[0] != "etc"@[0]);
        assert(first_name(p) != "etc"@);
    }
    if starts_with(p, "/var/lib/"@) {
        assert("/var/lib/"@ =~= ("/"@ + "var"@ + "/"@) + "lib/"@);
        lemma_prefix_extends(p, "/"@ + "var"@ + "/"@, "lib/"@);
        lemma_first_name(p, "var"@);
        assert("var"@[0] != "etc"@[0]);
        assert(first_name(p) != "etc"@);
        assert(!starts_with(p, "/var/cache/"@)) by {
            if starts_with(p, "/var/cache/"@) {
                assert(p.take(9)[5] == "/var/lib/"@[5]);
                assert(p.take(11)[5] == "/var/cache/"@[5]);
            }
        }
    }
    if starts_with(p, "/var/opt/"@) {
        assert("/var/opt/"@ =~= ("/"@ + "var"@ + "/"@) + "opt/"@);
        lemma_prefix_extends(p, "/"@ + "var"@ + "/"@, "opt/"@);
        lemma_first_name(p, "var"@);
        assert("var"@[0] != "etc"@[0]);
        assert(first_name(p) != "etc"@);
        assert(!starts_with(p, "/var/cache/"@)) by {
            if starts_with(p, "/var/cache/"@) {
                assert(p.take(9)[5] == "/var/opt/"@[5]);
                assert(p.take(11)[5] == "/var/cache/"@[5]);
            }
        }
    }
    if starts_with(p, "/usr/share/"@) {
        assert("/usr/share/"@ =~= ("/"@ + "usr"@ + "/"@) + "share/"@);
        lemma_prefix_extends(p, "/"@ + "usr"@ + "/"@, "share/"@);
        lemma_first_name(p, "usr"@);
        assert("usr"@[0] != "etc"@[0] && "usr"@[0] != "var"@[0] && "usr"@[0] != "opt"@[0]);
        assert(first_name(p) != "etc"@ && first_name(p) != "var"@ && first_name(p) != "opt"@);
    }
    if starts_with(p, "/usr/local/share/"@) {
        assert("/usr/local/share/"@ =~= ("/"@ + "usr"@ + "/"@) + "local/share/"@);
        lemma_prefix_extends(p, "/"@ + "usr"@ + "/"@, "local/share/"@);
        lemma_first_name(p, "usr"@);
        assert("usr"@[0] != "etc"@[0] && "usr"@[0] != "var"@[0] && "usr"@[0] != "opt"@[0]);
        assert(first_name(p) != "etc"@ && first_name(p) != "var"@ && first_name(p) != "opt"@);
    }
    if starts_with(p, "/usr/lib/"@) {
        assert("/usr/lib/"@ =~= ("/"@ + "usr"@ + "/"@) + "lib/"@);
        lemma_prefix_extends(p, "/"@ + "usr"@ + "/"@, "lib/"@);
        lemma_first_name(p, "usr"@);
        assert("usr"@[0] != "etc"@[0] && "usr"@[0] != "var"@[0] && "usr"@[0] != "opt"@[0]);
        assert(first_name(p) != "etc"@ && first_name(p) != "var"@ && first_name(p) != "opt"@);
        // Not under the data directories, which come first.
        assert(!starts_with(p, "/usr/share/"@)) by {
            if starts_with(p, "/usr/share/"@) {
                assert(p.take(9)[5] == "/usr/lib/"@[5]);
                assert(p.take(11)[5] == "/usr/share/"@[5]);
            }
        }
        assert(!starts_with(p, "/usr/local/share/"@)) by {
            if starts_with(p, "/usr/local/share/"@) {
                assert(p.take(9)[6] == "/usr/lib/"@[6]);
                assert(p.take(17)[6] == "/usr/local/share/"@[6]);
            }
        }
    }
    if starts_with(p, "/usr/lib64/"@) {
        assert("/usr/lib64/"@ =~= ("/"@ + "usr"@ + "/"@) + "lib64/"@);
        lemma_prefix_extends(p, "/"@ + "usr"@ + "/"@, "lib64/"@);
        lemma_first_name(p, "usr"@);
        assert("usr"@[0] != "etc"@[0] && "usr"@[0] != "var"@[0] && "usr"@[0] != "opt"@[0]);
        assert(first_name(p) != "etc"@ && first_name(p) != "var"@ && first_name(p) != "opt"@);
        assert(!starts_with(p, "/usr/share/"@)) by {
            if starts_with(p, "/usr/share/"@) {
                assert(p.take(11)[5] == "/usr/lib64/"@[5]);
                assert(p.take(11)[5] == "/usr/share/"@[5]);
            }
        }
        assert(!starts_with(p, "/usr/local/share/"@)) by {
            if starts_with(p, "/usr/local/share/"@) {
                assert(p.take(11)[6] == "/usr/lib64/"@[6]);
                assert(p.take(17)[6] == "/usr/local/share/"@[6]);
            }
        }
    }
    if starts_with(p, "/usr/libexec/"@) {
        assert("/usr/libexec/"@ =~= ("/"@ + "usr"@ + "/"@) + "libexec/"@);
        lemma_prefix_extends(p, "/"@ + "usr"@ + "/"@, "libexec/"@);
        lemma_first_name(p, "usr"@);
        assert("usr"@[0] != "etc"@[0] && "usr"@[0] != "var"@[0] && "usr"@[0] != "opt"@[0]);
        assert(first_name(p) != "etc"@ && first_name(p) != "var"@ && first_name(p) != "opt"@);
        assert(!starts_with(p, "/usr/share/"@)) by {
            if starts_with(p, "/usr/share/"@) {
                assert(p.take(13)[5] == "/usr/libexec/"@[5]);
                assert(p.take(11)[5] == "/usr/share/"@[5]);
            }
        }
        assert(!starts_with(p, "/usr/local/share/"@)) by {
            if starts_with(p, "/usr/local/share/"@) {
                assert(p.take(13)[6] == "/usr/libexec/"@[6]);
                assert(p.take(17)[6] == "/usr/local/share/"@[6]);
            }
        }
    }
}

// ---------------------------------------------------------------------------
// Small facts about text
// ---------------------------------------------------------------------------

/// Text that starts with another character than `p` does not start with
/// `p`.
proof fn lemma_first_char_differs(s: Seq<char>, p: Seq<char>)
    requires
        s.len() > 0,
        p.len() > 0,
        s[0] != p[0],
    ensures
        !starts_with(s, p),
{
    if starts_with(s, p) {
        assert(s.take(p.len() as int)[0] == s[0]);
    }
}

proof fn lemma_ends_with_concat(x: Seq<char>, p: Seq<char>)
    ensures
        ends_with(x + p, p),
{
    assert((x + p).skip((x + p).len() - p.len()) =~= p);
}

proof fn lemma_trim_end_keeps_first(s: Seq<char>)
    requires
        s.len() > 0,
        !is_ws(s[0]),
    ensures
        trim_end(s).len() > 0,
        trim_end(s)[0] == s[0],
    decreases s.len(),
{
    if is_ws(s.last()) {
        assert(s.len() > 1);
        assert(s.drop_last()[0] == s[0]);
        lemma_trim_end_keeps_first(s.drop_last());
    }
}

/// A line whose first character is not blank keeps that first character
/// once trimmed.
proof fn lemma_trim_keeps_first(s: Seq<char>)
    requires
        s.len() > 0,
        !is_ws(s[0]),
    ensures
        trim(s).len() > 0,
        trim(s)[0] == s[0],
{
    assert(trim_start(s) == s);
    lemma_trim_end_keeps_first(s);
}

// ---------------------------------------------------------------------------
// rpm
// ---------------------------------------------------------------------------

/// A line of `rpm -qa` (`NAME\tVERSION-RELEASE\tARCH\tSIZE\tARCHIVESIZE\t
/// INSTALLTIME\tSUMMARY`) gives a footprint unless empty: the id is `rpm:`
/// and the name (first field), then the version (second), the architecture
/// (third), the installed size as the total (fourth), the archive size as
/// the package size (fifth), the installation time (sixth, when chrono can
/// hold it) and the summary (seventh).  A line of the file listing gives
/// the path (first field) and the size (second); a requirement is kept
/// unless empty, an `rpmlib(` capability or a shared-library capability,
/// and is named by its first word.
pub proof fn lemma_rpm_lines(line: Seq<char>)
    ensures
        ({
            let p = split(line, "\t"@);
            &&& line.len() == 0 ==> rpm_listing_fields(line) is None
            &&& line.len() > 0 ==> (rpm_listing_fields(line) matches Some(f) && {
                &&& f.id == "rpm:"@ + nth_or_empty(p, 0)
                &&& f.display_name == nth_or_empty(p, 0)
                &&& f.source == PackageSource::Rpm
                &&& f.version == nth_or_empty(p, 1)
                &&& f.architecture == nth_or_empty(p, 2)
                &&& f.size_bytes.total_footprint == nth_u64_or_zero(p, 3)
                &&& f.size_bytes.package_size == nth_u64_or_zero(p, 4)
                &&& f.installed_at == (match nth_i64(p, 5) {
                    Some(t) => if utc_timestamp_representable(t) {
                        Some(t)
                    } else {
                        None
                    },
                    None => None,
                })
                &&& f.summary == nth_or_empty(p, 6)
            })
            &&& rpm_file_entry(line) == (if line.len() == 0 {
                None
            } else {
                Some((nth_or_empty(p, 0), nth_u64_or_zero(p, 1)))
            })
            &&& rpm_requirement(line) is Some <==> (line.len() > 0 && !starts_with(
                line,
                "rpmlib("@,
            ) && !contains(line, ".so("@))
            &&& rpm_requirement(line) matches Some(n) ==> n == (if words(line).len() > 0 {
                words(line)[0]
            } else {
                line
            })
        }),
{
}

// ---------------------------------------------------------------------------
// snap
// ---------------------------------------------------------------------------

/// What one more line of `snap info` sets, whatever came before:
/// `version:`, `summary:` and `description:` set those fields to the
/// trimmed value; `license:` sets the license unless blank or `unset`;
/// `contact:` sets the homepage unless blank.
pub proof fn lemma_snap_info_lines(ls: Seq<Seq<char>>, v: Seq<char>)
    ensures
        snap_info_fields(ls.push("version:"@ + v)).version == trim(v),
        snap_info_fields(ls.push("summary:"@ + v)).summary == trim(v),
        snap_info_fields(ls.push("description:"@ + v)).description == trim(v),
        trim(v).len() > 0 && trim(v) != "unset"@ ==> snap_info_fields(
            ls.push("license:"@ + v),
        ).license == Some(trim(v)),
        trim(v).len() > 0 ==> snap_info_fields(ls.push("contact:"@ + v)).homepage == Some(
            trim(v),
        ),
{
    reveal_strlit("name:");
    reveal_strlit("version:");
    reveal_strlit("summary:");
    reveal_strlit("description:");
    reveal_strlit("license:");
    reveal_strlit("contact:");
    let lv = "version:"@ + v;
    let ls_ = "summary:"@ + v;
    let ld = "description:"@ + v;
    let ll = "license:"@ + v;
    let lc = "contact:"@ + v;
    assert(ls.push(lv).drop_last() =~= ls);
    assert(ls.push(ls_).drop_last() =~= ls);
    assert(ls.push(ld).drop_last() =~= ls);
    assert(ls.push(ll).drop_last() =~= ls);
    assert(ls.push(lc).drop_last() =~= ls);
    lemma_strip_prefix_concat("version:"@, v);
    lemma_strip_prefix_concat("summary:"@, v);
    lemma_strip_prefix_concat("description:"@, v);
    lemma_strip_prefix_concat("license:"@, v);
    lemma_strip_prefix_concat("contact:"@, v);
    assert(lv.skip(8) =~= v);
    assert(ls_.skip(8) =~= v);
    assert(ld.skip(12) =~= v);
    assert(ll.skip(8) =~= v);
    assert(lc.skip(8) =~= v);
    assert(lv[0] == 'v' && ls_[0] == 's' && ld[0] == 'd' && ll[0] == 'l' && lc[0] == 'c');
    lemma_first_char_differs(lv, "name:"@);
    lemma_first_char_differs(ls_, "name:"@);
    lemma_first_char_differs(ls_, "version:"@);
    lemma_first_char_differs(ld, "name:"@);
    lemma_first_char_differs(ld, "version:"@);
    lemma_first_char_differs(ld, "summary:"@);
    lemma_first_char_differs(ll, "name:"@);
    lemma_first_char_differs(ll, "version:"@);
    lemma_first_char_differs(ll, "summary:"@);
    lemma_first_char_differs(ll, "description:"@);
    lemma_first_char_differs(lc, "name:"@);
    lemma_first_char_differs(lc, "version:"@);
    lemma_first_char_differs(lc, "summary:"@);
    lemma_first_char_differs(lc, "description:"@);
    lemma_first_char_differs(lc, "license:"@);
}

// ---------------------------------------------------------------------------
// Flatpak
// ---------------------------------------------------------------------------

/// What one more line of `flatpak info` sets.  A line `ID:...` opens the
/// table.  Inside the table, `Version:` and `Arch:` set those fields to the
/// trimmed value, and `License:` sets the license unless blank.  Before
/// the table, a line `"<Name> - <Summary>"` names the application and gives
/// its summary (both trimmed), and any other non-blank line names it.
pub proof fn lemma_flatpak_info_lines(id: Seq<char>, ls: Seq<Seq<char>>, v: Seq<char>, l: Seq<char>)
    ensures
        info_fields(id, ls.push("ID:"@ + v)).inside_table,
        info_fields(id, ls).inside_table ==> info_fields(id, ls.push("Version:"@ + v)).version
            == trim(v),
        info_fields(id, ls).inside_table ==> info_fields(id, ls.push("Arch:"@ + v)).arch == trim(
            v,
        ),
        info_fields(id, ls).inside_table && trim(v).len() > 0 ==> info_fields(
            id,
            ls.push("License:"@ + v),
        ).license == Some(trim(v)),
        !info_fields(id, ls).inside_table && trim(l).len() > 0 && !starts_with(trim(l), "ID:"@)
            ==> (match find(l, " - "@) {
            Some(pos) => {
                &&& info_fields(id, ls.push(l)).display_name == trim(l.take(pos))
                &&& info_fields(id, ls.push(l)).summary == trim(l.skip(pos + 3))
            },
            None => info_fields(id, ls.push(l)).display_name == trim(l),
        }),
{
    reveal_strlit("ID:");
    reveal_strlit("Version:");
    reveal_strlit("Arch:");
    reveal_strlit("License:");
    let li = "ID:"@ + v;
    let lv = "Version:"@ + v;
    let la = "Arch:"@ + v;
    let ll = "License:"@ + v;
    assert(ls.push(li).drop_last() =~= ls);
    assert(ls.push(lv).drop_last() =~= ls);
    assert(ls.push(la).drop_last() =~= ls);
    assert(ls.push(ll).drop_last() =~= ls);
    assert(ls.push(l).drop_last() =~= ls);
    assert(li[0] == 'I' && lv[0] == 'V' && la[0] == 'A' && ll[0] == 'L');
    lemma_trim_keeps_first(li);
    lemma_trim_keeps_first(lv);
    lemma_trim_keeps_first(la);
    lemma_trim_keeps_first(ll);
    assert(li[1] == 'D' && li[2] == ':');
    assert(trim_start(li) == li);
    assert forall|k: int| 0 <= k < 3 implies !is_ws(#[trigger] li[k]) by {
        assert(li[k] == "ID:"@[k]);
    }
    lemma_trim_end_prefix(li, 3);
    assert(li.take(3) =~= "ID:"@);
    assert(trim(li) == trim_end(li));
    assert(starts_with(trim(li), "ID:"@));
    lemma_first_char_differs(trim(lv), "ID:"@);
    lemma_first_char_differs(trim(la), "ID:"@);
    lemma_first_char_differs(trim(ll), "ID:"@);
    lemma_strip_prefix_concat("Version:"@, v);
    lemma_strip_prefix_concat("Arch:"@, v);
    lemma_strip_prefix_concat("License:"@, v);
    lemma_first_char_differs(la, "Version:"@);
    lemma_first_char_differs(ll, "Version:"@);
    lemma_first_char_differs(ll, "Arch:"@);
}

/// Trimming the end of a text that starts with `n` characters none of
/// them blank keeps those `n` characters.
proof fn lemma_trim_end_prefix(s: Seq<char>, n: int)
    requires
        0 <= n <= s.len(),
        forall|k: int| 0 <= k < n ==> !is_ws(#[trigger] s[k]),
    ensures
        n <= trim_end(s).len(),
        trim_end(s).take(n) == s.take(n),
    decreases s.len(),
{
    if s.len() > 0 && is_ws(s.last()) {
        assert(n < s.len());
        lemma_trim_end_prefix(s.drop_last(), n);
        assert(s.drop_last().take(n) =~= s.take(n));
    }
}

/// The factor of each unit Flatpak prints sizes in: `B` 1, `kB` and `KB`
/// 1000, `MB` 10^6, `GB` 10^9, `TB` 10^12, any other 1; and the
/// installation `user` is the user's scope, any other the system's.
pub proof fn lemma_flatpak_units(u: Seq<char>)
    ensures
        unit_multiplier("B"@) == 1,
        unit_multiplier("kB"@) == 1000,
        unit_multiplier("KB"@) == 1000,
        unit_multiplier("MB"@) == 1_000_000,
        unit_multiplier("GB"@) == 1_000_000_000,
        unit_multiplier("TB"@) == 1_000_000_000_000,
        !(u == "B"@ || u == "kB"@ || u == "KB"@ || u == "MB"@ || u == "GB"@ || u == "TB"@)
            ==> unit_multiplier(u) == 1,
        scope_of("user"@) == InstallScope::User,
        u != "user"@ ==> scope_of(u) == InstallScope::System,
{
    reveal_strlit("B");
    reveal_strlit("kB");
    reveal_strlit("KB");
    reveal_strlit("MB");
    reveal_strlit("GB");
    reveal_strlit("TB");
    assert("kB"@[0] != "KB"@[0]);
    assert("KB"@[0] != "MB"@[0] && "KB"@[0] != "GB"@[0] && "KB"@[0] != "TB"@[0]);
    assert("MB"@[0] != "GB"@[0] && "MB"@[0] != "TB"@[0] && "GB"@[0] != "TB"@[0]);
    assert("B"@.len() == 1 && "kB"@.len() == 2);
}

// ---------------------------------------------------------------------------
// dpkg and apt-cache, continued
// ---------------------------------------------------------------------------

/// A configuration file of `${Conffiles}` is the first word of its line;
/// a reverse dependency is a trimmed line that is not blank, not the
/// package itself and not the `Reverse Depends:` header in any case; the
/// `appstreamcli` name is the first non-blank `Nombre: ` value; an
/// archive size recorded later for a package replaces an earlier one.
pub proof fn lemma_dpkg_lines(
    line: Seq<char>,
    pkg: Seq<char>,
    v: Seq<char>,
    rest: Seq<Seq<char>>,
    sizes: Seq<(Seq<char>, u64)>,
    name: Seq<char>,
    other: Seq<char>,
    size: u64,
)
    ensures
        conffile_of(line) == (if words(line).len() > 0 {
            Some(words(line)[0])
        } else {
            None
        }),
        reverse_dependency(line, pkg) is Some <==> (trim(line).len() > 0 && trim(line) != pkg
            && !eq_ignore_ascii_case(trim(line), "Reverse Depends:"@)),
        reverse_dependency(line, pkg) matches Some(d) ==> d == trim(line),
        trim(v).len() > 0 ==> appstream_name_in(seq!["Nombre: "@ + v] + rest) == Some(trim(v)),
        size_lookup(sizes.push((name, size)), name) == Some(size),
        other != name ==> size_lookup(sizes.push((other, size)), name) == size_lookup(sizes, name),
{
    reveal_strlit("Nombre: ");
    lemma_strip_prefix_concat("Nombre: "@, v);
    assert((seq!["Nombre: "@ + v] + rest)[0] == "Nombre: "@ + v);
    assert(sizes.push((name, size)).drop_last() =~= sizes);
    assert(sizes.push((other, size)).drop_last() =~= sizes);
    if words(line).len() > 0 {
        assert(line.len() > 0);
    }
}

/// The acronyms written in capitals in names for people are exactly 3d,
/// api, cli, cpu, dbus, diy, dns, esr, gui, gpu, http, https, json, jwt,
/// lts, nvme, pdf, php, png, rest, rpc, sdk, sql, ssh, ssl, tls, ui, uri,
/// url, usb, utf, vpn, xml and yaml.
pub proof fn lemma_acronyms(w: Seq<char>)
    ensures
        is_acronym(w) <==> (w == "3d"@ || w == "api"@ || w == "cli"@ || w == "cpu"@ || w
            == "dbus"@ || w == "diy"@ || w == "dns"@ || w == "esr"@ || w == "gui"@ || w == "gpu"@
            || w == "http"@ || w == "https"@ || w == "json"@ || w == "jwt"@ || w == "lts"@ || w
            == "nvme"@ || w == "pdf"@ || w == "php"@ || w == "png"@ || w == "rest"@ || w
            == "rpc"@ || w == "sdk"@ || w == "sql"@ || w == "ssh"@ || w == "ssl"@ || w == "tls"@
            || w == "ui"@ || w == "uri"@ || w == "url"@ || w == "usb"@ || w == "utf"@ || w
            == "vpn"@ || w == "xml"@ || w == "yaml"@),
{
}

// ---------------------------------------------------------------------------
// Names, labels and measures
// ---------------------------------------------------------------------------

/// Each source is stored as `apt`, `rpm`, `flatpak`, `snap`, `loose` or
/// `unknown`, each scope as `system` or `user`; each source is listed by
/// the backend `dpkg`, `rpm`, `flatpak`, `snap` or `appimage`, and the
/// unknown source by none.
pub proof fn lemma_source_names()
    ensures
        source_label(PackageSource::Apt) == "apt"@,
        source_label(PackageSource::Rpm) == "rpm"@,
        source_label(PackageSource::Flatpak) == "flatpak"@,
        source_label(PackageSource::Snap) == "snap"@,
        source_label(PackageSource::Loose) == "loose"@,
        source_label(PackageSource::Unknown) == "unknown"@,
        scope_label(InstallScope::System) == "system"@,
        scope_label(InstallScope::User) == "user"@,
        backend_name(PackageSource::Apt) == Some("dpkg"@),
        backend_name(PackageSource::Rpm) == Some("rpm"@),
        backend_name(PackageSource::Flatpak) == Some("flatpak"@),
        backend_name(PackageSource::Snap) == Some("snap"@),
        backend_name(PackageSource::Loose) == Some("appimage"@),
        backend_name(PackageSource::Unknown) is None,
{
}

/// The size `du -sb` reports is the number in the first word of its
/// output when it succeeded; 0 otherwise.
pub proof fn lemma_du_output(success: bool, out: Seq<char>)
    ensures
        du_bytes_spec(success, out) == (if success && words(out).len() > 0 && parse_u64(
            words(out)[0],
        ) is Some {
            parse_u64(words(out)[0]).unwrap()
        } else {
            0
        }),
{
}

/// A byte count is printed in the unit its value (as an `f64`) reaches:
/// bytes below 1024, `KB` below 1024^2, `MB` below 1024^3, `GB` below
/// 1024^4, `TB` from there on.
pub proof fn lemma_format_size_unit(bytes: u64)
    ensures
        as_f64(bytes as nat) < 1024 ==> ends_with(format_size_spec(bytes), " B"@),
        1024 <= as_f64(bytes as nat) < 1_048_576 ==> ends_with(format_size_spec(bytes), " KB"@),
        1_048_576 <= as_f64(bytes as nat) < 1_073_741_824 ==> ends_with(
            format_size_spec(bytes),
            " MB"@,
        ),
        1_073_741_824 <= as_f64(bytes as nat) < 1_099_511_627_776 ==> ends_with(
            format_size_spec(bytes),
            " GB"@,
        ),
        1_099_511_627_776 <= as_f64(bytes as nat) ==> ends_with(format_size_spec(bytes), " TB"@),
{
    reveal_with_fuel(pow1024, 5);
    reveal_strlit(" ");
    reveal_strlit(" B");
    reveal_strlit(" KB");
    reveal_strlit(" MB");
    reveal_strlit(" GB");
    reveal_strlit(" TB");
    reveal_strlit("B");
    reveal_strlit("KB");
    reveal_strlit("MB");
    reveal_strlit("GB");
    reveal_strlit("TB");
    let x = as_f64(bytes as nat);
    let i = unit_index(x);
    if i == 0 {
        lemma_ends_with_concat(dec(bytes as nat), " B"@);
    } else {
        let t = tenths(x, i);
        let head = dec(t / 10) + "."@ + dec(t % 10);
        assert(format_size_spec(bytes) =~= head + (" "@ + unit_name(i)));
        lemma_ends_with_concat(head, " "@ + unit_name(i));
        assert(" "@ + "KB"@ =~= " KB"@);
        assert(" "@ + "MB"@ =~= " MB"@);
        assert(" "@ + "GB"@ =~= " GB"@);
        assert(" "@ + "TB"@ =~= " TB"@);
    }
}

// ---------------------------------------------------------------------------
// Removal plans, continued
// ---------------------------------------------------------------------------

/// A removal plan removes the declared configuration files in a stage of
/// their own exactly when asked to and there are some: it holds them all,
/// says how many, needs root and can be undone.  The backup it recommends,
/// when one is asked for and there are configuration files, lies under the
/// backup directory in a folder named after the package and is estimated
/// at the configuration files' total size (at most `u64::MAX`).
pub proof fn lemma_config_stage_and_backup(
    package_description: Seq<char>,
    files: Seq<Seq<char>>,
    configs: Seq<Seq<char>>,
    options: UninstallOptions,
    b: Option<BackupRecommendation>,
    root: Seq<char>,
    name: Seq<char>,
    config_sizes: Seq<u64>,
)
    ensures
        ({
            let st = planned_stages(package_description, files, configs, options);
            &&& (exists|i: int|
                0 <= i < st.len() && (#[trigger] st[i]).stage_type == StageType::RemoveConfigs)
                <==> (options.remove_configs && configs.len() > 0)
            &&& forall|i: int|
                0 <= i < st.len() && (#[trigger] st[i]).stage_type == StageType::RemoveConfigs
                    ==> {
                    &&& st[i].items == configs
                    &&& st[i].description == "Remove "@ + dec(configs.len()) + " config files"@
                    &&& st[i].requires_root
                    &&& st[i].reversible
                }
        }),
        backup_is(b, options, configs, root, name, config_sizes) ==> (if options.create_backup
            && configs.len() > 0 {
            b matches Some(r) && r.path@ == root + "/"@ + name && r.estimated_size == (if sum_of(
                config_sizes,
            ) > u64::MAX {
                u64::MAX as nat
            } else {
                sum_of(config_sizes)
            })
        } else {
            b is None
        }),
{
    let st = planned_stages(package_description, files, configs, options);
    let has_cfg = options.remove_configs && configs.len() > 0;
    let d = desktop_entries(files);
    assert(st[0].stage_type == StageType::RemovePackage);
    if has_cfg {
        assert(st[1].stage_type == StageType::RemoveConfigs);
    }
    if d.len() > 0 {
        assert(st[st.len() - 1].stage_type == StageType::RemoveDesktopEntries);
    }
}

// ---------------------------------------------------------------------------
// AppImage versions and names
// ---------------------------------------------------------------------------

proof fn lemma_last_version_is_last(segs: Seq<Seq<char>>)
    ensures
        match last_version(segs) {
            Some(v) => exists|i: int|
                0 <= i < segs.len() && v == trim(#[trigger] segs[i]) && version_segment(v)
                    && forall|j: int| i < j < segs.len() ==> !version_segment(trim(#[trigger] segs[j])),
            None => forall|j: int| 0 <= j < segs.len() ==> !version_segment(trim(#[trigger] segs[j])),
        },
    decreases segs.len(),
{
    if segs.len() > 0 {
        let n = segs.len() - 1;
        if version_segment(trim(segs.last())) {
            assert(segs[n] == segs.last());
        } else {
            lemma_last_version_is_last(segs.drop_last());
            match last_version(segs.drop_last()) {
                Some(v) => {
                    let i = choose|i: int|
                        0 <= i < segs.drop_last().len() && v == trim(#[trigger] segs.drop_last()[i])
                            && version_segment(v) && forall|j: int|
                            i < j < segs.drop_last().len() ==> !version_segment(
                                trim(#[trigger] segs.drop_last()[j]),
                            );
                    assert(segs[i] == segs.drop_last()[i]);
                    assert forall|j: int| i < j < segs.len() implies !version_segment(
                        trim(#[trigger] segs[j]),
                    ) by {
                        if j < n {
                            assert(segs[j] == segs.drop_last()[j]);
                        }
                    }
                },
                None => {
                    assert forall|j: int| 0 <= j < segs.len() implies !version_segment(
                        trim(#[trigger] segs[j]),
                    ) by {
                        if j < n {
                            assert(segs[j] == segs.drop_last()[j]);
                        }
                    }
                },
            }
        }
    }
}

/// The version of an AppImage file name is the last dash-separated segment
/// of its stem that, trimmed, is a version (a digit, then digits and dots
/// with at least one dot), or empty when there is none.
pub proof fn lemma_version_is_last_version_segment(filename: Seq<char>)
    ensures
        ({
            let segs = split(stem_or_self(filename), "-"@);
            let v = extract_version_spec(filename);
            &&& v.len() > 0 ==> exists|i: int|
                0 <= i < segs.len() && v == trim(#[trigger] segs[i]) && forall|j: int|
                    i < j < segs.len() ==> !version_segment(trim(#[trigger] segs[j]))
            &&& v.len() == 0 ==> forall|j: int|
                0 <= j < segs.len() ==> !version_segment(trim(#[trigger] segs[j]))
        }),
        forall|s: Seq<char>|
            version_segment(s) <==> (s.len() > 0 && '0' <= s[0] <= '9' && contains(s, "."@)
                && forall|k: int| 0 <= k < s.len() ==> ('0' <= #[trigger] s[k] <= '9' || s[k]
                == '.')),
{
    let segs = split(stem_or_self(filename), "-"@);
    assert forall|s: Seq<char>|
        version_segment(s) <==> (s.len() > 0 && '0' <= s[0] <= '9' && contains(s, "."@)
            && forall|k: int| 0 <= k < s.len() ==> ('0' <= #[trigger] s[k] <= '9' || s[k]
            == '.')) by {
        if version_segment(s) {
            assert forall|k: int| 0 <= k < s.len() implies ('0' <= #[trigger] s[k] <= '9' || s[k]
                == '.') by {
                assert(crate::adapters::appimage::is_version_char(s[k]));
            }
        }
        if s.len() > 0 && '0' <= s[0] <= '9' && contains(s, "."@) && forall|k: int|
            0 <= k < s.len() ==> ('0' <= #[trigger] s[k] <= '9' || s[k] == '.') {
            assert forall|k: int| 0 <= k < s.len() implies #[trigger]
                crate::adapters::appimage::is_version_char(s[k]) by {
                assert('0' <= s[k] <= '9' || s[k] == '.');
            }
        }
    }
    lemma_last_version_is_last(segs);
    match last_version(segs) {
        Some(v) => {
            assert(version_segment(v));
        },
        None => {},
    }
}

/// The name kept from an AppImage file name is what remains once every
/// trailing segment that, trimmed, is a version or an architecture word is
/// dropped, keeping at least the first: everything after the kept segments
/// is such a segment, and the last kept one is not (unless it is the
/// first).
pub proof fn lemma_kept_segments(segs: Seq<Seq<char>>)
    requires
        segs.len() >= 1,
    ensures
        ({
            let k = kept_segments(segs, segs.len() as int);
            &&& 1 <= k <= segs.len()
            &&& forall|j: int|
                k <= j < segs.len() ==> arch_segment(trim(#[trigger] segs[j])) || version_segment(
                    trim(segs[j]),
                )
            &&& k > 1 ==> !(arch_segment(trim(segs[k - 1])) || version_segment(trim(segs[k - 1])))
        }),
{
    lemma_kept_segments_from(segs, segs.len() as int);
}

proof fn lemma_kept_segments_from(segs: Seq<Seq<char>>, end: int)
    requires
        1 <= end <= segs.len(),
    ensures
        ({
            let k = kept_segments(segs, end);
            &&& 1 <= k <= end
            &&& forall|j: int|
                k <= j < end ==> arch_segment(trim(#[trigger] segs[j])) || version_segment(
                    trim(segs[j]),
                )
            &&& k > 1 ==> !(arch_segment(trim(segs[k - 1])) || version_segment(trim(segs[k - 1])))
        }),
    decreases end,
{
    if end > 1 && (arch_segment(trim(segs[end - 1])) || version_segment(trim(segs[end - 1]))) {
        lemma_kept_segments_from(segs, end - 1);
    }
}

// ---------------------------------------------------------------------------
// Sums, sizes shown and words for people
// ---------------------------------------------------------------------------

/// Adding a file adds its size to the total and to its own category's
/// total, and nothing to the other categories; adding a size adds it to a
/// sum.
pub proof fn lemma_totals_grow(
    files: Seq<(Seq<char>, u64)>,
    path: Seq<char>,
    n: u64,
    cat: SizeCategory,
    sizes: Seq<u64>,
)
    ensures
        total_of(files.push((path, n))) == total_of(files) + n,
        category_total(files.push((path, n)), cat) == category_total(files, cat) + (if path_category(
            path,
        ) == cat {
            n as nat
        } else {
            0nat
        }),
        sum_of(sizes.push(n)) == sum_of(sizes) + n,
{
    assert(files.push((path, n)).drop_last() =~= files);
    assert(sizes.push(n).drop_last() =~= sizes);
}

/// A size Flatpak lists or shows is used as both the archive and the total
/// size when positive; `flatpak info --show-size` gives the number on its
/// first line, trimmed, or 0.
pub proof fn lemma_flatpak_sizes(size: u64, ls: Seq<Seq<char>>)
    ensures
        size > 0 ==> (measured(size) matches Some(b) && b.total_footprint == size
            && b.package_size == size && b.config_size == 0 && b.cache_size == 0 && b.data_size
            == 0 && b.shared_size == 0),
        size == 0 ==> measured(size) is None,
        shown_size(Some(ls)) == (if ls.len() > 0 && parse_u64(trim(ls[0])) is Some {
            parse_u64(trim(ls[0])).unwrap()
        } else {
            0
        }),
        shown_size(None) == 0,
{
}

/// A `Package: ` line followed by a `Size: ` line with a number records
/// that size for the (trimmed) package name.
pub proof fn lemma_apt_cache_size(n: Seq<char>, v: Seq<char>)
    requires
        parse_u64(trim(v)) is Some,
    ensures
        archive_sizes(seq!["Package: "@ + n, "Size: "@ + v]) == seq![
            (trim(n), parse_u64(trim(v)).unwrap()),
        ],
{
    reveal_strlit("Package: ");
    reveal_strlit("Size: ");
    lemma_strip_prefix_concat("Package: "@, n);
    lemma_strip_prefix_concat("Size: "@, v);
    let lines = seq!["Package: "@ + n, "Size: "@ + v];
    let sz = "Size: "@ + v;
    assert(sz[0] == 'S');
    lemma_first_char_differs(sz, "Package: "@);
    assert(lines.drop_first() =~= seq![sz]);
    assert(seq![sz].drop_first() =~= Seq::<Seq<char>>::empty());
    assert(seq![sz][0] == sz);
    let x = parse_u64(trim(v)).unwrap();
    assert(lines[0] == "Package: "@ + n);
    let e = Seq::<Seq<char>>::empty();
    assert(archive_sizes_from(trim(n), e) =~= Seq::<(Seq<char>, u64)>::empty());
    assert(archive_sizes_from(trim(n), seq![sz]) =~= seq![(trim(n), x)] + archive_sizes_from(
        trim(n),
        e,
    ));
    assert(archive_sizes_from(trim(n), seq![sz]) =~= seq![(trim(n), x)]);
    assert(archive_sizes_from(Seq::empty(), lines) == archive_sizes_from(trim(n), seq![sz]));
}

/// On an ASCII word, the word for people is the word in capitals when its
/// lower case is an acronym, and otherwise its first letter in upper case
/// followed by the rest in lower case; either way it is the word itself
/// up to case.
pub proof fn lemma_word_for_people(w: Seq<char>)
    requires
        w.len() > 0,
    ensures
        ({
            let h = ascii_humanize_word(w);
            &&& h.len() == w.len()
            &&& lower_seq(h) == lower_seq(w)
            &&& is_acronym(lower_seq(w)) ==> forall|k: int|
                0 <= k < h.len() ==> !('a' <= #[trigger] h[k] <= 'z')
            &&& !is_acronym(lower_seq(w)) ==> {
                &&& !('a' <= h[0] <= 'z')
                &&& forall|k: int| 1 <= k < h.len() ==> !('A' <= #[trigger] h[k] <= 'Z')
            }
        }),
{
    let h = ascii_humanize_word(w);
    assert(lower_seq(h) =~= lower_seq(w));
    if is_acronym(lower_seq(w)) {
        assert forall|k: int| 0 <= k < h.len() implies !('a' <= #[trigger] h[k] <= 'z') by {
            assert(h[k] == ascii_upper(ascii_lower(w[k])));
        }
    } else {
        assert(h[0] == ascii_upper(w[0]));
        assert forall|k: int| 1 <= k < h.len() implies !('A' <= #[trigger] h[k] <= 'Z') by {
            assert(h[k] == ascii_lower(w[k]));
        }
    }
}

/// The first stage of a removal plan removes the package's files with the
/// package's own description.
pub proof fn lemma_package_stage(
    package_description: Seq<char>,
    files: Seq<Seq<char>>,
    configs: Seq<Seq<char>>,
    options: UninstallOptions,
)
    ensures
        ({
            let st = planned_stages(package_description, files, configs, options);
            &&& st[0].stage_type == StageType::RemovePackage
            &&& st[0].description == package_description
            &&& st[0].items == files
            &&& forall|i: int|
                1 <= i < st.len() ==> (#[trigger] st[i]).stage_type != StageType::RemovePackage
        }),
{
    let st = planned_stages(package_description, files, configs, options);
    let has_cfg = options.remove_configs && configs.len() > 0;
    assert forall|i: int| 1 <= i < st.len() implies (#[trigger] st[i]).stage_type
        != StageType::RemovePackage by {
        if has_cfg && i == 1 {
        } else {
            assert(st[i].stage_type == StageType::RemoveDesktopEntries);
        }
    }
}

} // verus!
