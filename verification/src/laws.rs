//! Properties of the library as a whole, over the specifications of its
//! functions.

use vstd::prelude::*;

use crate::adapters::appimage::{extract_version_spec, last_version, version_segment};
use crate::adapters::dpkg::{
    alternative_name, alternative_names, ascii_humanize_name, ascii_humanize_word,
    ascii_humanized_words, is_acronym, dependency_lines_names, deplist_names, field_line_names, group_names,
    groups_names, humanize_name, humanized_words, name_words,
};
use crate::adapters::sizes::{
    as_f64, f64_spacing, format_size_spec, pow1024, round_half_even, unit_index,
};
use crate::adapters::uninstall::{
    desktop_entries, planned_stages, reports_failure, reports_success, StageFields,
};
use crate::adapters::unprefixed;
use crate::discovery::backend_name;
use crate::models::{
    scope_label, source_label, InstallScope, PackageSource, StageType, UninstallOptions,
    UninstallPlan, UninstallResult,
};
use crate::case::{ascii_lower, ascii_upper, lower_seq};
use crate::text::{
    dec, ends_with, is_ws, join, split, split_from, starts_with, strip_prefix, trim_end,
    trim_start, words, words_from,
};

verus! {

/// An application id made of a source prefix and a name gives back that
/// name once the prefix is removed: the adapters' package names undo the
/// ids of their listings.
pub proof fn lemma_id_roundtrip(prefix: Seq<char>, name: Seq<char>)
    ensures
        unprefixed(prefix + name, prefix) == name,
{
    assert((prefix + name).take(prefix.len() as int) =~= prefix);
    assert((prefix + name).skip(prefix.len() as int) =~= name);
}

/// A removal plan always starts by removing the package and its files,
/// which needs root and cannot be undone; every later stage can be undone;
/// configuration files are removed only when asked for and present; the
/// desktop entries removed are package files ending in `.desktop`.
pub proof fn lemma_plan_shape(
    package_description: Seq<char>,
    files: Seq<Seq<char>>,
    configs: Seq<Seq<char>>,
    options: UninstallOptions,
)
    ensures
        ({
            let st = planned_stages(package_description, files, configs, options);
            &&& 1 <= st.len() <= 3
            &&& st[0].stage_type == StageType::RemovePackage
            &&& st[0].items == files
            &&& st[0].requires_root
            &&& !st[0].reversible
            &&& forall|i: int| 1 <= i < st.len() ==> (#[trigger] st[i]).reversible
            &&& (exists|i: int|
                0 <= i < st.len() && (#[trigger] st[i]).stage_type == StageType::RemoveConfigs)
                <==> (options.remove_configs && configs.len() > 0)
            &&& forall|i: int|
                0 <= i < st.len() && (#[trigger] st[i]).stage_type
                    == StageType::RemoveDesktopEntries ==> forall|k: int|
                    0 <= k < st[i].items.len() ==> ends_with(#[trigger] st[i].items[k], ".desktop"@)
                        && files.contains(st[i].items[k])
        }),
{
    let st = planned_stages(package_description, files, configs, options);
    let desktop = desktop_entries(files);
    let has_cfg = options.remove_configs && configs.len() > 0;
    let has_desk = desktop.len() > 0;
    assert(st.len() == 1 + (if has_cfg {
        1int
    } else {
        0
    }) + (if has_desk {
        1int
    } else {
        0
    }));
    assert forall|i: int|
        0 <= i < st.len() && (#[trigger] st[i]).stage_type
            == StageType::RemoveDesktopEntries implies forall|k: int|
        0 <= k < st[i].items.len() ==> ends_with(#[trigger] st[i].items[k], ".desktop"@)
            && files.contains(st[i].items[k]) by {
        assert(st[i].items == desktop);
        lemma_desktop_entries(files);
    }
    if has_cfg {
        assert(st[1].stage_type == StageType::RemoveConfigs);
    } else {
        assert forall|i: int| 0 <= i < st.len() implies (#[trigger] st[i]).stage_type
            != StageType::RemoveConfigs by {}
    }
}

proof fn lemma_desktop_entries(files: Seq<Seq<char>>)
    ensures
        forall|k: int|
            0 <= k < desktop_entries(files).len() ==> ends_with(
                #[trigger] desktop_entries(files)[k],
                ".desktop"@,
            ) && files.contains(desktop_entries(files)[k]),
    decreases files.len(),
{
    if files.len() > 0 {
        let rest = files.drop_last();
        lemma_desktop_entries(rest);
        let d = desktop_entries(files);
        assert forall|k: int| 0 <= k < d.len() implies ends_with(#[trigger] d[k], ".desktop"@)
            && files.contains(d[k]) by {
            if k < desktop_entries(rest).len() {
                assert(d[k] == desktop_entries(rest)[k]);
                let j = choose|j: int| 0 <= j < rest.len() && rest[j] == d[k];
                assert(files[j] == rest[j]);
            } else {
                assert(d[k] == files.last());
                assert(files[files.len() - 1] == files.last());
            }
        }
    }
}

/// Every removal result is consistent: it succeeded exactly when it
/// carries no error message; a success frees the plan's space and
/// completes the package stage; a failure frees nothing and fails it.
pub proof fn lemma_result_consistent(r: UninstallResult, plan: UninstallPlan, message: Seq<char>)
    requires
        reports_success(r, plan) || reports_failure(r, plan, message),
    ensures
        r.success <==> r.error_message is None,
        r.success ==> r.space_freed == plan.total_space_to_free && r.stages_completed@ == seq![
            StageType::RemovePackage,
        ],
        !r.success ==> r.space_freed == 0 && r.stages_failed@ == seq![StageType::RemovePackage],
{
}

proof fn lemma_last_version_is_version(segments: Seq<Seq<char>>)
    ensures
        last_version(segments) matches Some(v) ==> version_segment(v),
    decreases segments.len(),
{
    if segments.len() > 0 {
        lemma_last_version_is_version(segments.drop_last());
    }
}

/// The version read from an AppImage file name is empty or a version
/// segment (so `is_version_seg` accepts it).
pub proof fn lemma_extracted_version(filename: Seq<char>)
    ensures
        extract_version_spec(filename).len() == 0 || version_segment(
            extract_version_spec(filename),
        ),
{
    let stem = crate::adapters::appimage::stem_or_self(filename);
    lemma_last_version_is_version(split(stem, "-"@));
}

proof fn lemma_humanized_words_non_empty(pieces: Seq<Seq<char>>)
    ensures
        pieces.len() == 1 && pieces[0].len() == 0 ==> humanized_words(pieces).len() == 0,
{
    if pieces.len() == 1 && pieces[0].len() == 0 {
        assert(pieces.drop_last().len() == 0);
        assert(humanized_words(pieces.drop_last()) == Seq::<Seq<char>>::empty());
        assert(pieces.last() == pieces[0]);
    }
}

/// A package name for people is empty only for an empty package name.
pub proof fn lemma_humanized_name_empty(name: Seq<char>)
    ensures
        humanize_name(name).len() == 0 <==> name.len() == 0,
{
    if name.len() == 0 {
        reveal_strlit("-");
        assert(split_from(Seq::empty(), name, "-"@) == seq![Seq::<char>::empty()]);
        lemma_humanized_words_non_empty(split(name, "-"@));
        assert(name_words(name).len() == 0);
    }
}

/// Byte counts below 1 KB are printed as whole bytes (`"512 B"`).
pub proof fn lemma_bytes_below_kib(bytes: u64)
    requires
        bytes < 1024,
    ensures
        format_size_spec(bytes) == dec(bytes as nat) + " B"@,
{
    assert(f64_spacing(bytes as nat) == 1);
    assert(as_f64(bytes as nat) == bytes) by {
        assert(round_half_even(bytes as nat, 1) == bytes);
    }
    reveal_with_fuel(pow1024, 5);
    assert(unit_index(bytes as nat) == 0);
}

/// A package name as the dependency parsers give it: not empty, and no
/// whitespace in it.
pub open spec fn is_package_name(n: Seq<char>) -> bool {
    n.len() > 0 && forall|k: int| 0 <= k < n.len() ==> !is_ws(#[trigger] n[k])
}

/// No character of `s` is whitespace.
pub open spec fn ws_free(s: Seq<char>) -> bool {
    forall|k: int| 0 <= k < s.len() ==> !is_ws(#[trigger] s[k])
}

proof fn lemma_words_are_names(cur: Seq<char>, s: Seq<char>)
    requires
        ws_free(cur),
    ensures
        forall|i: int|
            0 <= i < words_from(cur, s).len() ==> is_package_name(#[trigger] words_from(cur, s)[i]),
    decreases s.len(),
{
    if s.len() > 0 {
        let rest = s.drop_first();
        if is_ws(s[0]) {
            lemma_words_are_names(Seq::empty(), rest);
            let a: Seq<Seq<char>> = if cur.len() > 0 {
                seq![cur]
            } else {
                seq![]
            };
            let b = words_from(Seq::empty(), rest);
            assert(words_from(cur, s) == a + b);
            assert forall|i: int| 0 <= i < (a + b).len() implies is_package_name(
                #[trigger] (a + b)[i],
            ) by {
                if i >= a.len() {
                    assert((a + b)[i] == b[i - a.len()]);
                } else {
                    assert((a + b)[i] == cur);
                }
            }
        } else {
            let c2 = cur.push(s[0]);
            assert forall|k: int| 0 <= k < c2.len() implies !is_ws(#[trigger] c2[k]) by {
                if k < cur.len() {
                    assert(c2[k] == cur[k]);
                }
            }
            lemma_words_are_names(c2, rest);
            assert(words_from(cur, s) == words_from(c2, rest));
        }
    } else {
        if cur.len() > 0 {
            assert(words_from(cur, s) == seq![cur]);
            assert(is_package_name(cur));
        } else {
            assert(words_from(cur, s).len() == 0);
        }
    }
}

proof fn lemma_words_from_non_empty(cur: Seq<char>, s: Seq<char>)
    requires
        cur.len() > 0,
    ensures
        words_from(cur, s).len() > 0,
    decreases s.len(),
{
    if s.len() > 0 && !is_ws(s[0]) {
        lemma_words_from_non_empty(cur.push(s[0]), s.drop_first());
    }
}

proof fn lemma_no_words_trims_away(s: Seq<char>)
    requires
        words_from(Seq::empty(), s).len() == 0,
    ensures
        trim_start(s).len() == 0,
    decreases s.len(),
{
    if s.len() > 0 {
        if is_ws(s[0]) {
            assert(words_from(Seq::empty(), s) == seq![] + words_from(Seq::empty(), s.drop_first()));
            lemma_no_words_trims_away(s.drop_first());
        } else {
            lemma_words_from_non_empty(Seq::<char>::empty().push(s[0]), s.drop_first());
        }
    }
}

proof fn lemma_alternative_name(alt: Seq<char>)
    ensures
        alternative_name(alt).len() == 0 || is_package_name(alternative_name(alt)),
{
    if words(alt).len() > 0 {
        lemma_words_are_names(Seq::empty(), alt);
        let w = words(alt)[0];
        assert(is_package_name(w));
        assert(!is_ws(w[0]));
        assert(trim_start(w) == w);
        assert(!is_ws(w.last()));
        assert(trim_end(w) == w);
    } else {
        lemma_no_words_trims_away(alt);
        assert(trim_start(alt).len() == 0);
        assert(trim_end(trim_start(alt)) == trim_start(alt));
    }
}

/// The package an alternative of a dependency names is its first word (the
/// version constraint after it is dropped), and nothing when it has no
/// word.
pub proof fn lemma_alternative_is_first_word(alt: Seq<char>)
    ensures
        words(alt).len() > 0 ==> alternative_name(alt) == words(alt)[0],
        words(alt).len() == 0 ==> alternative_name(alt).len() == 0,
{
    if words(alt).len() > 0 {
        lemma_words_are_names(Seq::empty(), alt);
        let w = words(alt)[0];
        assert(is_package_name(w));
        assert(!is_ws(w[0]));
        assert(trim_start(w) == w);
        assert(!is_ws(w.last()));
        assert(trim_end(w) == w);
    } else {
        lemma_no_words_trims_away(alt);
        assert(trim_end(trim_start(alt)) == trim_start(alt));
    }
}

proof fn lemma_alternative_names(alts: Seq<Seq<char>>)
    ensures
        forall|i: int|
            0 <= i < alternative_names(alts).len() ==> is_package_name(
                #[trigger] alternative_names(alts)[i],
            ),
    decreases alts.len(),
{
    if alts.len() > 0 {
        let rest = alternative_names(alts.drop_last());
        lemma_alternative_names(alts.drop_last());
        let n = alternative_name(alts.last());
        lemma_alternative_name(alts.last());
        if n.len() > 0 {
            assert forall|i: int| 0 <= i < rest.push(n).len() implies is_package_name(
                #[trigger] rest.push(n)[i],
            ) by {
                if i < rest.len() {
                    assert(rest.push(n)[i] == rest[i]);
                }
            }
        }
    }
}

proof fn lemma_groups_names(groups: Seq<Seq<char>>)
    ensures
        forall|i: int|
            0 <= i < groups_names(groups).len() ==> is_package_name(
                #[trigger] groups_names(groups)[i],
            ),
    decreases groups.len(),
{
    if groups.len() > 0 {
        lemma_groups_names(groups.drop_last());
        let g = groups.last();
        let t = crate::text::trim(g);
        if !(t.len() == 0 || t == "N/A"@) {
            lemma_alternative_names(split(t, " | "@));
        }
        let a = groups_names(groups.drop_last());
        let b = group_names(g);
        assert forall|i: int| 0 <= i < (a + b).len() implies is_package_name(
            #[trigger] (a + b)[i],
        ) by {
            if i >= a.len() {
                assert((a + b)[i] == b[i - a.len()]);
            }
        }
    }
}

/// Every package named by a dependency field (`parse_deplist`) is a
/// package name: not empty, and without whitespace.
pub proof fn lemma_deplist_names(field: Seq<char>)
    ensures
        forall|i: int|
            0 <= i < deplist_names(field).len() ==> is_package_name(
                #[trigger] deplist_names(field)[i],
            ),
{
    lemma_groups_names(split(field, ", "@));
}

/// Every dependency named by the dependency fields printed one per line
/// (`dependencies`) is a package name: not empty, and without whitespace.
pub proof fn lemma_dependency_names(lines: Seq<Seq<char>>)
    ensures
        forall|i: int|
            0 <= i < dependency_lines_names(lines).len() ==> is_package_name(
                #[trigger] dependency_lines_names(lines)[i],
            ),
    decreases lines.len(),
{
    if lines.len() > 0 {
        lemma_dependency_names(lines.drop_last());
        let l = lines.last();
        if !(l.len() == 0 || l == "N/A"@) {
            lemma_deplist_names(l);
        }
        let a = dependency_lines_names(lines.drop_last());
        let b = field_line_names(l);
        assert forall|i: int| 0 <= i < (a + b).len() implies is_package_name(
            #[trigger] (a + b)[i],
        ) by {
            if i >= a.len() {
                assert((a + b)[i] == b[i - a.len()]);
            }
        }
    }
}

/// Different sources are listed by different backends, so looking an
/// adapter up by a source's backend finds the adapter of that source.
pub proof fn lemma_backends_distinct(a: PackageSource, b: PackageSource)
    requires
        backend_name(a) is Some,
        a != b,
    ensures
        backend_name(a) != backend_name(b),
{
    reveal_strlit("rpm");
    reveal_strlit("dpkg");
    reveal_strlit("flatpak");
    reveal_strlit("snap");
    reveal_strlit("appimage");
    assert("rpm"@.len() == 3);
    assert("dpkg"@.len() == 4);
    assert("flatpak"@.len() == 7);
    assert("snap"@.len() == 4);
    assert("appimage"@.len() == 8);
    assert("dpkg"@[0] != "snap"@[0]);
}

/// Different sources, and different scopes, are stored under different
/// names, so reading a stored name back (`from_label`) gives the source or
/// scope that was stored.
pub proof fn lemma_labels_distinct(a: PackageSource, b: PackageSource, x: InstallScope, y: InstallScope)
    ensures
        source_label(a) == source_label(b) ==> a == b,
        scope_label(x) == scope_label(y) ==> x == y,
{
    reveal_strlit("apt");
    reveal_strlit("rpm");
    reveal_strlit("flatpak");
    reveal_strlit("snap");
    reveal_strlit("loose");
    reveal_strlit("unknown");
    reveal_strlit("system");
    reveal_strlit("user");
    assert("apt"@.len() == 3 && "rpm"@.len() == 3 && "apt"@[0] != "rpm"@[0]);
    assert("flatpak"@.len() == 7 && "unknown"@.len() == 7 && "flatpak"@[0] != "unknown"@[0]);
    assert("snap"@.len() == 4);
    assert("loose"@.len() == 5);
    assert("system"@.len() == 6 && "user"@.len() == 4);
}

/// The pieces that are not empty, in order.
pub open spec fn non_empty_pieces(pieces: Seq<Seq<char>>) -> Seq<Seq<char>> {
    pieces.filter(|w: Seq<char>| w.len() > 0)
}

/// No character of `s` is a dash.
pub open spec fn dash_free(s: Seq<char>) -> bool {
    forall|k: int| 0 <= k < s.len() ==> #[trigger] s[k] != '-'
}

proof fn lemma_ascii_words_are_mapped(pieces: Seq<Seq<char>>)
    ensures
        ascii_humanized_words(pieces) == non_empty_pieces(pieces).map_values(
            |w: Seq<char>| ascii_humanize_word(w),
        ),
    decreases pieces.len(),
{
    reveal_with_fuel(Seq::filter, 1);
    if pieces.len() > 0 {
        lemma_ascii_words_are_mapped(pieces.drop_last());
        assert(pieces.drop_last().filter(|w: Seq<char>| w.len() > 0) == non_empty_pieces(
            pieces.drop_last(),
        ));
        if pieces.last().len() > 0 {
            assert(non_empty_pieces(pieces) =~= non_empty_pieces(pieces.drop_last()).push(
                pieces.last(),
            ));
            assert(non_empty_pieces(pieces).map_values(|w: Seq<char>| ascii_humanize_word(w))
                =~= non_empty_pieces(pieces.drop_last()).map_values(
                |w: Seq<char>| ascii_humanize_word(w),
            ).push(ascii_humanize_word(pieces.last())));
        } else {
            assert(non_empty_pieces(pieces) =~= non_empty_pieces(pieces.drop_last()));
        }
    } else {
        assert(non_empty_pieces(pieces) =~= Seq::<Seq<char>>::empty());
        assert(non_empty_pieces(pieces).map_values(|w: Seq<char>| ascii_humanize_word(w))
            =~= Seq::<Seq<char>>::empty());
    }
}

proof fn lemma_non_empty_pieces(pieces: Seq<Seq<char>>)
    ensures
        forall|i: int|
            0 <= i < non_empty_pieces(pieces).len() ==> (#[trigger] non_empty_pieces(
                pieces,
            )[i]).len() > 0,
{
    assert forall|i: int| 0 <= i < non_empty_pieces(pieces).len() implies (
    #[trigger] non_empty_pieces(pieces)[i]).len() > 0 by {
        let f = |w: Seq<char>| w.len() > 0;
        assert(f(pieces.filter(f)[i]));
    }
}

proof fn lemma_split_dash_free(cur: Seq<char>, s: Seq<char>)
    requires
        dash_free(cur),
    ensures
        forall|k: int|
            0 <= k < split_from(cur, s, "-"@).len() ==> dash_free(
                #[trigger] split_from(cur, s, "-"@)[k],
            ),
    decreases s.len(),
{
    reveal_strlit("-");
    let sep = "-"@;
    if starts_with(s, sep) {
        let rest = s.skip(1);
        lemma_split_dash_free(Seq::empty(), rest);
        let a = seq![cur];
        let b = split_from(Seq::empty(), rest, sep);
        assert(split_from(cur, s, sep) == a + b);
        assert forall|k: int| 0 <= k < (a + b).len() implies dash_free(#[trigger] (a + b)[k]) by {
            if k >= 1 {
                assert((a + b)[k] == b[k - 1]);
            } else {
                assert((a + b)[k] == cur);
            }
        }
    } else if s.len() == 0 {
        assert(split_from(cur, s, sep) == seq![cur]);
        assert(seq![cur][0] == cur);
    } else {
        assert(s[0] != '-') by {
            if s[0] == '-' {
                assert(s.take(1) =~= sep);
            }
        }
        let c2 = cur.push(s[0]);
        assert(dash_free(c2)) by {
            assert forall|k: int| 0 <= k < c2.len() implies #[trigger] c2[k] != '-' by {
                if k < cur.len() {
                    assert(c2[k] == cur[k]);
                }
            }
        }
        lemma_split_dash_free(c2, s.drop_first());
        assert(split_from(cur, s, sep) == split_from(c2, s.drop_first(), sep));
    }
}

proof fn lemma_join_non_empty(ws: Seq<Seq<char>>, sep: Seq<char>)
    requires
        ws.len() > 0,
        ws[0].len() > 0,
    ensures
        join(ws, sep).len() > 0,
    decreases ws.len(),
{
    if ws.len() > 1 {
        lemma_join_non_empty(ws.drop_last(), sep);
    }
}

proof fn lemma_join_dash_free(ws: Seq<Seq<char>>, sep: Seq<char>)
    requires
        dash_free(sep),
        forall|i: int| 0 <= i < ws.len() ==> dash_free(#[trigger] ws[i]),
    ensures
        dash_free(join(ws, sep)),
    decreases ws.len(),
{
    if ws.len() > 1 {
        lemma_join_dash_free(ws.drop_last(), sep);
        let a = join(ws.drop_last(), sep);
        let l = ws.last();
        assert(dash_free(l));
        assert forall|k: int| 0 <= k < (a + sep + l).len() implies #[trigger] (a + sep + l)[k]
            != '-' by {
            if k < a.len() {
                assert((a + sep + l)[k] == a[k]);
            } else if k < a.len() + sep.len() {
                assert((a + sep + l)[k] == sep[k - a.len()]);
            } else {
                assert((a + sep + l)[k] == l[k - a.len() - sep.len()]);
            }
        }
    } else if ws.len() == 1 {
        assert(dash_free(ws[0]));
    }
}

proof fn lemma_lower_join(ws: Seq<Seq<char>>, sep: Seq<char>)
    ensures
        lower_seq(join(ws, sep)) == join(ws.map_values(|w: Seq<char>| lower_seq(w)), lower_seq(sep)),
    decreases ws.len(),
{
    let m = ws.map_values(|w: Seq<char>| lower_seq(w));
    if ws.len() == 0 {
        assert(lower_seq(join(ws, sep)) =~= Seq::<char>::empty());
    } else if ws.len() == 1 {
        assert(m[0] == lower_seq(ws[0]));
    } else {
        lemma_lower_join(ws.drop_last(), sep);
        assert(m.drop_last() =~= ws.drop_last().map_values(|w: Seq<char>| lower_seq(w)));
        assert(m.last() == lower_seq(ws.last()));
        let a = join(ws.drop_last(), sep);
        assert(lower_seq(a + sep + ws.last()) =~= lower_seq(a) + lower_seq(sep) + lower_seq(
            ws.last(),
        ));
    }
}

/// The name for people of an ASCII package name (`ascii_humanize_name`,
/// which `humanize_package_name` returns on ASCII names) is the name itself
/// when every dash-separated piece of it is empty; otherwise it is the
/// non-empty pieces, each made into a word (`ascii_humanize_word`: an
/// acronym in capitals, else a capital initial and the rest in lower case),
/// joined by single spaces; it holds no dash; and up to ASCII case it is the
/// non-empty pieces joined by spaces.
pub proof fn lemma_humanized_name_shape(name: Seq<char>)
    ensures
        ({
            let segs = non_empty_pieces(split(name, "-"@));
            let r = ascii_humanize_name(name);
            &&& segs.len() == 0 ==> r == name
            &&& segs.len() > 0 ==> {
                &&& r == join(segs.map_values(|w: Seq<char>| ascii_humanize_word(w)), " "@)
                &&& dash_free(r)
                &&& lower_seq(r) == lower_seq(join(segs, " "@))
            }
        }),
{
    reveal_strlit(" ");
    let pieces = split(name, "-"@);
    let segs = non_empty_pieces(pieces);
    let hw = segs.map_values(|w: Seq<char>| ascii_humanize_word(w));
    lemma_ascii_words_are_mapped(pieces);
    assert(ascii_humanized_words(pieces) == hw);
    if segs.len() == 0 {
        assert(hw.len() == 0);
    } else {
        lemma_non_empty_pieces(pieces);
        assert(hw[0] == ascii_humanize_word(segs[0]));
        assert(segs[0].len() > 0);
        lemma_join_non_empty(hw, " "@);
        // No dash.
        lemma_split_dash_free(Seq::empty(), name);
        assert forall|i: int| 0 <= i < hw.len() implies dash_free(#[trigger] hw[i]) by {
            let w = segs[i];
            let f = |x: Seq<char>| x.len() > 0;
            assert(pieces.filter(f)[i] == w);
            assert(pieces.filter(f).contains(w));
            pieces.lemma_filter_contains_rev(f, w);
            let j = choose|j: int| 0 <= j < pieces.len() && pieces[j] == w;
            assert(dash_free(pieces[j]));
            assert(dash_free(w));
            let h = ascii_humanize_word(w);
            assert forall|k: int| 0 <= k < h.len() implies #[trigger] h[k] != '-' by {
                if is_acronym(lower_seq(w)) {
                    assert(h[k] == ascii_upper(ascii_lower(w[k])));
                } else {
                    if k == 0 {
                        assert(h[k] == ascii_upper(w[0]));
                    } else {
                        assert(h[k] == ascii_lower(w[k]));
                    }
                }
            }
        }
        assert(dash_free(" "@));
        lemma_join_dash_free(hw, " "@);
        // Same text up to case.
        lemma_lower_join(hw, " "@);
        lemma_lower_join(segs, " "@);
        assert(lower_seq(" "@) =~= " "@);
        assert forall|i: int| 0 <= i < segs.len() implies lower_seq(ascii_humanize_word(
            #[trigger] segs[i],
        )) == lower_seq(segs[i]) by {
            let w = segs[i];
            let h = ascii_humanize_word(w);
            if is_acronym(lower_seq(w)) {
                assert(lower_seq(h) =~= lower_seq(w));
            } else {
                assert(w.len() > 0);
                assert(lower_seq(h) =~= lower_seq(w));
            }
        }
        assert(hw.map_values(|w: Seq<char>| lower_seq(w)) =~= segs.map_values(
            |w: Seq<char>| lower_seq(w),
        ));
    }
}

} // verus!
