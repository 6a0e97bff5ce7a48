//! Loose AppImage files: where they are looked for, how they are
//! recognized, and what their file names tell.

use vstd::prelude::*;

use crate::adapters::dnf::representable;
use crate::adapters::flatpak::replace_char;
use crate::adapters::{strip_source_prefix, unprefixed};
use crate::case::{char_to_uppercase, char_uppercase};
use crate::clock::utc_timestamp;
use crate::models::{
    describes, new_footprint, zero_sizes, AppFootprint, FootprintFields, InstallScope,
    PackageSource, SizeBreakdown, SystemPath,
};
use crate::paths::{extension, file_stem, path_extension, path_file_stem};
use crate::text::{
    all_digits, chars_eq_ignore_ascii_case, chars_eq_str, chars_of, contains, contains_str,
    eq_ignore_ascii_case, is_digit, join, join_push, push_char, push_str, split, split_exec,
    string_of, string_views, sub_chars, trim, trim_exec, views, words, words_exec,
};

verus! {

/// The adapter for AppImages.
pub struct AppImageAdapter;

/// A character of a version number: an ASCII digit or a dot.
pub open spec fn is_version_char(c: char) -> bool {
    is_digit(c) || c == '.'
}

/// A version segment of a file name: starts with a digit, has a dot, and
/// holds only digits and dots (`"1.19.21"`).
pub open spec fn version_segment(s: Seq<char>) -> bool {
    &&& s.len() > 0
    &&& is_digit(s[0])
    &&& contains(s, "."@)
    &&& forall|i: int| 0 <= i < s.len() ==> #[trigger] is_version_char(s[i])
}

/// A segment naming an architecture or platform, or the word `AppImage`.
pub open spec fn arch_segment(s: Seq<char>) -> bool {
    ||| s == "x86_64"@ ||| s == "amd64"@ ||| s == "i386"@ ||| s == "i686"@
    ||| s == "aarch64"@ ||| s == "arm64"@ ||| s == "armhf"@ ||| s == "x64"@ ||| s == "x86"@
    ||| s == "linux"@ ||| s == "linux64"@ ||| s == "linux32"@ ||| s == "AppImage"@
}

/// The file stem of a file name, or the name itself when it has none.
pub open spec fn stem_or_self(filename: Seq<char>) -> Seq<char> {
    match path_file_stem(filename) {
        Some(s) => s,
        None => filename,
    }
}

/// The last segment, trimmed, that is a version.
pub open spec fn last_version(segments: Seq<Seq<char>>) -> Option<Seq<char>>
    decreases segments.len(),
{
    if segments.len() == 0 {
        None
    } else if version_segment(trim(segments.last())) {
        Some(trim(segments.last()))
    } else {
        last_version(segments.drop_last())
    }
}

/// The version in an AppImage file name: the last dash-separated segment
/// of its stem that is a version (`"Foo-1.2.3-x86_64.AppImage"` →
/// `"1.2.3"`), or nothing.
pub open spec fn extract_version_spec(filename: Seq<char>) -> Seq<char> {
    match last_version(split(stem_or_self(filename), "-"@)) {
        Some(v) => v,
        None => Seq::empty(),
    }
}

/// How many leading segments remain once trailing version and
/// architecture segments are dropped, at least one being kept.
pub open spec fn kept_segments(segments: Seq<Seq<char>>, end: int) -> int
    decreases end,
{
    if end > 1 && end <= segments.len() && (arch_segment(trim(segments[end - 1]))
        || version_segment(trim(segments[end - 1]))) {
        kept_segments(segments, end - 1)
    } else {
        end
    }
}

/// A word with an upper-case initial.
pub open spec fn capitalized(w: Seq<char>) -> Seq<char> {
    if w.len() == 0 {
        Seq::empty()
    } else {
        char_uppercase(w[0]) + w.drop_first()
    }
}

/// The display name in an AppImage file name: the dash-separated segments
/// of the stem without the trailing versions and architectures, joined by
/// spaces, underscores made spaces, every word capitalized
/// (`"my_tool-1.0-x86_64.AppImage"` → `"My Tool"`); the stem when that
/// leaves nothing.
pub open spec fn parse_name_spec(filename: Seq<char>) -> Seq<char> {
    let stem = stem_or_self(filename);
    let segments = split(stem, "-"@);
    let kept = segments.take(kept_segments(segments, segments.len() as int));
    let spaced = replace_char(join(kept, " "@), '_', ' ');
    let name = join(words(spaced).map_values(|w: Seq<char>| capitalized(w)), " "@);
    if name.len() == 0 {
        stem
    } else {
        name
    }
}

fn stem_or_self_exec(filename: &str) -> (r: Vec<char>)
    ensures
        r@ == stem_or_self(filename@),
{
    match file_stem(filename) {
        Some(s) => chars_of(s.as_str()),
        None => chars_of(filename),
    }
}

fn replace_underscores(s: &Vec<char>) -> (r: Vec<char>)
    ensures
        r@ == replace_char(s@, '_', ' '),
{
    let mut out: Vec<char> = Vec::new();
    let mut i: usize = 0;
    while i < s.len()
        invariant
            i <= s@.len(),
            out@ == replace_char(s@.take(i as int), '_', ' '),
        decreases s@.len() - i,
    {
        let c = if s[i] == '_' {
            ' '
        } else {
            s[i]
        };
        out.push(c);
        assert(replace_char(s@.take(i + 1), '_', ' ') =~= replace_char(
            s@.take(i as int),
            '_',
            ' ',
        ).push(c));
        i += 1;
    }
    assert(s@.take(s@.len() as int) =~= s@);
    out
}

fn capitalize_exec(w: &Vec<char>) -> (r: String)
    ensures
        r@ == capitalized(w@),
{
    if w.len() == 0 {
        return String::new();
    }
    let mut out = char_to_uppercase(w[0]);
    let rest = sub_chars(w, 1, w.len());
    assert(rest@ =~= w@.drop_first());
    let rest_s = string_of(&rest);
    push_str(&mut out, rest_s.as_str());
    out
}

impl AppImageAdapter {
    pub fn new() -> (r: Self) {
        AppImageAdapter
    }

    /// The backend's identifier.
    pub fn backend_id(&self) -> (r: &'static str)
        ensures
            r@ == "appimage"@,
    {
        "appimage"
    }

    /// The file name named by an application id
    /// (`"appimage:Foo.AppImage"` → `"Foo.AppImage"`).
    pub fn file_name(app_id: &str) -> (r: String)
        ensures
            r@ == unprefixed(app_id@, "appimage:"@),
    {
        strip_source_prefix(app_id, "appimage:")
    }

    /// The home directory, or `/root` when it is unknown.
    pub fn home_or_root(home: Option<String>) -> (r: String)
        ensures
            r@ == match home {
                Some(h) => h@,
                None => "/root"@,
            },
    {
        match home {
            Some(h) => h,
            None => String::from_str("/root"),
        }
    }

    /// The directories searched for AppImages, in order.
    pub fn scan_dirs(home: &str) -> (r: Vec<String>)
        ensures
            string_views(r@) == seq![
                home@ + "/Applications"@,
                home@ + "/AppImages"@,
                home@ + "/bin"@,
                home@ + "/.local/bin"@,
                "/opt"@,
                "/usr/local/bin"@,
            ],
    {
        let mut out: Vec<String> = Vec::new();
        let mut a = String::from_str(home);
        push_str(&mut a, "/Applications");
        out.push(a);
        let mut b = String::from_str(home);
        push_str(&mut b, "/AppImages");
        out.push(b);
        let mut c = String::from_str(home);
        push_str(&mut c, "/bin");
        out.push(c);
        let mut d = String::from_str(home);
        push_str(&mut d, "/.local/bin");
        out.push(d);
        out.push(String::from_str("/opt"));
        out.push(String::from_str("/usr/local/bin"));
        assert(string_views(out@) =~= seq![
            home@ + "/Applications"@,
            home@ + "/AppImages"@,
            home@ + "/bin"@,
            home@ + "/.local/bin"@,
            "/opt"@,
            "/usr/local/bin"@,
        ]);
        out
    }

    /// Whether a path's extension is `AppImage`, in any letter case.
    pub fn has_appimage_extension(path: &str) -> (r: bool)
        ensures
            r == (match path_extension(path@) {
                Some(e) => eq_ignore_ascii_case(e, "AppImage"@) || eq_ignore_ascii_case(
                    e,
                    "appimage"@,
                ),
                None => false,
            }),
    {
        match extension(path) {
            Some(e) => {
                let ec = chars_of(e.as_str());
                let a = chars_of("AppImage");
                let b = chars_of("appimage");
                chars_eq_ignore_ascii_case(&ec, &a) || chars_eq_ignore_ascii_case(&ec, &b)
            },
            None => false,
        }
    }

    /// Whether `file --brief` describes an AppImage.
    pub fn file_output_says_appimage(output: &str) -> (r: bool)
        ensures
            r == (contains(output@, "AppImage"@) || contains(output@, "Type 3"@)),
    {
        let o = chars_of(output);
        contains_str(&o, "AppImage") || contains_str(&o, "Type 3")
    }

    /// Whether a segment is a version (see `version_segment`).
    pub fn is_version_seg(s: &str) -> (r: bool)
        ensures
            r == version_segment(s@),
    {
        let c = chars_of(s);
        Self::is_version_chars(&c)
    }

    fn is_version_chars(c: &Vec<char>) -> (r: bool)
        ensures
            r == version_segment(c@),
    {
        if c.len() == 0 {
            return false;
        }
        if !('0' <= c[0] && c[0] <= '9') {
            return false;
        }
        let dot = chars_of(".");
        let has_dot = crate::text::find_exec(c, &dot).is_some();
        proof {
            reveal(crate::text::find);
        }
        if !has_dot {
            return false;
        }
        let mut i: usize = 0;
        while i < c.len()
            invariant
                i <= c@.len(),
                forall|j: int| 0 <= j < i ==> #[trigger] is_version_char(c@[j]),
            decreases c@.len() - i,
        {
            if !(('0' <= c[i] && c[i] <= '9') || c[i] == '.') {
                assert(!is_version_char(c@[i as int]));
                return false;
            }
            i += 1;
        }
        true
    }

    /// Whether a segment names an architecture (see `arch_segment`).
    pub fn is_arch_seg(s: &str) -> (r: bool)
        ensures
            r == arch_segment(s@),
    {
        let c = chars_of(s);
        Self::is_arch_chars(&c)
    }

    fn is_arch_chars(c: &Vec<char>) -> (r: bool)
        ensures
            r == arch_segment(c@),
    {
        chars_eq_str(c, "x86_64") || chars_eq_str(c, "amd64") || chars_eq_str(c, "i386")
            || chars_eq_str(c, "i686") || chars_eq_str(c, "aarch64") || chars_eq_str(c, "arm64")
            || chars_eq_str(c, "armhf") || chars_eq_str(c, "x64") || chars_eq_str(c, "x86")
            || chars_eq_str(c, "linux") || chars_eq_str(c, "linux64") || chars_eq_str(
            c,
            "linux32",
        ) || chars_eq_str(c, "AppImage")
    }

    /// The version in an AppImage file name (see `extract_version_spec`).
    pub fn extract_version(filename: &str) -> (r: String)
        ensures
            r@ == extract_version_spec(filename@),
    {
        let stem = stem_or_self_exec(filename);
        let dash = chars_of("-");
        proof {
            reveal_strlit("-");
        }
        let segs = split_exec(&stem, &dash);
        let mut end: usize = segs.len();
        assert(views(segs@).take(segs@.len() as int) =~= views(segs@));
        while end > 0
            invariant
                end <= segs@.len(),
                stem@ == stem_or_self(filename@),
                views(segs@) == split(stem@, "-"@),
                last_version(views(segs@)) == last_version(views(segs@).take(end as int)),
            decreases end,
        {
            let ghost cur = views(segs@).take(end as int);
            proof {
                assert(cur.drop_last() =~= views(segs@).take(end - 1));
                assert(cur.last() == segs@[end - 1]@);
            }
            let t = trim_exec(&segs[end - 1]);
            if Self::is_version_chars(&t) {
                return string_of(&t);
            }
            end -= 1;
        }
        String::new()
    }

    /// The display name in an AppImage file name (see `parse_name_spec`).
    pub fn parse_name(filename: &str) -> (r: String)
        ensures
            r@ == parse_name_spec(filename@),
    {
        let stem = stem_or_self_exec(filename);
        let dash = chars_of("-");
        proof {
            reveal_strlit("-");
        }
        let segs = split_exec(&stem, &dash);
        proof {
            crate::text::lemma_split_nonempty(Seq::empty(), stem@, "-"@);
        }
        let mut end: usize = segs.len();
        while end > 1
            invariant
                1 <= end <= segs@.len(),
                kept_segments(views(segs@), segs@.len() as int) == kept_segments(
                    views(segs@),
                    end as int,
                ),
            ensures
                1 <= end <= segs@.len(),
                kept_segments(views(segs@), segs@.len() as int) == end,
            decreases end,
        {
            let t = trim_exec(&segs[end - 1]);
            if Self::is_arch_chars(&t) || Self::is_version_chars(&t) {
                end -= 1;
            } else {
                break ;
            }
        }
        let ghost kept = views(segs@).take(end as int);
        let mut joined = String::new();
        let mut k: usize = 0;
        let mut first = true;
        while k < end
            invariant
                k <= end <= segs@.len(),
                kept == views(segs@).take(end as int),
                joined@ == join(kept.take(k as int), " "@),
                first == (k == 0),
            decreases end - k,
        {
            let piece = string_of(&segs[k]);
            proof {
                assert(kept.take(k as int).len() == k);
            }
            join_push(&mut joined, piece.as_str(), " ", first, Ghost(kept.take(k as int)));
            assert(kept.take(k as int).push(piece@) =~= kept.take(k + 1));
            first = false;
            k += 1;
        }
        assert(kept.take(end as int) =~= kept);
        let jc = chars_of(joined.as_str());
        let spaced = replace_underscores(&jc);
        let ws = words_exec(&spaced);
        let ghost caps = views(ws@).map_values(|w: Seq<char>| capitalized(w));
        let mut name = String::new();
        let mut j: usize = 0;
        let mut first_word = true;
        while j < ws.len()
            invariant
                j <= ws@.len(),
                caps == views(ws@).map_values(|w: Seq<char>| capitalized(w)),
                name@ == join(caps.take(j as int), " "@),
                first_word == (j == 0),
            decreases ws@.len() - j,
        {
            let w = capitalize_exec(&ws[j]);
            join_push(&mut name, w.as_str(), " ", first_word, Ghost(caps.take(j as int)));
            assert(caps.take(j as int).push(w@) =~= caps.take(j + 1));
            first_word = false;
            j += 1;
        }
        assert(caps.take(ws@.len() as int) =~= caps);
        if name.as_str().is_empty() {
            string_of(&stem)
        } else {
            name
        }
    }

    /// The footprint of an AppImage file found on disk: named after its
    /// file name, in the user's scope, tracking its own path, sized by the
    /// file, dated by its modification time when `chrono` can represent it.
    pub fn footprint_for_file(
        filename: &str,
        path: String,
        size: u64,
        modified_secs: Option<u64>,
    ) -> (r: AppFootprint)
        ensures
            describes(
                r,
                FootprintFields {
                    id: "appimage:"@ + filename@,
                    display_name: parse_name_spec(filename@),
                    source: PackageSource::Loose,
                    version: extract_version_spec(filename@),
                    architecture: Seq::empty(),
                    scope: InstallScope::User,
                    tracked_files: seq![path@],
                    declared_configs: Seq::empty(),
                    size_bytes: SizeBreakdown {
                        package_size: size,
                        total_footprint: size,
                        ..zero_sizes()
                    },
                    installed_at: match modified_secs {
                        Some(s) => representable(Some(s as i64)),
                        None => None,
                    },
                    summary: Seq::empty(),
                    description: Seq::empty(),
                    homepage: None,
                    license: None,
                },
            ),
    {
        let installed_at = match modified_secs {
            Some(s) => utc_timestamp(s as i64),
            None => None,
        };
        Self::footprint_at(filename, path, size, installed_at)
    }

    /// The footprint of an AppImage file with the given installation time
    /// (see `footprint_for_file`).
    pub fn footprint_at(filename: &str, path: String, size: u64, installed_at: Option<i64>) -> (r:
        AppFootprint)
        ensures
            describes(
                r,
                FootprintFields {
                    id: "appimage:"@ + filename@,
                    display_name: parse_name_spec(filename@),
                    source: PackageSource::Loose,
                    version: extract_version_spec(filename@),
                    architecture: Seq::empty(),
                    scope: InstallScope::User,
                    tracked_files: seq![path@],
                    declared_configs: Seq::empty(),
                    size_bytes: SizeBreakdown {
                        package_size: size,
                        total_footprint: size,
                        ..zero_sizes()
                    },
                    installed_at,
                    summary: Seq::empty(),
                    description: Seq::empty(),
                    homepage: None,
                    license: None,
                },
            ),
    {
        let mut id = String::new();
        push_str(&mut id, "appimage:");
        push_str(&mut id, filename);
        assert(id@ =~= "appimage:"@ + filename@);
        let display_name = Self::parse_name(filename);
        let version = Self::extract_version(filename);
        let mut sizes = SizeBreakdown::default();
        sizes.package_size = size;
        sizes.total_footprint = size;
        let mut files: Vec<SystemPath> = Vec::new();
        let ghost p = path@;
        files.push(path);
        let no_configs: Vec<SystemPath> = Vec::new();
        assert(string_views(files@) =~= seq![p]);
        assert(string_views(no_configs@) =~= Seq::empty());
        new_footprint(
            id,
            display_name,
            PackageSource::Loose,
            version,
            String::new(),
            InstallScope::User,
            files,
            no_configs,
            sizes,
            installed_at,
            String::new(),
            String::new(),
            None,
            None,
        )
    }
}

} // verus!
