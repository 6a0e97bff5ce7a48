//! Size accounting: sorting a package's files into categories by path, and
//! printing byte counts for people.

use vstd::prelude::*;

use crate::models::SizeBreakdown;
use crate::text::{
    chars_eq_str, chars_of, dec, parse_u64, parse_u64_exec, push_dec, push_str, starts_with,
    starts_with_str, words, words_exec,
};

verus! {

// ---------------------------------------------------------------------------
// Categories
// ---------------------------------------------------------------------------

/// Where the bytes of one file are counted, besides the total.
#[derive(Debug, Clone, Copy, PartialEq, Eq, Structural)]
pub enum SizeCategory {
    Config,
    Cache,
    Data,
    Shared,
    Uncounted,
}

/// The leading characters of `s` up to (not including) its first `/`.
pub open spec fn leading_name(s: Seq<char>) -> Seq<char>
    decreases s.len(),
{
    if s.len() == 0 || s[0] == '/' {
        Seq::empty()
    } else {
        seq![s[0]] + leading_name(s.skip(1))
    }
}

/// The first name in a path: for an absolute path the text after the
/// leading `/` up to the next `/` (`"/etc/foo.conf"` → `"etc"`), for a
/// relative one the text up to the first `/`.
pub open spec fn first_name(path: Seq<char>) -> Seq<char> {
    if path.len() > 0 && path[0] == '/' {
        leading_name(path.skip(1))
    } else {
        leading_name(path)
    }
}

/// The category of the file `path` whose first name is `first`: the first
/// matching rule of
/// `etc` → config; `var` under `/var/cache/` → cache;
/// `usr` under `/usr/share/` or `/usr/local/share/` → data;
/// `var` under `/var/lib/` or `/var/opt/` → data; `opt` → data;
/// `usr` under `/usr/lib/`, `/usr/lib64/` or `/usr/libexec/` → shared.
pub open spec fn category_of(first: Seq<char>, path: Seq<char>) -> SizeCategory {
    if first == "etc"@ {
        SizeCategory::Config
    } else if first == "var"@ && starts_with(path, "/var/cache/"@) {
        SizeCategory::Cache
    } else if first == "usr"@ && (starts_with(path, "/usr/share/"@) || starts_with(
        path,
        "/usr/local/share/"@,
    )) {
        SizeCategory::Data
    } else if first == "var"@ && (starts_with(path, "/var/lib/"@) || starts_with(
        path,
        "/var/opt/"@,
    )) {
        SizeCategory::Data
    } else if first == "opt"@ {
        SizeCategory::Data
    } else if first == "usr"@ && (starts_with(path, "/usr/lib/"@) || starts_with(
        path,
        "/usr/lib64/"@,
    ) || starts_with(path, "/usr/libexec/"@)) {
        SizeCategory::Shared
    } else {
        SizeCategory::Uncounted
    }
}

/// The category of the file at `path`.
pub open spec fn path_category(path: Seq<char>) -> SizeCategory {
    category_of(first_name(path), path)
}

/// The characters of `p` from `start` up to its next `/`.
fn leading_name_exec(p: &Vec<char>, start: usize) -> (r: Vec<char>)
    requires
        start <= p@.len(),
    ensures
        r@ == leading_name(p@.skip(start as int)),
{
    let mut out: Vec<char> = Vec::new();
    let mut i: usize = start;
    while i < p.len() && p[i] != '/'
        invariant
            start <= i <= p@.len(),
            leading_name(p@.skip(start as int)) == out@ + leading_name(p@.skip(i as int)),
        decreases p@.len() - i,
    {
        proof {
            let t = p@.skip(i as int);
            assert(t[0] == p@[i as int]);
            assert(t.skip(1) =~= p@.skip(i + 1));
            assert(leading_name(t) == seq![p@[i as int]] + leading_name(p@.skip(i + 1)));
            assert(out@.push(p@[i as int]) + leading_name(p@.skip(i + 1)) =~= out@ + (seq![
                p@[i as int],
            ] + leading_name(p@.skip(i + 1))));
        }
        out.push(p[i]);
        i += 1;
    }
    proof {
        assert(leading_name(p@.skip(i as int)) =~= Seq::<char>::empty());
        assert(out@ + Seq::<char>::empty() =~= out@);
    }
    out
}

/// The category of the file at `path`.
pub fn categorize(path: &str) -> (r: SizeCategory)
    ensures
        r == path_category(path@),
{
    let p = chars_of(path);
    let fc = if p.len() > 0 && p[0] == '/' {
        leading_name_exec(&p, 1)
    } else {
        let f = leading_name_exec(&p, 0);
        assert(p@.skip(0) =~= p@);
        f
    };
    if chars_eq_str(&fc, "etc") {
        SizeCategory::Config
    } else if chars_eq_str(&fc, "var") && starts_with_str(&p, "/var/cache/") {
        SizeCategory::Cache
    } else if chars_eq_str(&fc, "usr") && (starts_with_str(&p, "/usr/share/") || starts_with_str(
        &p,
        "/usr/local/share/",
    )) {
        SizeCategory::Data
    } else if chars_eq_str(&fc, "var") && (starts_with_str(&p, "/var/lib/") || starts_with_str(
        &p,
        "/var/opt/",
    )) {
        SizeCategory::Data
    } else if chars_eq_str(&fc, "opt") {
        SizeCategory::Data
    } else if chars_eq_str(&fc, "usr") && (starts_with_str(&p, "/usr/lib/") || starts_with_str(
        &p,
        "/usr/lib64/",
    ) || starts_with_str(&p, "/usr/libexec/")) {
        SizeCategory::Shared
    } else {
        SizeCategory::Uncounted
    }
}

/// The path and byte size of each file, as characters.
pub open spec fn file_views(files: Seq<(String, u64)>) -> Seq<(Seq<char>, u64)> {
    files.map_values(|f: (String, u64)| (f.0@, f.1))
}

/// The sum of the sizes of the files.
pub open spec fn total_of(files: Seq<(Seq<char>, u64)>) -> nat
    decreases files.len(),
{
    if files.len() == 0 {
        0
    } else {
        (total_of(files.drop_last()) + files.last().1) as nat
    }
}

/// The sum of the sizes of the files in category `cat`.
pub open spec fn category_total(files: Seq<(Seq<char>, u64)>, cat: SizeCategory) -> nat
    decreases files.len(),
{
    if files.len() == 0 {
        0
    } else {
        category_total(files.drop_last(), cat) + (if path_category(files.last().0) == cat {
            files.last().1 as nat
        } else {
            0nat
        })
    }
}

/// The breakdown of the files: every size counted in the total, and each
/// in its category; no archive size.
pub open spec fn breakdown_of(files: Seq<(Seq<char>, u64)>) -> SizeBreakdown {
    SizeBreakdown {
        package_size: 0,
        config_size: category_total(files, SizeCategory::Config) as u64,
        cache_size: category_total(files, SizeCategory::Cache) as u64,
        data_size: category_total(files, SizeCategory::Data) as u64,
        shared_size: category_total(files, SizeCategory::Shared) as u64,
        total_footprint: total_of(files) as u64,
    }
}

/// The categories never count more bytes together than the total.
pub proof fn lemma_categories_within_total(files: Seq<(Seq<char>, u64)>)
    ensures
        category_total(files, SizeCategory::Config) + category_total(files, SizeCategory::Cache)
            + category_total(files, SizeCategory::Data) + category_total(
            files,
            SizeCategory::Shared,
        ) <= total_of(files),
    decreases files.len(),
{
    if files.len() > 0 {
        lemma_categories_within_total(files.drop_last());
    }
}

/// Adds up the sizes of the files, in total and by category.  `None` when
/// the total exceeds `u64::MAX` (where plain `u64` addition overflows).
pub fn size_breakdown(files: &Vec<(String, u64)>) -> (r: Option<SizeBreakdown>)
    ensures
        r is None <==> total_of(file_views(files@)) > u64::MAX,
        r matches Some(b) ==> b == breakdown_of(file_views(files@)),
{
    let ghost all = file_views(files@);
    let mut total: u64 = 0;
    let mut config: u64 = 0;
    let mut cache: u64 = 0;
    let mut data: u64 = 0;
    let mut shared: u64 = 0;
    let mut i: usize = 0;
    while i < files.len()
        invariant
            i <= files@.len(),
            all == file_views(files@),
            total == total_of(all.take(i as int)),
            config == category_total(all.take(i as int), SizeCategory::Config),
            cache == category_total(all.take(i as int), SizeCategory::Cache),
            data == category_total(all.take(i as int), SizeCategory::Data),
            shared == category_total(all.take(i as int), SizeCategory::Shared),
        decreases files@.len() - i,
    {
        let ghost pre = all.take(i as int);
        let ghost post = all.take(i + 1);
        proof {
            assert(post.drop_last() =~= pre);
            assert(post.last() == all[i as int]);
            lemma_categories_within_total(post);
        }
        let size = files[i].1;
        let cat = categorize(files[i].0.as_str());
        match total.checked_add(size) {
            Some(t) => {
                total = t;
            },
            None => {
                proof {
                    lemma_total_prefix(all, i + 1);
                }
                return None;
            },
        }
        match cat {
            SizeCategory::Config => {
                config = config + size;
            },
            SizeCategory::Cache => {
                cache = cache + size;
            },
            SizeCategory::Data => {
                data = data + size;
            },
            SizeCategory::Shared => {
                shared = shared + size;
            },
            SizeCategory::Uncounted => {},
        }
        i += 1;
    }
    proof {
        assert(all.take(files@.len() as int) =~= all);
    }
    Some(
        SizeBreakdown {
            package_size: 0,
            config_size: config,
            cache_size: cache,
            data_size: data,
            shared_size: shared,
            total_footprint: total,
        },
    )
}

proof fn lemma_total_prefix(files: Seq<(Seq<char>, u64)>, k: int)
    requires
        0 <= k <= files.len(),
    ensures
        total_of(files.take(k)) <= total_of(files),
    decreases files.len() - k,
{
    if k < files.len() {
        lemma_total_prefix(files, k + 1);
        assert(files.take(k + 1).drop_last() =~= files.take(k));
    } else {
        assert(files.take(k) =~= files);
    }
}

/// The byte count printed by `du -sb` when it succeeded: its first word
/// as a number, else 0.
pub open spec fn du_bytes_spec(success: bool, stdout: Seq<char>) -> u64 {
    if success && words(stdout).len() > 0 {
        match parse_u64(words(stdout)[0]) {
            Some(v) => v,
            None => 0,
        }
    } else {
        0
    }
}

/// The byte count printed by `du -sb` (see `du_bytes_spec`).
pub fn du_bytes(success: bool, stdout: &str) -> (r: u64)
    ensures
        r == du_bytes_spec(success, stdout@),
{
    if !success {
        return 0;
    }
    let c = chars_of(stdout);
    let w = words_exec(&c);
    if w.len() == 0 {
        return 0;
    }
    match parse_u64_exec(&w[0]) {
        Some(v) => v,
        None => 0,
    }
}

/// The sum of the sizes.
pub open spec fn sum_of(sizes: Seq<u64>) -> nat
    decreases sizes.len(),
{
    if sizes.len() == 0 {
        0
    } else {
        (sum_of(sizes.drop_last()) + sizes.last()) as nat
    }
}

proof fn lemma_sum_prefix(sizes: Seq<u64>, k: int)
    requires
        0 <= k <= sizes.len(),
    ensures
        sum_of(sizes.take(k)) <= sum_of(sizes),
    decreases sizes.len() - k,
{
    if k < sizes.len() {
        lemma_sum_prefix(sizes, k + 1);
        assert(sizes.take(k + 1).drop_last() =~= sizes.take(k));
    } else {
        assert(sizes.take(k) =~= sizes);
    }
}

/// The sum of the sizes; `None` when it exceeds `u64::MAX` (where plain
/// `u64` addition overflows).
pub fn sum_sizes(sizes: &Vec<u64>) -> (r: Option<u64>)
    ensures
        r is None <==> sum_of(sizes@) > u64::MAX,
        r matches Some(t) ==> t == sum_of(sizes@),
{
    let mut total: u64 = 0;
    let mut i: usize = 0;
    while i < sizes.len()
        invariant
            i <= sizes@.len(),
            total == sum_of(sizes@.take(i as int)),
        decreases sizes@.len() - i,
    {
        proof {
            assert(sizes@.take(i + 1).drop_last() =~= sizes@.take(i as int));
        }
        match total.checked_add(sizes[i]) {
            Some(t) => {
                total = t;
            },
            None => {
                proof {
                    lemma_sum_prefix(sizes@, i + 1);
                }
                return None;
            },
        }
        i += 1;
    }
    assert(sizes@.take(sizes@.len() as int) =~= sizes@);
    Some(total)
}

// ---------------------------------------------------------------------------
// Human-readable sizes
// ---------------------------------------------------------------------------

pub open spec fn pow1024(i: nat) -> nat
    decreases i,
{
    if i == 0 {
        1
    } else {
        1024 * pow1024((i - 1) as nat)
    }
}

/// The spacing between neighbouring `f64` values around `n`.
pub open spec fn f64_spacing(n: nat) -> nat
    decreases n,
{
    if n < 0x20_0000_0000_0000 {
        1
    } else {
        2 * f64_spacing(n / 2)
    }
}

/// `n` rounded to a multiple of `u`, ties to the even multiple.
pub open spec fn round_half_even(n: nat, u: nat) -> nat
    recommends
        u > 0,
{
    let q = n / u;
    let r = n % u;
    if 2 * r > u || (2 * r == u && q % 2 == 1) {
        (q + 1) * u
    } else {
        q * u
    }
}

/// The value of `n as f64` (round to nearest, ties to even).
pub open spec fn as_f64(n: nat) -> nat {
    round_half_even(n, f64_spacing(n))
}

/// How many times 1024 divides into `x` before the quotient falls below
/// 1024, at most 4 (bytes, then KB, MB, GB, TB).
pub open spec fn unit_index(x: nat) -> nat {
    if x >= pow1024(4) {
        4
    } else if x >= pow1024(3) {
        3
    } else if x >= pow1024(2) {
        2
    } else if x >= pow1024(1) {
        1
    } else {
        0
    }
}

pub open spec fn unit_name(i: nat) -> Seq<char> {
    if i == 0 {
        "B"@
    } else if i == 1 {
        "KB"@
    } else if i == 2 {
        "MB"@
    } else if i == 3 {
        "GB"@
    } else {
        "TB"@
    }
}

/// Tenths of `x / 1024^i`, rounded to nearest with ties to even (`{:.1}`).
pub open spec fn tenths(x: nat, i: nat) -> nat {
    round_half_even(x * 10, pow1024(i)) / pow1024(i)
}

/// A byte count for people: whole bytes below 1 KB (`"512 B"`), otherwise
/// one decimal in the largest binary unit up to TB that keeps the value at
/// least 1 (`"1.5 MB"`), computed from the count as an `f64`.
pub open spec fn format_size_spec(bytes: u64) -> Seq<char> {
    let x = as_f64(bytes as nat);
    let i = unit_index(x);
    if i == 0 {
        dec(bytes as nat) + " B"@
    } else {
        let t = tenths(x, i);
        dec(t / 10) + "."@ + dec(t % 10) + " "@ + unit_name(i)
    }
}

proof fn lemma_pow1024()
    ensures
        pow1024(0) == 1,
        pow1024(1) == 1024,
        pow1024(2) == 0x10_0000,
        pow1024(3) == 0x4000_0000,
        pow1024(4) == 0x100_0000_0000,
{
    reveal_with_fuel(pow1024, 5);
}

/// The value of `n as f64`.
fn exec_as_f64(n: u64) -> (r: u128)
    ensures
        r == as_f64(n as nat),
        r <= 0x2_0000_0000_0000_0000,
{
    let mut m: u64 = n;
    let mut u: u128 = 1;
    while m >= 0x20_0000_0000_0000
        invariant
            f64_spacing(n as nat) == u * f64_spacing(m as nat),
            1 <= u <= n + 1,
            u * m <= n,
            n < u * (m + 1),
        decreases m,
    {
        proof {
            assert(f64_spacing(m as nat) == 2 * f64_spacing((m / 2) as nat));
            assert(u * m <= n);
            assert((u * 2) * (m / 2) <= u * m) by (nonlinear_arith)
                requires
                    u >= 1,
            ;
            assert(u * (m + 1) <= (u * 2) * (m / 2 + 1)) by (nonlinear_arith)
                requires
                    u >= 1,
            ;
            assert(u * f64_spacing(m as nat) == (u * 2) * f64_spacing((m / 2) as nat))
                by (nonlinear_arith)
                requires
                    f64_spacing(m as nat) == 2 * f64_spacing((m / 2) as nat),
            ;
        }
        m = m / 2;
        u = u * 2;
        proof {
            assert(u <= n) by (nonlinear_arith)
                requires
                    u * m <= n,
                    m >= 1,
                    u >= 1,
            ;
        }
    }
    proof {
        assert(f64_spacing(m as nat) == 1);
        assert(f64_spacing(n as nat) == u) by (nonlinear_arith)
            requires
                f64_spacing(n as nat) == u * f64_spacing(m as nat),
                f64_spacing(m as nat) == 1,
        ;
    }
    let nn = n as u128;
    let q = nn / u;
    let r = nn % u;
    proof {
        assert(q * u <= nn) by (nonlinear_arith)
            requires
                q == nn / u,
                u >= 1,
        ;
        assert((q + 1) * u <= nn + u) by (nonlinear_arith)
            requires
                q == nn / u,
                u >= 1,
        ;
    }
    let out: u128 = if 2 * r > u || (2 * r == u && q % 2 == 1) {
        (q + 1) * u
    } else {
        q * u
    };
    proof {
        assert(q * u <= nn) by (nonlinear_arith)
            requires
                q == nn / u,
                u >= 1,
        ;
        assert((q + 1) * u <= nn + u) by (nonlinear_arith)
            requires
                q == nn / u,
                u >= 1,
        ;
    }
    assert(out == round_half_even(n as nat, u as nat));
    out
}

fn push_unit(s: &mut String, i: u64)
    requires
        i <= 4,
    ensures
        final(s)@ == old(s)@ + unit_name(i as nat),
{
    if i == 0 {
        push_str(s, "B");
    } else if i == 1 {
        push_str(s, "KB");
    } else if i == 2 {
        push_str(s, "MB");
    } else if i == 3 {
        push_str(s, "GB");
    } else {
        push_str(s, "TB");
    }
}

/// A byte count for people, e.g. `"512 B"`, `"1.5 KB"`, `"3.0 GB"`.
pub fn format_size(bytes: u64) -> (r: String)
    ensures
        r@ == format_size_spec(bytes),
{
    proof {
        lemma_pow1024();
    }
    let x = exec_as_f64(bytes);
    let i: u64 = if x >= 0x100_0000_0000 {
        4
    } else if x >= 0x4000_0000 {
        3
    } else if x >= 0x10_0000 {
        2
    } else if x >= 1024 {
        1
    } else {
        0
    };
    let mut s = String::new();
    if i == 0 {
        push_dec(&mut s, bytes);
        push_str(&mut s, " B");
        assert(Seq::<char>::empty() + dec(bytes as nat) + " B"@ =~= dec(bytes as nat) + " B"@);
        return s;
    }
    let d: u128 = if i == 1 {
        1024
    } else if i == 2 {
        0x10_0000
    } else if i == 3 {
        0x4000_0000
    } else {
        0x100_0000_0000
    };
    assert(d == pow1024(i as nat));
    let n10 = x * 10;
    let q = n10 / d;
    let rem = n10 % d;
    let rounded: u128 = if 2 * rem > d || (2 * rem == d && q % 2 == 1) {
        q + 1
    } else {
        q
    };
    proof {
        let qi = q as int;
        let di = d as int;
        if 2 * rem > d || (2 * rem == d && q % 2 == 1) {
            vstd::arithmetic::div_mod::lemma_div_by_multiple(qi + 1, di);
        } else {
            vstd::arithmetic::div_mod::lemma_div_by_multiple(qi, di);
        }
        assert(round_half_even(n10 as nat, d as nat) / (d as nat) == rounded);
        assert(q <= n10 / 1024) by (nonlinear_arith)
            requires
                q == n10 / d,
                d >= 1024,
        ;
    }
    let t: u64 = rounded as u64;
    push_dec(&mut s, t / 10);
    push_str(&mut s, ".");
    push_dec(&mut s, t % 10);
    push_str(&mut s, " ");
    push_unit(&mut s, i);
    assert(s@ =~= dec((t / 10) as nat) + "."@ + dec((t % 10) as nat) + " "@ + unit_name(i as nat));
    s
}

} // verus!
