use orbit::text::{
    chars_eq_ignore_ascii_case, chars_of, contains_str, dec_string, find_exec, lines_exec,
    parse_i64_exec, parse_u64_exec, split_exec, splitn_exec, string_of, trim_exec, trim_string,
    words_exec,
};

fn cv(s: &str) -> Vec<char> {
    s.chars().collect()
}

fn sv(v: &Vec<Vec<char>>) -> Vec<String> {
    v.iter().map(|p| p.iter().collect()).collect()
}

const SAMPLES: &[&str] = &[
    "",
    " ",
    "a",
    "a\n",
    "\n",
    "a\nb",
    "a\r\nb\r\n",
    "a\n\nb\n",
    "x\r",
    "\r\n\r\n",
    "  hello  world \t",
    "\u{a0}nbsp\u{202f}",
    "tab\tsep\t\tend",
    "a, b | c, , N/A",
    "aaa",
    "+12",
    "-12",
    "0",
    "18446744073709551615",
    "18446744073709551616",
    "9223372036854775807",
    "-9223372036854775808",
    "-9223372036854775809",
    "+",
    "-",
    "1 2",
    "١٢",
    "Größe – ümlaut",
];

#[test]
fn chars_round_trip() {
    for s in SAMPLES {
        let c = chars_of(s);
        assert_eq!(c, cv(s));
        assert_eq!(string_of(&c), *s);
    }
}

#[test]
fn lines_agree_with_str_lines() {
    for s in SAMPLES {
        let expected: Vec<String> = s.lines().map(|l| l.to_string()).collect();
        assert_eq!(lines_exec(s), expected, "input {:?}", s);
    }
    assert_eq!(lines_exec("a\r\nb\n\nc"), vec!["a", "b", "", "c"]);
}

#[test]
fn trim_agrees_with_str_trim() {
    for s in SAMPLES {
        let t: String = trim_exec(&cv(s)).into_iter().collect();
        assert_eq!(t, s.trim());
        assert_eq!(trim_string(s), s.trim());
    }
}

#[test]
fn words_agree_with_split_whitespace() {
    for s in SAMPLES {
        let expected: Vec<String> = s.split_whitespace().map(|w| w.to_string()).collect();
        assert_eq!(sv(&words_exec(&cv(s))), expected, "input {:?}", s);
    }
}

#[test]
fn split_agrees_with_str_split() {
    for s in SAMPLES {
        for sep in ["\t", ", ", " | ", "-", "aa", "\n"] {
            let expected: Vec<String> = s.split(sep).map(|w| w.to_string()).collect();
            assert_eq!(sv(&split_exec(&cv(s), &cv(sep))), expected, "{:?} by {:?}", s, sep);
            for n in 1..5usize {
                let expected: Vec<String> = s.splitn(n, sep).map(|w| w.to_string()).collect();
                assert_eq!(sv(&splitn_exec(&cv(s), n, &cv(sep))), expected);
            }
        }
    }
}

#[test]
fn integers_agree_with_str_parse() {
    for s in SAMPLES {
        assert_eq!(parse_u64_exec(&cv(s)), s.parse::<u64>().ok(), "u64 {:?}", s);
        assert_eq!(parse_i64_exec(&cv(s)), s.parse::<i64>().ok(), "i64 {:?}", s);
    }
    for n in [0u64, 7, 10, 99, 100, 12345, u64::MAX] {
        assert_eq!(dec_string(n), n.to_string());
    }
}

#[test]
fn find_and_contains() {
    assert_eq!(find_exec(&cv("Name - Summary - x"), &cv(" - ")), Some(4));
    assert_eq!(find_exec(&cv("Name"), &cv(" - ")), None);
    assert!(contains_str(&cv("install ok installed"), "installed"));
    assert!(!contains_str(&cv("deinstall ok config-files"), "installed"));
}

#[test]
fn ascii_case_insensitive_equality() {
    assert!(chars_eq_ignore_ascii_case(&cv("Reverse Depends:"), &cv("reverse depends:")));
    assert!(!chars_eq_ignore_ascii_case(&cv("Reverse Depends"), &cv("Reverse Depends:")));
    assert!(!chars_eq_ignore_ascii_case(&cv("É"), &cv("é")));
}
