use orbit::adapters::sizes::{categorize, du_bytes, size_breakdown, sum_sizes, SizeCategory};
use orbit::adapters::{command_lines, non_empty_lines, not_available, prefixed_id, strip_source_prefix, AdapterError};

fn lines(v: &[&str]) -> Vec<String> {
    v.iter().map(|s| s.to_string()).collect()
}

#[test]
fn source_prefixes() {
    assert_eq!(strip_source_prefix("apt:vim", "apt:"), "vim");
    assert_eq!(strip_source_prefix("vim", "apt:"), "vim");
    assert_eq!(strip_source_prefix("apt:", "apt:"), "");
    assert_eq!(prefixed_id("rpm:", "bash"), "rpm:bash");
}

#[test]
fn command_output_lines() {
    match command_lines("dpkg-query", true, "a\r\nb\n\nc", "") {
        Ok(v) => assert_eq!(v, lines(&["a", "b", "", "c"])),
        Err(_) => panic!("expected lines"),
    }
    match command_lines("dpkg-query", true, "", "") {
        Ok(v) => assert!(v.is_empty()),
        Err(_) => panic!("expected lines"),
    }
    match command_lines("rpm", false, "ignored", "no such package\n") {
        Err(AdapterError::Backend(m)) => assert_eq!(m, "rpm failed: no such package\n"),
        _ => panic!("expected a backend error"),
    }
}

#[test]
fn non_empty_lines_keep_order() {
    assert_eq!(non_empty_lines(&lines(&["", "a", "", " ", "b"])), lines(&["a", " ", "b"]));
    assert!(matches!(not_available("nope"), AdapterError::NotAvailable(m) if m == "nope"));
}

#[test]
fn categories_follow_the_first_name() {
    assert_eq!(categorize("/etc/foo.conf"), SizeCategory::Config);
    assert_eq!(categorize("/var/cache/foo/x"), SizeCategory::Cache);
    assert_eq!(categorize("/usr/share/doc/x"), SizeCategory::Data);
    assert_eq!(categorize("/usr/local/share/x"), SizeCategory::Data);
    assert_eq!(categorize("/var/lib/x"), SizeCategory::Data);
    assert_eq!(categorize("/var/opt/x"), SizeCategory::Data);
    assert_eq!(categorize("/opt/app/bin"), SizeCategory::Data);
    assert_eq!(categorize("/usr/lib64/libfoo.so"), SizeCategory::Shared);
    assert_eq!(categorize("/usr/libexec/x"), SizeCategory::Shared);
    assert_eq!(categorize("/usr/bin/foo"), SizeCategory::Uncounted);
    assert_eq!(categorize("/var/log/x"), SizeCategory::Uncounted);
    assert_eq!(categorize("/etcetera/x"), SizeCategory::Uncounted);
    assert_eq!(categorize("/etc"), SizeCategory::Config);
    assert_eq!(categorize("etc/foo.conf"), SizeCategory::Config);
    assert_eq!(categorize("var/cache/x"), SizeCategory::Uncounted);
    assert_eq!(categorize(""), SizeCategory::Uncounted);
    assert_eq!(categorize("/"), SizeCategory::Uncounted);
}

#[test]
fn rpm_file_sizes_by_category() {
    let lines: Vec<String> = [
        "/etc/foo.conf\t100",
        "/var/cache/foo/x\t50",
        "/usr/share/foo/d\t200",
        "/usr/lib64/libfoo.so\t300",
        "/usr/bin/foo\t7",
    ]
    .iter()
    .map(|s| s.to_string())
    .collect();
    let b = size_breakdown(&orbit::adapters::dnf::DnfAdapter::file_entries(&lines)).unwrap();
    assert_eq!(b.package_size, 0);
    assert_eq!(b.config_size, 100);
    assert_eq!(b.cache_size, 50);
    assert_eq!(b.data_size, 200);
    assert_eq!(b.shared_size, 300);
    assert_eq!(b.total_footprint, 657);
}

#[test]
fn breakdown_adds_sizes() {
    let files = vec![
        ("/usr/bin/x".to_string(), 10u64),
        ("/etc/x.conf".to_string(), 5),
        ("/opt/x/data".to_string(), 7),
    ];
    let b = size_breakdown(&files).unwrap();
    assert_eq!(b.total_footprint, 22);
    assert_eq!(b.config_size, 5);
    assert_eq!(b.data_size, 7);
    assert_eq!(b.cache_size, 0);
    assert_eq!(b.shared_size, 0);
    assert_eq!(b.package_size, 0);
    assert!(b.config_size + b.cache_size + b.data_size + b.shared_size <= b.total_footprint);
    let over = vec![("a".to_string(), u64::MAX), ("b".to_string(), 1)];
    assert!(size_breakdown(&over).is_none());
    assert_eq!(size_breakdown(&Vec::new()).unwrap().total_footprint, 0);
}

#[test]
fn du_output_bytes() {
    assert_eq!(du_bytes(true, "123456\t/var/lib/x\n"), 123456);
    assert_eq!(du_bytes(false, "123456\t/var/lib/x\n"), 0);
    assert_eq!(du_bytes(true, ""), 0);
    assert_eq!(du_bytes(true, "du: cannot access"), 0);
}

#[test]
fn sums_of_sizes() {
    assert_eq!(sum_sizes(&vec![1, 2, 3]), Some(6));
    assert_eq!(sum_sizes(&vec![]), Some(0));
    assert_eq!(sum_sizes(&vec![u64::MAX, 1]), None);
    assert_eq!(sum_sizes(&vec![u64::MAX, 0]), Some(u64::MAX));
}
