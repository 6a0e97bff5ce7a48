use orbit::adapters::sizes::format_size;

fn float_format_size(bytes: u64) -> String {
    let units = ["B", "KB", "MB", "GB", "TB"];
    let mut s = bytes as f64;
    let mut i = 0;
    while s >= 1024.0 && i < units.len() - 1 {
        s /= 1024.0;
        i += 1;
    }
    if i == 0 {
        format!("{} {}", bytes, units[i])
    } else {
        format!("{:.1} {}", s, units[i])
    }
}

#[test]
fn format_size_small_values_are_bytes() {
    assert_eq!(format_size(0), "0 B");
    assert_eq!(format_size(512), "512 B");
    assert_eq!(format_size(1023), "1023 B");
}

#[test]
fn format_size_units() {
    assert_eq!(format_size(1024), "1.0 KB");
    assert_eq!(format_size(1536), "1.5 KB");
    assert_eq!(format_size(1024 * 1024), "1.0 MB");
    assert_eq!(format_size(3 * 1024 * 1024 * 1024), "3.0 GB");
    assert_eq!(format_size(5 * 1024u64.pow(4)), "5.0 TB");
    assert_eq!(format_size(2048 * 1024u64.pow(4)), "2048.0 TB");
}

#[test]
fn format_size_agrees_with_float_formatting() {
    let mut values: Vec<u64> = Vec::new();
    for k in 0..20000u64 {
        values.push(k);
        values.push(k * 256);
        values.push(k * 1_000_003);
        values.push(k.wrapping_mul(0x9E37_79B9_7F4A_7C15));
    }
    for shift in 0..64 {
        let p = 1u64 << shift;
        for d in 0..8u64 {
            values.push(p.wrapping_add(d));
            values.push(p.wrapping_sub(d));
        }
    }
    values.push(u64::MAX);
    values.push(u64::MAX - 1024);
    values.push((1u64 << 53) + 1);
    values.push((1u64 << 53) + 3);
    for v in values {
        assert_eq!(format_size(v), float_format_size(v), "value {}", v);
    }
}
