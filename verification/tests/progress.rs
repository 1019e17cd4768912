use krate::progress::{bytes, progress_text};

fn reference_bytes(value: u64) -> String {
    const KIB: f64 = 1024.0;
    const MIB: f64 = KIB * 1024.0;
    let value = value as f64;
    if value >= MIB {
        format!("{:.1} MiB", value / MIB)
    } else if value >= KIB {
        format!("{:.1} KiB", value / KIB)
    } else {
        format!("{} B", value as u64)
    }
}

#[test]
fn bytes_matches_float_display_on_small_counts() {
    for value in 0u64..20000 {
        assert_eq!(bytes(value), reference_bytes(value), "value {value}");
    }
}

#[test]
fn bytes_matches_float_display_on_large_counts() {
    let mut samples: Vec<u64> = vec![u64::MAX, u64::MAX - 1, 1 << 53, (1 << 53) + 1, (1 << 53) + 3, (1 << 54) + 2, (1 << 54) + 6];
    let mut x: u64 = 0x9E37_79B9_7F4A_7C15;
    for _ in 0..20000 {
        x ^= x << 13;
        x ^= x >> 7;
        x ^= x << 17;
        samples.push(x);
        samples.push(x >> (x % 64));
        samples.push(((x >> 40) << 10) | 512);
        samples.push(((x >> 44) << 20) | (1 << 19));
    }
    for base in [1024u64 * 1024, 1024] {
        for k in 0..5000u64 {
            samples.push(base * k + base / 2);
            samples.push(base * k + base / 20);
            samples.push(base * k + (base / 20) * 3);
        }
    }
    for value in samples {
        assert_eq!(bytes(value), reference_bytes(value), "value {value}");
    }
}

#[test]
fn bytes_examples() {
    assert_eq!(bytes(0), "0 B");
    assert_eq!(bytes(1023), "1023 B");
    assert_eq!(bytes(1024), "1.0 KiB");
    assert_eq!(bytes(1536), "1.5 KiB");
    assert_eq!(bytes(1280), "1.2 KiB");
    assert_eq!(bytes(1792), "1.8 KiB");
    assert_eq!(bytes(1048576), "1.0 MiB");
    assert_eq!(bytes(5 * 1048576 + 524288), "5.5 MiB");
}

#[test]
fn progress_text_with_and_without_total() {
    assert_eq!(progress_text(512, Some(2048)), "512 B / 2.0 KiB");
    assert_eq!(progress_text(512, Some(0)), "512 B downloaded");
    assert_eq!(progress_text(2048, None), "2.0 KiB downloaded");
}
