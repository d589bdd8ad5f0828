use dagger_explorer::format::{format_byte_size, format_kb_grouped, format_size_kb, format_with_commas, item_count_label};

#[test]
fn commas() {
    assert_eq!(format_with_commas(0), "0");
    assert_eq!(format_with_commas(999), "999");
    assert_eq!(format_with_commas(1000), "1,000");
    assert_eq!(format_with_commas(1234567), "1,234,567");
    assert_eq!(format_with_commas(u64::MAX), "18,446,744,073,709,551,615");
}

#[test]
fn kilobytes_rounded_up() {
    assert_eq!(format_size_kb(0), "0 KB");
    assert_eq!(format_size_kb(1), "1 KB");
    assert_eq!(format_size_kb(1024), "1 KB");
    assert_eq!(format_size_kb(1025), "2 KB");
    assert_eq!(format_size_kb(1048576), "1,024 KB");
    assert_eq!(format_kb_grouped(0), "0");
    assert_eq!(format_kb_grouped(2048), "2");
    assert_eq!(format_kb_grouped(5_000_000), "4,883");
}

#[test]
fn item_counts() {
    assert_eq!(item_count_label(1), "1 item");
    assert_eq!(item_count_label(0), "0 items");
    assert_eq!(item_count_label(5), "5 items");
}

#[test]
fn byte_sizes() {
    assert_eq!(format_byte_size(0), "0 B");
    assert_eq!(format_byte_size(1023), "1023 B");
    assert_eq!(format_byte_size(1024), "1.0 KB");
    assert_eq!(format_byte_size(1536), "1.5 KB");
    assert_eq!(format_byte_size(1280), "1.2 KB");
    assert_eq!(format_byte_size(1792), "1.8 KB");
    assert_eq!(format_byte_size(1048575), "1024.0 KB");
    assert_eq!(format_byte_size(1048576), "1.0 MB");
    assert_eq!(format_byte_size(1073741824), "1.0 GB");
    assert_eq!(format_byte_size(u64::MAX), "17179869184.0 GB");
}

fn float_text(size: u64) -> String {
    const KB: u64 = 1024;
    const MB: u64 = KB * 1024;
    const GB: u64 = MB * 1024;
    if size >= GB {
        format!("{:.1} GB", size as f64 / GB as f64)
    } else if size >= MB {
        format!("{:.1} MB", size as f64 / MB as f64)
    } else if size >= KB {
        format!("{:.1} KB", size as f64 / KB as f64)
    } else {
        format!("{size} B")
    }
}

#[test]
fn byte_sizes_match_float_formatting() {
    let mut samples: Vec<u64> = Vec::new();
    for n in 0..5000u64 {
        samples.push(n * 97);
        samples.push(1024 * n + 51);
        samples.push(1024 * 1024 * n + 52429 * (n % 20));
    }
    for shift in 0..64u32 {
        let p = 1u64 << shift;
        samples.push(p);
        samples.push(p - 1);
        samples.push(p.wrapping_add(p / 3));
    }
    samples.push((1u64 << 53) + 1);
    samples.push((1u64 << 54) + 2);
    samples.push((1u64 << 60) + 12345);
    samples.push(u64::MAX - 1);
    for s in samples {
        assert_eq!(format_byte_size(s), float_text(s), "size {s}");
    }
}
