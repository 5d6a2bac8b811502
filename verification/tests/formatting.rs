//! Tests for the binary-unit formatters.

use winload::format::{format_bytes, format_speed, format_u64};

#[test]
fn decimal_rendering() {
    assert_eq!(format_u64(0), "0");
    assert_eq!(format_u64(7), "7");
    assert_eq!(format_u64(10), "10");
    assert_eq!(format_u64(90210), "90210");
    assert_eq!(format_u64(u64::MAX), "18446744073709551615");
}

#[test]
fn speed_uses_binary_units() {
    assert_eq!(format_speed(0), "0.00 B/s");
    assert_eq!(format_speed(500), "500.00 B/s");
    assert_eq!(format_speed(1024), "1.00 KiB/s");
    assert_eq!(format_speed(1536), "1.50 KiB/s");
    // The scenario from scale selection: 2048 at the top of the graph.
    assert_eq!(format_speed(2048), "2.00 KiB/s");
    assert_eq!(format_speed(1048576), "1.00 MiB/s");
    assert_eq!(format_speed(3 * 1073741824), "3.00 GiB/s");
    assert_eq!(format_speed(1099511627776), "1.00 TiB/s");
}

#[test]
fn totals_use_byte_counts() {
    assert_eq!(format_bytes(0), "0.00 B");
    assert_eq!(format_bytes(24_000), "23.43 KiB");
    assert_eq!(format_bytes(1073741824), "1.00 GiB");
}

#[test]
fn fractional_digits_round_down() {
    // 1025 bytes = 1.0009... KiB: hundredths are truncated.
    assert_eq!(format_bytes(1025), "1.00 KiB");
    assert_eq!(format_bytes(1024 + 512), "1.50 KiB");
    assert_eq!(format_bytes(2047), "1.99 KiB");
}
