//! Exact decimal rendering of the status line.

use pi_stats::sensor::Temperature;
use pi_stats::stats::Snapshot;
use pi_stats::stats::format_snapshot;

fn snap(cpu_frequency_hz: u64, millidegrees: i64, memory_available_bytes: u64) -> Snapshot {
    Snapshot {
        cpu_frequency_hz,
        temperature: Temperature { millidegrees },
        memory_available_bytes,
    }
}

#[test]
fn exact_unit_conversion() {
    let line = format_snapshot(&snap(1_800_000_000, 0, 3_145_728));
    assert_eq!(line, "1800 Mhz / 0 C / 3 MiB");
}

#[test]
fn all_zero_snapshot() {
    let line = format_snapshot(&snap(0, 0, 0));
    assert_eq!(line, "0 Mhz / 0 C / 0 MiB");
}

#[test]
fn fractional_parts_rendered_exactly_with_trailing_zeros_trimmed() {
    let line = format_snapshot(&snap(1_500_398_000, 45_500, 1_572_864));
    assert_eq!(line, "1500.398 Mhz / 45.5 C / 1.5 MiB");
}

#[test]
fn negative_temperature_below_one_degree() {
    let line = format_snapshot(&snap(1_000_000, -500, 1_048_576));
    assert_eq!(line, "1 Mhz / -0.5 C / 1 MiB");
}

#[test]
fn negative_whole_temperature() {
    let line = format_snapshot(&snap(1_000_000, -45_000, 1_048_576));
    assert_eq!(line, "1 Mhz / -45 C / 1 MiB");
}

#[test]
fn one_byte_of_memory_is_an_exact_twenty_digit_fraction() {
    let line = format_snapshot(&snap(1_000_000, 0, 1));
    assert_eq!(line, "1 Mhz / 0 C / 0.00000095367431640625 MiB");
}

#[test]
fn largest_frequency_reading() {
    let line = format_snapshot(&snap(u64::MAX, 0, 0));
    assert_eq!(line, "18446744073709.551615 Mhz / 0 C / 0 MiB");
}

#[test]
fn sub_megahertz_frequency() {
    let line = format_snapshot(&snap(2_500, 1, 0));
    assert_eq!(line, "0.0025 Mhz / 0.001 C / 0 MiB");
}
