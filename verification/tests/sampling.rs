//! Snapshot assembly and tick-level error surfacing.

use pi_stats::sensor::SensorEntry;
use pi_stats::sensor::Temperature;
use pi_stats::stats::Metric;
use pi_stats::stats::format_snapshot;
use pi_stats::stats::sample;

fn cpu_sensor(millidegrees: i64) -> SensorEntry {
    SensorEntry {
        label: Some(String::from("CPU")),
        reading: Ok(Temperature { millidegrees }),
    }
}

#[test]
fn successful_tick_renders_the_documented_line() {
    let sensors = vec![cpu_sensor(45_000)];
    let snapshot = sample(Ok(1_500_000_000), &sensors, Ok(536_870_912)).unwrap();
    assert_eq!(snapshot.cpu_frequency_hz, 1_500_000_000);
    assert_eq!(snapshot.temperature, Temperature { millidegrees: 45_000 });
    assert_eq!(snapshot.memory_available_bytes, 536_870_912);
    let line = format_snapshot(&snapshot);
    assert_eq!(line, "1500 Mhz / 45 C / 512 MiB");
}

#[test]
fn frequency_failure_fails_the_tick_and_names_the_metric() {
    let sensors = vec![cpu_sensor(45_000)];
    let err = sample(Err(String::from("platform error")), &sensors, Ok(536_870_912)).unwrap_err();
    assert_eq!(err.metric, Metric::Frequency);
    assert_eq!(err.cause, "platform error");
}

#[test]
fn memory_failure_fails_the_tick_and_names_the_metric() {
    let sensors: Vec<SensorEntry> = Vec::new();
    let err = sample(Ok(1_500_000_000), &sensors, Err(String::from("query refused"))).unwrap_err();
    assert_eq!(err.metric, Metric::Memory);
    assert_eq!(err.cause, "query refused");
}

#[test]
fn frequency_failure_reported_when_both_queries_fail() {
    let sensors: Vec<SensorEntry> = Vec::new();
    let err = sample(
        Err(String::from("frequency query failed")),
        &sensors,
        Err(String::from("memory query failed")),
    )
    .unwrap_err();
    assert_eq!(err.metric, Metric::Frequency);
    assert_eq!(err.cause, "frequency query failed");
}

#[test]
fn missing_sensors_never_fail_the_tick() {
    let sensors: Vec<SensorEntry> = Vec::new();
    let snapshot = sample(Ok(600_000_000), &sensors, Ok(1_048_576)).unwrap();
    assert_eq!(snapshot.temperature, Temperature { millidegrees: 0 });
    assert_eq!(format_snapshot(&snapshot), "600 Mhz / 0 C / 1 MiB");
}
