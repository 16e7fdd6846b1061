//! Stats aggregation: one immutable snapshot per tick, and its rendering.
//!
//! Each tick, three independent hardware readings — CPU frequency, the
//! resolved CPU temperature, and available memory — are composed into a
//! [`Snapshot`] and rendered as a single status line.  Frequency and memory
//! readings may fail, and either failure fails the whole tick with a
//! [`HardwareQueryError`] naming the metric; temperature resolution is total
//! and never fails a tick.

use vstd::prelude::*;

use crate::format::mem_str;
use crate::format::scaled_str;
use crate::format::temp_str;
use crate::format::append_mem;
use crate::format::append_scaled;
use crate::format::append_temp;
use crate::sensor::SensorEntry;
use crate::sensor::Temperature;
use crate::sensor::resolution_spec;
use crate::sensor::resolve_temperature;
use crate::sensor::table_spec;

verus! {

/// One tick's hardware readings, fully populated, consumed immediately by
/// formatting and then discarded.  Each quantity is held exactly in its base
/// unit and displayed in its larger unit: the frequency in hertz, shown in
/// megahertz (1 MHz = 1,000,000 Hz); the temperature in thousandths of a
/// degree Celsius, shown in degrees; the available memory in bytes, shown in
/// mebibytes (1 MiB = 1,048,576 bytes).
#[derive(Clone, Copy, Debug, PartialEq, Eq, Structural)]
pub struct Snapshot {
    /// Current CPU clock frequency, in hertz.
    pub cpu_frequency_hz: u64,
    /// The resolved CPU temperature; a fallback default when no usable
    /// sensor was found.
    pub temperature: Temperature,
    /// Memory available to new allocations without swapping, in bytes:
    /// reclaimable-but-in-use memory plus truly free memory, not raw "free".
    pub memory_available_bytes: u64,
}

/// The metric whose hardware query failed.
#[derive(Clone, Copy, Debug, PartialEq, Eq, Structural)]
pub enum Metric {
    /// The CPU frequency query.
    Frequency,
    /// The available-memory query.
    Memory,
}

/// A failed frequency or memory query: the whole tick fails with this error,
/// which names the metric and carries the underlying cause.
#[derive(Debug)]
pub struct HardwareQueryError {
    /// Which of the two fallible metrics failed.
    pub metric: Metric,
    /// The platform's description of the failure.
    pub cause: String,
}

/// The rendered status line for a snapshot:
/// `"<frequency> Mhz / <temperature> C / <memory> MiB"`, each quantity in its
/// exact decimal representation.
pub open spec fn line_str(snap: Snapshot) -> Seq<char> {
    scaled_str(snap.cpu_frequency_hz as nat, 6) + " Mhz / "@ + temp_str(
        snap.temperature.millidegrees as int,
    ) + " C / "@ + mem_str(snap.memory_available_bytes as nat) + " MiB"@
}

/// Compose one tick's snapshot from the three independent readings.
///
/// The frequency and memory queries either succeed or fail the whole tick:
/// the result is `Ok` exactly when both readings are present, and a failure
/// surfaces as a [`HardwareQueryError`] naming the metric — the frequency
/// one when the frequency query failed, else the memory one — with the
/// platform's cause passed through unchanged.  The temperature is resolved
/// from the sensor enumeration by the fixed priority policy and never fails.
pub fn sample(
    frequency_hz: Result<u64, String>,
    sensors: &Vec<SensorEntry>,
    memory_bytes: Result<u64, String>,
) -> (r: Result<Snapshot, HardwareQueryError>)
    ensures
        r is Ok <==> (frequency_hz is Ok && memory_bytes is Ok),
        r matches Ok(snap) ==> snap == (Snapshot {
            cpu_frequency_hz: frequency_hz->Ok_0,
            temperature: resolution_spec(table_spec(sensors@)),
            memory_available_bytes: memory_bytes->Ok_0,
        }),
        r matches Err(e) ==> if frequency_hz is Err {
            e.metric == Metric::Frequency && e.cause == frequency_hz->Err_0
        } else {
            e.metric == Metric::Memory && e.cause == memory_bytes->Err_0
        },
{
    let frequency = match frequency_hz {
        Ok(hz) => hz,
        Err(cause) => {
            return Err(HardwareQueryError { metric: Metric::Frequency, cause });
        },
    };
    let temperature = resolve_temperature(sensors);
    let memory = match memory_bytes {
        Ok(bytes) => bytes,
        Err(cause) => {
            return Err(HardwareQueryError { metric: Metric::Memory, cause });
        },
    };
    Ok(Snapshot { cpu_frequency_hz: frequency, temperature, memory_available_bytes: memory })
}

/// Render a snapshot as the one-line status text, exactly as [`line_str`]
/// gives it.  Formatting is pure: the exact decimal representation of each
/// quantity, joined by the fixed separators.
pub fn format_snapshot(snap: &Snapshot) -> (line: String)
    ensures
        line@ == line_str(*snap),
{
    let mut line = String::new();
    proof {
        reveal_with_fuel(crate::format::pow10, 8);
    }
    append_scaled(&mut line, snap.cpu_frequency_hz as u128, 1000000, 6);
    line.append(" Mhz / ");
    append_temp(&mut line, snap.temperature);
    line.append(" C / ");
    append_mem(&mut line, snap.memory_available_bytes);
    line.append(" MiB");
    proof {
        assert(line@ =~= line_str(*snap));
    }
    line
}

} // verus!
