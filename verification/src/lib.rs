//! Hardware status sampling: temperature sensor resolution by label
//! priority, snapshot assembly from CPU frequency / temperature /
//! available-memory readings, and exact decimal rendering of the one-line
//! status text.

pub mod format;
pub mod sensor;
pub mod stats;
