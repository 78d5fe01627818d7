//! Hardware telemetry sampling.
//!
//! Each telemetry endpoint is read once per tick into a record that keeps the
//! current, smallest and largest sample and a fault latch; the engine ticks
//! the whole catalogue of records, skipping those whose latch has tripped, and
//! owes one notification per tick; a small state machine decides when to
//! tick, notify, sleep and stop. Around that stand the fixed-width decode of a
//! kernel reading and the naming conventions of the kernel's sensor files.
pub mod fuse;
pub mod hwmon;
pub mod order;
pub mod read_into;
pub mod schedule;
pub mod sensor_type;
pub mod source;
pub mod update;
