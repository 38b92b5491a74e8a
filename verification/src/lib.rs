//! Resource-control orchestration core: a command reconciler, a report
//! pipeline and an IO-cost QoS sweep planner, with their behaviour stated in
//! contracts and machine-checked.
//!
//! Quantities that the surrounding system expresses as fractions (vrates,
//! load factors, ratios) are carried as fixed-point integers in thousandths;
//! durations are carried in microseconds or milliseconds as each interface
//! notes.
pub mod job;
pub mod num;
pub mod qos;
pub mod report_file;
pub mod reporter;
pub mod ring;
pub mod runner;
pub mod side_defs;
pub mod statmap;
pub mod study;
pub mod sweep;
pub mod types;
pub mod usage;
pub mod watcher;
