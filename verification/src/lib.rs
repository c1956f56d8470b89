//! Aggregated input-activity metrics: concurrency-friendly event counters, a
//! cursor-distance tracker, and the report bodies that a periodic reporter
//! transmits to a remote endpoint.
//!
//! The counters accumulate key-press and mouse-click events between reports.
//! A reporter snapshots them, transmits a JSON report, and only after a
//! confirmed successful transmission removes exactly what it transmitted.
//! Neither a failed delivery nor an event that races a successful one loses
//! anything: the events simply accumulate into the next window.

pub mod counter;
pub mod payload;
pub mod tracker;
