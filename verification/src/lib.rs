//! Timing core for a live-performance control surface: a tempo engine that
//! estimates and holds the current beat clock, a quantized scheduler that
//! snaps actions to musical-grid boundaries and releases them when due, and
//! a timeline compiler / runtime adapter that validates and indexes an
//! authored show bundle.
//!
//! Tempo and confidence are held in fixed-point milli-units (one thousandth
//! of a BPM, one thousandth of full confidence) so that all of the beat
//! arithmetic is exact integer arithmetic.

pub mod tempo;
pub mod types;
pub mod scheduler;
pub mod media;
pub mod timeline;
pub mod compiler;
pub mod runtime_adapter;
