//! A speed-solving practice timer: a press/release state machine that times
//! solves, a per-category solve history, and rolling statistics over it.
//!
//! Durations and clock readings are whole milliseconds. The statistics are
//! rebuilt from the history after every change, never patched in place.

pub mod custom;
pub mod event;
pub mod format;
pub mod history;
pub mod laws;
pub mod record;
pub mod scramble;
pub mod session;
pub mod stats;
pub mod timer;

pub use custom::CUSTOM_SCRAMBLE_LENGTH;
pub use event::{CubeEvent, StandardEvent};
pub use format::format_time;
pub use record::{Penalty, TimeRecord};
pub use scramble::generate_scramble;
pub use session::{CubeTimer, CustomEvent};
pub use stats::{calculate_average, calculate_statistics, Statistics};
pub use timer::{TimerMachine, TimerState, DEFAULT_HOLD_THRESHOLD};
