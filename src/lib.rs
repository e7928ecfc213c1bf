//! Debouncing of a noisy signal.
//!
//! A debounce waits for a signal to leave its resting value, then races a quiet-period
//! timer against any further change. It settles on a value only once that value has
//! held for one full quiet period; any further change sends it back to wait for the
//! signal to leave its resting value again.
//!
//! The awaiting itself happens outside this crate: [`machine`] holds the decisions,
//! as a transition function from the current phase and the outcome of the last
//! awaited work to the next phase.

pub mod machine;
pub mod trace;
