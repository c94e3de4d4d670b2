//! Core logic of one half of a split mechanical keyboard.
//!
//! The crate covers the two subsystems with real algorithmic content:
//! the input-capture pipeline (edge detection, debouncing, fixed-priority
//! scanning) and the inter-half link (a half-duplex, single-wire serial
//! protocol with per-byte even parity and drift-compensated timing).
//! Hardware access — GPIO, timers, channels, flash — lives outside this
//! crate; every function here is a pure step of a state machine or a
//! codec over plain values, with its behaviour stated in contracts.

pub mod debounce;
pub mod keypin;
pub mod matrix;
pub mod stash;
pub mod sync;
pub mod wire;
