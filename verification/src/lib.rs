//! Event-sourced model of a trading order's lifecycle.
//!
//! An order is never mutated in place: every change is an immutable,
//! timestamped event, and the order's current state is a pure fold over the
//! events applied to it.  The crate provides the closed event catalog, the
//! state machine that folds events into order state, a wire codec (a
//! structured-text form and a compact binary form, both round-trip exact),
//! and the bridge that turns a host runtime's string-keyed mapping into a
//! typed event.

pub mod types;
pub mod events;
pub mod machine;
pub mod record;
pub mod binary;
pub mod text;
pub mod codec;
pub mod bridge;
