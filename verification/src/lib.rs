//! A state-transition processor for per-identity records.
//!
//! Records live in fixed-capacity storage objects at addresses derived
//! deterministically from an authority identity and a record name.  The
//! library decodes instructions, verifies derived addresses, enforces
//! authorization and size invariants, and produces the exact bytes that the
//! hosting environment must persist; it performs no I/O of its own.

pub mod address;
pub mod codec;
pub mod error;
pub mod instruction;
pub mod processor;
pub mod state;
pub mod utf8;
