//! A verifiable Fibonacci state transition.
//!
//! The library derives a pair of Fibonacci values from a public index `n`,
//! shifts both by a private `offset`, commits the shifted pair to an
//! authenticated key-value store, and emits the result as canonically
//! encoded public values.  Around that core stand the host-side pieces of
//! the proof lifecycle: mode selection, the execute-mode cross-check, and
//! the persisted proof artifact's encoding.

pub mod artifact;
pub mod codec;
pub mod fib;
pub mod hexstr;
pub mod orchestrator;
pub mod store;
pub mod transition;
