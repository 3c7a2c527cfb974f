//! A minimal cooperative I/O reactor, written without any I/O of its own.
//!
//! The crate holds the decisions of a readiness-based scheduler: what a
//! computation waits for, which interests the reactor keeps with the kernel's
//! event queue, and how one computation is driven to its result. Whoever owns
//! the event queue and the socket carries out the requests that the crate
//! hands out and gives the answers back as plain values.
pub mod future;
pub mod os;
pub mod runtime;
pub mod tcp;
