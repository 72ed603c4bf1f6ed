//! Watches for storage devices appearing and disappearing and turns what the
//! host reports into a single pull-based sequence of change events.
//!
//! Two interchangeable backends feed that sequence. One drains a kernel
//! notification socket and classifies each raw notification; the other runs a
//! periodic probe and diffs its report against the last-known device set.
//! Each backend is written here as an explicit poll state machine: every call
//! either hands out an event, ends the sequence, or says "not ready" together
//! with an explicit hint (self-wake, deadline reset) for the caller that pumps
//! it. The channel reads, timers and the blocking probe themselves live with
//! that caller; the decisions they feed are made and proved here.

pub mod scanner;
pub mod scanners;
