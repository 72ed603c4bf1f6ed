//! Socket-backed generator for the SMART-capable device classes: the channel
//! is already filtered down to the relevant subsystems before notifications
//! arrive, so no subtype check happens here and every resolvable action code
//! is surfaced, unrecognized ones as `Unknown`.
//!
//! As in the sibling machine under `scanners`, the channel and the recurring
//! timer belong to the caller: it reports whether the timer elapsed, reads
//! the channel once only when it did, and hands the raw notification here.

use vstd::prelude::*;

use crate::scanners::scanner::EventKind;

verus! {

/// A change event produced by this monitor. Each variant carries the
/// identifier of the device concerned; the identifier is never empty.
#[derive(Debug, Clone, PartialEq)]
pub enum ScanEvent {
    DeviceFound(String),
    DeviceLost(String),
    Unknown(String),
}

impl ScanEvent {
    /// The identifier the event carries.
    pub open spec fn id(self) -> Seq<char> {
        match self {
            ScanEvent::DeviceFound(s) => s@,
            ScanEvent::DeviceLost(s) => s@,
            ScanEvent::Unknown(s) => s@,
        }
    }

    /// The direction of the event.
    pub open spec fn kind(self) -> EventKind {
        match self {
            ScanEvent::DeviceFound(_) => EventKind::Found,
            ScanEvent::DeviceLost(_) => EventKind::Lost,
            ScanEvent::Unknown(_) => EventKind::Unknown,
        }
    }
}

/// What one raw notification resolved to: each field is `None` when the
/// channel could not hand the part out as text.
#[derive(Debug, Clone, PartialEq)]
pub struct RawNotification {
    /// The action code of the notification (`"add"`, `"remove"`, ...).
    pub action: Option<String>,
    /// The kernel name of the device concerned.
    pub sysname: Option<String>,
}

/// What the caller observed during one poll cycle: either the recurring
/// timer has not elapsed (so the channel was not touched), or the timer
/// elapsed and one non-blocking read was made.
#[derive(Debug, PartialEq)]
pub enum SocketPoll {
    TimerPending,
    Drained(Option<RawNotification>),
}

/// The decision of one poll cycle: hand out an event, or report not-ready.
/// `self_wake` asks the caller to poll again immediately instead of waiting
/// for the timer's own wake.
#[derive(Debug, PartialEq)]
pub enum SocketStep {
    Event(ScanEvent),
    NotReady { self_wake: bool },
}

/// How a raw notification is classified here: the identifier must resolve
/// and be non-empty and the action code must resolve; `add` maps to `Found`,
/// `remove` to `Lost`, and any other resolvable action to `Unknown`.
pub open spec fn spec_classify(n: RawNotification) -> Option<(EventKind, Seq<char>)> {
    match (n.action, n.sysname) {
        (Some(a), Some(s)) => {
            if s@.len() == 0 {
                None
            } else if a@ == "add"@ {
                Some((EventKind::Found, s@))
            } else if a@ == "remove"@ {
                Some((EventKind::Lost, s@))
            } else {
                Some((EventKind::Unknown, s@))
            }
        },
        _ => None,
    }
}

/// Classifies one raw notification, exactly as `spec_classify` says: a
/// notification with a resolvable non-empty identifier and a resolvable
/// action yields the mapped event; every other notification yields none.
pub fn classify(n: &RawNotification) -> (r: Option<ScanEvent>)
    ensures
        r is Some <==> spec_classify(*n) is Some,
        r matches Some(e) ==> (spec_classify(*n) matches Some(k) && e.kind() == k.0 && e.id()
            == k.1),
{
    match (&n.action, &n.sysname) {
        (Some(a), Some(s)) => {
            if s.as_str().is_empty() {
                None
            } else if *a == "add".to_owned() {
                Some(ScanEvent::DeviceFound(s.clone()))
            } else if *a == "remove".to_owned() {
                Some(ScanEvent::DeviceLost(s.clone()))
            } else {
                Some(ScanEvent::Unknown(s.clone()))
            }
        },
        _ => None,
    }
}

/// One step of this socket-backed poll state machine. The wake discipline is
/// the same as in the sibling machine: no self-wake while the timer gates
/// the cycle, a self-wake after every actual read attempt that produced no
/// event.
pub fn poll_step(input: SocketPoll) -> (r: SocketStep)
    ensures
        input is TimerPending ==> r == (SocketStep::NotReady { self_wake: false }),
        input matches SocketPoll::Drained(n_opt) ==> match n_opt {
            None => r == (SocketStep::NotReady { self_wake: true }),
            Some(n) => match spec_classify(n) {
                Some(k) => (r matches SocketStep::Event(e) && e.kind() == k.0 && e.id() == k.1),
                None => r == (SocketStep::NotReady { self_wake: true }),
            },
        },
{
    match input {
        SocketPoll::TimerPending => SocketStep::NotReady { self_wake: false },
        SocketPoll::Drained(None) => SocketStep::NotReady { self_wake: true },
        SocketPoll::Drained(Some(n)) => match classify(&n) {
            Some(e) => SocketStep::Event(e),
            None => SocketStep::NotReady { self_wake: true },
        },
    }
}

} // verus!
