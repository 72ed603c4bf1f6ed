//! Socket-backed generator for full device coverage: one poll state machine
//! step per "produce next event or not-ready" call.
//!
//! The notification channel itself (an OS facility handing out raw
//! attach/detach notifications without blocking) belongs to the caller that
//! pumps this machine. Each poll cycle the caller reports whether the
//! recurring timer has elapsed; only then does it read the channel once and
//! hand the raw notification here to be classified. The timer is the
//! throttle that keeps the channel from being busy-polled; the self-wake
//! hint after every actual read attempt keeps the channel draining promptly.

use vstd::prelude::*;

use crate::scanners::scanner::{id_ok, EventKind, ScanEventType};

verus! {

/// What one raw notification resolved to: each field is `None` when the
/// channel could not hand the part out as text.
#[derive(Debug, Clone, PartialEq)]
pub struct RawNotification {
    /// The action code of the notification (`"add"`, `"remove"`, ...).
    pub action: Option<String>,
    /// The kernel name of the device concerned.
    pub sysname: Option<String>,
    /// The device subtype classifier (`"disk"`, `"partition"`, ...).
    pub devtype: Option<String>,
}

/// What the caller observed during one poll cycle before asking for a
/// decision: either the recurring timer has not elapsed (so the channel was
/// not touched), or the timer elapsed and one non-blocking read was made.
#[derive(Debug, PartialEq)]
pub enum SocketPoll {
    TimerPending,
    Drained(Option<RawNotification>),
}

/// The decision of one poll cycle: hand out an event, or report not-ready.
/// `self_wake` asks the caller to poll again immediately instead of waiting
/// for the timer's own wake.
#[derive(Debug, PartialEq)]
pub enum SocketStep {
    Event(ScanEventType),
    NotReady { self_wake: bool },
}

/// How a raw notification is classified: only notifications whose subtype is
/// the disk category are surfaced; the identifier must resolve and be
/// non-empty; `add` maps to `Found`, `remove` to `Lost`, `unknown` to
/// `Unknown`; everything else is dropped.
pub open spec fn spec_classify(n: RawNotification) -> Option<(EventKind, Seq<char>)> {
    match (n.action, n.sysname, n.devtype) {
        (Some(a), Some(s), Some(t)) => {
            if s@.len() == 0 {
                None
            } else if t@ != "disk"@ {
                None
            } else if a@ == "add"@ {
                Some((EventKind::Found, s@))
            } else if a@ == "remove"@ {
                Some((EventKind::Lost, s@))
            } else if a@ == "unknown"@ {
                Some((EventKind::Unknown, s@))
            } else {
                None
            }
        },
        _ => None,
    }
}

/// Classifies one raw notification, exactly as `spec_classify` says: a
/// notification with a resolvable non-empty identifier, a recognized action
/// and the disk subtype yields the mapped event; every other notification
/// yields none.
pub fn classify(n: &RawNotification) -> (r: Option<ScanEventType>)
    ensures
        r is Some <==> spec_classify(*n) is Some,
        r matches Some(e) ==> (spec_classify(*n) matches Some(k) && e.kind() == k.0 && e.id()
            == k.1),
{
    match (&n.action, &n.sysname, &n.devtype) {
        (Some(a), Some(s), Some(t)) => {
            if s.as_str().is_empty() {
                None
            } else if !(*t == "disk".to_owned()) {
                None
            } else if *a == "add".to_owned() {
                Some(ScanEventType::DeviceFound(s.clone()))
            } else if *a == "remove".to_owned() {
                Some(ScanEventType::DeviceLost(s.clone()))
            } else if *a == "unknown".to_owned() {
                Some(ScanEventType::Unknown(s.clone()))
            } else {
                None
            }
        },
        _ => None,
    }
}

/// One step of the socket-backed poll state machine.
///
/// While the timer has not elapsed the caller made no channel read, and the
/// step asks for no self-wake: the timer's own wake resumes the caller, and
/// no work happens in the interim. After an actual read attempt the step
/// always asks for a self-wake when it has no event to hand out, so the next
/// timer cycle is evaluated promptly.
pub fn poll_step(input: SocketPoll) -> (r: SocketStep)
    ensures
        input is TimerPending ==> r == (SocketStep::NotReady { self_wake: false }),
        input matches SocketPoll::Drained(n_opt) ==> match n_opt {
            None => r == (SocketStep::NotReady { self_wake: true }),
            Some(n) => match spec_classify(n) {
                Some(k) => (r matches SocketStep::Event(e) && e.kind() == k.0 && e.id() == k.1),
                None => r == (SocketStep::NotReady { self_wake: true }),
            },
        },
{
    match input {
        SocketPoll::TimerPending => SocketStep::NotReady { self_wake: false },
        SocketPoll::Drained(None) => SocketStep::NotReady { self_wake: true },
        SocketPoll::Drained(Some(n)) => match classify(&n) {
            Some(e) => SocketStep::Event(e),
            None => SocketStep::NotReady { self_wake: true },
        },
    }
}

} // verus!
