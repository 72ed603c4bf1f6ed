//! Shared vocabulary of the device monitors: the change events they emit and
//! the spec-level view of an event as a direction plus a device identifier.

use vstd::prelude::*;

verus! {

/// A change event produced by a device monitor. Each variant carries the
/// identifier of the device concerned; the identifier is never empty.
#[derive(Debug, Clone, PartialEq)]
pub enum ScanEventType {
    DeviceFound(String),
    DeviceLost(String),
    Unknown(String),
}

/// The direction of a change event, without its identifier. Contracts speak
/// of an event as a kind paired with an identifier.
#[derive(Debug, Clone, Copy, PartialEq, Eq, Structural)]
pub enum EventKind {
    Found,
    Lost,
    Unknown,
}

impl ScanEventType {
    /// The identifier the event carries.
    pub open spec fn id(self) -> Seq<char> {
        match self {
            ScanEventType::DeviceFound(s) => s@,
            ScanEventType::DeviceLost(s) => s@,
            ScanEventType::Unknown(s) => s@,
        }
    }

    /// The direction of the event.
    pub open spec fn kind(self) -> EventKind {
        match self {
            ScanEventType::DeviceFound(_) => EventKind::Found,
            ScanEventType::DeviceLost(_) => EventKind::Lost,
            ScanEventType::Unknown(_) => EventKind::Unknown,
        }
    }
}

/// An identifier is usable only when it is non-empty: an event never carries
/// an empty identifier.
pub open spec fn id_ok(id: Seq<char>) -> bool {
    id.len() > 0
}

} // verus!
