use devmon::scanner as smart_socket;
use devmon::scanners::udev_scanner as disk_socket;

fn raw(action: Option<&str>, sysname: Option<&str>, devtype: Option<&str>) -> disk_socket::RawNotification {
    disk_socket::RawNotification {
        action: action.map(|s| s.to_string()),
        sysname: sysname.map(|s| s.to_string()),
        devtype: devtype.map(|s| s.to_string()),
    }
}

fn raw_a(action: Option<&str>, sysname: Option<&str>) -> smart_socket::RawNotification {
    smart_socket::RawNotification {
        action: action.map(|s| s.to_string()),
        sysname: sysname.map(|s| s.to_string()),
    }
}

#[test]
fn add_disk_yields_found() {
    let step = disk_socket::poll_step(disk_socket::SocketPoll::Drained(Some(raw(
        Some("add"),
        Some("sdc"),
        Some("disk"),
    ))));
    assert_eq!(
        step,
        disk_socket::SocketStep::Event(devmon::scanners::scanner::ScanEventType::DeviceFound(
            "sdc".to_string()
        ))
    );
}

#[test]
fn remove_disk_yields_lost() {
    let step = disk_socket::poll_step(disk_socket::SocketPoll::Drained(Some(raw(
        Some("remove"),
        Some("sdc"),
        Some("disk"),
    ))));
    assert_eq!(
        step,
        disk_socket::SocketStep::Event(devmon::scanners::scanner::ScanEventType::DeviceLost(
            "sdc".to_string()
        ))
    );
}

#[test]
fn unknown_action_yields_unknown() {
    let step = disk_socket::poll_step(disk_socket::SocketPoll::Drained(Some(raw(
        Some("unknown"),
        Some("sdc"),
        Some("disk"),
    ))));
    assert_eq!(
        step,
        disk_socket::SocketStep::Event(devmon::scanners::scanner::ScanEventType::Unknown(
            "sdc".to_string()
        ))
    );
}

#[test]
fn partition_dropped_regardless_of_action() {
    for action in ["add", "remove", "unknown"] {
        let step = disk_socket::poll_step(disk_socket::SocketPoll::Drained(Some(raw(
            Some(action),
            Some("sdc"),
            Some("partition"),
        ))));
        assert_eq!(step, disk_socket::SocketStep::NotReady { self_wake: true });
    }
}

#[test]
fn unrecognized_action_dropped() {
    let step = disk_socket::poll_step(disk_socket::SocketPoll::Drained(Some(raw(
        Some("change"),
        Some("sdc"),
        Some("disk"),
    ))));
    assert_eq!(step, disk_socket::SocketStep::NotReady { self_wake: true });
}

#[test]
fn unresolved_parts_dropped() {
    let cases = [
        raw(None, Some("sdc"), Some("disk")),
        raw(Some("add"), None, Some("disk")),
        raw(Some("add"), Some("sdc"), None),
        raw(Some("add"), Some(""), Some("disk")),
    ];
    for n in cases {
        let step = disk_socket::poll_step(disk_socket::SocketPoll::Drained(Some(n)));
        assert_eq!(step, disk_socket::SocketStep::NotReady { self_wake: true });
    }
}

#[test]
fn timer_pending_makes_no_read_and_no_self_wake() {
    let step = disk_socket::poll_step(disk_socket::SocketPoll::TimerPending);
    assert_eq!(step, disk_socket::SocketStep::NotReady { self_wake: false });
}

#[test]
fn empty_drain_self_wakes() {
    let step = disk_socket::poll_step(disk_socket::SocketPoll::Drained(None));
    assert_eq!(step, disk_socket::SocketStep::NotReady { self_wake: true });
}

#[test]
fn smart_socket_add_yields_found() {
    let step = smart_socket::poll_step(smart_socket::SocketPoll::Drained(Some(raw_a(
        Some("add"),
        Some("nvme0n1"),
    ))));
    assert_eq!(
        step,
        smart_socket::SocketStep::Event(smart_socket::ScanEvent::DeviceFound(
            "nvme0n1".to_string()
        ))
    );
}

#[test]
fn smart_socket_remove_yields_lost() {
    let step = smart_socket::poll_step(smart_socket::SocketPoll::Drained(Some(raw_a(
        Some("remove"),
        Some("nvme0n1"),
    ))));
    assert_eq!(
        step,
        smart_socket::SocketStep::Event(smart_socket::ScanEvent::DeviceLost(
            "nvme0n1".to_string()
        ))
    );
}

#[test]
fn smart_socket_other_action_yields_unknown() {
    let step = smart_socket::poll_step(smart_socket::SocketPoll::Drained(Some(raw_a(
        Some("change"),
        Some("nvme0n1"),
    ))));
    assert_eq!(
        step,
        smart_socket::SocketStep::Event(smart_socket::ScanEvent::Unknown("nvme0n1".to_string()))
    );
}

#[test]
fn smart_socket_unresolved_dropped() {
    let cases = [
        raw_a(None, Some("nvme0n1")),
        raw_a(Some("add"), None),
        raw_a(Some("add"), Some("")),
    ];
    for n in cases {
        let step = smart_socket::poll_step(smart_socket::SocketPoll::Drained(Some(n)));
        assert_eq!(step, smart_socket::SocketStep::NotReady { self_wake: true });
    }
}

#[test]
fn smart_socket_timer_pending_no_self_wake() {
    let step = smart_socket::poll_step(smart_socket::SocketPoll::TimerPending);
    assert_eq!(step, smart_socket::SocketStep::NotReady { self_wake: false });
}
