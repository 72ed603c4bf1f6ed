use devmon::scanners::scanner::ScanEventType;
use devmon::scanners::smartctl_scanner::{
    diff_device_lists, GateStep, ProbeOutcome, SmartCtlDeviceListDiffResult, SmartCtlMonitorStream,
};

fn strings(items: &[&str]) -> Vec<String> {
    items.iter().map(|s| s.to_string()).collect()
}

// One full probe cycle: start an execution, then report its outcome.
fn run_cycle(m: &mut SmartCtlMonitorStream, outcome: ProbeOutcome) -> GateStep {
    assert_eq!(m.poll_gate(true), GateStep::StartExec);
    assert_eq!(m.on_exec_start(true), GateStep::AwaitExec);
    m.on_exec_poll(outcome)
}

// Collects every queued event, starting from an already-delivered first one.
fn drain(m: &mut SmartCtlMonitorStream, first: GateStep) -> Vec<ScanEventType> {
    let mut events = Vec::new();
    let mut step = first;
    loop {
        match step {
            GateStep::Deliver(e) => {
                events.push(e);
                step = m.poll_gate(false);
            }
            GateStep::NotReady { .. } => return events,
            other => panic!("unexpected step while draining: {:?}", other),
        }
    }
}

#[test]
fn default_diff_is_empty() {
    let d = SmartCtlDeviceListDiffResult::default();
    assert!(d.added.is_empty());
    assert!(d.removed.is_empty());
}

#[test]
fn first_scan_adds_everything() {
    let mut known = Vec::new();
    let d = diff_device_lists(&mut known, &strings(&["sda", "sdb"]));
    assert_eq!(d.added, strings(&["sda", "sdb"]));
    assert!(d.removed.is_empty());
    assert_eq!(known, strings(&["sda", "sdb"]));
}

#[test]
fn same_scan_twice_is_quiet() {
    let mut known = Vec::new();
    let probe = strings(&["sda", "sdb"]);
    diff_device_lists(&mut known, &probe);
    let d = diff_device_lists(&mut known, &probe);
    assert!(d.added.is_empty());
    assert!(d.removed.is_empty());
    assert_eq!(known, strings(&["sda", "sdb"]));
}

#[test]
fn empty_scan_is_a_full_loss() {
    let mut known = Vec::new();
    diff_device_lists(&mut known, &strings(&["sda", "sdb"]));
    let d = diff_device_lists(&mut known, &Vec::new());
    assert!(d.added.is_empty());
    assert_eq!(d.removed, strings(&["sda", "sdb"]));
    assert!(known.is_empty());
}

#[test]
fn duplicate_identifiers_count_once() {
    let mut known = Vec::new();
    let d = diff_device_lists(&mut known, &strings(&["sda", "sda"]));
    assert_eq!(d.added, strings(&["sda"]));
    assert_eq!(known, strings(&["sda"]));
}

#[test]
fn empty_identifiers_are_dropped() {
    let mut known = Vec::new();
    let d = diff_device_lists(&mut known, &strings(&[""]));
    assert!(d.added.is_empty());
    assert!(d.removed.is_empty());
    assert!(known.is_empty());
}

#[test]
fn mixed_scan_adds_and_removes() {
    let mut known = Vec::new();
    diff_device_lists(&mut known, &strings(&["sda", "sdb"]));
    let d = diff_device_lists(&mut known, &strings(&["sdb", "sdc"]));
    assert_eq!(d.added, strings(&["sdc"]));
    assert_eq!(d.removed, strings(&["sda"]));
    assert_eq!(known, strings(&["sdb", "sdc"]));
}

#[test]
fn idle_gate_does_nothing_before_the_deadline() {
    let mut m = SmartCtlMonitorStream::new();
    assert_eq!(
        m.poll_gate(false),
        GateStep::NotReady { self_wake: false, reset_deadline: false }
    );
    assert!(!m.exec_in_flight);
    assert!(m.event_queue.is_empty());
}

#[test]
fn one_cycle_delivers_found_events() {
    let mut m = SmartCtlMonitorStream::new();
    let first = run_cycle(&mut m, ProbeOutcome::Done(strings(&["sda", "sdb"])));
    let events = drain(&mut m, first);
    assert_eq!(
        events,
        vec![
            ScanEventType::DeviceFound("sda".to_string()),
            ScanEventType::DeviceFound("sdb".to_string()),
        ]
    );
    assert!(!m.exec_in_flight);
}

#[test]
fn found_events_precede_lost_events_in_a_batch() {
    let mut m = SmartCtlMonitorStream::new();
    let first = run_cycle(&mut m, ProbeOutcome::Done(strings(&["sda", "sdb"])));
    drain(&mut m, first);
    let first = run_cycle(&mut m, ProbeOutcome::Done(strings(&["sdb", "sdc"])));
    let events = drain(&mut m, first);
    assert_eq!(
        events,
        vec![
            ScanEventType::DeviceFound("sdc".to_string()),
            ScanEventType::DeviceLost("sda".to_string()),
        ]
    );
}

#[test]
fn full_loss_emits_only_lost_events() {
    let mut m = SmartCtlMonitorStream::new();
    let first = run_cycle(&mut m, ProbeOutcome::Done(strings(&["sda", "sdb"])));
    drain(&mut m, first);
    let first = run_cycle(&mut m, ProbeOutcome::Done(Vec::new()));
    let events = drain(&mut m, first);
    assert_eq!(
        events,
        vec![
            ScanEventType::DeviceLost("sda".to_string()),
            ScanEventType::DeviceLost("sdb".to_string()),
        ]
    );
    assert!(m.current_dev_names.is_empty());
}

#[test]
fn quiet_cycle_resets_the_deadline() {
    let mut m = SmartCtlMonitorStream::new();
    let first = run_cycle(&mut m, ProbeOutcome::Done(strings(&["sda"])));
    drain(&mut m, first);
    let step = run_cycle(&mut m, ProbeOutcome::Done(strings(&["sda"])));
    assert_eq!(step, GateStep::NotReady { self_wake: true, reset_deadline: true });
}

#[test]
fn probe_failure_ends_the_stream_for_good() {
    let mut m = SmartCtlMonitorStream::new();
    let first = run_cycle(&mut m, ProbeOutcome::Done(strings(&["sda"])));
    drain(&mut m, first);
    let step = run_cycle(&mut m, ProbeOutcome::Failed);
    assert_eq!(step, GateStep::End);
    assert_eq!(m.current_dev_names, strings(&["sda"]));
    assert_eq!(m.poll_gate(true), GateStep::End);
    assert_eq!(m.poll_gate(false), GateStep::End);
    assert_eq!(m.current_dev_names, strings(&["sda"]));
}

#[test]
fn no_second_execution_while_one_is_in_flight() {
    let mut m = SmartCtlMonitorStream::new();
    assert_eq!(m.poll_gate(true), GateStep::StartExec);
    assert_eq!(m.on_exec_start(true), GateStep::AwaitExec);
    assert_eq!(m.poll_gate(true), GateStep::AwaitExec);
    assert_eq!(
        m.on_exec_poll(ProbeOutcome::Pending),
        GateStep::NotReady { self_wake: false, reset_deadline: false }
    );
    assert_eq!(m.poll_gate(true), GateStep::AwaitExec);
}

#[test]
fn failed_dispatch_resets_and_retries() {
    let mut m = SmartCtlMonitorStream::new();
    assert_eq!(m.poll_gate(true), GateStep::StartExec);
    assert_eq!(
        m.on_exec_start(false),
        GateStep::NotReady { self_wake: true, reset_deadline: true }
    );
    assert!(!m.exec_in_flight);
    assert_eq!(m.poll_gate(true), GateStep::StartExec);
}
