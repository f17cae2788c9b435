//! Monitor, manager and admin tests: dedup and classification of port
//! records, the common-port scan, the kill protocol's terminal cases, and
//! the elevation helper.

use porter::admin;
use porter::manager::{KillState, ProcessManager};
use porter::models::{HostOs, NetworkConnection, PortError, PortStatus, Protocol};
use porter::monitor::{classify_status, PortMonitor};

// A PID far above any real process table, so lookups resolve to nothing.
const GHOST_PID: u32 = 4_000_000_000;

fn conn(port: u16, pid: u32, addr: &str) -> NetworkConnection {
    NetworkConnection {
        local_address: addr.to_string(),
        local_port: port,
        remote_address: String::new(),
        remote_port: 0,
        protocol: Protocol::TCP,
        pid,
        state: "LISTEN".to_string(),
    }
}

// Port numbers are unique within a single enumeration result: the first
// connection per port wins and later duplicates are dropped.
#[test]
fn active_ports_dedup_first_wins() {
    let mut monitor = PortMonitor::new(HostOs::Linux);
    let conns = vec![
        conn(3000, 0, "127.0.0.1"),
        conn(3000, GHOST_PID, "0.0.0.0"),
        conn(8080, 0, "0.0.0.0"),
        conn(3000, 0, "10.0.0.1"),
        conn(8080, 0, "127.0.0.1"),
    ];
    let ports = monitor.get_active_ports(&conns);
    assert_eq!(ports.len(), 2);
    assert_eq!(ports[0].port, 3000);
    assert_eq!(ports[0].ip_address, "127.0.0.1");
    assert_eq!(ports[1].port, 8080);
    assert_eq!(ports[1].ip_address, "0.0.0.0");
    for p in &ports {
        assert!(p.created_at.is_some());
    }
}

// `Free` status and an absent process imply each other; a PID of 0 is
// never looked up.
#[test]
fn free_status_iff_no_process() {
    let mut monitor = PortMonitor::new(HostOs::Linux);
    let conns = vec![conn(5000, 0, "127.0.0.1"), conn(5173, GHOST_PID, "127.0.0.1")];
    let ports = monitor.get_active_ports(&conns);
    assert_eq!(ports.len(), 2);
    for p in &ports {
        assert_eq!(matches!(p.status, PortStatus::Free), p.process.is_none());
        // Neither PID 0 nor the ghost PID resolves to a live process.
        assert!(p.process.is_none());
        assert!(matches!(p.status, PortStatus::Free));
    }
}

// The default scan always yields exactly 8 records, one per listed port,
// in the listed order, however many are occupied.
#[test]
fn common_scan_is_exhaustive_and_ordered() {
    let expected = [3000u16, 3001, 4200, 5000, 5173, 8000, 8080, 9000];
    let mut monitor = PortMonitor::new(HostOs::Linux);

    let none: Vec<NetworkConnection> = Vec::new();
    let all_free = monitor.scan_common_ports(&none);
    assert_eq!(all_free.len(), 8);
    for (i, p) in all_free.iter().enumerate() {
        assert_eq!(p.port, expected[i]);
        assert!(matches!(p.status, PortStatus::Free));
        assert!(p.process.is_none());
        assert_eq!(p.ip_address, "127.0.0.1");
        assert!(matches!(p.protocol, Protocol::TCP));
        assert!(p.created_at.is_some());
    }

    let some = vec![conn(4200, 0, "0.0.0.0"), conn(9999, 0, "0.0.0.0")];
    let mixed = monitor.scan_common_ports(&some);
    assert_eq!(mixed.len(), 8);
    for (i, p) in mixed.iter().enumerate() {
        assert_eq!(p.port, expected[i]);
    }
    assert_eq!(mixed[2].ip_address, "0.0.0.0");
}

#[test]
fn scan_ports_follows_request_order() {
    let mut monitor = PortMonitor::new(HostOs::Linux);
    let conns = vec![conn(443, 0, "0.0.0.0")];
    let requested: Vec<u16> = vec![9000, 443, 9000];
    let result = monitor.scan_ports(&conns, &requested);
    assert_eq!(result.len(), 3);
    assert_eq!(result[0].port, 9000);
    assert_eq!(result[1].port, 443);
    assert_eq!(result[2].port, 9000);
    assert_eq!(result[1].ip_address, "0.0.0.0");
    assert_eq!(result[0].ip_address, "127.0.0.1");
}

#[test]
fn port_details_found_and_absent() {
    let mut monitor = PortMonitor::new(HostOs::Linux);
    let conns = vec![conn(3000, 0, "127.0.0.1")];
    let hit = monitor.get_port_details(&conns, 3000);
    assert!(hit.is_some());
    let p = hit.unwrap();
    assert_eq!(p.port, 3000);
    assert!(matches!(p.status, PortStatus::Free));
    let miss = monitor.get_port_details(&conns, 8080);
    assert!(miss.is_none());
}

// A synthetic PID of 1 is `System` under every platform threshold; a PID
// above all thresholds with a resolved process is `Occupied`.
#[test]
fn classification_thresholds() {
    for os in [HostOs::Linux, HostOs::MacOs, HostOs::Windows] {
        assert!(matches!(classify_status(os, 1, true), PortStatus::System));
        assert!(matches!(classify_status(os, 99999, true), PortStatus::Occupied));
        assert!(matches!(classify_status(os, 1, false), PortStatus::Free));
    }
    assert!(matches!(classify_status(HostOs::Linux, 999, true), PortStatus::System));
    assert!(matches!(classify_status(HostOs::Linux, 1000, true), PortStatus::Occupied));
    assert!(matches!(classify_status(HostOs::MacOs, 499, true), PortStatus::System));
    assert!(matches!(classify_status(HostOs::MacOs, 500, true), PortStatus::Occupied));
    assert!(porter::linux::is_system_process(999));
    assert!(!porter::linux::is_system_process(1000));
    assert!(porter::macos::is_system_process(499));
    assert!(!porter::macos::is_system_process(500));
    assert!(porter::windows::is_system_process(999));
    assert!(!porter::windows::is_system_process(1000));
}

// A kill on a nonexistent PID stops at the probe with the not-found error:
// the protocol never reaches a signal-sending state.
#[test]
fn kill_nonexistent_pid_not_found() {
    let mut manager = ProcessManager::new();
    let state = manager.kill_process(GHOST_PID);
    assert_eq!(state, KillState::NotFound);
    let verdict = porter::manager::kill_result(GHOST_PID, state);
    assert_eq!(verdict, Some(Err(PortError::ProcessNotFound { pid: GHOST_PID })));
    assert_eq!(
        PortError::ProcessNotFound { pid: GHOST_PID }.message(),
        "Process not found: PID 4000000000"
    );
}

// A target gone at the recheck reports success straight from `Waiting`,
// without entering the forced-kill state.
#[test]
fn kill_finish_on_exited_target_succeeds() {
    let mut manager = ProcessManager::new();
    // The ghost PID is absent at the recheck, as a process that exited
    // during the grace period would be.
    let verdict = manager.finish_kill(GHOST_PID);
    assert_eq!(verdict, Ok(true));
}

// A port with no active listener and a port whose owner is unresolvable
// fail with the same not-in-use error.
#[test]
fn kill_by_port_not_in_use() {
    let mut manager = ProcessManager::new();
    let none: Vec<NetworkConnection> = Vec::new();
    let unbound = manager.kill_process_by_port(&none, 8080);
    assert_eq!(unbound, Err(PortError::PortNotInUse { port: 8080 }));

    let ownerless = vec![conn(8080, 0, "127.0.0.1")];
    let unowned = manager.kill_process_by_port(&ownerless, 8080);
    assert_eq!(unowned, Err(PortError::PortNotInUse { port: 8080 }));
}

#[test]
fn kill_by_port_targets_first_owner() {
    let mut manager = ProcessManager::new();
    let conns = vec![
        conn(8080, 0, "127.0.0.1"),
        conn(8080, GHOST_PID, "127.0.0.1"),
        conn(8080, 7, "127.0.0.1"),
    ];
    let result = manager.kill_process_by_port(&conns, 8080);
    match result {
        Ok((pid, state)) => {
            assert_eq!(pid, GHOST_PID);
            assert_eq!(state, KillState::NotFound);
        },
        Err(_) => panic!("expected the first resolvable owner to be targeted"),
    }
}

#[test]
fn elevation_rules() {
    assert!(admin::is_elevated(0));
    assert!(!admin::is_elevated(1000));
    let refused = admin::request_elevation();
    assert_eq!(refused, Err(PortError::ElevationUnsupported));
    assert_eq!(
        PortError::ElevationUnsupported.message(),
        "Please restart Porter with sudo/root privileges to kill system processes."
    );
}

#[test]
fn system_info_carries_os_name() {
    let info = porter::monitor::get_system_info("linux".to_string());
    assert_eq!(info.os, "linux");
    assert!(!info.os_version.is_empty());
    assert!(!info.hostname.is_empty());
}
