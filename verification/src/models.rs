//! Data model: connections, processes, port records, classification status,
//! host summary, and the library's error type.

use vstd::prelude::*;

use crate::bytes::dec_chars;

verus! {

/// The platform whose classification threshold and socket source apply.
#[derive(Clone, Copy, Debug, PartialEq, Eq, Structural)]
pub enum HostOs {
    Linux,
    MacOs,
    Windows,
}

/// Classification of a port's owner.
#[derive(Clone, Copy, Debug, PartialEq, Eq, Structural)]
pub enum PortStatus {
    Free,
    Occupied,
    System,
}

/// Transport protocol of a socket.
#[derive(Clone, Copy, Debug, PartialEq, Eq, Structural)]
pub enum Protocol {
    TCP,
    UDP,
}

/// One raw socket-table entry, as read from the operating system.
/// Remote endpoint fields are not populated (local-only visibility).
pub struct NetworkConnection {
    pub local_address: String,
    pub local_port: u16,
    pub remote_address: String,
    pub remote_port: u16,
    pub protocol: Protocol,
    pub pid: u32,
    pub state: String,
}

/// Mathematical image of a `NetworkConnection`: strings as character sequences.
#[verifier::ext_equal]
pub struct ConnView {
    pub local_address: Seq<char>,
    pub local_port: u16,
    pub remote_address: Seq<char>,
    pub remote_port: u16,
    pub protocol: Protocol,
    pub pid: u32,
    pub state: Seq<char>,
}

impl View for NetworkConnection {
    type V = ConnView;

    open spec fn view(&self) -> ConnView {
        ConnView {
            local_address: self.local_address@,
            local_port: self.local_port,
            remote_address: self.remote_address@,
            remote_port: self.remote_port,
            protocol: self.protocol,
            pid: self.pid,
            state: self.state@,
        }
    }
}

/// The views of a sequence of connections.
pub open spec fn views_of(s: Seq<NetworkConnection>) -> Seq<ConnView> {
    s.map_values(|c: NetworkConnection| c@)
}

/// Snapshot of a live process at query time.
/// `cpu_usage` is a whole-number percentage; `started_at` is in seconds
/// since the OS epoch.
pub struct ProcessInfo {
    pub pid: u32,
    pub name: String,
    pub path: String,
    pub command: String,
    pub working_dir: Option<String>,
    pub cpu_usage: u32,
    pub memory_usage: u64,
    pub started_at: u64,
    pub user: Option<String>,
}

/// One user-facing record per distinct local port.
/// `created_at` is the observation timestamp in seconds since the Unix epoch.
pub struct Port {
    pub port: u16,
    pub status: PortStatus,
    pub protocol: Protocol,
    pub process: Option<ProcessInfo>,
    pub ip_address: String,
    pub created_at: Option<i64>,
}

/// Static host summary.
pub struct SystemInfo {
    pub os: String,
    pub os_version: String,
    pub hostname: String,
    pub cpu_count: usize,
    pub total_memory: u64,
}

/// Errors surfaced by the kill protocol and the elevation helper.
#[derive(Clone, Copy, Debug, PartialEq, Eq, Structural)]
pub enum PortError {
    /// The requested PID did not exist in a fresh process snapshot.
    ProcessNotFound { pid: u32 },
    /// A termination signal was rejected or had no effect; elevated
    /// privileges are likely required.
    PermissionDenied { pid: u32 },
    /// No connection with the requested local port and a known owner.
    PortNotInUse { port: u16 },
    /// Privilege elevation is not supported on this platform.
    ElevationUnsupported,
}

/// The human-readable text of each error.
pub open spec fn error_message(e: PortError) -> Seq<char> {
    match e {
        PortError::ProcessNotFound { pid } => "Process not found: PID "@ + dec_chars(pid as int),
        PortError::PermissionDenied { pid } => "Failed to kill process (PID: "@ + dec_chars(
            pid as int,
        ) + "). You may need sudo/root privileges."@,
        PortError::PortNotInUse { port } => "Port "@ + dec_chars(port as int)
            + " is not in use"@,
        PortError::ElevationUnsupported
            => "Please restart Porter with sudo/root privileges to kill system processes."@,
    }
}

impl PortError {
    /// Renders the error for the presentation boundary.
    pub fn message(&self) -> (r: String)
        ensures
            r@ == error_message(*self),
    {
        match self {
            PortError::ProcessNotFound { pid } => {
                let mut s = String::from_str("Process not found: PID ");
                crate::bytes::push_dec_u64(&mut s, *pid as u64);
                s
            },
            PortError::PermissionDenied { pid } => {
                let mut s = String::from_str("Failed to kill process (PID: ");
                crate::bytes::push_dec_u64(&mut s, *pid as u64);
                s.append("). You may need sudo/root privileges.");
                proof {
                    assert(s@ =~= error_message(*self));
                }
                s
            },
            PortError::PortNotInUse { port } => {
                let mut s = String::from_str("Port ");
                crate::bytes::push_dec_u64(&mut s, *port as u64);
                s.append(" is not in use");
                proof {
                    assert(s@ =~= error_message(*self));
                }
                s
            },
            PortError::ElevationUnsupported => String::from_str(
                "Please restart Porter with sudo/root privileges to kill system processes.",
            ),
        }
    }
}

impl Clone for ProcessInfo {
    /// A field-for-field copy.
    fn clone(&self) -> (r: Self)
        ensures
            r == *self,
    {
        let r = ProcessInfo {
            pid: self.pid,
            name: self.name.clone(),
            path: self.path.clone(),
            command: self.command.clone(),
            working_dir: match &self.working_dir {
                Some(s) => Some(s.clone()),
                None => None,
            },
            cpu_usage: self.cpu_usage,
            memory_usage: self.memory_usage,
            started_at: self.started_at,
            user: match &self.user {
                Some(s) => Some(s.clone()),
                None => None,
            },
        };
        r
    }
}

impl Clone for Port {
    /// A field-for-field copy.
    fn clone(&self) -> (r: Self)
        ensures
            r == *self,
    {
        let r = Port {
            port: self.port,
            status: self.status,
            protocol: self.protocol,
            process: match &self.process {
                Some(p) => Some(p.clone()),
                None => None,
            },
            ip_address: self.ip_address.clone(),
            created_at: self.created_at,
        };
        r
    }
}

} // verus!
