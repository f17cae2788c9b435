//! The port monitor: merges raw connections into user-facing port records.
//! Within one pass, port numbers are deduplicated first-wins, each record's
//! owner is resolved from a freshly refreshed process snapshot, and the
//! record is classified `Free`, `Occupied` or `System`.

use vstd::prelude::*;

use crate::host::{
    get_process, new_system, now_timestamp, os_host_name, os_long_version, proc_cmd,
    proc_cpu_percent, proc_cwd, proc_exe, proc_memory, proc_name, proc_start_time, proc_user,
    refresh_all, sys_cpu_count, sys_total_memory,
};
use crate::models::{
    HostOs, NetworkConnection, Port, PortStatus, ProcessInfo, Protocol, SystemInfo,
};

verus! {

/// PIDs strictly below this bound count as system processes on the given
/// platform.
pub open spec fn system_pid_bound(os: HostOs) -> u32 {
    match os {
        HostOs::Linux => 1000u32,
        HostOs::MacOs => 500u32,
        HostOs::Windows => 1000u32,
    }
}

/// Classification is a pure function of PID magnitude per platform.
pub open spec fn is_system_pid(os: HostOs, pid: u32) -> bool {
    pid < system_pid_bound(os)
}

/// The status of a port record: `Free` without a resolved owner, `System`
/// for a resolved owner with a system PID, else `Occupied`.
pub open spec fn classify_spec(os: HostOs, pid: u32, resolved: bool) -> PortStatus {
    if !resolved {
        PortStatus::Free
    } else if is_system_pid(os, pid) {
        PortStatus::System
    } else {
        PortStatus::Occupied
    }
}

/// Classifies a port's owner.
pub fn classify_status(os: HostOs, pid: u32, resolved: bool) -> (r: PortStatus)
    ensures
        r == classify_spec(os, pid, resolved),
{
    if !resolved {
        PortStatus::Free
    } else {
        let bound: u32 = match os {
            HostOs::Linux => 1000,
            HostOs::MacOs => 500,
            HostOs::Windows => 1000,
        };
        if pid < bound {
            PortStatus::System
        } else {
            PortStatus::Occupied
        }
    }
}

/// A PID of 1 is a system process under every platform threshold, and no
/// PID of at least 1000 is one: with a resolved owner the one is always
/// classified `System`, the other always `Occupied`.
pub proof fn lemma_system_pid_classification()
    ensures
        forall|os: HostOs| classify_spec(os, 1, true) == PortStatus::System,
        forall|os: HostOs, pid: u32|
            pid >= 1000 ==> classify_spec(os, pid, true) == PortStatus::Occupied,
{
}

/// The local ports of a connection list, in order.
pub open spec fn conn_ports(s: Seq<NetworkConnection>) -> Seq<u16> {
    s.map_values(|c: NetworkConnection| c.local_port)
}

/// The port numbers of a record list, in order.
pub open spec fn ports_of(s: Seq<Port>) -> Seq<u16> {
    s.map_values(|p: Port| p.port)
}

/// First-wins deduplication: the distinct values of `s`, each at its first
/// occurrence's position.
pub open spec fn dedup_ports(s: Seq<u16>) -> Seq<u16>
    decreases s.len(),
{
    if s.len() == 0 {
        Seq::empty()
    } else {
        let d = dedup_ports(s.drop_last());
        if d.contains(s.last()) {
            d
        } else {
            d.push(s.last())
        }
    }
}

/// Deduplication keeps exactly the values of `s`, each once.
pub proof fn lemma_dedup_props(s: Seq<u16>)
    ensures
        forall|x: u16| #[trigger] dedup_ports(s).contains(x) <==> s.contains(x),
        forall|i: int, j: int|
            0 <= i < j < dedup_ports(s).len() ==> dedup_ports(s)[i] != dedup_ports(s)[j],
    decreases s.len(),
{
    if s.len() > 0 {
        let t = s.drop_last();
        let x = s.last();
        let d = dedup_ports(t);
        lemma_dedup_props(t);
        assert(forall|y: u16| #[trigger] s.contains(y) <==> (t.contains(y) || y == x)) by {
            assert(forall|y: u16| #[trigger] t.contains(y) ==> s.contains(y)) by {
                assert(forall|k: int|
                    0 <= k < t.len() && t[k] == #[trigger] t[k] ==> s[k] == t[k]);
            }
            assert(s.contains(x)) by {
                assert(s[s.len() - 1] == x);
            }
            assert(forall|y: u16| s.contains(y) && y != x ==> t.contains(y)) by {
                assert forall|y: u16| s.contains(y) && y != x implies t.contains(y) by {
                    let k = choose|k: int| 0 <= k < s.len() && s[k] == y;
                    assert(k < t.len() && t[k] == y);
                }
            }
        }
        if d.contains(x) {
        } else {
            assert(forall|y: u16| #[trigger] d.push(x).contains(y) <==> (d.contains(y) || y
                == x)) by {
                assert(d.push(x)[d.len() as int] == x);
                assert(forall|k: int| 0 <= k < d.len() ==> d.push(x)[k] == d[k]);
                assert forall|y: u16| #[trigger] d.push(x).contains(y) implies (d.contains(y)
                    || y == x) by {
                    let k = choose|k: int| 0 <= k < d.push(x).len() && d.push(x)[k] == y;
                    if k < d.len() {
                        assert(d[k] == y);
                    }
                }
            }
        }
    }
}

/// The record `p` was built from the first connection carrying its port:
/// that connection fixes the protocol, the bound address, the owner's PID
/// when one was resolved, and the classification.
pub open spec fn from_first_conn(
    conns: Seq<NetworkConnection>,
    p: Port,
    os: HostOs,
    k: int,
) -> bool {
    &&& 0 <= k < conns.len()
    &&& conns[k].local_port == p.port
    &&& forall|j: int| 0 <= j < k ==> conns[j].local_port != p.port
    &&& p.protocol == conns[k].protocol
    &&& p.ip_address@ == conns[k].local_address@
    &&& (conns[k].pid == 0 ==> p.process is None)
    &&& (p.process matches Some(pr) ==> pr.pid == conns[k].pid)
    &&& p.status == classify_spec(os, conns[k].pid, p.process is Some)
    &&& p.created_at is Some
}

/// The record was built from the first connection carrying its port.
pub open spec fn built_from(conns: Seq<NetworkConnection>, p: Port, os: HostOs) -> bool {
    exists|k: int| from_first_conn(conns, p, os, k)
}

/// Whether a port number already has a record.
fn port_listed(out: &Vec<Port>, p: u16) -> (r: bool)
    ensures
        r == ports_of(out@).contains(p),
{
    let n = out.len();
    let mut i: usize = 0;
    while i < n
        invariant
            n == out@.len(),
            i <= n,
            forall|j: int| 0 <= j < i ==> out@[j].port != p,
        decreases n - i,
    {
        if out[i].port == p {
            proof {
                assert(ports_of(out@)[i as int] == p);
            }
            return true;
        }
        i += 1;
    }
    proof {
        assert(forall|j: int| 0 <= j < ports_of(out@).len() ==> ports_of(out@)[j] != p);
    }
    false
}

/// Finds the record with the given port number.
fn find_port_index(ports: &Vec<Port>, p: u16) -> (r: Option<usize>)
    ensures
        match r {
            Some(ix) => ix < ports@.len() && ports@[ix as int].port == p,
            None => !ports_of(ports@).contains(p),
        },
{
    let n = ports.len();
    let mut i: usize = 0;
    while i < n
        invariant
            n == ports@.len(),
            i <= n,
            forall|j: int| 0 <= j < i ==> ports@[j].port != p,
        decreases n - i,
    {
        if ports[i].port == p {
            return Some(i);
        }
        i += 1;
    }
    proof {
        assert(forall|j: int| 0 <= j < ports_of(ports@).len() ==> ports_of(ports@)[j] != p);
    }
    None
}

/// The default list of common local development ports.
pub open spec fn common_port_list() -> Seq<u16> {
    seq![3000u16, 3001u16, 4200u16, 5000u16, 5173u16, 8000u16, 8080u16, 9000u16]
}

/// The port monitor. It owns the process-table snapshot, which every query
/// refreshes wholesale before reading; callers serialize access.
pub struct PortMonitor {
    system: sysinfo::System,
    os: HostOs,
}

impl PortMonitor {
    /// The platform whose classification threshold applies.
    pub closed spec fn host_os(&self) -> HostOs {
        self.os
    }

    /// A monitor for the given platform, with a fresh snapshot.
    pub fn new(os: HostOs) -> (r: Self)
        ensures
            r.host_os() == os,
    {
        PortMonitor { system: new_system(), os }
    }

    /// The snapshot's record of this PID, or nothing when the PID is not
    /// alive in it. A returned record carries the requested PID.
    fn get_process_info(&self, pid: u32) -> (r: Option<ProcessInfo>)
        ensures
            r matches Some(p) ==> p.pid == pid,
    {
        match get_process(&self.system, pid) {
            Some(p) => {
                let path = match proc_exe(p) {
                    Some(s) => s,
                    None => String::new(),
                };
                Some(
                    ProcessInfo {
                        pid,
                        name: proc_name(p),
                        path,
                        command: proc_cmd(p),
                        working_dir: proc_cwd(p),
                        cpu_usage: proc_cpu_percent(p),
                        memory_usage: proc_memory(p),
                        started_at: proc_start_time(p),
                        user: proc_user(p),
                    },
                )
            },
            None => None,
        }
    }

    /// One record per distinct local port, first connection wins. Port
    /// numbers in the result are unique; a record is `Free` exactly when no
    /// owner was resolved, and an unresolvable owner (PID 0) is never
    /// looked up.
    pub fn get_active_ports(&mut self, conns: &Vec<NetworkConnection>) -> (r: Vec<Port>)
        ensures
            final(self).host_os() == old(self).host_os(),
            ports_of(r@) == dedup_ports(conn_ports(conns@)),
            forall|i: int, j: int| 0 <= i < j < r@.len() ==> r@[i].port != r@[j].port,
            forall|k: int|
                0 <= k < conns@.len() ==> ports_of(r@).contains(conns@[k].local_port),
            forall|i: int|
                0 <= i < r@.len() ==> ((#[trigger] r@[i].status is Free) <==> (r@[i].process
                    is None)),
            forall|i: int|
                0 <= i < r@.len() ==> built_from(conns@, #[trigger] r@[i], old(self).host_os()),
    {
        refresh_all(&mut self.system);
        let now = now_timestamp();
        let ghost os = self.os;
        let n = conns.len();
        let mut out: Vec<Port> = Vec::new();
        let mut i: usize = 0;
        proof {
            assert(conn_ports(conns@.subrange(0, 0)) =~= Seq::<u16>::empty());
            assert(ports_of(out@) =~= dedup_ports(conn_ports(conns@.subrange(0, 0))));
        }
        while i < n
            invariant
                n == conns@.len(),
                i <= n,
                self.os == os,
                ports_of(out@) == dedup_ports(conn_ports(conns@.subrange(0, i as int))),
                forall|t: int|
                    0 <= t < out@.len() ==> ((#[trigger] out@[t].status is Free) <==> (
                    out@[t].process is None)),
                forall|t: int|
                    0 <= t < out@.len() ==> built_from(conns@, #[trigger] out@[t], os),
            decreases n - i,
        {
            let ghost prefix = conn_ports(conns@.subrange(0, i as int));
            let ghost prefix2 = conn_ports(conns@.subrange(0, i as int + 1));
            proof {
                assert(conns@.subrange(0, i as int + 1).drop_last() =~= conns@.subrange(
                    0,
                    i as int,
                ));
                assert(prefix2.drop_last() =~= prefix);
                assert(prefix2.last() == conns@[i as int].local_port);
            }
            let c = &conns[i];
            let taken = port_listed(&out, c.local_port);
            if !taken {
                proof {
                    lemma_dedup_props(prefix);
                    assert(!dedup_ports(prefix).contains(c.local_port));
                    assert(!prefix.contains(c.local_port));
                    assert forall|j: int|
                        0 <= j < i implies conns@[j].local_port != c.local_port by {
                        assert(conns@.subrange(0, i as int)[j] == conns@[j]);
                        assert(prefix[j] == conns@[j].local_port);
                        if conns@[j].local_port == c.local_port {
                            assert(prefix.contains(c.local_port));
                        }
                    }
                }
                let process = if c.pid > 0 {
                    self.get_process_info(c.pid)
                } else {
                    None
                };
                let resolved = process.is_some();
                let status = classify_status(self.os, c.pid, resolved);
                let rec = Port {
                    port: c.local_port,
                    status,
                    protocol: c.protocol,
                    process,
                    ip_address: c.local_address.clone(),
                    created_at: Some(now),
                };
                let ghost out0 = out@;
                out.push(rec);
                proof {
                    assert(out@ == out0.push(rec));
                    assert(from_first_conn(conns@, rec, os, i as int));
                    assert(built_from(conns@, rec, os));
                    assert(ports_of(out@) =~= ports_of(out0).push(rec.port));
                    assert(dedup_ports(prefix2) == dedup_ports(prefix).push(rec.port));
                    assert forall|t: int| 0 <= t < out@.len() implies built_from(
                        conns@,
                        out@[t],
                        os,
                    ) by {
                        if t < out0.len() {
                            assert(out@[t] == out0[t]);
                        } else {
                            assert(out@[t] == rec);
                        }
                    }
                    assert forall|t: int| 0 <= t < out@.len() implies ((out@[t].status
                        is Free) <==> (out@[t].process is None)) by {
                        if t < out0.len() {
                            assert(out@[t] == out0[t]);
                        } else {
                            assert(out@[t] == rec);
                        }
                    }
                }
            } else {
                proof {
                    assert(dedup_ports(prefix).contains(c.local_port));
                    assert(dedup_ports(prefix2) == dedup_ports(prefix));
                }
            }
            i += 1;
        }
        proof {
            assert(conns@.subrange(0, n as int) =~= conns@);
            lemma_dedup_props(conn_ports(conns@));
            assert forall|i: int, j: int|
                0 <= i < j < out@.len() implies out@[i].port != out@[j].port by {
                assert(ports_of(out@)[i] == out@[i].port);
                assert(ports_of(out@)[j] == out@[j].port);
            }
            assert forall|k: int| 0 <= k < conns@.len() implies ports_of(out@).contains(
                conns@[k].local_port,
            ) by {
                assert(conn_ports(conns@)[k] == conns@[k].local_port);
                assert(conn_ports(conns@).contains(conns@[k].local_port));
            }
        }
        out
    }

    /// The record for one port, if any connection carries that port.
    pub fn get_port_details(&mut self, conns: &Vec<NetworkConnection>, port: u16) -> (r: Option<
        Port,
    >)
        ensures
            final(self).host_os() == old(self).host_os(),
            (r is Some) <==> conn_ports(conns@).contains(port),
            r matches Some(p) ==> p.port == port && ((p.status is Free) <==> (p.process
                is None)) && built_from(conns@, p, old(self).host_os()),
    {
        let ports = self.get_active_ports(conns);
        let found = find_port_index(&ports, port);
        proof {
            lemma_dedup_props(conn_ports(conns@));
            if found is Some {
                let ix = found->Some_0 as int;
                assert(ports_of(ports@)[ix] == port);
                assert(ports_of(ports@).contains(port));
            }
        }
        match found {
            Some(ix) => {
                let p = ports[ix].clone();
                proof {
                    assert(p == ports@[ix as int]);
                    assert(built_from(conns@, ports@[ix as int], old(self).host_os()));
                }
                Some(p)
            },
            None => None,
        }
    }

    /// One record per requested port, in the requested order: the matching
    /// record of a full pass when the port is active, else a fresh `Free`
    /// record bound to 127.0.0.1 with protocol TCP.
    pub fn scan_ports(&mut self, conns: &Vec<NetworkConnection>, requested: &Vec<u16>) -> (r:
        Vec<Port>)
        ensures
            final(self).host_os() == old(self).host_os(),
            r@.len() == requested@.len(),
            forall|i: int| 0 <= i < r@.len() ==> (#[trigger] r@[i]).port == requested@[i],
            forall|i: int|
                0 <= i < r@.len() ==> (((#[trigger] r@[i]).status is Free) <==> (r@[i].process
                    is None)),
            forall|i: int|
                0 <= i < r@.len() && !conn_ports(conns@).contains(requested@[i]) ==> (
                (#[trigger] r@[i]).status is Free && r@[i].protocol is TCP && r@[i].ip_address@
                    == "127.0.0.1"@ && r@[i].created_at is Some),
            forall|i: int|
                0 <= i < r@.len() && conn_ports(conns@).contains(requested@[i]) ==> built_from(
                    conns@,
                    #[trigger] r@[i],
                    old(self).host_os(),
                ),
    {
        let ghost os = self.os;
        let active = self.get_active_ports(conns);
        let now = now_timestamp();
        let n = requested.len();
        let mut out: Vec<Port> = Vec::new();
        let mut i: usize = 0;
        proof {
            lemma_dedup_props(conn_ports(conns@));
        }
        while i < n
            invariant
                n == requested@.len(),
                i <= n,
                self.os == os,
                ports_of(active@) == dedup_ports(conn_ports(conns@)),
                forall|t: int|
                    0 <= t < active@.len() ==> ((#[trigger] active@[t].status is Free) <==> (
                    active@[t].process is None)),
                forall|t: int|
                    0 <= t < active@.len() ==> built_from(conns@, #[trigger] active@[t], os),
                out@.len() == i,
                forall|t: int| 0 <= t < i ==> (#[trigger] out@[t]).port == requested@[t],
                forall|t: int|
                    0 <= t < i ==> (((#[trigger] out@[t]).status is Free) <==> (out@[t].process
                        is None)),
                forall|t: int|
                    0 <= t < i && !conn_ports(conns@).contains(requested@[t]) ==> (
                    (#[trigger] out@[t]).status is Free && out@[t].protocol is TCP
                        && out@[t].ip_address@ == "127.0.0.1"@ && out@[t].created_at is Some),
                forall|t: int|
                    0 <= t < i && conn_ports(conns@).contains(requested@[t]) ==> built_from(
                        conns@,
                        #[trigger] out@[t],
                        os,
                    ),
            decreases n - i,
        {
            let want = requested[i];
            let found = find_port_index(&active, want);
            let ghost out0 = out@;
            let rec = match found {
                Some(ix) => {
                    let p = active[ix].clone();
                    proof {
                        lemma_dedup_props(conn_ports(conns@));
                        assert(p == active@[ix as int]);
                        assert(ports_of(active@)[ix as int] == want);
                        assert(ports_of(active@).contains(want));
                        assert(conn_ports(conns@).contains(want));
                        assert(built_from(conns@, active@[ix as int], os));
                    }
                    p
                },
                None => {
                    proof {
                        lemma_dedup_props(conn_ports(conns@));
                        if conn_ports(conns@).contains(want) {
                            assert(ports_of(active@).contains(want));
                        }
                    }
                    Port {
                        port: want,
                        status: PortStatus::Free,
                        protocol: Protocol::TCP,
                        process: None,
                        ip_address: String::from_str("127.0.0.1"),
                        created_at: Some(now),
                    }
                },
            };
            out.push(rec);
            proof {
                assert(out@ == out0.push(rec));
                assert(forall|t: int| 0 <= t < i ==> out@[t] == out0[t]);
                assert(out@[i as int] == rec);
            }
            i += 1;
        }
        out
    }

    /// Scans the default list of common development ports: always exactly
    /// one record per listed port, in the listed order.
    pub fn scan_common_ports(&mut self, conns: &Vec<NetworkConnection>) -> (r: Vec<Port>)
        ensures
            final(self).host_os() == old(self).host_os(),
            r@.len() == common_port_list().len(),
            forall|i: int|
                0 <= i < r@.len() ==> (#[trigger] r@[i]).port == common_port_list()[i],
            forall|i: int|
                0 <= i < r@.len() ==> (((#[trigger] r@[i]).status is Free) <==> (r@[i].process
                    is None)),
            forall|i: int|
                0 <= i < r@.len() && !conn_ports(conns@).contains(common_port_list()[i]) ==> (
                (#[trigger] r@[i]).status is Free && r@[i].protocol is TCP && r@[i].ip_address@
                    == "127.0.0.1"@ && r@[i].created_at is Some),
            forall|i: int|
                0 <= i < r@.len() && conn_ports(conns@).contains(common_port_list()[i])
                    ==> built_from(conns@, #[trigger] r@[i], old(self).host_os()),
    {
        let mut req: Vec<u16> = Vec::new();
        req.push(3000);
        req.push(3001);
        req.push(4200);
        req.push(5000);
        req.push(5173);
        req.push(8000);
        req.push(8080);
        req.push(9000);
        proof {
            assert(req@ =~= common_port_list());
        }
        self.scan_ports(conns, &req)
    }
}

/// Keeps a present label, and reads an absent one as `Unknown`.
fn label_or_unknown(o: Option<String>) -> (r: String)
    ensures
        r@ == match o {
            Some(s) => s@,
            None => "Unknown"@,
        },
{
    match o {
        Some(s) => s,
        None => String::from_str("Unknown"),
    }
}

/// A static host summary: a fresh snapshot's CPU count and total memory,
/// with `Unknown` standing in for an unreadable OS version or hostname.
/// The caller supplies the platform's name.
pub fn get_system_info(os_name: String) -> (r: SystemInfo)
    ensures
        r.os@ == os_name@,
{
    let sys = new_system();
    let cpu_count = sys_cpu_count(&sys);
    let total_memory = sys_total_memory(&sys);
    SystemInfo {
        os: os_name,
        os_version: label_or_unknown(os_long_version()),
        hostname: label_or_unknown(os_host_name()),
        cpu_count,
        total_memory,
    }
}

} // verus!
