//! Trusted boundary to the host: the process-table snapshot (sysinfo), the
//! clock (chrono), and text recovered from raw bytes. Each wrapper's
//! contract states only what the outside crate's source shows; results that
//! depend on the live system state carry no promise, and callers are
//! verified for every outcome.

use vstd::prelude::*;

verus! {

#[verifier::external_type_specification]
#[verifier::external_body]
pub struct ExSystem(sysinfo::System);

#[verifier::external_type_specification]
#[verifier::external_body]
pub struct ExProcess(sysinfo::Process);

/// What `String::from_utf8_lossy` yields on given bytes: a function of the
/// bytes alone.
pub uninterp spec fn utf8_lossy_chars(b: Seq<u8>) -> Seq<char>;

/// Relies on String::from_utf8_lossy: ASCII bytes decode to the characters
/// with the same codes.
#[verifier::external_body]
pub(crate) fn bytes_to_string(b: &[u8]) -> (r: String)
    ensures
        r@ == utf8_lossy_chars(b@),
        crate::bytes::all_ascii(b@) ==> r@ == crate::bytes::ascii_chars(b@),
{
    String::from_utf8_lossy(b).into_owned()
}

/// Relies on sysinfo::System::new_all: a fresh, fully loaded snapshot.
#[verifier::external_body]
pub(crate) fn new_system() -> sysinfo::System {
    sysinfo::System::new_all()
}

/// Relies on sysinfo::System::refresh_all: replaces the snapshot wholesale.
#[verifier::external_body]
pub(crate) fn refresh_all(sys: &mut sysinfo::System) {
    sys.refresh_all();
}

/// Relies on sysinfo::System::refresh_processes: reloads every process and
/// drops dead ones from the snapshot.
#[verifier::external_body]
pub(crate) fn refresh_processes(sys: &mut sysinfo::System) {
    sys.refresh_processes(sysinfo::ProcessesToUpdate::All, true);
}

/// Relies on sysinfo::System::process: the snapshot's entry for this PID,
/// if the PID was alive at the last refresh.
#[verifier::external_body]
pub(crate) fn get_process(sys: &sysinfo::System, pid: u32) -> Option<&sysinfo::Process> {
    sys.process(sysinfo::Pid::from_u32(pid))
}

/// Relies on sysinfo::Process::name; the OS string is recovered lossily.
#[verifier::external_body]
pub(crate) fn proc_name(p: &sysinfo::Process) -> String {
    p.name().to_string_lossy().into_owned()
}

/// Relies on sysinfo::Process::exe: the executable path, when resolvable.
#[verifier::external_body]
pub(crate) fn proc_exe(p: &sysinfo::Process) -> Option<String> {
    match p.exe() {
        Some(path) => Some(path.to_string_lossy().into_owned()),
        None => None,
    }
}

/// Relies on sysinfo::Process::cmd; the argument list is recovered lossily,
/// joined with single spaces. OS strings cannot cross this boundary, so the
/// join happens here.
#[verifier::external_body]
pub(crate) fn proc_cmd(p: &sysinfo::Process) -> String {
    let parts: Vec<String> = p.cmd().iter().map(|c| c.to_string_lossy().into_owned()).collect();
    parts.join(" ")
}

/// Relies on sysinfo::Process::cwd: the working directory, when resolvable.
#[verifier::external_body]
pub(crate) fn proc_cwd(p: &sysinfo::Process) -> Option<String> {
    match p.cwd() {
        Some(path) => Some(path.to_string_lossy().into_owned()),
        None => None,
    }
}

/// Relies on sysinfo::Process::cpu_usage: the instantaneous percentage,
/// truncated to a whole number.
#[verifier::external_body]
pub(crate) fn proc_cpu_percent(p: &sysinfo::Process) -> u32 {
    p.cpu_usage() as u32
}

/// Relies on sysinfo::Process::memory: resident memory in bytes.
#[verifier::external_body]
pub(crate) fn proc_memory(p: &sysinfo::Process) -> u64 {
    p.memory()
}

/// Relies on sysinfo::Process::start_time: seconds since the OS epoch.
#[verifier::external_body]
pub(crate) fn proc_start_time(p: &sysinfo::Process) -> u64 {
    p.start_time()
}

/// Relies on sysinfo::Process::user_id: the owning user, in string form.
#[verifier::external_body]
pub(crate) fn proc_user(p: &sysinfo::Process) -> Option<String> {
    match p.user_id() {
        Some(uid) => Some(uid.to_string()),
        None => None,
    }
}

/// Relies on sysinfo::Process::kill: sends the forced-kill signal and
/// reports whether it was accepted.
#[verifier::external_body]
pub(crate) fn proc_kill(p: &sysinfo::Process) -> bool {
    p.kill()
}

/// Relies on sysinfo::Process::kill_with: sends the graceful termination
/// signal; `None` when the platform lacks that signal.
#[verifier::external_body]
pub(crate) fn proc_kill_term(p: &sysinfo::Process) -> Option<bool> {
    p.kill_with(sysinfo::Signal::Term)
}

/// Relies on sysinfo::System::long_os_version.
#[verifier::external_body]
pub(crate) fn os_long_version() -> Option<String> {
    sysinfo::System::long_os_version()
}

/// Relies on sysinfo::System::host_name.
#[verifier::external_body]
pub(crate) fn os_host_name() -> Option<String> {
    sysinfo::System::host_name()
}

/// Relies on sysinfo::System::cpus: the number of logical CPUs known to the
/// snapshot.
#[verifier::external_body]
pub(crate) fn sys_cpu_count(sys: &sysinfo::System) -> usize {
    sys.cpus().len()
}

/// Relies on sysinfo::System::total_memory: total memory in bytes.
#[verifier::external_body]
pub(crate) fn sys_total_memory(sys: &sysinfo::System) -> u64 {
    sys.total_memory()
}

/// Relies on chrono::Utc::now and DateTime::timestamp: the current time as
/// seconds since the Unix epoch.
#[verifier::external_body]
pub(crate) fn now_timestamp() -> i64 {
    chrono::Utc::now().timestamp()
}

} // verus!
