//! The process manager: the two-phase termination protocol. A kill attempt
//! runs `Probe -> Graceful -> Waiting -> Forcing` against the live system,
//! ending in `Killed`, `NotFound` or `Denied`; the grace period between
//! `Waiting` and its recheck is the caller's, so the protocol pauses there.
//! Every advance follows the transition function, whatever the system
//! answered.

use vstd::prelude::*;

use crate::host::{get_process, new_system, proc_kill, proc_kill_term, refresh_processes};
use crate::models::{NetworkConnection, PortError};

verus! {

/// The states of one kill attempt. `Probe` must check the target's
/// presence; `Graceful` must send the graceful signal; `Waiting` must let
/// the grace period pass, then recheck presence; `Forcing` must send the
/// forced signal. The rest are terminal.
#[derive(Clone, Copy, Debug, PartialEq, Eq, Structural)]
pub enum KillState {
    Probe,
    Graceful,
    Waiting,
    Forcing,
    Killed,
    NotFound,
    Denied,
}

/// A state with no pending interaction.
pub open spec fn is_terminal(s: KillState) -> bool {
    s is Killed || s is NotFound || s is Denied
}

/// The transition function. The observation is what the pending
/// interaction answered: presence for `Probe` and `Waiting`, signal
/// acceptance for `Graceful` and `Forcing`.
pub open spec fn kill_step_spec(s: KillState, observed: bool) -> KillState {
    match s {
        KillState::Probe => if observed {
            KillState::Graceful
        } else {
            KillState::NotFound
        },
        KillState::Graceful => if observed {
            KillState::Waiting
        } else {
            KillState::Denied
        },
        KillState::Waiting => if observed {
            KillState::Forcing
        } else {
            KillState::Killed
        },
        KillState::Forcing => if observed {
            KillState::Killed
        } else {
            KillState::Denied
        },
        KillState::Killed => KillState::Killed,
        KillState::NotFound => KillState::NotFound,
        KillState::Denied => KillState::Denied,
    }
}

/// What a terminal state reports for the given PID; `None` while the
/// protocol is still running.
pub open spec fn kill_result_spec(pid: u32, s: KillState) -> Option<Result<bool, PortError>> {
    match s {
        KillState::Killed => Some(Ok(true)),
        KillState::NotFound => Some(Err(PortError::ProcessNotFound { pid })),
        KillState::Denied => Some(Err(PortError::PermissionDenied { pid })),
        _ => None,
    }
}

/// Reads a terminal state's verdict.
pub fn kill_result(pid: u32, s: KillState) -> (r: Option<Result<bool, PortError>>)
    ensures
        r == kill_result_spec(pid, s),
{
    match s {
        KillState::Killed => Some(Ok(true)),
        KillState::NotFound => Some(Err(PortError::ProcessNotFound { pid })),
        KillState::Denied => Some(Err(PortError::PermissionDenied { pid })),
        _ => None,
    }
}

/// On a missing target the protocol ends at once with the not-found error:
/// the signal-sending states are never reached, so no signal is sent.
pub proof fn lemma_kill_missing_sends_no_signal(pid: u32)
    ensures
        kill_step_spec(KillState::Probe, false) == KillState::NotFound,
        is_terminal(KillState::NotFound),
        kill_result_spec(pid, KillState::NotFound) == Some(
            Err::<bool, PortError>(PortError::ProcessNotFound { pid }),
        ),
{
}

/// A target gone after the grace period is a success reached directly from
/// `Waiting`: the forced-kill state is never entered.
pub proof fn lemma_kill_graceful_exit_success(pid: u32)
    ensures
        kill_step_spec(KillState::Waiting, false) == KillState::Killed,
        is_terminal(KillState::Killed),
        kill_result_spec(pid, KillState::Killed) == Some(Ok::<bool, PortError>(true)),
{
}

/// The owner to target for a port: the PID of the first connection with
/// that local port and a known owner.
pub open spec fn port_owner(conns: Seq<NetworkConnection>, port: u16) -> Option<u32>
    decreases conns.len(),
{
    if conns.len() == 0 {
        None
    } else if conns[0].local_port == port && conns[0].pid > 0 {
        Some(conns[0].pid)
    } else {
        port_owner(conns.drop_first(), port)
    }
}

/// The process manager. It owns the process-table snapshot, refreshed
/// before every presence check; callers serialize access.
pub struct ProcessManager {
    system: sysinfo::System,
}

impl ProcessManager {
    /// A manager with a fresh snapshot.
    pub fn new() -> Self {
        ProcessManager { system: new_system() }
    }

    /// Performs the pending interaction of a non-terminal state and takes
    /// one transition: presence checks refresh the snapshot first, signal
    /// states send their signal. Whatever the system answered, the result
    /// is one step of the transition function.
    pub fn advance_kill(&mut self, pid: u32, state: KillState) -> (next: KillState)
        requires
            !is_terminal(state),
        ensures
            exists|observed: bool| next == kill_step_spec(state, observed),
    {
        match state {
            KillState::Probe => {
                refresh_processes(&mut self.system);
                let present = get_process(&self.system, pid).is_some();
                let next = if present {
                    KillState::Graceful
                } else {
                    KillState::NotFound
                };
                proof {
                    assert(next == kill_step_spec(state, present));
                }
                next
            },
            KillState::Graceful => {
                // Where the platform has no graceful signal, direct
                // termination stands in for it.
                let accepted = match get_process(&self.system, pid) {
                    Some(p) => match proc_kill_term(p) {
                        Some(b) => b,
                        None => proc_kill(p),
                    },
                    None => false,
                };
                let next = if accepted {
                    KillState::Waiting
                } else {
                    KillState::Denied
                };
                proof {
                    assert(next == kill_step_spec(state, accepted));
                }
                next
            },
            KillState::Waiting => {
                refresh_processes(&mut self.system);
                let present = get_process(&self.system, pid).is_some();
                let next = if present {
                    KillState::Forcing
                } else {
                    KillState::Killed
                };
                proof {
                    assert(next == kill_step_spec(state, present));
                }
                next
            },
            KillState::Forcing => {
                let accepted = match get_process(&self.system, pid) {
                    Some(p) => proc_kill(p),
                    None => false,
                };
                let next = if accepted {
                    KillState::Killed
                } else {
                    KillState::Denied
                };
                proof {
                    assert(next == kill_step_spec(state, accepted));
                }
                next
            },
            _ => {
                proof {
                    assert(false);
                }
                state
            },
        }
    }

    /// Runs the protocol up to the wait point: probes for the target and,
    /// when it is present, sends the graceful signal. `Waiting` asks the
    /// caller to let the grace period pass and then call `finish_kill`;
    /// `NotFound` and `Denied` are final.
    pub fn kill_process(&mut self, pid: u32) -> (r: KillState)
        ensures
            r is Waiting || r is NotFound || r is Denied,
    {
        let s1 = self.advance_kill(pid, KillState::Probe);
        proof {
            assert(s1 is Graceful || s1 is NotFound);
        }
        match s1 {
            KillState::Graceful => {
                let s2 = self.advance_kill(pid, s1);
                proof {
                    assert(s2 is Waiting || s2 is Denied);
                }
                s2
            },
            _ => s1,
        }
    }

    /// Completes the protocol after the grace period: rechecks the target
    /// and, if it survived, issues the forced kill. Reports success exactly
    /// when the target is gone or the forced signal was accepted; otherwise
    /// the PID likely needs elevated privileges.
    pub fn finish_kill(&mut self, pid: u32) -> (r: Result<bool, PortError>)
        ensures
            r == Ok::<bool, PortError>(true) || r == Err::<bool, PortError>(
                PortError::PermissionDenied { pid },
            ),
    {
        let s1 = self.advance_kill(pid, KillState::Waiting);
        proof {
            assert(s1 is Forcing || s1 is Killed);
        }
        let s2 = match s1 {
            KillState::Forcing => {
                let s = self.advance_kill(pid, s1);
                proof {
                    assert(s is Killed || s is Denied);
                }
                s
            },
            _ => s1,
        };
        match kill_result(pid, s2) {
            Some(verdict) => verdict,
            None => {
                proof {
                    assert(false);
                }
                Err(PortError::PermissionDenied { pid })
            },
        }
    }

    /// Maps a port to its owning PID and starts the kill protocol on it.
    /// Fails with the not-in-use error exactly when no connection has the
    /// port with a known owner: a port without any listener and one whose
    /// owner is unresolvable report the same error.
    pub fn kill_process_by_port(&mut self, conns: &Vec<NetworkConnection>, port: u16) -> (r:
        Result<(u32, KillState), PortError>)
        ensures
            r matches Ok(p) ==> port_owner(conns@, port) == Some(p.0) && (p.1 is Waiting || p.1
                is NotFound || p.1 is Denied),
            r matches Err(e) ==> e == (PortError::PortNotInUse { port }) && port_owner(
                conns@,
                port,
            ) is None,
    {
        let n = conns.len();
        let mut i: usize = 0;
        proof {
            assert(conns@.subrange(0, n as int) =~= conns@);
        }
        while i < n
            invariant
                n == conns@.len(),
                i <= n,
                port_owner(conns@, port) == port_owner(
                    conns@.subrange(i as int, n as int),
                    port,
                ),
            decreases n - i,
        {
            proof {
                let suf = conns@.subrange(i as int, n as int);
                let suf2 = conns@.subrange(i as int + 1, n as int);
                assert(suf.drop_first() =~= suf2);
                assert(suf[0] == conns@[i as int]);
            }
            let c = &conns[i];
            if c.local_port == port && c.pid > 0 {
                let pid = c.pid;
                let state = self.kill_process(pid);
                return Ok((pid, state));
            }
            i += 1;
        }
        proof {
            assert(conns@.subrange(n as int, n as int) =~= Seq::<NetworkConnection>::empty());
        }
        Err(PortError::PortNotInUse { port })
    }
}

} // verus!
