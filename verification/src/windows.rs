//! Decoding for the Windows extended-TCP-table entries: the address is a
//! 32-bit value rendered low byte first, the port sits in simulated network
//! byte order in the low 16 bits of its field, and the raw state code maps
//! to one of twelve labels. Walking the native table itself needs raw
//! memory access and stays outside the library; only decoded plain values
//! enter here.

use vstd::prelude::*;

use crate::bytes::{format_ipv4_le, ipv4_chars};
use crate::models::{ConnView, NetworkConnection, Protocol, views_of};

verus! {

/// The label of a raw TCP state code.
pub open spec fn tcp_state_label(state: u32) -> Seq<char> {
    if state == 1 {
        "CLOSED"@
    } else if state == 2 {
        "LISTEN"@
    } else if state == 3 {
        "SYN_SENT"@
    } else if state == 4 {
        "SYN_RCVD"@
    } else if state == 5 {
        "ESTABLISHED"@
    } else if state == 6 {
        "FIN_WAIT1"@
    } else if state == 7 {
        "FIN_WAIT2"@
    } else if state == 8 {
        "CLOSE_WAIT"@
    } else if state == 9 {
        "CLOSING"@
    } else if state == 10 {
        "LAST_ACK"@
    } else if state == 11 {
        "TIME_WAIT"@
    } else if state == 12 {
        "DELETE_TCB"@
    } else {
        "UNKNOWN"@
    }
}

/// Renders a raw TCP state code as its label.
pub fn format_tcp_state(state: u32) -> (r: String)
    ensures
        r@ == tcp_state_label(state),
{
    if state == 1 {
        String::from_str("CLOSED")
    } else if state == 2 {
        String::from_str("LISTEN")
    } else if state == 3 {
        String::from_str("SYN_SENT")
    } else if state == 4 {
        String::from_str("SYN_RCVD")
    } else if state == 5 {
        String::from_str("ESTABLISHED")
    } else if state == 6 {
        String::from_str("FIN_WAIT1")
    } else if state == 7 {
        String::from_str("FIN_WAIT2")
    } else if state == 8 {
        String::from_str("CLOSE_WAIT")
    } else if state == 9 {
        String::from_str("CLOSING")
    } else if state == 10 {
        String::from_str("LAST_ACK")
    } else if state == 11 {
        String::from_str("TIME_WAIT")
    } else if state == 12 {
        String::from_str("DELETE_TCB")
    } else {
        String::from_str("UNKNOWN")
    }
}

/// The port held in simulated network byte order in the low 16 bits of a
/// raw port field: the print order needs a byte swap.
pub open spec fn port_from_net_order(raw: u32) -> u16 {
    (((raw % 256) * 256) + ((raw / 256) % 256)) as u16
}

/// The connection one raw table entry describes.
pub open spec fn entry_view(local_addr: u32, local_port_raw: u32, pid: u32, state: u32)
    -> ConnView {
    ConnView {
        local_address: ipv4_chars(local_addr),
        local_port: port_from_net_order(local_port_raw),
        remote_address: Seq::empty(),
        remote_port: 0,
        protocol: Protocol::TCP,
        pid,
        state: tcp_state_label(state),
    }
}

/// Decodes one raw table entry's fields into a connection record.
pub fn decode_tcp_entry(local_addr: u32, local_port_raw: u32, pid: u32, state: u32) -> (c:
    NetworkConnection)
    ensures
        c@ == entry_view(local_addr, local_port_raw, pid, state),
{
    let b0: u32 = local_port_raw % 256;
    let b1: u32 = (local_port_raw / 256) % 256;
    let port: u16 = ((b0 * 256) + b1) as u16;
    let c = NetworkConnection {
        local_address: format_ipv4_le(local_addr),
        local_port: port,
        remote_address: String::new(),
        remote_port: 0,
        protocol: Protocol::TCP,
        pid,
        state: format_tcp_state(state),
    };
    proof {
        assert(c@ =~= entry_view(local_addr, local_port_raw, pid, state));
    }
    c
}

/// The Linux and Windows address decoders agree: whenever a hex-encoded
/// address field denotes a 32-bit value, the field and the raw value decode
/// to the same dotted-decimal text, low byte first on both paths.
pub proof fn lemma_address_decoders_agree(
    hex: Seq<u8>,
    addr: u32,
    port_raw: u32,
    pid: u32,
    state: u32,
)
    requires
        crate::bytes::hex_u32_or_zero(hex) == addr,
    ensures
        ipv4_chars(crate::bytes::hex_u32_or_zero(hex)) == entry_view(
            addr,
            port_raw,
            pid,
            state,
        ).local_address,
{
}

/// On targets without the native table this reader reports no connections,
/// the empty-success case.
pub fn get_network_connections() -> (r: Vec<NetworkConnection>)
    ensures
        r@.len() == 0,
{
    Vec::new()
}

/// Windows system processes typically have low PIDs.
pub fn is_system_process(pid: u32) -> (r: bool)
    ensures
        r == (pid < 1000),
{
    pid < 1000
}

} // verus!
