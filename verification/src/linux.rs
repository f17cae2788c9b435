//! The Linux socket-table reader: parses the kernel's TCP pseudo-file
//! format. Each data line holds whitespace-separated fields; field 1 is
//! `HEXADDR:HEXPORT` with the address stored low byte first, and field 9
//! is the socket's inode, through which the owning process is recovered.

use vstd::prelude::*;

use crate::bytes::{
    contains_seq, dec_u64_field, dec_u64_or_zero, format_ipv4_le, hex_u16_field, hex_u16_or_zero,
    hex_u32_field, hex_u32_or_zero, ipv4_chars, link_targets_socket, socket_needle, split_on,
    split_on_byte, split_whitespace_bytes, tokens_of,
};
use crate::models::{ConnView, NetworkConnection, Protocol, views_of};

verus! {

/// The owning PID recorded for a socket inode: the first matching entry of
/// the inode-to-PID table, or 0 when the inode is unknown.
pub open spec fn pid_for_inode(m: Seq<(u64, u32)>, inode: u64) -> u32
    decreases m.len(),
{
    if m.len() == 0 {
        0u32
    } else if m[0].0 == inode {
        m[0].1
    } else {
        pid_for_inode(m.drop_first(), inode)
    }
}

/// The connection a single table line describes, if the line is well formed:
/// at least ten fields, the second of the form `HEXADDR:HEXPORT`.
///
/// Every row's state reads `ESTABLISHED`, a known approximation: the table
/// does encode a per-row state code, but this reader does not decode it.
pub open spec fn row_view(line: Seq<u8>, m: Seq<(u64, u32)>) -> Option<ConnView> {
    let parts = tokens_of(line);
    if parts.len() < 10 {
        None
    } else {
        let local = split_on(parts[1], 58);
        if local.len() != 2 {
            None
        } else {
            Some(
                ConnView {
                    local_address: ipv4_chars(hex_u32_or_zero(local[0])),
                    local_port: hex_u16_or_zero(local[1]),
                    remote_address: Seq::empty(),
                    remote_port: 0,
                    protocol: Protocol::TCP,
                    pid: pid_for_inode(m, dec_u64_or_zero(parts[9])),
                    state: "ESTABLISHED"@,
                },
            )
        }
    }
}

/// The connections of a sequence of table lines, malformed lines skipped.
pub open spec fn rows_views(lines: Seq<Seq<u8>>, m: Seq<(u64, u32)>) -> Seq<ConnView>
    decreases lines.len(),
{
    if lines.len() == 0 {
        Seq::empty()
    } else {
        match row_view(lines[0], m) {
            Some(c) => seq![c] + rows_views(lines.drop_first(), m),
            None => rows_views(lines.drop_first(), m),
        }
    }
}

/// The connections of a whole table: its lines after the header line.
pub open spec fn table_views(content: Seq<u8>, m: Seq<(u64, u32)>) -> Seq<ConnView> {
    rows_views(split_on(content, 10).drop_first(), m)
}

/// The connections of an optionally present table; a missing or unreadable
/// table contributes nothing.
pub open spec fn table_opt_views(content: Option<Seq<u8>>, m: Seq<(u64, u32)>) -> Seq<ConnView> {
    match content {
        Some(c) => table_views(c, m),
        None => Seq::empty(),
    }
}

/// The view of an optional parse result.
spec fn opt_view(o: Option<NetworkConnection>) -> Option<ConnView> {
    match o {
        Some(c) => Some(c@),
        None => None,
    }
}

/// Looks up the first entry for `inode`; 0 when absent.
pub fn pid_for_socket_inode(m: &Vec<(u64, u32)>, inode: u64) -> (r: u32)
    ensures
        r == pid_for_inode(m@, inode),
{
    let n = m.len();
    let mut i: usize = 0;
    proof {
        assert(m@.subrange(0, n as int) =~= m@);
    }
    while i < n
        invariant
            n == m@.len(),
            i <= n,
            pid_for_inode(m@, inode) == pid_for_inode(m@.subrange(i as int, n as int), inode),
        decreases n - i,
    {
        proof {
            let suf = m@.subrange(i as int, n as int);
            let suf2 = m@.subrange(i as int + 1, n as int);
            assert(suf.drop_first() =~= suf2);
        }
        let entry = m[i];
        if entry.0 == inode {
            return entry.1;
        }
        i += 1;
    }
    proof {
        assert(m@.subrange(n as int, n as int) =~= Seq::<(u64, u32)>::empty());
    }
    0
}

/// Decodes one `HEXADDR` local-address field, stored low byte first, into
/// dotted decimal; malformed fields decode as address 0.
pub fn parse_hex_address(hex: &[u8]) -> (r: String)
    ensures
        r@ == ipv4_chars(hex_u32_or_zero(hex@)),
{
    format_ipv4_le(hex_u32_field(hex))
}

fn parse_row(line: &Vec<u8>, m: &Vec<(u64, u32)>) -> (r: Option<NetworkConnection>)
    ensures
        opt_view(r) == row_view(line@, m@),
{
    let parts = split_whitespace_bytes(line.as_slice());
    proof {
        assert(parts.deep_view() == tokens_of(line@));
    }
    if parts.len() < 10 {
        return None;
    }
    proof {
        assert(parts@[1]@ == tokens_of(line@)[1]);
        assert(parts@[9]@ == tokens_of(line@)[9]);
    }
    let local = split_on_byte(parts[1].as_slice(), 58);
    if local.len() != 2 {
        return None;
    }
    proof {
        assert(local@[0]@ == split_on(tokens_of(line@)[1], 58)[0]);
        assert(local@[1]@ == split_on(tokens_of(line@)[1], 58)[1]);
    }
    let addr = hex_u32_field(local[0].as_slice());
    let port = hex_u16_field(local[1].as_slice());
    let inode = dec_u64_field(parts[9].as_slice());
    let pid = pid_for_socket_inode(m, inode);
    let conn = NetworkConnection {
        local_address: format_ipv4_le(addr),
        local_port: port,
        remote_address: String::new(),
        remote_port: 0,
        protocol: Protocol::TCP,
        pid,
        state: String::from_str("ESTABLISHED"),
    };
    proof {
        assert(conn@ =~= row_view(line@, m@)->Some_0);
    }
    Some(conn)
}

fn parse_proc_net_tcp(content: &Vec<u8>, m: &Vec<(u64, u32)>) -> (r: Vec<NetworkConnection>)
    ensures
        views_of(r@) == table_views(content@, m@),
{
    let lines = split_on_byte(content.as_slice(), 10);
    let mut out: Vec<NetworkConnection> = Vec::new();
    let n = lines.len();
    let ghost all = lines.deep_view().drop_first();
    let mut i: usize = 1;
    proof {
        crate::bytes::lemma_split_when_len(content@, crate::bytes::split_pred(10, false));
        assert(lines.deep_view().subrange(1, n as int) =~= all);
        assert(views_of(out@) + rows_views(all, m@) =~~= table_views(content@, m@));
    }
    while i < n
        invariant
            n == lines@.len(),
            n >= 1,
            1 <= i <= n,
            lines.deep_view().len() == n,
            views_of(out@) + rows_views(
                lines.deep_view().subrange(i as int, n as int),
                m@,
            ) =~~= table_views(content@, m@),
        decreases n - i,
    {
        proof {
            let suf = lines.deep_view().subrange(i as int, n as int);
            let suf2 = lines.deep_view().subrange(i as int + 1, n as int);
            assert(suf.len() > 0 && suf[0] == lines@[i as int]@);
            assert(suf.drop_first() =~= suf2);
        }
        let ghost out0 = out@;
        let row = parse_row(&lines[i], m);
        match row {
            Some(c) => {
                out.push(c);
                proof {
                    assert(views_of(out@) =~~= views_of(out0).push(
                        row_view(lines@[i as int]@, m@)->Some_0,
                    ));
                }
            },
            None => {},
        }
        i += 1;
    }
    proof {
        assert(lines.deep_view().subrange(n as int, n as int) =~= Seq::<Seq<u8>>::empty());
        assert(views_of(out@) =~~= table_views(content@, m@));
    }
    out
}

/// Reads the connections of the IPv4 and IPv6 TCP tables, either of which
/// may be missing, resolving owners through the inode-to-PID table built
/// from the process filesystem. Matches both tables' contents in order.
pub fn get_network_connections(
    tcp: Option<&Vec<u8>>,
    tcp6: Option<&Vec<u8>>,
    inode_pids: &Vec<(u64, u32)>,
) -> (r: Vec<NetworkConnection>)
    ensures
        views_of(r@) == table_opt_views(
            match tcp {
                Some(c) => Some(c@),
                None => None,
            },
            inode_pids@,
        ) + table_opt_views(
            match tcp6 {
                Some(c) => Some(c@),
                None => None,
            },
            inode_pids@,
        ),
{
    let mut out: Vec<NetworkConnection> = match tcp {
        Some(c) => parse_proc_net_tcp(c, inode_pids),
        None => Vec::new(),
    };
    let ghost first = out@;
    let mut rest: Vec<NetworkConnection> = match tcp6 {
        Some(c) => parse_proc_net_tcp(c, inode_pids),
        None => Vec::new(),
    };
    let ghost second = rest@;
    out.append(&mut rest);
    proof {
        assert(out@ == first + second);
        assert(views_of(first + second) =~~= views_of(first) + views_of(second));
    }
    out
}

/// Whether a file-descriptor link target names the socket with this inode.
/// Used while scanning the process filesystem to map inodes to PIDs.
pub fn fd_link_matches_inode(link: &[u8], inode: u64) -> (r: bool)
    ensures
        r == contains_seq(link@, socket_needle(inode)),
{
    link_targets_socket(link, inode)
}

/// Linux system processes typically have low PIDs.
pub fn is_system_process(pid: u32) -> (r: bool)
    ensures
        r == (pid < 1000),
{
    pid < 1000
}

} // verus!
