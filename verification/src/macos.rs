//! The macOS socket-table reader: parses the tabular output of the system's
//! network-file-listing diagnostic tool (invoked with numeric, IP-only
//! output). Column 1 is the PID, column 7 the socket type, column 8 the
//! local `address:port` name, and an optional column 9 the state.

use vstd::prelude::*;

use crate::bytes::{
    contains_seq, dec_u16_opt, dec_u16_strict, dec_u32_field, dec_u32_or_zero, has_byte,
    last_index_of, rfind_byte, split_on, split_whitespace_bytes, tokens_of,
};
use crate::host::{bytes_to_string, utf8_lossy_chars};
use crate::models::{ConnView, NetworkConnection, Protocol, views_of};

verus! {

/// The bytes of the text `TCP`.
pub open spec fn tcp_marker() -> Seq<u8> {
    seq![84u8, 67u8, 80u8]
}

/// The connection a single output line describes, if the line is well
/// formed: at least nine columns, a colon in the name column, and a valid
/// port number after its last colon.
pub open spec fn mac_row_view(line: Seq<u8>) -> Option<ConnView> {
    let parts = tokens_of(line);
    if parts.len() < 9 {
        None
    } else {
        let name = parts[8];
        if !has_byte(name, 58) {
            None
        } else {
            let cut = last_index_of(name, 58);
            match dec_u16_opt(name.subrange(cut + 1, name.len() as int)) {
                Some(port) => Some(
                    ConnView {
                        local_address: utf8_lossy_chars(name.subrange(0, cut)),
                        local_port: port,
                        remote_address: Seq::empty(),
                        remote_port: 0,
                        protocol: if contains_seq(parts[7], tcp_marker()) {
                            Protocol::TCP
                        } else {
                            Protocol::UDP
                        },
                        pid: dec_u32_or_zero(parts[1]),
                        state: if parts.len() >= 10 {
                            utf8_lossy_chars(parts[9])
                        } else {
                            Seq::empty()
                        },
                    },
                ),
                None => None,
            }
        }
    }
}

/// The connections of a sequence of output lines, malformed lines skipped.
pub open spec fn mac_rows_views(lines: Seq<Seq<u8>>) -> Seq<ConnView>
    decreases lines.len(),
{
    if lines.len() == 0 {
        Seq::empty()
    } else {
        match mac_row_view(lines[0]) {
            Some(c) => seq![c] + mac_rows_views(lines.drop_first()),
            None => mac_rows_views(lines.drop_first()),
        }
    }
}

/// The connections of the tool's whole output: its lines after the header.
pub open spec fn mac_table_views(output: Seq<u8>) -> Seq<ConnView> {
    mac_rows_views(split_on(output, 10).drop_first())
}

/// The view of an optional parse result.
spec fn opt_view(o: Option<NetworkConnection>) -> Option<ConnView> {
    match o {
        Some(c) => Some(c@),
        None => None,
    }
}

fn parse_row(line: &Vec<u8>) -> (r: Option<NetworkConnection>)
    ensures
        opt_view(r) == mac_row_view(line@),
{
    let parts = split_whitespace_bytes(line.as_slice());
    if parts.len() < 9 {
        return None;
    }
    proof {
        assert(parts@[1]@ == tokens_of(line@)[1]);
        assert(parts@[7]@ == tokens_of(line@)[7]);
        assert(parts@[8]@ == tokens_of(line@)[8]);
    }
    let name = parts[8].as_slice();
    let cut = match rfind_byte(name, 58) {
        Some(j) => j,
        None => {
            return None;
        },
    };
    let port_part = vstd::slice::slice_subrange(name, cut + 1, name.len());
    let port = match dec_u16_strict(port_part) {
        Some(p) => p,
        None => {
            return None;
        },
    };
    let addr_part = vstd::slice::slice_subrange(name, 0, cut);
    let mut tcp_text: Vec<u8> = Vec::new();
    tcp_text.push(84);
    tcp_text.push(67);
    tcp_text.push(80);
    proof {
        assert(tcp_text@ =~= tcp_marker());
    }
    let is_tcp = crate::bytes::find_subslice(parts[7].as_slice(), tcp_text.as_slice());
    let pid = dec_u32_field(parts[1].as_slice());
    let state = if parts.len() >= 10 {
        proof {
            assert(parts@[9]@ == tokens_of(line@)[9]);
        }
        bytes_to_string(parts[9].as_slice())
    } else {
        String::new()
    };
    let conn = NetworkConnection {
        local_address: bytes_to_string(addr_part),
        local_port: port,
        remote_address: String::new(),
        remote_port: 0,
        protocol: if is_tcp {
            Protocol::TCP
        } else {
            Protocol::UDP
        },
        pid,
        state,
    };
    proof {
        assert(conn@ =~= mac_row_view(line@)->Some_0);
    }
    Some(conn)
}

/// Parses the diagnostic tool's standard output into connections; the
/// header row and malformed rows are skipped.
pub fn get_network_connections(output: &[u8]) -> (r: Vec<NetworkConnection>)
    ensures
        views_of(r@) == mac_table_views(output@),
{
    let lines = crate::bytes::split_on_byte(output, 10);
    let mut out: Vec<NetworkConnection> = Vec::new();
    let n = lines.len();
    let mut i: usize = 1;
    proof {
        crate::bytes::lemma_split_when_len(output@, crate::bytes::split_pred(10, false));
        assert(lines.deep_view().subrange(1, n as int) =~= lines.deep_view().drop_first());
        assert(views_of(out@) + mac_rows_views(lines.deep_view().drop_first())
            =~~= mac_table_views(output@));
    }
    while i < n
        invariant
            n == lines@.len(),
            n >= 1,
            1 <= i <= n,
            lines.deep_view().len() == n,
            views_of(out@) + mac_rows_views(lines.deep_view().subrange(i as int, n as int))
                =~~= mac_table_views(output@),
        decreases n - i,
    {
        proof {
            let suf = lines.deep_view().subrange(i as int, n as int);
            let suf2 = lines.deep_view().subrange(i as int + 1, n as int);
            assert(suf.len() > 0 && suf[0] == lines@[i as int]@);
            assert(suf.drop_first() =~= suf2);
        }
        let ghost out0 = out@;
        let row = parse_row(&lines[i]);
        match row {
            Some(c) => {
                out.push(c);
                proof {
                    assert(views_of(out@) =~~= views_of(out0).push(
                        mac_row_view(lines@[i as int]@)->Some_0,
                    ));
                }
            },
            None => {},
        }
        i += 1;
    }
    proof {
        assert(lines.deep_view().subrange(n as int, n as int) =~= Seq::<Seq<u8>>::empty());
        assert(views_of(out@) =~~= mac_table_views(output@));
    }
    out
}

/// macOS system processes typically have low PIDs.
pub fn is_system_process(pid: u32) -> (r: bool)
    ensures
        r == (pid < 500),
{
    pid < 500
}

} // verus!
