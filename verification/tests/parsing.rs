//! Parser and rendering tests: byte utilities, the Linux and macOS socket
//! table readers, the Windows entry decoder, and error message texts.

use porter::bytes::{
    dec_u16_strict, dec_u32_field, dec_u64_field, find_subslice, format_ipv4_le, hex_u16_field,
    hex_u32_field, link_targets_socket, parse_dec_u64, parse_hex_u64, push_dec_u64,
    split_on_byte, split_whitespace_bytes,
};
use porter::models::{PortError, Protocol};

#[test]
fn split_on_byte_keeps_empty_fields() {
    let fields = split_on_byte(b"0100007F:1F90", b':');
    assert_eq!(fields.len(), 2);
    assert_eq!(fields[0], b"0100007F".to_vec());
    assert_eq!(fields[1], b"1F90".to_vec());
    let empties = split_on_byte(b"::", b':');
    assert_eq!(empties.len(), 3);
    assert!(empties.iter().all(|f| f.is_empty()));
    let whole = split_on_byte(b"", b':');
    assert_eq!(whole.len(), 1);
    assert_eq!(whole[0], Vec::<u8>::new());
}

#[test]
fn split_whitespace_drops_runs() {
    let toks = split_whitespace_bytes(b"  a\t\tbc  d ");
    assert_eq!(toks.len(), 3);
    assert_eq!(toks[0], b"a".to_vec());
    assert_eq!(toks[1], b"bc".to_vec());
    assert_eq!(toks[2], b"d".to_vec());
    assert_eq!(split_whitespace_bytes(b"   ").len(), 0);
}

#[test]
fn hex_parsing_matches_radix_sixteen() {
    assert_eq!(parse_hex_u64(b"1F90"), Some(0x1F90));
    assert_eq!(parse_hex_u64(b"0100007F"), Some(0x0100007F));
    assert_eq!(parse_hex_u64(b"ff"), Some(255));
    assert_eq!(parse_hex_u64(b""), None);
    assert_eq!(parse_hex_u64(b"XYZ"), None);
    assert_eq!(parse_hex_u64(b"FFFFFFFFFFFFFFFF"), Some(u64::MAX));
    assert_eq!(parse_hex_u64(b"10000000000000000"), None);
    assert_eq!(hex_u16_field(b"1F90"), 0x1F90);
    assert_eq!(hex_u16_field(b"10000"), 0);
    assert_eq!(hex_u16_field(b"zz"), 0);
    assert_eq!(hex_u32_field(b"0100007F"), 0x0100007F);
    assert_eq!(hex_u32_field(b"100000000"), 0);
}

#[test]
fn dec_parsing_matches_base_ten() {
    assert_eq!(parse_dec_u64(b"12345"), Some(12345));
    assert_eq!(parse_dec_u64(b"0"), Some(0));
    assert_eq!(parse_dec_u64(b""), None);
    assert_eq!(parse_dec_u64(b"12a"), None);
    assert_eq!(parse_dec_u64(b"18446744073709551615"), Some(u64::MAX));
    assert_eq!(parse_dec_u64(b"18446744073709551616"), None);
    assert_eq!(dec_u64_field(b"999"), 999);
    assert_eq!(dec_u64_field(b"bad"), 0);
    assert_eq!(dec_u32_field(b"4294967295"), u32::MAX);
    assert_eq!(dec_u32_field(b"4294967296"), 0);
    assert_eq!(dec_u16_strict(b"8080"), Some(8080));
    assert_eq!(dec_u16_strict(b"65536"), None);
    assert_eq!(dec_u16_strict(b"*"), None);
}

#[test]
fn decimal_rendering_exact() {
    let mut s = String::new();
    push_dec_u64(&mut s, 0);
    assert_eq!(s, "0");
    let mut s = String::new();
    push_dec_u64(&mut s, 4200);
    assert_eq!(s, "4200");
    let mut s = String::new();
    push_dec_u64(&mut s, u64::MAX);
    assert_eq!(s, "18446744073709551615");
}

#[test]
fn ipv4_formatting_low_byte_first() {
    assert_eq!(format_ipv4_le(0x0100007F), "127.0.0.1");
    assert_eq!(format_ipv4_le(0), "0.0.0.0");
    assert_eq!(format_ipv4_le(0xFFFFFFFF), "255.255.255.255");
    assert_eq!(format_ipv4_le(0x0538A8C0), "192.168.56.5");
}

#[test]
fn substring_search() {
    assert!(find_subslice(b"node type=TCP state", b"TCP"));
    assert!(!find_subslice(b"node type=UDP", b"TCP"));
    assert!(find_subslice(b"abc", b""));
    assert!(!find_subslice(b"ab", b"abc"));
}

#[test]
fn socket_link_matching() {
    assert!(link_targets_socket(b"socket:[12345]", 12345));
    assert!(!link_targets_socket(b"socket:[12345]", 1234));
    assert!(!link_targets_socket(b"pipe:[12345]", 12345));
    assert!(link_targets_socket(b"prefix socket:[7] suffix", 7));
}

// A hex-encoded little-endian address decodes to the same dotted-decimal
// form through the Linux field decoder and the Windows raw-value decoder.
#[test]
fn address_decoding_round_trip() {
    let linux_form = porter::linux::parse_hex_address(b"0100007F");
    assert_eq!(linux_form, "127.0.0.1");
    let windows_entry = porter::windows::decode_tcp_entry(0x0100007F, 0, 0, 0);
    assert_eq!(windows_entry.local_address, "127.0.0.1");
    assert_eq!(linux_form, windows_entry.local_address);
}

#[test]
fn linux_table_parsing() {
    let content = b"  sl  local_address rem_address   st tx_queue rx_queue tr tm->when retrnsmt   uid  timeout inode\n   0: 0100007F:1F90 00000000:0000 0A 00000000:00000000 00:00000000 00000000  1000        0 12345 1 0000000000000000 100 0 0 10 0\n   1: 00000000:0BB8 00000000:0000 0A 00000000:00000000 00:00000000 00000000  1000        0 99999 1 0000000000000000 100 0 0 10 0\n   2: malformed\n";
    let inode_pids: Vec<(u64, u32)> = vec![(12345, 4321), (777, 1)];
    let conns = porter::linux::get_network_connections(Some(&content.to_vec()), None, &inode_pids);
    assert_eq!(conns.len(), 2);
    assert_eq!(conns[0].local_port, 0x1F90);
    assert_eq!(conns[0].local_address, "127.0.0.1");
    assert_eq!(conns[0].pid, 4321);
    assert_eq!(conns[0].state, "ESTABLISHED");
    assert!(matches!(conns[0].protocol, Protocol::TCP));
    assert_eq!(conns[1].local_port, 3000);
    assert_eq!(conns[1].local_address, "0.0.0.0");
    assert_eq!(conns[1].pid, 0);
}

#[test]
fn linux_both_tables_concatenate() {
    let tcp = b"header\n   0: 0100007F:1F90 00000000:0000 0A 0 0 0 0 0 111\n";
    let tcp6 = b"header\n   0: 00000000:0050 00000000:0000 0A 0 0 0 0 0 222\n";
    let map: Vec<(u64, u32)> = vec![(111, 10), (222, 20)];
    let conns =
        porter::linux::get_network_connections(Some(&tcp.to_vec()), Some(&tcp6.to_vec()), &map);
    assert_eq!(conns.len(), 2);
    assert_eq!(conns[0].local_port, 0x1F90);
    assert_eq!(conns[0].pid, 10);
    assert_eq!(conns[1].local_port, 80);
    assert_eq!(conns[1].pid, 20);
}

#[test]
fn linux_missing_tables_give_empty() {
    let map: Vec<(u64, u32)> = Vec::new();
    let conns = porter::linux::get_network_connections(None, None, &map);
    assert_eq!(conns.len(), 0);
}

#[test]
fn macos_output_parsing() {
    let output = b"COMMAND   PID USER   FD   TYPE DEVICE SIZE/OFF NODE NAME\nnode    52013 dev   23u  IPv4 0x1234      0t0  TCP 127.0.0.1:3000 (LISTEN)\nmDNSResp  321 _mdns  8u  IPv4 0x9999      0t0  UDP *:5353\nbad line\n";
    let conns = porter::macos::get_network_connections(output);
    assert_eq!(conns.len(), 2);
    assert_eq!(conns[0].local_port, 3000);
    assert_eq!(conns[0].local_address, "127.0.0.1");
    assert_eq!(conns[0].pid, 52013);
    assert!(matches!(conns[0].protocol, Protocol::TCP));
    assert_eq!(conns[0].state, "(LISTEN)");
    assert_eq!(conns[1].local_port, 5353);
    assert_eq!(conns[1].local_address, "*");
    assert_eq!(conns[1].pid, 321);
    assert!(matches!(conns[1].protocol, Protocol::UDP));
    assert_eq!(conns[1].state, "");
}

#[test]
fn windows_state_labels() {
    let labels = [
        (1, "CLOSED"),
        (2, "LISTEN"),
        (3, "SYN_SENT"),
        (4, "SYN_RCVD"),
        (5, "ESTABLISHED"),
        (6, "FIN_WAIT1"),
        (7, "FIN_WAIT2"),
        (8, "CLOSE_WAIT"),
        (9, "CLOSING"),
        (10, "LAST_ACK"),
        (11, "TIME_WAIT"),
        (12, "DELETE_TCB"),
        (0, "UNKNOWN"),
        (13, "UNKNOWN"),
    ];
    for (code, label) in labels {
        assert_eq!(porter::windows::format_tcp_state(code), label);
    }
}

#[test]
fn windows_entry_decoding() {
    // Port 8080 in network byte order within the low 16 bits: 0x901F.
    let c = porter::windows::decode_tcp_entry(0x0100007F, 0x0000901F, 4321, 2);
    assert_eq!(c.local_port, 8080);
    assert_eq!(c.local_address, "127.0.0.1");
    assert_eq!(c.pid, 4321);
    assert_eq!(c.state, "LISTEN");
    assert!(matches!(c.protocol, Protocol::TCP));
}

#[test]
fn windows_stub_reports_nothing() {
    assert_eq!(porter::windows::get_network_connections().len(), 0);
}

#[test]
fn error_messages_exact() {
    assert_eq!(
        PortError::ProcessNotFound { pid: 4321 }.message(),
        "Process not found: PID 4321"
    );
    assert_eq!(
        PortError::PermissionDenied { pid: 7 }.message(),
        "Failed to kill process (PID: 7). You may need sudo/root privileges."
    );
    assert_eq!(PortError::PortNotInUse { port: 8080 }.message(), "Port 8080 is not in use");
    assert_eq!(
        PortError::ElevationUnsupported.message(),
        "Please restart Porter with sudo/root privileges to kill system processes."
    );
}
