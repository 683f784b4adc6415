use mappp::socket::{
    get_inode_from_port, is_wanted, line_inode, protocols_from_flags, scan_one, scan_table,
    ConnectionTables, Protocol, ScanError, SocketInfo, TableKind, TableSource,
};

const HEADER: &str = "  sl  local_address rem_address   st tx_queue rx_queue tr tm->when retrnsmt   uid  timeout inode";

fn row(local: &str, inode: &str) -> String {
    format!(
        "   0: {} 00000000:0000 0A 00000000:00000000 00:00000000 00000000  1000        0 {} 1 0000000000000000 100 0 0 10 0",
        local, inode
    )
}

fn table(rows: &[String]) -> TableSource {
    let mut lines = vec![HEADER.to_string()];
    lines.extend(rows.iter().cloned());
    TableSource::Lines(lines)
}

fn tables(tcp4: TableSource, tcp6: TableSource, udp4: TableSource, udp6: TableSource) -> ConnectionTables {
    ConnectionTables { tcp4, tcp6, udp4, udp6 }
}

fn tcp(inode: u64) -> SocketInfo {
    SocketInfo { inode, protocol: Protocol::Tcp }
}

fn udp(inode: u64) -> SocketInfo {
    SocketInfo { inode, protocol: Protocol::Udp }
}

const BOTH: [Protocol; 2] = [Protocol::Tcp, Protocol::Udp];

#[test]
fn protocol_names() {
    assert_eq!(Protocol::Tcp.as_str(), "tcp");
    assert_eq!(Protocol::Udp.as_str(), "udp");
}

#[test]
fn table_kinds_in_scan_order_with_paths() {
    let all = TableKind::all();
    assert_eq!(
        all,
        vec![TableKind::Tcp4, TableKind::Tcp6, TableKind::Udp4, TableKind::Udp6]
    );
    let paths: Vec<&str> = all.iter().map(|k| k.path()).collect();
    assert_eq!(
        paths,
        vec!["/proc/net/tcp", "/proc/net/tcp6", "/proc/net/udp", "/proc/net/udp6"]
    );
    let protocols: Vec<Protocol> = all.iter().map(|k| k.protocol()).collect();
    assert_eq!(
        protocols,
        vec![Protocol::Tcp, Protocol::Tcp, Protocol::Udp, Protocol::Udp]
    );
}

#[test]
fn flags_select_protocols() {
    assert_eq!(protocols_from_flags(true, false), vec![Protocol::Tcp]);
    assert_eq!(protocols_from_flags(false, true), vec![Protocol::Udp]);
    assert_eq!(protocols_from_flags(false, false), vec![Protocol::Tcp, Protocol::Udp]);
    assert_eq!(protocols_from_flags(true, true), vec![Protocol::Tcp, Protocol::Udp]);
}

#[test]
fn filter_decides_which_tables_are_wanted() {
    assert!(is_wanted(&[Protocol::Tcp], TableKind::Tcp4));
    assert!(is_wanted(&[Protocol::Tcp], TableKind::Tcp6));
    assert!(!is_wanted(&[Protocol::Tcp], TableKind::Udp4));
    assert!(!is_wanted(&[Protocol::Tcp], TableKind::Udp6));
    assert!(is_wanted(&[Protocol::Udp], TableKind::Udp6));
    assert!(!is_wanted(&[Protocol::Udp], TableKind::Tcp4));
    assert!(is_wanted(&BOTH, TableKind::Udp4));
    assert!(!is_wanted(&[], TableKind::Tcp4));
}

#[test]
fn row_bound_to_the_port_gives_its_inode() {
    let line = row("0100007F:1F90", "12345");
    assert_eq!(line_inode(&line, 8080), Some(12345));
}

#[test]
fn inode_is_taken_from_the_tenth_field() {
    let line = "a x:0050 c d e f g h i 77 k";
    assert_eq!(line_inode(line, 80), Some(77));
    let shifted = "a x:0050 c d e f g h 77 i k";
    assert_eq!(line_inode(shifted, 80), None);
}

#[test]
fn neighbouring_ports_never_match() {
    let line = row("0100007F:1F90", "12345");
    assert_eq!(line_inode(&line, 8079), None);
    assert_eq!(line_inode(&line, 8081), None);
    assert_eq!(line_inode(&line, 0), None);
    assert_eq!(line_inode(&line, 65535), None);
}

#[test]
fn every_port_matches_its_own_encoding_only() {
    for port in [0u16, 1, 79, 80, 81, 255, 256, 8080, 65534, 65535] {
        let line = row(&format!("00000000:{:04X}", port), "9");
        for probe in [port.wrapping_sub(1), port, port.wrapping_add(1)] {
            let expected = if probe == port { Some(9) } else { None };
            assert_eq!(line_inode(&line, probe), expected);
        }
    }
}

#[test]
fn port_zero_is_resolved_literally() {
    assert_eq!(line_inode(&row("00000000:0000", "5"), 0), Some(5));
    assert_eq!(line_inode(&row("00000000:0001", "5"), 0), None);
}

#[test]
fn zero_inode_is_excluded() {
    assert_eq!(line_inode(&row("0100007F:1F90", "0"), 8080), None);
    assert_eq!(line_inode(&row("0100007F:1F90", "000"), 8080), None);
}

#[test]
fn short_rows_give_nothing() {
    assert_eq!(line_inode("0: 0100007F:1F90 0 0 0 0 0 0 0", 8080), None);
    assert_eq!(line_inode("", 8080), None);
    assert_eq!(line_inode("0: 0100007F:1F90 0 0 0 0 0 0 0 42", 8080), Some(42));
}

#[test]
fn rows_that_do_not_decode_give_nothing() {
    assert_eq!(line_inode(&row("0100007F1F90", "12345"), 8080), None);
    assert_eq!(line_inode(&row("0100007F:1F9G", "12345"), 8080), None);
    assert_eq!(line_inode(&row("0100007F:11F90", "12345"), 8080), None);
    assert_eq!(line_inode(&row("0100007F:", "12345"), 8080), None);
    assert_eq!(line_inode(&row("0100007F:1F90", "12x"), 8080), None);
    assert_eq!(line_inode(&row("0100007F:1F90", "-1"), 8080), None);
    assert_eq!(line_inode(&row("0100007F:1F90", "18446744073709551616"), 8080), None);
}

#[test]
fn second_piece_of_the_address_is_the_port() {
    assert_eq!(line_inode(&row("0100007F:1F90:0050", "3"), 8080), Some(3));
    assert_eq!(line_inode(&row("0100007F:1F90:0050", "3"), 80), None);
}

#[test]
fn scan_table_passes_over_the_header() {
    let mut found = Vec::new();
    let lines = vec![row("0100007F:1F90", "11"), row("0100007F:1F90", "22")];
    scan_table(&mut found, &lines, 8080, Protocol::Tcp);
    assert_eq!(found, vec![tcp(22)]);
}

#[test]
fn scan_table_of_no_lines_adds_nothing() {
    let mut found = vec![tcp(1)];
    scan_table(&mut found, &Vec::new(), 8080, Protocol::Tcp);
    assert_eq!(found, vec![tcp(1)]);
    scan_table(&mut found, &vec![HEADER.to_string()], 8080, Protocol::Tcp);
    assert_eq!(found, vec![tcp(1)]);
}

#[test]
fn scan_table_goes_on_behind_a_malformed_row() {
    let mut found = Vec::new();
    let lines = vec![
        HEADER.to_string(),
        "too short".to_string(),
        row("0100007F:1F90", "11"),
        "0: zz:zz".to_string(),
        row("0100007F:1F90", "0"),
        row("0100007F:1F91", "33"),
        row("00000000:1F90", "22"),
        row("00000000:1F90", "11"),
    ];
    scan_table(&mut found, &lines, 8080, Protocol::Udp);
    assert_eq!(found, vec![udp(11), udp(22)]);
}

#[test]
fn loopback_row_is_matched() {
    let t = tables(
        table(&[row("0100007F:1F90", "12345")]),
        TableSource::Missing,
        TableSource::Missing,
        TableSource::Missing,
    );
    assert_eq!(get_inode_from_port(8080, &BOTH, &t), Ok(vec![tcp(12345)]));
}

#[test]
fn default_filter_scans_both_protocols() {
    let protocols = protocols_from_flags(false, false);
    let t = tables(
        table(&[row("00000000:0035", "10")]),
        table(&[]),
        table(&[row("00000000:0035", "20")]),
        table(&[row("00000000:0035", "30")]),
    );
    assert_eq!(
        get_inode_from_port(53, &protocols, &t),
        Ok(vec![tcp(10), udp(20), udp(30)])
    );
}

#[test]
fn no_matching_socket_is_an_empty_success() {
    let t = tables(
        table(&[row("00000000:0035", "10")]),
        table(&[]),
        TableSource::Missing,
        table(&[row("00000000:0036", "30")]),
    );
    assert_eq!(get_inode_from_port(8080, &BOTH, &t), Ok(vec![]));
}

#[test]
fn same_socket_in_both_families_is_reported_once() {
    let t = tables(
        table(&[row("00000000:1F90", "777")]),
        table(&[row("00000000000000000000000000000000:1F90", "777")]),
        TableSource::Missing,
        TableSource::Missing,
    );
    assert_eq!(get_inode_from_port(8080, &BOTH, &t), Ok(vec![tcp(777)]));
}

#[test]
fn same_inode_under_two_protocols_is_two_sockets() {
    let t = tables(
        table(&[row("00000000:1F90", "777")]),
        TableSource::Missing,
        table(&[row("00000000:1F90", "777")]),
        table(&[row("00000000:1F90", "777")]),
    );
    assert_eq!(get_inode_from_port(8080, &BOTH, &t), Ok(vec![tcp(777), udp(777)]));
}

#[test]
fn results_come_in_scan_order() {
    let t = tables(
        table(&[row("00000000:1F90", "4"), row("00000000:1F90", "1")]),
        table(&[row("00000000:1F90", "3"), row("00000000:1F90", "4")]),
        table(&[row("00000000:1F90", "2")]),
        table(&[row("00000000:1F90", "9"), row("00000000:1F90", "2")]),
    );
    assert_eq!(
        get_inode_from_port(8080, &BOTH, &t),
        Ok(vec![tcp(4), tcp(1), tcp(3), udp(2), udp(9)])
    );
}

#[test]
fn tables_outside_the_filter_are_passed_over() {
    let t = tables(
        table(&[row("00000000:1F90", "1")]),
        TableSource::Failed,
        table(&[row("00000000:1F90", "2")]),
        TableSource::Missing,
    );
    assert_eq!(get_inode_from_port(8080, &[Protocol::Udp], &t), Ok(vec![udp(2)]));
    let u = tables(
        table(&[row("00000000:1F90", "1")]),
        TableSource::Missing,
        TableSource::Failed,
        TableSource::Failed,
    );
    assert_eq!(get_inode_from_port(8080, &[Protocol::Tcp], &u), Ok(vec![tcp(1)]));
}

#[test]
fn missing_tables_count_as_empty() {
    let t = tables(
        TableSource::Missing,
        TableSource::Missing,
        TableSource::Missing,
        TableSource::Missing,
    );
    assert_eq!(get_inode_from_port(8080, &BOTH, &t), Ok(vec![]));
    let u = tables(
        TableSource::Missing,
        table(&[row("00000000:1F90", "6")]),
        TableSource::Missing,
        TableSource::Missing,
    );
    assert_eq!(get_inode_from_port(8080, &BOTH, &u), Ok(vec![tcp(6)]));
}

#[test]
fn a_table_that_failed_is_an_error() {
    let t = tables(
        table(&[row("00000000:1F90", "1")]),
        TableSource::Failed,
        TableSource::Missing,
        TableSource::Missing,
    );
    assert_eq!(
        get_inode_from_port(8080, &BOTH, &t),
        Err(ScanError::TableUnreadable(TableKind::Tcp6))
    );
}

#[test]
fn the_first_failed_table_is_named() {
    let t = tables(
        TableSource::Missing,
        TableSource::Failed,
        TableSource::Failed,
        TableSource::Failed,
    );
    assert_eq!(
        get_inode_from_port(1, &BOTH, &t),
        Err(ScanError::TableUnreadable(TableKind::Tcp6))
    );
    assert_eq!(
        get_inode_from_port(1, &[Protocol::Udp], &t),
        Err(ScanError::TableUnreadable(TableKind::Udp4))
    );
}

#[test]
fn scan_one_reports_per_table() {
    let t = tables(
        table(&[row("00000000:1F90", "1")]),
        TableSource::Failed,
        TableSource::Missing,
        table(&[row("00000000:1F90", "8")]),
    );
    let mut found = vec![tcp(5)];
    assert_eq!(scan_one(&mut found, &BOTH, &t, TableKind::Tcp4, 8080), Ok(()));
    assert_eq!(found, vec![tcp(5), tcp(1)]);
    assert_eq!(
        scan_one(&mut found, &BOTH, &t, TableKind::Tcp6, 8080),
        Err(ScanError::TableUnreadable(TableKind::Tcp6))
    );
    assert_eq!(found, vec![tcp(5), tcp(1)]);
    assert_eq!(scan_one(&mut found, &BOTH, &t, TableKind::Udp4, 8080), Ok(()));
    assert_eq!(scan_one(&mut found, &[Protocol::Tcp], &t, TableKind::Udp6, 8080), Ok(()));
    assert_eq!(found, vec![tcp(5), tcp(1)]);
    assert_eq!(scan_one(&mut found, &BOTH, &t, TableKind::Udp6, 8080), Ok(()));
    assert_eq!(found, vec![tcp(5), tcp(1), udp(8)]);
}

#[test]
fn get_returns_the_table_of_each_kind() {
    let t = tables(
        TableSource::Missing,
        TableSource::Failed,
        TableSource::Lines(vec!["x".to_string()]),
        TableSource::Lines(vec![]),
    );
    assert!(matches!(t.get(TableKind::Tcp4), TableSource::Missing));
    assert!(matches!(t.get(TableKind::Tcp6), TableSource::Failed));
    assert!(matches!(t.get(TableKind::Udp4), TableSource::Lines(l) if l.len() == 1));
    assert!(matches!(t.get(TableKind::Udp6), TableSource::Lines(l) if l.is_empty()));
}
