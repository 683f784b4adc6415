//! What holds of the sockets that a scan of the connection tables finds.

use vstd::prelude::*;
use crate::socket::{
    first_failed, kind_protocol, line_match, resolved_sockets, scan_kind, scan_row, scan_rows,
    table_rows, wanted, ConnectionTables, Protocol, SocketInfo, TableKind, TableSource,
};
use crate::number::{decimal_text, hex4_text, lemma_decimal_round_trip, lemma_hex4_round_trip};
use crate::text::{field_spans, second_piece, span_text};
use crate::unique::{
    add_unique, lemma_add_unique_contains, lemma_add_unique_no_duplicates, lemma_add_unique_prefix,
};

verus! {

/// A row is bound to one port at most: where it gives an inode for `p` and for `q`, the two
/// are the same port. A neighbouring port never matches in place of the row's own.
pub proof fn lemma_row_port_exact(line: Seq<char>, p: u16, q: u16)
    requires
        line_match(line, p) is Some,
        line_match(line, q) is Some,
    ensures
        p == q,
        line_match(line, p) == line_match(line, q),
{
}

/// A row as the kernel writes it is matched by its own port and by no other: where the
/// second field holds the port in four hexadecimal digits behind the colon and the tenth
/// field holds an inode above zero in decimal, the row gives that inode for that port, and
/// nothing for any other port.
pub proof fn lemma_encoded_row_matches(line: Seq<char>, port: u16, inode: u64, other: u16)
    requires
        field_spans(line).len() >= 10,
        second_piece(span_text(line, field_spans(line)[1])) == Some(hex4_text(port)),
        span_text(line, field_spans(line)[9]) == decimal_text(inode as nat),
        inode != 0,
    ensures
        line_match(line, port) == Some(inode),
        other != port ==> line_match(line, other) is None,
{
    lemma_hex4_round_trip(port);
    lemma_decimal_round_trip(inode as nat, u64::MAX as nat);
}

/// A row with fewer than ten fields gives no socket, whatever its fields hold, and an inode
/// that a row gives is never zero.
pub proof fn lemma_row_needs_ten_fields(line: Seq<char>, port: u16)
    ensures
        field_spans(line).len() < 10 ==> line_match(line, port) is None,
        line_match(line, port) is Some ==> line_match(line, port)->0 != 0,
{
}

/// Whether one of `rows` gives `inode` for `port`.
pub open spec fn rows_report(rows: Seq<String>, port: u16, inode: u64) -> bool {
    exists|i: int| 0 <= i < rows.len() && line_match(#[trigger] rows[i]@, port) == Some(inode)
}

/// Whether a table was read and one of its rows behind the header gives `inode` for `port`.
pub open spec fn table_reports(source: TableSource, port: u16, inode: u64) -> bool {
    source is Lines && rows_report(table_rows(source->Lines_0@), port, inode)
}

/// Whether the table `kind` is asked for, is of the socket's protocol and reports its inode.
pub open spec fn kind_reports(
    protocols: Seq<Protocol>,
    tables: ConnectionTables,
    kind: TableKind,
    port: u16,
    socket: SocketInfo,
) -> bool {
    wanted(protocols, kind) && kind_protocol(kind) == socket.protocol && table_reports(
        tables.source(kind),
        port,
        socket.inode,
    )
}

/// Whether one of the four tables reports the socket for `port`.
pub open spec fn reported(
    port: u16,
    protocols: Seq<Protocol>,
    tables: ConnectionTables,
    socket: SocketInfo,
) -> bool {
    ||| kind_reports(protocols, tables, TableKind::Tcp4, port, socket)
    ||| kind_reports(protocols, tables, TableKind::Tcp6, port, socket)
    ||| kind_reports(protocols, tables, TableKind::Udp4, port, socket)
    ||| kind_reports(protocols, tables, TableKind::Udp6, port, socket)
}

/// After a scan of rows the result holds what it held before and the sockets that the rows
/// give, and nothing else.
pub proof fn lemma_scan_rows_contains(
    found: Seq<SocketInfo>,
    rows: Seq<String>,
    port: u16,
    protocol: Protocol,
    socket: SocketInfo,
)
    ensures
        scan_rows(found, rows, port, protocol).contains(socket) <==> found.contains(socket) || (
        socket.protocol == protocol && rows_report(rows, port, socket.inode)),
    decreases rows.len(),
{
    if rows.len() > 0 {
        let head = rows.drop_last();
        let before = scan_rows(found, head, port, protocol);
        lemma_scan_rows_contains(found, head, port, protocol, socket);
        match line_match(rows.last()@, port) {
            Some(inode) => {
                lemma_add_unique_contains(before, SocketInfo { inode, protocol }, socket);
            },
            None => {},
        }
        if rows_report(head, port, socket.inode) {
            let i = choose|i: int|
                0 <= i < head.len() && line_match(#[trigger] head[i]@, port) == Some(socket.inode);
            assert(rows[i] == head[i]);
        }
        if rows_report(rows, port, socket.inode) {
            let i = choose|i: int|
                0 <= i < rows.len() && line_match(#[trigger] rows[i]@, port) == Some(socket.inode);
            if i < head.len() {
                assert(rows[i] == head[i]);
            } else {
                assert(rows[i] == rows.last());
            }
        }
        if line_match(rows.last()@, port) == Some(socket.inode) {
            assert(rows[rows.len() - 1] == rows.last());
        }
    }
}

/// A scan of rows adds no socket twice.
pub proof fn lemma_scan_rows_no_duplicates(
    found: Seq<SocketInfo>,
    rows: Seq<String>,
    port: u16,
    protocol: Protocol,
)
    requires
        found.no_duplicates(),
    ensures
        scan_rows(found, rows, port, protocol).no_duplicates(),
    decreases rows.len(),
{
    if rows.len() > 0 {
        let before = scan_rows(found, rows.drop_last(), port, protocol);
        lemma_scan_rows_no_duplicates(found, rows.drop_last(), port, protocol);
        match line_match(rows.last()@, port) {
            Some(inode) => {
                lemma_add_unique_no_duplicates(before, SocketInfo { inode, protocol });
            },
            None => {},
        }
    }
}

/// A scan of rows leaves what was found before in its place: new sockets come behind, in
/// the order in which they are first met.
pub proof fn lemma_scan_rows_keeps_order(
    found: Seq<SocketInfo>,
    rows: Seq<String>,
    port: u16,
    protocol: Protocol,
)
    ensures
        found.len() <= scan_rows(found, rows, port, protocol).len(),
        scan_rows(found, rows, port, protocol).take(found.len() as int) == found,
    decreases rows.len(),
{
    if rows.len() == 0 {
        assert(found.take(found.len() as int) =~= found);
    } else {
        let before = scan_rows(found, rows.drop_last(), port, protocol);
        lemma_scan_rows_keeps_order(found, rows.drop_last(), port, protocol);
        match line_match(rows.last()@, port) {
            Some(inode) => {
                let after = add_unique(before, SocketInfo { inode, protocol });
                lemma_add_unique_prefix(before, SocketInfo { inode, protocol });
                assert(after.take(found.len() as int) =~= after.take(before.len() as int).take(
                    found.len() as int,
                ));
            },
            None => {},
        }
    }
}

/// A row that gives no socket can be taken out of a table without a change to what the
/// scan finds: the rows around it are read as before.
pub proof fn lemma_unmatched_row_removed(
    found: Seq<SocketInfo>,
    rows: Seq<String>,
    i: int,
    port: u16,
    protocol: Protocol,
)
    requires
        0 <= i < rows.len(),
        line_match(rows[i]@, port) is None,
    ensures
        scan_rows(found, rows.remove(i), port, protocol) == scan_rows(found, rows, port, protocol),
    decreases rows.len(),
{
    if i == rows.len() - 1 {
        assert(rows.remove(i) =~= rows.drop_last());
    } else {
        let shorter = rows.remove(i);
        assert(shorter.drop_last() =~= rows.drop_last().remove(i));
        assert(shorter.last() == rows.last());
        lemma_unmatched_row_removed(found, rows.drop_last(), i, port, protocol);
    }
}

/// A row with fewer than ten fields is passed over: the scan finds what it finds without
/// the row.
pub proof fn lemma_short_row_skipped(
    found: Seq<SocketInfo>,
    rows: Seq<String>,
    i: int,
    port: u16,
    protocol: Protocol,
)
    requires
        0 <= i < rows.len(),
        field_spans(rows[i]@).len() < 10,
    ensures
        scan_rows(found, rows.remove(i), port, protocol) == scan_rows(found, rows, port, protocol),
        scan_row(found, rows[i]@, port, protocol) == found,
{
    lemma_unmatched_row_removed(found, rows, i, port, protocol);
}

/// What one table adds to the result.
pub proof fn lemma_scan_kind_contains(
    found: Seq<SocketInfo>,
    protocols: Seq<Protocol>,
    tables: ConnectionTables,
    kind: TableKind,
    port: u16,
    socket: SocketInfo,
)
    ensures
        scan_kind(found, protocols, tables, kind, port).contains(socket) <==> found.contains(socket)
            || kind_reports(protocols, tables, kind, port, socket),
{
    if wanted(protocols, kind) {
        match tables.source(kind) {
            TableSource::Lines(lines) => {
                lemma_scan_rows_contains(
                    found,
                    table_rows(lines@),
                    port,
                    kind_protocol(kind),
                    socket,
                );
            },
            _ => {},
        }
    }
}

/// One table adds no socket twice.
pub proof fn lemma_scan_kind_no_duplicates(
    found: Seq<SocketInfo>,
    protocols: Seq<Protocol>,
    tables: ConnectionTables,
    kind: TableKind,
    port: u16,
)
    requires
        found.no_duplicates(),
    ensures
        scan_kind(found, protocols, tables, kind, port).no_duplicates(),
{
    if wanted(protocols, kind) {
        match tables.source(kind) {
            TableSource::Lines(lines) => {
                lemma_scan_rows_no_duplicates(found, table_rows(lines@), port, kind_protocol(kind));
            },
            _ => {},
        }
    }
}

/// The result holds a socket if and only if a table that is asked for, of the socket's
/// protocol, has a row behind its header that gives the socket's inode for exactly this
/// port. No socket in it has the inode zero.
pub proof fn lemma_resolved_contains(
    port: u16,
    protocols: Seq<Protocol>,
    tables: ConnectionTables,
    socket: SocketInfo,
)
    ensures
        resolved_sockets(port, protocols, tables).contains(socket) <==> reported(
            port,
            protocols,
            tables,
            socket,
        ),
        resolved_sockets(port, protocols, tables).contains(socket) ==> socket.inode != 0
            && protocols.contains(socket.protocol),
{
    let none = Seq::<SocketInfo>::empty();
    let a = scan_kind(none, protocols, tables, TableKind::Tcp4, port);
    let b = scan_kind(a, protocols, tables, TableKind::Tcp6, port);
    let c = scan_kind(b, protocols, tables, TableKind::Udp4, port);
    lemma_scan_kind_contains(none, protocols, tables, TableKind::Tcp4, port, socket);
    lemma_scan_kind_contains(a, protocols, tables, TableKind::Tcp6, port, socket);
    lemma_scan_kind_contains(b, protocols, tables, TableKind::Udp4, port, socket);
    lemma_scan_kind_contains(c, protocols, tables, TableKind::Udp6, port, socket);
    assert(!none.contains(socket));
}

/// The result holds no socket twice: a socket that both the IPv4 and the IPv6 table of its
/// protocol list is there once.
pub proof fn lemma_resolved_no_duplicates(
    port: u16,
    protocols: Seq<Protocol>,
    tables: ConnectionTables,
)
    ensures
        resolved_sockets(port, protocols, tables).no_duplicates(),
{
    let none = Seq::<SocketInfo>::empty();
    let a = scan_kind(none, protocols, tables, TableKind::Tcp4, port);
    let b = scan_kind(a, protocols, tables, TableKind::Tcp6, port);
    let c = scan_kind(b, protocols, tables, TableKind::Udp4, port);
    lemma_scan_kind_no_duplicates(none, protocols, tables, TableKind::Tcp4, port);
    lemma_scan_kind_no_duplicates(a, protocols, tables, TableKind::Tcp6, port);
    lemma_scan_kind_no_duplicates(b, protocols, tables, TableKind::Udp4, port);
    lemma_scan_kind_no_duplicates(c, protocols, tables, TableKind::Udp6, port);
}

/// Whether a table holds no row: it is missing, or it was read and has a header at most.
pub open spec fn without_rows(source: TableSource) -> bool {
    match source {
        TableSource::Missing => true,
        TableSource::Lines(lines) => lines@.len() <= 1,
        TableSource::Failed => false,
    }
}

/// A missing table counts as an empty one: where two sets of tables differ only in one
/// table, which is missing in one and without rows in the other, the same sockets are
/// found and neither scan fails where the other does not.
pub proof fn lemma_missing_table_counts_as_empty(
    port: u16,
    protocols: Seq<Protocol>,
    tables: ConnectionTables,
    others: ConnectionTables,
    kind: TableKind,
)
    requires
        tables.source(kind) is Missing,
        without_rows(others.source(kind)),
        forall|k: TableKind| k != kind ==> tables.source(k) == others.source(k),
    ensures
        resolved_sockets(port, protocols, tables) == resolved_sockets(port, protocols, others),
        first_failed(protocols, tables) == first_failed(protocols, others),
{
    assert forall|found: Seq<SocketInfo>, k: TableKind|
        scan_kind(found, protocols, tables, k, port) == scan_kind(
            found,
            protocols,
            others,
            k,
            port,
        ) by {
        if k != kind {
            assert(tables.source(k) == others.source(k));
        }
    }
    assert(tables.source(TableKind::Tcp4) is Failed == others.source(TableKind::Tcp4) is Failed);
    assert(tables.source(TableKind::Tcp6) is Failed == others.source(TableKind::Tcp6) is Failed);
    assert(tables.source(TableKind::Udp4) is Failed == others.source(TableKind::Udp4) is Failed);
    assert(tables.source(TableKind::Udp6) is Failed == others.source(TableKind::Udp6) is Failed);
}

} // verus!
