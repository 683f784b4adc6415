//! From a port to the sockets bound to it, by the kernel's connection tables.

use vstd::prelude::*;
use crate::number::{parse_number, parse_radix};
use crate::socket_lemmas::{lemma_resolved_contains, lemma_resolved_no_duplicates};
use crate::unique::add_unique;
use crate::text::{
    chars_of, copy_range, field_spans, piece_after_colon, second_piece, span_text, split_fields,
};

verus! {

/// A transport protocol.
#[derive(Clone, Copy, Debug, PartialEq, Eq, Structural)]
pub enum Protocol {
    Tcp,
    Udp,
}

/// The lower-case name of a protocol.
pub open spec fn protocol_name(protocol: Protocol) -> Seq<char> {
    match protocol {
        Protocol::Tcp => seq!['t', 'c', 'p'],
        Protocol::Udp => seq!['u', 'd', 'p'],
    }
}

impl Protocol {
    /// The protocol's name, as it is shown.
    pub fn as_str(self) -> (r: &'static str)
        ensures
            r@ == protocol_name(self),
    {
        proof {
            reveal_strlit("tcp");
            reveal_strlit("udp");
        }
        let r = match self {
            Protocol::Tcp => "tcp",
            Protocol::Udp => "udp",
        };
        assert(r@ =~= protocol_name(self));
        r
    }
}

/// A socket that the kernel tracks: its inode number and its protocol.
#[derive(Clone, Copy, Debug, PartialEq, Eq, Structural)]
pub struct SocketInfo {
    pub inode: u64,
    pub protocol: Protocol,
}

/// One of the four connection tables, by protocol and address family.
#[derive(Clone, Copy, Debug, PartialEq, Eq, Structural)]
pub enum TableKind {
    Tcp4,
    Tcp6,
    Udp4,
    Udp6,
}

/// The protocol whose sockets a table lists.
pub open spec fn kind_protocol(kind: TableKind) -> Protocol {
    match kind {
        TableKind::Tcp4 | TableKind::Tcp6 => Protocol::Tcp,
        TableKind::Udp4 | TableKind::Udp6 => Protocol::Udp,
    }
}

/// Where the kernel shows a table.
pub open spec fn kind_path(kind: TableKind) -> Seq<char> {
    match kind {
        TableKind::Tcp4 => "/proc/net/tcp"@,
        TableKind::Tcp6 => "/proc/net/tcp6"@,
        TableKind::Udp4 => "/proc/net/udp"@,
        TableKind::Udp6 => "/proc/net/udp6"@,
    }
}

/// The tables in the order in which they are scanned.
pub open spec fn scan_order() -> Seq<TableKind> {
    seq![TableKind::Tcp4, TableKind::Tcp6, TableKind::Udp4, TableKind::Udp6]
}

impl TableKind {
    /// The protocol whose sockets this table lists.
    pub fn protocol(self) -> (r: Protocol)
        ensures
            r == kind_protocol(self),
    {
        match self {
            TableKind::Tcp4 | TableKind::Tcp6 => Protocol::Tcp,
            TableKind::Udp4 | TableKind::Udp6 => Protocol::Udp,
        }
    }

    /// The file in which the kernel shows this table.
    pub fn path(self) -> (r: &'static str)
        ensures
            r@ == kind_path(self),
    {
        match self {
            TableKind::Tcp4 => "/proc/net/tcp",
            TableKind::Tcp6 => "/proc/net/tcp6",
            TableKind::Udp4 => "/proc/net/udp",
            TableKind::Udp6 => "/proc/net/udp6",
        }
    }

    /// All four tables, in scan order.
    pub fn all() -> (r: Vec<TableKind>)
        ensures
            r@ == scan_order(),
    {
        let r = vec![TableKind::Tcp4, TableKind::Tcp6, TableKind::Udp4, TableKind::Udp6];
        assert(r@ =~= scan_order());
        r
    }
}

/// What was read of one connection table.
#[derive(Debug, PartialEq, Eq)]
pub enum TableSource {
    /// The table could not be opened: it counts as empty.
    Missing,
    /// The table's lines, the header line first.
    Lines(Vec<String>),
    /// The table was opened and reading it failed.
    Failed,
}

/// What was read of the four connection tables.
#[derive(Debug, PartialEq, Eq)]
pub struct ConnectionTables {
    pub tcp4: TableSource,
    pub tcp6: TableSource,
    pub udp4: TableSource,
    pub udp6: TableSource,
}

impl ConnectionTables {
    /// What was read of the table `kind`.
    pub open spec fn source(self, kind: TableKind) -> TableSource {
        match kind {
            TableKind::Tcp4 => self.tcp4,
            TableKind::Tcp6 => self.tcp6,
            TableKind::Udp4 => self.udp4,
            TableKind::Udp6 => self.udp6,
        }
    }

    /// What was read of the table `kind`.
    pub fn get(&self, kind: TableKind) -> (r: &TableSource)
        ensures
            *r == self.source(kind),
    {
        match kind {
            TableKind::Tcp4 => &self.tcp4,
            TableKind::Tcp6 => &self.tcp6,
            TableKind::Udp4 => &self.udp4,
            TableKind::Udp6 => &self.udp6,
        }
    }
}

/// Why a resolution failed.
#[derive(Clone, Copy, Debug, PartialEq, Eq, Structural)]
pub enum ScanError {
    /// A connection table that was asked for was opened and could not be read.
    TableUnreadable(TableKind),
    /// The process table itself could not be listed.
    ProcessTableUnreadable,
}

/// The protocols that the two command-line switches select: one alone selects its protocol,
/// both or neither select both protocols.
pub open spec fn selected_protocols(tcp: bool, udp: bool) -> Seq<Protocol> {
    if tcp && !udp {
        seq![Protocol::Tcp]
    } else if udp && !tcp {
        seq![Protocol::Udp]
    } else {
        seq![Protocol::Tcp, Protocol::Udp]
    }
}

/// The protocol filter for the two switches. It is never empty.
pub fn protocols_from_flags(tcp: bool, udp: bool) -> (r: Vec<Protocol>)
    ensures
        r@ == selected_protocols(tcp, udp),
        r@.len() > 0,
{
    let r = if tcp && !udp {
        vec![Protocol::Tcp]
    } else if udp && !tcp {
        vec![Protocol::Udp]
    } else {
        vec![Protocol::Tcp, Protocol::Udp]
    };
    assert(r@ =~= selected_protocols(tcp, udp));
    r
}

/// Whether the filter asks for the table `kind`.
pub open spec fn wanted(protocols: Seq<Protocol>, kind: TableKind) -> bool {
    protocols.contains(kind_protocol(kind))
}

/// Whether the filter asks for the table `kind`. A table that is not asked for is not opened.
pub fn is_wanted(protocols: &[Protocol], kind: TableKind) -> (r: bool)
    ensures
        r == wanted(protocols@, kind),
{
    let protocol = kind.protocol();
    let mut i: usize = 0;
    while i < protocols.len()
        invariant
            i <= protocols@.len(),
            protocol == kind_protocol(kind),
            forall|k: int| 0 <= k < i ==> protocols@[k] != protocol,
        decreases protocols@.len() - i,
    {
        if protocols[i] == protocol {
            return true;
        }
        i += 1;
    }
    false
}

/// The inode that a table row gives for `port`, if it gives one. The row needs at least ten
/// fields. Its second field, cut at its colons, has the port as its second piece, in
/// hexadecimal; the port must be `port`. Its tenth field is the inode in decimal, which
/// must not be zero. A row that does not read so gives nothing.
pub open spec fn line_match(line: Seq<char>, port: u16) -> Option<u64> {
    let spans = field_spans(line);
    if spans.len() < 10 {
        None
    } else {
        match second_piece(span_text(line, spans[1])) {
            None => None,
            Some(hex) => match parse_number(hex, 16, 0xFFFF) {
                Some(p) if p == port => match parse_number(
                    span_text(line, spans[9]),
                    10,
                    u64::MAX as nat,
                ) {
                    Some(inode) if inode != 0 => Some(inode as u64),
                    _ => None,
                },
                _ => None,
            },
        }
    }
}

/// Reads one row of a connection table and returns its inode where the row is bound to
/// `port`.
pub fn line_inode(line: &str, port: u16) -> (r: Option<u64>)
    ensures
        r == line_match(line@, port),
        r is Some ==> r->0 != 0,
{
    let chars = chars_of(line);
    let spans = split_fields(&chars);
    if spans.len() < 10 {
        return None;
    }
    let address = copy_range(&chars, spans[1].start, spans[1].end);
    let hex = match piece_after_colon(&address) {
        None => {
            return None;
        },
        Some(hex) => hex,
    };
    match parse_radix(&hex, 16, 0xFFFF) {
        None => None,
        Some(p) => {
            if p != port as u64 {
                return None;
            }
            let field = copy_range(&chars, spans[9].start, spans[9].end);
            match parse_radix(&field, 10, u64::MAX) {
                None => None,
                Some(inode) => {
                    if inode != 0 {
                        Some(inode)
                    } else {
                        None
                    }
                },
            }
        },
    }
}

/// Whether `found` holds `socket`.
pub fn holds_socket(found: &Vec<SocketInfo>, socket: SocketInfo) -> (r: bool)
    ensures
        r == found@.contains(socket),
{
    let mut i: usize = 0;
    while i < found.len()
        invariant
            i <= found@.len(),
            forall|k: int| 0 <= k < i ==> found@[k] != socket,
        decreases found@.len() - i,
    {
        if found[i].inode == socket.inode && found[i].protocol == socket.protocol {
            assert(found@[i as int] == socket);
            return true;
        }
        i += 1;
    }
    false
}

/// The sockets found once the row `line` of a table of `protocol` is read after `found`.
pub open spec fn scan_row(
    found: Seq<SocketInfo>,
    line: Seq<char>,
    port: u16,
    protocol: Protocol,
) -> Seq<SocketInfo> {
    match line_match(line, port) {
        Some(inode) => add_unique(found, SocketInfo { inode, protocol }),
        None => found,
    }
}

/// The sockets found once the rows `rows` are read in order after `found`.
pub open spec fn scan_rows(
    found: Seq<SocketInfo>,
    rows: Seq<String>,
    port: u16,
    protocol: Protocol,
) -> Seq<SocketInfo>
    decreases rows.len(),
{
    if rows.len() == 0 {
        found
    } else {
        scan_row(scan_rows(found, rows.drop_last(), port, protocol), rows.last()@, port, protocol)
    }
}

/// The rows of a table: its lines but the first, which is the header.
pub open spec fn table_rows(lines: Seq<String>) -> Seq<String> {
    if lines.len() == 0 {
        lines
    } else {
        lines.drop_first()
    }
}

/// Reads the lines of one table of `protocol` and adds to `found` each socket of a row bound
/// to `port` that `found` does not hold yet. The first line is passed over unread.
pub fn scan_table(found: &mut Vec<SocketInfo>, lines: &Vec<String>, port: u16, protocol: Protocol)
    ensures
        final(found)@ == scan_rows(old(found)@, table_rows(lines@), port, protocol),
{
    let n: usize = lines.len();
    let ghost rows = table_rows(lines@);
    let mut i: usize = 1;
    while i < n
        invariant
            n == lines@.len(),
            1 <= i,
            i <= n || i == 1,
            rows == table_rows(lines@),
            found@ == scan_rows(old(found)@, rows.take(i - 1), port, protocol),
        decreases n - i,
    {
        proof {
            assert(rows.take(i as int).drop_last() =~= rows.take(i - 1));
            assert(rows.take(i as int).last() == lines@[i as int]);
        }
        match line_inode(lines[i].as_str(), port) {
            None => {},
            Some(inode) => {
                let socket = SocketInfo { inode, protocol };
                if !holds_socket(found, socket) {
                    found.push(socket);
                }
            },
        }
        i += 1;
    }
    assert(rows.len() == i - 1);
    assert(rows.take(i - 1) =~= rows);
}

/// The sockets found once what was read of one table of `protocol` is scanned after `found`.
/// Only a table that was read adds anything.
pub open spec fn scan_source(
    found: Seq<SocketInfo>,
    source: TableSource,
    port: u16,
    protocol: Protocol,
) -> Seq<SocketInfo> {
    match source {
        TableSource::Lines(lines) => scan_rows(found, table_rows(lines@), port, protocol),
        _ => found,
    }
}

/// The sockets found once the table `kind` is dealt with after `found`: scanned where the
/// filter asks for it, passed over where it does not.
pub open spec fn scan_kind(
    found: Seq<SocketInfo>,
    protocols: Seq<Protocol>,
    tables: ConnectionTables,
    kind: TableKind,
    port: u16,
) -> Seq<SocketInfo> {
    if wanted(protocols, kind) {
        scan_source(found, tables.source(kind), port, kind_protocol(kind))
    } else {
        found
    }
}

/// The sockets bound to `port`: what the four tables give in scan order, each socket once,
/// where it is first met.
pub open spec fn resolved_sockets(
    port: u16,
    protocols: Seq<Protocol>,
    tables: ConnectionTables,
) -> Seq<SocketInfo> {
    let a = scan_kind(Seq::empty(), protocols, tables, TableKind::Tcp4, port);
    let b = scan_kind(a, protocols, tables, TableKind::Tcp6, port);
    let c = scan_kind(b, protocols, tables, TableKind::Udp4, port);
    scan_kind(c, protocols, tables, TableKind::Udp6, port)
}

/// Whether the table `kind` is asked for and reading it failed.
pub open spec fn fails_on(
    protocols: Seq<Protocol>,
    tables: ConnectionTables,
    kind: TableKind,
) -> bool {
    wanted(protocols, kind) && tables.source(kind) is Failed
}

/// The first table in scan order that is asked for and whose reading failed.
pub open spec fn first_failed(protocols: Seq<Protocol>, tables: ConnectionTables) -> Option<
    TableKind,
> {
    if fails_on(protocols, tables, TableKind::Tcp4) {
        Some(TableKind::Tcp4)
    } else if fails_on(protocols, tables, TableKind::Tcp6) {
        Some(TableKind::Tcp6)
    } else if fails_on(protocols, tables, TableKind::Udp4) {
        Some(TableKind::Udp4)
    } else if fails_on(protocols, tables, TableKind::Udp6) {
        Some(TableKind::Udp6)
    } else {
        None
    }
}

/// Deals with one table: scans it where the filter asks for it and it was read, and fails
/// where the filter asks for it and reading it failed.
pub fn scan_one(
    found: &mut Vec<SocketInfo>,
    protocols: &[Protocol],
    tables: &ConnectionTables,
    kind: TableKind,
    port: u16,
) -> (r: Result<(), ScanError>)
    ensures
        match r {
            Ok(_) => !fails_on(protocols@, *tables, kind) && final(found)@ == scan_kind(
                old(found)@,
                protocols@,
                *tables,
                kind,
                port,
            ),
            Err(e) => fails_on(protocols@, *tables, kind) && e == ScanError::TableUnreadable(kind)
                && final(found)@ == old(found)@,
        },
{
    if !is_wanted(protocols, kind) {
        return Ok(());
    }
    match tables.get(kind) {
        TableSource::Missing => Ok(()),
        TableSource::Failed => Err(ScanError::TableUnreadable(kind)),
        TableSource::Lines(lines) => {
            scan_table(found, lines, port, kind.protocol());
            Ok(())
        },
    }
}

/// The sockets bound to `port` among those of the protocols in `protocols`, by what was
/// read of the connection tables. The tables are taken in scan order; a table that the
/// filter does not ask for is passed over whatever was read of it, and a missing one
/// counts as empty. Fails on the first table asked for whose reading failed.
pub fn get_inode_from_port(port: u16, protocols: &[Protocol], tables: &ConnectionTables) -> (r:
    Result<Vec<SocketInfo>, ScanError>)
    ensures
        match r {
            Ok(sockets) => {
                &&& first_failed(protocols@, *tables) is None
                &&& sockets@ == resolved_sockets(port, protocols@, *tables)
                &&& sockets@.no_duplicates()
                &&& forall|s: SocketInfo| #[trigger]
                    sockets@.contains(s) ==> s.inode != 0 && protocols@.contains(s.protocol)
            },
            Err(e) => first_failed(protocols@, *tables) is Some && e == ScanError::TableUnreadable(
                first_failed(protocols@, *tables)->0,
            ),
        },
{
    let mut found: Vec<SocketInfo> = Vec::new();
    match scan_one(&mut found, protocols, tables, TableKind::Tcp4, port) {
        Err(e) => {
            return Err(e);
        },
        Ok(_) => {},
    }
    match scan_one(&mut found, protocols, tables, TableKind::Tcp6, port) {
        Err(e) => {
            return Err(e);
        },
        Ok(_) => {},
    }
    match scan_one(&mut found, protocols, tables, TableKind::Udp4, port) {
        Err(e) => {
            return Err(e);
        },
        Ok(_) => {},
    }
    match scan_one(&mut found, protocols, tables, TableKind::Udp6, port) {
        Err(e) => {
            return Err(e);
        },
        Ok(_) => {},
    }
    proof {
        lemma_resolved_no_duplicates(port, protocols@, *tables);
        assert forall|s: SocketInfo| #[trigger] found@.contains(s) implies s.inode != 0
            && protocols@.contains(s.protocol) by {
            lemma_resolved_contains(port, protocols@, *tables, s);
        }
    }
    Ok(found)
}

} // verus!
