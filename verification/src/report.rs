//! The lines of the report: one heading, then one line for each socket.

use vstd::prelude::*;
use vstd::string::StringExecFns;
use crate::number::{append_decimal, decimal_text};
use crate::socket::{protocol_name, SocketInfo};

verus! {

/// The heading of the report.
pub open spec fn header_text() -> Seq<char> {
    "PROTOCOL\tPORT\tINODE\tPID"@
}

/// The heading of the report: the names of its four columns, with a tab between them.
pub fn report_header() -> (r: &'static str)
    ensures
        r@ == header_text(),
{
    "PROTOCOL\tPORT\tINODE\tPID"
}

/// The process identifiers from `from` on, each in decimal, with a comma and a space before
/// each but the very first of the list.
pub open spec fn pids_from(pids: Seq<u32>, from: int) -> Seq<char>
    decreases pids.len() - from,
{
    if from < 0 || from >= pids.len() {
        Seq::empty()
    } else if from == 0 {
        decimal_text(pids[from] as nat) + pids_from(pids, from + 1)
    } else {
        seq![',', ' '] + decimal_text(pids[from] as nat) + pids_from(pids, from + 1)
    }
}

/// A list of process identifiers as text: in square brackets, in decimal, with a comma and a
/// space between them.
pub open spec fn pid_list_text(pids: Seq<u32>) -> Seq<char> {
    seq!['['] + pids_from(pids, 0) + seq![']']
}

/// One line of the report: the protocol's name, two tabs, the port, a tab, the inode, a
/// tab, the list of process identifiers.
pub open spec fn row_text(socket: SocketInfo, port: u16, pids: Seq<u32>) -> Seq<char> {
    protocol_name(socket.protocol) + seq!['\t', '\t'] + decimal_text(port as nat) + seq!['\t']
        + decimal_text(socket.inode as nat) + seq!['\t'] + pid_list_text(pids)
}

/// Appends the list of process identifiers to `out`.
pub fn append_pid_list(out: &mut String, pids: &Vec<u32>)
    ensures
        final(out)@ == old(out)@ + pid_list_text(pids@),
{
    proof {
        reveal_strlit("[");
        reveal_strlit("]");
    }
    out.append("[");
    let ghost start = out@;
    assert(start =~= old(out)@ + seq!['[']);
    let mut i: usize = 0;
    while i < pids.len()
        invariant
            i <= pids@.len(),
            out@ + pids_from(pids@, i as int) == start + pids_from(pids@, 0),
        decreases pids@.len() - i,
    {
        let ghost before = out@;
        if i > 0 {
            out.append(", ");
        }
        append_decimal(out, pids[i] as u64);
        assert(out@ + pids_from(pids@, i + 1) =~= before + pids_from(pids@, i as int)) by {
            reveal_strlit(", ");
            assert(", "@ =~= seq![',', ' ']);
        }
        i += 1;
    }
    assert(out@ + pids_from(pids@, i as int) =~= out@);
    out.append("]");
    assert(final(out)@ =~= old(out)@ + pid_list_text(pids@));
}

/// One line of the report, for a socket bound to `port` and the processes that hold it.
pub fn report_row(socket: SocketInfo, port: u16, pids: &Vec<u32>) -> (r: String)
    ensures
        r@ == row_text(socket, port, pids@),
{
    proof {
        reveal_strlit("\t\t");
        reveal_strlit("\t");
    }
    let mut out = String::from_str(socket.protocol.as_str());
    out.append("\t\t");
    append_decimal(&mut out, port as u64);
    out.append("\t");
    append_decimal(&mut out, socket.inode);
    out.append("\t");
    let ghost head = out@;
    assert(head =~= protocol_name(socket.protocol) + seq!['\t', '\t'] + decimal_text(port as nat)
        + seq!['\t'] + decimal_text(socket.inode as nat) + seq!['\t']) by {
        assert("\t\t"@ =~= seq!['\t', '\t']);
        assert("\t"@ =~= seq!['\t']);
    }
    append_pid_list(&mut out, pids);
    assert(out@ =~= row_text(socket, port, pids@));
    out
}

} // verus!
