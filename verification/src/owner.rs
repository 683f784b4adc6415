//! From a socket to the processes that hold it, by a listing of the process table.

use vstd::prelude::*;
use vstd::string::StringExecFns;
use crate::number::{append_decimal, decimal_text, parse_number, parse_radix};
use crate::owner_lemmas::{lemma_owners_contains, lemma_owners_no_duplicates};
use crate::socket::ScanError;
use crate::text::chars_of;
use crate::unique::add_unique;

verus! {

/// One entry of the process table's root directory.
#[derive(Debug, PartialEq, Eq)]
pub struct ProcEntry {
    /// The entry's name.
    pub name: String,
    /// The targets of the links in the entry's descriptor directory, in listing order, with
    /// `None` for a link that could not be read. `None` where the directory could not be
    /// listed.
    pub descriptors: Option<Vec<Option<String>>>,
}

/// What was read of the process table.
#[derive(Debug, PartialEq, Eq)]
pub enum ProcessTable {
    /// The root directory could not be listed.
    Unreadable,
    /// The root directory's entries, in listing order.
    Entries(Vec<ProcEntry>),
}

/// The target of a descriptor link that refers to the socket `inode`: `socket:[`, the inode
/// in decimal, `]`.
pub open spec fn socket_link(inode: u64) -> Seq<char> {
    seq!['s', 'o', 'c', 'k', 'e', 't', ':', '['] + decimal_text(inode as nat) + seq![']']
}

/// The link target that descriptors of the socket `inode` have.
pub fn socket_pattern(inode: u64) -> (r: String)
    ensures
        r@ == socket_link(inode),
{
    proof {
        reveal_strlit("socket:[");
        reveal_strlit("]");
    }
    let mut out = String::from_str("socket:[");
    assert(out@ =~= seq!['s', 'o', 'c', 'k', 'e', 't', ':', '[']);
    append_decimal(&mut out, inode);
    out.append("]");
    assert(out@ =~= socket_link(inode));
    out
}

/// The process identifier that an entry's name stands for: a decimal number above zero that
/// fits 32 bits. Other entries are no processes.
pub open spec fn entry_pid(name: Seq<char>) -> Option<u32> {
    match parse_number(name, 10, u32::MAX as nat) {
        Some(v) if v > 0 => Some(v as u32),
        _ => None,
    }
}

/// Reads an entry's name as a process identifier.
pub fn parse_pid(name: &str) -> (r: Option<u32>)
    ensures
        r == entry_pid(name@),
        r is Some ==> r->0 > 0,
{
    let chars = chars_of(name);
    match parse_radix(&chars, 10, 0xFFFF_FFFF) {
        Some(v) => {
            if v > 0 {
                Some(v as u32)
            } else {
                None
            }
        },
        None => None,
    }
}

/// Whether a link was read and its target is `link`, letter for letter.
pub open spec fn target_is(target: Option<String>, link: Seq<char>) -> bool {
    target is Some && target->0@ == link
}

/// Whether one of the link targets is `link`.
pub open spec fn links_to(targets: Seq<Option<String>>, link: Seq<char>) -> bool {
    exists|j: int| 0 <= j < targets.len() && target_is(#[trigger] targets[j], link)
}

/// Looks for `pattern` among link targets.
pub fn has_link(targets: &Vec<Option<String>>, pattern: &String) -> (r: bool)
    ensures
        r == links_to(targets@, pattern@),
{
    let mut j: usize = 0;
    while j < targets.len()
        invariant
            j <= targets@.len(),
            forall|k: int| 0 <= k < j ==> !target_is(#[trigger] targets@[k], pattern@),
        decreases targets@.len() - j,
    {
        match &targets[j] {
            Some(target) => {
                if *target == *pattern {
                    assert(target_is(targets@[j as int], pattern@));
                    return true;
                }
            },
            None => {},
        }
        j += 1;
    }
    false
}

/// The process that an entry shows to hold the socket `inode`: the entry's name is a
/// process identifier, its descriptors could be listed, and one of them links to the socket.
pub open spec fn entry_owner(entry: ProcEntry, inode: u64) -> Option<u32> {
    match (entry_pid(entry.name@), entry.descriptors) {
        (Some(pid), Some(targets)) if links_to(targets@, socket_link(inode)) => Some(pid),
        _ => None,
    }
}

/// The processes that hold the socket `inode`, in listing order, each once.
pub open spec fn owners(entries: Seq<ProcEntry>, inode: u64) -> Seq<u32>
    decreases entries.len(),
{
    if entries.len() == 0 {
        Seq::empty()
    } else {
        let before = owners(entries.drop_last(), inode);
        match entry_owner(entries.last(), inode) {
            Some(pid) => add_unique(before, pid),
            None => before,
        }
    }
}

/// Whether `pids` holds `pid`.
pub fn holds_pid(pids: &Vec<u32>, pid: u32) -> (r: bool)
    ensures
        r == pids@.contains(pid),
{
    let mut i: usize = 0;
    while i < pids.len()
        invariant
            i <= pids@.len(),
            forall|k: int| 0 <= k < i ==> pids@[k] != pid,
        decreases pids@.len() - i,
    {
        if pids[i] == pid {
            return true;
        }
        i += 1;
    }
    false
}

/// The process that `entry` shows to hold a socket whose descriptors link to `pattern`.
pub fn owner_of_entry(entry: &ProcEntry, inode: u64, pattern: &String) -> (r: Option<u32>)
    requires
        pattern@ == socket_link(inode),
    ensures
        r == entry_owner(*entry, inode),
{
    match parse_pid(entry.name.as_str()) {
        None => None,
        Some(pid) => match &entry.descriptors {
            None => None,
            Some(targets) => {
                if has_link(targets, pattern) {
                    Some(pid)
                } else {
                    None
                }
            },
        },
    }
}

/// The processes that hold a descriptor of the socket `inode`, by what was read of the
/// process table. An entry that is no process, or whose descriptors could not be listed,
/// and a link that could not be read are passed over. Fails only where the table itself
/// could not be listed.
pub fn get_pid_from_inode(inode: u64, table: &ProcessTable) -> (r: Result<Vec<u32>, ScanError>)
    ensures
        match r {
            Ok(pids) => {
                &&& table is Entries
                &&& pids@ == owners(table->Entries_0@, inode)
                &&& pids@.no_duplicates()
                &&& forall|pid: u32| #[trigger] pids@.contains(pid) ==> pid > 0
            },
            Err(e) => table is Unreadable && e == ScanError::ProcessTableUnreadable,
        },
{
    match table {
        ProcessTable::Unreadable => Err(ScanError::ProcessTableUnreadable),
        ProcessTable::Entries(entries) => {
            let pattern = socket_pattern(inode);
            let mut pids: Vec<u32> = Vec::new();
            let mut i: usize = 0;
            while i < entries.len()
                invariant
                    i <= entries@.len(),
                    pattern@ == socket_link(inode),
                    pids@ == owners(entries@.take(i as int), inode),
                decreases entries@.len() - i,
            {
                proof {
                    assert(entries@.take(i + 1).drop_last() =~= entries@.take(i as int));
                    assert(entries@.take(i + 1).last() == entries@[i as int]);
                }
                match owner_of_entry(&entries[i], inode, &pattern) {
                    None => {},
                    Some(pid) => {
                        if !holds_pid(&pids, pid) {
                            pids.push(pid);
                        }
                    },
                }
                i += 1;
            }
            proof {
                assert(entries@.take(i as int) =~= entries@);
                lemma_owners_no_duplicates(entries@, inode);
                assert forall|pid: u32| #[trigger] pids@.contains(pid) implies pid > 0 by {
                    lemma_owners_contains(entries@, inode, pid);
                }
            }
            Ok(pids)
        },
    }
}

} // verus!
