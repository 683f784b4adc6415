//! What holds of the processes that a scan of the process table finds.

use vstd::prelude::*;
use crate::number::{decimal_text, lemma_decimal_round_trip};
use crate::owner::{entry_owner, links_to, owners, socket_link, ProcEntry};
use crate::unique::{lemma_add_unique_contains, lemma_add_unique_no_duplicates};

verus! {

/// Whether one of the entries shows `pid` to hold the socket `inode`.
pub open spec fn some_entry_owns(entries: Seq<ProcEntry>, inode: u64, pid: u32) -> bool {
    exists|i: int| 0 <= i < entries.len() && entry_owner(#[trigger] entries[i], inode) == Some(pid)
}

/// The result holds a process if and only if an entry shows it to hold the socket. So two
/// processes that hold the same socket are both in it.
pub proof fn lemma_owners_contains(entries: Seq<ProcEntry>, inode: u64, pid: u32)
    ensures
        owners(entries, inode).contains(pid) <==> some_entry_owns(entries, inode, pid),
    decreases entries.len(),
{
    if entries.len() == 0 {
        assert(!Seq::<u32>::empty().contains(pid));
    } else {
        let head = entries.drop_last();
        let before = owners(head, inode);
        lemma_owners_contains(head, inode, pid);
        match entry_owner(entries.last(), inode) {
            Some(p) => {
                lemma_add_unique_contains(before, p, pid);
            },
            None => {},
        }
        if some_entry_owns(head, inode, pid) {
            let i = choose|i: int|
                0 <= i < head.len() && entry_owner(#[trigger] head[i], inode) == Some(pid);
            assert(entries[i] == head[i]);
        }
        if some_entry_owns(entries, inode, pid) {
            let i = choose|i: int|
                0 <= i < entries.len() && entry_owner(#[trigger] entries[i], inode) == Some(pid);
            if i < head.len() {
                assert(entries[i] == head[i]);
            } else {
                assert(entries[i] == entries.last());
            }
        }
        if entry_owner(entries.last(), inode) == Some(pid) {
            assert(entries[entries.len() - 1] == entries.last());
        }
    }
}

/// The link targets of two sockets differ: a descriptor that links to one socket is never
/// taken for a descriptor of another.
pub proof fn lemma_socket_link_tells_sockets_apart(a: u64, b: u64)
    requires
        socket_link(a) == socket_link(b),
    ensures
        a == b,
{
    let head = seq!['s', 'o', 'c', 'k', 'e', 't', ':', '['];
    let ta = decimal_text(a as nat);
    let tb = decimal_text(b as nat);
    assert(socket_link(a).len() == head.len() + ta.len() + 1);
    assert(socket_link(b).len() == head.len() + tb.len() + 1);
    assert forall|i: int| 0 <= i < ta.len() implies ta[i] == tb[i] by {
        assert(socket_link(a)[head.len() + i] == ta[i]);
        assert(socket_link(b)[head.len() + i] == tb[i]);
    }
    assert(ta =~= tb);
    lemma_decimal_round_trip(a as nat, a as nat);
    lemma_decimal_round_trip(b as nat, b as nat);
}

/// The result holds no process twice, however many of its descriptors link to the socket.
pub proof fn lemma_owners_no_duplicates(entries: Seq<ProcEntry>, inode: u64)
    ensures
        owners(entries, inode).no_duplicates(),
    decreases entries.len(),
{
    if entries.len() > 0 {
        lemma_owners_no_duplicates(entries.drop_last(), inode);
        match entry_owner(entries.last(), inode) {
            Some(p) => {
                lemma_add_unique_no_duplicates(owners(entries.drop_last(), inode), p);
            },
            None => {},
        }
    }
}

/// Where no descriptor of any entry links to the socket, the result is empty.
pub proof fn lemma_no_link_no_owner(entries: Seq<ProcEntry>, inode: u64)
    requires
        forall|i: int|
            0 <= i < entries.len() && (#[trigger] entries[i]).descriptors is Some ==> !links_to(
                entries[i].descriptors->0@,
                socket_link(inode),
            ),
    ensures
        owners(entries, inode) == Seq::<u32>::empty(),
    decreases entries.len(),
{
    if entries.len() > 0 {
        let head = entries.drop_last();
        assert forall|i: int|
            0 <= i < head.len() && (#[trigger] head[i]).descriptors is Some implies !links_to(
            head[i].descriptors->0@,
            socket_link(inode),
        ) by {
            assert(head[i] == entries[i]);
        }
        lemma_no_link_no_owner(head, inode);
        assert(entries.last() == entries[entries.len() - 1]);
    }
}

/// The result is empty only where no entry shows a process to hold the socket.
pub proof fn lemma_empty_means_no_owner(entries: Seq<ProcEntry>, inode: u64)
    ensures
        owners(entries, inode).len() == 0 <==> forall|i: int|
            0 <= i < entries.len() ==> entry_owner(#[trigger] entries[i], inode) is None,
{
    let found = owners(entries, inode);
    if found.len() > 0 {
        assert(found.contains(found[0]));
        lemma_owners_contains(entries, inode, found[0]);
    }
    if exists|i: int| 0 <= i < entries.len() && entry_owner(#[trigger] entries[i], inode) is Some {
        let i = choose|i: int|
            0 <= i < entries.len() && entry_owner(#[trigger] entries[i], inode) is Some;
        let pid = entry_owner(entries[i], inode)->0;
        lemma_owners_contains(entries, inode, pid);
        assert(some_entry_owns(entries, inode, pid));
    }
}

} // verus!
