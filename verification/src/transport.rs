//! What the discovery transport is set up with, and the list of addresses
//! that stands in for discovery where the caller supplies one.
//!
//! The socket itself is the caller's: it is bound to the wildcard address
//! on a port that the system picks, joined to the discovery group, and
//! given the read deadline below, so that a stop is seen between two reads.

use crate::scan::{find_char, lemma_find_char, scan_char};
use crate::text::{chars_of, string_of_range};
use vstd::prelude::*;

verus! {

/// The address of the discovery group.
pub const MULTICAST_GROUP: [u8; 4] = [239, 255, 255, 250];

/// The port of the discovery group.
pub const MULTICAST_PORT: u16 = 3702;

/// How long one read waits for a datagram, in milliseconds.
pub const READ_DEADLINE_MS: u64 = 200;

/// How long one send may take, in milliseconds.
pub const WRITE_DEADLINE_MS: u64 = 200;

/// The size of the buffer that takes a datagram, in bytes.
pub const DATAGRAM_CAPACITY: usize = 16384;

/// What separates the addresses of a supplied list.
pub const LIST_SEPARATOR: char = ';';

/// The entries of a list from `pos` on: the runs between separators that
/// are not empty, in order.
pub open spec fn entries_from(s: Seq<char>, pos: int) -> Seq<Seq<char>>
    decreases s.len() - pos,
{
    if pos < 0 || pos >= s.len() {
        Seq::empty()
    } else {
        let e = find_char(s, pos, s.len() as int, LIST_SEPARATOR);
        if e <= pos {
            entries_from(s, pos + 1)
        } else if e > s.len() {
            Seq::empty()
        } else {
            seq![s.subrange(pos, e)] + entries_from(s, e)
        }
    }
}

/// The addresses of a supplied list: its entries, as they stand.
pub open spec fn listed(s: Seq<char>) -> Seq<Seq<char>> {
    entries_from(s, 0)
}

/// The device addresses that a list supplies in place of discovery. The
/// entries are separated by `;`; empty entries are passed over.
pub fn listed_addresses(list: &str) -> (r: Vec<String>)
    ensures
        r.deep_view() == listed(list@),
{
    let s = chars_of(list);
    let mut r: Vec<String> = Vec::new();
    let mut pos: usize = 0;
    assert(r.deep_view() + entries_from(s@, 0) =~= listed(s@));
    while pos < s.len()
        invariant
            pos <= s.len(),
            s@ == list@,
            r.deep_view() + entries_from(s@, pos as int) == listed(s@),
        decreases s.len() - pos,
    {
        let e = scan_char(&s, pos, s.len(), LIST_SEPARATOR);
        if e <= pos {
            pos += 1;
        } else {
            let ghost before = r.deep_view();
            r.push(string_of_range(&s, pos, e));
            assert(r.deep_view() =~= before + seq![s@.subrange(pos as int, e as int)]);
            assert(before + (seq![s@.subrange(pos as int, e as int)] + entries_from(s@, e as int))
                =~= r.deep_view() + entries_from(s@, e as int));
            pos = e;
        }
    }
    assert(r.deep_view() + Seq::<Seq<char>>::empty() =~= r.deep_view());
    r
}

/// An entry of a list is not empty and holds no separator.
pub proof fn lemma_entries_hold_no_separator(s: Seq<char>, pos: int)
    requires
        0 <= pos,
    ensures
        forall|k: int|
            0 <= k < entries_from(s, pos).len() ==> (#[trigger] entries_from(s, pos)[k]).len() > 0
                && !entries_from(s, pos)[k].contains(LIST_SEPARATOR),
    decreases s.len() - pos,
{
    if pos < s.len() {
        let e = find_char(s, pos, s.len() as int, LIST_SEPARATOR);
        lemma_find_char(s, pos, s.len() as int, LIST_SEPARATOR);
        if e <= pos {
            lemma_entries_hold_no_separator(s, pos + 1);
            assert(entries_from(s, pos) == entries_from(s, pos + 1));
        } else {
            lemma_entries_hold_no_separator(s, e);
            let head = s.subrange(pos, e);
            let rest = entries_from(s, e);
            let all = entries_from(s, pos);
            assert(all == seq![head] + rest);
            assert forall|i: int| 0 <= i < head.len() implies head[i] != LIST_SEPARATOR by {
                assert(head[i] == s[pos + i]);
            }
            assert(!head.contains(LIST_SEPARATOR));
            assert forall|k: int| 0 <= k < all.len() implies (#[trigger] all[k]).len() > 0
                && !all[k].contains(LIST_SEPARATOR) by {
                if k == 0 {
                    assert(all[0] == head);
                } else {
                    assert(all[k] == rest[k - 1]);
                }
            }
        }
    }
}

} // verus!
