//! Other running instances of the program, as the system's task list shows
//! them.
//!
//! The list comes as text: a heading and then one line for each process,
//! with the fields of a line separated by commas and each in quotes. The
//! second field is the number of the process.

use crate::text::{
    chars_of, copy_range, lemma_split_pieces, parse_integer, parse_unsigned, pieces_of, split_on, split_ranges,
    strip_range, stripped, trim_range, trimmed,
};
use vstd::prelude::*;

verus! {

/// A field of a line without the white space and the quotes around it.
pub open spec fn field_of(piece: Seq<char>) -> Seq<char> {
    stripped(trimmed(piece), '"')
}

/// The number of the process that a line of the list is about, if the line
/// has a second field and that field spells a number of 32 bits.
pub open spec fn pid_of_line(line: Seq<char>) -> Option<u32> {
    let fields = split_on(trimmed(line), ',');
    if trimmed(line).len() == 0 || fields.len() < 2 {
        None
    } else {
        match parse_integer(field_of(fields[1]), false, 0, u32::MAX as int) {
            Some(value) => Some(value as u32),
            None => None,
        }
    }
}

/// The number of another process that a line of the list is about, if it is
/// about one: the process `own` does not count.
pub open spec fn other_pid_of_line(line: Seq<char>, own: u32) -> Option<u32> {
    match pid_of_line(line) {
        Some(pid) => if pid != own {
            Some(pid)
        } else {
            None
        },
        None => None,
    }
}

/// The numbers of the processes in the list other than `own`, in the order
/// of their lines. The first line is the heading and holds no process.
pub open spec fn other_pids_of(listing: Seq<char>, own: u32) -> Seq<u32> {
    split_on(listing, '\n').drop_first().filter_map(
        |line: Seq<char>| other_pid_of_line(line, own),
    )
}

/// See [`pid_of_line`].
fn pid_of(text: &Vec<char>, from: usize, to: usize) -> (pid: Option<u32>)
    requires
        from <= to <= text.len(),
    ensures
        pid == pid_of_line(text@.subrange(from as int, to as int)),
{
    let (start, end) = trim_range(text, from, to);
    if start == end {
        return None;
    }
    let line = copy_range(text, start, end);
    let fields = split_ranges(&line, ',');
    proof {
        assert(pieces_of(line@, fields@).len() == fields@.len());
    }
    if fields.len() < 2 {
        return None;
    }
    let second = fields[1];
    proof {
        assert(pieces_of(line@, fields@)[1] == line@.subrange(second.0 as int, second.1 as int));
    }
    let (a, b) = trim_range(&line, second.0, second.1);
    let (c, d) = strip_range(&line, a, b, '"');
    match parse_unsigned(&line, c, d, 0xffff_ffff) {
        Some(value) => Some(value as u32),
        None => None,
    }
}

/// See [`other_pids_of`].
pub fn other_pids(listing: &str, own: u32) -> (pids: Vec<u32>)
    ensures
        pids@ == other_pids_of(listing@, own),
{
    let text = chars_of(listing);
    let ranges = split_ranges(&text, '\n');
    let ghost lines = split_on(text@, '\n');
    let ghost other = |line: Seq<char>| other_pid_of_line(line, own);
    let mut pids: Vec<u32> = Vec::new();
    let mut i: usize = 1;
    proof {
        assert(lines.len() == ranges.len());
        lemma_split_pieces(text@, '\n');
        assert(lines.drop_first().take(0) =~= Seq::empty());
    }
    while i < ranges.len()
        invariant
            1 <= i <= ranges.len(),
            lines == pieces_of(text@, ranges@),
            other == (|line: Seq<char>| other_pid_of_line(line, own)),
            forall|k: int|
                0 <= k < ranges.len() ==> (#[trigger] ranges[k]).0 <= ranges[k].1 <= text.len(),
            pids@ == lines.drop_first().take(i - 1).filter_map(other),
        decreases ranges.len() - i,
    {
        let range = ranges[i];
        proof {
            assert(lines[i as int] == text@.subrange(range.0 as int, range.1 as int));
            assert(lines.drop_first()[i - 1] == lines[i as int]);
            lines.drop_first().lemma_filter_map_take_succ(other, i - 1);
        }
        match pid_of(&text, range.0, range.1) {
            Some(pid) => {
                if pid != own {
                    pids.push(pid);
                }
            },
            None => {},
        }
        i += 1;
    }
    proof {
        assert(lines.drop_first().take(ranges.len() - 1) =~= lines.drop_first());
    }
    pids
}

/// Those of `pids` that are among `targets`, in their order.
pub open spec fn still_targeted(pids: Seq<u32>, targets: Seq<u32>) -> Seq<u32> {
    pids.filter(|pid: u32| targets.contains(pid))
}

/// The processes to end by force: those of the list, other than `own`, that
/// were asked to end before (`targets`) and are still there.
pub fn remaining_targets(listing: &str, own: u32, targets: &Vec<u32>) -> (pids: Vec<u32>)
    ensures
        pids@ == still_targeted(other_pids_of(listing@, own), targets@),
{
    let listed = other_pids(listing, own);
    let ghost wanted = |pid: u32| targets@.contains(pid);
    let mut pids: Vec<u32> = Vec::new();
    let mut i: usize = 0;
    proof {
        reveal(Seq::filter);
        assert(listed@.take(0) =~= Seq::empty());
    }
    while i < listed.len()
        invariant
            i <= listed.len(),
            wanted == (|pid: u32| targets@.contains(pid)),
            pids@ == listed@.take(i as int).filter(wanted),
        decreases listed.len() - i,
    {
        let pid = listed[i];
        proof {
            reveal(Seq::filter);
            let next = listed@.take(i + 1);
            assert(next.drop_last() =~= listed@.take(i as int));
            assert(next.last() == pid);
        }
        if pid_listed(targets, pid) {
            pids.push(pid);
        }
        i += 1;
    }
    proof {
        assert(listed@.take(listed.len() as int) =~= listed@);
    }
    pids
}

/// Whether `pid` occurs in `pids`.
fn pid_listed(pids: &Vec<u32>, pid: u32) -> (found: bool)
    ensures
        found == pids@.contains(pid),
{
    let mut i: usize = 0;
    while i < pids.len()
        invariant
            i <= pids.len(),
            forall|j: int| 0 <= j < i ==> pids@[j] != pid,
        decreases pids.len() - i,
    {
        if pids[i] == pid {
            return true;
        }
        i += 1;
    }
    false
}

} // verus!
