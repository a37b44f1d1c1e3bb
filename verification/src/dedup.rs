//! Groups of files with the same content, and what they waste.

use vstd::prelude::*;
use vstd::string::*;
use crate::models::Entry;
use crate::size::{sum, total};

verus! {

/// A group of files that hold the same content.
#[derive(Debug)]
pub struct DuplicateGroup {
    /// Hash of the content.
    pub hash: String,
    /// Size of each file in bytes.
    pub size: u64,
    /// Number of files in the group.
    pub count: usize,
    /// The files.
    pub entries: Vec<Entry>,
    /// Bytes that would be freed if one file were kept.
    pub wasted_space: u64,
}

/// The bytes that `count` copies of a file of `size` bytes waste: all but
/// one copy.
pub open spec fn wasted_by(size: u64, count: nat) -> nat {
    if count > 1 {
        (size * (count - 1)) as nat
    } else {
        0
    }
}

/// The wasted bytes of every group.
pub open spec fn wasted_spaces(groups: Seq<DuplicateGroup>) -> Seq<u64> {
    Seq::new(groups.len(), |i: int| groups[i].wasted_space)
}

/// The number of files in every group.
pub open spec fn counts(groups: Seq<DuplicateGroup>) -> Seq<u64> {
    Seq::new(groups.len(), |i: int| groups[i].count as u64)
}

/// The largest of a list of numbers, zero for the empty list.
pub open spec fn largest(values: Seq<u64>) -> u64
    decreases values.len(),
{
    if values.len() == 0 {
        0
    } else if values.last() >= largest(values.drop_last()) {
        values.last()
    } else {
        largest(values.drop_last())
    }
}

impl DuplicateGroup {
    /// A group of the files `entries`, each of `size` bytes with content
    /// hash `hash`.
    pub fn new(hash: String, size: u64, entries: Vec<Entry>) -> (r: DuplicateGroup)
        requires
            wasted_by(size, entries@.len()) <= u64::MAX,
        ensures
            r.hash == hash,
            r.size == size,
            r.count == entries@.len(),
            r.entries == entries,
            r.wasted_space == wasted_by(size, entries@.len()),
    {
        let count = entries.len();
        let wasted_space = if count > 1 {
            size * (count as u64 - 1)
        } else {
            0
        };
        DuplicateGroup { hash, size, count, entries, wasted_space }
    }
}

/// The largest of a list of numbers.
pub fn max_of(values: &Vec<u64>) -> (r: u64)
    ensures
        r == largest(values@),
{
    let mut best: u64 = 0;
    let mut k: usize = 0;
    proof {
        assert(values@.take(0) =~= Seq::<u64>::empty());
    }
    while k < values.len()
        invariant
            k <= values.len(),
            best == largest(values@.take(k as int)),
        decreases values.len() - k,
    {
        proof {
            assert(values@.take(k + 1).drop_last() =~= values@.take(k as int));
            assert(values@.take(k + 1).last() == values@[k as int]);
        }
        if values[k] >= best {
            best = values[k];
        }
        k = k + 1;
    }
    proof {
        assert(values@.take(values.len() as int) =~= values@);
    }
    best
}

fn wasted_list(groups: &[DuplicateGroup]) -> (r: Vec<u64>)
    ensures
        r@ == wasted_spaces(groups@),
{
    let mut out: Vec<u64> = Vec::new();
    let mut k: usize = 0;
    while k < groups.len()
        invariant
            k <= groups.len(),
            out@.len() == k,
            forall|i: int| 0 <= i < k ==> #[trigger] out@[i] == groups@[i].wasted_space,
        decreases groups.len() - k,
    {
        out.push(groups[k].wasted_space);
        k = k + 1;
    }
    proof {
        assert(out@ =~= wasted_spaces(groups@));
    }
    out
}

fn count_list(groups: &[DuplicateGroup]) -> (r: Vec<u64>)
    ensures
        r@ == counts(groups@),
{
    let mut out: Vec<u64> = Vec::new();
    let mut k: usize = 0;
    while k < groups.len()
        invariant
            k <= groups.len(),
            out@.len() == k,
            forall|i: int| 0 <= i < k ==> #[trigger] out@[i] == groups@[i].count as u64,
        decreases groups.len() - k,
    {
        out.push(groups[k].count as u64);
        k = k + 1;
    }
    proof {
        assert(out@ =~= counts(groups@));
    }
    out
}

/// The bytes that all groups waste together.
pub fn calculate_wasted_space(groups: &[DuplicateGroup]) -> (r: u64)
    requires
        total(wasted_spaces(groups@)) <= u64::MAX,
    ensures
        r == total(wasted_spaces(groups@)),
{
    let values = wasted_list(groups);
    sum(&values)
}

/// Summary of a list of duplicate groups.
#[derive(Debug, Clone, Copy, PartialEq, Eq, Structural)]
pub struct DuplicateStats {
    /// Number of groups.
    pub total_groups: usize,
    /// Number of files in all groups.
    pub total_files: usize,
    /// Bytes wasted by all groups.
    pub total_wasted_space: u64,
    /// The most bytes that one group wastes.
    pub largest_group_size: u64,
    /// The most files that one group holds.
    pub largest_group_count: usize,
}

impl DuplicateStats {
    /// The summary of `groups`.
    pub fn from_groups(groups: &[DuplicateGroup]) -> (r: DuplicateStats)
        requires
            total(wasted_spaces(groups@)) <= u64::MAX,
            total(counts(groups@)) <= usize::MAX,
        ensures
            r == (DuplicateStats {
                total_groups: groups@.len() as usize,
                total_files: total(counts(groups@)) as usize,
                total_wasted_space: total(wasted_spaces(groups@)) as u64,
                largest_group_size: largest(wasted_spaces(groups@)),
                largest_group_count: largest(counts(groups@)) as usize,
            }),
    {
        let wasted = wasted_list(groups);
        let files = count_list(groups);
        let total_files = sum(&files);
        let largest_count = max_of(&files);
        proof {
            lemma_largest_bounded(files@);
        }
        DuplicateStats {
            total_groups: groups.len(),
            total_files: total_files as usize,
            total_wasted_space: sum(&wasted),
            largest_group_size: max_of(&wasted),
            largest_group_count: largest_count as usize,
        }
    }
}

/// The largest number of a list is at most the sum of the list.
pub proof fn lemma_largest_bounded(values: Seq<u64>)
    ensures
        largest(values) <= total(values),
    decreases values.len(),
{
    if values.len() > 0 {
        lemma_largest_bounded(values.drop_last());
    }
}

} // verus!
