//! Sums and rankings of entry sizes.

use vstd::prelude::*;
use vstd::string::*;
use crate::models::Entry;
use crate::ranking::{
    arranged, lemma_select_all_count, rank_selected, ranking, select_all,
};

verus! {

/// The sum of a list of numbers.
pub open spec fn total(values: Seq<u64>) -> nat
    decreases values.len(),
{
    if values.len() == 0 {
        0
    } else {
        total(values.drop_last()) + values.last() as nat
    }
}

/// The sum of the first `k` numbers is at most the sum of all.
pub proof fn lemma_total_prefix(values: Seq<u64>, k: int)
    requires
        0 <= k <= values.len(),
    ensures
        total(values.take(k)) <= total(values),
    decreases values.len() - k,
{
    if k < values.len() {
        assert(values.take(k + 1).drop_last() =~= values.take(k));
        lemma_total_prefix(values, k + 1);
    } else {
        assert(values.take(k) =~= values);
    }
}

/// The sizes of a list of entries.
pub open spec fn sizes(entries: Seq<Entry>) -> Seq<u64> {
    Seq::new(entries.len(), |i: int| entries[i].size)
}

/// The sum of a list of numbers that fits the machine word.
pub fn sum(values: &Vec<u64>) -> (r: u64)
    requires
        total(values@) <= u64::MAX,
    ensures
        r == total(values@),
{
    let mut acc: u64 = 0;
    let mut k: usize = 0;
    proof {
        assert(values@.take(0) =~= Seq::<u64>::empty());
    }
    while k < values.len()
        invariant
            k <= values.len(),
            acc == total(values@.take(k as int)),
            total(values@) <= u64::MAX,
        decreases values.len() - k,
    {
        proof {
            assert(values@.take(k + 1).drop_last() =~= values@.take(k as int));
            assert(values@.take(k + 1).last() == values@[k as int]);
            lemma_total_prefix(values@, k + 1);
        }
        acc = acc + values[k];
        k = k + 1;
    }
    proof {
        assert(values@.take(values.len() as int) =~= values@);
    }
    acc
}

/// The sizes of the entries, in order.
pub fn entry_sizes(entries: &[Entry]) -> (r: Vec<u64>)
    ensures
        r@ == sizes(entries@),
{
    let mut out: Vec<u64> = Vec::new();
    let mut k: usize = 0;
    while k < entries.len()
        invariant
            k <= entries.len(),
            out@.len() == k,
            forall|i: int| 0 <= i < k ==> #[trigger] out@[i] == entries@[i].size,
        decreases entries.len() - k,
    {
        out.push(entries[k].size);
        k = k + 1;
    }
    proof {
        assert(out@ =~= sizes(entries@));
    }
    out
}

/// The total size of all entries.
pub fn compute_total_size(entries: &[Entry]) -> (r: u64)
    requires
        total(sizes(entries@)) <= u64::MAX,
    ensures
        r == total(sizes(entries@)),
{
    let values = entry_sizes(entries);
    sum(&values)
}

impl Clone for Entry {
    fn clone(&self) -> (r: Self)
        ensures
            r == *self,
    {
        Entry {
            path: self.path.clone(),
            name: self.name.clone(),
            size: self.size,
            kind: self.kind,
            mtime: self.mtime,
            perms: match &self.perms {
                Some(s) => Some(s.clone()),
                None => None,
            },
            owner: match &self.owner {
                Some(s) => Some(s.clone()),
                None => None,
            },
            depth: self.depth,
        }
    }
}

/// The entries ordered by size, largest first; entries of equal size keep
/// the order of the input.
pub open spec fn by_size(entries: Seq<Entry>) -> Seq<Entry> {
    arranged(entries, ranking(sizes(entries), select_all(entries.len())))
}

/// The `n` largest entries, largest first, or all entries when there are
/// fewer than `n`.
pub fn get_top_by_size(entries: &[Entry], n: usize) -> (r: Vec<Entry>)
    ensures
        by_size(entries@).len() == entries@.len(),
        r@ == by_size(entries@).take(if n <= entries@.len() {
            n as int
        } else {
            entries@.len() as int
        }),
{
    let keys = entry_sizes(entries);
    let mut keep: Vec<bool> = Vec::new();
    let mut k: usize = 0;
    while k < entries.len()
        invariant
            k <= entries.len(),
            keep.len() == k,
            forall|i: int| 0 <= i < k ==> #[trigger] keep[i],
        decreases entries.len() - k,
    {
        keep.push(true);
        k = k + 1;
    }
    proof {
        assert(keep@ =~= select_all(entries@.len()));
        lemma_select_all_count(entries@.len());
    }
    let order = rank_selected(&keys, &keep);
    let limit = if n <= order.len() {
        n
    } else {
        order.len()
    };
    let mut top: Vec<Entry> = Vec::new();
    let mut i: usize = 0;
    while i < limit
        invariant
            i <= limit <= order.len(),
            order@ == ranking(sizes(entries@), select_all(entries@.len())),
            forall|j: int| 0 <= j < order.len() ==> (#[trigger] order[j]) < entries.len(),
            top@.len() == i,
            forall|j: int| 0 <= j < i ==> #[trigger] top@[j] == entries@[order[j] as int],
        decreases limit - i,
    {
        top.push(entries[order[i]].clone());
        i = i + 1;
    }
    proof {
        assert(top@ =~= by_size(entries@).take(limit as int));
    }
    top
}

} // verus!
