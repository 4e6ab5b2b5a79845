//! Progress estimation for a long-running scan.
//!
//! The total number of lines in an archive is fixed once at the start of a
//! run: it is the count recorded for the archive's file name when one is
//! known, and otherwise an estimate from the compressed size at a fixed
//! empirical density. Workers then advance a shared counter by one nominal
//! batch size per completed batch. The estimate only drives the display;
//! it never affects which lines match.

use vstd::prelude::*;
use crate::substring::contains_byte;

verus! {

/// One archive with a precomputed line count.
pub struct LineCountEntry {
    /// the archive's file name
    pub name: Vec<u8>,
    /// its exact number of lines
    pub lines: u64,
}

/// The mathematical content of a count table: name/count pairs in order.
pub open spec fn table_model(t: Seq<LineCountEntry>) -> Seq<(Seq<u8>, u64)> {
    t.map_values(|e: LineCountEntry| (e.name@, e.lines))
}

/// The count recorded for `name`: the first entry with that name, if any.
pub open spec fn table_lookup(table: Seq<(Seq<u8>, u64)>, name: Seq<u8>) -> Option<u64>
    decreases table.len(),
{
    if table.len() == 0 {
        None
    } else if table[0].0 == name {
        Some(table[0].1)
    } else {
        table_lookup(table.drop_first(), name)
    }
}

/// Looks up the line count recorded for an archive name.
pub fn lookup_line_count(table: &Vec<LineCountEntry>, name: &[u8]) -> (r: Option<u64>)
    ensures
        r == table_lookup(table_model(table@), name@),
{
    let ghost full = table_model(table@);
    proof {
        assert(full.skip(0) =~= full);
    }
    let n = table.len();
    let mut i: usize = 0;
    while i < n
        invariant
            n == table@.len(),
            i <= n,
            full == table_model(table@),
            table_lookup(full, name@) == table_lookup(full.skip(i as int), name@),
        decreases n - i,
    {
        proof {
            assert(full.skip(i as int)[0] == full[i as int]);
            assert(full.skip(i as int).drop_first() =~= full.skip(i + 1));
        }
        if crate::substring::bytes_eq(table[i].name.as_slice(), name) {
            return Some(table[i].lines);
        }
        i = i + 1;
    }
    proof {
        assert(full.skip(n as int) =~= Seq::<(Seq<u8>, u64)>::empty());
    }
    None
}

/// The file name within a path: everything after the last `/`, the whole
/// path when it has none.
pub open spec fn file_name_of(path: Seq<u8>) -> Seq<u8>
    decreases path.len(),
{
    if path.len() == 0 {
        Seq::empty()
    } else if path.last() == '/' as u8 {
        Seq::empty()
    } else {
        file_name_of(path.drop_last()).push(path.last())
    }
}

/// Below a `/` with nothing but non-separator bytes after it, the file name
/// is exactly that suffix.
proof fn lemma_file_name_suffix(path: Seq<u8>, i: int)
    requires
        0 <= i < path.len(),
        path[i] == '/' as u8,
        forall|k: int| i < k < path.len() ==> path[k] != '/' as u8,
    ensures
        file_name_of(path) == path.skip(i + 1),
    decreases path.len(),
{
    if i == path.len() - 1 {
        assert(file_name_of(path) =~= path.skip(i + 1));
    } else {
        lemma_file_name_suffix(path.drop_last(), i);
        assert(file_name_of(path) =~= path.drop_last().skip(i + 1).push(path.last()));
        assert(path.drop_last().skip(i + 1).push(path.last()) =~= path.skip(i + 1));
    }
}

/// Without a separator the file name is the whole path.
proof fn lemma_file_name_whole(path: Seq<u8>)
    requires
        forall|k: int| 0 <= k < path.len() ==> path[k] != '/' as u8,
    ensures
        file_name_of(path) == path,
    decreases path.len(),
{
    if path.len() > 0 {
        lemma_file_name_whole(path.drop_last());
        assert(file_name_of(path) =~= path);
    } else {
        assert(file_name_of(path) =~= path);
    }
}

/// Extracts the archive's file name from its path.
pub fn file_name_bytes(path: &[u8]) -> (r: Vec<u8>)
    ensures
        r@ == file_name_of(path@),
{
    let n = path.len();
    let mut j = n;
    while j > 0
        invariant
            j <= n == path@.len(),
            forall|k: int| j <= k < n ==> path@[k] != '/' as u8,
        decreases j,
    {
        if path[j - 1] == '/' as u8 {
            let r = vstd::slice::slice_to_vec(vstd::slice::slice_subrange(path, j, n));
            proof {
                lemma_file_name_suffix(path@, j - 1);
            }
            return r;
        }
        j = j - 1;
    }
    proof {
        lemma_file_name_whole(path@);
        assert(path@.subrange(0, n as int) =~= path@);
    }
    vstd::slice::slice_to_vec(path)
}

/// The density fallback: about ten million lines per gigabyte of
/// compressed input, that is one line per hundred bytes.
pub open spec fn estimated_from_size(size: u64) -> u64 {
    (size / 100) as u64
}

/// The fixed total a run displays progress against: the recorded count of
/// the archive when the table has a positive one, the size-based estimate
/// otherwise.
pub open spec fn spec_estimate(table: Seq<(Seq<u8>, u64)>, name: Seq<u8>, size: u64) -> u64 {
    match table_lookup(table, name) {
        Some(c) => if c > 0 {
            c
        } else {
            estimated_from_size(size)
        },
        None => estimated_from_size(size),
    }
}

/// Fixes the estimated total for a run from the archive's file name and
/// compressed size.
pub fn estimate_total_lines(table: &Vec<LineCountEntry>, name: &[u8], size: u64) -> (r: u64)
    ensures
        r == spec_estimate(table_model(table@), name@, size),
{
    match lookup_line_count(table, name) {
        Some(c) => {
            if c > 0 {
                c
            } else {
                size / 100
            }
        },
        None => size / 100,
    }
}

/// Shared progress of a run: lines processed so far, against a total that
/// is fixed once at the start and never recomputed.
pub struct ProgressState {
    /// lines processed so far, counted in nominal batch sizes
    pub processed: u64,
    /// the fixed estimated total
    pub estimated_total: u64,
}

impl ProgressState {
    /// A fresh run: nothing processed yet.
    pub fn new(estimated_total: u64) -> (r: ProgressState)
        ensures
            r.processed == 0,
            r.estimated_total == estimated_total,
    {
        ProgressState { processed: 0, estimated_total }
    }

    /// Advances the processed counter by one batch's nominal size. The
    /// counter is monotone and saturates instead of wrapping.
    pub fn advance(&mut self, n: u64)
        ensures
            final(self).estimated_total == old(self).estimated_total,
            final(self).processed == if old(self).processed + n <= u64::MAX {
                old(self).processed + n
            } else {
                u64::MAX as int
            },
    {
        self.processed = self.processed.saturating_add(n);
    }

    /// The processed counter and the fixed total, in that order.
    pub fn snapshot(&self) -> (r: (u64, u64))
        ensures
            r.0 == self.processed,
            r.1 == self.estimated_total,
    {
        (self.processed, self.estimated_total)
    }
}

} // verus!
