//! Grouping the line stream into batches.
//!
//! The reader thread pushes decoded lines one at a time; a full batch is
//! handed over as soon as the configured size is reached, and a final,
//! possibly undersized batch is handed over at end of stream. An empty
//! stream yields no batch at all. Chunking is lossless and order-preserving:
//! concatenating the batches gives back the lines in their original order.

use vstd::prelude::*;
use crate::line_processing::lines_bytes;

verus! {

/// The byte-level model of a list of batches.
pub open spec fn batches_bytes(batches: Seq<Vec<String>>) -> Seq<Seq<Seq<u8>>> {
    batches.map_values(|b: Vec<String>| lines_bytes(b@))
}

/// Groups a line stream into batches of a fixed maximum size.
pub struct Chunker {
    /// lines waiting for the next batch
    pub buffer: Vec<String>,
    /// the configured maximum batch size
    pub capacity: usize,
}

impl Chunker {
    /// The size is positive and the buffer is never full between calls.
    pub open spec fn wf(&self) -> bool {
        1 <= self.capacity && self.buffer@.len() < self.capacity
    }

    /// An empty chunker for batches of `capacity` lines.
    pub fn new(capacity: usize) -> (r: Chunker)
        requires
            1 <= capacity,
        ensures
            r.wf(),
            r.capacity == capacity,
            r.buffer@.len() == 0,
    {
        Chunker { buffer: Vec::new(), capacity }
    }

    /// Accepts the next line of the stream; returns the batch that the line
    /// completes, if it completes one.
    pub fn push(&mut self, line: String) -> (r: Option<Vec<String>>)
        requires
            old(self).wf(),
        ensures
            final(self).wf(),
            final(self).capacity == old(self).capacity,
            match r {
                Some(batch) => {
                    &&& batch@ == old(self).buffer@.push(line)
                    &&& batch@.len() == final(self).capacity
                    &&& final(self).buffer@.len() == 0
                },
                None => final(self).buffer@ == old(self).buffer@.push(line),
            },
    {
        self.buffer.push(line);
        if self.buffer.len() == self.capacity {
            let mut batch: Vec<String> = Vec::new();
            core::mem::swap(&mut batch, &mut self.buffer);
            Some(batch)
        } else {
            None
        }
    }

    /// Hands over the final, possibly undersized batch at end of stream;
    /// nothing when the stream ended exactly on a batch boundary.
    pub fn finish(self) -> (r: Option<Vec<String>>)
        requires
            self.wf(),
        ensures
            match r {
                Some(batch) => batch@ == self.buffer@ && 0 < batch@.len() < self.capacity,
                None => self.buffer@.len() == 0,
            },
    {
        if self.buffer.len() == 0 {
            None
        } else {
            Some(self.buffer)
        }
    }
}

/// Groups all lines into batches at once: every batch but the last has
/// exactly `size` lines and the last is non-empty and no larger;
/// concatenating the batches gives back the lines in their original order;
/// an empty input yields no batches.
pub fn chunk_all(lines: &Vec<String>, size: usize) -> (r: Vec<Vec<String>>)
    requires
        1 <= size,
    ensures
        batches_bytes(r@).flatten() == lines_bytes(lines@),
        forall|i: int| 0 <= i < r@.len() ==> 0 < (#[trigger] r@[i])@.len() <= size,
        forall|i: int| 0 <= i < r@.len() - 1 ==> (#[trigger] r@[i])@.len() == size,
        lines@.len() == 0 ==> r@.len() == 0,
{
    let n = lines.len();
    let mut chunker = Chunker::new(size);
    let mut batches: Vec<Vec<String>> = Vec::new();
    let mut i: usize = 0;
    while i < n
        invariant
            chunker.wf(),
            chunker.capacity == size,
            n == lines@.len(),
            i <= n,
            batches_bytes(batches@).flatten() + lines_bytes(chunker.buffer@) == lines_bytes(
                lines@.take(i as int),
            ),
            forall|k: int| 0 <= k < batches@.len() ==> (#[trigger] batches@[k])@.len() == size,
            chunker.buffer@.len() <= i,
        decreases n - i,
    {
        let line = (&lines[i]).clone();
        let ghost old_buffer = chunker.buffer@;
        let ghost old_batches = batches@;
        proof {
            assert(lines_bytes(lines@.take(i + 1)) =~= lines_bytes(lines@.take(i as int)).push(
                lines_bytes(lines@)[i as int],
            ));
            assert(lines_bytes(old_buffer.push(line)) =~= lines_bytes(old_buffer).push(
                lines_bytes(lines@)[i as int],
            ));
        }
        match chunker.push(line) {
            Some(batch) => {
                batches.push(batch);
                proof {
                    assert(batches_bytes(batches@) =~= batches_bytes(old_batches).push(
                        lines_bytes(old_buffer.push(line)),
                    ));
                    batches_bytes(old_batches).lemma_flatten_push(
                        lines_bytes(old_buffer.push(line)),
                    );
                    assert(batches_bytes(batches@).flatten() + lines_bytes(chunker.buffer@)
                        =~= lines_bytes(lines@.take(i + 1)));
                }
            },
            None => {
                proof {
                    assert(batches_bytes(batches@).flatten() + lines_bytes(chunker.buffer@)
                        =~= lines_bytes(lines@.take(i + 1)));
                }
            },
        }
        i = i + 1;
    }
    proof {
        assert(lines@.take(n as int) =~= lines@);
    }
    let ghost old_batches = batches@;
    let ghost last_buffer = chunker.buffer@;
    match chunker.finish() {
        Some(batch) => {
            batches.push(batch);
            proof {
                assert(batches_bytes(batches@) =~= batches_bytes(old_batches).push(
                    lines_bytes(last_buffer),
                ));
                batches_bytes(old_batches).lemma_flatten_push(lines_bytes(last_buffer));
                assert(batches_bytes(batches@).flatten() =~= lines_bytes(lines@));
            }
        },
        None => {
            proof {
                assert(lines_bytes(last_buffer) =~= Seq::<Seq<u8>>::empty());
                assert(batches_bytes(batches@).flatten() + lines_bytes(last_buffer)
                    =~= batches_bytes(batches@).flatten());
            }
        },
    }
    batches
}

} // verus!
