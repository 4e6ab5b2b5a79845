//! Predicate evaluation over lines and batches.
//!
//! A line matches when its lowercase form contains, for every condition of
//! the specification, one of the condition's literal encodings. Evaluating
//! a whole batch keeps the matching lines in their original relative order.

use vstd::prelude::*;
use vstd::string::StringSliceAdditionalSpecFns;
use crate::query::{MatchSpecification, CondModel, spec_matches};
use crate::casefold::{lower_of, string_bytes, lower_bytes};
use rayon::iter::{IntoParallelIterator, ParallelIterator};

verus! {

/// The byte-level model of a list of lines.
pub open spec fn lines_bytes(lines: Seq<String>) -> Seq<Seq<u8>> {
    lines.map_values(|s: String| string_bytes(s))
}

/// The lines of a batch that match: those whose lowercase form satisfies
/// every condition, kept in their original relative order.
pub open spec fn matched_lines(conds: Seq<CondModel>, lines: Seq<Seq<u8>>) -> Seq<Seq<u8>> {
    lines.filter(|l: Seq<u8>| spec_matches(conds, lower_of(l)))
}

/// Filtering one more line appends it exactly when it matches.
proof fn lemma_matched_lines_push(conds: Seq<CondModel>, lines: Seq<Seq<u8>>, l: Seq<u8>)
    ensures
        matched_lines(conds, lines.push(l)) == if spec_matches(conds, lower_of(l)) {
            matched_lines(conds, lines).push(l)
        } else {
            matched_lines(conds, lines)
        },
{
    reveal_with_fuel(Seq::<Seq<u8>>::filter, 2);
    assert(lines.push(l).drop_last() =~= lines);
    assert(lines.push(l).last() == l);
}

/// Evaluates the specification against one line: the line is returned
/// exactly when its lowercase form satisfies every condition.
pub fn process_line(line: &str, ms: &MatchSpecification) -> (r: Option<String>)
    requires
        ms.wf(),
    ensures
        match r {
            Some(out) => spec_matches(ms.model(), lower_of(line.spec_bytes())) && out@ == line@,
            None => !spec_matches(ms.model(), lower_of(line.spec_bytes())),
        },
{
    let folded = lower_bytes(line);
    if ms.matches_line(folded.as_slice()) {
        Some(line.to_owned())
    } else {
        None
    }
}

/// Evaluates the specification against every line of a batch, returning the
/// matching lines in their original relative order.
pub fn process_chunk(lines: Vec<String>, ms: &MatchSpecification) -> (r: Vec<String>)
    requires
        ms.wf(),
    ensures
        lines_bytes(r@) == matched_lines(ms.model(), lines_bytes(lines@)),
{
    let n = lines.len();
    let mut out: Vec<String> = Vec::new();
    let mut i: usize = 0;
    while i < n
        invariant
            ms.wf(),
            n == lines@.len(),
            i <= n,
            lines_bytes(out@) == matched_lines(ms.model(), lines_bytes(lines@.take(i as int))),
        decreases n - i,
    {
        let line = &lines[i];
        let ghost prev = lines_bytes(lines@.take(i as int));
        let ghost cur = lines_bytes(lines@.take(i + 1));
        let ghost lb = string_bytes(lines@[i as int]);
        proof {
            assert(cur =~= prev.push(lb));
            lemma_matched_lines_push(ms.model(), prev, lb);
        }
        let ghost old_out = out@;
        match process_line(line.as_str(), ms) {
            Some(m) => {
                proof {
                    assert(string_bytes(m) == lb);
                }
                out.push(m);
                proof {
                    assert(lines_bytes(out@) =~= lines_bytes(old_out).push(lb));
                }
            },
            None => {},
        }
        i = i + 1;
    }
    proof {
        assert(lines@.take(n as int) =~= lines@);
    }
    out
}

/// Evaluates a batch with data parallelism. The result is the same as
/// `process_chunk`'s: correctness does not depend on how the work is split.
///
/// Relies on rayon's `into_par_iter`, `filter_map` and `collect`: the
/// closure (a call of the verified `process_line`) is applied to every
/// line, and the collected results keep the lines' relative order — rayon
/// reduces split results left before right.
#[verifier::external_body]
pub fn process_chunk_parallel(lines: Vec<String>, ms: &MatchSpecification) -> (r: Vec<String>)
    requires
        ms.wf(),
    ensures
        lines_bytes(r@) == matched_lines(ms.model(), lines_bytes(lines@)),
{
    lines.into_par_iter().filter_map(|line| process_line(line.as_str(), ms)).collect()
}

} // verus!
