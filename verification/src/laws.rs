//! The library's guarantees, stated and proved in one place.
//!
//! Each proof function here records one promise the pipeline makes: how
//! conditions combine, how same-key entries fold, how values are quoted,
//! and that splitting work into batches never changes the result.

use vstd::prelude::*;
use crate::query::{
    CondModel, spec_matches, cond_matches, value_present, fold_entries, fold_entry,
    cond_key_index, is_i64_literal, true_bytes, false_bytes, null_bytes, is_unquoted_value,
    tight_encoding, spaced_encoding, quoted,
};
use crate::line_processing::matched_lines;
use crate::casefold::lower_of;

verus! {

/// A specification with conditions `A` and `B` matches a line exactly when
/// the line satisfies `A` and satisfies `B`: conjunction across fields,
/// disjunction only within one field's values.
pub proof fn lemma_two_conditions_conjunction(a: CondModel, b: CondModel, line: Seq<u8>)
    ensures
        spec_matches(seq![a, b], line) == (cond_matches(a, line) && cond_matches(b, line)),
{
    let conds = seq![a, b];
    if cond_matches(a, line) && cond_matches(b, line) {
        assert forall|j: int| 0 <= j < conds.len() implies cond_matches(
            #[trigger] conds[j],
            line,
        ) by {
            if j == 0 {
                assert(conds[0] == a);
            } else {
                assert(conds[1] == b);
            }
        }
    }
    if spec_matches(conds, line) {
        assert(cond_matches(conds[0], line));
        assert(cond_matches(conds[1], line));
    }
}

/// Two raw entries with the same key fold into a single condition carrying
/// both values, and a line in which either value is present — not
/// necessarily both — matches that specification.
pub proof fn lemma_same_key_fold(key: Seq<u8>, v1: Seq<u8>, v2: Seq<u8>, line: Seq<u8>)
    ensures
        fold_entries(seq![(key, v1), (key, v2)]) == seq![
            CondModel { key: key, values: seq![v1, v2] },
        ],
        (value_present(key, v1, line) || value_present(key, v2, line)) ==> spec_matches(
            fold_entries(seq![(key, v1), (key, v2)]),
            line,
        ),
{
    let pairs = seq![(key, v1), (key, v2)];
    let one = seq![(key, v1)];
    assert(pairs.drop_last() =~= one);
    assert(one.drop_last() =~= Seq::<(Seq<u8>, Seq<u8>)>::empty());
    assert(fold_entries(Seq::<(Seq<u8>, Seq<u8>)>::empty()) =~= Seq::<CondModel>::empty());
    let c1 = CondModel { key: key, values: seq![v1] };
    assert(cond_key_index(Seq::<CondModel>::empty(), key) == -1);
    assert(fold_entries(one) =~= seq![c1]);
    assert(cond_key_index(seq![c1], key) == 0);
    let c12 = CondModel { key: key, values: seq![v1, v2] };
    assert(c1.values.push(v2) =~= seq![v1, v2]);
    assert(fold_entries(pairs) =~= seq![c12]);
    let folded = fold_entries(pairs);
    if value_present(key, v1, line) || value_present(key, v2, line) {
        if value_present(key, v1, line) {
            assert(c12.values[0] == v1);
            assert(cond_matches(c12, line));
        } else {
            assert(c12.values[1] == v2);
            assert(cond_matches(c12, line));
        }
        assert forall|j: int| 0 <= j < folded.len() implies cond_matches(
            #[trigger] folded[j],
            line,
        ) by {
            assert(folded[j] == c12);
        }
    }
}

/// Integer, boolean and null values never receive quote-wrapped literals;
/// every other value always does: both literal forms end in the bare value
/// in the first case and in the quoted value in the second.
pub proof fn lemma_value_quoting(key: Seq<u8>, v: Seq<u8>)
    ensures
        (is_i64_literal(v) || v == true_bytes() || v == false_bytes() || v == null_bytes())
            ==> tight_encoding(key, v) == seq!['"' as u8] + key + seq!['"' as u8, ':' as u8] + v
            && spaced_encoding(key, v) == seq!['"' as u8] + key + seq![
            '"' as u8,
            ':' as u8,
            ' ' as u8,
        ] + v,
        !(is_i64_literal(v) || v == true_bytes() || v == false_bytes() || v == null_bytes())
            ==> tight_encoding(key, v) == seq!['"' as u8] + key + seq!['"' as u8, ':' as u8]
            + quoted(v) && spaced_encoding(key, v) == seq!['"' as u8] + key + seq![
            '"' as u8,
            ':' as u8,
            ' ' as u8,
        ] + quoted(v),
{
    assert(is_unquoted_value(v) == (is_i64_literal(v) || v == true_bytes() || v == false_bytes()
        || v == null_bytes()));
}

/// An empty input has no matches.
pub proof fn lemma_empty_input_no_matches(conds: Seq<CondModel>)
    ensures
        matched_lines(conds, Seq::<Seq<u8>>::empty()) == Seq::<Seq<u8>>::empty(),
{
    reveal_with_fuel(Seq::<Seq<u8>>::filter, 1);
}

/// How the lines are split into batches never changes the result: matching
/// every batch and concatenating the results, in batch order, gives exactly
/// the matches of the whole stream. Batch size, channel capacity and worker
/// count therefore affect throughput only, never which lines come out.
pub proof fn lemma_chunked_matching_complete(conds: Seq<CondModel>, batches: Seq<Seq<Seq<u8>>>)
    ensures
        batches.map_values(|b: Seq<Seq<u8>>| matched_lines(conds, b)).flatten() == matched_lines(
            conds,
            batches.flatten(),
        ),
    decreases batches.len(),
{
    let f = |b: Seq<Seq<u8>>| matched_lines(conds, b);
    if batches.len() == 0 {
        assert(batches.map_values(f).flatten() =~= Seq::<Seq<u8>>::empty());
        lemma_empty_input_no_matches(conds);
        assert(batches.flatten() =~= Seq::<Seq<u8>>::empty());
    } else {
        let first = batches.first();
        let rest = batches.drop_first();
        lemma_chunked_matching_complete(conds, rest);
        assert(batches.flatten() == first + rest.flatten());
        Seq::<Seq<u8>>::filter_distributes_over_add(
            first,
            rest.flatten(),
            |l: Seq<u8>| spec_matches(conds, lower_of(l)),
        );
        let mapped = batches.map_values(f);
        assert(mapped.drop_first() =~= rest.map_values(f));
        assert(mapped.flatten() == mapped.first() + mapped.drop_first().flatten());
        assert(mapped.first() == f(first));
        assert(mapped.flatten() =~= matched_lines(conds, batches.flatten()));
    }
}

} // verus!
