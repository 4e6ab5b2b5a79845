//! Compiled match specifications.
//!
//! A raw query is a list of `field:value` entries. Compilation folds the
//! entries that share a key into one condition, classifies each value, and
//! precomputes the literal byte forms under which the value can appear in a
//! serialized record: unquoted for numeric, boolean and null values, quoted
//! for everything else, each in a tight (`"k":v`) and a spaced (`"k": v`)
//! variant. A line satisfies a condition when it contains one of these
//! literal forms for one of the condition's values; it matches the whole
//! specification when it satisfies every condition.

use vstd::prelude::*;
use crate::substring::{
    is_substring_of, contains_subslice, contains_byte, first_index_of, find_byte, bytes_eq,
};
use crate::casefold::{lower_of, string_bytes, lower_bytes};
use vstd::slice::{slice_to_vec, slice_subrange};

verus! {

// ---------------------------------------------------------------------------
// Value classification
// ---------------------------------------------------------------------------

pub open spec fn is_digit(b: u8) -> bool {
    ('0' as u8) <= b <= ('9' as u8)
}

pub open spec fn all_digits(s: Seq<u8>) -> bool {
    forall|i: int| 0 <= i < s.len() ==> is_digit(#[trigger] s[i])
}

/// Numeric value of a run of decimal digit bytes.
pub open spec fn digits_value(s: Seq<u8>) -> nat
    decreases s.len(),
{
    if s.len() == 0 {
        0
    } else {
        (digits_value(s.drop_last()) * 10 + (s.last() - ('0' as u8))) as nat
    }
}

/// The digit part of a signed decimal literal: everything after an optional
/// leading sign.
pub open spec fn signed_digits(v: Seq<u8>) -> Seq<u8> {
    if v.len() > 0 && (v[0] == ('+' as u8) || v[0] == ('-' as u8)) {
        v.drop_first()
    } else {
        v
    }
}

/// The largest magnitude the digits may denote, depending on the sign.
pub open spec fn signed_bound(v: Seq<u8>) -> nat {
    if v.len() > 0 && v[0] == ('-' as u8) {
        0x8000_0000_0000_0000
    } else {
        0x7fff_ffff_ffff_ffff
    }
}

/// `v` is a decimal literal that parses as an `i64`: an optional sign,
/// then at least one digit, with the magnitude in range.
pub open spec fn is_i64_literal(v: Seq<u8>) -> bool {
    signed_digits(v).len() > 0 && all_digits(signed_digits(v)) && digits_value(signed_digits(v))
        <= signed_bound(v)
}

pub open spec fn true_bytes() -> Seq<u8> {
    seq![('t' as u8), ('r' as u8), ('u' as u8), ('e' as u8)]
}

pub open spec fn false_bytes() -> Seq<u8> {
    seq![('f' as u8), ('a' as u8), ('l' as u8), ('s' as u8), ('e' as u8)]
}

pub open spec fn null_bytes() -> Seq<u8> {
    seq![('n' as u8), ('u' as u8), ('l' as u8), ('l' as u8)]
}

/// Values serialized without quotes: integers, booleans and null.
pub open spec fn is_unquoted_value(v: Seq<u8>) -> bool {
    is_i64_literal(v) || v == true_bytes() || v == false_bytes() || v == null_bytes()
}

/// Decides whether `v` parses as an `i64`.
fn is_i64_value(v: &[u8]) -> (r: bool)
    ensures
        r == is_i64_literal(v@),
{
    let n = v.len();
    let start: usize = if n > 0 && (v[0] == ('+' as u8) || v[0] == ('-' as u8)) {
        1
    } else {
        0
    };
    let negative = n > 0 && v[0] == ('-' as u8);
    proof {
        assert(signed_digits(v@) =~= v@.subrange(start as int, n as int));
    }
    if start == n {
        return false;
    }
    let mut acc: u64 = 0;
    let mut overflowed = false;
    let mut i = start;
    while i < n
        invariant
            start <= i <= n,
            n == v@.len(),
            signed_digits(v@) == v@.subrange(start as int, n as int),
            all_digits(v@.subrange(start as int, i as int)),
            overflowed ==> digits_value(v@.subrange(start as int, i as int)) > u64::MAX,
            !overflowed ==> acc == digits_value(v@.subrange(start as int, i as int)),
        decreases n - i,
    {
        let b = v[i];
        if !(('0' as u8) <= b && b <= ('9' as u8)) {
            proof {
                assert(signed_digits(v@)[i - start] == v@[i as int]);
            }
            return false;
        }
        let d = (b - ('0' as u8)) as u64;
        proof {
            let pre = v@.subrange(start as int, i as int);
            let post = v@.subrange(start as int, i as int + 1);
            assert(post.drop_last() =~= pre);
            assert(post.last() == v@[i as int]);
            assert(digits_value(post) == digits_value(pre) * 10 + d);
        }
        if !overflowed {
            match acc.checked_mul(10) {
                Some(m) => {
                    match m.checked_add(d) {
                        Some(s) => {
                            acc = s;
                        },
                        None => {
                            overflowed = true;
                        },
                    }
                },
                None => {
                    overflowed = true;
                },
            }
        }
        i = i + 1;
    }
    proof {
        assert(v@.subrange(start as int, n as int) == signed_digits(v@));
    }
    if overflowed {
        return false;
    }
    let bound: u64 = if negative {
        9223372036854775808
    } else {
        9223372036854775807
    };
    acc <= bound
}

/// Decides whether `v` is serialized without quotes.
fn is_unquoted(v: &[u8]) -> (r: bool)
    ensures
        r == is_unquoted_value(v@),
{
    if is_i64_value(v) {
        return true;
    }
    if v.len() == 4 && v[0] == ('t' as u8) && v[1] == ('r' as u8) && v[2] == ('u' as u8) && v[3] == ('e' as u8) {
        proof {
            assert(v@ =~= true_bytes());
        }
        return true;
    }
    if v.len() == 5 && v[0] == ('f' as u8) && v[1] == ('a' as u8) && v[2] == ('l' as u8) && v[3] == ('s' as u8) && v[4]
        == ('e' as u8) {
        proof {
            assert(v@ =~= false_bytes());
        }
        return true;
    }
    if v.len() == 4 && v[0] == ('n' as u8) && v[1] == ('u' as u8) && v[2] == ('l' as u8) && v[3] == ('l' as u8) {
        proof {
            assert(v@ =~= null_bytes());
        }
        return true;
    }
    proof {
        assert(v@ != true_bytes());
        assert(v@ != false_bytes());
        assert(v@ != null_bytes());
    }
    false
}

// ---------------------------------------------------------------------------
// Literal encodings
// ---------------------------------------------------------------------------

/// `v` wrapped in double quotes.
pub open spec fn quoted(v: Seq<u8>) -> Seq<u8> {
    seq![('"' as u8)] + v + seq![('"' as u8)]
}

/// How a value is rendered in a record: bare for numeric, boolean and null
/// values, quoted for everything else.
pub open spec fn rendered_value(v: Seq<u8>) -> Seq<u8> {
    if is_unquoted_value(v) {
        v
    } else {
        quoted(v)
    }
}

/// The `"key":value` form, with no space after the colon.
pub open spec fn tight_encoding(key: Seq<u8>, v: Seq<u8>) -> Seq<u8> {
    seq![('"' as u8)] + key + seq![('"' as u8), (':' as u8)] + rendered_value(v)
}

/// The `"key": value` form, with one space after the colon.
pub open spec fn spaced_encoding(key: Seq<u8>, v: Seq<u8>) -> Seq<u8> {
    seq![('"' as u8)] + key + seq![('"' as u8), (':' as u8), (' ' as u8)] + rendered_value(v)
}

/// One acceptable value of a condition, with its precomputed literal forms.
pub struct ValueEncoding {
    /// the folded value itself
    pub value: Vec<u8>,
    /// the `"key":value` form
    pub tight: Vec<u8>,
    /// the `"key": value` form
    pub spaced: Vec<u8>,
}

impl ValueEncoding {
    /// The precomputed forms are exactly the two encodings of `value`
    /// under `key`.
    pub open spec fn wf_for(&self, key: Seq<u8>) -> bool {
        &&& self.tight@ == tight_encoding(key, self.value@)
        &&& self.spaced@ == spaced_encoding(key, self.value@)
    }

    /// Precomputes both literal forms of `value` under `key`.
    pub fn new(key: &Vec<u8>, value: Vec<u8>) -> (r: ValueEncoding)
        ensures
            r.value@ == value@,
            r.wf_for(key@),
    {
        let unq = is_unquoted(value.as_slice());
        let mut tight: Vec<u8> = Vec::new();
        tight.push(('"' as u8));
        tight.extend_from_slice(key.as_slice());
        tight.push(('"' as u8));
        tight.push((':' as u8));
        let mut spaced: Vec<u8> = Vec::new();
        spaced.push(('"' as u8));
        spaced.extend_from_slice(key.as_slice());
        spaced.push(('"' as u8));
        spaced.push((':' as u8));
        spaced.push((' ' as u8));
        if !unq {
            tight.push(('"' as u8));
            spaced.push(('"' as u8));
        }
        tight.extend_from_slice(value.as_slice());
        spaced.extend_from_slice(value.as_slice());
        if !unq {
            tight.push(('"' as u8));
            spaced.push(('"' as u8));
        }
        let r = ValueEncoding { value, tight, spaced };
        proof {
            assert(r.tight@ =~= tight_encoding(key@, r.value@));
            assert(r.spaced@ =~= spaced_encoding(key@, r.value@));
        }
        r
    }
}

// ---------------------------------------------------------------------------
// Conditions and the match relation
// ---------------------------------------------------------------------------

/// The mathematical content of one condition: a key and the values
/// acceptable for it.
#[verifier::ext_equal]
pub ghost struct CondModel {
    pub key: Seq<u8>,
    pub values: Seq<Seq<u8>>,
}

/// `value` appears under `key` somewhere in `line`, in either literal form.
pub open spec fn value_present(key: Seq<u8>, value: Seq<u8>, line: Seq<u8>) -> bool {
    ||| is_substring_of(tight_encoding(key, value), line)
    ||| is_substring_of(spaced_encoding(key, value), line)
}

/// `line` satisfies the condition: at least one acceptable value is present.
pub open spec fn cond_matches(c: CondModel, line: Seq<u8>) -> bool {
    exists|i: int| 0 <= i < c.values.len() && value_present(c.key, #[trigger] c.values[i], line)
}

/// `line` matches the specification: every condition is satisfied.
pub open spec fn spec_matches(conds: Seq<CondModel>, line: Seq<u8>) -> bool {
    forall|j: int| 0 <= j < conds.len() ==> cond_matches(#[trigger] conds[j], line)
}

/// One field with one or more acceptable values, OR-combined.
pub struct FieldCondition {
    pub key: Vec<u8>,
    pub values: Vec<ValueEncoding>,
}

impl FieldCondition {
    /// There is at least one value, and every precomputed literal form
    /// belongs to this condition's key and value.
    pub open spec fn wf(&self) -> bool {
        &&& self.values@.len() > 0
        &&& forall|i: int|
            0 <= i < self.values@.len() ==> (#[trigger] self.values@[i]).wf_for(self.key@)
    }

    pub open spec fn model(&self) -> CondModel {
        CondModel {
            key: self.key@,
            values: self.values@.map_values(|ve: ValueEncoding| ve.value@),
        }
    }

    /// Scans `line` for one of the condition's literal forms.
    pub fn matches_line(&self, line: &[u8]) -> (r: bool)
        requires
            self.wf(),
        ensures
            r == cond_matches(self.model(), line@),
    {
        let n = self.values.len();
        let mut i: usize = 0;
        while i < n
            invariant
                self.wf(),
                n == self.values@.len(),
                i <= n,
                forall|k: int|
                    0 <= k < i ==> !value_present(
                        self.model().key,
                        #[trigger] self.model().values[k],
                        line@,
                    ),
            decreases n - i,
        {
            let ve = &self.values[i];
            if contains_subslice(line, ve.tight.as_slice()) || contains_subslice(
                line,
                ve.spaced.as_slice(),
            ) {
                assert(value_present(self.model().key, self.model().values[i as int], line@));
                return true;
            }
            i = i + 1;
        }
        false
    }
}

/// The full compiled query: distinct conditions, AND-combined.
pub struct MatchSpecification {
    pub conditions: Vec<FieldCondition>,
}

impl MatchSpecification {
    /// Every condition is well formed and no two share a key.
    pub open spec fn wf(&self) -> bool {
        &&& forall|i: int| 0 <= i < self.conditions@.len() ==> (#[trigger] self.conditions@[i]).wf()
        &&& forall|i: int, j: int|
            0 <= i < j < self.conditions@.len() ==> self.conditions@[i].key@
                != self.conditions@[j].key@
    }

    pub open spec fn model(&self) -> Seq<CondModel> {
        self.conditions@.map_values(|c: FieldCondition| c.model())
    }

    /// Decides whether `line` (already case-folded) matches: every condition
    /// must have one of its literal forms present.
    pub fn matches_line(&self, line: &[u8]) -> (r: bool)
        requires
            self.wf(),
        ensures
            r == spec_matches(self.model(), line@),
    {
        let n = self.conditions.len();
        let mut j: usize = 0;
        while j < n
            invariant
                self.wf(),
                n == self.conditions@.len(),
                j <= n,
                forall|k: int| 0 <= k < j ==> cond_matches(#[trigger] self.model()[k], line@),
            decreases n - j,
        {
            let c = &self.conditions[j];
            if !c.matches_line(line) {
                assert(self.model()[j as int] == c.model());
                assert(!spec_matches(self.model(), line@));
                return false;
            }
            j = j + 1;
        }
        true
    }
}

// ---------------------------------------------------------------------------
// Compilation
// ---------------------------------------------------------------------------

/// A query that cannot be compiled; fatal, raised before any input is read.
#[derive(Clone, Copy, Debug, PartialEq, Eq, Structural)]
pub enum ConfigurationError {
    /// The entry at this position has no `:` separator.
    MalformedQuery(usize),
    /// No query entries were supplied.
    EmptyQuery,
}

/// Index of the first condition with this key; `-1` when no condition has it.
pub open spec fn cond_key_index(conds: Seq<CondModel>, key: Seq<u8>) -> int
    decreases conds.len(),
{
    if conds.len() == 0 {
        -1
    } else if conds[0].key == key {
        0
    } else {
        let r = cond_key_index(conds.drop_first(), key);
        if r < 0 {
            -1
        } else {
            1 + r
        }
    }
}

/// What `cond_key_index` returns: the position of the first condition with
/// the key, or `-1` when no condition has it.
pub proof fn lemma_cond_key_index(conds: Seq<CondModel>, key: Seq<u8>)
    ensures
        -1 <= cond_key_index(conds, key) < conds.len(),
        cond_key_index(conds, key) >= 0 ==> conds[cond_key_index(conds, key)].key == key,
        forall|k: int|
            0 <= k < conds.len() && (cond_key_index(conds, key) < 0 || k < cond_key_index(
                conds,
                key,
            )) ==> (#[trigger] conds[k]).key != key,
    decreases conds.len(),
{
    if conds.len() > 0 && conds[0].key != key {
        let rest = conds.drop_first();
        lemma_cond_key_index(rest, key);
        let ri = cond_key_index(rest, key);
        assert forall|k: int|
            1 <= k < conds.len() && (ri < 0 || k < 1 + ri) implies (#[trigger] conds[k]).key
            != key by {
            assert(rest[k - 1] == conds[k]);
        }
    }
}

/// One folding step: the value joins the condition that already has the key,
/// or opens a new condition at the end.
pub open spec fn fold_entry(conds: Seq<CondModel>, key: Seq<u8>, value: Seq<u8>) -> Seq<CondModel> {
    let j = cond_key_index(conds, key);
    if j >= 0 {
        conds.update(j, CondModel { key: conds[j].key, values: conds[j].values.push(value) })
    } else {
        conds.push(CondModel { key: key, values: seq![value] })
    }
}

/// The conditions obtained from a list of key/value pairs, in order of first
/// appearance of each key, same-key pairs folded into one condition.
pub open spec fn fold_entries(pairs: Seq<(Seq<u8>, Seq<u8>)>) -> Seq<CondModel>
    decreases pairs.len(),
{
    if pairs.len() == 0 {
        Seq::empty()
    } else {
        fold_entry(fold_entries(pairs.drop_last()), pairs.last().0, pairs.last().1)
    }
}

/// The key of a folded entry: everything before the first colon.
pub open spec fn entry_key(le: Seq<u8>) -> Seq<u8> {
    le.take(first_index_of(le, ':' as u8))
}

/// The value of a folded entry: everything after the first colon.
pub open spec fn entry_value(le: Seq<u8>) -> Seq<u8> {
    le.skip(first_index_of(le, ':' as u8) + 1)
}

/// An entry can be split: its lowercase form has a colon.
pub open spec fn entry_well_formed(raw: Seq<u8>) -> bool {
    contains_byte(lower_of(raw), ':' as u8)
}

/// The key/value pair of one raw entry: its lowercase form, split at the
/// first colon.
pub open spec fn entry_pair(raw: Seq<u8>) -> (Seq<u8>, Seq<u8>) {
    (entry_key(lower_of(raw)), entry_value(lower_of(raw)))
}

/// The conditions a list of raw entries compiles to.
pub open spec fn compiled_conditions(raws: Seq<Seq<u8>>) -> Seq<CondModel> {
    fold_entries(raws.map_values(|r: Seq<u8>| entry_pair(r)))
}

/// Finds the first condition whose key is `key`.
fn find_condition(conds: &Vec<FieldCondition>, key: &Vec<u8>) -> (r: Option<usize>)
    ensures
        match r {
            Some(j) => j == cond_key_index(
                conds@.map_values(|c: FieldCondition| c.model()),
                key@,
            ) && j < conds@.len(),
            None => cond_key_index(conds@.map_values(|c: FieldCondition| c.model()), key@) == -1,
        },
{
    let ghost models = conds@.map_values(|c: FieldCondition| c.model());
    let n = conds.len();
    let mut j: usize = 0;
    while j < n
        invariant
            n == conds@.len(),
            j <= n,
            models == conds@.map_values(|c: FieldCondition| c.model()),
            forall|k: int| 0 <= k < j ==> (#[trigger] models[k]).key != key@,
        decreases n - j,
    {
        if bytes_eq(conds[j].key.as_slice(), key.as_slice()) {
            proof {
                lemma_cond_key_index(models, key@);
                let ci = cond_key_index(models, key@);
                if ci < 0 || ci > j {
                    assert(models[j as int].key != key@);
                } else if ci < j {
                    assert(models[ci].key == key@);
                }
            }
            return Some(j);
        }
        j = j + 1;
    }
    proof {
        lemma_cond_key_index(models, key@);
        let ci = cond_key_index(models, key@);
        if ci >= 0 {
            assert(models[ci].key == key@);
        }
    }
    None
}

/// Compiles raw `field:value` entries into a match specification.
///
/// Each entry is folded to lowercase and split at its first colon; entries
/// sharing a key are folded into one condition; each value's literal forms
/// are precomputed. An entry without a colon is a `MalformedQuery` error;
/// an empty list is an `EmptyQuery` error.
pub fn compile(entries: &Vec<String>) -> (r: Result<MatchSpecification, ConfigurationError>)
    ensures
        match r {
            Ok(s) => {
                &&& entries@.len() > 0
                &&& forall|k: int|
                    0 <= k < entries@.len() ==> entry_well_formed(
                        string_bytes(#[trigger] entries@[k]),
                    )
                &&& s.wf()
                &&& s.model() == compiled_conditions(
                    entries@.map_values(|e: String| string_bytes(e)),
                )
            },
            Err(ConfigurationError::EmptyQuery) => entries@.len() == 0,
            Err(ConfigurationError::MalformedQuery(i)) => {
                &&& 0 <= i < entries@.len()
                &&& !entry_well_formed(string_bytes(entries@[i as int]))
                &&& forall|k: int|
                    0 <= k < i ==> entry_well_formed(string_bytes(#[trigger] entries@[k]))
            },
        },
{
    let n = entries.len();
    if n == 0 {
        return Err(ConfigurationError::EmptyQuery);
    }
    let ghost raws = entries@.map_values(|e: String| string_bytes(e));
    let ghost pairs = raws.map_values(|r: Seq<u8>| entry_pair(r));
    let mut conds: Vec<FieldCondition> = Vec::new();
    let mut idx: usize = 0;
    while idx < n
        invariant
            n == entries@.len(),
            idx <= n,
            raws == entries@.map_values(|e: String| string_bytes(e)),
            pairs == raws.map_values(|r: Seq<u8>| entry_pair(r)),
            forall|k: int| 0 <= k < idx ==> entry_well_formed(#[trigger] raws[k]),
            conds@.map_values(|c: FieldCondition| c.model()) == fold_entries(pairs.take(idx as int)),
            forall|i: int| 0 <= i < conds@.len() ==> (#[trigger] conds@[i]).wf(),
            forall|i: int, j: int|
                0 <= i < j < conds@.len() ==> conds@[i].key@ != conds@[j].key@,
        decreases n - idx,
    {
        let entry = &entries[idx];
        let lowered: Vec<u8> = lower_bytes(entry.as_str());
        proof {
            assert(lowered@ == lower_of(raws[idx as int]));
        }
        let ci = match find_byte(lowered.as_slice(), ':' as u8) {
            Some(c) => c,
            None => {
                proof {
                    assert(raws[idx as int] == string_bytes(entries@[idx as int]));
                    assert forall|k: int| 0 <= k < idx implies entry_well_formed(
                        string_bytes(#[trigger] entries@[k]),
                    ) by {
                        assert(raws[k] == string_bytes(entries@[k]));
                    }
                }
                return Err(ConfigurationError::MalformedQuery(idx));
            },
        };
        let llen = lowered.len();
        let key: Vec<u8> = slice_to_vec(slice_subrange(lowered.as_slice(), 0, ci));
        let value: Vec<u8> = slice_to_vec(slice_subrange(lowered.as_slice(), ci + 1, llen));
        proof {
            assert(key@ =~= entry_pair(raws[idx as int]).0);
            assert(value@ =~= entry_pair(raws[idx as int]).1);
        }
        let ghost old_models = conds@.map_values(|c: FieldCondition| c.model());
        let ghost old_conds = conds@;
        match find_condition(&conds, &key) {
            Some(j) => {
                let mut c = conds.remove(j);
                let ve = ValueEncoding::new(&c.key, value);
                c.values.push(ve);
                proof {
                    let oc = old_models[j as int];
                    assert(c.model().values =~= oc.values.push(entry_pair(raws[idx as int]).1));
                    assert(c.model() =~= CondModel {
                        key: oc.key,
                        values: oc.values.push(entry_pair(raws[idx as int]).1),
                    });
                }
                conds.insert(j, c);
                proof {
                    assert(conds@ =~= old_conds.update(j as int, c));
                    assert(conds@.map_values(|c: FieldCondition| c.model()) =~= fold_entry(
                        old_models,
                        entry_pair(raws[idx as int]).0,
                        entry_pair(raws[idx as int]).1,
                    ));
                }
            },
            None => {
                proof {
                    lemma_cond_key_index(old_models, key@);
                    assert forall|k: int| 0 <= k < old_conds.len() implies old_conds[k].key@
                        != key@ by {
                        assert(old_models[k] == old_conds[k].model());
                    }
                }
                let ve = ValueEncoding::new(&key, value);
                let mut values: Vec<ValueEncoding> = Vec::new();
                values.push(ve);
                let c = FieldCondition { key, values };
                proof {
                    assert(c.model().values =~= seq![entry_pair(raws[idx as int]).1]);
                }
                conds.push(c);
                proof {
                    assert(conds@.map_values(|c: FieldCondition| c.model()) =~= fold_entry(
                        old_models,
                        entry_pair(raws[idx as int]).0,
                        entry_pair(raws[idx as int]).1,
                    ));
                }
            },
        }
        proof {
            assert(pairs.take(idx + 1).drop_last() =~= pairs.take(idx as int));
            assert(fold_entries(pairs.take(idx + 1)) == fold_entry(
                fold_entries(pairs.take(idx as int)),
                pairs[idx as int].0,
                pairs[idx as int].1,
            ));
        }
        idx = idx + 1;
    }
    proof {
        assert(pairs.take(n as int) =~= pairs);
        assert forall|k: int| 0 <= k < entries@.len() implies entry_well_formed(
            string_bytes(#[trigger] entries@[k]),
        ) by {
            assert(raws[k] == string_bytes(entries@[k]));
        }
    }
    Ok(MatchSpecification { conditions: conds })
}

} // verus!
