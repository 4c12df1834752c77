//! The complexity analyzer: one file's source text to one record per function.
//!
//! Each function's cyclomatic complexity is one (the single linear path) plus
//! the number of decision-point constructs whose byte range lies inside the
//! function's body block, at any nesting depth. A construct inside a nested
//! function or lambda still lies inside the enclosing body's range, so it
//! counts toward the enclosing function too; this inclusive counting is
//! deliberate: a body is everything its span contains.

use vstd::prelude::*;
use crate::adapter::{FnSpanV, decision_spans_of, functions_of, parse_succeeds};
use crate::adapter::{scan_decisions, scan_functions};

verus! {

/// One analyzed function. `file` is empty as produced by the analyzer, which
/// knows no paths; the aggregator stamps it.
#[derive(Debug, Clone)]
pub struct FunctionRecord {
    pub name: String,
    pub file: String,
    pub line: u64,
    pub complexity: u64,
}

/// The mathematical image of a `FunctionRecord`.
#[verifier::ext_equal]
pub ghost struct FunctionRecordV {
    pub name: Seq<char>,
    pub file: Seq<char>,
    pub line: u64,
    pub complexity: u64,
}

impl View for FunctionRecord {
    type V = FunctionRecordV;

    open spec fn view(&self) -> FunctionRecordV {
        FunctionRecordV {
            name: self.name@,
            file: self.file@,
            line: self.line,
            complexity: self.complexity,
        }
    }
}

impl DeepView for FunctionRecord {
    type V = FunctionRecordV;

    open spec fn deep_view(&self) -> FunctionRecordV {
        self@
    }
}

/// The decision-point range `d` lies inside the body range `lo..hi`.
pub open spec fn span_contained(d: (u64, u64), lo: u64, hi: u64) -> bool {
    lo <= d.0 && d.1 <= hi
}

/// How many of the ranges in `ds` lie inside `lo..hi`.
pub open spec fn count_contained(ds: Seq<(u64, u64)>, lo: u64, hi: u64) -> int
    decreases ds.len(),
{
    if ds.len() == 0 {
        0
    } else {
        count_contained(ds.drop_last(), lo, hi) + (if span_contained(ds.last(), lo, hi) {
            1int
        } else {
            0int
        })
    }
}

/// A nonnegative value squeezed into `u64`; the cap is unreachable for any
/// source a machine can hold.
pub open spec fn cap_to_u64(x: int) -> u64 {
    if x > u64::MAX {
        u64::MAX
    } else if x < 0 {
        0
    } else {
        x as u64
    }
}

/// The record the analyzer owes for the function `f` of `source`: base
/// complexity one plus one per contained decision point, a 1-based line, and
/// no file path yet.
pub open spec fn record_of(source: Seq<char>, f: FnSpanV) -> FunctionRecordV {
    FunctionRecordV {
        name: f.name,
        file: Seq::<char>::empty(),
        line: cap_to_u64(f.row + 1),
        complexity: cap_to_u64(1 + count_contained(decision_spans_of(source), f.body_start, f.body_end)),
    }
}

/// Everything the analyzer owes for `source`: one record per function
/// definition, in traversal order.
pub open spec fn analysis_of(source: Seq<char>) -> Seq<FunctionRecordV> {
    functions_of(source).map_values(|f: FnSpanV| record_of(source, f))
}

pub proof fn lemma_count_contained_nonneg(ds: Seq<(u64, u64)>, lo: u64, hi: u64)
    ensures
        0 <= count_contained(ds, lo, hi) <= ds.len(),
    decreases ds.len(),
{
    if ds.len() > 0 {
        lemma_count_contained_nonneg(ds.drop_last(), lo, hi);
    }
}

/// Counts the ranges of `ds` inside `lo..hi`.
fn count_contained_exec(ds: &Vec<(u64, u64)>, lo: u64, hi: u64) -> (r: u64)
    ensures
        r as int == count_contained(ds@, lo, hi),
{
    let mut c: u64 = 0;
    let mut i: usize = 0;
    while i < ds.len()
        invariant
            0 <= i <= ds@.len(),
            c as int == count_contained(ds@.take(i as int), lo, hi),
            c <= i,
        decreases ds@.len() - i,
    {
        let d: (u64, u64) = ds[i];
        proof {
            assert(ds@.take(i + 1).drop_last() =~= ds@.take(i as int));
            assert(ds@.take(i + 1).last() == ds@[i as int]);
        }
        if lo <= d.0 && d.1 <= hi {
            c = c + 1;
        }
        i = i + 1;
    }
    proof {
        assert(ds@.take(ds@.len() as int) =~= ds@);
    }
    c
}

/// One more than `x`, capped at the largest representable value.
fn saturating_inc(x: u64) -> (r: u64)
    ensures
        r == cap_to_u64(x as int + 1),
{
    if x < u64::MAX {
        x + 1
    } else {
        u64::MAX
    }
}

/// Analyzes one file's source text: one record per function definition, in
/// traversal order, with empty `file` fields. `None` exactly when the grammar
/// engine yields no tree; that one file's failure is the caller's to report.
pub fn calculate_complexity(source: &str) -> (r: Option<Vec<FunctionRecord>>)
    ensures
        r is Some <==> parse_succeeds(source@),
        r matches Some(v) ==> v.deep_view() == analysis_of(source@),
{
    let spans = match scan_functions(source) {
        None => {
            return None;
        },
        Some(s) => s,
    };
    let decisions = match scan_decisions(source) {
        None => {
            return None;
        },
        Some(d) => d,
    };
    let mut out: Vec<FunctionRecord> = Vec::new();
    let mut i: usize = 0;
    proof {
        assert(spans.deep_view().len() == spans@.len());
        assert(analysis_of(source@).len() == functions_of(source@).len());
    }
    while i < spans.len()
        invariant
            0 <= i <= spans@.len(),
            spans.deep_view() == functions_of(source@),
            spans@.len() == functions_of(source@).len(),
            analysis_of(source@).len() == spans@.len(),
            decisions@ == decision_spans_of(source@),
            out@.len() == i as int,
            out.deep_view() =~= analysis_of(source@).take(i as int),
        decreases spans@.len() - i,
    {
        let dp: u64 = count_contained_exec(&decisions, spans[i].body_start, spans[i].body_end);
        proof {
            lemma_count_contained_nonneg(decisions@, spans@[i as int].body_start, spans@[i as int].body_end);
        }
        let complexity: u64 = saturating_inc(dp);
        let line: u64 = saturating_inc(spans[i].row);
        let rec = FunctionRecord {
            name: spans[i].name.clone(),
            file: String::new(),
            line: line,
            complexity: complexity,
        };
        proof {
            assert(rec@ == record_of(source@, spans.deep_view()[i as int]));
            assert(analysis_of(source@)[i as int] == record_of(source@, functions_of(source@)[i as int]));
        }
        let ghost prev = out@;
        out.push(rec);
        i = i + 1;
        proof {
            assert(out@ == prev.push(rec));
            assert forall|k: int| 0 <= k < i as int implies out.deep_view()[k] == analysis_of(
                source@,
            ).take(i as int)[k] by {
                assert(out.deep_view()[k] == out@[k].deep_view());
                if k < i as int - 1 {
                    assert(out@[k] == prev[k]);
                }
            }
            assert(out.deep_view() =~= analysis_of(source@).take(i as int));
        }
    }
    proof {
        assert(spans.deep_view().len() == spans@.len());
        assert(analysis_of(source@).take(spans@.len() as int) =~= analysis_of(source@));
    }
    Some(out)
}

} // verus!
