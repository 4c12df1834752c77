//! The directory aggregator: many files' records merged into one result.
//!
//! The caller walks the file tree and hands every candidate file over as a
//! path and its text; traversal itself is plain I/O and stays outside. The
//! aggregator analyzes each eligible file, stamps each record with its file's
//! path, and derives the summary. One failing file aborts the whole run: that
//! is this library's chosen policy, applied uniformly.

use vstd::prelude::*;
use crate::adapter::parse_succeeds;
use crate::analyzer::{FunctionRecord, FunctionRecordV, analysis_of, calculate_complexity, cap_to_u64};
use crate::paths::{eligible_path, is_eligible_path};

verus! {

/// One file handed to the aggregator: its path and its whole text.
#[derive(Debug, Clone)]
pub struct SourceFile {
    pub path: String,
    pub text: String,
}

/// The mathematical image of a `SourceFile`.
#[verifier::ext_equal]
pub ghost struct SourceFileV {
    pub path: Seq<char>,
    pub text: Seq<char>,
}

impl View for SourceFile {
    type V = SourceFileV;

    open spec fn view(&self) -> SourceFileV {
        SourceFileV { path: self.path@, text: self.text@ }
    }
}

impl DeepView for SourceFile {
    type V = SourceFileV;

    open spec fn deep_view(&self) -> SourceFileV {
        self@
    }
}

/// Why a run failed: the grammar engine yielded no tree for this file.
#[derive(Debug, Clone, PartialEq, Eq)]
pub enum AnalysisError {
    ParseFailed(String),
}

/// The summary statistics, recomputable at any time from the records and a
/// threshold. The mean is the total divided by the count; the division is the
/// renderer's, so the total is carried here.
#[derive(Debug, Clone, PartialEq, Eq, Structural)]
pub struct Summary {
    pub total_complexity: u64,
    pub max_complexity: u64,
    pub total_functions: usize,
    pub functions_above_threshold: usize,
}

/// The mathematical image of a `Summary`.
#[verifier::ext_equal]
pub ghost struct SummaryV {
    pub total_complexity: int,
    pub max_complexity: u64,
    pub total_functions: int,
    pub functions_above_threshold: int,
}

impl View for Summary {
    type V = SummaryV;

    open spec fn view(&self) -> SummaryV {
        SummaryV {
            total_complexity: self.total_complexity as int,
            max_complexity: self.max_complexity,
            total_functions: self.total_functions as int,
            functions_above_threshold: self.functions_above_threshold as int,
        }
    }
}

/// Everything one run produces.
#[derive(Debug, Clone)]
pub struct AnalysisResult {
    pub functions: Vec<FunctionRecord>,
    pub summary: Option<Summary>,
}

/// The records with their `file` field set to `path`.
pub open spec fn stamped(rs: Seq<FunctionRecordV>, path: Seq<char>) -> Seq<FunctionRecordV> {
    rs.map_values(|r: FunctionRecordV| FunctionRecordV {
        name: r.name,
        file: path,
        line: r.line,
        complexity: r.complexity,
    })
}

/// What one file contributes: its stamped analysis when it is eligible,
/// nothing otherwise.
pub open spec fn file_records(f: SourceFileV) -> Seq<FunctionRecordV> {
    if eligible_path(f.path) {
        stamped(analysis_of(f.text), f.path)
    } else {
        Seq::<FunctionRecordV>::empty()
    }
}

/// Every record of a run over `files`, in input order.
pub open spec fn agg_records(files: Seq<SourceFileV>) -> Seq<FunctionRecordV>
    decreases files.len(),
{
    if files.len() == 0 {
        Seq::<FunctionRecordV>::empty()
    } else {
        agg_records(files.drop_last()) + file_records(files.last())
    }
}

/// Every eligible file parses: the run succeeds exactly then.
pub open spec fn agg_ok(files: Seq<SourceFileV>) -> bool {
    forall|i: int|
        0 <= i < files.len() && eligible_path(files[i].path) ==> parse_succeeds(files[i].text)
}

/// `i` is the first eligible file the grammar engine rejects.
pub open spec fn first_failure(files: Seq<SourceFileV>, i: int) -> bool {
    &&& 0 <= i < files.len()
    &&& eligible_path(files[i].path)
    &&& !parse_succeeds(files[i].text)
    &&& forall|j: int|
        0 <= j < i && eligible_path(files[j].path) ==> parse_succeeds(files[j].text)
}

/// The total of all complexities.
pub open spec fn sum_complexity(rs: Seq<FunctionRecordV>) -> int
    decreases rs.len(),
{
    if rs.len() == 0 {
        0
    } else {
        sum_complexity(rs.drop_last()) + rs.last().complexity
    }
}

/// The largest complexity, zero when there are no records.
pub open spec fn max_complexity_of(rs: Seq<FunctionRecordV>) -> u64
    decreases rs.len(),
{
    if rs.len() == 0 {
        0u64
    } else if rs.last().complexity > max_complexity_of(rs.drop_last()) {
        rs.last().complexity
    } else {
        max_complexity_of(rs.drop_last())
    }
}

/// How many records lie strictly above the threshold.
pub open spec fn count_above(rs: Seq<FunctionRecordV>, threshold: u64) -> int
    decreases rs.len(),
{
    if rs.len() == 0 {
        0
    } else {
        count_above(rs.drop_last(), threshold) + (if rs.last().complexity > threshold {
            1int
        } else {
            0int
        })
    }
}

/// The summary owed for these records: the total of the complexities (capped
/// at the largest representable value), their maximum, their count, and how
/// many lie strictly above the threshold.
pub open spec fn summary_of(rs: Seq<FunctionRecordV>, threshold: u64) -> SummaryV {
    SummaryV {
        total_complexity: cap_to_u64(sum_complexity(rs)) as int,
        max_complexity: max_complexity_of(rs),
        total_functions: rs.len() as int,
        functions_above_threshold: count_above(rs, threshold),
    }
}

proof fn lemma_sum_complexity_nonneg(rs: Seq<FunctionRecordV>)
    ensures
        0 <= sum_complexity(rs),
    decreases rs.len(),
{
    if rs.len() > 0 {
        lemma_sum_complexity_nonneg(rs.drop_last());
    }
}

/// `a + b`, capped at the largest representable value.
fn saturating_add(a: u64, b: u64) -> (r: u64)
    ensures
        r == cap_to_u64(a as int + b as int),
{
    if a <= u64::MAX - b {
        a + b
    } else {
        u64::MAX
    }
}

/// Derives the summary from the records and a threshold; `None` exactly when
/// there are no records.
pub fn summarize(functions: &Vec<FunctionRecord>, threshold: u64) -> (s: Option<Summary>)
    ensures
        s is Some <==> functions@.len() > 0,
        s matches Some(v) ==> v@ == summary_of(functions.deep_view(), threshold),
{
    if functions.len() == 0 {
        return None;
    }
    let ghost dv = functions.deep_view();
    let mut total: u64 = 0;
    let mut max: u64 = 0;
    let mut above: usize = 0;
    let mut i: usize = 0;
    while i < functions.len()
        invariant
            0 <= i <= functions@.len(),
            dv == functions.deep_view(),
            dv.len() == functions@.len(),
            total == cap_to_u64(sum_complexity(dv.take(i as int))),
            max == max_complexity_of(dv.take(i as int)),
            above as int == count_above(dv.take(i as int), threshold),
            above <= i,
        decreases functions@.len() - i,
    {
        let c: u64 = functions[i].complexity;
        proof {
            assert(dv.take(i as int + 1).drop_last() =~= dv.take(i as int));
            assert(dv.take(i as int + 1).last() == dv[i as int]);
            assert(dv[i as int].complexity == functions@[i as int]@.complexity);
            lemma_sum_complexity_nonneg(dv.take(i as int));
        }
        total = saturating_add(total, c);
        if c > max {
            max = c;
        }
        if c > threshold {
            above = above + 1;
        }
        i = i + 1;
    }
    proof {
        assert(dv.take(functions@.len() as int) =~= dv);
    }
    Some(Summary {
        total_complexity: total,
        max_complexity: max,
        total_functions: functions.len(),
        functions_above_threshold: above,
    })
}

/// Runs the analyzer over every eligible file, stamps each record with its
/// file's path, and derives the summary. The result is `Ok` exactly when
/// every eligible file parses; the first failing file aborts the run and is
/// named in the error.
pub fn analyze_files(files: &Vec<SourceFile>, threshold: u64) -> (r: Result<
    AnalysisResult,
    AnalysisError,
>)
    ensures
        r is Ok <==> agg_ok(files.deep_view()),
        r matches Ok(res) ==> res.functions.deep_view() == agg_records(files.deep_view()),
        r matches Ok(res) ==> (res.summary is Some <==> agg_records(files.deep_view()).len() > 0),
        r matches Ok(res) ==> (res.summary matches Some(s) ==> s@ == summary_of(
            agg_records(files.deep_view()),
            threshold,
        )),
        r matches Err(e) ==> (e matches AnalysisError::ParseFailed(p) ==> exists|i: int|
            first_failure(files.deep_view(), i) && p@ == files.deep_view()[i].path),
        r is Err ==> !agg_ok(files.deep_view()),
{
    let ghost dv = files.deep_view();
    let mut all_functions: Vec<FunctionRecord> = Vec::new();
    let mut i: usize = 0;
    proof {
        assert(dv.take(0) =~= Seq::<SourceFileV>::empty());
    }
    while i < files.len()
        invariant
            0 <= i <= files@.len(),
            dv == files.deep_view(),
            dv.len() == files@.len(),
            all_functions@.len() == agg_records(dv.take(i as int)).len(),
            all_functions.deep_view() =~= agg_records(dv.take(i as int)),
            forall|j: int|
                0 <= j < i && eligible_path(dv[j].path) ==> parse_succeeds(dv[j].text),
        decreases files@.len() - i,
    {
        proof {
            assert(dv.take(i as int + 1).drop_last() =~= dv.take(i as int));
            assert(dv.take(i as int + 1).last() == dv[i as int]);
        }
        if is_eligible_path(files[i].path.as_str()) {
            let recs = match calculate_complexity(files[i].text.as_str()) {
                None => {
                    proof {
                        assert(first_failure(dv, i as int));
                    }
                    return Err(AnalysisError::ParseFailed(files[i].path.clone()));
                },
                Some(v) => v,
            };
            let ghost base = agg_records(dv.take(i as int));
            let ghost frs = stamped(analysis_of(dv[i as int].text), dv[i as int].path);
            proof {
                assert(recs.deep_view().len() == recs@.len());
                assert(frs.len() == analysis_of(dv[i as int].text).len());
            }
            let mut j: usize = 0;
            while j < recs.len()
                invariant
                    0 <= j <= recs@.len(),
                    dv == files.deep_view(),
                    0 <= i < dv.len(),
                    recs.deep_view() == analysis_of(dv[i as int].text),
                    recs@.len() == recs.deep_view().len(),
                    base == agg_records(dv.take(i as int)),
                    frs == stamped(analysis_of(dv[i as int].text), dv[i as int].path),
                    frs.len() == recs@.len(),
                    all_functions@.len() == base.len() + j as int,
                    all_functions.deep_view() =~= base + frs.take(j as int),
                decreases recs@.len() - j,
            {
                let rec = FunctionRecord {
                    name: recs[j].name.clone(),
                    file: files[i].path.clone(),
                    line: recs[j].line,
                    complexity: recs[j].complexity,
                };
                proof {
                    assert(rec@ == frs[j as int]);
                }
                let ghost prev = all_functions@;
                let ghost prevdeep = all_functions.deep_view();
                all_functions.push(rec);
                proof {
                    assert(prevdeep == base + frs.take(j as int));
                    assert(all_functions@ == prev.push(rec));
                    assert forall|k: int| 0 <= k < prev.len() + 1 implies all_functions.deep_view()[k]
                        == (base + frs.take(j as int + 1))[k] by {
                        assert(all_functions.deep_view()[k] == all_functions@[k].deep_view());
                        if k < prev.len() {
                            assert(all_functions@[k] == prev[k]);
                            assert(prevdeep[k] == prev[k].deep_view());
                            assert((base + frs.take(j as int))[k] == (base + frs.take(
                                j as int + 1,
                            ))[k]);
                        } else {
                            assert(all_functions@[k] == rec);
                            assert((base + frs.take(j as int + 1))[k] == frs[j as int]);
                        }
                    }
                    assert(all_functions.deep_view() =~= base + frs.take(j as int + 1));
                }
                j = j + 1;
            }
            proof {
                assert(frs.take(recs@.len() as int) =~= frs);
                assert(file_records(dv[i as int]) == frs);
                assert(all_functions.deep_view() =~= agg_records(dv.take(i as int + 1)));
            }
        } else {
            proof {
                assert(file_records(dv[i as int]) =~= Seq::<FunctionRecordV>::empty());
                assert(agg_records(dv.take(i as int)) + file_records(dv[i as int])
                    =~= agg_records(dv.take(i as int)));
                assert(all_functions.deep_view() =~= agg_records(dv.take(i as int + 1)));
            }
        }
        i = i + 1;
    }
    proof {
        assert(dv.take(files@.len() as int) =~= dv);
    }
    let summary = summarize(&all_functions, threshold);
    Ok(AnalysisResult { functions: all_functions, summary })
}

} // verus!
