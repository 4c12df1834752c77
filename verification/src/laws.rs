//! The library's general laws, stated over the models and proved once for
//! every input.

use vstd::prelude::*;
use vstd::multiset::Multiset;
use crate::adapter::{decision_spans_of, functions_of};
use crate::analyzer::{
    FunctionRecordV, analysis_of, count_contained, lemma_count_contained_nonneg, record_of,
    span_contained,
};
use crate::aggregate::{SourceFileV, agg_records, file_records, max_complexity_of, stamped};
use crate::paths::{eligible_path, excluded_path};

verus! {

/// Every record of every analysis has complexity at least one: the base
/// complexity is a floor.
pub proof fn lemma_complexity_at_least_one(source: Seq<char>)
    ensures
        forall|i: int|
            0 <= i < analysis_of(source).len() ==> (#[trigger] analysis_of(source)[i]).complexity
                >= 1,
{
    assert forall|i: int| 0 <= i < analysis_of(source).len() implies (#[trigger] analysis_of(
        source,
    )[i]).complexity >= 1 by {
        let f = functions_of(source)[i];
        lemma_count_contained_nonneg(decision_spans_of(source), f.body_start, f.body_end);
        assert(analysis_of(source)[i] == record_of(source, f));
    }
}

/// The complexity floor carries through aggregation: every record of every
/// run has complexity at least one.
pub proof fn lemma_agg_complexity_at_least_one(files: Seq<SourceFileV>)
    ensures
        forall|i: int|
            0 <= i < agg_records(files).len() ==> (#[trigger] agg_records(files)[i]).complexity
                >= 1,
    decreases files.len(),
{
    if files.len() > 0 {
        lemma_agg_complexity_at_least_one(files.drop_last());
        lemma_complexity_at_least_one(files.last().text);
        let head = agg_records(files.drop_last());
        let tail = file_records(files.last());
        assert forall|i: int| 0 <= i < agg_records(files).len() implies (#[trigger] agg_records(
            files,
        )[i]).complexity >= 1 by {
            assert(agg_records(files) == head + tail);
            if i < head.len() {
                assert(agg_records(files)[i] == head[i]);
            } else {
                assert(agg_records(files)[i] == tail[i - head.len()]);
                assert(eligible_path(files.last().path));
                assert(tail[i - head.len()] == stamped(
                    analysis_of(files.last().text),
                    files.last().path,
                )[i - head.len()]);
                assert(tail[i - head.len()].complexity == analysis_of(files.last().text)[i
                    - head.len()].complexity);
            }
        }
    }
}

/// A function whose body holds no decision point has complexity exactly one.
pub proof fn lemma_no_decision_points_complexity_one(source: Seq<char>, i: int)
    ensures
        (0 <= i < analysis_of(source).len() && count_contained(
            decision_spans_of(source),
            functions_of(source)[i].body_start,
            functions_of(source)[i].body_end,
        ) == 0) ==> (#[trigger] analysis_of(source)[i]).complexity == 1,
{
    if 0 <= i < analysis_of(source).len() {
        assert(analysis_of(source)[i] == record_of(source, functions_of(source)[i]));
    }
}

/// One more decision point inside the body raises the count by exactly one;
/// one outside leaves it unchanged. Counting is additive, whatever the
/// nesting depth of the occurrence.
pub proof fn lemma_decision_point_adds_one(ds: Seq<(u64, u64)>, d: (u64, u64), lo: u64, hi: u64)
    ensures
        count_contained(ds.push(d), lo, hi) == count_contained(ds, lo, hi) + (if span_contained(
            d,
            lo,
            hi,
        ) {
            1int
        } else {
            0int
        }),
{
    assert(ds.push(d).drop_last() =~= ds);
    assert(ds.push(d).last() == d);
}

/// Counting decision points splits over concatenation: the count is a sum of
/// independent contributions, whatever their order.
pub proof fn lemma_count_contained_concat(ds1: Seq<(u64, u64)>, ds2: Seq<(u64, u64)>, lo: u64, hi: u64)
    ensures
        count_contained(ds1 + ds2, lo, hi) == count_contained(ds1, lo, hi) + count_contained(
            ds2,
            lo,
            hi,
        ),
    decreases ds2.len(),
{
    if ds2.len() == 0 {
        assert(ds1 + ds2 =~= ds1);
    } else {
        lemma_count_contained_concat(ds1, ds2.drop_last(), lo, hi);
        assert((ds1 + ds2).drop_last() =~= ds1 + ds2.drop_last());
        assert((ds1 + ds2).last() == ds2.last());
    }
}

/// Containment in `lo..hi`, as a predicate value over ranges.
pub open spec fn contained_pred(lo: u64, hi: u64) -> spec_fn((u64, u64)) -> bool {
    |d: (u64, u64)| span_contained(d, lo, hi)
}

/// The count reads the occurrences as an unordered collection: it is the size
/// of the multiset of contained ranges.
pub proof fn lemma_count_contained_is_multiset_size(ds: Seq<(u64, u64)>, lo: u64, hi: u64)
    ensures
        count_contained(ds, lo, hi) == ds.to_multiset().filter(contained_pred(lo, hi)).len(),
    decreases ds.len(),
{
    broadcast use vstd::multiset::group_multiset_axioms;
    broadcast use vstd::seq_lib::group_to_multiset_ensures;

    let f = contained_pred(lo, hi);
    if ds.len() == 0 {
        assert(ds.to_multiset() =~= Multiset::<(u64, u64)>::empty());
        assert(ds.to_multiset().filter(f) =~= Multiset::<(u64, u64)>::empty());
    } else {
        let dl = ds.drop_last();
        let x = ds.last();
        lemma_count_contained_is_multiset_size(dl, lo, hi);
        assert(ds =~= dl.push(x));
        assert(dl.push(x).to_multiset() =~= dl.to_multiset().insert(x));
        let m = dl.to_multiset();
        if f(x) {
            assert(m.insert(x).filter(f) =~= m.filter(f).insert(x));
            assert(m.filter(f).insert(x).len() == m.filter(f).len() + 1);
        } else {
            assert(m.insert(x).filter(f) =~= m.filter(f));
        }
    }
}

/// Counting is blind to the order of the occurrences: two sequences holding
/// the same ranges the same number of times count alike, and every complexity
/// built on them is the same.
pub proof fn lemma_count_contained_order_blind(
    ds1: Seq<(u64, u64)>,
    ds2: Seq<(u64, u64)>,
    lo: u64,
    hi: u64,
)
    ensures
        ds1.to_multiset() == ds2.to_multiset() ==> count_contained(ds1, lo, hi) == count_contained(
            ds2,
            lo,
            hi,
        ),
{
    if ds1.to_multiset() == ds2.to_multiset() {
        lemma_count_contained_is_multiset_size(ds1, lo, hi);
        lemma_count_contained_is_multiset_size(ds2, lo, hi);
    }
}

/// Within the representable range, a record's complexity is exactly one plus
/// the number of decision points inside its body.
pub proof fn lemma_complexity_is_one_plus_count(source: Seq<char>, i: int)
    ensures
        (0 <= i < analysis_of(source).len() && 1 + count_contained(
            decision_spans_of(source),
            functions_of(source)[i].body_start,
            functions_of(source)[i].body_end,
        ) <= u64::MAX) ==> (#[trigger] analysis_of(source)[i]).complexity == 1 + count_contained(
            decision_spans_of(source),
            functions_of(source)[i].body_start,
            functions_of(source)[i].body_end,
        ),
{
    if 0 <= i < analysis_of(source).len() {
        let f = functions_of(source)[i];
        lemma_count_contained_nonneg(decision_spans_of(source), f.body_start, f.body_end);
        assert(analysis_of(source)[i] == record_of(source, f));
    }
}

/// The recursive maximum is the maximum: no record lies above it, and some
/// record attains it whenever there is one.
pub proof fn lemma_max_complexity_is_max(rs: Seq<FunctionRecordV>)
    ensures
        forall|i: int|
            0 <= i < rs.len() ==> (#[trigger] rs[i]).complexity <= max_complexity_of(rs),
        rs.len() > 0 ==> exists|i: int|
            0 <= i < rs.len() && (#[trigger] rs[i]).complexity == max_complexity_of(rs),
    decreases rs.len(),
{
    if rs.len() > 0 {
        let dl = rs.drop_last();
        lemma_max_complexity_is_max(dl);
        assert(forall|i: int| 0 <= i < dl.len() ==> rs[i] == #[trigger] dl[i]);
        assert forall|i: int| 0 <= i < rs.len() implies (#[trigger] rs[i]).complexity
            <= max_complexity_of(rs) by {
            if i < rs.len() - 1 {
                assert(rs[i] == dl[i]);
                assert(dl[i].complexity <= max_complexity_of(dl));
            } else {
                assert(rs[i] == rs.last());
            }
        }
        if rs.last().complexity > max_complexity_of(dl) {
            assert(rs[rs.len() - 1].complexity == max_complexity_of(rs));
        } else {
            if dl.len() > 0 {
                let j = choose|j: int|
                    0 <= j < dl.len() && (#[trigger] dl[j]).complexity == max_complexity_of(dl);
                assert(rs[j].complexity == max_complexity_of(rs));
            } else {
                assert(rs[0].complexity == max_complexity_of(rs));
            }
        }
    }
}

/// A run over files none of which is eligible yields no records at all; in
/// particular a run over no files yields none.
pub proof fn lemma_no_eligible_files_no_records(files: Seq<SourceFileV>)
    ensures
        (forall|i: int| 0 <= i < files.len() ==> !eligible_path((#[trigger] files[i]).path))
            ==> agg_records(files).len() == 0,
    decreases files.len(),
{
    if files.len() > 0 {
        lemma_no_eligible_files_no_records(files.drop_last());
        if forall|i: int| 0 <= i < files.len() ==> !eligible_path((#[trigger] files[i]).path) {
            assert(forall|i: int|
                0 <= i < files.drop_last().len() ==> (#[trigger] files.drop_last()[i])
                    == files[i]);
            assert(!eligible_path(files.last().path));
            assert(file_records(files.last()) =~= Seq::<FunctionRecordV>::empty());
        }
    }
}

/// A file under an excluded path segment is never analyzed: appending it to a
/// run changes nothing.
pub proof fn lemma_excluded_file_contributes_nothing(files: Seq<SourceFileV>, f: SourceFileV)
    ensures
        excluded_path(f.path) ==> agg_records(files.push(f)) == agg_records(files),
{
    if excluded_path(f.path) {
        assert(!eligible_path(f.path));
        assert(files.push(f).drop_last() =~= files);
        assert(files.push(f).last() == f);
        assert(file_records(f) =~= Seq::<FunctionRecordV>::empty());
        assert(agg_records(files.push(f)) =~= agg_records(files));
    }
}

} // verus!
