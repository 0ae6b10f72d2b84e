//! What is told about the labeled rows.

use crate::model::accuracy;
use crate::model::accuracy_of;
use crate::model::balanced_accuracy;
use crate::model::balanced_accuracy_of;
use crate::model::count;
use crate::model::Fraction;
use crate::model::Ratio;
use crate::single::Single;
use crate::store::row_views;
use crate::store::Row;
use crate::store::RowView;
use vstd::prelude::*;
use vstd::slice::slice_subrange;

verus! {

/// How many of the most recent labels the running accuracy is computed on.
pub const RECENT: usize = 50;

/// Accuracy and balanced accuracy over some rows.
#[derive(Clone, Copy, Debug, PartialEq, Eq, Structural)]
pub struct Rates {
    pub accuracy: Ratio,
    pub balanced_accuracy: Ratio,
}

/// The two rates as mathematical values.
pub struct RatesView {
    pub accuracy: Fraction,
    pub balanced_accuracy: Fraction,
}

impl View for Rates {
    type V = RatesView;

    open spec fn view(&self) -> RatesView {
        RatesView { accuracy: self.accuracy@, balanced_accuracy: self.balanced_accuracy@ }
    }
}

/// The two rates over `pairs`.
pub open spec fn rates_of(pairs: Seq<(Single, bool)>) -> RatesView {
    RatesView {
        accuracy: accuracy_of(pairs),
        balanced_accuracy: balanced_accuracy_of(pairs),
    }
}

/// Computes the two rates.
pub fn rates(pairs: &[(Single, bool)]) -> (r: Rates)
    ensures
        r@ == rates_of(pairs@),
{
    Rates { accuracy: accuracy(pairs), balanced_accuracy: balanced_accuracy(pairs) }
}

/// What is told after a label: the dataset size, how many rows are trivial,
/// how many of the most recent rows the rates cover, and the rates over those.
#[derive(Clone, Copy, Debug, PartialEq, Eq, Structural)]
pub struct Report {
    pub rows: usize,
    pub trivial_rows: usize,
    pub recent: usize,
    pub rates: Rates,
}

/// A report as mathematical values.
pub struct ReportView {
    pub rows: nat,
    pub trivial_rows: nat,
    pub recent: nat,
    pub rates: RatesView,
}

impl View for Report {
    type V = ReportView;

    open spec fn view(&self) -> ReportView {
        ReportView {
            rows: self.rows as nat,
            trivial_rows: self.trivial_rows as nat,
            recent: self.recent as nat,
            rates: self.rates@,
        }
    }
}

/// The probability each row got when it arrived, with its label.
pub open spec fn pairs_of(rows: Seq<RowView>) -> Seq<(Single, bool)> {
    rows.map_values(|r: RowView| (r.scored.p, r.label))
}

/// The last elements of `s`, as many as count as recent.
pub open spec fn recent_of<A>(s: Seq<A>) -> Seq<A> {
    if s.len() > RECENT {
        s.skip(s.len() - RECENT)
    } else {
        s
    }
}

/// How many rows are labeled trivial.
pub open spec fn trivial_in(rows: Seq<RowView>) -> nat {
    count(rows, |r: RowView| r.label)
}

/// Both labels occur.
pub open spec fn both_classes(rows: Seq<RowView>) -> bool {
    &&& exists|i: int| 0 <= i < rows.len() && (#[trigger] rows[i]).label
    &&& exists|i: int| 0 <= i < rows.len() && !(#[trigger] rows[i]).label
}

/// The report on `rows`.
pub open spec fn report_of(rows: Seq<RowView>) -> ReportView {
    ReportView {
        rows: rows.len(),
        trivial_rows: trivial_in(rows),
        recent: recent_of(rows).len(),
        rates: rates_of(pairs_of(recent_of(rows))),
    }
}

/// Counts the rows labeled trivial.
pub fn trivial_rows(rows: &Vec<Row>) -> (r: usize)
    ensures
        r == trivial_in(row_views(rows@)),
        r <= rows@.len(),
{
    let ghost views = row_views(rows@);
    let mut n: usize = 0;
    let mut i: usize = 0;
    assert(views.take(0) =~= Seq::empty());
    while i < rows.len()
        invariant
            i <= rows@.len(),
            n <= i,
            views == row_views(rows@),
            n == trivial_in(views.take(i as int)),
        decreases rows@.len() - i,
    {
        proof {
            assert(views.take(i + 1).drop_last() =~= views.take(i as int));
            assert(views[i as int] == rows@[i as int]@);
        }
        if rows[i].label {
            n = n + 1;
        }
        i = i + 1;
    }
    assert(views.take(i as int) =~= views);
    n
}

/// Tests whether both labels occur.
pub fn has_both_classes(rows: &Vec<Row>) -> (r: bool)
    ensures
        r == both_classes(row_views(rows@)),
{
    let n: usize = trivial_rows(rows);
    proof {
        lemma_both_classes(row_views(rows@));
    }
    0 < n && n < rows.len()
}

/// Both labels occur exactly where some rows are trivial and not all are.
proof fn lemma_both_classes(rows: Seq<RowView>)
    ensures
        trivial_in(rows) <= rows.len(),
        both_classes(rows) <==> 0 < trivial_in(rows) < rows.len(),
        trivial_in(rows) > 0 <==> exists|i: int| 0 <= i < rows.len() && (#[trigger] rows[i]).label,
        trivial_in(rows) < rows.len() <==> exists|i: int|
            0 <= i < rows.len() && !(#[trigger] rows[i]).label,
    decreases rows.len(),
{
    if rows.len() > 0 {
        let rest = rows.drop_last();
        let last = rows.len() - 1;
        lemma_both_classes(rest);
        assert(rows[last] == rows.last());
        if exists|i: int| 0 <= i < rest.len() && (#[trigger] rest[i]).label {
            let i = choose|i: int| 0 <= i < rest.len() && (#[trigger] rest[i]).label;
            assert(rows[i].label);
        }
        if exists|i: int| 0 <= i < rest.len() && !(#[trigger] rest[i]).label {
            let i = choose|i: int| 0 <= i < rest.len() && !(#[trigger] rest[i]).label;
            assert(!rows[i].label);
        }
        if exists|i: int| 0 <= i < rows.len() && (#[trigger] rows[i]).label {
            let i = choose|i: int| 0 <= i < rows.len() && (#[trigger] rows[i]).label;
            if i < last {
                assert(rest[i].label);
            }
        }
        if exists|i: int| 0 <= i < rows.len() && !(#[trigger] rows[i]).label {
            let i = choose|i: int| 0 <= i < rows.len() && !(#[trigger] rows[i]).label;
            if i < last {
                assert(!rest[i].label);
            }
        }
    }
}

/// Pairs the probability of each row with its label.
pub fn pairs(rows: &Vec<Row>) -> (r: Vec<(Single, bool)>)
    ensures
        r@ == pairs_of(row_views(rows@)),
{
    let ghost views = row_views(rows@);
    let mut all: Vec<(Single, bool)> = Vec::new();
    let mut i: usize = 0;
    while i < rows.len()
        invariant
            i <= rows@.len(),
            views == row_views(rows@),
            all@ == pairs_of(views).take(i as int),
        decreases rows@.len() - i,
    {
        all.push((rows[i].scored.p, rows[i].label));
        proof {
            assert(all@ =~= pairs_of(views).take(i + 1));
        }
        i = i + 1;
    }
    assert(pairs_of(views).take(i as int) =~= pairs_of(views));
    all
}

/// The last pairs, as many as count as recent.
fn recent(all: &[(Single, bool)]) -> (r: &[(Single, bool)])
    ensures
        r@ == recent_of(all@),
{
    let n: usize = all.len();
    if n > RECENT {
        let last: &[(Single, bool)] = slice_subrange(all, n - RECENT, n);
        assert(last@ =~= all@.skip(n - RECENT));
        last
    } else {
        all
    }
}

/// Reports on the dataset.
pub fn report(rows: &Vec<Row>) -> (r: Report)
    ensures
        r@ == report_of(row_views(rows@)),
        r.trivial_rows <= r.rows,
        r.recent == if rows@.len() < RECENT {
            rows@.len()
        } else {
            RECENT as nat
        },
{
    let all: Vec<(Single, bool)> = pairs(rows);
    let last: &[(Single, bool)] = recent(all.as_slice());
    proof {
        lemma_recent_pairs(row_views(rows@));
    }
    Report {
        rows: rows.len(),
        trivial_rows: trivial_rows(rows),
        recent: last.len(),
        rates: rates(last),
    }
}

/// The recent pairs are the pairs of the recent rows.
proof fn lemma_recent_pairs(rows: Seq<RowView>)
    ensures
        recent_of(pairs_of(rows)) == pairs_of(recent_of(rows)),
        recent_of(pairs_of(rows)).len() == recent_of(rows).len(),
{
    assert(recent_of(pairs_of(rows)) =~= pairs_of(recent_of(rows)));
}

/// What is told on demand: the report after a label, with the rates over all
/// rows, and the rates of the current weights on the rows they were fitted to.
#[derive(Clone, Copy, Debug, PartialEq, Eq, Structural)]
pub struct Stats {
    pub report: Report,
    pub overall: Rates,
    pub fit: Rates,
}

/// The statistics as mathematical values.
pub struct StatsView {
    pub report: ReportView,
    pub overall: RatesView,
    pub fit: RatesView,
}

impl View for Stats {
    type V = StatsView;

    open spec fn view(&self) -> StatsView {
        StatsView { report: self.report@, overall: self.overall@, fit: self.fit@ }
    }
}

/// Each row's label with the probability that it gets now.
pub open spec fn fit_pairs(rows: Seq<RowView>, scores: Seq<Single>) -> Seq<(Single, bool)> {
    Seq::new(rows.len(), |i: int| (scores[i], rows[i].label))
}

/// The statistics of `rows`, which the current weights give `scores`.
pub open spec fn stats_of(rows: Seq<RowView>, scores: Seq<Single>) -> StatsView {
    StatsView {
        report: report_of(rows),
        overall: rates_of(pairs_of(rows)),
        fit: rates_of(fit_pairs(rows, scores)),
    }
}

/// Computes the statistics of rows and of the probabilities that the current
/// weights give them, one for each row.
pub fn stats(rows: &Vec<Row>, scores: &Vec<Single>) -> (r: Stats)
    requires
        scores@.len() == rows@.len(),
    ensures
        r@ == stats_of(row_views(rows@), scores@),
{
    let ghost views = row_views(rows@);
    let mut now: Vec<(Single, bool)> = Vec::new();
    let mut i: usize = 0;
    while i < rows.len()
        invariant
            i <= rows@.len(),
            scores@.len() == rows@.len(),
            views == row_views(rows@),
            now@ == fit_pairs(views, scores@).take(i as int),
        decreases rows@.len() - i,
    {
        now.push((scores[i], rows[i].label));
        proof {
            assert(now@ =~= fit_pairs(views, scores@).take(i + 1));
        }
        i = i + 1;
    }
    assert(fit_pairs(views, scores@).take(i as int) =~= fit_pairs(views, scores@));
    let all: Vec<(Single, bool)> = pairs(rows);
    Stats {
        report: report(rows),
        overall: rates(all.as_slice()),
        fit: rates(now.as_slice()),
    }
}

} // verus!
