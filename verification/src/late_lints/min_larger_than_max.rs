//! Ranges whose least value exceeds their greatest.

use crate::config::Config;
use crate::custom_difficulty::{CustomDifficulty, Range, WeightedRange};
use crate::diagnostic::{Color, Diagnostic, DiagnosticView, Label, LabelView, report, Severity, views};
use crate::number::Number;
use crate::span::{Span, Spanned};
use vstd::prelude::*;
use vstd::string::*;

verus! {

/// The warning for the range at `range`, with its ends at `min` and `max`.
pub open spec fn min_max_warning(range: Span, min: Span, max: Span) -> DiagnosticView {
    DiagnosticView {
        severity: Severity::Warning,
        offset: range.lo,
        message: "min > max in this range, which may lead to surprising behavior in Custom Difficulty and in game"@,
        labels: seq![
            LabelView { span: min, color: Color::Yellow, message: None },
            LabelView { span: max, color: Color::Yellow, message: None },
        ],
        help: None,
    }
}

/// The warning for `r`, where its `min` exceeds its `max`.
pub open spec fn index_range_findings(r: &Spanned<Range<usize>>) -> Seq<DiagnosticView> {
    if r.val.min.val > r.val.max.val {
        seq![min_max_warning(r.span, r.val.min.span, r.val.max.span)]
    } else {
        Seq::empty()
    }
}

/// The warning for `r`, where its `min` exceeds its `max`.
pub open spec fn number_range_findings(r: &Spanned<Range<Number>>) -> Seq<DiagnosticView> {
    if r.val.max.val.lt(&r.val.min.val) {
        seq![min_max_warning(r.span, r.val.min.span, r.val.max.span)]
    } else {
        Seq::empty()
    }
}

/// The warnings for the ranges of the first `upto` bins.
pub open spec fn index_bins_findings(bins: Seq<Spanned<WeightedRange<usize>>>, upto: int) -> Seq<
    DiagnosticView,
>
    decreases upto,
{
    if upto <= 0 || upto > bins.len() {
        Seq::empty()
    } else {
        index_bins_findings(bins, upto - 1) + index_range_findings(&bins[upto - 1].val.range)
    }
}

/// The warnings for the ranges of the first `upto` bins.
pub open spec fn number_bins_findings(bins: Seq<Spanned<WeightedRange<Number>>>, upto: int) -> Seq<
    DiagnosticView,
>
    decreases upto,
{
    if upto <= 0 || upto > bins.len() {
        Seq::empty()
    } else {
        number_bins_findings(bins, upto - 1) + number_range_findings(&bins[upto - 1].val.range)
    }
}

pub open spec fn index_bins(bins: &Spanned<Vec<Spanned<WeightedRange<usize>>>>) -> Seq<DiagnosticView> {
    index_bins_findings(bins.val@, bins.val@.len() as int)
}

pub open spec fn number_bins(bins: &Spanned<Vec<Spanned<WeightedRange<Number>>>>) -> Seq<DiagnosticView> {
    number_bins_findings(bins.val@, bins.val@.len() as int)
}

/// What the lint reports for `cd`: a warning for each range with
/// `min > max`, the fields taken in the order of the document's definition.
pub open spec fn min_max_findings(cd: &CustomDifficulty) -> Seq<DiagnosticView> {
    index_bins(&cd.encounter_difficulty) + index_bins(&cd.stationary_difficulty) + index_bins(
        &cd.enemy_wave_interval,
    ) + index_bins(&cd.enemy_normal_wave_interval) + index_bins(&cd.enemy_normal_wave_difficulty)
        + index_bins(&cd.enemy_diversity) + index_bins(&cd.stationary_enemy_diversity) + number_bins(
        &cd.veteran_normal,
    ) + number_bins(&cd.veteran_large) + index_range_findings(&cd.disruptive_enemy_pool_count)
        + index_range_findings(&cd.min_pool_size)
}

fn warn(range: Span, min: Span, max: Span, diag: &mut Vec<Diagnostic>)
    ensures
        views(final(diag)@) == views(old(diag)@).push(min_max_warning(range, min, max)),
{
    let d = Diagnostic::new(
        Severity::Warning,
        range.lo,
        String::from_str(
            "min > max in this range, which may lead to surprising behavior in Custom Difficulty and in game",
        ),
    ).with_label(Label::new(min, Color::Yellow)).with_label(Label::new(max, Color::Yellow));
    assert(d@.labels =~= min_max_warning(range, min, max).labels);
    report(diag, d);
}

fn int_range_check(r: &Spanned<Range<usize>>, diag: &mut Vec<Diagnostic>)
    ensures
        views(final(diag)@) == views(old(diag)@) + index_range_findings(r),
{
    if r.val.min.val > r.val.max.val {
        warn(r.span, r.val.min.span, r.val.max.span, diag);
    }
    assert(views(diag@) =~= views(old(diag)@) + index_range_findings(r));
}

fn float_range_check(r: &Spanned<Range<Number>>, diag: &mut Vec<Diagnostic>)
    ensures
        views(final(diag)@) == views(old(diag)@) + number_range_findings(r),
{
    if r.val.min.val.greater_than(&r.val.max.val) {
        warn(r.span, r.val.min.span, r.val.max.span, diag);
    }
    assert(views(diag@) =~= views(old(diag)@) + number_range_findings(r));
}

fn weighted_int_range_check(bins: &Spanned<Vec<Spanned<WeightedRange<usize>>>>, diag: &mut Vec<Diagnostic>)
    ensures
        views(final(diag)@) == views(old(diag)@) + index_bins(bins),
{
    let n = bins.val.len();
    let mut i: usize = 0;
    assert(views(diag@) =~= views(old(diag)@) + index_bins_findings(bins.val@, 0));
    while i < n
        invariant
            i <= n,
            n == bins.val@.len(),
            views(diag@) == views(old(diag)@) + index_bins_findings(bins.val@, i as int),
        decreases n - i,
    {
        let ghost before = views(diag@);
        int_range_check(&bins.val[i].val.range, diag);
        assert(views(diag@) =~= views(old(diag)@) + index_bins_findings(bins.val@, i + 1));
        i += 1;
    }
}

fn weighted_float_range_check(
    bins: &Spanned<Vec<Spanned<WeightedRange<Number>>>>,
    diag: &mut Vec<Diagnostic>,
)
    ensures
        views(final(diag)@) == views(old(diag)@) + number_bins(bins),
{
    let n = bins.val.len();
    let mut i: usize = 0;
    assert(views(diag@) =~= views(old(diag)@) + number_bins_findings(bins.val@, 0));
    while i < n
        invariant
            i <= n,
            n == bins.val@.len(),
            views(diag@) == views(old(diag)@) + number_bins_findings(bins.val@, i as int),
        decreases n - i,
    {
        float_range_check(&bins.val[i].val.range, diag);
        assert(views(diag@) =~= views(old(diag)@) + number_bins_findings(bins.val@, i + 1));
        i += 1;
    }
}

/// Warns for each range whose `min` exceeds its `max`.
pub fn lint_min_larger_than_max(_config: &Config, cd: &CustomDifficulty, diag: &mut Vec<Diagnostic>)
    ensures
        views(final(diag)@) == views(old(diag)@) + min_max_findings(cd),
{
    weighted_int_range_check(&cd.encounter_difficulty, diag);
    weighted_int_range_check(&cd.stationary_difficulty, diag);
    weighted_int_range_check(&cd.enemy_wave_interval, diag);
    weighted_int_range_check(&cd.enemy_normal_wave_interval, diag);
    weighted_int_range_check(&cd.enemy_normal_wave_difficulty, diag);
    weighted_int_range_check(&cd.enemy_diversity, diag);
    weighted_int_range_check(&cd.stationary_enemy_diversity, diag);
    weighted_float_range_check(&cd.veteran_normal, diag);
    weighted_float_range_check(&cd.veteran_large, diag);
    int_range_check(&cd.disruptive_enemy_pool_count, diag);
    int_range_check(&cd.min_pool_size, diag);
    assert(views(diag@) =~= views(old(diag)@) + min_max_findings(cd));
}

} // verus!
