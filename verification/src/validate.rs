//! The values of the schema that are no objects: what a value of each
//! kind must be, and the diagnostic for one that is not.

use crate::custom_difficulty::ArrayOrSingleItem;
use crate::diagnostic::{Color, Diagnostic, DiagnosticView, Label, LabelView, report, Severity, views};
use crate::json::Json;
use crate::number::Number;
use crate::span::{Span, Spanned};
use vstd::prelude::*;
use vstd::string::*;

verus! {

/// What the check of a value gives: the value, or the diagnostic that says
/// why it is none.
#[derive(Debug)]
pub enum ValidationResult<T> {
    Valid(T),
    Invalid(Diagnostic),
}

/// The error for the text at `span`, where `expected` was expected and
/// `found` stands.
pub open spec fn expectation_error(span: Span, expected: Seq<char>, found: Seq<char>) -> DiagnosticView {
    DiagnosticView {
        severity: Severity::Error,
        offset: span.lo,
        message: "expected "@ + expected + ", found "@ + found,
        labels: seq![LabelView { span, color: Color::Red, message: None }],
        help: None,
    }
}

/// The diagnostic for the text at `span`, where `expected` was expected
/// and `found` stands.
pub fn expectation(span: Span, expected: &str, found: &str) -> (d: Diagnostic)
    ensures
        d@ == expectation_error(span, expected@, found@),
{
    let mut message = String::from_str("expected ");
    message.append(expected);
    message.append(", found ");
    message.append(found);
    let d = Diagnostic::new(Severity::Error, span.lo, message).with_label(Label::new(span, Color::Red));
    assert(d@.labels =~= expectation_error(span, expected@, found@).labels);
    d
}

/// The error for `node`, which is of another kind than `expected`.
pub open spec fn mismatch(node: &Spanned<Json>, expected: Seq<char>) -> DiagnosticView {
    expectation_error(node.span, expected, node.val.spec_kind().desc())
}

fn mismatched(node: &Spanned<Json>, expected: &str) -> (d: Diagnostic)
    ensures
        d@ == mismatch(node, expected@),
{
    expectation(node.span, expected, node.val.kind_desc())
}

/// Reports the diagnostic of a check that failed.
pub fn settle<T>(r: ValidationResult<T>, diag: &mut Vec<Diagnostic>) -> (value: Option<T>)
    ensures
        match r {
            ValidationResult::Valid(v) => value == Some(v) && views(final(diag)@) == views(old(diag)@),
            ValidationResult::Invalid(d) => value.is_none() && views(final(diag)@) == views(old(diag)@).push(
                d@,
            ),
        },
{
    match r {
        ValidationResult::Valid(v) => Some(v),
        ValidationResult::Invalid(d) => {
            report(diag, d);
            None
        },
    }
}

/// What is wrong with `node` as a string: a diagnostic, or none.
pub open spec fn text_findings(node: &Spanned<Json>) -> Seq<DiagnosticView> {
    if node.val is Str {
        Seq::empty()
    } else {
        seq![mismatch(node, "string"@)]
    }
}

/// `out` is the string `node`, with its span.
pub open spec fn text_value(node: &Spanned<Json>, out: &Spanned<String>) -> bool {
    node.val matches Json::Str(s) && out.span == node.span && out.val@ == s@
}

/// Checks that `node` is a string.
pub fn validate_text(node: &Spanned<Json>) -> (r: ValidationResult<Spanned<String>>)
    ensures
        match r {
            ValidationResult::Valid(out) => text_findings(node).len() == 0 && text_value(node, &out),
            ValidationResult::Invalid(d) => text_findings(node) == seq![d@],
        },
{
    match &node.val {
        Json::Str(s) => ValidationResult::Valid(Spanned::new(node.span, s.clone())),
        _ => ValidationResult::Invalid(mismatched(node, "string")),
    }
}

/// What is wrong with `node` as a truth value: a diagnostic, or none.
pub open spec fn flag_findings(node: &Spanned<Json>) -> Seq<DiagnosticView> {
    if node.val is Bool {
        Seq::empty()
    } else {
        seq![mismatch(node, "bool"@)]
    }
}

/// `out` is the truth value `node`, with its span.
pub open spec fn flag_value(node: &Spanned<Json>, out: &Spanned<bool>) -> bool {
    node.val matches Json::Bool(b) && out.span == node.span && out.val == b
}

/// Checks that `node` is a truth value.
pub fn validate_flag(node: &Spanned<Json>) -> (r: ValidationResult<Spanned<bool>>)
    ensures
        match r {
            ValidationResult::Valid(out) => flag_findings(node).len() == 0 && flag_value(node, &out),
            ValidationResult::Invalid(d) => flag_findings(node) == seq![d@],
        },
{
    match &node.val {
        Json::Bool(b) => ValidationResult::Valid(Spanned::new(node.span, *b)),
        _ => ValidationResult::Invalid(mismatched(node, "bool")),
    }
}

/// `n` is finite and not negative.
pub open spec fn in_domain(n: &Number) -> bool {
    !n.negative && n.finite()
}

/// What is wrong with `node` as a number of the schema: where it is a
/// number that is negative or not finite, a diagnostic that cites it as it
/// was written; where it is no number, a diagnostic that names its kind.
pub open spec fn number_findings(node: &Spanned<Json>) -> Seq<DiagnosticView> {
    match node.val {
        Json::Num(n) => if in_domain(&n) {
            Seq::empty()
        } else {
            seq![expectation_error(node.span, "a finite number that is not negative"@, n.text@)]
        },
        _ => seq![mismatch(node, "number"@)],
    }
}

/// `out` is the number `node`.
pub open spec fn number_is(node: &Spanned<Json>, out: &Number) -> bool {
    node.val matches Json::Num(n) && out@ == n@
}

/// `out` is the number `node`, with its span.
pub open spec fn number_value(node: &Spanned<Json>, out: &Spanned<Number>) -> bool {
    number_is(node, &out.val) && out.span == node.span
}

/// Checks that `node` is a number that is finite and not negative.
pub fn validate_number(node: &Spanned<Json>) -> (r: ValidationResult<Spanned<Number>>)
    ensures
        match r {
            ValidationResult::Valid(out) => number_findings(node).len() == 0 && number_value(node, &out),
            ValidationResult::Invalid(d) => number_findings(node) == seq![d@],
        },
{
    match &node.val {
        Json::Num(n) => {
            if !n.is_negative() && n.is_finite() {
                ValidationResult::Valid(Spanned::new(node.span, n.copy()))
            } else {
                ValidationResult::Invalid(
                    expectation(node.span, "a finite number that is not negative", n.text.as_str()),
                )
            }
        },
        _ => ValidationResult::Invalid(mismatched(node, "number")),
    }
}

/// What is wrong with `node` as a count: where it is a number that is no
/// natural number, or one that the machine cannot hold, a diagnostic that
/// cites it as it was written; where it is no number, a diagnostic that
/// names its kind.
pub open spec fn index_findings(node: &Spanned<Json>) -> Seq<DiagnosticView> {
    match node.val {
        Json::Num(n) => if n.as_index().is_some() {
            Seq::empty()
        } else {
            seq![expectation_error(node.span, "a whole number that is not negative"@, n.text@)]
        },
        _ => seq![mismatch(node, "number"@)],
    }
}

/// `out` is the count `node`.
pub open spec fn index_is(node: &Spanned<Json>, out: usize) -> bool {
    node.val matches Json::Num(n) && n.as_index() == Some(out)
}

/// `out` is the count `node`, with its span.
pub open spec fn index_value(node: &Spanned<Json>, out: &Spanned<usize>) -> bool {
    index_is(node, out.val) && out.span == node.span
}

/// Checks that `node` is a natural number.
pub fn validate_index(node: &Spanned<Json>) -> (r: ValidationResult<Spanned<usize>>)
    ensures
        match r {
            ValidationResult::Valid(out) => index_findings(node).len() == 0 && index_value(node, &out),
            ValidationResult::Invalid(d) => index_findings(node) == seq![d@],
        },
{
    match &node.val {
        Json::Num(n) => {
            match n.to_usize() {
                Some(v) => ValidationResult::Valid(Spanned::new(node.span, v)),
                None => ValidationResult::Invalid(
                    expectation(node.span, "a whole number that is not negative", n.text.as_str()),
                ),
            }
        },
        _ => ValidationResult::Invalid(mismatched(node, "number")),
    }
}

/// What is wrong with the first `upto` of `items` as numbers.
pub open spec fn numbers_among(items: Seq<Spanned<Json>>, upto: int) -> Seq<DiagnosticView>
    decreases upto,
{
    if upto <= 0 || upto > items.len() {
        Seq::empty()
    } else {
        numbers_among(items, upto - 1) + number_findings(&items[upto - 1])
    }
}

/// What is wrong with `node` as one number or an array of numbers.
pub open spec fn numbers_findings(node: &Spanned<Json>) -> Seq<DiagnosticView> {
    match node.val {
        Json::Num(_) => number_findings(node),
        Json::Array(items) => numbers_among(items@, items@.len() as int),
        _ => seq![mismatch(node, "number or array of numbers"@)],
    }
}

/// `out` holds the number `node`, or the numbers of the array `node` in their order.
pub open spec fn numbers_value(node: &Spanned<Json>, out: &Spanned<ArrayOrSingleItem<Number>>) -> bool {
    &&& out.span == node.span
    &&& match node.val {
        Json::Num(_) => out.val matches ArrayOrSingleItem::SingleItem(m) && number_is(node, &m),
        Json::Array(items) => out.val matches ArrayOrSingleItem::Array(v) && v@.len() == items@.len()
            && forall|k: int| 0 <= k < v@.len() ==> number_is(&items@[k], &#[trigger] v@[k]),
        _ => false,
    }
}

/// Checks that `node` is a number or an array of numbers, each finite and
/// not negative, and reports what is wrong.
pub fn decode_numbers(node: &Spanned<Json>, diag: &mut Vec<Diagnostic>) -> (r: Option<
    Spanned<ArrayOrSingleItem<Number>>,
>)
    ensures
        views(final(diag)@) == views(old(diag)@) + numbers_findings(node),
        match r {
            Some(out) => numbers_findings(node).len() == 0 && numbers_value(node, &out),
            None => numbers_findings(node).len() > 0,
        },
{
    match &node.val {
        Json::Num(_) => {
            let r = settle(validate_number(node), diag);
            assert(views(diag@) =~= views(old(diag)@) + numbers_findings(node));
            match r {
                Some(n) => Some(Spanned::new(node.span, ArrayOrSingleItem::SingleItem(n.val))),
                None => None,
            }
        },
        Json::Array(items) => {
            let mut values: Vec<Number> = Vec::new();
            let mut fine = true;
            let mut k: usize = 0;
            assert(views(diag@) =~= views(old(diag)@) + numbers_among(items@, 0));
            while k < items.len()
                invariant
                    k <= items@.len(),
                    views(diag@) == views(old(diag)@) + numbers_among(items@, k as int),
                    fine == (numbers_among(items@, k as int).len() == 0),
                    fine ==> values@.len() == k && forall|j: int|
                        0 <= j < k ==> number_is(&items@[j], &#[trigger] values@[j]),
                decreases items@.len() - k,
            {
                let ghost before = values@;
                match settle(validate_number(&items[k]), diag) {
                    Some(n) => {
                        if fine {
                            values.push(n.val);
                            assert forall|j: int| 0 <= j < k + 1 implies number_is(
                                &items@[j],
                                &#[trigger] values@[j],
                            ) by {
                                if j < k {
                                    assert(values@[j] == before[j]);
                                }
                            }
                        }
                    },
                    None => {
                        fine = false;
                    },
                }
                assert(views(diag@) =~= views(old(diag)@) + numbers_among(items@, k + 1));
                k += 1;
            }
            if fine {
                Some(Spanned::new(node.span, ArrayOrSingleItem::Array(values)))
            } else {
                None
            }
        },
        _ => {
            report(diag, mismatched(node, "number or array of numbers"));
            assert(views(diag@) =~= views(old(diag)@) + numbers_findings(node));
            None
        },
    }
}

/// What is wrong with the first `upto` of `items` as counts.
pub open spec fn indices_among(items: Seq<Spanned<Json>>, upto: int) -> Seq<DiagnosticView>
    decreases upto,
{
    if upto <= 0 || upto > items.len() {
        Seq::empty()
    } else {
        indices_among(items, upto - 1) + index_findings(&items[upto - 1])
    }
}

/// What is wrong with `node` as one count or an array of counts.
pub open spec fn indices_findings(node: &Spanned<Json>) -> Seq<DiagnosticView> {
    match node.val {
        Json::Num(_) => index_findings(node),
        Json::Array(items) => indices_among(items@, items@.len() as int),
        _ => seq![mismatch(node, "number or array of numbers"@)],
    }
}

/// `out` holds the count `node`, or the counts of the array `node` in their order.
pub open spec fn indices_value(node: &Spanned<Json>, out: &Spanned<ArrayOrSingleItem<usize>>) -> bool {
    &&& out.span == node.span
    &&& match node.val {
        Json::Num(_) => out.val matches ArrayOrSingleItem::SingleItem(m) && index_is(node, m),
        Json::Array(items) => out.val matches ArrayOrSingleItem::Array(v) && v@.len() == items@.len()
            && forall|k: int| 0 <= k < v@.len() ==> index_is(&items@[k], #[trigger] v@[k]),
        _ => false,
    }
}

/// Checks that `node` is a count or an array of counts, and reports what is wrong.
pub fn decode_indices(node: &Spanned<Json>, diag: &mut Vec<Diagnostic>) -> (r: Option<
    Spanned<ArrayOrSingleItem<usize>>,
>)
    ensures
        views(final(diag)@) == views(old(diag)@) + indices_findings(node),
        match r {
            Some(out) => indices_findings(node).len() == 0 && indices_value(node, &out),
            None => indices_findings(node).len() > 0,
        },
{
    match &node.val {
        Json::Num(_) => {
            let r = settle(validate_index(node), diag);
            assert(views(diag@) =~= views(old(diag)@) + indices_findings(node));
            match r {
                Some(n) => Some(Spanned::new(node.span, ArrayOrSingleItem::SingleItem(n.val))),
                None => None,
            }
        },
        Json::Array(items) => {
            let mut values: Vec<usize> = Vec::new();
            let mut fine = true;
            let mut k: usize = 0;
            assert(views(diag@) =~= views(old(diag)@) + indices_among(items@, 0));
            while k < items.len()
                invariant
                    k <= items@.len(),
                    views(diag@) == views(old(diag)@) + indices_among(items@, k as int),
                    fine == (indices_among(items@, k as int).len() == 0),
                    fine ==> values@.len() == k && forall|j: int|
                        0 <= j < k ==> index_is(&items@[j], #[trigger] values@[j]),
                decreases items@.len() - k,
            {
                match settle(validate_index(&items[k]), diag) {
                    Some(n) => {
                        if fine {
                            values.push(n.val);
                        }
                    },
                    None => {
                        fine = false;
                    },
                }
                assert(views(diag@) =~= views(old(diag)@) + indices_among(items@, k + 1));
                k += 1;
            }
            if fine {
                Some(Spanned::new(node.span, ArrayOrSingleItem::Array(values)))
            } else {
                None
            }
        },
        _ => {
            report(diag, mismatched(node, "number or array of numbers"));
            assert(views(diag@) =~= views(old(diag)@) + indices_findings(node));
            None
        },
    }
}

/// What is wrong with the first `upto` of `items` as strings.
pub open spec fn texts_among(items: Seq<Spanned<Json>>, upto: int) -> Seq<DiagnosticView>
    decreases upto,
{
    if upto <= 0 || upto > items.len() {
        Seq::empty()
    } else {
        texts_among(items, upto - 1) + text_findings(&items[upto - 1])
    }
}

/// What is wrong with `node` as an array of strings.
pub open spec fn texts_findings(node: &Spanned<Json>) -> Seq<DiagnosticView> {
    match node.val {
        Json::Array(items) => texts_among(items@, items@.len() as int),
        _ => seq![mismatch(node, "array of strings"@)],
    }
}

/// `out` holds the strings of the array `node` in their order, each with its span.
pub open spec fn texts_value(node: &Spanned<Json>, out: &Spanned<Vec<Spanned<String>>>) -> bool {
    &&& out.span == node.span
    &&& node.val matches Json::Array(items) && out.val@.len() == items@.len() && forall|k: int|
        0 <= k < out.val@.len() ==> text_value(&items@[k], &#[trigger] out.val@[k])
}

/// Checks that `node` is an array of strings, and reports what is wrong.
pub fn decode_texts(node: &Spanned<Json>, diag: &mut Vec<Diagnostic>) -> (r: Option<
    Spanned<Vec<Spanned<String>>>,
>)
    ensures
        views(final(diag)@) == views(old(diag)@) + texts_findings(node),
        match r {
            Some(out) => texts_findings(node).len() == 0 && texts_value(node, &out),
            None => texts_findings(node).len() > 0,
        },
{
    match &node.val {
        Json::Array(items) => {
            let mut values: Vec<Spanned<String>> = Vec::new();
            let mut fine = true;
            let mut k: usize = 0;
            assert(views(diag@) =~= views(old(diag)@) + texts_among(items@, 0));
            while k < items.len()
                invariant
                    k <= items@.len(),
                    views(diag@) == views(old(diag)@) + texts_among(items@, k as int),
                    fine == (texts_among(items@, k as int).len() == 0),
                    fine ==> values@.len() == k && forall|j: int|
                        0 <= j < k ==> text_value(&items@[j], &#[trigger] values@[j]),
                decreases items@.len() - k,
            {
                let ghost before = values@;
                match settle(validate_text(&items[k]), diag) {
                    Some(text) => {
                        if fine {
                            values.push(text);
                            assert forall|j: int| 0 <= j < k + 1 implies text_value(
                                &items@[j],
                                &#[trigger] values@[j],
                            ) by {
                                if j < k {
                                    assert(values@[j] == before[j]);
                                }
                            }
                        }
                    },
                    None => {
                        fine = false;
                    },
                }
                assert(views(diag@) =~= views(old(diag)@) + texts_among(items@, k + 1));
                k += 1;
            }
            if fine {
                Some(Spanned::new(node.span, values))
            } else {
                None
            }
        },
        _ => {
            report(diag, mismatched(node, "array of strings"));
            assert(views(diag@) =~= views(old(diag)@) + texts_findings(node));
            None
        },
    }
}

} // verus!
