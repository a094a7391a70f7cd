//! Arrays of weighted ranges.

use crate::custom_difficulty::WeightedRange;
use crate::diagnostic::{Diagnostic, DiagnosticView, report, views};
use crate::json::Json;
use crate::members::{find_member, Member, member_named};
use crate::number::Number;
use crate::objects::{
    decode_weighted_index_range, decode_weighted_number_range, weighted_index_range_findings,
    weighted_index_range_value, weighted_number_range_findings, weighted_number_range_value,
};
use crate::span::Spanned;
use crate::validate::{expectation, mismatch};
use vstd::prelude::*;

verus! {

/// What the first `upto` of `items` report as weighted ranges of counts.
pub open spec fn index_bins_among(items: Seq<Spanned<Json>>, upto: int) -> Seq<DiagnosticView>
    decreases upto,
{
    if upto <= 0 || upto > items.len() {
        Seq::empty()
    } else {
        index_bins_among(items, upto - 1) + weighted_index_range_findings(&items[upto - 1])
    }
}

/// What `node` reports as an array of weighted ranges of counts.
pub open spec fn index_bins_findings(node: &Spanned<Json>) -> Seq<DiagnosticView> {
    match node.val {
        Json::Array(items) => index_bins_among(items@, items@.len() as int),
        _ => seq![mismatch(node, "array of objects"@)],
    }
}

/// `node` is an array of objects.
pub open spec fn index_bins_accepted(node: &Spanned<Json>) -> bool {
    node.val matches Json::Array(items) && forall|k: int| 0 <= k < items@.len() ==> (#[trigger] items@[k]).val is Object
}

/// `out` holds the weighted ranges of the array `node` in their order.
pub open spec fn index_bins_value(node: &Spanned<Json>, out: &Spanned<Vec<Spanned<WeightedRange<usize>>>>) -> bool {
    &&& out.span == node.span
    &&& node.val matches Json::Array(items) && out.val@.len() == items@.len() && forall|k: int|
        0 <= k < out.val@.len() ==> weighted_index_range_value(&items@[k], &#[trigger] out.val@[k])
}

/// Decodes `node` as an array of weighted ranges of counts: there is a
/// value where `node` is an array of objects.
pub fn decode_index_bins(node: &Spanned<Json>, diag: &mut Vec<Diagnostic>) -> (r: Option<
    Spanned<Vec<Spanned<WeightedRange<usize>>>>,
>)
    ensures
        views(final(diag)@) == views(old(diag)@) + index_bins_findings(node),
        match r {
            Some(out) => index_bins_accepted(node) && index_bins_value(node, &out),
            None => !index_bins_accepted(node),
        },
{
    match &node.val {
        Json::Array(items) => {
            let mut values: Vec<Spanned<WeightedRange<usize>>> = Vec::new();
            let mut fine = true;
            let mut k: usize = 0;
            assert(views(diag@) =~= views(old(diag)@) + index_bins_among(items@, 0));
            while k < items.len()
                invariant
                    k <= items@.len(),
                    views(diag@) == views(old(diag)@) + index_bins_among(items@, k as int),
                    fine == (forall|j: int| 0 <= j < k ==> (#[trigger] items@[j]).val is Object),
                    fine ==> values@.len() == k && forall|j: int|
                        0 <= j < k ==> weighted_index_range_value(&items@[j], &#[trigger] values@[j]),
                decreases items@.len() - k,
            {
                let ghost before = values@;
                match decode_weighted_index_range(&items[k], diag) {
                    Some(bin) => {
                        if fine {
                            values.push(bin);
                            assert forall|j: int| 0 <= j < k + 1 implies weighted_index_range_value(
                                &items@[j],
                                &#[trigger] values@[j],
                            ) by {
                                if j < k {
                                    assert(values@[j] == before[j]);
                                }
                            }
                        }
                    },
                    None => {
                        fine = false;
                    },
                }
                assert(views(diag@) =~= views(old(diag)@) + index_bins_among(items@, k + 1));
                k += 1;
            }
            if fine {
                Some(Spanned::new(node.span, values))
            } else {
                None
            }
        },
        _ => {
            report(diag, expectation(node.span, "array of objects", node.val.kind_desc()));
            assert(views(diag@) =~= views(old(diag)@) + index_bins_findings(node));
            None
        },
    }
}

/// What the member `key` of `members` reports as weighted ranges of counts: nothing where
/// there is no such member.
#[verifier::opaque]
pub open spec fn index_bins_field_findings(members: Seq<Member>, key: Seq<char>) -> Seq<DiagnosticView> {
    match member_named(members, key) {
        Some(k) => index_bins_findings(&members[k].1),
        None => Seq::empty(),
    }
}

/// `out` is what the member `key` of `members` gives as weighted ranges of counts: its value
/// where it is accepted, and `fallback` where it is not, or where there is
/// no such member.
#[verifier::opaque]
pub open spec fn index_bins_field(
    members: Seq<Member>,
    key: Seq<char>,
    out: &Spanned<Vec<Spanned<WeightedRange<usize>>>>,
    fallback: &Spanned<Vec<Spanned<WeightedRange<usize>>>>,
) -> bool {
    match member_named(members, key) {
        Some(k) => if index_bins_accepted(&members[k].1) {
            index_bins_value(&members[k].1, out)
        } else {
            out == fallback
        },
        None => out == fallback,
    }
}

/// Decodes the member `key` of `members` as weighted ranges of counts.
pub fn decode_index_bins_field(
    members: &Vec<Member>,
    key: &str,
    fallback: Spanned<Vec<Spanned<WeightedRange<usize>>>>,
    diag: &mut Vec<Diagnostic>,
) -> (out: Spanned<Vec<Spanned<WeightedRange<usize>>>>)
    ensures
        views(final(diag)@) == views(old(diag)@) + index_bins_field_findings(members@, key@),
        index_bins_field(members@, key@, &out, &fallback),
{
    reveal(index_bins_field);
    reveal(index_bins_field_findings);
    match find_member(members, key) {
        Some(k) => {
            match decode_index_bins(&members[k].1, diag) {
                Some(value) => value,
                None => fallback,
            }
        },
        None => {
            assert(views(diag@) =~= views(old(diag)@) + index_bins_field_findings(members@, key@));
            fallback
        },
    }
}

/// `out` is what the member `key` of `members` gives as weighted ranges of counts: its value
/// where it is accepted; where it is not, or where there is no such
/// member, `is_default` holds.
#[verifier::opaque]
pub open spec fn index_bins_held(
    members: Seq<Member>,
    key: Seq<char>,
    out: &Spanned<Vec<Spanned<WeightedRange<usize>>>>,
    is_default: bool,
) -> bool {
    match member_named(members, key) {
        Some(k) => if index_bins_accepted(&members[k].1) {
            index_bins_value(&members[k].1, out)
        } else {
            is_default
        },
        None => is_default,
    }
}

/// What a field is given holds of it, where the default holds of the fallback.
pub proof fn lemma_index_bins_held(
    members: Seq<Member>,
    key: Seq<char>,
    out: &Spanned<Vec<Spanned<WeightedRange<usize>>>>,
    fallback: &Spanned<Vec<Spanned<WeightedRange<usize>>>>,
    is_default: bool,
)
    requires
        index_bins_field(members, key, out, fallback),
        out == fallback ==> is_default,
    ensures
        index_bins_held(members, key, out, is_default),
{
    reveal(index_bins_field);
    reveal(index_bins_held);
}

/// What the first `upto` of `items` report as weighted ranges of numbers.
pub open spec fn number_bins_among(items: Seq<Spanned<Json>>, upto: int) -> Seq<DiagnosticView>
    decreases upto,
{
    if upto <= 0 || upto > items.len() {
        Seq::empty()
    } else {
        number_bins_among(items, upto - 1) + weighted_number_range_findings(&items[upto - 1])
    }
}

/// What `node` reports as an array of weighted ranges of numbers.
pub open spec fn number_bins_findings(node: &Spanned<Json>) -> Seq<DiagnosticView> {
    match node.val {
        Json::Array(items) => number_bins_among(items@, items@.len() as int),
        _ => seq![mismatch(node, "array of objects"@)],
    }
}

/// `node` is an array of objects.
pub open spec fn number_bins_accepted(node: &Spanned<Json>) -> bool {
    node.val matches Json::Array(items) && forall|k: int| 0 <= k < items@.len() ==> (#[trigger] items@[k]).val is Object
}

/// `out` holds the weighted ranges of the array `node` in their order.
pub open spec fn number_bins_value(node: &Spanned<Json>, out: &Spanned<Vec<Spanned<WeightedRange<Number>>>>) -> bool {
    &&& out.span == node.span
    &&& node.val matches Json::Array(items) && out.val@.len() == items@.len() && forall|k: int|
        0 <= k < out.val@.len() ==> weighted_number_range_value(&items@[k], &#[trigger] out.val@[k])
}

/// Decodes `node` as an array of weighted ranges of numbers: there is a
/// value where `node` is an array of objects.
pub fn decode_number_bins(node: &Spanned<Json>, diag: &mut Vec<Diagnostic>) -> (r: Option<
    Spanned<Vec<Spanned<WeightedRange<Number>>>>,
>)
    ensures
        views(final(diag)@) == views(old(diag)@) + number_bins_findings(node),
        match r {
            Some(out) => number_bins_accepted(node) && number_bins_value(node, &out),
            None => !number_bins_accepted(node),
        },
{
    match &node.val {
        Json::Array(items) => {
            let mut values: Vec<Spanned<WeightedRange<Number>>> = Vec::new();
            let mut fine = true;
            let mut k: usize = 0;
            assert(views(diag@) =~= views(old(diag)@) + number_bins_among(items@, 0));
            while k < items.len()
                invariant
                    k <= items@.len(),
                    views(diag@) == views(old(diag)@) + number_bins_among(items@, k as int),
                    fine == (forall|j: int| 0 <= j < k ==> (#[trigger] items@[j]).val is Object),
                    fine ==> values@.len() == k && forall|j: int|
                        0 <= j < k ==> weighted_number_range_value(&items@[j], &#[trigger] values@[j]),
                decreases items@.len() - k,
            {
                let ghost before = values@;
                match decode_weighted_number_range(&items[k], diag) {
                    Some(bin) => {
                        if fine {
                            values.push(bin);
                            assert forall|j: int| 0 <= j < k + 1 implies weighted_number_range_value(
                                &items@[j],
                                &#[trigger] values@[j],
                            ) by {
                                if j < k {
                                    assert(values@[j] == before[j]);
                                }
                            }
                        }
                    },
                    None => {
                        fine = false;
                    },
                }
                assert(views(diag@) =~= views(old(diag)@) + number_bins_among(items@, k + 1));
                k += 1;
            }
            if fine {
                Some(Spanned::new(node.span, values))
            } else {
                None
            }
        },
        _ => {
            report(diag, expectation(node.span, "array of objects", node.val.kind_desc()));
            assert(views(diag@) =~= views(old(diag)@) + number_bins_findings(node));
            None
        },
    }
}

/// What the member `key` of `members` reports as weighted ranges of numbers: nothing where
/// there is no such member.
#[verifier::opaque]
pub open spec fn number_bins_field_findings(members: Seq<Member>, key: Seq<char>) -> Seq<DiagnosticView> {
    match member_named(members, key) {
        Some(k) => number_bins_findings(&members[k].1),
        None => Seq::empty(),
    }
}

/// `out` is what the member `key` of `members` gives as weighted ranges of numbers: its value
/// where it is accepted, and `fallback` where it is not, or where there is
/// no such member.
#[verifier::opaque]
pub open spec fn number_bins_field(
    members: Seq<Member>,
    key: Seq<char>,
    out: &Spanned<Vec<Spanned<WeightedRange<Number>>>>,
    fallback: &Spanned<Vec<Spanned<WeightedRange<Number>>>>,
) -> bool {
    match member_named(members, key) {
        Some(k) => if number_bins_accepted(&members[k].1) {
            number_bins_value(&members[k].1, out)
        } else {
            out == fallback
        },
        None => out == fallback,
    }
}

/// Decodes the member `key` of `members` as weighted ranges of numbers.
pub fn decode_number_bins_field(
    members: &Vec<Member>,
    key: &str,
    fallback: Spanned<Vec<Spanned<WeightedRange<Number>>>>,
    diag: &mut Vec<Diagnostic>,
) -> (out: Spanned<Vec<Spanned<WeightedRange<Number>>>>)
    ensures
        views(final(diag)@) == views(old(diag)@) + number_bins_field_findings(members@, key@),
        number_bins_field(members@, key@, &out, &fallback),
{
    reveal(number_bins_field);
    reveal(number_bins_field_findings);
    match find_member(members, key) {
        Some(k) => {
            match decode_number_bins(&members[k].1, diag) {
                Some(value) => value,
                None => fallback,
            }
        },
        None => {
            assert(views(diag@) =~= views(old(diag)@) + number_bins_field_findings(members@, key@));
            fallback
        },
    }
}

/// `out` is what the member `key` of `members` gives as weighted ranges of numbers: its value
/// where it is accepted; where it is not, or where there is no such
/// member, `is_default` holds.
#[verifier::opaque]
pub open spec fn number_bins_held(
    members: Seq<Member>,
    key: Seq<char>,
    out: &Spanned<Vec<Spanned<WeightedRange<Number>>>>,
    is_default: bool,
) -> bool {
    match member_named(members, key) {
        Some(k) => if number_bins_accepted(&members[k].1) {
            number_bins_value(&members[k].1, out)
        } else {
            is_default
        },
        None => is_default,
    }
}

/// What a field is given holds of it, where the default holds of the fallback.
pub proof fn lemma_number_bins_held(
    members: Seq<Member>,
    key: Seq<char>,
    out: &Spanned<Vec<Spanned<WeightedRange<Number>>>>,
    fallback: &Spanned<Vec<Spanned<WeightedRange<Number>>>>,
    is_default: bool,
)
    requires
        number_bins_field(members, key, out, fallback),
        out == fallback ==> is_default,
    ensures
        number_bins_held(members, key, out, is_default),
{
    reveal(number_bins_field);
    reveal(number_bins_held);
}

} // verus!
