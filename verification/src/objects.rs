//! The objects of the schema that have a fixed set of members: ranges,
//! weighted ranges, enemy pools and the escort mule.

use crate::config::names_view;
use crate::custom_difficulty::{
    default_flag, default_half, default_index, default_index_range, default_list, default_number,
    default_number_range, default_tenth, EnemyPool, EscortMule, Range, tenths, WeightedRange,
};
use crate::diagnostic::{Diagnostic, DiagnosticView, report, views};
use crate::fields::{
    decode_flag_field, decode_index_field, decode_number_field, decode_texts_field, flag_field_findings,
    flag_held, index_field_findings, index_held, lemma_flag_held, lemma_index_held, lemma_number_held,
    lemma_texts_held, number_field_findings, number_held, texts_field_findings, texts_held,
};
use crate::json::Json;
use crate::members::{
    duplicate_findings, find_member, lemma_reported, Member, member_named, report_duplicates, report_gap,
    sorted_members, unknown_in_gap,
};
use crate::number::Number;
use crate::span::Spanned;
use crate::validate::{expectation, mismatch};
use vstd::prelude::*;
use vstd::string::*;

verus! {

/// The keys of a range of counts.
pub open spec fn index_range_names() -> Seq<Seq<char>> {
    seq![
        "max"@,
        "min"@,
    ]
}

/// The keys of a range of counts.
pub fn index_range_keys() -> (keys: Vec<String>)
    ensures
        names_view(keys@) == index_range_names(),
{
    let mut keys: Vec<String> = Vec::new();
    keys.push(String::from_str("max"));
    keys.push(String::from_str("min"));
    assert(names_view(keys@) =~= index_range_names());
    keys
}

/// What the members of a range of counts report: the members that repeat a key, in
/// the order of the input; then, in the order of the keys, what each member
/// that the schema knows reports of its value, and each member that the
/// schema does not know.
#[verifier::opaque]
pub open spec fn index_range_object_findings(members: Seq<Member>) -> Seq<DiagnosticView> {
    let known = index_range_names();
    let a = duplicate_findings(members, members.len() as int);
    let a = a + unknown_in_gap(members, known, None, Some("max"@));
    let a = a + index_field_findings(members, "max"@);
    let a = a + unknown_in_gap(members, known, Some("max"@), Some("min"@));
    let a = a + index_field_findings(members, "min"@);
    a + unknown_in_gap(members, known, Some("min"@), None)
}

/// `out` is what the members of a range of counts give: each field has the value of
/// its member, where that is accepted, and else its default.
#[verifier::opaque]
pub open spec fn index_range_object_value(members: Seq<Member>, out: &Range<usize>) -> bool {
    &&& index_held(
        members,
        "max"@,
        &out.max,
        default_index(out.max),
    )
    &&& index_held(
        members,
        "min"@,
        &out.min,
        default_index(out.min),
    )
}

/// Decodes the members of a range of counts.
pub fn decode_index_range_object(
    members: &Vec<Member>,
    diag: &mut Vec<Diagnostic>,
) -> (out: Range<usize>)
    ensures
        views(final(diag)@) == views(old(diag)@) + index_range_object_findings(members@),
        index_range_object_value(members@, &out),
{
    reveal(index_range_object_findings);
    reveal(index_range_object_value);
    let ghost start = views(diag@);
    let ghost names = index_range_names();
    let known = index_range_keys();
    report_duplicates(members, diag);
    let ghost mut a = duplicate_findings(members@, members@.len() as int);
    let order = sorted_members(members);
    report_gap(members, &order, &known, None, Some("max"), diag);
    proof {
        let gap = unknown_in_gap(members@, names, None, Some("max"@));
        lemma_reported(start, a, gap, views(diag@));
        a = a + gap;
    }
    let fallback = Spanned::defaulted(0);
    let ghost fallen = fallback;
    let max = decode_index_field(members, "max", fallback, diag);
    proof {
        let found = index_field_findings(members@, "max"@);
        lemma_reported(start, a, found, views(diag@));
        a = a + found;
        lemma_index_held(members@, "max"@, &max, &fallen, default_index(max),);
    }
    report_gap(members, &order, &known, Some("max"), Some("min"), diag);
    proof {
        let gap = unknown_in_gap(members@, names, Some("max"@), Some("min"@));
        lemma_reported(start, a, gap, views(diag@));
        a = a + gap;
    }
    let fallback = Spanned::defaulted(0);
    let ghost fallen = fallback;
    let min = decode_index_field(members, "min", fallback, diag);
    proof {
        let found = index_field_findings(members@, "min"@);
        lemma_reported(start, a, found, views(diag@));
        a = a + found;
        lemma_index_held(members@, "min"@, &min, &fallen, default_index(min),);
    }
    report_gap(members, &order, &known, Some("min"), None, diag);
    proof {
        let gap = unknown_in_gap(members@, names, Some("min"@), None);
        lemma_reported(start, a, gap, views(diag@));
        a = a + gap;
    }
    Range {
        max,
        min,
    }
}

/// What `node` reports as a range of counts: where it is an object, what its members
/// report, and else a diagnostic that names its kind.
pub open spec fn index_range_findings(node: &Spanned<Json>) -> Seq<DiagnosticView> {
    match node.val {
        Json::Object(members) => index_range_object_findings(members@),
        _ => seq![mismatch(node, "object"@)],
    }
}

/// `out` is what the object `node` gives as a range of counts, with its span.
pub open spec fn index_range_value(node: &Spanned<Json>, out: &Spanned<Range<usize>>) -> bool {
    node.val matches Json::Object(members) && out.span == node.span && index_range_object_value(
        members@,
        &out.val,
    )
}

/// Decodes `node` as a range of counts: there is a value where `node` is an object.
pub fn decode_index_range(
    node: &Spanned<Json>,
    diag: &mut Vec<Diagnostic>,
) -> (r: Option<Spanned<Range<usize>>>)
    ensures
        views(final(diag)@) == views(old(diag)@) + index_range_findings(node),
        match r {
            Some(out) => node.val is Object && index_range_value(node, &out),
            None => !(node.val is Object),
        },
{
    match &node.val {
        Json::Object(members) => {
            let value = decode_index_range_object(members, diag);
            Some(Spanned::new(node.span, value))
        },
        _ => {
            report(diag, expectation(node.span, "object", node.val.kind_desc()));
            assert(views(diag@) =~= views(old(diag)@) + index_range_findings(node));
            None
        },
    }
}

/// What the member `key` of `members` reports as a range of counts: nothing where
/// there is no such member.
#[verifier::opaque]
pub open spec fn index_range_field_findings(members: Seq<Member>, key: Seq<char>) -> Seq<DiagnosticView> {
    match member_named(members, key) {
        Some(k) => index_range_findings(&members[k].1),
        None => Seq::empty(),
    }
}

/// `out` is what the member `key` of `members` gives as a range of counts: its value
/// where it is accepted, and `fallback` where it is not, or where there is
/// no such member.
#[verifier::opaque]
pub open spec fn index_range_field(
    members: Seq<Member>,
    key: Seq<char>,
    out: &Spanned<Range<usize>>,
    fallback: &Spanned<Range<usize>>,
) -> bool {
    match member_named(members, key) {
        Some(k) => if members[k].1.val is Object {
            index_range_value(&members[k].1, out)
        } else {
            out == fallback
        },
        None => out == fallback,
    }
}

/// Decodes the member `key` of `members` as a range of counts.
pub fn decode_index_range_field(
    members: &Vec<Member>,
    key: &str,
    fallback: Spanned<Range<usize>>,
    diag: &mut Vec<Diagnostic>,
) -> (out: Spanned<Range<usize>>)
    ensures
        views(final(diag)@) == views(old(diag)@) + index_range_field_findings(members@, key@),
        index_range_field(members@, key@, &out, &fallback),
{
    reveal(index_range_field);
    reveal(index_range_field_findings);
    match find_member(members, key) {
        Some(k) => {
            match decode_index_range(&members[k].1, diag) {
                Some(value) => value,
                None => fallback,
            }
        },
        None => {
            assert(views(diag@) =~= views(old(diag)@) + index_range_field_findings(members@, key@));
            fallback
        },
    }
}

/// `out` is what the member `key` of `members` gives as a range of counts: its value
/// where it is accepted; where it is not, or where there is no such
/// member, `is_default` holds.
#[verifier::opaque]
pub open spec fn index_range_held(
    members: Seq<Member>,
    key: Seq<char>,
    out: &Spanned<Range<usize>>,
    is_default: bool,
) -> bool {
    match member_named(members, key) {
        Some(k) => if members[k].1.val is Object {
            index_range_value(&members[k].1, out)
        } else {
            is_default
        },
        None => is_default,
    }
}

/// What a field is given holds of it, where the default holds of the fallback.
pub proof fn lemma_index_range_held(
    members: Seq<Member>,
    key: Seq<char>,
    out: &Spanned<Range<usize>>,
    fallback: &Spanned<Range<usize>>,
    is_default: bool,
)
    requires
        index_range_field(members, key, out, fallback),
        out == fallback ==> is_default,
    ensures
        index_range_held(members, key, out, is_default),
{
    reveal(index_range_field);
    reveal(index_range_held);
}

/// The keys of a range of numbers.
pub open spec fn number_range_names() -> Seq<Seq<char>> {
    seq![
        "max"@,
        "min"@,
    ]
}

/// The keys of a range of numbers.
pub fn number_range_keys() -> (keys: Vec<String>)
    ensures
        names_view(keys@) == number_range_names(),
{
    let mut keys: Vec<String> = Vec::new();
    keys.push(String::from_str("max"));
    keys.push(String::from_str("min"));
    assert(names_view(keys@) =~= number_range_names());
    keys
}

/// What the members of a range of numbers report: the members that repeat a key, in
/// the order of the input; then, in the order of the keys, what each member
/// that the schema knows reports of its value, and each member that the
/// schema does not know.
#[verifier::opaque]
pub open spec fn number_range_object_findings(members: Seq<Member>) -> Seq<DiagnosticView> {
    let known = number_range_names();
    let a = duplicate_findings(members, members.len() as int);
    let a = a + unknown_in_gap(members, known, None, Some("max"@));
    let a = a + number_field_findings(members, "max"@);
    let a = a + unknown_in_gap(members, known, Some("max"@), Some("min"@));
    let a = a + number_field_findings(members, "min"@);
    a + unknown_in_gap(members, known, Some("min"@), None)
}

/// `out` is what the members of a range of numbers give: each field has the value of
/// its member, where that is accepted, and else its default.
#[verifier::opaque]
pub open spec fn number_range_object_value(members: Seq<Member>, out: &Range<Number>) -> bool {
    &&& number_held(
        members,
        "max"@,
        &out.max,
        default_number(out.max),
    )
    &&& number_held(
        members,
        "min"@,
        &out.min,
        default_number(out.min),
    )
}

/// Decodes the members of a range of numbers.
pub fn decode_number_range_object(
    members: &Vec<Member>,
    diag: &mut Vec<Diagnostic>,
) -> (out: Range<Number>)
    ensures
        views(final(diag)@) == views(old(diag)@) + number_range_object_findings(members@),
        number_range_object_value(members@, &out),
{
    reveal(number_range_object_findings);
    reveal(number_range_object_value);
    let ghost start = views(diag@);
    let ghost names = number_range_names();
    let known = number_range_keys();
    report_duplicates(members, diag);
    let ghost mut a = duplicate_findings(members@, members@.len() as int);
    let order = sorted_members(members);
    report_gap(members, &order, &known, None, Some("max"), diag);
    proof {
        let gap = unknown_in_gap(members@, names, None, Some("max"@));
        lemma_reported(start, a, gap, views(diag@));
        a = a + gap;
    }
    let fallback = Spanned::defaulted(Number::zero());
    let ghost fallen = fallback;
    let max = decode_number_field(members, "max", fallback, diag);
    proof {
        let found = number_field_findings(members@, "max"@);
        lemma_reported(start, a, found, views(diag@));
        a = a + found;
        lemma_number_held(members@, "max"@, &max, &fallen, default_number(max),);
    }
    report_gap(members, &order, &known, Some("max"), Some("min"), diag);
    proof {
        let gap = unknown_in_gap(members@, names, Some("max"@), Some("min"@));
        lemma_reported(start, a, gap, views(diag@));
        a = a + gap;
    }
    let fallback = Spanned::defaulted(Number::zero());
    let ghost fallen = fallback;
    let min = decode_number_field(members, "min", fallback, diag);
    proof {
        let found = number_field_findings(members@, "min"@);
        lemma_reported(start, a, found, views(diag@));
        a = a + found;
        lemma_number_held(members@, "min"@, &min, &fallen, default_number(min),);
    }
    report_gap(members, &order, &known, Some("min"), None, diag);
    proof {
        let gap = unknown_in_gap(members@, names, Some("min"@), None);
        lemma_reported(start, a, gap, views(diag@));
        a = a + gap;
    }
    Range {
        max,
        min,
    }
}

/// What `node` reports as a range of numbers: where it is an object, what its members
/// report, and else a diagnostic that names its kind.
pub open spec fn number_range_findings(node: &Spanned<Json>) -> Seq<DiagnosticView> {
    match node.val {
        Json::Object(members) => number_range_object_findings(members@),
        _ => seq![mismatch(node, "object"@)],
    }
}

/// `out` is what the object `node` gives as a range of numbers, with its span.
pub open spec fn number_range_value(node: &Spanned<Json>, out: &Spanned<Range<Number>>) -> bool {
    node.val matches Json::Object(members) && out.span == node.span && number_range_object_value(
        members@,
        &out.val,
    )
}

/// Decodes `node` as a range of numbers: there is a value where `node` is an object.
pub fn decode_number_range(
    node: &Spanned<Json>,
    diag: &mut Vec<Diagnostic>,
) -> (r: Option<Spanned<Range<Number>>>)
    ensures
        views(final(diag)@) == views(old(diag)@) + number_range_findings(node),
        match r {
            Some(out) => node.val is Object && number_range_value(node, &out),
            None => !(node.val is Object),
        },
{
    match &node.val {
        Json::Object(members) => {
            let value = decode_number_range_object(members, diag);
            Some(Spanned::new(node.span, value))
        },
        _ => {
            report(diag, expectation(node.span, "object", node.val.kind_desc()));
            assert(views(diag@) =~= views(old(diag)@) + number_range_findings(node));
            None
        },
    }
}

/// What the member `key` of `members` reports as a range of numbers: nothing where
/// there is no such member.
#[verifier::opaque]
pub open spec fn number_range_field_findings(members: Seq<Member>, key: Seq<char>) -> Seq<DiagnosticView> {
    match member_named(members, key) {
        Some(k) => number_range_findings(&members[k].1),
        None => Seq::empty(),
    }
}

/// `out` is what the member `key` of `members` gives as a range of numbers: its value
/// where it is accepted, and `fallback` where it is not, or where there is
/// no such member.
#[verifier::opaque]
pub open spec fn number_range_field(
    members: Seq<Member>,
    key: Seq<char>,
    out: &Spanned<Range<Number>>,
    fallback: &Spanned<Range<Number>>,
) -> bool {
    match member_named(members, key) {
        Some(k) => if members[k].1.val is Object {
            number_range_value(&members[k].1, out)
        } else {
            out == fallback
        },
        None => out == fallback,
    }
}

/// Decodes the member `key` of `members` as a range of numbers.
pub fn decode_number_range_field(
    members: &Vec<Member>,
    key: &str,
    fallback: Spanned<Range<Number>>,
    diag: &mut Vec<Diagnostic>,
) -> (out: Spanned<Range<Number>>)
    ensures
        views(final(diag)@) == views(old(diag)@) + number_range_field_findings(members@, key@),
        number_range_field(members@, key@, &out, &fallback),
{
    reveal(number_range_field);
    reveal(number_range_field_findings);
    match find_member(members, key) {
        Some(k) => {
            match decode_number_range(&members[k].1, diag) {
                Some(value) => value,
                None => fallback,
            }
        },
        None => {
            assert(views(diag@) =~= views(old(diag)@) + number_range_field_findings(members@, key@));
            fallback
        },
    }
}

/// `out` is what the member `key` of `members` gives as a range of numbers: its value
/// where it is accepted; where it is not, or where there is no such
/// member, `is_default` holds.
#[verifier::opaque]
pub open spec fn number_range_held(
    members: Seq<Member>,
    key: Seq<char>,
    out: &Spanned<Range<Number>>,
    is_default: bool,
) -> bool {
    match member_named(members, key) {
        Some(k) => if members[k].1.val is Object {
            number_range_value(&members[k].1, out)
        } else {
            is_default
        },
        None => is_default,
    }
}

/// What a field is given holds of it, where the default holds of the fallback.
pub proof fn lemma_number_range_held(
    members: Seq<Member>,
    key: Seq<char>,
    out: &Spanned<Range<Number>>,
    fallback: &Spanned<Range<Number>>,
    is_default: bool,
)
    requires
        number_range_field(members, key, out, fallback),
        out == fallback ==> is_default,
    ensures
        number_range_held(members, key, out, is_default),
{
    reveal(number_range_field);
    reveal(number_range_held);
}

/// The keys of a weighted range of counts.
pub open spec fn weighted_index_range_names() -> Seq<Seq<char>> {
    seq![
        "range"@,
        "weight"@,
    ]
}

/// The keys of a weighted range of counts.
pub fn weighted_index_range_keys() -> (keys: Vec<String>)
    ensures
        names_view(keys@) == weighted_index_range_names(),
{
    let mut keys: Vec<String> = Vec::new();
    keys.push(String::from_str("range"));
    keys.push(String::from_str("weight"));
    assert(names_view(keys@) =~= weighted_index_range_names());
    keys
}

/// What the members of a weighted range of counts report: the members that repeat a key, in
/// the order of the input; then, in the order of the keys, what each member
/// that the schema knows reports of its value, and each member that the
/// schema does not know.
#[verifier::opaque]
pub open spec fn weighted_index_range_object_findings(members: Seq<Member>) -> Seq<DiagnosticView> {
    let known = weighted_index_range_names();
    let a = duplicate_findings(members, members.len() as int);
    let a = a + unknown_in_gap(members, known, None, Some("range"@));
    let a = a + index_range_field_findings(members, "range"@);
    let a = a + unknown_in_gap(members, known, Some("range"@), Some("weight"@));
    let a = a + number_field_findings(members, "weight"@);
    a + unknown_in_gap(members, known, Some("weight"@), None)
}

/// `out` is what the members of a weighted range of counts give: each field has the value of
/// its member, where that is accepted, and else its default.
#[verifier::opaque]
pub open spec fn weighted_index_range_object_value(members: Seq<Member>, out: &WeightedRange<usize>) -> bool {
    &&& index_range_held(
        members,
        "range"@,
        &out.range,
        default_index_range(out.range),
    )
    &&& number_held(
        members,
        "weight"@,
        &out.weight,
        default_number(out.weight),
    )
}

/// Decodes the members of a weighted range of counts.
pub fn decode_weighted_index_range_object(
    members: &Vec<Member>,
    diag: &mut Vec<Diagnostic>,
) -> (out: WeightedRange<usize>)
    ensures
        views(final(diag)@) == views(old(diag)@) + weighted_index_range_object_findings(members@),
        weighted_index_range_object_value(members@, &out),
{
    reveal(weighted_index_range_object_findings);
    reveal(weighted_index_range_object_value);
    let ghost start = views(diag@);
    let ghost names = weighted_index_range_names();
    let known = weighted_index_range_keys();
    report_duplicates(members, diag);
    let ghost mut a = duplicate_findings(members@, members@.len() as int);
    let order = sorted_members(members);
    report_gap(members, &order, &known, None, Some("range"), diag);
    proof {
        let gap = unknown_in_gap(members@, names, None, Some("range"@));
        lemma_reported(start, a, gap, views(diag@));
        a = a + gap;
    }
    let fallback = Spanned::defaulted(Range::new(Spanned::defaulted(0), Spanned::defaulted(0)));
    let ghost fallen = fallback;
    let range = decode_index_range_field(members, "range", fallback, diag);
    proof {
        let found = index_range_field_findings(members@, "range"@);
        lemma_reported(start, a, found, views(diag@));
        a = a + found;
        lemma_index_range_held(members@, "range"@, &range, &fallen, default_index_range(range),);
    }
    report_gap(members, &order, &known, Some("range"), Some("weight"), diag);
    proof {
        let gap = unknown_in_gap(members@, names, Some("range"@), Some("weight"@));
        lemma_reported(start, a, gap, views(diag@));
        a = a + gap;
    }
    let fallback = Spanned::defaulted(Number::zero());
    let ghost fallen = fallback;
    let weight = decode_number_field(members, "weight", fallback, diag);
    proof {
        let found = number_field_findings(members@, "weight"@);
        lemma_reported(start, a, found, views(diag@));
        a = a + found;
        lemma_number_held(members@, "weight"@, &weight, &fallen, default_number(weight),);
    }
    report_gap(members, &order, &known, Some("weight"), None, diag);
    proof {
        let gap = unknown_in_gap(members@, names, Some("weight"@), None);
        lemma_reported(start, a, gap, views(diag@));
        a = a + gap;
    }
    WeightedRange {
        range,
        weight,
    }
}

/// What `node` reports as a weighted range of counts: where it is an object, what its members
/// report, and else a diagnostic that names its kind.
pub open spec fn weighted_index_range_findings(node: &Spanned<Json>) -> Seq<DiagnosticView> {
    match node.val {
        Json::Object(members) => weighted_index_range_object_findings(members@),
        _ => seq![mismatch(node, "object"@)],
    }
}

/// `out` is what the object `node` gives as a weighted range of counts, with its span.
pub open spec fn weighted_index_range_value(node: &Spanned<Json>, out: &Spanned<WeightedRange<usize>>) -> bool {
    node.val matches Json::Object(members) && out.span == node.span && weighted_index_range_object_value(
        members@,
        &out.val,
    )
}

/// Decodes `node` as a weighted range of counts: there is a value where `node` is an object.
pub fn decode_weighted_index_range(
    node: &Spanned<Json>,
    diag: &mut Vec<Diagnostic>,
) -> (r: Option<Spanned<WeightedRange<usize>>>)
    ensures
        views(final(diag)@) == views(old(diag)@) + weighted_index_range_findings(node),
        match r {
            Some(out) => node.val is Object && weighted_index_range_value(node, &out),
            None => !(node.val is Object),
        },
{
    match &node.val {
        Json::Object(members) => {
            let value = decode_weighted_index_range_object(members, diag);
            Some(Spanned::new(node.span, value))
        },
        _ => {
            report(diag, expectation(node.span, "object", node.val.kind_desc()));
            assert(views(diag@) =~= views(old(diag)@) + weighted_index_range_findings(node));
            None
        },
    }
}

/// The keys of a weighted range of numbers.
pub open spec fn weighted_number_range_names() -> Seq<Seq<char>> {
    seq![
        "range"@,
        "weight"@,
    ]
}

/// The keys of a weighted range of numbers.
pub fn weighted_number_range_keys() -> (keys: Vec<String>)
    ensures
        names_view(keys@) == weighted_number_range_names(),
{
    let mut keys: Vec<String> = Vec::new();
    keys.push(String::from_str("range"));
    keys.push(String::from_str("weight"));
    assert(names_view(keys@) =~= weighted_number_range_names());
    keys
}

/// What the members of a weighted range of numbers report: the members that repeat a key, in
/// the order of the input; then, in the order of the keys, what each member
/// that the schema knows reports of its value, and each member that the
/// schema does not know.
#[verifier::opaque]
pub open spec fn weighted_number_range_object_findings(members: Seq<Member>) -> Seq<DiagnosticView> {
    let known = weighted_number_range_names();
    let a = duplicate_findings(members, members.len() as int);
    let a = a + unknown_in_gap(members, known, None, Some("range"@));
    let a = a + number_range_field_findings(members, "range"@);
    let a = a + unknown_in_gap(members, known, Some("range"@), Some("weight"@));
    let a = a + number_field_findings(members, "weight"@);
    a + unknown_in_gap(members, known, Some("weight"@), None)
}

/// `out` is what the members of a weighted range of numbers give: each field has the value of
/// its member, where that is accepted, and else its default.
#[verifier::opaque]
pub open spec fn weighted_number_range_object_value(members: Seq<Member>, out: &WeightedRange<Number>) -> bool {
    &&& number_range_held(
        members,
        "range"@,
        &out.range,
        default_number_range(out.range),
    )
    &&& number_held(
        members,
        "weight"@,
        &out.weight,
        default_number(out.weight),
    )
}

/// Decodes the members of a weighted range of numbers.
pub fn decode_weighted_number_range_object(
    members: &Vec<Member>,
    diag: &mut Vec<Diagnostic>,
) -> (out: WeightedRange<Number>)
    ensures
        views(final(diag)@) == views(old(diag)@) + weighted_number_range_object_findings(members@),
        weighted_number_range_object_value(members@, &out),
{
    reveal(weighted_number_range_object_findings);
    reveal(weighted_number_range_object_value);
    let ghost start = views(diag@);
    let ghost names = weighted_number_range_names();
    let known = weighted_number_range_keys();
    report_duplicates(members, diag);
    let ghost mut a = duplicate_findings(members@, members@.len() as int);
    let order = sorted_members(members);
    report_gap(members, &order, &known, None, Some("range"), diag);
    proof {
        let gap = unknown_in_gap(members@, names, None, Some("range"@));
        lemma_reported(start, a, gap, views(diag@));
        a = a + gap;
    }
    let fallback = Spanned::defaulted(Range::new(Spanned::defaulted(Number::zero()), Spanned::defaulted(Number::zero())));
    let ghost fallen = fallback;
    let range = decode_number_range_field(members, "range", fallback, diag);
    proof {
        let found = number_range_field_findings(members@, "range"@);
        lemma_reported(start, a, found, views(diag@));
        a = a + found;
        lemma_number_range_held(members@, "range"@, &range, &fallen, default_number_range(range),);
    }
    report_gap(members, &order, &known, Some("range"), Some("weight"), diag);
    proof {
        let gap = unknown_in_gap(members@, names, Some("range"@), Some("weight"@));
        lemma_reported(start, a, gap, views(diag@));
        a = a + gap;
    }
    let fallback = Spanned::defaulted(Number::zero());
    let ghost fallen = fallback;
    let weight = decode_number_field(members, "weight", fallback, diag);
    proof {
        let found = number_field_findings(members@, "weight"@);
        lemma_reported(start, a, found, views(diag@));
        a = a + found;
        lemma_number_held(members@, "weight"@, &weight, &fallen, default_number(weight),);
    }
    report_gap(members, &order, &known, Some("weight"), None, diag);
    proof {
        let gap = unknown_in_gap(members@, names, Some("weight"@), None);
        lemma_reported(start, a, gap, views(diag@));
        a = a + gap;
    }
    WeightedRange {
        range,
        weight,
    }
}

/// What `node` reports as a weighted range of numbers: where it is an object, what its members
/// report, and else a diagnostic that names its kind.
pub open spec fn weighted_number_range_findings(node: &Spanned<Json>) -> Seq<DiagnosticView> {
    match node.val {
        Json::Object(members) => weighted_number_range_object_findings(members@),
        _ => seq![mismatch(node, "object"@)],
    }
}

/// `out` is what the object `node` gives as a weighted range of numbers, with its span.
pub open spec fn weighted_number_range_value(node: &Spanned<Json>, out: &Spanned<WeightedRange<Number>>) -> bool {
    node.val matches Json::Object(members) && out.span == node.span && weighted_number_range_object_value(
        members@,
        &out.val,
    )
}

/// Decodes `node` as a weighted range of numbers: there is a value where `node` is an object.
pub fn decode_weighted_number_range(
    node: &Spanned<Json>,
    diag: &mut Vec<Diagnostic>,
) -> (r: Option<Spanned<WeightedRange<Number>>>)
    ensures
        views(final(diag)@) == views(old(diag)@) + weighted_number_range_findings(node),
        match r {
            Some(out) => node.val is Object && weighted_number_range_value(node, &out),
            None => !(node.val is Object),
        },
{
    match &node.val {
        Json::Object(members) => {
            let value = decode_weighted_number_range_object(members, diag);
            Some(Spanned::new(node.span, value))
        },
        _ => {
            report(diag, expectation(node.span, "object", node.val.kind_desc()));
            assert(views(diag@) =~= views(old(diag)@) + weighted_number_range_findings(node));
            None
        },
    }
}

/// The keys of an enemy pool.
pub open spec fn pool_names() -> Seq<Seq<char>> {
    seq![
        "add"@,
        "clear"@,
        "remove"@,
    ]
}

/// The keys of an enemy pool.
pub fn pool_keys() -> (keys: Vec<String>)
    ensures
        names_view(keys@) == pool_names(),
{
    let mut keys: Vec<String> = Vec::new();
    keys.push(String::from_str("add"));
    keys.push(String::from_str("clear"));
    keys.push(String::from_str("remove"));
    assert(names_view(keys@) =~= pool_names());
    keys
}

/// What the members of an enemy pool report: the members that repeat a key, in
/// the order of the input; then, in the order of the keys, what each member
/// that the schema knows reports of its value, and each member that the
/// schema does not know.
#[verifier::opaque]
pub open spec fn pool_object_findings(members: Seq<Member>) -> Seq<DiagnosticView> {
    let known = pool_names();
    let a = duplicate_findings(members, members.len() as int);
    let a = a + unknown_in_gap(members, known, None, Some("add"@));
    let a = a + texts_field_findings(members, "add"@);
    let a = a + unknown_in_gap(members, known, Some("add"@), Some("clear"@));
    let a = a + flag_field_findings(members, "clear"@);
    let a = a + unknown_in_gap(members, known, Some("clear"@), Some("remove"@));
    let a = a + texts_field_findings(members, "remove"@);
    a + unknown_in_gap(members, known, Some("remove"@), None)
}

/// `out` is what the members of an enemy pool give: each field has the value of
/// its member, where that is accepted, and else its default.
#[verifier::opaque]
pub open spec fn pool_object_value(members: Seq<Member>, out: &EnemyPool) -> bool {
    &&& texts_held(
        members,
        "add"@,
        &out.add,
        default_list(out.add),
    )
    &&& flag_held(
        members,
        "clear"@,
        &out.clear,
        default_flag(out.clear),
    )
    &&& texts_held(
        members,
        "remove"@,
        &out.remove,
        default_list(out.remove),
    )
}

/// Decodes the members of an enemy pool.
pub fn decode_pool_object(
    members: &Vec<Member>,
    diag: &mut Vec<Diagnostic>,
) -> (out: EnemyPool)
    ensures
        views(final(diag)@) == views(old(diag)@) + pool_object_findings(members@),
        pool_object_value(members@, &out),
{
    reveal(pool_object_findings);
    reveal(pool_object_value);
    let ghost start = views(diag@);
    let ghost names = pool_names();
    let known = pool_keys();
    report_duplicates(members, diag);
    let ghost mut a = duplicate_findings(members@, members@.len() as int);
    let order = sorted_members(members);
    report_gap(members, &order, &known, None, Some("add"), diag);
    proof {
        let gap = unknown_in_gap(members@, names, None, Some("add"@));
        lemma_reported(start, a, gap, views(diag@));
        a = a + gap;
    }
    let fallback = Spanned::defaulted(Vec::new());
    let ghost fallen = fallback;
    let add = decode_texts_field(members, "add", fallback, diag);
    proof {
        let found = texts_field_findings(members@, "add"@);
        lemma_reported(start, a, found, views(diag@));
        a = a + found;
        lemma_texts_held(members@, "add"@, &add, &fallen, default_list(add),);
    }
    report_gap(members, &order, &known, Some("add"), Some("clear"), diag);
    proof {
        let gap = unknown_in_gap(members@, names, Some("add"@), Some("clear"@));
        lemma_reported(start, a, gap, views(diag@));
        a = a + gap;
    }
    let fallback = Spanned::defaulted(false);
    let ghost fallen = fallback;
    let clear = decode_flag_field(members, "clear", fallback, diag);
    proof {
        let found = flag_field_findings(members@, "clear"@);
        lemma_reported(start, a, found, views(diag@));
        a = a + found;
        lemma_flag_held(members@, "clear"@, &clear, &fallen, default_flag(clear),);
    }
    report_gap(members, &order, &known, Some("clear"), Some("remove"), diag);
    proof {
        let gap = unknown_in_gap(members@, names, Some("clear"@), Some("remove"@));
        lemma_reported(start, a, gap, views(diag@));
        a = a + gap;
    }
    let fallback = Spanned::defaulted(Vec::new());
    let ghost fallen = fallback;
    let remove = decode_texts_field(members, "remove", fallback, diag);
    proof {
        let found = texts_field_findings(members@, "remove"@);
        lemma_reported(start, a, found, views(diag@));
        a = a + found;
        lemma_texts_held(members@, "remove"@, &remove, &fallen, default_list(remove),);
    }
    report_gap(members, &order, &known, Some("remove"), None, diag);
    proof {
        let gap = unknown_in_gap(members@, names, Some("remove"@), None);
        lemma_reported(start, a, gap, views(diag@));
        a = a + gap;
    }
    EnemyPool {
        add,
        clear,
        remove,
    }
}

/// What `node` reports as an enemy pool: where it is an object, what its members
/// report, and else a diagnostic that names its kind.
pub open spec fn pool_findings(node: &Spanned<Json>) -> Seq<DiagnosticView> {
    match node.val {
        Json::Object(members) => pool_object_findings(members@),
        _ => seq![mismatch(node, "object"@)],
    }
}

/// `out` is what the object `node` gives as an enemy pool, with its span.
pub open spec fn pool_value(node: &Spanned<Json>, out: &Spanned<EnemyPool>) -> bool {
    node.val matches Json::Object(members) && out.span == node.span && pool_object_value(
        members@,
        &out.val,
    )
}

/// Decodes `node` as an enemy pool: there is a value where `node` is an object.
pub fn decode_pool(
    node: &Spanned<Json>,
    diag: &mut Vec<Diagnostic>,
) -> (r: Option<Spanned<EnemyPool>>)
    ensures
        views(final(diag)@) == views(old(diag)@) + pool_findings(node),
        match r {
            Some(out) => node.val is Object && pool_value(node, &out),
            None => !(node.val is Object),
        },
{
    match &node.val {
        Json::Object(members) => {
            let value = decode_pool_object(members, diag);
            Some(Spanned::new(node.span, value))
        },
        _ => {
            report(diag, expectation(node.span, "object", node.val.kind_desc()));
            assert(views(diag@) =~= views(old(diag)@) + pool_findings(node));
            None
        },
    }
}

/// What the member `key` of `members` reports as an enemy pool: nothing where
/// there is no such member.
#[verifier::opaque]
pub open spec fn pool_field_findings(members: Seq<Member>, key: Seq<char>) -> Seq<DiagnosticView> {
    match member_named(members, key) {
        Some(k) => pool_findings(&members[k].1),
        None => Seq::empty(),
    }
}

/// `out` is what the member `key` of `members` gives as an enemy pool: its value
/// where it is accepted, and `fallback` where it is not, or where there is
/// no such member.
#[verifier::opaque]
pub open spec fn pool_field(
    members: Seq<Member>,
    key: Seq<char>,
    out: &Spanned<EnemyPool>,
    fallback: &Spanned<EnemyPool>,
) -> bool {
    match member_named(members, key) {
        Some(k) => if members[k].1.val is Object {
            pool_value(&members[k].1, out)
        } else {
            out == fallback
        },
        None => out == fallback,
    }
}

/// Decodes the member `key` of `members` as an enemy pool.
pub fn decode_pool_field(
    members: &Vec<Member>,
    key: &str,
    fallback: Spanned<EnemyPool>,
    diag: &mut Vec<Diagnostic>,
) -> (out: Spanned<EnemyPool>)
    ensures
        views(final(diag)@) == views(old(diag)@) + pool_field_findings(members@, key@),
        pool_field(members@, key@, &out, &fallback),
{
    reveal(pool_field);
    reveal(pool_field_findings);
    match find_member(members, key) {
        Some(k) => {
            match decode_pool(&members[k].1, diag) {
                Some(value) => value,
                None => fallback,
            }
        },
        None => {
            assert(views(diag@) =~= views(old(diag)@) + pool_field_findings(members@, key@));
            fallback
        },
    }
}

/// `out` is what the member `key` of `members` gives as an enemy pool: its value
/// where it is accepted; where it is not, or where there is no such
/// member, `is_default` holds.
#[verifier::opaque]
pub open spec fn pool_held(
    members: Seq<Member>,
    key: Seq<char>,
    out: &Spanned<EnemyPool>,
    is_default: bool,
) -> bool {
    match member_named(members, key) {
        Some(k) => if members[k].1.val is Object {
            pool_value(&members[k].1, out)
        } else {
            is_default
        },
        None => is_default,
    }
}

/// What a field is given holds of it, where the default holds of the fallback.
pub proof fn lemma_pool_held(
    members: Seq<Member>,
    key: Seq<char>,
    out: &Spanned<EnemyPool>,
    fallback: &Spanned<EnemyPool>,
    is_default: bool,
)
    requires
        pool_field(members, key, out, fallback),
        out == fallback ==> is_default,
    ensures
        pool_held(members, key, out, is_default),
{
    reveal(pool_field);
    reveal(pool_held);
}

/// The keys of the escort mule.
pub open spec fn mule_names() -> Seq<Seq<char>> {
    seq![
        "BigHitDamageModifier"@,
        "BigHitDamageReductionThreshold"@,
        "FriendlyFireModifier"@,
        "NeutralDamageModifier"@,
    ]
}

/// The keys of the escort mule.
pub fn mule_keys() -> (keys: Vec<String>)
    ensures
        names_view(keys@) == mule_names(),
{
    let mut keys: Vec<String> = Vec::new();
    keys.push(String::from_str("BigHitDamageModifier"));
    keys.push(String::from_str("BigHitDamageReductionThreshold"));
    keys.push(String::from_str("FriendlyFireModifier"));
    keys.push(String::from_str("NeutralDamageModifier"));
    assert(names_view(keys@) =~= mule_names());
    keys
}

/// What the members of the escort mule report: the members that repeat a key, in
/// the order of the input; then, in the order of the keys, what each member
/// that the schema knows reports of its value, and each member that the
/// schema does not know.
#[verifier::opaque]
pub open spec fn mule_object_findings(members: Seq<Member>) -> Seq<DiagnosticView> {
    let known = mule_names();
    let a = duplicate_findings(members, members.len() as int);
    let a = a + unknown_in_gap(members, known, None, Some("BigHitDamageModifier"@));
    let a = a + number_field_findings(members, "BigHitDamageModifier"@);
    let a = a + unknown_in_gap(members, known, Some("BigHitDamageModifier"@), Some("BigHitDamageReductionThreshold"@));
    let a = a + number_field_findings(members, "BigHitDamageReductionThreshold"@);
    let a = a + unknown_in_gap(members, known, Some("BigHitDamageReductionThreshold"@), Some("FriendlyFireModifier"@));
    let a = a + number_field_findings(members, "FriendlyFireModifier"@);
    let a = a + unknown_in_gap(members, known, Some("FriendlyFireModifier"@), Some("NeutralDamageModifier"@));
    let a = a + number_field_findings(members, "NeutralDamageModifier"@);
    a + unknown_in_gap(members, known, Some("NeutralDamageModifier"@), None)
}

/// `out` is what the members of the escort mule give: each field has the value of
/// its member, where that is accepted, and else its default.
#[verifier::opaque]
pub open spec fn mule_object_value(members: Seq<Member>, out: &EscortMule) -> bool {
    &&& number_held(
        members,
        "BigHitDamageModifier"@,
        &out.big_hit_damage_modifier,
        default_half(out.big_hit_damage_modifier),
    )
    &&& number_held(
        members,
        "BigHitDamageReductionThreshold"@,
        &out.big_hit_damage_reduction_threshold,
        default_number(out.big_hit_damage_reduction_threshold),
    )
    &&& number_held(
        members,
        "FriendlyFireModifier"@,
        &out.friendly_fire_modifier,
        default_tenth(out.friendly_fire_modifier),
    )
    &&& number_held(
        members,
        "NeutralDamageModifier"@,
        &out.neutral_damage_modifier,
        default_tenth(out.neutral_damage_modifier),
    )
}

/// Decodes the members of the escort mule.
pub fn decode_mule_object(
    members: &Vec<Member>,
    diag: &mut Vec<Diagnostic>,
) -> (out: EscortMule)
    ensures
        views(final(diag)@) == views(old(diag)@) + mule_object_findings(members@),
        mule_object_value(members@, &out),
{
    reveal(mule_object_findings);
    reveal(mule_object_value);
    let ghost start = views(diag@);
    let ghost names = mule_names();
    let known = mule_keys();
    report_duplicates(members, diag);
    let ghost mut a = duplicate_findings(members@, members@.len() as int);
    let order = sorted_members(members);
    report_gap(members, &order, &known, None, Some("BigHitDamageModifier"), diag);
    proof {
        let gap = unknown_in_gap(members@, names, None, Some("BigHitDamageModifier"@));
        lemma_reported(start, a, gap, views(diag@));
        a = a + gap;
    }
    let fallback = tenths(53, "0.5");
    let ghost fallen = fallback;
    let big_hit_damage_modifier = decode_number_field(members, "BigHitDamageModifier", fallback, diag);
    proof {
        let found = number_field_findings(members@, "BigHitDamageModifier"@);
        lemma_reported(start, a, found, views(diag@));
        a = a + found;
        lemma_number_held(members@, "BigHitDamageModifier"@, &big_hit_damage_modifier, &fallen, default_half(big_hit_damage_modifier),);
    }
    report_gap(members, &order, &known, Some("BigHitDamageModifier"), Some("BigHitDamageReductionThreshold"), diag);
    proof {
        let gap = unknown_in_gap(members@, names, Some("BigHitDamageModifier"@), Some("BigHitDamageReductionThreshold"@));
        lemma_reported(start, a, gap, views(diag@));
        a = a + gap;
    }
    let fallback = Spanned::defaulted(Number::zero());
    let ghost fallen = fallback;
    let big_hit_damage_reduction_threshold = decode_number_field(members, "BigHitDamageReductionThreshold", fallback, diag);
    proof {
        let found = number_field_findings(members@, "BigHitDamageReductionThreshold"@);
        lemma_reported(start, a, found, views(diag@));
        a = a + found;
        lemma_number_held(members@, "BigHitDamageReductionThreshold"@, &big_hit_damage_reduction_threshold, &fallen, default_number(big_hit_damage_reduction_threshold),);
    }
    report_gap(members, &order, &known, Some("BigHitDamageReductionThreshold"), Some("FriendlyFireModifier"), diag);
    proof {
        let gap = unknown_in_gap(members@, names, Some("BigHitDamageReductionThreshold"@), Some("FriendlyFireModifier"@));
        lemma_reported(start, a, gap, views(diag@));
        a = a + gap;
    }
    let fallback = tenths(49, "0.1");
    let ghost fallen = fallback;
    let friendly_fire_modifier = decode_number_field(members, "FriendlyFireModifier", fallback, diag);
    proof {
        let found = number_field_findings(members@, "FriendlyFireModifier"@);
        lemma_reported(start, a, found, views(diag@));
        a = a + found;
        lemma_number_held(members@, "FriendlyFireModifier"@, &friendly_fire_modifier, &fallen, default_tenth(friendly_fire_modifier),);
    }
    report_gap(members, &order, &known, Some("FriendlyFireModifier"), Some("NeutralDamageModifier"), diag);
    proof {
        let gap = unknown_in_gap(members@, names, Some("FriendlyFireModifier"@), Some("NeutralDamageModifier"@));
        lemma_reported(start, a, gap, views(diag@));
        a = a + gap;
    }
    let fallback = tenths(49, "0.1");
    let ghost fallen = fallback;
    let neutral_damage_modifier = decode_number_field(members, "NeutralDamageModifier", fallback, diag);
    proof {
        let found = number_field_findings(members@, "NeutralDamageModifier"@);
        lemma_reported(start, a, found, views(diag@));
        a = a + found;
        lemma_number_held(members@, "NeutralDamageModifier"@, &neutral_damage_modifier, &fallen, default_tenth(neutral_damage_modifier),);
    }
    report_gap(members, &order, &known, Some("NeutralDamageModifier"), None, diag);
    proof {
        let gap = unknown_in_gap(members@, names, Some("NeutralDamageModifier"@), None);
        lemma_reported(start, a, gap, views(diag@));
        a = a + gap;
    }
    EscortMule {
        big_hit_damage_modifier,
        big_hit_damage_reduction_threshold,
        friendly_fire_modifier,
        neutral_damage_modifier,
    }
}

/// What `node` reports as the escort mule: where it is an object, what its members
/// report, and else a diagnostic that names its kind.
pub open spec fn mule_findings(node: &Spanned<Json>) -> Seq<DiagnosticView> {
    match node.val {
        Json::Object(members) => mule_object_findings(members@),
        _ => seq![mismatch(node, "object"@)],
    }
}

/// `out` is what the object `node` gives as the escort mule, with its span.
pub open spec fn mule_value(node: &Spanned<Json>, out: &Spanned<EscortMule>) -> bool {
    node.val matches Json::Object(members) && out.span == node.span && mule_object_value(
        members@,
        &out.val,
    )
}

/// Decodes `node` as the escort mule: there is a value where `node` is an object.
pub fn decode_mule(
    node: &Spanned<Json>,
    diag: &mut Vec<Diagnostic>,
) -> (r: Option<Spanned<EscortMule>>)
    ensures
        views(final(diag)@) == views(old(diag)@) + mule_findings(node),
        match r {
            Some(out) => node.val is Object && mule_value(node, &out),
            None => !(node.val is Object),
        },
{
    match &node.val {
        Json::Object(members) => {
            let value = decode_mule_object(members, diag);
            Some(Spanned::new(node.span, value))
        },
        _ => {
            report(diag, expectation(node.span, "object", node.val.kind_desc()));
            assert(views(diag@) =~= views(old(diag)@) + mule_findings(node));
            None
        },
    }
}

/// What the member `key` of `members` reports as the escort mule: nothing where
/// there is no such member.
#[verifier::opaque]
pub open spec fn mule_field_findings(members: Seq<Member>, key: Seq<char>) -> Seq<DiagnosticView> {
    match member_named(members, key) {
        Some(k) => mule_findings(&members[k].1),
        None => Seq::empty(),
    }
}

/// `out` is what the member `key` of `members` gives as the escort mule: its value
/// where it is accepted, and `fallback` where it is not, or where there is
/// no such member.
#[verifier::opaque]
pub open spec fn mule_field(
    members: Seq<Member>,
    key: Seq<char>,
    out: &Spanned<EscortMule>,
    fallback: &Spanned<EscortMule>,
) -> bool {
    match member_named(members, key) {
        Some(k) => if members[k].1.val is Object {
            mule_value(&members[k].1, out)
        } else {
            out == fallback
        },
        None => out == fallback,
    }
}

/// Decodes the member `key` of `members` as the escort mule.
pub fn decode_mule_field(
    members: &Vec<Member>,
    key: &str,
    fallback: Spanned<EscortMule>,
    diag: &mut Vec<Diagnostic>,
) -> (out: Spanned<EscortMule>)
    ensures
        views(final(diag)@) == views(old(diag)@) + mule_field_findings(members@, key@),
        mule_field(members@, key@, &out, &fallback),
{
    reveal(mule_field);
    reveal(mule_field_findings);
    match find_member(members, key) {
        Some(k) => {
            match decode_mule(&members[k].1, diag) {
                Some(value) => value,
                None => fallback,
            }
        },
        None => {
            assert(views(diag@) =~= views(old(diag)@) + mule_field_findings(members@, key@));
            fallback
        },
    }
}

/// `out` is what the member `key` of `members` gives as the escort mule: its value
/// where it is accepted; where it is not, or where there is no such
/// member, `is_default` holds.
#[verifier::opaque]
pub open spec fn mule_held(
    members: Seq<Member>,
    key: Seq<char>,
    out: &Spanned<EscortMule>,
    is_default: bool,
) -> bool {
    match member_named(members, key) {
        Some(k) => if members[k].1.val is Object {
            mule_value(&members[k].1, out)
        } else {
            is_default
        },
        None => is_default,
    }
}

/// What a field is given holds of it, where the default holds of the fallback.
pub proof fn lemma_mule_held(
    members: Seq<Member>,
    key: Seq<char>,
    out: &Spanned<EscortMule>,
    fallback: &Spanned<EscortMule>,
    is_default: bool,
)
    requires
        mule_field(members, key, out, fallback),
        out == fallback ==> is_default,
    ensures
        mule_held(members, key, out, is_default),
{
    reveal(mule_field);
    reveal(mule_held);
}

} // verus!
