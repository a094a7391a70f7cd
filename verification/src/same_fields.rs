//! What the decoder reports of members that are the same to look at,
//! and what it reads from them, is the same.

use crate::bins::{
    index_bins_accepted, index_bins_among, index_bins_field_findings, index_bins_findings, index_bins_held,
    index_bins_value, number_bins_accepted, number_bins_among, number_bins_field_findings,
    number_bins_findings, number_bins_held, number_bins_value,
};
use crate::config::Vocabulary;
use crate::custom_difficulty::{
    ArrayOrSingleItem, CustomDifficulty, default_flag, default_half, default_index, default_index_range,
    default_indices, default_list, default_mule, default_number, default_number_range, default_numbers,
    default_pool, default_stats, default_tenth, default_text, EnemyDescriptor, EnemyPool, EscortMule,
    PawnStats, Range, WeightedRange,
};
use crate::decoder::{decode_findings, document_names, document_object_findings, document_object_value};
use crate::descriptor::{
    descriptor_findings, descriptor_names, descriptor_object_findings, descriptor_object_value,
    descriptor_value,
};
use crate::descriptors::{
    descriptor_entry, descriptors_among, descriptors_field_findings, descriptors_findings, descriptors_held,
    descriptors_kept, descriptors_object_findings, descriptors_object_value, descriptors_value, Named,
};
use crate::fields::{
    flag_field_findings, flag_held, index_field_findings, index_held, indices_field_findings, indices_held,
    number_field_findings, number_held, numbers_field_findings, numbers_held, text_field_findings, text_held,
    texts_field_findings, texts_held,
};
use crate::json::Json;
use crate::members::{Member, member_named, visited};
use crate::number::Number;
use crate::objects::{
    index_range_field_findings, index_range_findings, index_range_held, index_range_names,
    index_range_object_findings, index_range_object_value, index_range_value, mule_field_findings,
    mule_findings, mule_held, mule_names, mule_object_findings, mule_object_value, mule_value,
    number_range_field_findings, number_range_findings, number_range_held, number_range_names,
    number_range_object_findings, number_range_object_value, number_range_value, pool_field_findings,
    pool_findings, pool_held, pool_names, pool_object_findings, pool_object_value, pool_value,
    weighted_index_range_findings, weighted_index_range_names, weighted_index_range_object_findings,
    weighted_index_range_object_value, weighted_index_range_value, weighted_number_range_findings,
    weighted_number_range_names, weighted_number_range_object_findings, weighted_number_range_object_value,
    weighted_number_range_value,
};
use crate::same::{
    lemma_duplicates_same, lemma_flag_findings_same, lemma_flag_value_same, lemma_index_findings_same,
    lemma_index_value_same, lemma_indices_findings_same, lemma_indices_value_same, lemma_member_named_same,
    lemma_number_findings_same, lemma_number_value_same, lemma_numbers_findings_same,
    lemma_numbers_value_same, lemma_same_node, lemma_text_findings_same, lemma_text_value_same,
    lemma_texts_findings_same, lemma_texts_value_same, lemma_unknown_in_gap_same, lemma_visited_same, places,
    same_flag, same_index, same_indices, same_items, same_members, same_node, same_number, same_numbers,
    same_text, same_texts,
};
use crate::span::Spanned;
use crate::validate::{
    flag_findings, index_findings, indices_findings, number_findings, numbers_findings, text_findings,
    texts_findings,
};
use crate::stats::{
    stat_entry, stats_among, stats_field_findings, stats_findings, stats_held, stats_kept,
    stats_object_findings, stats_object_value, stats_value,
};
use vstd::prelude::*;

verus! {

/// The member `key` reports the same as a string in members that are the
/// same to look at.
pub proof fn lemma_text_field_same(a: Seq<Member>, b: Seq<Member>, key: Seq<char>)
    requires
        same_members(a, b),
    ensures
        text_field_findings(a, key) == text_field_findings(b, key),
{
    reveal(text_field_findings);
    lemma_member_named_same(a, b, key);
    if let Some(k) = member_named(a, key) {
        lemma_text_findings_same(&a[k].1, &b[k].1);
    }
}

/// The member `key` gives the same as a string in members that are the same
/// to look at, where the defaults are the same.
pub proof fn lemma_text_held_same(
    a: Seq<Member>,
    b: Seq<Member>,
    key: Seq<char>,
    x: &Spanned<String>,
    y: &Spanned<String>,
    p: bool,
    q: bool,
)
    requires
        same_members(a, b),
        text_held(a, key, x, p),
        text_held(b, key, y, q),
        p && q ==> same_text(x, y),
    ensures
        same_text(x, y),
{
    reveal(text_held);
    lemma_member_named_same(a, b, key);
    if let Some(k) = member_named(a, key) {
        lemma_text_findings_same(&a[k].1, &b[k].1);
        if text_findings(&a[k].1).len() == 0 {
            lemma_text_value_same(&a[k].1, &b[k].1, x, y);
        }
    }
}

/// Two defaults are the same.
pub proof fn lemma_default_text_same(x: &Spanned<String>, y: &Spanned<String>)
    ensures
        default_text(*x) && default_text(*y) ==> same_text(x, y),
{
    if default_text(*x) && default_text(*y) {
        assert(x.val@ =~= y.val@);
    }
}

/// The member `key` gives the same in members that are the same to look
/// at, where it gives this default in both when it gives no value.
pub proof fn lemma_text_member_same(
    a: Seq<Member>,
    b: Seq<Member>,
    key: Seq<char>,
    x: &Spanned<String>,
    y: &Spanned<String>,
)
    requires
        same_members(a, b),
        text_held(a, key, x, default_text(*x)),
        text_held(b, key, y, default_text(*y)),
    ensures
        same_text(x, y),
{
    lemma_default_text_same(x, y);
    lemma_text_held_same(a, b, key, x, y, default_text(*x), default_text(*y));
}

/// The member `key` reports the same as a truth value in members that are the
/// same to look at.
pub proof fn lemma_flag_field_same(a: Seq<Member>, b: Seq<Member>, key: Seq<char>)
    requires
        same_members(a, b),
    ensures
        flag_field_findings(a, key) == flag_field_findings(b, key),
{
    reveal(flag_field_findings);
    lemma_member_named_same(a, b, key);
    if let Some(k) = member_named(a, key) {
        lemma_flag_findings_same(&a[k].1, &b[k].1);
    }
}

/// The member `key` gives the same as a truth value in members that are the same
/// to look at, where the defaults are the same.
pub proof fn lemma_flag_held_same(
    a: Seq<Member>,
    b: Seq<Member>,
    key: Seq<char>,
    x: &Spanned<bool>,
    y: &Spanned<bool>,
    p: bool,
    q: bool,
)
    requires
        same_members(a, b),
        flag_held(a, key, x, p),
        flag_held(b, key, y, q),
        p && q ==> same_flag(x, y),
    ensures
        same_flag(x, y),
{
    reveal(flag_held);
    lemma_member_named_same(a, b, key);
    if let Some(k) = member_named(a, key) {
        lemma_flag_findings_same(&a[k].1, &b[k].1);
        if flag_findings(&a[k].1).len() == 0 {
            lemma_flag_value_same(&a[k].1, &b[k].1, x, y);
        }
    }
}

/// Two defaults are the same.
pub proof fn lemma_default_flag_same(x: &Spanned<bool>, y: &Spanned<bool>)
    ensures
        default_flag(*x) && default_flag(*y) ==> same_flag(x, y),
{
}

/// The member `key` gives the same in members that are the same to look
/// at, where it gives this default in both when it gives no value.
pub proof fn lemma_flag_member_same(
    a: Seq<Member>,
    b: Seq<Member>,
    key: Seq<char>,
    x: &Spanned<bool>,
    y: &Spanned<bool>,
)
    requires
        same_members(a, b),
        flag_held(a, key, x, default_flag(*x)),
        flag_held(b, key, y, default_flag(*y)),
    ensures
        same_flag(x, y),
{
    lemma_default_flag_same(x, y);
    lemma_flag_held_same(a, b, key, x, y, default_flag(*x), default_flag(*y));
}

/// The member `key` reports the same as a number in members that are the
/// same to look at.
pub proof fn lemma_number_field_same(a: Seq<Member>, b: Seq<Member>, key: Seq<char>)
    requires
        same_members(a, b),
    ensures
        number_field_findings(a, key) == number_field_findings(b, key),
{
    reveal(number_field_findings);
    lemma_member_named_same(a, b, key);
    if let Some(k) = member_named(a, key) {
        lemma_number_findings_same(&a[k].1, &b[k].1);
    }
}

/// The member `key` gives the same as a number in members that are the same
/// to look at, where the defaults are the same.
pub proof fn lemma_number_held_same(
    a: Seq<Member>,
    b: Seq<Member>,
    key: Seq<char>,
    x: &Spanned<Number>,
    y: &Spanned<Number>,
    p: bool,
    q: bool,
)
    requires
        same_members(a, b),
        number_held(a, key, x, p),
        number_held(b, key, y, q),
        p && q ==> same_number(x, y),
    ensures
        same_number(x, y),
{
    reveal(number_held);
    lemma_member_named_same(a, b, key);
    if let Some(k) = member_named(a, key) {
        lemma_number_findings_same(&a[k].1, &b[k].1);
        if number_findings(&a[k].1).len() == 0 {
            lemma_number_value_same(&a[k].1, &b[k].1, x, y);
        }
    }
}

/// Two defaults are the same.
pub proof fn lemma_default_number_same(x: &Spanned<Number>, y: &Spanned<Number>)
    ensures
        default_number(*x) && default_number(*y) ==> same_number(x, y),
{
    if default_number(*x) && default_number(*y) {
        assert(x.val.digits@ =~= y.val.digits@);
    }
}

/// The member `key` gives the same in members that are the same to look
/// at, where it gives this default in both when it gives no value.
pub proof fn lemma_number_member_same(
    a: Seq<Member>,
    b: Seq<Member>,
    key: Seq<char>,
    x: &Spanned<Number>,
    y: &Spanned<Number>,
)
    requires
        same_members(a, b),
        number_held(a, key, x, default_number(*x)),
        number_held(b, key, y, default_number(*y)),
    ensures
        same_number(x, y),
{
    lemma_default_number_same(x, y);
    lemma_number_held_same(a, b, key, x, y, default_number(*x), default_number(*y));
}

/// The member `key` reports the same as a count in members that are the
/// same to look at.
pub proof fn lemma_index_field_same(a: Seq<Member>, b: Seq<Member>, key: Seq<char>)
    requires
        same_members(a, b),
    ensures
        index_field_findings(a, key) == index_field_findings(b, key),
{
    reveal(index_field_findings);
    lemma_member_named_same(a, b, key);
    if let Some(k) = member_named(a, key) {
        lemma_index_findings_same(&a[k].1, &b[k].1);
    }
}

/// The member `key` gives the same as a count in members that are the same
/// to look at, where the defaults are the same.
pub proof fn lemma_index_held_same(
    a: Seq<Member>,
    b: Seq<Member>,
    key: Seq<char>,
    x: &Spanned<usize>,
    y: &Spanned<usize>,
    p: bool,
    q: bool,
)
    requires
        same_members(a, b),
        index_held(a, key, x, p),
        index_held(b, key, y, q),
        p && q ==> same_index(x, y),
    ensures
        same_index(x, y),
{
    reveal(index_held);
    lemma_member_named_same(a, b, key);
    if let Some(k) = member_named(a, key) {
        lemma_index_findings_same(&a[k].1, &b[k].1);
        if index_findings(&a[k].1).len() == 0 {
            lemma_index_value_same(&a[k].1, &b[k].1, x, y);
        }
    }
}

/// Two defaults are the same.
pub proof fn lemma_default_index_same(x: &Spanned<usize>, y: &Spanned<usize>)
    ensures
        default_index(*x) && default_index(*y) ==> same_index(x, y),
{
}

/// The member `key` gives the same in members that are the same to look
/// at, where it gives this default in both when it gives no value.
pub proof fn lemma_index_member_same(
    a: Seq<Member>,
    b: Seq<Member>,
    key: Seq<char>,
    x: &Spanned<usize>,
    y: &Spanned<usize>,
)
    requires
        same_members(a, b),
        index_held(a, key, x, default_index(*x)),
        index_held(b, key, y, default_index(*y)),
    ensures
        same_index(x, y),
{
    lemma_default_index_same(x, y);
    lemma_index_held_same(a, b, key, x, y, default_index(*x), default_index(*y));
}

/// The member `key` reports the same as a number or numbers in members that are the
/// same to look at.
pub proof fn lemma_numbers_field_same(a: Seq<Member>, b: Seq<Member>, key: Seq<char>)
    requires
        same_members(a, b),
    ensures
        numbers_field_findings(a, key) == numbers_field_findings(b, key),
{
    reveal(numbers_field_findings);
    lemma_member_named_same(a, b, key);
    if let Some(k) = member_named(a, key) {
        lemma_numbers_findings_same(&a[k].1, &b[k].1);
    }
}

/// The member `key` gives the same as a number or numbers in members that are the same
/// to look at, where the defaults are the same.
pub proof fn lemma_numbers_held_same(
    a: Seq<Member>,
    b: Seq<Member>,
    key: Seq<char>,
    x: &Spanned<ArrayOrSingleItem<Number>>,
    y: &Spanned<ArrayOrSingleItem<Number>>,
    p: bool,
    q: bool,
)
    requires
        same_members(a, b),
        numbers_held(a, key, x, p),
        numbers_held(b, key, y, q),
        p && q ==> same_numbers(x, y),
    ensures
        same_numbers(x, y),
{
    reveal(numbers_held);
    lemma_member_named_same(a, b, key);
    if let Some(k) = member_named(a, key) {
        lemma_numbers_findings_same(&a[k].1, &b[k].1);
        if numbers_findings(&a[k].1).len() == 0 {
            lemma_numbers_value_same(&a[k].1, &b[k].1, x, y);
        }
    }
}

/// Two defaults are the same.
pub proof fn lemma_default_numbers_same(
    x: &Spanned<ArrayOrSingleItem<Number>>,
    y: &Spanned<ArrayOrSingleItem<Number>>,
)
    ensures
        default_numbers(*x) && default_numbers(*y) ==> same_numbers(x, y),
{
    if default_numbers(*x) && default_numbers(*y) {
        assert(x.val->SingleItem_0.digits@ =~= y.val->SingleItem_0.digits@);
    }
}

/// The member `key` gives the same in members that are the same to look
/// at, where it gives this default in both when it gives no value.
pub proof fn lemma_numbers_member_same(
    a: Seq<Member>,
    b: Seq<Member>,
    key: Seq<char>,
    x: &Spanned<ArrayOrSingleItem<Number>>,
    y: &Spanned<ArrayOrSingleItem<Number>>,
)
    requires
        same_members(a, b),
        numbers_held(a, key, x, default_numbers(*x)),
        numbers_held(b, key, y, default_numbers(*y)),
    ensures
        same_numbers(x, y),
{
    lemma_default_numbers_same(x, y);
    lemma_numbers_held_same(a, b, key, x, y, default_numbers(*x), default_numbers(*y));
}

/// The member `key` reports the same as a count or counts in members that are the
/// same to look at.
pub proof fn lemma_indices_field_same(a: Seq<Member>, b: Seq<Member>, key: Seq<char>)
    requires
        same_members(a, b),
    ensures
        indices_field_findings(a, key) == indices_field_findings(b, key),
{
    reveal(indices_field_findings);
    lemma_member_named_same(a, b, key);
    if let Some(k) = member_named(a, key) {
        lemma_indices_findings_same(&a[k].1, &b[k].1);
    }
}

/// The member `key` gives the same as a count or counts in members that are the same
/// to look at, where the defaults are the same.
pub proof fn lemma_indices_held_same(
    a: Seq<Member>,
    b: Seq<Member>,
    key: Seq<char>,
    x: &Spanned<ArrayOrSingleItem<usize>>,
    y: &Spanned<ArrayOrSingleItem<usize>>,
    p: bool,
    q: bool,
)
    requires
        same_members(a, b),
        indices_held(a, key, x, p),
        indices_held(b, key, y, q),
        p && q ==> same_indices(x, y),
    ensures
        same_indices(x, y),
{
    reveal(indices_held);
    lemma_member_named_same(a, b, key);
    if let Some(k) = member_named(a, key) {
        lemma_indices_findings_same(&a[k].1, &b[k].1);
        if indices_findings(&a[k].1).len() == 0 {
            lemma_indices_value_same(&a[k].1, &b[k].1, x, y);
        }
    }
}

/// Two defaults are the same.
pub proof fn lemma_default_indices_same(
    x: &Spanned<ArrayOrSingleItem<usize>>,
    y: &Spanned<ArrayOrSingleItem<usize>>,
)
    ensures
        default_indices(*x) && default_indices(*y) ==> same_indices(x, y),
{
}

/// The member `key` gives the same in members that are the same to look
/// at, where it gives this default in both when it gives no value.
pub proof fn lemma_indices_member_same(
    a: Seq<Member>,
    b: Seq<Member>,
    key: Seq<char>,
    x: &Spanned<ArrayOrSingleItem<usize>>,
    y: &Spanned<ArrayOrSingleItem<usize>>,
)
    requires
        same_members(a, b),
        indices_held(a, key, x, default_indices(*x)),
        indices_held(b, key, y, default_indices(*y)),
    ensures
        same_indices(x, y),
{
    lemma_default_indices_same(x, y);
    lemma_indices_held_same(a, b, key, x, y, default_indices(*x), default_indices(*y));
}

/// The member `key` reports the same as an array of strings in members that are the
/// same to look at.
pub proof fn lemma_texts_field_same(a: Seq<Member>, b: Seq<Member>, key: Seq<char>)
    requires
        same_members(a, b),
    ensures
        texts_field_findings(a, key) == texts_field_findings(b, key),
{
    reveal(texts_field_findings);
    lemma_member_named_same(a, b, key);
    if let Some(k) = member_named(a, key) {
        lemma_texts_findings_same(&a[k].1, &b[k].1);
    }
}

/// The member `key` gives the same as an array of strings in members that are the same
/// to look at, where the defaults are the same.
pub proof fn lemma_texts_held_same(
    a: Seq<Member>,
    b: Seq<Member>,
    key: Seq<char>,
    x: &Spanned<Vec<Spanned<String>>>,
    y: &Spanned<Vec<Spanned<String>>>,
    p: bool,
    q: bool,
)
    requires
        same_members(a, b),
        texts_held(a, key, x, p),
        texts_held(b, key, y, q),
        p && q ==> same_texts(x, y),
    ensures
        same_texts(x, y),
{
    reveal(texts_held);
    lemma_member_named_same(a, b, key);
    if let Some(k) = member_named(a, key) {
        lemma_texts_findings_same(&a[k].1, &b[k].1);
        if texts_findings(&a[k].1).len() == 0 {
            lemma_texts_value_same(&a[k].1, &b[k].1, x, y);
        }
    }
}

/// Two defaults are the same.
pub proof fn lemma_default_texts_same(x: &Spanned<Vec<Spanned<String>>>, y: &Spanned<Vec<Spanned<String>>>)
    ensures
        default_list(*x) && default_list(*y) ==> same_texts(x, y),
{
}

/// The member `key` gives the same in members that are the same to look
/// at, where it gives this default in both when it gives no value.
pub proof fn lemma_texts_member_same(
    a: Seq<Member>,
    b: Seq<Member>,
    key: Seq<char>,
    x: &Spanned<Vec<Spanned<String>>>,
    y: &Spanned<Vec<Spanned<String>>>,
)
    requires
        same_members(a, b),
        texts_held(a, key, x, default_list(*x)),
        texts_held(b, key, y, default_list(*y)),
    ensures
        same_texts(x, y),
{
    lemma_default_texts_same(x, y);
    lemma_texts_held_same(a, b, key, x, y, default_list(*x), default_list(*y));
}

/// Two defaults are the same.
pub proof fn lemma_default_tenth_same(x: &Spanned<Number>, y: &Spanned<Number>)
    ensures
        default_tenth(*x) && default_tenth(*y) ==> same_number(x, y),
{
}

/// The member `key` gives the same in members that are the same to look
/// at, where it gives this default in both when it gives no value.
pub proof fn lemma_tenth_member_same(
    a: Seq<Member>,
    b: Seq<Member>,
    key: Seq<char>,
    x: &Spanned<Number>,
    y: &Spanned<Number>,
)
    requires
        same_members(a, b),
        number_held(a, key, x, default_tenth(*x)),
        number_held(b, key, y, default_tenth(*y)),
    ensures
        same_number(x, y),
{
    lemma_default_tenth_same(x, y);
    lemma_number_held_same(a, b, key, x, y, default_tenth(*x), default_tenth(*y));
}

/// Two defaults are the same.
pub proof fn lemma_default_half_same(x: &Spanned<Number>, y: &Spanned<Number>)
    ensures
        default_half(*x) && default_half(*y) ==> same_number(x, y),
{
}

/// The member `key` gives the same in members that are the same to look
/// at, where it gives this default in both when it gives no value.
pub proof fn lemma_half_member_same(
    a: Seq<Member>,
    b: Seq<Member>,
    key: Seq<char>,
    x: &Spanned<Number>,
    y: &Spanned<Number>,
)
    requires
        same_members(a, b),
        number_held(a, key, x, default_half(*x)),
        number_held(b, key, y, default_half(*y)),
    ensures
        same_number(x, y),
{
    lemma_default_half_same(x, y);
    lemma_number_held_same(a, b, key, x, y, default_half(*x), default_half(*y));
}

/// `a` and `b` are the same to look at as a range of counts: each field of the one
/// is the same as that field of the other.
pub open spec fn same_index_range_object(a: &Range<usize>, b: &Range<usize>) -> bool {
    &&& same_index(&a.max, &b.max)
    &&& same_index(&a.min, &b.min)
}

/// `a` and `b` are the same to look at as a range of counts, at the same place.
pub open spec fn same_index_range(a: &Spanned<Range<usize>>, b: &Spanned<Range<usize>>) -> bool {
    a.span == b.span && same_index_range_object(&a.val, &b.val)
}

/// Members that are the same to look at report the same as a range of counts.
pub proof fn lemma_index_range_object_findings_same(a: Seq<Member>, b: Seq<Member>)
    requires
        same_members(a, b),
    ensures
        index_range_object_findings(a) == index_range_object_findings(b),
{
    reveal(index_range_object_findings);
    let known = index_range_names();
    lemma_duplicates_same(a, b, a.len() as int);
    lemma_unknown_in_gap_same(a, b, known, None, Some("max"@));
    lemma_index_field_same(a, b, "max"@);
    lemma_unknown_in_gap_same(a, b, known, Some("max"@), Some("min"@));
    lemma_index_field_same(a, b, "min"@);
    lemma_unknown_in_gap_same(a, b, known, Some("min"@), None);
}

/// Members that are the same to look at give the same as a range of counts.
pub proof fn lemma_index_range_object_value_same(
    a: Seq<Member>,
    b: Seq<Member>,
    x: &Range<usize>,
    y: &Range<usize>,
)
    requires
        same_members(a, b),
        index_range_object_value(a, x),
        index_range_object_value(b, y),
    ensures
        same_index_range_object(x, y),
{
    reveal(index_range_object_value);
    lemma_index_member_same(a, b, "max"@, &x.max, &y.max);
    lemma_index_member_same(a, b, "min"@, &x.min, &y.min);
}

/// Nodes that are the same to look at report the same as a range of counts.
pub proof fn lemma_index_range_findings_same(a: &Spanned<Json>, b: &Spanned<Json>)
    requires
        same_node(a, b),
    ensures
        index_range_findings(a) == index_range_findings(b),
{
    lemma_same_node(a, b);
    match (a.val, b.val) {
        (Json::Object(x), Json::Object(y)) => lemma_index_range_object_findings_same(x@, y@),
        _ => {},
    }
}

/// Nodes that are the same to look at give the same as a range of counts.
pub proof fn lemma_index_range_value_same(
    a: &Spanned<Json>,
    b: &Spanned<Json>,
    x: &Spanned<Range<usize>>,
    y: &Spanned<Range<usize>>,
)
    requires
        same_node(a, b),
        index_range_value(a, x),
        index_range_value(b, y),
    ensures
        same_index_range(x, y),
{
    lemma_same_node(a, b);
    match (a.val, b.val) {
        (Json::Object(s), Json::Object(t)) => lemma_index_range_object_value_same(s@, t@, &x.val, &y.val),
        _ => {},
    }
}

/// The member `key` reports the same as a range of counts in members that are the
/// same to look at.
pub proof fn lemma_index_range_field_same(a: Seq<Member>, b: Seq<Member>, key: Seq<char>)
    requires
        same_members(a, b),
    ensures
        index_range_field_findings(a, key) == index_range_field_findings(b, key),
{
    reveal(index_range_field_findings);
    lemma_member_named_same(a, b, key);
    if let Some(k) = member_named(a, key) {
        lemma_index_range_findings_same(&a[k].1, &b[k].1);
    }
}

/// The member `key` gives the same as a range of counts in members that are the same
/// to look at, where the defaults are the same.
pub proof fn lemma_index_range_held_same(
    a: Seq<Member>,
    b: Seq<Member>,
    key: Seq<char>,
    x: &Spanned<Range<usize>>,
    y: &Spanned<Range<usize>>,
    p: bool,
    q: bool,
)
    requires
        same_members(a, b),
        index_range_held(a, key, x, p),
        index_range_held(b, key, y, q),
        p && q ==> same_index_range(x, y),
    ensures
        same_index_range(x, y),
{
    reveal(index_range_held);
    lemma_member_named_same(a, b, key);
    if let Some(k) = member_named(a, key) {
        lemma_same_node(&a[k].1, &b[k].1);
        if a[k].1.val is Object {
            lemma_index_range_value_same(&a[k].1, &b[k].1, x, y);
        }
    }
}

/// Two defaults are the same.
pub proof fn lemma_default_index_range_same(x: &Spanned<Range<usize>>, y: &Spanned<Range<usize>>)
    ensures
        default_index_range(*x) && default_index_range(*y) ==> same_index_range(x, y),
{
}

/// The member `key` gives the same in members that are the same to look
/// at, where it gives this default in both when it gives no value.
pub proof fn lemma_index_range_member_same(
    a: Seq<Member>,
    b: Seq<Member>,
    key: Seq<char>,
    x: &Spanned<Range<usize>>,
    y: &Spanned<Range<usize>>,
)
    requires
        same_members(a, b),
        index_range_held(a, key, x, default_index_range(*x)),
        index_range_held(b, key, y, default_index_range(*y)),
    ensures
        same_index_range(x, y),
{
    lemma_default_index_range_same(x, y);
    lemma_index_range_held_same(a, b, key, x, y, default_index_range(*x), default_index_range(*y));
}

/// `a` and `b` are the same to look at as a range of numbers: each field of the one
/// is the same as that field of the other.
pub open spec fn same_number_range_object(a: &Range<Number>, b: &Range<Number>) -> bool {
    &&& same_number(&a.max, &b.max)
    &&& same_number(&a.min, &b.min)
}

/// `a` and `b` are the same to look at as a range of numbers, at the same place.
pub open spec fn same_number_range(a: &Spanned<Range<Number>>, b: &Spanned<Range<Number>>) -> bool {
    a.span == b.span && same_number_range_object(&a.val, &b.val)
}

/// Members that are the same to look at report the same as a range of numbers.
pub proof fn lemma_number_range_object_findings_same(a: Seq<Member>, b: Seq<Member>)
    requires
        same_members(a, b),
    ensures
        number_range_object_findings(a) == number_range_object_findings(b),
{
    reveal(number_range_object_findings);
    let known = number_range_names();
    lemma_duplicates_same(a, b, a.len() as int);
    lemma_unknown_in_gap_same(a, b, known, None, Some("max"@));
    lemma_number_field_same(a, b, "max"@);
    lemma_unknown_in_gap_same(a, b, known, Some("max"@), Some("min"@));
    lemma_number_field_same(a, b, "min"@);
    lemma_unknown_in_gap_same(a, b, known, Some("min"@), None);
}

/// Members that are the same to look at give the same as a range of numbers.
pub proof fn lemma_number_range_object_value_same(
    a: Seq<Member>,
    b: Seq<Member>,
    x: &Range<Number>,
    y: &Range<Number>,
)
    requires
        same_members(a, b),
        number_range_object_value(a, x),
        number_range_object_value(b, y),
    ensures
        same_number_range_object(x, y),
{
    reveal(number_range_object_value);
    lemma_number_member_same(a, b, "max"@, &x.max, &y.max);
    lemma_number_member_same(a, b, "min"@, &x.min, &y.min);
}

/// Nodes that are the same to look at report the same as a range of numbers.
pub proof fn lemma_number_range_findings_same(a: &Spanned<Json>, b: &Spanned<Json>)
    requires
        same_node(a, b),
    ensures
        number_range_findings(a) == number_range_findings(b),
{
    lemma_same_node(a, b);
    match (a.val, b.val) {
        (Json::Object(x), Json::Object(y)) => lemma_number_range_object_findings_same(x@, y@),
        _ => {},
    }
}

/// Nodes that are the same to look at give the same as a range of numbers.
pub proof fn lemma_number_range_value_same(
    a: &Spanned<Json>,
    b: &Spanned<Json>,
    x: &Spanned<Range<Number>>,
    y: &Spanned<Range<Number>>,
)
    requires
        same_node(a, b),
        number_range_value(a, x),
        number_range_value(b, y),
    ensures
        same_number_range(x, y),
{
    lemma_same_node(a, b);
    match (a.val, b.val) {
        (Json::Object(s), Json::Object(t)) => lemma_number_range_object_value_same(s@, t@, &x.val, &y.val),
        _ => {},
    }
}

/// The member `key` reports the same as a range of numbers in members that are the
/// same to look at.
pub proof fn lemma_number_range_field_same(a: Seq<Member>, b: Seq<Member>, key: Seq<char>)
    requires
        same_members(a, b),
    ensures
        number_range_field_findings(a, key) == number_range_field_findings(b, key),
{
    reveal(number_range_field_findings);
    lemma_member_named_same(a, b, key);
    if let Some(k) = member_named(a, key) {
        lemma_number_range_findings_same(&a[k].1, &b[k].1);
    }
}

/// The member `key` gives the same as a range of numbers in members that are the same
/// to look at, where the defaults are the same.
pub proof fn lemma_number_range_held_same(
    a: Seq<Member>,
    b: Seq<Member>,
    key: Seq<char>,
    x: &Spanned<Range<Number>>,
    y: &Spanned<Range<Number>>,
    p: bool,
    q: bool,
)
    requires
        same_members(a, b),
        number_range_held(a, key, x, p),
        number_range_held(b, key, y, q),
        p && q ==> same_number_range(x, y),
    ensures
        same_number_range(x, y),
{
    reveal(number_range_held);
    lemma_member_named_same(a, b, key);
    if let Some(k) = member_named(a, key) {
        lemma_same_node(&a[k].1, &b[k].1);
        if a[k].1.val is Object {
            lemma_number_range_value_same(&a[k].1, &b[k].1, x, y);
        }
    }
}

/// Two defaults are the same.
pub proof fn lemma_default_number_range_same(x: &Spanned<Range<Number>>, y: &Spanned<Range<Number>>)
    ensures
        default_number_range(*x) && default_number_range(*y) ==> same_number_range(x, y),
{
    lemma_default_number_same(&x.val.min, &y.val.min);
    lemma_default_number_same(&x.val.max, &y.val.max);
}

/// The member `key` gives the same in members that are the same to look
/// at, where it gives this default in both when it gives no value.
pub proof fn lemma_number_range_member_same(
    a: Seq<Member>,
    b: Seq<Member>,
    key: Seq<char>,
    x: &Spanned<Range<Number>>,
    y: &Spanned<Range<Number>>,
)
    requires
        same_members(a, b),
        number_range_held(a, key, x, default_number_range(*x)),
        number_range_held(b, key, y, default_number_range(*y)),
    ensures
        same_number_range(x, y),
{
    lemma_default_number_range_same(x, y);
    lemma_number_range_held_same(a, b, key, x, y, default_number_range(*x), default_number_range(*y));
}

/// `a` and `b` are the same to look at as a weighted range of counts: each field of the one
/// is the same as that field of the other.
pub open spec fn same_weighted_index_range_object(a: &WeightedRange<usize>, b: &WeightedRange<usize>) -> bool {
    &&& same_index_range(&a.range, &b.range)
    &&& same_number(&a.weight, &b.weight)
}

/// `a` and `b` are the same to look at as a weighted range of counts, at the same place.
pub open spec fn same_weighted_index_range(a: &Spanned<WeightedRange<usize>>, b: &Spanned<WeightedRange<usize>>) -> bool {
    a.span == b.span && same_weighted_index_range_object(&a.val, &b.val)
}

/// Members that are the same to look at report the same as a weighted range of counts.
pub proof fn lemma_weighted_index_range_object_findings_same(a: Seq<Member>, b: Seq<Member>)
    requires
        same_members(a, b),
    ensures
        weighted_index_range_object_findings(a) == weighted_index_range_object_findings(b),
{
    reveal(weighted_index_range_object_findings);
    let known = weighted_index_range_names();
    lemma_duplicates_same(a, b, a.len() as int);
    lemma_unknown_in_gap_same(a, b, known, None, Some("range"@));
    lemma_index_range_field_same(a, b, "range"@);
    lemma_unknown_in_gap_same(a, b, known, Some("range"@), Some("weight"@));
    lemma_number_field_same(a, b, "weight"@);
    lemma_unknown_in_gap_same(a, b, known, Some("weight"@), None);
}

/// Members that are the same to look at give the same as a weighted range of counts.
pub proof fn lemma_weighted_index_range_object_value_same(
    a: Seq<Member>,
    b: Seq<Member>,
    x: &WeightedRange<usize>,
    y: &WeightedRange<usize>,
)
    requires
        same_members(a, b),
        weighted_index_range_object_value(a, x),
        weighted_index_range_object_value(b, y),
    ensures
        same_weighted_index_range_object(x, y),
{
    reveal(weighted_index_range_object_value);
    lemma_index_range_member_same(a, b, "range"@, &x.range, &y.range);
    lemma_number_member_same(a, b, "weight"@, &x.weight, &y.weight);
}

/// Nodes that are the same to look at report the same as a weighted range of counts.
pub proof fn lemma_weighted_index_range_findings_same(a: &Spanned<Json>, b: &Spanned<Json>)
    requires
        same_node(a, b),
    ensures
        weighted_index_range_findings(a) == weighted_index_range_findings(b),
{
    lemma_same_node(a, b);
    match (a.val, b.val) {
        (Json::Object(x), Json::Object(y)) => lemma_weighted_index_range_object_findings_same(x@, y@),
        _ => {},
    }
}

/// Nodes that are the same to look at give the same as a weighted range of counts.
pub proof fn lemma_weighted_index_range_value_same(
    a: &Spanned<Json>,
    b: &Spanned<Json>,
    x: &Spanned<WeightedRange<usize>>,
    y: &Spanned<WeightedRange<usize>>,
)
    requires
        same_node(a, b),
        weighted_index_range_value(a, x),
        weighted_index_range_value(b, y),
    ensures
        same_weighted_index_range(x, y),
{
    lemma_same_node(a, b);
    match (a.val, b.val) {
        (Json::Object(s), Json::Object(t)) => lemma_weighted_index_range_object_value_same(s@, t@, &x.val, &y.val),
        _ => {},
    }
}

/// `a` and `b` are the same to look at as a weighted range of numbers: each field of the one
/// is the same as that field of the other.
pub open spec fn same_weighted_number_range_object(a: &WeightedRange<Number>, b: &WeightedRange<Number>) -> bool {
    &&& same_number_range(&a.range, &b.range)
    &&& same_number(&a.weight, &b.weight)
}

/// `a` and `b` are the same to look at as a weighted range of numbers, at the same place.
pub open spec fn same_weighted_number_range(a: &Spanned<WeightedRange<Number>>, b: &Spanned<WeightedRange<Number>>) -> bool {
    a.span == b.span && same_weighted_number_range_object(&a.val, &b.val)
}

/// Members that are the same to look at report the same as a weighted range of numbers.
pub proof fn lemma_weighted_number_range_object_findings_same(a: Seq<Member>, b: Seq<Member>)
    requires
        same_members(a, b),
    ensures
        weighted_number_range_object_findings(a) == weighted_number_range_object_findings(b),
{
    reveal(weighted_number_range_object_findings);
    let known = weighted_number_range_names();
    lemma_duplicates_same(a, b, a.len() as int);
    lemma_unknown_in_gap_same(a, b, known, None, Some("range"@));
    lemma_number_range_field_same(a, b, "range"@);
    lemma_unknown_in_gap_same(a, b, known, Some("range"@), Some("weight"@));
    lemma_number_field_same(a, b, "weight"@);
    lemma_unknown_in_gap_same(a, b, known, Some("weight"@), None);
}

/// Members that are the same to look at give the same as a weighted range of numbers.
pub proof fn lemma_weighted_number_range_object_value_same(
    a: Seq<Member>,
    b: Seq<Member>,
    x: &WeightedRange<Number>,
    y: &WeightedRange<Number>,
)
    requires
        same_members(a, b),
        weighted_number_range_object_value(a, x),
        weighted_number_range_object_value(b, y),
    ensures
        same_weighted_number_range_object(x, y),
{
    reveal(weighted_number_range_object_value);
    lemma_number_range_member_same(a, b, "range"@, &x.range, &y.range);
    lemma_number_member_same(a, b, "weight"@, &x.weight, &y.weight);
}

/// Nodes that are the same to look at report the same as a weighted range of numbers.
pub proof fn lemma_weighted_number_range_findings_same(a: &Spanned<Json>, b: &Spanned<Json>)
    requires
        same_node(a, b),
    ensures
        weighted_number_range_findings(a) == weighted_number_range_findings(b),
{
    lemma_same_node(a, b);
    match (a.val, b.val) {
        (Json::Object(x), Json::Object(y)) => lemma_weighted_number_range_object_findings_same(x@, y@),
        _ => {},
    }
}

/// Nodes that are the same to look at give the same as a weighted range of numbers.
pub proof fn lemma_weighted_number_range_value_same(
    a: &Spanned<Json>,
    b: &Spanned<Json>,
    x: &Spanned<WeightedRange<Number>>,
    y: &Spanned<WeightedRange<Number>>,
)
    requires
        same_node(a, b),
        weighted_number_range_value(a, x),
        weighted_number_range_value(b, y),
    ensures
        same_weighted_number_range(x, y),
{
    lemma_same_node(a, b);
    match (a.val, b.val) {
        (Json::Object(s), Json::Object(t)) => lemma_weighted_number_range_object_value_same(s@, t@, &x.val, &y.val),
        _ => {},
    }
}

/// `a` and `b` are the same to look at as an enemy pool: each field of the one
/// is the same as that field of the other.
pub open spec fn same_pool_object(a: &EnemyPool, b: &EnemyPool) -> bool {
    &&& same_texts(&a.add, &b.add)
    &&& same_flag(&a.clear, &b.clear)
    &&& same_texts(&a.remove, &b.remove)
}

/// `a` and `b` are the same to look at as an enemy pool, at the same place.
pub open spec fn same_pool(a: &Spanned<EnemyPool>, b: &Spanned<EnemyPool>) -> bool {
    a.span == b.span && same_pool_object(&a.val, &b.val)
}

/// Members that are the same to look at report the same as an enemy pool.
pub proof fn lemma_pool_object_findings_same(a: Seq<Member>, b: Seq<Member>)
    requires
        same_members(a, b),
    ensures
        pool_object_findings(a) == pool_object_findings(b),
{
    reveal(pool_object_findings);
    let known = pool_names();
    lemma_duplicates_same(a, b, a.len() as int);
    lemma_unknown_in_gap_same(a, b, known, None, Some("add"@));
    lemma_texts_field_same(a, b, "add"@);
    lemma_unknown_in_gap_same(a, b, known, Some("add"@), Some("clear"@));
    lemma_flag_field_same(a, b, "clear"@);
    lemma_unknown_in_gap_same(a, b, known, Some("clear"@), Some("remove"@));
    lemma_texts_field_same(a, b, "remove"@);
    lemma_unknown_in_gap_same(a, b, known, Some("remove"@), None);
}

/// Members that are the same to look at give the same as an enemy pool.
pub proof fn lemma_pool_object_value_same(a: Seq<Member>, b: Seq<Member>, x: &EnemyPool, y: &EnemyPool)
    requires
        same_members(a, b),
        pool_object_value(a, x),
        pool_object_value(b, y),
    ensures
        same_pool_object(x, y),
{
    reveal(pool_object_value);
    lemma_texts_member_same(a, b, "add"@, &x.add, &y.add);
    lemma_flag_member_same(a, b, "clear"@, &x.clear, &y.clear);
    lemma_texts_member_same(a, b, "remove"@, &x.remove, &y.remove);
}

/// Nodes that are the same to look at report the same as an enemy pool.
pub proof fn lemma_pool_findings_same(a: &Spanned<Json>, b: &Spanned<Json>)
    requires
        same_node(a, b),
    ensures
        pool_findings(a) == pool_findings(b),
{
    lemma_same_node(a, b);
    match (a.val, b.val) {
        (Json::Object(x), Json::Object(y)) => lemma_pool_object_findings_same(x@, y@),
        _ => {},
    }
}

/// Nodes that are the same to look at give the same as an enemy pool.
pub proof fn lemma_pool_value_same(
    a: &Spanned<Json>,
    b: &Spanned<Json>,
    x: &Spanned<EnemyPool>,
    y: &Spanned<EnemyPool>,
)
    requires
        same_node(a, b),
        pool_value(a, x),
        pool_value(b, y),
    ensures
        same_pool(x, y),
{
    lemma_same_node(a, b);
    match (a.val, b.val) {
        (Json::Object(s), Json::Object(t)) => lemma_pool_object_value_same(s@, t@, &x.val, &y.val),
        _ => {},
    }
}

/// The member `key` reports the same as an enemy pool in members that are the
/// same to look at.
pub proof fn lemma_pool_field_same(a: Seq<Member>, b: Seq<Member>, key: Seq<char>)
    requires
        same_members(a, b),
    ensures
        pool_field_findings(a, key) == pool_field_findings(b, key),
{
    reveal(pool_field_findings);
    lemma_member_named_same(a, b, key);
    if let Some(k) = member_named(a, key) {
        lemma_pool_findings_same(&a[k].1, &b[k].1);
    }
}

/// The member `key` gives the same as an enemy pool in members that are the same
/// to look at, where the defaults are the same.
pub proof fn lemma_pool_held_same(
    a: Seq<Member>,
    b: Seq<Member>,
    key: Seq<char>,
    x: &Spanned<EnemyPool>,
    y: &Spanned<EnemyPool>,
    p: bool,
    q: bool,
)
    requires
        same_members(a, b),
        pool_held(a, key, x, p),
        pool_held(b, key, y, q),
        p && q ==> same_pool(x, y),
    ensures
        same_pool(x, y),
{
    reveal(pool_held);
    lemma_member_named_same(a, b, key);
    if let Some(k) = member_named(a, key) {
        lemma_same_node(&a[k].1, &b[k].1);
        if a[k].1.val is Object {
            lemma_pool_value_same(&a[k].1, &b[k].1, x, y);
        }
    }
}

/// Two defaults are the same.
pub proof fn lemma_default_pool_same(x: &Spanned<EnemyPool>, y: &Spanned<EnemyPool>)
    ensures
        default_pool(*x) && default_pool(*y) ==> same_pool(x, y),
{
}

/// The member `key` gives the same in members that are the same to look
/// at, where it gives this default in both when it gives no value.
pub proof fn lemma_pool_member_same(
    a: Seq<Member>,
    b: Seq<Member>,
    key: Seq<char>,
    x: &Spanned<EnemyPool>,
    y: &Spanned<EnemyPool>,
)
    requires
        same_members(a, b),
        pool_held(a, key, x, default_pool(*x)),
        pool_held(b, key, y, default_pool(*y)),
    ensures
        same_pool(x, y),
{
    lemma_default_pool_same(x, y);
    lemma_pool_held_same(a, b, key, x, y, default_pool(*x), default_pool(*y));
}

/// `a` and `b` are the same to look at as the escort mule: each field of the one
/// is the same as that field of the other.
pub open spec fn same_mule_object(a: &EscortMule, b: &EscortMule) -> bool {
    &&& same_number(&a.big_hit_damage_modifier, &b.big_hit_damage_modifier)
    &&& same_number(&a.big_hit_damage_reduction_threshold, &b.big_hit_damage_reduction_threshold)
    &&& same_number(&a.friendly_fire_modifier, &b.friendly_fire_modifier)
    &&& same_number(&a.neutral_damage_modifier, &b.neutral_damage_modifier)
}

/// `a` and `b` are the same to look at as the escort mule, at the same place.
pub open spec fn same_mule(a: &Spanned<EscortMule>, b: &Spanned<EscortMule>) -> bool {
    a.span == b.span && same_mule_object(&a.val, &b.val)
}

/// Members that are the same to look at report the same as the escort mule.
pub proof fn lemma_mule_object_findings_same(a: Seq<Member>, b: Seq<Member>)
    requires
        same_members(a, b),
    ensures
        mule_object_findings(a) == mule_object_findings(b),
{
    reveal(mule_object_findings);
    let known = mule_names();
    lemma_duplicates_same(a, b, a.len() as int);
    lemma_unknown_in_gap_same(a, b, known, None, Some("BigHitDamageModifier"@));
    lemma_number_field_same(a, b, "BigHitDamageModifier"@);
    lemma_unknown_in_gap_same(
        a,
        b,
        known,
        Some("BigHitDamageModifier"@),
        Some("BigHitDamageReductionThreshold"@),
    );
    lemma_number_field_same(a, b, "BigHitDamageReductionThreshold"@);
    lemma_unknown_in_gap_same(
        a,
        b,
        known,
        Some("BigHitDamageReductionThreshold"@),
        Some("FriendlyFireModifier"@),
    );
    lemma_number_field_same(a, b, "FriendlyFireModifier"@);
    lemma_unknown_in_gap_same(a, b, known, Some("FriendlyFireModifier"@), Some("NeutralDamageModifier"@));
    lemma_number_field_same(a, b, "NeutralDamageModifier"@);
    lemma_unknown_in_gap_same(a, b, known, Some("NeutralDamageModifier"@), None);
}

/// Members that are the same to look at give the same as the escort mule.
pub proof fn lemma_mule_object_value_same(a: Seq<Member>, b: Seq<Member>, x: &EscortMule, y: &EscortMule)
    requires
        same_members(a, b),
        mule_object_value(a, x),
        mule_object_value(b, y),
    ensures
        same_mule_object(x, y),
{
    reveal(mule_object_value);
    lemma_half_member_same(
        a,
        b,
        "BigHitDamageModifier"@,
        &x.big_hit_damage_modifier,
        &y.big_hit_damage_modifier,
    );
    lemma_number_member_same(
        a,
        b,
        "BigHitDamageReductionThreshold"@,
        &x.big_hit_damage_reduction_threshold,
        &y.big_hit_damage_reduction_threshold,
    );
    lemma_tenth_member_same(
        a,
        b,
        "FriendlyFireModifier"@,
        &x.friendly_fire_modifier,
        &y.friendly_fire_modifier,
    );
    lemma_tenth_member_same(
        a,
        b,
        "NeutralDamageModifier"@,
        &x.neutral_damage_modifier,
        &y.neutral_damage_modifier,
    );
}

/// Nodes that are the same to look at report the same as the escort mule.
pub proof fn lemma_mule_findings_same(a: &Spanned<Json>, b: &Spanned<Json>)
    requires
        same_node(a, b),
    ensures
        mule_findings(a) == mule_findings(b),
{
    lemma_same_node(a, b);
    match (a.val, b.val) {
        (Json::Object(x), Json::Object(y)) => lemma_mule_object_findings_same(x@, y@),
        _ => {},
    }
}

/// Nodes that are the same to look at give the same as the escort mule.
pub proof fn lemma_mule_value_same(
    a: &Spanned<Json>,
    b: &Spanned<Json>,
    x: &Spanned<EscortMule>,
    y: &Spanned<EscortMule>,
)
    requires
        same_node(a, b),
        mule_value(a, x),
        mule_value(b, y),
    ensures
        same_mule(x, y),
{
    lemma_same_node(a, b);
    match (a.val, b.val) {
        (Json::Object(s), Json::Object(t)) => lemma_mule_object_value_same(s@, t@, &x.val, &y.val),
        _ => {},
    }
}

/// The member `key` reports the same as the escort mule in members that are the
/// same to look at.
pub proof fn lemma_mule_field_same(a: Seq<Member>, b: Seq<Member>, key: Seq<char>)
    requires
        same_members(a, b),
    ensures
        mule_field_findings(a, key) == mule_field_findings(b, key),
{
    reveal(mule_field_findings);
    lemma_member_named_same(a, b, key);
    if let Some(k) = member_named(a, key) {
        lemma_mule_findings_same(&a[k].1, &b[k].1);
    }
}

/// The member `key` gives the same as the escort mule in members that are the same
/// to look at, where the defaults are the same.
pub proof fn lemma_mule_held_same(
    a: Seq<Member>,
    b: Seq<Member>,
    key: Seq<char>,
    x: &Spanned<EscortMule>,
    y: &Spanned<EscortMule>,
    p: bool,
    q: bool,
)
    requires
        same_members(a, b),
        mule_held(a, key, x, p),
        mule_held(b, key, y, q),
        p && q ==> same_mule(x, y),
    ensures
        same_mule(x, y),
{
    reveal(mule_held);
    lemma_member_named_same(a, b, key);
    if let Some(k) = member_named(a, key) {
        lemma_same_node(&a[k].1, &b[k].1);
        if a[k].1.val is Object {
            lemma_mule_value_same(&a[k].1, &b[k].1, x, y);
        }
    }
}

/// Two defaults are the same.
pub proof fn lemma_default_mule_same(x: &Spanned<EscortMule>, y: &Spanned<EscortMule>)
    ensures
        default_mule(*x) && default_mule(*y) ==> same_mule(x, y),
{
    lemma_default_number_same(
        &x.val.big_hit_damage_reduction_threshold,
        &y.val.big_hit_damage_reduction_threshold,
    );
}

/// The member `key` gives the same in members that are the same to look
/// at, where it gives this default in both when it gives no value.
pub proof fn lemma_mule_member_same(
    a: Seq<Member>,
    b: Seq<Member>,
    key: Seq<char>,
    x: &Spanned<EscortMule>,
    y: &Spanned<EscortMule>,
)
    requires
        same_members(a, b),
        mule_held(a, key, x, default_mule(*x)),
        mule_held(b, key, y, default_mule(*y)),
    ensures
        same_mule(x, y),
{
    lemma_default_mule_same(x, y);
    lemma_mule_held_same(a, b, key, x, y, default_mule(*x), default_mule(*y));
}

/// `a` and `b` hold the same weighted ranges of counts, each at its place.
pub open spec fn same_index_bins(a: &Spanned<Vec<Spanned<WeightedRange<usize>>>>, b: &Spanned<Vec<Spanned<WeightedRange<usize>>>>) -> bool {
    a.span == b.span && a.val@.len() == b.val@.len() && forall|k: int|
        0 <= k < a.val@.len() ==> same_weighted_index_range(&#[trigger] a.val@[k], &b.val@[k])
}

proof fn lemma_index_bins_among_same(a: Seq<Spanned<Json>>, b: Seq<Spanned<Json>>, upto: int)
    requires
        same_items(a, b),
    ensures
        index_bins_among(a, upto) == index_bins_among(b, upto),
    decreases upto,
{
    if 0 < upto <= a.len() {
        lemma_index_bins_among_same(a, b, upto - 1);
        assert(same_node(&a[upto - 1], &b[upto - 1]));
        lemma_weighted_index_range_findings_same(&a[upto - 1], &b[upto - 1]);
    }
}

/// Nodes that are the same to look at report the same as weighted ranges of counts.
pub proof fn lemma_index_bins_findings_same(a: &Spanned<Json>, b: &Spanned<Json>)
    requires
        same_node(a, b),
    ensures
        index_bins_findings(a) == index_bins_findings(b),
{
    lemma_same_node(a, b);
    match (a.val, b.val) {
        (Json::Array(x), Json::Array(y)) => lemma_index_bins_among_same(x@, y@, x@.len() as int),
        _ => {},
    }
}

/// Of nodes that are the same to look at both are arrays of objects, or neither.
pub proof fn lemma_index_bins_accepted_same(a: &Spanned<Json>, b: &Spanned<Json>)
    requires
        same_node(a, b),
    ensures
        index_bins_accepted(a) == index_bins_accepted(b),
{
    lemma_same_node(a, b);
    match (a.val, b.val) {
        (Json::Array(x), Json::Array(y)) => {
            assert forall|k: int| 0 <= k < x@.len() implies ((#[trigger] x@[k]).val is Object) == (y@[k].val is Object) by {
                lemma_same_node(&x@[k], &y@[k]);
            }
            if index_bins_accepted(a) {
                assert forall|k: int| 0 <= k < y@.len() implies (#[trigger] y@[k]).val is Object by {
                    assert(x@[k].val is Object);
                }
            }
        },
        _ => {},
    }
}

/// Nodes that are the same to look at give the same as weighted ranges of counts.
pub proof fn lemma_index_bins_value_same(
    a: &Spanned<Json>,
    b: &Spanned<Json>,
    x: &Spanned<Vec<Spanned<WeightedRange<usize>>>>,
    y: &Spanned<Vec<Spanned<WeightedRange<usize>>>>,
)
    requires
        same_node(a, b),
        index_bins_value(a, x),
        index_bins_value(b, y),
    ensures
        same_index_bins(x, y),
{
    lemma_same_node(a, b);
    match (a.val, b.val) {
        (Json::Array(s), Json::Array(t)) => {
            assert forall|k: int| 0 <= k < x.val@.len() implies same_weighted_index_range(&#[trigger] x.val@[k], &y.val@[k]) by {
                assert(same_node(&s@[k], &t@[k]));
                assert(weighted_index_range_value(&s@[k], &x.val@[k]));
                assert(weighted_index_range_value(&t@[k], &y.val@[k]));
                lemma_weighted_index_range_value_same(&s@[k], &t@[k], &x.val@[k], &y.val@[k]);
            }
        },
        _ => {},
    }
}

/// The member `key` reports the same as weighted ranges of counts in members that are the
/// same to look at.
pub proof fn lemma_index_bins_field_same(a: Seq<Member>, b: Seq<Member>, key: Seq<char>)
    requires
        same_members(a, b),
    ensures
        index_bins_field_findings(a, key) == index_bins_field_findings(b, key),
{
    reveal(index_bins_field_findings);
    lemma_member_named_same(a, b, key);
    if let Some(k) = member_named(a, key) {
        lemma_index_bins_findings_same(&a[k].1, &b[k].1);
    }
}

/// The member `key` gives the same as weighted ranges of counts in members that are the same
/// to look at, where the defaults are the same.
pub proof fn lemma_index_bins_held_same(
    a: Seq<Member>,
    b: Seq<Member>,
    key: Seq<char>,
    x: &Spanned<Vec<Spanned<WeightedRange<usize>>>>,
    y: &Spanned<Vec<Spanned<WeightedRange<usize>>>>,
    p: bool,
    q: bool,
)
    requires
        same_members(a, b),
        index_bins_held(a, key, x, p),
        index_bins_held(b, key, y, q),
        p && q ==> same_index_bins(x, y),
    ensures
        same_index_bins(x, y),
{
    reveal(index_bins_held);
    lemma_member_named_same(a, b, key);
    if let Some(k) = member_named(a, key) {
        lemma_index_bins_accepted_same(&a[k].1, &b[k].1);
        if index_bins_accepted(&a[k].1) {
            lemma_index_bins_value_same(&a[k].1, &b[k].1, x, y);
        }
    }
}

/// Two defaults are the same.
pub proof fn lemma_default_index_bins_same(
    x: &Spanned<Vec<Spanned<WeightedRange<usize>>>>,
    y: &Spanned<Vec<Spanned<WeightedRange<usize>>>>,
)
    ensures
        default_list(*x) && default_list(*y) ==> same_index_bins(x, y),
{
}

/// The member `key` gives the same in members that are the same to look
/// at, where it gives this default in both when it gives no value.
pub proof fn lemma_index_bins_member_same(
    a: Seq<Member>,
    b: Seq<Member>,
    key: Seq<char>,
    x: &Spanned<Vec<Spanned<WeightedRange<usize>>>>,
    y: &Spanned<Vec<Spanned<WeightedRange<usize>>>>,
)
    requires
        same_members(a, b),
        index_bins_held(a, key, x, default_list(*x)),
        index_bins_held(b, key, y, default_list(*y)),
    ensures
        same_index_bins(x, y),
{
    lemma_default_index_bins_same(x, y);
    lemma_index_bins_held_same(a, b, key, x, y, default_list(*x), default_list(*y));
}

/// `a` and `b` hold the same weighted ranges of numbers, each at its place.
pub open spec fn same_number_bins(a: &Spanned<Vec<Spanned<WeightedRange<Number>>>>, b: &Spanned<Vec<Spanned<WeightedRange<Number>>>>) -> bool {
    a.span == b.span && a.val@.len() == b.val@.len() && forall|k: int|
        0 <= k < a.val@.len() ==> same_weighted_number_range(&#[trigger] a.val@[k], &b.val@[k])
}

proof fn lemma_number_bins_among_same(a: Seq<Spanned<Json>>, b: Seq<Spanned<Json>>, upto: int)
    requires
        same_items(a, b),
    ensures
        number_bins_among(a, upto) == number_bins_among(b, upto),
    decreases upto,
{
    if 0 < upto <= a.len() {
        lemma_number_bins_among_same(a, b, upto - 1);
        assert(same_node(&a[upto - 1], &b[upto - 1]));
        lemma_weighted_number_range_findings_same(&a[upto - 1], &b[upto - 1]);
    }
}

/// Nodes that are the same to look at report the same as weighted ranges of numbers.
pub proof fn lemma_number_bins_findings_same(a: &Spanned<Json>, b: &Spanned<Json>)
    requires
        same_node(a, b),
    ensures
        number_bins_findings(a) == number_bins_findings(b),
{
    lemma_same_node(a, b);
    match (a.val, b.val) {
        (Json::Array(x), Json::Array(y)) => lemma_number_bins_among_same(x@, y@, x@.len() as int),
        _ => {},
    }
}

/// Of nodes that are the same to look at both are arrays of objects, or neither.
pub proof fn lemma_number_bins_accepted_same(a: &Spanned<Json>, b: &Spanned<Json>)
    requires
        same_node(a, b),
    ensures
        number_bins_accepted(a) == number_bins_accepted(b),
{
    lemma_same_node(a, b);
    match (a.val, b.val) {
        (Json::Array(x), Json::Array(y)) => {
            assert forall|k: int| 0 <= k < x@.len() implies ((#[trigger] x@[k]).val is Object) == (y@[k].val is Object) by {
                lemma_same_node(&x@[k], &y@[k]);
            }
            if number_bins_accepted(a) {
                assert forall|k: int| 0 <= k < y@.len() implies (#[trigger] y@[k]).val is Object by {
                    assert(x@[k].val is Object);
                }
            }
        },
        _ => {},
    }
}

/// Nodes that are the same to look at give the same as weighted ranges of numbers.
pub proof fn lemma_number_bins_value_same(
    a: &Spanned<Json>,
    b: &Spanned<Json>,
    x: &Spanned<Vec<Spanned<WeightedRange<Number>>>>,
    y: &Spanned<Vec<Spanned<WeightedRange<Number>>>>,
)
    requires
        same_node(a, b),
        number_bins_value(a, x),
        number_bins_value(b, y),
    ensures
        same_number_bins(x, y),
{
    lemma_same_node(a, b);
    match (a.val, b.val) {
        (Json::Array(s), Json::Array(t)) => {
            assert forall|k: int| 0 <= k < x.val@.len() implies same_weighted_number_range(&#[trigger] x.val@[k], &y.val@[k]) by {
                assert(same_node(&s@[k], &t@[k]));
                assert(weighted_number_range_value(&s@[k], &x.val@[k]));
                assert(weighted_number_range_value(&t@[k], &y.val@[k]));
                lemma_weighted_number_range_value_same(&s@[k], &t@[k], &x.val@[k], &y.val@[k]);
            }
        },
        _ => {},
    }
}

/// The member `key` reports the same as weighted ranges of numbers in members that are the
/// same to look at.
pub proof fn lemma_number_bins_field_same(a: Seq<Member>, b: Seq<Member>, key: Seq<char>)
    requires
        same_members(a, b),
    ensures
        number_bins_field_findings(a, key) == number_bins_field_findings(b, key),
{
    reveal(number_bins_field_findings);
    lemma_member_named_same(a, b, key);
    if let Some(k) = member_named(a, key) {
        lemma_number_bins_findings_same(&a[k].1, &b[k].1);
    }
}

/// The member `key` gives the same as weighted ranges of numbers in members that are the same
/// to look at, where the defaults are the same.
pub proof fn lemma_number_bins_held_same(
    a: Seq<Member>,
    b: Seq<Member>,
    key: Seq<char>,
    x: &Spanned<Vec<Spanned<WeightedRange<Number>>>>,
    y: &Spanned<Vec<Spanned<WeightedRange<Number>>>>,
    p: bool,
    q: bool,
)
    requires
        same_members(a, b),
        number_bins_held(a, key, x, p),
        number_bins_held(b, key, y, q),
        p && q ==> same_number_bins(x, y),
    ensures
        same_number_bins(x, y),
{
    reveal(number_bins_held);
    lemma_member_named_same(a, b, key);
    if let Some(k) = member_named(a, key) {
        lemma_number_bins_accepted_same(&a[k].1, &b[k].1);
        if number_bins_accepted(&a[k].1) {
            lemma_number_bins_value_same(&a[k].1, &b[k].1, x, y);
        }
    }
}

/// Two defaults are the same.
pub proof fn lemma_default_number_bins_same(
    x: &Spanned<Vec<Spanned<WeightedRange<Number>>>>,
    y: &Spanned<Vec<Spanned<WeightedRange<Number>>>>,
)
    ensures
        default_list(*x) && default_list(*y) ==> same_number_bins(x, y),
{
}

/// The member `key` gives the same in members that are the same to look
/// at, where it gives this default in both when it gives no value.
pub proof fn lemma_number_bins_member_same(
    a: Seq<Member>,
    b: Seq<Member>,
    key: Seq<char>,
    x: &Spanned<Vec<Spanned<WeightedRange<Number>>>>,
    y: &Spanned<Vec<Spanned<WeightedRange<Number>>>>,
)
    requires
        same_members(a, b),
        number_bins_held(a, key, x, default_list(*x)),
        number_bins_held(b, key, y, default_list(*y)),
    ensures
        same_number_bins(x, y),
{
    lemma_default_number_bins_same(x, y);
    lemma_number_bins_held_same(a, b, key, x, y, default_list(*x), default_list(*y));
}

/// `a` and `b` hold the same stats, each at its place.
pub open spec fn same_stats_object(a: &PawnStats, b: &PawnStats) -> bool {
    a.0@.len() == b.0@.len() && forall|k: int|
        0 <= k < a.0@.len() ==> same_text(&(#[trigger] a.0@[k]).0, &b.0@[k].0) && same_number(&a.0@[k].1, &b.0@[k].1)
}

/// `a` and `b` hold the same stats at the same place.
pub open spec fn same_stats(a: &Spanned<PawnStats>, b: &Spanned<PawnStats>) -> bool {
    a.span == b.span && same_stats_object(&a.val, &b.val)
}

proof fn lemma_stats_among_same(
    a: Seq<Member>,
    b: Seq<Member>,
    order: Seq<usize>,
    vocabulary: &Vocabulary,
    upto: int,
)
    requires
        same_members(a, b),
        places(order, a.len()),
    ensures
        stats_among(a, order, vocabulary, upto) == stats_among(b, order, vocabulary, upto),
        stats_kept(a, order, vocabulary, upto) == stats_kept(b, order, vocabulary, upto),
        places(stats_kept(a, order, vocabulary, upto), a.len()),
    decreases upto,
{
    if 0 < upto <= order.len() {
        lemma_stats_among_same(a, b, order, vocabulary, upto - 1);
        let k = order[upto - 1] as int;
        assert(a[k].0.span == b[k].0.span && a[k].0.value@ == b[k].0.value@ && same_node(&a[k].1, &b[k].1));
        lemma_number_findings_same(&a[k].1, &b[k].1);
    }
}

/// Members that are the same to look at report the same as stats.
pub proof fn lemma_stats_object_findings_same(a: Seq<Member>, b: Seq<Member>, vocabulary: &Vocabulary)
    requires
        same_members(a, b),
    ensures
        stats_object_findings(a, vocabulary) == stats_object_findings(b, vocabulary),
{
    lemma_duplicates_same(a, b, a.len() as int);
    lemma_visited_same(a, b);
    lemma_stats_among_same(a, b, visited(a), vocabulary, visited(a).len() as int);
}

/// Members that are the same to look at give the same stats.
pub proof fn lemma_stats_object_value_same(
    a: Seq<Member>,
    b: Seq<Member>,
    x: &PawnStats,
    y: &PawnStats,
    vocabulary: &Vocabulary,
)
    requires
        same_members(a, b),
        stats_object_value(a, x, vocabulary),
        stats_object_value(b, y, vocabulary),
    ensures
        same_stats_object(x, y),
{
    lemma_visited_same(a, b);
    lemma_stats_among_same(a, b, visited(a), vocabulary, visited(a).len() as int);
    let kept = stats_kept(a, visited(a), vocabulary, visited(a).len() as int);
    assert forall|p: int| 0 <= p < x.0@.len() implies same_text(&(#[trigger] x.0@[p]).0, &y.0@[p].0) && same_number(
        &x.0@[p].1,
        &y.0@[p].1,
    ) by {
        let k = kept[p] as int;
        assert(stat_entry(&a[k], &x.0@[p]));
        assert(stat_entry(&b[k], &y.0@[p]));
        assert(a[k].0.span == b[k].0.span && a[k].0.value@ == b[k].0.value@ && same_node(&a[k].1, &b[k].1));
        lemma_number_value_same(&a[k].1, &b[k].1, &x.0@[p].1, &y.0@[p].1);
    }
}

/// Nodes that are the same to look at report the same as the stats of a pawn.
pub proof fn lemma_stats_findings_same(a: &Spanned<Json>, b: &Spanned<Json>, vocabulary: &Vocabulary)
    requires
        same_node(a, b),
    ensures
        stats_findings(a, vocabulary) == stats_findings(b, vocabulary),
{
    lemma_same_node(a, b);
    match (a.val, b.val) {
        (Json::Object(x), Json::Object(y)) => lemma_stats_object_findings_same(x@, y@, vocabulary),
        _ => {},
    }
}

/// Nodes that are the same to look at give the same as the stats of a pawn.
pub proof fn lemma_stats_value_same(
    a: &Spanned<Json>,
    b: &Spanned<Json>,
    x: &Spanned<PawnStats>,
    y: &Spanned<PawnStats>,
    vocabulary: &Vocabulary,
)
    requires
        same_node(a, b),
        stats_value(a, x, vocabulary),
        stats_value(b, y, vocabulary),
    ensures
        same_stats(x, y),
{
    lemma_same_node(a, b);
    match (a.val, b.val) {
        (Json::Object(s), Json::Object(t)) => lemma_stats_object_value_same(s@, t@, &x.val, &y.val, vocabulary),
        _ => {},
    }
}

/// The member `key` reports the same as the stats of a pawn in members that are the
/// same to look at.
pub proof fn lemma_stats_field_same(a: Seq<Member>, b: Seq<Member>, key: Seq<char>, vocabulary: &Vocabulary)
    requires
        same_members(a, b),
    ensures
        stats_field_findings(a, key, vocabulary) == stats_field_findings(b, key, vocabulary),
{
    reveal(stats_field_findings);
    lemma_member_named_same(a, b, key);
    if let Some(k) = member_named(a, key) {
        lemma_stats_findings_same(&a[k].1, &b[k].1, vocabulary);
    }
}

/// The member `key` gives the same as the stats of a pawn in members that are the same
/// to look at, where the defaults are the same.
pub proof fn lemma_stats_held_same(
    a: Seq<Member>,
    b: Seq<Member>,
    key: Seq<char>,
    x: &Spanned<PawnStats>,
    y: &Spanned<PawnStats>,
    p: bool,
    q: bool,
    vocabulary: &Vocabulary,
)
    requires
        same_members(a, b),
        stats_held(a, key, x, p, vocabulary),
        stats_held(b, key, y, q, vocabulary),
        p && q ==> same_stats(x, y),
    ensures
        same_stats(x, y),
{
    reveal(stats_held);
    lemma_member_named_same(a, b, key);
    if let Some(k) = member_named(a, key) {
        lemma_same_node(&a[k].1, &b[k].1);
        if a[k].1.val is Object {
            lemma_stats_value_same(&a[k].1, &b[k].1, x, y, vocabulary);
        }
    }
}

/// Two defaults are the same.
pub proof fn lemma_default_stats_same(x: &Spanned<PawnStats>, y: &Spanned<PawnStats>)
    ensures
        default_stats(*x) && default_stats(*y) ==> same_stats(x, y),
{
}

/// The member `key` gives the same in members that are the same to look
/// at, where it gives this default in both when it gives no value.
pub proof fn lemma_stats_member_same(
    a: Seq<Member>,
    b: Seq<Member>,
    key: Seq<char>,
    x: &Spanned<PawnStats>,
    y: &Spanned<PawnStats>,
    vocabulary: &Vocabulary,
)
    requires
        same_members(a, b),
        stats_held(a, key, x, default_stats(*x), vocabulary),
        stats_held(b, key, y, default_stats(*y), vocabulary),
    ensures
        same_stats(x, y),
{
    lemma_default_stats_same(x, y);
    lemma_stats_held_same(a, b, key, x, y, default_stats(*x), default_stats(*y), vocabulary);
}

/// `a` and `b` are the same to look at as an enemy descriptor: each field of the one
/// is the same as that field of the other.
pub open spec fn same_descriptor_object(a: &EnemyDescriptor, b: &EnemyDescriptor) -> bool {
    &&& same_text(&a.base, &b.base)
    &&& same_flag(&a.can_be_used_for_constant_pressure, &b.can_be_used_for_constant_pressure)
    &&& same_flag(&a.can_be_used_in_encounters, &b.can_be_used_in_encounters)
    &&& same_number(&a.difficulty_rating, &b.difficulty_rating)
    &&& same_flag(&a.elite, &b.elite)
    &&& same_index(&a.ideal_spawn_size, &b.ideal_spawn_size)
    &&& same_index(&a.max_spawn_count, &b.max_spawn_count)
    &&& same_index(&a.min_spawn_count, &b.min_spawn_count)
    &&& same_stats(&a.pawn_stats, &b.pawn_stats)
    &&& same_index(&a.rarity, &b.rarity)
    &&& same_number(&a.scale, &b.scale)
    &&& same_index(&a.spawn_amount_modifier, &b.spawn_amount_modifier)
    &&& same_number(&a.spawn_spread, &b.spawn_spread)
    &&& same_number(&a.time_dilation, &b.time_dilation)
}

/// `a` and `b` are the same to look at as an enemy descriptor, at the same place.
pub open spec fn same_descriptor(a: &Spanned<EnemyDescriptor>, b: &Spanned<EnemyDescriptor>) -> bool {
    a.span == b.span && same_descriptor_object(&a.val, &b.val)
}

/// Members that are the same to look at report the same as an enemy descriptor.
pub proof fn lemma_descriptor_object_findings_same(a: Seq<Member>, b: Seq<Member>, vocabulary: &Vocabulary)
    requires
        same_members(a, b),
    ensures
        descriptor_object_findings(a, vocabulary) == descriptor_object_findings(b, vocabulary),
{
    reveal(descriptor_object_findings);
    let known = descriptor_names();
    lemma_duplicates_same(a, b, a.len() as int);
    lemma_unknown_in_gap_same(a, b, known, None, Some("Base"@));
    lemma_text_field_same(a, b, "Base"@);
    lemma_unknown_in_gap_same(a, b, known, Some("Base"@), Some("CanBeUsedForConstantPressure"@));
    lemma_flag_field_same(a, b, "CanBeUsedForConstantPressure"@);
    lemma_unknown_in_gap_same(
        a,
        b,
        known,
        Some("CanBeUsedForConstantPressure"@),
        Some("CanBeUsedInEncounters"@),
    );
    lemma_flag_field_same(a, b, "CanBeUsedInEncounters"@);
    lemma_unknown_in_gap_same(a, b, known, Some("CanBeUsedInEncounters"@), Some("DifficultyRating"@));
    lemma_number_field_same(a, b, "DifficultyRating"@);
    lemma_unknown_in_gap_same(a, b, known, Some("DifficultyRating"@), Some("Elite"@));
    lemma_flag_field_same(a, b, "Elite"@);
    lemma_unknown_in_gap_same(a, b, known, Some("Elite"@), Some("IdealSpawnSize"@));
    lemma_index_field_same(a, b, "IdealSpawnSize"@);
    lemma_unknown_in_gap_same(a, b, known, Some("IdealSpawnSize"@), Some("MaxSpawnCount"@));
    lemma_index_field_same(a, b, "MaxSpawnCount"@);
    lemma_unknown_in_gap_same(a, b, known, Some("MaxSpawnCount"@), Some("MinSpawnCount"@));
    lemma_index_field_same(a, b, "MinSpawnCount"@);
    lemma_unknown_in_gap_same(a, b, known, Some("MinSpawnCount"@), Some("PawnStats"@));
    lemma_stats_field_same(a, b, "PawnStats"@, vocabulary);
    lemma_unknown_in_gap_same(a, b, known, Some("PawnStats"@), Some("Rarity"@));
    lemma_index_field_same(a, b, "Rarity"@);
    lemma_unknown_in_gap_same(a, b, known, Some("Rarity"@), Some("Scale"@));
    lemma_number_field_same(a, b, "Scale"@);
    lemma_unknown_in_gap_same(a, b, known, Some("Scale"@), Some("SpawnAmountModifier"@));
    lemma_index_field_same(a, b, "SpawnAmountModifier"@);
    lemma_unknown_in_gap_same(a, b, known, Some("SpawnAmountModifier"@), Some("SpawnSpread"@));
    lemma_number_field_same(a, b, "SpawnSpread"@);
    lemma_unknown_in_gap_same(a, b, known, Some("SpawnSpread"@), Some("TimeDilation"@));
    lemma_number_field_same(a, b, "TimeDilation"@);
    lemma_unknown_in_gap_same(a, b, known, Some("TimeDilation"@), None);
}

/// Members that are the same to look at give the same as an enemy descriptor.
pub proof fn lemma_descriptor_object_value_same(
    a: Seq<Member>,
    b: Seq<Member>,
    x: &EnemyDescriptor,
    y: &EnemyDescriptor,
    vocabulary: &Vocabulary,
)
    requires
        same_members(a, b),
        descriptor_object_value(a, x, vocabulary),
        descriptor_object_value(b, y, vocabulary),
    ensures
        same_descriptor_object(x, y),
{
    reveal(descriptor_object_value);
    lemma_text_member_same(a, b, "Base"@, &x.base, &y.base);
    lemma_flag_member_same(
        a,
        b,
        "CanBeUsedForConstantPressure"@,
        &x.can_be_used_for_constant_pressure,
        &y.can_be_used_for_constant_pressure,
    );
    lemma_flag_member_same(
        a,
        b,
        "CanBeUsedInEncounters"@,
        &x.can_be_used_in_encounters,
        &y.can_be_used_in_encounters,
    );
    lemma_number_member_same(a, b, "DifficultyRating"@, &x.difficulty_rating, &y.difficulty_rating);
    lemma_flag_member_same(a, b, "Elite"@, &x.elite, &y.elite);
    lemma_index_member_same(a, b, "IdealSpawnSize"@, &x.ideal_spawn_size, &y.ideal_spawn_size);
    lemma_index_member_same(a, b, "MaxSpawnCount"@, &x.max_spawn_count, &y.max_spawn_count);
    lemma_index_member_same(a, b, "MinSpawnCount"@, &x.min_spawn_count, &y.min_spawn_count);
    lemma_stats_member_same(a, b, "PawnStats"@, &x.pawn_stats, &y.pawn_stats, vocabulary);
    lemma_index_member_same(a, b, "Rarity"@, &x.rarity, &y.rarity);
    lemma_number_member_same(a, b, "Scale"@, &x.scale, &y.scale);
    lemma_index_member_same(a, b, "SpawnAmountModifier"@, &x.spawn_amount_modifier, &y.spawn_amount_modifier);
    lemma_number_member_same(a, b, "SpawnSpread"@, &x.spawn_spread, &y.spawn_spread);
    lemma_number_member_same(a, b, "TimeDilation"@, &x.time_dilation, &y.time_dilation);
}

/// Nodes that are the same to look at report the same as an enemy descriptor.
pub proof fn lemma_descriptor_findings_same(a: &Spanned<Json>, b: &Spanned<Json>, vocabulary: &Vocabulary)
    requires
        same_node(a, b),
    ensures
        descriptor_findings(a, vocabulary) == descriptor_findings(b, vocabulary),
{
    lemma_same_node(a, b);
    match (a.val, b.val) {
        (Json::Object(x), Json::Object(y)) => lemma_descriptor_object_findings_same(x@, y@, vocabulary),
        _ => {},
    }
}

/// Nodes that are the same to look at give the same as an enemy descriptor.
pub proof fn lemma_descriptor_value_same(
    a: &Spanned<Json>,
    b: &Spanned<Json>,
    x: &Spanned<EnemyDescriptor>,
    y: &Spanned<EnemyDescriptor>,
    vocabulary: &Vocabulary,
)
    requires
        same_node(a, b),
        descriptor_value(a, x, vocabulary),
        descriptor_value(b, y, vocabulary),
    ensures
        same_descriptor(x, y),
{
    lemma_same_node(a, b);
    match (a.val, b.val) {
        (Json::Object(s), Json::Object(t)) => lemma_descriptor_object_value_same(s@, t@, &x.val, &y.val, vocabulary),
        _ => {},
    }
}

/// `a` and `b` hold the same descriptors under the same names, each at its place.
pub open spec fn same_descriptors_object(a: &Vec<Named>, b: &Vec<Named>) -> bool {
    a@.len() == b@.len() && forall|k: int|
        0 <= k < a@.len() ==> same_text(&(#[trigger] a@[k]).0, &b@[k].0) && same_descriptor(&a@[k].1, &b@[k].1)
}

/// `a` and `b` hold the same descriptors at the same place.
pub open spec fn same_descriptors(a: &Spanned<Vec<Named>>, b: &Spanned<Vec<Named>>) -> bool {
    a.span == b.span && same_descriptors_object(&a.val, &b.val)
}

proof fn lemma_descriptors_among_same(
    a: Seq<Member>,
    b: Seq<Member>,
    order: Seq<usize>,
    vocabulary: &Vocabulary,
    upto: int,
)
    requires
        same_members(a, b),
        places(order, a.len()),
    ensures
        descriptors_among(a, order, vocabulary, upto) == descriptors_among(b, order, vocabulary, upto),
        descriptors_kept(a, order, upto) == descriptors_kept(b, order, upto),
        places(descriptors_kept(a, order, upto), a.len()),
    decreases upto,
{
    if 0 < upto <= order.len() {
        lemma_descriptors_among_same(a, b, order, vocabulary, upto - 1);
        let k = order[upto - 1] as int;
        assert(a[k].0.span == b[k].0.span && a[k].0.value@ == b[k].0.value@ && same_node(&a[k].1, &b[k].1));
        lemma_same_node(&a[k].1, &b[k].1);
        lemma_descriptor_findings_same(&a[k].1, &b[k].1, vocabulary);
    }
}

/// Members that are the same to look at report the same as descriptors.
pub proof fn lemma_descriptors_object_findings_same(a: Seq<Member>, b: Seq<Member>, vocabulary: &Vocabulary)
    requires
        same_members(a, b),
    ensures
        descriptors_object_findings(a, vocabulary) == descriptors_object_findings(b, vocabulary),
{
    lemma_duplicates_same(a, b, a.len() as int);
    lemma_visited_same(a, b);
    lemma_descriptors_among_same(a, b, visited(a), vocabulary, visited(a).len() as int);
}

/// Members that are the same to look at give the same descriptors.
pub proof fn lemma_descriptors_object_value_same(
    a: Seq<Member>,
    b: Seq<Member>,
    x: &Vec<Named>,
    y: &Vec<Named>,
    vocabulary: &Vocabulary,
)
    requires
        same_members(a, b),
        descriptors_object_value(a, x, vocabulary),
        descriptors_object_value(b, y, vocabulary),
    ensures
        same_descriptors_object(x, y),
{
    lemma_visited_same(a, b);
    lemma_descriptors_among_same(a, b, visited(a), vocabulary, visited(a).len() as int);
    let kept = descriptors_kept(a, visited(a), visited(a).len() as int);
    assert forall|p: int| 0 <= p < x@.len() implies same_text(&(#[trigger] x@[p]).0, &y@[p].0) && same_descriptor(
        &x@[p].1,
        &y@[p].1,
    ) by {
        let k = kept[p] as int;
        assert(descriptor_entry(&a[k], &x@[p], vocabulary));
        assert(descriptor_entry(&b[k], &y@[p], vocabulary));
        assert(a[k].0.span == b[k].0.span && a[k].0.value@ == b[k].0.value@ && same_node(&a[k].1, &b[k].1));
        lemma_descriptor_value_same(&a[k].1, &b[k].1, &x@[p].1, &y@[p].1, vocabulary);
    }
}

/// Nodes that are the same to look at report the same as the enemy descriptors.
pub proof fn lemma_descriptors_findings_same(a: &Spanned<Json>, b: &Spanned<Json>, vocabulary: &Vocabulary)
    requires
        same_node(a, b),
    ensures
        descriptors_findings(a, vocabulary) == descriptors_findings(b, vocabulary),
{
    lemma_same_node(a, b);
    match (a.val, b.val) {
        (Json::Object(x), Json::Object(y)) => lemma_descriptors_object_findings_same(x@, y@, vocabulary),
        _ => {},
    }
}

/// Nodes that are the same to look at give the same as the enemy descriptors.
pub proof fn lemma_descriptors_value_same(
    a: &Spanned<Json>,
    b: &Spanned<Json>,
    x: &Spanned<Vec<Named>>,
    y: &Spanned<Vec<Named>>,
    vocabulary: &Vocabulary,
)
    requires
        same_node(a, b),
        descriptors_value(a, x, vocabulary),
        descriptors_value(b, y, vocabulary),
    ensures
        same_descriptors(x, y),
{
    lemma_same_node(a, b);
    match (a.val, b.val) {
        (Json::Object(s), Json::Object(t)) => lemma_descriptors_object_value_same(s@, t@, &x.val, &y.val, vocabulary),
        _ => {},
    }
}

/// The member `key` reports the same as the enemy descriptors in members that are the
/// same to look at.
pub proof fn lemma_descriptors_field_same(
    a: Seq<Member>,
    b: Seq<Member>,
    key: Seq<char>,
    vocabulary: &Vocabulary,
)
    requires
        same_members(a, b),
    ensures
        descriptors_field_findings(a, key, vocabulary) == descriptors_field_findings(b, key, vocabulary),
{
    reveal(descriptors_field_findings);
    lemma_member_named_same(a, b, key);
    if let Some(k) = member_named(a, key) {
        lemma_descriptors_findings_same(&a[k].1, &b[k].1, vocabulary);
    }
}

/// The member `key` gives the same as the enemy descriptors in members that are the same
/// to look at, where the defaults are the same.
pub proof fn lemma_descriptors_held_same(
    a: Seq<Member>,
    b: Seq<Member>,
    key: Seq<char>,
    x: &Spanned<Vec<Named>>,
    y: &Spanned<Vec<Named>>,
    p: bool,
    q: bool,
    vocabulary: &Vocabulary,
)
    requires
        same_members(a, b),
        descriptors_held(a, key, x, p, vocabulary),
        descriptors_held(b, key, y, q, vocabulary),
        p && q ==> same_descriptors(x, y),
    ensures
        same_descriptors(x, y),
{
    reveal(descriptors_held);
    lemma_member_named_same(a, b, key);
    if let Some(k) = member_named(a, key) {
        lemma_same_node(&a[k].1, &b[k].1);
        if a[k].1.val is Object {
            lemma_descriptors_value_same(&a[k].1, &b[k].1, x, y, vocabulary);
        }
    }
}

/// Two defaults are the same.
pub proof fn lemma_default_descriptors_same(
    x: &Spanned<Vec<(Spanned<String>,
    Spanned<EnemyDescriptor>)>>,
    y: &Spanned<Vec<(Spanned<String>,
    Spanned<EnemyDescriptor>)>>,
)
    ensures
        default_list(*x) && default_list(*y) ==> same_descriptors(x, y),
{
}

/// The member `key` gives the same in members that are the same to look
/// at, where it gives this default in both when it gives no value.
pub proof fn lemma_descriptors_member_same(
    a: Seq<Member>,
    b: Seq<Member>,
    key: Seq<char>,
    x: &Spanned<Vec<(Spanned<String>,
    Spanned<EnemyDescriptor>)>>,
    y: &Spanned<Vec<(Spanned<String>,
    Spanned<EnemyDescriptor>)>>,
    vocabulary: &Vocabulary,
)
    requires
        same_members(a, b),
        descriptors_held(a, key, x, default_list(*x), vocabulary),
        descriptors_held(b, key, y, default_list(*y), vocabulary),
    ensures
        same_descriptors(x, y),
{
    lemma_default_descriptors_same(x, y);
    lemma_descriptors_held_same(a, b, key, x, y, default_list(*x), default_list(*y), vocabulary);
}

/// `a` and `b` are the same to look at as the document: each field of the one
/// is the same as that field of the other.
pub open spec fn same_document(a: &CustomDifficulty, b: &CustomDifficulty) -> bool {
    &&& same_number(&a.attack_cooldown_modifier, &b.attack_cooldown_modifier)
    &&& same_pool(&a.common_enemies, &b.common_enemies)
    &&& same_text(&a.description, &b.description)
    &&& same_pool(&a.disruptive_enemies, &b.disruptive_enemies)
    &&& same_index_range(&a.disruptive_enemy_pool_count, &b.disruptive_enemy_pool_count)
    &&& same_index(&a.elite_cooldown, &b.elite_cooldown)
    &&& same_index_bins(&a.encounter_difficulty, &b.encounter_difficulty)
    &&& same_numbers(&a.enemy_count_modifier, &b.enemy_count_modifier)
    &&& same_numbers(&a.enemy_damage_modifier, &b.enemy_damage_modifier)
    &&& same_numbers(&a.enemy_damage_resistance, &b.enemy_damage_resistance)
    &&& same_descriptors(&a.enemy_descriptors, &b.enemy_descriptors)
    &&& same_index_bins(&a.enemy_diversity, &b.enemy_diversity)
    &&& same_index_bins(&a.enemy_normal_wave_difficulty, &b.enemy_normal_wave_difficulty)
    &&& same_index_bins(&a.enemy_normal_wave_interval, &b.enemy_normal_wave_interval)
    &&& same_pool(&a.enemy_pool, &b.enemy_pool)
    &&& same_index_bins(&a.enemy_wave_interval, &b.enemy_wave_interval)
    &&& same_number(&a.environmental_damage_modifier, &b.environmental_damage_modifier)
    &&& same_mule(&a.escort_mule, &b.escort_mule)
    &&& same_numbers(&a.extra_large_enemy_damage_resistance, &b.extra_large_enemy_damage_resistance)
    &&& same_numbers(&a.extra_large_enemy_damage_resistance_b, &b.extra_large_enemy_damage_resistance_b)
    &&& same_numbers(&a.extra_large_enemy_damage_resistance_c, &b.extra_large_enemy_damage_resistance_c)
    &&& same_numbers(&a.extra_large_enemy_damage_resistance_d, &b.extra_large_enemy_damage_resistance_d)
    &&& same_number(&a.friendly_fire_modifier, &b.friendly_fire_modifier)
    &&& same_number(&a.hazard_bonus, &b.hazard_bonus)
    &&& same_number(&a.health_regeneration_max, &b.health_regeneration_max)
    &&& same_indices(&a.max_active_critters, &b.max_active_critters)
    &&& same_index(&a.max_active_elites, &b.max_active_elites)
    &&& same_indices(&a.max_active_enemies, &b.max_active_enemies)
    &&& same_indices(&a.max_active_swarmers, &b.max_active_swarmers)
    &&& same_index_range(&a.min_pool_size, &b.min_pool_size)
    &&& same_text(&a.name, &b.name)
    &&& same_number(&a.point_extraction_scalar, &b.point_extraction_scalar)
    &&& same_number(&a.projectile_speed_modifier, &b.projectile_speed_modifier)
    &&& same_numbers(&a.resupply_cost, &b.resupply_cost)
    &&& same_number(&a.revive_health_ratio, &b.revive_health_ratio)
    &&& same_texts(&a.seasonal_events, &b.seasonal_events)
    &&& same_numbers(&a.small_enemy_damage_resistance, &b.small_enemy_damage_resistance)
    &&& same_pool(&a.special_enemies, &b.special_enemies)
    &&& same_number(&a.speed_modifier, &b.speed_modifier)
    &&& same_indices(&a.starting_nitra, &b.starting_nitra)
    &&& same_index_bins(&a.stationary_difficulty, &b.stationary_difficulty)
    &&& same_pool(&a.stationary_enemies, &b.stationary_enemies)
    &&& same_index_bins(&a.stationary_enemy_diversity, &b.stationary_enemy_diversity)
    &&& same_number_bins(&a.veteran_large, &b.veteran_large)
    &&& same_number_bins(&a.veteran_normal, &b.veteran_normal)
    &&& same_number(&a.wave_start_delay_scale, &b.wave_start_delay_scale)
}

/// Members that are the same to look at report the same as the document.
#[verifier::rlimit(100)]
#[verifier::spinoff_prover]
pub proof fn lemma_document_object_findings_same(a: Seq<Member>, b: Seq<Member>, vocabulary: &Vocabulary)
    requires
        same_members(a, b),
    ensures
        document_object_findings(a, vocabulary) == document_object_findings(b, vocabulary),
{
    reveal(document_object_findings);
    let known = document_names();
    lemma_duplicates_same(a, b, a.len() as int);
    lemma_unknown_in_gap_same(a, b, known, None, Some("AttackCooldownModifier"@));
    lemma_number_field_same(a, b, "AttackCooldownModifier"@);
    lemma_unknown_in_gap_same(a, b, known, Some("AttackCooldownModifier"@), Some("CommonEnemies"@));
    lemma_pool_field_same(a, b, "CommonEnemies"@);
    lemma_unknown_in_gap_same(a, b, known, Some("CommonEnemies"@), Some("Description"@));
    lemma_text_field_same(a, b, "Description"@);
    lemma_unknown_in_gap_same(a, b, known, Some("Description"@), Some("DisruptiveEnemies"@));
    lemma_pool_field_same(a, b, "DisruptiveEnemies"@);
    lemma_unknown_in_gap_same(a, b, known, Some("DisruptiveEnemies"@), Some("DisruptiveEnemyPoolCount"@));
    lemma_index_range_field_same(a, b, "DisruptiveEnemyPoolCount"@);
    lemma_unknown_in_gap_same(a, b, known, Some("DisruptiveEnemyPoolCount"@), Some("EliteCooldown"@));
    lemma_index_field_same(a, b, "EliteCooldown"@);
    lemma_unknown_in_gap_same(a, b, known, Some("EliteCooldown"@), Some("EncounterDifficulty"@));
    lemma_index_bins_field_same(a, b, "EncounterDifficulty"@);
    lemma_unknown_in_gap_same(a, b, known, Some("EncounterDifficulty"@), Some("EnemyCountModifier"@));
    lemma_numbers_field_same(a, b, "EnemyCountModifier"@);
    lemma_unknown_in_gap_same(a, b, known, Some("EnemyCountModifier"@), Some("EnemyDamageModifier"@));
    lemma_numbers_field_same(a, b, "EnemyDamageModifier"@);
    lemma_unknown_in_gap_same(a, b, known, Some("EnemyDamageModifier"@), Some("EnemyDamageResistance"@));
    lemma_numbers_field_same(a, b, "EnemyDamageResistance"@);
    lemma_unknown_in_gap_same(a, b, known, Some("EnemyDamageResistance"@), Some("EnemyDescriptors"@));
    lemma_descriptors_field_same(a, b, "EnemyDescriptors"@, vocabulary);
    lemma_unknown_in_gap_same(a, b, known, Some("EnemyDescriptors"@), Some("EnemyDiversity"@));
    lemma_index_bins_field_same(a, b, "EnemyDiversity"@);
    lemma_unknown_in_gap_same(a, b, known, Some("EnemyDiversity"@), Some("EnemyNormalWaveDifficulty"@));
    lemma_index_bins_field_same(a, b, "EnemyNormalWaveDifficulty"@);
    lemma_unknown_in_gap_same(
        a,
        b,
        known,
        Some("EnemyNormalWaveDifficulty"@),
        Some("EnemyNormalWaveInterval"@),
    );
    lemma_index_bins_field_same(a, b, "EnemyNormalWaveInterval"@);
    lemma_unknown_in_gap_same(a, b, known, Some("EnemyNormalWaveInterval"@), Some("EnemyPool"@));
    lemma_pool_field_same(a, b, "EnemyPool"@);
    lemma_unknown_in_gap_same(a, b, known, Some("EnemyPool"@), Some("EnemyWaveInterval"@));
    lemma_index_bins_field_same(a, b, "EnemyWaveInterval"@);
    lemma_unknown_in_gap_same(a, b, known, Some("EnemyWaveInterval"@), Some("EnvironmentalDamageModifier"@));
    lemma_number_field_same(a, b, "EnvironmentalDamageModifier"@);
    lemma_unknown_in_gap_same(a, b, known, Some("EnvironmentalDamageModifier"@), Some("EscortMule"@));
    lemma_mule_field_same(a, b, "EscortMule"@);
    lemma_unknown_in_gap_same(a, b, known, Some("EscortMule"@), Some("ExtraLargeEnemyDamageResistance"@));
    lemma_numbers_field_same(a, b, "ExtraLargeEnemyDamageResistance"@);
    lemma_unknown_in_gap_same(
        a,
        b,
        known,
        Some("ExtraLargeEnemyDamageResistance"@),
        Some("ExtraLargeEnemyDamageResistanceB"@),
    );
    lemma_numbers_field_same(a, b, "ExtraLargeEnemyDamageResistanceB"@);
    lemma_unknown_in_gap_same(
        a,
        b,
        known,
        Some("ExtraLargeEnemyDamageResistanceB"@),
        Some("ExtraLargeEnemyDamageResistanceC"@),
    );
    lemma_numbers_field_same(a, b, "ExtraLargeEnemyDamageResistanceC"@);
    lemma_unknown_in_gap_same(
        a,
        b,
        known,
        Some("ExtraLargeEnemyDamageResistanceC"@),
        Some("ExtraLargeEnemyDamageResistanceD"@),
    );
    lemma_numbers_field_same(a, b, "ExtraLargeEnemyDamageResistanceD"@);
    lemma_unknown_in_gap_same(
        a,
        b,
        known,
        Some("ExtraLargeEnemyDamageResistanceD"@),
        Some("FriendlyFireModifier"@),
    );
    lemma_number_field_same(a, b, "FriendlyFireModifier"@);
    lemma_unknown_in_gap_same(a, b, known, Some("FriendlyFireModifier"@), Some("HazardBonus"@));
    lemma_number_field_same(a, b, "HazardBonus"@);
    lemma_unknown_in_gap_same(a, b, known, Some("HazardBonus"@), Some("HealthRegenerationMax"@));
    lemma_number_field_same(a, b, "HealthRegenerationMax"@);
    lemma_unknown_in_gap_same(a, b, known, Some("HealthRegenerationMax"@), Some("MaxActiveCritters"@));
    lemma_indices_field_same(a, b, "MaxActiveCritters"@);
    lemma_unknown_in_gap_same(a, b, known, Some("MaxActiveCritters"@), Some("MaxActiveElites"@));
    lemma_index_field_same(a, b, "MaxActiveElites"@);
    lemma_unknown_in_gap_same(a, b, known, Some("MaxActiveElites"@), Some("MaxActiveEnemies"@));
    lemma_indices_field_same(a, b, "MaxActiveEnemies"@);
    lemma_unknown_in_gap_same(a, b, known, Some("MaxActiveEnemies"@), Some("MaxActiveSwarmers"@));
    lemma_indices_field_same(a, b, "MaxActiveSwarmers"@);
    lemma_unknown_in_gap_same(a, b, known, Some("MaxActiveSwarmers"@), Some("MinPoolSize"@));
    lemma_index_range_field_same(a, b, "MinPoolSize"@);
    lemma_unknown_in_gap_same(a, b, known, Some("MinPoolSize"@), Some("Name"@));
    lemma_text_field_same(a, b, "Name"@);
    lemma_unknown_in_gap_same(a, b, known, Some("Name"@), Some("PointExtractionScalar"@));
    lemma_number_field_same(a, b, "PointExtractionScalar"@);
    lemma_unknown_in_gap_same(a, b, known, Some("PointExtractionScalar"@), Some("ProjectileSpeedModifier"@));
    lemma_number_field_same(a, b, "ProjectileSpeedModifier"@);
    lemma_unknown_in_gap_same(a, b, known, Some("ProjectileSpeedModifier"@), Some("ResupplyCost"@));
    lemma_numbers_field_same(a, b, "ResupplyCost"@);
    lemma_unknown_in_gap_same(a, b, known, Some("ResupplyCost"@), Some("ReviveHealthRatio"@));
    lemma_number_field_same(a, b, "ReviveHealthRatio"@);
    lemma_unknown_in_gap_same(a, b, known, Some("ReviveHealthRatio"@), Some("SeasonalEvents"@));
    lemma_texts_field_same(a, b, "SeasonalEvents"@);
    lemma_unknown_in_gap_same(a, b, known, Some("SeasonalEvents"@), Some("SmallEnemyDamageResistance"@));
    lemma_numbers_field_same(a, b, "SmallEnemyDamageResistance"@);
    lemma_unknown_in_gap_same(a, b, known, Some("SmallEnemyDamageResistance"@), Some("SpecialEnemies"@));
    lemma_pool_field_same(a, b, "SpecialEnemies"@);
    lemma_unknown_in_gap_same(a, b, known, Some("SpecialEnemies"@), Some("SpeedModifier"@));
    lemma_number_field_same(a, b, "SpeedModifier"@);
    lemma_unknown_in_gap_same(a, b, known, Some("SpeedModifier"@), Some("StartingNitra"@));
    lemma_indices_field_same(a, b, "StartingNitra"@);
    lemma_unknown_in_gap_same(a, b, known, Some("StartingNitra"@), Some("StationaryDifficulty"@));
    lemma_index_bins_field_same(a, b, "StationaryDifficulty"@);
    lemma_unknown_in_gap_same(a, b, known, Some("StationaryDifficulty"@), Some("StationaryEnemies"@));
    lemma_pool_field_same(a, b, "StationaryEnemies"@);
    lemma_unknown_in_gap_same(a, b, known, Some("StationaryEnemies"@), Some("StationaryEnemyDiversity"@));
    lemma_index_bins_field_same(a, b, "StationaryEnemyDiversity"@);
    lemma_unknown_in_gap_same(a, b, known, Some("StationaryEnemyDiversity"@), Some("VeteranLarge"@));
    lemma_number_bins_field_same(a, b, "VeteranLarge"@);
    lemma_unknown_in_gap_same(a, b, known, Some("VeteranLarge"@), Some("VeteranNormal"@));
    lemma_number_bins_field_same(a, b, "VeteranNormal"@);
    lemma_unknown_in_gap_same(a, b, known, Some("VeteranNormal"@), Some("WaveStartDelayScale"@));
    lemma_number_field_same(a, b, "WaveStartDelayScale"@);
    lemma_unknown_in_gap_same(a, b, known, Some("WaveStartDelayScale"@), None);
}

/// Members that are the same to look at give the same as the document.
#[verifier::rlimit(100)]
#[verifier::spinoff_prover]
pub proof fn lemma_document_object_value_same(
    a: Seq<Member>,
    b: Seq<Member>,
    x: &CustomDifficulty,
    y: &CustomDifficulty,
    vocabulary: &Vocabulary,
)
    requires
        same_members(a, b),
        document_object_value(a, x, vocabulary),
        document_object_value(b, y, vocabulary),
    ensures
        same_document(x, y),
{
    reveal(document_object_value);
    lemma_number_member_same(
        a,
        b,
        "AttackCooldownModifier"@,
        &x.attack_cooldown_modifier,
        &y.attack_cooldown_modifier,
    );
    lemma_pool_member_same(a, b, "CommonEnemies"@, &x.common_enemies, &y.common_enemies);
    lemma_text_member_same(a, b, "Description"@, &x.description, &y.description);
    lemma_pool_member_same(a, b, "DisruptiveEnemies"@, &x.disruptive_enemies, &y.disruptive_enemies);
    lemma_index_range_member_same(
        a,
        b,
        "DisruptiveEnemyPoolCount"@,
        &x.disruptive_enemy_pool_count,
        &y.disruptive_enemy_pool_count,
    );
    lemma_index_member_same(a, b, "EliteCooldown"@, &x.elite_cooldown, &y.elite_cooldown);
    lemma_index_bins_member_same(
        a,
        b,
        "EncounterDifficulty"@,
        &x.encounter_difficulty,
        &y.encounter_difficulty,
    );
    lemma_numbers_member_same(a, b, "EnemyCountModifier"@, &x.enemy_count_modifier, &y.enemy_count_modifier);
    lemma_numbers_member_same(
        a,
        b,
        "EnemyDamageModifier"@,
        &x.enemy_damage_modifier,
        &y.enemy_damage_modifier,
    );
    lemma_numbers_member_same(
        a,
        b,
        "EnemyDamageResistance"@,
        &x.enemy_damage_resistance,
        &y.enemy_damage_resistance,
    );
    lemma_descriptors_member_same(
        a,
        b,
        "EnemyDescriptors"@,
        &x.enemy_descriptors,
        &y.enemy_descriptors,
        vocabulary,
    );
    lemma_index_bins_member_same(a, b, "EnemyDiversity"@, &x.enemy_diversity, &y.enemy_diversity);
    lemma_index_bins_member_same(
        a,
        b,
        "EnemyNormalWaveDifficulty"@,
        &x.enemy_normal_wave_difficulty,
        &y.enemy_normal_wave_difficulty,
    );
    lemma_index_bins_member_same(
        a,
        b,
        "EnemyNormalWaveInterval"@,
        &x.enemy_normal_wave_interval,
        &y.enemy_normal_wave_interval,
    );
    lemma_pool_member_same(a, b, "EnemyPool"@, &x.enemy_pool, &y.enemy_pool);
    lemma_index_bins_member_same(a, b, "EnemyWaveInterval"@, &x.enemy_wave_interval, &y.enemy_wave_interval);
    lemma_number_member_same(
        a,
        b,
        "EnvironmentalDamageModifier"@,
        &x.environmental_damage_modifier,
        &y.environmental_damage_modifier,
    );
    lemma_mule_member_same(a, b, "EscortMule"@, &x.escort_mule, &y.escort_mule);
    lemma_numbers_member_same(
        a,
        b,
        "ExtraLargeEnemyDamageResistance"@,
        &x.extra_large_enemy_damage_resistance,
        &y.extra_large_enemy_damage_resistance,
    );
    lemma_numbers_member_same(
        a,
        b,
        "ExtraLargeEnemyDamageResistanceB"@,
        &x.extra_large_enemy_damage_resistance_b,
        &y.extra_large_enemy_damage_resistance_b,
    );
    lemma_numbers_member_same(
        a,
        b,
        "ExtraLargeEnemyDamageResistanceC"@,
        &x.extra_large_enemy_damage_resistance_c,
        &y.extra_large_enemy_damage_resistance_c,
    );
    lemma_numbers_member_same(
        a,
        b,
        "ExtraLargeEnemyDamageResistanceD"@,
        &x.extra_large_enemy_damage_resistance_d,
        &y.extra_large_enemy_damage_resistance_d,
    );
    lemma_number_member_same(
        a,
        b,
        "FriendlyFireModifier"@,
        &x.friendly_fire_modifier,
        &y.friendly_fire_modifier,
    );
    lemma_number_member_same(a, b, "HazardBonus"@, &x.hazard_bonus, &y.hazard_bonus);
    lemma_number_member_same(
        a,
        b,
        "HealthRegenerationMax"@,
        &x.health_regeneration_max,
        &y.health_regeneration_max,
    );
    lemma_indices_member_same(a, b, "MaxActiveCritters"@, &x.max_active_critters, &y.max_active_critters);
    lemma_index_member_same(a, b, "MaxActiveElites"@, &x.max_active_elites, &y.max_active_elites);
    lemma_indices_member_same(a, b, "MaxActiveEnemies"@, &x.max_active_enemies, &y.max_active_enemies);
    lemma_indices_member_same(a, b, "MaxActiveSwarmers"@, &x.max_active_swarmers, &y.max_active_swarmers);
    lemma_index_range_member_same(a, b, "MinPoolSize"@, &x.min_pool_size, &y.min_pool_size);
    lemma_text_member_same(a, b, "Name"@, &x.name, &y.name);
    lemma_number_member_same(
        a,
        b,
        "PointExtractionScalar"@,
        &x.point_extraction_scalar,
        &y.point_extraction_scalar,
    );
    lemma_number_member_same(
        a,
        b,
        "ProjectileSpeedModifier"@,
        &x.projectile_speed_modifier,
        &y.projectile_speed_modifier,
    );
    lemma_numbers_member_same(a, b, "ResupplyCost"@, &x.resupply_cost, &y.resupply_cost);
    lemma_number_member_same(a, b, "ReviveHealthRatio"@, &x.revive_health_ratio, &y.revive_health_ratio);
    lemma_texts_member_same(a, b, "SeasonalEvents"@, &x.seasonal_events, &y.seasonal_events);
    lemma_numbers_member_same(
        a,
        b,
        "SmallEnemyDamageResistance"@,
        &x.small_enemy_damage_resistance,
        &y.small_enemy_damage_resistance,
    );
    lemma_pool_member_same(a, b, "SpecialEnemies"@, &x.special_enemies, &y.special_enemies);
    lemma_number_member_same(a, b, "SpeedModifier"@, &x.speed_modifier, &y.speed_modifier);
    lemma_indices_member_same(a, b, "StartingNitra"@, &x.starting_nitra, &y.starting_nitra);
    lemma_index_bins_member_same(
        a,
        b,
        "StationaryDifficulty"@,
        &x.stationary_difficulty,
        &y.stationary_difficulty,
    );
    lemma_pool_member_same(a, b, "StationaryEnemies"@, &x.stationary_enemies, &y.stationary_enemies);
    lemma_index_bins_member_same(
        a,
        b,
        "StationaryEnemyDiversity"@,
        &x.stationary_enemy_diversity,
        &y.stationary_enemy_diversity,
    );
    lemma_number_bins_member_same(a, b, "VeteranLarge"@, &x.veteran_large, &y.veteran_large);
    lemma_number_bins_member_same(a, b, "VeteranNormal"@, &x.veteran_normal, &y.veteran_normal);
    lemma_number_member_same(
        a,
        b,
        "WaveStartDelayScale"@,
        &x.wave_start_delay_scale,
        &y.wave_start_delay_scale,
    );
}

/// Trees that are the same to look at report the same when they are decoded.
pub proof fn lemma_decode_findings_same(a: &Spanned<Json>, b: &Spanned<Json>, vocabulary: &Vocabulary)
    requires
        same_node(a, b),
    ensures
        decode_findings(a, vocabulary) == decode_findings(b, vocabulary),
{
    lemma_same_node(a, b);
    match (a.val, b.val) {
        (Json::Object(x), Json::Object(y)) => lemma_document_object_findings_same(x@, y@, vocabulary),
        _ => {},
    }
}

} // verus!
