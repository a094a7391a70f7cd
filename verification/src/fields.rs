//! The members of an object by their kinds: what a member of a kind
//! reports, and what it leaves in the decoded value.

use crate::custom_difficulty::ArrayOrSingleItem;
use crate::diagnostic::{Diagnostic, DiagnosticView, views};
use crate::members::{find_member, Member, member_named};
use crate::number::Number;
use crate::span::Spanned;
use crate::validate::{
    decode_indices, decode_numbers, decode_texts, flag_findings, flag_value, index_findings, index_value,
    indices_findings, indices_value, number_findings, number_value, numbers_findings, numbers_value, settle,
    text_findings, text_value, texts_findings, texts_value, validate_flag, validate_index, validate_number,
    validate_text,
};
use vstd::prelude::*;

verus! {

/// What the member `key` of `members` reports as a string: nothing where
/// there is no such member.
#[verifier::opaque]
pub open spec fn text_field_findings(members: Seq<Member>, key: Seq<char>) -> Seq<DiagnosticView> {
    match member_named(members, key) {
        Some(k) => text_findings(&members[k].1),
        None => Seq::empty(),
    }
}

/// `out` is what the member `key` of `members` gives as a string: its value
/// where it is accepted, and `fallback` where it is not, or where there is
/// no such member.
#[verifier::opaque]
pub open spec fn text_field(
    members: Seq<Member>,
    key: Seq<char>,
    out: &Spanned<String>,
    fallback: &Spanned<String>,
) -> bool {
    match member_named(members, key) {
        Some(k) => if text_findings(&members[k].1).len() == 0 {
            text_value(&members[k].1, out)
        } else {
            out == fallback
        },
        None => out == fallback,
    }
}

/// Decodes the member `key` of `members` as a string.
pub fn decode_text_field(
    members: &Vec<Member>,
    key: &str,
    fallback: Spanned<String>,
    diag: &mut Vec<Diagnostic>,
) -> (out: Spanned<String>)
    ensures
        views(final(diag)@) == views(old(diag)@) + text_field_findings(members@, key@),
        text_field(members@, key@, &out, &fallback),
{
    reveal(text_field);
    reveal(text_field_findings);
    match find_member(members, key) {
        Some(k) => {
            match settle(validate_text(&members[k].1), diag) {
                Some(value) => value,
                None => fallback,
            }
        },
        None => {
            assert(views(diag@) =~= views(old(diag)@) + text_field_findings(members@, key@));
            fallback
        },
    }
}

/// `out` is what the member `key` of `members` gives as a string: its value
/// where it is accepted; where it is not, or where there is no such
/// member, `is_default` holds.
#[verifier::opaque]
pub open spec fn text_held(
    members: Seq<Member>,
    key: Seq<char>,
    out: &Spanned<String>,
    is_default: bool,
) -> bool {
    match member_named(members, key) {
        Some(k) => if text_findings(&members[k].1).len() == 0 {
            text_value(&members[k].1, out)
        } else {
            is_default
        },
        None => is_default,
    }
}

/// What a field is given holds of it, where the default holds of the fallback.
pub proof fn lemma_text_held(
    members: Seq<Member>,
    key: Seq<char>,
    out: &Spanned<String>,
    fallback: &Spanned<String>,
    is_default: bool,
)
    requires
        text_field(members, key, out, fallback),
        out == fallback ==> is_default,
    ensures
        text_held(members, key, out, is_default),
{
    reveal(text_field);
    reveal(text_held);
}

/// What the member `key` of `members` reports as a truth value: nothing where
/// there is no such member.
#[verifier::opaque]
pub open spec fn flag_field_findings(members: Seq<Member>, key: Seq<char>) -> Seq<DiagnosticView> {
    match member_named(members, key) {
        Some(k) => flag_findings(&members[k].1),
        None => Seq::empty(),
    }
}

/// `out` is what the member `key` of `members` gives as a truth value: its value
/// where it is accepted, and `fallback` where it is not, or where there is
/// no such member.
#[verifier::opaque]
pub open spec fn flag_field(
    members: Seq<Member>,
    key: Seq<char>,
    out: &Spanned<bool>,
    fallback: &Spanned<bool>,
) -> bool {
    match member_named(members, key) {
        Some(k) => if flag_findings(&members[k].1).len() == 0 {
            flag_value(&members[k].1, out)
        } else {
            out == fallback
        },
        None => out == fallback,
    }
}

/// Decodes the member `key` of `members` as a truth value.
pub fn decode_flag_field(
    members: &Vec<Member>,
    key: &str,
    fallback: Spanned<bool>,
    diag: &mut Vec<Diagnostic>,
) -> (out: Spanned<bool>)
    ensures
        views(final(diag)@) == views(old(diag)@) + flag_field_findings(members@, key@),
        flag_field(members@, key@, &out, &fallback),
{
    reveal(flag_field);
    reveal(flag_field_findings);
    match find_member(members, key) {
        Some(k) => {
            match settle(validate_flag(&members[k].1), diag) {
                Some(value) => value,
                None => fallback,
            }
        },
        None => {
            assert(views(diag@) =~= views(old(diag)@) + flag_field_findings(members@, key@));
            fallback
        },
    }
}

/// `out` is what the member `key` of `members` gives as a truth value: its value
/// where it is accepted; where it is not, or where there is no such
/// member, `is_default` holds.
#[verifier::opaque]
pub open spec fn flag_held(
    members: Seq<Member>,
    key: Seq<char>,
    out: &Spanned<bool>,
    is_default: bool,
) -> bool {
    match member_named(members, key) {
        Some(k) => if flag_findings(&members[k].1).len() == 0 {
            flag_value(&members[k].1, out)
        } else {
            is_default
        },
        None => is_default,
    }
}

/// What a field is given holds of it, where the default holds of the fallback.
pub proof fn lemma_flag_held(
    members: Seq<Member>,
    key: Seq<char>,
    out: &Spanned<bool>,
    fallback: &Spanned<bool>,
    is_default: bool,
)
    requires
        flag_field(members, key, out, fallback),
        out == fallback ==> is_default,
    ensures
        flag_held(members, key, out, is_default),
{
    reveal(flag_field);
    reveal(flag_held);
}

/// What the member `key` of `members` reports as a number: nothing where
/// there is no such member.
#[verifier::opaque]
pub open spec fn number_field_findings(members: Seq<Member>, key: Seq<char>) -> Seq<DiagnosticView> {
    match member_named(members, key) {
        Some(k) => number_findings(&members[k].1),
        None => Seq::empty(),
    }
}

/// `out` is what the member `key` of `members` gives as a number: its value
/// where it is accepted, and `fallback` where it is not, or where there is
/// no such member.
#[verifier::opaque]
pub open spec fn number_field(
    members: Seq<Member>,
    key: Seq<char>,
    out: &Spanned<Number>,
    fallback: &Spanned<Number>,
) -> bool {
    match member_named(members, key) {
        Some(k) => if number_findings(&members[k].1).len() == 0 {
            number_value(&members[k].1, out)
        } else {
            out == fallback
        },
        None => out == fallback,
    }
}

/// Decodes the member `key` of `members` as a number.
pub fn decode_number_field(
    members: &Vec<Member>,
    key: &str,
    fallback: Spanned<Number>,
    diag: &mut Vec<Diagnostic>,
) -> (out: Spanned<Number>)
    ensures
        views(final(diag)@) == views(old(diag)@) + number_field_findings(members@, key@),
        number_field(members@, key@, &out, &fallback),
{
    reveal(number_field);
    reveal(number_field_findings);
    match find_member(members, key) {
        Some(k) => {
            match settle(validate_number(&members[k].1), diag) {
                Some(value) => value,
                None => fallback,
            }
        },
        None => {
            assert(views(diag@) =~= views(old(diag)@) + number_field_findings(members@, key@));
            fallback
        },
    }
}

/// `out` is what the member `key` of `members` gives as a number: its value
/// where it is accepted; where it is not, or where there is no such
/// member, `is_default` holds.
#[verifier::opaque]
pub open spec fn number_held(
    members: Seq<Member>,
    key: Seq<char>,
    out: &Spanned<Number>,
    is_default: bool,
) -> bool {
    match member_named(members, key) {
        Some(k) => if number_findings(&members[k].1).len() == 0 {
            number_value(&members[k].1, out)
        } else {
            is_default
        },
        None => is_default,
    }
}

/// What a field is given holds of it, where the default holds of the fallback.
pub proof fn lemma_number_held(
    members: Seq<Member>,
    key: Seq<char>,
    out: &Spanned<Number>,
    fallback: &Spanned<Number>,
    is_default: bool,
)
    requires
        number_field(members, key, out, fallback),
        out == fallback ==> is_default,
    ensures
        number_held(members, key, out, is_default),
{
    reveal(number_field);
    reveal(number_held);
}

/// What the member `key` of `members` reports as a count: nothing where
/// there is no such member.
#[verifier::opaque]
pub open spec fn index_field_findings(members: Seq<Member>, key: Seq<char>) -> Seq<DiagnosticView> {
    match member_named(members, key) {
        Some(k) => index_findings(&members[k].1),
        None => Seq::empty(),
    }
}

/// `out` is what the member `key` of `members` gives as a count: its value
/// where it is accepted, and `fallback` where it is not, or where there is
/// no such member.
#[verifier::opaque]
pub open spec fn index_field(
    members: Seq<Member>,
    key: Seq<char>,
    out: &Spanned<usize>,
    fallback: &Spanned<usize>,
) -> bool {
    match member_named(members, key) {
        Some(k) => if index_findings(&members[k].1).len() == 0 {
            index_value(&members[k].1, out)
        } else {
            out == fallback
        },
        None => out == fallback,
    }
}

/// Decodes the member `key` of `members` as a count.
pub fn decode_index_field(
    members: &Vec<Member>,
    key: &str,
    fallback: Spanned<usize>,
    diag: &mut Vec<Diagnostic>,
) -> (out: Spanned<usize>)
    ensures
        views(final(diag)@) == views(old(diag)@) + index_field_findings(members@, key@),
        index_field(members@, key@, &out, &fallback),
{
    reveal(index_field);
    reveal(index_field_findings);
    match find_member(members, key) {
        Some(k) => {
            match settle(validate_index(&members[k].1), diag) {
                Some(value) => value,
                None => fallback,
            }
        },
        None => {
            assert(views(diag@) =~= views(old(diag)@) + index_field_findings(members@, key@));
            fallback
        },
    }
}

/// `out` is what the member `key` of `members` gives as a count: its value
/// where it is accepted; where it is not, or where there is no such
/// member, `is_default` holds.
#[verifier::opaque]
pub open spec fn index_held(
    members: Seq<Member>,
    key: Seq<char>,
    out: &Spanned<usize>,
    is_default: bool,
) -> bool {
    match member_named(members, key) {
        Some(k) => if index_findings(&members[k].1).len() == 0 {
            index_value(&members[k].1, out)
        } else {
            is_default
        },
        None => is_default,
    }
}

/// What a field is given holds of it, where the default holds of the fallback.
pub proof fn lemma_index_held(
    members: Seq<Member>,
    key: Seq<char>,
    out: &Spanned<usize>,
    fallback: &Spanned<usize>,
    is_default: bool,
)
    requires
        index_field(members, key, out, fallback),
        out == fallback ==> is_default,
    ensures
        index_held(members, key, out, is_default),
{
    reveal(index_field);
    reveal(index_held);
}

/// What the member `key` of `members` reports as a number or numbers: nothing where
/// there is no such member.
#[verifier::opaque]
pub open spec fn numbers_field_findings(members: Seq<Member>, key: Seq<char>) -> Seq<DiagnosticView> {
    match member_named(members, key) {
        Some(k) => numbers_findings(&members[k].1),
        None => Seq::empty(),
    }
}

/// `out` is what the member `key` of `members` gives as a number or numbers: its value
/// where it is accepted, and `fallback` where it is not, or where there is
/// no such member.
#[verifier::opaque]
pub open spec fn numbers_field(
    members: Seq<Member>,
    key: Seq<char>,
    out: &Spanned<ArrayOrSingleItem<Number>>,
    fallback: &Spanned<ArrayOrSingleItem<Number>>,
) -> bool {
    match member_named(members, key) {
        Some(k) => if numbers_findings(&members[k].1).len() == 0 {
            numbers_value(&members[k].1, out)
        } else {
            out == fallback
        },
        None => out == fallback,
    }
}

/// Decodes the member `key` of `members` as a number or numbers.
pub fn decode_numbers_field(
    members: &Vec<Member>,
    key: &str,
    fallback: Spanned<ArrayOrSingleItem<Number>>,
    diag: &mut Vec<Diagnostic>,
) -> (out: Spanned<ArrayOrSingleItem<Number>>)
    ensures
        views(final(diag)@) == views(old(diag)@) + numbers_field_findings(members@, key@),
        numbers_field(members@, key@, &out, &fallback),
{
    reveal(numbers_field);
    reveal(numbers_field_findings);
    match find_member(members, key) {
        Some(k) => {
            match decode_numbers(&members[k].1, diag) {
                Some(value) => value,
                None => fallback,
            }
        },
        None => {
            assert(views(diag@) =~= views(old(diag)@) + numbers_field_findings(members@, key@));
            fallback
        },
    }
}

/// `out` is what the member `key` of `members` gives as a number or numbers: its value
/// where it is accepted; where it is not, or where there is no such
/// member, `is_default` holds.
#[verifier::opaque]
pub open spec fn numbers_held(
    members: Seq<Member>,
    key: Seq<char>,
    out: &Spanned<ArrayOrSingleItem<Number>>,
    is_default: bool,
) -> bool {
    match member_named(members, key) {
        Some(k) => if numbers_findings(&members[k].1).len() == 0 {
            numbers_value(&members[k].1, out)
        } else {
            is_default
        },
        None => is_default,
    }
}

/// What a field is given holds of it, where the default holds of the fallback.
pub proof fn lemma_numbers_held(
    members: Seq<Member>,
    key: Seq<char>,
    out: &Spanned<ArrayOrSingleItem<Number>>,
    fallback: &Spanned<ArrayOrSingleItem<Number>>,
    is_default: bool,
)
    requires
        numbers_field(members, key, out, fallback),
        out == fallback ==> is_default,
    ensures
        numbers_held(members, key, out, is_default),
{
    reveal(numbers_field);
    reveal(numbers_held);
}

/// What the member `key` of `members` reports as a count or counts: nothing where
/// there is no such member.
#[verifier::opaque]
pub open spec fn indices_field_findings(members: Seq<Member>, key: Seq<char>) -> Seq<DiagnosticView> {
    match member_named(members, key) {
        Some(k) => indices_findings(&members[k].1),
        None => Seq::empty(),
    }
}

/// `out` is what the member `key` of `members` gives as a count or counts: its value
/// where it is accepted, and `fallback` where it is not, or where there is
/// no such member.
#[verifier::opaque]
pub open spec fn indices_field(
    members: Seq<Member>,
    key: Seq<char>,
    out: &Spanned<ArrayOrSingleItem<usize>>,
    fallback: &Spanned<ArrayOrSingleItem<usize>>,
) -> bool {
    match member_named(members, key) {
        Some(k) => if indices_findings(&members[k].1).len() == 0 {
            indices_value(&members[k].1, out)
        } else {
            out == fallback
        },
        None => out == fallback,
    }
}

/// Decodes the member `key` of `members` as a count or counts.
pub fn decode_indices_field(
    members: &Vec<Member>,
    key: &str,
    fallback: Spanned<ArrayOrSingleItem<usize>>,
    diag: &mut Vec<Diagnostic>,
) -> (out: Spanned<ArrayOrSingleItem<usize>>)
    ensures
        views(final(diag)@) == views(old(diag)@) + indices_field_findings(members@, key@),
        indices_field(members@, key@, &out, &fallback),
{
    reveal(indices_field);
    reveal(indices_field_findings);
    match find_member(members, key) {
        Some(k) => {
            match decode_indices(&members[k].1, diag) {
                Some(value) => value,
                None => fallback,
            }
        },
        None => {
            assert(views(diag@) =~= views(old(diag)@) + indices_field_findings(members@, key@));
            fallback
        },
    }
}

/// `out` is what the member `key` of `members` gives as a count or counts: its value
/// where it is accepted; where it is not, or where there is no such
/// member, `is_default` holds.
#[verifier::opaque]
pub open spec fn indices_held(
    members: Seq<Member>,
    key: Seq<char>,
    out: &Spanned<ArrayOrSingleItem<usize>>,
    is_default: bool,
) -> bool {
    match member_named(members, key) {
        Some(k) => if indices_findings(&members[k].1).len() == 0 {
            indices_value(&members[k].1, out)
        } else {
            is_default
        },
        None => is_default,
    }
}

/// What a field is given holds of it, where the default holds of the fallback.
pub proof fn lemma_indices_held(
    members: Seq<Member>,
    key: Seq<char>,
    out: &Spanned<ArrayOrSingleItem<usize>>,
    fallback: &Spanned<ArrayOrSingleItem<usize>>,
    is_default: bool,
)
    requires
        indices_field(members, key, out, fallback),
        out == fallback ==> is_default,
    ensures
        indices_held(members, key, out, is_default),
{
    reveal(indices_field);
    reveal(indices_held);
}

/// What the member `key` of `members` reports as an array of strings: nothing where
/// there is no such member.
#[verifier::opaque]
pub open spec fn texts_field_findings(members: Seq<Member>, key: Seq<char>) -> Seq<DiagnosticView> {
    match member_named(members, key) {
        Some(k) => texts_findings(&members[k].1),
        None => Seq::empty(),
    }
}

/// `out` is what the member `key` of `members` gives as an array of strings: its value
/// where it is accepted, and `fallback` where it is not, or where there is
/// no such member.
#[verifier::opaque]
pub open spec fn texts_field(
    members: Seq<Member>,
    key: Seq<char>,
    out: &Spanned<Vec<Spanned<String>>>,
    fallback: &Spanned<Vec<Spanned<String>>>,
) -> bool {
    match member_named(members, key) {
        Some(k) => if texts_findings(&members[k].1).len() == 0 {
            texts_value(&members[k].1, out)
        } else {
            out == fallback
        },
        None => out == fallback,
    }
}

/// Decodes the member `key` of `members` as an array of strings.
pub fn decode_texts_field(
    members: &Vec<Member>,
    key: &str,
    fallback: Spanned<Vec<Spanned<String>>>,
    diag: &mut Vec<Diagnostic>,
) -> (out: Spanned<Vec<Spanned<String>>>)
    ensures
        views(final(diag)@) == views(old(diag)@) + texts_field_findings(members@, key@),
        texts_field(members@, key@, &out, &fallback),
{
    reveal(texts_field);
    reveal(texts_field_findings);
    match find_member(members, key) {
        Some(k) => {
            match decode_texts(&members[k].1, diag) {
                Some(value) => value,
                None => fallback,
            }
        },
        None => {
            assert(views(diag@) =~= views(old(diag)@) + texts_field_findings(members@, key@));
            fallback
        },
    }
}

/// `out` is what the member `key` of `members` gives as an array of strings: its value
/// where it is accepted; where it is not, or where there is no such
/// member, `is_default` holds.
#[verifier::opaque]
pub open spec fn texts_held(
    members: Seq<Member>,
    key: Seq<char>,
    out: &Spanned<Vec<Spanned<String>>>,
    is_default: bool,
) -> bool {
    match member_named(members, key) {
        Some(k) => if texts_findings(&members[k].1).len() == 0 {
            texts_value(&members[k].1, out)
        } else {
            is_default
        },
        None => is_default,
    }
}

/// What a field is given holds of it, where the default holds of the fallback.
pub proof fn lemma_texts_held(
    members: Seq<Member>,
    key: Seq<char>,
    out: &Spanned<Vec<Spanned<String>>>,
    fallback: &Spanned<Vec<Spanned<String>>>,
    is_default: bool,
)
    requires
        texts_field(members, key, out, fallback),
        out == fallback ==> is_default,
    ensures
        texts_held(members, key, out, is_default),
{
    reveal(texts_field);
    reveal(texts_held);
}

} // verus!
