//! The stats of a pawn: an object whose keys are the keys of stats and
//! whose values are numbers.

use crate::config::{contains_name, names_view, Vocabulary};
use crate::custom_difficulty::PawnStats;
use crate::diagnostic::{Diagnostic, DiagnosticView, report, views};
use crate::json::Json;
use crate::members::{
    duplicate_findings, find_member, Member, member_named, places_within, report_duplicates, sorted_members,
    unknown_error, unknown_member, visited,
};
use crate::number::Number;
use crate::span::Spanned;
use crate::validate::{expectation, mismatch, number_findings, number_value, settle, validate_number};
use vstd::prelude::*;

verus! {

/// `key` is the key of a stat.
pub open spec fn stat_known(vocabulary: &Vocabulary, key: Seq<char>) -> bool {
    names_view(vocabulary.pawn_stats@).contains(key)
}

/// What the members at the first `upto` places of `order` report as
/// stats: a member whose key is the key of a stat reports what is wrong
/// with its value as a number, and any other member that its key is not known.
pub open spec fn stats_among(members: Seq<Member>, order: Seq<usize>, vocabulary: &Vocabulary, upto: int) -> Seq<
    DiagnosticView,
>
    decreases upto,
{
    if upto <= 0 || upto > order.len() {
        Seq::empty()
    } else {
        let before = stats_among(members, order, vocabulary, upto - 1);
        let member = members[order[upto - 1] as int];
        if stat_known(vocabulary, member.0.value@) {
            before + number_findings(&member.1)
        } else {
            before.push(unknown_error(&member.0, names_view(vocabulary.pawn_stats@)))
        }
    }
}

/// The member is a stat: its key is the key of a stat, and its value a
/// number that is finite and not negative.
pub open spec fn stat_kept(member: &Member, vocabulary: &Vocabulary) -> bool {
    stat_known(vocabulary, member.0.value@) && number_findings(&member.1).len() == 0
}

/// The places of the members that are stats, among those at the first
/// `upto` places of `order`.
pub open spec fn stats_kept(members: Seq<Member>, order: Seq<usize>, vocabulary: &Vocabulary, upto: int) -> Seq<
    usize,
>
    decreases upto,
{
    if upto <= 0 || upto > order.len() {
        Seq::empty()
    } else {
        let before = stats_kept(members, order, vocabulary, upto - 1);
        if stat_kept(&members[order[upto - 1] as int], vocabulary) {
            before.push(order[upto - 1])
        } else {
            before
        }
    }
}

/// `entry` is the stat that `member` gives: its key with the span of the
/// key, and its number with the span of the number.
pub open spec fn stat_entry(member: &Member, entry: &(Spanned<String>, Spanned<Number>)) -> bool {
    entry.0.span == member.0.span && entry.0.val@ == member.0.value@ && number_value(&member.1, &entry.1)
}

/// What the members of the stats of a pawn report: the members that repeat
/// a key, in the order of the input, then what the members report in the
/// order of their keys.
pub open spec fn stats_object_findings(members: Seq<Member>, vocabulary: &Vocabulary) -> Seq<DiagnosticView> {
    duplicate_findings(members, members.len() as int) + stats_among(
        members,
        visited(members),
        vocabulary,
        visited(members).len() as int,
    )
}

/// `out` holds the stats that the members give, in the order of their keys.
pub open spec fn stats_object_value(members: Seq<Member>, out: &PawnStats, vocabulary: &Vocabulary) -> bool {
    let kept = stats_kept(members, visited(members), vocabulary, visited(members).len() as int);
    out.0@.len() == kept.len() && forall|p: int|
        0 <= p < kept.len() ==> stat_entry(&members[kept[p] as int], &#[trigger] out.0@[p])
}

/// Decodes the members of the stats of a pawn.
pub fn decode_stats_object(members: &Vec<Member>, vocabulary: &Vocabulary, diag: &mut Vec<Diagnostic>) -> (out: PawnStats)
    ensures
        views(final(diag)@) == views(old(diag)@) + stats_object_findings(members@, vocabulary),
        stats_object_value(members@, &out, vocabulary),
{
    let ghost start = views(diag@);
    report_duplicates(members, diag);
    let ghost repeated = duplicate_findings(members@, members@.len() as int);
    let order = sorted_members(members);
    let mut entries: Vec<(Spanned<String>, Spanned<Number>)> = Vec::new();
    let mut p: usize = 0;
    assert(views(diag@) =~= start + (repeated + stats_among(members@, order@, vocabulary, 0)));
    while p < order.len()
        invariant
            p <= order@.len(),
            places_within(order@, members@.len()),
            views(diag@) == start + (repeated + stats_among(members@, order@, vocabulary, p as int)),
            entries@.len() == stats_kept(members@, order@, vocabulary, p as int).len(),
            forall|q: int|
                0 <= q < entries@.len() ==> stat_entry(
                    &members@[stats_kept(members@, order@, vocabulary, p as int)[q] as int],
                    &#[trigger] entries@[q],
                ),
        decreases order@.len() - p,
    {
        let member = &members[order[p]];
        let ghost before = entries@;
        let ghost kept = stats_kept(members@, order@, vocabulary, p as int);
        let ghost seen = views(diag@);
        if contains_name(&vocabulary.pawn_stats, member.0.value.as_str()) {
            match settle(validate_number(&member.1), diag) {
                Some(number) => {
                    entries.push((Spanned::new(member.0.span, member.0.value.clone()), number));
                    proof {
                        let now = stats_kept(members@, order@, vocabulary, p + 1);
                        assert(now == kept.push(order@[p as int]));
                        assert forall|q: int| 0 <= q < entries@.len() implies stat_entry(
                            &members@[now[q] as int],
                            &#[trigger] entries@[q],
                        ) by {
                            if q < before.len() {
                                assert(entries@[q] == before[q]);
                                assert(now[q] == kept[q]);
                            }
                        }
                    }
                },
                None => {},
            }
            assert(views(diag@) =~= seen + number_findings(&member.1));
        } else {
            report(diag, unknown_member(&member.0, &vocabulary.pawn_stats));
        }
        assert(views(diag@) =~= start + (repeated + stats_among(members@, order@, vocabulary, p + 1)));
        p += 1;
    }
    assert(views(diag@) =~= start + stats_object_findings(members@, vocabulary));
    PawnStats(entries)
}

/// What `node` reports as the stats of a pawn: where it is an object, what its members
/// report, and else a diagnostic that names its kind.
pub open spec fn stats_findings(node: &Spanned<Json>, vocabulary: &Vocabulary) -> Seq<DiagnosticView> {
    match node.val {
        Json::Object(members) => stats_object_findings(members@, vocabulary),
        _ => seq![mismatch(node, "object"@)],
    }
}

/// `out` is what the object `node` gives as the stats of a pawn, with its span.
pub open spec fn stats_value(node: &Spanned<Json>, out: &Spanned<PawnStats>, vocabulary: &Vocabulary) -> bool {
    node.val matches Json::Object(members) && out.span == node.span && stats_object_value(
        members@,
        &out.val, vocabulary,
    )
}

/// Decodes `node` as the stats of a pawn: there is a value where `node` is an object.
pub fn decode_stats(
    node: &Spanned<Json>,
    vocabulary: &Vocabulary,
    diag: &mut Vec<Diagnostic>,
) -> (r: Option<Spanned<PawnStats>>)
    ensures
        views(final(diag)@) == views(old(diag)@) + stats_findings(node, vocabulary),
        match r {
            Some(out) => node.val is Object && stats_value(node, &out, vocabulary),
            None => !(node.val is Object),
        },
{
    match &node.val {
        Json::Object(members) => {
            let value = decode_stats_object(members, vocabulary, diag);
            Some(Spanned::new(node.span, value))
        },
        _ => {
            report(diag, expectation(node.span, "object", node.val.kind_desc()));
            assert(views(diag@) =~= views(old(diag)@) + stats_findings(node, vocabulary));
            None
        },
    }
}

/// What the member `key` of `members` reports as the stats of a pawn: nothing where
/// there is no such member.
#[verifier::opaque]
pub open spec fn stats_field_findings(members: Seq<Member>, key: Seq<char>, vocabulary: &Vocabulary) -> Seq<DiagnosticView> {
    match member_named(members, key) {
        Some(k) => stats_findings(&members[k].1, vocabulary),
        None => Seq::empty(),
    }
}

/// `out` is what the member `key` of `members` gives as the stats of a pawn: its value
/// where it is accepted, and `fallback` where it is not, or where there is
/// no such member.
#[verifier::opaque]
pub open spec fn stats_field(
    members: Seq<Member>,
    key: Seq<char>,
    out: &Spanned<PawnStats>,
    fallback: &Spanned<PawnStats>,
    vocabulary: &Vocabulary,
) -> bool {
    match member_named(members, key) {
        Some(k) => if members[k].1.val is Object {
            stats_value(&members[k].1, out, vocabulary)
        } else {
            out == fallback
        },
        None => out == fallback,
    }
}

/// Decodes the member `key` of `members` as the stats of a pawn.
pub fn decode_stats_field(
    members: &Vec<Member>,
    key: &str,
    fallback: Spanned<PawnStats>, vocabulary: &Vocabulary,
    diag: &mut Vec<Diagnostic>,
) -> (out: Spanned<PawnStats>)
    ensures
        views(final(diag)@) == views(old(diag)@) + stats_field_findings(members@, key@, vocabulary),
        stats_field(members@, key@, &out, &fallback, vocabulary),
{
    reveal(stats_field);
    reveal(stats_field_findings);
    match find_member(members, key) {
        Some(k) => {
            match decode_stats(&members[k].1, vocabulary, diag) {
                Some(value) => value,
                None => fallback,
            }
        },
        None => {
            assert(views(diag@) =~= views(old(diag)@) + stats_field_findings(members@, key@, vocabulary));
            fallback
        },
    }
}

/// `out` is what the member `key` of `members` gives as the stats of a pawn: its value
/// where it is accepted; where it is not, or where there is no such
/// member, `is_default` holds.
#[verifier::opaque]
pub open spec fn stats_held(
    members: Seq<Member>,
    key: Seq<char>,
    out: &Spanned<PawnStats>,
    is_default: bool,
    vocabulary: &Vocabulary,
) -> bool {
    match member_named(members, key) {
        Some(k) => if members[k].1.val is Object {
            stats_value(&members[k].1, out, vocabulary)
        } else {
            is_default
        },
        None => is_default,
    }
}

/// What a field is given holds of it, where the default holds of the fallback.
pub proof fn lemma_stats_held(
    members: Seq<Member>,
    key: Seq<char>,
    out: &Spanned<PawnStats>,
    fallback: &Spanned<PawnStats>,
    is_default: bool, vocabulary: &Vocabulary,
)
    requires
        stats_field(members, key, out, fallback, vocabulary),
        out == fallback ==> is_default,
    ensures
        stats_held(members, key, out, is_default, vocabulary),
{
    reveal(stats_field);
    reveal(stats_held);
}

} // verus!
