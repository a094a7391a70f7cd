//! The enemy descriptors of a document: an object whose keys are the
//! names of the descriptors and whose values are the descriptors.

use crate::config::Vocabulary;
use crate::custom_difficulty::EnemyDescriptor;
use crate::descriptor::{decode_descriptor, descriptor_findings, descriptor_value};
use crate::diagnostic::{Diagnostic, DiagnosticView, report, views};
use crate::json::Json;
use crate::members::{
    duplicate_findings, find_member, Member, member_named, places_within, report_duplicates, sorted_members,
    visited,
};
use crate::span::Spanned;
use crate::validate::{expectation, mismatch};
use vstd::prelude::*;

verus! {

/// A descriptor with its name.
pub type Named = (Spanned<String>, Spanned<EnemyDescriptor>);

/// What the members at the first `upto` places of `order` report as
/// enemy descriptors.
pub open spec fn descriptors_among(
    members: Seq<Member>,
    order: Seq<usize>,
    vocabulary: &Vocabulary,
    upto: int,
) -> Seq<DiagnosticView>
    decreases upto,
{
    if upto <= 0 || upto > order.len() {
        Seq::empty()
    } else {
        descriptors_among(members, order, vocabulary, upto - 1) + descriptor_findings(
            &members[order[upto - 1] as int].1,
            vocabulary,
        )
    }
}

/// The places of the members whose values are objects, among those at the
/// first `upto` places of `order`.
pub open spec fn descriptors_kept(members: Seq<Member>, order: Seq<usize>, upto: int) -> Seq<usize>
    decreases upto,
{
    if upto <= 0 || upto > order.len() {
        Seq::empty()
    } else {
        let before = descriptors_kept(members, order, upto - 1);
        if members[order[upto - 1] as int].1.val is Object {
            before.push(order[upto - 1])
        } else {
            before
        }
    }
}

/// `entry` is the descriptor that `member` gives: its name with the span
/// of the key, and the descriptor with the span of the object.
pub open spec fn descriptor_entry(member: &Member, entry: &Named, vocabulary: &Vocabulary) -> bool {
    entry.0.span == member.0.span && entry.0.val@ == member.0.value@ && descriptor_value(
        &member.1,
        &entry.1,
        vocabulary,
    )
}

/// What the members of the enemy descriptors report: the members that
/// repeat a name, in the order of the input, then what the descriptors
/// report in the order of their names.
pub open spec fn descriptors_object_findings(members: Seq<Member>, vocabulary: &Vocabulary) -> Seq<
    DiagnosticView,
> {
    duplicate_findings(members, members.len() as int) + descriptors_among(
        members,
        visited(members),
        vocabulary,
        visited(members).len() as int,
    )
}

/// `out` holds the descriptors that the members give, in the order of
/// their names: one for each name whose first member is an object.
pub open spec fn descriptors_object_value(members: Seq<Member>, out: &Vec<Named>, vocabulary: &Vocabulary) -> bool {
    let kept = descriptors_kept(members, visited(members), visited(members).len() as int);
    out@.len() == kept.len() && forall|p: int|
        0 <= p < kept.len() ==> descriptor_entry(&members[kept[p] as int], &#[trigger] out@[p], vocabulary)
}

/// Decodes the members of the enemy descriptors.
pub fn decode_descriptors_object(members: &Vec<Member>, vocabulary: &Vocabulary, diag: &mut Vec<Diagnostic>) -> (out: Vec<Named>)
    ensures
        views(final(diag)@) == views(old(diag)@) + descriptors_object_findings(members@, vocabulary),
        descriptors_object_value(members@, &out, vocabulary),
{
    let ghost start = views(diag@);
    report_duplicates(members, diag);
    let ghost repeated = duplicate_findings(members@, members@.len() as int);
    let order = sorted_members(members);
    let mut entries: Vec<Named> = Vec::new();
    let mut p: usize = 0;
    assert(views(diag@) =~= start + (repeated + descriptors_among(members@, order@, vocabulary, 0)));
    while p < order.len()
        invariant
            p <= order@.len(),
            places_within(order@, members@.len()),
            views(diag@) == start + (repeated + descriptors_among(members@, order@, vocabulary, p as int)),
            entries@.len() == descriptors_kept(members@, order@, p as int).len(),
            forall|q: int|
                0 <= q < entries@.len() ==> descriptor_entry(
                    &members@[descriptors_kept(members@, order@, p as int)[q] as int],
                    &#[trigger] entries@[q],
                    vocabulary,
                ),
        decreases order@.len() - p,
    {
        let member = &members[order[p]];
        let ghost before = entries@;
        let ghost kept = descriptors_kept(members@, order@, p as int);
        let ghost seen = views(diag@);
        match decode_descriptor(&member.1, vocabulary, diag) {
            Some(descriptor) => {
                entries.push((Spanned::new(member.0.span, member.0.value.clone()), descriptor));
                proof {
                    let now = descriptors_kept(members@, order@, p + 1);
                    assert(now == kept.push(order@[p as int]));
                    assert forall|q: int| 0 <= q < entries@.len() implies descriptor_entry(
                        &members@[now[q] as int],
                        &#[trigger] entries@[q],
                        vocabulary,
                    ) by {
                        if q < before.len() {
                            assert(entries@[q] == before[q]);
                            assert(now[q] == kept[q]);
                        }
                    }
                }
            },
            None => {},
        }
        assert(views(diag@) =~= start + (repeated + descriptors_among(members@, order@, vocabulary, p + 1)));
        p += 1;
    }
    assert(views(diag@) =~= start + descriptors_object_findings(members@, vocabulary));
    entries
}

/// What `node` reports as the enemy descriptors: where it is an object, what its members
/// report, and else a diagnostic that names its kind.
pub open spec fn descriptors_findings(node: &Spanned<Json>, vocabulary: &Vocabulary) -> Seq<DiagnosticView> {
    match node.val {
        Json::Object(members) => descriptors_object_findings(members@, vocabulary),
        _ => seq![mismatch(node, "object"@)],
    }
}

/// `out` is what the object `node` gives as the enemy descriptors, with its span.
pub open spec fn descriptors_value(node: &Spanned<Json>, out: &Spanned<Vec<Named>>, vocabulary: &Vocabulary) -> bool {
    node.val matches Json::Object(members) && out.span == node.span && descriptors_object_value(
        members@,
        &out.val, vocabulary,
    )
}

/// Decodes `node` as the enemy descriptors: there is a value where `node` is an object.
pub fn decode_descriptors(
    node: &Spanned<Json>,
    vocabulary: &Vocabulary,
    diag: &mut Vec<Diagnostic>,
) -> (r: Option<Spanned<Vec<Named>>>)
    ensures
        views(final(diag)@) == views(old(diag)@) + descriptors_findings(node, vocabulary),
        match r {
            Some(out) => node.val is Object && descriptors_value(node, &out, vocabulary),
            None => !(node.val is Object),
        },
{
    match &node.val {
        Json::Object(members) => {
            let value = decode_descriptors_object(members, vocabulary, diag);
            Some(Spanned::new(node.span, value))
        },
        _ => {
            report(diag, expectation(node.span, "object", node.val.kind_desc()));
            assert(views(diag@) =~= views(old(diag)@) + descriptors_findings(node, vocabulary));
            None
        },
    }
}

/// What the member `key` of `members` reports as the enemy descriptors: nothing where
/// there is no such member.
#[verifier::opaque]
pub open spec fn descriptors_field_findings(members: Seq<Member>, key: Seq<char>, vocabulary: &Vocabulary) -> Seq<DiagnosticView> {
    match member_named(members, key) {
        Some(k) => descriptors_findings(&members[k].1, vocabulary),
        None => Seq::empty(),
    }
}

/// `out` is what the member `key` of `members` gives as the enemy descriptors: its value
/// where it is accepted, and `fallback` where it is not, or where there is
/// no such member.
#[verifier::opaque]
pub open spec fn descriptors_field(
    members: Seq<Member>,
    key: Seq<char>,
    out: &Spanned<Vec<Named>>,
    fallback: &Spanned<Vec<Named>>,
    vocabulary: &Vocabulary,
) -> bool {
    match member_named(members, key) {
        Some(k) => if members[k].1.val is Object {
            descriptors_value(&members[k].1, out, vocabulary)
        } else {
            out == fallback
        },
        None => out == fallback,
    }
}

/// Decodes the member `key` of `members` as the enemy descriptors.
pub fn decode_descriptors_field(
    members: &Vec<Member>,
    key: &str,
    fallback: Spanned<Vec<Named>>, vocabulary: &Vocabulary,
    diag: &mut Vec<Diagnostic>,
) -> (out: Spanned<Vec<Named>>)
    ensures
        views(final(diag)@) == views(old(diag)@) + descriptors_field_findings(members@, key@, vocabulary),
        descriptors_field(members@, key@, &out, &fallback, vocabulary),
{
    reveal(descriptors_field);
    reveal(descriptors_field_findings);
    match find_member(members, key) {
        Some(k) => {
            match decode_descriptors(&members[k].1, vocabulary, diag) {
                Some(value) => value,
                None => fallback,
            }
        },
        None => {
            assert(views(diag@) =~= views(old(diag)@) + descriptors_field_findings(members@, key@, vocabulary));
            fallback
        },
    }
}

/// `out` is what the member `key` of `members` gives as the enemy descriptors: its value
/// where it is accepted; where it is not, or where there is no such
/// member, `is_default` holds.
#[verifier::opaque]
pub open spec fn descriptors_held(
    members: Seq<Member>,
    key: Seq<char>,
    out: &Spanned<Vec<Named>>,
    is_default: bool,
    vocabulary: &Vocabulary,
) -> bool {
    match member_named(members, key) {
        Some(k) => if members[k].1.val is Object {
            descriptors_value(&members[k].1, out, vocabulary)
        } else {
            is_default
        },
        None => is_default,
    }
}

/// What a field is given holds of it, where the default holds of the fallback.
pub proof fn lemma_descriptors_held(
    members: Seq<Member>,
    key: Seq<char>,
    out: &Spanned<Vec<Named>>,
    fallback: &Spanned<Vec<Named>>,
    is_default: bool, vocabulary: &Vocabulary,
)
    requires
        descriptors_field(members, key, out, fallback, vocabulary),
        out == fallback ==> is_default,
    ensures
        descriptors_held(members, key, out, is_default, vocabulary),
{
    reveal(descriptors_field);
    reveal(descriptors_held);
}

} // verus!
