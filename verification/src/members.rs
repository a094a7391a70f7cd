//! The members of an object: which of them a key names, which repeat a
//! key, in which order they are visited, and which the schema does not know.

use crate::config::names_view;
use crate::diagnostic::{Color, Diagnostic, DiagnosticView, Label, LabelView, report, Severity, views};
use crate::edit_distance::{nearest, suggest, suggestion};
use crate::json::{Json, SpannedString};
use crate::late_lints::{message_naming, naming};
use crate::span::Spanned;
use crate::text::{lemma_str_order, str_eq, str_lt, string_lt};
use vstd::prelude::*;
use vstd::string::*;

verus! {

/// A member of an object: its key and its value.
pub type Member = (SpannedString, Spanned<Json>);

/// The place of the first of the first `upto` members that has the key `key`.
pub open spec fn first_keyed(members: Seq<Member>, key: Seq<char>, upto: int) -> Option<int>
    decreases upto,
{
    if upto <= 0 || upto > members.len() {
        None
    } else {
        match first_keyed(members, key, upto - 1) {
            Some(k) => Some(k),
            None => if members[upto - 1].0.value@ == key {
                Some(upto - 1)
            } else {
                None
            },
        }
    }
}

/// The member that the key `key` names: the first member with that key.
pub open spec fn member_named(members: Seq<Member>, key: Seq<char>) -> Option<int> {
    first_keyed(members, key, members.len() as int)
}

pub proof fn lemma_first_keyed_stays(members: Seq<Member>, key: Seq<char>, at: int, upto: int)
    requires
        0 <= at <= upto <= members.len(),
        first_keyed(members, key, at).is_some(),
    ensures
        first_keyed(members, key, upto) == first_keyed(members, key, at),
    decreases upto - at,
{
    if at < upto {
        lemma_first_keyed_stays(members, key, at, upto - 1);
    }
}

pub proof fn lemma_first_keyed_bound(members: Seq<Member>, key: Seq<char>, upto: int)
    ensures
        first_keyed(members, key, upto) matches Some(k) ==> 0 <= k < upto && k < members.len()
            && members[k].0.value@ == key,
    decreases upto,
{
    if 0 < upto <= members.len() {
        lemma_first_keyed_bound(members, key, upto - 1);
    }
}

/// The place of the first of the first `upto` members that has the key `key`.
pub fn find_member_before(members: &Vec<Member>, key: &str, upto: usize) -> (found: Option<usize>)
    requires
        upto <= members@.len(),
    ensures
        match found {
            Some(k) => k < upto && first_keyed(members@, key@, upto as int) == Some(k as int),
            None => first_keyed(members@, key@, upto as int).is_none(),
        },
{
    let mut k: usize = 0;
    while k < upto
        invariant
            k <= upto <= members@.len(),
            first_keyed(members@, key@, k as int).is_none(),
        decreases upto - k,
    {
        if str_eq(members[k].0.value.as_str(), key) {
            proof {
                lemma_first_keyed_stays(members@, key@, k + 1, upto as int);
            }
            return Some(k);
        }
        k += 1;
    }
    None
}

/// The member that the key `key` names.
pub fn find_member(members: &Vec<Member>, key: &str) -> (found: Option<usize>)
    ensures
        match found {
            Some(k) => k < members@.len() && member_named(members@, key@) == Some(k as int),
            None => member_named(members@, key@).is_none(),
        },
{
    find_member_before(members, key, members.len())
}

/// The error for the member at `later`, whose key the member at `first` has defined.
pub open spec fn duplicate_error(first: &SpannedString, later: &SpannedString) -> DiagnosticView {
    DiagnosticView {
        severity: Severity::Error,
        offset: later.span.lo,
        message: naming("member "@, later.value@, " is defined multiple times"@),
        labels: seq![
            LabelView { span: first.span, color: Color::Yellow, message: Some("first defined here"@) },
            LabelView { span: later.span, color: Color::Red, message: Some("later redefined here"@) },
        ],
        help: None,
    }
}

/// The errors for the first `upto` members: one for each member whose key
/// a member before it has, with the first member of that key.
pub open spec fn duplicate_findings(members: Seq<Member>, upto: int) -> Seq<DiagnosticView>
    decreases upto,
{
    if upto <= 0 || upto > members.len() {
        Seq::empty()
    } else {
        let before = duplicate_findings(members, upto - 1);
        match first_keyed(members, members[upto - 1].0.value@, upto - 1) {
            Some(first) => before.push(duplicate_error(&members[first].0, &members[upto - 1].0)),
            None => before,
        }
    }
}

/// Reports each member that repeats the key of a member before it.
pub fn report_duplicates(members: &Vec<Member>, diag: &mut Vec<Diagnostic>)
    ensures
        views(final(diag)@) == views(old(diag)@) + duplicate_findings(members@, members@.len() as int),
{
    let n = members.len();
    let mut k: usize = 0;
    assert(views(diag@) =~= views(old(diag)@) + duplicate_findings(members@, 0));
    while k < n
        invariant
            k <= n,
            n == members@.len(),
            views(diag@) == views(old(diag)@) + duplicate_findings(members@, k as int),
        decreases n - k,
    {
        let later = &members[k].0;
        match find_member_before(members, later.value.as_str(), k) {
            Some(j) => {
                let first = &members[j].0;
                let d = Diagnostic::new(
                    Severity::Error,
                    later.span.lo,
                    message_naming("member ", later.value.as_str(), " is defined multiple times"),
                ).with_label(
                    Label::with_message(first.span, Color::Yellow, String::from_str("first defined here")),
                ).with_label(
                    Label::with_message(later.span, Color::Red, String::from_str("later redefined here")),
                );
                assert(d@.labels =~= duplicate_error(first, later).labels);
                report(diag, d);
            },
            None => {},
        }
        assert(views(diag@) =~= views(old(diag)@) + duplicate_findings(members@, k + 1));
        k += 1;
    }
}

/// The place in `order`, at or behind `p`, of the first member whose key
/// does not come before `key`.
pub open spec fn place_from(members: Seq<Member>, order: Seq<usize>, key: Seq<char>, p: int) -> int
    decreases order.len() - p,
{
    if 0 <= p < order.len() && str_lt(members[order[p] as int].0.value@, key) {
        place_from(members, order, key, p + 1)
    } else {
        p
    }
}

/// The order in which the first `upto` members are visited: sorted by key;
/// of the members with one key, the first is visited and no other.
pub open spec fn visit_order(members: Seq<Member>, upto: int) -> Seq<usize>
    decreases upto,
{
    if upto <= 0 || upto > members.len() {
        Seq::empty()
    } else {
        let before = visit_order(members, upto - 1);
        let key = members[upto - 1].0.value@;
        if first_keyed(members, key, upto - 1).is_none() {
            before.insert(place_from(members, before, key, 0), (upto - 1) as usize)
        } else {
            before
        }
    }
}

/// The members in the order in which they are visited.
pub open spec fn visited(members: Seq<Member>) -> Seq<usize> {
    visit_order(members, members.len() as int)
}

/// The keys of the members at the places of `order` rise from each to the next.
pub open spec fn sorted_by_key(members: Seq<Member>, order: Seq<usize>) -> bool {
    forall|p: int, q: int|
        0 <= p < q < order.len() ==> str_lt(
            members[(#[trigger] order[p]) as int].0.value@,
            members[(#[trigger] order[q]) as int].0.value@,
        )
}

/// Each entry of `order` is the place, below `upto`, of a member that is
/// the first with its key.
pub open spec fn firsts_only(members: Seq<Member>, order: Seq<usize>, upto: int) -> bool {
    forall|p: int|
        0 <= p < order.len() ==> (#[trigger] order[p]) < upto && first_keyed(
            members,
            members[order[p] as int].0.value@,
            order[p] as int,
        ).is_none()
}

/// `order` holds the place of each member below `upto` that is the first
/// with its key.
pub open spec fn holds_firsts(members: Seq<Member>, order: Seq<usize>, upto: int) -> bool {
    forall|k: int|
        0 <= k < upto && (#[trigger] first_keyed(members, members[k].0.value@, k)).is_none()
            ==> order.contains(k as usize)
}

/// Where no member below `upto` has the key, no member below `upto` has it.
proof fn lemma_first_keyed_none(members: Seq<Member>, key: Seq<char>, upto: int, j: int)
    requires
        0 <= j < upto <= members.len(),
        first_keyed(members, key, upto).is_none(),
    ensures
        members[j].0.value@ != key,
    decreases upto,
{
    if j < upto - 1 {
        lemma_first_keyed_none(members, key, upto - 1, j);
    }
}

/// The place that `place_from` gives lies behind the members whose keys
/// come before `key`, and at a member whose key does not, or at the end.
proof fn lemma_place(members: Seq<Member>, order: Seq<usize>, key: Seq<char>, p: int)
    requires
        0 <= p <= order.len(),
    ensures
        p <= place_from(members, order, key, p) <= order.len(),
        forall|q: int|
            p <= q < place_from(members, order, key, p) ==> str_lt(
                members[(#[trigger] order[q]) as int].0.value@,
                key,
            ),
        place_from(members, order, key, p) < order.len() ==> !str_lt(
            members[order[place_from(members, order, key, p)] as int].0.value@,
            key,
        ),
    decreases order.len() - p,
{
    if p < order.len() && str_lt(members[order[p] as int].0.value@, key) {
        lemma_place(members, order, key, p + 1);
    }
}

/// The members are visited in the order of their keys, and of the members
/// with one key the first is visited and no other.
pub proof fn lemma_visit_order(members: Seq<Member>, upto: int)
    requires
        0 <= upto <= members.len(),
        members.len() <= usize::MAX,
    ensures
        sorted_by_key(members, visit_order(members, upto)),
        firsts_only(members, visit_order(members, upto), upto),
        holds_firsts(members, visit_order(members, upto), upto),
    decreases upto,
{
    if upto > 0 {
        lemma_visit_order(members, upto - 1);
        let before = visit_order(members, upto - 1);
        let after = visit_order(members, upto);
        let k = upto - 1;
        let key = members[k].0.value@;
        if first_keyed(members, key, k).is_none() {
            let r = place_from(members, before, key, 0);
            lemma_place(members, before, key, 0);
            assert(after == before.insert(r, k as usize));
            assert forall|q: int| 0 <= q < after.len() implies (#[trigger] after[q]) == (if q < r {
                before[q]
            } else if q == r {
                k as usize
            } else {
                before[q - 1]
            }) by {}
            assert forall|q: int| r <= q < before.len() implies str_lt(
                key,
                members[(#[trigger] before[q]) as int].0.value@,
            ) by {
                let at = members[before[r] as int].0.value@;
                lemma_first_keyed_none(members, key, k, before[r] as int);
                lemma_str_order(key, at, members[before[q] as int].0.value@);
                lemma_str_order(at, key, key);
            }
            assert(sorted_by_key(members, after)) by {
                assert forall|p: int, q: int| 0 <= p < q < after.len() implies str_lt(
                    members[(#[trigger] after[p]) as int].0.value@,
                    members[(#[trigger] after[q]) as int].0.value@,
                ) by {
                    if q < r {
                        assert(after[p] == before[p] && after[q] == before[q]);
                    } else if q == r {
                        assert(after[p] == before[p]);
                    } else if p < r {
                        assert(after[p] == before[p] && after[q] == before[q - 1]);
                    } else if p == r {
                        assert(after[q] == before[q - 1]);
                    } else {
                        assert(after[p] == before[p - 1] && after[q] == before[q - 1]);
                    }
                }
            }
            assert(firsts_only(members, after, upto)) by {
                assert forall|p: int| 0 <= p < after.len() implies (#[trigger] after[p]) < upto && first_keyed(
                    members,
                    members[after[p] as int].0.value@,
                    after[p] as int,
                ).is_none() by {
                    if p < r {
                        assert(after[p] == before[p]);
                    } else if p > r {
                        assert(after[p] == before[p - 1]);
                    }
                }
            }
            assert(holds_firsts(members, after, upto)) by {
                assert forall|j: int|
                    0 <= j < upto && (#[trigger] first_keyed(members, members[j].0.value@, j)).is_none()
                    implies after.contains(j as usize) by {
                    if j == k {
                        assert(after[r] == k as usize);
                    } else {
                        assert(before.contains(j as usize));
                        let q = choose|q: int| 0 <= q < before.len() && before[q] == j as usize;
                        if q < r {
                            assert(after[q] == before[q]);
                        } else {
                            assert(after[q + 1] == before[q]);
                        }
                    }
                }
            }
        } else {
            assert(after == before);
        }
    }
}

/// The names rise from each to the next.
pub open spec fn names_sorted(names: Seq<Seq<char>>) -> bool {
    forall|i: int, j: int| 0 <= i < j < names.len() ==> str_lt(#[trigger] names[i], #[trigger] names[j])
}

/// Names of which each comes before the next are sorted.
pub proof fn lemma_sorted_from_adjacent(names: Seq<Seq<char>>)
    requires
        forall|i: int| 0 <= i < names.len() - 1 ==> str_lt(#[trigger] names[i], names[i + 1]),
    ensures
        names_sorted(names),
{
    assert forall|i: int, j: int| 0 <= i < j < names.len() implies str_lt(
        #[trigger] names[i],
        #[trigger] names[j],
    ) by {
        lemma_sorted_between(names, i, j);
    }
}

proof fn lemma_sorted_between(names: Seq<Seq<char>>, i: int, j: int)
    requires
        forall|i: int| 0 <= i < names.len() - 1 ==> str_lt(#[trigger] names[i], names[i + 1]),
        0 <= i < j < names.len(),
    ensures
        str_lt(names[i], names[j]),
    decreases j - i,
{
    if i + 1 < j {
        lemma_sorted_between(names, i, j - 1);
        assert(str_lt(names[j - 1], names[j - 1 + 1]));
        lemma_str_order(names[i], names[j - 1], names[j]);
    } else {
        assert(str_lt(names[i], names[i + 1]));
    }
}

/// `lo` and `hi` are two names of `names` with none between them, or the
/// first name with nothing before it, or the last with nothing behind it.
pub open spec fn is_gap(names: Seq<Seq<char>>, lo: Option<Seq<char>>, hi: Option<Seq<char>>) -> bool {
    match (lo, hi) {
        (None, Some(h)) => names.len() > 0 && h == names[0],
        (Some(l), Some(h)) => exists|j: int| 0 <= j < names.len() - 1 && #[trigger] names[j] == l && names[j + 1] == h,
        (Some(l), None) => names.len() > 0 && l == names.last(),
        (None, None) => names.len() == 0,
    }
}

/// A name of sorted names lies in no gap between them.
pub proof fn lemma_name_in_no_gap(names: Seq<Seq<char>>, key: Seq<char>, lo: Option<Seq<char>>, hi: Option<Seq<char>>)
    requires
        names_sorted(names),
        names.contains(key),
        is_gap(names, lo, hi),
    ensures
        !in_gap(key, lo, hi),
{
    let i = choose|i: int| 0 <= i < names.len() && names[i] == key;
    match (lo, hi) {
        (None, Some(h)) => {
            if i > 0 {
                lemma_str_order(names[0], names[i], names[0]);
            } else {
                lemma_str_order(key, key, key);
            }
        },
        (Some(l), Some(h)) => {
            let j = choose|j: int| 0 <= j < names.len() - 1 && #[trigger] names[j] == l && names[j + 1] == h;
            if i <= j {
                if i < j {
                    lemma_str_order(names[i], names[j], names[i]);
                } else {
                    lemma_str_order(key, key, key);
                }
            } else if i == j + 1 {
                lemma_str_order(key, key, key);
            } else {
                lemma_str_order(names[j + 1], names[i], names[j + 1]);
            }
        },
        (Some(l), None) => {
            let last = names.len() - 1;
            if i < last {
                lemma_str_order(names[i], names[last], names[i]);
            } else {
                lemma_str_order(key, key, key);
            }
        },
        (None, None) => {},
    }
}

/// Where the key of every member is one of the sorted names, no member is
/// reported as unknown in a gap between the names.
pub proof fn lemma_known_members_in_no_gap(
    members: Seq<Member>,
    order: Seq<usize>,
    names: Seq<Seq<char>>,
    lo: Option<Seq<char>>,
    hi: Option<Seq<char>>,
    upto: int,
)
    requires
        names_sorted(names),
        is_gap(names, lo, hi),
        places_within(order, members.len()),
        forall|k: int| 0 <= k < members.len() ==> names.contains((#[trigger] members[k]).0.value@),
        0 <= upto <= order.len(),
    ensures
        unknown_between(members, order, names, lo, hi, upto).len() == 0,
    decreases upto,
{
    if upto > 0 {
        lemma_known_members_in_no_gap(members, order, names, lo, hi, upto - 1);
        let member = members[order[upto - 1] as int];
        assert(names.contains(member.0.value@));
        lemma_name_in_no_gap(names, member.0.value@, lo, hi);
    }
}

/// The places of the visit order are places of members.
pub proof fn lemma_visit_order_places(members: Seq<Member>, upto: int)
    requires
        0 <= upto <= members.len(),
        members.len() <= usize::MAX,
    ensures
        places_within(visit_order(members, upto), members.len()),
{
    lemma_visit_order(members, upto);
}

/// Each entry of `order` is the place of a member.
pub open spec fn places_within(order: Seq<usize>, n: nat) -> bool {
    forall|p: int| 0 <= p < order.len() ==> (#[trigger] order[p]) < n
}

/// The places of the members in the order in which they are visited.
pub fn sorted_members(members: &Vec<Member>) -> (order: Vec<usize>)
    ensures
        order@ == visited(members@),
        places_within(order@, members@.len()),
{
    let n = members.len();
    let mut order: Vec<usize> = Vec::new();
    let mut k: usize = 0;
    while k < n
        invariant
            k <= n,
            n == members@.len(),
            order@ == visit_order(members@, k as int),
            places_within(order@, n as nat),
        decreases n - k,
    {
        let key = members[k].0.value.as_str();
        if find_member_before(members, key, k).is_none() {
            let mut p: usize = 0;
            while p < order.len() && string_lt(members[order[p]].0.value.as_str(), key)
                invariant
                    p <= order@.len(),
                    n == members@.len(),
                    places_within(order@, n as nat),
                    place_from(members@, order@, key@, p as int) == place_from(members@, order@, key@, 0),
                decreases order@.len() - p,
            {
                p += 1;
            }
            let ghost before = order@;
            order.insert(p, k);
            proof {
                assert forall|q: int| 0 <= q < order@.len() implies (#[trigger] order@[q]) < n by {
                    if q < p {
                        assert(order@[q] == before[q]);
                    } else if q > p {
                        assert(order@[q] == before[q - 1]);
                    }
                }
            }
        }
        k += 1;
    }
    order
}

/// `key` lies behind `lo`, where there is one, and before `hi`, where there is one.
pub open spec fn in_gap(key: Seq<char>, lo: Option<Seq<char>>, hi: Option<Seq<char>>) -> bool {
    (lo matches Some(l) ==> str_lt(l, key)) && (hi matches Some(h) ==> str_lt(key, h))
}

/// The error for a member whose key the schema does not know. It suggests
/// the known key that is nearest, where one is near.
pub open spec fn unknown_error(key: &SpannedString, known: Seq<Seq<char>>) -> DiagnosticView {
    DiagnosticView {
        severity: Severity::Error,
        offset: key.span.lo,
        message: naming("unknown member "@, key.value@, ""@),
        labels: seq![LabelView { span: key.span, color: Color::Red, message: None }],
        help: match suggestion(known, key.value@) {
            Some(name) => Some(naming("did you mean "@, name, "?"@)),
            None => None,
        },
    }
}

/// The errors for the members at the first `upto` places of `order` whose
/// keys lie between `lo` and `hi`.
pub open spec fn unknown_between(
    members: Seq<Member>,
    order: Seq<usize>,
    known: Seq<Seq<char>>,
    lo: Option<Seq<char>>,
    hi: Option<Seq<char>>,
    upto: int,
) -> Seq<DiagnosticView>
    decreases upto,
{
    if upto <= 0 || upto > order.len() {
        Seq::empty()
    } else {
        let before = unknown_between(members, order, known, lo, hi, upto - 1);
        let key = members[order[upto - 1] as int].0;
        if in_gap(key.value@, lo, hi) {
            before.push(unknown_error(&key, known))
        } else {
            before
        }
    }
}

/// The errors for the visited members of `members` whose keys lie between
/// `lo` and `hi`, two keys of the schema with none between them: the schema
/// does not know these members.
#[verifier::opaque]
pub open spec fn unknown_in_gap(
    members: Seq<Member>,
    known: Seq<Seq<char>>,
    lo: Option<Seq<char>>,
    hi: Option<Seq<char>>,
) -> Seq<DiagnosticView> {
    unknown_between(members, visited(members), known, lo, hi, visited(members).len() as int)
}

/// Where `more` is reported behind `start` and `done`, it is reported
/// behind `start` as the end of `done` with `more`.
pub proof fn lemma_reported(
    start: Seq<DiagnosticView>,
    done: Seq<DiagnosticView>,
    more: Seq<DiagnosticView>,
    now: Seq<DiagnosticView>,
)
    requires
        now == (start + done) + more,
    ensures
        now == start + (done + more),
{
    assert((start + done) + more =~= start + (done + more));
}

/// The diagnostic for the member with the key `key`, which the schema does not know.
pub fn unknown_member(key: &SpannedString, known: &Vec<String>) -> (d: Diagnostic)
    ensures
        d@ == unknown_error(key, names_view(known@)),
{
    let text = key.value.as_str();
    let d = Diagnostic::new(Severity::Error, key.span.lo, message_naming("unknown member ", text, "")).with_label(
        Label::new(key.span, Color::Red),
    );
    assert(d@.labels =~= unknown_error(key, names_view(known@)).labels);
    match suggest(known, text) {
        Some(k) => d.with_help(message_naming("did you mean ", known[k].as_str(), "?")),
        None => d,
    }
}

pub open spec fn text_of(key: Option<&str>) -> Option<Seq<char>> {
    match key {
        Some(k) => Some(k@),
        None => None,
    }
}

/// Reports the visited members whose keys lie between `lo` and `hi`.
pub fn report_unknown(
    members: &Vec<Member>,
    order: &Vec<usize>,
    known: &Vec<String>,
    lo: Option<&str>,
    hi: Option<&str>,
    diag: &mut Vec<Diagnostic>,
)
    requires
        places_within(order@, members@.len()),
    ensures
        views(final(diag)@) == views(old(diag)@) + unknown_between(
            members@,
            order@,
            names_view(known@),
            text_of(lo),
            text_of(hi),
            order@.len() as int,
        ),
{
    let n = order.len();
    let mut p: usize = 0;
    assert(views(diag@) =~= views(old(diag)@) + unknown_between(
        members@,
        order@,
        names_view(known@),
        text_of(lo),
        text_of(hi),
        0,
    ));
    while p < n
        invariant
            p <= n,
            n == order@.len(),
            places_within(order@, members@.len()),
            views(diag@) == views(old(diag)@) + unknown_between(
                members@,
                order@,
                names_view(known@),
                text_of(lo),
                text_of(hi),
                p as int,
            ),
        decreases n - p,
    {
        let key = &members[order[p]].0;
        let text = key.value.as_str();
        let above = match lo {
            Some(l) => string_lt(l, text),
            None => true,
        };
        let below = match hi {
            Some(h) => string_lt(text, h),
            None => true,
        };
        if above && below {
            report(diag, unknown_member(key, known));
        }
        assert(views(diag@) =~= views(old(diag)@) + unknown_between(
            members@,
            order@,
            names_view(known@),
            text_of(lo),
            text_of(hi),
            p + 1,
        ));
        p += 1;
    }
}

/// Reports the members that are visited in `order`, the order of
/// `members`, and whose keys lie between `lo` and `hi`.
pub fn report_gap(
    members: &Vec<Member>,
    order: &Vec<usize>,
    known: &Vec<String>,
    lo: Option<&str>,
    hi: Option<&str>,
    diag: &mut Vec<Diagnostic>,
)
    requires
        order@ == visited(members@),
        places_within(order@, members@.len()),
    ensures
        views(final(diag)@) == views(old(diag)@) + unknown_in_gap(
            members@,
            names_view(known@),
            text_of(lo),
            text_of(hi),
        ),
{
    reveal(unknown_in_gap);
    report_unknown(members, order, known, lo, hi, diag);
}

} // verus!
