//! Trees and values that are the same to look at. Two values of the
//! machine may hold the same text and the same numbers and still be two
//! values; what is reported of them, and what is decoded from them, is
//! the same.

use crate::custom_difficulty::ArrayOrSingleItem;
use crate::json::{Json, json_view, node_view};
use crate::members::{
    duplicate_findings, first_keyed, lemma_first_keyed_bound, Member, member_named, place_from,
    unknown_between, unknown_in_gap, visit_order, visited,
};
use crate::number::Number;
use crate::span::Spanned;
use crate::validate::{
    flag_findings, flag_value, index_findings, index_value, indices_among, indices_findings, indices_value,
    number_findings, number_value, numbers_among, numbers_findings, numbers_value, text_findings, text_value,
    texts_among, texts_findings, texts_value,
};
use vstd::prelude::*;

verus! {

/// The nodes `a` and `b` are the same to look at.
pub open spec fn same_node(a: &Spanned<Json>, b: &Spanned<Json>) -> bool {
    node_view(a) == node_view(b)
}

/// The items of `a` and of `b` are the same to look at, each at its place.
pub open spec fn same_items(a: Seq<Spanned<Json>>, b: Seq<Spanned<Json>>) -> bool {
    &&& a.len() == b.len()
    &&& forall|k: int| 0 <= k < a.len() ==> same_node(&#[trigger] a[k], &b[k])
}

/// The members of `a` and of `b` are the same to look at, each at its place.
pub open spec fn same_members(a: Seq<Member>, b: Seq<Member>) -> bool {
    &&& a.len() == b.len()
    &&& forall|k: int|
        0 <= k < a.len() ==> (#[trigger] a[k]).0.span == b[k].0.span && a[k].0.value@ == b[k].0.value@ && same_node(
            &a[k].1,
            &b[k].1,
        )
}

/// Nodes that are the same to look at are of one kind, and hold the same.
pub proof fn lemma_same_node(a: &Spanned<Json>, b: &Spanned<Json>)
    requires
        same_node(a, b),
    ensures
        a.span == b.span,
        a.val.spec_kind() == b.val.spec_kind(),
        match (a.val, b.val) {
            (Json::Invalid, Json::Invalid) => true,
            (Json::Null, Json::Null) => true,
            (Json::Bool(x), Json::Bool(y)) => x == y,
            (Json::Str(x), Json::Str(y)) => x@ == y@,
            (Json::Num(x), Json::Num(y)) => x@ == y@,
            (Json::Array(x), Json::Array(y)) => same_items(x@, y@),
            (Json::Object(x), Json::Object(y)) => same_members(x@, y@),
            _ => false,
        },
{
    assert(json_view(&a.val) == json_view(&b.val));
    match (a.val, b.val) {
        (Json::Array(x), Json::Array(y)) => {
            let u = json_view(&a.val)->Array_0;
            let v = json_view(&b.val)->Array_0;
            assert(u.len() == x@.len());
            assert(v.len() == y@.len());
            assert forall|k: int| 0 <= k < x@.len() implies same_node(&#[trigger] x@[k], &y@[k]) by {
                assert(u[k] == node_view(&x@[k]));
                assert(v[k] == node_view(&y@[k]));
            }
        },
        (Json::Object(x), Json::Object(y)) => {
            let u = json_view(&a.val)->Object_0;
            let v = json_view(&b.val)->Object_0;
            assert(u.len() == x@.len());
            assert(v.len() == y@.len());
            assert forall|k: int| 0 <= k < x@.len() implies (#[trigger] x@[k]).0.span == y@[k].0.span
                && x@[k].0.value@ == y@[k].0.value@ && same_node(&x@[k].1, &y@[k].1) by {
                assert(u[k].value == node_view(&x@[k].1));
                assert(v[k].value == node_view(&y@[k].1));
                assert(u[k].key == x@[k].0.value@);
                assert(v[k].key == y@[k].0.value@);
                assert(u[k].key_span == x@[k].0.span);
                assert(v[k].key_span == y@[k].0.span);
            }
        },
        _ => {},
    }
}

/// In members that are the same to look at a key names the same member.
pub proof fn lemma_first_keyed_same(a: Seq<Member>, b: Seq<Member>, key: Seq<char>, upto: int)
    requires
        same_members(a, b),
    ensures
        first_keyed(a, key, upto) == first_keyed(b, key, upto),
    decreases upto,
{
    if 0 < upto <= a.len() {
        lemma_first_keyed_same(a, b, key, upto - 1);
        assert(a[upto - 1].0.value@ == b[upto - 1].0.value@);
    }
}

/// In members that are the same to look at a key names the same member.
pub proof fn lemma_member_named_same(a: Seq<Member>, b: Seq<Member>, key: Seq<char>)
    requires
        same_members(a, b),
    ensures
        member_named(a, key) == member_named(b, key),
        member_named(a, key) matches Some(k) ==> 0 <= k < a.len() && same_node(&a[k].1, &b[k].1),
{
    lemma_first_keyed_same(a, b, key, a.len() as int);
    lemma_first_keyed_bound(a, key, a.len() as int);
    if let Some(k) = member_named(a, key) {
        assert(a[k].0.span == b[k].0.span);
    }
}

/// Members that are the same to look at repeat the same keys.
pub proof fn lemma_duplicates_same(a: Seq<Member>, b: Seq<Member>, upto: int)
    requires
        same_members(a, b),
    ensures
        duplicate_findings(a, upto) == duplicate_findings(b, upto),
    decreases upto,
{
    if 0 < upto <= a.len() {
        lemma_duplicates_same(a, b, upto - 1);
        assert(a[upto - 1].0.value@ == b[upto - 1].0.value@);
        let key = a[upto - 1].0.value@;
        lemma_first_keyed_same(a, b, key, upto - 1);
        lemma_first_keyed_bound(a, key, upto - 1);
        if let Some(first) = first_keyed(a, key, upto - 1) {
            assert(a[first].0.span == b[first].0.span);
        }
    }
}

/// Each entry of `order` is the place of a member.
pub open spec fn places(order: Seq<usize>, n: nat) -> bool {
    forall|p: int| 0 <= p < order.len() ==> (#[trigger] order[p]) < n
}

proof fn lemma_place_from_same(a: Seq<Member>, b: Seq<Member>, order: Seq<usize>, key: Seq<char>, p: int)
    requires
        same_members(a, b),
        places(order, a.len()),
    ensures
        place_from(a, order, key, p) == place_from(b, order, key, p),
        0 <= p <= order.len() ==> p <= place_from(a, order, key, p) <= order.len(),
    decreases order.len() - p,
{
    if 0 <= p < order.len() {
        assert(a[order[p] as int].0.value@ == b[order[p] as int].0.value@);
        lemma_place_from_same(a, b, order, key, p + 1);
    }
}

proof fn lemma_visit_order_same(a: Seq<Member>, b: Seq<Member>, upto: int)
    requires
        same_members(a, b),
    ensures
        visit_order(a, upto) == visit_order(b, upto),
        places(visit_order(a, upto), a.len()),
    decreases upto,
{
    if 0 < upto <= a.len() {
        lemma_visit_order_same(a, b, upto - 1);
        assert(a[upto - 1].0.value@ == b[upto - 1].0.value@);
        let key = a[upto - 1].0.value@;
        let before = visit_order(a, upto - 1);
        lemma_first_keyed_same(a, b, key, upto - 1);
        lemma_place_from_same(a, b, before, key, 0);
        let at = place_from(a, before, key, 0);
        let after = before.insert(at, (upto - 1) as usize);
        assert forall|p: int| 0 <= p < after.len() implies (#[trigger] after[p]) < a.len() by {
            if p < at {
                assert(after[p] == before[p]);
            } else if p > at {
                assert(after[p] == before[p - 1]);
            }
        }
    }
}

proof fn lemma_unknown_between_same(
    a: Seq<Member>,
    b: Seq<Member>,
    order: Seq<usize>,
    known: Seq<Seq<char>>,
    lo: Option<Seq<char>>,
    hi: Option<Seq<char>>,
    upto: int,
)
    requires
        same_members(a, b),
        places(order, a.len()),
    ensures
        unknown_between(a, order, known, lo, hi, upto) == unknown_between(b, order, known, lo, hi, upto),
    decreases upto,
{
    if 0 < upto <= order.len() {
        lemma_unknown_between_same(a, b, order, known, lo, hi, upto - 1);
        let k = order[upto - 1] as int;
        assert(a[k].0.span == b[k].0.span && a[k].0.value@ == b[k].0.value@);
    }
}

/// Members that are the same to look at have the same members that the
/// schema does not know.
pub proof fn lemma_unknown_in_gap_same(
    a: Seq<Member>,
    b: Seq<Member>,
    known: Seq<Seq<char>>,
    lo: Option<Seq<char>>,
    hi: Option<Seq<char>>,
)
    requires
        same_members(a, b),
    ensures
        unknown_in_gap(a, known, lo, hi) == unknown_in_gap(b, known, lo, hi),
{
    reveal(unknown_in_gap);
    lemma_visit_order_same(a, b, a.len() as int);
    lemma_unknown_between_same(a, b, visited(a), known, lo, hi, visited(a).len() as int);
}

/// Members that are the same to look at are visited in the same order.
pub proof fn lemma_visited_same(a: Seq<Member>, b: Seq<Member>)
    requires
        same_members(a, b),
    ensures
        visited(a) == visited(b),
        places(visited(a), a.len()),
{
    lemma_visit_order_same(a, b, a.len() as int);
}

/// The strings `a` and `b` hold the same text at the same place.
pub open spec fn same_text(a: &Spanned<String>, b: &Spanned<String>) -> bool {
    a.span == b.span && a.val@ == b.val@
}

/// The truth values `a` and `b` are the same, at the same place.
pub open spec fn same_flag(a: &Spanned<bool>, b: &Spanned<bool>) -> bool {
    *a == *b
}

/// The counts `a` and `b` are the same, at the same place.
pub open spec fn same_index(a: &Spanned<usize>, b: &Spanned<usize>) -> bool {
    *a == *b
}

/// The numbers `a` and `b` are the same, written the same at the same place.
pub open spec fn same_number(a: &Spanned<Number>, b: &Spanned<Number>) -> bool {
    a.span == b.span && a.val@ == b.val@
}

/// `a` and `b` hold the same counts at the same place.
pub open spec fn same_indices(a: &Spanned<ArrayOrSingleItem<usize>>, b: &Spanned<ArrayOrSingleItem<usize>>) -> bool {
    a.span == b.span && match (a.val, b.val) {
        (ArrayOrSingleItem::SingleItem(x), ArrayOrSingleItem::SingleItem(y)) => x == y,
        (ArrayOrSingleItem::Array(x), ArrayOrSingleItem::Array(y)) => x@ == y@,
        _ => false,
    }
}

/// `a` and `b` hold the same numbers at the same place.
pub open spec fn same_numbers(a: &Spanned<ArrayOrSingleItem<Number>>, b: &Spanned<ArrayOrSingleItem<Number>>) -> bool {
    a.span == b.span && match (a.val, b.val) {
        (ArrayOrSingleItem::SingleItem(x), ArrayOrSingleItem::SingleItem(y)) => x@ == y@,
        (ArrayOrSingleItem::Array(x), ArrayOrSingleItem::Array(y)) => x@.len() == y@.len() && forall|k: int|
            0 <= k < x@.len() ==> (#[trigger] x@[k])@ == y@[k]@,
        _ => false,
    }
}

/// The lists `a` and `b` hold the same strings, each at its place.
pub open spec fn same_names(a: Seq<Spanned<String>>, b: Seq<Spanned<String>>) -> bool {
    a.len() == b.len() && forall|k: int| 0 <= k < a.len() ==> same_text(&#[trigger] a[k], &b[k])
}

/// `a` and `b` hold the same strings at the same place.
pub open spec fn same_texts(a: &Spanned<Vec<Spanned<String>>>, b: &Spanned<Vec<Spanned<String>>>) -> bool {
    a.span == b.span && same_names(a.val@, b.val@)
}

pub proof fn lemma_text_findings_same(a: &Spanned<Json>, b: &Spanned<Json>)
    requires
        same_node(a, b),
    ensures
        text_findings(a) == text_findings(b),
{
    lemma_same_node(a, b);
}

pub proof fn lemma_text_value_same(a: &Spanned<Json>, b: &Spanned<Json>, x: &Spanned<String>, y: &Spanned<String>)
    requires
        same_node(a, b),
        text_value(a, x),
        text_value(b, y),
    ensures
        same_text(x, y),
{
    lemma_same_node(a, b);
}

pub proof fn lemma_flag_findings_same(a: &Spanned<Json>, b: &Spanned<Json>)
    requires
        same_node(a, b),
    ensures
        flag_findings(a) == flag_findings(b),
{
    lemma_same_node(a, b);
}

pub proof fn lemma_flag_value_same(a: &Spanned<Json>, b: &Spanned<Json>, x: &Spanned<bool>, y: &Spanned<bool>)
    requires
        same_node(a, b),
        flag_value(a, x),
        flag_value(b, y),
    ensures
        same_flag(x, y),
{
    lemma_same_node(a, b);
}

pub proof fn lemma_number_findings_same(a: &Spanned<Json>, b: &Spanned<Json>)
    requires
        same_node(a, b),
    ensures
        number_findings(a) == number_findings(b),
{
    lemma_same_node(a, b);
}

pub proof fn lemma_number_value_same(a: &Spanned<Json>, b: &Spanned<Json>, x: &Spanned<Number>, y: &Spanned<Number>)
    requires
        same_node(a, b),
        number_value(a, x),
        number_value(b, y),
    ensures
        same_number(x, y),
{
    lemma_same_node(a, b);
}

pub proof fn lemma_index_findings_same(a: &Spanned<Json>, b: &Spanned<Json>)
    requires
        same_node(a, b),
    ensures
        index_findings(a) == index_findings(b),
{
    lemma_same_node(a, b);
}

pub proof fn lemma_index_value_same(a: &Spanned<Json>, b: &Spanned<Json>, x: &Spanned<usize>, y: &Spanned<usize>)
    requires
        same_node(a, b),
        index_value(a, x),
        index_value(b, y),
    ensures
        same_index(x, y),
{
    lemma_same_node(a, b);
}

proof fn lemma_numbers_among_same(a: Seq<Spanned<Json>>, b: Seq<Spanned<Json>>, upto: int)
    requires
        same_items(a, b),
    ensures
        numbers_among(a, upto) == numbers_among(b, upto),
    decreases upto,
{
    if 0 < upto <= a.len() {
        lemma_numbers_among_same(a, b, upto - 1);
        assert(same_node(&a[upto - 1], &b[upto - 1]));
        lemma_number_findings_same(&a[upto - 1], &b[upto - 1]);
    }
}

pub proof fn lemma_numbers_findings_same(a: &Spanned<Json>, b: &Spanned<Json>)
    requires
        same_node(a, b),
    ensures
        numbers_findings(a) == numbers_findings(b),
{
    lemma_same_node(a, b);
    match (a.val, b.val) {
        (Json::Num(_), Json::Num(_)) => lemma_number_findings_same(a, b),
        (Json::Array(x), Json::Array(y)) => lemma_numbers_among_same(x@, y@, x@.len() as int),
        _ => {},
    }
}

pub proof fn lemma_numbers_value_same(
    a: &Spanned<Json>,
    b: &Spanned<Json>,
    x: &Spanned<ArrayOrSingleItem<Number>>,
    y: &Spanned<ArrayOrSingleItem<Number>>,
)
    requires
        same_node(a, b),
        numbers_value(a, x),
        numbers_value(b, y),
    ensures
        same_numbers(x, y),
{
    lemma_same_node(a, b);
    match (a.val, b.val, x.val, y.val) {
        (Json::Array(s), Json::Array(t), ArrayOrSingleItem::Array(u), ArrayOrSingleItem::Array(v)) => {
            assert forall|k: int| 0 <= k < u@.len() implies (#[trigger] u@[k])@ == v@[k]@ by {
                assert(same_node(&s@[k], &t@[k]));
                lemma_same_node(&s@[k], &t@[k]);
                assert(crate::validate::number_is(&s@[k], &u@[k]));
                assert(crate::validate::number_is(&t@[k], &v@[k]));
            }
        },
        _ => {},
    }
}

proof fn lemma_indices_among_same(a: Seq<Spanned<Json>>, b: Seq<Spanned<Json>>, upto: int)
    requires
        same_items(a, b),
    ensures
        indices_among(a, upto) == indices_among(b, upto),
    decreases upto,
{
    if 0 < upto <= a.len() {
        lemma_indices_among_same(a, b, upto - 1);
        assert(same_node(&a[upto - 1], &b[upto - 1]));
        lemma_index_findings_same(&a[upto - 1], &b[upto - 1]);
    }
}

pub proof fn lemma_indices_findings_same(a: &Spanned<Json>, b: &Spanned<Json>)
    requires
        same_node(a, b),
    ensures
        indices_findings(a) == indices_findings(b),
{
    lemma_same_node(a, b);
    match (a.val, b.val) {
        (Json::Num(_), Json::Num(_)) => lemma_index_findings_same(a, b),
        (Json::Array(x), Json::Array(y)) => lemma_indices_among_same(x@, y@, x@.len() as int),
        _ => {},
    }
}

pub proof fn lemma_indices_value_same(
    a: &Spanned<Json>,
    b: &Spanned<Json>,
    x: &Spanned<ArrayOrSingleItem<usize>>,
    y: &Spanned<ArrayOrSingleItem<usize>>,
)
    requires
        same_node(a, b),
        indices_value(a, x),
        indices_value(b, y),
    ensures
        same_indices(x, y),
{
    lemma_same_node(a, b);
    match (a.val, b.val, x.val, y.val) {
        (Json::Array(s), Json::Array(t), ArrayOrSingleItem::Array(u), ArrayOrSingleItem::Array(v)) => {
            assert forall|k: int| 0 <= k < u@.len() implies #[trigger] u@[k] == v@[k] by {
                assert(same_node(&s@[k], &t@[k]));
                lemma_same_node(&s@[k], &t@[k]);
                assert(crate::validate::index_is(&s@[k], u@[k]));
                assert(crate::validate::index_is(&t@[k], v@[k]));
            }
            assert(u@ =~= v@);
        },
        _ => {},
    }
}

proof fn lemma_texts_among_same(a: Seq<Spanned<Json>>, b: Seq<Spanned<Json>>, upto: int)
    requires
        same_items(a, b),
    ensures
        texts_among(a, upto) == texts_among(b, upto),
    decreases upto,
{
    if 0 < upto <= a.len() {
        lemma_texts_among_same(a, b, upto - 1);
        assert(same_node(&a[upto - 1], &b[upto - 1]));
        lemma_text_findings_same(&a[upto - 1], &b[upto - 1]);
    }
}

pub proof fn lemma_texts_findings_same(a: &Spanned<Json>, b: &Spanned<Json>)
    requires
        same_node(a, b),
    ensures
        texts_findings(a) == texts_findings(b),
{
    lemma_same_node(a, b);
    match (a.val, b.val) {
        (Json::Array(x), Json::Array(y)) => lemma_texts_among_same(x@, y@, x@.len() as int),
        _ => {},
    }
}

pub proof fn lemma_texts_value_same(
    a: &Spanned<Json>,
    b: &Spanned<Json>,
    x: &Spanned<Vec<Spanned<String>>>,
    y: &Spanned<Vec<Spanned<String>>>,
)
    requires
        same_node(a, b),
        texts_value(a, x),
        texts_value(b, y),
    ensures
        same_texts(x, y),
{
    lemma_same_node(a, b);
    match (a.val, b.val) {
        (Json::Array(s), Json::Array(t)) => {
            assert forall|k: int| 0 <= k < x.val@.len() implies same_text(&#[trigger] x.val@[k], &y.val@[k]) by {
                assert(same_node(&s@[k], &t@[k]));
                assert(text_value(&s@[k], &x.val@[k]));
                assert(text_value(&t@[k], &y.val@[k]));
                lemma_text_value_same(&s@[k], &t@[k], &x.val@[k], &y.val@[k]);
            }
        },
        _ => {},
    }
}

} // verus!
