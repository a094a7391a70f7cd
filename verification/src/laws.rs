//! What holds of the decoder and of the lints whatever the document.

use crate::config::{Config, Vocabulary};
use crate::custom_difficulty::{CustomDifficulty, EnemyPool, WeightedRange};
use crate::circuits::elementary_circuits_of;
use crate::json::Json;
use crate::late_lints::cyclic_enemy_descriptor_references::{
    base_graph, cyclic_findings, loop_nodes, proper_cycles,
};
use crate::decoder::{decode_findings, keys_distinct, keys_known, lemma_conforming_document, values_accepted};
use crate::diagnostic::views;
use crate::grammar::syntax_diagnostics;
use crate::pipeline::{Analysis, lint_findings, Status};
use crate::late_lints::ambiguous_enemy_pool_add_remove::{ambiguous_findings, pool_findings};
use crate::late_lints::empty_cd_name::name_is_blank;
use crate::late_lints::min_larger_than_max::{index_bins_findings, min_max_findings, number_bins_findings};
use crate::late_lints::undefined_enemy_descriptors::{
    declaration_order, declared, declared_at, is_defined, numbers_descriptors, place_behind, undefined_among,
    undefined_bases, undefined_findings, undefined_in_pool,
};
use crate::late_lints::unused_custom_enemy_descriptors::{is_custom, is_used, names_include, unused_upto};
use crate::fields::number_field_findings;
use crate::members::{
    duplicate_error, duplicate_findings, first_keyed, lemma_first_keyed_bound, Member, member_named,
};
use crate::number::{digits_value, lemma_pow10_positive, Number, pow10};
use crate::number_laws::{lemma_pow10_add, lemma_pow10_rises, lemma_value_bounds};
use crate::span::Spanned;
use crate::validate::{expectation_error, index_findings, number_findings};
use crate::grammar::document_tree;
use crate::same::{lemma_same_node, same_node};
use crate::same_fields::{lemma_decode_findings_same, lemma_document_object_value_same, same_document};
use crate::same_lints::lemma_lint_findings_same;
use vstd::prelude::*;

verus! {

/// The members at `j` and at `k`, with `j` before `k`, have one key, and
/// no other two members have one key.
pub open spec fn one_key_repeated(members: Seq<Member>, j: int, k: int) -> bool {
    &&& 0 <= j < k < members.len()
    &&& members[j].0.value@ == members[k].0.value@
    &&& forall|a: int, b: int|
        0 <= a < b < members.len() && (a != j || b != k) ==> members[a].0.value@ != members[b].0.value@
}

proof fn lemma_duplicates_upto(members: Seq<Member>, j: int, k: int, upto: int)
    requires
        one_key_repeated(members, j, k),
        0 <= upto <= members.len(),
    ensures
        upto <= k ==> duplicate_findings(members, upto).len() == 0,
        upto > k ==> duplicate_findings(members, upto) == seq![duplicate_error(&members[j].0, &members[k].0)],
    decreases upto,
{
    if upto > 0 {
        lemma_duplicates_upto(members, j, k, upto - 1);
        let key = members[upto - 1].0.value@;
        lemma_first_keyed_bound(members, key, upto - 1);
        if upto - 1 == k {
            lemma_first_keyed_at(members, key, j, upto - 1);
            assert(first_keyed(members, key, upto - 1) == Some(j));
        } else {
            assert(first_keyed(members, key, upto - 1).is_none());
        }
    }
}

/// Where the member at `j` has the key `key`, and no member before it, the
/// first of the first `upto` members with that key is the member at `j`.
proof fn lemma_first_keyed_at(members: Seq<Member>, key: Seq<char>, j: int, upto: int)
    requires
        0 <= j < upto <= members.len(),
        members[j].0.value@ == key,
        forall|a: int| 0 <= a < j ==> members[a].0.value@ != key,
    ensures
        first_keyed(members, key, upto) == Some(j),
    decreases upto,
{
    if upto - 1 > j {
        lemma_first_keyed_at(members, key, j, upto - 1);
    } else {
        lemma_first_keyed_bound(members, key, upto - 1);
    }
}

/// Where one key is repeated once among the members of an object, and no
/// other key is repeated, the members report exactly one error for
/// repetition, and it has two labels.
pub proof fn lemma_one_repetition_one_error(members: Seq<Member>, j: int, k: int)
    requires
        one_key_repeated(members, j, k),
    ensures
        duplicate_findings(members, members.len() as int).len() == 1,
        duplicate_findings(members, members.len() as int)[0].labels.len() == 2,
        duplicate_findings(members, members.len() as int)[0].labels[0].span == members[j].0.span,
        duplicate_findings(members, members.len() as int)[0].labels[1].span == members[k].0.span,
{
    lemma_duplicates_upto(members, j, k, members.len() as int);
}

/// Where no two members have one key, the members report no repetition.
pub proof fn lemma_no_repetition_no_error(members: Seq<Member>, upto: int)
    requires
        0 <= upto <= members.len(),
        forall|a: int, b: int| 0 <= a < b < members.len() ==> members[a].0.value@ != members[b].0.value@,
    ensures
        duplicate_findings(members, upto).len() == 0,
    decreases upto,
{
    if upto > 0 {
        lemma_no_repetition_no_error(members, upto - 1);
        lemma_first_keyed_bound(members, members[upto - 1].0.value@, upto - 1);
    }
}

/// A number that is negative or not finite, given where the schema asks
/// for a number, is reported by exactly one diagnostic, which cites the
/// number as it was written.
pub proof fn lemma_number_out_of_domain(node: &Spanned<Json>)
    requires
        node.val matches Json::Num(n) && (n.negative || !n.finite()),
    ensures
        number_findings(node).len() == 1,
        number_findings(node)[0] == expectation_error(
            node.span,
            "a finite number that is not negative"@,
            node.val->Num_0.text@,
        ),
{
}

/// A member that the schema asks a number of, and that gives a number
/// which is negative or not finite, is reported by exactly one diagnostic,
/// which cites the number as it was written.
pub proof fn lemma_number_field_out_of_domain(members: Seq<Member>, key: Seq<char>, k: int)
    requires
        member_named(members, key) == Some(k),
        members[k].1.val matches Json::Num(n) && (n.negative || !n.finite()),
    ensures
        number_field_findings(members, key) == seq![
            expectation_error(
                members[k].1.span,
                "a finite number that is not negative"@,
                members[k].1.val->Num_0.text@,
            ),
        ],
{
    reveal(number_field_findings);
    lemma_number_out_of_domain(&members[k].1);
    assert(number_field_findings(members, key) == number_findings(&members[k].1));
    assert(number_findings(&members[k].1) =~= seq![number_findings(&members[k].1)[0]]);
}

/// A number that is negative or not finite, given where the schema asks
/// for a count, is reported by exactly one diagnostic, which cites the
/// number as it was written.
pub proof fn lemma_count_out_of_domain(node: &Spanned<Json>)
    requires
        node.val matches Json::Num(n) && n.wf() && (n.negative || !n.finite()),
    ensures
        index_findings(node) == seq![
            expectation_error(node.span, "a whole number that is not negative"@, node.val->Num_0.text@),
        ],
{
    let n = node.val->Num_0;
    let digits = n.digits@;
    if !n.negative && n.exponent >= digits.len() {
        let rest = (n.exponent - digits.len()) as nat;
        let low = (digits.len() - 1) as nat;
        lemma_value_bounds(digits);
        lemma_pow10_add(low, rest);
        lemma_pow10_rises(20, low + rest);
        lemma_pow10_positive(rest);
        assert(pow10(20) == 100000000000000000000) by {
            reveal_with_fuel(pow10, 21);
        }
        assert(digits_value(digits) * pow10(rest) >= pow10(low) * pow10(rest)) by (nonlinear_arith)
            requires
                digits_value(digits) >= pow10(low),
                pow10(rest) > 0,
        ;
    }
    assert(index_findings(node) =~= seq![
        expectation_error(node.span, "a whole number that is not negative"@, n.text@),
    ]);
}

/// A number that is finite and not negative is not reported.
pub proof fn lemma_number_in_domain(node: &Spanned<Json>)
    requires
        node.val matches Json::Num(n) && !n.negative && n.finite(),
    ensures
        number_findings(node).len() == 0,
{
}

/// Every name of `names` is a defined descriptor.
pub open spec fn all_defined(
    config: &Config,
    vocabulary: &Vocabulary,
    cd: &CustomDifficulty,
    names: Seq<Spanned<String>>,
) -> bool {
    forall|k: int| 0 <= k < names.len() ==> is_defined(config, vocabulary, cd, (#[trigger] names[k]).val@)
}

/// What `pool` adds and removes is defined.
pub open spec fn pool_defined(config: &Config, vocabulary: &Vocabulary, cd: &CustomDifficulty, pool: &EnemyPool) -> bool {
    all_defined(config, vocabulary, cd, pool.add.val@) && all_defined(config, vocabulary, cd, pool.remove.val@)
}

/// Every "Base" and every entry of a pool names a defined descriptor.
pub open spec fn references_defined(config: &Config, vocabulary: &Vocabulary, cd: &CustomDifficulty) -> bool {
    &&& forall|k: int|
        0 <= k < cd.enemy_descriptors.val@.len() ==> is_defined(
            config,
            vocabulary,
            cd,
            (#[trigger] cd.enemy_descriptors.val@[k]).1.val.base.val@,
        )
    &&& pool_defined(config, vocabulary, cd, &cd.enemy_pool.val)
    &&& pool_defined(config, vocabulary, cd, &cd.common_enemies.val)
    &&& pool_defined(config, vocabulary, cd, &cd.disruptive_enemies.val)
    &&& pool_defined(config, vocabulary, cd, &cd.special_enemies.val)
    &&& pool_defined(config, vocabulary, cd, &cd.stationary_enemies.val)
}

/// `pool` removes nothing that it adds.
pub open spec fn pool_unambiguous(pool: &EnemyPool) -> bool {
    forall|k: int|
        0 <= k < pool.add.val@.len() ==> !names_include(pool.remove.val@, (#[trigger] pool.add.val@[k]).val@)
}

/// No pool removes what it adds.
pub open spec fn pools_unambiguous(cd: &CustomDifficulty) -> bool {
    &&& pool_unambiguous(&cd.enemy_pool.val)
    &&& pool_unambiguous(&cd.common_enemies.val)
    &&& pool_unambiguous(&cd.disruptive_enemies.val)
    &&& pool_unambiguous(&cd.special_enemies.val)
    &&& pool_unambiguous(&cd.stationary_enemies.val)
}

/// In each of `bins` the least value does not exceed the greatest.
pub open spec fn index_bins_ordered(bins: &Spanned<Vec<Spanned<WeightedRange<usize>>>>) -> bool {
    forall|k: int|
        0 <= k < bins.val@.len() ==> (#[trigger] bins.val@[k]).val.range.val.min.val
            <= bins.val@[k].val.range.val.max.val
}

/// In each of `bins` the least value does not exceed the greatest.
pub open spec fn number_bins_ordered(bins: &Spanned<Vec<Spanned<WeightedRange<Number>>>>) -> bool {
    forall|k: int|
        0 <= k < bins.val@.len() ==> !(#[trigger] bins.val@[k]).val.range.val.max.val.lt(
            &bins.val@[k].val.range.val.min.val,
        )
}

/// In no range of `cd` does the least value exceed the greatest.
pub open spec fn ranges_ordered(cd: &CustomDifficulty) -> bool {
    &&& index_bins_ordered(&cd.encounter_difficulty)
    &&& index_bins_ordered(&cd.stationary_difficulty)
    &&& index_bins_ordered(&cd.enemy_wave_interval)
    &&& index_bins_ordered(&cd.enemy_normal_wave_interval)
    &&& index_bins_ordered(&cd.enemy_normal_wave_difficulty)
    &&& index_bins_ordered(&cd.enemy_diversity)
    &&& index_bins_ordered(&cd.stationary_enemy_diversity)
    &&& number_bins_ordered(&cd.veteran_normal)
    &&& number_bins_ordered(&cd.veteran_large)
    &&& cd.disruptive_enemy_pool_count.val.min.val <= cd.disruptive_enemy_pool_count.val.max.val
    &&& cd.min_pool_size.val.min.val <= cd.min_pool_size.val.max.val
}

/// Every custom descriptor of `cd` is added or removed by a pool.
pub open spec fn descriptors_used(config: &Config, vocabulary: &Vocabulary, cd: &CustomDifficulty) -> bool {
    forall|k: int|
        0 <= k < cd.enemy_descriptors.val@.len() ==> !is_custom(
            config,
            vocabulary,
            (#[trigger] cd.enemy_descriptors.val@[k]).0.val@,
        ) || is_used(cd, cd.enemy_descriptors.val@[k].0.val@)
}

/// The "Base" references of `cd` have no circuit, not even a descriptor
/// that names itself.
pub open spec fn bases_acyclic(config: &Config, vocabulary: &Vocabulary, cd: &CustomDifficulty) -> bool {
    elementary_circuits_of(base_graph(config, vocabulary, cd)).len() == 0
}

/// `cd` has nothing that a lint reports.
pub open spec fn is_clean(config: &Config, vocabulary: &Vocabulary, cd: &CustomDifficulty) -> bool {
    &&& !name_is_blank(cd)
    &&& references_defined(config, vocabulary, cd)
    &&& ranges_ordered(cd)
    &&& descriptors_used(config, vocabulary, cd)
    &&& pools_unambiguous(cd)
    &&& bases_acyclic(config, vocabulary, cd)
}

proof fn lemma_defined_names(
    config: &Config,
    vocabulary: &Vocabulary,
    cd: &CustomDifficulty,
    names: Seq<Spanned<String>>,
    upto: int,
)
    requires
        all_defined(config, vocabulary, cd, names),
        0 <= upto <= names.len(),
    ensures
        undefined_among(config, vocabulary, cd, names, upto).len() == 0,
    decreases upto,
{
    if upto > 0 {
        lemma_defined_names(config, vocabulary, cd, names, upto - 1);
        assert(is_defined(config, vocabulary, cd, names[upto - 1].val@));
    }
}

proof fn lemma_defined_pool(config: &Config, vocabulary: &Vocabulary, cd: &CustomDifficulty, pool: &EnemyPool)
    requires
        pool_defined(config, vocabulary, cd, pool),
    ensures
        undefined_in_pool(config, vocabulary, cd, pool).len() == 0,
{
    lemma_defined_names(config, vocabulary, cd, pool.add.val@, pool.add.val@.len() as int);
    lemma_defined_names(config, vocabulary, cd, pool.remove.val@, pool.remove.val@.len() as int);
}

proof fn lemma_defined_bases(
    config: &Config,
    vocabulary: &Vocabulary,
    cd: &CustomDifficulty,
    order: Seq<usize>,
    upto: int,
)
    requires
        references_defined(config, vocabulary, cd),
        numbers_descriptors(cd, order),
        0 <= upto <= order.len(),
    ensures
        undefined_bases(config, vocabulary, cd, order, upto).len() == 0,
    decreases upto,
{
    if upto > 0 {
        lemma_defined_bases(config, vocabulary, cd, order, upto - 1);
        let k = order[upto - 1] as int;
        assert(is_defined(config, vocabulary, cd, cd.enemy_descriptors.val@[k].1.val.base.val@));
    }
}

/// The order of declaration numbers descriptors.
proof fn lemma_declaration_order(cd: &CustomDifficulty, upto: int)
    requires
        0 <= upto <= cd.enemy_descriptors.val@.len(),
        cd.enemy_descriptors.val@.len() <= usize::MAX,
    ensures
        numbers_descriptors(cd, declaration_order(cd, upto)),
    decreases upto,
{
    if upto > 0 {
        lemma_declaration_order(cd, upto - 1);
        let before = declaration_order(cd, upto - 1);
        let after = declaration_order(cd, upto);
        let r = place_behind(cd, before, declared_at(cd, upto - 1), 0);
        lemma_place_behind(cd, before, declared_at(cd, upto - 1), 0);
        assert forall|q: int| 0 <= q < after.len() implies (#[trigger] after[q]) < cd.enemy_descriptors.val@.len() by {
            if q < r {
                assert(after[q] == before[q]);
            } else if q > r {
                assert(after[q] == before[q - 1]);
            }
        }
    }
}

proof fn lemma_place_behind(cd: &CustomDifficulty, order: Seq<usize>, at: usize, p: int)
    requires
        0 <= p <= order.len(),
    ensures
        p <= place_behind(cd, order, at, p) <= order.len(),
    decreases order.len() - p,
{
    if p < order.len() && declared_at(cd, order[p] as int) <= at {
        lemma_place_behind(cd, order, at, p + 1);
    }
}

proof fn lemma_unambiguous_pool(pool: &EnemyPool, upto: int)
    requires
        pool_unambiguous(pool),
        0 <= upto <= pool.add.val@.len(),
    ensures
        pool_findings(pool, upto).len() == 0,
    decreases upto,
{
    if upto > 0 {
        lemma_unambiguous_pool(pool, upto - 1);
        assert(!names_include(pool.remove.val@, pool.add.val@[upto - 1].val@));
    }
}

proof fn lemma_ordered_index_bins(bins: &Spanned<Vec<Spanned<WeightedRange<usize>>>>, upto: int)
    requires
        index_bins_ordered(bins),
        0 <= upto <= bins.val@.len(),
    ensures
        index_bins_findings(bins.val@, upto).len() == 0,
    decreases upto,
{
    if upto > 0 {
        lemma_ordered_index_bins(bins, upto - 1);
        assert(bins.val@[upto - 1].val.range.val.min.val <= bins.val@[upto - 1].val.range.val.max.val);
    }
}

proof fn lemma_ordered_number_bins(bins: &Spanned<Vec<Spanned<WeightedRange<Number>>>>, upto: int)
    requires
        number_bins_ordered(bins),
        0 <= upto <= bins.val@.len(),
    ensures
        number_bins_findings(bins.val@, upto).len() == 0,
    decreases upto,
{
    if upto > 0 {
        lemma_ordered_number_bins(bins, upto - 1);
        assert(!bins.val@[upto - 1].val.range.val.max.val.lt(&bins.val@[upto - 1].val.range.val.min.val));
    }
}

proof fn lemma_used_descriptors(config: &Config, vocabulary: &Vocabulary, cd: &CustomDifficulty, upto: int)
    requires
        descriptors_used(config, vocabulary, cd),
        0 <= upto <= cd.enemy_descriptors.val@.len(),
    ensures
        unused_upto(config, vocabulary, cd, upto).len() == 0,
    decreases upto,
{
    if upto > 0 {
        lemma_used_descriptors(config, vocabulary, cd, upto - 1);
        let name = cd.enemy_descriptors.val@[upto - 1].0.val@;
        assert(!is_custom(config, vocabulary, name) || is_used(cd, name));
    }
}

/// No lint reports a clean document.
pub proof fn lemma_clean_document_has_no_findings(config: &Config, vocabulary: &Vocabulary, cd: &CustomDifficulty)
    requires
        is_clean(config, vocabulary, cd),
    ensures
        lint_findings(config, vocabulary, cd).len() == 0,
{
    reveal(lint_findings);
    assert(cd.enemy_descriptors.val@.len() == cd.enemy_descriptors.val.len());
    lemma_declaration_order(cd, cd.enemy_descriptors.val@.len() as int);
    lemma_defined_bases(config, vocabulary, cd, declared(cd), declared(cd).len() as int);
    lemma_defined_pool(config, vocabulary, cd, &cd.enemy_pool.val);
    lemma_defined_pool(config, vocabulary, cd, &cd.common_enemies.val);
    lemma_defined_pool(config, vocabulary, cd, &cd.disruptive_enemies.val);
    lemma_defined_pool(config, vocabulary, cd, &cd.special_enemies.val);
    lemma_defined_pool(config, vocabulary, cd, &cd.stationary_enemies.val);
    assert(undefined_findings(config, vocabulary, cd).len() == 0);
    lemma_ordered_index_bins(&cd.encounter_difficulty, cd.encounter_difficulty.val@.len() as int);
    lemma_ordered_index_bins(&cd.stationary_difficulty, cd.stationary_difficulty.val@.len() as int);
    lemma_ordered_index_bins(&cd.enemy_wave_interval, cd.enemy_wave_interval.val@.len() as int);
    lemma_ordered_index_bins(&cd.enemy_normal_wave_interval, cd.enemy_normal_wave_interval.val@.len() as int);
    lemma_ordered_index_bins(
        &cd.enemy_normal_wave_difficulty,
        cd.enemy_normal_wave_difficulty.val@.len() as int,
    );
    lemma_ordered_index_bins(&cd.enemy_diversity, cd.enemy_diversity.val@.len() as int);
    lemma_ordered_index_bins(&cd.stationary_enemy_diversity, cd.stationary_enemy_diversity.val@.len() as int);
    lemma_ordered_number_bins(&cd.veteran_normal, cd.veteran_normal.val@.len() as int);
    lemma_ordered_number_bins(&cd.veteran_large, cd.veteran_large.val@.len() as int);
    assert(min_max_findings(cd).len() == 0);
    lemma_used_descriptors(config, vocabulary, cd, cd.enemy_descriptors.val@.len() as int);
    lemma_unambiguous_pool(&cd.enemy_pool.val, cd.enemy_pool.val.add.val@.len() as int);
    lemma_unambiguous_pool(&cd.common_enemies.val, cd.common_enemies.val.add.val@.len() as int);
    lemma_unambiguous_pool(&cd.disruptive_enemies.val, cd.disruptive_enemies.val.add.val@.len() as int);
    lemma_unambiguous_pool(&cd.special_enemies.val, cd.special_enemies.val.add.val@.len() as int);
    lemma_unambiguous_pool(&cd.stationary_enemies.val, cd.stationary_enemies.val.add.val@.len() as int);
    assert(ambiguous_findings(cd).len() == 0);
    let circuits = elementary_circuits_of(base_graph(config, vocabulary, cd));
    assert(loop_nodes(circuits, 0).len() == 0);
    assert(proper_cycles(circuits, 0).len() == 0);
    assert(cyclic_findings(config, vocabulary, cd).len() == 0);
}

/// The analysis of a valid document without semantic issues has no
/// diagnostics: where the parser and the decoder report nothing of a text,
/// and the document decoded is clean, nothing at all is reported.
pub proof fn lemma_valid_document_has_no_diagnostics(
    analysis: &Analysis,
    text: Seq<char>,
    config: &Config,
    vocabulary: &Vocabulary,
)
    requires
        analysis.is_of(text, config, vocabulary),
        analysis.status == Status::Complete,
        syntax_diagnostics(text).len() == 0,
        decode_findings(&analysis.tree->0, vocabulary).len() == 0,
        is_clean(config, vocabulary, &analysis.custom_difficulty->0),
    ensures
        analysis.diagnostics@.len() == 0,
{
    lemma_clean_document_has_no_findings(config, vocabulary, &analysis.custom_difficulty->0);
    assert(views(analysis.diagnostics@).len() == 0);
}

/// The analysis of a document that conforms to the schema and is clean has
/// no diagnostics: where the text is read without a diagnostic, no two
/// members of the document have one key, every key is a key of the
/// document, every value is accepted, and the document decoded is clean,
/// nothing is reported.
pub proof fn lemma_conforming_clean_document_has_no_diagnostics(
    analysis: &Analysis,
    text: Seq<char>,
    config: &Config,
    vocabulary: &Vocabulary,
)
    requires
        analysis.is_of(text, config, vocabulary),
        analysis.status == Status::Complete,
        syntax_diagnostics(text).len() == 0,
        analysis.tree matches Some(tree) && (tree.val matches Json::Object(members) && keys_distinct(
            members@,
        ) && keys_known(members@) && values_accepted(members@, vocabulary)),
        is_clean(config, vocabulary, &analysis.custom_difficulty->0),
    ensures
        analysis.diagnostics@.len() == 0,
{
    let tree = analysis.tree->0;
    let members = tree.val->Object_0;
    assert(members@.len() == members.len());
    lemma_conforming_document(members@, vocabulary);
    lemma_valid_document_has_no_diagnostics(analysis, text, config, vocabulary);
}

/// Two analyses of one text, with the same options and names, report the
/// same, in the same order. They come as far as each other, their trees
/// and their documents are the same to look at, and where they draw the
/// graph they draw the same.
pub proof fn lemma_analysis_is_repeatable(
    first: &Analysis,
    second: &Analysis,
    text: Seq<char>,
    config: &Config,
    vocabulary: &Vocabulary,
)
    requires
        first.is_of(text, config, vocabulary),
        second.is_of(text, config, vocabulary),
    ensures
        first.status == second.status,
        views(first.diagnostics@) == views(second.diagnostics@),
        match (first.tree, second.tree) {
            (Some(s), Some(t)) => same_node(&s, &t),
            (None, None) => true,
            _ => false,
        },
        match (first.custom_difficulty, second.custom_difficulty) {
            (Some(c), Some(d)) => same_document(&c, &d),
            (None, None) => true,
            _ => false,
        },
        match (first.drawing, second.drawing) {
            (Some(x), Some(y)) => x@ == y@,
            (None, None) => true,
            _ => false,
        },
{
    if document_tree(text).is_some() {
        let s = first.tree->0;
        let t = second.tree->0;
        lemma_same_node(&s, &t);
        lemma_decode_findings_same(&s, &t, vocabulary);
        if s.val is Object {
            let c = first.custom_difficulty->0;
            let d = second.custom_difficulty->0;
            lemma_document_object_value_same(s.val->Object_0@, t.val->Object_0@, &c, &d, vocabulary);
            lemma_lint_findings_same(config, vocabulary, &c, &d);
        }
    }
}

} // verus!
