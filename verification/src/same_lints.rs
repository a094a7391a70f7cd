//! What the lints report of documents that are the same to look at is
//! the same.

use crate::config::{Config, Vocabulary};
use crate::custom_difficulty::{CustomDifficulty, EnemyPool, Range, WeightedRange};
use crate::descriptors::Named;
use crate::late_lints::ambiguous_enemy_pool_add_remove::{ambiguous_findings, first_named, pool_findings};
use crate::late_lints::cyclic_enemy_descriptor_references::{
    base_edges, base_graph, base_graph_drawing, cycle_errors, cyclic_findings, descriptor_names,
    first_descriptor, interactions, interactions_of, vertices,
};
use crate::late_lints::empty_cd_name::empty_cd_name_findings;
use crate::late_lints::min_larger_than_max::{
    index_bins, index_bins_findings, min_max_findings, number_bins, number_bins_findings,
    number_range_findings,
};
use crate::late_lints::undefined_enemy_descriptors::{
    declaration_order, declared, declared_at, defined_names, defines, known_names, numbers_descriptors,
    place_behind, undefined_among, undefined_bases, undefined_findings, undefined_in_pool,
};
use crate::late_lints::unused_custom_enemy_descriptors::{
    is_used, pool_refers_to, unused_findings, unused_upto,
};
use crate::number::Number;
use crate::pipeline::lint_findings;
use crate::same::{same_names, same_text};
use crate::same_fields::{
    same_document, same_index_bins, same_index_range, same_number_bins, same_number_range, same_pool_object,
    same_weighted_index_range, same_weighted_number_range,
};
use crate::span::Spanned;
use vstd::prelude::*;

verus! {

/// The descriptors `x` and `y` have the same name and the same "Base",
/// and stand at the same place.
pub open spec fn alike(x: &Named, y: &Named) -> bool {
    same_text(&x.0, &y.0) && x.1.span == y.1.span && same_text(&x.1.val.base, &y.1.val.base)
}

/// The descriptors of `a` and of `b` are alike, each at its place.
pub open spec fn same_declarations(a: &CustomDifficulty, b: &CustomDifficulty) -> bool {
    &&& a.enemy_descriptors.span == b.enemy_descriptors.span
    &&& a.enemy_descriptors.val@.len() == b.enemy_descriptors.val@.len()
    &&& forall|k: int|
        0 <= k < a.enemy_descriptors.val@.len() ==> alike(
            &#[trigger] a.enemy_descriptors.val@[k],
            &b.enemy_descriptors.val@[k],
        )
}

/// What the lints read of the pools of `a` and of `b` is the same.
pub open spec fn same_pools(a: &CustomDifficulty, b: &CustomDifficulty) -> bool {
    &&& same_pool_object(&a.enemy_pool.val, &b.enemy_pool.val)
    &&& same_pool_object(&a.common_enemies.val, &b.common_enemies.val)
    &&& same_pool_object(&a.disruptive_enemies.val, &b.disruptive_enemies.val)
    &&& same_pool_object(&a.special_enemies.val, &b.special_enemies.val)
    &&& same_pool_object(&a.stationary_enemies.val, &b.stationary_enemies.val)
}

/// Documents that are the same to look at declare descriptors that are
/// alike, and have the same pools.
pub proof fn lemma_same_declarations(a: &CustomDifficulty, b: &CustomDifficulty)
    requires
        same_document(a, b),
    ensures
        same_declarations(a, b),
        same_pools(a, b),
{
    let x = a.enemy_descriptors.val@;
    let y = b.enemy_descriptors.val@;
    assert forall|k: int| 0 <= k < x.len() implies alike(&#[trigger] x[k], &y[k]) by {
        assert(same_text(&x[k].0, &y[k].0));
    }
}

proof fn lemma_first_named_same(x: Seq<Spanned<String>>, y: Seq<Spanned<String>>, name: Seq<char>, upto: int)
    requires
        same_names(x, y),
    ensures
        first_named(x, name, upto) == first_named(y, name, upto),
        first_named(x, name, upto) matches Some(k) ==> 0 <= k < x.len() && x[k].span == y[k].span,
    decreases upto,
{
    if 0 < upto <= x.len() {
        lemma_first_named_same(x, y, name, upto - 1);
        assert(same_text(&x[upto - 1], &y[upto - 1]));
    }
}

proof fn lemma_pool_findings_same(a: &EnemyPool, b: &EnemyPool, upto: int)
    requires
        same_pool_object(a, b),
    ensures
        pool_findings(a, upto) == pool_findings(b, upto),
    decreases upto,
{
    if 0 < upto <= a.add.val@.len() {
        lemma_pool_findings_same(a, b, upto - 1);
        assert(same_text(&a.add.val@[upto - 1], &b.add.val@[upto - 1]));
        lemma_first_named_same(
            a.remove.val@,
            b.remove.val@,
            a.add.val@[upto - 1].val@,
            a.remove.val@.len() as int,
        );
    }
}

/// Documents with the same pools have the same ambiguous entries.
pub proof fn lemma_ambiguous_same(a: &CustomDifficulty, b: &CustomDifficulty)
    requires
        same_pools(a, b),
    ensures
        ambiguous_findings(a) == ambiguous_findings(b),
{
    lemma_pool_findings_same(&a.enemy_pool.val, &b.enemy_pool.val, a.enemy_pool.val.add.val@.len() as int);
    lemma_pool_findings_same(
        &a.common_enemies.val,
        &b.common_enemies.val,
        a.common_enemies.val.add.val@.len() as int,
    );
    lemma_pool_findings_same(
        &a.disruptive_enemies.val,
        &b.disruptive_enemies.val,
        a.disruptive_enemies.val.add.val@.len() as int,
    );
    lemma_pool_findings_same(
        &a.special_enemies.val,
        &b.special_enemies.val,
        a.special_enemies.val.add.val@.len() as int,
    );
    lemma_pool_findings_same(
        &a.stationary_enemies.val,
        &b.stationary_enemies.val,
        a.stationary_enemies.val.add.val@.len() as int,
    );
}

proof fn lemma_index_bins_same(
    x: Seq<Spanned<WeightedRange<usize>>>,
    y: Seq<Spanned<WeightedRange<usize>>>,
    upto: int,
)
    requires
        x.len() == y.len(),
        forall|k: int| 0 <= k < x.len() ==> same_weighted_index_range(&#[trigger] x[k], &y[k]),
    ensures
        index_bins_findings(x, upto) == index_bins_findings(y, upto),
    decreases upto,
{
    if 0 < upto <= x.len() {
        lemma_index_bins_same(x, y, upto - 1);
        assert(same_weighted_index_range(&x[upto - 1], &y[upto - 1]));
    }
}

proof fn lemma_number_range_same(x: &Spanned<Range<Number>>, y: &Spanned<Range<Number>>)
    requires
        same_number_range(x, y),
    ensures
        number_range_findings(x) == number_range_findings(y),
{
}

proof fn lemma_number_bins_same(
    x: Seq<Spanned<WeightedRange<Number>>>,
    y: Seq<Spanned<WeightedRange<Number>>>,
    upto: int,
)
    requires
        x.len() == y.len(),
        forall|k: int| 0 <= k < x.len() ==> same_weighted_number_range(&#[trigger] x[k], &y[k]),
    ensures
        number_bins_findings(x, upto) == number_bins_findings(y, upto),
    decreases upto,
{
    if 0 < upto <= x.len() {
        lemma_number_bins_same(x, y, upto - 1);
        assert(same_weighted_number_range(&x[upto - 1], &y[upto - 1]));
        lemma_number_range_same(&x[upto - 1].val.range, &y[upto - 1].val.range);
    }
}

proof fn lemma_index_bins_field_same(
    x: &Spanned<Vec<Spanned<WeightedRange<usize>>>>,
    y: &Spanned<Vec<Spanned<WeightedRange<usize>>>>,
)
    requires
        same_index_bins(x, y),
    ensures
        index_bins(x) == index_bins(y),
{
    lemma_index_bins_same(x.val@, y.val@, x.val@.len() as int);
}

proof fn lemma_number_bins_field_same(
    x: &Spanned<Vec<Spanned<WeightedRange<Number>>>>,
    y: &Spanned<Vec<Spanned<WeightedRange<Number>>>>,
)
    requires
        same_number_bins(x, y),
    ensures
        number_bins(x) == number_bins(y),
{
    lemma_number_bins_same(x.val@, y.val@, x.val@.len() as int);
}

/// Documents that are the same to look at have the same ranges whose
/// `min` exceeds their `max`.
pub proof fn lemma_min_max_same(a: &CustomDifficulty, b: &CustomDifficulty)
    requires
        same_document(a, b),
    ensures
        min_max_findings(a) == min_max_findings(b),
{
    lemma_index_bins_field_same(&a.encounter_difficulty, &b.encounter_difficulty);
    lemma_index_bins_field_same(&a.stationary_difficulty, &b.stationary_difficulty);
    lemma_index_bins_field_same(&a.enemy_wave_interval, &b.enemy_wave_interval);
    lemma_index_bins_field_same(&a.enemy_normal_wave_interval, &b.enemy_normal_wave_interval);
    lemma_index_bins_field_same(&a.enemy_normal_wave_difficulty, &b.enemy_normal_wave_difficulty);
    lemma_index_bins_field_same(&a.enemy_diversity, &b.enemy_diversity);
    lemma_index_bins_field_same(&a.stationary_enemy_diversity, &b.stationary_enemy_diversity);
    lemma_number_bins_field_same(&a.veteran_normal, &b.veteran_normal);
    lemma_number_bins_field_same(&a.veteran_large, &b.veteran_large);
    assert(same_index_range(&a.disruptive_enemy_pool_count, &b.disruptive_enemy_pool_count));
    assert(same_index_range(&a.min_pool_size, &b.min_pool_size));
}

proof fn lemma_pool_refers_same(x: &EnemyPool, y: &EnemyPool, name: Seq<char>)
    requires
        same_pool_object(x, y),
    ensures
        pool_refers_to(x, name) == pool_refers_to(y, name),
{
    lemma_first_named_same(x.add.val@, y.add.val@, name, x.add.val@.len() as int);
    lemma_first_named_same(x.remove.val@, y.remove.val@, name, x.remove.val@.len() as int);
}

proof fn lemma_is_used_same(a: &CustomDifficulty, b: &CustomDifficulty, name: Seq<char>)
    requires
        same_pools(a, b),
    ensures
        is_used(a, name) == is_used(b, name),
{
    lemma_pool_refers_same(&a.enemy_pool.val, &b.enemy_pool.val, name);
    lemma_pool_refers_same(&a.common_enemies.val, &b.common_enemies.val, name);
    lemma_pool_refers_same(&a.disruptive_enemies.val, &b.disruptive_enemies.val, name);
    lemma_pool_refers_same(&a.special_enemies.val, &b.special_enemies.val, name);
    lemma_pool_refers_same(&a.stationary_enemies.val, &b.stationary_enemies.val, name);
}

proof fn lemma_unused_upto_same(
    config: &Config,
    vocabulary: &Vocabulary,
    a: &CustomDifficulty,
    b: &CustomDifficulty,
    upto: int,
)
    requires
        same_declarations(a, b),
        same_pools(a, b),
    ensures
        unused_upto(config, vocabulary, a, upto) == unused_upto(config, vocabulary, b, upto),
    decreases upto,
{
    if 0 < upto <= a.enemy_descriptors.val@.len() {
        lemma_unused_upto_same(config, vocabulary, a, b, upto - 1);
        assert(alike(&a.enemy_descriptors.val@[upto - 1], &b.enemy_descriptors.val@[upto - 1]));
        lemma_is_used_same(a, b, a.enemy_descriptors.val@[upto - 1].0.val@);
    }
}

/// Documents with descriptors that are alike and the same pools have the
/// same unused descriptors.
pub proof fn lemma_unused_same(config: &Config, vocabulary: &Vocabulary, a: &CustomDifficulty, b: &CustomDifficulty)
    requires
        same_declarations(a, b),
        same_pools(a, b),
    ensures
        unused_findings(config, vocabulary, a) == unused_findings(config, vocabulary, b),
{
    lemma_unused_upto_same(config, vocabulary, a, b, a.enemy_descriptors.val@.len() as int);
}

proof fn lemma_defines_same(a: &CustomDifficulty, b: &CustomDifficulty, name: Seq<char>, upto: int)
    requires
        same_declarations(a, b),
    ensures
        defines(a, name, upto) == defines(b, name, upto),
    decreases upto,
{
    if 0 < upto <= a.enemy_descriptors.val@.len() {
        lemma_defines_same(a, b, name, upto - 1);
        assert(alike(&a.enemy_descriptors.val@[upto - 1], &b.enemy_descriptors.val@[upto - 1]));
    }
}

proof fn lemma_known_names_same(config: &Config, vocabulary: &Vocabulary, a: &CustomDifficulty, b: &CustomDifficulty)
    requires
        same_declarations(a, b),
    ensures
        defined_names(a) == defined_names(b),
        descriptor_names(a) == descriptor_names(b),
        known_names(config, vocabulary, a) == known_names(config, vocabulary, b),
        vertices(config, vocabulary, a) == vertices(config, vocabulary, b),
{
    assert forall|k: int| 0 <= k < a.enemy_descriptors.val@.len() implies a.enemy_descriptors.val@[k].0.val@
        == b.enemy_descriptors.val@[k].0.val@ by {
        assert(alike(&a.enemy_descriptors.val@[k], &b.enemy_descriptors.val@[k]));
    }
    assert(defined_names(a) =~= defined_names(b));
    assert(descriptor_names(a) =~= descriptor_names(b));
}

proof fn lemma_place_behind_same(a: &CustomDifficulty, b: &CustomDifficulty, order: Seq<usize>, at: usize, p: int)
    requires
        same_declarations(a, b),
        numbers_descriptors(a, order),
    ensures
        place_behind(a, order, at, p) == place_behind(b, order, at, p),
        0 <= p <= order.len() ==> p <= place_behind(a, order, at, p) <= order.len(),
    decreases order.len() - p,
{
    if 0 <= p < order.len() {
        assert(alike(&a.enemy_descriptors.val@[order[p] as int], &b.enemy_descriptors.val@[order[p] as int]));
        lemma_place_behind_same(a, b, order, at, p + 1);
    }
}

proof fn lemma_declaration_order_same(a: &CustomDifficulty, b: &CustomDifficulty, upto: int)
    requires
        same_declarations(a, b),
    ensures
        declaration_order(a, upto) == declaration_order(b, upto),
        numbers_descriptors(a, declaration_order(a, upto)),
    decreases upto,
{
    if 0 < upto <= a.enemy_descriptors.val@.len() {
        lemma_declaration_order_same(a, b, upto - 1);
        assert(alike(&a.enemy_descriptors.val@[upto - 1], &b.enemy_descriptors.val@[upto - 1]));
        let before = declaration_order(a, upto - 1);
        let at = declared_at(a, upto - 1);
        lemma_place_behind_same(a, b, before, at, 0);
        let p = place_behind(a, before, at, 0);
        let after = before.insert(p, (upto - 1) as usize);
        assert forall|q: int| 0 <= q < after.len() implies (#[trigger] after[q]) < a.enemy_descriptors.val@.len() by {
            if q < p {
                assert(after[q] == before[q]);
            } else if q > p {
                assert(after[q] == before[q - 1]);
            }
        }
    }
}

proof fn lemma_undefined_bases_same(
    config: &Config,
    vocabulary: &Vocabulary,
    a: &CustomDifficulty,
    b: &CustomDifficulty,
    order: Seq<usize>,
    upto: int,
)
    requires
        same_declarations(a, b),
        numbers_descriptors(a, order),
    ensures
        undefined_bases(config, vocabulary, a, order, upto) == undefined_bases(config, vocabulary, b, order, upto),
    decreases upto,
{
    if 0 < upto <= order.len() {
        lemma_undefined_bases_same(config, vocabulary, a, b, order, upto - 1);
        let k = order[upto - 1] as int;
        assert(alike(&a.enemy_descriptors.val@[k], &b.enemy_descriptors.val@[k]));
        let base = a.enemy_descriptors.val@[k].1.val.base.val@;
        lemma_defines_same(a, b, base, a.enemy_descriptors.val@.len() as int);
        lemma_known_names_same(config, vocabulary, a, b);
    }
}

proof fn lemma_undefined_among_same(
    config: &Config,
    vocabulary: &Vocabulary,
    a: &CustomDifficulty,
    b: &CustomDifficulty,
    x: Seq<Spanned<String>>,
    y: Seq<Spanned<String>>,
    upto: int,
)
    requires
        same_declarations(a, b),
        same_names(x, y),
    ensures
        undefined_among(config, vocabulary, a, x, upto) == undefined_among(config, vocabulary, b, y, upto),
    decreases upto,
{
    if 0 < upto <= x.len() {
        lemma_undefined_among_same(config, vocabulary, a, b, x, y, upto - 1);
        assert(same_text(&x[upto - 1], &y[upto - 1]));
        lemma_defines_same(a, b, x[upto - 1].val@, a.enemy_descriptors.val@.len() as int);
        lemma_known_names_same(config, vocabulary, a, b);
    }
}

proof fn lemma_undefined_in_pool_same(
    config: &Config,
    vocabulary: &Vocabulary,
    a: &CustomDifficulty,
    b: &CustomDifficulty,
    x: &EnemyPool,
    y: &EnemyPool,
)
    requires
        same_declarations(a, b),
        same_pool_object(x, y),
    ensures
        undefined_in_pool(config, vocabulary, a, x) == undefined_in_pool(config, vocabulary, b, y),
{
    lemma_undefined_among_same(config, vocabulary, a, b, x.add.val@, y.add.val@, x.add.val@.len() as int);
    lemma_undefined_among_same(config, vocabulary, a, b, x.remove.val@, y.remove.val@, x.remove.val@.len() as int);
}

/// Documents with descriptors that are alike and the same pools have the
/// same undefined references.
pub proof fn lemma_undefined_same(config: &Config, vocabulary: &Vocabulary, a: &CustomDifficulty, b: &CustomDifficulty)
    requires
        same_declarations(a, b),
        same_pools(a, b),
    ensures
        undefined_findings(config, vocabulary, a) == undefined_findings(config, vocabulary, b),
{
    lemma_declaration_order_same(a, b, a.enemy_descriptors.val@.len() as int);
    lemma_undefined_bases_same(config, vocabulary, a, b, declared(a), declared(a).len() as int);
    lemma_undefined_in_pool_same(config, vocabulary, a, b, &a.enemy_pool.val, &b.enemy_pool.val);
    lemma_undefined_in_pool_same(config, vocabulary, a, b, &a.common_enemies.val, &b.common_enemies.val);
    lemma_undefined_in_pool_same(config, vocabulary, a, b, &a.disruptive_enemies.val, &b.disruptive_enemies.val);
    lemma_undefined_in_pool_same(config, vocabulary, a, b, &a.special_enemies.val, &b.special_enemies.val);
    lemma_undefined_in_pool_same(config, vocabulary, a, b, &a.stationary_enemies.val, &b.stationary_enemies.val);
}

proof fn lemma_base_edges_same(table: Seq<Seq<char>>, a: &CustomDifficulty, b: &CustomDifficulty, upto: int)
    requires
        same_declarations(a, b),
    ensures
        base_edges(table, a, upto) == base_edges(table, b, upto),
    decreases upto,
{
    if 0 < upto <= a.enemy_descriptors.val@.len() {
        lemma_base_edges_same(table, a, b, upto - 1);
        assert(alike(&a.enemy_descriptors.val@[upto - 1], &b.enemy_descriptors.val@[upto - 1]));
    }
}

proof fn lemma_first_descriptor_same(a: &CustomDifficulty, b: &CustomDifficulty, name: Seq<char>, upto: int)
    requires
        same_declarations(a, b),
    ensures
        first_descriptor(a, name, upto) == first_descriptor(b, name, upto),
        first_descriptor(a, name, upto) matches Some(k) ==> 0 <= k < a.enemy_descriptors.val@.len(),
    decreases upto,
{
    if 0 < upto <= a.enemy_descriptors.val@.len() {
        lemma_first_descriptor_same(a, b, name, upto - 1);
        assert(alike(&a.enemy_descriptors.val@[upto - 1], &b.enemy_descriptors.val@[upto - 1]));
    }
}

proof fn lemma_interactions_of_same(a: &CustomDifficulty, b: &CustomDifficulty, at: int, order: Seq<usize>, upto: int)
    requires
        same_declarations(a, b),
        numbers_descriptors(a, order),
        0 <= at < a.enemy_descriptors.val@.len(),
    ensures
        interactions_of(a, at, order, upto) == interactions_of(b, at, order, upto),
    decreases upto,
{
    if 0 < upto <= order.len() {
        lemma_interactions_of_same(a, b, at, order, upto - 1);
        let k = order[upto - 1] as int;
        assert(alike(&a.enemy_descriptors.val@[k], &b.enemy_descriptors.val@[k]));
        assert(alike(&a.enemy_descriptors.val@[at], &b.enemy_descriptors.val@[at]));
    }
}

proof fn lemma_interactions_same(
    a: &CustomDifficulty,
    b: &CustomDifficulty,
    table: Seq<Seq<char>>,
    loops: Seq<usize>,
    upto: int,
)
    requires
        same_declarations(a, b),
    ensures
        interactions(a, table, loops, upto) == interactions(b, table, loops, upto),
    decreases upto,
{
    if 0 < upto <= loops.len() {
        lemma_interactions_same(a, b, table, loops, upto - 1);
        let all = a.enemy_descriptors.val@.len() as int;
        lemma_first_descriptor_same(a, b, table[loops[upto - 1] as int], all);
        lemma_declaration_order_same(a, b, all);
        if let Some(at) = first_descriptor(a, table[loops[upto - 1] as int], all) {
            lemma_interactions_of_same(a, b, at, declared(a), declared(a).len() as int);
        }
    }
}

proof fn lemma_cycle_errors_same(
    a: &CustomDifficulty,
    b: &CustomDifficulty,
    table: Seq<Seq<char>>,
    cycles: Seq<Seq<usize>>,
    upto: int,
)
    requires
        same_declarations(a, b),
    ensures
        cycle_errors(a, table, cycles, upto) == cycle_errors(b, table, cycles, upto),
    decreases upto,
{
    if 0 < upto <= cycles.len() {
        lemma_cycle_errors_same(a, b, table, cycles, upto - 1);
    }
}

/// Documents with descriptors that are alike have the same graph of
/// "Base" references, with the same circuits and the same drawing.
pub proof fn lemma_cyclic_same(config: &Config, vocabulary: &Vocabulary, a: &CustomDifficulty, b: &CustomDifficulty)
    requires
        same_declarations(a, b),
    ensures
        base_graph(config, vocabulary, a) == base_graph(config, vocabulary, b),
        cyclic_findings(config, vocabulary, a) == cyclic_findings(config, vocabulary, b),
        base_graph_drawing(config, vocabulary, a) == base_graph_drawing(config, vocabulary, b),
{
    lemma_known_names_same(config, vocabulary, a, b);
    let table = vertices(config, vocabulary, a);
    lemma_base_edges_same(table, a, b, a.enemy_descriptors.val@.len() as int);
    let circuits = crate::circuits::elementary_circuits_of(base_graph(config, vocabulary, a));
    let loops = crate::late_lints::cyclic_enemy_descriptor_references::loop_nodes(circuits, circuits.len() as int);
    let cycles = crate::late_lints::cyclic_enemy_descriptor_references::proper_cycles(
        circuits,
        circuits.len() as int,
    );
    lemma_interactions_same(a, b, table, loops, loops.len() as int);
    lemma_cycle_errors_same(a, b, table, cycles, cycles.len() as int);
}

/// The lints report the same of documents that are the same to look at,
/// and draw the same graph.
pub proof fn lemma_lint_findings_same(config: &Config, vocabulary: &Vocabulary, a: &CustomDifficulty, b: &CustomDifficulty)
    requires
        same_document(a, b),
    ensures
        lint_findings(config, vocabulary, a) == lint_findings(config, vocabulary, b),
        base_graph_drawing(config, vocabulary, a) == base_graph_drawing(config, vocabulary, b),
{
    reveal(lint_findings);
    lemma_same_declarations(a, b);
    assert(empty_cd_name_findings(a) == empty_cd_name_findings(b));
    lemma_undefined_same(config, vocabulary, a, b);
    lemma_min_max_same(a, b);
    lemma_unused_same(config, vocabulary, a, b);
    lemma_ambiguous_same(a, b);
    lemma_cyclic_same(config, vocabulary, a, b);
}

} // verus!
