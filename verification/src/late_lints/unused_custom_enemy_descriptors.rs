//! Descriptors that the document defines and no pool refers to.

use crate::config::{Config, contains_name, names_view, Vocabulary};
use crate::custom_difficulty::{CustomDifficulty, EnemyPool};
use crate::diagnostic::{Color, Diagnostic, DiagnosticView, Label, LabelView, report, Severity, views};
use crate::late_lints::ambiguous_enemy_pool_add_remove::{find_named, first_named};
use crate::late_lints::{message_naming, naming};
use crate::span::{Span, Spanned};
use vstd::prelude::*;
use vstd::string::*;

verus! {

/// Some entry of `names` reads `name`.
pub open spec fn names_include(names: Seq<Spanned<String>>, name: Seq<char>) -> bool {
    first_named(names, name, names.len() as int).is_some()
}

/// `pool` adds or removes `name`.
pub open spec fn pool_refers_to(pool: &EnemyPool, name: Seq<char>) -> bool {
    names_include(pool.add.val@, name) || names_include(pool.remove.val@, name)
}

/// One of the five pools of `cd` adds or removes `name`.
pub open spec fn is_used(cd: &CustomDifficulty, name: Seq<char>) -> bool {
    pool_refers_to(&cd.enemy_pool.val, name) || pool_refers_to(&cd.common_enemies.val, name)
        || pool_refers_to(&cd.disruptive_enemies.val, name) || pool_refers_to(&cd.special_enemies.val, name)
        || pool_refers_to(&cd.stationary_enemies.val, name)
}

/// `name` is neither a descriptor of the game nor one that the options add.
pub open spec fn is_custom(config: &Config, vocabulary: &Vocabulary, name: Seq<char>) -> bool {
    !names_view(vocabulary.enemy_descriptors@).contains(name) && !names_view(
        config.extra_enemy_descriptors@,
    ).contains(name)
}

/// The warning for the descriptor `name`, defined at `span`.
pub open spec fn unused_warning(name: Seq<char>, span: Span) -> DiagnosticView {
    DiagnosticView {
        severity: Severity::Warning,
        offset: span.lo,
        message: naming("custom Enemy Descriptor "@, name, " is defined but never used"@),
        labels: seq![
            LabelView { span, color: Color::Yellow, message: Some(naming(""@, name, " is defined here"@)) },
        ],
        help: None,
    }
}

/// The warnings for the first `upto` descriptors of `cd`: one for each
/// custom descriptor that no pool refers to.
pub open spec fn unused_upto(config: &Config, vocabulary: &Vocabulary, cd: &CustomDifficulty, upto: int) -> Seq<
    DiagnosticView,
>
    decreases upto,
{
    if upto <= 0 || upto > cd.enemy_descriptors.val@.len() {
        Seq::empty()
    } else {
        let before = unused_upto(config, vocabulary, cd, upto - 1);
        let name = cd.enemy_descriptors.val@[upto - 1].0;
        if is_custom(config, vocabulary, name.val@) && !is_used(cd, name.val@) {
            before.push(unused_warning(name.val@, name.span))
        } else {
            before
        }
    }
}

/// What the lint reports for `cd`.
pub open spec fn unused_findings(config: &Config, vocabulary: &Vocabulary, cd: &CustomDifficulty) -> Seq<
    DiagnosticView,
> {
    unused_upto(config, vocabulary, cd, cd.enemy_descriptors.val@.len() as int)
}

fn pool_uses(pool: &EnemyPool, name: &str) -> (used: bool)
    ensures
        used == pool_refers_to(pool, name@),
{
    find_named(&pool.add.val, name).is_some() || find_named(&pool.remove.val, name).is_some()
}

/// Whether one of the pools of `cd` adds or removes `name`.
pub fn update_usage(cd: &CustomDifficulty, name: &str) -> (used: bool)
    ensures
        used == is_used(cd, name@),
{
    pool_uses(&cd.enemy_pool.val, name) || pool_uses(&cd.common_enemies.val, name) || pool_uses(
        &cd.disruptive_enemies.val,
        name,
    ) || pool_uses(&cd.special_enemies.val, name) || pool_uses(&cd.stationary_enemies.val, name)
}

/// Warns for each custom descriptor that no pool adds or removes.
pub fn lint_unused_custom_enemy_descriptors(
    config: &Config,
    vocabulary: &Vocabulary,
    cd: &CustomDifficulty,
    diag: &mut Vec<Diagnostic>,
)
    ensures
        views(final(diag)@) == views(old(diag)@) + unused_findings(config, vocabulary, cd),
{
    let n = cd.enemy_descriptors.val.len();
    let mut i: usize = 0;
    assert(views(diag@) =~= views(old(diag)@) + unused_upto(config, vocabulary, cd, 0));
    while i < n
        invariant
            i <= n,
            n == cd.enemy_descriptors.val@.len(),
            views(diag@) == views(old(diag)@) + unused_upto(config, vocabulary, cd, i as int),
        decreases n - i,
    {
        let name = &cd.enemy_descriptors.val[i].0;
        let text = name.val.as_str();
        if !contains_name(&vocabulary.enemy_descriptors, text) && !contains_name(
            &config.extra_enemy_descriptors,
            text,
        ) && !update_usage(cd, text) {
            let d = Diagnostic::new(
                Severity::Warning,
                name.span.lo,
                message_naming("custom Enemy Descriptor ", text, " is defined but never used"),
            ).with_label(Label::with_message(name.span, Color::Yellow, message_naming("", text, " is defined here")));
            assert(d@.labels =~= unused_warning(name.val@, name.span).labels);
            report(diag, d);
        }
        assert(views(diag@) =~= views(old(diag)@) + unused_upto(config, vocabulary, cd, i + 1));
        i += 1;
    }
}

} // verus!
