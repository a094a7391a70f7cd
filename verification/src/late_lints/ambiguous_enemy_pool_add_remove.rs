//! A descriptor that a pool both adds and removes.

use crate::config::Config;
use crate::custom_difficulty::{CustomDifficulty, EnemyPool};
use crate::diagnostic::{Color, Diagnostic, DiagnosticView, Label, LabelView, report, Severity, views};
use crate::late_lints::{message_naming, naming};
use crate::span::{Span, Spanned};
use crate::text::str_eq;
use vstd::prelude::*;
use vstd::string::*;

verus! {

/// The place of the first of the first `upto` entries of `names` that reads `name`.
pub open spec fn first_named(names: Seq<Spanned<String>>, name: Seq<char>, upto: int) -> Option<int>
    decreases upto,
{
    if upto <= 0 || upto > names.len() {
        None
    } else {
        match first_named(names, name, upto - 1) {
            Some(k) => Some(k),
            None => if names[upto - 1].val@ == name {
                Some(upto - 1)
            } else {
                None
            },
        }
    }
}

/// The warning for `name`, which a pool adds at `add` and removes at `remove`.
pub open spec fn ambiguous_warning(name: Seq<char>, add: Span, remove: Span) -> DiagnosticView {
    DiagnosticView {
        severity: Severity::Warning,
        offset: add.lo,
        message: naming(
            "ambiguous Enemy Descriptor addition/removal from enemy pool: "@,
            name,
            " appears in both \"add\" and \"remove\""@,
        ),
        labels: seq![
            LabelView { span: add, color: Color::Yellow, message: Some(naming(""@, name, " appears here"@)) },
            LabelView {
                span: remove,
                color: Color::Yellow,
                message: Some(naming(""@, name, " also appears here"@)),
            },
        ],
        help: Some(naming("consider removing "@, name, " from one of the array"@)),
    }
}

/// The warnings for the first `upto` entries that `pool` adds: one for each
/// entry that `pool` also removes, with the first place where it does.
pub open spec fn pool_findings(pool: &EnemyPool, upto: int) -> Seq<DiagnosticView>
    decreases upto,
{
    if upto <= 0 || upto > pool.add.val@.len() {
        Seq::empty()
    } else {
        let before = pool_findings(pool, upto - 1);
        let entry = pool.add.val@[upto - 1];
        match first_named(pool.remove.val@, entry.val@, pool.remove.val@.len() as int) {
            Some(k) => before.push(ambiguous_warning(entry.val@, entry.span, pool.remove.val@[k].span)),
            None => before,
        }
    }
}

/// The warnings for one pool.
pub open spec fn ambiguous_in(pool: &EnemyPool) -> Seq<DiagnosticView> {
    pool_findings(pool, pool.add.val@.len() as int)
}

/// What the lint reports for `cd`: the warnings of its five pools, in turn.
pub open spec fn ambiguous_findings(cd: &CustomDifficulty) -> Seq<DiagnosticView> {
    ambiguous_in(&cd.enemy_pool.val) + ambiguous_in(&cd.common_enemies.val) + ambiguous_in(
        &cd.disruptive_enemies.val,
    ) + ambiguous_in(&cd.special_enemies.val) + ambiguous_in(&cd.stationary_enemies.val)
}

/// The place of the first entry of `names` that reads `name`.
pub fn find_named(names: &Vec<Spanned<String>>, name: &str) -> (found: Option<usize>)
    ensures
        match found {
            Some(k) => first_named(names@, name@, names@.len() as int) == Some(k as int) && k < names@.len(),
            None => first_named(names@, name@, names@.len() as int).is_none(),
        },
{
    let mut k: usize = 0;
    while k < names.len()
        invariant
            k <= names@.len(),
            first_named(names@, name@, k as int).is_none(),
        decreases names@.len() - k,
    {
        if str_eq(names[k].val.as_str(), name) {
            proof {
                lemma_first_named_stays(names@, name@, k + 1, names@.len() as int);
            }
            return Some(k);
        }
        k += 1;
    }
    None
}

proof fn lemma_first_named_stays(names: Seq<Spanned<String>>, name: Seq<char>, at: int, upto: int)
    requires
        0 <= at <= upto <= names.len(),
        first_named(names, name, at).is_some(),
    ensures
        first_named(names, name, upto) == first_named(names, name, at),
    decreases upto - at,
{
    if at < upto {
        lemma_first_named_stays(names, name, at, upto - 1);
    }
}

fn check_enemy_pool(pool: &EnemyPool, diag: &mut Vec<Diagnostic>)
    ensures
        views(final(diag)@) == views(old(diag)@) + ambiguous_in(pool),
{
    let n = pool.add.val.len();
    let mut i: usize = 0;
    assert(views(diag@) =~= views(old(diag)@) + pool_findings(pool, 0));
    while i < n
        invariant
            i <= n,
            n == pool.add.val@.len(),
            views(diag@) == views(old(diag)@) + pool_findings(pool, i as int),
        decreases n - i,
    {
        let entry = &pool.add.val[i];
        let ghost before = views(diag@);
        match find_named(&pool.remove.val, entry.val.as_str()) {
            Some(k) => {
                let removed = &pool.remove.val[k];
                let name = entry.val.as_str();
                let d = Diagnostic::new(
                    Severity::Warning,
                    entry.span.lo,
                    message_naming(
                        "ambiguous Enemy Descriptor addition/removal from enemy pool: ",
                        name,
                        " appears in both \"add\" and \"remove\"",
                    ),
                ).with_label(
                    Label::with_message(entry.span, Color::Yellow, message_naming("", name, " appears here")),
                ).with_label(
                    Label::with_message(
                        removed.span,
                        Color::Yellow,
                        message_naming("", name, " also appears here"),
                    ),
                ).with_help(message_naming("consider removing ", name, " from one of the array"));
                assert(d@.labels =~= ambiguous_warning(entry.val@, entry.span, removed.span).labels);
                assert(d@ == ambiguous_warning(entry.val@, entry.span, removed.span));
                report(diag, d);
                assert(views(diag@) =~= views(old(diag)@) + pool_findings(pool, i + 1));
            },
            None => {
                assert(views(diag@) =~= views(old(diag)@) + pool_findings(pool, i + 1));
            },
        }
        i += 1;
    }
}

/// Warns for each descriptor that a pool both adds and removes.
pub fn lint_ambiguous_enemy_pool_add_remove(
    _config: &Config,
    cd: &CustomDifficulty,
    diag: &mut Vec<Diagnostic>,
)
    ensures
        views(final(diag)@) == views(old(diag)@) + ambiguous_findings(cd),
{
    check_enemy_pool(&cd.enemy_pool.val, diag);
    check_enemy_pool(&cd.common_enemies.val, diag);
    check_enemy_pool(&cd.disruptive_enemies.val, diag);
    check_enemy_pool(&cd.special_enemies.val, diag);
    check_enemy_pool(&cd.stationary_enemies.val, diag);
    assert(views(diag@) =~= views(old(diag)@) + ambiguous_findings(cd));
}

} // verus!
