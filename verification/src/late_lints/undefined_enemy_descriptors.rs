//! References to descriptors that nothing defines.

use crate::config::{Config, contains_name, names_view, Vocabulary};
use crate::custom_difficulty::{CustomDifficulty, EnemyPool};
use crate::diagnostic::{Color, Diagnostic, DiagnosticView, Label, LabelView, report, Severity, views};
use crate::edit_distance::{suggest, suggestion};
use crate::late_lints::{message_naming, naming};
use crate::span::{Span, Spanned};
use crate::text::str_eq;
use vstd::prelude::*;
use vstd::string::*;

verus! {

/// One of the first `upto` descriptors of `cd` has the name `name`.
pub open spec fn defines(cd: &CustomDifficulty, name: Seq<char>, upto: int) -> bool
    decreases upto,
{
    if upto <= 0 || upto > cd.enemy_descriptors.val@.len() {
        false
    } else {
        defines(cd, name, upto - 1) || cd.enemy_descriptors.val@[upto - 1].0.val@ == name
    }
}

/// `name` is a descriptor of the game, one that the options add, or one
/// that `cd` defines, wherever in `cd`.
pub open spec fn is_defined(config: &Config, vocabulary: &Vocabulary, cd: &CustomDifficulty, name: Seq<char>) -> bool {
    names_view(vocabulary.enemy_descriptors@).contains(name) || names_view(
        config.extra_enemy_descriptors@,
    ).contains(name) || defines(cd, name, cd.enemy_descriptors.val@.len() as int)
}

/// The names of the descriptors that `cd` defines, in their order.
pub open spec fn defined_names(cd: &CustomDifficulty) -> Seq<Seq<char>> {
    Seq::new(cd.enemy_descriptors.val@.len(), |i: int| cd.enemy_descriptors.val@[i].0.val@)
}

/// The defined descriptors: those of the game, then those that the
/// options add, then those that `cd` defines.
pub open spec fn known_names(config: &Config, vocabulary: &Vocabulary, cd: &CustomDifficulty) -> Seq<Seq<char>> {
    names_view(vocabulary.enemy_descriptors@) + names_view(config.extra_enemy_descriptors@) + defined_names(cd)
}

/// The help for the undefined `name`: the defined descriptor that is
/// nearest to it, where one is near.
pub open spec fn hint(known: Seq<Seq<char>>, name: Seq<char>) -> Option<Seq<char>> {
    match suggestion(known, name) {
        Some(near) => Some(naming("did you mean "@, near, "?"@)),
        None => None,
    }
}

/// The error for the undefined `base` of the descriptor written at `descriptor`.
pub open spec fn undefined_base_error(base: &Spanned<String>, descriptor: Span, known: Seq<Seq<char>>) -> DiagnosticView {
    DiagnosticView {
        severity: Severity::Error,
        offset: base.span.lo,
        message: naming("attempt to reference undefined Enemy Descriptor "@, base.val@, " as \"Base\""@),
        labels: seq![LabelView { span: descriptor, color: Color::Red, message: None }],
        help: hint(known, base.val@),
    }
}

/// The error for the undefined descriptor that a pool names at `name`.
pub open spec fn undefined_error(name: &Spanned<String>, known: Seq<Seq<char>>) -> DiagnosticView {
    DiagnosticView {
        severity: Severity::Error,
        offset: name.span.lo,
        message: naming("attempt to reference undefined Enemy Descriptor "@, name.val@, ""@),
        labels: seq![LabelView { span: name.span, color: Color::Red, message: None }],
        help: hint(known, name.val@),
    }
}

/// The offset at which the document declares the descriptor number `k`.
pub open spec fn declared_at(cd: &CustomDifficulty, k: int) -> usize {
    cd.enemy_descriptors.val@[k].0.span.lo
}

/// The place in `order`, at or behind `p`, of the first descriptor that
/// the document declares behind the offset `at`.
pub open spec fn place_behind(cd: &CustomDifficulty, order: Seq<usize>, at: usize, p: int) -> int
    decreases order.len() - p,
{
    if 0 <= p < order.len() && declared_at(cd, order[p] as int) <= at {
        place_behind(cd, order, at, p + 1)
    } else {
        p
    }
}

/// The first `upto` descriptors of `cd` in the order in which the
/// document declares them.
pub open spec fn declaration_order(cd: &CustomDifficulty, upto: int) -> Seq<usize>
    decreases upto,
{
    if upto <= 0 || upto > cd.enemy_descriptors.val@.len() {
        Seq::empty()
    } else {
        let before = declaration_order(cd, upto - 1);
        before.insert(place_behind(cd, before, declared_at(cd, upto - 1), 0), (upto - 1) as usize)
    }
}

/// The descriptors of `cd` in the order in which the document declares them.
pub open spec fn declared(cd: &CustomDifficulty) -> Seq<usize> {
    declaration_order(cd, cd.enemy_descriptors.val@.len() as int)
}

/// Each entry of `order` is the number of a descriptor of `cd`.
pub open spec fn numbers_descriptors(cd: &CustomDifficulty, order: Seq<usize>) -> bool {
    forall|p: int| 0 <= p < order.len() ==> (#[trigger] order[p]) < cd.enemy_descriptors.val@.len()
}

/// The errors for the descriptors at the first `upto` places of `order`:
/// one for each whose "Base" is not defined. A descriptor may name itself.
pub open spec fn undefined_bases(
    config: &Config,
    vocabulary: &Vocabulary,
    cd: &CustomDifficulty,
    order: Seq<usize>,
    upto: int,
) -> Seq<DiagnosticView>
    decreases upto,
{
    if upto <= 0 || upto > order.len() {
        Seq::empty()
    } else {
        let before = undefined_bases(config, vocabulary, cd, order, upto - 1);
        let entry = cd.enemy_descriptors.val@[order[upto - 1] as int];
        if is_defined(config, vocabulary, cd, entry.1.val.base.val@) {
            before
        } else {
            before.push(
                undefined_base_error(&entry.1.val.base, entry.1.span, known_names(config, vocabulary, cd)),
            )
        }
    }
}

/// The errors for the first `upto` entries of `names`: one for each that is not defined.
pub open spec fn undefined_among(
    config: &Config,
    vocabulary: &Vocabulary,
    cd: &CustomDifficulty,
    names: Seq<Spanned<String>>,
    upto: int,
) -> Seq<DiagnosticView>
    decreases upto,
{
    if upto <= 0 || upto > names.len() {
        Seq::empty()
    } else {
        let before = undefined_among(config, vocabulary, cd, names, upto - 1);
        if is_defined(config, vocabulary, cd, names[upto - 1].val@) {
            before
        } else {
            before.push(undefined_error(&names[upto - 1], known_names(config, vocabulary, cd)))
        }
    }
}

/// The errors for what `pool` adds, then for what it removes.
pub open spec fn undefined_in_pool(config: &Config, vocabulary: &Vocabulary, cd: &CustomDifficulty, pool: &EnemyPool) -> Seq<
    DiagnosticView,
> {
    undefined_among(config, vocabulary, cd, pool.add.val@, pool.add.val@.len() as int) + undefined_among(
        config,
        vocabulary,
        cd,
        pool.remove.val@,
        pool.remove.val@.len() as int,
    )
}

/// What the lint reports for `cd`: the errors for the descriptors, in the
/// order in which the document declares them, then those for the five
/// pools in turn.
pub open spec fn undefined_findings(config: &Config, vocabulary: &Vocabulary, cd: &CustomDifficulty) -> Seq<
    DiagnosticView,
> {
    undefined_bases(config, vocabulary, cd, declared(cd), declared(cd).len() as int) + undefined_in_pool(
        config,
        vocabulary,
        cd,
        &cd.enemy_pool.val,
    ) + undefined_in_pool(config, vocabulary, cd, &cd.common_enemies.val) + undefined_in_pool(
        config,
        vocabulary,
        cd,
        &cd.disruptive_enemies.val,
    ) + undefined_in_pool(config, vocabulary, cd, &cd.special_enemies.val) + undefined_in_pool(
        config,
        vocabulary,
        cd,
        &cd.stationary_enemies.val,
    )
}

/// Whether `cd` defines a descriptor with the name `name`.
pub fn has_descriptor(cd: &CustomDifficulty, name: &str) -> (found: bool)
    ensures
        found == defines(cd, name@, cd.enemy_descriptors.val@.len() as int),
{
    let n = cd.enemy_descriptors.val.len();
    let mut i: usize = 0;
    let mut found = false;
    while i < n
        invariant
            i <= n,
            n == cd.enemy_descriptors.val@.len(),
            found == defines(cd, name@, i as int),
        decreases n - i,
    {
        if str_eq(cd.enemy_descriptors.val[i].0.val.as_str(), name) {
            found = true;
        }
        i += 1;
    }
    found
}

/// Whether `name` is a defined descriptor.
pub fn check_defined(config: &Config, vocabulary: &Vocabulary, cd: &CustomDifficulty, name: &str) -> (found: bool)
    ensures
        found == is_defined(config, vocabulary, cd, name@),
{
    contains_name(&vocabulary.enemy_descriptors, name) || contains_name(&config.extra_enemy_descriptors, name)
        || has_descriptor(cd, name)
}

/// The descriptors of `cd` in the order in which the document declares them.
pub fn declared_descriptors(cd: &CustomDifficulty) -> (order: Vec<usize>)
    ensures
        order@ == declared(cd),
        numbers_descriptors(cd, order@),
{
    let n = cd.enemy_descriptors.val.len();
    let mut order: Vec<usize> = Vec::new();
    let mut k: usize = 0;
    while k < n
        invariant
            k <= n,
            n == cd.enemy_descriptors.val@.len(),
            order@ == declaration_order(cd, k as int),
            numbers_descriptors(cd, order@),
        decreases n - k,
    {
        let at = cd.enemy_descriptors.val[k].0.span.lo;
        let mut p: usize = 0;
        while p < order.len() && cd.enemy_descriptors.val[order[p]].0.span.lo <= at
            invariant
                p <= order@.len(),
                n == cd.enemy_descriptors.val@.len(),
                numbers_descriptors(cd, order@),
                place_behind(cd, order@, at, p as int) == place_behind(cd, order@, at, 0),
            decreases order@.len() - p,
        {
            p += 1;
        }
        let ghost before = order@;
        order.insert(p, k);
        proof {
            assert forall|q: int| 0 <= q < order@.len() implies (#[trigger] order@[q]) < n by {
                if q < p {
                    assert(order@[q] == before[q]);
                } else if q > p {
                    assert(order@[q] == before[q - 1]);
                }
            }
        }
        k += 1;
    }
    order
}

/// The defined descriptors.
fn collect_known(config: &Config, vocabulary: &Vocabulary, cd: &CustomDifficulty) -> (known: Vec<String>)
    ensures
        names_view(known@) == known_names(config, vocabulary, cd),
{
    let mut known: Vec<String> = Vec::new();
    let mut i: usize = 0;
    while i < vocabulary.enemy_descriptors.len()
        invariant
            i <= vocabulary.enemy_descriptors@.len(),
            names_view(known@) == names_view(vocabulary.enemy_descriptors@).subrange(0, i as int),
        decreases vocabulary.enemy_descriptors@.len() - i,
    {
        let ghost before = names_view(known@);
        known.push(vocabulary.enemy_descriptors[i].clone());
        assert(names_view(known@) =~= before.push(names_view(vocabulary.enemy_descriptors@)[i as int]));
        assert(names_view(known@) =~= names_view(vocabulary.enemy_descriptors@).subrange(0, i + 1));
        i += 1;
    }
    let ghost game = names_view(vocabulary.enemy_descriptors@);
    assert(game.subrange(0, game.len() as int) =~= game);
    i = 0;
    while i < config.extra_enemy_descriptors.len()
        invariant
            i <= config.extra_enemy_descriptors@.len(),
            game == names_view(vocabulary.enemy_descriptors@),
            names_view(known@) == game + names_view(config.extra_enemy_descriptors@).subrange(0, i as int),
        decreases config.extra_enemy_descriptors@.len() - i,
    {
        let ghost before = names_view(known@);
        known.push(config.extra_enemy_descriptors[i].clone());
        assert(names_view(known@) =~= before.push(names_view(config.extra_enemy_descriptors@)[i as int]));
        assert(names_view(known@) =~= game + names_view(config.extra_enemy_descriptors@).subrange(0, i + 1));
        i += 1;
    }
    let ghost extra = names_view(config.extra_enemy_descriptors@);
    assert(extra.subrange(0, extra.len() as int) =~= extra);
    i = 0;
    while i < cd.enemy_descriptors.val.len()
        invariant
            i <= cd.enemy_descriptors.val@.len(),
            game == names_view(vocabulary.enemy_descriptors@),
            extra == names_view(config.extra_enemy_descriptors@),
            names_view(known@) == game + extra + defined_names(cd).subrange(0, i as int),
        decreases cd.enemy_descriptors.val@.len() - i,
    {
        let ghost before = names_view(known@);
        known.push(cd.enemy_descriptors.val[i].0.val.clone());
        assert(names_view(known@) =~= before.push(defined_names(cd)[i as int]));
        assert(names_view(known@) =~= game + extra + defined_names(cd).subrange(0, i + 1));
        i += 1;
    }
    assert(defined_names(cd).subrange(0, defined_names(cd).len() as int) =~= defined_names(cd));
    known
}

/// The diagnostic `d` with the help for the undefined `name`.
fn with_hint(d: Diagnostic, known: &Vec<String>, name: &str) -> (hinted: Diagnostic)
    requires
        d@.help.is_none(),
    ensures
        hinted@ == (DiagnosticView { help: hint(names_view(known@), name@), ..d@ }),
{
    match suggest(known, name) {
        Some(k) => d.with_help(message_naming("did you mean ", known[k].as_str(), "?")),
        None => d,
    }
}

fn check_names(
    config: &Config,
    vocabulary: &Vocabulary,
    cd: &CustomDifficulty,
    known: &Vec<String>,
    names: &Vec<Spanned<String>>,
    diag: &mut Vec<Diagnostic>,
)
    requires
        names_view(known@) == known_names(config, vocabulary, cd),
    ensures
        views(final(diag)@) == views(old(diag)@) + undefined_among(
            config,
            vocabulary,
            cd,
            names@,
            names@.len() as int,
        ),
{
    let n = names.len();
    let mut i: usize = 0;
    assert(views(diag@) =~= views(old(diag)@) + undefined_among(config, vocabulary, cd, names@, 0));
    while i < n
        invariant
            i <= n,
            n == names@.len(),
            names_view(known@) == known_names(config, vocabulary, cd),
            views(diag@) == views(old(diag)@) + undefined_among(config, vocabulary, cd, names@, i as int),
        decreases n - i,
    {
        let name = &names[i];
        if !check_defined(config, vocabulary, cd, name.val.as_str()) {
            let d = Diagnostic::new(
                Severity::Error,
                name.span.lo,
                message_naming("attempt to reference undefined Enemy Descriptor ", name.val.as_str(), ""),
            ).with_label(Label::new(name.span, Color::Red));
            assert(d@.labels =~= undefined_error(name, names_view(known@)).labels);
            report(diag, with_hint(d, known, name.val.as_str()));
        }
        assert(views(diag@) =~= views(old(diag)@) + undefined_among(config, vocabulary, cd, names@, i + 1));
        i += 1;
    }
}

fn check_pool(
    config: &Config,
    vocabulary: &Vocabulary,
    cd: &CustomDifficulty,
    known: &Vec<String>,
    pool: &EnemyPool,
    diag: &mut Vec<Diagnostic>,
)
    requires
        names_view(known@) == known_names(config, vocabulary, cd),
    ensures
        views(final(diag)@) == views(old(diag)@) + undefined_in_pool(config, vocabulary, cd, pool),
{
    check_names(config, vocabulary, cd, known, &pool.add.val, diag);
    check_names(config, vocabulary, cd, known, &pool.remove.val, diag);
    assert(views(diag@) =~= views(old(diag)@) + undefined_in_pool(config, vocabulary, cd, pool));
}

/// Reports each "Base" and each entry of a pool that names a descriptor
/// which is not defined.
pub fn lint_undefined_enemy_descriptors(
    config: &Config,
    vocabulary: &Vocabulary,
    cd: &CustomDifficulty,
    diag: &mut Vec<Diagnostic>,
)
    ensures
        views(final(diag)@) == views(old(diag)@) + undefined_findings(config, vocabulary, cd),
{
    let known = collect_known(config, vocabulary, cd);
    let order = declared_descriptors(cd);
    let n = order.len();
    let mut i: usize = 0;
    assert(views(diag@) =~= views(old(diag)@) + undefined_bases(config, vocabulary, cd, order@, 0));
    while i < n
        invariant
            i <= n,
            n == order@.len(),
            order@ == declared(cd),
            numbers_descriptors(cd, order@),
            names_view(known@) == known_names(config, vocabulary, cd),
            views(diag@) == views(old(diag)@) + undefined_bases(config, vocabulary, cd, order@, i as int),
        decreases n - i,
    {
        let entry = &cd.enemy_descriptors.val[order[i]];
        let base = &entry.1.val.base;
        if !check_defined(config, vocabulary, cd, base.val.as_str()) {
            let d = Diagnostic::new(
                Severity::Error,
                base.span.lo,
                message_naming(
                    "attempt to reference undefined Enemy Descriptor ",
                    base.val.as_str(),
                    " as \"Base\"",
                ),
            ).with_label(Label::new(entry.1.span, Color::Red));
            assert(d@.labels =~= undefined_base_error(base, entry.1.span, names_view(known@)).labels);
            report(diag, with_hint(d, &known, base.val.as_str()));
        }
        assert(views(diag@) =~= views(old(diag)@) + undefined_bases(config, vocabulary, cd, order@, i + 1));
        i += 1;
    }
    check_pool(config, vocabulary, cd, &known, &cd.enemy_pool.val, diag);
    check_pool(config, vocabulary, cd, &known, &cd.common_enemies.val, diag);
    check_pool(config, vocabulary, cd, &known, &cd.disruptive_enemies.val, diag);
    check_pool(config, vocabulary, cd, &known, &cd.special_enemies.val, diag);
    check_pool(config, vocabulary, cd, &known, &cd.stationary_enemies.val, diag);
    assert(views(diag@) =~= views(old(diag)@) + undefined_findings(config, vocabulary, cd));
}

} // verus!
