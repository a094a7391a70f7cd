//! Circuits among the "Base" references of the enemy descriptors. The game
//! does not survive them.

use crate::circuits::{elementary_circuits, elementary_circuits_of};
use crate::config::{Config, names_view, Vocabulary};
use crate::custom_difficulty::{CustomDifficulty, EnemyDescriptor};
use crate::diagnostic::{Color, Diagnostic, DiagnosticView, Label, LabelView, report, Severity, views};
use crate::dot::{dot_source, dot_text};
use crate::graph::{all_circuits, Digraph, is_circuit, lists};
use crate::late_lints::undefined_enemy_descriptors::{declared, declared_descriptors, numbers_descriptors};
use crate::late_lints::{message_naming, message_naming_two, naming, naming_two};
use crate::names::{NameTable, with_names};
use crate::span::Spanned;
use crate::text::{decimal, decimal_text, push_quoted, quoted, str_eq};
use vstd::prelude::*;
use vstd::string::*;

verus! {

/// The names of the descriptors that `cd` defines, in their order.
pub open spec fn descriptor_names(cd: &CustomDifficulty) -> Seq<Seq<char>> {
    Seq::new(cd.enemy_descriptors.val@.len(), |i: int| cd.enemy_descriptors.val@[i].0.val@)
}

/// The nodes of the graph: the descriptors that the options add, then those
/// of the game, then those that `cd` defines, each once.
pub open spec fn vertices(config: &Config, vocabulary: &Vocabulary, cd: &CustomDifficulty) -> Seq<Seq<char>> {
    let extra = names_view(config.extra_enemy_descriptors@);
    let game = names_view(vocabulary.enemy_descriptors@);
    let defined = descriptor_names(cd);
    with_names(
        with_names(with_names(Seq::empty(), extra, extra.len() as int), game, game.len() as int),
        defined,
        defined.len() as int,
    )
}

/// The edges of the graph for the first `upto` descriptors of `cd`: one
/// from each descriptor to its "Base", where that is a node.
pub open spec fn base_edges(table: Seq<Seq<char>>, cd: &CustomDifficulty, upto: int) -> Seq<(usize, usize)>
    decreases upto,
{
    if upto <= 0 || upto > cd.enemy_descriptors.val@.len() {
        Seq::empty()
    } else {
        let before = base_edges(table, cd, upto - 1);
        let entry = cd.enemy_descriptors.val@[upto - 1];
        let name = entry.0.val@;
        let base = entry.1.val.base.val@;
        if table.contains(name) && table.contains(base) {
            before.push((table.index_of(name) as usize, table.index_of(base) as usize))
        } else {
            before
        }
    }
}

/// The graph on `n` nodes with the first `upto` edges of `edges`.
pub open spec fn graph_of(n: nat, edges: Seq<(usize, usize)>, upto: int) -> Seq<Seq<usize>>
    decreases upto,
{
    if upto <= 0 || upto > edges.len() {
        Seq::new(n, |v: int| Seq::<usize>::empty())
    } else {
        let g = graph_of(n, edges, upto - 1);
        let e = edges[upto - 1];
        g.update(e.0 as int, g[e.0 as int].push(e.1))
    }
}

/// The nodes of the circuits of one node among the first `upto` circuits.
pub open spec fn loop_nodes(circuits: Seq<Seq<usize>>, upto: int) -> Seq<usize>
    decreases upto,
{
    if upto <= 0 || upto > circuits.len() {
        Seq::empty()
    } else {
        let before = loop_nodes(circuits, upto - 1);
        if circuits[upto - 1].len() == 1 {
            before.push(circuits[upto - 1][0])
        } else {
            before
        }
    }
}

/// The circuits of more than one node among the first `upto` circuits.
pub open spec fn proper_cycles(circuits: Seq<Seq<usize>>, upto: int) -> Seq<Seq<usize>>
    decreases upto,
{
    if upto <= 0 || upto > circuits.len() {
        Seq::empty()
    } else {
        let before = proper_cycles(circuits, upto - 1);
        if circuits[upto - 1].len() == 1 {
            before
        } else {
            before.push(circuits[upto - 1])
        }
    }
}

/// The place of the first of the first `upto` descriptors of `cd` that has the name `name`.
pub open spec fn first_descriptor(cd: &CustomDifficulty, name: Seq<char>, upto: int) -> Option<int>
    decreases upto,
{
    if upto <= 0 || upto > cd.enemy_descriptors.val@.len() {
        None
    } else {
        match first_descriptor(cd, name, upto - 1) {
            Some(k) => Some(k),
            None => if cd.enemy_descriptors.val@[upto - 1].0.val@ == name {
                Some(upto - 1)
            } else {
                None
            },
        }
    }
}

/// The error that opens the report of the circuits.
pub open spec fn cycle_header(cd: &CustomDifficulty) -> DiagnosticView {
    DiagnosticView {
        severity: Severity::Error,
        offset: cd.enemy_descriptors.span.lo,
        message: "cycle detected in Enemy Descriptor \"Base\" references"@,
        labels: Seq::empty(),
        help: None,
    }
}

/// The error for the descriptor `other`, which is declared behind the
/// descriptor `name`, a descriptor that names itself as its "Base", and
/// names it as its "Base" too.
pub open spec fn interaction_error(name: Seq<char>, other: &(Spanned<String>, Spanned<EnemyDescriptor>)) -> DiagnosticView {
    DiagnosticView {
        severity: Severity::Error,
        offset: other.0.span.lo,
        message: naming_two(
            ""@,
            name,
            " is self-referential, but "@,
            other.0.val@,
            " references it later, which will cause a crash"@,
        ),
        labels: seq![
            LabelView {
                span: other.1.val.base.span,
                color: Color::Red,
                message: Some(naming_two(""@, other.0.val@, " references "@, name, " here"@)),
            },
        ],
        help: Some(
            naming(
                "consider moving the self-referential "@,
                name,
                " to the end of the Enemy Descriptors list"@,
            ),
        ),
    }
}

/// The errors for the descriptor number `at`, which names itself as its
/// "Base": one for each descriptor, among those at the first `upto` places
/// of `order`, that the document declares behind it and that names it as
/// its "Base".
pub open spec fn interactions_of(cd: &CustomDifficulty, at: int, order: Seq<usize>, upto: int) -> Seq<
    DiagnosticView,
>
    decreases upto,
{
    if upto <= 0 || upto > order.len() {
        Seq::empty()
    } else {
        let before = interactions_of(cd, at, order, upto - 1);
        let own = cd.enemy_descriptors.val@[at];
        let other = cd.enemy_descriptors.val@[order[upto - 1] as int];
        if own.0.span.lo < other.0.span.lo && other.1.val.base.val@ == own.0.val@ {
            before.push(interaction_error(own.0.val@, &other))
        } else {
            before
        }
    }
}

/// The errors for the first `upto` of the nodes `loops`, each the node of
/// a descriptor that names itself as its "Base": for each, the errors for
/// the descriptors declared behind it, in the order of their declaration.
pub open spec fn interactions(cd: &CustomDifficulty, table: Seq<Seq<char>>, loops: Seq<usize>, upto: int) -> Seq<
    DiagnosticView,
>
    decreases upto,
{
    if upto <= 0 || upto > loops.len() {
        Seq::empty()
    } else {
        let before = interactions(cd, table, loops, upto - 1);
        let all = cd.enemy_descriptors.val@.len() as int;
        match first_descriptor(cd, table[loops[upto - 1] as int], all) {
            Some(at) => before + interactions_of(cd, at, declared(cd), declared(cd).len() as int),
            None => before,
        }
    }
}

/// The names of the first `upto` nodes of the circuit `c`, with arrows between them.
pub open spec fn cycle_text(table: Seq<Seq<char>>, c: Seq<usize>, upto: int) -> Seq<char>
    decreases upto,
{
    if upto <= 0 || upto > c.len() {
        Seq::empty()
    } else if upto == 1 {
        quoted(table[c[0] as int])
    } else {
        cycle_text(table, c, upto - 1) + " -> "@ + quoted(table[c[upto - 1] as int])
    }
}

/// The error for the circuit `c`, the circuit number `i` counted from 0:
/// it names the nodes in their order, and the first of them again.
pub open spec fn cycle_error(cd: &CustomDifficulty, table: Seq<Seq<char>>, i: int, c: Seq<usize>) -> DiagnosticView {
    DiagnosticView {
        severity: Severity::Error,
        offset: cd.enemy_descriptors.span.lo,
        message: "cycle ["@ + decimal_text((i + 1) as nat) + "]: "@ + cycle_text(table, c, c.len() as int)
            + " -> "@ + quoted(table[c[0] as int]),
        labels: Seq::empty(),
        help: None,
    }
}

/// The errors for the first `upto` circuits of `cycles`.
pub open spec fn cycle_errors(cd: &CustomDifficulty, table: Seq<Seq<char>>, cycles: Seq<Seq<usize>>, upto: int) -> Seq<
    DiagnosticView,
>
    decreases upto,
{
    if upto <= 0 || upto > cycles.len() {
        Seq::empty()
    } else {
        cycle_errors(cd, table, cycles, upto - 1).push(cycle_error(cd, table, upto - 1, cycles[upto - 1]))
    }
}

/// The graph of the "Base" references of `cd`.
pub open spec fn base_graph(config: &Config, vocabulary: &Vocabulary, cd: &CustomDifficulty) -> Seq<Seq<usize>> {
    let table = vertices(config, vocabulary, cd);
    let edges = base_edges(table, cd, cd.enemy_descriptors.val@.len() as int);
    graph_of(table.len(), edges, edges.len() as int)
}

/// What the lint reports for `cd`: where there is a circuit of more than
/// one descriptor, an error that says so; then the errors for the
/// descriptors that name themselves; then an error for each circuit of more
/// than one descriptor.
pub open spec fn cyclic_findings(config: &Config, vocabulary: &Vocabulary, cd: &CustomDifficulty) -> Seq<
    DiagnosticView,
> {
    let table = vertices(config, vocabulary, cd);
    let circuits = elementary_circuits_of(base_graph(config, vocabulary, cd));
    let loops = loop_nodes(circuits, circuits.len() as int);
    let cycles = proper_cycles(circuits, circuits.len() as int);
    let header = if cycles.len() > 0 {
        seq![cycle_header(cd)]
    } else {
        Seq::empty()
    };
    header + interactions(cd, table, loops, loops.len() as int) + cycle_errors(
        cd,
        table,
        cycles,
        cycles.len() as int,
    )
}

/// The drawing of the graph of the "Base" references of `cd`.
pub open spec fn base_graph_drawing(config: &Config, vocabulary: &Vocabulary, cd: &CustomDifficulty) -> Seq<char> {
    let table = vertices(config, vocabulary, cd);
    dot_text(table, base_edges(table, cd, cd.enemy_descriptors.val@.len() as int))
}

proof fn lemma_graph_of_prefix(n: nat, a: Seq<(usize, usize)>, b: Seq<(usize, usize)>, upto: int)
    requires
        0 <= upto <= a.len(),
        upto <= b.len(),
        a.subrange(0, upto) == b.subrange(0, upto),
    ensures
        graph_of(n, a, upto) == graph_of(n, b, upto),
    decreases upto,
{
    if upto > 0 {
        assert(a.subrange(0, upto - 1) =~= a.subrange(0, upto).subrange(0, upto - 1));
        assert(b.subrange(0, upto - 1) =~= b.subrange(0, upto).subrange(0, upto - 1));
        lemma_graph_of_prefix(n, a, b, upto - 1);
        assert(a[upto - 1] == a.subrange(0, upto)[upto - 1]);
        assert(b[upto - 1] == b.subrange(0, upto)[upto - 1]);
    }
}

/// Enters the names of `names` into `table`.
fn enter_names(table: &mut NameTable, names: &Vec<String>)
    requires
        old(table).wf(),
    ensures
        final(table).wf(),
        final(table)@ == with_names(old(table)@, names_view(names@), names@.len() as int),
{
    let mut i: usize = 0;
    while i < names.len()
        invariant
            i <= names@.len(),
            table.wf(),
            table@ == with_names(old(table)@, names_view(names@), i as int),
        decreases names@.len() - i,
    {
        let _ = table.intern(names[i].clone());
        i += 1;
    }
}

/// The place of the first descriptor of `cd` that has the name `name`.
fn find_descriptor(cd: &CustomDifficulty, name: &str) -> (found: Option<usize>)
    ensures
        match found {
            Some(k) => k < cd.enemy_descriptors.val@.len() && first_descriptor(
                cd,
                name@,
                cd.enemy_descriptors.val@.len() as int,
            ) == Some(k as int),
            None => first_descriptor(cd, name@, cd.enemy_descriptors.val@.len() as int).is_none(),
        },
{
    let n = cd.enemy_descriptors.val.len();
    let mut k: usize = 0;
    while k < n
        invariant
            k <= n,
            n == cd.enemy_descriptors.val@.len(),
            first_descriptor(cd, name@, k as int).is_none(),
        decreases n - k,
    {
        if str_eq(cd.enemy_descriptors.val[k].0.val.as_str(), name) {
            proof {
                lemma_first_descriptor_stays(cd, name@, k + 1, n as int);
            }
            return Some(k);
        }
        k += 1;
    }
    None
}

proof fn lemma_first_descriptor_stays(cd: &CustomDifficulty, name: Seq<char>, at: int, upto: int)
    requires
        0 <= at <= upto <= cd.enemy_descriptors.val@.len(),
        first_descriptor(cd, name, at).is_some(),
    ensures
        first_descriptor(cd, name, upto) == first_descriptor(cd, name, at),
    decreases upto - at,
{
    if at < upto {
        lemma_first_descriptor_stays(cd, name, at, upto - 1);
    }
}

/// Reports the descriptors that are declared behind the descriptor number
/// `at` and name it as their "Base".
fn report_interactions(cd: &CustomDifficulty, at: usize, order: &Vec<usize>, diag: &mut Vec<Diagnostic>)
    requires
        at < cd.enemy_descriptors.val@.len(),
        numbers_descriptors(cd, order@),
    ensures
        views(final(diag)@) == views(old(diag)@) + interactions_of(cd, at as int, order@, order@.len() as int),
{
    let n = order.len();
    let own = &cd.enemy_descriptors.val[at];
    let name = own.0.val.as_str();
    let mut j: usize = 0;
    assert(views(diag@) =~= views(old(diag)@) + interactions_of(cd, at as int, order@, 0));
    while j < n
        invariant
            j <= n,
            at < cd.enemy_descriptors.val@.len(),
            n == order@.len(),
            numbers_descriptors(cd, order@),
            *own == cd.enemy_descriptors.val@[at as int],
            name@ == own.0.val@,
            views(diag@) == views(old(diag)@) + interactions_of(cd, at as int, order@, j as int),
        decreases n - j,
    {
        let other = &cd.enemy_descriptors.val[order[j]];
        if own.0.span.lo < other.0.span.lo && str_eq(other.1.val.base.val.as_str(), name) {
            let other_name = other.0.val.as_str();
            let d = Diagnostic::new(
                Severity::Error,
                other.0.span.lo,
                message_naming_two(
                    "",
                    name,
                    " is self-referential, but ",
                    other_name,
                    " references it later, which will cause a crash",
                ),
            ).with_label(
                Label::with_message(
                    other.1.val.base.span,
                    Color::Red,
                    message_naming_two("", other_name, " references ", name, " here"),
                ),
            ).with_help(
                message_naming(
                    "consider moving the self-referential ",
                    name,
                    " to the end of the Enemy Descriptors list",
                ),
            );
            assert(d@.labels =~= interaction_error(name@, other).labels);
            report(diag, d);
        }
        assert(views(diag@) =~= views(old(diag)@) + interactions_of(cd, at as int, order@, j + 1));
        j += 1;
    }
}

/// The text of the circuit `c`: its names with arrows between them, and the
/// first name again.
fn cycle_message(table: &NameTable, i: usize, c: &Vec<usize>) -> (message: String)
    requires
        i < usize::MAX,
        c@.len() > 0,
        forall|k: int| 0 <= k < c@.len() ==> (#[trigger] c@[k]) < table@.len(),
    ensures
        message@ == "cycle ["@ + decimal_text((i + 1) as nat) + "]: "@ + cycle_text(table@, c@, c@.len() as int)
            + " -> "@ + quoted(table@[c@[0] as int]),
{
    let mut message = String::from_str("cycle [");
    message.append(decimal(i + 1).as_str());
    message.append("]: ");
    let ghost head = message@;
    let mut j: usize = 0;
    assert(message@ =~= head + cycle_text(table@, c@, 0));
    while j < c.len()
        invariant
            j <= c@.len(),
            forall|k: int| 0 <= k < c@.len() ==> (#[trigger] c@[k]) < table@.len(),
            message@ == head + cycle_text(table@, c@, j as int),
        decreases c@.len() - j,
    {
        if j > 0 {
            message.append(" -> ");
        }
        push_quoted(&mut message, table.name(c[j]).as_str());
        assert(message@ =~= head + cycle_text(table@, c@, j + 1));
        j += 1;
    }
    message.append(" -> ");
    push_quoted(&mut message, table.name(c[0]).as_str());
    assert(message@ =~= "cycle ["@ + decimal_text((i + 1) as nat) + "]: "@ + cycle_text(
        table@,
        c@,
        c@.len() as int,
    ) + " -> "@ + quoted(table@[c@[0] as int]));
    message
}

/// Reports the circuits among the "Base" references of the descriptors of
/// `cd`. A reference to a descriptor that is not defined is no edge: it
/// lies on no circuit. Returns the drawing of the graph where the options
/// ask for it.
pub fn lint_cyclic_enemy_descriptor_references(
    config: &Config,
    vocabulary: &Vocabulary,
    cd: &CustomDifficulty,
    diag: &mut Vec<Diagnostic>,
) -> (drawing: Option<String>)
    ensures
        views(final(diag)@) == views(old(diag)@) + cyclic_findings(config, vocabulary, cd),
        drawing.is_some() == config.generate_cyclic_reference_graph,
        drawing matches Some(text) ==> text@ == base_graph_drawing(config, vocabulary, cd),
{
    let mut table = NameTable::new();
    assert(table@ =~= Seq::<Seq<char>>::empty());
    enter_names(&mut table, &config.extra_enemy_descriptors);
    enter_names(&mut table, &vocabulary.enemy_descriptors);
    let count = cd.enemy_descriptors.val.len();
    let ghost defined = descriptor_names(cd);
    let ghost entered = table@;
    let mut k: usize = 0;
    while k < count
        invariant
            k <= count,
            count == cd.enemy_descriptors.val@.len(),
            defined == descriptor_names(cd),
            table.wf(),
            table@ == with_names(entered, defined, k as int),
        decreases count - k,
    {
        let _ = table.intern(cd.enemy_descriptors.val[k].0.val.clone());
        k += 1;
    }
    assert(table@ == vertices(config, vocabulary, cd));
    let n = table.len();
    let mut graph = Digraph::new(n);
    let mut edges: Vec<(usize, usize)> = Vec::new();
    proof {
        assert forall|v: int| 0 <= v < n implies #[trigger] graph@[v] == Seq::<usize>::empty() by {
            assert(graph@[v] =~= Seq::<usize>::empty());
        }
        assert(graph@ =~= graph_of(n as nat, edges@, 0));
    }
    k = 0;
    while k < count
        invariant
            k <= count,
            count == cd.enemy_descriptors.val@.len(),
            table.wf(),
            n == table@.len(),
            graph.wf(),
            graph@.len() == n,
            edges@ == base_edges(table@, cd, k as int),
            graph@ == graph_of(n as nat, edges@, edges@.len() as int),
            forall|e: int| 0 <= e < edges@.len() ==> (#[trigger] edges@[e]).0 < n && edges@[e].1 < n,
        decreases count - k,
    {
        let entry = &cd.enemy_descriptors.val[k];
        let from = table.find(entry.0.val.as_str());
        let to = table.find(entry.1.val.base.val.as_str());
        match (from, to) {
            (Some(a), Some(b)) => {
                let ghost before = edges@;
                edges.push((a, b));
                graph.add_edge(a, b);
                proof {
                    assert(edges@.subrange(0, before.len() as int) =~= before.subrange(0, before.len() as int));
                    lemma_graph_of_prefix(n as nat, edges@, before, before.len() as int);
                }
            },
            _ => {},
        }
        k += 1;
    }
    assert(graph@ == base_graph(config, vocabulary, cd));
    let circuits = elementary_circuits(&graph);
    let ghost found = lists(circuits@);
    let mut loops: Vec<usize> = Vec::new();
    let mut cycles: Vec<Vec<usize>> = Vec::new();
    let mut i: usize = 0;
    assert(lists(cycles@) =~= proper_cycles(found, 0));
    while i < circuits.len()
        invariant
            i <= circuits@.len(),
            found == lists(circuits@),
            all_circuits(graph@, found),
            graph@.len() == n,
            loops@ == loop_nodes(found, i as int),
            lists(cycles@) == proper_cycles(found, i as int),
            forall|e: int| 0 <= e < loops@.len() ==> (#[trigger] loops@[e]) < n,
            forall|e: int, j: int|
                0 <= e < cycles@.len() && 0 <= j < cycles@[e]@.len() ==> (#[trigger] cycles@[e]@[j]) < n,
            forall|e: int| 0 <= e < cycles@.len() ==> (#[trigger] cycles@[e])@.len() > 0,
        decreases circuits@.len() - i,
    {
        let c = &circuits[i];
        proof {
            assert(found[i as int] == c@);
            assert(is_circuit(graph@, found[i as int]));
        }
        if c.len() == 1 {
            loops.push(c[0]);
        } else {
            let ghost before = lists(cycles@);
            let ghost kept = cycles@;
            let copy = c.clone();
            assert(copy@ =~= c@);
            cycles.push(copy);
            proof {
                assert(lists(cycles@) =~= before.push(c@));
                assert forall|e: int, j: int|
                    0 <= e < cycles@.len() && 0 <= j < cycles@[e]@.len() implies (
                #[trigger] cycles@[e]@[j]) < n by {
                    if e < kept.len() {
                        assert(cycles@[e] == kept[e]);
                    } else {
                        assert(cycles@[e]@[j] == c@[j]);
                    }
                }
                assert forall|e: int| 0 <= e < cycles@.len() implies (#[trigger] cycles@[e])@.len() > 0 by {
                    if e < kept.len() {
                        assert(cycles@[e] == kept[e]);
                    }
                }
            }
        }
        i += 1;
    }
    let ghost start = views(diag@);
    let ghost cycle_lists = lists(cycles@);
    if cycles.len() > 0 {
        let d = Diagnostic::new(
            Severity::Error,
            cd.enemy_descriptors.span.lo,
            String::from_str("cycle detected in Enemy Descriptor \"Base\" references"),
        );
        report(diag, d);
    }
    let ghost headed = views(diag@);
    let order = declared_descriptors(cd);
    let mut l: usize = 0;
    assert(views(diag@) =~= headed + interactions(cd, table@, loops@, 0));
    while l < loops.len()
        invariant
            l <= loops@.len(),
            n == table@.len(),
            order@ == declared(cd),
            numbers_descriptors(cd, order@),
            forall|e: int| 0 <= e < loops@.len() ==> (#[trigger] loops@[e]) < n,
            views(diag@) == headed + interactions(cd, table@, loops@, l as int),
        decreases loops@.len() - l,
    {
        let name = table.name(loops[l]);
        let ghost before = views(diag@);
        match find_descriptor(cd, name.as_str()) {
            Some(at) => {
                report_interactions(cd, at, &order, diag);
            },
            None => {},
        }
        assert(views(diag@) =~= headed + interactions(cd, table@, loops@, l + 1));
        l += 1;
    }
    let ghost listed = views(diag@);
    let mut c: usize = 0;
    assert(views(diag@) =~= listed + cycle_errors(cd, table@, cycle_lists, 0));
    while c < cycles.len()
        invariant
            c <= cycles@.len(),
            n == table@.len(),
            cycle_lists == lists(cycles@),
            forall|e: int, j: int|
                0 <= e < cycles@.len() && 0 <= j < cycles@[e]@.len() ==> (#[trigger] cycles@[e]@[j]) < n,
            forall|e: int| 0 <= e < cycles@.len() ==> (#[trigger] cycles@[e])@.len() > 0,
            views(diag@) == listed + cycle_errors(cd, table@, cycle_lists, c as int),
        decreases cycles@.len() - c,
    {
        let message = cycle_message(&table, c, &cycles[c]);
        let d = Diagnostic::new(Severity::Error, cd.enemy_descriptors.span.lo, message);
        proof {
            assert(cycle_lists[c as int] == cycles@[c as int]@);
            assert(d@ == cycle_error(cd, table@, c as int, cycle_lists[c as int]));
        }
        report(diag, d);
        assert(views(diag@) =~= listed + cycle_errors(cd, table@, cycle_lists, c + 1));
        c += 1;
    }
    proof {
        assert(views(diag@) =~= views(old(diag)@) + cyclic_findings(config, vocabulary, cd));
    }
    if config.generate_cyclic_reference_graph {
        Some(dot_source(&table, &edges))
    } else {
        None
    }
}

} // verus!
