//! The options of the lints.

use crate::text::str_eq;
use vstd::prelude::*;

verus! {

/// The options of the lints.
#[derive(Debug)]
pub struct Config {
    /// Enemy descriptors that count as defined besides the built-in ones.
    pub extra_enemy_descriptors: Vec<String>,
    /// Whether the graph of the "Base" references is to be drawn.
    pub generate_cyclic_reference_graph: bool,
}

/// The names that the game defines.
#[derive(Debug)]
pub struct Vocabulary {
    /// The enemy descriptors that the game ships.
    pub enemy_descriptors: Vec<String>,
    /// The keys of the stats of a pawn.
    pub pawn_stats: Vec<String>,
}

/// The texts of `names`.
pub open spec fn names_view(names: Seq<String>) -> Seq<Seq<char>> {
    Seq::new(names.len(), |i: int| names[i]@)
}

/// Whether `name` is one of `names`.
pub fn contains_name(names: &Vec<String>, name: &str) -> (found: bool)
    ensures
        found == names_view(names@).contains(name@),
{
    let mut i: usize = 0;
    while i < names.len()
        invariant
            i <= names@.len(),
            forall|k: int| 0 <= k < i ==> names_view(names@)[k] != name@,
        decreases names@.len() - i,
    {
        if str_eq(names[i].as_str(), name) {
            assert(names_view(names@)[i as int] == name@);
            return true;
        }
        i += 1;
    }
    false
}

impl Config {
    /// No extra descriptors, and no graph.
    pub fn new() -> (config: Config)
        ensures
            config.extra_enemy_descriptors@.len() == 0,
            !config.generate_cyclic_reference_graph,
    {
        Config { extra_enemy_descriptors: Vec::new(), generate_cyclic_reference_graph: false }
    }
}

} // verus!
