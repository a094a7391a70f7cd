//! The whole analysis: the text is parsed, the tree decoded, and the
//! decoded document linted.

use crate::config::{Config, Vocabulary};
use crate::custom_difficulty::CustomDifficulty;
use crate::decoder::{decode, decode_findings, document_object_value};
use crate::diagnostic::{Diagnostic, DiagnosticView, views};
use crate::grammar::{document_tree, syntax_diagnostics};
use crate::json::{Json, node_view};
use crate::late_lints::ambiguous_enemy_pool_add_remove::{
    ambiguous_findings, lint_ambiguous_enemy_pool_add_remove,
};
use crate::late_lints::cyclic_enemy_descriptor_references::{
    base_graph_drawing, cyclic_findings, lint_cyclic_enemy_descriptor_references,
};
use crate::late_lints::empty_cd_name::{empty_cd_name_findings, lint_empty_cd_name};
use crate::late_lints::min_larger_than_max::{lint_min_larger_than_max, min_max_findings};
use crate::late_lints::undefined_enemy_descriptors::{lint_undefined_enemy_descriptors, undefined_findings};
use crate::late_lints::unused_custom_enemy_descriptors::{
    lint_unused_custom_enemy_descriptors, unused_findings,
};
use crate::parser::parser;
use crate::span::Spanned;
use vstd::prelude::*;

verus! {

/// How far an analysis came.
#[derive(Debug, Clone, Copy, PartialEq, Eq, Structural)]
pub enum Status {
    /// The text was parsed, decoded and linted.
    Complete,
    /// The text is no JSON value.
    Unparseable,
    /// The text is a JSON value, but no object.
    UnexpectedRoot,
}

/// What an analysis gives: the diagnostics in their order, and what was
/// made of the text on the way.
#[derive(Debug)]
pub struct Analysis {
    pub status: Status,
    pub diagnostics: Vec<Diagnostic>,
    pub tree: Option<Spanned<Json>>,
    pub custom_difficulty: Option<CustomDifficulty>,
    /// The drawing of the graph of the "Base" references, where the
    /// options ask for it.
    pub drawing: Option<String>,
}

/// What the lints report for `cd`, each lint in its turn.
#[verifier::opaque]
pub open spec fn lint_findings(config: &Config, vocabulary: &Vocabulary, cd: &CustomDifficulty) -> Seq<
    DiagnosticView,
> {
    empty_cd_name_findings(cd) + undefined_findings(config, vocabulary, cd) + min_max_findings(cd)
        + unused_findings(config, vocabulary, cd) + ambiguous_findings(cd) + cyclic_findings(
        config,
        vocabulary,
        cd,
    )
}

/// Runs the lints on `cd`. Returns the drawing of the graph of the "Base"
/// references where the options ask for it.
pub fn run_lints(config: &Config, vocabulary: &Vocabulary, cd: &CustomDifficulty, diag: &mut Vec<Diagnostic>) -> (drawing: Option<String>)
    ensures
        views(final(diag)@) == views(old(diag)@) + lint_findings(config, vocabulary, cd),
        drawing.is_some() == config.generate_cyclic_reference_graph,
        drawing matches Some(text) ==> text@ == base_graph_drawing(config, vocabulary, cd),
{
    reveal(lint_findings);
    lint_empty_cd_name(config, cd, diag);
    lint_undefined_enemy_descriptors(config, vocabulary, cd, diag);
    lint_min_larger_than_max(config, cd, diag);
    lint_unused_custom_enemy_descriptors(config, vocabulary, cd, diag);
    lint_ambiguous_enemy_pool_add_remove(config, cd, diag);
    let drawing = lint_cyclic_enemy_descriptor_references(config, vocabulary, cd, diag);
    assert(views(diag@) =~= views(old(diag)@) + lint_findings(config, vocabulary, cd));
    drawing
}

impl Analysis {
    /// The analysis is that of `text`: its diagnostics are those of the
    /// parser, then those of the decoder, then those of the lints, as far
    /// as the analysis came.
    pub open spec fn is_of(&self, text: Seq<char>, config: &Config, vocabulary: &Vocabulary) -> bool {
        match document_tree(text) {
            None => {
                &&& self.status == Status::Unparseable
                &&& self.tree.is_none()
                &&& self.custom_difficulty.is_none()
                &&& self.drawing.is_none()
                &&& views(self.diagnostics@) == syntax_diagnostics(text)
            },
            Some(root) => {
                &&& self.tree matches Some(tree) && node_view(&tree) == root && match tree.val {
                    Json::Object(members) => {
                        &&& self.status == Status::Complete
                        &&& self.custom_difficulty matches Some(cd) && document_object_value(
                            members@,
                            &cd,
                            vocabulary,
                        ) && views(self.diagnostics@) == syntax_diagnostics(text) + decode_findings(
                            &tree,
                            vocabulary,
                        ) + lint_findings(config, vocabulary, &cd) && (self.drawing matches Some(drawing)
                            ==> drawing@ == base_graph_drawing(config, vocabulary, &cd))
                        &&& self.drawing.is_some() == config.generate_cyclic_reference_graph
                    },
                    _ => {
                        &&& self.status == Status::UnexpectedRoot
                        &&& self.custom_difficulty.is_none()
                        &&& self.drawing.is_none()
                        &&& views(self.diagnostics@) == syntax_diagnostics(text)
                    },
                }
            },
        }
    }
}

/// Analyses `text`: parses it, decodes the tree, and lints the document.
pub fn analyse(text: &str, config: &Config, vocabulary: &Vocabulary) -> (analysis: Analysis)
    ensures
        analysis.is_of(text@, config, vocabulary),
{
    let (tree, mut diagnostics) = parser(text);
    match tree {
        None => Analysis {
            status: Status::Unparseable,
            diagnostics,
            tree: None,
            custom_difficulty: None,
            drawing: None,
        },
        Some(tree) => {
            let ghost parsed = views(diagnostics@);
            match decode(&tree, vocabulary, &mut diagnostics) {
                None => {
                    assert(views(diagnostics@) =~= parsed);
                    Analysis {
                        status: Status::UnexpectedRoot,
                        diagnostics,
                        tree: Some(tree),
                        custom_difficulty: None,
                        drawing: None,
                    }
                },
                Some(cd) => {
                    let drawing = run_lints(config, vocabulary, &cd, &mut diagnostics);
                    Analysis {
                        status: Status::Complete,
                        diagnostics,
                        tree: Some(tree),
                        custom_difficulty: Some(cd),
                        drawing,
                    }
                },
            }
        },
    }
}

} // verus!
