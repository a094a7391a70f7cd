//! The name of a Custom Difficulty must not be blank.

use crate::config::Config;
use crate::custom_difficulty::CustomDifficulty;
use crate::diagnostic::{Color, Diagnostic, DiagnosticView, Label, LabelView, report, Severity, views};
use crate::text::{trim, trimmed};
use vstd::prelude::*;
use vstd::string::*;

verus! {

/// The name is empty once the white space around it is taken off.
pub open spec fn name_is_blank(cd: &CustomDifficulty) -> bool {
    trimmed(cd.name.val@).len() == 0
}

/// The warning for a blank name: it marks the name.
pub open spec fn empty_name_warning(cd: &CustomDifficulty) -> DiagnosticView {
    DiagnosticView {
        severity: Severity::Warning,
        offset: cd.name.span.lo,
        message: "custom difficulty name is empty"@,
        labels: seq![LabelView { span: cd.name.span, color: Color::Yellow, message: None }],
        help: None,
    }
}

/// What the lint reports for `cd`.
pub open spec fn empty_cd_name_findings(cd: &CustomDifficulty) -> Seq<DiagnosticView> {
    if name_is_blank(cd) {
        seq![empty_name_warning(cd)]
    } else {
        Seq::empty()
    }
}

/// Whether the white space around `name` is all there is to it.
pub fn is_blank(name: &str) -> (blank: bool)
    ensures
        blank == (trimmed(name@).len() == 0),
{
    trim(name).unicode_len() == 0
}

/// Warns where the name of the Custom Difficulty is blank.
pub fn lint_empty_cd_name(_config: &Config, cd: &CustomDifficulty, diag: &mut Vec<Diagnostic>)
    ensures
        views(final(diag)@) == views(old(diag)@) + empty_cd_name_findings(cd),
{
    if is_blank(cd.name.val.as_str()) {
        let d = Diagnostic::new(
            Severity::Warning,
            cd.name.span.lo,
            String::from_str("custom difficulty name is empty"),
        ).with_label(Label::new(cd.name.span, Color::Yellow));
        assert(d@.labels =~= seq![LabelView { span: cd.name.span, color: Color::Yellow, message: None }]);
        report(diag, d);
        assert(views(diag@) =~= views(old(diag)@) + empty_cd_name_findings(cd));
    } else {
        assert(views(diag@) =~= views(old(diag)@) + empty_cd_name_findings(cd));
    }
}

/// The error for a blank name, as the first pass over a document gives it.
pub open spec fn empty_name_error(cd: &CustomDifficulty) -> DiagnosticView {
    DiagnosticView {
        severity: Severity::Error,
        offset: cd.name.span.lo,
        message: "the Custom Difficulty has an empty name"@,
        labels: seq![LabelView { span: cd.name.span, color: Color::Red, message: None }],
        help: None,
    }
}

/// The errors about the name of `cd`: one where it is blank, else none.
pub fn lint_empty_name(cd: &CustomDifficulty) -> (errors: Vec<Diagnostic>)
    ensures
        views(errors@) == if name_is_blank(cd) {
            seq![empty_name_error(cd)]
        } else {
            Seq::<DiagnosticView>::empty()
        },
{
    let mut errors: Vec<Diagnostic> = Vec::new();
    assert(views(errors@) =~= Seq::<DiagnosticView>::empty());
    if is_blank(cd.name.val.as_str()) {
        let d = Diagnostic::new(
            Severity::Error,
            cd.name.span.lo,
            String::from_str("the Custom Difficulty has an empty name"),
        ).with_label(Label::new(cd.name.span, Color::Red));
        assert(d@.labels =~= seq![LabelView { span: cd.name.span, color: Color::Red, message: None }]);
        report(&mut errors, d);
        assert(views(errors@) =~= seq![empty_name_error(cd)]);
    }
    errors
}

} // verus!
