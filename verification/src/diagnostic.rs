//! Diagnostics: what every stage reports, as data.

use crate::span::Span;
use vstd::prelude::*;

verus! {

#[derive(Debug, Clone, Copy, PartialEq, Eq, Structural)]
pub enum Severity {
    Error,
    Warning,
}

/// What a label marks: the offending text, or text that is merely relevant.
#[derive(Debug, Clone, Copy, PartialEq, Eq, Structural)]
pub enum Color {
    Red,
    Yellow,
}

/// A span of the input with a colour and, where there is one, a message.
#[derive(Debug)]
pub struct Label {
    pub span: Span,
    pub color: Color,
    pub message: Option<String>,
}

/// One report: its severity, the offset it is about, a message, labels in
/// order, and a help text where there is one.
#[derive(Debug)]
pub struct Diagnostic {
    pub severity: Severity,
    pub offset: usize,
    pub message: String,
    pub labels: Vec<Label>,
    pub help: Option<String>,
}

pub ghost struct LabelView {
    pub span: Span,
    pub color: Color,
    pub message: Option<Seq<char>>,
}

pub ghost struct DiagnosticView {
    pub severity: Severity,
    pub offset: usize,
    pub message: Seq<char>,
    pub labels: Seq<LabelView>,
    pub help: Option<Seq<char>>,
}

pub open spec fn text_view(text: Option<String>) -> Option<Seq<char>> {
    match text {
        Some(t) => Some(t@),
        None => None,
    }
}

impl Label {
    pub open spec fn view(&self) -> LabelView {
        LabelView { span: self.span, color: self.color, message: text_view(self.message) }
    }

    /// A label without a message.
    pub fn new(span: Span, color: Color) -> (label: Label)
        ensures
            label@ == (LabelView { span, color, message: None }),
    {
        Label { span, color, message: None }
    }

    /// A label with a message.
    pub fn with_message(span: Span, color: Color, message: String) -> (label: Label)
        ensures
            label@ == (LabelView { span, color, message: Some(message@) }),
    {
        Label { span, color, message: Some(message) }
    }
}

/// The labels of `labels` as mathematical values.
pub open spec fn label_views(labels: Seq<Label>) -> Seq<LabelView> {
    Seq::new(labels.len(), |i: int| labels[i]@)
}

impl Diagnostic {
    pub open spec fn view(&self) -> DiagnosticView {
        DiagnosticView {
            severity: self.severity,
            offset: self.offset,
            message: self.message@,
            labels: label_views(self.labels@),
            help: text_view(self.help),
        }
    }

    /// A diagnostic with no label and no help text.
    pub fn new(severity: Severity, offset: usize, message: String) -> (d: Diagnostic)
        ensures
            d@ == (DiagnosticView { severity, offset, message: message@, labels: Seq::empty(), help: None }),
    {
        let d = Diagnostic { severity, offset, message, labels: Vec::new(), help: None };
        assert(label_views(d.labels@) =~= Seq::<LabelView>::empty());
        d
    }

    /// Adds `label` behind the labels there are.
    pub fn with_label(self, label: Label) -> (d: Diagnostic)
        ensures
            d@ == (DiagnosticView { labels: self@.labels.push(label@), ..self@ }),
    {
        let mut d = self;
        d.labels.push(label);
        assert(label_views(d.labels@) =~= label_views(self.labels@).push(label@));
        d
    }

    /// Sets the help text.
    pub fn with_help(self, help: String) -> (d: Diagnostic)
        ensures
            d@ == (DiagnosticView { help: Some(help@), ..self@ }),
    {
        let mut d = self;
        d.help = Some(help);
        d
    }
}

/// The diagnostics of `diags` as mathematical values.
pub open spec fn views(diags: Seq<Diagnostic>) -> Seq<DiagnosticView> {
    Seq::new(diags.len(), |i: int| diags[i]@)
}

/// Adds `d` to `diags`.
pub fn report(diags: &mut Vec<Diagnostic>, d: Diagnostic)
    ensures
        views(final(diags)@) == views(old(diags)@).push(d@),
{
    diags.push(d);
    assert(views(diags@) =~= views(old(diags)@).push(d@));
}

} // verus!
