//! The parse tree: a JSON value in which every part keeps its span.

use crate::number::{Number, NumberView};
use crate::span::{Span, Spanned};
use vstd::prelude::*;

verus! {

/// A string with the span of the text it was read from, quotes included.
#[derive(Debug, Clone)]
pub struct SpannedString {
    pub span: Span,
    pub value: String,
}

/// The kinds of JSON value.
#[derive(Debug, Clone, Copy, PartialEq, Eq, Structural)]
pub enum JsonKind {
    Invalid,
    Null,
    Bool,
    String,
    Number,
    Array,
    Object,
}

/// A JSON value. The members of an object are kept in the order of the
/// input, a repeated key with each of its values.
#[derive(Debug)]
pub enum Json {
    Invalid,
    Null,
    Bool(bool),
    Str(String),
    Num(Number),
    Array(Vec<Spanned<Json>>),
    Object(Vec<(SpannedString, Spanned<Json>)>),
}

/// A JSON value as a mathematical value.
pub ghost enum JsonView {
    Invalid,
    Null,
    Bool(bool),
    Str(Seq<char>),
    Num(NumberView),
    Array(Seq<NodeView>),
    Object(Seq<MemberView>),
}

/// A JSON value with its span.
pub ghost struct NodeView {
    pub span: Span,
    pub value: JsonView,
}

/// A member of an object: its key with the span of the key, and its value.
pub ghost struct MemberView {
    pub key_span: Span,
    pub key: Seq<char>,
    pub value: NodeView,
}

/// The value of `node` with its span, as a mathematical value.
pub open spec fn node_view(node: &Spanned<Json>) -> NodeView
    decreases node,
{
    NodeView { span: node.span, value: json_view(&node.val) }
}

/// `json` as a mathematical value.
pub open spec fn json_view(json: &Json) -> JsonView
    decreases json,
{
    match json {
        Json::Invalid => JsonView::Invalid,
        Json::Null => JsonView::Null,
        Json::Bool(b) => JsonView::Bool(*b),
        Json::Str(s) => JsonView::Str(s@),
        Json::Num(n) => JsonView::Num(n@),
        Json::Array(items) => JsonView::Array(
            Seq::new(
                items@.len(),
                |i: int|
                    if 0 <= i < items@.len() {
                        node_view(&items@[i])
                    } else {
                        NodeView { span: Span::spec_dummy(), value: JsonView::Invalid }
                    },
            ),
        ),
        Json::Object(members) => JsonView::Object(
            Seq::new(
                members@.len(),
                |i: int|
                    MemberView {
                        key_span: members@[i].0.span,
                        key: members@[i].0.value@,
                        value: if 0 <= i < members@.len() {
                            node_view(&members@[i].1)
                        } else {
                            NodeView { span: Span::spec_dummy(), value: JsonView::Invalid }
                        },
                    },
            ),
        ),
    }
}

impl JsonKind {
    pub open spec fn desc(self) -> Seq<char> {
        match self {
            JsonKind::Invalid => "invalid"@,
            JsonKind::Null => "null"@,
            JsonKind::Bool => "bool"@,
            JsonKind::String => "string"@,
            JsonKind::Number => "number"@,
            JsonKind::Array => "array"@,
            JsonKind::Object => "object"@,
        }
    }

    /// The name of the kind, as diagnostics give it.
    pub fn kind_desc(self) -> (name: &'static str)
        ensures
            name@ == self.desc(),
    {
        match self {
            JsonKind::Invalid => "invalid",
            JsonKind::Null => "null",
            JsonKind::Bool => "bool",
            JsonKind::String => "string",
            JsonKind::Number => "number",
            JsonKind::Array => "array",
            JsonKind::Object => "object",
        }
    }
}

impl Json {
    pub open spec fn spec_kind(&self) -> JsonKind {
        match self {
            Json::Invalid => JsonKind::Invalid,
            Json::Null => JsonKind::Null,
            Json::Bool(_) => JsonKind::Bool,
            Json::Str(_) => JsonKind::String,
            Json::Num(_) => JsonKind::Number,
            Json::Array(_) => JsonKind::Array,
            Json::Object(_) => JsonKind::Object,
        }
    }

    pub fn kind(&self) -> (kind: JsonKind)
        ensures
            kind == self.spec_kind(),
    {
        match self {
            Json::Invalid => JsonKind::Invalid,
            Json::Null => JsonKind::Null,
            Json::Bool(_) => JsonKind::Bool,
            Json::Str(_) => JsonKind::String,
            Json::Num(_) => JsonKind::Number,
            Json::Array(_) => JsonKind::Array,
            Json::Object(_) => JsonKind::Object,
        }
    }

    /// The name of the kind of this value.
    pub fn kind_desc(&self) -> (name: &'static str)
        ensures
            name@ == self.spec_kind().desc(),
    {
        self.kind().kind_desc()
    }
}

} // verus!
