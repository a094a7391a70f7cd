//! The grammar of the input, as functions on its characters: what the
//! parser returns is defined here.

use crate::diagnostic::{Color, DiagnosticView, LabelView, Severity};
use crate::json::{JsonView, MemberView, NodeView};
use crate::number::{NumberView, written};
use crate::source::span_of;
use crate::span::Span;
use vstd::prelude::*;
use vstd::utf8::is_scalar;

verus! {

/// What the text lacks where it cannot be read on.
#[derive(Debug, Clone, Copy, PartialEq, Eq, Structural)]
pub enum SyntaxErrorKind {
    ExpectedValue,
    ExpectedDigit,
    UnterminatedString,
    InvalidEscape,
    ExpectedKey,
    ExpectedColon,
    ExpectedCommaOrBracket,
    ExpectedCommaOrBrace,
    TrailingCharacters,
}

/// The error that ends the reading of a text: its kind, and the place of
/// the character at which it stands.
#[derive(Debug, Clone, Copy, PartialEq, Eq, Structural)]
pub struct SyntaxError {
    pub kind: SyntaxErrorKind,
    pub at: usize,
}

/// What the reading of a part of the text gives: a value and the place
/// behind it, or an error; with either, the spans of the unicode escapes
/// that name no character.
pub ghost enum Parsed<T> {
    Read { value: T, end: int, notes: Seq<Span> },
    Failed { error: SyntaxError, notes: Seq<Span> },
}

pub open spec fn failed<T>(kind: SyntaxErrorKind, at: int, notes: Seq<Span>) -> Parsed<T> {
    Parsed::Failed { error: SyntaxError { kind, at: at as usize }, notes }
}

pub open spec fn is_ws(c: char) -> bool {
    c == ' ' || c == '\t' || c == '\n' || c == '\r'
}

pub open spec fn is_digit_char(c: char) -> bool {
    '0' <= c <= '9'
}

pub open spec fn is_hex_char(c: char) -> bool {
    ('0' <= c <= '9') || ('a' <= c <= 'f') || ('A' <= c <= 'F')
}

/// The number that the hexadecimal digit `c` writes.
pub open spec fn hex_value(c: char) -> u32 {
    if '0' <= c <= '9' {
        (c as u32 - 48) as u32
    } else if 'a' <= c <= 'f' {
        (c as u32 - 87) as u32
    } else {
        (c as u32 - 55) as u32
    }
}

/// The number that the four hexadecimal digits of `s` from `i` on write.
pub open spec fn hex4(s: Seq<char>, i: int) -> u32 {
    (hex_value(s[i]) * 4096 + hex_value(s[i + 1]) * 256 + hex_value(s[i + 2]) * 16 + hex_value(s[i + 3])) as u32
}

/// The place of the first character at or behind `i` that is no white space.
pub open spec fn skip_ws(s: Seq<char>, i: int) -> int
    decreases s.len() - i,
{
    if 0 <= i < s.len() && is_ws(s[i]) {
        skip_ws(s, i + 1)
    } else {
        i
    }
}

/// The place of the first character at or behind `i` that is no digit.
pub open spec fn digits_end(s: Seq<char>, i: int) -> int
    decreases s.len() - i,
{
    if 0 <= i < s.len() && is_digit_char(s[i]) {
        digits_end(s, i + 1)
    } else {
        i
    }
}

/// The characters of `word` stand in `s` from `i` on.
pub open spec fn word_at(s: Seq<char>, i: int, word: Seq<char>) -> bool {
    0 <= i && i + word.len() <= s.len() && s.subrange(i, i + word.len()) == word
}

/// The digits `chars` as bytes.
pub open spec fn digit_bytes(chars: Seq<char>) -> Seq<u8> {
    Seq::new(chars.len(), |k: int| chars[k] as u8)
}

/// The place behind the fraction that begins at `b`, or `b` where none
/// does: a fraction is a point with digits behind it.
pub open spec fn fraction_end(s: Seq<char>, b: int) -> int {
    if b + 1 < s.len() && s[b] == '.' && is_digit_char(s[b + 1]) {
        digits_end(s, b + 1)
    } else {
        b
    }
}

/// The place of the first digit of the exponent that begins at `d`, or -1
/// where none does: an exponent is an `e` or `E`, a sign or none, and digits.
pub open spec fn exponent_digits(s: Seq<char>, d: int) -> int {
    if 0 <= d < s.len() && (s[d] == 'e' || s[d] == 'E') {
        let g = if d + 1 < s.len() && (s[d + 1] == '+' || s[d + 1] == '-') {
            d + 2
        } else {
            d + 1
        };
        if g < s.len() && is_digit_char(s[g]) {
            g
        } else {
            -1
        }
    } else {
        -1
    }
}

/// The number that stands at `i`: a minus sign or none, then `0` or digits
/// that do not begin with `0`, then a fraction or none, then an exponent
/// or none.
pub open spec fn number_at(s: Seq<char>, i: int) -> Parsed<NumberView> {
    let negative = 0 <= i < s.len() && s[i] == '-';
    let a = if negative {
        i + 1
    } else {
        i
    };
    if !(0 <= a < s.len() && is_digit_char(s[a])) {
        failed(SyntaxErrorKind::ExpectedDigit, a, Seq::empty())
    } else {
        let b = if s[a] == '0' {
            a + 1
        } else {
            digits_end(s, a)
        };
        let d = fraction_end(s, b);
        let g = exponent_digits(s, d);
        let e = if g >= 0 {
            digits_end(s, g)
        } else {
            d
        };
        Parsed::Read {
            value: written(
                negative,
                digit_bytes(s.subrange(a, b)),
                if d > b {
                    digit_bytes(s.subrange(b + 1, d))
                } else {
                    Seq::empty()
                },
                g >= 0 && s[g - 1] == '-',
                if g >= 0 {
                    digit_bytes(s.subrange(g, e))
                } else {
                    Seq::empty()
                },
                s.subrange(i, e),
            ),
            end: e,
            notes: Seq::empty(),
        }
    }
}

/// The character that a backslash with `c` behind it writes.
pub open spec fn simple_escape(c: char) -> Option<char> {
    if c == '"' || c == '\\' || c == '/' {
        Some(c)
    } else if c == 'b' {
        Some('\u{8}')
    } else if c == 'f' {
        Some('\u{c}')
    } else if c == 'n' {
        Some('\n')
    } else if c == 'r' {
        Some('\r')
    } else if c == 't' {
        Some('\t')
    } else {
        None
    }
}

/// The rest of a string from `i` on, where `acc` has been read of it: up
/// to the closing quote, every character stands for itself, but for a
/// backslash, which begins an escape. The escape `\u` with four
/// hexadecimal digits writes the character with that code; where there is
/// no such character it writes U+FFFD, and the span of the digits is noted.
pub open spec fn string_from(s: Seq<char>, i: int, acc: Seq<char>, notes: Seq<Span>) -> Parsed<Seq<char>>
    decreases s.len() - i,
{
    if !(0 <= i < s.len()) {
        failed(SyntaxErrorKind::UnterminatedString, s.len() as int, notes)
    } else if s[i] == '"' {
        Parsed::Read { value: acc, end: i + 1, notes }
    } else if s[i] == '\\' {
        if i + 1 >= s.len() {
            failed(SyntaxErrorKind::UnterminatedString, s.len() as int, notes)
        } else if s[i + 1] == 'u' {
            if i + 6 <= s.len() && is_hex_char(s[i + 2]) && is_hex_char(s[i + 3]) && is_hex_char(s[i + 4])
                && is_hex_char(s[i + 5]) {
                let v = hex4(s, i + 2);
                if is_scalar(v) {
                    string_from(s, i + 6, acc.push(v as char), notes)
                } else {
                    string_from(s, i + 6, acc.push('\u{FFFD}'), notes.push(span_of(s, i + 2, i + 6)))
                }
            } else {
                failed(SyntaxErrorKind::InvalidEscape, i, notes)
            }
        } else {
            match simple_escape(s[i + 1]) {
                Some(c) => string_from(s, i + 2, acc.push(c), notes),
                None => failed(SyntaxErrorKind::InvalidEscape, i, notes),
            }
        }
    } else {
        string_from(s, i + 1, acc.push(s[i]), notes)
    }
}

/// The string that stands at `i`, where its opening quote is.
pub open spec fn string_at(s: Seq<char>, i: int) -> Parsed<Seq<char>> {
    string_from(s, i + 1, Seq::empty(), Seq::empty())
}

/// The value that stands at `i`.
pub open spec fn value_at(s: Seq<char>, i: int) -> Parsed<NodeView>
    decreases s.len() - i, 0nat,
{
    if !(0 <= i < s.len()) {
        failed(SyntaxErrorKind::ExpectedValue, i, Seq::empty())
    } else if s[i] == 'n' {
        if word_at(s, i, "null"@) {
            Parsed::Read {
                value: NodeView { span: span_of(s, i, i + 4), value: JsonView::Null },
                end: i + 4,
                notes: Seq::empty(),
            }
        } else {
            failed(SyntaxErrorKind::ExpectedValue, i, Seq::empty())
        }
    } else if s[i] == 't' {
        if word_at(s, i, "true"@) {
            Parsed::Read {
                value: NodeView { span: span_of(s, i, i + 4), value: JsonView::Bool(true) },
                end: i + 4,
                notes: Seq::empty(),
            }
        } else {
            failed(SyntaxErrorKind::ExpectedValue, i, Seq::empty())
        }
    } else if s[i] == 'f' {
        if word_at(s, i, "false"@) {
            Parsed::Read {
                value: NodeView { span: span_of(s, i, i + 5), value: JsonView::Bool(false) },
                end: i + 5,
                notes: Seq::empty(),
            }
        } else {
            failed(SyntaxErrorKind::ExpectedValue, i, Seq::empty())
        }
    } else if s[i] == '-' || is_digit_char(s[i]) {
        match number_at(s, i) {
            Parsed::Read { value, end, notes } => Parsed::Read {
                value: NodeView { span: span_of(s, i, end), value: JsonView::Num(value) },
                end,
                notes,
            },
            Parsed::Failed { error, notes } => Parsed::Failed { error, notes },
        }
    } else if s[i] == '"' {
        match string_at(s, i) {
            Parsed::Read { value, end, notes } => Parsed::Read {
                value: NodeView { span: span_of(s, i, end), value: JsonView::Str(value) },
                end,
                notes,
            },
            Parsed::Failed { error, notes } => Parsed::Failed { error, notes },
        }
    } else if s[i] == '[' {
        let j = skip_ws(s, i + 1);
        if 0 <= j < s.len() && s[j] == ']' {
            Parsed::Read {
                value: NodeView { span: span_of(s, i, j + 1), value: JsonView::Array(Seq::empty()) },
                end: j + 1,
                notes: Seq::empty(),
            }
        } else if i < j <= s.len() {
            items_from(s, j, i, Seq::empty(), Seq::empty())
        } else {
            failed(SyntaxErrorKind::ExpectedValue, j, Seq::empty())
        }
    } else if s[i] == '{' {
        let j = skip_ws(s, i + 1);
        if 0 <= j < s.len() && s[j] == '}' {
            Parsed::Read {
                value: NodeView { span: span_of(s, i, j + 1), value: JsonView::Object(Seq::empty()) },
                end: j + 1,
                notes: Seq::empty(),
            }
        } else if i < j <= s.len() {
            members_from(s, j, i, Seq::empty(), Seq::empty())
        } else {
            failed(SyntaxErrorKind::ExpectedKey, j, Seq::empty())
        }
    } else {
        failed(SyntaxErrorKind::ExpectedValue, i, Seq::empty())
    }
}

/// The array that begins at `start`, of which `items` have been read and
/// the next item stands at `i`: behind an item comes a comma and one more
/// item, or the closing bracket.
pub open spec fn items_from(s: Seq<char>, i: int, start: int, items: Seq<NodeView>, notes: Seq<Span>) -> Parsed<
    NodeView,
>
    decreases s.len() - i, 1nat,
{
    match value_at(s, i) {
        Parsed::Failed { error, notes: more } => Parsed::Failed { error, notes: notes + more },
        Parsed::Read { value, end, notes: more } => {
            let j = skip_ws(s, end);
            let all = items.push(value);
            let noted = notes + more;
            if 0 <= j < s.len() && s[j] == ',' {
                let k = skip_ws(s, j + 1);
                if i < k <= s.len() {
                    items_from(s, k, start, all, noted)
                } else {
                    failed(SyntaxErrorKind::ExpectedValue, k, noted)
                }
            } else if 0 <= j < s.len() && s[j] == ']' {
                Parsed::Read {
                    value: NodeView { span: span_of(s, start, j + 1), value: JsonView::Array(all) },
                    end: j + 1,
                    notes: noted,
                }
            } else {
                failed(SyntaxErrorKind::ExpectedCommaOrBracket, j, noted)
            }
        },
    }
}

/// The object that begins at `start`, of which `members` have been read
/// and the key of the next member stands at `i`: a member is a string, a
/// colon and a value; behind a member comes a comma and one more member,
/// or the closing brace.
pub open spec fn members_from(
    s: Seq<char>,
    i: int,
    start: int,
    members: Seq<MemberView>,
    notes: Seq<Span>,
) -> Parsed<NodeView>
    decreases s.len() - i, 1nat,
{
    if !(0 <= i < s.len() && s[i] == '"') {
        failed(SyntaxErrorKind::ExpectedKey, i, notes)
    } else {
        match string_at(s, i) {
            Parsed::Failed { error, notes: more } => Parsed::Failed { error, notes: notes + more },
            Parsed::Read { value: key, end: key_end, notes: key_notes } => {
                let c = skip_ws(s, key_end);
                if !(0 <= c < s.len() && s[c] == ':') {
                    failed(SyntaxErrorKind::ExpectedColon, c, notes + key_notes)
                } else {
                    let v = skip_ws(s, c + 1);
                    if !(i < v <= s.len()) {
                        failed(SyntaxErrorKind::ExpectedValue, v, notes + key_notes)
                    } else {
                        match value_at(s, v) {
                            Parsed::Failed { error, notes: more } => Parsed::Failed {
                                error,
                                notes: notes + key_notes + more,
                            },
                            Parsed::Read { value, end, notes: more } => {
                                let j = skip_ws(s, end);
                                let all = members.push(
                                    MemberView { key_span: span_of(s, i, key_end), key, value },
                                );
                                let noted = notes + key_notes + more;
                                if 0 <= j < s.len() && s[j] == ',' {
                                    let k = skip_ws(s, j + 1);
                                    if i < k <= s.len() {
                                        members_from(s, k, start, all, noted)
                                    } else {
                                        failed(SyntaxErrorKind::ExpectedKey, k, noted)
                                    }
                                } else if 0 <= j < s.len() && s[j] == '}' {
                                    Parsed::Read {
                                        value: NodeView {
                                            span: span_of(s, start, j + 1),
                                            value: JsonView::Object(all),
                                        },
                                        end: j + 1,
                                        notes: noted,
                                    }
                                } else {
                                    failed(SyntaxErrorKind::ExpectedCommaOrBrace, j, noted)
                                }
                            },
                        }
                    }
                }
            },
        }
    }
}

/// The document that `s` is: one value, with white space around it and
/// nothing else.
pub open spec fn document(s: Seq<char>) -> Parsed<NodeView> {
    match value_at(s, skip_ws(s, 0)) {
        Parsed::Failed { error, notes } => Parsed::Failed { error, notes },
        Parsed::Read { value, end, notes } => {
            let j = skip_ws(s, end);
            if j >= s.len() {
                Parsed::Read { value, end: j, notes }
            } else {
                failed(SyntaxErrorKind::TrailingCharacters, j, notes)
            }
        },
    }
}

impl SyntaxErrorKind {
    /// What a diagnostic says of an error of this kind.
    pub open spec fn message(self) -> Seq<char> {
        match self {
            SyntaxErrorKind::ExpectedValue => "expected a value"@,
            SyntaxErrorKind::ExpectedDigit => "expected a digit"@,
            SyntaxErrorKind::UnterminatedString => "unterminated string"@,
            SyntaxErrorKind::InvalidEscape => "invalid escape character"@,
            SyntaxErrorKind::ExpectedKey => "expected an object member"@,
            SyntaxErrorKind::ExpectedColon => "expected ':'"@,
            SyntaxErrorKind::ExpectedCommaOrBracket => "expected ',' or ']'"@,
            SyntaxErrorKind::ExpectedCommaOrBrace => "expected ',' or '}'"@,
            SyntaxErrorKind::TrailingCharacters => "expected the end of the input"@,
        }
    }
}

/// The span of the character at `at`, which is empty at the end of the text.
pub open spec fn error_span(s: Seq<char>, at: int) -> Span {
    if 0 <= at < s.len() {
        span_of(s, at, at + 1)
    } else {
        span_of(s, s.len() as int, s.len() as int)
    }
}

/// The diagnostic for a syntax error: it marks the character at which the error stands.
pub open spec fn error_diagnostic(s: Seq<char>, error: SyntaxError) -> DiagnosticView {
    let span = error_span(s, error.at as int);
    DiagnosticView {
        severity: Severity::Error,
        offset: span.lo,
        message: error.kind.message(),
        labels: seq![LabelView { span, color: Color::Red, message: Some(error.kind.message()) }],
        help: None,
    }
}

/// The diagnostic for a unicode escape that names no character.
pub open spec fn note_diagnostic(span: Span) -> DiagnosticView {
    DiagnosticView {
        severity: Severity::Error,
        offset: span.lo,
        message: "invalid unicode character"@,
        labels: seq![LabelView { span, color: Color::Red, message: Some("invalid unicode character"@) }],
        help: None,
    }
}

/// The diagnostics for the first `upto` of the escapes noted.
pub open spec fn note_diagnostics(notes: Seq<Span>, upto: int) -> Seq<DiagnosticView>
    decreases upto,
{
    if upto <= 0 || upto > notes.len() {
        Seq::empty()
    } else {
        note_diagnostics(notes, upto - 1).push(note_diagnostic(notes[upto - 1]))
    }
}

/// The diagnostics of the reading of `s`: one for each unicode escape that
/// names no character, in their order, and behind them the error that
/// ended the reading, where one did.
pub open spec fn syntax_diagnostics(s: Seq<char>) -> Seq<DiagnosticView> {
    match document(s) {
        Parsed::Read { notes, .. } => note_diagnostics(notes, notes.len() as int),
        Parsed::Failed { error, notes } => note_diagnostics(notes, notes.len() as int).push(
            error_diagnostic(s, error),
        ),
    }
}

/// The tree of the document `s`, where it can be read.
pub open spec fn document_tree(s: Seq<char>) -> Option<NodeView> {
    match document(s) {
        Parsed::Read { value, .. } => Some(value),
        Parsed::Failed { .. } => None,
    }
}

} // verus!
