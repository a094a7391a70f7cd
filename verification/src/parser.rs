//! The parser: a recursive descent through the text that keeps the span of
//! every part it reads.

use crate::diagnostic::{Color, Diagnostic, Label, report, Severity, views};
use crate::grammar::{
    digit_bytes, digits_end, document_tree, error_diagnostic, exponent_digits, fraction_end, hex4, hex_value,
    is_digit_char, is_hex_char, is_ws, items_from, members_from, note_diagnostic, note_diagnostics, number_at,
    Parsed, simple_escape, skip_ws, string_at, string_from, syntax_diagnostics, SyntaxError, SyntaxErrorKind,
    value_at, word_at,
};
use crate::json::{Json, json_view, MemberView, node_view, NodeView, SpannedString};
use crate::number::{all_digits, is_digit, Number};
use crate::source::{Source, span_of};
use crate::span::{Span, Spanned};
use vstd::prelude::*;
use vstd::string::*;
use vstd::utf8::is_scalar;

verus! {

impl SyntaxErrorKind {
    /// What a diagnostic says of an error of this kind.
    pub fn describe(self) -> (text: &'static str)
        ensures
            text@ == self.message(),
    {
        match self {
            SyntaxErrorKind::ExpectedValue => "expected a value",
            SyntaxErrorKind::ExpectedDigit => "expected a digit",
            SyntaxErrorKind::UnterminatedString => "unterminated string",
            SyntaxErrorKind::InvalidEscape => "invalid escape character",
            SyntaxErrorKind::ExpectedKey => "expected an object member",
            SyntaxErrorKind::ExpectedColon => "expected ':'",
            SyntaxErrorKind::ExpectedCommaOrBracket => "expected ',' or ']'",
            SyntaxErrorKind::ExpectedCommaOrBrace => "expected ',' or '}'",
            SyntaxErrorKind::TrailingCharacters => "expected the end of the input",
        }
    }
}

fn whitespace(c: char) -> (b: bool)
    ensures
        b == is_ws(c),
{
    c == ' ' || c == '\t' || c == '\n' || c == '\r'
}

fn digit(c: char) -> (b: bool)
    ensures
        b == is_digit_char(c),
{
    '0' <= c && c <= '9'
}

fn hex_digit(c: char) -> (b: bool)
    ensures
        b == is_hex_char(c),
{
    ('0' <= c && c <= '9') || ('a' <= c && c <= 'f') || ('A' <= c && c <= 'F')
}

fn hex_digit_value(c: char) -> (v: u32)
    requires
        is_hex_char(c),
    ensures
        v == hex_value(c),
        v < 16,
{
    let code = c as u32;
    if '0' <= c && c <= '9' {
        code - 48
    } else if 'a' <= c && c <= 'f' {
        code - 87
    } else {
        code - 55
    }
}

fn skip_whitespace(src: &Source, i: usize) -> (j: usize)
    requires
        i <= src@.len(),
    ensures
        j == skip_ws(src@, i as int),
        i <= j <= src@.len(),
{
    let mut j = i;
    while j < src.chars.len() && whitespace(src.chars[j])
        invariant
            i <= j <= src@.len(),
            skip_ws(src@, j as int) == skip_ws(src@, i as int),
        decreases src@.len() - j,
    {
        j += 1;
    }
    j
}

fn scan_digits(src: &Source, i: usize) -> (j: usize)
    requires
        i <= src@.len(),
    ensures
        j == digits_end(src@, i as int),
        i <= j <= src@.len(),
        forall|k: int| i <= k < j ==> is_digit_char(#[trigger] src@[k]),
{
    let mut j = i;
    while j < src.chars.len() && digit(src.chars[j])
        invariant
            i <= j <= src@.len(),
            digits_end(src@, j as int) == digits_end(src@, i as int),
            forall|k: int| i <= k < j ==> is_digit_char(#[trigger] src@[k]),
        decreases src@.len() - j,
    {
        j += 1;
    }
    j
}

/// The digits `a..b` of the text as bytes.
fn digits_of(src: &Source, a: usize, b: usize) -> (bytes: Vec<u8>)
    requires
        a <= b <= src@.len(),
        forall|k: int| a <= k < b ==> is_digit_char(#[trigger] src@[k]),
    ensures
        bytes@ == digit_bytes(src@.subrange(a as int, b as int)),
        all_digits(bytes@),
{
    let mut bytes: Vec<u8> = Vec::new();
    let mut k: usize = a;
    while k < b
        invariant
            a <= k <= b,
            b <= src@.len(),
            forall|m: int| a <= m < b ==> is_digit_char(#[trigger] src@[m]),
            bytes@.len() == k - a,
            forall|m: int| 0 <= m < k - a ==> #[trigger] bytes@[m] == src@[a + m] as u8,
            all_digits(bytes@),
        decreases b - k,
    {
        let c = src.chars[k];
        assert(is_digit_char(src@[k as int]));
        let code = c as u32;
        let byte = code as u8;
        assert(byte == c as u8);
        assert(is_digit(byte));
        bytes.push(byte);
        k += 1;
    }
    assert(bytes@ =~= digit_bytes(src@.subrange(a as int, b as int)));
    bytes
}

/// Reads the number that stands at `i`.
fn parse_number(src: &Source, i: usize) -> (r: Result<(Number, usize), SyntaxError>)
    requires
        src.wf(),
        i < src@.len(),
    ensures
        match number_at(src@, i as int) {
            Parsed::Read { value, end, notes } => r matches Ok((n, e)) && n@ == value && e == end && i < e
                <= src@.len() && n.wf() && notes.len() == 0,
            Parsed::Failed { error, notes } => r matches Err(e) && e == error && notes.len() == 0,
        },
{
    let n = src.chars.len();
    let negative = src.chars[i] == '-';
    let a = if negative {
        i + 1
    } else {
        i
    };
    if !(a < n && digit(src.chars[a])) {
        return Err(SyntaxError { kind: SyntaxErrorKind::ExpectedDigit, at: a });
    }
    let b = if src.chars[a] == '0' {
        a + 1
    } else {
        scan_digits(src, a + 1)
    };
    proof {
        assert(digits_end(src@, a as int) == digits_end(src@, a + 1));
        assert forall|k: int| a <= k < b implies is_digit_char(#[trigger] src@[k]) by {}
    }
    let d = if b < n && b + 1 < n && src.chars[b] == '.' && digit(src.chars[b + 1]) {
        scan_digits(src, b + 2)
    } else {
        b
    };
    proof {
        if d > b {
            assert(digits_end(src@, b + 1) == digits_end(src@, b + 2));
            assert forall|k: int| b + 1 <= k < d implies is_digit_char(#[trigger] src@[k]) by {}
        }
        assert(d == fraction_end(src@, b as int));
    }
    let mut g: usize = 0;
    let mut has_exponent = false;
    if d < n && (src.chars[d] == 'e' || src.chars[d] == 'E') {
        let first = if d + 1 < n && (src.chars[d + 1] == '+' || src.chars[d + 1] == '-') {
            d + 2
        } else {
            d + 1
        };
        if first < n && digit(src.chars[first]) {
            g = first;
            has_exponent = true;
        }
    }
    assert(has_exponent == (exponent_digits(src@, d as int) >= 0));
    assert(has_exponent ==> g == exponent_digits(src@, d as int));
    let e = if has_exponent {
        scan_digits(src, g + 1)
    } else {
        d
    };
    proof {
        if has_exponent {
            assert(digits_end(src@, g as int) == digits_end(src@, g + 1));
            assert forall|k: int| g <= k < e implies is_digit_char(#[trigger] src@[k]) by {}
        }
    }
    let int_part = digits_of(src, a, b);
    let frac_part = if d > b {
        digits_of(src, b + 1, d)
    } else {
        Vec::new()
    };
    let exp_part = if has_exponent {
        digits_of(src, g, e)
    } else {
        Vec::new()
    };
    let exp_negative = has_exponent && src.chars[g - 1] == '-';
    let text = src.text(i, e);
    let number = Number::from_parts(
        negative,
        int_part.as_slice(),
        frac_part.as_slice(),
        exp_negative,
        exp_part.as_slice(),
        text,
    );
    proof {
        let frac = if d > b {
            digit_bytes(src@.subrange(b + 1, d as int))
        } else {
            Seq::<u8>::empty()
        };
        let exp = if has_exponent {
            digit_bytes(src@.subrange(g as int, e as int))
        } else {
            Seq::<u8>::empty()
        };
        assert(frac_part@ =~= frac);
        assert(exp_part@ =~= exp);
        assert(number@ == crate::number::written(negative, int_part@, frac, exp_negative, exp, text@));
    }
    Ok((number, e))
}

/// The character that a backslash with `c` behind it writes.
fn escape(c: char) -> (r: Option<char>)
    ensures
        r == simple_escape(c),
{
    if c == '"' || c == '\\' || c == '/' {
        Some(c)
    } else if c == 'b' {
        Some('\u{8}')
    } else if c == 'f' {
        Some('\u{c}')
    } else if c == 'n' {
        Some('\n')
    } else if c == 'r' {
        Some('\r')
    } else if c == 't' {
        Some('\t')
    } else {
        None
    }
}

/// Reads the string whose opening quote stands at `i`.
fn parse_string(src: &Source, i: usize, notes: &mut Vec<Span>) -> (r: Result<(String, usize), SyntaxError>)
    requires
        src.wf(),
        i < src@.len(),
    ensures
        match string_at(src@, i as int) {
            Parsed::Read { value, end, notes: more } => r matches Ok((text, e)) && text@ == value && e == end
                && i < e <= src@.len() && final(notes)@ == old(notes)@ + more,
            Parsed::Failed { error, notes: more } => r matches Err(e) && e == error && final(notes)@ == old(
                notes,
            )@ + more,
        },
{
    let n = src.chars.len();
    let mut text = String::new();
    let mut k: usize = i + 1;
    let ghost mut noted: Seq<Span> = Seq::empty();
    assert(notes@ =~= old(notes)@ + noted);
    loop
        invariant
            src.wf(),
            n == src@.len(),
            i < k <= n,
            notes@ == old(notes)@ + noted,
            string_from(src@, k as int, text@, noted) == string_at(src@, i as int),
        decreases n - k,
    {
        if k >= n {
            return Err(SyntaxError { kind: SyntaxErrorKind::UnterminatedString, at: n });
        }
        let c = src.chars[k];
        if c == '"' {
            return Ok((text, k + 1));
        } else if c == '\\' {
            if k + 1 >= n {
                return Err(SyntaxError { kind: SyntaxErrorKind::UnterminatedString, at: n });
            }
            let next = src.chars[k + 1];
            if next == 'u' {
                if n - k >= 6 && hex_digit(src.chars[k + 2]) && hex_digit(src.chars[k + 3]) && hex_digit(
                    src.chars[k + 4],
                ) && hex_digit(src.chars[k + 5]) {
                    let v = hex_digit_value(src.chars[k + 2]) * 4096 + hex_digit_value(src.chars[k + 3]) * 256
                        + hex_digit_value(src.chars[k + 4]) * 16 + hex_digit_value(src.chars[k + 5]);
                    assert(v == hex4(src@, k + 2));
                    match char::from_u32(v) {
                        Some(ch) => {
                            proof {
                                vstd::utf8::char_u32_cast(ch, v);
                            }
                            text.push(ch);
                        },
                        None => {
                            text.push('\u{FFFD}');
                            notes.push(src.span(k + 2, k + 6));
                            proof {
                                noted = noted.push(span_of(src@, k + 2, k + 6));
                                assert(notes@ =~= old(notes)@ + noted);
                            }
                        },
                    }
                    k = k + 6;
                } else {
                    return Err(SyntaxError { kind: SyntaxErrorKind::InvalidEscape, at: k });
                }
            } else {
                match escape(next) {
                    Some(ch) => {
                        text.push(ch);
                        k = k + 2;
                    },
                    None => {
                        return Err(SyntaxError { kind: SyntaxErrorKind::InvalidEscape, at: k });
                    },
                }
            }
        } else {
            text.push(c);
            k = k + 1;
        }
    }
}

/// Whether the characters of `word` stand in the text from `i` on.
fn has_word(src: &Source, i: usize, word: &str) -> (b: bool)
    requires
        i <= src@.len(),
    ensures
        b == word_at(src@, i as int, word@),
{
    let len = word.unicode_len();
    if len > src.chars.len() - i {
        return false;
    }
    let mut k: usize = 0;
    while k < len
        invariant
            k <= len,
            len == word@.len(),
            i + len <= src@.len(),
            src@.len() <= usize::MAX,
            forall|m: int| 0 <= m < k ==> src@[i + m] == word@[m],
        decreases len - k,
    {
        if src.chars[i + k] != word.get_char(k) {
            proof {
                if word_at(src@, i as int, word@) {
                    assert(src@.subrange(i as int, i + len)[k as int] == word@[k as int]);
                }
            }
            return false;
        }
        k += 1;
    }
    assert(src@.subrange(i as int, i + len) =~= word@);
    true
}

fn literal(src: &Source, i: usize, len: usize, value: Json) -> (node: (Spanned<Json>, usize))
    requires
        src.wf(),
        i + len <= src@.len(),
    ensures
        node.0.span == span_of(src@, i as int, i + len),
        node.0.val == value,
        node.1 == i + len,
{
    let n = src.chars.len();
    (Spanned::new(src.span(i, i + len), value), i + len)
}

/// Reads the value that stands at `i`.
fn parse_value(src: &Source, i: usize, notes: &mut Vec<Span>) -> (r: Result<(Spanned<Json>, usize), SyntaxError>)
    requires
        src.wf(),
        i <= src@.len(),
    ensures
        match value_at(src@, i as int) {
            Parsed::Read { value, end, notes: more } => r matches Ok((node, e)) && node_view(&node) == value
                && e == end && i < e <= src@.len() && final(notes)@ == old(notes)@ + more,
            Parsed::Failed { error, notes: more } => r matches Err(e) && e == error && final(notes)@ == old(
                notes,
            )@ + more,
        },
    decreases src@.len() - i, 0nat,
{
    let n = src.chars.len();
    let ghost none = Seq::<Span>::empty();
    assert(notes@ =~= old(notes)@ + none);
    if i >= n {
        return Err(SyntaxError { kind: SyntaxErrorKind::ExpectedValue, at: i });
    }
    proof {
        reveal_strlit("null");
        reveal_strlit("true");
        reveal_strlit("false");
    }
    let c = src.chars[i];
    if c == 'n' {
        if has_word(src, i, "null") {
            Ok(literal(src, i, 4, Json::Null))
        } else {
            Err(SyntaxError { kind: SyntaxErrorKind::ExpectedValue, at: i })
        }
    } else if c == 't' {
        if has_word(src, i, "true") {
            Ok(literal(src, i, 4, Json::Bool(true)))
        } else {
            Err(SyntaxError { kind: SyntaxErrorKind::ExpectedValue, at: i })
        }
    } else if c == 'f' {
        if has_word(src, i, "false") {
            Ok(literal(src, i, 5, Json::Bool(false)))
        } else {
            Err(SyntaxError { kind: SyntaxErrorKind::ExpectedValue, at: i })
        }
    } else if c == '-' || digit(c) {
        match parse_number(src, i) {
            Ok((number, end)) => Ok((Spanned::new(src.span(i, end), Json::Num(number)), end)),
            Err(error) => Err(error),
        }
    } else if c == '"' {
        match parse_string(src, i, notes) {
            Ok((text, end)) => Ok((Spanned::new(src.span(i, end), Json::Str(text)), end)),
            Err(error) => Err(error),
        }
    } else if c == '[' {
        let j = skip_whitespace(src, i + 1);
        if j < n && src.chars[j] == ']' {
            let node = Spanned::new(src.span(i, j + 1), Json::Array(Vec::new()));
            proof {
                assert(json_view(&node.val)->Array_0 =~= Seq::<NodeView>::empty());
            }
            Ok((node, j + 1))
        } else {
            parse_items(src, j, i, notes)
        }
    } else if c == '{' {
        let j = skip_whitespace(src, i + 1);
        if j < n && src.chars[j] == '}' {
            let node = Spanned::new(src.span(i, j + 1), Json::Object(Vec::new()));
            proof {
                assert(json_view(&node.val)->Object_0 =~= Seq::<MemberView>::empty());
            }
            Ok((node, j + 1))
        } else {
            parse_members(src, j, i, notes)
        }
    } else {
        Err(SyntaxError { kind: SyntaxErrorKind::ExpectedValue, at: i })
    }
}

/// Reads the items of the array that begins at `start`; the first item stands at `first`.
#[verifier::rlimit(100)]
#[verifier::spinoff_prover]
fn parse_items(src: &Source, first: usize, start: usize, notes: &mut Vec<Span>) -> (r: Result<
    (Spanned<Json>, usize),
    SyntaxError,
>)
    requires
        src.wf(),
        start < first <= src@.len(),
    ensures
        match items_from(src@, first as int, start as int, Seq::empty(), Seq::empty()) {
            Parsed::Read { value, end, notes: more } => r matches Ok((node, e)) && node_view(&node) == value
                && e == end && start < e <= src@.len() && final(notes)@ == old(notes)@ + more,
            Parsed::Failed { error, notes: more } => r matches Err(e) && e == error && final(notes)@ == old(
                notes,
            )@ + more,
        },
    decreases src@.len() - first, 1nat,
{
    let n = src.chars.len();
    let mut items: Vec<Spanned<Json>> = Vec::new();
    let mut i = first;
    let ghost mut seen: Seq<NodeView> = Seq::empty();
    let ghost mut noted: Seq<Span> = Seq::empty();
    let ghost answer = items_from(src@, first as int, start as int, Seq::empty(), Seq::empty());
    assert(notes@ =~= old(notes)@ + noted);
    loop
        invariant
            src.wf(),
            n == src@.len(),
            start < first <= i <= n,
            notes@ == old(notes)@ + noted,
            seen.len() == items@.len(),
            forall|k: int| 0 <= k < items@.len() ==> seen[k] == node_view(&#[trigger] items@[k]),
            answer == items_from(src@, first as int, start as int, Seq::empty(), Seq::empty()),
            items_from(src@, i as int, start as int, seen, noted) == answer,
        decreases n - i,
    {
        let ghost before = notes@;
        match parse_value(src, i, notes) {
            Err(error) => {
                proof {
                    let more = value_at(src@, i as int)->Failed_notes;
                    assert(notes@ =~= old(notes)@ + (noted + more));
                }
                return Err(error);
            },
            Ok((node, end)) => {
                let ghost more = value_at(src@, i as int)->Read_notes;
                let ghost kept = items@;
                proof {
                    assert(notes@ =~= old(notes)@ + (noted + more));
                }
                let j = skip_whitespace(src, end);
                items.push(node);
                proof {
                    seen = seen.push(node_view(&node));
                    noted = noted + more;
                    assert forall|k: int| 0 <= k < items@.len() implies seen[k] == node_view(
                        &#[trigger] items@[k],
                    ) by {
                        if k < kept.len() {
                            assert(items@[k] == kept[k]);
                        }
                    }
                }
                if j < n && src.chars[j] == ',' {
                    i = skip_whitespace(src, j + 1);
                } else if j < n && src.chars[j] == ']' {
                    let node = Spanned::new(src.span(start, j + 1), Json::Array(items));
                    proof {
                        assert(json_view(&node.val)->Array_0 =~= seen);
                    }
                    return Ok((node, j + 1));
                } else {
                    return Err(SyntaxError { kind: SyntaxErrorKind::ExpectedCommaOrBracket, at: j });
                }
            },
        }
    }
}

/// Reads the members of the object that begins at `start`; the key of the
/// first member stands at `first`.
#[verifier::rlimit(100)]
#[verifier::spinoff_prover]
fn parse_members(src: &Source, first: usize, start: usize, notes: &mut Vec<Span>) -> (r: Result<
    (Spanned<Json>, usize),
    SyntaxError,
>)
    requires
        src.wf(),
        start < first <= src@.len(),
    ensures
        match members_from(src@, first as int, start as int, Seq::empty(), Seq::empty()) {
            Parsed::Read { value, end, notes: more } => r matches Ok((node, e)) && node_view(&node) == value
                && e == end && start < e <= src@.len() && final(notes)@ == old(notes)@ + more,
            Parsed::Failed { error, notes: more } => r matches Err(e) && e == error && final(notes)@ == old(
                notes,
            )@ + more,
        },
    decreases src@.len() - first, 1nat,
{
    let n = src.chars.len();
    let mut members: Vec<(SpannedString, Spanned<Json>)> = Vec::new();
    let mut i = first;
    let ghost mut seen: Seq<MemberView> = Seq::empty();
    let ghost mut noted: Seq<Span> = Seq::empty();
    let ghost answer = members_from(src@, first as int, start as int, Seq::empty(), Seq::empty());
    assert(notes@ =~= old(notes)@ + noted);
    loop
        invariant
            src.wf(),
            n == src@.len(),
            start < first <= i <= n,
            notes@ == old(notes)@ + noted,
            seen.len() == members@.len(),
            forall|k: int|
                0 <= k < members@.len() ==> seen[k] == (MemberView {
                    key_span: (#[trigger] members@[k]).0.span,
                    key: members@[k].0.value@,
                    value: node_view(&members@[k].1),
                }),
            answer == members_from(src@, first as int, start as int, Seq::empty(), Seq::empty()),
            members_from(src@, i as int, start as int, seen, noted) == answer,
        decreases n - i,
    {
        if !(i < n && src.chars[i] == '"') {
            return Err(SyntaxError { kind: SyntaxErrorKind::ExpectedKey, at: i });
        }
        let (key, key_end) = match parse_string(src, i, notes) {
            Err(error) => {
                proof {
                    let more = string_at(src@, i as int)->Failed_notes;
                    assert(notes@ =~= old(notes)@ + (noted + more));
                }
                return Err(error);
            },
            Ok(read) => read,
        };
        let ghost key_notes = string_at(src@, i as int)->Read_notes;
        proof {
            assert(notes@ =~= old(notes)@ + (noted + key_notes));
        }
        let colon = skip_whitespace(src, key_end);
        if !(colon < n && src.chars[colon] == ':') {
            return Err(SyntaxError { kind: SyntaxErrorKind::ExpectedColon, at: colon });
        }
        let v = skip_whitespace(src, colon + 1);
        match parse_value(src, v, notes) {
            Err(error) => {
                proof {
                    let more = value_at(src@, v as int)->Failed_notes;
                    assert(notes@ =~= old(notes)@ + (noted + key_notes + more));
                }
                return Err(error);
            },
            Ok((node, end)) => {
                let ghost more = value_at(src@, v as int)->Read_notes;
                let ghost kept = members@;
                proof {
                    assert(notes@ =~= old(notes)@ + (noted + key_notes + more));
                }
                let j = skip_whitespace(src, end);
                let key = SpannedString { span: src.span(i, key_end), value: key };
                proof {
                    seen = seen.push(
                        MemberView { key_span: key.span, key: key.value@, value: node_view(&node) },
                    );
                    noted = noted + key_notes + more;
                }
                members.push((key, node));
                proof {
                    assert forall|k: int| 0 <= k < members@.len() implies seen[k] == (MemberView {
                        key_span: (#[trigger] members@[k]).0.span,
                        key: members@[k].0.value@,
                        value: node_view(&members@[k].1),
                    }) by {
                        if k < kept.len() {
                            assert(members@[k] == kept[k]);
                        }
                    }
                }
                if j < n && src.chars[j] == ',' {
                    i = skip_whitespace(src, j + 1);
                } else if j < n && src.chars[j] == '}' {
                    let node = Spanned::new(src.span(start, j + 1), Json::Object(members));
                    proof {
                        assert(json_view(&node.val)->Object_0 =~= seen);
                    }
                    return Ok((node, j + 1));
                } else {
                    return Err(SyntaxError { kind: SyntaxErrorKind::ExpectedCommaOrBrace, at: j });
                }
            },
        }
    }
}

/// The diagnostic for the syntax error `error`.
fn syntax_error(src: &Source, error: SyntaxError) -> (d: Diagnostic)
    requires
        src.wf(),
    ensures
        d@ == error_diagnostic(src@, error),
{
    let n = src.len();
    let span = if error.at < n {
        src.span(error.at, error.at + 1)
    } else {
        src.span(n, n)
    };
    let d = Diagnostic::new(Severity::Error, span.lo, String::from_str(error.kind.describe())).with_label(
        Label::with_message(span, Color::Red, String::from_str(error.kind.describe())),
    );
    assert(d@.labels =~= error_diagnostic(src@, error).labels);
    d
}

/// The diagnostics for the unicode escapes noted.
fn note_reports(notes: &Vec<Span>) -> (diags: Vec<Diagnostic>)
    ensures
        views(diags@) == note_diagnostics(notes@, notes@.len() as int),
{
    let mut diags: Vec<Diagnostic> = Vec::new();
    let mut k: usize = 0;
    assert(views(diags@) =~= note_diagnostics(notes@, 0));
    while k < notes.len()
        invariant
            k <= notes@.len(),
            views(diags@) == note_diagnostics(notes@, k as int),
        decreases notes@.len() - k,
    {
        let span = notes[k];
        let d = Diagnostic::new(Severity::Error, span.lo, String::from_str("invalid unicode character")).with_label(
            Label::with_message(span, Color::Red, String::from_str("invalid unicode character")),
        );
        assert(d@.labels =~= note_diagnostic(span).labels);
        report(&mut diags, d);
        k += 1;
    }
    diags
}

/// Reads `text` as one JSON value. Returns the tree, where the text can be
/// read, and the diagnostics: one for each unicode escape that names no
/// character, and behind them the error that ended the reading, where one did.
pub fn parser(text: &str) -> (r: (Option<Spanned<Json>>, Vec<Diagnostic>))
    ensures
        match document_tree(text@) {
            Some(tree) => r.0 matches Some(node) && node_view(&node) == tree,
            None => r.0.is_none(),
        },
        views(r.1@) == syntax_diagnostics(text@),
{
    let src = Source::new(text);
    let mut notes: Vec<Span> = Vec::new();
    let start = skip_whitespace(&src, 0);
    let ghost none = Seq::<Span>::empty();
    match parse_value(&src, start, &mut notes) {
        Err(error) => {
            proof {
                let more = value_at(src@, start as int)->Failed_notes;
                assert(notes@ =~= more);
            }
            let mut diags = note_reports(&notes);
            report(&mut diags, syntax_error(&src, error));
            (None, diags)
        },
        Ok((node, end)) => {
            proof {
                let more = value_at(src@, start as int)->Read_notes;
                assert(notes@ =~= more);
            }
            let j = skip_whitespace(&src, end);
            let mut diags = note_reports(&notes);
            if j >= src.len() {
                (Some(node), diags)
            } else {
                report(
                    &mut diags,
                    syntax_error(&src, SyntaxError { kind: SyntaxErrorKind::TrailingCharacters, at: j }),
                );
                (None, diags)
            }
        },
    }
}

} // verus!
