//! The input as characters, each with the byte offset at which it starts.

use crate::span::Span;
use vstd::prelude::*;
use vstd::string::*;
use vstd::utf8::{encode_scalar, encode_utf8, is_scalar};

verus! {

/// The number of bytes that the first `i` characters of `s` take in UTF-8.
pub open spec fn byte_offset(s: Seq<char>, i: int) -> nat {
    encode_utf8(s.subrange(0, i)).len()
}

/// The number of bytes that `c` takes in UTF-8.
pub open spec fn utf8_width(c: char) -> nat {
    if (c as u32) < 0x80 {
        1
    } else if (c as u32) < 0x800 {
        2
    } else if (c as u32) < 0x10000 {
        3
    } else {
        4
    }
}

pub proof fn lemma_encode_concat(a: Seq<char>, b: Seq<char>)
    ensures
        encode_utf8(a + b) == encode_utf8(a) + encode_utf8(b),
    decreases a.len(),
{
    if a.len() == 0 {
        assert(a + b =~= b);
        assert(encode_utf8(a) + encode_utf8(b) =~= encode_utf8(b));
    } else {
        assert((a + b).drop_first() =~= a.drop_first() + b);
        assert((a + b)[0] == a[0]);
        lemma_encode_concat(a.drop_first(), b);
        assert(encode_scalar(a[0] as u32) + (encode_utf8(a.drop_first()) + encode_utf8(b)) =~= (encode_scalar(
            a[0] as u32,
        ) + encode_utf8(a.drop_first())) + encode_utf8(b));
    }
}

/// The offset behind a character is the offset before it and its width.
pub proof fn lemma_byte_offset_step(s: Seq<char>, i: int)
    requires
        0 <= i < s.len(),
    ensures
        byte_offset(s, i + 1) == byte_offset(s, i) + utf8_width(s[i]),
        byte_offset(s, i + 1) <= byte_offset(s, s.len() as int),
{
    let one = seq![s[i]];
    assert(s.subrange(0, i + 1) =~= s.subrange(0, i) + one);
    lemma_encode_concat(s.subrange(0, i), one);
    vstd::utf8::char_is_scalar(s[i]);
    assert(one.drop_first() =~= Seq::<char>::empty());
    assert(encode_utf8(Seq::<char>::empty()).len() == 0);
    assert(one[0] == s[i]);
    assert(encode_utf8(one) == encode_scalar(s[i] as u32) + encode_utf8(one.drop_first()));
    assert(encode_utf8(one).len() == encode_scalar(s[i] as u32).len());
    assert(s.subrange(0, s.len() as int) =~= s.subrange(0, i + 1) + s.subrange(i + 1, s.len() as int));
    lemma_encode_concat(s.subrange(0, i + 1), s.subrange(i + 1, s.len() as int));
}

/// The characters of `s`.
pub fn characters(s: &str) -> (chars: Vec<char>)
    ensures
        chars@ == s@,
{
    let mut chars: Vec<char> = Vec::new();
    for c in it: s.chars()
        invariant
            it.seq() == s@,
            chars@ == it.seq().subrange(0, it.index() as int),
    {
        chars.push(c);
    }
    chars
}

/// `String::push` puts the character behind the text.
pub assume_specification[ std::string::String::push ](text: &mut std::string::String, c: char)
    ensures
        final(text)@ == old(text)@.push(c),
;

/// `char::from_u32` gives the character with the code `v`, where `v` is
/// the code of a character.
pub assume_specification[ char::from_u32 ](v: u32) -> (r: Option<char>)
    ensures
        match r {
            Some(c) => is_scalar(v) && c as u32 == v,
            None => !is_scalar(v),
        },
;

/// The span of the characters `a..b` of `s`, in bytes.
pub open spec fn span_of(s: Seq<char>, a: int, b: int) -> Span {
    Span { lo: byte_offset(s, a) as usize, hi: byte_offset(s, b) as usize }
}

pub proof fn lemma_byte_offset_monotone(s: Seq<char>, a: int, b: int)
    requires
        0 <= a <= b <= s.len(),
    ensures
        byte_offset(s, a) <= byte_offset(s, b),
{
    assert(s.subrange(0, b) =~= s.subrange(0, a) + s.subrange(a, b));
    lemma_encode_concat(s.subrange(0, a), s.subrange(a, b));
}

/// A text as characters, with the byte offset of each.
pub struct Source {
    pub chars: Vec<char>,
    /// `offsets[i]` is the byte offset of the character number `i`, and
    /// the last entry is the length of the text in bytes.
    pub offsets: Vec<usize>,
}

impl Source {
    pub open spec fn view(&self) -> Seq<char> {
        self.chars@
    }

    pub open spec fn wf(&self) -> bool {
        &&& self.offsets@.len() == self.chars@.len() + 1
        &&& forall|i: int| 0 <= i <= self.chars@.len() ==> #[trigger] self.offsets@[i] == byte_offset(self.chars@, i)
    }

    /// The characters of `text` with their offsets.
    pub fn new(text: &str) -> (source: Source)
        ensures
            source.wf(),
            source@ == text@,
    {
        let chars = characters(text);
        let total = text.as_bytes().len();
        let mut offsets: Vec<usize> = Vec::new();
        let mut offset: usize = 0;
        let mut i: usize = 0;
        proof {
            assert(chars@.subrange(0, 0) =~= Seq::<char>::empty());
            assert(chars@.subrange(0, chars@.len() as int) =~= chars@);
            assert(encode_utf8(Seq::<char>::empty()).len() == 0);
        }
        while i < chars.len()
            invariant
                i <= chars@.len(),
                total == byte_offset(chars@, chars@.len() as int),
                offset == byte_offset(chars@, i as int),
                offsets@.len() == i,
                forall|k: int| 0 <= k < i ==> #[trigger] offsets@[k] == byte_offset(chars@, k),
            decreases chars@.len() - i,
        {
            proof {
                lemma_byte_offset_step(chars@, i as int);
            }
            offsets.push(offset);
            let code = chars[i] as u32;
            let width: usize = if code < 0x80 {
                1
            } else if code < 0x800 {
                2
            } else if code < 0x10000 {
                3
            } else {
                4
            };
            offset = offset + width;
            i += 1;
        }
        offsets.push(offset);
        Source { chars, offsets }
    }

    pub fn len(&self) -> (n: usize)
        ensures
            n == self@.len(),
    {
        self.chars.len()
    }

    /// The span of the characters `a..b`.
    pub fn span(&self, a: usize, b: usize) -> (span: Span)
        requires
            self.wf(),
            a <= b <= self@.len(),
        ensures
            span == span_of(self@, a as int, b as int),
            span.wf(),
    {
        proof {
            lemma_byte_offset_monotone(self@, a as int, b as int);
        }
        Span { lo: self.offsets[a], hi: self.offsets[b] }
    }

    /// The characters `a..b` as a string.
    pub fn text(&self, a: usize, b: usize) -> (text: String)
        requires
            a <= b <= self@.len(),
        ensures
            text@ == self@.subrange(a as int, b as int),
    {
        let mut text = String::new();
        let mut i: usize = a;
        assert(text@ =~= self@.subrange(a as int, a as int));
        while i < b
            invariant
                a <= i <= b,
                b <= self.chars@.len(),
                text@ == self.chars@.subrange(a as int, i as int),
            decreases b - i,
        {
            text.push(self.chars[i]);
            assert(text@ =~= self.chars@.subrange(a as int, i + 1));
            i += 1;
        }
        text
    }
}

} // verus!
