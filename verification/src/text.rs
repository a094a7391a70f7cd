//! Small operations on text: the order of strings, quoting, trimming.

use vstd::prelude::*;
use vstd::string::*;

verus! {

/// `a` and `b` agree on their first `k` bytes, and there `a` ends while `b`
/// goes on, or `a` has the lesser byte.
pub open spec fn precedes_at(a: Seq<u8>, b: Seq<u8>, k: int) -> bool {
    &&& 0 <= k <= a.len()
    &&& k < b.len()
    &&& a.subrange(0, k) == b.subrange(0, k)
    &&& (k == a.len() || a[k] < b[k])
}

/// The lexicographic order of byte strings: `a` comes before `b` when `a` is
/// a proper prefix of `b`, or has the lesser byte at the first place where
/// the two differ.
pub open spec fn lex_lt(a: Seq<u8>, b: Seq<u8>) -> bool {
    exists|k: int| precedes_at(a, b, k)
}

/// The order of strings, which is that of their UTF-8 encodings.
pub open spec fn str_lt(a: Seq<char>, b: Seq<char>) -> bool {
    lex_lt(vstd::utf8::encode_utf8(a), vstd::utf8::encode_utf8(b))
}

/// No byte string comes before itself.
pub proof fn lemma_lex_irreflexive(a: Seq<u8>)
    ensures
        !lex_lt(a, a),
{
}

/// The lexicographic order is transitive.
pub proof fn lemma_lex_transitive(a: Seq<u8>, b: Seq<u8>, c: Seq<u8>)
    requires
        lex_lt(a, b),
        lex_lt(b, c),
    ensures
        lex_lt(a, c),
{
    let k = choose|k: int| precedes_at(a, b, k);
    let l = choose|l: int| precedes_at(b, c, l);
    let m = if k <= l {
        k
    } else {
        l
    };
    assert(a.subrange(0, m) =~= c.subrange(0, m)) by {
        assert forall|i: int| 0 <= i < m implies a[i] == c[i] by {
            assert(a.subrange(0, k)[i] == b.subrange(0, k)[i]);
            assert(b.subrange(0, l)[i] == c.subrange(0, l)[i]);
        }
    }
    if k < l {
        assert(b.subrange(0, l)[k] == c.subrange(0, l)[k]);
    } else if l < k {
        assert(a.subrange(0, k)[l] == b.subrange(0, k)[l]);
    }
    assert(precedes_at(a, c, m));
}

/// Of two byte strings that agree on their first `i` bytes and are not
/// the same, one comes before the other.
proof fn lemma_lex_differ(a: Seq<u8>, b: Seq<u8>, i: int)
    requires
        0 <= i <= a.len(),
        i <= b.len(),
        a.subrange(0, i) == b.subrange(0, i),
        a != b,
    ensures
        lex_lt(a, b) || lex_lt(b, a),
    decreases a.len() - i,
{
    if i == a.len() {
        if i == b.len() {
            assert(a.subrange(0, i) =~= a);
            assert(b.subrange(0, i) =~= b);
        } else {
            assert(precedes_at(a, b, i));
        }
    } else if i == b.len() {
        assert(precedes_at(b, a, i));
    } else if a[i] < b[i] {
        assert(precedes_at(a, b, i));
    } else if b[i] < a[i] {
        assert(precedes_at(b, a, i));
    } else {
        assert(a.subrange(0, i + 1) =~= a.subrange(0, i).push(a[i]));
        assert(b.subrange(0, i + 1) =~= b.subrange(0, i).push(b[i]));
        lemma_lex_differ(a, b, i + 1);
    }
}

/// Of two byte strings that are not the same, one comes before the other.
pub proof fn lemma_lex_total(a: Seq<u8>, b: Seq<u8>)
    requires
        a != b,
    ensures
        lex_lt(a, b) || lex_lt(b, a),
{
    assert(a.subrange(0, 0) =~= b.subrange(0, 0));
    lemma_lex_differ(a, b, 0);
}

/// No string comes before itself, the order of strings is transitive, and
/// of two strings that are not the same one comes before the other.
pub proof fn lemma_str_order(a: Seq<char>, b: Seq<char>, c: Seq<char>)
    ensures
        !str_lt(a, a),
        str_lt(a, b) && str_lt(b, c) ==> str_lt(a, c),
        a != b ==> str_lt(a, b) || str_lt(b, a),
        !(str_lt(a, b) && str_lt(b, a)),
{
    let x = vstd::utf8::encode_utf8(a);
    let y = vstd::utf8::encode_utf8(b);
    let z = vstd::utf8::encode_utf8(c);
    if str_lt(a, b) && str_lt(b, c) {
        lemma_lex_transitive(x, y, z);
    }
    if a != b {
        vstd::utf8::encode_utf8_decode_utf8(a);
        vstd::utf8::encode_utf8_decode_utf8(b);
        lemma_lex_total(x, y);
    }
    if str_lt(a, b) && str_lt(b, a) {
        lemma_lex_transitive(x, y, x);
    }
}

/// A text of ASCII characters comes before another where the two agree on
/// their first `k` characters, and there the first ends while the second
/// goes on, or has the lesser character.
pub proof fn lemma_ascii_order(a: Seq<char>, b: Seq<char>, k: int)
    requires
        vstd::utf8::is_ascii_chars(a),
        vstd::utf8::is_ascii_chars(b),
        0 <= k <= a.len(),
        k < b.len(),
        a.subrange(0, k) == b.subrange(0, k),
        k == a.len() || a[k] < b[k],
    ensures
        str_lt(a, b),
{
    vstd::utf8::is_ascii_chars_encode_utf8(a);
    vstd::utf8::is_ascii_chars_encode_utf8(b);
    let x = vstd::utf8::encode_utf8(a);
    let y = vstd::utf8::encode_utf8(b);
    assert(x.subrange(0, k) =~= y.subrange(0, k)) by {
        assert forall|i: int| 0 <= i < k implies x[i] == y[i] by {
            assert(a.subrange(0, k)[i] == a[i]);
            assert(b.subrange(0, k)[i] == b[i]);
            assert(a[i] == b[i]);
            assert(a[i] as u8 == x[i]);
            assert(b[i] as u8 == y[i]);
        }
    }
    if k < a.len() {
        assert(x[k] == a[k] as u8);
        assert(y[k] == b[k] as u8);
        assert((a[k] as u32) < 128 && (b[k] as u32) < 128);
    }
    assert(precedes_at(x, y, k));
}

/// Whether `a` comes before `b` in lexicographic order.
pub fn bytes_lt(a: &[u8], b: &[u8]) -> (lt: bool)
    ensures
        lt == lex_lt(a@, b@),
{
    let mut k: usize = 0;
    while k < a.len() && k < b.len()
        invariant
            k <= a@.len(),
            k <= b@.len(),
            a@.subrange(0, k as int) == b@.subrange(0, k as int),
        decreases a@.len() - k,
    {
        if a[k] != b[k] {
            let lt = a[k] < b[k];
            proof {
                if lt {
                    assert(precedes_at(a@, b@, k as int));
                } else {
                    assert forall|m: int| !precedes_at(a@, b@, m) by {
                        if precedes_at(a@, b@, m) {
                            if m > k {
                                assert(a@.subrange(0, m)[k as int] == b@.subrange(0, m)[k as int]);
                            } else if m < k {
                                assert(a@.subrange(0, k as int)[m] == b@.subrange(0, k as int)[m]);
                            }
                        }
                    }
                }
            }
            return lt;
        }
        assert(a@.subrange(0, k + 1) =~= a@.subrange(0, k as int).push(a@[k as int]));
        assert(b@.subrange(0, k + 1) =~= b@.subrange(0, k as int).push(b@[k as int]));
        k += 1;
    }
    let lt = k < b.len();
    proof {
        if lt {
            assert(precedes_at(a@, b@, k as int));
        } else {
            assert forall|m: int| !precedes_at(a@, b@, m) by {
                if precedes_at(a@, b@, m) {
                    assert(a@.subrange(0, k as int)[m] == b@.subrange(0, k as int)[m]);
                }
            }
        }
    }
    lt
}

/// Whether `a` and `b` hold the same bytes.
pub fn bytes_eq(a: &[u8], b: &[u8]) -> (eq: bool)
    ensures
        eq == (a@ == b@),
{
    if a.len() != b.len() {
        return false;
    }
    let mut k: usize = 0;
    while k < a.len()
        invariant
            k <= a@.len(),
            a@.len() == b@.len(),
            forall|j: int| 0 <= j < k ==> a@[j] == b@[j],
        decreases a@.len() - k,
    {
        if a[k] != b[k] {
            return false;
        }
        k += 1;
    }
    assert(a@ =~= b@);
    true
}

/// Whether `a` and `b` are the same text.
pub fn str_eq(a: &str, b: &str) -> (eq: bool)
    ensures
        eq == (a@ == b@),
{
    let eq = bytes_eq(a.as_bytes(), b.as_bytes());
    proof {
        vstd::utf8::encode_utf8_decode_utf8(a@);
        vstd::utf8::encode_utf8_decode_utf8(b@);
    }
    eq
}

/// Whether the string `a` comes before the string `b`.
pub fn string_lt(a: &str, b: &str) -> (lt: bool)
    ensures
        lt == str_lt(a@, b@),
{
    bytes_lt(a.as_bytes(), b.as_bytes())
}

/// `name` between double quotes.
pub open spec fn quoted(name: Seq<char>) -> Seq<char> {
    seq!['"'] + name + seq!['"']
}

/// Appends `name` between double quotes to `message`.
pub fn push_quoted(message: &mut String, name: &str)
    ensures
        final(message)@ == old(message)@ + quoted(name@),
{
    proof {
        reveal_strlit("\"");
    }
    assert("\""@ =~= seq!['"']);
    message.append("\"");
    message.append(name);
    message.append("\"");
    assert(message@ =~= old(message)@ + quoted(name@));
}

/// What `str::trim` returns for the text `s`: `s` without the white space at
/// its start and at its end.
pub uninterp spec fn trimmed(s: Seq<char>) -> Seq<char>;

/// Calls `str::trim`. Claimed of it: the result is a function of the text alone.
#[verifier::external_body]
pub(crate) fn trim(s: &str) -> (t: &str)
    ensures
        t@ == trimmed(s@),
{
    s.trim()
}

/// The character that writes the digit `d`.
pub open spec fn digit_char(d: nat) -> char {
    if d == 0 {
        '0'
    } else if d == 1 {
        '1'
    } else if d == 2 {
        '2'
    } else if d == 3 {
        '3'
    } else if d == 4 {
        '4'
    } else if d == 5 {
        '5'
    } else if d == 6 {
        '6'
    } else if d == 7 {
        '7'
    } else if d == 8 {
        '8'
    } else {
        '9'
    }
}

/// `n` written in decimal digits.
pub open spec fn decimal_text(n: nat) -> Seq<char>
    decreases n,
{
    if n < 10 {
        seq![digit_char(n)]
    } else {
        decimal_text(n / 10).push(digit_char(n % 10))
    }
}

fn digit_text(d: usize) -> (text: &'static str)
    requires
        d < 10,
    ensures
        text@ == seq![digit_char(d as nat)],
{
    proof {
        reveal_strlit("0");
        reveal_strlit("1");
        reveal_strlit("2");
        reveal_strlit("3");
        reveal_strlit("4");
        reveal_strlit("5");
        reveal_strlit("6");
        reveal_strlit("7");
        reveal_strlit("8");
        reveal_strlit("9");
    }
    let text = if d == 0 {
        "0"
    } else if d == 1 {
        "1"
    } else if d == 2 {
        "2"
    } else if d == 3 {
        "3"
    } else if d == 4 {
        "4"
    } else if d == 5 {
        "5"
    } else if d == 6 {
        "6"
    } else if d == 7 {
        "7"
    } else if d == 8 {
        "8"
    } else {
        "9"
    };
    assert(text@ =~= seq![digit_char(d as nat)]);
    text
}

/// `n` written in decimal digits.
pub fn decimal(n: usize) -> (text: String)
    ensures
        text@ == decimal_text(n as nat),
    decreases n,
{
    if n < 10 {
        String::from_str(digit_text(n))
    } else {
        let mut text = decimal(n / 10);
        text.append(digit_text(n % 10));
        assert(text@ =~= decimal_text(n as nat));
        text
    }
}

} // verus!
