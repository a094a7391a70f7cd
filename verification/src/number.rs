//! Numbers as the input writes them: exact decimals, compared without rounding.

use crate::text::{bytes_lt, lemma_lex_total, lemma_lex_transitive, lex_lt};
use vstd::prelude::*;
use vstd::string::*;

verus! {

/// The decimal digits of 2^1024 - 2^970, the least magnitude that a 64-bit
/// float cannot hold: a number is finite when its magnitude is below it.
pub const FINITE_LIMIT: &'static str =
    "179769313486231580793728971405303415079934132710037826936173778980444968292764750946649017977587207096330286416692887910946555547851940402630657488671505820681908902000708383676273854845817711531764475730270069855571366959622842914819860834936475292719074168444365510704342711559699508093042880177904174497792";

/// The number of digits of `FINITE_LIMIT`.
pub const FINITE_LIMIT_EXPONENT: i64 = 309;

/// The bound that the exponent of a number is kept within.
pub const EXPONENT_CAP: i64 = 1_000_000_000_000_000_000;

/// A decimal number in scientific form: `0.d1 d2 ... dk` times ten to the
/// power `exponent`, negated where `negative` is set. `digits` holds the
/// digits `d1 ... dk` as ASCII characters; for zero it is empty.
#[derive(Debug)]
pub struct Number {
    pub negative: bool,
    pub digits: Vec<u8>,
    pub exponent: i64,
    /// The number as the input wrote it.
    pub text: String,
}

/// A number as a mathematical value.
pub ghost struct NumberView {
    pub negative: bool,
    pub digits: Seq<u8>,
    pub exponent: int,
    pub text: Seq<char>,
}

/// `b` is one of the characters `0` to `9`.
pub open spec fn is_digit(b: u8) -> bool {
    48 <= b <= 57
}

pub open spec fn all_digits(s: Seq<u8>) -> bool {
    forall|i: int| 0 <= i < s.len() ==> is_digit(#[trigger] s[i])
}

/// The place of the first character of `s` at or after `i` that is not `0`.
pub open spec fn zeros_from(s: Seq<u8>, i: int) -> int
    decreases s.len() - i,
{
    if 0 <= i < s.len() && s[i] == 48 {
        zeros_from(s, i + 1)
    } else {
        i
    }
}

/// The place behind the last character of `s` before `j` that is not `0`.
pub open spec fn zeros_until(s: Seq<u8>, j: int) -> int
    decreases j,
{
    if 0 < j <= s.len() && s[j - 1] == 48 {
        zeros_until(s, j - 1)
    } else {
        j
    }
}

/// `s` without the zeros at its start and at its end.
pub open spec fn significant(s: Seq<u8>) -> Seq<u8> {
    let start = zeros_from(s, 0);
    let end = zeros_until(s, s.len() as int);
    if start < end {
        s.subrange(start, end)
    } else {
        Seq::empty()
    }
}

/// The number that the digits `s` write, but no more than `cap`.
pub open spec fn capped_value(s: Seq<u8>, cap: nat) -> nat
    decreases s.len(),
{
    if s.len() == 0 {
        0
    } else {
        let v = capped_value(s.drop_last(), cap) * 10 + (s.last() - 48);
        if v < cap {
            v as nat
        } else {
            cap
        }
    }
}

/// The number that the digits `s` write.
pub open spec fn digits_value(s: Seq<u8>) -> nat
    decreases s.len(),
{
    if s.len() == 0 {
        0
    } else {
        (digits_value(s.drop_last()) * 10 + (s.last() - 48)) as nat
    }
}

pub open spec fn pow10(k: nat) -> nat
    decreases k,
{
    if k == 0 {
        1
    } else {
        10 * pow10((k - 1) as nat)
    }
}

/// The exponent of the number written with `int_len` digits before the
/// point, of which the first `start` digits of the number are zeros, and with
/// the exponent part `exp_part`: kept within `EXPONENT_CAP`.
pub open spec fn exponent_of(int_len: nat, start: int, exp_negative: bool, exp_part: Seq<u8>) -> int {
    let e = capped_value(exp_part, EXPONENT_CAP as nat) as int;
    let raw = int_len - start + if exp_negative {
        -e
    } else {
        e
    };
    if raw > EXPONENT_CAP {
        EXPONENT_CAP as int
    } else if raw < -EXPONENT_CAP {
        -EXPONENT_CAP as int
    } else {
        raw
    }
}

/// The number that is written with the digits `int_part` before the point
/// and `frac_part` behind it, with `exp_part` as the digits of its exponent,
/// with the signs given, and as `text` in all.
pub open spec fn written(
    negative: bool,
    int_part: Seq<u8>,
    frac_part: Seq<u8>,
    exp_negative: bool,
    exp_part: Seq<u8>,
    text: Seq<char>,
) -> NumberView {
    let all = int_part + frac_part;
    let digits = significant(all);
    NumberView {
        negative: negative && digits.len() > 0,
        digits,
        exponent: if digits.len() == 0 {
            0
        } else {
            exponent_of(int_part.len(), zeros_from(all, 0), exp_negative, exp_part)
        },
        text,
    }
}

impl Number {
    pub open spec fn view(&self) -> NumberView {
        NumberView {
            negative: self.negative,
            digits: self.digits@,
            exponent: self.exponent as int,
            text: self.text@,
        }
    }

    /// The digits are digits, the first and the last of them are not zero,
    /// and zero is written in one way.
    pub open spec fn wf(&self) -> bool {
        &&& all_digits(self.digits@)
        &&& -EXPONENT_CAP <= self.exponent <= EXPONENT_CAP
        &&& self.digits@.len() == 0 ==> !self.negative && self.exponent == 0
        &&& self.digits@.len() > 0 ==> self.digits@[0] != 48 && self.digits@.last() != 48
    }

    pub open spec fn is_zero(&self) -> bool {
        self.digits@.len() == 0
    }

    /// The absolute value of `self` is below that of `other`.
    pub open spec fn magnitude_lt(&self, other: &Number) -> bool {
        if other.is_zero() {
            false
        } else if self.is_zero() {
            true
        } else {
            self.exponent < other.exponent || (self.exponent == other.exponent && lex_lt(
                self.digits@,
                other.digits@,
            ))
        }
    }

    /// `self` is less than `other`.
    pub open spec fn lt(&self, other: &Number) -> bool {
        if self.negative {
            !other.negative || other.magnitude_lt(self)
        } else {
            !other.negative && self.magnitude_lt(other)
        }
    }

    /// The magnitude is below `FINITE_LIMIT`.
    pub open spec fn finite(&self) -> bool {
        self.is_zero() || self.exponent < FINITE_LIMIT_EXPONENT || (self.exponent == FINITE_LIMIT_EXPONENT
            && lex_lt(self.digits@, FINITE_LIMIT.spec_bytes()))
    }

    /// The value, where it is a natural number.
    pub open spec fn as_nat(&self) -> Option<nat> {
        if self.is_zero() {
            Some(0nat)
        } else if self.negative || !all_digits(self.digits@) || self.exponent < self.digits@.len() {
            None
        } else {
            Some(digits_value(self.digits@) * pow10((self.exponent - self.digits@.len()) as nat))
        }
    }

    /// The value, where it is a natural number that a `usize` holds.
    pub open spec fn as_index(&self) -> Option<usize> {
        match self.as_nat() {
            Some(v) => if v <= usize::MAX {
                Some(v as usize)
            } else {
                None
            },
            None => None,
        }
    }

    /// A copy of this number.
    pub fn copy(&self) -> (n: Number)
        ensures
            n@ == self@,
    {
        let mut digits: Vec<u8> = Vec::new();
        let mut i: usize = 0;
        while i < self.digits.len()
            invariant
                i <= self.digits@.len(),
                digits@ == self.digits@.subrange(0, i as int),
            decreases self.digits@.len() - i,
        {
            digits.push(self.digits[i]);
            assert(digits@ =~= self.digits@.subrange(0, i + 1));
            i += 1;
        }
        assert(self.digits@.subrange(0, self.digits@.len() as int) =~= self.digits@);
        Number { negative: self.negative, digits, exponent: self.exponent, text: self.text.clone() }
    }

    /// The number zero, written `0`.
    pub fn zero() -> (n: Number)
        ensures
            n.wf(),
            n.is_zero(),
            n.text@ == "0"@,
    {
        Number { negative: false, digits: Vec::new(), exponent: 0, text: String::from_str("0") }
    }

    pub fn is_negative(&self) -> (b: bool)
        ensures
            b == self.negative,
    {
        self.negative
    }

    /// Whether the magnitude is below `FINITE_LIMIT`.
    pub fn is_finite(&self) -> (b: bool)
        ensures
            b == self.finite(),
    {
        if self.digits.len() == 0 || self.exponent < FINITE_LIMIT_EXPONENT {
            true
        } else if self.exponent > FINITE_LIMIT_EXPONENT {
            false
        } else {
            bytes_lt(self.digits.as_slice(), FINITE_LIMIT.as_bytes())
        }
    }

    fn magnitude_less(&self, other: &Number) -> (b: bool)
        ensures
            b == self.magnitude_lt(other),
    {
        if other.digits.len() == 0 {
            false
        } else if self.digits.len() == 0 {
            true
        } else if self.exponent != other.exponent {
            self.exponent < other.exponent
        } else {
            bytes_lt(self.digits.as_slice(), other.digits.as_slice())
        }
    }

    /// Whether `self` is less than `other`.
    pub fn less_than(&self, other: &Number) -> (b: bool)
        ensures
            b == self.lt(other),
    {
        if self.negative {
            !other.negative || other.magnitude_less(self)
        } else {
            !other.negative && self.magnitude_less(other)
        }
    }

    /// Whether `self` is greater than `other`.
    pub fn greater_than(&self, other: &Number) -> (b: bool)
        ensures
            b == other.lt(self),
    {
        other.less_than(self)
    }

    /// The value as a `usize`, where it is a natural number that fits.
    pub fn to_usize(&self) -> (v: Option<usize>)
        ensures
            v == self.as_index(),
    {
        let len = self.digits.len();
        if len == 0 {
            return Some(0);
        }
        let mut c: usize = 0;
        while c < len
            invariant
                c <= len,
                len == self.digits@.len(),
                forall|k: int| 0 <= k < c ==> is_digit(#[trigger] self.digits@[k]),
            decreases len - c,
        {
            if self.digits[c] < 48 || self.digits[c] > 57 {
                assert(!is_digit(self.digits@[c as int]));
                return None;
            }
            c += 1;
        }
        if self.negative || self.exponent < 0 || (self.exponent as u64) < (len as u64) {
            return None;
        }
        let ghost total = digits_value(self.digits@) * pow10((self.exponent - len) as nat);
        let mut acc: usize = 0;
        let mut i: usize = 0;
        assert(self.digits@.subrange(0, 0) =~= Seq::<u8>::empty());
        proof {
            lemma_pow10_positive((self.exponent - len) as nat);
        }
        while i < len
            invariant
                i <= len,
                len == self.digits@.len(),
                all_digits(self.digits@),
                acc == digits_value(self.digits@.subrange(0, i as int)),
                self.as_nat() == Some(total),
                total == digits_value(self.digits@) * pow10((self.exponent - len) as nat),
                pow10((self.exponent - len) as nat) >= 1,
            decreases len - i,
        {
            let d = (self.digits[i] - 48) as usize;
            proof {
                let upto = self.digits@.subrange(0, i + 1);
                assert(upto.drop_last() =~= self.digits@.subrange(0, i as int));
                assert(upto.last() == self.digits@[i as int]);
                lemma_prefix_value(self.digits@, i + 1);
            }
            if acc > (usize::MAX - d) / 10 {
                proof {
                    let part = digits_value(self.digits@.subrange(0, i + 1));
                    assert(part > usize::MAX);
                    assert(total >= digits_value(self.digits@)) by (nonlinear_arith)
                        requires
                            total == digits_value(self.digits@) * pow10((self.exponent - len) as nat),
                            pow10((self.exponent - len) as nat) >= 1,
                    ;
                }
                return None;
            }
            acc = acc * 10 + d;
            i += 1;
        }
        assert(self.digits@.subrange(0, len as int) =~= self.digits@);
        let mut k: u64 = self.exponent as u64 - len as u64;
        while k > 0
            invariant
                acc * pow10(k as nat) == total,
                self.as_nat() == Some(total),
            decreases k,
        {
            proof {
                lemma_pow10_positive((k - 1) as nat);
            }
            if acc > usize::MAX / 10 {
                proof {
                    assert(acc * pow10(k as nat) > usize::MAX) by (nonlinear_arith)
                        requires
                            acc * 10 > usize::MAX,
                            pow10(k as nat) == 10 * pow10((k - 1) as nat),
                            pow10((k - 1) as nat) >= 1,
                    ;
                }
                return None;
            }
            proof {
                assert((acc * 10) * pow10((k - 1) as nat) == acc * pow10(k as nat)) by (nonlinear_arith)
                    requires
                        pow10(k as nat) == 10 * pow10((k - 1) as nat),
                ;
            }
            acc = acc * 10;
            k -= 1;
        }
        assert(acc * 1 == acc);
        Some(acc)
    }

    /// The number written with the digits `int_part` before the point and
    /// `frac_part` behind it, `exp_part` as the digits of the exponent, and
    /// the signs given. `text` is kept as the way it was written.
    pub fn from_parts(
        negative: bool,
        int_part: &[u8],
        frac_part: &[u8],
        exp_negative: bool,
        exp_part: &[u8],
        text: String,
    ) -> (n: Number)
        requires
            all_digits(int_part@),
            all_digits(frac_part@),
            all_digits(exp_part@),
        ensures
            n.wf(),
            n@ == written(negative, int_part@, frac_part@, exp_negative, exp_part@, text@),
    {
        let mut all: Vec<u8> = Vec::new();
        let mut i: usize = 0;
        while i < int_part.len()
            invariant
                i <= int_part@.len(),
                all@ == int_part@.subrange(0, i as int),
            decreases int_part@.len() - i,
        {
            all.push(int_part[i]);
            assert(all@ =~= int_part@.subrange(0, i + 1));
            i += 1;
        }
        assert(int_part@.subrange(0, int_part@.len() as int) =~= int_part@);
        i = 0;
        while i < frac_part.len()
            invariant
                i <= frac_part@.len(),
                all@ == int_part@ + frac_part@.subrange(0, i as int),
            decreases frac_part@.len() - i,
        {
            all.push(frac_part[i]);
            assert(all@ =~= int_part@ + frac_part@.subrange(0, i + 1));
            i += 1;
        }
        assert(frac_part@.subrange(0, frac_part@.len() as int) =~= frac_part@);
        let len = all.len();
        let mut start: usize = 0;
        while start < len && all[start] == 48
            invariant
                start <= len,
                len == all@.len(),
                zeros_from(all@, start as int) == zeros_from(all@, 0),
            decreases len - start,
        {
            start += 1;
        }
        let mut end: usize = len;
        while end > 0 && all[end - 1] == 48
            invariant
                end <= len,
                len == all@.len(),
                zeros_until(all@, end as int) == zeros_until(all@, len as int),
            decreases end,
        {
            end -= 1;
        }
        if start >= end {
            return Number { negative: false, digits: Vec::new(), exponent: 0, text };
        }
        let mut digits: Vec<u8> = Vec::new();
        let mut j: usize = start;
        while j < end
            invariant
                start <= j <= end,
                end <= all@.len(),
                digits@ == all@.subrange(start as int, j as int),
            decreases end - j,
        {
            digits.push(all[j]);
            assert(digits@ =~= all@.subrange(start as int, j + 1));
            j += 1;
        }
        let cap: u64 = 1_000_000_000_000_000_000;
        let mut e: u64 = 0;
        let mut k: usize = 0;
        assert(exp_part@.subrange(0, 0) =~= Seq::<u8>::empty());
        while k < exp_part.len()
            invariant
                k <= exp_part@.len(),
                cap == EXPONENT_CAP,
                all_digits(exp_part@),
                e == capped_value(exp_part@.subrange(0, k as int), cap as nat),
                e <= cap,
            decreases exp_part@.len() - k,
        {
            proof {
                let upto = exp_part@.subrange(0, k + 1);
                assert(upto.drop_last() =~= exp_part@.subrange(0, k as int));
                assert(upto.last() == exp_part@[k as int]);
            }
            let v = e * 10 + (exp_part[k] - 48) as u64;
            e = if v < cap {
                v
            } else {
                cap
            };
            k += 1;
        }
        assert(exp_part@.subrange(0, exp_part@.len() as int) =~= exp_part@);
        let shift: i128 = if exp_negative {
            -(e as i128)
        } else {
            e as i128
        };
        let raw: i128 = int_part.len() as i128 - start as i128 + shift;
        let exponent: i64 = if raw > cap as i128 {
            EXPONENT_CAP
        } else if raw < -(cap as i128) {
            -EXPONENT_CAP
        } else {
            raw as i64
        };
        proof {
            assert(digits@[0] == all@[start as int]);
            assert(digits@.last() == all@[end - 1]);
            assert forall|m: int| 0 <= m < digits@.len() implies is_digit(#[trigger] digits@[m]) by {
                let at = start + m;
                assert(digits@[m] == all@[at]);
                if at < int_part@.len() {
                    assert(all@[at] == int_part@[at]);
                } else {
                    assert(all@[at] == frac_part@[at - int_part@.len()]);
                }
            }
        }
        Number { negative, digits, exponent, text }
    }
}

/// No number is less than itself.
pub proof fn lemma_lt_irreflexive(a: &Number)
    ensures
        !a.lt(a),
{
}

/// The order of numbers is transitive.
pub proof fn lemma_lt_transitive(a: &Number, b: &Number, c: &Number)
    requires
        a.wf(),
        b.wf(),
        c.wf(),
        a.lt(b),
        b.lt(c),
    ensures
        a.lt(c),
{
    if a.negative && b.negative && c.negative {
        if c.exponent == b.exponent && b.exponent == a.exponent {
            lemma_lex_transitive(c.digits@, b.digits@, a.digits@);
        }
    } else if !a.negative && !b.negative && !c.negative {
        if !a.is_zero() && a.exponent == b.exponent && b.exponent == c.exponent {
            lemma_lex_transitive(a.digits@, b.digits@, c.digits@);
        }
    }
}

/// Of two numbers that differ in sign, digits or exponent, one is less
/// than the other.
pub proof fn lemma_lt_total(a: &Number, b: &Number)
    requires
        a.wf(),
        b.wf(),
        a.negative != b.negative || a.digits@ != b.digits@ || a.exponent != b.exponent,
    ensures
        a.lt(b) || b.lt(a),
{
    if a.negative == b.negative && a.exponent == b.exponent {
        lemma_lex_total(a.digits@, b.digits@);
    }
}

pub proof fn lemma_pow10_positive(k: nat)
    ensures
        pow10(k) >= 1,
    decreases k,
{
    if k > 0 {
        lemma_pow10_positive((k - 1) as nat);
    }
}

/// The digits `s` write at least what their first `j` digits write.
proof fn lemma_prefix_value(s: Seq<u8>, j: int)
    requires
        0 <= j <= s.len(),
        all_digits(s),
    ensures
        digits_value(s.subrange(0, j)) <= digits_value(s),
    decreases s.len() - j,
{
    if j < s.len() {
        let upto = s.subrange(0, j + 1);
        assert(upto.drop_last() =~= s.subrange(0, j));
        assert(upto.last() == s[j]);
        lemma_prefix_value(s, j + 1);
    } else {
        assert(s.subrange(0, j) =~= s);
    }
}

} // verus!
