//! The order of numbers is that of their values: shown for the numbers
//! that are counts.

use crate::number::{all_digits, digits_value, is_digit, lemma_pow10_positive, Number, pow10};
use crate::text::{lemma_lex_total, lex_lt, precedes_at};
use vstd::prelude::*;

verus! {

/// Ten to the power `a + b` is ten to the power `a` times ten to the power `b`.
pub proof fn lemma_pow10_add(a: nat, b: nat)
    ensures
        pow10(a + b) == pow10(a) * pow10(b),
    decreases b,
{
    if b == 0 {
        assert(pow10(a) * 1 == pow10(a)) by (nonlinear_arith);
    } else {
        lemma_pow10_add(a, (b - 1) as nat);
        assert(pow10(a + b) == 10 * pow10((a + b - 1) as nat));
        assert(10 * (pow10(a) * pow10((b - 1) as nat)) == pow10(a) * (10 * pow10((b - 1) as nat)))
            by (nonlinear_arith);
    }
}

/// The powers of ten rise.
pub proof fn lemma_pow10_rises(a: nat, b: nat)
    requires
        a <= b,
    ensures
        pow10(a) <= pow10(b),
    decreases b - a,
{
    if a < b {
        lemma_pow10_rises(a, (b - 1) as nat);
        lemma_pow10_positive((b - 1) as nat);
    }
}

/// What two lists of digits write, one behind the other, is what the
/// first writes, shifted by the length of the second, and what the second writes.
pub proof fn lemma_value_concat(x: Seq<u8>, y: Seq<u8>)
    requires
        all_digits(x),
        all_digits(y),
    ensures
        digits_value(x + y) == digits_value(x) * pow10(y.len()) + digits_value(y),
    decreases y.len(),
{
    if y.len() == 0 {
        assert(x + y =~= x);
        assert(digits_value(x) * 1 == digits_value(x)) by (nonlinear_arith);
    } else {
        let front = y.drop_last();
        assert((x + y).drop_last() =~= x + front);
        assert((x + y).last() == y.last());
        assert(is_digit(y[y.len() - 1]));
        assert forall|i: int| 0 <= i < front.len() implies is_digit(#[trigger] front[i]) by {
            assert(front[i] == y[i]);
        }
        lemma_value_concat(x, front);
        let a = digits_value(x);
        let p = pow10(front.len());
        let f = digits_value(front);
        let d = (y.last() - 48) as int;
        assert((a * p + f) * 10 + d == a * (10 * p) + (f * 10 + d)) by (nonlinear_arith);
    }
}

/// Digits write less than ten to the power of their number; and at least
/// ten to the power of their number less one, where the first is not zero.
pub proof fn lemma_value_bounds(s: Seq<u8>)
    requires
        all_digits(s),
    ensures
        digits_value(s) < pow10(s.len()),
        s.len() > 0 && s[0] != 48 ==> digits_value(s) >= pow10((s.len() - 1) as nat),
    decreases s.len(),
{
    if s.len() > 0 {
        let front = s.drop_last();
        assert(is_digit(s[s.len() - 1]));
        assert forall|i: int| 0 <= i < front.len() implies is_digit(#[trigger] front[i]) by {
            assert(front[i] == s[i]);
        }
        lemma_value_bounds(front);
        if front.len() > 0 {
            assert(front[0] == s[0]);
        }
    }
}

/// Of two lists of digits of one length, the one that comes first in the
/// order of lists writes the lesser number.
pub proof fn lemma_equal_length_order(a: Seq<u8>, b: Seq<u8>, k: int)
    requires
        all_digits(a),
        all_digits(b),
        a.len() == b.len(),
        0 <= k < a.len(),
        a.subrange(0, k) == b.subrange(0, k),
        a[k] < b[k],
    ensures
        digits_value(a) < digits_value(b),
{
    let n = a.len() as int;
    let head = a.subrange(0, k);
    let ra = a.subrange(k + 1, n);
    let rb = b.subrange(k + 1, n);
    let ta = seq![a[k]] + ra;
    let tb = seq![b[k]] + rb;
    assert(a =~= head + ta);
    assert(b =~= head + tb);
    assert(is_digit(a[k]) && is_digit(b[k]));
    assert(all_digits(head)) by {
        assert forall|i: int| 0 <= i < head.len() implies is_digit(#[trigger] head[i]) by {
            assert(head[i] == a[i]);
        }
    }
    assert(all_digits(ra)) by {
        assert forall|i: int| 0 <= i < ra.len() implies is_digit(#[trigger] ra[i]) by {
            assert(ra[i] == a[k + 1 + i]);
        }
    }
    assert(all_digits(rb)) by {
        assert forall|i: int| 0 <= i < rb.len() implies is_digit(#[trigger] rb[i]) by {
            assert(rb[i] == b[k + 1 + i]);
        }
    }
    assert(all_digits(seq![a[k]]) && all_digits(seq![b[k]]));
    assert(all_digits(ta)) by {
        assert forall|i: int| 0 <= i < ta.len() implies is_digit(#[trigger] ta[i]) by {
            if i > 0 {
                assert(ta[i] == ra[i - 1]);
            }
        }
    }
    assert(all_digits(tb)) by {
        assert forall|i: int| 0 <= i < tb.len() implies is_digit(#[trigger] tb[i]) by {
            if i > 0 {
                assert(tb[i] == rb[i - 1]);
            }
        }
    }
    lemma_value_concat(head, ta);
    lemma_value_concat(head, tb);
    lemma_value_concat(seq![a[k]], ra);
    lemma_value_concat(seq![b[k]], rb);
    lemma_value_bounds(ra);
    lemma_value_bounds(rb);
    let one_a = seq![a[k]];
    let one_b = seq![b[k]];
    assert(one_a.drop_last() =~= Seq::<u8>::empty());
    assert(one_b.drop_last() =~= Seq::<u8>::empty());
    assert(digits_value(one_a.drop_last()) == 0);
    assert(digits_value(one_b.drop_last()) == 0);
    assert(digits_value(one_a) == a[k] - 48);
    assert(digits_value(one_b) == b[k] - 48);
    let p = pow10(ra.len());
    let da = (a[k] - 48) as int;
    let db = (b[k] - 48) as int;
    assert(da * p + digits_value(ra) < db * p + digits_value(rb)) by (nonlinear_arith)
        requires
            da < db,
            0 <= digits_value(ra) < p,
            0 <= digits_value(rb),
    ;
}

/// `z` zeros.
pub open spec fn zeros(z: nat) -> Seq<u8> {
    Seq::new(z, |i: int| 48u8)
}

/// The digits `s` with zeros behind them, `m` digits in all.
pub open spec fn padded(s: Seq<u8>, m: int) -> Seq<u8> {
    s + zeros((m - s.len()) as nat)
}

/// Zeros write zero.
proof fn lemma_zeros_value(z: nat)
    ensures
        digits_value(zeros(z)) == 0,
        all_digits(zeros(z)),
    decreases z,
{
    if z > 0 {
        lemma_zeros_value((z - 1) as nat);
        assert(zeros(z).drop_last() =~= zeros((z - 1) as nat));
    }
}

/// Digits with zeros behind them write what the digits write, shifted by
/// the number of zeros.
pub proof fn lemma_padded_value(s: Seq<u8>, m: int)
    requires
        all_digits(s),
        s.len() <= m,
    ensures
        digits_value(padded(s, m)) == digits_value(s) * pow10((m - s.len()) as nat),
        all_digits(padded(s, m)),
        padded(s, m).len() == m,
{
    let z = (m - s.len()) as nat;
    lemma_zeros_value(z);
    lemma_value_concat(s, zeros(z));
    assert forall|i: int| 0 <= i < padded(s, m).len() implies is_digit(#[trigger] padded(s, m)[i]) by {
        if i < s.len() {
            assert(padded(s, m)[i] == s[i]);
        } else {
            assert(padded(s, m)[i] == zeros(z)[i - s.len()]);
        }
    }
}

/// The place of the first digit of `s` at or behind `from` that is not zero.
proof fn lemma_first_nonzero(s: Seq<u8>, from: int) -> (m: int)
    requires
        0 <= from < s.len(),
        s.last() != 48,
    ensures
        from <= m < s.len(),
        s[m] != 48,
        forall|i: int| from <= i < m ==> s[i] == 48,
    decreases s.len() - from,
{
    if s[from] != 48 {
        from
    } else {
        lemma_first_nonzero(s, from + 1)
    }
}

/// Of two lists of digits that do not end in zero, the one that comes
/// first in the order of lists writes the lesser number, where both are
/// padded with zeros to one length.
pub proof fn lemma_lex_value(a: Seq<u8>, b: Seq<u8>, m: int)
    requires
        all_digits(a),
        all_digits(b),
        a.len() <= m,
        b.len() <= m,
        b.len() > 0 && b.last() != 48,
        lex_lt(a, b),
    ensures
        digits_value(padded(a, m)) < digits_value(padded(b, m)),
{
    let k = choose|k: int| precedes_at(a, b, k);
    let x = padded(a, m);
    let y = padded(b, m);
    lemma_padded_value(a, m);
    lemma_padded_value(b, m);
    if k < a.len() {
        assert(x.subrange(0, k) =~= y.subrange(0, k)) by {
            assert forall|i: int| 0 <= i < k implies x[i] == y[i] by {
                assert(a.subrange(0, k)[i] == b.subrange(0, k)[i]);
            }
        }
        assert(x[k] == a[k] && y[k] == b[k]);
        lemma_equal_length_order(x, y, k);
    } else {
        let at = lemma_first_nonzero(b, k);
        assert(x.subrange(0, at) =~= y.subrange(0, at)) by {
            assert forall|i: int| 0 <= i < at implies x[i] == y[i] by {
                if i < k {
                    assert(a.subrange(0, k)[i] == b.subrange(0, k)[i]);
                } else {
                    assert(x[i] == 48);
                    assert(y[i] == b[i]);
                }
            }
        }
        assert(x[at] == 48);
        assert(y[at] == b[at]);
        assert(is_digit(b[at]));
        lemma_equal_length_order(x, y, at);
    }
}

/// The value of `n`, but for its sign, times ten to the power `shift`:
/// a natural number where `shift` is large enough. It is what the digits
/// of `n` write, padded with zeros to as many digits as the exponent and
/// the shift give.
pub open spec fn scaled(n: &Number, shift: int) -> nat {
    digits_value(padded(n.digits@, n.exponent + shift))
}

/// The value of `n` times ten to the power `shift`.
pub open spec fn signed_scaled(n: &Number, shift: int) -> int {
    if n.negative {
        -(scaled(n, shift) as int)
    } else {
        scaled(n, shift) as int
    }
}

/// `shift` is large enough to make the value of `n` a whole number.
pub open spec fn makes_whole(n: &Number, shift: int) -> bool {
    n.exponent + shift >= n.digits@.len()
}

/// The scaled value of a number is what its digits write, times ten to
/// the power of the places that the exponent and the shift add.
pub proof fn lemma_scaled_value(n: &Number, shift: int)
    requires
        n.wf(),
        makes_whole(n, shift),
    ensures
        scaled(n, shift) == digits_value(n.digits@) * pow10((n.exponent + shift - n.digits@.len()) as nat),
        n.is_zero() <==> scaled(n, shift) == 0,
{
    lemma_padded_value(n.digits@, n.exponent + shift);
    let x = padded(n.digits@, n.exponent + shift);
    if n.is_zero() {
        lemma_zeros_value((n.exponent + shift) as nat);
        assert(x =~= zeros((n.exponent + shift) as nat));
    } else {
        lemma_value_bounds(x);
        assert(x[0] == n.digits@[0]);
        lemma_pow10_positive((n.exponent + shift - 1) as nat);
    }
}

/// The order of magnitudes is that of the scaled values.
pub proof fn lemma_order_of_magnitudes(a: &Number, b: &Number, shift: int)
    requires
        a.wf(),
        b.wf(),
        makes_whole(a, shift),
        makes_whole(b, shift),
    ensures
        a.magnitude_lt(b) <==> scaled(a, shift) < scaled(b, shift),
{
    let ea = a.exponent + shift;
    let eb = b.exponent + shift;
    let x = padded(a.digits@, ea);
    let y = padded(b.digits@, eb);
    lemma_scaled_value(a, shift);
    lemma_scaled_value(b, shift);
    if b.is_zero() {
    } else if a.is_zero() {
    } else {
        lemma_padded_value(a.digits@, ea);
        lemma_padded_value(b.digits@, eb);
        lemma_value_bounds(x);
        lemma_value_bounds(y);
        assert(x[0] == a.digits@[0]);
        assert(y[0] == b.digits@[0]);
        if ea < eb {
            lemma_pow10_rises(ea as nat, (eb - 1) as nat);
        } else if eb < ea {
            lemma_pow10_rises(eb as nat, (ea - 1) as nat);
        } else if lex_lt(a.digits@, b.digits@) {
            lemma_lex_value(a.digits@, b.digits@, ea);
        } else if a.digits@ == b.digits@ {
        } else {
            lemma_lex_total(a.digits@, b.digits@);
            lemma_lex_value(b.digits@, a.digits@, ea);
        }
    }
}

/// The order of numbers is that of their values: of two numbers, one is
/// less than the other exactly when its value, times a power of ten that
/// makes both values whole, is less than that of the other.
pub proof fn lemma_order_of_values(a: &Number, b: &Number, shift: int)
    requires
        a.wf(),
        b.wf(),
        makes_whole(a, shift),
        makes_whole(b, shift),
    ensures
        a.lt(b) <==> signed_scaled(a, shift) < signed_scaled(b, shift),
{
    lemma_order_of_magnitudes(a, b, shift);
    lemma_order_of_magnitudes(b, a, shift);
    lemma_scaled_value(a, shift);
    lemma_scaled_value(b, shift);
}

/// The order of numbers is that of their values, for the numbers that are
/// counts: of two such numbers, one is less than the other exactly when
/// it is the lesser count.
pub proof fn lemma_order_of_counts(a: &Number, b: &Number)
    requires
        a.wf(),
        b.wf(),
        a.as_nat().is_some(),
        b.as_nat().is_some(),
    ensures
        a.lt(b) <==> a.as_nat()->0 < b.as_nat()->0,
{
    lemma_scaled_value(a, 0);
    lemma_scaled_value(b, 0);
    lemma_order_of_values(a, b, 0);
}

} // verus!
