//! Exact decimal numbers, read from the text a response writes them in.
use vstd::prelude::*;
use crate::text::{all_digits, chars_of, digit_value, digits_value, is_digit};

verus! {

/// The number `mantissa * 10^(-scale)`.
///
/// Values read from text are kept in lowest terms: the mantissa is not a
/// multiple of ten, and zero is written with scale 0.
#[derive(Debug, Clone, Copy, PartialEq, Eq, Structural)]
pub struct Decimal {
    pub mantissa: i128,
    pub scale: i32,
}

/// The number `(numerator / denominator) * 10^exponent`, not reduced.
#[derive(Debug, Clone, Copy, PartialEq, Eq, Structural)]
pub struct Ratio {
    pub numerator: i128,
    pub denominator: i128,
    pub exponent: i64,
}

pub open spec fn pow10(n: nat) -> int
    decreases n,
{
    if n == 0 {
        1
    } else {
        10 * pow10((n - 1) as nat)
    }
}

/// How many decimal points a text holds.
pub open spec fn point_count(t: Seq<char>) -> nat
    decreases t.len(),
{
    if t.len() == 0 {
        0
    } else {
        point_count(t.drop_last()) + if t.last() == '.' {
            1nat
        } else {
            0nat
        }
    }
}

/// The text without its decimal points.
pub open spec fn digits_of(t: Seq<char>) -> Seq<char>
    decreases t.len(),
{
    if t.len() == 0 {
        Seq::<char>::empty()
    } else if t.last() == '.' {
        digits_of(t.drop_last())
    } else {
        digits_of(t.drop_last()).push(t.last())
    }
}

/// How many characters follow the decimal point (none without one).
pub open spec fn frac_len(t: Seq<char>) -> nat
    decreases t.len(),
{
    if t.len() == 0 {
        0
    } else if t.last() == '.' {
        0
    } else if point_count(t.drop_last()) > 0 {
        frac_len(t.drop_last()) + 1
    } else {
        0
    }
}

/// Digits, with at most one decimal point, which has digits on both sides.
pub open spec fn unsigned_decimal_form(t: Seq<char>) -> bool {
    &&& t.len() > 0
    &&& point_count(t) <= 1
    &&& t[0] != '.'
    &&& t.last() != '.'
    &&& all_digits(digits_of(t))
}

/// How many zeros end a digit sequence.
pub open spec fn trailing_zeros(d: Seq<char>) -> nat
    decreases d.len(),
{
    if d.len() > 0 && d.last() == '0' {
        trailing_zeros(d.drop_last()) + 1
    } else {
        0
    }
}

/// A digit sequence without the zeros that end it.
pub open spec fn significant(d: Seq<char>) -> Seq<char>
    decreases d.len(),
{
    if d.len() > 0 && d.last() == '0' {
        significant(d.drop_last())
    } else {
        d
    }
}

/// The mantissa and scale, in lowest terms, of what a decimal text writes (an
/// optional minus sign, then digits with an optional fraction), when the
/// mantissa fits an `i128` and the scale an `i32`.
pub open spec fn decimal_text(t: Seq<char>) -> Option<(int, int)> {
    let neg = t.len() > 0 && t[0] == '-';
    let u = if neg {
        t.drop_first()
    } else {
        t
    };
    let d = digits_of(u);
    let (m, s) = if digits_value(d) == 0 {
        (0int, 0int)
    } else {
        (digits_value(significant(d)), frac_len(u) - trailing_zeros(d))
    };
    if unsigned_decimal_form(u) && m <= i128::MAX && i32::MIN <= s <= i32::MAX {
        Some(
            (
                if neg {
                    -m
                } else {
                    m
                },
                s,
            ),
        )
    } else {
        None
    }
}

pub proof fn lemma_pow10_positive(n: nat)
    ensures
        pow10(n) >= 1,
    decreases n,
{
    if n > 0 {
        lemma_pow10_positive((n - 1) as nat);
    }
}

pub proof fn lemma_pow10_monotone(a: nat, b: nat)
    requires
        a <= b,
    ensures
        pow10(a) <= pow10(b),
    decreases b,
{
    if a < b {
        lemma_pow10_monotone(a, (b - 1) as nat);
        lemma_pow10_positive((b - 1) as nat);
    }
}

/// A digit sequence writes its significant digits times ten to the number of
/// zeros that end it.
pub proof fn lemma_significant(d: Seq<char>)
    requires
        all_digits(d),
    ensures
        digits_value(d) == digits_value(significant(d)) * pow10(trailing_zeros(d)),
        all_digits(significant(d)),
        digits_value(significant(d)) >= 0,
    decreases d.len(),
{
    if d.len() > 0 && d.last() == '0' {
        assert(all_digits(d.drop_last()));
        lemma_significant(d.drop_last());
        let v = digits_value(significant(d.drop_last()));
        let p = pow10(trailing_zeros(d.drop_last()));
        assert(digit_value('0') == 0);
        assert(digits_value(d) == digits_value(d.drop_last()) * 10);
        assert(pow10(trailing_zeros(d)) == 10 * p);
        assert(v * p * 10 == v * (10 * p)) by (nonlinear_arith);
    } else {
        crate::text::lemma_digits_prefix(d, 0);
        assert(d.take(0).len() == 0);
    }
}

/// `x * 10^k`, absent when that exceeds `i128::MAX`.
pub fn times_pow10(x: i128, k: usize) -> (r: Option<i128>)
    requires
        x > 0,
    ensures
        match r {
            Some(y) => y == x * pow10(k as nat),
            None => x * pow10(k as nat) > i128::MAX,
        },
{
    let mut y: i128 = x;
    let mut j: usize = 0;
    while j < k
        invariant
            0 <= j <= k,
            y == x * pow10(j as nat),
            y > 0,
            x > 0,
        decreases k - j,
    {
        assert(pow10((j + 1) as nat) == 10 * pow10(j as nat));
        assert(x * pow10((j + 1) as nat) == y * 10) by (nonlinear_arith)
            requires
                pow10((j + 1) as nat) == 10 * pow10(j as nat),
                y == x * pow10(j as nat),
        ;
        match y.checked_mul(10) {
            Some(z) => {
                y = z;
            },
            None => {
                proof {
                    lemma_pow10_monotone((j + 1) as nat, k as nat);
                    let a = pow10((j + 1) as nat);
                    let b = pow10(k as nat);
                    assert(x * a <= x * b) by (nonlinear_arith)
                        requires
                            x > 0,
                            a <= b,
                    ;
                }
                return None;
            },
        }
        j = j + 1;
    }
    Some(y)
}

impl Decimal {
    /// Reads a decimal text: an optional minus sign, digits, and optionally a
    /// point followed by digits. The result is in lowest terms. Absent for
    /// any other text, and when the mantissa does not fit an `i128` or the
    /// scale an `i32`.
    pub fn parse(s: &str) -> (r: Option<Decimal>)
        ensures
            match r {
                Some(d) => decimal_text(s@) == Some((d.mantissa as int, d.scale as int)),
                None => decimal_text(s@) is None,
            },
    {
        let t = chars_of(s);
        let n = t.len();
        let neg = n > 0 && t[0] == '-';
        let start: usize = if neg {
            1
        } else {
            0
        };
        let ghost u = if neg {
            t@.drop_first()
        } else {
            t@
        };
        assert(u =~= t@.subrange(start as int, n as int));
        let mut i: usize = start;
        let mut acc: i128 = 0;
        let mut zeros: usize = 0;
        let mut points: usize = 0;
        let mut frac: usize = 0;
        let mut bad = false;
        let mut over = false;
        assert(t@.subrange(start as int, start as int) =~= Seq::<char>::empty());
        proof {
            reveal_with_fuel(pow10, 1);
        }
        while i < n
            invariant
                n == t@.len(),
                start <= i <= n,
                u == t@.subrange(start as int, n as int),
                points == point_count(t@.subrange(start as int, i as int)),
                frac == frac_len(t@.subrange(start as int, i as int)),
                zeros == trailing_zeros(digits_of(t@.subrange(start as int, i as int))),
                points <= i,
                frac <= i,
                zeros <= i,
                bad == !all_digits(digits_of(t@.subrange(start as int, i as int))),
                !bad ==> (over <==> digits_value(significant(digits_of(t@.subrange(start as int, i as int))))
                    > i128::MAX),
                !bad && !over ==> acc == digits_value(significant(digits_of(t@.subrange(start as int, i as int)))),
                acc >= 0,
            decreases n - i,
        {
            let c = t[i];
            let ghost pre = t@.subrange(start as int, i as int);
            let ghost cur = t@.subrange(start as int, i + 1);
            assert(cur.drop_last() =~= pre);
            assert(cur.last() == c);
            if c == '.' {
                points = points + 1;
                frac = 0;
            } else {
                let ghost ds = digits_of(pre);
                assert(digits_of(cur) == ds.push(c));
                assert(ds.push(c).drop_last() =~= ds);
                assert(ds.push(c).last() == c);
                assert(all_digits(ds.push(c)) <==> (all_digits(ds) && is_digit(c))) by {
                    if all_digits(ds.push(c)) {
                        assert(ds.push(c)[ds.len() as int] == c);
                        assert forall|k: int| 0 <= k < ds.len() implies is_digit(#[trigger] ds[k]) by {
                            assert(ds.push(c)[k] == ds[k]);
                        }
                    }
                    if all_digits(ds) && is_digit(c) {
                        assert forall|k: int| 0 <= k < ds.len() + 1 implies is_digit(#[trigger] ds.push(c)[k]) by {
                            if k < ds.len() {
                                assert(ds.push(c)[k] == ds[k]);
                            }
                        }
                    }
                }
                if points > 0 {
                    frac = frac + 1;
                } else {
                    frac = 0;
                }
                if !('0' <= c && c <= '9') {
                    bad = true;
                    zeros = 0;
                } else if c == '0' {
                    assert(significant(ds.push(c)) == significant(ds));
                    assert(trailing_zeros(ds.push(c)) == trailing_zeros(ds) + 1);
                    zeros = zeros + 1;
                } else {
                    let d = (c as u32 - '0' as u32) as i128;
                    proof {
                        if !bad {
                            lemma_significant(ds);
                            lemma_pow10_positive(zeros as nat);
                            let sv = digits_value(significant(ds));
                            let p = pow10(zeros as nat);
                            assert(significant(ds.push(c)) == ds.push(c));
                            assert(digits_value(ds.push(c)) == digits_value(ds) * 10 + d);
                            assert(sv * p >= sv) by (nonlinear_arith)
                                requires
                                    sv >= 0,
                                    p >= 1,
                            ;
                        }
                    }
                    if !bad && !over {
                        if acc == 0 {
                            proof {
                                assert(digits_value(ds) == 0) by (nonlinear_arith)
                                    requires
                                        digits_value(ds) == acc * pow10(zeros as nat),
                                        acc == 0,
                                ;
                            }
                            acc = d;
                        } else {
                            proof {
                                assert(pow10((zeros + 1) as nat) == 10 * pow10(zeros as nat));
                                let p = pow10(zeros as nat);
                                assert(acc * (10 * p) == acc * p * 10) by (nonlinear_arith);
                            }
                            assert(acc > 0);
                            match times_pow10(acc, zeros + 1) {
                                Some(m) => match m.checked_add(d) {
                                    Some(v) => {
                                        acc = v;
                                    },
                                    None => {
                                        over = true;
                                    },
                                },
                                None => {
                                    over = true;
                                },
                            }
                        }
                    }
                    zeros = 0;
                }
            }
            i = i + 1;
        }
        assert(t@.subrange(start as int, n as int) == u);
        if n <= start || points > 1 || bad || over {
            proof {
                if !bad {
                    lemma_significant(digits_of(u));
                    lemma_pow10_positive(trailing_zeros(digits_of(u)));
                    let sv = digits_value(significant(digits_of(u)));
                    let p = pow10(trailing_zeros(digits_of(u)));
                    assert(sv * p >= sv) by (nonlinear_arith)
                        requires
                            sv >= 0,
                            p >= 1,
                    ;
                }
            }
            return None;
        }
        if t[start] == '.' || t[n - 1] == '.' {
            assert(u[0] == t@[start as int]);
            assert(u.last() == t@[n - 1]);
            return None;
        }
        assert(u[0] == t@[start as int]);
        assert(u.last() == t@[n - 1]);
        proof {
            lemma_significant(digits_of(u));
            lemma_pow10_positive(zeros as nat);
            assert(digits_value(digits_of(u)) == 0 <==> acc == 0) by (nonlinear_arith)
                requires
                    digits_value(digits_of(u)) == acc * pow10(zeros as nat),
                    pow10(zeros as nat) >= 1,
                    acc >= 0,
            ;
        }
        if acc == 0 {
            return Some(Decimal { mantissa: 0, scale: 0 });
        }
        let sc: i128 = frac as i128 - zeros as i128;
        assert(frac == frac_len(u));
        assert(zeros == trailing_zeros(digits_of(u)));
        assert(digits_value(digits_of(u)) != 0);
        if sc < i32::MIN as i128 || sc > i32::MAX as i128 {
            assert(sc == frac_len(u) - trailing_zeros(digits_of(u)));
            return None;
        }
        let mantissa = if neg {
            -acc
        } else {
            acc
        };
        Some(Decimal { mantissa, scale: sc as i32 })
    }
}

/// `10^exponent * a / b`, exactly; absent when `b` is zero.
pub open spec fn scaled_quotient(a: Decimal, b: Decimal, exponent: int) -> Option<Ratio> {
    if b.mantissa != 0 {
        Some(
            Ratio {
                numerator: a.mantissa,
                denominator: b.mantissa,
                exponent: (exponent - a.scale + b.scale) as i64,
            },
        )
    } else {
        None
    }
}

/// Computes `10^exponent * a / b` exactly.
pub fn quotient(a: Decimal, b: Decimal, exponent: i64) -> (r: Option<Ratio>)
    requires
        -1000 <= exponent <= 1000,
    ensures
        r == scaled_quotient(a, b, exponent as int),
{
    if b.mantissa == 0 {
        return None;
    }
    Some(Ratio { numerator: a.mantissa, denominator: b.mantissa, exponent: exponent - a.scale as i64 + b.scale as i64 })
}

} // verus!
