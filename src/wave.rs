//! Waveform shapes over an exact phase, and scaling by an amplitude.
use vstd::prelude::*;

verus! {

/// Output units that make up an amplitude of one (a full-scale signal).
pub const UNIT: i32 = 65536;

/// Number of equally likely values a noise draw takes: the draw `d`
/// stands for the value `(d - UNIT) / UNIT`, in `[-1, 1)`.
pub const NOISE_SPAN: u32 = 131072;

/// Largest number of phase steps in one cycle that the waveform arithmetic
/// accepts (2^42).
pub const MAX_CYCLE: u64 = 0x400_0000_0000;

/// The shape of a voice's signal.
#[derive(Clone, Copy, Debug, PartialEq, Eq, Structural)]
pub enum VoiceKind {
    /// A uniformly distributed random value, independent of time.
    Noise,
    /// A ramp from 0 up towards 1 over the first half cycle, then from -1 up
    /// towards 0 over the second half.
    Saw,
    /// A sine wave, starting at 0 and rising. It is computed in fixed point
    /// with steps of 2^-40 of full scale, by a degree-15 polynomial on the
    /// quarter wave; it is exact at the start, the quarters and the half of
    /// the cycle.
    Sine,
    /// 1 over the first half cycle, -1 over the second.
    Square,
    /// 0 rising to 1 over the first quarter, falling to -1 over the middle
    /// half, rising back to 0 over the last quarter.
    Triangle,
}

/// The absolute value of `x`.
pub open spec fn magnitude(x: int) -> int {
    if x >= 0 {
        x
    } else {
        -x
    }
}

/// Division of `n` by a positive `d`, rounded toward zero.
pub open spec fn div_toward_zero(n: int, d: int) -> int {
    if n >= 0 {
        n / d
    } else {
        -((-n) / d)
    }
}

/// One in the fixed-point fractions of the sine computation (2^40).
pub const FRACTION_ONE: i128 = 1099511627776;

/// Coefficients, in units of `FRACTION_ONE`, of the odd polynomial
/// `sum_k c_k u^(2k+1)` that gives `sin(pi u / 2)` for `u` in `[-1, 1]`: the
/// Taylor coefficients `(-1)^k (pi/2)^(2k+1) / (2k+1)!` rounded, with the
/// first adjusted so that they sum to exactly one.
pub const SINE_C0: i128 = 1727108826185;
pub const SINE_C1: i128 = -710245036334;
pub const SINE_C2: i128 = 87622969206;
pub const SINE_C3: i128 = -5147643110;
pub const SINE_C4: i128 = 176406948;
pub const SINE_C5: i128 = -3956970;
pub const SINE_C6: i128 = 62586;
pub const SINE_C7: i128 = -735;

/// The fixed-point product of `a` and `b`, rounded toward zero.
pub open spec fn fixed_mul(a: int, b: int) -> int {
    scaled(a, (b, FRACTION_ONE as int))
}

/// One step of Horner's rule: `c + acc * s`.
pub open spec fn horner_step(c: int, acc: int, s: int) -> int {
    c + fixed_mul(acc, s)
}

/// The even part `sum_k c_k s^k` of the sine polynomial at `s = u^2`,
/// evaluated by Horner's rule in fixed point.
pub open spec fn sine_series(s: int) -> int {
    horner_step(SINE_C0 as int, horner_step(SINE_C1 as int, horner_step(SINE_C2 as int,
        horner_step(SINE_C3 as int, horner_step(SINE_C4 as int, horner_step(SINE_C5 as int,
        horner_step(SINE_C6 as int, SINE_C7 as int, s), s), s), s), s), s), s)
}

/// `x` limited to `[-FRACTION_ONE, FRACTION_ONE]`.
pub open spec fn clamp_unit(x: int) -> int {
    if x > FRACTION_ONE {
        FRACTION_ONE as int
    } else if x < -FRACTION_ONE {
        -FRACTION_ONE
    } else {
        x
    }
}

/// `sin(pi u / 2)` in fixed point, for a fixed-point `u` in `[-1, 1]`:
/// `u` times the series at `u^2`, kept within `[-1, 1]`.
pub open spec fn sine_fixed(u: int) -> int {
    clamp_unit(fixed_mul(sine_series(fixed_mul(u, u)), u))
}

/// `sin(2 pi t)` at phase `t = pos / len`, in units of `FRACTION_ONE`. The
/// triangle wave folds the phase onto the quarter wave: on every quarter
/// `sin(2 pi t) = sin(pi x / 2)` with `x` the triangle's value at `t`.
pub open spec fn sine_at(pos: int, len: int) -> int {
    sine_fixed(scaled(FRACTION_ONE as int, (triangle(pos, len), len)))
}

/// The triangle wave at phase `pos / len`, as a numerator over `len`: with
/// `x = 4 pos / len`, `x` on the first quarter, `2 - x` on the middle half
/// and `x - 4` on the last quarter.
pub open spec fn triangle(pos: int, len: int) -> int {
    if 4 * pos < len {
        4 * pos
    } else if 4 * pos < 3 * len {
        2 * len - 4 * pos
    } else {
        4 * pos - 4 * len
    }
}

/// The value, before scaling, of a periodic waveform at phase `pos / len`,
/// as a numerator and a positive denominator. Noise has no periodic shape:
/// its entry is never used.
pub open spec fn level(kind: VoiceKind, pos: int, len: int) -> (int, int) {
    match kind {
        VoiceKind::Saw => if 2 * pos < len {
            (2 * pos, len)
        } else {
            (2 * pos - 2 * len, len)
        },
        VoiceKind::Square => if 2 * pos < len {
            (len, len)
        } else {
            (-len, len)
        },
        VoiceKind::Triangle => (triangle(pos, len), len),
        VoiceKind::Sine => (sine_at(pos, len), FRACTION_ONE as int),
        VoiceKind::Noise => (0, 1),
    }
}

/// A value given as a numerator and denominator, times `amplitude`, rounded
/// toward zero to whole output units.
pub open spec fn scaled(amplitude: int, value: (int, int)) -> int {
    div_toward_zero(amplitude * value.0, value.1)
}

/// Largest denominator that `level` produces for a cycle of at most
/// `MAX_CYCLE` steps.
pub open spec fn max_denominator() -> int {
    MAX_CYCLE as int
}

/// Facts about `level` on a valid phase: a positive, bounded denominator and
/// a value in `[-1, 1]`.
pub proof fn lemma_level_bounds(kind: VoiceKind, pos: int, len: int)
    requires
        0 <= pos < len <= MAX_CYCLE,
    ensures
        0 < level(kind, pos, len).1 <= max_denominator(),
        -level(kind, pos, len).1 <= level(kind, pos, len).0 <= level(kind, pos, len).1,
{
}

/// `a` times `b / d`, rounded toward zero, for `b / d` in `[-1, 1]`.
fn mul_toward_zero(a: i128, b: i128, d: i128) -> (r: i128)
    requires
        0 < d <= MAX_CYCLE,
        -(MAX_CYCLE as int) <= a <= MAX_CYCLE,
        -d <= b <= d,
    ensures
        r == scaled(a as int, (b as int, d as int)),
        magnitude(r as int) <= magnitude(a as int),
{
    let mag: i128 = if a >= 0 {
        a
    } else {
        -a
    };
    let n: i128 = if b >= 0 {
        b
    } else {
        -b
    };
    proof {
        assert(0 <= mag * n <= mag * d) by (nonlinear_arith)
            requires
                0 <= mag,
                0 <= n <= d,
        ;
        assert(mag * d <= MAX_CYCLE * MAX_CYCLE) by (nonlinear_arith)
            requires
                0 <= mag <= MAX_CYCLE,
                0 < d <= MAX_CYCLE,
        ;
        assert(a * b == mag * n || a * b == -(mag * n)) by (nonlinear_arith)
            requires
                mag == a || mag == -a,
                n == b || n == -b,
        ;
        assert(a * b >= 0 <==> (a * b == mag * n)) by (nonlinear_arith)
            requires
                mag == a || mag == -a,
                n == b || n == -b,
                0 <= mag,
                0 <= n,
                a * b == mag * n || a * b == -(mag * n),
        ;
        lemma_quotient_at_most(mag * n, mag as int, d as int);
    }
    let q: i128 = (mag * n) / d;
    if a * b >= 0 {
        q
    } else {
        -q
    }
}

/// The triangle wave at phase `pos / len`, as a numerator over `len`.
fn triangle_at(p: i128, l: i128) -> (r: i128)
    requires
        0 <= p < l <= MAX_CYCLE,
    ensures
        r == triangle(p as int, l as int),
{
    if 4 * p < l {
        4 * p
    } else if 4 * p < 3 * l {
        2 * l - 4 * p
    } else {
        4 * p - 4 * l
    }
}

/// `sin(pi u / 2)` in fixed point, for a fixed-point `u` in `[-1, 1]`.
fn sine_fixed_at(u: i128) -> (r: i128)
    requires
        -FRACTION_ONE <= u <= FRACTION_ONE,
    ensures
        r == sine_fixed(u as int),
{
    let s: i128 = mul_toward_zero(u, u, FRACTION_ONE);
    let mut acc: i128 = SINE_C7;
    acc = SINE_C6 + mul_toward_zero(acc, s, FRACTION_ONE);
    acc = SINE_C5 + mul_toward_zero(acc, s, FRACTION_ONE);
    acc = SINE_C4 + mul_toward_zero(acc, s, FRACTION_ONE);
    acc = SINE_C3 + mul_toward_zero(acc, s, FRACTION_ONE);
    acc = SINE_C2 + mul_toward_zero(acc, s, FRACTION_ONE);
    acc = SINE_C1 + mul_toward_zero(acc, s, FRACTION_ONE);
    acc = SINE_C0 + mul_toward_zero(acc, s, FRACTION_ONE);
    let v: i128 = mul_toward_zero(acc, u, FRACTION_ONE);
    if v > FRACTION_ONE {
        FRACTION_ONE
    } else if v < -FRACTION_ONE {
        -FRACTION_ONE
    } else {
        v
    }
}

/// The value of a periodic waveform at phase `pos / len`.
pub fn level_at(kind: VoiceKind, pos: u64, len: u64) -> (r: (i128, i128))
    requires
        kind != VoiceKind::Noise,
        pos < len <= MAX_CYCLE,
    ensures
        (r.0 as int, r.1 as int) == level(kind, pos as int, len as int),
{
    let p: i128 = pos as i128;
    let l: i128 = len as i128;
    match kind {
        VoiceKind::Saw => if 2 * p < l {
            (2 * p, l)
        } else {
            (2 * p - 2 * l, l)
        },
        VoiceKind::Square => if 2 * p < l {
            (l, l)
        } else {
            (-l, l)
        },
        VoiceKind::Triangle => (triangle_at(p, l), l),
        _ => {
            let x: i128 = triangle_at(p, l);
            let u: i128 = mul_toward_zero(FRACTION_ONE, x, l);
            (sine_fixed_at(u), FRACTION_ONE)
        },
    }
}

proof fn lemma_quotient_at_most(m: int, a: int, d: int)
    requires
        0 <= m <= a * d,
        0 <= a,
        0 < d,
    ensures
        0 <= m / d <= a,
{
    vstd::arithmetic::div_mod::lemma_div_is_ordered(m, a * d, d);
    vstd::arithmetic::div_mod::lemma_div_by_multiple(a, d);
    vstd::arithmetic::div_mod::lemma_div_is_ordered(0, m, d);
}

/// Scaling a value in `[-1, 1]` by an amplitude stays within the amplitude.
pub proof fn lemma_scaled_within(amplitude: int, num: int, den: int)
    requires
        0 < den,
        -den <= num <= den,
    ensures
        magnitude(scaled(amplitude, (num, den))) <= magnitude(amplitude),
{
    let m: int = magnitude(amplitude * num);
    assert(0 <= m <= magnitude(amplitude) * den) by (nonlinear_arith)
        requires
            m == magnitude(amplitude * num),
            0 < den,
            -den <= num <= den,
    ;
    lemma_quotient_at_most(m, magnitude(amplitude), den);
}

/// Scaling the values 1, -1 and 0 by an amplitude gives the amplitude, its
/// opposite and 0.
pub proof fn lemma_scaled_whole(amplitude: int, den: int)
    requires
        0 < den,
    ensures
        scaled(amplitude, (den, den)) == amplitude,
        scaled(amplitude, (-den, den)) == -amplitude,
        scaled(amplitude, (0, den)) == 0,
{
    vstd::arithmetic::div_mod::lemma_div_by_multiple(magnitude(amplitude), den);
    assert(amplitude * 0 == 0);
    if amplitude >= 0 {
        assert(amplitude * den >= 0 && amplitude * -den == -(amplitude * den)) by (nonlinear_arith)
            requires
                amplitude >= 0,
                den > 0,
        ;
    } else {
        assert(amplitude * den < 0 && -(amplitude * den) == (-amplitude) * den && amplitude * -den
            == (-amplitude) * den) by (nonlinear_arith)
            requires
                amplitude < 0,
                den > 0,
        ;
    }
}

proof fn lemma_horner_whole(c: int, acc: int)
    ensures
        horner_step(c, acc, FRACTION_ONE as int) == c + acc,
        horner_step(c, acc, 0) == c,
{
    lemma_scaled_whole(acc, FRACTION_ONE as int);
}

/// The fixed-point sine is exact at 0 and at the ends of the quarter wave.
pub proof fn lemma_sine_fixed_whole()
    ensures
        sine_fixed(0) == 0,
        sine_fixed(FRACTION_ONE as int) == FRACTION_ONE,
        sine_fixed(-FRACTION_ONE) == -FRACTION_ONE,
{
    let one: int = FRACTION_ONE as int;
    lemma_scaled_whole(one, one);
    lemma_scaled_whole(-one, one);
    lemma_scaled_whole(0, one);
    let c7: int = SINE_C7 as int;
    let c6: int = SINE_C6 + c7;
    let c5: int = SINE_C5 + c6;
    let c4: int = SINE_C4 + c5;
    let c3: int = SINE_C3 + c4;
    let c2: int = SINE_C2 + c3;
    let c1: int = SINE_C1 + c2;
    lemma_horner_whole(SINE_C6 as int, c7);
    lemma_horner_whole(SINE_C5 as int, c6);
    lemma_horner_whole(SINE_C4 as int, c5);
    lemma_horner_whole(SINE_C3 as int, c4);
    lemma_horner_whole(SINE_C2 as int, c3);
    lemma_horner_whole(SINE_C1 as int, c2);
    lemma_horner_whole(SINE_C0 as int, c1);
    assert(sine_series(one) == one);
    lemma_horner_whole(SINE_C6 as int, SINE_C7 as int);
    lemma_horner_whole(SINE_C5 as int, SINE_C6 as int);
    lemma_horner_whole(SINE_C4 as int, SINE_C5 as int);
    lemma_horner_whole(SINE_C3 as int, SINE_C4 as int);
    lemma_horner_whole(SINE_C2 as int, SINE_C3 as int);
    lemma_horner_whole(SINE_C1 as int, SINE_C2 as int);
    lemma_horner_whole(SINE_C0 as int, SINE_C1 as int);
    lemma_scaled_whole(sine_series(0), one);
}

/// `sin(2 pi t)` is 0 at the start and the half of the cycle, 1 at the
/// quarter and -1 at three quarters, exactly.
pub proof fn lemma_sine_at_landmarks(pos: int, len: int)
    requires
        0 <= pos < len,
    ensures
        pos == 0 ==> sine_at(pos, len) == 0,
        4 * pos == len ==> sine_at(pos, len) == FRACTION_ONE,
        2 * pos == len ==> sine_at(pos, len) == 0,
        4 * pos == 3 * len ==> sine_at(pos, len) == -FRACTION_ONE,
{
    lemma_scaled_whole(FRACTION_ONE as int, len);
    lemma_sine_fixed_whole();
}

/// `amplitude` times the value `num / den`, rounded toward zero.
pub fn scale(amplitude: i32, num: i128, den: i128) -> (r: i64)
    requires
        0 < den <= max_denominator(),
        -den <= num <= den,
    ensures
        r == scaled(amplitude as int, (num as int, den as int)),
        magnitude(r as int) <= magnitude(amplitude as int),
{
    let a: i128 = amplitude as i128;
    let mag: i128 = if a >= 0 {
        a
    } else {
        -a
    };
    let n: i128 = if num >= 0 {
        num
    } else {
        -num
    };
    proof {
        assert(0 <= mag * n <= mag * den) by (nonlinear_arith)
            requires
                0 <= mag,
                0 <= n <= den,
        ;
        assert(mag * den <= 0x8000_0000 * max_denominator()) by (nonlinear_arith)
            requires
                0 <= mag <= 0x8000_0000,
                0 < den <= max_denominator(),
        ;
        assert(a * num == mag * n || a * num == -(mag * n)) by (nonlinear_arith)
            requires
                mag == a || mag == -a,
                n == num || n == -num,
        ;
        assert(a * num >= 0 <==> (a * num == mag * n)) by (nonlinear_arith)
            requires
                mag == a || mag == -a,
                n == num || n == -num,
                0 <= mag,
                0 <= n,
                a * num == mag * n || a * num == -(mag * n),
        ;
        lemma_quotient_at_most(mag * n, mag as int, den as int);
    }
    let q: u128 = ((mag * n) as u128) / (den as u128);
    if a * num >= 0 {
        q as i64
    } else {
        -(q as i64)
    }
}

/// The value of a noise voice of the given amplitude for the draw `draw`.
pub open spec fn noise_value(amplitude: int, draw: int) -> int {
    scaled(amplitude, (draw - UNIT, UNIT as int))
}

/// The sample of a noise voice of the given amplitude, for a draw taken
/// uniformly from `[0, NOISE_SPAN)`.
pub fn noise_level(amplitude: i32, draw: u32) -> (r: i64)
    requires
        draw < NOISE_SPAN,
    ensures
        r == noise_value(amplitude as int, draw as int),
        magnitude(r as int) <= magnitude(amplitude as int),
{
    scale(amplitude, draw as i128 - UNIT as i128, UNIT as i128)
}

} // verus!
