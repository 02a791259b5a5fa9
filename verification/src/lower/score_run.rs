//! What lowered score instructions compute when they run.
//!
//! A small model of the scoreboard: the instructions here work on one score
//! and, for powers, on one extra register. Arithmetic wraps as scoreboard
//! arithmetic does, and an `if score .. matches` modifier runs its
//! instruction only where the score lies in the range.
use vstd::prelude::*;
use vstd::arithmetic::div_mod::{lemma_fundamental_div_mod, lemma_mod_multiples_vanish, lemma_small_mod};
use vstd::arithmetic::power::{lemma_pow0, lemma_pow1, lemma_pow_adds, pow};

use crate::common::mc::modifier::{IfModCondition, IfScoreCondition, IfScoreRangeEnd, Modifier};
use crate::common::ty::{score_contents_value, ScoreTypeContents};
use crate::common::val::{msv_same, to_score, MutableScoreValue, MutableValue, ScoreValue};
use crate::common::ty::DataType;
use crate::lir::{LIRInstrKind, LIRInstruction};
use crate::common::condition::Condition;
use crate::common::function::FunctionSignature;
use crate::common::ty::DataTypeContents;
use crate::common::val::{lemma_msv_same_reflexive, Value};
use super::mir_to_lir::{
    lower_cond_spec, LowerError,
    all_lowered_as, log2_of, lower_abs_spec, lower_pow_spec, lowered_as, pow2_factor, temp_reg_name, Lowered,
};

verus! {

/// A whole number brought into the range of a score, as scoreboard
/// arithmetic wraps it
pub open spec fn wrap_score(n: int) -> int {
    (n + 0x8000_0000) % 0x1_0000_0000 - 0x8000_0000
}

/// Whether a score holding `x` lies in a range end: below an upper end or
/// above a lower one; `None` where the end is not a constant
pub open spec fn end_holds(end: IfScoreRangeEnd, x: int, upper: bool) -> Option<bool> {
    match end {
        IfScoreRangeEnd::Infinite => Some(true),
        IfScoreRangeEnd::Fixed { value: ScoreValue::Constant(c), inclusive } => {
            let v = score_contents_value(c);
            Some(
                if upper {
                    if inclusive { x <= v } else { x < v }
                } else {
                    if inclusive { x >= v } else { x > v }
                },
            )
        },
        _ => None,
    }
}

/// Whether an `if` modifier on the score `b`, which holds `x`, lets its
/// instruction run; `None` for any other modifier
pub open spec fn cond_holds(m: Modifier, b: MutableScoreValue, x: int) -> Option<bool> {
    match m {
        Modifier::If { condition, negate } => match *condition {
            IfModCondition::Score(IfScoreCondition::Range { score: ScoreValue::Mutable(s), left, right }) => {
                if msv_same(s, b) {
                    match (end_holds(left, x, false), end_holds(right, x, true)) {
                        (Some(l), Some(r)) => Some((l && r) != negate),
                        _ => None,
                    }
                } else {
                    None
                }
            },
            IfModCondition::Score(IfScoreCondition::Single { left: ScoreValue::Mutable(s), right: ScoreValue::Constant(c) }) => {
                if msv_same(s, b) {
                    Some((x == score_contents_value(c)) != negate)
                } else {
                    None
                }
            },
            _ => None,
        },
        _ => None,
    }
}

/// What the score `b` holds after an instruction that works on it alone,
/// from the value `x` it holds before; `None` for any other instruction
pub open spec fn kind_on_score(k: LIRInstrKind, b: MutableScoreValue, x: int) -> Option<int> {
    match k {
        LIRInstrKind::SetScore(d, ScoreValue::Constant(c)) => if msv_same(d, b) {
            Some(score_contents_value(c))
        } else {
            None
        },
        LIRInstrKind::MulScore(d, ScoreValue::Constant(c)) => if msv_same(d, b) {
            Some(wrap_score(x * score_contents_value(c)))
        } else {
            None
        },
        LIRInstrKind::MulScore(d, ScoreValue::Mutable(s)) => if msv_same(d, b) && msv_same(s, b) {
            Some(wrap_score(x * x))
        } else {
            None
        },
        _ => None,
    }
}

/// What the score `b` holds after an instruction, with at most one `if`
/// modifier, that works on it alone
pub open spec fn run_on_score(i: LIRInstruction, b: MutableScoreValue, x: int) -> Option<int> {
    if i.modifiers@.len() == 0 {
        kind_on_score(i.kind, b, x)
    } else if i.modifiers@.len() == 1 {
        match cond_holds(i.modifiers@[0], b, x) {
            Some(true) => kind_on_score(i.kind, b, x),
            Some(false) => Some(x),
            None => None,
        }
    } else {
        None
    }
}

/// What the score `b` and the register named `temp` hold, `st.0` and `st.1`
/// before, after an instruction without modifiers that works on these two
/// alone; `None` for any other instruction
pub open spec fn run_on_pair(i: LIRInstruction, b: MutableScoreValue, temp: Seq<char>, st: (int, int)) -> Option<
    (int, int),
> {
    if i.modifiers@.len() != 0 {
        None
    } else {
        match i.kind {
            LIRInstrKind::SetScore(MutableScoreValue::Reg(r), ScoreValue::Mutable(s)) => if r@ == temp && msv_same(s, b) {
                Some((st.0, st.0))
            } else {
                None
            },
            LIRInstrKind::MulScore(d, ScoreValue::Mutable(MutableScoreValue::Reg(r))) => if msv_same(d, b) && r@ == temp {
                Some((wrap_score(st.0 * st.1), st.1))
            } else {
                match kind_on_score(i.kind, b, st.0) {
                    Some(y) => Some((y, st.1)),
                    None => None,
                }
            },
            _ => match kind_on_score(i.kind, b, st.0) {
                Some(y) => Some((y, st.1)),
                None => None,
            },
        }
    }
}

/// What the score `b` and the register named `temp` hold after a list of
/// instructions runs in order
pub open spec fn run_all_on_pair(is: Seq<LIRInstruction>, b: MutableScoreValue, temp: Seq<char>, st: (int, int)) -> Option<
    (int, int),
>
    decreases is.len(),
{
    if is.len() == 0 {
        Some(st)
    } else {
        match run_all_on_pair(is.drop_last(), b, temp, st) {
            Some(mid) => run_on_pair(is.last(), b, temp, mid),
            None => None,
        }
    }
}

/// Two to the power of `n`
pub open spec fn two_to(n: nat) -> nat
    decreases n,
{
    if n == 0 {
        1
    } else {
        2 * two_to((n - 1) as nat)
    }
}

proof fn lemma_wrap_small(x: int)
    requires
        -0x8000_0000 <= x < 0x8000_0000,
    ensures
        wrap_score(x) == x,
{
    lemma_small_mod((x + 0x8000_0000) as nat, 0x1_0000_0000);
}

proof fn lemma_expand_product(a: int, c: int, qa: int, qc: int, m: int)
    by (nonlinear_arith)
    ensures
        (a - m * qa) * (c - m * qc) == a * c + m * (m * qa * qc - a * qc - c * qa),
{
}

/// Wrapping before a product changes nothing after it
proof fn lemma_wrap_mul(a: int, c: int)
    ensures
        wrap_score(wrap_score(a) * wrap_score(c)) == wrap_score(a * c),
        wrap_score(wrap_score(a) * c) == wrap_score(a * c),
{
    let m: int = 0x1_0000_0000;
    let h: int = 0x8000_0000;
    let qa = (a + h) / m;
    let qc = (c + h) / m;
    lemma_fundamental_div_mod(a + h, m);
    lemma_fundamental_div_mod(c + h, m);
    assert(wrap_score(a) == a - m * qa);
    assert(wrap_score(c) == c - m * qc);
    let k = m * qa * qc - a * qc - c * qa;
    lemma_expand_product(a, c, qa, qc, m);
    lemma_mod_multiples_vanish(k, a * c + h, m);
    assert(wrap_score(a) * wrap_score(c) + h == m * k + (a * c + h));
    let k2 = -qa * c;
    assert((a - m * qa) * c == a * c + m * k2) by (nonlinear_arith)
        requires
            k2 == -qa * c,
    ;
    lemma_mod_multiples_vanish(k2, a * c + h, m);
    assert(wrap_score(a) * c + h == m * k2 + (a * c + h));
}

proof fn lemma_run_all_append(a: Seq<LIRInstruction>, c: Seq<LIRInstruction>, b: MutableScoreValue, temp: Seq<char>, st: (int, int))
    requires
        run_all_on_pair(a, b, temp, st) is Some,
    ensures
        run_all_on_pair(a + c, b, temp, st) == run_all_on_pair(c, b, temp, run_all_on_pair(a, b, temp, st)->Some_0),
    decreases c.len(),
{
    if c.len() == 0 {
        assert(a + c =~= a);
    } else {
        lemma_run_all_append(a, c.drop_last(), b, temp, st);
        assert((a + c).drop_last() =~= a + c.drop_last());
        assert((a + c).last() == c.last());
    }
}

/// Squaring the score `n` times
proof fn lemma_run_squares(is: Seq<LIRInstruction>, b: MutableScoreValue, temp: Seq<char>, x: int, t: int)
    requires
        !(b matches MutableScoreValue::Reg(r) && r@ == temp),
        forall|q: int| 0 <= q < is.len() ==> lowered_as(#[trigger] is[q], Lowered::Kind(LIRInstrKind::MulScore(b, ScoreValue::Mutable(b)))),
    ensures
        run_all_on_pair(is, b, temp, (wrap_score(x), t)) == Some((wrap_score(pow(x, two_to(is.len()))), t)),
    decreases is.len(),
{
    if is.len() == 0 {
        lemma_pow1(x);
    } else {
        let n = (is.len() - 1) as nat;
        lemma_run_squares(is.drop_last(), b, temp, x, t);
        let i = is.last();
        assert(lowered_as(is[is.len() - 1], Lowered::Kind(LIRInstrKind::MulScore(b, ScoreValue::Mutable(b)))));
        let p = pow(x, two_to(n));
        lemma_wrap_mul(p, p);
        lemma_pow_adds(x, two_to(n), two_to(n));
        assert(two_to(n) + two_to(n) == two_to(is.len()));
        assert(run_on_pair(i, b, temp, (wrap_score(p), t)) == Some((wrap_score(p * p), t)));
    }
}

/// Multiplying the score by the register `m` times
proof fn lemma_run_muls(is: Seq<LIRInstruction>, b: MutableScoreValue, temp: Seq<char>, x: int, f: nat, e: nat)
    requires
        forall|q: int| 0 <= q < is.len() ==> lowered_as(#[trigger] is[q], Lowered::MulByReg(b, temp)),
    ensures
        run_all_on_pair(is, b, temp, (wrap_score(pow(x, e)), wrap_score(pow(x, f)))) == Some(
            (wrap_score(pow(x, e + f * is.len())), wrap_score(pow(x, f))),
        ),
    decreases is.len(),
{
    if is.len() == 0 {
        assert(e + f * is.len() == e);
    } else {
        let n = (is.len() - 1) as nat;
        lemma_run_muls(is.drop_last(), b, temp, x, f, e);
        assert(lowered_as(is[is.len() - 1], Lowered::MulByReg(b, temp)));
        let p = pow(x, e + f * n);
        let q = pow(x, f);
        lemma_wrap_mul(p, q);
        lemma_pow_adds(x, e + f * n, f);
        assert(e + f * n + f == e + f * is.len()) by (nonlinear_arith)
            requires
                n + 1 == is.len(),
        ;
    }
}

/// The factor two of an exponent, and its odd part, make up the exponent
proof fn lemma_pow2_factor(exp: u8)
    requires
        exp > 0,
    ensures
        pow2_factor(exp) == two_to(log2_of(pow2_factor(exp))),
        pow2_factor(exp) > 0,
        (exp / pow2_factor(exp)) * pow2_factor(exp) == exp,
{
    let f = pow2_factor(exp);
    assert(f == 1 || f == 2 || f == 4 || f == 8 || f == 16 || f == 32 || f == 64 || f == 128) by (bit_vector)
        requires
            exp > 0,
            f == exp & !((exp - 1) as u8),
    ;
    assert(exp % f == 0) by (bit_vector)
        requires
            exp > 0,
            f == exp & !((exp - 1) as u8),
    ;
    reveal_with_fuel(two_to, 8);
    lemma_fundamental_div_mod(exp as int, f as int);
}

proof fn lemma_pow_at(
    base: MutableValue,
    b: MutableScoreValue,
    exp: u8,
    rv: Seq<(Seq<char>, DataType)>,
    extra: nat,
    out: Seq<LIRInstruction>,
    x: i32,
    t: i32,
)
    requires
        lower_pow_spec(base, exp, rv, extra) is Ok,
        all_lowered_as(out, lower_pow_spec(base, exp, rv, extra)->Ok_0.0),
        exp != 1 ==> to_score(base) == Ok::<MutableScoreValue, crate::common::val::ValueError>(b),
        !(b matches MutableScoreValue::Reg(r) && r@ == temp_reg_name(extra)),
    ensures
        run_all_on_pair(out, b, temp_reg_name(extra), (x as int, t as int)) matches Some((y, _)) && y
            == wrap_score(pow(x as int, exp as nat)),
{
    let temp = temp_reg_name(extra);
    let steps = lower_pow_spec(base, exp, rv, extra)->Ok_0.0;
    lemma_wrap_small(x as int);
    lemma_wrap_small(t as int);
    if exp == 1 {
        lemma_pow1(x as int);
        assert(out.len() == 0);
        assert(run_all_on_pair(out, b, temp, (x as int, t as int)) == Some((x as int, t as int)));
    } else if exp == 0 {
        lemma_pow0(x as int);
        lemma_wrap_small(1);
        assert(lowered_as(out[0], steps[0]));
        assert(out.drop_last().len() == 0);
        assert(out.last() == out[0]);
        assert(run_all_on_pair(out.drop_last(), b, temp, (x as int, t as int)) == Some((x as int, t as int)));
        assert(run_on_pair(out[0], b, temp, (x as int, t as int)) == Some((1int, t as int)));
    } else if exp == 2 {
        assert(lowered_as(out[0], steps[0]));
        assert(out.drop_last().len() == 0);
        assert(out.last() == out[0]);
        lemma_pow_adds(x as int, 1, 1);
        lemma_pow1(x as int);
        assert(run_all_on_pair(out.drop_last(), b, temp, (x as int, t as int)) == Some((x as int, t as int)));
        assert(run_on_pair(out[0], b, temp, (x as int, t as int)) == Some((wrap_score(x * x), t as int)));
    } else {
        let f = pow2_factor(exp);
        lemma_pow2_factor(exp);
        let n = log2_of(f);
        let rest = exp / f;
        let squares = Seq::new(n, |k: int| Lowered::Kind(LIRInstrKind::MulScore(b, ScoreValue::Mutable(b))));
        let sq = out.subrange(0, n as int);
        assert forall|q: int| 0 <= q < sq.len() implies lowered_as(
            #[trigger] sq[q],
            Lowered::Kind(LIRInstrKind::MulScore(b, ScoreValue::Mutable(b))),
        ) by {
            assert(lowered_as(out[q], steps[q]));
        }
        lemma_run_squares(sq, b, temp, x as int, t as int);
        assert(rest != 0) by {
            if rest == 0 {
                assert(rest * f == 0) by (nonlinear_arith)
                    requires
                        rest == 0,
                ;
            }
        }
        assert(run_all_on_pair(sq, b, temp, (x as int, t as int)) == Some((wrap_score(pow(x as int, f as nat)), t as int)));
        if rest == 1 {
            assert(steps == squares);
            assert(sq =~= out);
            assert(f == exp) by (nonlinear_arith)
                requires
                    rest == 1,
                    rest * f == exp,
            ;
            assert(run_all_on_pair(out, b, temp, (x as int, t as int)) == Some((wrap_score(pow(x as int, exp as nat)), t as int)));
        } else {
            let tail = Seq::new((rest - 1) as nat, |k: int| Lowered::MulByReg(b, temp));
            assert(steps == squares + seq![Lowered::ScoreToReg(temp, b)] + tail);
            assert(steps[n as int] == Lowered::ScoreToReg(temp, b));
            assert(squares.len() == n);
            assert(tail.len() == rest - 1);
            assert(steps.len() == n + 1 + (rest - 1));
            assert(out.len() == n + 1 + (rest - 1));
            let mv = out.subrange(n as int, n as int + 1);
            let muls = out.subrange(n as int + 1, out.len() as int);
            assert(out =~= sq + mv + muls);
            assert(lowered_as(out[n as int], steps[n as int]));
            let px = wrap_score(pow(x as int, f as nat));
            lemma_run_all_append(sq, mv, b, temp, (x as int, t as int));
            assert(mv.drop_last().len() == 0);
            assert(mv.last() == out[n as int]);
            assert(run_all_on_pair(mv.drop_last(), b, temp, (px, t as int)) == Some((px, t as int)));
            assert(run_on_pair(out[n as int], b, temp, (px, t as int)) == Some((px, px)));
            assert(run_all_on_pair(sq + mv, b, temp, (x as int, t as int)) == Some((px, px)));
            assert forall|q: int| 0 <= q < muls.len() implies lowered_as(#[trigger] muls[q], Lowered::MulByReg(b, temp)) by {
                assert(lowered_as(out[n as int + 1 + q], steps[n as int + 1 + q]));
                assert(steps[n as int + 1 + q] == tail[q]);
            }
            lemma_run_all_append(sq + mv, muls, b, temp, (x as int, t as int));
            lemma_run_muls(muls, b, temp, x as int, f as nat, f as nat);
            assert(muls.len() == rest - 1);
            assert(f + f * (rest - 1) == exp) by (nonlinear_arith)
                requires
                    rest * f == exp,
                    rest > 1,
            ;
            assert(run_all_on_pair(out, b, temp, (x as int, t as int)) == Some((wrap_score(pow(x as int, exp as nat)), px)));
        }
    }
}

proof fn lemma_abs_at(
    val: MutableValue,
    rv: Seq<(Seq<char>, DataType)>,
    sig: crate::common::function::FunctionSignature,
    i: LIRInstruction,
    x: i32,
)
    requires
        lower_abs_spec(val, rv, sig) is Ok,
        lowered_as(i, Lowered::Abs(lower_abs_spec(val, rv, sig)->Ok_0)),
    ensures
        run_on_score(i, lower_abs_spec(val, rv, sig)->Ok_0, x as int) == Some(
            if x == i32::MIN {
                x as int
            } else if x < 0 {
                -x
            } else {
                x as int
            },
        ),
{
    let v = lower_abs_spec(val, rv, sig)->Ok_0;
    if x <= -1 {
        if x == i32::MIN {
            assert(wrap_score(x * -1) == x) by {
                lemma_mod_multiples_vanish(1, 0, 0x1_0000_0000);
            }
        } else {
            lemma_wrap_small(-x);
        }
    }
}

/// A list of instructions that, run from any values of the score `b` and of
/// the register named `temp`, leaves `b` holding its value before to the
/// power `exp`, wrapped as scores wrap, and touches nothing else
#[verifier::opaque]
pub open spec fn computes_power(out: Seq<LIRInstruction>, b: MutableScoreValue, temp: Seq<char>, exp: u8) -> bool {
    forall|x: int, t: int|
        i32::MIN <= x <= i32::MAX && i32::MIN <= t <= i32::MAX ==> (#[trigger] run_all_on_pair(out, b, temp, (x, t)) matches Some(
            (y, _),
        ) && y == wrap_score(pow(x, exp as nat)))
}

/// The absolute value of a score; the least score has none, and stays as it
/// is, as negating it wraps
pub open spec fn abs_score(x: int) -> int {
    if x == i32::MIN {
        x
    } else if x < 0 {
        -x
    } else {
        x
    }
}

/// An instruction that, run from any value of the score `v`, leaves it
/// holding its absolute value
#[verifier::opaque]
pub open spec fn computes_abs(i: LIRInstruction, v: MutableScoreValue) -> bool {
    forall|x: int| i32::MIN <= x <= i32::MAX ==> #[trigger] run_on_score(i, v, x) == Some(abs_score(x))
}

/// What a power lowers into leaves the base holding its power, wrapped as
/// scores wrap, whatever the base and the extra register held before. The
/// extra register is a register of its own, not the base.
pub proof fn lemma_pow_lowering_computes_power(
    base: MutableValue,
    b: MutableScoreValue,
    exp: u8,
    rv: Seq<(Seq<char>, DataType)>,
    extra: nat,
    out: Seq<LIRInstruction>,
)
    requires
        lower_pow_spec(base, exp, rv, extra) is Ok,
        all_lowered_as(out, lower_pow_spec(base, exp, rv, extra)->Ok_0.0),
        exp != 1 ==> to_score(base) == Ok::<MutableScoreValue, crate::common::val::ValueError>(b),
        !(b matches MutableScoreValue::Reg(r) && r@ == temp_reg_name(extra)),
    ensures
        computes_power(out, b, temp_reg_name(extra), exp),
{
    reveal(computes_power);
    assert forall|x: int, t: int| i32::MIN <= x <= i32::MAX && i32::MIN <= t <= i32::MAX implies (#[trigger] run_all_on_pair(
        out,
        b,
        temp_reg_name(extra),
        (x, t),
    ) matches Some((y, _)) && y == wrap_score(pow(x, exp as nat))) by {
        lemma_pow_at(base, b, exp, rv, extra, out, x as i32, t as i32);
    }
}

/// What an absolute value lowers into leaves the score holding its absolute
/// value
pub proof fn lemma_abs_lowering_computes_abs(
    val: MutableValue,
    rv: Seq<(Seq<char>, DataType)>,
    sig: crate::common::function::FunctionSignature,
    i: LIRInstruction,
)
    requires
        lower_abs_spec(val, rv, sig) is Ok,
        lowered_as(i, Lowered::Abs(lower_abs_spec(val, rv, sig)->Ok_0)),
    ensures
        computes_abs(i, lower_abs_spec(val, rv, sig)->Ok_0),
{
    reveal(computes_abs);
    assert forall|x: int| i32::MIN <= x <= i32::MAX implies #[trigger] run_on_score(
        i,
        lower_abs_spec(val, rv, sig)->Ok_0,
        x,
    ) == Some(abs_score(x)) by {
        lemma_abs_at(val, rv, sig, i, x as i32);
    }
}

/// Whether all of a list of `if` modifiers let their instruction run while
/// the score `b` holds `x`
pub open spec fn conds_hold(cs: Seq<(IfModCondition, bool)>, b: MutableScoreValue, x: int) -> Option<bool>
    decreases cs.len(),
{
    if cs.len() == 0 {
        Some(true)
    } else {
        match (
            conds_hold(cs.drop_last(), b, x),
            cond_holds(Modifier::If { condition: Box::new(cs.last().0), negate: cs.last().1 }, b, x),
        ) {
            (Some(p), Some(q)) => Some(p && q),
            _ => None,
        }
    }
}

/// Whether the lowering of a condition lets its instruction run while the
/// score `b` holds `x`
pub open spec fn lowered_cond_holds(
    res: Result<Seq<(IfModCondition, bool)>, LowerError>,
    b: MutableScoreValue,
    x: int,
) -> Option<bool> {
    match res {
        Ok(cs) => conds_hold(cs, b, x),
        Err(_) => None,
    }
}

proof fn lemma_conds_hold_one(c: (IfModCondition, bool), b: MutableScoreValue, x: int)
    ensures
        conds_hold(seq![c], b, x) == cond_holds(Modifier::If { condition: Box::new(c.0), negate: c.1 }, b, x),
{
    assert(seq![c].drop_last() =~= Seq::<(IfModCondition, bool)>::empty());
    assert(conds_hold(Seq::<(IfModCondition, bool)>::empty(), b, x) == Some(true));
}

proof fn lemma_conds_hold_append(a: Seq<(IfModCondition, bool)>, c: Seq<(IfModCondition, bool)>, b: MutableScoreValue, x: int)
    ensures
        conds_hold(a + c, b, x) == match (conds_hold(a, b, x), conds_hold(c, b, x)) {
            (Some(p), Some(q)) => Some(p && q),
            _ => None::<bool>,
        },
    decreases c.len(),
{
    if c.len() == 0 {
        assert(a + c =~= a);
    } else {
        lemma_conds_hold_append(a, c.drop_last(), b, x);
        assert((a + c).drop_last() =~= a + c.drop_last());
        assert((a + c).last() == c.last());
    }
}

/// A comparison of a score with a constant lowers into one `if` modifier
/// that holds exactly where the comparison does: `<=` lets the bound itself
/// through and `<` does not, `>=` lets it through and `>` does not, and a
/// negated comparison holds exactly where the comparison fails
pub proof fn lemma_comparison_conditions(
    l: MutableValue,
    b: MutableScoreValue,
    c: ScoreTypeContents,
    rv: Seq<(Seq<char>, DataType)>,
    sig: FunctionSignature,
    x: int,
)
    requires
        to_score(l) == Ok::<MutableScoreValue, crate::common::val::ValueError>(b),
    ensures
        lowered_cond_holds(
            lower_cond_spec(
                Condition::LessThanOrEqual(Value::Mutable(l), Value::Constant(DataTypeContents::Score(c))),
                rv,
                sig,
            ),
            b,
            x,
        ) == Some(x <= score_contents_value(c)),
        lowered_cond_holds(
            lower_cond_spec(
                Condition::LessThan(Value::Mutable(l), Value::Constant(DataTypeContents::Score(c))),
                rv,
                sig,
            ),
            b,
            x,
        ) == Some(x < score_contents_value(c)),
        lowered_cond_holds(
            lower_cond_spec(
                Condition::GreaterThanOrEqual(Value::Mutable(l), Value::Constant(DataTypeContents::Score(c))),
                rv,
                sig,
            ),
            b,
            x,
        ) == Some(x >= score_contents_value(c)),
        lowered_cond_holds(
            lower_cond_spec(
                Condition::GreaterThan(Value::Mutable(l), Value::Constant(DataTypeContents::Score(c))),
                rv,
                sig,
            ),
            b,
            x,
        ) == Some(x > score_contents_value(c)),
        lowered_cond_holds(
            lower_cond_spec(
                Condition::Not(
                    Box::new(
                        Condition::LessThanOrEqual(Value::Mutable(l), Value::Constant(DataTypeContents::Score(c))),
                    ),
                ),
                rv,
                sig,
            ),
            b,
            x,
        ) == Some(!(x <= score_contents_value(c))),
{
    lemma_msv_same_reflexive(b);
    let v = score_contents_value(c);
    let s = ScoreValue::Mutable(b);
    let bound = ScoreValue::Constant(c);
    lemma_conds_hold_one((IfModCondition::Score(IfScoreCondition::Range { score: s, left: IfScoreRangeEnd::Infinite, right: IfScoreRangeEnd::Fixed { value: bound, inclusive: true } }), false), b, x);
    lemma_conds_hold_one((IfModCondition::Score(IfScoreCondition::Range { score: s, left: IfScoreRangeEnd::Infinite, right: IfScoreRangeEnd::Fixed { value: bound, inclusive: false } }), false), b, x);
    lemma_conds_hold_one((IfModCondition::Score(IfScoreCondition::Range { score: s, left: IfScoreRangeEnd::Fixed { value: bound, inclusive: true }, right: IfScoreRangeEnd::Infinite }), false), b, x);
    lemma_conds_hold_one((IfModCondition::Score(IfScoreCondition::Range { score: s, left: IfScoreRangeEnd::Fixed { value: bound, inclusive: false }, right: IfScoreRangeEnd::Infinite }), false), b, x);
    lemma_conds_hold_one((IfModCondition::Score(IfScoreCondition::Range { score: s, left: IfScoreRangeEnd::Infinite, right: IfScoreRangeEnd::Fixed { value: bound, inclusive: true } }), true), b, x);
}

/// Equality of a score with a constant lowers into one `if` modifier that
/// holds exactly where the score equals the constant; a boolean check holds
/// exactly where the score is one, and its negated form where it is zero
pub proof fn lemma_equality_conditions(
    l: MutableValue,
    b: MutableScoreValue,
    c: ScoreTypeContents,
    rv: Seq<(Seq<char>, DataType)>,
    sig: FunctionSignature,
    x: int,
)
    requires
        to_score(l) == Ok::<MutableScoreValue, crate::common::val::ValueError>(b),
        crate::common::val::mut_val_ty(l, rv, sig) matches Ok(DataType::Score(_)),
    ensures
        lowered_cond_holds(
            lower_cond_spec(Condition::Equal(Value::Mutable(l), Value::Constant(DataTypeContents::Score(c))), rv, sig),
            b,
            x,
        ) == Some(x == score_contents_value(c)),
        lowered_cond_holds(lower_cond_spec(Condition::Bool(Value::Mutable(l)), rv, sig), b, x) == Some(x == 1),
        lowered_cond_holds(lower_cond_spec(Condition::NotBool(Value::Mutable(l)), rv, sig), b, x) == Some(x == 0),
{
    lemma_msv_same_reflexive(b);
    let s = ScoreValue::Mutable(b);
    lemma_conds_hold_one((IfModCondition::Score(IfScoreCondition::Single { left: s, right: ScoreValue::Constant(c) }), false), b, x);
    lemma_conds_hold_one((IfModCondition::Score(IfScoreCondition::Single { left: s, right: ScoreValue::Constant(ScoreTypeContents::Bool(true)) }), false), b, x);
    lemma_conds_hold_one((IfModCondition::Score(IfScoreCondition::Single { left: s, right: ScoreValue::Constant(ScoreTypeContents::Bool(false)) }), false), b, x);
}

/// Conditions combine as logic does: the lowering of a conjunction holds
/// exactly where the lowerings of both sides hold, and the negation of a
/// condition that lowers into one modifier holds exactly where that
/// condition does not
pub proof fn lemma_condition_logic(
    c1: Condition,
    c2: Condition,
    rv: Seq<(Seq<char>, DataType)>,
    sig: FunctionSignature,
    b: MutableScoreValue,
    x: int,
)
    ensures
        lower_cond_spec(Condition::And(Box::new(c1), Box::new(c2)), rv, sig) is Ok ==> lowered_cond_holds(
            lower_cond_spec(Condition::And(Box::new(c1), Box::new(c2)), rv, sig),
            b,
            x,
        ) == match (lowered_cond_holds(lower_cond_spec(c1, rv, sig), b, x), lowered_cond_holds(lower_cond_spec(c2, rv, sig), b, x)) {
            (Some(p), Some(q)) => Some(p && q),
            _ => None::<bool>,
        },
        lower_cond_spec(Condition::Not(Box::new(c1)), rv, sig) is Ok ==> lowered_cond_holds(
            lower_cond_spec(Condition::Not(Box::new(c1)), rv, sig),
            b,
            x,
        ) == match lowered_cond_holds(lower_cond_spec(c1, rv, sig), b, x) {
            Some(p) => Some(!p),
            None => None::<bool>,
        },
{
    if let Ok(a) = lower_cond_spec(c1, rv, sig) {
        if let Ok(d) = lower_cond_spec(c2, rv, sig) {
            lemma_conds_hold_append(a, d, b, x);
        }
        if a.len() == 1 {
            assert(a =~= seq![a[0]]);
            lemma_conds_hold_one(a[0], b, x);
            lemma_conds_hold_one((a[0].0, !a[0].1), b, x);
        }
    }
}

} // verus!
