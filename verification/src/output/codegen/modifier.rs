//! Generating `execute` modifiers, above all the score comparisons of `if`
//! and `unless`.
use vstd::prelude::*;

use crate::common::mc::modifier::{
    IfModCondition, IfScoreCondition, IfScoreRangeEnd, Modifier, StoreModLocation,
};
use crate::common::ty::{nbt_literal, score_contents_value};
use crate::common::val::ScoreValue;
use crate::strutil::{push_char, push_str};

use super::{
    cat2, cat3, create_lit_score, get_score_val_score, lit_score_text, mapped_name, mut_score_str,
    mut_score_text, nbt_loc_str, nbt_loc_text, score_val_literals, score_val_text, CodegenBlockCx,
    CodegenCx, CodegenError,
};
use crate::output::ra::RegAllocResult;
use crate::output::strip::{lookup, FunctionMapping};

verus! {

broadcast use vstd::std_specs::hash::group_hash_axioms;

/// `unless` for a negated condition, `if` otherwise
pub open spec fn keyword_text(negate: bool) -> Seq<char> {
    if negate {
        "unless"@
    } else {
        "if"@
    }
}

/// A range open at one end: `..lit` below, `lit..` above
pub open spec fn match_text(lit: Seq<char>, lt: bool) -> Seq<char> {
    if lt {
        ".."@ + lit
    } else {
        lit + ".."@
    }
}

/// The comparison of a score with a bound that it must stay under (`lt`) or above
pub open spec fn compare_text(inclusive: bool, lt: bool) -> Seq<char> {
    if lt {
        if inclusive {
            "<="@
        } else {
            "<"@
        }
    } else {
        if inclusive {
            ">="@
        } else {
            ">"@
        }
    }
}

/// Whether an exclusive constant bound is the extreme number past which the
/// range cannot be narrowed by one
pub open spec fn bound_at_edge(num: int, lt: bool) -> bool {
    if lt {
        num == -(i32::MAX as int)
    } else {
        num == i32::MAX as int
    }
}

/// One side of a score range check. An exclusive constant bound is turned
/// into an inclusive one by moving it by one where that is possible; at the
/// edge the bound is compared with its literal's score instead.
pub open spec fn range_side_text(
    keyword: Seq<char>,
    score: ScoreValue,
    value: ScoreValue,
    inclusive: bool,
    lt: bool,
    ra: RegAllocResult,
    func_id: Seq<char>,
) -> Option<Seq<char>> {
    match score_val_text(score, ra, func_id) {
        None => None,
        Some(st) => {
            let head = keyword + " score "@ + st;
            match value {
                ScoreValue::Constant(c) => {
                    let num = score_contents_value(c);
                    if inclusive {
                        Some(head + " matches "@ + match_text(crate::strutil::decimal_int(num), lt))
                    } else if bound_at_edge(num, lt) {
                        Some(head + seq![' '] + compare_text(false, lt) + seq![' '] + lit_score_text(num))
                    } else {
                        Some(
                            head + " matches "@ + match_text(
                                crate::strutil::decimal_int(if lt { num - 1 } else { num + 1 }),
                                lt,
                            ),
                        )
                    }
                },
                ScoreValue::Mutable(m) => match mut_score_text(m, ra, func_id) {
                    Some(vt) => Some(head + seq![' '] + compare_text(inclusive, lt) + seq![' '] + vt),
                    None => None,
                },
            }
        },
    }
}

/// The literals that one side of a range check reads
pub open spec fn range_side_literals(score: ScoreValue, value: ScoreValue, inclusive: bool, lt: bool) -> Set<i32> {
    match value {
        ScoreValue::Constant(c) => if !inclusive && bound_at_edge(score_contents_value(c), lt) {
            score_val_literals(score).insert(score_contents_value(c) as i32)
        } else {
            score_val_literals(score)
        },
        ScoreValue::Mutable(_) => score_val_literals(score),
    }
}

/// The check of a score comparison
pub open spec fn if_score_text(
    keyword: Seq<char>,
    cond: IfScoreCondition,
    ra: RegAllocResult,
    func_id: Seq<char>,
) -> Option<Seq<char>> {
    match cond {
        IfScoreCondition::Single { left, right } => match right {
            ScoreValue::Constant(c) => match score_val_text(left, ra, func_id) {
                Some(lt) => Some(
                    keyword + " score "@ + lt + " matches "@ + crate::strutil::decimal_int(score_contents_value(c)),
                ),
                None => None,
            },
            ScoreValue::Mutable(m) => match (score_val_text(left, ra, func_id), mut_score_text(m, ra, func_id)) {
                (Some(lt), Some(rt)) => Some(keyword + " score "@ + lt + " = "@ + rt),
                _ => None,
            },
        },
        IfScoreCondition::Range { score, left, right } => match (left, right) {
            (IfScoreRangeEnd::Infinite, IfScoreRangeEnd::Infinite) => match score_val_text(score, ra, func_id) {
                Some(st) => Some(keyword + " score "@ + st + " matches .."@ + crate::strutil::decimal_int(i32::MAX as int)),
                None => None,
            },
            (IfScoreRangeEnd::Fixed { value, inclusive }, IfScoreRangeEnd::Infinite) => range_side_text(
                keyword,
                score,
                value,
                inclusive,
                false,
                ra,
                func_id,
            ),
            (IfScoreRangeEnd::Infinite, IfScoreRangeEnd::Fixed { value, inclusive }) => range_side_text(
                keyword,
                score,
                value,
                inclusive,
                true,
                ra,
                func_id,
            ),
            (
                IfScoreRangeEnd::Fixed { value: lv, inclusive: li },
                IfScoreRangeEnd::Fixed { value: rv, inclusive: ri },
            ) => if li && ri && lv is Constant && rv is Constant {
                match score_val_text(score, ra, func_id) {
                    Some(st) => Some(
                        keyword + " score "@ + st + " matches "@ + crate::strutil::decimal_int(
                            score_contents_value(lv->Constant_0),
                        ) + ".."@ + crate::strutil::decimal_int(score_contents_value(rv->Constant_0)),
                    ),
                    None => None,
                }
            } else {
                match (
                    range_side_text(keyword, score, lv, li, false, ra, func_id),
                    range_side_text(keyword, score, rv, ri, true, ra, func_id),
                ) {
                    (Some(a), Some(b)) => Some(a + seq![' '] + b),
                    _ => None,
                }
            },
        },
    }
}

/// The literals that a score comparison reads
pub open spec fn if_score_literals(cond: IfScoreCondition) -> Set<i32> {
    match cond {
        IfScoreCondition::Single { left, .. } => score_val_literals(left),
        IfScoreCondition::Range { score, left, right } => match (left, right) {
            (IfScoreRangeEnd::Fixed { value, inclusive }, IfScoreRangeEnd::Infinite) => range_side_literals(
                score,
                value,
                inclusive,
                false,
            ),
            (IfScoreRangeEnd::Infinite, IfScoreRangeEnd::Fixed { value, inclusive }) => range_side_literals(
                score,
                value,
                inclusive,
                true,
            ),
            (
                IfScoreRangeEnd::Fixed { value: lv, inclusive: li },
                IfScoreRangeEnd::Fixed { value: rv, inclusive: ri },
            ) => if li && ri && lv is Constant && rv is Constant {
                score_val_literals(score)
            } else {
                range_side_literals(score, lv, li, false).union(range_side_literals(score, rv, ri, true))
            },
            _ => score_val_literals(score),
        },
    }
}

/// Score comparisons whose bounds can be written: an exclusive upper bound
/// can be narrowed below any number but the smallest
pub open spec fn if_score_supported(cond: IfScoreCondition) -> bool {
    match cond {
        IfScoreCondition::Range { right: IfScoreRangeEnd::Fixed { value: ScoreValue::Constant(c), inclusive }, .. } =>
            inclusive || score_contents_value(c) != i32::MIN,
        _ => true,
    }
}

/// The check of an `if` or `unless` condition
pub open spec fn condition_text(
    keyword: Seq<char>,
    cond: IfModCondition,
    ra: RegAllocResult,
    func_id: Seq<char>,
    mapping: Option<FunctionMapping>,
) -> Option<Seq<char>> {
    match cond {
        IfModCondition::Score(c) => if_score_text(keyword, c, ra, func_id),
        IfModCondition::Entity(t) => Some(keyword + " entity "@ + t.text()),
        IfModCondition::Predicate(p) => Some(keyword + " predicate "@ + p@),
        IfModCondition::Function(f) => Some(keyword + " function "@ + mapped_name(mapping, f@)),
        IfModCondition::Biome(pos, b) => Some(keyword + " biome "@ + pos.text() + seq![' '] + b@),
        IfModCondition::Dimension(d) => Some(keyword + " dimension "@ + d@),
        IfModCondition::Loaded(pos) => Some(keyword + " loaded "@ + pos.text()),
        IfModCondition::DataExists(l) => match nbt_loc_text(l, ra, func_id) {
            Some(t) => Some(keyword + " data "@ + t),
            None => None,
        },
        IfModCondition::DataEquals(l, r) => match nbt_loc_text(l, ra, func_id) {
            Some(t) => Some(keyword + " data "@ + t + seq![' '] + nbt_literal(r)),
            None => None,
        },
        IfModCondition::Const(v) => Some(
            keyword + " score "@ + lit_score_text(0) + " matches "@ + (if v {
                seq!['0']
            } else {
                seq!['1']
            }),
        ),
    }
}

/// The literals that a condition reads; a constant condition compares the
/// literal zero
pub open spec fn condition_literals(cond: IfModCondition) -> Set<i32> {
    match cond {
        IfModCondition::Score(c) => if_score_literals(c),
        IfModCondition::Const(_) => set![0i32],
        _ => Set::empty(),
    }
}

/// Where a stored result goes, as written after `store result` or `store
/// success`: a score, or data with its number type and scale; `None` where a
/// register has no name
pub open spec fn store_text(loc: StoreModLocation, ra: RegAllocResult, func_id: Seq<char>) -> Option<Seq<char>> {
    match loc {
        StoreModLocation::LocalScore(v) => match mut_score_text(v, ra, func_id) {
            Some(t) => Some("score "@ + t),
            None => None,
        },
        StoreModLocation::LocalData(v, ty, scale) => match nbt_loc_text(v, ra, func_id) {
            Some(t) => Some(t + seq![' '] + ty.text() + seq![' '] + scale@),
            None => None,
        },
        StoreModLocation::Score(s) => Some("score "@ + s.text()),
        StoreModLocation::Data(d, ty, scale) => Some(d.text() + seq![' '] + ty.text() + seq![' '] + scale@),
        StoreModLocation::Bossbar(bar, mode) => Some("bossbar "@ + bar@ + seq![' '] + mode.text()),
    }
}

/// The text of a modifier; `None` where it fails
pub open spec fn modifier_text(
    m: Modifier,
    ra: RegAllocResult,
    func_id: Seq<char>,
    mapping: Option<FunctionMapping>,
) -> Option<Seq<char>> {
    match m {
        Modifier::StoreResult(loc) => match store_text(loc, ra, func_id) {
            Some(t) => Some("store result "@ + t),
            None => None,
        },
        Modifier::StoreSuccess(loc) => match store_text(loc, ra, func_id) {
            Some(t) => Some("store success "@ + t),
            None => None,
        },
        Modifier::If { condition, negate } => condition_text(keyword_text(negate), *condition, ra, func_id, mapping),
        Modifier::Anchored(a) => Some("anchored "@ + a.text()),
        Modifier::Align(axes) => Some("align "@ + axes.text()),
        Modifier::As(t) => Some("as "@ + t.text()),
        Modifier::At(t) => Some("at "@ + t.text()),
        Modifier::In(d) => Some("in "@ + d@),
        Modifier::On(r) => Some("on "@ + r.text()),
        Modifier::PositionedAs(t) => Some("positioned as "@ + t.text()),
        Modifier::PositionedOver(h) => Some("positioned over "@ + h.text()),
        Modifier::RotatedAs(t) => Some("rotated as "@ + t.text()),
        Modifier::FacingEntity(t, a) => Some("facing entity "@ + t.text() + seq![' '] + a.text()),
        Modifier::Summon(e) => Some("summon "@ + e@),
    }
}

/// The literals that a modifier reads
pub open spec fn modifier_literals(m: Modifier) -> Set<i32> {
    match m {
        Modifier::If { condition, .. } => condition_literals(*condition),
        _ => Set::empty(),
    }
}

/// Modifiers whose constants can be written
pub open spec fn modifier_supported(m: Modifier) -> bool {
    match m {
        Modifier::If { condition, .. } => match *condition {
            IfModCondition::Score(c) => if_score_supported(c),
            _ => true,
        },
        _ => true,
    }
}

/// The texts of a list of modifiers; `None` where one fails
pub open spec fn mods_text(
    ms: Seq<Modifier>,
    ra: RegAllocResult,
    func_id: Seq<char>,
    mapping: Option<FunctionMapping>,
) -> Option<Seq<char>>
    decreases ms.len(),
{
    if ms.len() == 0 {
        Some(Seq::empty())
    } else {
        match (mods_text(ms.drop_last(), ra, func_id, mapping), modifier_text(ms.last(), ra, func_id, mapping)) {
            (Some(prev), Some(t)) => Some(prev + t + seq![' ']),
            _ => None,
        }
    }
}

/// The literals that a list of modifiers reads
pub open spec fn mods_literals(ms: Seq<Modifier>) -> Set<i32>
    decreases ms.len(),
{
    if ms.len() == 0 {
        Set::empty()
    } else {
        mods_literals(ms.drop_last()).union(modifier_literals(ms.last()))
    }
}

/// Whether every modifier of a list can be written
pub open spec fn mods_supported(ms: Seq<Modifier>) -> bool {
    forall|i: int| 0 <= i < ms.len() ==> modifier_supported(#[trigger] ms[i])
}

/// Whether some modifier of a list has side effects of its own
pub open spec fn any_side_effects(ms: Seq<Modifier>) -> bool {
    exists|i: int| 0 <= i < ms.len() && #[trigger] ms[i].spec_has_extra_side_effects()
}

/// A command run under modifiers: `execute`, each modifier followed by a
/// space, `run` and the command; the command alone where there are none
pub open spec fn with_mods(
    c: Seq<char>,
    ms: Seq<Modifier>,
    ra: RegAllocResult,
    func_id: Seq<char>,
    mapping: Option<FunctionMapping>,
) -> Option<Option<Seq<char>>> {
    if ms.len() == 0 {
        Some(Some(c))
    } else {
        match mods_text(ms, ra, func_id, mapping) {
            Some(t) => Some(Some("execute "@ + t + "run "@ + c)),
            None => None,
        }
    }
}

/// The full command of an instruction from the command of what it does.
/// Without a command there is nothing to run, unless a modifier has side
/// effects of its own; then a harmless command stands in.
pub open spec fn build_text(
    k: Option<Seq<char>>,
    ms: Seq<Modifier>,
    ra: RegAllocResult,
    func_id: Seq<char>,
    mapping: Option<FunctionMapping>,
) -> Option<Option<Seq<char>>> {
    match k {
        Some(c) => with_mods(c, ms, ra, func_id, mapping),
        None => if any_side_effects(ms) {
            with_mods("say foo"@, ms, ra, func_id, mapping)
        } else {
            Some(None)
        },
    }
}

/// The literals that the modifiers of an instruction read, where they are
/// written
pub open spec fn build_literals(k: Option<Seq<char>>, ms: Seq<Modifier>) -> Set<i32> {
    if k is Some || any_side_effects(ms) {
        mods_literals(ms)
    } else {
        Set::empty()
    }
}

/// A range open at one end: `..lit` below, `lit..` above
pub fn codegen_match(lit: &str, lt: bool) -> (r: String)
    ensures
        r@ == match_text(lit@, lt),
{
    if lt {
        cat2("..", lit)
    } else {
        let mut out = String::new();
        push_str(&mut out, lit);
        push_str(&mut out, "..");
        out
    }
}

/// The comparison with a lower bound
pub fn codegen_score_gt(inclusive: bool) -> (r: &'static str)
    ensures
        r@ == compare_text(inclusive, false),
{
    if inclusive {
        ">="
    } else {
        ">"
    }
}

/// The comparison with an upper bound
pub fn codegen_score_lt(inclusive: bool) -> (r: &'static str)
    ensures
        r@ == compare_text(inclusive, true),
{
    if inclusive {
        "<="
    } else {
        "<"
    }
}

/// `keyword score ` and the text of a score operand, recording its literal
fn score_head(keyword: &str, score: &ScoreValue, ccx: &mut CodegenCx, cbcx: &CodegenBlockCx) -> (r: Result<
    String,
    CodegenError,
>)
    ensures
        final(ccx).func_mapping == old(ccx).func_mapping,
        final(ccx).racx == old(ccx).racx,
        match r {
            Ok(h) => {
                &&& score_val_text(*score, cbcx.ra, cbcx.func_id@) is Some
                &&& h@ == keyword@ + " score "@ + score_val_text(*score, cbcx.ra, cbcx.func_id@)->Some_0
                &&& final(ccx).score_literals@ == old(ccx).score_literals@.union(score_val_literals(*score))
            },
            Err(_) => score_val_text(*score, cbcx.ra, cbcx.func_id@) is None,
        },
{
    let (s, lit) = match get_score_val_score(score, &cbcx.ra, cbcx.func_id.as_str()) {
        Ok(x) => x,
        Err(e) => return Err(e),
    };
    if let Some(n) = lit.0 {
        ccx.score_literals.insert(n);
    }
    assert(ccx.score_literals@ =~= old(ccx).score_literals@.union(score_val_literals(*score)));
    let text = s.gen_str();
    let mut out = String::new();
    push_str(&mut out, keyword);
    push_str(&mut out, " score ");
    push_str(&mut out, text.as_str());
    assert(out@ =~= keyword@ + " score "@ + text@);
    Ok(out)
}

/// One side of a score range check
pub fn codegen_if_score_range_side(
    if_keyword: &str,
    score: &ScoreValue,
    value: &ScoreValue,
    inclusive: bool,
    lt: bool,
    ccx: &mut CodegenCx,
    cbcx: &CodegenBlockCx,
) -> (r: Result<String, CodegenError>)
    requires
        !(lt && !inclusive && (*value matches ScoreValue::Constant(c) && score_contents_value(c) == i32::MIN)),
    ensures
        final(ccx).func_mapping == old(ccx).func_mapping,
        final(ccx).racx == old(ccx).racx,
        match r {
            Ok(t) => {
                &&& range_side_text(if_keyword@, *score, *value, inclusive, lt, cbcx.ra, cbcx.func_id@)
                    == Some(t@)
                &&& final(ccx).score_literals@ == old(ccx).score_literals@.union(
                    range_side_literals(*score, *value, inclusive, lt),
                )
            },
            Err(_) => range_side_text(if_keyword@, *score, *value, inclusive, lt, cbcx.ra, cbcx.func_id@)
                is None,
        },
{
    let head = match score_head(if_keyword, score, ccx, cbcx) {
        Ok(h) => h,
        Err(e) => return Err(e),
    };
    let ghost lits = ccx.score_literals@;
    let mut out = head;
    match value {
        ScoreValue::Constant(val) => {
            let num = val.get_i32();
            if inclusive {
                let lit = crate::strutil::i64_to_string(num as i64);
                let check = codegen_match(lit.as_str(), lt);
                push_str(&mut out, " matches ");
                push_str(&mut out, check.as_str());
            } else {
                // Constrict the range by adding or subtracting one if we can
                let constricted: Option<i32> = if lt {
                    if num == -i32::MAX {
                        None
                    } else {
                        Some(num - 1)
                    }
                } else if num == i32::MAX {
                    None
                } else {
                    Some(num + 1)
                };
                if let Some(constricted) = constricted {
                    let lit = crate::strutil::i64_to_string(constricted as i64);
                    let check = codegen_match(lit.as_str(), lt);
                    push_str(&mut out, " matches ");
                    push_str(&mut out, check.as_str());
                } else {
                    ccx.score_literals.insert(num);
                    let rhs = create_lit_score(num).gen_str();
                    let sign = if lt {
                        "<"
                    } else {
                        ">"
                    };
                    push_char(&mut out, ' ');
                    push_str(&mut out, sign);
                    push_char(&mut out, ' ');
                    push_str(&mut out, rhs.as_str());
                }
            }
        },
        ScoreValue::Mutable(val) => {
            let v = match mut_score_str(val, &cbcx.ra, cbcx.func_id.as_str()) {
                Ok(v) => v,
                Err(e) => return Err(e),
            };
            let sign = if lt {
                codegen_score_lt(inclusive)
            } else {
                codegen_score_gt(inclusive)
            };
            push_char(&mut out, ' ');
            push_str(&mut out, sign);
            push_char(&mut out, ' ');
            push_str(&mut out, v.as_str());
        },
    }
    assert(out@ =~= range_side_text(if_keyword@, *score, *value, inclusive, lt, cbcx.ra, cbcx.func_id@)->Some_0);
    assert(ccx.score_literals@ =~= old(ccx).score_literals@.union(
        range_side_literals(*score, *value, inclusive, lt),
    ));
    Ok(out)
}

/// The check of a score comparison
fn codegen_if_score(keyword: &str, cond: &IfScoreCondition, ccx: &mut CodegenCx, cbcx: &CodegenBlockCx) -> (r: Result<
    String,
    CodegenError,
>)
    requires
        if_score_supported(*cond),
    ensures
        final(ccx).func_mapping == old(ccx).func_mapping,
        final(ccx).racx == old(ccx).racx,
        match r {
            Ok(t) => {
                &&& if_score_text(keyword@, *cond, cbcx.ra, cbcx.func_id@) == Some(t@)
                &&& final(ccx).score_literals@ == old(ccx).score_literals@.union(if_score_literals(*cond))
            },
            Err(_) => if_score_text(keyword@, *cond, cbcx.ra, cbcx.func_id@) is None,
        },
{
    match cond {
        IfScoreCondition::Single { left, right } => match right {
            ScoreValue::Constant(val) => {
                let mut out = match score_head(keyword, left, ccx, cbcx) {
                    Ok(h) => h,
                    Err(e) => return Err(e),
                };
                let lit = val.get_literal_str();
                push_str(&mut out, " matches ");
                push_str(&mut out, lit.as_str());
                Ok(out)
            },
            ScoreValue::Mutable(val) => {
                let ghost lits = ccx.score_literals@;
                let rhs = match mut_score_str(val, &cbcx.ra, cbcx.func_id.as_str()) {
                    Ok(v) => v,
                    Err(e) => {
                        assert(ccx.score_literals@ == lits);
                        return Err(e);
                    },
                };
                let mut out = match score_head(keyword, left, ccx, cbcx) {
                    Ok(h) => h,
                    Err(e) => return Err(e),
                };
                push_str(&mut out, " = ");
                push_str(&mut out, rhs.as_str());
                Ok(out)
            },
        },
        IfScoreCondition::Range { score, left, right } => match (left, right) {
            (IfScoreRangeEnd::Infinite, IfScoreRangeEnd::Infinite) => {
                let mut out = match score_head(keyword, score, ccx, cbcx) {
                    Ok(h) => h,
                    Err(e) => return Err(e),
                };
                push_str(&mut out, " matches ..");
                push_str(&mut out, crate::strutil::i64_to_string(i32::MAX as i64).as_str());
                Ok(out)
            },
            (IfScoreRangeEnd::Fixed { value: left, inclusive: left_in }, IfScoreRangeEnd::Infinite) => {
                codegen_if_score_range_side(keyword, score, left, *left_in, false, ccx, cbcx)
            },
            (IfScoreRangeEnd::Infinite, IfScoreRangeEnd::Fixed { value: right, inclusive: right_in }) => {
                codegen_if_score_range_side(keyword, score, right, *right_in, true, ccx, cbcx)
            },
            (
                IfScoreRangeEnd::Fixed { value: left, inclusive: left_in },
                IfScoreRangeEnd::Fixed { value: right, inclusive: right_in },
            ) => {
                if *left_in && *right_in {
                    if let ScoreValue::Constant(l) = left {
                        if let ScoreValue::Constant(r) = right {
                            let mut out = match score_head(keyword, score, ccx, cbcx) {
                                Ok(h) => h,
                                Err(e) => return Err(e),
                            };
                            let lt = l.get_literal_str();
                            let rt = r.get_literal_str();
                            push_str(&mut out, " matches ");
                            push_str(&mut out, lt.as_str());
                            push_str(&mut out, "..");
                            push_str(&mut out, rt.as_str());
                            return Ok(out);
                        }
                    }
                }
                let a = match codegen_if_score_range_side(keyword, score, left, *left_in, false, ccx, cbcx) {
                    Ok(a) => a,
                    Err(e) => return Err(e),
                };
                let b = match codegen_if_score_range_side(keyword, score, right, *right_in, true, ccx, cbcx) {
                    Ok(b) => b,
                    Err(e) => return Err(e),
                };
                let mut out = a;
                push_char(&mut out, ' ');
                push_str(&mut out, b.as_str());
                proof {
                    assert(ccx.score_literals@ =~= old(ccx).score_literals@.union(if_score_literals(*cond)));
                }
                Ok(out)
            },
        },
    }
}

/// `a`, a space and `b`
fn spaced(a: &str, b: &str) -> (r: String)
    ensures
        r@ == a@ + seq![' '] + b@,
{
    let mut out = String::new();
    push_str(&mut out, a);
    push_char(&mut out, ' ');
    push_str(&mut out, b);
    assert(out@ =~= a@ + seq![' '] + b@);
    out
}

/// `prefix`, then `a`, a space and `b`
fn cat_spaced(prefix: &str, a: &str, b: &str) -> (r: String)
    ensures
        r@ == prefix@ + a@ + seq![' '] + b@,
{
    let mut out = String::new();
    push_str(&mut out, prefix);
    push_str(&mut out, a);
    push_char(&mut out, ' ');
    push_str(&mut out, b);
    assert(out@ =~= prefix@ + a@ + seq![' '] + b@);
    out
}

/// The check of an `if` or `unless` condition
fn codegen_condition(keyword: &str, cond: &IfModCondition, ccx: &mut CodegenCx, cbcx: &CodegenBlockCx) -> (r: Result<
    String,
    CodegenError,
>)
    requires
        *cond matches IfModCondition::Score(c) ==> if_score_supported(c),
    ensures
        final(ccx).func_mapping == old(ccx).func_mapping,
        final(ccx).racx == old(ccx).racx,
        match r {
            Ok(t) => {
                &&& condition_text(keyword@, *cond, cbcx.ra, cbcx.func_id@, old(ccx).func_mapping) == Some(t@)
                &&& final(ccx).score_literals@ == old(ccx).score_literals@.union(condition_literals(*cond))
            },
            Err(_) => condition_text(keyword@, *cond, cbcx.ra, cbcx.func_id@, old(ccx).func_mapping) is None,
        },
{
    let ghost lits = ccx.score_literals@;
    match cond {
        IfModCondition::Score(c) => codegen_if_score(keyword, c, ccx, cbcx),
        IfModCondition::Entity(target) => {
            assert(lits.union(condition_literals(*cond)) =~= lits);
            let t = target.gen_str();
            Ok(cat3(keyword, " entity ", t.as_str()))
        },
        IfModCondition::Predicate(pred) => {
            assert(lits.union(condition_literals(*cond)) =~= lits);
            Ok(cat3(keyword, " predicate ", pred.as_str()))
        },
        IfModCondition::Function(fun) => {
            assert(lits.union(condition_literals(*cond)) =~= lits);
            let mut func_id = fun;
            if let Some(mapping) = &ccx.func_mapping {
                if let Some(new_id) = lookup(&mapping.0, func_id.as_str()) {
                    func_id = new_id;
                }
            }
            Ok(cat3(keyword, " function ", func_id.as_str()))
        },
        IfModCondition::Biome(pos, biome) => {
            assert(lits.union(condition_literals(*cond)) =~= lits);
            let p = pos.codegen_str();
            let rest = spaced(p.as_str(), biome.as_str());
            Ok(cat3(keyword, " biome ", rest.as_str()))
        },
        IfModCondition::Dimension(dim) => {
            assert(lits.union(condition_literals(*cond)) =~= lits);
            Ok(cat3(keyword, " dimension ", dim.as_str()))
        },
        IfModCondition::Loaded(pos) => {
            assert(lits.union(condition_literals(*cond)) =~= lits);
            let p = pos.codegen_str();
            Ok(cat3(keyword, " loaded ", p.as_str()))
        },
        IfModCondition::DataExists(loc) => {
            assert(lits.union(condition_literals(*cond)) =~= lits);
            match nbt_loc_str(loc, &cbcx.ra, cbcx.func_id.as_str()) {
                Ok(l) => Ok(cat3(keyword, " data ", l.as_str())),
                Err(e) => Err(e),
            }
        },
        IfModCondition::DataEquals(l, r) => {
            assert(lits.union(condition_literals(*cond)) =~= lits);
            match nbt_loc_str(l, &cbcx.ra, cbcx.func_id.as_str()) {
                Ok(lt) => {
                    let lit = r.get_literal_str();
                    let rest = spaced(lt.as_str(), lit.as_str());
                    Ok(cat3(keyword, " data ", rest.as_str()))
                },
                Err(e) => Err(e),
            }
        },
        IfModCondition::Const(val) => {
            ccx.score_literals.insert(0);
            assert(ccx.score_literals@ =~= lits.union(condition_literals(*cond)));
            let left = create_lit_score(0).gen_str();
            let right_num = if *val {
                '0'
            } else {
                '1'
            };
            let mut out = String::new();
            push_str(&mut out, keyword);
            push_str(&mut out, " score ");
            push_str(&mut out, left.as_str());
            push_str(&mut out, " matches ");
            push_char(&mut out, right_num);
            assert(out@ =~= condition_text(keyword@, *cond, cbcx.ra, cbcx.func_id@, old(ccx).func_mapping)->Some_0);
            Ok(out)
        },
    }
}

/// A location, its number type and its scale, separated by spaces
fn data_store_str(loc: &str, ty: &str, scale: &str) -> (r: String)
    ensures
        r@ == loc@ + seq![' '] + ty@ + seq![' '] + scale@,
{
    let mut out = String::new();
    push_str(&mut out, loc);
    push_char(&mut out, ' ');
    push_str(&mut out, ty);
    push_char(&mut out, ' ');
    push_str(&mut out, scale);
    assert(out@ =~= loc@ + seq![' '] + ty@ + seq![' '] + scale@);
    out
}

/// Where a stored result goes
fn codegen_store_loc(loc: &StoreModLocation, cbcx: &CodegenBlockCx) -> (r: Result<String, CodegenError>)
    ensures
        match r {
            Ok(t) => store_text(*loc, cbcx.ra, cbcx.func_id@) == Some(t@),
            Err(_) => store_text(*loc, cbcx.ra, cbcx.func_id@) is None,
        },
{
    match loc {
        StoreModLocation::LocalScore(v) => match mut_score_str(v, &cbcx.ra, cbcx.func_id.as_str()) {
            Ok(t) => Ok(cat2("score ", t.as_str())),
            Err(e) => Err(e),
        },
        StoreModLocation::LocalData(v, ty, scale) => match nbt_loc_str(v, &cbcx.ra, cbcx.func_id.as_str()) {
            Ok(t) => Ok(data_store_str(t.as_str(), ty.codegen_str(), scale.as_str())),
            Err(e) => Err(e),
        },
        StoreModLocation::Score(score) => Ok(cat2("score ", score.gen_str().as_str())),
        StoreModLocation::Data(d, ty, scale) => Ok(data_store_str(d.gen_str().as_str(), ty.codegen_str(), scale.as_str())),
        StoreModLocation::Bossbar(bar, mode) => Ok(cat_spaced("bossbar ", bar.as_str(), mode.codegen_str())),
    }
}

/// Generates the text of a modifier
pub fn codegen_modifier(modifier: &Modifier, ccx: &mut CodegenCx, cbcx: &CodegenBlockCx) -> (r: Result<
    Option<String>,
    CodegenError,
>)
    requires
        modifier_supported(*modifier),
    ensures
        final(ccx).func_mapping == old(ccx).func_mapping,
        final(ccx).racx == old(ccx).racx,
        match r {
            Ok(c) => {
                &&& c is Some
                &&& modifier_text(*modifier, cbcx.ra, cbcx.func_id@, old(ccx).func_mapping) == Some(c->Some_0@)
                &&& final(ccx).score_literals@ == old(ccx).score_literals@.union(modifier_literals(*modifier))
            },
            Err(_) => modifier_text(*modifier, cbcx.ra, cbcx.func_id@, old(ccx).func_mapping) is None,
        },
{
    let ghost lits = ccx.score_literals@;
    match modifier {
        Modifier::If { condition, negate } => {
            let keyword = if *negate {
                "unless"
            } else {
                "if"
            };
            match codegen_condition(keyword, condition, ccx, cbcx) {
                Ok(t) => Ok(Some(t)),
                Err(e) => Err(e),
            }
        },
        Modifier::StoreResult(loc) => {
            assert(lits.union(modifier_literals(*modifier)) =~= lits);
            match codegen_store_loc(loc, cbcx) {
                Ok(t) => Ok(Some(cat2("store result ", t.as_str()))),
                Err(e) => Err(e),
            }
        },
        Modifier::StoreSuccess(loc) => {
            assert(lits.union(modifier_literals(*modifier)) =~= lits);
            match codegen_store_loc(loc, cbcx) {
                Ok(t) => Ok(Some(cat2("store success ", t.as_str()))),
                Err(e) => Err(e),
            }
        },
        _ => {
            assert(lits.union(modifier_literals(*modifier)) =~= lits);
            let t = match modifier {
                Modifier::StoreResult(..) | Modifier::StoreSuccess(..) => String::new(),
                Modifier::Anchored(location) => cat2("anchored ", location.codegen_str()),
                Modifier::Align(axes) => cat2("align ", axes.gen_str().as_str()),
                Modifier::As(target) => cat2("as ", target.gen_str().as_str()),
                Modifier::At(target) => cat2("at ", target.gen_str().as_str()),
                Modifier::In(dimension) => cat2("in ", dimension.as_str()),
                Modifier::On(relation) => cat2("on ", relation.codegen_str()),
                Modifier::PositionedAs(target) => cat2("positioned as ", target.gen_str().as_str()),
                Modifier::PositionedOver(hm) => cat2("positioned over ", hm.codegen_str()),
                Modifier::RotatedAs(target) => cat2("rotated as ", target.gen_str().as_str()),
                Modifier::FacingEntity(target, anchor) => {
                    let t = target.gen_str();
                    cat_spaced("facing entity ", t.as_str(), anchor.codegen_str())
                },
                Modifier::Summon(entity) => cat2("summon ", entity.as_str()),
                Modifier::If { .. } => String::new(),
            };
            Ok(Some(t))
        },
    }
}

/// Whether some modifier of a list has side effects of its own
pub fn has_side_effects(modifiers: &Vec<Modifier>) -> (r: bool)
    ensures
        r == any_side_effects(modifiers@),
{
    let mut i: usize = 0;
    while i < modifiers.len()
        invariant
            i <= modifiers@.len(),
            forall|j: int| 0 <= j < i ==> !(#[trigger] modifiers@[j]).spec_has_extra_side_effects(),
        decreases modifiers.len() - i,
    {
        if modifiers[i].has_extra_side_efects() {
            return true;
        }
        i = i + 1;
    }
    false
}

/// Puts the modifiers of an instruction in front of its command
pub fn generate_command(
    command: Option<String>,
    modifiers: &Vec<Modifier>,
    ccx: &mut CodegenCx,
    cbcx: &CodegenBlockCx,
) -> (r: Result<Option<String>, CodegenError>)
    requires
        mods_supported(modifiers@) || (command is None && !any_side_effects(modifiers@)),
    ensures
        final(ccx).func_mapping == old(ccx).func_mapping,
        final(ccx).racx == old(ccx).racx,
        match r {
            Ok(c) => {
                &&& build_text(super::opt_text(command), modifiers@, cbcx.ra, cbcx.func_id@, old(ccx).func_mapping)
                    == Some(super::opt_text(c))
                &&& final(ccx).score_literals@ == old(ccx).score_literals@.union(
                    build_literals(super::opt_text(command), modifiers@),
                )
            },
            Err(_) => build_text(super::opt_text(command), modifiers@, cbcx.ra, cbcx.func_id@, old(ccx).func_mapping)
                is None,
        },
{
    let ghost lits = ccx.score_literals@;
    let ghost mapping = ccx.func_mapping;
    let ghost k = super::opt_text(command);
    let cmd = match command {
        Some(c) => c,
        None => {
            // If the command is a no-op and none of the modifiers have any side effects
            // then it can be omitted
            if !has_side_effects(modifiers) {
                assert(lits.union(build_literals(k, modifiers@)) =~= lits);
                return Ok(None);
            } else {
                String::from_str("say foo")
            }
        },
    };
    assert(mods_supported(modifiers@));
    if modifiers.len() == 0 {
        assert(mods_literals(modifiers@) =~= Set::<i32>::empty());
        assert(lits.union(build_literals(k, modifiers@)) =~= lits);
        return Ok(Some(cmd));
    }
    let mut out = String::new();
    push_str(&mut out, "execute ");
    let mut i: usize = 0;
    assert(modifiers@.take(0) =~= Seq::<Modifier>::empty());
    while i < modifiers.len()
        invariant
            i <= modifiers@.len(),
            mods_supported(modifiers@),
            modifiers@.len() > 0,
            k is Some ==> k->Some_0 == cmd@,
            k == super::opt_text(command),
            k is None ==> any_side_effects(modifiers@) && cmd@ == "say foo"@,
            ccx.func_mapping == mapping,
            ccx.racx == old(ccx).racx,
            mapping == old(ccx).func_mapping,
            mods_text(modifiers@.take(i as int), cbcx.ra, cbcx.func_id@, mapping) is Some,
            out@ == "execute "@ + mods_text(modifiers@.take(i as int), cbcx.ra, cbcx.func_id@, mapping)->Some_0,
            ccx.score_literals@ == lits.union(mods_literals(modifiers@.take(i as int))),
        decreases modifiers.len() - i,
    {
        let ghost t = modifiers@.take(i as int + 1);
        assert(t.drop_last() =~= modifiers@.take(i as int));
        assert(t.last() == modifiers@[i as int]);
        match codegen_modifier(&modifiers[i], ccx, cbcx) {
            Ok(Some(m)) => {
                push_str(&mut out, m.as_str());
                push_char(&mut out, ' ');
            },
            Ok(None) => {},
            Err(e) => {
                proof {
                    lemma_mods_text_none(modifiers@, i as int, cbcx.ra, cbcx.func_id@, mapping);
                    assert(with_mods(cmd@, modifiers@, cbcx.ra, cbcx.func_id@, mapping) is None);
                    assert(build_text(k, modifiers@, cbcx.ra, cbcx.func_id@, mapping) is None);
                    assert(build_text(k, modifiers@, cbcx.ra, cbcx.func_id@, old(ccx).func_mapping) is None);
                }
                return Err(e);
            },
        }
        assert(ccx.score_literals@ =~= lits.union(mods_literals(t)));
        i = i + 1;
    }
    assert(modifiers@.take(modifiers@.len() as int) =~= modifiers@);
    push_str(&mut out, "run ");
    push_str(&mut out, cmd.as_str());
    Ok(Some(out))
}

/// Once a modifier fails, the whole list fails
proof fn lemma_mods_text_none(
    ms: Seq<Modifier>,
    i: int,
    ra: RegAllocResult,
    func_id: Seq<char>,
    mapping: Option<FunctionMapping>,
)
    requires
        0 <= i < ms.len(),
        modifier_text(ms[i], ra, func_id, mapping) is None || mods_text(ms.take(i), ra, func_id, mapping) is None,
    ensures
        mods_text(ms, ra, func_id, mapping) is None,
    decreases ms.len(),
{
    if i == ms.len() - 1 {
        assert(ms.drop_last() =~= ms.take(i));
    } else {
        assert(ms.drop_last().take(i) =~= ms.take(i));
        assert(ms.drop_last()[i] == ms[i]);
        lemma_mods_text_none(ms.drop_last(), i, ra, func_id, mapping);
    }
}

} // verus!
