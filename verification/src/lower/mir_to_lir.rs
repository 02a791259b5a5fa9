//! Lowering the mid-level IR to the low-level IR: each instruction becomes
//! instructions over scores or over NBT data, chosen by the types of its
//! operands.
use vstd::prelude::*;

use crate::common::condition::Condition;
use crate::common::function::FunctionSignature;
use crate::common::mc::modifier::{IfModCondition, IfScoreCondition, IfScoreRangeEnd, Modifier, StoreDataType, StoreModLocation};
use crate::common::mc::Score;
use crate::common::DeclareBinding;
use crate::common::op::DoubleOperationKind;
use crate::common::ty::{
    contents_i32, data_castable, lemma_data_castable_same, lemma_ty_same_reflexive, lemma_ty_same_transitive,
    ty_same, DataType, DataTypeContents, ScoreTypeContents,
};
use crate::common::function::CallInterface;
use crate::common::val::{
    lemma_mnv_same_reflexive, lemma_msv_same_reflexive, lemma_nv_same_reflexive, lemma_reg_views_lookup,
    lemma_regs_match_lookup, lemma_sv_same_reflexive, msv_same, mnv_same, mut_val_ty, nv_same, reg_views,
    regs_match, sv_same, to_nbt, to_nbt_val, to_score, to_score_val, val_ty, MutableNBTValue,
    MutableScoreValue, MutableValue, NBTValue, ScoreValue, Value, ValueError,
};
use crate::common::Register;
use crate::lir::{LIRBlock, LIRFunction, LIRInstrKind, LIRInstruction, LIR};
use crate::mir::{MIRBlock, MIRFunction, MIRInstrKind, MIRInstruction, MIR};
use super::score_run::{computes_abs, computes_power, lemma_abs_lowering_computes_abs, lemma_pow_lowering_computes_power};
use crate::common::function::FunctionInterface;

verus! {

/// Why MIR cannot be lowered
#[derive(Debug, Clone, Copy, PartialEq, Eq, Structural)]
pub enum LowerError {
    /// A value's type cannot be found, or it is not of the kind asked for
    Value(ValueError),
    /// The instruction does not allow the types of its operands
    TypeNotAllowed,
    /// A returned constant is not an integer
    NotAnInteger,
    /// The instruction needs a lowering that this library does not have
    Unrepresentable,
    /// A stored result cannot go into a property or an element of NBT data
    UnsupportedStore,
}

/// Where a stored result must go: a score, or NBT data stored as a number
/// type with the scale one
pub enum StoreAt {
    Score(MutableScoreValue),
    Data(MutableNBTValue, StoreDataType),
}

/// What a read must be: of a score, or of NBT data with a scale factor
pub enum ReadOf {
    Score(MutableScoreValue),
    Data(MutableNBTValue, Seq<char>),
}

/// Whether a store location is the one a place must be: a named score
/// stays a score, any other score or data is a local place
pub open spec fn store_is(loc: StoreModLocation, s: StoreAt) -> bool {
    match s {
        StoreAt::Score(v) => match v {
            MutableScoreValue::Score(sc) => loc matches StoreModLocation::Score(x) && x.value_eq(&sc),
            _ => loc matches StoreModLocation::LocalScore(x) && msv_same(x, v),
        },
        StoreAt::Data(v, t) => match v {
            MutableNBTValue::Data(d) => loc matches StoreModLocation::Data(x, u, sc) && x.value_eq(&d) && u == t
                && sc@ == "1"@,
            _ => loc matches StoreModLocation::LocalData(x, u, sc) && mnv_same(x, v) && u == t && sc@ == "1"@,
        },
    }
}

/// Whether an instruction is the read it must be
pub open spec fn reads(kind: LIRInstrKind, r: ReadOf) -> bool {
    match r {
        ReadOf::Score(v) => kind matches LIRInstrKind::GetScore(x) && msv_same(x, v),
        ReadOf::Data(v, scale) => kind matches LIRInstrKind::GetData(x, sc) && mnv_same(x, v) && sc@ == scale,
    }
}

/// What one lowered instruction must be
pub enum Lowered {
    /// An instruction without modifiers that does this
    Kind(LIRInstrKind),
    /// Negating a score where it is negative: multiplying it by -1 under
    /// `if score .. matches ..-1`
    Abs(MutableScoreValue),
    /// Returning what a read gives: `return run` of the read
    ReturnRead(ReadOf),
    /// Setting the named register to NBT data
    DataToReg(Seq<char>, MutableNBTValue),
    /// Setting NBT data to the named register
    DataFromReg(MutableNBTValue, Seq<char>),
    /// Setting the named register to a score
    ScoreToReg(Seq<char>, MutableScoreValue),
    /// Multiplying a score by the named register
    MulByReg(MutableScoreValue, Seq<char>),
    /// Negating a boolean: storing into the place whether the score is false
    NotValue(StoreAt, MutableScoreValue),
    /// A conversion: storing into the place what the read gives
    CastInto(StoreAt, ReadOf),
    /// A read without modifiers
    Read(ReadOf),
    /// An instruction under one more modifier, put first
    Modified(Modifier, Box<Lowered>),
    /// Returning what an instruction gives: `return run` of it
    RunReturn(Box<Lowered>),
    /// Calling the function of this name
    CallTo(Seq<char>),
    /// An instruction under `if` modifiers, put first in this order
    Conditioned(Seq<(IfModCondition, bool)>, Box<Lowered>),
}

/// Two instructions that do the same, on the same values
pub open spec fn kind_same(a: LIRInstrKind, b: LIRInstrKind) -> bool {
    match (a, b) {
        (LIRInstrKind::SetScore(l1, r1), LIRInstrKind::SetScore(l2, r2)) => msv_same(l1, l2) && sv_same(r1, r2),
        (LIRInstrKind::AddScore(l1, r1), LIRInstrKind::AddScore(l2, r2)) => msv_same(l1, l2) && sv_same(r1, r2),
        (LIRInstrKind::SubScore(l1, r1), LIRInstrKind::SubScore(l2, r2)) => msv_same(l1, l2) && sv_same(r1, r2),
        (LIRInstrKind::MulScore(l1, r1), LIRInstrKind::MulScore(l2, r2)) => msv_same(l1, l2) && sv_same(r1, r2),
        (LIRInstrKind::DivScore(l1, r1), LIRInstrKind::DivScore(l2, r2)) => msv_same(l1, l2) && sv_same(r1, r2),
        (LIRInstrKind::ModScore(l1, r1), LIRInstrKind::ModScore(l2, r2)) => msv_same(l1, l2) && sv_same(r1, r2),
        (LIRInstrKind::MinScore(l1, r1), LIRInstrKind::MinScore(l2, r2)) => msv_same(l1, l2) && sv_same(r1, r2),
        (LIRInstrKind::MaxScore(l1, r1), LIRInstrKind::MaxScore(l2, r2)) => msv_same(l1, l2) && sv_same(r1, r2),
        (LIRInstrKind::SwapScore(l1, r1), LIRInstrKind::SwapScore(l2, r2)) => msv_same(l1, l2) && msv_same(r1, r2),
        (LIRInstrKind::ResetScore(v1), LIRInstrKind::ResetScore(v2)) => msv_same(v1, v2),
        (LIRInstrKind::SetData(l1, r1), LIRInstrKind::SetData(l2, r2)) => mnv_same(l1, l2) && nv_same(r1, r2),
        (LIRInstrKind::MergeData(l1, r1), LIRInstrKind::MergeData(l2, r2)) => mnv_same(l1, l2) && nv_same(r1, r2),
        (LIRInstrKind::PushData(l1, r1), LIRInstrKind::PushData(l2, r2)) => mnv_same(l1, l2) && nv_same(r1, r2),
        (LIRInstrKind::PushFrontData(l1, r1), LIRInstrKind::PushFrontData(l2, r2)) => mnv_same(l1, l2) && nv_same(
            r1,
            r2,
        ),
        (LIRInstrKind::InsertData(l1, r1, i1), LIRInstrKind::InsertData(l2, r2, i2)) => mnv_same(l1, l2) && nv_same(
            r1,
            r2,
        ) && i1 == i2,
        (LIRInstrKind::RemoveData(v1), LIRInstrKind::RemoveData(v2)) => mnv_same(v1, v2),
        (LIRInstrKind::GetData(v1, s1), LIRInstrKind::GetData(v2, s2)) => mnv_same(v1, v2) && s1@ == s2@,
        (LIRInstrKind::GetConst(n1), LIRInstrKind::GetConst(n2)) => n1 == n2,
        (LIRInstrKind::Call(f1), LIRInstrKind::Call(f2)) => f1@ == f2@,
        (LIRInstrKind::ReturnValue(n1), LIRInstrKind::ReturnValue(n2)) => n1 == n2,
        (LIRInstrKind::Command(c1), LIRInstrKind::Command(c2)) => c1@ == c2@,
        (LIRInstrKind::Comment(c1), LIRInstrKind::Comment(c2)) => c1@ == c2@,
        (LIRInstrKind::MC(i1), LIRInstrKind::MC(i2)) => i1 == i2,
        (LIRInstrKind::Use(v1), LIRInstrKind::Use(v2)) => v1 == v2,
        _ => false,
    }
}

/// The modifier of an absolute value: the score is at most -1
pub open spec fn abs_modifier_of(m: Modifier, v: MutableScoreValue) -> bool {
    &&& m matches Modifier::If { condition, negate }
    &&& !negate
    &&& *condition matches IfModCondition::Score(IfScoreCondition::Range { score, left, right })
    &&& score matches ScoreValue::Mutable(s) && msv_same(s, v)
    &&& left is Infinite
    &&& right == IfScoreRangeEnd::Fixed {
        value: ScoreValue::Constant(ScoreTypeContents::Score(-1i32)),
        inclusive: true,
    }
}

/// Whether an instruction, given by what it does and its modifiers, is what
/// a lowered instruction must be
pub open spec fn lowered_parts(kind: LIRInstrKind, mods: Seq<Modifier>, e: Lowered) -> bool
    decreases e,
{
    match e {
        Lowered::Kind(k) => mods.len() == 0 && kind_same(kind, k),
        Lowered::Abs(v) => {
            &&& kind matches LIRInstrKind::MulScore(l, r)
            &&& msv_same(l, v)
            &&& r == ScoreValue::Constant(ScoreTypeContents::Score(-1i32))
            &&& mods.len() == 1
            &&& abs_modifier_of(mods[0], v)
        },
        Lowered::ReturnRead(rd) => {
            &&& mods.len() == 0
            &&& kind matches LIRInstrKind::ReturnRun(body)
            &&& body.modifiers@.len() == 0
            &&& reads(body.kind, rd)
        },
        Lowered::DataToReg(t, v) => {
            &&& mods.len() == 0
            &&& kind matches LIRInstrKind::SetData(MutableNBTValue::Reg(r), NBTValue::Mutable(m))
            &&& r@ == t
            &&& mnv_same(m, v)
        },
        Lowered::DataFromReg(v, t) => {
            &&& mods.len() == 0
            &&& kind matches LIRInstrKind::SetData(m, NBTValue::Mutable(MutableNBTValue::Reg(r)))
            &&& r@ == t
            &&& mnv_same(m, v)
        },
        Lowered::ScoreToReg(t, v) => {
            &&& mods.len() == 0
            &&& kind matches LIRInstrKind::SetScore(MutableScoreValue::Reg(r), ScoreValue::Mutable(m))
            &&& r@ == t
            &&& msv_same(m, v)
        },
        Lowered::MulByReg(v, t) => {
            &&& mods.len() == 0
            &&& kind matches LIRInstrKind::MulScore(m, ScoreValue::Mutable(MutableScoreValue::Reg(r)))
            &&& r@ == t
            &&& msv_same(m, v)
        },
        Lowered::NotValue(st, sv) => {
            &&& kind is NoOp
            &&& mods.len() == 2
            &&& mods[0] matches Modifier::StoreSuccess(loc) && store_is(loc, st)
            &&& mods[1] matches Modifier::If { condition, negate }
            &&& !negate
            &&& *condition matches IfModCondition::Score(IfScoreCondition::Single { left, right })
            &&& left matches ScoreValue::Mutable(l) && msv_same(l, sv)
            &&& right == ScoreValue::Constant(ScoreTypeContents::Bool(false))
        },
        Lowered::Read(rd) => mods.len() == 0 && reads(kind, rd),
        Lowered::CastInto(st, rd) => {
            &&& mods.len() == 1
            &&& mods[0] matches Modifier::StoreResult(loc) && store_is(loc, st)
            &&& reads(kind, rd)
        },
        Lowered::Modified(m, inner) => {
            &&& mods.len() >= 1
            &&& mods[0] == m
            &&& lowered_parts(kind, mods.drop_first(), *inner)
        },
        Lowered::RunReturn(inner) => {
            &&& mods.len() == 0
            &&& kind matches LIRInstrKind::ReturnRun(b)
            &&& lowered_parts(b.kind, b.modifiers@, *inner)
        },
        Lowered::CallTo(f) => {
            &&& mods.len() == 0
            &&& kind matches LIRInstrKind::Call(g)
            &&& g@ == f
        },
        Lowered::Conditioned(cs, inner) => {
            &&& mods.len() >= cs.len()
            &&& forall|k: int| 0 <= k < cs.len() ==> #[trigger] mods[k] == if_mod(cs[k])
            &&& lowered_parts(kind, mods.skip(cs.len() as int), *inner)
        },
    }
}

/// Whether an instruction is what a lowered instruction must be
pub open spec fn lowered_as(i: LIRInstruction, e: Lowered) -> bool {
    lowered_parts(i.kind, i.modifiers@, e)
}

/// Whether a list of instructions is, one by one, what a list of lowered
/// instructions must be
pub open spec fn all_lowered_as(out: Seq<LIRInstruction>, exp: Seq<Lowered>) -> bool {
    out.len() == exp.len() && forall|i: int| 0 <= i < out.len() ==> lowered_as(#[trigger] out[i], exp[i])
}

/// The index of the first register with this name
pub open spec fn reg_pos(regs: Seq<(Seq<char>, DataType)>, id: Seq<char>) -> Option<int>
    decreases regs.len(),
{
    if regs.len() == 0 {
        None
    } else if regs[0].0 == id {
        Some(0)
    } else {
        match reg_pos(regs.drop_first(), id) {
            Some(k) => Some(k + 1),
            None => None,
        }
    }
}

/// Declaring a register: it replaces a register of the same name, or is
/// added at the end
pub open spec fn regs_insert(regs: Seq<(Seq<char>, DataType)>, id: Seq<char>, ty: DataType) -> Seq<
    (Seq<char>, DataType),
> {
    match reg_pos(regs, id) {
        Some(k) => regs.update(k, (id, ty)),
        None => regs.push((id, ty)),
    }
}

proof fn lemma_reg_pos(regs: Seq<(Seq<char>, DataType)>, id: Seq<char>, k: int)
    requires
        0 <= k <= regs.len(),
        forall|q: int| 0 <= q < k ==> regs[q].0 != id,
    ensures
        k < regs.len() && regs[k].0 == id ==> reg_pos(regs, id) == Some(k),
        k == regs.len() ==> reg_pos(regs, id) is None,
    decreases k,
{
    if k > 0 {
        lemma_reg_pos(regs.drop_first(), id, k - 1);
    } else if regs.len() > 0 {
    }
}

/// Declares a register in a list
fn insert_register(regs: &mut Vec<Register>, reg: Register, Ghost(views): Ghost<Seq<(Seq<char>, DataType)>>, Ghost(ty): Ghost<DataType>)
    requires
        regs_match(old(regs)@, views),
        ty_same(ty, reg.ty),
    ensures
        regs_match(final(regs)@, regs_insert(views, reg.id@, ty)),
{
    let ghost id = reg.id@;
    let mut k: usize = 0;
    while k < regs.len()
        invariant
            regs@ == old(regs)@,
            regs_match(regs@, views),
            ty_same(ty, reg.ty),
            id == reg.id@,
            k <= regs@.len(),
            forall|q: int| 0 <= q < k ==> views[q].0 != id,
        decreases regs.len() - k,
    {
        assert(regs@[k as int].id@ == views[k as int].0);
        if crate::strutil::str_eq(regs[k].id.as_str(), reg.id.as_str()) {
            proof {
                lemma_reg_pos(views, id, k as int);
            }
            regs.set(k, reg);
            assert(regs_match(regs@, regs_insert(views, id, ty))) by {
                let nv = regs_insert(views, id, ty);
                assert forall|i: int| 0 <= i < regs@.len() implies #[trigger] regs@[i].id@ == nv[i].0 && ty_same(
                    nv[i].1,
                    regs@[i].ty,
                ) by {
                    if i != k {
                        assert(regs@[i] == old(regs)@[i]);
                    }
                }
            }
            return;
        }
        k = k + 1;
    }
    proof {
        lemma_reg_pos(views, id, k as int);
    }
    regs.push(reg);
    assert(regs_match(regs@, regs_insert(views, id, ty))) by {
        let nv = regs_insert(views, id, ty);
        assert forall|i: int| 0 <= i < regs@.len() implies #[trigger] regs@[i].id@ == nv[i].0 && ty_same(
            nv[i].1,
            regs@[i].ty,
        ) by {
            if i < old(regs)@.len() {
                assert(regs@[i] == old(regs)@[i]);
            }
        }
    }
}


/// What lowering keeps while it works through a function: its registers,
/// how many extra registers it has made, its id and its signature
pub struct LowerBlockCx {
    pub registers: Vec<Register>,
    pub additional_reg_count: u32,
    pub func_id: String,
    pub sig: FunctionSignature,
}

/// A value conversion's error as a lowering error
pub open spec fn lift<T>(r: Result<T, ValueError>) -> Result<T, LowerError> {
    match r {
        Ok(v) => Ok(v),
        Err(e) => Err(LowerError::Value(e)),
    }
}

/// A computed type against the type that lowering expects: the same type,
/// or the same error
pub open spec fn ty_matches(r: Result<DataType, LowerError>, s: Result<DataType, LowerError>) -> bool {
    match (r, s) {
        (Ok(t), Ok(u)) => ty_same(u, t),
        (Err(e), Err(f)) => e == f,
        _ => false,
    }
}

/// Matching registers give a value the same type
proof fn lemma_mut_val_ty_match(
    v: MutableValue,
    actual: Seq<Register>,
    rv: Seq<(Seq<char>, DataType)>,
    sig: FunctionSignature,
)
    requires
        regs_match(actual, rv),
    ensures
        ty_matches(lift(mut_val_ty(v, reg_views(actual), sig)), lift(mut_val_ty(v, rv, sig))),
{
    if let MutableValue::Reg(id) = v {
        lemma_regs_match_lookup(actual, rv, id@);
    } else {
        if let Ok(t) = mut_val_ty(v, rv, sig) {
            lemma_ty_same_reflexive(t);
        }
    }
}

/// The type of a value that can be written to
fn mut_ty(v: &MutableValue, cx: &LowerBlockCx, Ghost(rv): Ghost<Seq<(Seq<char>, DataType)>>) -> (r: Result<
    DataType,
    LowerError,
>)
    requires
        regs_match(cx.registers@, rv),
    ensures
        ty_matches(r, lift(mut_val_ty(*v, rv, cx.sig))),
{
    proof {
        lemma_mut_val_ty_match(*v, cx.registers@, rv, cx.sig);
    }
    match v.get_ty(&cx.registers, &cx.sig) {
        Ok(t) => {
            proof {
                let a = mut_val_ty(*v, reg_views(cx.registers@), cx.sig)->Ok_0;
                let e = mut_val_ty(*v, rv, cx.sig)->Ok_0;
                lemma_ty_same_transitive(e, a, t);
            }
            Ok(t)
        },
        Err(e) => Err(LowerError::Value(e)),
    }
}

/// The type of an operand
fn val_ty_of(v: &Value, cx: &LowerBlockCx, Ghost(rv): Ghost<Seq<(Seq<char>, DataType)>>) -> (r: Result<
    DataType,
    LowerError,
>)
    requires
        regs_match(cx.registers@, rv),
    ensures
        ty_matches(r, lift(val_ty(*v, rv, cx.sig))),
{
    match v {
        Value::Mutable(m) => mut_ty(m, cx, Ghost(rv)),
        Value::Constant(c) => {
            let t = c.get_ty();
            Ok(t)
        },
    }
}

/// The score instruction of a two-operand operation
pub open spec fn score_op_kind(kind: DoubleOperationKind, l: MutableScoreValue, r: ScoreValue) -> LIRInstrKind {
    match kind {
        DoubleOperationKind::Add => LIRInstrKind::AddScore(l, r),
        DoubleOperationKind::Sub => LIRInstrKind::SubScore(l, r),
        DoubleOperationKind::Mul => LIRInstrKind::MulScore(l, r),
        DoubleOperationKind::Div => LIRInstrKind::DivScore(l, r),
        DoubleOperationKind::Mod => LIRInstrKind::ModScore(l, r),
        DoubleOperationKind::Min => LIRInstrKind::MinScore(l, r),
        _ => LIRInstrKind::MaxScore(l, r),
    }
}

/// The data instruction of a two-operand operation
pub open spec fn data_op_kind(kind: DoubleOperationKind, l: MutableNBTValue, r: NBTValue) -> LIRInstrKind {
    match kind {
        DoubleOperationKind::Merge => LIRInstrKind::MergeData(l, r),
        DoubleOperationKind::Push => LIRInstrKind::PushData(l, r),
        DoubleOperationKind::PushFront => LIRInstrKind::PushFrontData(l, r),
        DoubleOperationKind::Insert(i) => LIRInstrKind::InsertData(l, r, i),
        _ => LIRInstrKind::MergeData(l, r),
    }
}

/// Operations that work on scores
pub open spec fn is_score_op(kind: DoubleOperationKind) -> bool {
    kind is Add || kind is Sub || kind is Mul || kind is Div || kind is Mod || kind is Min || kind is Max
}

/// Operations that work on NBT data
pub open spec fn is_data_op(kind: DoubleOperationKind) -> bool {
    kind is Merge || kind is Push || kind is PushFront || kind is Insert
}

/// Lowering a two-operand operation: both operands must be scores for a
/// score operation and NBT data for a data operation
pub open spec fn lower_op_spec(
    kind: DoubleOperationKind,
    left: MutableValue,
    right: Value,
    rv: Seq<(Seq<char>, DataType)>,
    sig: FunctionSignature,
) -> Result<LIRInstrKind, LowerError> {
    match lift(mut_val_ty(left, rv, sig)) {
        Err(e) => Err(e),
        Ok(lt) => match lift(val_ty(right, rv, sig)) {
            Err(e) => Err(e),
            Ok(rt) => if is_score_op(kind) {
                if lt is Score && rt is Score {
                    match lift(to_score(left)) {
                        Err(e) => Err(e),
                        Ok(l) => match lift(to_score_val(right)) {
                            Err(e) => Err(e),
                            Ok(r) => Ok(score_op_kind(kind, l, r)),
                        },
                    }
                } else {
                    Err(LowerError::TypeNotAllowed)
                }
            } else {
                if lt is NBT && rt is NBT {
                    match lift(to_nbt(left)) {
                        Err(e) => Err(e),
                        Ok(l) => match lift(to_nbt_val(right)) {
                            Err(e) => Err(e),
                            Ok(r) => Ok(data_op_kind(kind, l, r)),
                        },
                    }
                } else {
                    Err(LowerError::TypeNotAllowed)
                }
            },
        },
    }
}

/// A lowered instruction kind against the one expected
pub open spec fn kind_matches(r: Result<LIRInstrKind, LowerError>, s: Result<LIRInstrKind, LowerError>) -> bool {
    match (r, s) {
        (Ok(a), Ok(b)) => kind_same(a, b),
        (Err(e), Err(f)) => e == f,
        _ => false,
    }
}

/// Lowers a two-operand score or data operation
fn lower_op(
    kind: DoubleOperationKind,
    left: MutableValue,
    right: Value,
    cx: &LowerBlockCx,
    Ghost(rv): Ghost<Seq<(Seq<char>, DataType)>>,
) -> (r: Result<LIRInstrKind, LowerError>)
    requires
        regs_match(cx.registers@, rv),
        is_score_op(kind) || is_data_op(kind),
    ensures
        kind_matches(r, lower_op_spec(kind, left, right, rv, cx.sig)),
{
    let lt = match mut_ty(&left, cx, Ghost(rv)) {
        Ok(t) => t,
        Err(e) => return Err(e),
    };
    let rt = match val_ty_of(&right, cx, Ghost(rv)) {
        Ok(t) => t,
        Err(e) => return Err(e),
    };
    let ghost sleft = left;
    let ghost sright = right;
    let is_score = match kind {
        DoubleOperationKind::Add | DoubleOperationKind::Sub | DoubleOperationKind::Mul | DoubleOperationKind::Div
        | DoubleOperationKind::Mod | DoubleOperationKind::Min | DoubleOperationKind::Max => true,
        _ => false,
    };
    if is_score {
        if !(matches!(lt, DataType::Score(..)) && matches!(rt, DataType::Score(..))) {
            return Err(LowerError::TypeNotAllowed);
        }
        let l = match left.to_mutable_score_value() {
            Ok(l) => l,
            Err(e) => return Err(LowerError::Value(e)),
        };
        let r = match right.to_score_value() {
            Ok(r) => r,
            Err(e) => return Err(LowerError::Value(e)),
        };
        proof {
            lemma_msv_same_reflexive(l);
            lemma_sv_same_reflexive(r);
        }
        Ok(match kind {
            DoubleOperationKind::Add => LIRInstrKind::AddScore(l, r),
            DoubleOperationKind::Sub => LIRInstrKind::SubScore(l, r),
            DoubleOperationKind::Mul => LIRInstrKind::MulScore(l, r),
            DoubleOperationKind::Div => LIRInstrKind::DivScore(l, r),
            DoubleOperationKind::Mod => LIRInstrKind::ModScore(l, r),
            DoubleOperationKind::Min => LIRInstrKind::MinScore(l, r),
            _ => LIRInstrKind::MaxScore(l, r),
        })
    } else {
        if !(matches!(lt, DataType::NBT(..)) && matches!(rt, DataType::NBT(..))) {
            return Err(LowerError::TypeNotAllowed);
        }
        let l = match left.to_mutable_nbt_value() {
            Ok(l) => l,
            Err(e) => return Err(LowerError::Value(e)),
        };
        let r = match right.to_nbt_value() {
            Ok(r) => r,
            Err(e) => return Err(LowerError::Value(e)),
        };
        proof {
            lemma_mnv_same_reflexive(l);
            lemma_nv_same_reflexive(r);
        }
        Ok(match kind {
            DoubleOperationKind::Merge => LIRInstrKind::MergeData(l, r),
            DoubleOperationKind::Push => LIRInstrKind::PushData(l, r),
            DoubleOperationKind::PushFront => LIRInstrKind::PushFrontData(l, r),
            DoubleOperationKind::Insert(i) => LIRInstrKind::InsertData(l, r, i),
            _ => LIRInstrKind::MergeData(l, r),
        })
    }
}


/// The name of the extra register with this counter: `__lir_lower_{n}`
pub open spec fn temp_reg_name(n: nat) -> Seq<char> {
    "__lir_lower_"@ + crate::strutil::decimal(n)
}

/// Makes the name of the next extra register
fn new_additional_reg(cx: &mut LowerBlockCx) -> (r: String)
    requires
        old(cx).additional_reg_count < u32::MAX,
    ensures
        r@ == temp_reg_name(old(cx).additional_reg_count as nat),
        final(cx).additional_reg_count == old(cx).additional_reg_count + 1,
        final(cx).registers == old(cx).registers,
        final(cx).sig == old(cx).sig,
        final(cx).func_id == old(cx).func_id,
{
    let n = cx.additional_reg_count;
    cx.additional_reg_count = n + 1;
    let mut out = String::new();
    crate::strutil::push_str(&mut out, "__lir_lower_");
    crate::strutil::push_decimal(&mut out, n as u64);
    assert(out@ =~= temp_reg_name(n as nat));
    out
}

/// The outcome of lowering an instruction: the instructions it becomes,
/// with the registers and the extra-register counter after it
pub open spec fn outcome(
    r: Result<Seq<Lowered>, LowerError>,
    rv: Seq<(Seq<char>, DataType)>,
    extra: nat,
) -> Result<(Seq<Lowered>, Seq<(Seq<char>, DataType)>, nat), LowerError> {
    match r {
        Ok(l) => Ok((l, rv, extra)),
        Err(e) => Err(e),
    }
}

/// The same, for an instruction that becomes one instruction
pub open spec fn one_kind(
    r: Result<LIRInstrKind, LowerError>,
    rv: Seq<(Seq<char>, DataType)>,
    extra: nat,
) -> Result<(Seq<Lowered>, Seq<(Seq<char>, DataType)>, nat), LowerError> {
    match r {
        Ok(k) => Ok((seq![Lowered::Kind(k)], rv, extra)),
        Err(e) => Err(e),
    }
}

/// Lowering a swap: two scores swap with one operation; two pieces of NBT
/// data swap through a new register of the left one's type
pub open spec fn lower_swap_spec(
    left: MutableValue,
    right: MutableValue,
    rv: Seq<(Seq<char>, DataType)>,
    sig: FunctionSignature,
    extra: nat,
) -> Result<(Seq<Lowered>, Seq<(Seq<char>, DataType)>, nat), LowerError> {
    match lift(mut_val_ty(left, rv, sig)) {
        Err(e) => Err(e),
        Ok(lt) => match lift(mut_val_ty(right, rv, sig)) {
            Err(e) => Err(e),
            Ok(rt) => match (lt, rt) {
                (DataType::Score(_), DataType::Score(_)) => match lift(to_score(left)) {
                    Err(e) => Err(e),
                    Ok(l) => match lift(to_score(right)) {
                        Err(e) => Err(e),
                        Ok(r) => Ok((seq![Lowered::Kind(LIRInstrKind::SwapScore(l, r))], rv, extra)),
                    },
                },
                (DataType::NBT(lty), DataType::NBT(_)) => {
                    let temp = temp_reg_name(extra);
                    match lift(to_nbt(left)) {
                        Err(e) => Err(e),
                        Ok(l) => match lift(to_nbt(right)) {
                            Err(e) => Err(e),
                            Ok(r) => Ok((
                                seq![
                                    Lowered::DataToReg(temp, l),
                                    Lowered::Kind(LIRInstrKind::SetData(l, NBTValue::Mutable(r))),
                                    Lowered::DataFromReg(r, temp),
                                ],
                                regs_insert(rv, temp, DataType::NBT(lty)),
                                extra + 1,
                            )),
                        },
                    }
                },
                _ => Err(LowerError::TypeNotAllowed),
            },
        },
    }
}

/// The result of lowering that the state of lowering matches
pub open spec fn lowered_into(
    r: Result<Vec<LIRInstruction>, LowerError>,
    s: Result<(Seq<Lowered>, Seq<(Seq<char>, DataType)>, nat), LowerError>,
    cx: LowerBlockCx,
) -> bool {
    match (r, s) {
        (Ok(out), Ok((exp, rv, extra))) => all_lowered_as(out@, exp) && regs_match(cx.registers@, rv)
            && cx.additional_reg_count == extra,
        (Err(e), Err(f)) => e == f,
        _ => false,
    }
}

/// Lowers a swap
fn lower_swap(
    left: MutableValue,
    right: MutableValue,
    cx: &mut LowerBlockCx,
    Ghost(rv): Ghost<Seq<(Seq<char>, DataType)>>,
) -> (r: Result<Vec<LIRInstruction>, LowerError>)
    requires
        regs_match(old(cx).registers@, rv),
        old(cx).additional_reg_count < u32::MAX,
    ensures
        lowered_into(r, lower_swap_spec(left, right, rv, old(cx).sig, old(cx).additional_reg_count as nat), *final(cx)),
        final(cx).sig == old(cx).sig,
        final(cx).func_id == old(cx).func_id,
        final(cx).additional_reg_count <= old(cx).additional_reg_count + 1,
{
    let ghost extra = cx.additional_reg_count as nat;
    let ghost sleft = left;
    let ghost sright = right;
    let lt = match mut_ty(&left, cx, Ghost(rv)) {
        Ok(t) => t,
        Err(e) => return Err(e),
    };
    let rt = match mut_ty(&right, cx, Ghost(rv)) {
        Ok(t) => t,
        Err(e) => return Err(e),
    };
    let mut out: Vec<LIRInstruction> = Vec::new();
    match (lt, rt) {
        (DataType::Score(..), DataType::Score(..)) => {
            let l = match left.to_mutable_score_value() {
                Ok(l) => l,
                Err(e) => return Err(LowerError::Value(e)),
            };
            let r = match right.to_mutable_score_value() {
                Ok(r) => r,
                Err(e) => return Err(LowerError::Value(e)),
            };
            proof {
                lemma_msv_same_reflexive(l);
                lemma_msv_same_reflexive(r);
            }
            out.push(LIRInstruction::new(LIRInstrKind::SwapScore(l, r)));
            proof {
                assert(all_lowered_as(out@, lower_swap_spec(sleft, sright, rv, cx.sig, extra)->Ok_0.0));
            }
            Ok(out)
        },
        (DataType::NBT(left_ty), DataType::NBT(..)) => {
            let temp = new_additional_reg(cx);
            let ghost spec_lty = mut_val_ty(sleft, rv, cx.sig)->Ok_0;
            let ghost temp_view = temp@;
            insert_register(
                &mut cx.registers,
                Register { id: temp.clone(), ty: DataType::NBT(left_ty) },
                Ghost(rv),
                Ghost(spec_lty),
            );
            let l = match left.to_mutable_nbt_value() {
                Ok(l) => l,
                Err(e) => return Err(LowerError::Value(e)),
            };
            let r = match right.to_mutable_nbt_value() {
                Ok(r) => r,
                Err(e) => return Err(LowerError::Value(e)),
            };
            out.push(LIRInstruction::new(LIRInstrKind::SetData(MutableNBTValue::Reg(temp.clone()), NBTValue::Mutable(l.copy()))));
            let r2 = r.copy();
            out.push(LIRInstruction::new(LIRInstrKind::SetData(l, NBTValue::Mutable(r2))));
            out.push(LIRInstruction::new(LIRInstrKind::SetData(r, NBTValue::Mutable(MutableNBTValue::Reg(temp)))));
            proof {
                let exp = lower_swap_spec(sleft, sright, rv, cx.sig, extra)->Ok_0.0;
                let sl = to_nbt(sleft)->Ok_0;
                let sr = to_nbt(sright)->Ok_0;
                lemma_mnv_same_reflexive(sl);
                lemma_mnv_same_reflexive(sr);
                assert(lowered_as(out@[0], exp[0]));
                assert(lowered_as(out@[1], exp[1]));
                assert(lowered_as(out@[2], exp[2]));
            }
            Ok(out)
        },
        _ => Err(LowerError::TypeNotAllowed),
    }
}


/// Lowering a removal: resetting a score or removing NBT data
pub open spec fn lower_rm_spec(val: MutableValue, rv: Seq<(Seq<char>, DataType)>, sig: FunctionSignature) -> Result<
    LIRInstrKind,
    LowerError,
> {
    match lift(mut_val_ty(val, rv, sig)) {
        Err(e) => Err(e),
        Ok(DataType::Score(_)) => match lift(to_score(val)) {
            Err(e) => Err(e),
            Ok(v) => Ok(LIRInstrKind::ResetScore(v)),
        },
        Ok(DataType::NBT(_)) => match lift(to_nbt(val)) {
            Err(e) => Err(e),
            Ok(v) => Ok(LIRInstrKind::RemoveData(v)),
        },
    }
}

/// Lowers a removal
fn lower_rm(val: MutableValue, cx: &LowerBlockCx, Ghost(rv): Ghost<Seq<(Seq<char>, DataType)>>) -> (r: Result<
    LIRInstrKind,
    LowerError,
>)
    requires
        regs_match(cx.registers@, rv),
    ensures
        kind_matches(r, lower_rm_spec(val, rv, cx.sig)),
{
    let t = match mut_ty(&val, cx, Ghost(rv)) {
        Ok(t) => t,
        Err(e) => return Err(e),
    };
    match t {
        DataType::Score(..) => match val.to_mutable_score_value() {
            Ok(v) => {
                proof {
                    lemma_msv_same_reflexive(v);
                }
                Ok(LIRInstrKind::ResetScore(v))
            },
            Err(e) => Err(LowerError::Value(e)),
        },
        DataType::NBT(..) => match val.to_mutable_nbt_value() {
            Ok(v) => {
                proof {
                    lemma_mnv_same_reflexive(v);
                }
                Ok(LIRInstrKind::RemoveData(v))
            },
            Err(e) => Err(LowerError::Value(e)),
        },
    }
}

/// Lowering an absolute value: the score that is negated where negative
pub open spec fn lower_abs_spec(val: MutableValue, rv: Seq<(Seq<char>, DataType)>, sig: FunctionSignature) -> Result<
    MutableScoreValue,
    LowerError,
> {
    match lift(mut_val_ty(val, rv, sig)) {
        Err(e) => Err(e),
        Ok(DataType::Score(_)) => lift(to_score(val)),
        Ok(_) => Err(LowerError::TypeNotAllowed),
    }
}

/// Lowers an absolute value: multiplying by -1 where the score is at most -1
fn lower_abs(val: MutableValue, cx: &LowerBlockCx, Ghost(rv): Ghost<Seq<(Seq<char>, DataType)>>) -> (r: Result<
    LIRInstruction,
    LowerError,
>)
    requires
        regs_match(cx.registers@, rv),
    ensures
        match (r, lower_abs_spec(val, rv, cx.sig)) {
            (Ok(i), Ok(v)) => lowered_as(i, Lowered::Abs(v)) && computes_abs(i, v),
            (Err(e), Err(f)) => e == f,
            _ => false,
        },
{
    let ghost sval = val;
    let t = match mut_ty(&val, cx, Ghost(rv)) {
        Ok(t) => t,
        Err(e) => return Err(e),
    };
    if !matches!(t, DataType::Score(..)) {
        return Err(LowerError::TypeNotAllowed);
    }
    let v = match val.to_mutable_score_value() {
        Ok(v) => v,
        Err(e) => return Err(LowerError::Value(e)),
    };
    let v2 = v.copy();
    proof {
        lemma_msv_same_reflexive(v);
    }
    let modifier = Modifier::If {
        condition: Box::new(
            IfModCondition::Score(
                IfScoreCondition::Range {
                    score: ScoreValue::Mutable(v2),
                    left: IfScoreRangeEnd::Infinite,
                    right: IfScoreRangeEnd::Fixed {
                        value: ScoreValue::Constant(ScoreTypeContents::Score(-1)),
                        inclusive: true,
                    },
                },
            ),
        ),
        negate: false,
    };
    let mut mods: Vec<Modifier> = Vec::new();
    mods.push(modifier);
    let i = LIRInstruction::with_modifiers(LIRInstrKind::MulScore(v, ScoreValue::Constant(ScoreTypeContents::Score(-1))), mods);
    proof {
        assert(lowered_as(i, Lowered::Abs(lower_abs_spec(sval, rv, cx.sig)->Ok_0)));
        lemma_abs_lowering_computes_abs(sval, rv, cx.sig, i);
    }
    Ok(i)
}

/// The largest power of two that divides a number
pub open spec fn pow2_factor(n: u8) -> u8 {
    n & !((n - 1) as u8)
}

/// The base-two logarithm of a power of two up to 128
pub open spec fn log2_of(p: u8) -> nat {
    if p == 1 {
        0
    } else if p == 2 {
        1
    } else if p == 4 {
        2
    } else if p == 8 {
        3
    } else if p == 16 {
        4
    } else if p == 32 {
        5
    } else if p == 64 {
        6
    } else {
        7
    }
}

/// Lowering a power: `x^0` sets 1, `x^1` does nothing, `x^2` multiplies by
/// itself; a larger exponent first squares the score once for each factor
/// two of the exponent, then multiplies the result by a copy of it as many
/// times as the odd part asks
pub open spec fn lower_pow_spec(
    base: MutableValue,
    exp: u8,
    rv: Seq<(Seq<char>, DataType)>,
    extra: nat,
) -> Result<(Seq<Lowered>, Seq<(Seq<char>, DataType)>, nat), LowerError> {
    if exp == 1 {
        Ok((Seq::empty(), rv, extra))
    } else {
        match lift(to_score(base)) {
            Err(e) => Err(e),
            Ok(b) => if exp == 0 {
                Ok((seq![Lowered::Kind(LIRInstrKind::SetScore(b, ScoreValue::Constant(ScoreTypeContents::Score(1))))], rv, extra))
            } else if exp == 2 {
                Ok((seq![Lowered::Kind(LIRInstrKind::MulScore(b, ScoreValue::Mutable(b)))], rv, extra))
            } else {
                let f = pow2_factor(exp);
                let squares = Seq::new(log2_of(f), |k: int| Lowered::Kind(LIRInstrKind::MulScore(b, ScoreValue::Mutable(b))));
                let rest = exp / f;
                if rest == 1 {
                    Ok((squares, rv, extra))
                } else {
                    let temp = temp_reg_name(extra);
                    Ok((
                        squares + seq![Lowered::ScoreToReg(temp, b)] + Seq::new((rest - 1) as nat, |k: int| Lowered::MulByReg(b, temp)),
                        regs_insert(rv, temp, DataType::Score(crate::common::ty::ScoreType::Score)),
                        extra + 1,
                    ))
                }
            },
        }
    }
}


/// Lowers a power; what it lowers into computes the power
fn lower_pow(
    base: MutableValue,
    exp: u8,
    cx: &mut LowerBlockCx,
    Ghost(rv): Ghost<Seq<(Seq<char>, DataType)>>,
) -> (r: Result<Vec<LIRInstruction>, LowerError>)
    requires
        regs_match(old(cx).registers@, rv),
        old(cx).additional_reg_count < u32::MAX,
    ensures
        lowered_into(r, lower_pow_spec(base, exp, rv, old(cx).additional_reg_count as nat), *final(cx)),
        final(cx).sig == old(cx).sig,
        final(cx).func_id == old(cx).func_id,
        final(cx).additional_reg_count <= old(cx).additional_reg_count + 1,
        r is Ok && !(to_score(base)->Ok_0 matches MutableScoreValue::Reg(q) && q@ == temp_reg_name(
            old(cx).additional_reg_count as nat,
        )) ==> computes_power(r->Ok_0@, to_score(base)->Ok_0, temp_reg_name(old(cx).additional_reg_count as nat), exp),
{
    let ghost extra = cx.additional_reg_count as nat;
    let ghost gbase = base;
    let r = lower_pow_steps(base, exp, cx, Ghost(rv));
    proof {
        if r is Ok && !(to_score(gbase)->Ok_0 matches MutableScoreValue::Reg(q) && q@ == temp_reg_name(extra)) {
            lemma_pow_lowering_computes_power(gbase, to_score(gbase)->Ok_0, exp, rv, extra, r->Ok_0@);
        }
    }
    r
}

/// The instructions of a power: squares, then products with a copy
fn lower_pow_steps(
    base: MutableValue,
    exp: u8,
    cx: &mut LowerBlockCx,
    Ghost(rv): Ghost<Seq<(Seq<char>, DataType)>>,
) -> (r: Result<Vec<LIRInstruction>, LowerError>)
    requires
        regs_match(old(cx).registers@, rv),
        old(cx).additional_reg_count < u32::MAX,
    ensures
        lowered_into(r, lower_pow_spec(base, exp, rv, old(cx).additional_reg_count as nat), *final(cx)),
        final(cx).sig == old(cx).sig,
        final(cx).func_id == old(cx).func_id,
        final(cx).additional_reg_count <= old(cx).additional_reg_count + 1,
{
    let ghost extra = cx.additional_reg_count as nat;
    let ghost sbase = base;
    let mut out: Vec<LIRInstruction> = Vec::new();
    if exp == 1 {
        return Ok(out);
    }
    let b = match base.to_mutable_score_value() {
        Ok(b) => b,
        Err(e) => return Err(LowerError::Value(e)),
    };
    proof {
        lemma_msv_same_reflexive(b);
    }
    if exp == 0 {
        out.push(LIRInstruction::new(LIRInstrKind::SetScore(b, ScoreValue::Constant(ScoreTypeContents::Score(1)))));
        proof {
            assert(sv_same(ScoreValue::Constant(ScoreTypeContents::Score(1)), ScoreValue::Constant(ScoreTypeContents::Score(1))));
            assert(lowered_as(out@[0], lower_pow_spec(sbase, exp, rv, extra)->Ok_0.0[0]));
        }
        return Ok(out);
    }
    if exp == 2 {
        let b2 = b.copy();
        out.push(LIRInstruction::new(LIRInstrKind::MulScore(b, ScoreValue::Mutable(b2))));
        proof {
            assert(lowered_as(out@[0], lower_pow_spec(sbase, exp, rv, extra)->Ok_0.0[0]));
        }
        return Ok(out);
    }
    let f = crate::lower::highest_power_of_2_factor(exp);
    let two_power: u8 = if f == 1 {
        0
    } else if f == 2 {
        1
    } else if f == 4 {
        2
    } else if f == 8 {
        3
    } else if f == 16 {
        4
    } else if f == 32 {
        5
    } else if f == 64 {
        6
    } else {
        7
    };
    let rest = exp / f;
    let ghost full = lower_pow_spec(sbase, exp, rv, extra)->Ok_0.0;
    let ghost sb = b;
    assert(f == pow2_factor(exp));
    assert(two_power == log2_of(f));
    let mut k: u8 = 0;
    while k < two_power
        invariant
            k <= two_power,
            two_power == log2_of(f),
            f == pow2_factor(exp),
            exp > 2,
            rest == exp / f,
            b == sb,
            sb == to_score(sbase)->Ok_0,
            to_score(sbase) is Ok,
            full == lower_pow_spec(sbase, exp, rv, extra)->Ok_0.0,
            out@.len() == k,
            forall|q: int| 0 <= q < k ==> lowered_as(#[trigger] out@[q], full[q]),
        decreases two_power - k,
    {
        let b1 = b.copy();
        let b2 = b.copy();
        out.push(LIRInstruction::new(LIRInstrKind::MulScore(b1, ScoreValue::Mutable(b2))));
        assert(lowered_as(out@[k as int], full[k as int]));
        k = k + 1;
    }
    if rest == 1 {
        assert(all_lowered_as(out@, full));
        return Ok(out);
    }
    let temp = new_additional_reg(cx);
    insert_register(
        &mut cx.registers,
        Register { id: temp.clone(), ty: DataType::Score(crate::common::ty::ScoreType::Score) },
        Ghost(rv),
        Ghost(DataType::Score(crate::common::ty::ScoreType::Score)),
    );
    let b3 = b.copy();
    out.push(LIRInstruction::new(LIRInstrKind::SetScore(MutableScoreValue::Reg(temp.clone()), ScoreValue::Mutable(b3))));
    assert(lowered_as(out@[two_power as int], full[two_power as int]));
    let mut m: u8 = 0;
    while m < rest - 1
        invariant
            m <= rest - 1,
            rest > 1,
            two_power == log2_of(f),
            f == pow2_factor(exp),
            exp > 2,
            rest == exp / f,
            b == sb,
            sb == to_score(sbase)->Ok_0,
            to_score(sbase) is Ok,
            temp@ == temp_reg_name(extra),
            full == lower_pow_spec(sbase, exp, rv, extra)->Ok_0.0,
            out@.len() == two_power + 1 + m,
            forall|q: int| 0 <= q < out@.len() ==> lowered_as(#[trigger] out@[q], full[q]),
        decreases rest - 1 - m,
    {
        let b4 = b.copy();
        out.push(LIRInstruction::new(LIRInstrKind::MulScore(b4, ScoreValue::Mutable(MutableScoreValue::Reg(temp.clone())))));
        assert(lowered_as(out@[out@.len() - 1], full[out@.len() - 1]));
        m = m + 1;
    }
    assert(all_lowered_as(out@, full));
    Ok(out)
}


/// Setting a value to an operand: a score from a score operand, NBT data
/// from an NBT operand, as the type of the value says
pub open spec fn set_spec(left: MutableValue, lt: DataType, v: Value) -> Result<Seq<Lowered>, LowerError> {
    match lt {
        DataType::Score(_) => match lift(to_score(left)) {
            Err(e) => Err(e),
            Ok(l) => match lift(to_score_val(v)) {
                Err(e) => Err(e),
                Ok(r) => Ok(seq![Lowered::Kind(LIRInstrKind::SetScore(l, r))]),
            },
        },
        DataType::NBT(_) => match lift(to_nbt(left)) {
            Err(e) => Err(e),
            Ok(l) => match lift(to_nbt_val(v)) {
                Err(e) => Err(e),
                Ok(r) => Ok(seq![Lowered::Kind(LIRInstrKind::SetData(l, r))]),
            },
        },
    }
}

/// Where NBT data is stored as a number type: data or a local place, with
/// the scale one; a property or an element cannot be stored into
pub open spec fn nbt_store_spec(value: MutableValue, st: StoreDataType) -> Result<StoreAt, LowerError> {
    match lift(to_nbt(value)) {
        Err(e) => Err(e),
        Ok(n) => if n is Property || n is Index {
            Err(LowerError::UnsupportedStore)
        } else {
            Ok(StoreAt::Data(n, st))
        },
    }
}

/// Where a value is stored as a type: as a score, or as NBT data of a number
/// type; other NBT types cannot be stored
pub open spec fn cast_store_spec(value: MutableValue, ty: DataType) -> Result<StoreAt, LowerError> {
    match ty {
        DataType::Score(_) => match lift(to_score(value)) {
            Err(e) => Err(e),
            Ok(v) => Ok(StoreAt::Score(v)),
        },
        DataType::NBT(t) => match StoreDataType::spec_from_nbt_ty(t) {
            None => Err(LowerError::TypeNotAllowed),
            Some(st) => nbt_store_spec(value, st),
        },
    }
}

/// Where a value is stored, as its own type says
pub open spec fn store_of_spec(value: MutableValue, rv: Seq<(Seq<char>, DataType)>, sig: FunctionSignature) -> Result<
    StoreAt,
    LowerError,
> {
    match lift(mut_val_ty(value, rv, sig)) {
        Err(e) => Err(e),
        Ok(t) => cast_store_spec(value, t),
    }
}

/// A read of a value of a type: of a score, or of NBT data with a scale
pub open spec fn read_spec(value: MutableValue, vt: DataType, scale: Seq<char>) -> Result<ReadOf, LowerError> {
    match vt {
        DataType::Score(_) => match lift(to_score(value)) {
            Err(e) => Err(e),
            Ok(v) => Ok(ReadOf::Score(v)),
        },
        DataType::NBT(_) => match lift(to_nbt(value)) {
            Err(e) => Err(e),
            Ok(n) => Ok(ReadOf::Data(n, scale)),
        },
    }
}

/// A store location against the place it must be
pub open spec fn store_matches(r: Result<StoreModLocation, LowerError>, s: Result<StoreAt, LowerError>) -> bool {
    match (r, s) {
        (Ok(l), Ok(t)) => store_is(l, t),
        (Err(e), Err(f)) => e == f,
        _ => false,
    }
}

/// A read against the read it must be
pub open spec fn read_matches(r: Result<LIRInstrKind, LowerError>, s: Result<ReadOf, LowerError>) -> bool {
    match (r, s) {
        (Ok(k), Ok(t)) => reads(k, t),
        (Err(e), Err(f)) => e == f,
        _ => false,
    }
}

/// Types that are the same are stored the same way
proof fn lemma_cast_store_same(value: MutableValue, a: DataType, b: DataType)
    requires
        ty_same(a, b),
    ensures
        cast_store_spec(value, a) == cast_store_spec(value, b),
{
}

/// The scale one, as it is written
fn unit_scale() -> (r: String)
    ensures
        r@ == "1"@,
{
    String::from_str("1")
}

/// Where a score is stored: a named score as itself, any other as a local place
fn score_store(v: &MutableScoreValue) -> (r: StoreModLocation)
    ensures
        store_is(r, StoreAt::Score(*v)),
{
    match v {
        MutableScoreValue::Score(sc) => StoreModLocation::Score(sc.copy()),
        _ => StoreModLocation::LocalScore(v.copy()),
    }
}

/// Where NBT data is stored as a number type
fn nbt_store(value: MutableValue, st: StoreDataType) -> (r: Result<StoreModLocation, LowerError>)
    ensures
        store_matches(r, nbt_store_spec(value, st)),
{
    match value.to_mutable_nbt_value() {
        Err(e) => Err(LowerError::Value(e)),
        Ok(n) => {
            let ghost sn = n;
            proof {
                lemma_mnv_same_reflexive(sn);
            }
            match n {
                MutableNBTValue::Data(d) => Ok(StoreModLocation::Data(d, st, unit_scale())),
                MutableNBTValue::Property(..) | MutableNBTValue::Index(..) => Err(LowerError::UnsupportedStore),
                other => Ok(StoreModLocation::LocalData(other, st, unit_scale())),
            }
        },
    }
}

/// Where a value is stored as a type
fn cast_store(value: MutableValue, ty: &DataType) -> (r: Result<StoreModLocation, LowerError>)
    ensures
        store_matches(r, cast_store_spec(value, *ty)),
{
    match ty {
        DataType::Score(..) => match value.to_mutable_score_value() {
            Ok(v) => Ok(score_store(&v)),
            Err(e) => Err(LowerError::Value(e)),
        },
        DataType::NBT(t) => match StoreDataType::from_nbt_ty(t) {
            None => Err(LowerError::TypeNotAllowed),
            Some(st) => nbt_store(value, st),
        },
    }
}

/// A read of a value of a type, with a scale
fn read_value(value: MutableValue, vt: &DataType, scale: String) -> (r: Result<LIRInstrKind, LowerError>)
    ensures
        forall|svt: DataType| ty_same(svt, *vt) ==> read_matches(r, #[trigger] read_spec(value, svt, scale@)),
{
    match vt {
        DataType::Score(..) => match value.to_mutable_score_value() {
            Ok(v) => {
                proof {
                    lemma_msv_same_reflexive(v);
                }
                Ok(LIRInstrKind::GetScore(v))
            },
            Err(e) => Err(LowerError::Value(e)),
        },
        DataType::NBT(..) => match value.to_mutable_nbt_value() {
            Ok(n) => {
                proof {
                    lemma_mnv_same_reflexive(n);
                }
                Ok(LIRInstrKind::GetData(n, scale))
            },
            Err(e) => Err(LowerError::Value(e)),
        },
    }
}

/// Lowering an assignment. Nothing is set for a declaration without a
/// value. A cast that needs no conversion (the source's type casts to the
/// target trivially, or both are scores) sets the value directly; any other
/// cast reads the source and stores the result into the target as the type
/// cast to.
pub open spec fn lower_assign_spec(
    left: MutableValue,
    right: DeclareBinding,
    rv: Seq<(Seq<char>, DataType)>,
    sig: FunctionSignature,
) -> Result<Seq<Lowered>, LowerError> {
    match lift(mut_val_ty(left, rv, sig)) {
        Err(e) => Err(e),
        Ok(lt) => match right {
            DeclareBinding::Null => Ok(Seq::empty()),
            DeclareBinding::Value(v) => set_spec(left, lt, v),
            DeclareBinding::Cast(ty, val) => match lift(mut_val_ty(val, rv, sig)) {
                Err(e) => Err(e),
                Ok(vt) => if data_castable(vt, ty) || (vt is Score && ty is Score) {
                    set_spec(left, lt, Value::Mutable(val))
                } else {
                    match cast_store_spec(left, ty) {
                        Err(e) => Err(e),
                        Ok(st) => match read_spec(val, vt, "1"@) {
                            Err(e) => Err(e),
                            Ok(rd) => Ok(seq![Lowered::CastInto(st, rd)]),
                        },
                    }
                },
            },
        },
    }
}

/// A lowered list of instructions against the one expected
pub open spec fn list_matches(r: Result<Vec<LIRInstruction>, LowerError>, s: Result<Seq<Lowered>, LowerError>) -> bool {
    match (r, s) {
        (Ok(out), Ok(exp)) => all_lowered_as(out@, exp),
        (Err(e), Err(f)) => e == f,
        _ => false,
    }
}

/// Sets a value to an operand
fn set_value(left: MutableValue, lt: &DataType, v: Value) -> (r: Result<Vec<LIRInstruction>, LowerError>)
    ensures
        forall|slt: DataType| ty_same(slt, *lt) ==> list_matches(r, #[trigger] set_spec(left, slt, v)),
{
    let mut out: Vec<LIRInstruction> = Vec::new();
    let ghost sleft = left;
    let ghost sv = v;
    match lt {
        DataType::Score(..) => {
            let l = match left.to_mutable_score_value() {
                Ok(l) => l,
                Err(e) => return Err(LowerError::Value(e)),
            };
            let r = match v.to_score_value() {
                Ok(r) => r,
                Err(e) => return Err(LowerError::Value(e)),
            };
            proof {
                lemma_msv_same_reflexive(l);
                lemma_sv_same_reflexive(r);
            }
            out.push(LIRInstruction::new(LIRInstrKind::SetScore(l, r)));
        },
        DataType::NBT(..) => {
            let l = match left.to_mutable_nbt_value() {
                Ok(l) => l,
                Err(e) => return Err(LowerError::Value(e)),
            };
            let r = match v.to_nbt_value() {
                Ok(r) => r,
                Err(e) => return Err(LowerError::Value(e)),
            };
            proof {
                lemma_mnv_same_reflexive(l);
                lemma_nv_same_reflexive(r);
            }
            out.push(LIRInstruction::new(LIRInstrKind::SetData(l, r)));
        },
    }
    proof {
        assert forall|slt: DataType| ty_same(slt, *lt) implies list_matches(Ok::<Vec<LIRInstruction>, LowerError>(out), #[trigger] set_spec(sleft, slt, sv)) by {
            assert(lowered_as(out@[0], set_spec(sleft, slt, sv)->Ok_0[0]));
        }
    }
    Ok(out)
}

/// Lowers an assignment
fn lower_assign(
    left: MutableValue,
    right: DeclareBinding,
    cx: &LowerBlockCx,
    Ghost(rv): Ghost<Seq<(Seq<char>, DataType)>>,
) -> (r: Result<Vec<LIRInstruction>, LowerError>)
    requires
        regs_match(cx.registers@, rv),
    ensures
        list_matches(r, lower_assign_spec(left, right, rv, cx.sig)),
{
    let lt = match mut_ty(&left, cx, Ghost(rv)) {
        Ok(t) => t,
        Err(e) => return Err(e),
    };
    let ghost slt = mut_val_ty(left, rv, cx.sig)->Ok_0;
    match right {
        DeclareBinding::Null => Ok(Vec::new()),
        DeclareBinding::Value(v) => set_value(left, &lt, v),
        DeclareBinding::Cast(ty, val) => {
            let vt = match mut_ty(&val, cx, Ghost(rv)) {
                Ok(t) => t,
                Err(e) => return Err(e),
            };
            proof {
                let svt = mut_val_ty(val, rv, cx.sig)->Ok_0;
                lemma_data_castable_same(svt, vt, ty);
            }
            if vt.is_trivially_castable(&ty) || (matches!(vt, DataType::Score(..)) && matches!(ty, DataType::Score(..))) {
                set_value(left, &lt, Value::Mutable(val))
            } else {
                let ghost svt = mut_val_ty(val, rv, cx.sig)->Ok_0;
                let st = match cast_store(left, &ty) {
                    Ok(st) => st,
                    Err(e) => return Err(e),
                };
                let rd = match read_value(val, &vt, unit_scale()) {
                    Ok(k) => k,
                    Err(e) => return Err(e),
                };
                let mut mods: Vec<Modifier> = Vec::new();
                mods.push(Modifier::StoreResult(st));
                let mut out: Vec<LIRInstruction> = Vec::new();
                out.push(LIRInstruction::with_modifiers(rd, mods));
                Ok(out)
            }
        },
    }
}

/// Lowering a read of a value with a scale: a score is read as it is, NBT
/// data with the scale
pub open spec fn lower_get_spec(value: MutableValue, scale: Seq<char>, rv: Seq<(Seq<char>, DataType)>, sig: FunctionSignature) -> Result<
    Seq<Lowered>,
    LowerError,
> {
    match lift(mut_val_ty(value, rv, sig)) {
        Err(e) => Err(e),
        Ok(t) => match read_spec(value, t, scale) {
            Err(e) => Err(e),
            Ok(rd) => Ok(seq![Lowered::Read(rd)]),
        },
    }
}

/// Lowers a read of a value with a scale
fn lower_get(value: MutableValue, scale: String, cx: &LowerBlockCx, Ghost(rv): Ghost<Seq<(Seq<char>, DataType)>>) -> (r: Result<
    Vec<LIRInstruction>,
    LowerError,
>)
    requires
        regs_match(cx.registers@, rv),
    ensures
        list_matches(r, lower_get_spec(value, scale@, rv, cx.sig)),
{
    let ghost sv = value;
    let ghost ss = scale@;
    let t = match mut_ty(&value, cx, Ghost(rv)) {
        Ok(t) => t,
        Err(e) => return Err(e),
    };
    let ghost st = mut_val_ty(sv, rv, cx.sig)->Ok_0;
    match read_value(value, &t, scale) {
        Ok(k) => {
            assert(read_matches(Ok(k), read_spec(sv, st, ss)));
            let mut out: Vec<LIRInstruction> = Vec::new();
            out.push(LIRInstruction::new(k));
            assert(lowered_as(out@[0], Lowered::Read(read_spec(sv, st, ss)->Ok_0)));
            Ok(out)
        },
        Err(e) => {
            assert(read_matches(Err(e), read_spec(sv, st, ss)));
            Err(e)
        },
    }
}

/// Lowering a negation: storing into the value, as its type says, whether
/// its score is false
pub open spec fn lower_not_spec(value: MutableValue, rv: Seq<(Seq<char>, DataType)>, sig: FunctionSignature) -> Result<
    Seq<Lowered>,
    LowerError,
> {
    match store_of_spec(value, rv, sig) {
        Err(e) => Err(e),
        Ok(st) => match lift(to_score(value)) {
            Err(e) => Err(e),
            Ok(sv) => Ok(seq![Lowered::NotValue(st, sv)]),
        },
    }
}

/// The score that a value of NBT data stands for, where it is one
pub open spec fn nbt_as_score(n: MutableNBTValue) -> Result<MutableScoreValue, ValueError> {
    match n {
        MutableNBTValue::Reg(r) => Ok(MutableScoreValue::Reg(r)),
        MutableNBTValue::Arg(a) => Ok(MutableScoreValue::Arg(a)),
        MutableNBTValue::ReturnValue(r) => Ok(MutableScoreValue::ReturnValue(r)),
        _ => Err(ValueError::NotScore),
    }
}

/// A value that is NBT data stands for the same score as the data does
proof fn lemma_nbt_as_score(value: MutableValue)
    requires
        to_nbt(value) is Ok,
    ensures
        nbt_as_score(to_nbt(value)->Ok_0) == to_score(value),
{
    match value {
        MutableValue::Property(inner, _) => {},
        MutableValue::Index(inner, _) => {},
        _ => {},
    }
}

/// The score that a value of NBT data stands for, where it is one
fn nbt_score(n: &MutableNBTValue) -> (r: Result<MutableScoreValue, ValueError>)
    ensures
        match (r, nbt_as_score(*n)) {
            (Ok(a), Ok(b)) => msv_same(a, b),
            (Err(e), Err(f)) => e == f,
            _ => false,
        },
{
    match n {
        MutableNBTValue::Reg(r) => Ok(MutableScoreValue::Reg(r.clone())),
        MutableNBTValue::Arg(a) => Ok(MutableScoreValue::Arg(*a)),
        MutableNBTValue::ReturnValue(r) => Ok(MutableScoreValue::ReturnValue(*r)),
        _ => Err(ValueError::NotScore),
    }
}

/// The modifiers of a negation: storing success into the place, under the
/// score being false
fn not_modifiers(loc: StoreModLocation, sv: MutableScoreValue) -> (r: Vec<LIRInstruction>)
    ensures
        forall|st: StoreAt, v: MutableScoreValue|
            #![trigger store_is(loc, st), msv_same(sv, v)]
            store_is(loc, st) && msv_same(sv, v) ==> all_lowered_as(r@, seq![Lowered::NotValue(st, v)]),
{
    let ghost sloc = loc;
    let ghost ssv = sv;
    let mut mods: Vec<Modifier> = Vec::new();
    mods.push(Modifier::StoreSuccess(loc));
    mods.push(
        Modifier::If {
            condition: Box::new(
                IfModCondition::Score(
                    IfScoreCondition::Single {
                        left: ScoreValue::Mutable(sv),
                        right: ScoreValue::Constant(ScoreTypeContents::Bool(false)),
                    },
                ),
            ),
            negate: false,
        },
    );
    let mut out: Vec<LIRInstruction> = Vec::new();
    out.push(LIRInstruction::with_modifiers(LIRInstrKind::NoOp, mods));
    proof {
        assert forall|st: StoreAt, v: MutableScoreValue|
            #![trigger store_is(sloc, st), msv_same(ssv, v)]
            store_is(sloc, st) && msv_same(ssv, v) implies all_lowered_as(out@, seq![Lowered::NotValue(st, v)]) by {
            assert(lowered_as(out@[0], Lowered::NotValue(st, v)));
        }
    }
    out
}

/// Lowers a negation
fn lower_not(value: MutableValue, cx: &LowerBlockCx, Ghost(rv): Ghost<Seq<(Seq<char>, DataType)>>) -> (r: Result<
    Vec<LIRInstruction>,
    LowerError,
>)
    requires
        regs_match(cx.registers@, rv),
    ensures
        list_matches(r, lower_not_spec(value, rv, cx.sig)),
{
    let ghost sval = value;
    let t = match mut_ty(&value, cx, Ghost(rv)) {
        Ok(t) => t,
        Err(e) => return Err(e),
    };
    proof {
        lemma_cast_store_same(sval, mut_val_ty(sval, rv, cx.sig)->Ok_0, t);
    }
    match t {
        DataType::Score(..) => {
            let v = match value.to_mutable_score_value() {
                Ok(v) => v,
                Err(e) => return Err(LowerError::Value(e)),
            };
            let loc = score_store(&v);
            let ghost gv = v;
            proof {
                lemma_msv_same_reflexive(gv);
            }
            let ghost gloc = loc;
            let out = not_modifiers(loc, v);
            assert(store_is(gloc, StoreAt::Score(gv)) && msv_same(gv, gv));
            assert(all_lowered_as(out@, seq![Lowered::NotValue(StoreAt::Score(gv), gv)]));
            assert(lower_not_spec(sval, rv, cx.sig) == Ok::<Seq<Lowered>, LowerError>(seq![Lowered::NotValue(StoreAt::Score(gv), gv)]));
            Ok(out)
        },
        DataType::NBT(nt) => {
            let st = match StoreDataType::from_nbt_ty(&nt) {
                Some(st) => st,
                None => return Err(LowerError::TypeNotAllowed),
            };
            let n = match value.to_mutable_nbt_value() {
                Ok(n) => n,
                Err(e) => return Err(LowerError::Value(e)),
            };
            proof {
                lemma_nbt_as_score(sval);
            }
            let sv = match nbt_score(&n) {
                Ok(sv) => sv,
                Err(e) => {
                    if matches!(n, MutableNBTValue::Property(..) | MutableNBTValue::Index(..)) {
                        return Err(LowerError::UnsupportedStore);
                    }
                    return Err(LowerError::Value(e));
                },
            };
            let ghost gn = n;
            let ghost gsv = sv;
            let ghost spec_sv = to_score(sval)->Ok_0;
            let loc = StoreModLocation::LocalData(n, st, unit_scale());
            proof {
                lemma_mnv_same_reflexive(gn);
            }
            let ghost gloc = loc;
            assert(store_is(gloc, StoreAt::Data(gn, st)));
            assert(msv_same(gsv, spec_sv));
            let out = not_modifiers(loc, sv);
            assert(all_lowered_as(out@, seq![Lowered::NotValue(StoreAt::Data(gn, st), spec_sv)]));
            Ok(out)
        },
    }
}

/// Lowering a return. A constant returns its number, where it is an
/// integer; a value returns what reading it gives.
pub open spec fn lower_return_spec(value: Value, rv: Seq<(Seq<char>, DataType)>, sig: FunctionSignature) -> Result<
    Seq<Lowered>,
    LowerError,
> {
    match value {
        Value::Constant(c) => match contents_i32(c) {
            Some(n) => Ok(seq![Lowered::Kind(LIRInstrKind::ReturnValue(n))]),
            None => Err(LowerError::NotAnInteger),
        },
        Value::Mutable(v) => match lift(mut_val_ty(v, rv, sig)) {
            Err(e) => Err(e),
            Ok(t) => match read_spec(v, t, "1"@) {
                Err(e) => Err(e),
                Ok(rd) => Ok(seq![Lowered::ReturnRead(rd)]),
            },
        },
    }
}

/// Lowers a return
fn lower_return(value: Value, cx: &LowerBlockCx, Ghost(rv): Ghost<Seq<(Seq<char>, DataType)>>) -> (r: Result<
    Vec<LIRInstruction>,
    LowerError,
>)
    requires
        regs_match(cx.registers@, rv),
    ensures
        list_matches(r, lower_return_spec(value, rv, cx.sig)),
{
    let mut out: Vec<LIRInstruction> = Vec::new();
    match value {
        Value::Constant(c) => match c.try_get_i32() {
            Some(n) => {
                out.push(LIRInstruction::new(LIRInstrKind::ReturnValue(n)));
                Ok(out)
            },
            None => Err(LowerError::NotAnInteger),
        },
        Value::Mutable(v) => {
            let t = match mut_ty(&v, cx, Ghost(rv)) {
                Ok(t) => t,
                Err(e) => return Err(e),
            };
            let ghost sv = v;
            let ghost st = mut_val_ty(sv, rv, cx.sig)->Ok_0;
            match read_value(v, &t, unit_scale()) {
                Ok(k) => {
                    out.push(LIRInstruction::new(LIRInstrKind::ReturnRun(Box::new(LIRInstruction::new(k)))));
                    assert(read_matches(Ok(k), read_spec(sv, st, "1"@)));
                    Ok(out)
                },
                Err(e) => {
                    assert(read_matches(Err(e), read_spec(sv, st, "1"@)));
                    Err(e)
                },
            }
        },
    }
}


/// Setting argument `i` of a call to an operand, as its type says
pub open spec fn arg_assign_spec(
    arg: Value,
    i: u16,
    f: String,
    rv: Seq<(Seq<char>, DataType)>,
    sig: FunctionSignature,
) -> Result<Seq<Lowered>, LowerError> {
    match lift(val_ty(arg, rv, sig)) {
        Err(e) => Err(e),
        Ok(t) => lower_assign_spec(MutableValue::CallArg(i, f, t), DeclareBinding::Value(arg), rv, sig),
    }
}

/// Setting a value to return value `i` of a call, as the value's type says
pub open spec fn ret_assign_spec(
    ret: MutableValue,
    i: u16,
    f: String,
    rv: Seq<(Seq<char>, DataType)>,
    sig: FunctionSignature,
) -> Result<Seq<Lowered>, LowerError> {
    match lift(mut_val_ty(ret, rv, sig)) {
        Err(e) => Err(e),
        Ok(t) => lower_assign_spec(
            ret,
            DeclareBinding::Value(Value::Mutable(MutableValue::CallReturnValue(i, f, t))),
            rv,
            sig,
        ),
    }
}

/// Setting the arguments of a call, in order
pub open spec fn args_spec(
    args: Seq<Value>,
    f: String,
    rv: Seq<(Seq<char>, DataType)>,
    sig: FunctionSignature,
) -> Result<Seq<Lowered>, LowerError>
    decreases args.len(),
{
    if args.len() == 0 {
        Ok(Seq::empty())
    } else {
        match args_spec(args.drop_last(), f, rv, sig) {
            Err(e) => Err(e),
            Ok(prev) => match arg_assign_spec(args.last(), (args.len() - 1) as u16, f, rv, sig) {
                Err(e) => Err(e),
                Ok(x) => Ok(prev + x),
            },
        }
    }
}

/// Taking the return values of a call, in order
pub open spec fn rets_spec(
    rets: Seq<MutableValue>,
    f: String,
    rv: Seq<(Seq<char>, DataType)>,
    sig: FunctionSignature,
) -> Result<Seq<Lowered>, LowerError>
    decreases rets.len(),
{
    if rets.len() == 0 {
        Ok(Seq::empty())
    } else {
        match rets_spec(rets.drop_last(), f, rv, sig) {
            Err(e) => Err(e),
            Ok(prev) => match ret_assign_spec(rets.last(), (rets.len() - 1) as u16, f, rv, sig) {
                Err(e) => Err(e),
                Ok(x) => Ok(prev + x),
            },
        }
    }
}

/// Lowering a call: the arguments are set, the function is called, and the
/// return values are taken
pub open spec fn lower_call_spec(call: CallInterface, rv: Seq<(Seq<char>, DataType)>, sig: FunctionSignature) -> Result<
    Seq<Lowered>,
    LowerError,
> {
    match args_spec(call.args@, call.function, rv, sig) {
        Err(e) => Err(e),
        Ok(a) => match rets_spec(call.ret@, call.function, rv, sig) {
            Err(e) => Err(e),
            Ok(b) => Ok(a + seq![Lowered::Kind(LIRInstrKind::Call(call.function))] + b),
        },
    }
}

/// The lowering of an assignment to a call's argument or return value
/// depends on the type of that slot only through its kind
proof fn lemma_assign_slot_kind(
    left: MutableValue,
    v: Value,
    t: DataType,
    t2: DataType,
    i: u16,
    f: String,
    rv: Seq<(Seq<char>, DataType)>,
    sig: FunctionSignature,
)
    requires
        ty_same(t, t2),
    ensures
        lower_assign_spec(MutableValue::CallArg(i, f, t), DeclareBinding::Value(v), rv, sig) == lower_assign_spec(
            MutableValue::CallArg(i, f, t2),
            DeclareBinding::Value(v),
            rv,
            sig,
        ),
        lower_assign_spec(
            left,
            DeclareBinding::Value(Value::Mutable(MutableValue::CallReturnValue(i, f, t))),
            rv,
            sig,
        ) == lower_assign_spec(
            left,
            DeclareBinding::Value(Value::Mutable(MutableValue::CallReturnValue(i, f, t2))),
            rv,
            sig,
        ),
{
}

proof fn lemma_args_err(args: Seq<Value>, k: int, f: String, rv: Seq<(Seq<char>, DataType)>, sig: FunctionSignature)
    requires
        0 <= k <= args.len(),
        args_spec(args.take(k), f, rv, sig) is Err,
    ensures
        args_spec(args, f, rv, sig) == args_spec(args.take(k), f, rv, sig),
    decreases args.len() - k,
{
    if k < args.len() {
        let t = args.take(k + 1);
        assert(t.drop_last() =~= args.take(k));
        lemma_args_err(args, k + 1, f, rv, sig);
    } else {
        assert(args.take(k) =~= args);
    }
}

proof fn lemma_rets_err(rets: Seq<MutableValue>, k: int, f: String, rv: Seq<(Seq<char>, DataType)>, sig: FunctionSignature)
    requires
        0 <= k <= rets.len(),
        rets_spec(rets.take(k), f, rv, sig) is Err,
    ensures
        rets_spec(rets, f, rv, sig) == rets_spec(rets.take(k), f, rv, sig),
    decreases rets.len() - k,
{
    if k < rets.len() {
        let t = rets.take(k + 1);
        assert(t.drop_last() =~= rets.take(k));
        lemma_rets_err(rets, k + 1, f, rv, sig);
    } else {
        assert(rets.take(k) =~= rets);
    }
}

/// Appends the instructions of one part of a lowering
fn append_lowered(
    out: &mut Vec<LIRInstruction>,
    more: Vec<LIRInstruction>,
    Ghost(exp): Ghost<Seq<Lowered>>,
    Ghost(more_exp): Ghost<Seq<Lowered>>,
)
    requires
        all_lowered_as(old(out)@, exp),
        all_lowered_as(more@, more_exp),
    ensures
        all_lowered_as(final(out)@, exp + more_exp),
{
    let mut more = more;
    let ghost m = more@;
    out.append(&mut more);
    assert forall|i: int| 0 <= i < final(out)@.len() implies lowered_as(#[trigger] final(out)@[i], (exp + more_exp)[i]) by {
        if i >= old(out)@.len() {
            assert(final(out)@[i] == m[i - old(out)@.len()]);
        }
    }
}

/// Lowers a call
fn lower_call(call: CallInterface, cx: &LowerBlockCx, Ghost(rv): Ghost<Seq<(Seq<char>, DataType)>>) -> (r: Result<
    Vec<LIRInstruction>,
    LowerError,
>)
    requires
        regs_match(cx.registers@, rv),
        call.args@.len() <= 65536,
        call.ret@.len() <= 65536,
    ensures
        list_matches(r, lower_call_spec(call, rv, cx.sig)),
{
    let ghost scall = call;
    let CallInterface { function, args, ret } = call;
    lower_call_parts(function, args, ret, cx, Ghost(rv), Ghost(scall))
}

/// Lowers a call of a function with its arguments and return values
fn lower_call_parts(
    function: String,
    args: Vec<Value>,
    ret: Vec<MutableValue>,
    cx: &LowerBlockCx,
    Ghost(rv): Ghost<Seq<(Seq<char>, DataType)>>,
    Ghost(scall): Ghost<CallInterface>,
) -> (r: Result<Vec<LIRInstruction>, LowerError>)
    requires
        regs_match(cx.registers@, rv),
        scall.function == function,
        scall.args@ == args@,
        scall.ret@ == ret@,
        args@.len() <= 65536,
        ret@.len() <= 65536,
    ensures
        list_matches(r, lower_call_spec(scall, rv, cx.sig)),
{
    let ghost all_args = args@;
    let ghost all_rets = ret@;
    let mut args = args;
    let mut ret = ret;
    let mut out: Vec<LIRInstruction> = Vec::new();
    let n = args.len();
    let mut i: usize = 0;
    assert(all_args.take(0) =~= Seq::<Value>::empty());
    while i < n
        invariant
            n == all_args.len(),
            n <= 65536,
            i <= n,
            args@ == all_args.skip(i as int),
            regs_match(cx.registers@, rv),
            all_args == scall.args@,
            function == scall.function,
            args_spec(all_args.take(i as int), function, rv, cx.sig) is Ok,
            all_lowered_as(out@, args_spec(all_args.take(i as int), function, rv, cx.sig)->Ok_0),
        decreases n - i,
    {
        let arg = args.remove(0);
        let ghost sarg = arg;
        assert(sarg == all_args[i as int]);
        assert(all_args.take(i as int + 1).drop_last() =~= all_args.take(i as int));
        assert(all_args.take(i as int + 1).last() == sarg);
        assert(args_spec(all_args.take(i as int + 1), function, rv, cx.sig) == match arg_assign_spec(sarg, i as u16, function, rv, cx.sig) {
            Err(e) => Err(e),
            Ok(x) => Ok(args_spec(all_args.take(i as int), function, rv, cx.sig)->Ok_0 + x),
        });
        assert(args@ =~= all_args.skip(i as int + 1));
        let t = match val_ty_of(&arg, cx, Ghost(rv)) {
            Ok(t) => t,
            Err(e) => {
                proof {
                    assert(lift(val_ty(sarg, rv, cx.sig)) == Err::<DataType, LowerError>(e));
                    assert(arg_assign_spec(sarg, i as u16, function, rv, cx.sig) == Err::<Seq<Lowered>, LowerError>(e));
                    assert(args_spec(all_args.take(i as int + 1), function, rv, cx.sig) == Err::<Seq<Lowered>, LowerError>(e));
                    lemma_args_err(all_args, i as int + 1, function, rv, cx.sig);
                    assert(args_spec(all_args, function, rv, cx.sig) == Err::<Seq<Lowered>, LowerError>(e));
                }
                return Err(e);
            },
        };
        let ghost st = val_ty(sarg, rv, cx.sig)->Ok_0;
        proof {
            lemma_assign_slot_kind(MutableValue::Score(arbitrary()), sarg, st, t, i as u16, function, rv, cx.sig);
        }
        let more = match lower_assign(MutableValue::CallArg(i as u16, function.clone(), t), DeclareBinding::Value(arg), cx, Ghost(rv)) {
            Ok(m) => m,
            Err(e) => {
                proof {
                    lemma_args_err(all_args, i as int + 1, function, rv, cx.sig);
                }
                return Err(e);
            },
        };
        let ghost prev = args_spec(all_args.take(i as int), function, rv, cx.sig)->Ok_0;
        append_lowered(&mut out, more, Ghost(prev), Ghost(arg_assign_spec(sarg, i as u16, function, rv, cx.sig)->Ok_0));
        i = i + 1;
    }
    assert(all_args.take(n as int) =~= all_args);
    let ghost a = args_spec(all_args, function, rv, cx.sig)->Ok_0;
    let ghost before_call = out@;
    out.push(LIRInstruction::new(LIRInstrKind::Call(function.clone())));
    let ghost with_call = a + seq![Lowered::Kind(LIRInstrKind::Call(function))];
    assert(all_lowered_as(out@, with_call)) by {
        assert forall|q: int| 0 <= q < out@.len() implies lowered_as(#[trigger] out@[q], with_call[q]) by {
            if q < a.len() {
                assert(out@[q] == before_call[q]);
            }
        }
    }
    let m = ret.len();
    let mut j: usize = 0;
    assert(all_rets.take(0) =~= Seq::<MutableValue>::empty());
    while j < m
        invariant
            m == all_rets.len(),
            m <= 65536,
            j <= m,
            ret@ == all_rets.skip(j as int),
            regs_match(cx.registers@, rv),
            all_rets == scall.ret@,
            all_args == scall.args@,
            function == scall.function,
            args_spec(all_args, function, rv, cx.sig) == Ok::<Seq<Lowered>, LowerError>(a),
            with_call == a + seq![Lowered::Kind(LIRInstrKind::Call(function))],
            rets_spec(all_rets.take(j as int), function, rv, cx.sig) is Ok,
            all_lowered_as(out@, with_call + rets_spec(all_rets.take(j as int), function, rv, cx.sig)->Ok_0),
        decreases m - j,
    {
        let rv_val = ret.remove(0);
        let ghost sret = rv_val;
        assert(sret == all_rets[j as int]);
        assert(all_rets.take(j as int + 1).drop_last() =~= all_rets.take(j as int));
        assert(all_rets.take(j as int + 1).last() == sret);
        assert(rets_spec(all_rets.take(j as int + 1), function, rv, cx.sig) == match ret_assign_spec(sret, j as u16, function, rv, cx.sig) {
            Err(e) => Err(e),
            Ok(x) => Ok(rets_spec(all_rets.take(j as int), function, rv, cx.sig)->Ok_0 + x),
        });
        assert(ret@ =~= all_rets.skip(j as int + 1));
        let t = match mut_ty(&rv_val, cx, Ghost(rv)) {
            Ok(t) => t,
            Err(e) => {
                proof {
                    lemma_rets_err(all_rets, j as int + 1, function, rv, cx.sig);
                }
                return Err(e);
            },
        };
        let ghost st = mut_val_ty(sret, rv, cx.sig)->Ok_0;
        proof {
            lemma_assign_slot_kind(sret, Value::Mutable(sret), st, t, j as u16, function, rv, cx.sig);
        }
        let from = Value::Mutable(MutableValue::CallReturnValue(j as u16, function.clone(), t));
        let more = match lower_assign(rv_val, DeclareBinding::Value(from), cx, Ghost(rv)) {
            Ok(x) => x,
            Err(e) => {
                proof {
                    lemma_rets_err(all_rets, j as int + 1, function, rv, cx.sig);
                }
                return Err(e);
            },
        };
        let ghost prev = with_call + rets_spec(all_rets.take(j as int), function, rv, cx.sig)->Ok_0;
        append_lowered(&mut out, more, Ghost(prev), Ghost(ret_assign_spec(sret, j as u16, function, rv, cx.sig)->Ok_0));
        assert(prev + ret_assign_spec(sret, j as u16, function, rv, cx.sig)->Ok_0 =~= with_call + rets_spec(all_rets.take(j as int + 1), function, rv, cx.sig)->Ok_0);
        j = j + 1;
    }
    assert(all_rets.take(m as int) =~= all_rets);
    Ok(out)
}


/// Lowering a logical and of two booleans: their product
pub open spec fn lower_and_spec(left: MutableValue, right: Value) -> Result<Seq<Lowered>, LowerError> {
    match lift(to_score(left)) {
        Err(e) => Err(e),
        Ok(l) => match lift(to_score_val(right)) {
            Err(e) => Err(e),
            Ok(r) => Ok(seq![Lowered::Kind(LIRInstrKind::MulScore(l, r))]),
        },
    }
}

/// Lowering a logical or of two booleans: their sum, divided by itself
pub open spec fn lower_or_spec(left: MutableValue, right: Value) -> Result<Seq<Lowered>, LowerError> {
    match lift(to_score(left)) {
        Err(e) => Err(e),
        Ok(l) => match lift(to_score_val(right)) {
            Err(e) => Err(e),
            Ok(r) => Ok(
                seq![
                    Lowered::Kind(LIRInstrKind::AddScore(l, r)),
                    Lowered::Kind(LIRInstrKind::DivScore(l, ScoreValue::Mutable(l))),
                ],
            ),
        },
    }
}

/// The `if` modifier of a lowered condition and whether it is negated
pub open spec fn if_mod(c: (IfModCondition, bool)) -> Modifier {
    Modifier::If { condition: Box::new(c.0), negate: c.1 }
}

/// Comparing a score with a bound: above it where `above`, else below it
pub open spec fn range_cond_spec(l: Value, r: Value, above: bool, inclusive: bool) -> Result<
    Seq<(IfModCondition, bool)>,
    LowerError,
> {
    match lift(to_score_val(l)) {
        Err(e) => Err(e),
        Ok(s) => match lift(to_score_val(r)) {
            Err(e) => Err(e),
            Ok(b) => Ok(
                seq![
                    (
                        IfModCondition::Score(
                            if above {
                                IfScoreCondition::Range {
                                    score: s,
                                    left: IfScoreRangeEnd::Fixed { value: b, inclusive },
                                    right: IfScoreRangeEnd::Infinite,
                                }
                            } else {
                                IfScoreCondition::Range {
                                    score: s,
                                    left: IfScoreRangeEnd::Infinite,
                                    right: IfScoreRangeEnd::Fixed { value: b, inclusive },
                                }
                            },
                        ),
                        false,
                    ),
                ],
            ),
        },
    }
}

/// Checking a boolean score for a value
pub open spec fn bool_cond_spec(v: Value, check: bool, rv: Seq<(Seq<char>, DataType)>, sig: FunctionSignature) -> Result<
    Seq<(IfModCondition, bool)>,
    LowerError,
> {
    match lift(val_ty(v, rv, sig)) {
        Err(e) => Err(e),
        Ok(DataType::Score(_)) => match lift(to_score_val(v)) {
            Err(e) => Err(e),
            Ok(s) => Ok(
                seq![
                    (
                        IfModCondition::Score(
                            IfScoreCondition::Single {
                                left: s,
                                right: ScoreValue::Constant(ScoreTypeContents::Bool(check)),
                            },
                        ),
                        false,
                    ),
                ],
            ),
        },
        Ok(DataType::NBT(_)) => Err(LowerError::TypeNotAllowed),
    }
}

/// Lowering a condition, given the registers: the conditions of `if`
/// modifiers that must all hold, each with whether it is negated. The
/// negation of a condition that needs several modifiers needs them joined
/// by an or, whose lowering is chosen by a cost model in floating point,
/// which this library does not have.
pub open spec fn lower_cond_spec(c: Condition, rv: Seq<(Seq<char>, DataType)>, sig: FunctionSignature) -> Result<
    Seq<(IfModCondition, bool)>,
    LowerError,
>
    decreases c,
{
    match c {
        Condition::Not(inner) => match lower_cond_spec(*inner, rv, sig) {
            Err(e) => Err(e),
            Ok(cs) => if cs.len() == 1 {
                Ok(seq![(cs[0].0, !cs[0].1)])
            } else {
                Err(LowerError::Unrepresentable)
            },
        },
        Condition::And(l, r) => match lower_cond_spec(*l, rv, sig) {
            Err(e) => Err(e),
            Ok(a) => match lower_cond_spec(*r, rv, sig) {
                Err(e) => Err(e),
                Ok(b) => Ok(a + b),
            },
        },
        Condition::Equal(l, r) => match lift(val_ty(l, rv, sig)) {
            Err(e) => Err(e),
            Ok(lt) => match lift(val_ty(r, rv, sig)) {
                Err(e) => Err(e),
                Ok(rt) => if lt is Score && rt is Score {
                    match lift(to_score_val(l)) {
                        Err(e) => Err(e),
                        Ok(a) => match lift(to_score_val(r)) {
                            Err(e) => Err(e),
                            Ok(b) => Ok(seq![(IfModCondition::Score(IfScoreCondition::Single { left: a, right: b }), false)]),
                        },
                    }
                } else {
                    Err(LowerError::TypeNotAllowed)
                },
            },
        },
        Condition::Exists(v) => match lift(val_ty(v, rv, sig)) {
            Err(e) => Err(e),
            Ok(DataType::Score(_)) => match lift(to_score_val(v)) {
                Err(e) => Err(e),
                Ok(ScoreValue::Constant(_)) => Ok(seq![(IfModCondition::Const(true), false)]),
                Ok(ScoreValue::Mutable(m)) => Ok(
                    seq![
                        (
                            IfModCondition::Score(
                                IfScoreCondition::Range {
                                    score: ScoreValue::Mutable(m),
                                    left: IfScoreRangeEnd::Infinite,
                                    right: IfScoreRangeEnd::Infinite,
                                },
                            ),
                            false,
                        ),
                    ],
                ),
            },
            Ok(DataType::NBT(_)) => match lift(to_nbt_val(v)) {
                Err(e) => Err(e),
                Ok(NBTValue::Constant(_)) => Ok(seq![(IfModCondition::Const(true), false)]),
                Ok(NBTValue::Mutable(m)) => Ok(seq![(IfModCondition::DataExists(m), false)]),
            },
        },
        Condition::GreaterThan(l, r) => range_cond_spec(l, r, true, false),
        Condition::GreaterThanOrEqual(l, r) => range_cond_spec(l, r, true, true),
        Condition::LessThan(l, r) => range_cond_spec(l, r, false, false),
        Condition::LessThanOrEqual(l, r) => range_cond_spec(l, r, false, true),
        Condition::Bool(v) => bool_cond_spec(v, true, rv, sig),
        Condition::NotBool(v) => bool_cond_spec(v, false, rv, sig),
        Condition::Entity(t) => Ok(seq![(IfModCondition::Entity(t), false)]),
        Condition::Predicate(p) => Ok(seq![(IfModCondition::Predicate(p), false)]),
        Condition::Biome(loc, b) => Ok(seq![(IfModCondition::Biome(loc, b), false)]),
        Condition::Loaded(loc) => Ok(seq![(IfModCondition::Loaded(loc), false)]),
        Condition::Dimension(d) => Ok(seq![(IfModCondition::Dimension(d), false)]),
    }
}

/// A condition of one modifier as a list
fn one_cond(c: IfModCondition, negate: bool) -> (r: Vec<(IfModCondition, bool)>)
    ensures
        r@ == seq![(c, negate)],
{
    let mut out: Vec<(IfModCondition, bool)> = Vec::new();
    out.push((c, negate));
    assert(out@ =~= seq![(c, negate)]);
    out
}

/// Compares a score with a bound
fn range_cond(l: Value, r: Value, above: bool, inclusive: bool) -> (out: Result<Vec<(IfModCondition, bool)>, LowerError>)
    ensures
        match (out, range_cond_spec(l, r, above, inclusive)) {
            (Ok(v), Ok(t)) => v@ == t,
            (Err(e), Err(f)) => e == f,
            _ => false,
        },
{
    let s = match l.to_score_value() {
        Ok(s) => s,
        Err(e) => return Err(LowerError::Value(e)),
    };
    let b = match r.to_score_value() {
        Ok(b) => b,
        Err(e) => return Err(LowerError::Value(e)),
    };
    let fixed = IfScoreRangeEnd::Fixed { value: b, inclusive };
    let cond = if above {
        IfScoreCondition::Range { score: s, left: fixed, right: IfScoreRangeEnd::Infinite }
    } else {
        IfScoreCondition::Range { score: s, left: IfScoreRangeEnd::Infinite, right: fixed }
    };
    Ok(one_cond(IfModCondition::Score(cond), false))
}

/// Checks a boolean score for a value
fn bool_cond(v: Value, check: bool, cx: &LowerBlockCx, Ghost(rv): Ghost<Seq<(Seq<char>, DataType)>>) -> (r: Result<
    Vec<(IfModCondition, bool)>,
    LowerError,
>)
    requires
        regs_match(cx.registers@, rv),
    ensures
        match (r, bool_cond_spec(v, check, rv, cx.sig)) {
            (Ok(c), Ok(t)) => c@ == t,
            (Err(e), Err(f)) => e == f,
            _ => false,
        },
{
    let t = match val_ty_of(&v, cx, Ghost(rv)) {
        Ok(t) => t,
        Err(e) => return Err(e),
    };
    match t {
        DataType::Score(..) => match v.to_score_value() {
            Ok(s) => Ok(
                one_cond(
                    IfModCondition::Score(
                        IfScoreCondition::Single { left: s, right: ScoreValue::Constant(ScoreTypeContents::Bool(check)) },
                    ),
                    false,
                ),
            ),
            Err(e) => Err(LowerError::Value(e)),
        },
        DataType::NBT(..) => Err(LowerError::TypeNotAllowed),
    }
}

/// Lowers a condition: the conditions of `if` modifiers that must all hold,
/// each with whether it is negated
fn lower_condition(c: Condition, cx: &LowerBlockCx, Ghost(rv): Ghost<Seq<(Seq<char>, DataType)>>) -> (out: Result<
    Vec<(IfModCondition, bool)>,
    LowerError,
>)
    requires
        regs_match(cx.registers@, rv),
    ensures
        match (out, lower_cond_spec(c, rv, cx.sig)) {
            (Ok(v), Ok(t)) => v@ == t,
            (Err(e), Err(f)) => e == f,
            _ => false,
        },
    decreases c,
{
    let ghost sc = c;
    match c {
        Condition::Not(inner) => {
            assert(decreases_to!(sc => *inner));
            match lower_condition(*inner, cx, Ghost(rv)) {
                Ok(v) => if v.len() == 1 {
                    let mut v = v;
                    let (m, n) = v.pop().unwrap();
                    Ok(one_cond(m, !n))
                } else {
                    Err(LowerError::Unrepresentable)
                },
                Err(e) => Err(e),
            }
        },
        Condition::And(l, r) => {
            assert(decreases_to!(sc => *l));
            assert(decreases_to!(sc => *r));
            let mut a = match lower_condition(*l, cx, Ghost(rv)) {
                Ok(a) => a,
                Err(e) => return Err(e),
            };
            let mut b = match lower_condition(*r, cx, Ghost(rv)) {
                Ok(b) => b,
                Err(e) => return Err(e),
            };
            a.append(&mut b);
            Ok(a)
        },
        Condition::Equal(l, r) => {
            let lt = match val_ty_of(&l, cx, Ghost(rv)) {
                Ok(t) => t,
                Err(e) => return Err(e),
            };
            let rt = match val_ty_of(&r, cx, Ghost(rv)) {
                Ok(t) => t,
                Err(e) => return Err(e),
            };
            match (lt, rt) {
                (DataType::Score(..), DataType::Score(..)) => {
                    let a = match l.to_score_value() {
                        Ok(a) => a,
                        Err(e) => return Err(LowerError::Value(e)),
                    };
                    let b = match r.to_score_value() {
                        Ok(b) => b,
                        Err(e) => return Err(LowerError::Value(e)),
                    };
                    Ok(one_cond(IfModCondition::Score(IfScoreCondition::Single { left: a, right: b }), false))
                },
                _ => Err(LowerError::TypeNotAllowed),
            }
        },
        Condition::Exists(v) => {
            let t = match val_ty_of(&v, cx, Ghost(rv)) {
                Ok(t) => t,
                Err(e) => return Err(e),
            };
            match t {
                DataType::Score(..) => match v.to_score_value() {
                    Ok(ScoreValue::Constant(_)) => Ok(one_cond(IfModCondition::Const(true), false)),
                    Ok(ScoreValue::Mutable(m)) => Ok(
                        one_cond(
                            IfModCondition::Score(
                                IfScoreCondition::Range {
                                    score: ScoreValue::Mutable(m),
                                    left: IfScoreRangeEnd::Infinite,
                                    right: IfScoreRangeEnd::Infinite,
                                },
                            ),
                            false,
                        ),
                    ),
                    Err(e) => Err(LowerError::Value(e)),
                },
                DataType::NBT(..) => match v.to_nbt_value() {
                    Ok(NBTValue::Constant(_)) => Ok(one_cond(IfModCondition::Const(true), false)),
                    Ok(NBTValue::Mutable(m)) => Ok(one_cond(IfModCondition::DataExists(m), false)),
                    Err(e) => Err(LowerError::Value(e)),
                },
            }
        },
        Condition::GreaterThan(l, r) => range_cond(l, r, true, false),
        Condition::GreaterThanOrEqual(l, r) => range_cond(l, r, true, true),
        Condition::LessThan(l, r) => range_cond(l, r, false, false),
        Condition::LessThanOrEqual(l, r) => range_cond(l, r, false, true),
        Condition::Bool(v) => bool_cond(v, true, cx, Ghost(rv)),
        Condition::NotBool(v) => bool_cond(v, false, cx, Ghost(rv)),
        Condition::Entity(t) => Ok(one_cond(IfModCondition::Entity(t), false)),
        Condition::Predicate(p) => Ok(one_cond(IfModCondition::Predicate(p), false)),
        Condition::Biome(loc, b) => Ok(one_cond(IfModCondition::Biome(loc, b), false)),
        Condition::Loaded(loc) => Ok(one_cond(IfModCondition::Loaded(loc), false)),
        Condition::Dimension(d) => Ok(one_cond(IfModCondition::Dimension(d), false)),
    }
}

/// Lowering one instruction of the mid-level IR, given the registers and
/// the extra-register counter before it: the instructions it becomes, and
/// the registers and the counter after it
pub open spec fn lower_kind_spec(
    kind: MIRInstrKind,
    rv: Seq<(Seq<char>, DataType)>,
    extra: nat,
    sig: FunctionSignature,
) -> Result<(Seq<Lowered>, Seq<(Seq<char>, DataType)>, nat), LowerError> {
    match kind {
        MIRInstrKind::Declare { left, ty } => Ok((Seq::empty(), regs_insert(rv, left@, ty), extra)),
        MIRInstrKind::Assign { left, right } => outcome(lower_assign_spec(left, right, rv, sig), rv, extra),
        MIRInstrKind::Add { left, right } => one_kind(lower_op_spec(DoubleOperationKind::Add, left, right, rv, sig), rv, extra),
        MIRInstrKind::Sub { left, right } => one_kind(lower_op_spec(DoubleOperationKind::Sub, left, right, rv, sig), rv, extra),
        MIRInstrKind::Mul { left, right } => one_kind(lower_op_spec(DoubleOperationKind::Mul, left, right, rv, sig), rv, extra),
        MIRInstrKind::Div { left, right } => one_kind(lower_op_spec(DoubleOperationKind::Div, left, right, rv, sig), rv, extra),
        MIRInstrKind::Mod { left, right } => one_kind(lower_op_spec(DoubleOperationKind::Mod, left, right, rv, sig), rv, extra),
        MIRInstrKind::Min { left, right } => one_kind(lower_op_spec(DoubleOperationKind::Min, left, right, rv, sig), rv, extra),
        MIRInstrKind::Max { left, right } => one_kind(lower_op_spec(DoubleOperationKind::Max, left, right, rv, sig), rv, extra),
        MIRInstrKind::Swap { left, right } => lower_swap_spec(left, right, rv, sig, extra),
        MIRInstrKind::Remove { val } => one_kind(lower_rm_spec(val, rv, sig), rv, extra),
        MIRInstrKind::Abs { val } => match lower_abs_spec(val, rv, sig) {
            Err(e) => Err(e),
            Ok(v) => Ok((seq![Lowered::Abs(v)], rv, extra)),
        },
        MIRInstrKind::Pow { base, exp } => lower_pow_spec(base, exp, rv, extra),
        MIRInstrKind::Get { value, scale } => outcome(lower_get_spec(value, scale@, rv, sig), rv, extra),
        MIRInstrKind::GetConst { value } => Ok((seq![Lowered::Kind(LIRInstrKind::GetConst(value))], rv, extra)),
        MIRInstrKind::Merge { left, right } => one_kind(lower_op_spec(DoubleOperationKind::Merge, left, right, rv, sig), rv, extra),
        MIRInstrKind::Push { left, right } => one_kind(lower_op_spec(DoubleOperationKind::Push, left, right, rv, sig), rv, extra),
        MIRInstrKind::PushFront { left, right } => one_kind(
            lower_op_spec(DoubleOperationKind::PushFront, left, right, rv, sig),
            rv,
            extra,
        ),
        MIRInstrKind::Insert { left, right, index } => one_kind(
            lower_op_spec(DoubleOperationKind::Insert(index), left, right, rv, sig),
            rv,
            extra,
        ),
        MIRInstrKind::Not { value } => outcome(lower_not_spec(value, rv, sig), rv, extra),
        MIRInstrKind::And { left, right } => outcome(lower_and_spec(left, right), rv, extra),
        MIRInstrKind::Or { left, right } => outcome(lower_or_spec(left, right), rv, extra),
        MIRInstrKind::Call { call } => outcome(lower_call_spec(call, rv, sig), rv, extra),
        MIRInstrKind::CallExtern { func } => Ok((seq![Lowered::Kind(LIRInstrKind::Call(func))], rv, extra)),
        MIRInstrKind::ReturnValue { index, value } => outcome(
            lower_assign_spec(MutableValue::ReturnValue(index), DeclareBinding::Value(value), rv, sig),
            rv,
            extra,
        ),
        MIRInstrKind::Return { value } => outcome(lower_return_spec(value, rv, sig), rv, extra),
        MIRInstrKind::NoOp => Ok((Seq::empty(), rv, extra)),
        MIRInstrKind::Command { command } => Ok((seq![Lowered::Kind(LIRInstrKind::Command(command))], rv, extra)),
        MIRInstrKind::Comment { comment } => Ok((seq![Lowered::Kind(LIRInstrKind::Comment(comment))], rv, extra)),
        MIRInstrKind::MC(instr) => Ok((seq![Lowered::Kind(LIRInstrKind::MC(instr))], rv, extra)),
        MIRInstrKind::Use { val } => Ok((seq![Lowered::Kind(LIRInstrKind::Use(val))], rv, extra)),
        // Instructions with a block are lowered with their block, by `lower_kind_deep`
        MIRInstrKind::If { .. } | MIRInstrKind::ReturnRun { .. } | MIRInstrKind::As { .. } | MIRInstrKind::At { .. }
        | MIRInstrKind::StoreResult { .. } | MIRInstrKind::StoreSuccess { .. } => Err(LowerError::Unrepresentable),
    }
}

/// Whether an instruction holds a block of instructions
pub open spec fn is_subblock(kind: MIRInstrKind) -> bool {
    ||| kind is If
    ||| kind is ReturnRun
    ||| kind is As
    ||| kind is At
    ||| kind is StoreResult
    ||| kind is StoreSuccess
}

/// Calls with at most as many arguments and return values as a 16-bit
/// index can number, in an instruction or anywhere in its block
pub open spec fn kind_fits(kind: MIRInstrKind) -> bool
    decreases kind,
{
    match kind {
        MIRInstrKind::Call { call } => call.args@.len() <= 65536 && call.ret@.len() <= 65536,
        MIRInstrKind::If { body, .. } => instrs_fit(body.contents@),
        MIRInstrKind::ReturnRun { body } => instrs_fit(body.contents@),
        MIRInstrKind::As { body, .. } => instrs_fit(body.contents@),
        MIRInstrKind::At { body, .. } => instrs_fit(body.contents@),
        MIRInstrKind::StoreResult { body, .. } => instrs_fit(body.contents@),
        MIRInstrKind::StoreSuccess { body, .. } => instrs_fit(body.contents@),
        _ => true,
    }
}

/// Whether every instruction of a list fits, blocks included
pub open spec fn instrs_fit(instrs: Seq<MIRInstruction>) -> bool
    decreases instrs,
{
    if instrs.len() == 0 {
        true
    } else {
        instrs_fit(instrs.drop_last()) && kind_fits(instrs.last().kind)
    }
}

/// How many instructions an instruction stands for, those of its block
/// included
pub open spec fn kind_size(kind: MIRInstrKind) -> nat
    decreases kind,
{
    match kind {
        MIRInstrKind::If { body, .. } => 1 + instrs_size(body.contents@),
        MIRInstrKind::ReturnRun { body } => 1 + instrs_size(body.contents@),
        MIRInstrKind::As { body, .. } => 1 + instrs_size(body.contents@),
        MIRInstrKind::At { body, .. } => 1 + instrs_size(body.contents@),
        MIRInstrKind::StoreResult { body, .. } => 1 + instrs_size(body.contents@),
        MIRInstrKind::StoreSuccess { body, .. } => 1 + instrs_size(body.contents@),
        _ => 1,
    }
}

/// How many instructions a list stands for, those of blocks included
pub open spec fn instrs_size(instrs: Seq<MIRInstruction>) -> nat
    decreases instrs,
{
    if instrs.len() == 0 {
        0
    } else {
        instrs_size(instrs.drop_last()) + kind_size(instrs.last().kind)
    }
}

proof fn lemma_instrs_prefix(instrs: Seq<MIRInstruction>, k: int)
    requires
        0 <= k <= instrs.len(),
    ensures
        instrs_size(instrs.take(k)) <= instrs_size(instrs),
        instrs_fit(instrs) ==> instrs_fit(instrs.take(k)),
        k < instrs.len() ==> instrs_size(instrs.take(k + 1)) == instrs_size(instrs.take(k)) + kind_size(instrs[k].kind),
        k < instrs.len() ==> (instrs_fit(instrs.take(k + 1)) == (instrs_fit(instrs.take(k)) && kind_fits(instrs[k].kind))),
    decreases instrs.len() - k,
{
    if k < instrs.len() {
        assert(instrs.take(k + 1).drop_last() =~= instrs.take(k));
        lemma_instrs_prefix(instrs, k + 1);
    } else {
        assert(instrs.take(k) =~= instrs);
    }
}

/// One instruction kind as a lowered list
fn single(kind: LIRInstrKind) -> (r: Vec<LIRInstruction>)
    ensures
        r@.len() == 1,
        r@[0].kind == kind,
        r@[0].modifiers@.len() == 0,
{
    let mut out: Vec<LIRInstruction> = Vec::new();
    out.push(LIRInstruction::new(kind));
    out
}

/// Lowers one instruction that holds no block
#[verifier::spinoff_prover]
pub fn lower_kind(kind: MIRInstrKind, cx: &mut LowerBlockCx, Ghost(rv): Ghost<Seq<(Seq<char>, DataType)>>) -> (r: Result<
    Vec<LIRInstruction>,
    LowerError,
>)
    requires
        regs_match(old(cx).registers@, rv),
        old(cx).additional_reg_count < u32::MAX,
        kind_fits(kind),
        !is_subblock(kind),
    ensures
        lowered_into(r, lower_kind_spec(kind, rv, old(cx).additional_reg_count as nat, old(cx).sig), *final(cx)),
        final(cx).sig == old(cx).sig,
        final(cx).func_id == old(cx).func_id,
        final(cx).additional_reg_count <= old(cx).additional_reg_count + 1,
        match kind {
            MIRInstrKind::Pow { base, exp } => r is Ok && !(to_score(base)->Ok_0 matches MutableScoreValue::Reg(q)
                && q@ == temp_reg_name(old(cx).additional_reg_count as nat)) ==> computes_power(
                r->Ok_0@,
                to_score(base)->Ok_0,
                temp_reg_name(old(cx).additional_reg_count as nat),
                exp,
            ),
            MIRInstrKind::Abs { val } => r is Ok ==> r->Ok_0@.len() == 1 && computes_abs(
                r->Ok_0@[0],
                to_score(val)->Ok_0,
            ),
            _ => true,
        },
{
    let ghost extra = cx.additional_reg_count as nat;
    let ghost sig = cx.sig;
    let ghost skind = kind;
    match kind {
        MIRInstrKind::Declare { left, ty } => {
            let ghost sty = ty;
            let ghost sid = left@;
            proof {
                lemma_ty_same_reflexive(sty);
            }
            insert_register(&mut cx.registers, Register { id: left, ty }, Ghost(rv), Ghost(sty));
            Ok(Vec::new())
        },
        MIRInstrKind::Assign { left, right } => lower_assign(left, right, cx, Ghost(rv)),
        MIRInstrKind::Add { left, right } => lower_op_kind(DoubleOperationKind::Add, left, right, cx, Ghost(rv)),
        MIRInstrKind::Sub { left, right } => lower_op_kind(DoubleOperationKind::Sub, left, right, cx, Ghost(rv)),
        MIRInstrKind::Mul { left, right } => lower_op_kind(DoubleOperationKind::Mul, left, right, cx, Ghost(rv)),
        MIRInstrKind::Div { left, right } => lower_op_kind(DoubleOperationKind::Div, left, right, cx, Ghost(rv)),
        MIRInstrKind::Mod { left, right } => lower_op_kind(DoubleOperationKind::Mod, left, right, cx, Ghost(rv)),
        MIRInstrKind::Min { left, right } => lower_op_kind(DoubleOperationKind::Min, left, right, cx, Ghost(rv)),
        MIRInstrKind::Max { left, right } => lower_op_kind(DoubleOperationKind::Max, left, right, cx, Ghost(rv)),
        MIRInstrKind::Merge { left, right } => lower_op_kind(DoubleOperationKind::Merge, left, right, cx, Ghost(rv)),
        MIRInstrKind::Push { left, right } => lower_op_kind(DoubleOperationKind::Push, left, right, cx, Ghost(rv)),
        MIRInstrKind::PushFront { left, right } => lower_op_kind(DoubleOperationKind::PushFront, left, right, cx, Ghost(rv)),
        MIRInstrKind::Insert { left, right, index } => lower_op_kind(
            DoubleOperationKind::Insert(index),
            left,
            right,
            cx,
            Ghost(rv),
        ),
        MIRInstrKind::Swap { left, right } => lower_swap(left, right, cx, Ghost(rv)),
        MIRInstrKind::Remove { val } => match lower_rm(val, cx, Ghost(rv)) {
            Ok(k) => {
                let out = single(k);
                assert(lowered_as(out@[0], lower_kind_spec(skind, rv, extra, sig)->Ok_0.0[0]));
                Ok(out)
            },
            Err(e) => Err(e),
        },
        MIRInstrKind::Get { value, scale } => lower_get(value, scale, cx, Ghost(rv)),
        MIRInstrKind::Abs { val } => match lower_abs(val, cx, Ghost(rv)) {
            Ok(i) => {
                let mut out: Vec<LIRInstruction> = Vec::new();
                out.push(i);
                assert(lowered_as(out@[0], lower_kind_spec(skind, rv, extra, sig)->Ok_0.0[0]));
                Ok(out)
            },
            Err(e) => Err(e),
        },
        MIRInstrKind::Pow { base, exp } => lower_pow(base, exp, cx, Ghost(rv)),
        MIRInstrKind::GetConst { value } => {
            let out = single(LIRInstrKind::GetConst(value));
            assert(lowered_as(out@[0], lower_kind_spec(skind, rv, extra, sig)->Ok_0.0[0]));
            Ok(out)
        },
        MIRInstrKind::Not { value } => lower_not(value, cx, Ghost(rv)),
        MIRInstrKind::And { left, right } => {
            let l = match left.to_mutable_score_value() {
                Ok(l) => l,
                Err(e) => return Err(LowerError::Value(e)),
            };
            let r = match right.to_score_value() {
                Ok(r) => r,
                Err(e) => return Err(LowerError::Value(e)),
            };
            proof {
                lemma_msv_same_reflexive(l);
                lemma_sv_same_reflexive(r);
            }
            let out = single(LIRInstrKind::MulScore(l, r));
            assert(lowered_as(out@[0], lower_kind_spec(skind, rv, extra, sig)->Ok_0.0[0]));
            Ok(out)
        },
        MIRInstrKind::Or { left, right } => {
            let l = match left.to_mutable_score_value() {
                Ok(l) => l,
                Err(e) => return Err(LowerError::Value(e)),
            };
            let r = match right.to_score_value() {
                Ok(r) => r,
                Err(e) => return Err(LowerError::Value(e)),
            };
            let ghost sl = l;
            proof {
                lemma_msv_same_reflexive(l);
                lemma_sv_same_reflexive(r);
            }
            let mut out: Vec<LIRInstruction> = Vec::new();
            out.push(LIRInstruction::new(LIRInstrKind::AddScore(l.copy(), r)));
            let l2 = l.copy();
            out.push(LIRInstruction::new(LIRInstrKind::DivScore(l2, ScoreValue::Mutable(l))));
            assert(lowered_as(out@[0], lower_kind_spec(skind, rv, extra, sig)->Ok_0.0[0]));
            assert(lowered_as(out@[1], lower_kind_spec(skind, rv, extra, sig)->Ok_0.0[1]));
            Ok(out)
        },
        MIRInstrKind::Call { call } => lower_call(call, cx, Ghost(rv)),
        MIRInstrKind::CallExtern { func } => {
            let out = single(LIRInstrKind::Call(func));
            assert(lowered_as(out@[0], lower_kind_spec(skind, rv, extra, sig)->Ok_0.0[0]));
            Ok(out)
        },
        MIRInstrKind::ReturnValue { index, value } => lower_assign(
            MutableValue::ReturnValue(index),
            DeclareBinding::Value(value),
            cx,
            Ghost(rv),
        ),
        MIRInstrKind::Return { value } => lower_return(value, cx, Ghost(rv)),
        MIRInstrKind::NoOp => Ok(Vec::new()),
        MIRInstrKind::Command { command } => {
            let out = single(LIRInstrKind::Command(command));
            assert(lowered_as(out@[0], lower_kind_spec(skind, rv, extra, sig)->Ok_0.0[0]));
            Ok(out)
        },
        MIRInstrKind::Comment { comment } => {
            let out = single(LIRInstrKind::Comment(comment));
            assert(lowered_as(out@[0], lower_kind_spec(skind, rv, extra, sig)->Ok_0.0[0]));
            Ok(out)
        },
        MIRInstrKind::MC(instr) => {
            let out = single(LIRInstrKind::MC(instr));
            assert(lowered_as(out@[0], lower_kind_spec(skind, rv, extra, sig)->Ok_0.0[0]));
            Ok(out)
        },
        MIRInstrKind::Use { val } => {
            let out = single(LIRInstrKind::Use(val));
            assert(lowered_as(out@[0], lower_kind_spec(skind, rv, extra, sig)->Ok_0.0[0]));
            Ok(out)
        },
        MIRInstrKind::If { .. } | MIRInstrKind::ReturnRun { .. } | MIRInstrKind::As { .. } | MIRInstrKind::At { .. }
        | MIRInstrKind::StoreResult { .. } | MIRInstrKind::StoreSuccess { .. } => Err(LowerError::Unrepresentable),
    }
}

/// Lowers a two-operand operation into its one instruction
fn lower_op_kind(
    kind: DoubleOperationKind,
    left: MutableValue,
    right: Value,
    cx: &LowerBlockCx,
    Ghost(rv): Ghost<Seq<(Seq<char>, DataType)>>,
) -> (r: Result<Vec<LIRInstruction>, LowerError>)
    requires
        regs_match(cx.registers@, rv),
        is_score_op(kind) || is_data_op(kind),
    ensures
        match (r, lower_op_spec(kind, left, right, rv, cx.sig)) {
            (Ok(out), Ok(k)) => all_lowered_as(out@, seq![Lowered::Kind(k)]),
            (Err(e), Err(f)) => e == f,
            _ => false,
        },
{
    match lower_op(kind, left, right, cx, Ghost(rv)) {
        Ok(k) => {
            let out = single(k);
            Ok(out)
        },
        Err(e) => Err(e),
    }
}


/// A function made for the block of an instruction: its name, what its
/// instructions must be, and the registers declared when it was made
pub struct BodyFn {
    pub name: Seq<char>,
    pub instrs: Seq<Lowered>,
    pub regs: Seq<(Seq<char>, DataType)>,
}

/// Where lowering a function stands between two instructions: the
/// registers declared, the extra-register counter, and the functions made
/// for blocks so far
pub struct LowerState {
    pub rv: Seq<(Seq<char>, DataType)>,
    pub extra: nat,
    pub bodies: Seq<BodyFn>,
}

/// Where lowering a function starts
pub open spec fn start_state() -> LowerState {
    LowerState { rv: Seq::empty(), extra: 0, bodies: Seq::empty() }
}

/// The name of the function made for the `n`-th block of a function:
/// `{func_id}_body_{n}`
pub open spec fn body_name(func_id: Seq<char>, n: nat) -> Seq<char> {
    func_id + "_body_"@ + crate::strutil::decimal(n)
}

/// Where the lowering of a block goes: a single instruction stands in place
/// of the block; any other number of instructions goes into a new function
/// with the registers declared so far, and a call of it stands in place of
/// the block
pub open spec fn place_body(r: Result<(Seq<Lowered>, LowerState), LowerError>, func_id: Seq<char>) -> Result<
    (Lowered, LowerState),
    LowerError,
> {
    match r {
        Err(e) => Err(e),
        Ok((ls, st)) => if ls.len() == 1 {
            Ok((ls[0], st))
        } else {
            let name = body_name(func_id, st.bodies.len());
            Ok(
                (
                    Lowered::CallTo(name),
                    LowerState {
                        rv: st.rv,
                        extra: st.extra,
                        bodies: st.bodies.push(BodyFn { name, instrs: ls, regs: st.rv }),
                    },
                ),
            )
        },
    }
}

/// The instruction that stands for a block, under what the instruction
/// that holds the block adds: a modifier put first, or `return run`
pub open spec fn wrap_body(r: Result<(Lowered, LowerState), LowerError>, kind: MIRInstrKind) -> Result<
    (Seq<Lowered>, LowerState),
    LowerError,
> {
    match r {
        Err(e) => Err(e),
        Ok((l, st)) => Ok(
            (
                seq![
                    match kind {
                        MIRInstrKind::As { target, .. } => Lowered::Modified(Modifier::As(target), Box::new(l)),
                        MIRInstrKind::At { target, .. } => Lowered::Modified(Modifier::At(target), Box::new(l)),
                        MIRInstrKind::StoreResult { location, .. } => Lowered::Modified(
                            Modifier::StoreResult(location),
                            Box::new(l),
                        ),
                        MIRInstrKind::StoreSuccess { location, .. } => Lowered::Modified(
                            Modifier::StoreSuccess(location),
                            Box::new(l),
                        ),
                        _ => Lowered::RunReturn(Box::new(l)),
                    },
                ],
                st,
            ),
        ),
    }
}

/// Lowering one instruction of a function, blocks included
pub open spec fn lower_kind_deep(
    kind: MIRInstrKind,
    st: LowerState,
    sig: FunctionSignature,
    func_id: Seq<char>,
) -> Result<(Seq<Lowered>, LowerState), LowerError>
    decreases kind,
{
    match kind {
        MIRInstrKind::If { condition, body } => match lower_cond_spec(condition, st.rv, sig) {
            Err(e) => Err(e),
            Ok(cs) => match place_body(lower_block_deep(body.contents@, st, sig, func_id), func_id) {
                Err(e) => Err(e),
                Ok((l, st2)) => Ok((seq![Lowered::Conditioned(cs, Box::new(l))], st2)),
            },
        },
        MIRInstrKind::ReturnRun { body } => wrap_body(
            place_body(lower_block_deep(body.contents@, st, sig, func_id), func_id),
            kind,
        ),
        MIRInstrKind::As { body, .. } => wrap_body(
            place_body(lower_block_deep(body.contents@, st, sig, func_id), func_id),
            kind,
        ),
        MIRInstrKind::At { body, .. } => wrap_body(
            place_body(lower_block_deep(body.contents@, st, sig, func_id), func_id),
            kind,
        ),
        MIRInstrKind::StoreResult { body, .. } => wrap_body(
            place_body(lower_block_deep(body.contents@, st, sig, func_id), func_id),
            kind,
        ),
        MIRInstrKind::StoreSuccess { body, .. } => wrap_body(
            place_body(lower_block_deep(body.contents@, st, sig, func_id), func_id),
            kind,
        ),
        _ => match lower_kind_spec(kind, st.rv, st.extra, sig) {
            Err(e) => Err(e),
            Ok((x, rv, n)) => Ok((x, LowerState { rv, extra: n, bodies: st.bodies })),
        },
    }
}

/// Lowering a list of instructions in order, from a state of lowering: the
/// instructions they become and the state after them
pub open spec fn lower_block_deep(
    instrs: Seq<MIRInstruction>,
    st: LowerState,
    sig: FunctionSignature,
    func_id: Seq<char>,
) -> Result<(Seq<Lowered>, LowerState), LowerError>
    decreases instrs,
{
    if instrs.len() == 0 {
        Ok((Seq::empty(), st))
    } else {
        match lower_block_deep(instrs.drop_last(), st, sig, func_id) {
            Err(e) => Err(e),
            Ok((prev, st1)) => match lower_kind_deep(instrs.last().kind, st1, sig, func_id) {
                Err(e) => Err(e),
                Ok((x, st2)) => Ok((prev + x, st2)),
            },
        }
    }
}

/// Lowering the instructions of a function from the start
pub open spec fn lower_function_spec(f: MIRFunction) -> Result<(Seq<Lowered>, LowerState), LowerError> {
    lower_block_deep(f.block.contents@, start_state(), f.interface.sig, f.interface.id@)
}

/// Whether a function is the one made for a block: named as the block's
/// function, without parameters, return value or annotations, split from
/// `parent`, with the instructions and registers it must have
pub open spec fn body_fn_is(g: LIRFunction, b: BodyFn, parent: Seq<char>) -> bool {
    &&& g.interface.id@ == b.name
    &&& g.interface.sig.params@.len() == 0
    &&& g.interface.sig.ret is Void
    &&& g.interface.annotations == crate::common::function::FunctionAnnotations::spec_new()
    &&& g.parent matches Some(p) && p@ == parent
    &&& all_lowered_as(g.block.contents@, b.instrs)
    &&& regs_match(g.block.regs@, b.regs)
}

/// Whether functions are, one by one, those made for blocks
pub open spec fn bodies_as(gs: Seq<LIRFunction>, bs: Seq<BodyFn>, parent: Seq<char>) -> bool {
    gs.len() == bs.len() && forall|k: int| 0 <= k < gs.len() ==> body_fn_is(#[trigger] gs[k], bs[k], parent)
}

/// Whether the context of lowering and the functions made for blocks are
/// what a state of lowering says
pub open spec fn state_is(cx: LowerBlockCx, bodies: Seq<LIRFunction>, st: LowerState) -> bool {
    &&& regs_match(cx.registers@, st.rv)
    &&& cx.additional_reg_count == st.extra
    &&& bodies_as(bodies, st.bodies, cx.func_id@)
}

/// Whether functions of the low-level IR are the lowering of a function of
/// the mid-level IR: first the functions made for its blocks, then the
/// function itself, with the instructions of the lowering, the registers
/// declared along the way, and the same interface
pub open spec fn function_lowered(f: MIRFunction, fs: Seq<LIRFunction>) -> bool {
    match lower_function_spec(f) {
        Ok((exp, st)) => {
            &&& fs.len() == st.bodies.len() + 1
            &&& bodies_as(fs.drop_last(), st.bodies, f.interface.id@)
            &&& all_lowered_as(fs.last().block.contents@, exp)
            &&& regs_match(fs.last().block.regs@, st.rv)
            &&& fs.last().interface == f.interface
            &&& fs.last().parent is None
        },
        Err(_) => false,
    }
}

/// Functions whose instructions, blocks included, fit the counters of lowering
pub open spec fn function_fits(f: MIRFunction) -> bool {
    &&& instrs_size(f.block.contents@) < u32::MAX
    &&& instrs_fit(f.block.contents@)
}

proof fn lemma_block_err(instrs: Seq<MIRInstruction>, k: int, st: LowerState, sig: FunctionSignature, fid: Seq<char>)
    requires
        0 <= k <= instrs.len(),
        lower_block_deep(instrs.take(k), st, sig, fid) is Err,
    ensures
        lower_block_deep(instrs, st, sig, fid) == lower_block_deep(instrs.take(k), st, sig, fid),
    decreases instrs.len() - k,
{
    if k < instrs.len() {
        assert(instrs.take(k + 1).drop_last() =~= instrs.take(k));
        lemma_block_err(instrs, k + 1, st, sig, fid);
    } else {
        assert(instrs.take(k) =~= instrs);
    }
}

/// A copy of a list of registers
fn copy_registers(regs: &Vec<Register>, Ghost(rv): Ghost<Seq<(Seq<char>, DataType)>>) -> (r: Vec<Register>)
    requires
        regs_match(regs@, rv),
    ensures
        regs_match(r@, rv),
{
    let mut out: Vec<Register> = Vec::new();
    let mut i: usize = 0;
    while i < regs.len()
        invariant
            i <= regs@.len(),
            regs_match(regs@, rv),
            out@.len() == i,
            forall|k: int| 0 <= k < i ==> #[trigger] out@[k].id@ == rv[k].0 && ty_same(rv[k].1, out@[k].ty),
        decreases regs.len() - i,
    {
        let ty = regs[i].ty.copy();
        proof {
            assert(regs@[i as int].id@ == rv[i as int].0 && ty_same(rv[i as int].1, regs@[i as int].ty));
            lemma_ty_same_transitive(rv[i as int].1, regs@[i as int].ty, ty);
        }
        out.push(Register { id: regs[i].id.clone(), ty });
        i = i + 1;
    }
    out
}

/// The name of the function made for the `n`-th block of a function
fn body_fn_name(func_id: &String, n: usize) -> (r: String)
    ensures
        r@ == body_name(func_id@, n as nat),
{
    let mut out = func_id.clone();
    crate::strutil::push_str(&mut out, "_body_");
    crate::strutil::push_decimal(&mut out, n as u64);
    assert(out@ =~= body_name(func_id@, n as nat));
    out
}

/// Lowers a list of instructions in order
#[verifier::spinoff_prover]
#[verifier::rlimit(60)]
fn lower_instrs(
    instrs: Vec<MIRInstruction>,
    cx: &mut LowerBlockCx,
    bodies: &mut Vec<LIRFunction>,
    Ghost(st): Ghost<LowerState>,
) -> (r: Result<Vec<LIRInstruction>, LowerError>)
    requires
        state_is(*old(cx), old(bodies)@, st),
        old(cx).additional_reg_count + instrs_size(instrs@) < u32::MAX,
        instrs_fit(instrs@),
    ensures
        final(cx).sig == old(cx).sig,
        final(cx).func_id == old(cx).func_id,
        final(cx).additional_reg_count <= old(cx).additional_reg_count + instrs_size(instrs@),
        match (r, lower_block_deep(instrs@, st, old(cx).sig, old(cx).func_id@)) {
            (Ok(out), Ok((exp, st2))) => all_lowered_as(out@, exp) && state_is(*final(cx), final(bodies)@, st2),
            (Err(e), Err(f)) => e == f,
            _ => false,
        },
    decreases instrs@,
{
    let ghost all = instrs@;
    let ghost sig = cx.sig;
    let ghost fid_s = cx.func_id;
    let ghost fid = cx.func_id@;
    let ghost start = cx.additional_reg_count as nat;
    let mut contents = instrs;
    let mut out: Vec<LIRInstruction> = Vec::new();
    let n = contents.len();
    let mut i: usize = 0;
    let ghost mut cur = st;
    proof {
        assert(all.take(0) =~= Seq::<MIRInstruction>::empty());
    }
    while i < n
        invariant
            n == all.len(),
            i <= n,
            contents@ == all.skip(i as int),
            all == instrs@,
            cx.sig == sig,
            sig == old(cx).sig,
            cx.func_id == fid_s,
            fid_s == old(cx).func_id,
            fid == fid_s@,
            start == old(cx).additional_reg_count,
            instrs_fit(all),
            start + instrs_size(all) < u32::MAX,
            cx.additional_reg_count <= start + instrs_size(all.take(i as int)),
            lower_block_deep(all.take(i as int), st, sig, fid) is Ok,
            lower_block_deep(all.take(i as int), st, sig, fid)->Ok_0.1 == cur,
            all_lowered_as(out@, lower_block_deep(all.take(i as int), st, sig, fid)->Ok_0.0),
            state_is(*cx, bodies@, cur),
        decreases n - i,
    {
        let instr = contents.remove(0);
        proof {
            lemma_instrs_prefix(all, i as int);
            lemma_instrs_prefix(all, i as int + 1);
            assert(instr == all[i as int]);
            assert(contents@ =~= all.skip(i as int + 1));
            assert(all.take(i as int + 1).drop_last() =~= all.take(i as int));
            assert(all.take(i as int + 1).last() == instr);
            assert(decreases_to!(all => all[i as int]));
            assert(decreases_to!(all[i as int] => all[i as int].kind));
            assert(decreases_to!(instrs@ => instr.kind));
        }
        let ghost prev = lower_block_deep(all.take(i as int), st, sig, fid)->Ok_0.0;
        let more = match lower_kind_any(instr.kind, cx, bodies, Ghost(cur)) {
            Ok(m) => m,
            Err(e) => {
                proof {
                    lemma_block_err(all, i as int + 1, st, sig, fid);
                }
                return Err(e);
            },
        };
        let ghost step = lower_kind_deep(all[i as int].kind, cur, sig, fid)->Ok_0;
        append_lowered(&mut out, more, Ghost(prev), Ghost(step.0));
        proof {
            cur = step.1;
        }
        i = i + 1;
    }
    assert(all.take(n as int) =~= all);
    Ok(out)
}

/// Lowers a block: a single instruction is used in place; any other number
/// goes into a new function, and the result is a call of it
fn lower_subblock(
    block: MIRBlock,
    cx: &mut LowerBlockCx,
    bodies: &mut Vec<LIRFunction>,
    Ghost(st): Ghost<LowerState>,
) -> (r: Result<LIRInstruction, LowerError>)
    requires
        state_is(*old(cx), old(bodies)@, st),
        old(cx).additional_reg_count + instrs_size(block.contents@) < u32::MAX,
        instrs_fit(block.contents@),
    ensures
        final(cx).sig == old(cx).sig,
        final(cx).func_id == old(cx).func_id,
        final(cx).additional_reg_count <= old(cx).additional_reg_count + instrs_size(block.contents@),
        match (r, place_body(lower_block_deep(block.contents@, st, old(cx).sig, old(cx).func_id@), old(cx).func_id@)) {
            (Ok(instr), Ok((l, st2))) => lowered_as(instr, l) && state_is(*final(cx), final(bodies)@, st2),
            (Err(e), Err(f)) => e == f,
            _ => false,
        },
    decreases block,
{
    let ghost sblock = block;
    let ghost fid = cx.func_id@;
    let ghost sig = cx.sig;
    assert(decreases_to!(sblock => sblock.contents));
    let mut out = match lower_instrs(block.contents, cx, bodies, Ghost(st)) {
        Ok(o) => o,
        Err(e) => return Err(e),
    };
    let ghost inner = lower_block_deep(sblock.contents@, st, sig, fid)->Ok_0;
    if out.len() == 1 {
        let instr = out.pop().unwrap();
        Ok(instr)
    } else {
        let name = body_fn_name(&cx.func_id, bodies.len());
        let regs = copy_registers(&cx.registers, Ghost(inner.1.rv));
        let parent = cx.func_id.clone();
        let f = LIRFunction {
            interface: FunctionInterface::new(name.clone()),
            block: LIRBlock { contents: out, regs },
            parent: Some(parent),
        };
        let ghost before = bodies@;
        bodies.push(f);
        proof {
            let bs = inner.1.bodies.push(BodyFn { name: name@, instrs: inner.0, regs: inner.1.rv });
            assert forall|k: int| 0 <= k < bodies@.len() implies body_fn_is(#[trigger] bodies@[k], bs[k], cx.func_id@) by {
                if k < before.len() {
                    assert(bodies@[k] == before[k]);
                }
            }
        }
        Ok(LIRInstruction::new(LIRInstrKind::Call(name)))
    }
}

/// An instruction under `if` modifiers, put first in their order
fn put_conditions(instr: LIRInstruction, conds: Vec<(IfModCondition, bool)>) -> (r: LIRInstruction)
    ensures
        r.kind == instr.kind,
        r.modifiers@.len() == conds@.len() + instr.modifiers@.len(),
        forall|k: int| 0 <= k < conds@.len() ==> #[trigger] r.modifiers@[k] == if_mod(conds@[k]),
        r.modifiers@.skip(conds@.len() as int) == instr.modifiers@,
{
    let ghost all = conds@;
    let ghost orig = instr.modifiers@;
    let mut instr = instr;
    let mut conds = conds;
    let mut mods: Vec<Modifier> = Vec::new();
    let n = conds.len();
    let mut i: usize = 0;
    while i < n
        invariant
            n == all.len(),
            i <= n,
            conds@ == all.skip(i as int),
            mods@.len() == i,
            forall|k: int| 0 <= k < i ==> #[trigger] mods@[k] == if_mod(all[k]),
        decreases n - i,
    {
        let (c, negate) = conds.remove(0);
        assert((c, negate) == all[i as int]);
        assert(conds@ =~= all.skip(i as int + 1));
        mods.push(Modifier::If { condition: Box::new(c), negate });
        i = i + 1;
    }
    let ghost before = mods@;
    mods.append(&mut instr.modifiers);
    assert(mods@ == before + orig);
    assert(mods@.skip(n as int) =~= orig);
    LIRInstruction { kind: instr.kind, modifiers: mods }
}

/// The instruction of a list of one
fn one_instr(instr: LIRInstruction) -> (r: Vec<LIRInstruction>)
    ensures
        r@ == seq![instr],
{
    let mut out: Vec<LIRInstruction> = Vec::new();
    out.push(instr);
    assert(out@ =~= seq![instr]);
    out
}

/// Lowers one instruction, the instructions of its block included
#[verifier::spinoff_prover]
#[verifier::rlimit(60)]
fn lower_kind_any(
    kind: MIRInstrKind,
    cx: &mut LowerBlockCx,
    bodies: &mut Vec<LIRFunction>,
    Ghost(st): Ghost<LowerState>,
) -> (r: Result<Vec<LIRInstruction>, LowerError>)
    requires
        state_is(*old(cx), old(bodies)@, st),
        old(cx).additional_reg_count + kind_size(kind) < u32::MAX,
        kind_fits(kind),
    ensures
        final(cx).sig == old(cx).sig,
        final(cx).func_id == old(cx).func_id,
        final(cx).additional_reg_count <= old(cx).additional_reg_count + kind_size(kind),
        match (r, lower_kind_deep(kind, st, old(cx).sig, old(cx).func_id@)) {
            (Ok(out), Ok((exp, st2))) => all_lowered_as(out@, exp) && state_is(*final(cx), final(bodies)@, st2),
            (Err(e), Err(f)) => e == f,
            _ => false,
        },
    decreases kind,
{
    let ghost skind = kind;
    match kind {
        MIRInstrKind::If { condition, body } => {
            assert(decreases_to!(skind => *body));
            let conds = match lower_condition(condition, cx, Ghost(st.rv)) {
                Ok(c) => c,
                Err(e) => return Err(e),
            };
            match lower_subblock(*body, cx, bodies, Ghost(st)) {
                Ok(l) => Ok(one_instr(put_conditions(l, conds))),
                Err(e) => Err(e),
            }
        },
        MIRInstrKind::ReturnRun { body } => {
            assert(decreases_to!(skind => *body));
            match lower_subblock(*body, cx, bodies, Ghost(st)) {
                Ok(l) => Ok(one_instr(LIRInstruction::new(LIRInstrKind::ReturnRun(Box::new(l))))),
                Err(e) => Err(e),
            }
        },
        MIRInstrKind::As { target, body } => {
            assert(decreases_to!(skind => *body));
            match lower_subblock(*body, cx, bodies, Ghost(st)) {
                Ok(l) => {
                    let mut l = l;
                    let ghost mods = l.modifiers@;
                    l.modifiers.insert(0, Modifier::As(target));
                    assert(l.modifiers@.drop_first() =~= mods);
                    Ok(one_instr(l))
                },
                Err(e) => Err(e),
            }
        },
        MIRInstrKind::At { target, body } => {
            assert(decreases_to!(skind => *body));
            match lower_subblock(*body, cx, bodies, Ghost(st)) {
                Ok(l) => {
                    let mut l = l;
                    let ghost mods = l.modifiers@;
                    l.modifiers.insert(0, Modifier::At(target));
                    assert(l.modifiers@.drop_first() =~= mods);
                    Ok(one_instr(l))
                },
                Err(e) => Err(e),
            }
        },
        MIRInstrKind::StoreResult { location, body } => {
            assert(decreases_to!(skind => *body));
            match lower_subblock(*body, cx, bodies, Ghost(st)) {
                Ok(l) => {
                    let mut l = l;
                    let ghost mods = l.modifiers@;
                    l.modifiers.insert(0, Modifier::StoreResult(location));
                    assert(l.modifiers@.drop_first() =~= mods);
                    Ok(one_instr(l))
                },
                Err(e) => Err(e),
            }
        },
        MIRInstrKind::StoreSuccess { location, body } => {
            assert(decreases_to!(skind => *body));
            match lower_subblock(*body, cx, bodies, Ghost(st)) {
                Ok(l) => {
                    let mut l = l;
                    let ghost mods = l.modifiers@;
                    l.modifiers.insert(0, Modifier::StoreSuccess(location));
                    assert(l.modifiers@.drop_first() =~= mods);
                    Ok(one_instr(l))
                },
                Err(e) => Err(e),
            }
        },
        _ => {
            let ghost b = bodies@;
            let r = lower_kind(kind, cx, Ghost(st.rv));
            assert(bodies@ == b);
            r
        },
    }
}

/// Lowers a function: the functions made for its blocks, then the function
pub fn lower_function(func: MIRFunction) -> (r: Result<Vec<LIRFunction>, LowerError>)
    requires
        function_fits(func),
    ensures
        match r {
            Ok(fs) => function_lowered(func, fs@),
            Err(e) => lower_function_spec(func) == Err::<(Seq<Lowered>, LowerState), LowerError>(e),
        },
{
    let ghost sfunc = func;
    let MIRFunction { interface, block } = func;
    let FunctionInterface { id, sig, annotations } = interface;
    lower_function_parts(id, sig, annotations, block.contents, Ghost(sfunc))
}

/// Lowers the instructions of a function with this interface
fn lower_function_parts(
    id: String,
    sig: FunctionSignature,
    annotations: crate::common::function::FunctionAnnotations,
    contents: Vec<MIRInstruction>,
    Ghost(sfunc): Ghost<MIRFunction>,
) -> (r: Result<Vec<LIRFunction>, LowerError>)
    requires
        sfunc.interface.id == id,
        sfunc.interface.sig == sig,
        sfunc.interface.annotations == annotations,
        sfunc.block.contents@ == contents@,
        function_fits(sfunc),
    ensures
        match r {
            Ok(fs) => function_lowered(sfunc, fs@),
            Err(e) => lower_function_spec(sfunc) == Err::<(Seq<Lowered>, LowerState), LowerError>(e),
        },
{
    let mut cx = LowerBlockCx { registers: Vec::new(), additional_reg_count: 0, func_id: id, sig };
    let mut bodies: Vec<LIRFunction> = Vec::new();
    proof {
        assert(state_is(cx, bodies@, start_state()));
    }
    let out = match lower_instrs(contents, &mut cx, &mut bodies, Ghost(start_state())) {
        Ok(o) => o,
        Err(e) => return Err(e),
    };
    let ghost fid = cx.func_id@;
    let ghost res = lower_function_spec(sfunc)->Ok_0;
    let interface = FunctionInterface { id: cx.func_id, sig: cx.sig, annotations };
    let block = LIRBlock { contents: out, regs: cx.registers };
    let mut fs = bodies;
    let ghost made = fs@;
    fs.push(LIRFunction { interface, block, parent: None });
    proof {
        assert(fs@.drop_last() =~= made);
    }
    Ok(fs)
}

/// The functions of groups of functions, one group after another
pub open spec fn concat_groups(groups: Seq<Seq<LIRFunction>>) -> Seq<LIRFunction>
    decreases groups.len(),
{
    if groups.len() == 0 {
        Seq::empty()
    } else {
        concat_groups(groups.drop_last()) + groups.last()
    }
}

/// Whether groups of functions are, one by one, the lowerings of functions
pub open spec fn groups_lowered(mir: Seq<MIRFunction>, groups: Seq<Seq<LIRFunction>>) -> bool {
    &&& groups.len() == mir.len()
    &&& forall|i: int| 0 <= i < mir.len() ==> function_lowered(#[trigger] mir[i], groups[i])
}

/// Whether a program of the low-level IR is the lowering of a program of
/// the mid-level IR: the lowerings of its functions, one after another
pub open spec fn program_lowered(mir: Seq<MIRFunction>, lir: Seq<LIRFunction>) -> bool {
    exists|groups: Seq<Seq<LIRFunction>>| #[trigger] groups_lowered(mir, groups) && lir == concat_groups(groups)
}

/// Lowering a program fails with an error: that of the first function that
/// cannot be lowered
pub open spec fn program_lower_fails(mir: Seq<MIRFunction>, e: LowerError) -> bool {
    exists|i: int|
        0 <= i < mir.len() && (forall|j: int| 0 <= j < i ==> (#[trigger] lower_function_spec(mir[j])) is Ok)
            && lower_function_spec(mir[i]) == Err::<(Seq<Lowered>, LowerState), LowerError>(e)
}

/// Lowers a program, function by function; the first function that cannot
/// be lowered gives the error
pub fn lower_mir(mir: MIR) -> (r: Result<LIR, LowerError>)
    requires
        forall|i: int| 0 <= i < mir.functions@.len() ==> function_fits(#[trigger] mir.functions@[i]),
    ensures
        match r {
            Ok(lir) => program_lowered(mir.functions@, lir.functions@),
            Err(e) => program_lower_fails(mir.functions@, e),
        },
{
    let ghost all = mir.functions@;
    let mut functions = mir.functions;
    let mut lir = LIR::new();
    let n = functions.len();
    let mut i: usize = 0;
    let ghost mut groups: Seq<Seq<LIRFunction>> = Seq::empty();
    while i < n
        invariant
            n == all.len(),
            all == mir.functions@,
            i <= n,
            functions@ == all.skip(i as int),
            forall|k: int| 0 <= k < all.len() ==> function_fits(#[trigger] all[k]),
            groups_lowered(all.take(i as int), groups),
            lir.functions@ == concat_groups(groups),
        decreases n - i,
    {
        let f = functions.remove(0);
        assert(f == all[i as int]);
        assert(functions@ =~= all.skip(i as int + 1));
        match lower_function(f) {
            Ok(fs) => {
                let ghost g = fs@;
                let mut fs = fs;
                let ghost before = lir.functions@;
                lir.functions.append(&mut fs);
                proof {
                    let old_groups = groups;
                    groups = groups.push(g);
                    assert(groups.drop_last() =~= old_groups);
                    assert(lir.functions@ =~= concat_groups(groups));
                    assert forall|k: int| 0 <= k < i + 1 implies function_lowered(
                        #[trigger] all.take(i as int + 1)[k],
                        groups[k],
                    ) by {
                        if k < i {
                            assert(all.take(i as int + 1)[k] == all.take(i as int)[k]);
                        }
                    }
                }
            },
            Err(e) => {
                assert forall|j: int| 0 <= j < i implies (#[trigger] lower_function_spec(all[j])) is Ok by {
                    assert(all.take(i as int)[j] == all[j]);
                    assert(function_lowered(all.take(i as int)[j], groups[j]));
                }
                assert(lower_function_spec(all[i as int]) == Err::<(Seq<Lowered>, LowerState), LowerError>(e));
                assert(program_lower_fails(all, e));
                return Err(e);
            },
        }
        i = i + 1;
    }
    assert(all.take(n as int) =~= all);
    Ok(lir)
}

/// A count that stops growing at a cap
pub open spec fn size_capped(x: nat, cap: nat) -> nat {
    if x < cap {
        x
    } else {
        cap
    }
}

/// The size of an instruction, capped, and whether it fits
fn measure_kind(kind: &MIRInstrKind, cap: u64) -> (r: (u64, bool))
    requires
        cap <= u32::MAX,
    ensures
        r.0 == size_capped(kind_size(*kind), cap as nat),
        r.1 == kind_fits(*kind),
    decreases kind,
{
    match kind {
        MIRInstrKind::Call { call } => (size_capped_one(cap), call.args.len() <= 65536 && call.ret.len() <= 65536),
        MIRInstrKind::If { body, .. } | MIRInstrKind::ReturnRun { body } | MIRInstrKind::As { body, .. }
        | MIRInstrKind::At { body, .. } | MIRInstrKind::StoreResult { body, .. }
        | MIRInstrKind::StoreSuccess { body, .. } => {
            assert(decreases_to!(*kind => body.contents));
            let (n, fit) = measure_instrs(&body.contents, cap);
            let total: u64 = if n < cap {
                n + 1
            } else {
                cap
            };
            (if total < cap { total } else { cap }, fit)
        },
        _ => (size_capped_one(cap), true),
    }
}

/// One, capped
fn size_capped_one(cap: u64) -> (r: u64)
    ensures
        r == size_capped(1, cap as nat),
{
    if 1 < cap {
        1
    } else {
        cap
    }
}

/// The size of a list of instructions, capped, and whether all of them fit
fn measure_instrs(instrs: &Vec<MIRInstruction>, cap: u64) -> (r: (u64, bool))
    requires
        cap <= u32::MAX,
    ensures
        r.0 == size_capped(instrs_size(instrs@), cap as nat),
        r.1 == instrs_fit(instrs@),
    decreases instrs@,
{
    let ghost all = instrs@;
    let mut total: u64 = 0;
    let mut fit = true;
    let mut i: usize = 0;
    proof {
        assert(all.take(0) =~= Seq::<MIRInstruction>::empty());
    }
    while i < instrs.len()
        invariant
            all == instrs@,
            i <= all.len(),
            cap <= u32::MAX,
            total == size_capped(instrs_size(all.take(i as int)), cap as nat),
            fit == instrs_fit(all.take(i as int)),
        decreases instrs.len() - i,
    {
        proof {
            lemma_instrs_prefix(all, i as int);
            assert(decreases_to!(all => all[i as int]));
        }
        let (n, f) = measure_kind(&instrs[i].kind, cap);
        total = if total + n < cap {
            total + n
        } else {
            cap
        };
        fit = fit && f;
        i = i + 1;
    }
    proof {
        assert(all.take(i as int) =~= all);
    }
    (total, fit)
}

/// Whether a function fits the counters and indices that lowering uses
pub fn is_function_fitting(f: &MIRFunction) -> (r: bool)
    ensures
        r == function_fits(*f),
{
    let (n, fit) = measure_instrs(&f.block.contents, 4294967295u64);
    n < 4294967295u64 && fit
}

/// Whether every function of a program fits the counters and indices that
/// lowering uses
pub fn mir_fits(mir: &MIR) -> (r: bool)
    ensures
        r == forall|i: int| 0 <= i < mir.functions@.len() ==> function_fits(#[trigger] mir.functions@[i]),
{
    let mut i: usize = 0;
    while i < mir.functions.len()
        invariant
            i <= mir.functions@.len(),
            forall|k: int| 0 <= k < i ==> function_fits(#[trigger] mir.functions@[k]),
        decreases mir.functions.len() - i,
    {
        if !is_function_fitting(&mir.functions[i]) {
            return false;
        }
        i = i + 1;
    }
    true
}

} // verus!
