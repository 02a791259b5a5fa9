//! Values that instructions read and write: scores and NBT data, held in
//! registers, arguments, return slots or named places.
use vstd::prelude::*;

use crate::common::function::{FunctionSignature, ReturnType};
use crate::common::mc::{FullDataLocation, Score};
use crate::common::ty::{
    contents_ty, ty_same, ArraySize, DataType, DataTypeContents, NBTType, NBTTypeContents, ScoreType,
    ScoreTypeContents,
};
use crate::common::Register;
use crate::strutil::{str_eq, string_views};

verus! {

/// A score that can be written to
#[derive(Debug)]
pub enum MutableScoreValue {
    Score(Score),
    Reg(String),
    Arg(u16),
    CallArg(u16, String),
    ReturnValue(u16),
    CallReturnValue(u16, String),
}

/// A score operand: a constant or a score that can be written to
#[derive(Debug)]
pub enum ScoreValue {
    Constant(ScoreTypeContents),
    Mutable(MutableScoreValue),
}

/// NBT data that can be written to
#[derive(Debug)]
pub enum MutableNBTValue {
    Data(FullDataLocation),
    Reg(String),
    Property(Box<MutableNBTValue>, String),
    Index(Box<MutableNBTValue>, usize),
    Arg(u16),
    CallArg(u16, String),
    ReturnValue(u16),
    CallReturnValue(u16, String),
}

/// An NBT operand: a constant or data that can be written to
#[derive(Debug)]
pub enum NBTValue {
    Constant(NBTTypeContents),
    Mutable(MutableNBTValue),
}

/// Appends a copy of a register's name to a list of names
fn push_reg(regs: &mut Vec<String>, reg: &String)
    ensures
        string_views(final(regs)@) == string_views(old(regs)@).push(reg@),
{
    regs.push(reg.clone());
    assert(string_views(regs@) =~= string_views(old(regs)@).push(reg@));
}

impl MutableScoreValue {
    /// The registers that this value reads or writes
    pub open spec fn used_regs(&self) -> Seq<Seq<char>> {
        match self {
            MutableScoreValue::Reg(r) => seq![r@],
            _ => Seq::empty(),
        }
    }

    /// Appends the registers that this value uses
    pub fn append_used_regs(&self, regs: &mut Vec<String>)
        ensures
            string_views(final(regs)@) == string_views(old(regs)@) + self.used_regs(),
    {
        match self {
            MutableScoreValue::Reg(r) => {
                push_reg(regs, r);
                assert(string_views(old(regs)@).push(r@) =~= string_views(old(regs)@) + seq![r@]);
            },
            _ => {
                assert(string_views(old(regs)@) + Seq::<Seq<char>>::empty() =~= string_views(
                    old(regs)@,
                ));
            },
        }
    }
}

impl ScoreValue {
    /// The registers that this value reads
    pub open spec fn used_regs(&self) -> Seq<Seq<char>> {
        match self {
            ScoreValue::Mutable(m) => m.used_regs(),
            ScoreValue::Constant(_) => Seq::empty(),
        }
    }

    /// Appends the registers that this value uses
    pub fn append_used_regs(&self, regs: &mut Vec<String>)
        ensures
            string_views(final(regs)@) == string_views(old(regs)@) + self.used_regs(),
    {
        match self {
            ScoreValue::Mutable(m) => m.append_used_regs(regs),
            ScoreValue::Constant(_) => {
                assert(string_views(old(regs)@) + Seq::<Seq<char>>::empty() =~= string_views(
                    old(regs)@,
                ));
            },
        }
    }
}

impl MutableNBTValue {
    /// The registers that this value reads or writes
    pub open spec fn used_regs(&self) -> Seq<Seq<char>>
        decreases self,
    {
        match self {
            MutableNBTValue::Reg(r) => seq![r@],
            MutableNBTValue::Property(v, _) => v.used_regs(),
            MutableNBTValue::Index(v, _) => v.used_regs(),
            _ => Seq::empty(),
        }
    }

    /// Appends the registers that this value uses
    pub fn append_used_regs(&self, regs: &mut Vec<String>)
        ensures
            string_views(final(regs)@) == string_views(old(regs)@) + self.used_regs(),
        decreases self,
    {
        match self {
            MutableNBTValue::Reg(r) => {
                push_reg(regs, r);
                assert(string_views(old(regs)@).push(r@) =~= string_views(old(regs)@) + seq![r@]);
            },
            MutableNBTValue::Property(v, _) => v.append_used_regs(regs),
            MutableNBTValue::Index(v, _) => v.append_used_regs(regs),
            _ => {
                assert(string_views(old(regs)@) + Seq::<Seq<char>>::empty() =~= string_views(
                    old(regs)@,
                ));
            },
        }
    }
}

impl NBTValue {
    /// The registers that this value reads
    pub open spec fn used_regs(&self) -> Seq<Seq<char>> {
        match self {
            NBTValue::Mutable(m) => m.used_regs(),
            NBTValue::Constant(_) => Seq::empty(),
        }
    }

    /// Appends the registers that this value uses
    pub fn append_used_regs(&self, regs: &mut Vec<String>)
        ensures
            string_views(final(regs)@) == string_views(old(regs)@) + self.used_regs(),
    {
        match self {
            NBTValue::Mutable(m) => m.append_used_regs(regs),
            NBTValue::Constant(_) => {
                assert(string_views(old(regs)@) + Seq::<Seq<char>>::empty() =~= string_views(
                    old(regs)@,
                ));
            },
        }
    }
}


/// A value that can be written to, before it is known to be a score or NBT
/// data
#[derive(Debug)]
pub enum MutableValue {
    Reg(String),
    Score(Score),
    Data(FullDataLocation),
    Property(Box<MutableValue>, String),
    Index(Box<MutableValue>, ArraySize),
    Arg(u16),
    CallArg(u16, String, DataType),
    ReturnValue(u16),
    CallReturnValue(u16, String, DataType),
}

/// An operand: a constant or a value that can be written to
#[derive(Debug)]
pub enum Value {
    Mutable(MutableValue),
    Constant(DataTypeContents),
}

/// Why a value cannot be used as asked
#[derive(Debug, Clone, Copy, PartialEq, Eq, Structural)]
pub enum ValueError {
    /// The register is not declared
    UnknownRegister,
    /// The function has no argument with this index
    ArgOutOfRange,
    /// The function has no return value with this index
    ReturnOutOfRange,
    /// The function returns nothing
    NoReturnValue,
    /// The value is not a score
    NotScore,
    /// The value is not NBT data
    NotNBT,
}

/// The first register with this name
pub open spec fn reg_lookup(regs: Seq<Register>, id: Seq<char>) -> Option<Register>
    decreases regs.len(),
{
    if regs.len() == 0 {
        None
    } else if regs[0].id@ == id {
        Some(regs[0])
    } else {
        reg_lookup(regs.drop_first(), id)
    }
}

/// The first register with this name
pub fn find_register<'a>(regs: &'a Vec<Register>, id: &str) -> (r: Option<&'a Register>)
    ensures
        match r {
            Some(reg) => reg_lookup(regs@, id@) == Some(*reg),
            None => reg_lookup(regs@, id@) is None,
        },
{
    let mut k: usize = 0;
    assert(regs@.subrange(0, regs@.len() as int) =~= regs@);
    while k < regs.len()
        invariant
            k <= regs@.len(),
            reg_lookup(regs@, id@) == reg_lookup(regs@.subrange(k as int, regs@.len() as int), id@),
        decreases regs.len() - k,
    {
        let ghost rest = regs@.subrange(k as int, regs@.len() as int);
        assert(rest.drop_first() =~= regs@.subrange(k + 1, regs@.len() as int));
        assert(rest[0] == regs@[k as int]);
        if str_eq(regs[k].id.as_str(), id) {
            return Some(&regs[k]);
        }
        k = k + 1;
    }
    None
}

/// The registers of a block as names and types
pub open spec fn reg_views(regs: Seq<Register>) -> Seq<(Seq<char>, DataType)> {
    regs.map_values(|r: Register| (r.id@, r.ty))
}

/// The type of the first register with this name
pub open spec fn reg_ty(regs: Seq<(Seq<char>, DataType)>, id: Seq<char>) -> Option<DataType>
    decreases regs.len(),
{
    if regs.len() == 0 {
        None
    } else if regs[0].0 == id {
        Some(regs[0].1)
    } else {
        reg_ty(regs.drop_first(), id)
    }
}

/// The first register with a name is the one whose type the views give
pub proof fn lemma_reg_views_lookup(regs: Seq<Register>, id: Seq<char>)
    ensures
        match reg_lookup(regs, id) {
            Some(r) => reg_ty(reg_views(regs), id) == Some(r.ty),
            None => reg_ty(reg_views(regs), id) is None,
        },
    decreases regs.len(),
{
    if regs.len() > 0 {
        assert(reg_views(regs).drop_first() =~= reg_views(regs.drop_first()));
        lemma_reg_views_lookup(regs.drop_first(), id);
    }
}

/// Registers whose names are those of a list of views, in order, and whose
/// types are the same as theirs
pub open spec fn regs_match(actual: Seq<Register>, views: Seq<(Seq<char>, DataType)>) -> bool {
    &&& actual.len() == views.len()
    &&& forall|i: int|
        0 <= i < actual.len() ==> #[trigger] actual[i].id@ == views[i].0 && ty_same(views[i].1, actual[i].ty)
}

/// A list of registers matches the names and types it holds
pub proof fn lemma_regs_match_views(regs: Seq<Register>)
    ensures
        regs_match(regs, reg_views(regs)),
{
    assert forall|i: int| 0 <= i < regs.len() implies #[trigger] regs[i].id@ == reg_views(regs)[i].0 && ty_same(
        reg_views(regs)[i].1,
        regs[i].ty,
    ) by {
        crate::common::ty::lemma_ty_same_reflexive(regs[i].ty);
    }
}

/// Matching registers give the same types to the same names
pub proof fn lemma_regs_match_lookup(actual: Seq<Register>, views: Seq<(Seq<char>, DataType)>, id: Seq<char>)
    requires
        regs_match(actual, views),
    ensures
        match (reg_ty(views, id), reg_ty(reg_views(actual), id)) {
            (Some(e), Some(a)) => ty_same(e, a),
            (None, None) => true,
            _ => false,
        },
    decreases actual.len(),
{
    if actual.len() > 0 {
        assert(actual[0].id@ == views[0].0);
        assert(reg_views(actual).drop_first() =~= reg_views(actual.drop_first()));
        assert(regs_match(actual.drop_first(), views.drop_first())) by {
            assert forall|i: int| 0 <= i < actual.drop_first().len() implies #[trigger] actual.drop_first()[i].id@
                == views.drop_first()[i].0 && ty_same(views.drop_first()[i].1, actual.drop_first()[i].ty) by {
                assert(actual[i + 1].id@ == views[i + 1].0);
            }
        }
        lemma_regs_match_lookup(actual.drop_first(), views.drop_first(), id);
    }
}

/// The type of a value that can be written to, given the registers of its
/// block and the signature of its function. NBT data reached by a location,
/// property or index may have any NBT type.
pub open spec fn mut_val_ty(v: MutableValue, regs: Seq<(Seq<char>, DataType)>, sig: FunctionSignature) -> Result<
    DataType,
    ValueError,
> {
    match v {
        MutableValue::Reg(id) => match reg_ty(regs, id@) {
            Some(t) => Ok(t),
            None => Err(ValueError::UnknownRegister),
        },
        MutableValue::Score(_) => Ok(DataType::Score(ScoreType::Score)),
        MutableValue::Data(_) => Ok(DataType::NBT(NBTType::Any)),
        MutableValue::Property(..) => Ok(DataType::NBT(NBTType::Any)),
        MutableValue::Index(..) => Ok(DataType::NBT(NBTType::Any)),
        MutableValue::Arg(n) => if (n as int) < sig.params@.len() {
            Ok(sig.params@[n as int])
        } else {
            Err(ValueError::ArgOutOfRange)
        },
        MutableValue::ReturnValue(n) => match sig.ret {
            ReturnType::Standard(tys) => if (n as int) < tys@.len() {
                Ok(tys@[n as int])
            } else {
                Err(ValueError::ReturnOutOfRange)
            },
            ReturnType::Void => Err(ValueError::NoReturnValue),
        },
        MutableValue::CallArg(_, _, t) => Ok(t),
        MutableValue::CallReturnValue(_, _, t) => Ok(t),
    }
}

/// The type of an operand
pub open spec fn val_ty(v: Value, regs: Seq<(Seq<char>, DataType)>, sig: FunctionSignature) -> Result<DataType, ValueError> {
    match v {
        Value::Constant(c) => Ok(contents_ty(c)),
        Value::Mutable(m) => mut_val_ty(m, regs, sig),
    }
}

/// A computed type against its specification: the same type, or the same error
pub open spec fn ty_result_same(r: Result<DataType, ValueError>, s: Result<DataType, ValueError>) -> bool {
    match (r, s) {
        (Ok(t), Ok(u)) => ty_same(u, t),
        (Err(e), Err(f)) => e == f,
        _ => false,
    }
}

/// A value as a score, where it is one
pub open spec fn to_score(v: MutableValue) -> Result<MutableScoreValue, ValueError> {
    match v {
        MutableValue::Reg(r) => Ok(MutableScoreValue::Reg(r)),
        MutableValue::Score(s) => Ok(MutableScoreValue::Score(s)),
        MutableValue::Arg(a) => Ok(MutableScoreValue::Arg(a)),
        MutableValue::CallArg(a, f, t) => if t is Score {
            Ok(MutableScoreValue::CallArg(a, f))
        } else {
            Err(ValueError::NotScore)
        },
        MutableValue::ReturnValue(r) => Ok(MutableScoreValue::ReturnValue(r)),
        MutableValue::CallReturnValue(r, f, t) => if t is Score {
            Ok(MutableScoreValue::CallReturnValue(r, f))
        } else {
            Err(ValueError::NotScore)
        },
        _ => Err(ValueError::NotScore),
    }
}

/// A value as NBT data, where it is
pub open spec fn to_nbt(v: MutableValue) -> Result<MutableNBTValue, ValueError>
    decreases v,
{
    match v {
        MutableValue::Reg(r) => Ok(MutableNBTValue::Reg(r)),
        MutableValue::Data(d) => Ok(MutableNBTValue::Data(d)),
        MutableValue::Property(inner, p) => match to_nbt(*inner) {
            Ok(n) => Ok(MutableNBTValue::Property(Box::new(n), p)),
            Err(e) => Err(e),
        },
        MutableValue::Index(inner, i) => match to_nbt(*inner) {
            Ok(n) => Ok(MutableNBTValue::Index(Box::new(n), i)),
            Err(e) => Err(e),
        },
        MutableValue::Arg(a) => Ok(MutableNBTValue::Arg(a)),
        MutableValue::CallArg(a, f, t) => if t is NBT {
            Ok(MutableNBTValue::CallArg(a, f))
        } else {
            Err(ValueError::NotNBT)
        },
        MutableValue::ReturnValue(r) => Ok(MutableNBTValue::ReturnValue(r)),
        MutableValue::CallReturnValue(r, f, t) => if t is NBT {
            Ok(MutableNBTValue::CallReturnValue(r, f))
        } else {
            Err(ValueError::NotNBT)
        },
        MutableValue::Score(_) => Err(ValueError::NotNBT),
    }
}

/// An operand as a score operand, where it is one
pub open spec fn to_score_val(v: Value) -> Result<ScoreValue, ValueError> {
    match v {
        Value::Constant(DataTypeContents::Score(s)) => Ok(ScoreValue::Constant(s)),
        Value::Constant(DataTypeContents::NBT(_)) => Err(ValueError::NotScore),
        Value::Mutable(m) => match to_score(m) {
            Ok(s) => Ok(ScoreValue::Mutable(s)),
            Err(e) => Err(e),
        },
    }
}

/// An operand as an NBT operand, where it is one
pub open spec fn to_nbt_val(v: Value) -> Result<NBTValue, ValueError> {
    match v {
        Value::Constant(DataTypeContents::NBT(n)) => Ok(NBTValue::Constant(n)),
        Value::Constant(DataTypeContents::Score(_)) => Err(ValueError::NotNBT),
        Value::Mutable(m) => match to_nbt(m) {
            Ok(n) => Ok(NBTValue::Mutable(n)),
            Err(e) => Err(e),
        },
    }
}

impl MutableValue {
    /// The registers that this value reads or writes: its own register, or
    /// that of the value it is a property or element of
    pub open spec fn used_regs(&self) -> Seq<Seq<char>>
        decreases self,
    {
        match self {
            MutableValue::Reg(r) => seq![r@],
            MutableValue::Property(v, _) => v.used_regs(),
            MutableValue::Index(v, _) => v.used_regs(),
            _ => Seq::empty(),
        }
    }

    /// Appends the registers that this value uses
    pub fn append_used_regs(&self, regs: &mut Vec<String>)
        ensures
            string_views(final(regs)@) == string_views(old(regs)@) + self.used_regs(),
        decreases self,
    {
        match self {
            MutableValue::Reg(r) => {
                push_reg(regs, r);
                assert(string_views(old(regs)@).push(r@) =~= string_views(old(regs)@) + seq![r@]);
            },
            MutableValue::Property(v, _) => {
                assert(decreases_to!(*self => **v));
                v.append_used_regs(regs)
            },
            MutableValue::Index(v, _) => {
                assert(decreases_to!(*self => **v));
                v.append_used_regs(regs)
            },
            _ => {
                assert(string_views(old(regs)@) + Seq::<Seq<char>>::empty() =~= string_views(old(regs)@));
            },
        }
    }

    /// The type of this value
    pub fn get_ty(&self, regs: &Vec<Register>, sig: &FunctionSignature) -> (r: Result<DataType, ValueError>)
        ensures
            ty_result_same(r, mut_val_ty(*self, reg_views(regs@), *sig)),
    {
        match self {
            MutableValue::Reg(id) => {
                proof {
                    lemma_reg_views_lookup(regs@, id@);
                }
                match find_register(regs, id.as_str()) {
                    Some(reg) => Ok(reg.ty.copy()),
                    None => Err(ValueError::UnknownRegister),
                }
            },
            MutableValue::Score(..) => Ok(DataType::Score(ScoreType::Score)),
            MutableValue::Data(..) | MutableValue::Property(..) | MutableValue::Index(..) => Ok(
                DataType::NBT(NBTType::Any),
            ),
            MutableValue::Arg(num) => {
                let n = *num as usize;
                if n < sig.params.len() {
                    Ok(sig.params[n].copy())
                } else {
                    Err(ValueError::ArgOutOfRange)
                }
            },
            MutableValue::ReturnValue(num) => match &sig.ret {
                ReturnType::Standard(tys) => {
                    let n = *num as usize;
                    if n < tys.len() {
                        Ok(tys[n].copy())
                    } else {
                        Err(ValueError::ReturnOutOfRange)
                    }
                },
                ReturnType::Void => Err(ValueError::NoReturnValue),
            },
            MutableValue::CallArg(_, _, ty) | MutableValue::CallReturnValue(_, _, ty) => Ok(ty.copy()),
        }
    }

    /// This value as a score, where it is one
    pub fn to_mutable_score_value(self) -> (r: Result<MutableScoreValue, ValueError>)
        ensures
            r == to_score(self),
    {
        match self {
            MutableValue::Reg(reg) => Ok(MutableScoreValue::Reg(reg)),
            MutableValue::Score(score) => Ok(MutableScoreValue::Score(score)),
            MutableValue::Arg(arg) => Ok(MutableScoreValue::Arg(arg)),
            MutableValue::CallArg(arg, func, ty) => match ty {
                DataType::Score(..) => Ok(MutableScoreValue::CallArg(arg, func)),
                _ => Err(ValueError::NotScore),
            },
            MutableValue::ReturnValue(ret) => Ok(MutableScoreValue::ReturnValue(ret)),
            MutableValue::CallReturnValue(ret, func, ty) => match ty {
                DataType::Score(..) => Ok(MutableScoreValue::CallReturnValue(ret, func)),
                _ => Err(ValueError::NotScore),
            },
            _ => Err(ValueError::NotScore),
        }
    }

    /// This value as NBT data, where it is
    pub fn to_mutable_nbt_value(self) -> (r: Result<MutableNBTValue, ValueError>)
        ensures
            r == to_nbt(self),
        decreases self,
    {
        match self {
            MutableValue::Reg(reg) => Ok(MutableNBTValue::Reg(reg)),
            MutableValue::Data(data) => Ok(MutableNBTValue::Data(data)),
            MutableValue::Property(val, prop) => match val.to_mutable_nbt_value() {
                Ok(n) => Ok(MutableNBTValue::Property(Box::new(n), prop)),
                Err(e) => Err(e),
            },
            MutableValue::Index(val, idx) => match val.to_mutable_nbt_value() {
                Ok(n) => Ok(MutableNBTValue::Index(Box::new(n), idx)),
                Err(e) => Err(e),
            },
            MutableValue::Arg(arg) => Ok(MutableNBTValue::Arg(arg)),
            MutableValue::CallArg(arg, func, ty) => match ty {
                DataType::NBT(..) => Ok(MutableNBTValue::CallArg(arg, func)),
                _ => Err(ValueError::NotNBT),
            },
            MutableValue::ReturnValue(ret) => Ok(MutableNBTValue::ReturnValue(ret)),
            MutableValue::CallReturnValue(ret, func, ty) => match ty {
                DataType::NBT(..) => Ok(MutableNBTValue::CallReturnValue(ret, func)),
                _ => Err(ValueError::NotNBT),
            },
            MutableValue::Score(..) => Err(ValueError::NotNBT),
        }
    }
}

impl Value {
    /// The registers that this operand reads
    pub open spec fn used_regs(&self) -> Seq<Seq<char>> {
        match self {
            Value::Mutable(m) => m.used_regs(),
            Value::Constant(_) => Seq::empty(),
        }
    }

    /// Appends the registers that this operand reads
    pub fn append_used_regs(&self, regs: &mut Vec<String>)
        ensures
            string_views(final(regs)@) == string_views(old(regs)@) + self.used_regs(),
    {
        match self {
            Value::Mutable(m) => m.append_used_regs(regs),
            Value::Constant(_) => {
                assert(string_views(old(regs)@) + Seq::<Seq<char>>::empty() =~= string_views(old(regs)@));
            },
        }
    }

    /// The type of this operand
    pub fn get_ty(&self, regs: &Vec<Register>, sig: &FunctionSignature) -> (r: Result<DataType, ValueError>)
        ensures
            ty_result_same(r, val_ty(*self, reg_views(regs@), *sig)),
    {
        match self {
            Value::Constant(contents) => Ok(contents.get_ty()),
            Value::Mutable(val) => val.get_ty(regs, sig),
        }
    }

    /// This operand as a score operand, where it is one
    pub fn to_score_value(self) -> (r: Result<ScoreValue, ValueError>)
        ensures
            r == to_score_val(self),
    {
        match self {
            Value::Constant(DataTypeContents::Score(score)) => Ok(ScoreValue::Constant(score)),
            Value::Constant(DataTypeContents::NBT(..)) => Err(ValueError::NotScore),
            Value::Mutable(val) => match val.to_mutable_score_value() {
                Ok(s) => Ok(ScoreValue::Mutable(s)),
                Err(e) => Err(e),
            },
        }
    }

    /// This operand as an NBT operand, where it is one
    pub fn to_nbt_value(self) -> (r: Result<NBTValue, ValueError>)
        ensures
            r == to_nbt_val(self),
    {
        match self {
            Value::Constant(DataTypeContents::NBT(nbt)) => Ok(NBTValue::Constant(nbt)),
            Value::Constant(DataTypeContents::Score(..)) => Err(ValueError::NotNBT),
            Value::Mutable(val) => match val.to_mutable_nbt_value() {
                Ok(n) => Ok(NBTValue::Mutable(n)),
                Err(e) => Err(e),
            },
        }
    }
}


/// Two scores that can be written to that name the same score
pub open spec fn msv_same(a: MutableScoreValue, b: MutableScoreValue) -> bool {
    match (a, b) {
        (MutableScoreValue::Score(x), MutableScoreValue::Score(y)) => x.value_eq(&y),
        (MutableScoreValue::Reg(x), MutableScoreValue::Reg(y)) => x@ == y@,
        (MutableScoreValue::Arg(x), MutableScoreValue::Arg(y)) => x == y,
        (MutableScoreValue::CallArg(x, f), MutableScoreValue::CallArg(y, g)) => x == y && f@ == g@,
        (MutableScoreValue::ReturnValue(x), MutableScoreValue::ReturnValue(y)) => x == y,
        (MutableScoreValue::CallReturnValue(x, f), MutableScoreValue::CallReturnValue(y, g)) => x == y && f@
            == g@,
        _ => false,
    }
}

/// Two score operands that are the same
pub open spec fn sv_same(a: ScoreValue, b: ScoreValue) -> bool {
    match (a, b) {
        (ScoreValue::Constant(x), ScoreValue::Constant(y)) => x == y,
        (ScoreValue::Mutable(x), ScoreValue::Mutable(y)) => msv_same(x, y),
        _ => false,
    }
}

/// Two pieces of NBT data that can be written to that name the same data
pub open spec fn mnv_same(a: MutableNBTValue, b: MutableNBTValue) -> bool
    decreases a,
{
    match a {
        MutableNBTValue::Data(x) => b matches MutableNBTValue::Data(y) && x.value_eq(&y),
        MutableNBTValue::Reg(x) => b matches MutableNBTValue::Reg(y) && x@ == y@,
        MutableNBTValue::Property(x, p) => b matches MutableNBTValue::Property(y, q) && mnv_same(*x, *y)
            && p@ == q@,
        MutableNBTValue::Index(x, i) => b matches MutableNBTValue::Index(y, j) && mnv_same(*x, *y) && i == j,
        MutableNBTValue::Arg(x) => b matches MutableNBTValue::Arg(y) && x == y,
        MutableNBTValue::CallArg(x, f) => b matches MutableNBTValue::CallArg(y, g) && x == y && f@ == g@,
        MutableNBTValue::ReturnValue(x) => b matches MutableNBTValue::ReturnValue(y) && x == y,
        MutableNBTValue::CallReturnValue(x, f) => b matches MutableNBTValue::CallReturnValue(y, g) && x == y
            && f@ == g@,
    }
}

/// Two NBT operands that are the same
pub open spec fn nv_same(a: NBTValue, b: NBTValue) -> bool {
    match (a, b) {
        (NBTValue::Constant(x), NBTValue::Constant(y)) => x == y,
        (NBTValue::Mutable(x), NBTValue::Mutable(y)) => mnv_same(x, y),
        _ => false,
    }
}

/// Every score is the same as itself
pub proof fn lemma_msv_same_reflexive(a: MutableScoreValue)
    ensures
        msv_same(a, a),
{
    if let MutableScoreValue::Score(s) = a {
        if let crate::common::mc::EntityTarget::Selector(sel) = s.holder {
            assert(crate::common::mc::entity::params_eq(sel.params@, sel.params@));
        }
    }
}

/// Every score operand is the same as itself
pub proof fn lemma_sv_same_reflexive(a: ScoreValue)
    ensures
        sv_same(a, a),
{
    if let ScoreValue::Mutable(m) = a {
        lemma_msv_same_reflexive(m);
    }
}

/// Every piece of NBT data is the same as itself
pub proof fn lemma_mnv_same_reflexive(a: MutableNBTValue)
    ensures
        mnv_same(a, a),
    decreases a,
{
    match a {
        MutableNBTValue::Data(d) => {
            if let crate::common::mc::DataLocation::Entity(t) = d.loc {
                if let crate::common::mc::EntityTarget::Selector(sel) = t {
                    assert(crate::common::mc::entity::params_eq(sel.params@, sel.params@));
                }
            }
        },
        MutableNBTValue::Property(x, _) => lemma_mnv_same_reflexive(*x),
        MutableNBTValue::Index(x, _) => lemma_mnv_same_reflexive(*x),
        _ => {},
    }
}

/// Every NBT operand is the same as itself
pub proof fn lemma_nv_same_reflexive(a: NBTValue)
    ensures
        nv_same(a, a),
{
    if let NBTValue::Mutable(m) = a {
        lemma_mnv_same_reflexive(m);
    }
}

impl MutableScoreValue {
    /// A copy of this score
    pub fn copy(&self) -> (r: Self)
        ensures
            msv_same(r, *self),
    {
        match self {
            MutableScoreValue::Score(s) => MutableScoreValue::Score(s.copy()),
            MutableScoreValue::Reg(r) => MutableScoreValue::Reg(r.clone()),
            MutableScoreValue::Arg(a) => MutableScoreValue::Arg(*a),
            MutableScoreValue::CallArg(a, f) => MutableScoreValue::CallArg(*a, f.clone()),
            MutableScoreValue::ReturnValue(r) => MutableScoreValue::ReturnValue(*r),
            MutableScoreValue::CallReturnValue(r, f) => MutableScoreValue::CallReturnValue(*r, f.clone()),
        }
    }
}

impl MutableNBTValue {
    /// A copy of this data
    pub fn copy(&self) -> (r: Self)
        ensures
            mnv_same(r, *self),
        decreases self,
    {
        match self {
            MutableNBTValue::Data(d) => MutableNBTValue::Data(d.copy()),
            MutableNBTValue::Reg(r) => MutableNBTValue::Reg(r.clone()),
            MutableNBTValue::Property(x, p) => MutableNBTValue::Property(Box::new(x.copy()), p.clone()),
            MutableNBTValue::Index(x, i) => MutableNBTValue::Index(Box::new(x.copy()), *i),
            MutableNBTValue::Arg(a) => MutableNBTValue::Arg(*a),
            MutableNBTValue::CallArg(a, f) => MutableNBTValue::CallArg(*a, f.clone()),
            MutableNBTValue::ReturnValue(r) => MutableNBTValue::ReturnValue(*r),
            MutableNBTValue::CallReturnValue(r, f) => MutableNBTValue::CallReturnValue(*r, f.clone()),
        }
    }
}

} // verus!
