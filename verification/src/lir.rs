//! The low-level IR: instructions that map almost one to one onto commands.
use vstd::prelude::*;

use crate::common::mc::instr::MinecraftInstr;
use crate::common::mc::modifier::Modifier;
use crate::common::val::{MutableNBTValue, MutableScoreValue, MutableValue, NBTValue, ScoreValue};
use crate::common::function::FunctionInterface;
use crate::common::Register;
use crate::strutil::string_views;

verus! {

/// A lowered program: its functions, each with its block
#[derive(Debug)]
pub struct LIR {
    pub functions: Vec<LIRFunction>,
}

impl LIR {
    pub fn new() -> (r: Self)
        ensures
            r.functions@ == Seq::<LIRFunction>::empty(),
    {
        LIR { functions: Vec::new() }
    }
}

/// A function of the lowered program: its interface, its block, and the
/// function that it was split from, if any
#[derive(Debug)]
pub struct LIRFunction {
    pub interface: FunctionInterface,
    pub block: LIRBlock,
    pub parent: Option<String>,
}

/// A block of instructions with the registers that they use
#[derive(Debug)]
pub struct LIRBlock {
    pub contents: Vec<LIRInstruction>,
    pub regs: Vec<Register>,
}

impl LIRBlock {
    pub fn new(regs: Vec<Register>) -> (r: Self)
        ensures
            r.contents@ == Seq::<LIRInstruction>::empty(),
            r.regs@ == regs@,
    {
        LIRBlock { contents: Vec::new(), regs }
    }

    /// The registers that each instruction uses, in order
    pub open spec fn uses(&self) -> Seq<Seq<Seq<char>>> {
        self.contents@.map_values(|i: LIRInstruction| i.used_regs())
    }
}

/// One instruction and the modifiers that run it
#[derive(Debug)]
pub struct LIRInstruction {
    pub kind: LIRInstrKind,
    pub modifiers: Vec<Modifier>,
}

/// The registers that a list of modifiers reads, in order
pub open spec fn mods_used_regs(ms: Seq<Modifier>) -> Seq<Seq<char>>
    decreases ms.len(),
{
    if ms.len() == 0 {
        Seq::empty()
    } else {
        mods_used_regs(ms.drop_last()) + ms.last().used_regs()
    }
}

impl LIRInstruction {
    pub fn new(kind: LIRInstrKind) -> (r: Self)
        ensures
            r.kind == kind,
            r.modifiers@ == Seq::<Modifier>::empty(),
    {
        Self::with_modifiers(kind, Vec::new())
    }

    pub fn with_modifiers(kind: LIRInstrKind, modifiers: Vec<Modifier>) -> (r: Self)
        ensures
            r.kind == kind,
            r.modifiers@ == modifiers@,
    {
        LIRInstruction { kind, modifiers }
    }

    /// The registers that this instruction uses: those of what it does, then
    /// those of its modifiers
    pub open spec fn used_regs(&self) -> Seq<Seq<char>>
        decreases self,
    {
        self.kind.used_regs() + mods_used_regs(self.modifiers@)
    }

    /// Appends the registers that this instruction uses
    pub fn append_used_regs(&self, regs: &mut Vec<String>)
        ensures
            string_views(final(regs)@) == string_views(old(regs)@) + self.used_regs(),
        decreases self,
    {
        let ghost start = string_views(old(regs)@);
        assert(decreases_to!(*self => self.kind));
        self.kind.append_used_regs(regs);
        let mut i: usize = 0;
        assert(self.modifiers@.take(0) =~= Seq::<Modifier>::empty());
        while i < self.modifiers.len()
            invariant
                i <= self.modifiers@.len(),
                string_views(regs@) == start + self.kind.used_regs() + mods_used_regs(self.modifiers@.take(i as int)),
            decreases self.modifiers.len() - i,
        {
            let ghost before = string_views(regs@);
            self.modifiers[i].append_used_regs(regs);
            assert(self.modifiers@.take(i as int + 1).drop_last() =~= self.modifiers@.take(i as int));
            assert(string_views(regs@) =~= start + self.kind.used_regs() + mods_used_regs(
                self.modifiers@.take(i as int + 1),
            ));
            i = i + 1;
        }
        assert(self.modifiers@.take(self.modifiers@.len() as int) =~= self.modifiers@);
        assert(start + self.kind.used_regs() + mods_used_regs(self.modifiers@) =~= start + self.used_regs());
    }

    /// The registers that this instruction uses, in order, with repeats
    pub fn get_used_regs(&self) -> (r: Vec<String>)
        ensures
            string_views(r@) == self.used_regs(),
    {
        let mut out: Vec<String> = Vec::new();
        self.append_used_regs(&mut out);
        assert(string_views(Seq::<String>::empty()) + self.used_regs() =~= self.used_regs());
        out
    }
}

/// What an instruction does
#[derive(Debug)]
pub enum LIRInstrKind {
    SetScore(MutableScoreValue, ScoreValue),
    AddScore(MutableScoreValue, ScoreValue),
    SubScore(MutableScoreValue, ScoreValue),
    MulScore(MutableScoreValue, ScoreValue),
    DivScore(MutableScoreValue, ScoreValue),
    ModScore(MutableScoreValue, ScoreValue),
    MinScore(MutableScoreValue, ScoreValue),
    MaxScore(MutableScoreValue, ScoreValue),
    SwapScore(MutableScoreValue, MutableScoreValue),
    ResetScore(MutableScoreValue),
    SetData(MutableNBTValue, NBTValue),
    MergeData(MutableNBTValue, NBTValue),
    GetScore(MutableScoreValue),
    GetData(MutableNBTValue, String),
    GetConst(i32),
    PushData(MutableNBTValue, NBTValue),
    PushFrontData(MutableNBTValue, NBTValue),
    InsertData(MutableNBTValue, NBTValue, i32),
    RemoveData(MutableNBTValue),
    NoOp,
    Call(String),
    ReturnValue(i32),
    ReturnFail,
    ReturnRun(Box<LIRInstruction>),
    Command(String),
    Comment(String),
    MC(MinecraftInstr),
    Use(MutableValue),
}

impl LIRInstrKind {
    /// The registers that this instruction uses: those of its left operand,
    /// then those of its right operand
    pub open spec fn used_regs(&self) -> Seq<Seq<char>>
        decreases self,
    {
        match self {
            LIRInstrKind::SetScore(l, r) => l.used_regs() + r.used_regs(),
            LIRInstrKind::AddScore(l, r) => l.used_regs() + r.used_regs(),
            LIRInstrKind::SubScore(l, r) => l.used_regs() + r.used_regs(),
            LIRInstrKind::MulScore(l, r) => l.used_regs() + r.used_regs(),
            LIRInstrKind::DivScore(l, r) => l.used_regs() + r.used_regs(),
            LIRInstrKind::ModScore(l, r) => l.used_regs() + r.used_regs(),
            LIRInstrKind::MinScore(l, r) => l.used_regs() + r.used_regs(),
            LIRInstrKind::MaxScore(l, r) => l.used_regs() + r.used_regs(),
            LIRInstrKind::SwapScore(l, r) => l.used_regs() + r.used_regs(),
            LIRInstrKind::ResetScore(v) => v.used_regs(),
            LIRInstrKind::SetData(l, r) => l.used_regs() + r.used_regs(),
            LIRInstrKind::MergeData(l, r) => l.used_regs() + r.used_regs(),
            LIRInstrKind::GetScore(v) => v.used_regs(),
            LIRInstrKind::GetData(v, _) => v.used_regs(),
            LIRInstrKind::PushData(l, r) => l.used_regs() + r.used_regs(),
            LIRInstrKind::PushFrontData(l, r) => l.used_regs() + r.used_regs(),
            LIRInstrKind::InsertData(l, r, _) => l.used_regs() + r.used_regs(),
            LIRInstrKind::RemoveData(v) => v.used_regs(),
            LIRInstrKind::Use(v) => v.used_regs(),
            LIRInstrKind::ReturnRun(body) => body.used_regs(),
            _ => Seq::empty(),
        }
    }

    /// Appends the registers that this instruction uses
    pub fn append_used_regs(&self, regs: &mut Vec<String>)
        ensures
            string_views(final(regs)@) == string_views(old(regs)@) + self.used_regs(),
        decreases self,
    {
        let ghost start = string_views(old(regs)@);
        match self {
            LIRInstrKind::SetScore(l, r) | LIRInstrKind::AddScore(l, r) | LIRInstrKind::SubScore(
                l,
                r,
            ) | LIRInstrKind::MulScore(l, r) | LIRInstrKind::DivScore(l, r) | LIRInstrKind::ModScore(
                l,
                r,
            ) | LIRInstrKind::MinScore(l, r) | LIRInstrKind::MaxScore(l, r) => {
                l.append_used_regs(regs);
                r.append_used_regs(regs);
                assert(start + l.used_regs() + r.used_regs() =~= start + (l.used_regs()
                    + r.used_regs()));
            },
            LIRInstrKind::SetData(l, r) | LIRInstrKind::MergeData(l, r) | LIRInstrKind::PushData(
                l,
                r,
            ) | LIRInstrKind::PushFrontData(l, r) | LIRInstrKind::InsertData(l, r, _) => {
                l.append_used_regs(regs);
                r.append_used_regs(regs);
                assert(start + l.used_regs() + r.used_regs() =~= start + (l.used_regs()
                    + r.used_regs()));
            },
            LIRInstrKind::SwapScore(l, r) => {
                l.append_used_regs(regs);
                r.append_used_regs(regs);
                assert(start + l.used_regs() + r.used_regs() =~= start + (l.used_regs()
                    + r.used_regs()));
            },
            LIRInstrKind::GetScore(v) | LIRInstrKind::ResetScore(v) => v.append_used_regs(regs),
            LIRInstrKind::GetData(v, _) => v.append_used_regs(regs),
            LIRInstrKind::RemoveData(v) => v.append_used_regs(regs),
            LIRInstrKind::Use(v) => v.append_used_regs(regs),
            LIRInstrKind::ReturnRun(body) => {
                assert(decreases_to!(*self => **body));
                body.append_used_regs(regs)
            },
            _ => {
                assert(start + Seq::<Seq<char>>::empty() =~= start);
            },
        }
    }
}

} // verus!
