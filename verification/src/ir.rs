//! The high-level IR that the front end produces: functions made of blocks
//! of instructions over values.
use vstd::prelude::*;

use crate::common::condition::Condition;
use crate::common::mc::instr::MinecraftInstr;
use crate::common::function::{CallInterface, FunctionInterface};
use crate::common::ty::DataType;
use crate::common::val::{MutableValue, Value};
use crate::common::DeclareBinding;

verus! {

/// A program in the high-level IR
#[derive(Debug)]
pub struct IR {
    pub functions: Vec<IRFunction>,
}

impl IR {
    pub fn new() -> (r: Self)
        ensures
            r.functions@ == Seq::<IRFunction>::empty(),
    {
        IR { functions: Vec::new() }
    }
}

/// A function of the IR and its body
#[derive(Debug)]
pub struct IRFunction {
    pub interface: FunctionInterface,
    pub block: Block,
}

/// A list of instructions
#[derive(Debug)]
pub struct Block {
    pub contents: Vec<Instruction>,
}

impl Block {
    pub fn new() -> (r: Self)
        ensures
            r.contents@ == Seq::<Instruction>::empty(),
    {
        Self::with_contents(Vec::new())
    }

    pub fn with_contents(contents: Vec<Instruction>) -> (r: Self)
        ensures
            r.contents == contents,
    {
        Block { contents }
    }

    /// A block of one instruction
    pub fn from_single(instr: InstrKind) -> (r: Self)
        ensures
            r.contents@.len() == 1,
            r.contents@[0].kind == instr,
    {
        let mut contents = Vec::new();
        contents.push(Instruction::new(instr));
        Self::with_contents(contents)
    }
}

/// One instruction
#[derive(Debug)]
pub struct Instruction {
    pub kind: InstrKind,
}

impl Instruction {
    pub fn new(kind: InstrKind) -> (r: Self)
        ensures
            r.kind == kind,
    {
        Instruction { kind }
    }
}

/// What an instruction does
#[derive(Debug)]
pub enum InstrKind {
    Declare { left: String, ty: DataType, right: DeclareBinding },
    Assign { left: MutableValue, right: Value },
    Add { left: MutableValue, right: Value },
    Sub { left: MutableValue, right: Value },
    Mul { left: MutableValue, right: Value },
    Div { left: MutableValue, right: Value },
    Mod { left: MutableValue, right: Value },
    Min { left: MutableValue, right: Value },
    Max { left: MutableValue, right: Value },
    Swap { left: MutableValue, right: MutableValue },
    Remove { val: MutableValue },
    Abs { val: MutableValue },
    Pow { base: MutableValue, exp: u8 },
    Get { value: MutableValue, scale: String },
    Merge { left: MutableValue, right: Value },
    Push { left: MutableValue, right: Value },
    PushFront { left: MutableValue, right: Value },
    Insert { left: MutableValue, right: Value, index: i32 },
    Not { value: MutableValue },
    And { left: MutableValue, right: Value },
    Or { left: MutableValue, right: Value },
    Call { call: CallInterface },
    CallExtern { func: String },
    ReturnValue { index: u16, value: Value },
    Return { value: Value },
    Command { command: String },
    Comment { comment: String },
    MC(MinecraftInstr),
    Use { val: MutableValue },
    If { condition: Condition, body: Box<Block> },
    ReturnRun { body: Box<Block> },
}

} // verus!
