//! The mid-level IR: instructions over values whose kind (score or NBT) is
//! known from their types, not yet from their shape.
use vstd::prelude::*;

use crate::common::condition::Condition;
use crate::common::mc::instr::MinecraftInstr;
use crate::common::mc::modifier::StoreModLocation;
use crate::common::mc::EntityTarget;
use crate::common::function::{CallInterface, FunctionInterface};
use crate::common::ty::DataType;
use crate::common::val::{MutableValue, Value};
use crate::common::DeclareBinding;

verus! {

/// A program in the mid-level IR
#[derive(Debug)]
pub struct MIR {
    pub functions: Vec<MIRFunction>,
}

impl MIR {
    pub fn new() -> (r: Self)
        ensures
            r.functions@ == Seq::<MIRFunction>::empty(),
    {
        MIR { functions: Vec::new() }
    }
}

/// A function of the mid-level IR and its body
#[derive(Debug)]
pub struct MIRFunction {
    pub interface: FunctionInterface,
    pub block: MIRBlock,
}

/// A list of instructions
#[derive(Debug)]
pub struct MIRBlock {
    pub contents: Vec<MIRInstruction>,
}

impl MIRBlock {
    pub fn new() -> (r: Self)
        ensures
            r.contents@ == Seq::<MIRInstruction>::empty(),
    {
        Self::with_contents(Vec::new())
    }

    pub fn with_contents(contents: Vec<MIRInstruction>) -> (r: Self)
        ensures
            r.contents == contents,
    {
        MIRBlock { contents }
    }
}

/// One instruction
#[derive(Debug)]
pub struct MIRInstruction {
    pub kind: MIRInstrKind,
}

impl MIRInstruction {
    pub fn new(kind: MIRInstrKind) -> (r: Self)
        ensures
            r.kind == kind,
    {
        MIRInstruction { kind }
    }
}

/// What an instruction does
#[derive(Debug)]
pub enum MIRInstrKind {
    Declare { left: String, ty: DataType },
    Assign { left: MutableValue, right: DeclareBinding },
    Add { left: MutableValue, right: Value },
    Sub { left: MutableValue, right: Value },
    Mul { left: MutableValue, right: Value },
    Div { left: MutableValue, right: Value },
    Mod { left: MutableValue, right: Value },
    Min { left: MutableValue, right: Value },
    Max { left: MutableValue, right: Value },
    Swap { left: MutableValue, right: MutableValue },
    Remove { val: MutableValue },
    Abs { val: MutableValue },
    Pow { base: MutableValue, exp: u8 },
    Get { value: MutableValue, scale: String },
    GetConst { value: i32 },
    Merge { left: MutableValue, right: Value },
    Push { left: MutableValue, right: Value },
    PushFront { left: MutableValue, right: Value },
    Insert { left: MutableValue, right: Value, index: i32 },
    Not { value: MutableValue },
    And { left: MutableValue, right: Value },
    Or { left: MutableValue, right: Value },
    Call { call: CallInterface },
    CallExtern { func: String },
    ReturnValue { index: u16, value: Value },
    Return { value: Value },
    NoOp,
    Command { command: String },
    Comment { comment: String },
    MC(MinecraftInstr),
    Use { val: MutableValue },
    If { condition: Condition, body: Box<MIRBlock> },
    ReturnRun { body: Box<MIRBlock> },
    As { target: EntityTarget, body: Box<MIRBlock> },
    At { target: EntityTarget, body: Box<MIRBlock> },
    StoreResult { location: StoreModLocation, body: Box<MIRBlock> },
    StoreSuccess { location: StoreModLocation, body: Box<MIRBlock> },
}

} // verus!
