//! Arithmetic and data operations of the mid-level IR seen apart from the
//! instructions that hold them: the value that they change, the operand,
//! and what they do.
use vstd::prelude::*;

use crate::common::val::{MutableValue, Value};
use crate::mir::MIRInstrKind;

verus! {

/// An operation on one value or on two
#[derive(Debug)]
pub enum Operation {
    Single(SingleOperation),
    Double(DoubleOperation),
}

/// An operation that changes one value
#[derive(Debug)]
pub struct SingleOperation {
    pub val: MutableValue,
    pub kind: SingleOperationKind,
}

/// What a single operation does
#[derive(Debug, Clone, Copy, PartialEq, Eq, Structural)]
pub enum SingleOperationKind {
    Abs,
    Not,
    Pow(u8),
}

/// An operation that changes one value using another
#[derive(Debug)]
pub struct DoubleOperation {
    pub left: MutableValue,
    pub right: Value,
    pub kind: DoubleOperationKind,
}

/// What a double operation does
#[derive(Debug, Clone, Copy, PartialEq, Eq, Structural)]
pub enum DoubleOperationKind {
    Add,
    Sub,
    Mul,
    Div,
    Mod,
    Min,
    Max,
    Merge,
    Push,
    PushFront,
    Insert(i32),
    Or,
    And,
}

/// The instruction of a single operation
pub open spec fn single_to_instr(op: SingleOperation) -> MIRInstrKind {
    match op.kind {
        SingleOperationKind::Abs => MIRInstrKind::Abs { val: op.val },
        SingleOperationKind::Not => MIRInstrKind::Not { value: op.val },
        SingleOperationKind::Pow(exp) => MIRInstrKind::Pow { base: op.val, exp },
    }
}

/// The single operation of an instruction, where it is one
pub open spec fn single_from_instr(instr: MIRInstrKind) -> Option<SingleOperation> {
    match instr {
        MIRInstrKind::Abs { val } => Some(SingleOperation { val, kind: SingleOperationKind::Abs }),
        MIRInstrKind::Not { value } => Some(SingleOperation { val: value, kind: SingleOperationKind::Not }),
        MIRInstrKind::Pow { base, exp } => Some(SingleOperation { val: base, kind: SingleOperationKind::Pow(exp) }),
        _ => None,
    }
}

/// The instruction of a double operation
pub open spec fn double_to_instr(op: DoubleOperation) -> MIRInstrKind {
    match op.kind {
        DoubleOperationKind::Add => MIRInstrKind::Add { left: op.left, right: op.right },
        DoubleOperationKind::Sub => MIRInstrKind::Sub { left: op.left, right: op.right },
        DoubleOperationKind::Mul => MIRInstrKind::Mul { left: op.left, right: op.right },
        DoubleOperationKind::Div => MIRInstrKind::Div { left: op.left, right: op.right },
        DoubleOperationKind::Mod => MIRInstrKind::Mod { left: op.left, right: op.right },
        DoubleOperationKind::Min => MIRInstrKind::Min { left: op.left, right: op.right },
        DoubleOperationKind::Max => MIRInstrKind::Max { left: op.left, right: op.right },
        DoubleOperationKind::Merge => MIRInstrKind::Merge { left: op.left, right: op.right },
        DoubleOperationKind::Push => MIRInstrKind::Push { left: op.left, right: op.right },
        DoubleOperationKind::PushFront => MIRInstrKind::PushFront { left: op.left, right: op.right },
        DoubleOperationKind::Or => MIRInstrKind::Or { left: op.left, right: op.right },
        DoubleOperationKind::And => MIRInstrKind::And { left: op.left, right: op.right },
        DoubleOperationKind::Insert(i) => MIRInstrKind::Insert { left: op.left, right: op.right, index: i },
    }
}

/// The double operation of an instruction, where it is one
pub open spec fn double_from_instr(instr: MIRInstrKind) -> Option<DoubleOperation> {
    match instr {
        MIRInstrKind::Add { left, right } => Some(DoubleOperation { left, right, kind: DoubleOperationKind::Add }),
        MIRInstrKind::Sub { left, right } => Some(DoubleOperation { left, right, kind: DoubleOperationKind::Sub }),
        MIRInstrKind::Mul { left, right } => Some(DoubleOperation { left, right, kind: DoubleOperationKind::Mul }),
        MIRInstrKind::Div { left, right } => Some(DoubleOperation { left, right, kind: DoubleOperationKind::Div }),
        MIRInstrKind::Mod { left, right } => Some(DoubleOperation { left, right, kind: DoubleOperationKind::Mod }),
        MIRInstrKind::Min { left, right } => Some(DoubleOperation { left, right, kind: DoubleOperationKind::Min }),
        MIRInstrKind::Max { left, right } => Some(DoubleOperation { left, right, kind: DoubleOperationKind::Max }),
        MIRInstrKind::Merge { left, right } => Some(DoubleOperation { left, right, kind: DoubleOperationKind::Merge }),
        MIRInstrKind::Push { left, right } => Some(DoubleOperation { left, right, kind: DoubleOperationKind::Push }),
        MIRInstrKind::PushFront { left, right } => Some(DoubleOperation { left, right, kind: DoubleOperationKind::PushFront }),
        MIRInstrKind::Or { left, right } => Some(DoubleOperation { left, right, kind: DoubleOperationKind::Or }),
        MIRInstrKind::And { left, right } => Some(DoubleOperation { left, right, kind: DoubleOperationKind::And }),
        MIRInstrKind::Insert { left, right, index } => Some(DoubleOperation { left, right, kind: DoubleOperationKind::Insert(index) }),
        _ => None,
    }
}

/// The instruction of an operation
pub open spec fn op_to_instr(op: Operation) -> MIRInstrKind {
    match op {
        Operation::Single(s) => single_to_instr(s),
        Operation::Double(d) => double_to_instr(d),
    }
}

/// The operation of an instruction, where it is one
pub open spec fn op_from_instr(instr: MIRInstrKind) -> Option<Operation> {
    match single_from_instr(instr) {
        Some(s) => Some(Operation::Single(s)),
        None => match double_from_instr(instr) {
            Some(d) => Some(Operation::Double(d)),
            None => None,
        },
    }
}

impl SingleOperation {
    /// The instruction that performs this operation
    pub fn to_instr(self) -> (r: MIRInstrKind)
        ensures
            r == single_to_instr(self),
    {
        match self.kind {
            SingleOperationKind::Abs => MIRInstrKind::Abs { val: self.val },
            SingleOperationKind::Not => MIRInstrKind::Not { value: self.val },
            SingleOperationKind::Pow(exp) => MIRInstrKind::Pow { base: self.val, exp },
        }
    }

    /// The operation that an instruction performs, where it is a single one
    pub fn from_instr(instr: MIRInstrKind) -> (r: Option<Self>)
        ensures
            r == single_from_instr(instr),
    {
        match instr {
            MIRInstrKind::Abs { val } => Some(SingleOperation { val, kind: SingleOperationKind::Abs }),
            MIRInstrKind::Not { value } => Some(SingleOperation { val: value, kind: SingleOperationKind::Not }),
            MIRInstrKind::Pow { base, exp } => Some(SingleOperation { val: base, kind: SingleOperationKind::Pow(exp) }),
            _ => None,
        }
    }
}

impl DoubleOperation {
    /// The instruction that performs this operation
    pub fn to_instr(self) -> (r: MIRInstrKind)
        ensures
            r == double_to_instr(self),
    {
        match self.kind {
            DoubleOperationKind::Add => MIRInstrKind::Add { left: self.left, right: self.right },
            DoubleOperationKind::Sub => MIRInstrKind::Sub { left: self.left, right: self.right },
            DoubleOperationKind::Mul => MIRInstrKind::Mul { left: self.left, right: self.right },
            DoubleOperationKind::Div => MIRInstrKind::Div { left: self.left, right: self.right },
            DoubleOperationKind::Mod => MIRInstrKind::Mod { left: self.left, right: self.right },
            DoubleOperationKind::Min => MIRInstrKind::Min { left: self.left, right: self.right },
            DoubleOperationKind::Max => MIRInstrKind::Max { left: self.left, right: self.right },
            DoubleOperationKind::Merge => MIRInstrKind::Merge { left: self.left, right: self.right },
            DoubleOperationKind::Push => MIRInstrKind::Push { left: self.left, right: self.right },
            DoubleOperationKind::PushFront => MIRInstrKind::PushFront { left: self.left, right: self.right },
            DoubleOperationKind::Or => MIRInstrKind::Or { left: self.left, right: self.right },
            DoubleOperationKind::And => MIRInstrKind::And { left: self.left, right: self.right },
            DoubleOperationKind::Insert(i) => MIRInstrKind::Insert { left: self.left, right: self.right, index: i },
        }
    }

    /// The operation that an instruction performs, where it is a double one
    pub fn from_instr(instr: MIRInstrKind) -> (r: Option<Self>)
        ensures
            r == double_from_instr(instr),
    {
        match instr {
            MIRInstrKind::Add { left, right } => Some(DoubleOperation { left, right, kind: DoubleOperationKind::Add }),
            MIRInstrKind::Sub { left, right } => Some(DoubleOperation { left, right, kind: DoubleOperationKind::Sub }),
            MIRInstrKind::Mul { left, right } => Some(DoubleOperation { left, right, kind: DoubleOperationKind::Mul }),
            MIRInstrKind::Div { left, right } => Some(DoubleOperation { left, right, kind: DoubleOperationKind::Div }),
            MIRInstrKind::Mod { left, right } => Some(DoubleOperation { left, right, kind: DoubleOperationKind::Mod }),
            MIRInstrKind::Min { left, right } => Some(DoubleOperation { left, right, kind: DoubleOperationKind::Min }),
            MIRInstrKind::Max { left, right } => Some(DoubleOperation { left, right, kind: DoubleOperationKind::Max }),
            MIRInstrKind::Merge { left, right } => Some(DoubleOperation { left, right, kind: DoubleOperationKind::Merge }),
            MIRInstrKind::Push { left, right } => Some(DoubleOperation { left, right, kind: DoubleOperationKind::Push }),
            MIRInstrKind::PushFront { left, right } => Some(DoubleOperation { left, right, kind: DoubleOperationKind::PushFront }),
            MIRInstrKind::Or { left, right } => Some(DoubleOperation { left, right, kind: DoubleOperationKind::Or }),
            MIRInstrKind::And { left, right } => Some(DoubleOperation { left, right, kind: DoubleOperationKind::And }),
            MIRInstrKind::Insert { left, right, index } => Some(DoubleOperation { left, right, kind: DoubleOperationKind::Insert(index) }),
            _ => None,
        }
    }
}

impl Operation {
    /// The instruction that performs this operation
    pub fn to_instr(self) -> (r: MIRInstrKind)
        ensures
            r == op_to_instr(self),
    {
        match self {
            Operation::Single(op) => op.to_instr(),
            Operation::Double(op) => op.to_instr(),
        }
    }

    /// The operation that an instruction performs, where it is one
    pub fn from_instr(instr: MIRInstrKind) -> (r: Option<Self>)
        ensures
            r == op_from_instr(instr),
    {
        match instr {
            MIRInstrKind::Abs { .. } | MIRInstrKind::Not { .. } | MIRInstrKind::Pow { .. } => match SingleOperation::from_instr(instr) {
                Some(op) => Some(Operation::Single(op)),
                None => None,
            },
            _ => match DoubleOperation::from_instr(instr) {
                Some(op) => Some(Operation::Double(op)),
                None => None,
            },
        }
    }

    /// Replaces the value that this operation changes
    pub fn set_lhs(&mut self, lhs: MutableValue)
        ensures
            match (*old(self), *final(self)) {
                (Operation::Single(a), Operation::Single(b)) => b == SingleOperation { val: lhs, kind: a.kind },
                (Operation::Double(a), Operation::Double(b)) => b == DoubleOperation { left: lhs, right: a.right, kind: a.kind },
                _ => false,
            },
    {
        match self {
            Operation::Single(op) => op.val = lhs,
            Operation::Double(op) => op.left = lhs,
        }
    }

    /// The operand of a double operation
    pub fn get_rhs(&self) -> (r: Option<&Value>)
        ensures
            match *self {
                Operation::Single(_) => r is None,
                Operation::Double(op) => r == Some(&op.right),
            },
    {
        match self {
            Operation::Single(..) => None,
            Operation::Double(op) => Some(&op.right),
        }
    }
}

/// Turning an operation into its instruction and back gives the operation
/// again.
pub proof fn lemma_op_round_trip(op: Operation)
    ensures
        op_from_instr(op_to_instr(op)) == Some(op),
{
}

/// An instruction that holds an operation is the instruction of that
/// operation.
pub proof fn lemma_instr_round_trip(instr: MIRInstrKind)
    ensures
        op_from_instr(instr) matches Some(op) ==> op_to_instr(op) == instr,
{
}

/// No instruction is both a single-operand and a two-operand operation.
pub proof fn lemma_single_double_disjoint(instr: MIRInstrKind)
    ensures
        !(single_from_instr(instr) is Some && double_from_instr(instr) is Some),
{
}

} // verus!
