use dpc::common::op::{DoubleOperation, DoubleOperationKind, Operation, SingleOperation, SingleOperationKind};
use dpc::common::ty::{DataTypeContents, ScoreTypeContents};
use dpc::common::val::{MutableValue, Value};
use dpc::mir::MIRInstrKind;

fn reg(id: &str) -> MutableValue {
    MutableValue::Reg(id.to_string())
}

fn one() -> Value {
    Value::Constant(DataTypeContents::Score(ScoreTypeContents::Score(1)))
}

#[test]
fn double_operations_come_from_two_operand_instructions() {
    let op = DoubleOperation::from_instr(MIRInstrKind::Insert { left: reg("l"), right: one(), index: 4 }).unwrap();
    assert_eq!(op.kind, DoubleOperationKind::Insert(4));
    assert!(matches!(op.left, MutableValue::Reg(ref r) if r == "l"));
    assert!(DoubleOperation::from_instr(MIRInstrKind::NoOp).is_none());
    assert!(DoubleOperation::from_instr(MIRInstrKind::Abs { val: reg("x") }).is_none());
}

#[test]
fn operations_turn_back_into_their_instructions() {
    let op = DoubleOperation { left: reg("a"), right: one(), kind: DoubleOperationKind::Max };
    assert!(matches!(op.to_instr(), MIRInstrKind::Max { left: MutableValue::Reg(ref r), .. } if r == "a"));
    let op = SingleOperation { val: reg("b"), kind: SingleOperationKind::Pow(3) };
    assert!(matches!(op.to_instr(), MIRInstrKind::Pow { exp: 3, .. }));
    let back = Operation::from_instr(MIRInstrKind::Sub { left: reg("c"), right: one() }).unwrap();
    assert!(matches!(back.to_instr(), MIRInstrKind::Sub { left: MutableValue::Reg(ref r), .. } if r == "c"));
}

#[test]
fn operation_kinds_and_operands() {
    let mut op = Operation::from_instr(MIRInstrKind::Not { value: reg("x") }).unwrap();
    assert!(matches!(op, Operation::Single(SingleOperation { kind: SingleOperationKind::Not, .. })));
    assert!(op.get_rhs().is_none());
    op.set_lhs(reg("y"));
    assert!(matches!(op, Operation::Single(SingleOperation { val: MutableValue::Reg(ref r), .. }) if r == "y"));
    let op = Operation::from_instr(MIRInstrKind::Or { left: reg("x"), right: one() }).unwrap();
    assert!(op.get_rhs().is_some());
    assert!(Operation::from_instr(MIRInstrKind::Comment { comment: "c".to_string() }).is_none());
}
