use dpc::common::condition::Condition;
use dpc::common::function::FunctionInterface;
use dpc::common::mc::instr::MinecraftInstr;
use dpc::common::ty::{DataType, DataTypeContents, ScoreType, ScoreTypeContents};
use dpc::common::val::{MutableValue, Value};
use dpc::common::DeclareBinding;
use dpc::ir::{Block, IRFunction, InstrKind, Instruction, IR};
use dpc::lower::ir_to_mir::lower_ir;
use dpc::mir::MIRInstrKind;

fn score_const(n: i32) -> Value {
    Value::Constant(DataTypeContents::Score(ScoreTypeContents::Score(n)))
}

fn function(id: &str, kinds: Vec<InstrKind>) -> IRFunction {
    IRFunction {
        interface: FunctionInterface::new(id.to_string()),
        block: Block::with_contents(kinds.into_iter().map(Instruction::new).collect()),
    }
}

#[test]
fn a_declaration_becomes_a_declaration_and_an_assignment() {
    let mut ir = IR::new();
    ir.functions.push(function(
        "p:main",
        vec![InstrKind::Declare {
            left: "x".into(),
            ty: DataType::Score(ScoreType::Score),
            right: DeclareBinding::Value(score_const(3)),
        }],
    ));
    let mir = lower_ir(ir).unwrap();
    assert_eq!(mir.functions.len(), 1);
    let contents = &mir.functions[0].block.contents;
    assert_eq!(contents.len(), 2);
    assert!(matches!(&contents[0].kind, MIRInstrKind::Declare { left, ty: DataType::Score(ScoreType::Score) } if left == "x"));
    assert!(matches!(
        &contents[1].kind,
        MIRInstrKind::Assign {
            left: MutableValue::Reg(r),
            right: DeclareBinding::Value(Value::Constant(DataTypeContents::Score(ScoreTypeContents::Score(3)))),
        } if r == "x"
    ));
}

#[test]
fn other_instructions_keep_their_shape_and_order() {
    let mut ir = IR::new();
    ir.functions.push(function(
        "p:main",
        vec![
            InstrKind::Assign { left: MutableValue::Reg("x".into()), right: score_const(1) },
            InstrKind::Add { left: MutableValue::Reg("x".into()), right: score_const(2) },
            InstrKind::MC(MinecraftInstr::Reload),
            InstrKind::Comment { comment: "done".into() },
        ],
    ));
    ir.functions.push(function("p:other", vec![]));
    let mir = lower_ir(ir).unwrap();
    assert_eq!(mir.functions.len(), 2);
    assert_eq!(mir.functions[0].interface.id, "p:main");
    assert_eq!(mir.functions[1].interface.id, "p:other");
    let contents = &mir.functions[0].block.contents;
    assert_eq!(contents.len(), 4);
    assert!(matches!(
        &contents[0].kind,
        MIRInstrKind::Assign { right: DeclareBinding::Value(Value::Constant(DataTypeContents::Score(ScoreTypeContents::Score(1)))), .. }
    ));
    assert!(matches!(&contents[1].kind, MIRInstrKind::Add { .. }));
    assert!(matches!(&contents[2].kind, MIRInstrKind::MC(MinecraftInstr::Reload)));
    assert!(matches!(&contents[3].kind, MIRInstrKind::Comment { comment } if comment == "done"));
    assert!(mir.functions[1].block.contents.is_empty());
}

#[test]
fn blocks_are_lowered_in_turn() {
    let mut ir = IR::new();
    ir.functions.push(function(
        "p:main",
        vec![InstrKind::If {
            condition: Condition::Exists(score_const(1)),
            body: Box::new(Block::with_contents(vec![Instruction::new(InstrKind::Declare {
                left: "y".into(),
                ty: DataType::Score(ScoreType::Score),
                right: DeclareBinding::Null,
            })])),
        }],
    ));
    let mir = lower_ir(ir).unwrap();
    let contents = &mir.functions[0].block.contents;
    assert_eq!(contents.len(), 1);
    match &contents[0].kind {
        MIRInstrKind::If { condition: Condition::Exists(_), body } => {
            assert_eq!(body.contents.len(), 2);
            assert!(matches!(&body.contents[0].kind, MIRInstrKind::Declare { left, .. } if left == "y"));
            assert!(matches!(&body.contents[1].kind, MIRInstrKind::Assign { right: DeclareBinding::Null, .. }));
        },
        _ => panic!("expected an if"),
    }
}
