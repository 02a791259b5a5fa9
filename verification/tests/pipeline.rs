use dpc::common::condition::Condition;
use dpc::common::function::FunctionInterface;
use dpc::common::mc::instr::MinecraftInstr;
use dpc::common::ty::{DataType, DataTypeContents, ScoreType, ScoreTypeContents};
use dpc::common::val::{MutableValue, Value};
use dpc::common::DeclareBinding;
use dpc::ir::{Block, IRFunction, InstrKind, Instruction, IR};
use dpc::lower::mir_to_lir::LowerError;
use dpc::output::strip::StripMode;
use dpc::{codegen_ir, CodegenIRError};

fn score_const(n: i32) -> Value {
    Value::Constant(DataTypeContents::Score(ScoreTypeContents::Score(n)))
}

fn function(id: &str, kinds: Vec<InstrKind>) -> IRFunction {
    IRFunction {
        interface: FunctionInterface::new(id.to_string()),
        block: Block::with_contents(kinds.into_iter().map(Instruction::new).collect()),
    }
}

#[test]
fn a_program_becomes_a_datapack() {
    let mut ir = IR::new();
    ir.functions.push(function(
        "pack:main",
        vec![
            InstrKind::Declare {
                left: "x".into(),
                ty: DataType::Score(ScoreType::Score),
                right: DeclareBinding::Value(score_const(3)),
            },
            InstrKind::Add { left: MutableValue::Reg("x".into()), right: score_const(2) },
            InstrKind::MC(MinecraftInstr::Say { message: "done".into() }),
        ],
    ));
    let pack = codegen_ir(ir, "pack", StripMode::Keep).unwrap();
    let names: Vec<&str> = pack.functions.iter().map(|(k, _)| k.as_str()).collect();
    assert_eq!(names, vec!["pack:main", "pack:dpc_init"]);
    assert_eq!(
        pack.functions[0].1.contents,
        vec![
            "scoreboard players set %rpack_main0 _r 3".to_string(),
            "scoreboard players add %rpack_main0 _r 2".to_string(),
            "say done".to_string(),
        ]
    );
    assert_eq!(pack.function_tags[0].0, "minecraft:load");
}

#[test]
fn an_unknown_register_stops_the_routine() {
    let mut ir = IR::new();
    ir.functions.push(function(
        "pack:main",
        vec![InstrKind::Add { left: MutableValue::Reg("y".into()), right: score_const(2) }],
    ));
    let r = codegen_ir(ir, "pack", StripMode::Keep);
    assert!(matches!(r, Err(CodegenIRError::Lower(LowerError::Value(_)))));
}

#[test]
fn an_if_becomes_an_execute_command() {
    let mut ir = IR::new();
    ir.functions.push(function(
        "pack:main",
        vec![
            InstrKind::Declare {
                left: "x".into(),
                ty: DataType::Score(ScoreType::Score),
                right: DeclareBinding::Value(score_const(3)),
            },
            InstrKind::If {
                condition: Condition::Equal(Value::Mutable(MutableValue::Reg("x".into())), score_const(3)),
                body: Box::new(Block::with_contents(vec![Instruction::new(InstrKind::MC(MinecraftInstr::Say {
                    message: "three".into(),
                }))])),
            },
        ],
    ));
    let pack = codegen_ir(ir, "pack", StripMode::Keep).unwrap();
    assert_eq!(
        pack.functions[0].1.contents,
        vec![
            "scoreboard players set %rpack_main0 _r 3".to_string(),
            "execute if score %rpack_main0 _r matches 3 run say three".to_string(),
        ]
    );
}
