use dpc::common::function::FunctionInterface;
use dpc::common::ty::{DataType, ScoreType, ScoreTypeContents};
use dpc::common::val::{MutableScoreValue, ScoreValue};
use dpc::common::Register;
use dpc::lir::{LIRBlock, LIRFunction, LIRInstrKind, LIRInstruction, LIR};
use dpc::output::codegen::CodegenError;
use dpc::output::link;
use dpc::output::strip::StripMode;

fn function(id: &str, regs: Vec<Register>, kinds: Vec<LIRInstrKind>, parent: Option<&str>) -> LIRFunction {
    let mut block = LIRBlock::new(regs);
    for k in kinds {
        block.contents.push(LIRInstruction::new(k));
    }
    LIRFunction { interface: FunctionInterface::new(id.to_string()), block, parent: parent.map(|p| p.to_string()) }
}

fn score_reg(id: &str) -> Register {
    Register { id: id.to_string(), ty: DataType::Score(ScoreType::Score) }
}

fn set_reg(id: &str, n: i32) -> LIRInstrKind {
    LIRInstrKind::SetScore(MutableScoreValue::Reg(id.to_string()), ScoreValue::Constant(ScoreTypeContents::Score(n)))
}

fn names(pack: &dpc::output::datapack::Datapack) -> Vec<String> {
    pack.functions.iter().map(|(k, _)| k.clone()).collect()
}

#[test]
fn functions_keep_their_names_and_registers_get_a_setup_function() {
    let mut lir = LIR::new();
    lir.functions.push(function("pack:main", vec![score_reg("x")], vec![set_reg("x", 5)], None));
    lir.functions.push(function(
        "pack:main_body",
        vec![],
        vec![LIRInstrKind::Call("pack:main".to_string())],
        Some("pack:main"),
    ));
    let pack = link(lir, StripMode::Keep, "pack").unwrap();
    assert_eq!(names(&pack), vec!["pack:main", "pack:main_body", "pack:dpc_init"]);
    assert_eq!(pack.functions[0].1.contents, vec!["scoreboard players set %rpack_main0 _r 5".to_string()]);
    assert_eq!(pack.functions[1].1.contents, vec!["function pack:main".to_string()]);
    assert_eq!(pack.functions[2].1.contents, vec!["scoreboard objectives add _r dummy".to_string()]);
    assert_eq!(pack.function_tags.len(), 1);
    assert_eq!(pack.function_tags[0].0, "minecraft:load");
    assert_eq!(pack.function_tags[0].1.inner.values, vec!["pack:dpc_init".to_string()]);
}

#[test]
fn a_split_function_names_its_registers_after_its_parent() {
    let mut lir = LIR::new();
    lir.functions.push(function("pack:child", vec![score_reg("y")], vec![set_reg("y", 2)], Some("pack:parent")));
    let pack = link(lir, StripMode::Keep, "pack").unwrap();
    assert_eq!(pack.functions[0].0, "pack:child");
    assert_eq!(pack.functions[0].1.contents, vec!["scoreboard players set %rpack_parent0 _r 2".to_string()]);
}

#[test]
fn nothing_to_set_up_gives_no_setup_function() {
    let mut lir = LIR::new();
    lir.functions.push(function("pack:main", vec![], vec![LIRInstrKind::NoOp], None));
    let pack = link(lir, StripMode::Keep, "pack").unwrap();
    assert_eq!(names(&pack), vec!["pack:main"]);
    assert!(pack.functions[0].1.contents.is_empty());
    assert!(pack.function_tags.is_empty());
}

#[test]
fn stripped_functions_are_written_under_their_new_names() {
    let mut lir = LIR::new();
    lir.functions.push(function("pack:main", vec![], vec![LIRInstrKind::Call("pack:helper".to_string())], None));
    lir.functions.push(function("pack:helper", vec![], vec![LIRInstrKind::NoOp], None));
    let pack = link(lir, StripMode::Unstable, "pack").unwrap();
    assert_eq!(names(&pack), vec!["pack:main", "pack:s/"]);
    assert_eq!(pack.functions[0].1.contents, vec!["function pack:s/".to_string()]);
}

#[test]
fn the_dpc_project_has_its_own_setup_location() {
    let mut lir = LIR::new();
    lir.functions.push(function("dpc:main", vec![score_reg("x")], vec![set_reg("x", 1)], None));
    let pack = link(lir, StripMode::Keep, "dpc").unwrap();
    assert_eq!(names(&pack), vec!["dpc:main", "dpc:init"]);
    assert_eq!(pack.function_tags[0].1.inner.values, vec!["dpc:init".to_string()]);
}

#[test]
fn an_undeclared_register_fails_the_link() {
    let mut lir = LIR::new();
    lir.functions.push(function("pack:main", vec![], vec![set_reg("x", 1)], None));
    assert_eq!(link(lir, StripMode::Keep, "pack").unwrap_err(), CodegenError::MissingRegister);
}
