use dpc::common::function::{FunctionAnnotations, FunctionInterface, FunctionSignature};
use dpc::lir::{LIRBlock, LIRFunction, LIRInstrKind, LIRInstruction, LIR};
use dpc::output::strip::{strip, strip_unstable, StripMode};

fn call(f: &str) -> LIRInstruction {
    LIRInstruction::new(LIRInstrKind::Call(f.to_string()))
}

fn function(id: &str, calls: &[&str]) -> LIRFunction {
    let mut block = LIRBlock::new(Vec::new());
    for c in calls {
        block.contents.push(call(c));
    }
    block.contents.push(LIRInstruction::new(LIRInstrKind::NoOp));
    LIRFunction { interface: FunctionInterface::new(id.to_string()), block, parent: None }
}

fn program() -> LIR {
    let mut lir = LIR::new();
    lir.functions.push(function(
        "pack:main",
        &["pack:helper_two", "pack:helper_one", "pack:helper_two", "ext:thing", "pack:helper_three"],
    ));
    lir.functions.push(function("pack:helper_one", &["pack:helper_two"]));
    lir.functions.push(function("pack:helper_two", &[]));
    lir.functions.push(function("pack:helper_three", &[]));
    lir
}

#[test]
fn most_called_functions_get_the_shortest_names() {
    let mapping = strip_unstable(&program(), "pack");
    assert_eq!(
        mapping.0,
        vec![
            ("pack:helper_two".to_string(), "pack:s/".to_string()),
            ("pack:helper_one".to_string(), "pack:s/b".to_string()),
            ("pack:helper_three".to_string(), "pack:s/c".to_string()),
        ]
    );
}

#[test]
fn preserved_functions_keep_their_names() {
    let mut lir = program();
    lir.functions[1].interface = FunctionInterface::with_all(
        "pack:helper_one".to_string(),
        FunctionSignature::new(),
        FunctionAnnotations { preserve: false, no_inline: false, no_strip: true },
    );
    let mapping = strip_unstable(&lir, "pack");
    assert_eq!(
        mapping.0,
        vec![
            ("pack:helper_two".to_string(), "pack:s/".to_string()),
            ("pack:helper_one".to_string(), "pack:helper_one".to_string()),
            ("pack:helper_three".to_string(), "pack:s/b".to_string()),
        ]
    );
}

#[test]
fn names_that_would_not_shrink_are_kept() {
    let mut lir = LIR::new();
    lir.functions.push(function("a:main", &["a:b", "a:b", "a:longer_name"]));
    lir.functions.push(function("a:b", &[]));
    lir.functions.push(function("a:longer_name", &[]));
    let mapping = strip_unstable(&lir, "a");
    assert_eq!(
        mapping.0,
        vec![
            ("a:b".to_string(), "a:b".to_string()),
            ("a:longer_name".to_string(), "a:s/".to_string()),
        ]
    );
}

#[test]
fn keeping_names_makes_no_mapping() {
    assert!(strip(&program(), StripMode::Keep, "pack").is_none());
    let mapping = strip(&program(), StripMode::Unstable, "pack").unwrap();
    assert_eq!(mapping.0.len(), 3);
}
