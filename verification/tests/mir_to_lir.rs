use dpc::common::condition::Condition;
use dpc::common::function::{CallInterface, FunctionInterface, FunctionSignature, ReturnType};
use dpc::common::mc::entity::{SelectorType, TargetSelector};
use dpc::common::mc::modifier::{IfModCondition, IfScoreCondition, IfScoreRangeEnd, Modifier, StoreDataType, StoreModLocation};
use dpc::common::mc::{EntityTarget, Score};
use dpc::common::ty::{DataType, DataTypeContents, NBTType, ScoreType, ScoreTypeContents};
use dpc::common::val::{MutableNBTValue, MutableScoreValue, MutableValue, NBTValue, ScoreValue, Value, ValueError};
use dpc::common::DeclareBinding;
use dpc::lir::{LIRFunction, LIRInstrKind};
use dpc::lower::mir_to_lir::{lower_function, lower_mir, LowerError};
use dpc::mir::{MIRBlock, MIRFunction, MIRInstrKind, MIRInstruction, MIR};

fn func(id: &str, kinds: Vec<MIRInstrKind>) -> MIRFunction {
    MIRFunction {
        interface: FunctionInterface::new(id.to_string()),
        block: MIRBlock::with_contents(kinds.into_iter().map(MIRInstruction::new).collect()),
    }
}

fn declare(id: &str, ty: DataType) -> MIRInstrKind {
    MIRInstrKind::Declare { left: id.to_string(), ty }
}

fn reg(id: &str) -> MutableValue {
    MutableValue::Reg(id.to_string())
}

fn score_const(n: i32) -> Value {
    Value::Constant(DataTypeContents::Score(ScoreTypeContents::Score(n)))
}

fn score_ty() -> DataType {
    DataType::Score(ScoreType::Score)
}

fn lowered(kinds: Vec<MIRInstrKind>) -> LIRFunction {
    let mut fs = lower_function(func("p:f", kinds)).expect("lowering succeeds");
    fs.pop().expect("the function itself comes last")
}

fn is_reg(v: &MutableScoreValue, id: &str) -> bool {
    matches!(v, MutableScoreValue::Reg(r) if r == id)
}

#[test]
fn arithmetic_on_score_registers() {
    let g = lowered(vec![
        declare("x", score_ty()),
        MIRInstrKind::Assign { left: reg("x"), right: DeclareBinding::Value(score_const(5)) },
        MIRInstrKind::Add { left: reg("x"), right: score_const(3) },
        MIRInstrKind::Mul { left: reg("x"), right: Value::Mutable(reg("x")) },
    ]);
    let c = &g.block.contents;
    assert_eq!(c.len(), 3);
    assert!(matches!(&c[0].kind, LIRInstrKind::SetScore(l, ScoreValue::Constant(ScoreTypeContents::Score(5))) if is_reg(l, "x")));
    assert!(matches!(&c[1].kind, LIRInstrKind::AddScore(l, ScoreValue::Constant(ScoreTypeContents::Score(3))) if is_reg(l, "x")));
    assert!(matches!(&c[2].kind, LIRInstrKind::MulScore(l, ScoreValue::Mutable(r)) if is_reg(l, "x") && is_reg(r, "x")));
    assert_eq!(g.block.regs.len(), 1);
    assert_eq!(g.block.regs[0].id, "x");
    assert_eq!(g.interface.id, "p:f");
    assert!(g.parent.is_none());
}

#[test]
fn redeclaring_a_register_replaces_it() {
    let g = lowered(vec![
        declare("x", score_ty()),
        declare("y", score_ty()),
        declare("x", DataType::NBT(NBTType::Int)),
    ]);
    assert_eq!(g.block.regs.len(), 2);
    assert_eq!(g.block.regs[0].id, "x");
    assert!(matches!(g.block.regs[0].ty, DataType::NBT(NBTType::Int)));
    assert!(g.block.contents.is_empty());
}

#[test]
fn swapping_nbt_goes_through_a_new_register() {
    let g = lowered(vec![
        declare("a", DataType::NBT(NBTType::Int)),
        declare("b", DataType::NBT(NBTType::Int)),
        MIRInstrKind::Swap { left: reg("a"), right: reg("b") },
    ]);
    let c = &g.block.contents;
    assert_eq!(c.len(), 3);
    let is_nreg = |v: &MutableNBTValue, id: &str| matches!(v, MutableNBTValue::Reg(r) if r == id);
    assert!(matches!(&c[0].kind, LIRInstrKind::SetData(t, NBTValue::Mutable(a)) if is_nreg(t, "__lir_lower_0") && is_nreg(a, "a")));
    assert!(matches!(&c[1].kind, LIRInstrKind::SetData(a, NBTValue::Mutable(b)) if is_nreg(a, "a") && is_nreg(b, "b")));
    assert!(matches!(&c[2].kind, LIRInstrKind::SetData(b, NBTValue::Mutable(t)) if is_nreg(b, "b") && is_nreg(t, "__lir_lower_0")));
    assert_eq!(g.block.regs.len(), 3);
    assert_eq!(g.block.regs[2].id, "__lir_lower_0");
    assert!(matches!(g.block.regs[2].ty, DataType::NBT(NBTType::Int)));
}

#[test]
fn swapping_scores_is_one_operation() {
    let g = lowered(vec![
        declare("a", score_ty()),
        declare("b", score_ty()),
        MIRInstrKind::Swap { left: reg("a"), right: reg("b") },
    ]);
    assert_eq!(g.block.contents.len(), 1);
    assert!(matches!(&g.block.contents[0].kind, LIRInstrKind::SwapScore(a, b) if is_reg(a, "a") && is_reg(b, "b")));
}

#[test]
fn powers_square_then_multiply_by_a_copy() {
    let g = lowered(vec![declare("x", score_ty()), MIRInstrKind::Pow { base: reg("x"), exp: 6 }]);
    let c = &g.block.contents;
    assert_eq!(c.len(), 4);
    assert!(matches!(&c[0].kind, LIRInstrKind::MulScore(a, ScoreValue::Mutable(b)) if is_reg(a, "x") && is_reg(b, "x")));
    assert!(matches!(&c[1].kind, LIRInstrKind::SetScore(t, ScoreValue::Mutable(b)) if is_reg(t, "__lir_lower_0") && is_reg(b, "x")));
    assert!(matches!(&c[2].kind, LIRInstrKind::MulScore(a, ScoreValue::Mutable(t)) if is_reg(a, "x") && is_reg(t, "__lir_lower_0")));
    assert!(matches!(&c[3].kind, LIRInstrKind::MulScore(a, ScoreValue::Mutable(t)) if is_reg(a, "x") && is_reg(t, "__lir_lower_0")));

    let g = lowered(vec![declare("x", score_ty()), MIRInstrKind::Pow { base: reg("x"), exp: 8 }]);
    assert_eq!(g.block.contents.len(), 3);
    assert_eq!(g.block.regs.len(), 1);

    let g = lowered(vec![declare("x", score_ty()), MIRInstrKind::Pow { base: reg("x"), exp: 0 }]);
    assert!(matches!(&g.block.contents[0].kind, LIRInstrKind::SetScore(a, ScoreValue::Constant(ScoreTypeContents::Score(1))) if is_reg(a, "x")));

    let g = lowered(vec![MIRInstrKind::Pow { base: reg("nothing"), exp: 1 }]);
    assert!(g.block.contents.is_empty());
}

#[test]
fn absolute_value_negates_negative_scores() {
    let g = lowered(vec![declare("x", score_ty()), MIRInstrKind::Abs { val: reg("x") }]);
    let i = &g.block.contents[0];
    assert!(matches!(&i.kind, LIRInstrKind::MulScore(a, ScoreValue::Constant(ScoreTypeContents::Score(-1))) if is_reg(a, "x")));
    assert_eq!(i.modifiers.len(), 1);
    match &i.modifiers[0] {
        Modifier::If { condition, negate } => {
            assert!(!negate);
            assert!(matches!(
                &**condition,
                IfModCondition::Score(IfScoreCondition::Range {
                    score: ScoreValue::Mutable(MutableScoreValue::Reg(_)),
                    left: IfScoreRangeEnd::Infinite,
                    right: IfScoreRangeEnd::Fixed { value: ScoreValue::Constant(ScoreTypeContents::Score(-1)), inclusive: true },
                })
            ));
        },
        _ => panic!("expected an if modifier"),
    }
}

#[test]
fn operands_of_the_wrong_type_are_refused() {
    let r = lower_function(func(
        "p:f",
        vec![declare("n", DataType::NBT(NBTType::Int)), MIRInstrKind::Add { left: reg("n"), right: score_const(1) }],
    ));
    assert!(matches!(r, Err(LowerError::TypeNotAllowed)));
    let r = lower_function(func("p:f", vec![MIRInstrKind::Add { left: reg("missing"), right: score_const(1) }]));
    assert!(matches!(r, Err(LowerError::Value(ValueError::UnknownRegister))));
    let r = lower_function(func(
        "p:f",
        vec![declare("x", score_ty()), MIRInstrKind::Merge { left: reg("x"), right: score_const(1) }],
    ));
    assert!(matches!(r, Err(LowerError::TypeNotAllowed)));
}

#[test]
fn calls_set_arguments_and_take_return_values() {
    let call = CallInterface {
        function: "a:b".to_string(),
        args: vec![score_const(1), Value::Mutable(reg("n"))],
        ret: vec![reg("y")],
    };
    let g = lowered(vec![
        declare("n", DataType::NBT(NBTType::Int)),
        declare("y", score_ty()),
        MIRInstrKind::Call { call },
    ]);
    let c = &g.block.contents;
    assert_eq!(c.len(), 4);
    assert!(matches!(&c[0].kind, LIRInstrKind::SetScore(MutableScoreValue::CallArg(0, f), ScoreValue::Constant(ScoreTypeContents::Score(1))) if f == "a:b"));
    assert!(matches!(&c[1].kind, LIRInstrKind::SetData(MutableNBTValue::CallArg(1, f), NBTValue::Mutable(MutableNBTValue::Reg(n))) if f == "a:b" && n == "n"));
    assert!(matches!(&c[2].kind, LIRInstrKind::Call(f) if f == "a:b"));
    assert!(matches!(&c[3].kind, LIRInstrKind::SetScore(y, ScoreValue::Mutable(MutableScoreValue::CallReturnValue(0, f))) if is_reg(y, "y") && f == "a:b"));
}

#[test]
fn return_lowering() {
    let g = lowered(vec![MIRInstrKind::Return { value: score_const(7) }]);
    assert!(matches!(&g.block.contents[0].kind, LIRInstrKind::ReturnValue(7)));
    let g = lowered(vec![declare("x", score_ty()), MIRInstrKind::Return { value: Value::Mutable(reg("x")) }]);
    match &g.block.contents[0].kind {
        LIRInstrKind::ReturnRun(body) => assert!(matches!(&body.kind, LIRInstrKind::GetScore(v) if is_reg(v, "x"))),
        _ => panic!("expected return run"),
    }
    let g = lowered(vec![declare("n", DataType::NBT(NBTType::Int)), MIRInstrKind::Return { value: Value::Mutable(reg("n")) }]);
    match &g.block.contents[0].kind {
        LIRInstrKind::ReturnRun(body) => {
            assert!(matches!(&body.kind, LIRInstrKind::GetData(MutableNBTValue::Reg(n), s) if n == "n" && s == "1"))
        },
        _ => panic!("expected return run"),
    }
}

#[test]
fn return_values_are_set_by_signature() {
    let mut f = func("p:f", vec![MIRInstrKind::ReturnValue { index: 0, value: score_const(2) }]);
    f.interface = FunctionInterface::with_signature(
        "p:f".to_string(),
        FunctionSignature::with_ret(ReturnType::Standard(vec![score_ty()])),
    );
    let g = lower_function(f).unwrap().pop().unwrap();
    assert!(matches!(&g.block.contents[0].kind, LIRInstrKind::SetScore(MutableScoreValue::ReturnValue(0), ScoreValue::Constant(ScoreTypeContents::Score(2)))));
    let r = lower_function(func("p:f", vec![MIRInstrKind::ReturnValue { index: 0, value: score_const(2) }]));
    assert!(matches!(r, Err(LowerError::Value(ValueError::NoReturnValue))));
}

#[test]
fn negation_of_a_named_score() {
    let score = Score::new(EntityTarget::Player("p".to_string()), "o".to_string());
    let g = lowered(vec![MIRInstrKind::Not { value: MutableValue::Score(score) }]);
    let i = &g.block.contents[0];
    assert!(matches!(i.kind, LIRInstrKind::NoOp));
    assert_eq!(i.modifiers.len(), 2);
}

#[test]
fn negation_of_a_register_stores_into_it() {
    let g = lowered(vec![declare("b", DataType::Score(ScoreType::Bool)), MIRInstrKind::Not { value: reg("b") }]);
    let i = &g.block.contents[0];
    assert!(matches!(i.kind, LIRInstrKind::NoOp));
    assert_eq!(i.modifiers.len(), 2);
    assert!(matches!(&i.modifiers[0], Modifier::StoreSuccess(StoreModLocation::LocalScore(b)) if is_reg(b, "b")));
    match &i.modifiers[1] {
        Modifier::If { condition, negate: false } => assert!(matches!(
            &**condition,
            IfModCondition::Score(IfScoreCondition::Single {
                left: ScoreValue::Mutable(b),
                right: ScoreValue::Constant(ScoreTypeContents::Bool(false)),
            }) if is_reg(b, "b")
        )),
        _ => panic!("expected an if modifier"),
    }
    let r = lower_function(func(
        "p:f",
        vec![declare("s", DataType::NBT(NBTType::String)), MIRInstrKind::Not { value: reg("s") }],
    ));
    assert!(matches!(r, Err(LowerError::TypeNotAllowed)));
}

#[test]
fn casts_that_need_no_conversion() {
    let g = lowered(vec![
        declare("x", score_ty()),
        declare("b", DataType::Score(ScoreType::Bool)),
        MIRInstrKind::Assign { left: reg("x"), right: DeclareBinding::Cast(score_ty(), reg("b")) },
    ]);
    assert!(matches!(&g.block.contents[0].kind, LIRInstrKind::SetScore(x, ScoreValue::Mutable(b)) if is_reg(x, "x") && is_reg(b, "b")));
}

#[test]
fn casts_that_convert_read_and_store() {
    let g = lowered(vec![
        declare("x", score_ty()),
        declare("n", DataType::NBT(NBTType::Int)),
        MIRInstrKind::Assign { left: reg("x"), right: DeclareBinding::Cast(score_ty(), reg("n")) },
    ]);
    let i = &g.block.contents[0];
    assert!(matches!(&i.kind, LIRInstrKind::GetData(MutableNBTValue::Reg(n), s) if n == "n" && s == "1"));
    assert_eq!(i.modifiers.len(), 1);
    assert!(matches!(&i.modifiers[0], Modifier::StoreResult(StoreModLocation::LocalScore(x)) if is_reg(x, "x")));
    let g = lowered(vec![
        declare("x", score_ty()),
        declare("n", DataType::NBT(NBTType::Long)),
        MIRInstrKind::Assign { left: reg("n"), right: DeclareBinding::Cast(DataType::NBT(NBTType::Long), reg("x")) },
    ]);
    let i = &g.block.contents[0];
    assert!(matches!(&i.kind, LIRInstrKind::GetScore(x) if is_reg(x, "x")));
    assert!(matches!(
        &i.modifiers[0],
        Modifier::StoreResult(StoreModLocation::LocalData(MutableNBTValue::Reg(n), StoreDataType::Long, s)) if n == "n" && s == "1"
    ));
}

#[test]
fn reads_keep_their_scale() {
    let g = lowered(vec![
        declare("n", DataType::NBT(NBTType::Double)),
        MIRInstrKind::Get { value: reg("n"), scale: "0.5".to_string() },
    ]);
    assert!(matches!(&g.block.contents[0].kind, LIRInstrKind::GetData(MutableNBTValue::Reg(n), s) if n == "n" && s == "0.5"));
}

#[test]
fn logic_on_booleans() {
    let g = lowered(vec![
        declare("a", DataType::Score(ScoreType::Bool)),
        MIRInstrKind::Or { left: reg("a"), right: Value::Constant(DataTypeContents::Score(ScoreTypeContents::Bool(true))) },
        MIRInstrKind::And { left: reg("a"), right: Value::Mutable(reg("a")) },
    ]);
    let c = &g.block.contents;
    assert_eq!(c.len(), 3);
    assert!(matches!(&c[0].kind, LIRInstrKind::AddScore(a, ScoreValue::Constant(ScoreTypeContents::Bool(true))) if is_reg(a, "a")));
    assert!(matches!(&c[1].kind, LIRInstrKind::DivScore(a, ScoreValue::Mutable(b)) if is_reg(a, "a") && is_reg(b, "a")));
    assert!(matches!(&c[2].kind, LIRInstrKind::MulScore(a, ScoreValue::Mutable(b)) if is_reg(a, "a") && is_reg(b, "a")));
}

#[test]
fn programs_lower_function_by_function() {
    let mut mir = MIR::new();
    mir.functions.push(func("p:a", vec![MIRInstrKind::CallExtern { func: "p:b".to_string() }]));
    mir.functions.push(func("p:b", vec![MIRInstrKind::Comment { comment: "hi".to_string() }, MIRInstrKind::NoOp]));
    let lir = lower_mir(mir).unwrap();
    assert_eq!(lir.functions.len(), 2);
    assert!(matches!(&lir.functions[0].block.contents[0].kind, LIRInstrKind::Call(f) if f == "p:b"));
    assert!(matches!(&lir.functions[1].block.contents[0].kind, LIRInstrKind::Comment(c) if c == "hi"));
    assert_eq!(lir.functions[1].block.contents.len(), 1);

    let mut bad = MIR::new();
    bad.functions.push(func("p:a", vec![MIRInstrKind::NoOp]));
    bad.functions.push(func("p:b", vec![MIRInstrKind::Remove { val: reg("gone") }]));
    assert!(matches!(lower_mir(bad), Err(LowerError::Value(ValueError::UnknownRegister))));
}

fn block(kinds: Vec<MIRInstrKind>) -> Box<MIRBlock> {
    Box::new(MIRBlock::with_contents(kinds.into_iter().map(MIRInstruction::new).collect()))
}

fn this() -> EntityTarget {
    EntityTarget::Selector(TargetSelector::new(SelectorType::This))
}

#[test]
fn a_block_of_one_instruction_is_used_in_place() {
    let fs = lower_function(func(
        "p:f",
        vec![MIRInstrKind::As {
            target: EntityTarget::Player("p".to_string()),
            body: block(vec![MIRInstrKind::Comment { comment: "x".to_string() }]),
        }],
    ))
    .unwrap();
    assert_eq!(fs.len(), 1);
    let i = &fs[0].block.contents[0];
    assert!(matches!(&i.kind, LIRInstrKind::Comment(c) if c == "x"));
    assert_eq!(i.modifiers.len(), 1);
    assert!(matches!(&i.modifiers[0], Modifier::As(EntityTarget::Player(p)) if p == "p"));
}

#[test]
fn modifiers_of_outer_blocks_come_first() {
    let fs = lower_function(func(
        "p:f",
        vec![MIRInstrKind::As {
            target: EntityTarget::Player("p".to_string()),
            body: block(vec![MIRInstrKind::At { target: this(), body: block(vec![MIRInstrKind::NoOp, MIRInstrKind::Command { command: "say".to_string() }]) }]),
        }],
    ))
    .unwrap();
    let i = &fs[0].block.contents[0];
    assert!(matches!(&i.kind, LIRInstrKind::Command(c) if c == "say"));
    assert!(matches!(&i.modifiers[0], Modifier::As(..)));
    assert!(matches!(&i.modifiers[1], Modifier::At(..)));
}

#[test]
fn a_longer_block_becomes_a_function_of_its_own() {
    let fs = lower_function(func(
        "p:f",
        vec![
            declare("x", score_ty()),
            MIRInstrKind::ReturnRun {
                body: block(vec![
                    MIRInstrKind::Comment { comment: "a".to_string() },
                    MIRInstrKind::Comment { comment: "b".to_string() },
                ]),
            },
            MIRInstrKind::StoreSuccess {
                location: StoreModLocation::Score(Score::new(EntityTarget::Player("p".to_string()), "o".to_string())),
                body: block(vec![]),
            },
        ],
    ))
    .unwrap();
    assert_eq!(fs.len(), 3);
    assert_eq!(fs[0].interface.id, "p:f_body_0");
    assert_eq!(fs[0].parent.as_deref(), Some("p:f"));
    assert_eq!(fs[0].block.contents.len(), 2);
    assert_eq!(fs[0].block.regs.len(), 1);
    assert_eq!(fs[1].interface.id, "p:f_body_1");
    assert!(fs[1].block.contents.is_empty());
    let main = &fs[2];
    assert_eq!(main.interface.id, "p:f");
    assert!(main.parent.is_none());
    match &main.block.contents[0].kind {
        LIRInstrKind::ReturnRun(inner) => assert!(matches!(&inner.kind, LIRInstrKind::Call(f) if f == "p:f_body_0")),
        _ => panic!("expected return run"),
    }
    let store = &main.block.contents[1];
    assert!(matches!(&store.kind, LIRInstrKind::Call(f) if f == "p:f_body_1"));
    assert!(matches!(&store.modifiers[0], Modifier::StoreSuccess(..)));
}

#[test]
fn block_functions_come_before_their_function_in_a_program() {
    let mut mir = MIR::new();
    mir.functions.push(func(
        "p:a",
        vec![MIRInstrKind::At { target: this(), body: block(vec![MIRInstrKind::NoOp, MIRInstrKind::NoOp]) }],
    ));
    mir.functions.push(func("p:b", vec![]));
    let lir = lower_mir(mir).unwrap();
    let names: Vec<&str> = lir.functions.iter().map(|f| f.interface.id.as_str()).collect();
    assert_eq!(names, vec!["p:a_body_0", "p:a", "p:b"]);
}

fn if_cmd(condition: Condition) -> MIRInstrKind {
    MIRInstrKind::If { condition, body: block(vec![MIRInstrKind::Command { command: "say".to_string() }]) }
}

#[test]
fn an_if_puts_its_conditions_first() {
    let g = lowered(vec![declare("x", score_ty()), if_cmd(Condition::Equal(Value::Mutable(reg("x")), score_const(3)))]);
    let i = &g.block.contents[0];
    assert!(matches!(&i.kind, LIRInstrKind::Command(c) if c == "say"));
    assert_eq!(i.modifiers.len(), 1);
    match &i.modifiers[0] {
        Modifier::If { condition, negate: false } => assert!(matches!(
            &**condition,
            IfModCondition::Score(IfScoreCondition::Single {
                left: ScoreValue::Mutable(x),
                right: ScoreValue::Constant(ScoreTypeContents::Score(3)),
            }) if is_reg(x, "x")
        )),
        _ => panic!("expected an if modifier"),
    }
}

#[test]
fn conditions_of_an_and_come_in_order_and_a_not_negates() {
    let g = lowered(vec![
        declare("x", score_ty()),
        declare("b", DataType::Score(ScoreType::Bool)),
        if_cmd(Condition::And(
            Box::new(Condition::Entity(this())),
            Box::new(Condition::And(
                Box::new(Condition::GreaterThan(Value::Mutable(reg("x")), score_const(1))),
                Box::new(Condition::Not(Box::new(Condition::Bool(Value::Mutable(reg("b")))))),
            )),
        )),
    ]);
    let m = &g.block.contents[0].modifiers;
    assert_eq!(m.len(), 3);
    assert!(matches!(&m[0], Modifier::If { condition, negate: false } if matches!(&**condition, IfModCondition::Entity(..))));
    assert!(matches!(&m[1], Modifier::If { condition, negate: false } if matches!(
        &**condition,
        IfModCondition::Score(IfScoreCondition::Range {
            left: IfScoreRangeEnd::Fixed { inclusive: false, .. },
            right: IfScoreRangeEnd::Infinite,
            ..
        })
    )));
    assert!(matches!(&m[2], Modifier::If { condition, negate: true } if matches!(
        &**condition,
        IfModCondition::Score(IfScoreCondition::Single { right: ScoreValue::Constant(ScoreTypeContents::Bool(true)), .. })
    )));
}

#[test]
fn existence_checks() {
    let g = lowered(vec![
        declare("n", DataType::NBT(NBTType::Int)),
        if_cmd(Condition::Exists(Value::Mutable(reg("n")))),
        if_cmd(Condition::Exists(score_const(1))),
    ]);
    let c = &g.block.contents;
    assert!(matches!(&c[0].modifiers[0], Modifier::If { condition, .. } if matches!(&**condition, IfModCondition::DataExists(MutableNBTValue::Reg(n)) if n == "n")));
    assert!(matches!(&c[1].modifiers[0], Modifier::If { condition, .. } if matches!(&**condition, IfModCondition::Const(true))));
}

#[test]
fn conditions_that_cannot_be_lowered() {
    let r = lower_function(func(
        "p:f",
        vec![if_cmd(Condition::Not(Box::new(Condition::And(
            Box::new(Condition::Entity(this())),
            Box::new(Condition::Entity(this())),
        ))))],
    ));
    assert!(matches!(r, Err(LowerError::Unrepresentable)));
    let r = lower_function(func(
        "p:f",
        vec![
            declare("n", DataType::NBT(NBTType::Int)),
            if_cmd(Condition::Equal(Value::Mutable(reg("n")), score_const(1))),
        ],
    ));
    assert!(matches!(r, Err(LowerError::TypeNotAllowed)));
    let r = lower_function(func("p:f", vec![if_cmd(Condition::Bool(Value::Mutable(reg("missing"))))]));
    assert!(matches!(r, Err(LowerError::Value(ValueError::UnknownRegister))));
}
