use dpc::common::mc::modifier::{IfModCondition, IfScoreCondition, IfScoreRangeEnd, Modifier, StoreDataType, StoreModLocation};
use dpc::common::mc::{DataLocation, EntityTarget, FullDataLocation, Score};
use dpc::common::ty::{DataType, NBTType, NBTTypeContents, ScoreType, ScoreTypeContents};
use dpc::common::val::{MutableNBTValue, MutableScoreValue, MutableValue, NBTValue, ScoreValue};
use dpc::common::Register;
use dpc::lir::{LIRBlock, LIRInstrKind, LIRInstruction};
use dpc::output::codegen::modifier::codegen_modifier;
use dpc::output::codegen::{
    codegen_block, codegen_instr, create_lit_score, get_mut_nbt_val_loc, CodegenBlockCx, CodegenCx, CodegenError,
};
use dpc::output::ra::RegAllocResult;
use dpc::output::strip::FunctionMapping;

fn block_cx() -> CodegenBlockCx {
    CodegenBlockCx { ra: RegAllocResult::new(), func_id: "foo".into() }
}

fn score(holder: &str, objective: &str) -> MutableScoreValue {
    MutableScoreValue::Score(Score::new(EntityTarget::Player(holder.into()), objective.into()))
}

fn constant(n: i32) -> ScoreValue {
    ScoreValue::Constant(ScoreTypeContents::Score(n))
}

fn one(kind: LIRInstrKind) -> (Result<Option<String>, CodegenError>, CodegenCx) {
    let mut ccx = CodegenCx::new(None);
    let r = codegen_instr(&LIRInstruction::new(kind), &mut ccx, &block_cx());
    (r, ccx)
}

#[test]
fn test_if_score_codegen() {
    let mut ccx = CodegenCx::new(None);
    let cbcx = block_cx();

    let modifier = Modifier::If {
        condition: Box::new(IfModCondition::Score(IfScoreCondition::Range {
            score: ScoreValue::Mutable(MutableScoreValue::Score(Score::new(
                EntityTarget::Player("foo".into()),
                "bar".into(),
            ))),
            left: IfScoreRangeEnd::Fixed {
                value: ScoreValue::Constant(ScoreTypeContents::Score(219)),
                inclusive: false,
            },
            right: IfScoreRangeEnd::Fixed {
                value: ScoreValue::Constant(ScoreTypeContents::Score(2980)),
                inclusive: true,
            },
        })),
        negate: true,
    };

    let code = codegen_modifier(&modifier, &mut ccx, &cbcx)
        .expect("Failed to codegen modifier")
        .expect("Modifier missing");
    assert_eq!(
        code,
        format!("unless score foo bar matches 220.. unless score foo bar matches ..2980")
    );
}

#[test]
fn inclusive_constant_range_is_one_match() {
    let mut ccx = CodegenCx::new(None);
    let modifier = Modifier::If {
        condition: Box::new(IfModCondition::Score(IfScoreCondition::Range {
            score: ScoreValue::Mutable(score("a", "b")),
            left: IfScoreRangeEnd::Fixed { value: constant(-4), inclusive: true },
            right: IfScoreRangeEnd::Fixed { value: constant(9), inclusive: true },
        })),
        negate: false,
    };
    let code = codegen_modifier(&modifier, &mut ccx, &block_cx()).unwrap().unwrap();
    assert_eq!(code, "if score a b matches -4..9");
}

#[test]
fn exclusive_bound_at_the_edge_compares_with_a_literal() {
    let mut ccx = CodegenCx::new(None);
    let modifier = Modifier::If {
        condition: Box::new(IfModCondition::Score(IfScoreCondition::Range {
            score: ScoreValue::Mutable(score("a", "b")),
            left: IfScoreRangeEnd::Fixed { value: constant(i32::MAX), inclusive: false },
            right: IfScoreRangeEnd::Infinite,
        })),
        negate: false,
    };
    let code = codegen_modifier(&modifier, &mut ccx, &block_cx()).unwrap().unwrap();
    assert_eq!(code, format!("if score a b > %l{} _l", i32::MAX));
    assert!(ccx.score_literals.contains(&i32::MAX));
}

#[test]
fn unbounded_range_matches_up_to_the_largest_score() {
    let mut ccx = CodegenCx::new(None);
    let modifier = Modifier::If {
        condition: Box::new(IfModCondition::Score(IfScoreCondition::Range {
            score: ScoreValue::Mutable(score("a", "b")),
            left: IfScoreRangeEnd::Infinite,
            right: IfScoreRangeEnd::Infinite,
        })),
        negate: false,
    };
    let code = codegen_modifier(&modifier, &mut ccx, &block_cx()).unwrap().unwrap();
    assert_eq!(code, format!("if score a b matches ..{}", i32::MAX));
}

#[test]
fn store_result_in_a_score() {
    let mut ccx = CodegenCx::new(None);
    let modifier = Modifier::StoreResult(StoreModLocation::Score(Score::new(
        EntityTarget::Player("p".into()),
        "obj".into(),
    )));
    let code = codegen_modifier(&modifier, &mut ccx, &block_cx()).unwrap().unwrap();
    assert_eq!(code, "store result score p obj");
}

#[test]
fn store_into_registers_and_data() {
    let mut block = LIRBlock::new(vec![
        Register { id: "x".into(), ty: DataType::Score(ScoreType::Score) },
        Register { id: "y".into(), ty: DataType::NBT(NBTType::Int) },
    ]);
    block.contents.push(LIRInstruction::with_modifiers(
        LIRInstrKind::GetData(MutableNBTValue::Reg("y".into()), "1".into()),
        vec![Modifier::StoreResult(StoreModLocation::LocalScore(MutableScoreValue::Reg("x".into())))],
    ));
    block.contents.push(LIRInstruction::with_modifiers(
        LIRInstrKind::GetScore(MutableScoreValue::Reg("x".into())),
        vec![Modifier::StoreResult(StoreModLocation::LocalData(
            MutableNBTValue::Reg("y".into()),
            StoreDataType::Int,
            "1".into(),
        ))],
    ));
    block.contents.push(LIRInstruction::new(LIRInstrKind::GetData(MutableNBTValue::Reg("y".into()), "0.5".into())));
    let mut ccx = CodegenCx::new(None);
    let cmds = codegen_block("foo", &block, &mut ccx).unwrap();
    assert_eq!(
        cmds,
        vec![
            "execute store result score %rfoo0 _r run data get storage dpc:r rfoo0".to_string(),
            "execute store result storage dpc:r rfoo0 int 1 run scoreboard players get %rfoo0 _r".to_string(),
            "data get storage dpc:r rfoo0 0.5".to_string(),
        ]
    );
}

#[test]
fn literal_score_names() {
    assert_eq!(create_lit_score(12).gen_str(), "%l12 _l");
    assert_eq!(create_lit_score(-3).gen_str(), "%l-3 _l");
}

#[test]
fn set_constant_score() {
    let (r, ccx) = one(LIRInstrKind::SetScore(score("p", "o"), constant(5)));
    assert_eq!(r, Ok(Some("scoreboard players set p o 5".to_string())));
    assert!(ccx.score_literals.is_empty());
}

#[test]
fn adding_a_negative_constant_removes() {
    let (r, _) = one(LIRInstrKind::AddScore(score("p", "o"), constant(-3)));
    assert_eq!(r, Ok(Some("scoreboard players remove p o 3".to_string())));
    let (r, _) = one(LIRInstrKind::SubScore(score("p", "o"), constant(-3)));
    assert_eq!(r, Ok(Some("scoreboard players add p o 3".to_string())));
}

#[test]
fn multiplying_by_a_constant_reads_its_literal() {
    let (r, ccx) = one(LIRInstrKind::MulScore(score("p", "o"), constant(7)));
    assert_eq!(r, Ok(Some("scoreboard players operation p o *= %l7 _l".to_string())));
    assert!(ccx.score_literals.contains(&7));
    assert_eq!(ccx.score_literals.len(), 1);
}

#[test]
fn swapping_scores() {
    let (r, _) = one(LIRInstrKind::SwapScore(score("a", "b"), score("c", "d")));
    assert_eq!(r, Ok(Some("scoreboard players operation a b >< c d".to_string())));
}

#[test]
fn setting_data_from_a_constant() {
    let loc = FullDataLocation { loc: DataLocation::Storage("a:b".into()), path: "x".into() };
    let (r, _) = one(LIRInstrKind::SetData(
        MutableNBTValue::Data(loc),
        NBTValue::Constant(NBTTypeContents::Long(3)),
    ));
    assert_eq!(r, Ok(Some("data modify storage a:b x set value 3l".to_string())));
}

#[test]
fn calls_follow_the_function_mapping() {
    let mapping = FunctionMapping(vec![("a:b".to_string(), "x".to_string())]);
    let mut ccx = CodegenCx::new(Some(mapping));
    let r = codegen_instr(&LIRInstruction::new(LIRInstrKind::Call("a:b".into())), &mut ccx, &block_cx());
    assert_eq!(r, Ok(Some("function x".to_string())));
    let r = codegen_instr(&LIRInstruction::new(LIRInstrKind::Call("c:d".into())), &mut ccx, &block_cx());
    assert_eq!(r, Ok(Some("function c:d".to_string())));
}

#[test]
fn modifiers_make_an_execute_command() {
    let mut ccx = CodegenCx::new(None);
    let instr = LIRInstruction::with_modifiers(
        LIRInstrKind::Call("a:b".into()),
        vec![
            Modifier::As(EntityTarget::Player("p".into())),
            Modifier::If { condition: Box::new(IfModCondition::Const(true)), negate: false },
        ],
    );
    let r = codegen_instr(&instr, &mut ccx, &block_cx());
    assert_eq!(r, Ok(Some("execute as p if score %l0 _l matches 0 run function a:b".to_string())));
    assert!(ccx.score_literals.contains(&0));
}

#[test]
fn no_op_and_comments() {
    let (r, _) = one(LIRInstrKind::NoOp);
    assert_eq!(r, Ok(None));
    let (r, _) = one(LIRInstrKind::Comment("hi".into()));
    assert_eq!(r, Ok(Some("#hi".to_string())));
    let (r, _) = one(LIRInstrKind::ReturnFail);
    assert_eq!(r, Ok(Some("return fail".to_string())));
}

#[test]
fn return_run_needs_a_command() {
    let (r, _) = one(LIRInstrKind::ReturnRun(Box::new(LIRInstruction::new(LIRInstrKind::NoOp))));
    assert_eq!(r, Err(CodegenError::MissingReturnRunCommand));
    let (r, _) = one(LIRInstrKind::ReturnRun(Box::new(LIRInstruction::new(LIRInstrKind::Call("a:b".into())))));
    assert_eq!(r, Ok(Some("return run function a:b".to_string())));
}

#[test]
fn unallocated_register_is_an_error() {
    let (r, _) = one(LIRInstrKind::GetScore(MutableScoreValue::Reg("x".into())));
    assert_eq!(r, Err(CodegenError::RegisterNotAllocated));
}

#[test]
fn block_registers_get_fake_players_and_storage_entries() {
    let mut block = LIRBlock::new(vec![
        Register { id: "x".into(), ty: DataType::Score(ScoreType::Score) },
        Register { id: "y".into(), ty: DataType::NBT(NBTType::Int) },
    ]);
    block.contents.push(LIRInstruction::new(LIRInstrKind::SetScore(MutableScoreValue::Reg("x".into()), constant(5))));
    block.contents.push(LIRInstruction::new(LIRInstrKind::SetData(
        MutableNBTValue::Reg("y".into()),
        NBTValue::Constant(NBTTypeContents::Int(3)),
    )));
    block.contents.push(LIRInstruction::new(LIRInstrKind::NoOp));
    let mut ccx = CodegenCx::new(None);
    let cmds = codegen_block("foo", &block, &mut ccx).unwrap();
    assert_eq!(
        cmds,
        vec![
            "scoreboard players set %rfoo0 _r 5".to_string(),
            "data modify storage dpc:r rfoo0 set value 3".to_string(),
        ]
    );
    assert!(ccx.racx.has_allocated_reg());
    assert!(ccx.racx.has_allocated_local());
}

#[test]
fn undeclared_register_in_a_block() {
    let mut block = LIRBlock::new(vec![]);
    block.contents.push(LIRInstruction::new(LIRInstrKind::SetScore(MutableScoreValue::Reg("x".into()), constant(1))));
    let mut ccx = CodegenCx::new(None);
    assert_eq!(codegen_block("foo", &block, &mut ccx), Err(CodegenError::MissingRegister));
}

fn unwritable_modifier() -> Modifier {
    Modifier::If {
        condition: Box::new(IfModCondition::Score(IfScoreCondition::Range {
            score: ScoreValue::Mutable(score("p", "o")),
            left: IfScoreRangeEnd::Infinite,
            right: IfScoreRangeEnd::Fixed { value: constant(i32::MIN), inclusive: false },
        })),
        negate: false,
    }
}

#[test]
fn dropped_commands_leave_their_modifiers_unwritten() {
    let mut ccx = CodegenCx::new(None);
    let instr = LIRInstruction::with_modifiers(LIRInstrKind::NoOp, vec![unwritable_modifier()]);
    assert_eq!(codegen_instr(&instr, &mut ccx, &block_cx()), Ok(None));
    let used = LIRInstruction::with_modifiers(
        LIRInstrKind::Use(MutableValue::Score(Score::new(EntityTarget::Player("p".into()), "o".into()))),
        vec![unwritable_modifier()],
    );
    assert_eq!(codegen_instr(&used, &mut ccx, &block_cx()), Ok(None));
    assert!(ccx.score_literals.is_empty());
}

#[test]
fn property_and_index_keep_the_location() {
    let base = MutableNBTValue::Data(FullDataLocation {
        loc: DataLocation::Storage("ns:st".into()),
        path: "a".into(),
    });
    let prop = MutableNBTValue::Property(Box::new(base), "b".into());
    let idx = MutableNBTValue::Index(Box::new(prop), 3);
    let ra = RegAllocResult::new();
    let l = get_mut_nbt_val_loc(&idx, &ra, "foo").unwrap();
    assert!(matches!(&l.loc, DataLocation::Storage(s) if s == "ns:st"));
    assert_eq!(l.path, "a.b[3]");
    let reg = MutableNBTValue::Property(Box::new(MutableNBTValue::Reg("r".into())), "x".into());
    assert_eq!(get_mut_nbt_val_loc(&reg, &ra, "foo").unwrap_err(), CodegenError::RegisterNotAllocated);
}
