use dpc::common::ty::{DataType, NBTType, ScoreType, ScoreTypeContents};
use dpc::common::val::{MutableNBTValue, MutableScoreValue, NBTValue, ScoreValue};
use dpc::common::Register;
use dpc::lir::{LIRBlock, LIRInstrKind, LIRInstruction};
use dpc::output::ra::{alloc_block_registers, analyze_last_register_uses, RegAllocCx, RegAllocError, RegAllocator};

fn score_reg(id: &str) -> Register {
    Register { id: id.to_string(), ty: DataType::Score(ScoreType::Score) }
}

fn nbt_reg(id: &str) -> Register {
    Register { id: id.to_string(), ty: DataType::NBT(NBTType::Int) }
}

fn set(reg: &str, n: i32) -> LIRInstruction {
    LIRInstruction::new(LIRInstrKind::SetScore(
        MutableScoreValue::Reg(reg.to_string()),
        ScoreValue::Constant(ScoreTypeContents::Score(n)),
    ))
}

fn add(left: &str, right: &str) -> LIRInstruction {
    LIRInstruction::new(LIRInstrKind::AddScore(
        MutableScoreValue::Reg(left.to_string()),
        ScoreValue::Mutable(MutableScoreValue::Reg(right.to_string())),
    ))
}

fn lookup<'a>(pairs: &'a [(String, String)], key: &str) -> &'a str {
    &pairs.iter().find(|(k, _)| k == key).expect("register has a name").1
}

#[test]
fn allocator_reuses_the_last_freed_register() {
    let mut a = RegAllocator::new();
    assert_eq!(a.allocate(), 0);
    assert_eq!(a.allocate(), 1);
    assert_eq!(a.allocate(), 2);
    a.finish_using(0);
    a.finish_using(2);
    a.finish_using(2);
    assert_eq!(a.allocate(), 2);
    assert_eq!(a.allocate(), 0);
    assert_eq!(a.allocate(), 3);
    assert_eq!(a.get_count(), 4);
    a.finish_using_all();
    assert_eq!(a.get_count(), 0);
    assert_eq!(a.allocate(), 0);
}

#[test]
fn context_tracks_both_kinds() {
    let mut cx = RegAllocCx::new();
    assert!(!cx.has_allocated_reg());
    assert_eq!(cx.new_reg(), 0);
    assert_eq!(cx.new_local(), 0);
    assert_eq!(cx.new_local(), 1);
    assert!(cx.has_allocated_reg());
    assert!(cx.has_allocated_local());
    assert_eq!(cx.get_reg_count(), 1);
    assert_eq!(cx.get_local_count(), 2);
    cx.finish_using_all();
    assert_eq!(cx.get_local_count(), 0);
    assert!(cx.has_allocated_local());
}

#[test]
fn last_uses_are_found_from_the_end() {
    let block = LIRBlock {
        contents: vec![set("a", 1), set("b", 2), add("a", "b"), set("b", 3)],
        regs: vec![score_reg("a"), score_reg("b")],
    };
    let last = analyze_last_register_uses(&block);
    assert_eq!(last.len(), 4);
    assert!(last[0].is_empty());
    assert!(last[1].is_empty());
    assert_eq!(last[2], vec!["a".to_string()]);
    assert_eq!(last[3], vec!["b".to_string()]);
}

#[test]
fn registers_alive_together_get_different_players() {
    let block = LIRBlock {
        contents: vec![set("a", 1), set("b", 2), add("a", "b"), set("c", 3), add("c", "c")],
        regs: vec![score_reg("a"), score_reg("b"), score_reg("c")],
    };
    let mut cx = RegAllocCx::new();
    let res = alloc_block_registers("f", &block, &mut cx).unwrap();
    assert_eq!(res.regs.len(), 3);
    let a = lookup(&res.regs, "a");
    let b = lookup(&res.regs, "b");
    let c = lookup(&res.regs, "c");
    assert_ne!(a, b);
    // `a` and `b` are dead once `c` is set, so `c` reuses the player freed last
    assert!(c == a || c == b);
    assert_eq!(a, "%rf0");
    assert_eq!(b, "%rf1");
    assert_eq!(c, "%rf1");
    assert!(cx.has_allocated_reg());
    assert!(!cx.has_allocated_local());
}

#[test]
fn nbt_registers_get_storage_entries() {
    let block = LIRBlock {
        contents: vec![LIRInstruction::new(LIRInstrKind::SetData(
            MutableNBTValue::Reg("x".to_string()),
            NBTValue::Mutable(MutableNBTValue::Reg("y".to_string())),
        ))],
        regs: vec![nbt_reg("x"), nbt_reg("y")],
    };
    let mut cx = RegAllocCx::new();
    let res = alloc_block_registers("g", &block, &mut cx).unwrap();
    assert!(res.regs.is_empty());
    assert_eq!(lookup(&res.locals, "x"), "rg0");
    assert_eq!(lookup(&res.locals, "y"), "rg1");
    assert!(cx.has_allocated_local());
}

#[test]
fn undeclared_register_is_an_error() {
    let block = LIRBlock { contents: vec![set("a", 1)], regs: vec![] };
    let mut cx = RegAllocCx::new();
    assert!(matches!(alloc_block_registers("f", &block, &mut cx), Err(RegAllocError::MissingRegister)));
}

#[test]
fn function_ids_are_cleaned_in_register_names() {
    let block = LIRBlock { contents: vec![set("a", 1)], regs: vec![score_reg("a")] };
    let mut cx = RegAllocCx::new();
    let res = alloc_block_registers("pack:dir/f", &block, &mut cx).unwrap();
    assert_eq!(lookup(&res.regs, "a"), "%rpack_dir_f0");
}
