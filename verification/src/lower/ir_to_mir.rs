//! Lowering of the high-level IR to the mid-level IR. Most instructions keep
//! their shape; a declaration with a value becomes a declaration followed by
//! an assignment, and the blocks of instructions are lowered in turn.
use vstd::prelude::*;

use crate::common::op::{op_to_instr, DoubleOperationKind, Operation, SingleOperationKind};
use crate::common::val::MutableValue;
use crate::common::DeclareBinding;
use crate::ir::{Block, InstrKind, Instruction, IR};
use crate::mir::{MIRBlock, MIRFunction, MIRInstrKind, MIRInstruction, MIR};

verus! {

/// The instructions of the mid-level IR that one instruction without a
/// block becomes
pub open spec fn ir_kind_lowered(kind: InstrKind) -> Seq<MIRInstrKind> {
    match kind {
        InstrKind::Declare { left, ty, right } => seq![
            MIRInstrKind::Declare { left, ty },
            MIRInstrKind::Assign { left: MutableValue::Reg(left), right },
        ],
        InstrKind::Assign { left, right } => seq![
            MIRInstrKind::Assign { left, right: DeclareBinding::Value(right) },
        ],
        InstrKind::Add { left, right } => seq![MIRInstrKind::Add { left, right }],
        InstrKind::Sub { left, right } => seq![MIRInstrKind::Sub { left, right }],
        InstrKind::Mul { left, right } => seq![MIRInstrKind::Mul { left, right }],
        InstrKind::Div { left, right } => seq![MIRInstrKind::Div { left, right }],
        InstrKind::Mod { left, right } => seq![MIRInstrKind::Mod { left, right }],
        InstrKind::Min { left, right } => seq![MIRInstrKind::Min { left, right }],
        InstrKind::Max { left, right } => seq![MIRInstrKind::Max { left, right }],
        InstrKind::Swap { left, right } => seq![MIRInstrKind::Swap { left, right }],
        InstrKind::Remove { val } => seq![MIRInstrKind::Remove { val }],
        InstrKind::Abs { val } => seq![MIRInstrKind::Abs { val }],
        InstrKind::Pow { base, exp } => seq![MIRInstrKind::Pow { base, exp }],
        InstrKind::Get { value, scale } => seq![MIRInstrKind::Get { value, scale }],
        InstrKind::Merge { left, right } => seq![MIRInstrKind::Merge { left, right }],
        InstrKind::Push { left, right } => seq![MIRInstrKind::Push { left, right }],
        InstrKind::PushFront { left, right } => seq![MIRInstrKind::PushFront { left, right }],
        InstrKind::Insert { left, right, index } => seq![MIRInstrKind::Insert { left, right, index }],
        InstrKind::Not { value } => seq![MIRInstrKind::Not { value }],
        InstrKind::And { left, right } => seq![MIRInstrKind::And { left, right }],
        InstrKind::Or { left, right } => seq![MIRInstrKind::Or { left, right }],
        InstrKind::Call { call } => seq![MIRInstrKind::Call { call }],
        InstrKind::CallExtern { func } => seq![MIRInstrKind::CallExtern { func }],
        InstrKind::ReturnValue { index, value } => seq![MIRInstrKind::ReturnValue { index, value }],
        InstrKind::Return { value } => seq![MIRInstrKind::Return { value }],
        InstrKind::Command { command } => seq![MIRInstrKind::Command { command }],
        InstrKind::Comment { comment } => seq![MIRInstrKind::Comment { comment }],
        InstrKind::MC(instr) => seq![MIRInstrKind::MC(instr)],
        InstrKind::Use { val } => seq![MIRInstrKind::Use { val }],
        InstrKind::If { .. } | InstrKind::ReturnRun { .. } => Seq::empty(),
    }
}

/// The instruction of the high-level IR that performs an operation
pub open spec fn ir_op_instr(op: Operation) -> InstrKind {
    match op {
        Operation::Single(s) => match s.kind {
            SingleOperationKind::Abs => InstrKind::Abs { val: s.val },
            SingleOperationKind::Not => InstrKind::Not { value: s.val },
            SingleOperationKind::Pow(exp) => InstrKind::Pow { base: s.val, exp },
        },
        Operation::Double(d) => match d.kind {
            DoubleOperationKind::Add => InstrKind::Add { left: d.left, right: d.right },
            DoubleOperationKind::Sub => InstrKind::Sub { left: d.left, right: d.right },
            DoubleOperationKind::Mul => InstrKind::Mul { left: d.left, right: d.right },
            DoubleOperationKind::Div => InstrKind::Div { left: d.left, right: d.right },
            DoubleOperationKind::Mod => InstrKind::Mod { left: d.left, right: d.right },
            DoubleOperationKind::Min => InstrKind::Min { left: d.left, right: d.right },
            DoubleOperationKind::Max => InstrKind::Max { left: d.left, right: d.right },
            DoubleOperationKind::Merge => InstrKind::Merge { left: d.left, right: d.right },
            DoubleOperationKind::Push => InstrKind::Push { left: d.left, right: d.right },
            DoubleOperationKind::PushFront => InstrKind::PushFront { left: d.left, right: d.right },
            DoubleOperationKind::Insert(index) => InstrKind::Insert { left: d.left, right: d.right, index },
            DoubleOperationKind::Or => InstrKind::Or { left: d.left, right: d.right },
            DoubleOperationKind::And => InstrKind::And { left: d.left, right: d.right },
        },
    }
}

/// Lowering keeps each operation: the IR instruction of an operation becomes
/// exactly the mid-level instruction of that same operation, on the same
/// operands
pub proof fn lemma_lowering_keeps_operations(op: Operation, out: Seq<MIRInstruction>)
    requires
        kind_lowered(ir_op_instr(op), out),
    ensures
        out.len() == 1,
        out[0].kind == op_to_instr(op),
{
    assert(out.map_values(|i: MIRInstruction| i.kind).len() == out.len());
    assert(out.map_values(|i: MIRInstruction| i.kind)[0] == out[0].kind);
}

/// How many instructions of the mid-level IR an instruction becomes
pub open spec fn ir_count(kind: InstrKind) -> nat {
    match kind {
        InstrKind::Declare { .. } => 2,
        _ => 1,
    }
}

/// Whether instructions of the mid-level IR are the lowering of one
/// instruction: its block, if it has one, lowered in turn
pub open spec fn kind_lowered(kind: InstrKind, out: Seq<MIRInstruction>) -> bool
    decreases kind,
{
    match kind {
        InstrKind::If { condition, body } => {
            &&& out.len() == 1
            &&& out[0].kind matches MIRInstrKind::If { condition: c, body: b }
            &&& c == condition
            &&& block_lowered(body.contents@, b.contents@)
        },
        InstrKind::ReturnRun { body } => {
            &&& out.len() == 1
            &&& out[0].kind matches MIRInstrKind::ReturnRun { body: b }
            &&& block_lowered(body.contents@, b.contents@)
        },
        _ => out.map_values(|i: MIRInstruction| i.kind) == ir_kind_lowered(kind),
    }
}

/// Whether instructions of the mid-level IR are the lowering of a list of
/// instructions, one after another
pub open spec fn block_lowered(instrs: Seq<Instruction>, out: Seq<MIRInstruction>) -> bool
    decreases instrs,
{
    if instrs.len() == 0 {
        out.len() == 0
    } else {
        let k = ir_count(instrs.last().kind);
        &&& out.len() >= k
        &&& block_lowered(instrs.drop_last(), out.take(out.len() - k))
        &&& kind_lowered(instrs.last().kind, out.skip(out.len() - k))
    }
}

proof fn lemma_kind_count(kind: InstrKind, out: Seq<MIRInstruction>)
    requires
        kind_lowered(kind, out),
    ensures
        out.len() == ir_count(kind),
{
    match kind {
        InstrKind::If { .. } | InstrKind::ReturnRun { .. } => {},
        _ => {
            assert(out.map_values(|i: MIRInstruction| i.kind).len() == out.len());
        },
    }
}

fn lower_kind(kind: InstrKind) -> (r: Vec<MIRInstruction>)
    ensures
        kind_lowered(kind, r@),
    decreases kind,
{
    let ghost k = kind;
    let mut out: Vec<MIRInstruction> = Vec::new();
    let kind = match kind {
        InstrKind::If { condition, body } => {
            assert(decreases_to!(k => *body));
            let b = lower_block(*body);
            out.push(MIRInstruction::new(MIRInstrKind::If { condition, body: Box::new(b) }));
            return out;
        },
        InstrKind::ReturnRun { body } => {
            assert(decreases_to!(k => *body));
            let b = lower_block(*body);
            out.push(MIRInstruction::new(MIRInstrKind::ReturnRun { body: Box::new(b) }));
            return out;
        },
        InstrKind::Declare { left, ty, right } => {
            let reg = left.clone();
            out.push(MIRInstruction::new(MIRInstrKind::Declare { left, ty }));
            MIRInstrKind::Assign { left: MutableValue::Reg(reg), right }
        },
        InstrKind::Assign { left, right } => MIRInstrKind::Assign { left, right: DeclareBinding::Value(right) },
        InstrKind::Add { left, right } => MIRInstrKind::Add { left, right },
        InstrKind::Sub { left, right } => MIRInstrKind::Sub { left, right },
        InstrKind::Mul { left, right } => MIRInstrKind::Mul { left, right },
        InstrKind::Div { left, right } => MIRInstrKind::Div { left, right },
        InstrKind::Mod { left, right } => MIRInstrKind::Mod { left, right },
        InstrKind::Min { left, right } => MIRInstrKind::Min { left, right },
        InstrKind::Max { left, right } => MIRInstrKind::Max { left, right },
        InstrKind::Swap { left, right } => MIRInstrKind::Swap { left, right },
        InstrKind::Remove { val } => MIRInstrKind::Remove { val },
        InstrKind::Abs { val } => MIRInstrKind::Abs { val },
        InstrKind::Pow { base, exp } => MIRInstrKind::Pow { base, exp },
        InstrKind::Get { value, scale } => MIRInstrKind::Get { value, scale },
        InstrKind::Merge { left, right } => MIRInstrKind::Merge { left, right },
        InstrKind::Push { left, right } => MIRInstrKind::Push { left, right },
        InstrKind::PushFront { left, right } => MIRInstrKind::PushFront { left, right },
        InstrKind::Insert { left, right, index } => MIRInstrKind::Insert { left, right, index },
        InstrKind::Not { value } => MIRInstrKind::Not { value },
        InstrKind::And { left, right } => MIRInstrKind::And { left, right },
        InstrKind::Or { left, right } => MIRInstrKind::Or { left, right },
        InstrKind::Call { call } => MIRInstrKind::Call { call },
        InstrKind::CallExtern { func } => MIRInstrKind::CallExtern { func },
        InstrKind::ReturnValue { index, value } => MIRInstrKind::ReturnValue { index, value },
        InstrKind::Return { value } => MIRInstrKind::Return { value },
        InstrKind::Command { command } => MIRInstrKind::Command { command },
        InstrKind::Comment { comment } => MIRInstrKind::Comment { comment },
        InstrKind::MC(instr) => MIRInstrKind::MC(instr),
        InstrKind::Use { val } => MIRInstrKind::Use { val },
    };
    out.push(MIRInstruction::new(kind));
    assert(out@.map_values(|i: MIRInstruction| i.kind) =~= ir_kind_lowered(k));
    out
}

fn lower_block(block: Block) -> (r: MIRBlock)
    ensures
        block_lowered(block.contents@, r.contents@),
    decreases block,
{
    let ghost all = block.contents@;
    let ghost sblock = block;
    let mut rest = block.contents;
    let mut out: Vec<MIRInstruction> = Vec::new();
    let n = rest.len();
    let mut i: usize = 0;
    while i < n
        invariant
            n == all.len(),
            i <= n,
            rest@ == all.skip(i as int),
            all == sblock.contents@,
            sblock == block,
            block_lowered(all.take(i as int), out@),
        decreases n - i,
    {
        let instr = rest.remove(0);
        assert(instr == all[i as int]);
        assert(rest@ =~= all.skip(i as int + 1));
        assert(decreases_to!(sblock => sblock.contents));
        assert(decreases_to!(sblock.contents => sblock.contents@));
        assert(decreases_to!(sblock.contents@ => sblock.contents@[i as int]));
        assert(decreases_to!(sblock.contents@[i as int] => sblock.contents@[i as int].kind));
        assert(decreases_to!(block => instr.kind));
        let mut lowered = lower_kind(instr.kind);
        let ghost before = out@;
        let ghost more = lowered@;
        out.append(&mut lowered);
        proof {
            lemma_kind_count(all[i as int].kind, more);
            let t = all.take(i as int + 1);
            assert(t.drop_last() =~= all.take(i as int));
            assert(t.last() == all[i as int]);
            assert(out@ == before + more);
            assert(out@.take(out@.len() - more.len()) =~= before);
            assert(out@.skip(out@.len() - more.len()) =~= more);
        }
        i = i + 1;
    }
    assert(all.take(n as int) =~= all);
    MIRBlock::with_contents(out)
}

/// Lowers the high-level IR to the mid-level IR, function by function and
/// instruction by instruction. Lowering cannot fail.
pub fn lower_ir(ir: IR) -> (r: Result<MIR, crate::lower::mir_to_lir::LowerError>)
    ensures
        r matches Ok(mir) && mir.functions@.len() == ir.functions@.len() && forall|i: int|
            0 <= i < ir.functions@.len() ==> {
                &&& (#[trigger] mir.functions@[i]).interface == ir.functions@[i].interface
                &&& block_lowered(ir.functions@[i].block.contents@, mir.functions@[i].block.contents@)
            },
{
    let ghost all = ir.functions@;
    let mut rest = ir.functions;
    let mut mir = MIR::new();
    let n = rest.len();
    let mut i: usize = 0;
    while i < n
        invariant
            n == all.len(),
            i <= n,
            rest@ == all.skip(i as int),
            mir.functions@.len() == i,
            forall|k: int|
                0 <= k < i ==> {
                    &&& (#[trigger] mir.functions@[k]).interface == all[k].interface
                    &&& block_lowered(all[k].block.contents@, mir.functions@[k].block.contents@)
                },
        decreases n - i,
    {
        let func = rest.remove(0);
        assert(func == all[i as int]);
        assert(rest@ =~= all.skip(i as int + 1));
        let block = lower_block(func.block);
        mir.functions.push(MIRFunction { interface: func.interface, block });
        i = i + 1;
    }
    Ok(mir)
}

} // verus!
