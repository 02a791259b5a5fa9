//! Generating commands: the text of scores and data locations, and the
//! command of each low-level instruction.
pub mod laws;
pub mod mc_instr;
pub mod modifier;

use vstd::prelude::*;

use std::collections::HashSet;

use crate::common::mc::modifier::{IfModCondition, IfScoreCondition, IfScoreRangeEnd, Modifier};
use crate::common::mc::{DataLocation, EntityTarget, FullDataLocation, Score};
use crate::common::ty::{nbt_literal, score_contents_value, ScoreTypeContents};
use crate::common::val::{MutableNBTValue, MutableScoreValue, NBTValue, ScoreValue};
use crate::lir::{LIRBlock, LIRInstrKind, LIRInstruction};
use self::mc_instr::{codegen_mc_instr, mc_text};
use self::modifier::{any_side_effects, build_literals, build_text, generate_command, mods_supported};
use crate::strutil::string_views;
use crate::lower::{cleaned, cleanup_fn_id};
use crate::strutil::{push_char, push_decimal, push_str};

use super::ra::{
    alloc_block_registers, all_declared, allocation_correct, has_kind, total_uses, used_before, RegAllocCx,
    RegAllocResult,
};
use super::strip::{lookup, pair_lookup, FunctionMapping};
use super::text::{
    format_arg_fake_player, format_arg_local_storage_entry, format_lit_fake_player,
    format_ret_fake_player, format_ret_local_storage_entry, prefixed_name, LIT_OBJECTIVE,
    REG_OBJECTIVE, REG_STORAGE_LOCATION,
};

verus! {

/// Why the commands of an instruction cannot be generated
#[derive(Debug, Clone, Copy, PartialEq, Eq, Structural)]
pub enum CodegenError {
    /// A register has no fake player or storage entry
    RegisterNotAllocated,
    /// An instruction uses a register that its block does not declare
    MissingRegister,
    /// The instruction after `return run` generates no command
    MissingReturnRunCommand,
}

/// A score literal that must be added to the literal list
#[derive(Debug, Clone, Copy, PartialEq, Eq, Structural)]
pub struct ScoreLiteral(pub Option<i32>);

/// The holder and objective of a score value that can be written to, where
/// its register has a fake player
pub open spec fn mut_score_parts(v: MutableScoreValue, ra: RegAllocResult, func_id: Seq<char>) -> Option<
    (Seq<char>, Seq<char>),
> {
    match v {
        MutableScoreValue::Score(s) => Some((s.holder.text(), s.objective@)),
        MutableScoreValue::Reg(r) => match pair_lookup(ra.regs@, r@) {
            Some(p) => Some((p, REG_OBJECTIVE@)),
            None => None,
        },
        MutableScoreValue::Arg(a) => Some(
            (prefixed_name(seq!['%', 'a'], func_id, a as nat), REG_OBJECTIVE@),
        ),
        MutableScoreValue::CallArg(a, f) => Some(
            (prefixed_name(seq!['a'], cleaned(f@), a as nat), REG_OBJECTIVE@),
        ),
        MutableScoreValue::ReturnValue(r) => Some(
            (prefixed_name(seq!['%', 'R'], func_id, r as nat), REG_OBJECTIVE@),
        ),
        MutableScoreValue::CallReturnValue(r, f) => Some(
            (prefixed_name(seq!['R'], cleaned(f@), r as nat), REG_OBJECTIVE@),
        ),
    }
}

/// A holder and an objective written as a score: holder, space, objective
pub open spec fn parts_text(p: (Seq<char>, Seq<char>)) -> Seq<char> {
    p.0 + seq![' '] + p.1
}

/// The text of a score value that can be written to
pub open spec fn mut_score_text(v: MutableScoreValue, ra: RegAllocResult, func_id: Seq<char>) -> Option<
    Seq<char>,
> {
    match mut_score_parts(v, ra, func_id) {
        Some(p) => Some(parts_text(p)),
        None => None,
    }
}

/// The text of the score that holds a literal number
pub open spec fn lit_score_text(n: int) -> Seq<char> {
    seq!['%', 'l'] + crate::strutil::decimal_int(n) + seq![' '] + LIT_OBJECTIVE@
}

/// The text of a score operand; a constant is read from its literal's score
pub open spec fn score_val_text(v: ScoreValue, ra: RegAllocResult, func_id: Seq<char>) -> Option<Seq<char>> {
    match v {
        ScoreValue::Constant(c) => Some(lit_score_text(score_contents_value(c))),
        ScoreValue::Mutable(m) => mut_score_text(m, ra, func_id),
    }
}

/// The storage that holds NBT registers, as a data location
pub open spec fn reg_storage_text() -> Seq<char> {
    "storage "@ + REG_STORAGE_LOCATION@
}

/// The location text and the path of NBT data that can be written to, where
/// its register has a storage entry
pub open spec fn nbt_loc(v: MutableNBTValue, ra: RegAllocResult, func_id: Seq<char>) -> Option<
    (Seq<char>, Seq<char>),
>
    decreases v,
{
    match v {
        MutableNBTValue::Data(d) => Some((d.loc.text(), d.path@)),
        MutableNBTValue::Reg(r) => match pair_lookup(ra.locals@, r@) {
            Some(p) => Some((reg_storage_text(), p)),
            None => None,
        },
        MutableNBTValue::Property(inner, prop) => match nbt_loc(*inner, ra, func_id) {
            Some((l, path)) => Some((l, path + seq!['.'] + prop@)),
            None => None,
        },
        MutableNBTValue::Index(inner, idx) => match nbt_loc(*inner, ra, func_id) {
            Some((l, path)) => Some(
                (l, path + seq!['['] + crate::strutil::decimal(idx as nat) + seq![']']),
            ),
            None => None,
        },
        MutableNBTValue::Arg(a) => Some((reg_storage_text(), prefixed_name(seq!['a'], func_id, a as nat))),
        MutableNBTValue::CallArg(a, f) => Some(
            (reg_storage_text(), prefixed_name(seq!['a'], cleaned(f@), a as nat)),
        ),
        MutableNBTValue::ReturnValue(r) => Some(
            (reg_storage_text(), prefixed_name(seq!['R'], func_id, r as nat)),
        ),
        MutableNBTValue::CallReturnValue(r, f) => Some(
            (reg_storage_text(), prefixed_name(seq!['a'], cleaned(f@), r as nat)),
        ),
    }
}

/// The value that a chain of property and index accesses starts from
pub open spec fn nbt_base(v: MutableNBTValue) -> MutableNBTValue
    decreases v,
{
    match v {
        MutableNBTValue::Property(inner, _) => nbt_base(*inner),
        MutableNBTValue::Index(inner, _) => nbt_base(*inner),
        _ => v,
    }
}

/// The place where NBT data is kept: the data location that it names, or the
/// register storage
pub open spec fn nbt_place_is(v: MutableNBTValue, loc: DataLocation) -> bool {
    match nbt_base(v) {
        MutableNBTValue::Data(d) => loc.value_eq(&d.loc),
        _ => loc matches DataLocation::Storage(s) && s@ == REG_STORAGE_LOCATION@,
    }
}

/// A location and a path written as data: the path follows after a space
/// where it is not empty
pub open spec fn loc_text(p: (Seq<char>, Seq<char>)) -> Seq<char> {
    if p.1.len() == 0 {
        p.0
    } else {
        p.0 + seq![' '] + p.1
    }
}

/// The text of NBT data that can be written to
pub open spec fn nbt_loc_text(v: MutableNBTValue, ra: RegAllocResult, func_id: Seq<char>) -> Option<
    Seq<char>,
> {
    match nbt_loc(v, ra, func_id) {
        Some(p) => Some(loc_text(p)),
        None => None,
    }
}

/// The right side of a data modification: `value` and a constant, or
/// `from` and a data location
pub open spec fn data_rhs_text(v: NBTValue, ra: RegAllocResult, func_id: Seq<char>) -> Option<Seq<char>> {
    match v {
        NBTValue::Constant(c) => Some("value "@ + nbt_literal(c)),
        NBTValue::Mutable(m) => match nbt_loc_text(m, ra, func_id) {
            Some(t) => Some("from "@ + t),
            None => None,
        },
    }
}

/// The score that holds a literal number
pub fn create_lit_score(num: i32) -> (r: Score)
    ensures
        r.text() == lit_score_text(num as int),
        r.holder.text() == seq!['%', 'l'] + crate::strutil::decimal_int(num as int),
        r.objective@ == LIT_OBJECTIVE@,
{
    let s = Score::new(EntityTarget::Player(format_lit_fake_player(num)), String::from_str(LIT_OBJECTIVE));
    assert(s.text() =~= lit_score_text(num as int));
    s
}

pub(crate) fn reg_score(name: String) -> (r: Score)
    ensures
        r.holder.text() == name@,
        r.objective@ == REG_OBJECTIVE@,
{
    Score::new(EntityTarget::Player(name), String::from_str(REG_OBJECTIVE))
}

/// The score of a value that can be written to; fails where its register
/// has no fake player
pub fn get_mut_score_val_score(val: &MutableScoreValue, ra: &RegAllocResult, func_id: &str) -> (r: Result<
    Score,
    CodegenError,
>)
    ensures
        match r {
            Ok(s) => mut_score_parts(*val, *ra, func_id@) == Some((s.holder.text(), s.objective@)),
            Err(e) => mut_score_parts(*val, *ra, func_id@) is None && e == CodegenError::RegisterNotAllocated,
        },
{
    match val {
        MutableScoreValue::Score(score) => Ok(score.copy()),
        MutableScoreValue::Reg(reg) => match lookup(&ra.regs, reg.as_str()) {
            Some(name) => Ok(reg_score(name.clone())),
            None => Err(CodegenError::RegisterNotAllocated),
        },
        MutableScoreValue::Arg(arg) => Ok(reg_score(format_arg_fake_player(*arg, func_id))),
        MutableScoreValue::CallArg(arg, func) => {
            let func_id = cleanup_fn_id(func.as_str());
            Ok(reg_score(format_arg_local_storage_entry(*arg, func_id.as_str())))
        },
        MutableScoreValue::ReturnValue(ret) => Ok(reg_score(format_ret_fake_player(*ret, func_id))),
        MutableScoreValue::CallReturnValue(ret, func) => {
            let func_id = cleanup_fn_id(func.as_str());
            Ok(reg_score(format_ret_local_storage_entry(*ret, func_id.as_str())))
        },
    }
}

/// The score of an operand, and the literal that it needs, if it is a constant
pub fn get_score_val_score(val: &ScoreValue, ra: &RegAllocResult, func_id: &str) -> (r: Result<
    (Score, ScoreLiteral),
    CodegenError,
>)
    ensures
        match r {
            Ok((s, lit)) => {
                &&& score_val_text(*val, *ra, func_id@) == Some(s.text())
                &&& lit == match *val {
                    ScoreValue::Constant(c) => ScoreLiteral(Some(score_contents_value(c) as i32)),
                    ScoreValue::Mutable(_) => ScoreLiteral(None),
                }
            },
            Err(e) => score_val_text(*val, *ra, func_id@) is None && e == CodegenError::RegisterNotAllocated,
        },
{
    match val {
        ScoreValue::Constant(score) => {
            let num = score.get_i32();
            Ok((create_lit_score(num), ScoreLiteral(Some(num))))
        },
        ScoreValue::Mutable(val) => match get_mut_score_val_score(val, ra, func_id) {
            Ok(s) => Ok((s, ScoreLiteral(None))),
            Err(e) => Err(e),
        },
    }
}

fn reg_storage(path: String) -> (r: FullDataLocation)
    ensures
        r.loc.text() == reg_storage_text(),
        r.loc matches DataLocation::Storage(s) && s@ == REG_STORAGE_LOCATION@,
        r.path@ == path@,
{
    FullDataLocation { loc: DataLocation::Storage(String::from_str(REG_STORAGE_LOCATION)), path }
}

/// The location of NBT data that can be written to; fails where its
/// register has no storage entry
pub fn get_mut_nbt_val_loc(val: &MutableNBTValue, ra: &RegAllocResult, func_id: &str) -> (r: Result<
    FullDataLocation,
    CodegenError,
>)
    ensures
        match r {
            Ok(l) => {
                &&& nbt_loc(*val, *ra, func_id@) == Some((l.loc.text(), l.path@))
                &&& nbt_place_is(*val, l.loc)
            },
            Err(e) => nbt_loc(*val, *ra, func_id@) is None && e == CodegenError::RegisterNotAllocated,
        },
    decreases val,
{
    match val {
        MutableNBTValue::Data(data) => Ok(FullDataLocation { loc: data.loc.copy(), path: data.path.clone() }),
        MutableNBTValue::Reg(reg) => match lookup(&ra.locals, reg.as_str()) {
            Some(name) => Ok(reg_storage(name.clone())),
            None => Err(CodegenError::RegisterNotAllocated),
        },
        MutableNBTValue::Property(inner, prop) => match get_mut_nbt_val_loc(inner, ra, func_id) {
            Ok(loc) => {
                let mut path = loc.path;
                push_char(&mut path, '.');
                push_str(&mut path, prop.as_str());
                let r = FullDataLocation { loc: loc.loc, path };
                Ok(r)
            },
            Err(e) => Err(e),
        },
        MutableNBTValue::Index(inner, idx) => match get_mut_nbt_val_loc(inner, ra, func_id) {
            Ok(loc) => {
                let mut path = loc.path;
                push_char(&mut path, '[');
                push_decimal(&mut path, *idx as u64);
                push_char(&mut path, ']');
                let r = FullDataLocation { loc: loc.loc, path };
                Ok(r)
            },
            Err(e) => Err(e),
        },
        MutableNBTValue::Arg(arg) => Ok(reg_storage(format_arg_local_storage_entry(*arg, func_id))),
        MutableNBTValue::CallArg(arg, func) => {
            let func_id = cleanup_fn_id(func.as_str());
            Ok(reg_storage(format_arg_local_storage_entry(*arg, func_id.as_str())))
        },
        MutableNBTValue::ReturnValue(ret) => Ok(reg_storage(format_ret_local_storage_entry(*ret, func_id))),
        MutableNBTValue::CallReturnValue(ret, func) => {
            let func_id = cleanup_fn_id(func.as_str());
            Ok(reg_storage(format_arg_local_storage_entry(*ret, func_id.as_str())))
        },
    }
}

/// Writes the location of NBT data as it appears in a command
pub(crate) fn nbt_loc_str(val: &MutableNBTValue, ra: &RegAllocResult, func_id: &str) -> (r: Result<String, CodegenError>)
    ensures
        match r {
            Ok(t) => nbt_loc_text(*val, *ra, func_id@) == Some(t@),
            Err(e) => nbt_loc_text(*val, *ra, func_id@) is None && e == CodegenError::RegisterNotAllocated,
        },
{
    match get_mut_nbt_val_loc(val, ra, func_id) {
        Ok(loc) => {
            let t = loc.gen_str();
            assert(loc.text() == loc_text((loc.loc.text(), loc.path@)));
            Ok(t)
        },
        Err(e) => Err(e),
    }
}

/// Writes the score of a value that can be written to
pub(crate) fn mut_score_str(val: &MutableScoreValue, ra: &RegAllocResult, func_id: &str) -> (r: Result<String, CodegenError>)
    ensures
        match r {
            Ok(t) => mut_score_text(*val, *ra, func_id@) == Some(t@),
            Err(e) => mut_score_text(*val, *ra, func_id@) is None && e == CodegenError::RegisterNotAllocated,
        },
{
    match get_mut_score_val_score(val, ra, func_id) {
        Ok(s) => Ok(s.gen_str()),
        Err(e) => Err(e),
    }
}

/// Does codegen for the right side of a data modify
pub fn cg_data_modify_rhs(val: &NBTValue, ra: &RegAllocResult, func_id: &str) -> (r: Result<
    String,
    CodegenError,
>)
    ensures
        match r {
            Ok(t) => data_rhs_text(*val, *ra, func_id@) == Some(t@),
            Err(e) => data_rhs_text(*val, *ra, func_id@) is None && e == CodegenError::RegisterNotAllocated,
        },
{
    match val {
        NBTValue::Constant(data) => {
            let mut out = String::new();
            push_str(&mut out, "value ");
            push_str(&mut out, data.get_literal_str().as_str());
            assert(out@ =~= "value "@ + nbt_literal(*data));
            Ok(out)
        },
        NBTValue::Mutable(val) => match nbt_loc_str(val, ra, func_id) {
            Ok(t) => {
                let mut out = String::new();
                push_str(&mut out, "from ");
                push_str(&mut out, t.as_str());
                assert(out@ =~= "from "@ + t@);
                Ok(out)
            },
            Err(e) => Err(e),
        },
    }
}

broadcast use vstd::std_specs::hash::group_hash_axioms;

/// What code generation keeps across the blocks of a datapack
pub struct CodegenCx {
    pub func_mapping: Option<FunctionMapping>,
    pub racx: RegAllocCx,
    pub score_literals: HashSet<i32>,
}

impl CodegenCx {
    pub fn new(func_mapping: Option<FunctionMapping>) -> (r: Self)
        ensures
            r.func_mapping == func_mapping,
            r.racx.ready(),
            r.racx.reg_state() == (0u32, Seq::<u32>::empty()),
            r.racx.local_state() == (0u32, Seq::<u32>::empty()),
            !r.racx.spec_has_allocated_reg(),
            !r.racx.spec_has_allocated_local(),
            r.score_literals@ == Set::<i32>::empty(),
    {
        CodegenCx { func_mapping, racx: RegAllocCx::new(), score_literals: HashSet::new() }
    }
}

/// What code generation knows about the block that it works on
pub struct CodegenBlockCx {
    pub ra: RegAllocResult,
    pub func_id: String,
}

/// The name that a call uses for a function
pub open spec fn mapped_name(mapping: Option<FunctionMapping>, f: Seq<char>) -> Seq<char> {
    match mapping {
        Some(m) => m.mapped(f),
        None => f,
    }
}

/// A scale factor after a read: nothing for a scale of one, else a space
/// and the factor
pub open spec fn scale_suffix(scale: Seq<char>) -> Seq<char> {
    if scale == "1"@ {
        Seq::empty()
    } else {
        seq![' '] + scale
    }
}

/// A command made of a prefix, a text that may be missing, and a suffix
pub open spec fn wrap_cmd(prefix: Seq<char>, x: Option<Seq<char>>, suffix: Seq<char>) -> Option<Option<Seq<char>>> {
    match x {
        Some(t) => Some(Some(prefix + t + suffix)),
        None => None,
    }
}

/// A `scoreboard players operation` command
pub open spec fn op_cmd(l: Option<Seq<char>>, op: Seq<char>, r: Option<Seq<char>>) -> Option<Option<Seq<char>>> {
    match (l, r) {
        (Some(a), Some(b)) => Some(Some("scoreboard players operation "@ + a + op + b)),
        _ => None,
    }
}

/// A `data modify` command
pub open spec fn modify_cmd(l: Option<Seq<char>>, mid: Seq<char>, r: Option<Seq<char>>) -> Option<Option<Seq<char>>> {
    match (l, r) {
        (Some(a), Some(b)) => Some(Some("data modify "@ + a + mid + b)),
        _ => None,
    }
}

/// The command of what an instruction does, before its modifiers: `None`
/// where it fails, `Some(None)` where it needs no command. Adding or taking a negative constant
/// is written as the opposite command with the absolute value, since the
/// game refuses negative amounts there.
pub open spec fn kind_text(
    kind: LIRInstrKind,
    ra: RegAllocResult,
    func_id: Seq<char>,
    mapping: Option<FunctionMapping>,
) -> Option<Option<Seq<char>>>
    decreases kind,
{
    match kind {
        LIRInstrKind::SetScore(l, r) => match r {
            ScoreValue::Constant(c) => wrap_cmd(
                "scoreboard players set "@,
                mut_score_text(l, ra, func_id),
                seq![' '] + crate::strutil::decimal_int(score_contents_value(c)),
            ),
            ScoreValue::Mutable(m) => op_cmd(mut_score_text(l, ra, func_id), " = "@, mut_score_text(m, ra, func_id)),
        },
        LIRInstrKind::AddScore(l, r) => match r {
            ScoreValue::Constant(c) => if score_contents_value(c) < 0 {
                wrap_cmd(
                    "scoreboard players remove "@,
                    mut_score_text(l, ra, func_id),
                    seq![' '] + crate::strutil::decimal_int(-score_contents_value(c)),
                )
            } else {
                wrap_cmd(
                    "scoreboard players add "@,
                    mut_score_text(l, ra, func_id),
                    seq![' '] + crate::strutil::decimal_int(score_contents_value(c)),
                )
            },
            ScoreValue::Mutable(m) => op_cmd(mut_score_text(l, ra, func_id), " += "@, mut_score_text(m, ra, func_id)),
        },
        LIRInstrKind::SubScore(l, r) => match r {
            ScoreValue::Constant(c) => if score_contents_value(c) < 0 {
                wrap_cmd(
                    "scoreboard players add "@,
                    mut_score_text(l, ra, func_id),
                    seq![' '] + crate::strutil::decimal_int(-score_contents_value(c)),
                )
            } else {
                wrap_cmd(
                    "scoreboard players remove "@,
                    mut_score_text(l, ra, func_id),
                    seq![' '] + crate::strutil::decimal_int(score_contents_value(c)),
                )
            },
            ScoreValue::Mutable(m) => op_cmd(mut_score_text(l, ra, func_id), " -= "@, mut_score_text(m, ra, func_id)),
        },
        LIRInstrKind::MulScore(l, r) => op_cmd(mut_score_text(l, ra, func_id), " *= "@, score_val_text(r, ra, func_id)),
        LIRInstrKind::DivScore(l, r) => op_cmd(mut_score_text(l, ra, func_id), " /= "@, score_val_text(r, ra, func_id)),
        LIRInstrKind::ModScore(l, r) => op_cmd(mut_score_text(l, ra, func_id), " %= "@, score_val_text(r, ra, func_id)),
        LIRInstrKind::MinScore(l, r) => op_cmd(mut_score_text(l, ra, func_id), " < "@, score_val_text(r, ra, func_id)),
        LIRInstrKind::MaxScore(l, r) => op_cmd(mut_score_text(l, ra, func_id), " > "@, score_val_text(r, ra, func_id)),
        LIRInstrKind::SwapScore(l, r) => op_cmd(mut_score_text(l, ra, func_id), " >< "@, mut_score_text(r, ra, func_id)),
        LIRInstrKind::ResetScore(v) => match v {
            MutableScoreValue::Reg(_) => match mut_score_parts(v, ra, func_id) {
                Some(p) => Some(Some("scoreboard players reset "@ + p.0)),
                None => None,
            },
            _ => wrap_cmd("scoreboard players reset "@, mut_score_text(v, ra, func_id), ""@),
        },
        LIRInstrKind::SetData(l, r) => modify_cmd(nbt_loc_text(l, ra, func_id), " set "@, data_rhs_text(r, ra, func_id)),
        LIRInstrKind::MergeData(l, r) => match r {
            NBTValue::Constant(c) => wrap_cmd("data merge "@, nbt_loc_text(l, ra, func_id), " "@ + nbt_literal(c)),
            NBTValue::Mutable(_) => modify_cmd(nbt_loc_text(l, ra, func_id), " merge "@, data_rhs_text(r, ra, func_id)),
        },
        LIRInstrKind::GetScore(v) => wrap_cmd("scoreboard players get "@, mut_score_text(v, ra, func_id), ""@),
        LIRInstrKind::GetData(v, scale) => wrap_cmd("data get "@, nbt_loc_text(v, ra, func_id), scale_suffix(scale@)),
        LIRInstrKind::GetConst(n) => Some(Some("scoreboard players get "@ + lit_score_text(n as int))),
        LIRInstrKind::PushData(l, r) => modify_cmd(nbt_loc_text(l, ra, func_id), " append "@, data_rhs_text(r, ra, func_id)),
        LIRInstrKind::PushFrontData(l, r) => modify_cmd(
            nbt_loc_text(l, ra, func_id),
            " prepend "@,
            data_rhs_text(r, ra, func_id),
        ),
        LIRInstrKind::InsertData(l, r, i) => modify_cmd(
            nbt_loc_text(l, ra, func_id),
            " insert"@ + seq![' '] + crate::strutil::decimal_int(i as int) + seq![' '],
            data_rhs_text(r, ra, func_id),
        ),
        LIRInstrKind::RemoveData(v) => wrap_cmd("data remove "@, nbt_loc_text(v, ra, func_id), ""@),
        LIRInstrKind::NoOp => Some(None),
        LIRInstrKind::Call(f) => Some(Some("function "@ + mapped_name(mapping, f@))),
        LIRInstrKind::ReturnValue(v) => Some(Some("return "@ + crate::strutil::decimal_int(v as int))),
        LIRInstrKind::ReturnFail => Some(Some("return fail"@)),
        LIRInstrKind::ReturnRun(body) => match instr_text(*body, ra, func_id, mapping) {
            Some(Some(c)) => Some(Some("return run "@ + c)),
            _ => None,
        },
        LIRInstrKind::Command(c) => Some(Some(c@)),
        LIRInstrKind::Comment(c) => Some(Some(seq!['#'] + c@)),
        LIRInstrKind::MC(instr) => Some(Some(mc_text(instr))),
        LIRInstrKind::Use(_) => Some(None),
    }
}

/// The literal numbers whose scores an instruction reads: the constant right
/// operands of multiplication, division, remainder, minimum and maximum
pub open spec fn kind_literals(
    kind: LIRInstrKind,
    ra: RegAllocResult,
    func_id: Seq<char>,
    mapping: Option<FunctionMapping>,
) -> Set<i32>
    decreases kind,
{
    match kind {
        LIRInstrKind::MulScore(_, r) => score_val_literals(r),
        LIRInstrKind::DivScore(_, r) => score_val_literals(r),
        LIRInstrKind::ModScore(_, r) => score_val_literals(r),
        LIRInstrKind::MinScore(_, r) => score_val_literals(r),
        LIRInstrKind::MaxScore(_, r) => score_val_literals(r),
        LIRInstrKind::ReturnRun(body) => instr_literals(*body, ra, func_id, mapping),
        _ => Set::empty(),
    }
}

/// The literal that a score operand needs, if it is a constant
pub open spec fn score_val_literals(v: ScoreValue) -> Set<i32> {
    match v {
        ScoreValue::Constant(c) => set![score_contents_value(c) as i32],
        ScoreValue::Mutable(_) => Set::empty(),
    }
}

/// Instructions whose constants can be written: adding or taking away
/// the smallest 32-bit number has no positive amount to write
pub open spec fn kind_supported(kind: LIRInstrKind) -> bool
    decreases kind,
{
    match kind {
        LIRInstrKind::AddScore(_, ScoreValue::Constant(c)) => score_contents_value(c) != i32::MIN,
        LIRInstrKind::SubScore(_, ScoreValue::Constant(c)) => score_contents_value(c) != i32::MIN,
        LIRInstrKind::ReturnRun(body) => instr_supported(*body),
        _ => true,
    }
}

/// The text of an optional command
pub open spec fn opt_text(c: Option<String>) -> Option<Seq<char>> {
    match c {
        Some(s) => Some(s@),
        None => None,
    }
}

/// `prefix`, then `mid`, then `suffix`, as a new string
pub(crate) fn cat3(prefix: &str, mid: &str, suffix: &str) -> (r: String)
    ensures
        r@ == prefix@ + mid@ + suffix@,
{
    let mut out = String::new();
    push_str(&mut out, prefix);
    push_str(&mut out, mid);
    push_str(&mut out, suffix);
    assert(out@ =~= prefix@ + mid@ + suffix@);
    out
}

/// `prefix`, then `rest`, as a new string
pub(crate) fn cat2(prefix: &str, rest: &str) -> (r: String)
    ensures
        r@ == prefix@ + rest@,
{
    let mut out = String::new();
    push_str(&mut out, prefix);
    push_str(&mut out, rest);
    assert(out@ =~= prefix@ + rest@);
    out
}

/// A command whose middle part is the score of `left`
fn score_cmd(prefix: &str, left: &MutableScoreValue, suffix: &str, cbcx: &CodegenBlockCx) -> (r: Result<
    Option<String>,
    CodegenError,
>)
    ensures
        match r {
            Ok(c) => wrap_cmd(prefix@, mut_score_text(*left, cbcx.ra, cbcx.func_id@), suffix@) == Some(opt_text(c)),
            Err(_) => mut_score_text(*left, cbcx.ra, cbcx.func_id@) is None,
        },
{
    match mut_score_str(left, &cbcx.ra, cbcx.func_id.as_str()) {
        Ok(l) => Ok(Some(cat3(prefix, l.as_str(), suffix))),
        Err(e) => Err(e),
    }
}

/// A command whose middle part is the location of `left`
fn loc_cmd(prefix: &str, left: &MutableNBTValue, suffix: &str, cbcx: &CodegenBlockCx) -> (r: Result<
    Option<String>,
    CodegenError,
>)
    ensures
        match r {
            Ok(c) => wrap_cmd(prefix@, nbt_loc_text(*left, cbcx.ra, cbcx.func_id@), suffix@) == Some(opt_text(c)),
            Err(_) => nbt_loc_text(*left, cbcx.ra, cbcx.func_id@) is None,
        },
{
    match nbt_loc_str(left, &cbcx.ra, cbcx.func_id.as_str()) {
        Ok(l) => Ok(Some(cat3(prefix, l.as_str(), suffix))),
        Err(e) => Err(e),
    }
}

/// A `scoreboard players operation` command with the score of `right`
fn operation_cmd(left: &MutableScoreValue, op: &str, right: &MutableScoreValue, cbcx: &CodegenBlockCx) -> (r: Result<
    Option<String>,
    CodegenError,
>)
    ensures
        match r {
            Ok(c) => op_cmd(
                mut_score_text(*left, cbcx.ra, cbcx.func_id@),
                op@,
                mut_score_text(*right, cbcx.ra, cbcx.func_id@),
            ) == Some(opt_text(c)),
            Err(_) => op_cmd(
                mut_score_text(*left, cbcx.ra, cbcx.func_id@),
                op@,
                mut_score_text(*right, cbcx.ra, cbcx.func_id@),
            ) is None,
        },
{
    let l = match mut_score_str(left, &cbcx.ra, cbcx.func_id.as_str()) {
        Ok(l) => l,
        Err(e) => return Err(e),
    };
    let r = match mut_score_str(right, &cbcx.ra, cbcx.func_id.as_str()) {
        Ok(r) => r,
        Err(e) => return Err(e),
    };
    let mut out = String::new();
    push_str(&mut out, "scoreboard players operation ");
    push_str(&mut out, l.as_str());
    push_str(&mut out, op);
    push_str(&mut out, r.as_str());
    assert(out@ =~= "scoreboard players operation "@ + l@ + op@ + r@);
    Ok(Some(out))
}

/// A `scoreboard players operation` command with an operand that may be a
/// constant, whose literal is then recorded
fn operation_val_cmd(
    left: &MutableScoreValue,
    op: &str,
    right: &ScoreValue,
    ccx: &mut CodegenCx,
    cbcx: &CodegenBlockCx,
) -> (r: Result<Option<String>, CodegenError>)
    ensures
        final(ccx).func_mapping == old(ccx).func_mapping,
        final(ccx).racx == old(ccx).racx,
        match r {
            Ok(c) => {
                &&& op_cmd(
                    mut_score_text(*left, cbcx.ra, cbcx.func_id@),
                    op@,
                    score_val_text(*right, cbcx.ra, cbcx.func_id@),
                ) == Some(opt_text(c))
                &&& final(ccx).score_literals@ == old(ccx).score_literals@.union(score_val_literals(*right))
            },
            Err(_) => op_cmd(
                mut_score_text(*left, cbcx.ra, cbcx.func_id@),
                op@,
                score_val_text(*right, cbcx.ra, cbcx.func_id@),
            ) is None,
        },
{
    let l = match mut_score_str(left, &cbcx.ra, cbcx.func_id.as_str()) {
        Ok(l) => l,
        Err(e) => return Err(e),
    };
    let (score, lit) = match get_score_val_score(right, &cbcx.ra, cbcx.func_id.as_str()) {
        Ok(x) => x,
        Err(e) => return Err(e),
    };
    if let Some(n) = lit.0 {
        ccx.score_literals.insert(n);
    }
    assert(ccx.score_literals@ =~= old(ccx).score_literals@.union(score_val_literals(*right)));
    let r = score.gen_str();
    let mut out = String::new();
    push_str(&mut out, "scoreboard players operation ");
    push_str(&mut out, l.as_str());
    push_str(&mut out, op);
    push_str(&mut out, r.as_str());
    assert(out@ =~= "scoreboard players operation "@ + l@ + op@ + r@);
    Ok(Some(out))
}

/// A `data modify` command
fn data_modify_cmd(left: &MutableNBTValue, mid: &str, right: &NBTValue, cbcx: &CodegenBlockCx) -> (r: Result<
    Option<String>,
    CodegenError,
>)
    ensures
        match r {
            Ok(c) => modify_cmd(
                nbt_loc_text(*left, cbcx.ra, cbcx.func_id@),
                mid@,
                data_rhs_text(*right, cbcx.ra, cbcx.func_id@),
            ) == Some(opt_text(c)),
            Err(_) => modify_cmd(
                nbt_loc_text(*left, cbcx.ra, cbcx.func_id@),
                mid@,
                data_rhs_text(*right, cbcx.ra, cbcx.func_id@),
            ) is None,
        },
{
    let l = match nbt_loc_str(left, &cbcx.ra, cbcx.func_id.as_str()) {
        Ok(l) => l,
        Err(e) => return Err(e),
    };
    let r = match cg_data_modify_rhs(right, &cbcx.ra, cbcx.func_id.as_str()) {
        Ok(r) => r,
        Err(e) => return Err(e),
    };
    let mut out = String::new();
    push_str(&mut out, "data modify ");
    push_str(&mut out, l.as_str());
    push_str(&mut out, mid);
    push_str(&mut out, r.as_str());
    assert(out@ =~= "data modify "@ + l@ + mid@ + r@);
    Ok(Some(out))
}

/// ` ` and a number in decimal
fn space_num(n: i64) -> (r: String)
    ensures
        r@ == seq![' '] + crate::strutil::decimal_int(n as int),
{
    let mut out = String::new();
    push_char(&mut out, ' ');
    crate::strutil::push_decimal_i64(&mut out, n);
    assert(out@ =~= seq![' '] + crate::strutil::decimal_int(n as int));
    out
}

/// The command of a score instruction
#[verifier::spinoff_prover]
fn cg_score_kind(kind: &LIRInstrKind, ccx: &mut CodegenCx, cbcx: &CodegenBlockCx) -> (r: Result<
    Option<String>,
    CodegenError,
>)
    requires
        kind_supported(*kind),
        kind is SetScore || kind is AddScore || kind is SubScore || kind is MulScore || kind is DivScore
            || kind is ModScore || kind is MinScore || kind is MaxScore || kind is SwapScore
            || kind is ResetScore || kind is GetScore || kind is GetConst,
    ensures
        final(ccx).func_mapping == old(ccx).func_mapping,
        final(ccx).racx == old(ccx).racx,
        match r {
            Ok(c) => {
                &&& kind_text(*kind, cbcx.ra, cbcx.func_id@, old(ccx).func_mapping) == Some(opt_text(c))
                &&& final(ccx).score_literals@ == old(ccx).score_literals@.union(kind_literals(*kind, cbcx.ra, cbcx.func_id@, old(ccx).func_mapping))
            },
            Err(_) => kind_text(*kind, cbcx.ra, cbcx.func_id@, old(ccx).func_mapping) is None,
        },
{
    let ghost lits = old(ccx).score_literals@;
    match kind {
        LIRInstrKind::SetScore(left, right) => {
            assert(lits.union(kind_literals(*kind, cbcx.ra, cbcx.func_id@, old(ccx).func_mapping)) =~= lits);
            match right {
                ScoreValue::Constant(data) => {
                    let lit = space_num(data.get_i32() as i64);
                    score_cmd("scoreboard players set ", left, lit.as_str(), cbcx)
                },
                ScoreValue::Mutable(r) => operation_cmd(left, " = ", r, cbcx),
            }
        },
        LIRInstrKind::AddScore(left, right) => {
            assert(lits.union(kind_literals(*kind, cbcx.ra, cbcx.func_id@, old(ccx).func_mapping)) =~= lits);
            match right {
                ScoreValue::Constant(data) => {
                    let lit = data.get_i32();
                    // Negative signs in add/remove commands are illegal
                    if lit < 0 {
                        let amount = space_num(-(lit as i64));
                        score_cmd("scoreboard players remove ", left, amount.as_str(), cbcx)
                    } else {
                        let amount = space_num(lit as i64);
                        score_cmd("scoreboard players add ", left, amount.as_str(), cbcx)
                    }
                },
                ScoreValue::Mutable(r) => operation_cmd(left, " += ", r, cbcx),
            }
        },
        LIRInstrKind::SubScore(left, right) => {
            assert(lits.union(kind_literals(*kind, cbcx.ra, cbcx.func_id@, old(ccx).func_mapping)) =~= lits);
            match right {
                ScoreValue::Constant(data) => {
                    let lit = data.get_i32();
                    // Negative signs in add/remove commands are illegal
                    if lit < 0 {
                        let amount = space_num(-(lit as i64));
                        score_cmd("scoreboard players add ", left, amount.as_str(), cbcx)
                    } else {
                        let amount = space_num(lit as i64);
                        score_cmd("scoreboard players remove ", left, amount.as_str(), cbcx)
                    }
                },
                ScoreValue::Mutable(r) => operation_cmd(left, " -= ", r, cbcx),
            }
        },
        LIRInstrKind::MulScore(left, right) => operation_val_cmd(left, " *= ", right, ccx, cbcx),
        LIRInstrKind::DivScore(left, right) => operation_val_cmd(left, " /= ", right, ccx, cbcx),
        LIRInstrKind::ModScore(left, right) => operation_val_cmd(left, " %= ", right, ccx, cbcx),
        LIRInstrKind::MinScore(left, right) => operation_val_cmd(left, " < ", right, ccx, cbcx),
        LIRInstrKind::MaxScore(left, right) => operation_val_cmd(left, " > ", right, ccx, cbcx),
        LIRInstrKind::SwapScore(left, right) => {
            assert(lits.union(kind_literals(*kind, cbcx.ra, cbcx.func_id@, old(ccx).func_mapping)) =~= lits);
            operation_cmd(left, " >< ", right, cbcx)
        },
        LIRInstrKind::ResetScore(val) => {
            assert(lits.union(kind_literals(*kind, cbcx.ra, cbcx.func_id@, old(ccx).func_mapping)) =~= lits);
            // It is faster to reset the player than the score.
            // Since we use fake players for registers that only have the
            // one register objective, we can reset the whole player for
            // a performance and code size gain
            if let MutableScoreValue::Reg(..) = val {
                match get_mut_score_val_score(val, &cbcx.ra, cbcx.func_id.as_str()) {
                    Ok(score) => {
                        let holder = score.holder.gen_str();
                        Ok(Some(cat2("scoreboard players reset ", holder.as_str())))
                    },
                    Err(e) => Err(e),
                }
            } else {
                score_cmd("scoreboard players reset ", val, "", cbcx)
            }
        },
        LIRInstrKind::GetScore(val) => {
            assert(lits.union(kind_literals(*kind, cbcx.ra, cbcx.func_id@, old(ccx).func_mapping)) =~= lits);
            score_cmd("scoreboard players get ", val, "", cbcx)
        },
        LIRInstrKind::GetConst(val) => {
            assert(lits.union(kind_literals(*kind, cbcx.ra, cbcx.func_id@, old(ccx).func_mapping)) =~= lits);
            let lit = create_lit_score(*val);
            let text = lit.gen_str();
            Ok(Some(cat2("scoreboard players get ", text.as_str())))
        },
        _ => Ok(None),
    }
}

/// The command of a data instruction
#[verifier::spinoff_prover]
fn cg_data_kind(kind: &LIRInstrKind, cbcx: &CodegenBlockCx, Ghost(mapping): Ghost<Option<FunctionMapping>>) -> (r: Result<
    Option<String>,
    CodegenError,
>)
    requires
        kind is SetData || kind is RemoveData || kind is MergeData || kind is PushData
            || kind is PushFrontData || kind is InsertData || kind is GetData,
    ensures
        kind_literals(*kind, cbcx.ra, cbcx.func_id@, mapping) == Set::<i32>::empty(),
        match r {
            Ok(c) => kind_text(*kind, cbcx.ra, cbcx.func_id@, mapping) == Some(opt_text(c)),
            Err(_) => kind_text(*kind, cbcx.ra, cbcx.func_id@, mapping) is None,
        },
{
    match kind {
        LIRInstrKind::SetData(left, right) => {
            data_modify_cmd(left, " set ", right, cbcx)
        },
        LIRInstrKind::RemoveData(val) => {
            loc_cmd("data remove ", val, "", cbcx)
        },
        LIRInstrKind::GetData(val, scale) => {
            let suffix = if crate::strutil::str_eq(scale.as_str(), "1") {
                String::new()
            } else {
                cat2(" ", scale.as_str())
            };
            proof {
                reveal_strlit(" ");
            }
            assert(suffix@ =~= scale_suffix(scale@));
            loc_cmd("data get ", val, suffix.as_str(), cbcx)
        },
        LIRInstrKind::MergeData(left, right) => {
            if let NBTValue::Constant(rhs) = right {
                let lit = rhs.get_literal_str();
                let suffix = cat2(" ", lit.as_str());
                loc_cmd("data merge ", left, suffix.as_str(), cbcx)
            } else {
                data_modify_cmd(left, " merge ", right, cbcx)
            }
        },
        LIRInstrKind::PushData(left, right) => {
            data_modify_cmd(left, " append ", right, cbcx)
        },
        LIRInstrKind::PushFrontData(left, right) => {
            data_modify_cmd(left, " prepend ", right, cbcx)
        },
        LIRInstrKind::InsertData(left, right, i) => {
            let idx = space_num(*i as i64);
            let mut mid = String::new();
            push_str(&mut mid, " insert");
            push_str(&mut mid, idx.as_str());
            push_char(&mut mid, ' ');
            assert(mid@ =~= " insert"@ + seq![' '] + crate::strutil::decimal_int(*i as int) + seq![' ']);
            data_modify_cmd(left, mid.as_str(), right, cbcx)
        },
        _ => Ok(None),
    }
}

/// Generates the command of what an instruction does, before its modifiers
#[verifier::spinoff_prover]
#[verifier::rlimit(40)]
fn codegen_kind(kind: &LIRInstrKind, ccx: &mut CodegenCx, cbcx: &CodegenBlockCx) -> (r: Result<
    Option<String>,
    CodegenError,
>)
    requires
        kind_supported(*kind),
    ensures
        final(ccx).func_mapping == old(ccx).func_mapping,
        final(ccx).racx == old(ccx).racx,
        match r {
            Ok(c) => {
                &&& kind_text(*kind, cbcx.ra, cbcx.func_id@, old(ccx).func_mapping) == Some(opt_text(c))
                &&& final(ccx).score_literals@ == old(ccx).score_literals@.union(kind_literals(*kind, cbcx.ra, cbcx.func_id@, old(ccx).func_mapping))
            },
            Err(_) => kind_text(*kind, cbcx.ra, cbcx.func_id@, old(ccx).func_mapping) is None,
        },
    decreases kind,
{
    let ghost lits = old(ccx).score_literals@;
    match kind {
        LIRInstrKind::SetScore(..) | LIRInstrKind::AddScore(..) | LIRInstrKind::SubScore(..)
        | LIRInstrKind::MulScore(..) | LIRInstrKind::DivScore(..) | LIRInstrKind::ModScore(..)
        | LIRInstrKind::MinScore(..) | LIRInstrKind::MaxScore(..) | LIRInstrKind::SwapScore(..)
        | LIRInstrKind::ResetScore(..) | LIRInstrKind::GetScore(..) | LIRInstrKind::GetConst(..) => {
            cg_score_kind(kind, ccx, cbcx)
        },
        LIRInstrKind::SetData(..) | LIRInstrKind::RemoveData(..) | LIRInstrKind::MergeData(..) | LIRInstrKind::GetData(..)
        | LIRInstrKind::PushData(..) | LIRInstrKind::PushFrontData(..) | LIRInstrKind::InsertData(..) => {
            let r = cg_data_kind(kind, cbcx, Ghost(ccx.func_mapping));
            assert(lits.union(kind_literals(*kind, cbcx.ra, cbcx.func_id@, old(ccx).func_mapping)) =~= lits);
            r
        },
        LIRInstrKind::NoOp | LIRInstrKind::Use(_) => {
            assert(lits.union(kind_literals(*kind, cbcx.ra, cbcx.func_id@, old(ccx).func_mapping)) =~= lits);
            Ok(None)
        },
        LIRInstrKind::Call(fun) => {
            assert(lits.union(kind_literals(*kind, cbcx.ra, cbcx.func_id@, old(ccx).func_mapping)) =~= lits);
            let mut func_id = fun;
            if let Some(mapping) = &ccx.func_mapping {
                if let Some(new_id) = lookup(&mapping.0, func_id.as_str()) {
                    func_id = new_id;
                }
            }
            Ok(Some(cat2("function ", func_id.as_str())))
        },
        LIRInstrKind::ReturnValue(val) => {
            assert(lits.union(kind_literals(*kind, cbcx.ra, cbcx.func_id@, old(ccx).func_mapping)) =~= lits);
            let n = crate::strutil::i64_to_string(*val as i64);
            Ok(Some(cat2("return ", n.as_str())))
        },
        LIRInstrKind::ReturnFail => {
            assert(lits.union(kind_literals(*kind, cbcx.ra, cbcx.func_id@, old(ccx).func_mapping)) =~= lits);
            Ok(Some(String::from_str("return fail")))
        },
        LIRInstrKind::ReturnRun(body) => {
            assert(decreases_to!(*kind => **body));
            match codegen_instr(body, ccx, cbcx) {
                Ok(Some(cmd)) => Ok(Some(cat2("return run ", cmd.as_str()))),
                Ok(None) => Err(CodegenError::MissingReturnRunCommand),
                Err(e) => Err(e),
            }
        },
        LIRInstrKind::Command(cmd) => {
            assert(lits.union(kind_literals(*kind, cbcx.ra, cbcx.func_id@, old(ccx).func_mapping)) =~= lits);
            Ok(Some(cmd.clone()))
        },
        LIRInstrKind::Comment(cmt) => {
            assert(lits.union(kind_literals(*kind, cbcx.ra, cbcx.func_id@, old(ccx).func_mapping)) =~= lits);
            let mut out = String::new();
            push_char(&mut out, '#');
            push_str(&mut out, cmt.as_str());
            assert(out@ =~= seq!['#'] + cmt@);
            Ok(Some(out))
        },
        LIRInstrKind::MC(instr) => {
            assert(lits.union(kind_literals(*kind, cbcx.ra, cbcx.func_id@, old(ccx).func_mapping)) =~= lits);
            Ok(Some(codegen_mc_instr(instr)))
        },
    }
}

/// The command of an instruction with its modifiers: `None` where it fails,
/// `Some(None)` where it needs no command
pub open spec fn instr_text(
    instr: LIRInstruction,
    ra: RegAllocResult,
    func_id: Seq<char>,
    mapping: Option<FunctionMapping>,
) -> Option<Option<Seq<char>>>
    decreases instr,
{
    match kind_text(instr.kind, ra, func_id, mapping) {
        Some(k) => build_text(k, instr.modifiers@, ra, func_id, mapping),
        None => None,
    }
}

/// The literal numbers that an instruction and its modifiers read
pub open spec fn instr_literals(
    instr: LIRInstruction,
    ra: RegAllocResult,
    func_id: Seq<char>,
    mapping: Option<FunctionMapping>,
) -> Set<i32>
    decreases instr,
{
    match kind_text(instr.kind, ra, func_id, mapping) {
        Some(k) => kind_literals(instr.kind, ra, func_id, mapping).union(build_literals(k, instr.modifiers@)),
        None => kind_literals(instr.kind, ra, func_id, mapping),
    }
}

/// Instructions whose constants, and those of their modifiers, can be written.
/// The modifiers of an instruction without a command are never written where
/// none of them has side effects of its own, so they need not be writable.
pub open spec fn instr_supported(instr: LIRInstruction) -> bool
    decreases instr,
{
    &&& kind_supported(instr.kind)
    &&& (mods_supported(instr.modifiers@) || (command_dropped(instr.kind) && !any_side_effects(
        instr.modifiers@,
    )))
}

/// Instructions that produce no command of their own
pub open spec fn command_dropped(kind: LIRInstrKind) -> bool {
    kind is NoOp || kind is Use
}

/// Whether the constants of a modifier can be written
fn is_modifier_supported(m: &Modifier) -> (r: bool)
    ensures
        r == self::modifier::modifier_supported(*m),
{
    match m {
        Modifier::If { condition, .. } => match &**condition {
            IfModCondition::Score(IfScoreCondition::Range { right: IfScoreRangeEnd::Fixed { value: ScoreValue::Constant(c), inclusive }, .. }) => {
                *inclusive || c.get_i32() != i32::MIN
            },
            _ => true,
        },
        _ => true,
    }
}

/// Whether the constants of an instruction can be written
pub fn is_kind_supported(kind: &LIRInstrKind) -> (r: bool)
    ensures
        r == kind_supported(*kind),
    decreases kind,
{
    match kind {
        LIRInstrKind::AddScore(_, ScoreValue::Constant(c)) => c.get_i32() != i32::MIN,
        LIRInstrKind::SubScore(_, ScoreValue::Constant(c)) => c.get_i32() != i32::MIN,
        LIRInstrKind::ReturnRun(body) => {
            assert(decreases_to!(*kind => **body));
            is_instr_supported(body)
        },
        _ => true,
    }
}

/// Whether the constants of an instruction and of its modifiers can be written
pub fn is_instr_supported(instr: &LIRInstruction) -> (r: bool)
    ensures
        r == instr_supported(*instr),
    decreases instr,
{
    assert(decreases_to!(*instr => instr.kind));
    if !is_kind_supported(&instr.kind) {
        return false;
    }
    let dropped = match &instr.kind {
        LIRInstrKind::NoOp | LIRInstrKind::Use(_) => true,
        _ => false,
    };
    if dropped && !self::modifier::has_side_effects(&instr.modifiers) {
        return true;
    }
    let mut i: usize = 0;
    while i < instr.modifiers.len()
        invariant
            i <= instr.modifiers@.len(),
            forall|k: int| 0 <= k < i ==> self::modifier::modifier_supported(#[trigger] instr.modifiers@[k]),
            kind_supported(instr.kind),
            !(command_dropped(instr.kind) && !any_side_effects(instr.modifiers@)),
        decreases instr.modifiers.len() - i,
    {
        if !is_modifier_supported(&instr.modifiers[i]) {
            assert(!mods_supported(instr.modifiers@));
            return false;
        }
        i = i + 1;
    }
    true
}

/// Generates the command of one instruction with its modifiers, or none
/// where it needs none
pub fn codegen_instr(instr: &LIRInstruction, ccx: &mut CodegenCx, cbcx: &CodegenBlockCx) -> (r: Result<
    Option<String>,
    CodegenError,
>)
    requires
        instr_supported(*instr),
    ensures
        final(ccx).func_mapping == old(ccx).func_mapping,
        final(ccx).racx == old(ccx).racx,
        match r {
            Ok(c) => {
                &&& instr_text(*instr, cbcx.ra, cbcx.func_id@, old(ccx).func_mapping) == Some(opt_text(c))
                &&& final(ccx).score_literals@ == old(ccx).score_literals@.union(instr_literals(*instr, cbcx.ra, cbcx.func_id@, old(ccx).func_mapping))
            },
            Err(_) => instr_text(*instr, cbcx.ra, cbcx.func_id@, old(ccx).func_mapping) is None,
        },
    decreases instr,
{
    let ghost ra = cbcx.ra;
    let ghost f = cbcx.func_id@;
    let ghost m = old(ccx).func_mapping;
    assert(instr_text(*instr, ra, f, m) == match kind_text(instr.kind, ra, f, m) {
        Some(k) => build_text(k, instr.modifiers@, ra, f, m),
        None => None,
    });
    assert(instr_literals(*instr, ra, f, m) == match kind_text(instr.kind, ra, f, m) {
        Some(k) => kind_literals(instr.kind, ra, f, m).union(build_literals(k, instr.modifiers@)),
        None => kind_literals(instr.kind, ra, f, m),
    });
    assert(decreases_to!(*instr => instr.kind));
    let cmd = match codegen_kind(&instr.kind, ccx, cbcx) {
        Ok(c) => c,
        Err(e) => return Err(e),
    };
    let ghost mid = ccx.score_literals@;
    let ghost k = opt_text(cmd);
    assert(kind_text(instr.kind, ra, f, m) == Some(k));
    assert(command_dropped(instr.kind) ==> cmd is None);
    assert(mid == old(ccx).score_literals@.union(kind_literals(instr.kind, ra, f, m)));
    let r = generate_command(cmd, &instr.modifiers, ccx, cbcx);
    proof {
        if r is Ok {
            assert(ccx.score_literals@ == mid.union(build_literals(k, instr.modifiers@)));
            assert(instr_literals(*instr, ra, f, m) == kind_literals(instr.kind, ra, f, m).union(
                build_literals(k, instr.modifiers@),
            ));
            assert(ccx.score_literals@ =~= old(ccx).score_literals@.union(instr_literals(*instr, ra, f, m)));
        }
    }
    r
}

/// The commands of a list of instructions, in order, leaving out those that
/// need none; `None` where some instruction fails
pub open spec fn block_cmds(
    instrs: Seq<LIRInstruction>,
    ra: RegAllocResult,
    func_id: Seq<char>,
    mapping: Option<FunctionMapping>,
) -> Option<Seq<Seq<char>>>
    decreases instrs.len(),
{
    if instrs.len() == 0 {
        Some(Seq::empty())
    } else {
        match (block_cmds(instrs.drop_last(), ra, func_id, mapping), instr_text(instrs.last(), ra, func_id, mapping)) {
            (Some(prev), Some(Some(c))) => Some(prev.push(c)),
            (Some(prev), Some(None)) => Some(prev),
            _ => None,
        }
    }
}

/// The literal numbers that a list of instructions reads
pub open spec fn block_literals(
    instrs: Seq<LIRInstruction>,
    ra: RegAllocResult,
    func_id: Seq<char>,
    mapping: Option<FunctionMapping>,
) -> Set<i32>
    decreases instrs.len(),
{
    if instrs.len() == 0 {
        Set::empty()
    } else {
        block_literals(instrs.drop_last(), ra, func_id, mapping).union(instr_literals(instrs.last(), ra, func_id, mapping))
    }
}

/// Whether some instruction of a block uses a declared register of a kind:
/// a score register, or an NBT one
pub open spec fn block_has_regs(block: &LIRBlock, score: bool) -> bool {
    exists|q: Seq<char>|
        has_kind(block.regs@, q, score) && #[trigger] used_before(block.uses(), block.contents@.len() as int, q)
}

/// Whether commands and literals are those of a block whose registers are
/// named after `func_id`, under some correct allocation of its registers
#[verifier::opaque]
pub open spec fn block_result(
    block: LIRBlock,
    func_id: Seq<char>,
    mapping: Option<FunctionMapping>,
    cmds: Seq<Seq<char>>,
    lits: Set<i32>,
) -> bool {
    exists|ra: RegAllocResult|
        allocation_correct(ra.regs@, block.uses(), block.regs@, true, seq!['%', 'r'], cleaned(func_id))
            && allocation_correct(ra.locals@, block.uses(), block.regs@, false, seq!['r'], cleaned(func_id))
            && #[trigger] block_cmds(block.contents@, ra, func_id, mapping) == Some(cmds)
            && lits == block_literals(block.contents@, ra, func_id, mapping)
}

/// Whether commands are those of a block under some correct allocation of
/// its registers, and the literal set after it is the one before together
/// with the literals that the commands read
#[verifier::opaque]
pub open spec fn block_codegen(
    block: LIRBlock,
    func_id: Seq<char>,
    mapping: Option<FunctionMapping>,
    cmds: Seq<Seq<char>>,
    before: Set<i32>,
    after: Set<i32>,
) -> bool {
    exists|lits: Set<i32>| #[trigger] block_result(block, func_id, mapping, cmds, lits) && after == before.union(lits)
}

/// Whether, under some correct allocation of the registers of a block named
/// after `func_id`, a command of the block cannot be written
#[verifier::opaque]
pub open spec fn block_fails(block: LIRBlock, func_id: Seq<char>, mapping: Option<FunctionMapping>) -> bool {
    exists|ra: RegAllocResult|
        allocation_correct(ra.regs@, block.uses(), block.regs@, true, seq!['%', 'r'], cleaned(func_id))
            && allocation_correct(ra.locals@, block.uses(), block.regs@, false, seq!['r'], cleaned(func_id))
            && #[trigger] block_cmds(block.contents@, ra, func_id, mapping) is None
}

/// Generates the commands of a block: allocates its registers, then writes
/// the command of each instruction that needs one
#[verifier::spinoff_prover]
#[verifier::rlimit(60)]
pub fn codegen_block(func_id: &str, block: &LIRBlock, ccx: &mut CodegenCx) -> (r: Result<
    Vec<String>,
    CodegenError,
>)
    requires
        old(ccx).racx.ready(),
        old(ccx).racx.reg_state().0 + total_uses(block.uses()) <= u32::MAX,
        old(ccx).racx.local_state().0 + total_uses(block.uses()) <= u32::MAX,
        forall|i: int| 0 <= i < block.contents@.len() ==> instr_supported(#[trigger] block.contents@[i]),
    ensures
        final(ccx).func_mapping == old(ccx).func_mapping,
        final(ccx).racx.wf(),
        match r {
            Ok(cmds) => {
                &&& final(ccx).racx.ready()
                &&& final(ccx).racx.reg_state().0 <= old(ccx).racx.reg_state().0 + total_uses(block.uses())
                &&& final(ccx).racx.local_state().0 <= old(ccx).racx.local_state().0 + total_uses(block.uses())
                &&& final(ccx).racx.spec_has_allocated_reg() == (old(ccx).racx.spec_has_allocated_reg() || block_has_regs(block, true))
                &&& final(ccx).racx.spec_has_allocated_local() == (old(ccx).racx.spec_has_allocated_local() || block_has_regs(block, false))
                &&& block_codegen(
                    *block,
                    func_id@,
                    old(ccx).func_mapping,
                    string_views(cmds@),
                    old(ccx).score_literals@,
                    final(ccx).score_literals@,
                )
            },
            Err(e) => {
                ||| (e == CodegenError::MissingRegister && !all_declared(block.uses(), block.regs@))
                ||| block_fails(*block, func_id@, old(ccx).func_mapping)
            },
        },
{
    let ra = match alloc_block_registers(func_id, block, &mut ccx.racx) {
        Ok(ra) => ra,
        Err(_) => return Err(CodegenError::MissingRegister),
    };
    let cbcx = CodegenBlockCx { ra, func_id: String::from_str(func_id) };
    let ghost mapping = ccx.func_mapping;
    let ghost lits = ccx.score_literals@;
    let ghost racx = ccx.racx;
    let mut out: Vec<String> = Vec::new();
    let mut i: usize = 0;
    assert(block.contents@.take(0) =~= Seq::<LIRInstruction>::empty());
    while i < block.contents.len()
        invariant
            i <= block.contents@.len(),
            forall|j: int| 0 <= j < block.contents@.len() ==> instr_supported(#[trigger] block.contents@[j]),
            ccx.func_mapping == mapping,
            mapping == old(ccx).func_mapping,
            ccx.racx == racx,
            racx.wf(),
            racx.ready(),
            racx.reg_state().0 <= old(ccx).racx.reg_state().0 + total_uses(block.uses()),
            racx.local_state().0 <= old(ccx).racx.local_state().0 + total_uses(block.uses()),
            racx.spec_has_allocated_reg() == (old(ccx).racx.spec_has_allocated_reg() || block_has_regs(block, true)),
            racx.spec_has_allocated_local() == (old(ccx).racx.spec_has_allocated_local() || block_has_regs(block, false)),
            lits == old(ccx).score_literals@,
            allocation_correct(cbcx.ra.regs@, block.uses(), block.regs@, true, seq!['%', 'r'], cleaned(func_id@)),
            allocation_correct(cbcx.ra.locals@, block.uses(), block.regs@, false, seq!['r'], cleaned(func_id@)),
            cbcx.func_id@ == func_id@,
            block_cmds(block.contents@.take(i as int), cbcx.ra, func_id@, mapping) == Some(string_views(out@)),
            ccx.score_literals@ == lits.union(block_literals(block.contents@.take(i as int), cbcx.ra, func_id@, mapping)),
        decreases block.contents.len() - i,
    {
        let ghost t = block.contents@.take(i as int + 1);
        proof {
            lemma_block_step(block.contents@, i as int, cbcx.ra, func_id@, mapping);
        }
        let cmd = codegen_instr(&block.contents[i], ccx, &cbcx);
        match cmd {
            Ok(Some(c)) => {
                let ghost before = out@;
                out.push(c);
                assert(string_views(out@) =~= string_views(before).push(out@[i as int - (i as int - before.len())]@));
                assert(string_views(out@) =~= string_views(before).push(c@)) by {
                    assert(out@.last() == c);
                }
            },
            Ok(None) => {},
            Err(e) => {
                proof {
                    lemma_block_cmds_none(block.contents@, i as int, cbcx.ra, func_id@, mapping);
                }
                assert(block_fails(*block, func_id@, mapping)) by {
                    reveal(block_fails);
                    assert(block_cmds(block.contents@, cbcx.ra, func_id@, mapping) is None);
                }
                return Err(e);
            },
        }
        assert(ccx.score_literals@ =~= lits.union(block_literals(t, cbcx.ra, func_id@, mapping)));
        i = i + 1;
    }
    assert(block.contents@.take(block.contents@.len() as int) =~= block.contents@);
    assert(block_cmds(block.contents@, cbcx.ra, func_id@, mapping) == Some(string_views(out@)));
    assert(ccx.score_literals@ == lits.union(block_literals(block.contents@, cbcx.ra, func_id@, mapping)));
    let ghost blits = block_literals(block.contents@, cbcx.ra, func_id@, mapping);
    assert(block_result(*block, func_id@, mapping, string_views(out@), blits)) by {
        reveal(block_result);
    }
    assert(mapping == old(ccx).func_mapping);
    assert(ccx.score_literals@ == old(ccx).score_literals@.union(blits));
    assert(block_codegen(*block, func_id@, mapping, string_views(out@), old(ccx).score_literals@, ccx.score_literals@)) by {
        reveal(block_codegen);
    }
    Ok(out)
}

/// One more instruction adds its command and its literals
proof fn lemma_block_step(
    instrs: Seq<LIRInstruction>,
    i: int,
    ra: RegAllocResult,
    func_id: Seq<char>,
    mapping: Option<FunctionMapping>,
)
    requires
        0 <= i < instrs.len(),
    ensures
        block_cmds(instrs.take(i + 1), ra, func_id, mapping) == match (
            block_cmds(instrs.take(i), ra, func_id, mapping),
            instr_text(instrs[i], ra, func_id, mapping),
        ) {
            (Some(prev), Some(Some(c))) => Some(prev.push(c)),
            (Some(prev), Some(None)) => Some(prev),
            _ => None,
        },
        block_literals(instrs.take(i + 1), ra, func_id, mapping) == block_literals(instrs.take(i), ra, func_id, mapping).union(instr_literals(instrs[i], ra, func_id, mapping)),
{
    let t = instrs.take(i + 1);
    assert(t.drop_last() =~= instrs.take(i));
    assert(t.last() == instrs[i]);
}

/// Once an instruction fails, the whole list fails
proof fn lemma_block_cmds_none(
    instrs: Seq<LIRInstruction>,
    i: int,
    ra: RegAllocResult,
    func_id: Seq<char>,
    mapping: Option<FunctionMapping>,
)
    requires
        0 <= i < instrs.len(),
        instr_text(instrs[i], ra, func_id, mapping) is None || block_cmds(instrs.take(i), ra, func_id, mapping) is None,
    ensures
        block_cmds(instrs, ra, func_id, mapping) is None,
    decreases instrs.len(),
{
    if i == instrs.len() - 1 {
        assert(instrs.drop_last() =~= instrs.take(i));
    } else {
        assert(instrs.drop_last().take(i) =~= instrs.take(i));
        assert(instrs.drop_last()[i] == instrs[i]);
        lemma_block_cmds_none(instrs.drop_last(), i, ra, func_id, mapping);
    }
}

} // verus!
