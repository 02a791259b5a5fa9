//! What the generated commands say: each score operation writes the game's
//! operator for it, and commands that do opposite things differ.
use vstd::prelude::*;

use crate::common::mc::instr::MinecraftInstr;
use crate::common::mc::EntityTarget;
use crate::common::ty::score_contents_value;
use crate::common::val::{MutableNBTValue, MutableScoreValue, NBTValue, ScoreValue};
use crate::strutil::decimal_int;
use crate::lir::{LIRInstrKind, LIRInstruction};
use crate::output::ra::RegAllocResult;
use crate::output::strip::FunctionMapping;
use super::mc_instr::mc_text;
use super::{data_rhs_text, instr_text, mut_score_text, nbt_loc_text, score_val_text};

verus! {

/// `scoreboard players operation`, the left score, the operator and the
/// right operand, where both scores can be written
pub open spec fn players_operation(
    l: MutableScoreValue,
    op: Seq<char>,
    r: ScoreValue,
    ra: RegAllocResult,
    func_id: Seq<char>,
) -> Option<Option<Seq<char>>> {
    match (mut_score_text(l, ra, func_id), score_val_text(r, ra, func_id)) {
        (Some(a), Some(b)) => Some(Some("scoreboard players operation "@ + a + op + b)),
        _ => None,
    }
}

/// A score operation without modifiers is one `scoreboard players
/// operation` command with the game's operator for it: `*=` multiplies, `/=`
/// divides, `%=` keeps the remainder, `<` keeps the smaller score, `>` the
/// larger, `><` swaps the two
pub proof fn lemma_score_operation_commands(
    i: LIRInstruction,
    ra: RegAllocResult,
    func_id: Seq<char>,
    mapping: Option<FunctionMapping>,
)
    requires
        i.modifiers@.len() == 0,
    ensures
        match i.kind {
            LIRInstrKind::SetScore(l, ScoreValue::Mutable(r)) => instr_text(i, ra, func_id, mapping)
                == players_operation(l, " = "@, ScoreValue::Mutable(r), ra, func_id),
            LIRInstrKind::AddScore(l, ScoreValue::Mutable(r)) => instr_text(i, ra, func_id, mapping)
                == players_operation(l, " += "@, ScoreValue::Mutable(r), ra, func_id),
            LIRInstrKind::SubScore(l, ScoreValue::Mutable(r)) => instr_text(i, ra, func_id, mapping)
                == players_operation(l, " -= "@, ScoreValue::Mutable(r), ra, func_id),
            LIRInstrKind::MulScore(l, r) => instr_text(i, ra, func_id, mapping) == players_operation(
                l,
                " *= "@,
                r,
                ra,
                func_id,
            ),
            LIRInstrKind::DivScore(l, r) => instr_text(i, ra, func_id, mapping) == players_operation(
                l,
                " /= "@,
                r,
                ra,
                func_id,
            ),
            LIRInstrKind::ModScore(l, r) => instr_text(i, ra, func_id, mapping) == players_operation(
                l,
                " %= "@,
                r,
                ra,
                func_id,
            ),
            LIRInstrKind::MinScore(l, r) => instr_text(i, ra, func_id, mapping) == players_operation(
                l,
                " < "@,
                r,
                ra,
                func_id,
            ),
            LIRInstrKind::MaxScore(l, r) => instr_text(i, ra, func_id, mapping) == players_operation(
                l,
                " > "@,
                r,
                ra,
                func_id,
            ),
            LIRInstrKind::SwapScore(l, r) => instr_text(i, ra, func_id, mapping) == players_operation(
                l,
                " >< "@,
                ScoreValue::Mutable(r),
                ra,
                func_id,
            ),
            _ => true,
        },
{
}

/// `scoreboard players`, a subcommand, the score and an amount, where the
/// score can be written
pub open spec fn players_amount(
    sub: Seq<char>,
    l: MutableScoreValue,
    amount: int,
    ra: RegAllocResult,
    func_id: Seq<char>,
) -> Option<Option<Seq<char>>> {
    match mut_score_text(l, ra, func_id) {
        Some(a) => Some(Some("scoreboard players "@ + sub + " "@ + a + " "@ + decimal_int(amount))),
        None => None,
    }
}

/// Setting, adding or taking a constant without modifiers is one `scoreboard
/// players` command: `set` to the constant, `add` of a positive amount and
/// `remove` of a positive amount. Adding a negative constant removes its
/// absolute value and taking one adds it, as the game takes no negative
/// amounts there.
#[verifier::spinoff_prover]
pub proof fn lemma_score_constant_commands(
    i: LIRInstruction,
    ra: RegAllocResult,
    func_id: Seq<char>,
    mapping: Option<FunctionMapping>,
)
    requires
        i.modifiers@.len() == 0,
    ensures
        match i.kind {
            LIRInstrKind::SetScore(l, ScoreValue::Constant(c)) => instr_text(i, ra, func_id, mapping)
                == players_amount("set"@, l, score_contents_value(c), ra, func_id),
            LIRInstrKind::AddScore(l, ScoreValue::Constant(c)) => instr_text(i, ra, func_id, mapping) == if score_contents_value(c) < 0 {
                players_amount("remove"@, l, -score_contents_value(c), ra, func_id)
            } else {
                players_amount("add"@, l, score_contents_value(c), ra, func_id)
            },
            LIRInstrKind::SubScore(l, ScoreValue::Constant(c)) => instr_text(i, ra, func_id, mapping) == if score_contents_value(c) < 0 {
                players_amount("add"@, l, -score_contents_value(c), ra, func_id)
            } else {
                players_amount("remove"@, l, score_contents_value(c), ra, func_id)
            },
            _ => true,
        },
{
    match i.kind {
        LIRInstrKind::SetScore(l, ScoreValue::Constant(c)) => {
            lemma_players_text("scoreboard players set "@, "set"@, l, score_contents_value(c), ra, func_id);
        },
        LIRInstrKind::AddScore(l, ScoreValue::Constant(c)) => {
            lemma_players_text("scoreboard players add "@, "add"@, l, score_contents_value(c), ra, func_id);
            lemma_players_text("scoreboard players remove "@, "remove"@, l, -score_contents_value(c), ra, func_id);
        },
        LIRInstrKind::SubScore(l, ScoreValue::Constant(c)) => {
            lemma_players_text("scoreboard players add "@, "add"@, l, -score_contents_value(c), ra, func_id);
            lemma_players_text("scoreboard players remove "@, "remove"@, l, score_contents_value(c), ra, func_id);
        },
        _ => {},
    }
}

/// A `scoreboard players` command written in one piece is the same text as
/// the subcommand and the score written apart
proof fn lemma_players_text(
    head: Seq<char>,
    sub: Seq<char>,
    l: MutableScoreValue,
    amount: int,
    ra: RegAllocResult,
    func_id: Seq<char>,
)
    requires
        head == "scoreboard players set "@ && sub == "set"@ || head == "scoreboard players add "@ && sub == "add"@
            || head == "scoreboard players remove "@ && sub == "remove"@,
    ensures
        match mut_score_text(l, ra, func_id) {
            Some(a) => Some(Some(head + a + (seq![' '] + decimal_int(amount)))),
            None => None::<Option<Seq<char>>>,
        } == players_amount(sub, l, amount, ra, func_id),
{
    reveal_strlit("scoreboard players set ");
    reveal_strlit("scoreboard players add ");
    reveal_strlit("scoreboard players remove ");
    reveal_strlit("scoreboard players ");
    reveal_strlit("set");
    reveal_strlit("add");
    reveal_strlit("remove");
    reveal_strlit(" ");
    if let Some(a) = mut_score_text(l, ra, func_id) {
        assert(head + a + (seq![' '] + decimal_int(amount)) =~= "scoreboard players "@ + sub + " "@ + a + " "@
            + decimal_int(amount));
    }
}

/// Two operations on the same operands with different operators give
/// different commands
proof fn lemma_operators_differ(a: Seq<char>, b: Seq<char>, op1: Seq<char>, op2: Seq<char>)
    requires
        op1.len() >= 2,
        op2.len() >= 2,
        op1[1] != op2[1],
    ensures
        "scoreboard players operation "@ + a + op1 + b != "scoreboard players operation "@ + a + op2 + b,
{
    let p = "scoreboard players operation "@;
    let k: int = (p.len() + a.len() + 1) as int;
    assert((p + a + op1 + b)[k] == op1[1]);
    assert((p + a + op2 + b)[k] == op2[1]);
}

/// A division and a remainder of the same scores are different commands, and
/// so are a minimum and a maximum
pub proof fn lemma_opposite_operations_differ(
    div: LIRInstruction,
    rem: LIRInstruction,
    ra: RegAllocResult,
    func_id: Seq<char>,
    mapping: Option<FunctionMapping>,
)
    requires
        div.modifiers@.len() == 0,
        rem.modifiers@.len() == 0,
        instr_text(div, ra, func_id, mapping) is Some,
        (div.kind matches LIRInstrKind::DivScore(l, r) && rem.kind == LIRInstrKind::ModScore(l, r)) || (
        div.kind matches LIRInstrKind::MinScore(l, r) && rem.kind == LIRInstrKind::MaxScore(l, r)),
    ensures
        instr_text(div, ra, func_id, mapping) != instr_text(rem, ra, func_id, mapping),
{
    reveal_strlit(" /= ");
    reveal_strlit(" %= ");
    reveal_strlit(" < ");
    reveal_strlit(" > ");
    lemma_score_operation_commands(div, ra, func_id, mapping);
    lemma_score_operation_commands(rem, ra, func_id, mapping);
    match div.kind {
        LIRInstrKind::DivScore(l, r) => {
            let a = mut_score_text(l, ra, func_id)->Some_0;
            let b = score_val_text(r, ra, func_id)->Some_0;
            lemma_operators_differ(a, b, " /= "@, " %= "@);
        },
        LIRInstrKind::MinScore(l, r) => {
            let a = mut_score_text(l, ra, func_id)->Some_0;
            let b = score_val_text(r, ra, func_id)->Some_0;
            lemma_operators_differ(a, b, " < "@, " > "@);
        },
        _ => {},
    }
}

/// Tags are added with `tag .. add` and removed with `tag .. remove`, so
/// adding and removing the same tag are different commands
pub proof fn lemma_tag_commands(target: EntityTarget, tag: String)
    ensures
        mc_text(MinecraftInstr::AddTag { target, tag }) == "tag "@ + target.text() + " add "@ + tag@,
        mc_text(MinecraftInstr::RemoveTag { target, tag }) == "tag "@ + target.text() + " remove "@ + tag@,
        mc_text(MinecraftInstr::AddTag { target, tag }) != mc_text(MinecraftInstr::RemoveTag { target, tag }),
{
    reveal_strlit("tag ");
    reveal_strlit(" add ");
    reveal_strlit(" remove ");
    let k: int = ("tag "@.len() + target.text().len() + 1) as int;
    assert(mc_text(MinecraftInstr::AddTag { target, tag })[k] == 'a');
    assert(mc_text(MinecraftInstr::RemoveTag { target, tag })[k] == 'r');
}

/// Whitelisting adds with `whitelist add` and removes with `whitelist
/// remove`; operators are made with `op` and unmade with `deop`; a data pack
/// is turned on with `datapack enable` and off with `datapack disable`
pub proof fn lemma_add_and_remove_commands(targets: Vec<EntityTarget>, pack: String)
    ensures
        mc_text(MinecraftInstr::WhitelistAdd { targets }).take(14) == "whitelist add "@,
        mc_text(MinecraftInstr::WhitelistRemove { targets }).take(17) == "whitelist remove "@,
        mc_text(MinecraftInstr::WhitelistAdd { targets }) != mc_text(MinecraftInstr::WhitelistRemove { targets }),
        mc_text(MinecraftInstr::Op { targets }).take(3) == "op "@,
        mc_text(MinecraftInstr::Deop { targets }).take(5) == "deop "@,
        mc_text(MinecraftInstr::Op { targets }) != mc_text(MinecraftInstr::Deop { targets }),
        mc_text(MinecraftInstr::EnableDatapack { pack }) == "datapack enable "@ + pack@,
        mc_text(MinecraftInstr::DisableDatapack { pack }) == "datapack disable "@ + pack@,
        mc_text(MinecraftInstr::EnableDatapack { pack }) != mc_text(MinecraftInstr::DisableDatapack { pack }),
{
    reveal_strlit("whitelist add ");
    reveal_strlit("whitelist remove ");
    reveal_strlit("op ");
    reveal_strlit("deop ");
    reveal_strlit("datapack enable ");
    reveal_strlit("datapack disable ");
    assert(mc_text(MinecraftInstr::WhitelistAdd { targets }).take(14) =~= "whitelist add "@);
    assert(mc_text(MinecraftInstr::WhitelistRemove { targets }).take(17) =~= "whitelist remove "@);
    assert(mc_text(MinecraftInstr::WhitelistAdd { targets })[10] == 'a');
    assert(mc_text(MinecraftInstr::WhitelistRemove { targets })[10] == 'r');
    assert(mc_text(MinecraftInstr::Op { targets }).take(3) =~= "op "@);
    assert(mc_text(MinecraftInstr::Deop { targets }).take(5) =~= "deop "@);
    assert(mc_text(MinecraftInstr::Op { targets })[0] == 'o');
    assert(mc_text(MinecraftInstr::Deop { targets })[0] == 'd');
    assert(mc_text(MinecraftInstr::EnableDatapack { pack })[9] == 'e');
    assert(mc_text(MinecraftInstr::DisableDatapack { pack })[9] == 'd');
}

/// The command word and subcommand of each kind of command: experience is
/// set with `xp set`, added with `xp add` and read with `xp query`; players
/// are banned with `ban` and pardoned with `pardon`; objectives are added
/// with `scoreboard objectives add` and removed with `scoreboard objectives
/// remove`; the time is set with `time set` and read with `time get`
pub proof fn lemma_command_words(
    target: EntityTarget,
    targets: Vec<EntityTarget>,
    amount: i32,
    value: crate::common::mc::XPValue,
    objective: String,
    criterion: crate::common::mc::scoreboard_and_teams::Criterion,
    display_name: Option<String>,
    reason: Option<String>,
    time: crate::common::mc::time::TimePreset,
    query: crate::common::mc::time::TimeQuery,
)
    ensures
        mc_text(MinecraftInstr::SetXP { target, amount, value }).take(7) == "xp set "@,
        mc_text(MinecraftInstr::AddXP { target, amount, value }).take(7) == "xp add "@,
        mc_text(MinecraftInstr::GetXP { target, value }).take(9) == "xp query "@,
        mc_text(MinecraftInstr::BanPlayers { targets, reason }).take(4) == "ban "@,
        mc_text(MinecraftInstr::PardonPlayers { targets }).take(7) == "pardon "@,
        mc_text(MinecraftInstr::AddScoreboardObjective { objective, criterion, display_name }).take(26)
            == "scoreboard objectives add "@,
        mc_text(MinecraftInstr::RemoveScoreboardObjective { objective }) == "scoreboard objectives remove "@ + objective@,
        mc_text(MinecraftInstr::SetTimePreset { time }).take(9) == "time set "@,
        mc_text(MinecraftInstr::GetTime { query }) == "time get "@ + query.text(),
{
    reveal_strlit("xp set ");
    reveal_strlit("xp add ");
    reveal_strlit("xp query ");
    reveal_strlit("ban ");
    reveal_strlit("pardon ");
    reveal_strlit("scoreboard objectives add ");
    reveal_strlit("time set ");
    assert(mc_text(MinecraftInstr::SetXP { target, amount, value }).take(7) =~= "xp set "@);
    assert(mc_text(MinecraftInstr::AddXP { target, amount, value }).take(7) =~= "xp add "@);
    assert(mc_text(MinecraftInstr::GetXP { target, value }).take(9) =~= "xp query "@);
    assert(mc_text(MinecraftInstr::BanPlayers { targets, reason }).take(4) =~= "ban "@);
    assert(mc_text(MinecraftInstr::PardonPlayers { targets }).take(7) =~= "pardon "@);
    assert(mc_text(MinecraftInstr::AddScoreboardObjective { objective, criterion, display_name }).take(26)
        =~= "scoreboard objectives add "@);
    assert(mc_text(MinecraftInstr::SetTimePreset { time }).take(9) =~= "time set "@);
}

/// `data modify`, the place, the subcommand and what goes in, where both
/// can be written
pub open spec fn data_modify(
    l: MutableNBTValue,
    sub: Seq<char>,
    r: NBTValue,
    ra: RegAllocResult,
    func_id: Seq<char>,
) -> Option<Option<Seq<char>>> {
    match (nbt_loc_text(l, ra, func_id), data_rhs_text(r, ra, func_id)) {
        (Some(a), Some(b)) => Some(Some("data modify "@ + a + sub + b)),
        _ => None,
    }
}

/// Data operations without modifiers are `data modify` commands with the
/// subcommand of what they do: `set` replaces, `append` adds at the end,
/// `prepend` at the front, `merge` merges; a removal is `data remove` and a
/// read of a score is `scoreboard players get`
pub proof fn lemma_data_commands(
    i: LIRInstruction,
    ra: RegAllocResult,
    func_id: Seq<char>,
    mapping: Option<FunctionMapping>,
)
    requires
        i.modifiers@.len() == 0,
    ensures
        match i.kind {
            LIRInstrKind::SetData(l, r) => instr_text(i, ra, func_id, mapping) == data_modify(l, " set "@, r, ra, func_id),
            LIRInstrKind::PushData(l, r) => instr_text(i, ra, func_id, mapping) == data_modify(l, " append "@, r, ra, func_id),
            LIRInstrKind::PushFrontData(l, r) => instr_text(i, ra, func_id, mapping) == data_modify(
                l,
                " prepend "@,
                r,
                ra,
                func_id,
            ),
            LIRInstrKind::MergeData(l, NBTValue::Mutable(r)) => instr_text(i, ra, func_id, mapping) == data_modify(
                l,
                " merge "@,
                NBTValue::Mutable(r),
                ra,
                func_id,
            ),
            LIRInstrKind::RemoveData(v) => instr_text(i, ra, func_id, mapping) == match nbt_loc_text(v, ra, func_id) {
                Some(a) => Some(Some("data remove "@ + a)),
                None => None,
            },
            LIRInstrKind::GetScore(v) => instr_text(i, ra, func_id, mapping) == match mut_score_text(v, ra, func_id) {
                Some(a) => Some(Some("scoreboard players get "@ + a)),
                None => None,
            },
            _ => true,
        },
{
    reveal_strlit("");
    match i.kind {
        LIRInstrKind::RemoveData(v) => {
            if let Some(a) = nbt_loc_text(v, ra, func_id) {
                assert("data remove "@ + a + ""@ =~= "data remove "@ + a);
            }
        },
        LIRInstrKind::GetScore(v) => {
            if let Some(a) = mut_score_text(v, ra, func_id) {
                assert("scoreboard players get "@ + a + ""@ =~= "scoreboard players get "@ + a);
            }
        },
        _ => {},
    }
}

} // verus!
