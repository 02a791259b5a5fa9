//! The text of game commands held as instructions.
use vstd::prelude::*;

use crate::common::mc::instr::MinecraftInstr;
use crate::common::mc::entity::EffectDuration;
use crate::common::mc::EntityTarget;
use crate::strutil::{join_strings, join_with, push_char, push_decimal_i64, push_str, decimal_int};

verus! {

/// Targets written one after another, separated by spaces
pub open spec fn targets_text(targets: Seq<EntityTarget>) -> Seq<char> {
    join_with(targets.map_values(|t: EntityTarget| t.text()), ' ')
}

/// `prefix` and the text, where there is one
pub open spec fn opt_suffix(prefix: Seq<char>, s: Option<String>) -> Seq<char> {
    match s {
        Some(v) => prefix + v@,
        None => Seq::empty(),
    }
}

/// How a boolean is written
pub open spec fn bool_text(b: bool) -> Seq<char> {
    if b {
        "true"@
    } else {
        "false"@
    }
}

/// The command of a game instruction. Amounts that the game takes as given
/// when left out are left out: one enchantment level, one trigger step, the
/// replace mode, the plain `@s` target where a command defaults to it.
pub open spec fn mc_text(instr: MinecraftInstr) -> Seq<char> {
    match instr {
        MinecraftInstr::Say { message } => "say "@ + message@,
        MinecraftInstr::Me { message } => "me "@ + message@,
        MinecraftInstr::TeamMessage { message } => "tm "@ + message@,
        MinecraftInstr::Tell { target, message } => "w "@ + target.text() + " "@ + message@,
        MinecraftInstr::Kill { target } => if target.spec_is_blank_this() {
            "kill"@
        } else {
            "kill "@ + target.text()
        },
        MinecraftInstr::Reload => "reload"@,
        MinecraftInstr::SetXP { target, amount, value } => "xp set "@ + target.text() + " "@ + decimal_int(
            if amount < 0 {
                0
            } else {
                amount as int
            },
        ) + " "@ + value.text(),
        MinecraftInstr::AddXP { target, amount, value } => "xp add "@ + target.text() + " "@ + decimal_int(
            amount as int,
        ) + " "@ + value.text(),
        MinecraftInstr::GetXP { target, value } => "xp query "@ + target.text() + " "@ + value.text(),
        MinecraftInstr::BanPlayers { targets, reason } => "ban "@ + targets_text(targets@) + opt_suffix(
            " "@,
            reason,
        ),
        MinecraftInstr::BanIP { target, reason } => "ban-ip "@ + target@ + opt_suffix(" "@, reason),
        MinecraftInstr::PardonPlayers { targets } => "pardon "@ + targets_text(targets@),
        MinecraftInstr::PardonIP { target } => "pardon-ip "@ + target@,
        MinecraftInstr::Op { targets } => "op "@ + targets_text(targets@),
        MinecraftInstr::Deop { targets } => "deop "@ + targets_text(targets@),
        MinecraftInstr::WhitelistAdd { targets } => "whitelist add "@ + targets_text(targets@),
        MinecraftInstr::WhitelistRemove { targets } => "whitelist remove "@ + targets_text(targets@),
        MinecraftInstr::WhitelistOn => "whitelist on"@,
        MinecraftInstr::WhitelistOff => "whitelist off"@,
        MinecraftInstr::WhitelistReload => "whitelist reload"@,
        MinecraftInstr::WhitelistList => "whitelist list"@,
        MinecraftInstr::Kick { targets, reason } => "kick "@ + targets_text(targets@) + opt_suffix(" "@, reason),
        MinecraftInstr::Banlist => "banlist"@,
        MinecraftInstr::StopSound => "stopsound"@,
        MinecraftInstr::StopServer => "stop"@,
        MinecraftInstr::ListPlayers => "list"@,
        MinecraftInstr::Publish => "publish"@,
        MinecraftInstr::Seed => "seed"@,
        MinecraftInstr::GetDifficulty => "difficulty"@,
        MinecraftInstr::SetDifficulty { difficulty } => "difficulty "@ + difficulty.text(),
        MinecraftInstr::Enchant { target, enchantment, level } => "enchant "@ + target.text() + " "@
            + enchantment@ + if level == 1 {
            Seq::empty()
        } else {
            " "@ + decimal_int(level as int)
        },
        MinecraftInstr::FillBiome { data } => "fillbiome "@ + data.start.text() + " "@ + data.end.text() + " "@
            + data.biome@ + opt_suffix(" replace "@, data.replace),
        MinecraftInstr::SetTimePreset { time } => "time set "@ + time.command_text(),
        MinecraftInstr::GetTime { query } => "time get "@ + query.text(),
        MinecraftInstr::AddTag { target, tag } => "tag "@ + target.text() + " add "@ + tag@,
        MinecraftInstr::RemoveTag { target, tag } => "tag "@ + target.text() + " remove "@ + tag@,
        MinecraftInstr::ListTags { target } => "tag "@ + target.text() + " list"@,
        MinecraftInstr::RideMount { target, vehicle } => "ride "@ + target.text() + " mount "@ + vehicle.text(),
        MinecraftInstr::RideDismount { target } => "ride "@ + target.text() + " dismount"@,
        MinecraftInstr::Spectate { target, spectator } => "spectate "@ + target.text() + if spectator.spec_is_blank_this() {
            Seq::empty()
        } else {
            " "@ + spectator.text()
        },
        MinecraftInstr::SpectateStop => "spectate"@,
        MinecraftInstr::SetGamemode { target, gamemode } => "gamemode "@ + gamemode.text() + " "@ + target.text(),
        MinecraftInstr::DefaultGamemode { gamemode } => "defaultgamemode "@ + gamemode.text(),
        MinecraftInstr::TeleportToEntity { source, dest } => "tp "@ + if source.spec_is_blank_this() {
            Seq::empty()
        } else {
            source.text() + " "@
        } + dest.text(),
        MinecraftInstr::AddScoreboardObjective { objective, criterion, display_name } => "scoreboard objectives add "@
            + objective@ + " "@ + criterion.text() + opt_suffix(" "@, display_name),
        MinecraftInstr::RemoveScoreboardObjective { objective } => "scoreboard objectives remove "@ + objective@,
        MinecraftInstr::ListScoreboardObjectives => "scoreboard objectives list"@,
        MinecraftInstr::TriggerAdd { objective, amount } => "trigger "@ + objective@ + if amount == 1 {
            Seq::empty()
        } else {
            " add "@ + decimal_int(amount as int)
        },
        MinecraftInstr::TriggerSet { objective, amount } => "trigger "@ + objective@ + " set "@ + decimal_int(
            amount as int,
        ),
        MinecraftInstr::DisableDatapack { pack } => "datapack disable "@ + pack@,
        MinecraftInstr::EnableDatapack { pack } => "datapack enable "@ + pack@,
        MinecraftInstr::ListPlayerUUIDs => "list uuids"@,
        MinecraftInstr::RemoveAttributeModifier { target, attribute, uuid } => "attribute "@ + target.text() + " "@
            + attribute@ + " modifier remove "@ + uuid.0@,
        MinecraftInstr::ClearEffect { target, effect } => "effect clear"@ + if !target.spec_is_blank_this()
            || effect is Some {
            " "@ + target.text()
        } else {
            Seq::empty()
        } + opt_suffix(" "@, effect),
        MinecraftInstr::GiveEffect { target, effect, duration, amplifier, hide_particles } => "effect give "@
            + target.text() + " "@ + effect@ + if duration != EffectDuration::Seconds(30) || amplifier != 1
            || hide_particles {
            " "@ + duration.text()
        } else {
            Seq::empty()
        } + if amplifier != 1 || hide_particles {
            " "@ + decimal_int(amplifier as int)
        } else {
            Seq::empty()
        } + if hide_particles {
            " true"@
        } else {
            Seq::empty()
        },
        MinecraftInstr::SetGameruleBool { rule, value } => "gamerule "@ + rule@ + " "@ + bool_text(value),
        MinecraftInstr::SetGameruleInt { rule, value } => "gamerule "@ + rule@ + " "@ + decimal_int(value as int),
        MinecraftInstr::GetGamerule { rule } => "gamerule "@ + rule@,
    }
}

/// Targets written one after another, separated by spaces
fn targets_str(targets: &Vec<EntityTarget>) -> (r: String)
    ensures
        r@ == targets_text(targets@),
{
    let mut texts: Vec<String> = Vec::new();
    let mut i: usize = 0;
    while i < targets.len()
        invariant
            i <= targets@.len(),
            texts@.len() == i,
            forall|k: int| 0 <= k < i ==> (#[trigger] texts@[k])@ == targets@[k].text(),
        decreases targets.len() - i,
    {
        texts.push(targets[i].gen_str());
        i = i + 1;
    }
    assert(texts@.map_values(|s: String| s@) =~= targets@.map_values(|t: EntityTarget| t.text()));
    join_strings(&texts, ' ')
}

/// Appends `prefix` and the text, where there is one
fn push_opt(out: &mut String, prefix: &str, s: &Option<String>)
    ensures
        final(out)@ == old(out)@ + opt_suffix(prefix@, *s),
{
    match s {
        Some(v) => {
            push_str(out, prefix);
            push_str(out, v.as_str());
            assert(final(out)@ =~= old(out)@ + opt_suffix(prefix@, *s));
        },
        None => {
            assert(out@ =~= old(out)@ + opt_suffix(prefix@, *s));
        },
    }
}

/// A command made of a fixed part and a string
fn cmd_str(prefix: &str, s: &String) -> (r: String)
    ensures
        r@ == prefix@ + s@,
{
    let mut out = String::new();
    push_str(&mut out, prefix);
    push_str(&mut out, s.as_str());
    assert(out@ =~= prefix@ + s@);
    out
}

/// A command made of a fixed part and a list of targets
fn cmd_targets(prefix: &str, targets: &Vec<EntityTarget>) -> (r: String)
    ensures
        r@ == prefix@ + targets_text(targets@),
{
    let list = targets_str(targets);
    cmd_str(prefix, &list)
}

/// A command made of a fixed part, a target and a fixed part
fn cmd_target(prefix: &str, target: &EntityTarget, suffix: &str) -> (r: String)
    ensures
        r@ == prefix@ + target.text() + suffix@,
{
    let mut out = String::new();
    push_str(&mut out, prefix);
    push_str(&mut out, target.gen_str().as_str());
    push_str(&mut out, suffix);
    assert(out@ =~= prefix@ + target.text() + suffix@);
    out
}

/// A command made of a fixed part, a target, a fixed part and a string
fn cmd_target_str(prefix: &str, target: &EntityTarget, mid: &str, s: &str) -> (r: String)
    ensures
        r@ == prefix@ + target.text() + mid@ + s@,
{
    let mut out = cmd_target(prefix, target, mid);
    push_str(&mut out, s);
    out
}

/// The text of an experience command
fn cmd_xp(prefix: &str, target: &EntityTarget, amount: i32, value: &crate::common::mc::XPValue) -> (r: String)
    ensures
        r@ == prefix@ + target.text() + " "@ + decimal_int(amount as int) + " "@ + value.text(),
{
    let mut out = cmd_target(prefix, target, " ");
    push_decimal_i64(&mut out, amount as i64);
    push_char(&mut out, ' ');
    push_str(&mut out, value.codegen_str());
    proof {
        reveal_strlit(" ");
    }
    assert(out@ =~= prefix@ + target.text() + " "@ + decimal_int(amount as int) + " "@ + value.text());
    out
}

/// Writes a game instruction as a command
#[verifier::spinoff_prover]
#[verifier::rlimit(60)]
pub fn codegen_mc_instr(instr: &MinecraftInstr) -> (r: String)
    ensures
        r@ == mc_text(*instr),
{
    proof {
        reveal_strlit(" ");
        reveal_strlit("");
    }
    match instr {
        MinecraftInstr::Say { message } => cmd_str("say ", message),
        MinecraftInstr::Me { message } => cmd_str("me ", message),
        MinecraftInstr::TeamMessage { message } => cmd_str("tm ", message),
        MinecraftInstr::Tell { target, message } => cmd_target_str("w ", target, " ", message.as_str()),
        MinecraftInstr::Kill { target } => if target.is_blank_this() {
            String::from_str("kill")
        } else {
            cmd_target("kill ", target, "")
        },
        MinecraftInstr::Reload => String::from_str("reload"),
        MinecraftInstr::SetXP { target, amount, value } => {
            let amount: i32 = if *amount < 0 {
                0
            } else {
                *amount
            };
            cmd_xp("xp set ", target, amount, value)
        },
        MinecraftInstr::AddXP { target, amount, value } => cmd_xp("xp add ", target, *amount, value),
        MinecraftInstr::GetXP { target, value } => cmd_target_str("xp query ", target, " ", value.codegen_str()),
        MinecraftInstr::BanPlayers { targets, reason } => {
            let mut out = cmd_targets("ban ", targets);
            push_opt(&mut out, " ", reason);
            out
        },
        MinecraftInstr::BanIP { target, reason } => {
            let mut out = cmd_str("ban-ip ", target);
            push_opt(&mut out, " ", reason);
            out
        },
        MinecraftInstr::PardonPlayers { targets } => cmd_targets("pardon ", targets),
        MinecraftInstr::PardonIP { target } => cmd_str("pardon-ip ", target),
        MinecraftInstr::Op { targets } => cmd_targets("op ", targets),
        MinecraftInstr::Deop { targets } => cmd_targets("deop ", targets),
        MinecraftInstr::WhitelistAdd { targets } => cmd_targets("whitelist add ", targets),
        MinecraftInstr::WhitelistRemove { targets } => cmd_targets("whitelist remove ", targets),
        MinecraftInstr::WhitelistOn => String::from_str("whitelist on"),
        MinecraftInstr::WhitelistOff => String::from_str("whitelist off"),
        MinecraftInstr::WhitelistReload => String::from_str("whitelist reload"),
        MinecraftInstr::WhitelistList => String::from_str("whitelist list"),
        MinecraftInstr::Kick { targets, reason } => {
            let mut out = cmd_targets("kick ", targets);
            push_opt(&mut out, " ", reason);
            out
        },
        MinecraftInstr::Banlist => String::from_str("banlist"),
        MinecraftInstr::StopSound => String::from_str("stopsound"),
        MinecraftInstr::StopServer => String::from_str("stop"),
        MinecraftInstr::ListPlayers => String::from_str("list"),
        MinecraftInstr::Publish => String::from_str("publish"),
        MinecraftInstr::Seed => String::from_str("seed"),
        MinecraftInstr::GetDifficulty => String::from_str("difficulty"),
        MinecraftInstr::SetDifficulty { difficulty } => {
            let mut out = String::from_str("difficulty ");
            push_str(&mut out, difficulty.codegen_str());
            out
        },
        MinecraftInstr::Enchant { target, enchantment, level } => {
            let mut out = cmd_target_str("enchant ", target, " ", enchantment.as_str());
            let ghost before = out@;
            if *level != 1 {
                push_char(&mut out, ' ');
                push_decimal_i64(&mut out, *level as i64);
                assert(out@ =~= before + " "@ + decimal_int(*level as int));
            } else {
                assert(out@ =~= before + Seq::<char>::empty());
            }
            out
        },
        MinecraftInstr::FillBiome { data } => {
            let mut out = String::from_str("fillbiome ");
            push_str(&mut out, data.start.codegen_str().as_str());
            push_char(&mut out, ' ');
            push_str(&mut out, data.end.codegen_str().as_str());
            push_char(&mut out, ' ');
            push_str(&mut out, data.biome.as_str());
            let ghost before = out@;
            push_opt(&mut out, " replace ", &data.replace);
            assert(before =~= "fillbiome "@ + data.start.text() + " "@ + data.end.text() + " "@ + data.biome@);
            out
        },
        MinecraftInstr::SetTimePreset { time } => {
            let mut out = String::from_str("time set ");
            push_str(&mut out, time.gen_str());
            out
        },
        MinecraftInstr::GetTime { query } => {
            let mut out = String::from_str("time get ");
            push_str(&mut out, query.codegen_str());
            out
        },
        MinecraftInstr::AddTag { target, tag } => cmd_target_str("tag ", target, " add ", tag.as_str()),
        MinecraftInstr::RemoveTag { target, tag } => cmd_target_str("tag ", target, " remove ", tag.as_str()),
        MinecraftInstr::ListTags { target } => cmd_target("tag ", target, " list"),
        MinecraftInstr::RideMount { target, vehicle } => cmd_target_str(
            "ride ",
            target,
            " mount ",
            vehicle.gen_str().as_str(),
        ),
        MinecraftInstr::RideDismount { target } => cmd_target("ride ", target, " dismount"),
        MinecraftInstr::Spectate { target, spectator } => {
            let mut out = cmd_target("spectate ", target, "");
            let ghost before = out@;
            if !spectator.is_blank_this() {
                push_char(&mut out, ' ');
                push_str(&mut out, spectator.gen_str().as_str());
                assert(out@ =~= before + " "@ + spectator.text());
            } else {
                assert(out@ =~= before + Seq::<char>::empty());
            }
            assert(before =~= "spectate "@ + target.text());
            out
        },
        MinecraftInstr::SpectateStop => String::from_str("spectate"),
        MinecraftInstr::SetGamemode { target, gamemode } => {
            let mut out = String::from_str("gamemode ");
            push_str(&mut out, gamemode.codegen_str());
            push_char(&mut out, ' ');
            push_str(&mut out, target.gen_str().as_str());
            assert(out@ =~= "gamemode "@ + gamemode.text() + " "@ + target.text());
            out
        },
        MinecraftInstr::DefaultGamemode { gamemode } => {
            let mut out = String::from_str("defaultgamemode ");
            push_str(&mut out, gamemode.codegen_str());
            out
        },
        MinecraftInstr::TeleportToEntity { source, dest } => {
            let mut out = String::from_str("tp ");
            if !source.is_blank_this() {
                push_str(&mut out, source.gen_str().as_str());
                push_char(&mut out, ' ');
            }
            push_str(&mut out, dest.gen_str().as_str());
            assert(out@ =~= mc_text(*instr));
            out
        },
        MinecraftInstr::AddScoreboardObjective { objective, criterion, display_name } => {
            let mut out = String::from_str("scoreboard objectives add ");
            push_str(&mut out, objective.as_str());
            push_char(&mut out, ' ');
            push_str(&mut out, criterion.gen_str().as_str());
            let ghost before = out@;
            push_opt(&mut out, " ", display_name);
            assert(before =~= "scoreboard objectives add "@ + objective@ + " "@ + criterion.text());
            out
        },
        MinecraftInstr::RemoveScoreboardObjective { objective } => cmd_str("scoreboard objectives remove ", objective),
        MinecraftInstr::ListScoreboardObjectives => String::from_str("scoreboard objectives list"),
        MinecraftInstr::TriggerAdd { objective, amount } => {
            let mut out = cmd_str("trigger ", objective);
            let ghost before = out@;
            if *amount != 1 {
                push_str(&mut out, " add ");
                push_decimal_i64(&mut out, *amount as i64);
                assert(out@ =~= before + " add "@ + decimal_int(*amount as int));
            } else {
                assert(out@ =~= before + Seq::<char>::empty());
            }
            out
        },
        MinecraftInstr::TriggerSet { objective, amount } => {
            let mut out = cmd_str("trigger ", objective);
            push_str(&mut out, " set ");
            push_decimal_i64(&mut out, *amount as i64);
            assert(out@ =~= "trigger "@ + objective@ + " set "@ + decimal_int(*amount as int));
            out
        },
        MinecraftInstr::DisableDatapack { pack } => cmd_str("datapack disable ", pack),
        MinecraftInstr::EnableDatapack { pack } => cmd_str("datapack enable ", pack),
        MinecraftInstr::ListPlayerUUIDs => String::from_str("list uuids"),
        MinecraftInstr::RemoveAttributeModifier { target, attribute, uuid } => {
            let mut out = cmd_target_str("attribute ", target, " ", attribute.as_str());
            push_str(&mut out, " modifier remove ");
            push_str(&mut out, uuid.0.as_str());
            out
        },
        MinecraftInstr::ClearEffect { target, effect } => {
            let mut out = String::from_str("effect clear");
            let ghost start = out@;
            if !target.is_blank_this() || effect.is_some() {
                push_char(&mut out, ' ');
                push_str(&mut out, target.gen_str().as_str());
                assert(out@ =~= start + " "@ + target.text());
            } else {
                assert(out@ =~= start + Seq::<char>::empty());
            }
            let ghost before = out@;
            push_opt(&mut out, " ", effect);
            out
        },
        MinecraftInstr::GiveEffect { target, effect, duration, amplifier, hide_particles } => {
            cmd_give_effect(target, effect, duration, *amplifier, *hide_particles)
        },
        MinecraftInstr::SetGameruleBool { rule, value } => {
            let mut out = cmd_str("gamerule ", rule);
            push_str(&mut out, if *value { " true" } else { " false" });
            proof {
                reveal_strlit(" true");
                reveal_strlit(" false");
                reveal_strlit("true");
                reveal_strlit("false");
            }
            assert(out@ =~= "gamerule "@ + rule@ + " "@ + bool_text(*value));
            out
        },
        MinecraftInstr::SetGameruleInt { rule, value } => {
            let mut out = cmd_str("gamerule ", rule);
            push_char(&mut out, ' ');
            push_decimal_i64(&mut out, *value as i64);
            assert(out@ =~= "gamerule "@ + rule@ + " "@ + decimal_int(*value as int));
            out
        },
        MinecraftInstr::GetGamerule { rule } => cmd_str("gamerule ", rule),
    }
}

/// The text of an effect command: the duration, amplifier and particle flag
/// are left out from the end as far as they hold the values the game takes
/// when none is given
fn cmd_give_effect(
    target: &EntityTarget,
    effect: &String,
    duration: &crate::common::mc::entity::EffectDuration,
    amplifier: u8,
    hide_particles: bool,
) -> (r: String)
    ensures
        r@ == mc_text(
            MinecraftInstr::GiveEffect { target: *target, effect: *effect, duration: *duration, amplifier, hide_particles },
        ),
{
    proof {
        reveal_strlit(" ");
    }
    let mut out = cmd_target_str("effect give ", target, " ", effect.as_str());
    let ghost p0 = out@;
    if !duration.is_default() || amplifier != 1 || hide_particles {
        push_char(&mut out, ' ');
        push_str(&mut out, duration.gen_str().as_str());
    }
    let ghost p1 = out@;
    if amplifier != 1 || hide_particles {
        push_char(&mut out, ' ');
        push_decimal_i64(&mut out, amplifier as i64);
    }
    let ghost p2 = out@;
    if hide_particles {
        push_str(&mut out, " true");
    }
    let ghost d = if *duration != crate::common::mc::entity::EffectDuration::Seconds(30) || amplifier != 1
        || hide_particles {
        " "@ + duration.text()
    } else {
        Seq::<char>::empty()
    };
    let ghost a = if amplifier != 1 || hide_particles {
        " "@ + decimal_int(amplifier as int)
    } else {
        Seq::<char>::empty()
    };
    let ghost h = if hide_particles {
        " true"@
    } else {
        Seq::<char>::empty()
    };
    assert(p1 =~= p0 + d);
    assert(p2 =~= p1 + a);
    assert(out@ =~= p2 + h);
    out
}

} // verus!
