use dpc::common::mc::block::FillBiomeData;
use dpc::common::mc::entity::{EffectDuration, SelectorParameter, SelectorType, TargetSelector, UUID};
use dpc::common::mc::instr::MinecraftInstr;
use dpc::common::mc::pos::Coordinates;
use dpc::common::mc::scoreboard_and_teams::{Criterion, SingleCriterion};
use dpc::common::mc::time::{TimePreset, TimeQuery};
use dpc::common::mc::{Difficulty, EntityTarget, Gamemode, XPValue};
use dpc::lir::{LIRBlock, LIRInstrKind, LIRInstruction};
use dpc::output::codegen::codegen_block;
use dpc::output::codegen::mc_instr::codegen_mc_instr;
use dpc::output::codegen::CodegenCx;

fn this() -> EntityTarget {
    EntityTarget::Selector(TargetSelector::new(SelectorType::This))
}

fn player(name: &str) -> EntityTarget {
    EntityTarget::Player(name.to_string())
}

fn all_players() -> EntityTarget {
    EntityTarget::Selector(TargetSelector::new(SelectorType::AllPlayers))
}

#[test]
fn messages() {
    assert_eq!(codegen_mc_instr(&MinecraftInstr::Say { message: "hello".into() }), "say hello");
    assert_eq!(codegen_mc_instr(&MinecraftInstr::Me { message: "waves".into() }), "me waves");
    assert_eq!(codegen_mc_instr(&MinecraftInstr::TeamMessage { message: "go".into() }), "tm go");
    assert_eq!(
        codegen_mc_instr(&MinecraftInstr::Tell { target: player("Steve"), message: "hi".into() }),
        "w Steve hi"
    );
}

#[test]
fn kill_leaves_out_the_executor() {
    assert_eq!(codegen_mc_instr(&MinecraftInstr::Kill { target: this() }), "kill");
    assert_eq!(codegen_mc_instr(&MinecraftInstr::Kill { target: all_players() }), "kill @a");
}

#[test]
fn negative_experience_is_set_to_zero() {
    assert_eq!(
        codegen_mc_instr(&MinecraftInstr::SetXP { target: player("p"), amount: -5, value: XPValue::Levels }),
        "xp set p 0 levels"
    );
    assert_eq!(
        codegen_mc_instr(&MinecraftInstr::AddXP { target: player("p"), amount: -5, value: XPValue::Points }),
        "xp add p -5 points"
    );
    assert_eq!(
        codegen_mc_instr(&MinecraftInstr::GetXP { target: player("p"), value: XPValue::Points }),
        "xp query p points"
    );
}

#[test]
fn player_lists_and_reasons() {
    let targets = vec![player("a"), player("b")];
    assert_eq!(
        codegen_mc_instr(&MinecraftInstr::BanPlayers { targets: targets.clone(), reason: Some("spam".into()) }),
        "ban a b spam"
    );
    assert_eq!(codegen_mc_instr(&MinecraftInstr::Kick { targets: targets.clone(), reason: None }), "kick a b");
    assert_eq!(codegen_mc_instr(&MinecraftInstr::Op { targets: targets.clone() }), "op a b");
    assert_eq!(codegen_mc_instr(&MinecraftInstr::WhitelistRemove { targets }), "whitelist remove a b");
    assert_eq!(
        codegen_mc_instr(&MinecraftInstr::BanIP { target: "1.2.3.4".into(), reason: None }),
        "ban-ip 1.2.3.4"
    );
    assert_eq!(codegen_mc_instr(&MinecraftInstr::PardonIP { target: "1.2.3.4".into() }), "pardon-ip 1.2.3.4");
}

#[test]
fn fixed_commands() {
    assert_eq!(codegen_mc_instr(&MinecraftInstr::WhitelistOn), "whitelist on");
    assert_eq!(codegen_mc_instr(&MinecraftInstr::StopServer), "stop");
    assert_eq!(codegen_mc_instr(&MinecraftInstr::ListPlayerUUIDs), "list uuids");
    assert_eq!(codegen_mc_instr(&MinecraftInstr::GetDifficulty), "difficulty");
    assert_eq!(codegen_mc_instr(&MinecraftInstr::SpectateStop), "spectate");
}

#[test]
fn default_amounts_are_left_out() {
    assert_eq!(
        codegen_mc_instr(&MinecraftInstr::Enchant { target: player("p"), enchantment: "sharpness".into(), level: 1 }),
        "enchant p sharpness"
    );
    assert_eq!(
        codegen_mc_instr(&MinecraftInstr::Enchant { target: player("p"), enchantment: "sharpness".into(), level: 3 }),
        "enchant p sharpness 3"
    );
    assert_eq!(codegen_mc_instr(&MinecraftInstr::TriggerAdd { objective: "t".into(), amount: 1 }), "trigger t");
    assert_eq!(codegen_mc_instr(&MinecraftInstr::TriggerAdd { objective: "t".into(), amount: 4 }), "trigger t add 4");
    assert_eq!(codegen_mc_instr(&MinecraftInstr::TriggerSet { objective: "t".into(), amount: 1 }), "trigger t set 1");
}

#[test]
fn world_commands() {
    assert_eq!(
        codegen_mc_instr(&MinecraftInstr::SetDifficulty { difficulty: Difficulty::Hard }),
        "difficulty hard"
    );
    assert_eq!(codegen_mc_instr(&MinecraftInstr::SetTimePreset { time: TimePreset::Midnight }), "time set 18000");
    assert_eq!(codegen_mc_instr(&MinecraftInstr::SetTimePreset { time: TimePreset::Noon }), "time set noon");
    assert_eq!(codegen_mc_instr(&MinecraftInstr::GetTime { query: TimeQuery::Gametime }), "time get gametime");
    let data = FillBiomeData {
        start: Coordinates::absolute(0, 0, 0),
        end: Coordinates::relative(1, 2, 3),
        biome: "minecraft:plains".into(),
        replace: Some("minecraft:desert".into()),
    };
    assert_eq!(
        codegen_mc_instr(&MinecraftInstr::FillBiome { data }),
        "fillbiome 0 0 0 ~1 ~2 ~3 minecraft:plains replace minecraft:desert"
    );
}

#[test]
fn entity_commands() {
    assert_eq!(
        codegen_mc_instr(&MinecraftInstr::AddTag { target: player("p"), tag: "t".into() }),
        "tag p add t"
    );
    assert_eq!(codegen_mc_instr(&MinecraftInstr::ListTags { target: player("p") }), "tag p list");
    assert_eq!(
        codegen_mc_instr(&MinecraftInstr::RideMount { target: player("p"), vehicle: player("h") }),
        "ride p mount h"
    );
    assert_eq!(
        codegen_mc_instr(&MinecraftInstr::Spectate { target: player("p"), spectator: this() }),
        "spectate p"
    );
    assert_eq!(
        codegen_mc_instr(&MinecraftInstr::Spectate { target: player("p"), spectator: player("q") }),
        "spectate p q"
    );
    assert_eq!(
        codegen_mc_instr(&MinecraftInstr::SetGamemode { target: player("p"), gamemode: Gamemode::Creative }),
        "gamemode creative p"
    );
    assert_eq!(
        codegen_mc_instr(&MinecraftInstr::TeleportToEntity { source: this(), dest: player("q") }),
        "tp q"
    );
    assert_eq!(
        codegen_mc_instr(&MinecraftInstr::TeleportToEntity { source: player("p"), dest: player("q") }),
        "tp p q"
    );
}

#[test]
fn scoreboard_objectives() {
    assert_eq!(
        codegen_mc_instr(&MinecraftInstr::AddScoreboardObjective {
            objective: "kills".into(),
            criterion: Criterion::Single(SingleCriterion::Dummy),
            display_name: Some("Kills".into()),
        }),
        "scoreboard objectives add kills dummy Kills"
    );
    assert_eq!(
        codegen_mc_instr(&MinecraftInstr::RemoveScoreboardObjective { objective: "kills".into() }),
        "scoreboard objectives remove kills"
    );
}

#[test]
fn effects_leave_out_default_arguments_from_the_end() {
    assert_eq!(codegen_mc_instr(&MinecraftInstr::ClearEffect { target: this(), effect: None }), "effect clear");
    assert_eq!(
        codegen_mc_instr(&MinecraftInstr::ClearEffect { target: this(), effect: Some("speed".into()) }),
        "effect clear @s speed"
    );
    let give = |duration, amplifier, hide_particles| {
        codegen_mc_instr(&MinecraftInstr::GiveEffect {
            target: player("p"),
            effect: "speed".into(),
            duration,
            amplifier,
            hide_particles,
        })
    };
    assert_eq!(give(EffectDuration::Seconds(30), 1, false), "effect give p speed");
    assert_eq!(give(EffectDuration::Infinite, 1, false), "effect give p speed infinite");
    assert_eq!(give(EffectDuration::Seconds(30), 2, false), "effect give p speed 30 2");
    assert_eq!(give(EffectDuration::Seconds(30), 1, true), "effect give p speed 30 1 true");
}

#[test]
fn gamerules() {
    assert_eq!(
        codegen_mc_instr(&MinecraftInstr::SetGameruleBool { rule: "doFireTick".into(), value: false }),
        "gamerule doFireTick false"
    );
    assert_eq!(
        codegen_mc_instr(&MinecraftInstr::SetGameruleInt { rule: "randomTickSpeed".into(), value: 10 }),
        "gamerule randomTickSpeed 10"
    );
    assert_eq!(codegen_mc_instr(&MinecraftInstr::GetGamerule { rule: "x".into() }), "gamerule x");
}

#[test]
fn game_commands_in_a_block() {
    let mut block = LIRBlock::new(vec![]);
    block.contents.push(LIRInstruction::new(LIRInstrKind::MC(MinecraftInstr::Say { message: "hi".into() })));
    block.contents.push(LIRInstruction::new(LIRInstrKind::MC(MinecraftInstr::Reload)));
    let mut ccx = CodegenCx::new(None);
    let cmds = codegen_block("foo", &block, &mut ccx).unwrap();
    assert_eq!(cmds, vec!["say hi".to_string(), "reload".to_string()]);
}

#[test]
fn debug_text_of_plain_commands() {
    assert_eq!(MinecraftInstr::Say { message: "hello".into() }.debug_text(), "say hello");
    assert_eq!(MinecraftInstr::Reload.debug_text(), "rl");
    assert_eq!(MinecraftInstr::Banlist.debug_text(), "banl");
    assert_eq!(
        MinecraftInstr::TriggerAdd { objective: "obj".into(), amount: -5 }.debug_text(),
        "trga obj, -5"
    );
    assert_eq!(
        MinecraftInstr::SetXP { target: player("p"), amount: 3, value: XPValue::Levels }.debug_text(),
        "xps p 3 levels"
    );
    assert_eq!(
        MinecraftInstr::GiveEffect {
            target: this(),
            effect: "speed".into(),
            duration: EffectDuration::Infinite,
            amplifier: 2,
            hide_particles: false,
        }
        .debug_text(),
        "effg @s speed infinite 2 false"
    );
    assert_eq!(MinecraftInstr::SetTimePreset { time: TimePreset::Midnight }.debug_text(), "timp midnight");
}

#[test]
fn debug_text_quotes_strings_and_lists_targets() {
    let sel = EntityTarget::Selector(TargetSelector::with_params(
        SelectorType::AllPlayers,
        vec![
            SelectorParameter::Tag { tag: "x".into(), invert: true },
            SelectorParameter::Limit(2),
            SelectorParameter::Gamemode { gamemode: Gamemode::Creative, invert: false },
        ],
    ));
    let ban = MinecraftInstr::BanPlayers { targets: vec![player("a"), sel], reason: Some("be \"gone\"".into()) };
    assert_eq!(
        ban.debug_text(),
        "ban [a, @a[Tag { tag: \"x\", invert: true },Limit(2),Gamemode { gamemode: Creative, invert: false }]] Some(\"be \\\"gone\\\"\")"
    );
    let kick = MinecraftInstr::Kick { targets: vec![], reason: None };
    assert_eq!(kick.debug_text(), "kick [] None");
    let fill = MinecraftInstr::FillBiome {
        data: FillBiomeData {
            start: Coordinates::absolute(1, 2, 3),
            end: Coordinates::here(),
            biome: "plains".into(),
            replace: Some("desert".into()),
        },
    };
    assert_eq!(fill.debug_text(), "fillb 1 2 3 ~ ~ ~ \"plains\" repl \"desert\"");
}

#[test]
fn remove_attribute_modifier() {
    let instr = MinecraftInstr::RemoveAttributeModifier {
        target: this(),
        attribute: "generic.max_health".into(),
        uuid: UUID("1-2-3-4".into()),
    };
    assert_eq!(codegen_mc_instr(&instr), "attribute @s generic.max_health modifier remove 1-2-3-4");
    assert_eq!(instr.debug_text(), "attrmr @s generic.max_health UUID(\"1-2-3-4\")");
}
