use dpc::common::mc::block::{BlockStateValue, BlockStates, CloneMode, SetBlockMode};
use dpc::common::mc::entity::{
    AttributeType, EffectDuration, SelectorParameter, SelectorSort, SelectorType, TargetSelector,
};
use dpc::common::mc::modifier::{AlignAxes, EntityRelation, StoreDataType};
use dpc::common::mc::pos::{AbsOrRelCoord, Axis, Coordinates, Coordinates2D};
use dpc::common::mc::scoreboard_and_teams::{Criterion, SingleCriterion};
use dpc::common::mc::time::{TimePreset, TimeQuery, TimeUnit};
use dpc::common::mc::{DataLocation, Difficulty, EntityTarget, FullDataLocation, Gamemode, Score};
use dpc::common::ty::NBTType;

#[test]
fn difficulty_keywords_round_trip() {
    for d in [Difficulty::Peaceful, Difficulty::Easy, Difficulty::Normal, Difficulty::Hard] {
        assert_eq!(Difficulty::parse(d.codegen_str()), Some(d));
    }
    assert_eq!(Difficulty::parse("extreme"), None);
}

#[test]
fn set_block_modes() {
    assert_eq!(SetBlockMode::parse("keep"), Some(SetBlockMode::Keep));
    assert_eq!(SetBlockMode::parse("Keep"), None);
    assert_eq!(SetBlockMode::Destroy.codegen_str(), "destroy");
    assert_eq!(CloneMode::Move.codegen_str(), "move");
}

#[test]
fn criteria_are_read_in_snake_case() {
    assert_eq!(SingleCriterion::parse("death_count"), Some(SingleCriterion::DeathCount));
    assert_eq!(SingleCriterion::DeathCount.codegen_str(), "deathCount");
    assert_eq!(SingleCriterion::parse("deathCount"), None);
    assert_eq!(SingleCriterion::parse(SingleCriterion::Health.codegen_str()), Some(SingleCriterion::Health));
    assert_eq!(Criterion::Compound("minecraft.mined:stone".to_string()).gen_str(), "minecraft.mined:stone");
    assert_eq!(Criterion::Single(SingleCriterion::XP).gen_str(), "xp");
}

#[test]
fn selectors() {
    let sel = TargetSelector::with_params(
        SelectorType::AllEntities,
        vec![
            SelectorParameter::Type { ty: "player".to_string(), invert: false },
            SelectorParameter::Limit(1),
            SelectorParameter::Tag { tag: "x".to_string(), invert: true },
            SelectorParameter::Sort(SelectorSort::Nearest),
        ],
    );
    assert_eq!(sel.gen_str(), "@e[type=player,limit=1,tag=!x,sort=nearest]");
    assert!(sel.is_single_type());
    assert!(sel.is_player_type());
    assert!(!sel.relies_on_position());
    let this = TargetSelector::new(SelectorType::This);
    assert!(this.is_blank_this());
    assert_eq!(this.gen_str(), "@s");
    assert!(EntityTarget::Selector(this).is_blank_this());
    assert!(!TargetSelector::new(SelectorType::AllEntities).is_single_type());
    assert!(SelectorType::NearestPlayer.is_player_type());
    assert!(!SelectorType::AllEntities.is_single_type());
}

#[test]
fn selector_names_use_the_gamemode_key() {
    let sel = TargetSelector::with_params(
        SelectorType::AllPlayers,
        vec![SelectorParameter::Name { name: "Steve".to_string(), invert: false }],
    );
    assert_eq!(sel.gen_str(), "@a[gamemode=\"Steve\"]");
    let gm = TargetSelector::with_params(
        SelectorType::AllPlayers,
        vec![SelectorParameter::Gamemode { gamemode: Gamemode::Creative, invert: true }],
    );
    assert_eq!(gm.gen_str(), "@a[gamemode=!creative]");
}

#[test]
fn scores_and_locations() {
    let s = Score::new(EntityTarget::Player("foo".to_string()), "bar".to_string());
    assert_eq!(s.gen_str(), "foo bar");
    assert!(s.is_value_eq(&Score::new(EntityTarget::Player("foo".to_string()), "bar".to_string())));
    let loc = FullDataLocation { loc: DataLocation::Storage("dpc:r".to_string()), path: "a.b".to_string() };
    assert_eq!(loc.gen_str(), "storage dpc:r a.b");
    let whole = FullDataLocation { loc: DataLocation::Block(Coordinates::here()), path: String::new() };
    assert_eq!(whole.gen_str(), "block ~ ~ ~");
}

#[test]
fn coordinates() {
    assert_eq!(Coordinates::here().codegen_str(), "~ ~ ~");
    assert!(Coordinates::here().are_zero());
    assert!(!Coordinates::origin().are_zero());
    assert_eq!(Coordinates::absolute(1, -2, 3).codegen_str(), "1 -2 3");
    assert_eq!(Coordinates::relative(0, 5, 0).codegen_str(), "~ ~5 ~");
    assert_eq!(Coordinates::Local(0, 0, 2).codegen_str(), "^ ^ ^2");
    assert!(Coordinates::Local(0, 0, 0).are_zero());
    assert!(AbsOrRelCoord::Rel(1).is_rel());
    assert!(!AbsOrRelCoord::Abs(0).is_relative_zero());
    assert_eq!(Coordinates2D::new(AbsOrRelCoord::Abs(4), AbsOrRelCoord::Rel(0)).codegen_str(), "4 ~");
    assert_eq!(Axis::Y.codegen_str(), "y");
}

#[test]
fn keywords() {
    assert_eq!(TimePreset::Midnight.gen_str(), "18000");
    assert_eq!(TimePreset::Noon.gen_str(), "noon");
    assert_eq!(TimeUnit::Seconds.codegen_str(), "s");
    assert_eq!(TimeQuery::Gametime.codegen_str(), "gametime");
    assert_eq!(AttributeType::MultiplyBase.codegen_str(), "multiply_base");
    assert_eq!(EntityRelation::Passengers.codegen_str(), "passengers");
    assert_eq!(AlignAxes { x: true, y: false, z: true }.gen_str(), "xz");
    assert_eq!(StoreDataType::from_nbt_ty(&NBTType::Short), Some(StoreDataType::Short));
    assert_eq!(StoreDataType::from_nbt_ty(&NBTType::String), None);
}

#[test]
fn effect_durations() {
    assert!(EffectDuration::Seconds(30).is_default());
    assert!(!EffectDuration::Seconds(31).is_default());
    assert!(!EffectDuration::Infinite.is_default());
    assert_eq!(EffectDuration::Infinite.gen_str(), "infinite");
    assert_eq!(EffectDuration::Seconds(-5).gen_str(), "-5");
}

#[test]
fn block_states() {
    let states = BlockStates::new(vec![("facing".to_string(), BlockStateValue::String("up".to_string()))]);
    assert_eq!(states.len(), 1);
    assert!(!states.is_empty());
    assert_eq!(states.get()[0].0, "facing");
}
