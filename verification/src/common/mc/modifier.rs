//! Parts of `execute` modifiers: store targets, anchors, relations and
//! alignment.
use vstd::prelude::*;

use crate::common::ty::{NBTType, NBTTypeContents};
use crate::common::val::{MutableNBTValue, MutableScoreValue, ScoreValue};
use crate::strutil::{push_char, string_views};

use super::pos::IntCoordinates;
use super::{EntityTarget, FullDataLocation, Heightmap, Score};

verus! {

/// The NBT number type that a stored result takes
#[derive(Debug, Clone, Copy, PartialEq, Eq, Structural)]
pub enum StoreDataType {
    Byte,
    Short,
    Int,
    Long,
    Float,
    Double,
}

impl StoreDataType {
    /// The text that commands use for this value
    pub open spec fn text(self) -> Seq<char> {
        match self {
            StoreDataType::Byte => seq!['b', 'y', 't', 'e'],
            StoreDataType::Short => seq!['s', 'h', 'o', 'r', 't'],
            StoreDataType::Int => seq!['i', 'n', 't'],
            StoreDataType::Long => seq!['l', 'o', 'n', 'g'],
            StoreDataType::Float => seq!['f', 'l', 'o', 'a', 't'],
            StoreDataType::Double => seq!['d', 'o', 'u', 'b', 'l', 'e'],
        }
    }

    /// The text that commands use for this value
    pub fn codegen_str(&self) -> (r: &'static str)
        ensures
            r@ == self.text(),
    {
        match self {
            StoreDataType::Byte => {
                proof {
                    reveal_strlit("byte");
                }
                "byte"
            },
            StoreDataType::Short => {
                proof {
                    reveal_strlit("short");
                }
                "short"
            },
            StoreDataType::Int => {
                proof {
                    reveal_strlit("int");
                }
                "int"
            },
            StoreDataType::Long => {
                proof {
                    reveal_strlit("long");
                }
                "long"
            },
            StoreDataType::Float => {
                proof {
                    reveal_strlit("float");
                }
                "float"
            },
            StoreDataType::Double => {
                proof {
                    reveal_strlit("double");
                }
                "double"
            },
        }
    }

    /// The store type of an NBT number type; other types have none
    pub open spec fn spec_from_nbt_ty(ty: NBTType) -> Option<StoreDataType> {
        match ty {
            NBTType::Byte => Some(StoreDataType::Byte),
            NBTType::Short => Some(StoreDataType::Short),
            NBTType::Int => Some(StoreDataType::Int),
            NBTType::Long => Some(StoreDataType::Long),
            NBTType::Float => Some(StoreDataType::Float),
            NBTType::Double => Some(StoreDataType::Double),
            _ => None,
        }
    }

    /// The store type of an NBT number type; other types have none
    pub fn from_nbt_ty(ty: &NBTType) -> (r: Option<Self>)
        ensures
            r == Self::spec_from_nbt_ty(*ty),
    {
        match ty {
            NBTType::Byte => Some(StoreDataType::Byte),
            NBTType::Short => Some(StoreDataType::Short),
            NBTType::Int => Some(StoreDataType::Int),
            NBTType::Long => Some(StoreDataType::Long),
            NBTType::Float => Some(StoreDataType::Float),
            NBTType::Double => Some(StoreDataType::Double),
            _ => None,
        }
    }
}

/// Which number of a bossbar a stored result sets
#[derive(Debug, Clone, Copy, PartialEq, Eq, Structural)]
pub enum StoreBossbarMode {
    Value,
    Max,
}

impl StoreBossbarMode {
    /// The text that commands use for this value
    pub open spec fn text(self) -> Seq<char> {
        match self {
            StoreBossbarMode::Value => seq!['v', 'a', 'l', 'u', 'e'],
            StoreBossbarMode::Max => seq!['m', 'a', 'x'],
        }
    }

    /// The text that commands use for this value
    pub fn codegen_str(&self) -> (r: &'static str)
        ensures
            r@ == self.text(),
    {
        match self {
            StoreBossbarMode::Value => {
                proof {
                    reveal_strlit("value");
                }
                "value"
            },
            StoreBossbarMode::Max => {
                proof {
                    reveal_strlit("max");
                }
                "max"
            },
        }
    }
}

/// The part of an entity that an anchor modifier points at
#[derive(Debug, Clone, Copy, PartialEq, Eq, Structural)]
pub enum AnchorLocation {
    Eyes,
    Feet,
}

impl AnchorLocation {
    /// The text that commands use for this value
    pub open spec fn text(self) -> Seq<char> {
        match self {
            AnchorLocation::Eyes => seq!['e', 'y', 'e', 's'],
            AnchorLocation::Feet => seq!['f', 'e', 'e', 't'],
        }
    }

    /// The text that commands use for this value
    pub fn codegen_str(&self) -> (r: &'static str)
        ensures
            r@ == self.text(),
    {
        match self {
            AnchorLocation::Eyes => {
                proof {
                    reveal_strlit("eyes");
                }
                "eyes"
            },
            AnchorLocation::Feet => {
                proof {
                    reveal_strlit("feet");
                }
                "feet"
            },
        }
    }
}

/// An entity related to the current one
#[derive(Debug, Clone, Copy, PartialEq, Eq, Structural)]
pub enum EntityRelation {
    Attacker,
    Controller,
    Leasher,
    Origin,
    Owner,
    Passengers,
    Target,
    Vehicle,
}

impl EntityRelation {
    /// The text that commands use for this value
    pub open spec fn text(self) -> Seq<char> {
        match self {
            EntityRelation::Attacker => seq!['a', 't', 't', 'a', 'c', 'k', 'e', 'r'],
            EntityRelation::Controller => seq!['c', 'o', 'n', 't', 'r', 'o', 'l', 'l', 'e', 'r'],
            EntityRelation::Leasher => seq!['l', 'e', 'a', 's', 'h', 'e', 'r'],
            EntityRelation::Origin => seq!['o', 'r', 'i', 'g', 'i', 'n'],
            EntityRelation::Owner => seq!['o', 'w', 'n', 'e', 'r'],
            EntityRelation::Passengers => seq!['p', 'a', 's', 's', 'e', 'n', 'g', 'e', 'r', 's'],
            EntityRelation::Target => seq!['t', 'a', 'r', 'g', 'e', 't'],
            EntityRelation::Vehicle => seq!['v', 'e', 'h', 'i', 'c', 'l', 'e'],
        }
    }

    /// The text that commands use for this value
    pub fn codegen_str(&self) -> (r: &'static str)
        ensures
            r@ == self.text(),
    {
        match self {
            EntityRelation::Attacker => {
                proof {
                    reveal_strlit("attacker");
                }
                "attacker"
            },
            EntityRelation::Controller => {
                proof {
                    reveal_strlit("controller");
                }
                "controller"
            },
            EntityRelation::Leasher => {
                proof {
                    reveal_strlit("leasher");
                }
                "leasher"
            },
            EntityRelation::Origin => {
                proof {
                    reveal_strlit("origin");
                }
                "origin"
            },
            EntityRelation::Owner => {
                proof {
                    reveal_strlit("owner");
                }
                "owner"
            },
            EntityRelation::Passengers => {
                proof {
                    reveal_strlit("passengers");
                }
                "passengers"
            },
            EntityRelation::Target => {
                proof {
                    reveal_strlit("target");
                }
                "target"
            },
            EntityRelation::Vehicle => {
                proof {
                    reveal_strlit("vehicle");
                }
                "vehicle"
            },
        }
    }
}

/// The axes that an align modifier rounds
#[derive(Debug, Clone, Copy, PartialEq, Eq, Structural)]
pub struct AlignAxes {
    pub x: bool,
    pub y: bool,
    pub z: bool,
}

impl AlignAxes {
    /// The text of these axes in a command: the letters of the chosen axes, in order
    pub open spec fn text(self) -> Seq<char> {
        (if self.x { seq!['x'] } else { Seq::empty() }) + (if self.y { seq!['y'] } else { Seq::empty() })
            + (if self.z { seq!['z'] } else { Seq::empty() })
    }

    /// Writes these axes as they appear in a command
    pub fn gen_str(&self) -> (r: String)
        ensures
            r@ == self.text(),
    {
        let mut out = String::new();
        if self.x {
            push_char(&mut out, 'x');
        }
        if self.y {
            push_char(&mut out, 'y');
        }
        if self.z {
            push_char(&mut out, 'z');
        }
        assert(out@ =~= self.text());
        out
    }
}

/// A modifier to the context of a command
#[derive(Debug)]
pub enum Modifier {
    StoreResult(StoreModLocation),
    StoreSuccess(StoreModLocation),
    If { condition: Box<IfModCondition>, negate: bool },
    Anchored(AnchorLocation),
    Align(AlignAxes),
    As(EntityTarget),
    At(EntityTarget),
    In(String),
    On(EntityRelation),
    PositionedAs(EntityTarget),
    PositionedOver(Heightmap),
    RotatedAs(EntityTarget),
    FacingEntity(EntityTarget, AnchorLocation),
    Summon(String),
}

/// Where a stored result goes. A stored NBT number carries its scale factor
/// as it is written in the command.
#[derive(Debug)]
pub enum StoreModLocation {
    /// A score register, argument or return slot
    LocalScore(MutableScoreValue),
    /// An NBT register, argument or return slot, with the number type and
    /// the scale factor
    LocalData(MutableNBTValue, StoreDataType, String),
    Score(Score),
    /// NBT data, with the number type and the scale factor
    Data(FullDataLocation, StoreDataType, String),
    Bossbar(String, StoreBossbarMode),
}

impl StoreModLocation {
    /// The registers that this location writes
    pub open spec fn used_regs(&self) -> Seq<Seq<char>> {
        match self {
            StoreModLocation::LocalScore(v) => v.used_regs(),
            StoreModLocation::LocalData(v, _, _) => v.used_regs(),
            _ => Seq::empty(),
        }
    }

    /// Appends the registers that this location writes
    pub fn append_used_regs(&self, regs: &mut Vec<String>)
        ensures
            string_views(final(regs)@) == string_views(old(regs)@) + self.used_regs(),
    {
        match self {
            StoreModLocation::LocalScore(v) => v.append_used_regs(regs),
            StoreModLocation::LocalData(v, _, _) => v.append_used_regs(regs),
            _ => {
                assert(string_views(old(regs)@) + Seq::<Seq<char>>::empty() =~= string_views(old(regs)@));
            },
        }
    }
}

/// The condition of an `if` or `unless` modifier
#[derive(Debug)]
pub enum IfModCondition {
    Score(IfScoreCondition),
    Entity(EntityTarget),
    Predicate(String),
    Function(String),
    Biome(IntCoordinates, String),
    Dimension(String),
    Loaded(IntCoordinates),
    DataExists(MutableNBTValue),
    DataEquals(MutableNBTValue, NBTTypeContents),
    Const(bool),
}

/// A comparison of scores
#[derive(Debug)]
pub enum IfScoreCondition {
    Single { left: ScoreValue, right: ScoreValue },
    Range { score: ScoreValue, left: IfScoreRangeEnd, right: IfScoreRangeEnd },
}

/// One end of a score range
#[derive(Debug)]
pub enum IfScoreRangeEnd {
    Infinite,
    Fixed { value: ScoreValue, inclusive: bool },
}

impl IfScoreRangeEnd {
    /// The registers that this end reads
    pub open spec fn used_regs(&self) -> Seq<Seq<char>> {
        match self {
            IfScoreRangeEnd::Infinite => Seq::empty(),
            IfScoreRangeEnd::Fixed { value, .. } => value.used_regs(),
        }
    }

    /// Appends the registers that this end reads
    pub fn append_used_regs(&self, regs: &mut Vec<String>)
        ensures
            string_views(final(regs)@) == string_views(old(regs)@) + self.used_regs(),
    {
        match self {
            IfScoreRangeEnd::Infinite => {
                assert(string_views(old(regs)@) + Seq::<Seq<char>>::empty() =~= string_views(old(regs)@));
            },
            IfScoreRangeEnd::Fixed { value, .. } => value.append_used_regs(regs),
        }
    }
}

impl IfModCondition {
    /// The registers that this condition reads
    pub open spec fn used_regs(&self) -> Seq<Seq<char>> {
        match self {
            IfModCondition::Score(IfScoreCondition::Single { left, right }) => left.used_regs() + right.used_regs(),
            IfModCondition::Score(IfScoreCondition::Range { score, left, right }) => score.used_regs()
                + left.used_regs() + right.used_regs(),
            IfModCondition::DataExists(v) => v.used_regs(),
            IfModCondition::DataEquals(v, _) => v.used_regs(),
            _ => Seq::empty(),
        }
    }

    /// Appends the registers that this condition reads
    pub fn append_used_regs(&self, regs: &mut Vec<String>)
        ensures
            string_views(final(regs)@) == string_views(old(regs)@) + self.used_regs(),
    {
        let ghost start = string_views(old(regs)@);
        match self {
            IfModCondition::Score(IfScoreCondition::Single { left, right }) => {
                left.append_used_regs(regs);
                right.append_used_regs(regs);
                assert(start + left.used_regs() + right.used_regs() =~= start + (left.used_regs()
                    + right.used_regs()));
            },
            IfModCondition::Score(IfScoreCondition::Range { score, left, right }) => {
                score.append_used_regs(regs);
                left.append_used_regs(regs);
                right.append_used_regs(regs);
                assert(start + score.used_regs() + left.used_regs() + right.used_regs() =~= start + (
                score.used_regs() + left.used_regs() + right.used_regs()));
            },
            IfModCondition::DataExists(v) => v.append_used_regs(regs),
            IfModCondition::DataEquals(v, _) => v.append_used_regs(regs),
            _ => {
                assert(start + Seq::<Seq<char>>::empty() =~= start);
            },
        }
    }
}

impl Modifier {
    /// Whether this modifier has side effects beyond the command it modifies
    pub open spec fn spec_has_extra_side_effects(&self) -> bool {
        self is StoreResult || self is StoreSuccess || self is Summon
    }

    /// Whether this modifier has side effects beyond the command it modifies
    pub fn has_extra_side_efects(&self) -> (r: bool)
        ensures
            r == self.spec_has_extra_side_effects(),
    {
        matches!(self, Modifier::StoreResult(..) | Modifier::StoreSuccess(..) | Modifier::Summon(..))
    }

    /// The registers that this modifier reads or writes
    pub open spec fn used_regs(&self) -> Seq<Seq<char>> {
        match self {
            Modifier::StoreResult(loc) => loc.used_regs(),
            Modifier::StoreSuccess(loc) => loc.used_regs(),
            Modifier::If { condition, .. } => condition.used_regs(),
            _ => Seq::empty(),
        }
    }

    /// Appends the registers that this modifier reads
    pub fn append_used_regs(&self, regs: &mut Vec<String>)
        ensures
            string_views(final(regs)@) == string_views(old(regs)@) + self.used_regs(),
    {
        match self {
            Modifier::StoreResult(loc) => loc.append_used_regs(regs),
            Modifier::StoreSuccess(loc) => loc.append_used_regs(regs),
            Modifier::If { condition, .. } => condition.append_used_regs(regs),
            _ => {
                assert(string_views(old(regs)@) + Seq::<Seq<char>>::empty() =~= string_views(old(regs)@));
            },
        }
    }
}

} // verus!
