//! Minecraft's own vocabulary: score holders, data locations and the
//! keywords of commands.
pub mod block;
pub mod entity;
pub mod instr;
pub mod modifier;
pub mod pos;
pub mod scoreboard_and_teams;
pub mod time;

use vstd::prelude::*;

use crate::strutil::{push_char, push_str, str_eq};

use self::entity::TargetSelector;
use self::pos::IntCoordinates;

verus! {

/// Something that holds scores: a named player or a selector
#[derive(Debug, Clone)]
pub enum EntityTarget {
    Player(String),
    Selector(TargetSelector),
}

impl EntityTarget {
    /// Whether this is the plain `@s` selector
    pub open spec fn spec_is_blank_this(&self) -> bool {
        match self {
            EntityTarget::Selector(sel) => sel.spec_is_blank_this(),
            EntityTarget::Player(..) => false,
        }
    }

    /// Whether this is the plain `@s` selector
    pub fn is_blank_this(&self) -> (r: bool)
        ensures
            r == self.spec_is_blank_this(),
    {
        match self {
            EntityTarget::Selector(sel) => sel.is_blank_this(),
            EntityTarget::Player(..) => false,
        }
    }

    /// Whether two targets name the same holder
    pub open spec fn value_eq(&self, other: &Self) -> bool {
        match (self, other) {
            (EntityTarget::Player(l), EntityTarget::Player(r)) => l@ == r@,
            (EntityTarget::Selector(l), EntityTarget::Selector(r)) => l.value_eq(r),
            _ => false,
        }
    }

    /// Whether two targets name the same holder
    pub fn is_value_eq(&self, other: &Self) -> (r: bool)
        ensures
            r == self.value_eq(other),
    {
        match (self, other) {
            (EntityTarget::Player(l), EntityTarget::Player(r)) => *l == *r,
            (EntityTarget::Selector(l), EntityTarget::Selector(r)) => l.is_value_eq(r),
            _ => false,
        }
    }

    /// The text of this target in a command
    pub open spec fn text(&self) -> Seq<char> {
        match self {
            EntityTarget::Player(p) => p@,
            EntityTarget::Selector(sel) => sel.text(),
        }
    }

    /// Writes this target as it appears in a command
    pub fn gen_str(&self) -> (r: String)
        ensures
            r@ == self.text(),
    {
        match self {
            EntityTarget::Player(p) => p.clone(),
            EntityTarget::Selector(sel) => sel.gen_str(),
        }
    }

    /// A copy of this target
    pub fn copy(&self) -> (r: Self)
        ensures
            r.text() == self.text(),
            r.value_eq(self),
    {
        match self {
            EntityTarget::Player(p) => EntityTarget::Player(p.clone()),
            EntityTarget::Selector(sel) => EntityTarget::Selector(sel.copy()),
        }
    }
}

/// A score: the score of a holder in an objective
#[derive(Debug, Clone)]
pub struct Score {
    pub holder: EntityTarget,
    pub objective: String,
}

impl Score {
    pub fn new(holder: EntityTarget, objective: String) -> (r: Self)
        ensures
            r == (Score { holder, objective }),
    {
        Score { holder, objective }
    }

    /// Whether two scores are the same score
    pub open spec fn value_eq(&self, other: &Self) -> bool {
        self.holder.value_eq(&other.holder) && self.objective@ == other.objective@
    }

    /// Whether two scores are the same score
    pub fn is_value_eq(&self, other: &Self) -> (r: bool)
        ensures
            r == self.value_eq(other),
    {
        self.holder.is_value_eq(&other.holder) && self.objective == other.objective
    }

    /// The text of this score in a command: the holder, a space and the objective
    pub open spec fn text(&self) -> Seq<char> {
        self.holder.text() + seq![' '] + self.objective@
    }

    /// A copy of this score
    pub fn copy(&self) -> (r: Self)
        ensures
            r.text() == self.text(),
            r.holder.text() == self.holder.text(),
            r.objective@ == self.objective@,
            r.value_eq(self),
    {
        Score { holder: self.holder.copy(), objective: self.objective.clone() }
    }

    /// Writes this score as it appears in a command
    pub fn gen_str(&self) -> (r: String)
        ensures
            r@ == self.text(),
    {
        let mut out = self.holder.gen_str();
        push_char(&mut out, ' ');
        push_str(&mut out, self.objective.as_str());
        out
    }
}

/// Where NBT data lives
#[derive(Debug, Clone)]
pub enum DataLocation {
    Block(IntCoordinates),
    Entity(EntityTarget),
    Storage(String),
}

impl DataLocation {
    /// The text of this location in a command
    pub open spec fn text(&self) -> Seq<char> {
        match self {
            DataLocation::Block(pos) => "block "@ + pos.text(),
            DataLocation::Entity(t) => "entity "@ + t.text(),
            DataLocation::Storage(s) => "storage "@ + s@,
        }
    }

    /// Writes this location as it appears in a command
    pub fn gen_str(&self) -> (r: String)
        ensures
            r@ == self.text(),
    {
        let mut out = String::new();
        match self {
            DataLocation::Block(pos) => {
                push_str(&mut out, "block ");
                push_str(&mut out, pos.codegen_str().as_str());
            },
            DataLocation::Entity(t) => {
                push_str(&mut out, "entity ");
                push_str(&mut out, t.gen_str().as_str());
            },
            DataLocation::Storage(s) => {
                push_str(&mut out, "storage ");
                push_str(&mut out, s.as_str());
            },
        }
        assert(out@ =~= self.text());
        out
    }

    /// A copy of this location
    pub fn copy(&self) -> (r: Self)
        ensures
            r.text() == self.text(),
            r.value_eq(self),
    {
        match self {
            DataLocation::Block(pos) => DataLocation::Block(*pos),
            DataLocation::Entity(t) => DataLocation::Entity(t.copy()),
            DataLocation::Storage(s) => DataLocation::Storage(s.clone()),
        }
    }

    /// Whether two locations are the same place
    pub open spec fn value_eq(&self, other: &Self) -> bool {
        match (self, other) {
            (DataLocation::Block(l), DataLocation::Block(r)) => l.value_eq(r),
            (DataLocation::Entity(l), DataLocation::Entity(r)) => l.value_eq(r),
            (DataLocation::Storage(l), DataLocation::Storage(r)) => l@ == r@,
            _ => false,
        }
    }

    /// Whether two locations are the same place
    pub fn is_value_eq(&self, other: &Self) -> (r: bool)
        ensures
            r == self.value_eq(other),
    {
        match (self, other) {
            (DataLocation::Block(l), DataLocation::Block(r)) => l.is_value_eq(r),
            (DataLocation::Entity(l), DataLocation::Entity(r)) => l.is_value_eq(r),
            (DataLocation::Storage(l), DataLocation::Storage(r)) => *l == *r,
            _ => false,
        }
    }
}

/// A location together with a path into its data
#[derive(Debug, Clone)]
pub struct FullDataLocation {
    pub loc: DataLocation,
    pub path: String,
}

impl FullDataLocation {
    /// The text of this data in a command: the location, then the path
    /// where there is one
    pub open spec fn text(&self) -> Seq<char> {
        if self.path@.len() == 0 {
            self.loc.text()
        } else {
            self.loc.text() + seq![' '] + self.path@
        }
    }

    /// A copy of this data location
    pub fn copy(&self) -> (r: Self)
        ensures
            r.text() == self.text(),
            r.value_eq(self),
    {
        FullDataLocation { loc: self.loc.copy(), path: self.path.clone() }
    }

    /// Writes this data location as it appears in a command
    pub fn gen_str(&self) -> (r: String)
        ensures
            r@ == self.text(),
    {
        let mut out = self.loc.gen_str();
        if self.path.as_str().unicode_len() != 0 {
            push_char(&mut out, ' ');
            push_str(&mut out, self.path.as_str());
        }
        out
    }

    /// Whether two locations name the same data
    pub open spec fn value_eq(&self, other: &Self) -> bool {
        self.loc.value_eq(&other.loc) && self.path@ == other.path@
    }

    /// Whether two locations name the same data
    pub fn is_value_eq(&self, other: &Self) -> (r: bool)
        ensures
            r == self.value_eq(other),
    {
        self.loc.is_value_eq(&other.loc) && self.path == other.path
    }
}



/// What an experience command counts
#[derive(Debug, Clone, Copy, PartialEq, Eq, Structural)]
pub enum XPValue {
    Points,
    Levels,
}

impl XPValue {
    /// The text that commands use for this value
    pub open spec fn text(self) -> Seq<char> {
        match self {
            XPValue::Points => seq!['p', 'o', 'i', 'n', 't', 's'],
            XPValue::Levels => seq!['l', 'e', 'v', 'e', 'l', 's'],
        }
    }

    /// The text that commands use for this value
    pub fn codegen_str(&self) -> (r: &'static str)
        ensures
            r@ == self.text(),
    {
        match self {
            XPValue::Points => {
                proof {
                    reveal_strlit("points");
                }
                "points"
            },
            XPValue::Levels => {
                proof {
                    reveal_strlit("levels");
                }
                "levels"
            },
        }
    }
}

/// The difficulty of a world
#[derive(Debug, Clone, Copy, PartialEq, Eq, Structural)]
pub enum Difficulty {
    Peaceful,
    Easy,
    Normal,
    Hard,
}

impl Difficulty {
    /// The text that commands use for this value
    pub open spec fn text(self) -> Seq<char> {
        match self {
            Difficulty::Peaceful => seq!['p', 'e', 'a', 'c', 'e', 'f', 'u', 'l'],
            Difficulty::Easy => seq!['e', 'a', 's', 'y'],
            Difficulty::Normal => seq!['n', 'o', 'r', 'm', 'a', 'l'],
            Difficulty::Hard => seq!['h', 'a', 'r', 'd'],
        }
    }

    /// The text that commands use for this value
    pub fn codegen_str(&self) -> (r: &'static str)
        ensures
            r@ == self.text(),
    {
        match self {
            Difficulty::Peaceful => {
                proof {
                    reveal_strlit("peaceful");
                }
                "peaceful"
            },
            Difficulty::Easy => {
                proof {
                    reveal_strlit("easy");
                }
                "easy"
            },
            Difficulty::Normal => {
                proof {
                    reveal_strlit("normal");
                }
                "normal"
            },
            Difficulty::Hard => {
                proof {
                    reveal_strlit("hard");
                }
                "hard"
            },
        }
    }

    /// The difficulty that a word names, if any
    pub open spec fn parse_word(s: Seq<char>) -> Option<Difficulty> {
        if s == seq!['p', 'e', 'a', 'c', 'e', 'f', 'u', 'l'] {
            Some(Difficulty::Peaceful)
        } else if s == seq!['e', 'a', 's', 'y'] {
            Some(Difficulty::Easy)
        } else if s == seq!['n', 'o', 'r', 'm', 'a', 'l'] {
            Some(Difficulty::Normal)
        } else if s == seq!['h', 'a', 'r', 'd'] {
            Some(Difficulty::Hard)
        } else {
            None
        }
    }

    /// The difficulty that a word names, if any
    pub fn parse(string: &str) -> (r: Option<Self>)
        ensures
            r == Self::parse_word(string@),
    {
        proof {
            reveal_strlit("peaceful");
            assert("peaceful"@ =~= seq!['p', 'e', 'a', 'c', 'e', 'f', 'u', 'l']);
        }
        if str_eq(string, "peaceful") {
            return Some(Difficulty::Peaceful);
        }
        proof {
            reveal_strlit("easy");
            assert("easy"@ =~= seq!['e', 'a', 's', 'y']);
        }
        if str_eq(string, "easy") {
            return Some(Difficulty::Easy);
        }
        proof {
            reveal_strlit("normal");
            assert("normal"@ =~= seq!['n', 'o', 'r', 'm', 'a', 'l']);
        }
        if str_eq(string, "normal") {
            return Some(Difficulty::Normal);
        }
        proof {
            reveal_strlit("hard");
            assert("hard"@ =~= seq!['h', 'a', 'r', 'd']);
        }
        if str_eq(string, "hard") {
            return Some(Difficulty::Hard);
        }
        None
    }
}

/// The game mode of a player
#[derive(Debug, Clone, Copy, PartialEq, Eq, Structural)]
pub enum Gamemode {
    Survival,
    Creative,
    Adventure,
    Spectator,
}

impl Gamemode {
    /// The text that commands use for this value
    pub open spec fn text(self) -> Seq<char> {
        match self {
            Gamemode::Survival => seq!['s', 'u', 'r', 'v', 'i', 'v', 'a', 'l'],
            Gamemode::Creative => seq!['c', 'r', 'e', 'a', 't', 'i', 'v', 'e'],
            Gamemode::Adventure => seq!['a', 'd', 'v', 'e', 'n', 't', 'u', 'r', 'e'],
            Gamemode::Spectator => seq!['s', 'p', 'e', 'c', 't', 'a', 't', 'o', 'r'],
        }
    }

    /// The text that commands use for this value
    pub fn codegen_str(&self) -> (r: &'static str)
        ensures
            r@ == self.text(),
    {
        match self {
            Gamemode::Survival => {
                proof {
                    reveal_strlit("survival");
                }
                "survival"
            },
            Gamemode::Creative => {
                proof {
                    reveal_strlit("creative");
                }
                "creative"
            },
            Gamemode::Adventure => {
                proof {
                    reveal_strlit("adventure");
                }
                "adventure"
            },
            Gamemode::Spectator => {
                proof {
                    reveal_strlit("spectator");
                }
                "spectator"
            },
        }
    }
}

/// A heightmap of the world
#[derive(Debug, Clone, Copy, PartialEq, Eq, Structural)]
pub enum Heightmap {
    WorldSurface,
    MotionBlocking,
    MotionBlockingNoLeaves,
    OceanFloor,
}

impl Heightmap {
    /// The text that commands use for this value
    pub open spec fn text(self) -> Seq<char> {
        match self {
            Heightmap::WorldSurface => seq!['w', 'o', 'r', 'l', 'd', '_', 's', 'u', 'r', 'f', 'a', 'c', 'e'],
            Heightmap::MotionBlocking => seq!['m', 'o', 't', 'i', 'o', 'n', '_', 'b', 'l', 'o', 'c', 'k', 'i', 'n', 'g'],
            Heightmap::MotionBlockingNoLeaves => seq!['m', 'o', 't', 'i', 'o', 'n', '_', 'b', 'l', 'o', 'c', 'k', 'i', 'n', 'g', '_', 'n', 'o', '_', 'l', 'e', 'a', 'v', 'e', 's'],
            Heightmap::OceanFloor => seq!['o', 'c', 'e', 'a', 'n', '_', 'f', 'l', 'o', 'o', 'r'],
        }
    }

    /// The text that commands use for this value
    pub fn codegen_str(&self) -> (r: &'static str)
        ensures
            r@ == self.text(),
    {
        match self {
            Heightmap::WorldSurface => {
                proof {
                    reveal_strlit("world_surface");
                }
                "world_surface"
            },
            Heightmap::MotionBlocking => {
                proof {
                    reveal_strlit("motion_blocking");
                }
                "motion_blocking"
            },
            Heightmap::MotionBlockingNoLeaves => {
                proof {
                    reveal_strlit("motion_blocking_no_leaves");
                }
                "motion_blocking_no_leaves"
            },
            Heightmap::OceanFloor => {
                proof {
                    reveal_strlit("ocean_floor");
                }
                "ocean_floor"
            },
        }
    }
}

/// The weather of a world
#[derive(Debug, Clone, Copy, PartialEq, Eq, Structural)]
pub enum Weather {
    Clear,
    Rain,
    Thunder,
}

impl Weather {
    /// The text that commands use for this value
    pub open spec fn text(self) -> Seq<char> {
        match self {
            Weather::Clear => seq!['c', 'l', 'e', 'a', 'r'],
            Weather::Rain => seq!['r', 'a', 'i', 'n'],
            Weather::Thunder => seq!['t', 'h', 'u', 'n', 'd', 'e', 'r'],
        }
    }

    /// The text that commands use for this value
    pub fn codegen_str(&self) -> (r: &'static str)
        ensures
            r@ == self.text(),
    {
        match self {
            Weather::Clear => {
                proof {
                    reveal_strlit("clear");
                }
                "clear"
            },
            Weather::Rain => {
                proof {
                    reveal_strlit("rain");
                }
                "rain"
            },
            Weather::Thunder => {
                proof {
                    reveal_strlit("thunder");
                }
                "thunder"
            },
        }
    }
}

/// A difficulty's own keyword names it again
pub proof fn lemma_difficulty_parse_text(d: Difficulty)
    ensures
        Difficulty::parse_word(d.text()) == Some(d),
{
}

} // verus!
