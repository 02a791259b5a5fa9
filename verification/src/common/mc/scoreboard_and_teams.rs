//! Scoreboard objectives and their criteria.
use vstd::prelude::*;

use crate::strutil::str_eq;

verus! {

/// Criterion for a scoreboard objective
#[derive(Debug, Clone)]
pub enum Criterion {
    Single(SingleCriterion),
    Compound(String),
}

impl Criterion {
    /// The text of this criterion in a command
    pub open spec fn text(&self) -> Seq<char> {
        match self {
            Criterion::Single(c) => c.text(),
            Criterion::Compound(s) => s@,
        }
    }

    /// Writes this criterion as it appears in a command
    pub fn gen_str(&self) -> (r: String)
        ensures
            r@ == self.text(),
    {
        match self {
            Criterion::Single(c) => String::from_str(c.codegen_str()),
            Criterion::Compound(s) => s.clone(),
        }
    }
}

/// A criterion of its own, not made of parts
#[derive(Debug, Clone, Copy, PartialEq, Eq, Structural)]
pub enum SingleCriterion {
    Dummy,
    Trigger,
    DeathCount,
    PlayerKillCount,
    TotalKillCount,
    Health,
    XP,
    Level,
    Food,
    Air,
    Armor,
}

impl SingleCriterion {
    /// The text that commands use for this value
    pub open spec fn text(self) -> Seq<char> {
        match self {
            SingleCriterion::Dummy => seq!['d', 'u', 'm', 'm', 'y'],
            SingleCriterion::Trigger => seq!['t', 'r', 'i', 'g', 'g', 'e', 'r'],
            SingleCriterion::DeathCount => seq!['d', 'e', 'a', 't', 'h', 'C', 'o', 'u', 'n', 't'],
            SingleCriterion::PlayerKillCount => seq!['p', 'l', 'a', 'y', 'e', 'r', 'K', 'i', 'l', 'l', 'C', 'o', 'u', 'n', 't'],
            SingleCriterion::TotalKillCount => seq!['t', 'o', 't', 'a', 'l', 'K', 'i', 'l', 'l', 'C', 'o', 'u', 'n', 't'],
            SingleCriterion::Health => seq!['h', 'e', 'a', 'l', 't', 'h'],
            SingleCriterion::XP => seq!['x', 'p'],
            SingleCriterion::Level => seq!['l', 'e', 'v', 'e', 'l'],
            SingleCriterion::Food => seq!['f', 'o', 'o', 'd'],
            SingleCriterion::Air => seq!['a', 'i', 'r'],
            SingleCriterion::Armor => seq!['a', 'r', 'm', 'o', 'r'],
        }
    }

    /// The text that commands use for this value
    pub fn codegen_str(&self) -> (r: &'static str)
        ensures
            r@ == self.text(),
    {
        match self {
            SingleCriterion::Dummy => {
                proof {
                    reveal_strlit("dummy");
                }
                "dummy"
            },
            SingleCriterion::Trigger => {
                proof {
                    reveal_strlit("trigger");
                }
                "trigger"
            },
            SingleCriterion::DeathCount => {
                proof {
                    reveal_strlit("deathCount");
                }
                "deathCount"
            },
            SingleCriterion::PlayerKillCount => {
                proof {
                    reveal_strlit("playerKillCount");
                }
                "playerKillCount"
            },
            SingleCriterion::TotalKillCount => {
                proof {
                    reveal_strlit("totalKillCount");
                }
                "totalKillCount"
            },
            SingleCriterion::Health => {
                proof {
                    reveal_strlit("health");
                }
                "health"
            },
            SingleCriterion::XP => {
                proof {
                    reveal_strlit("xp");
                }
                "xp"
            },
            SingleCriterion::Level => {
                proof {
                    reveal_strlit("level");
                }
                "level"
            },
            SingleCriterion::Food => {
                proof {
                    reveal_strlit("food");
                }
                "food"
            },
            SingleCriterion::Air => {
                proof {
                    reveal_strlit("air");
                }
                "air"
            },
            SingleCriterion::Armor => {
                proof {
                    reveal_strlit("armor");
                }
                "armor"
            },
        }
    }

    /// The criterion that a snake case word names, if any
    pub open spec fn parse_word(s: Seq<char>) -> Option<SingleCriterion> {
        if s == seq!['d', 'u', 'm', 'm', 'y'] {
            Some(SingleCriterion::Dummy)
        } else if s == seq!['t', 'r', 'i', 'g', 'g', 'e', 'r'] {
            Some(SingleCriterion::Trigger)
        } else if s == seq!['d', 'e', 'a', 't', 'h', '_', 'c', 'o', 'u', 'n', 't'] {
            Some(SingleCriterion::DeathCount)
        } else if s == seq!['p', 'l', 'a', 'y', 'e', 'r', '_', 'k', 'i', 'l', 'l', '_', 'c', 'o', 'u', 'n', 't'] {
            Some(SingleCriterion::PlayerKillCount)
        } else if s == seq!['t', 'o', 't', 'a', 'l', '_', 'k', 'i', 'l', 'l', '_', 'c', 'o', 'u', 'n', 't'] {
            Some(SingleCriterion::TotalKillCount)
        } else if s == seq!['h', 'e', 'a', 'l', 't', 'h'] {
            Some(SingleCriterion::Health)
        } else if s == seq!['x', 'p'] {
            Some(SingleCriterion::XP)
        } else if s == seq!['l', 'e', 'v', 'e', 'l'] {
            Some(SingleCriterion::Level)
        } else if s == seq!['f', 'o', 'o', 'd'] {
            Some(SingleCriterion::Food)
        } else if s == seq!['a', 'i', 'r'] {
            Some(SingleCriterion::Air)
        } else if s == seq!['a', 'r', 'm', 'o', 'r'] {
            Some(SingleCriterion::Armor)
        } else {
            None
        }
    }

    /// The criterion that a snake case word names, if any
    pub fn parse(string: &str) -> (r: Option<Self>)
        ensures
            r == Self::parse_word(string@),
    {
        proof {
            reveal_strlit("dummy");
            assert("dummy"@ =~= seq!['d', 'u', 'm', 'm', 'y']);
        }
        if str_eq(string, "dummy") {
            return Some(SingleCriterion::Dummy);
        }
        proof {
            reveal_strlit("trigger");
            assert("trigger"@ =~= seq!['t', 'r', 'i', 'g', 'g', 'e', 'r']);
        }
        if str_eq(string, "trigger") {
            return Some(SingleCriterion::Trigger);
        }
        proof {
            reveal_strlit("death_count");
            assert("death_count"@ =~= seq!['d', 'e', 'a', 't', 'h', '_', 'c', 'o', 'u', 'n', 't']);
        }
        if str_eq(string, "death_count") {
            return Some(SingleCriterion::DeathCount);
        }
        proof {
            reveal_strlit("player_kill_count");
            assert("player_kill_count"@ =~= seq!['p', 'l', 'a', 'y', 'e', 'r', '_', 'k', 'i', 'l', 'l', '_', 'c', 'o', 'u', 'n', 't']);
        }
        if str_eq(string, "player_kill_count") {
            return Some(SingleCriterion::PlayerKillCount);
        }
        proof {
            reveal_strlit("total_kill_count");
            assert("total_kill_count"@ =~= seq!['t', 'o', 't', 'a', 'l', '_', 'k', 'i', 'l', 'l', '_', 'c', 'o', 'u', 'n', 't']);
        }
        if str_eq(string, "total_kill_count") {
            return Some(SingleCriterion::TotalKillCount);
        }
        proof {
            reveal_strlit("health");
            assert("health"@ =~= seq!['h', 'e', 'a', 'l', 't', 'h']);
        }
        if str_eq(string, "health") {
            return Some(SingleCriterion::Health);
        }
        proof {
            reveal_strlit("xp");
            assert("xp"@ =~= seq!['x', 'p']);
        }
        if str_eq(string, "xp") {
            return Some(SingleCriterion::XP);
        }
        proof {
            reveal_strlit("level");
            assert("level"@ =~= seq!['l', 'e', 'v', 'e', 'l']);
        }
        if str_eq(string, "level") {
            return Some(SingleCriterion::Level);
        }
        proof {
            reveal_strlit("food");
            assert("food"@ =~= seq!['f', 'o', 'o', 'd']);
        }
        if str_eq(string, "food") {
            return Some(SingleCriterion::Food);
        }
        proof {
            reveal_strlit("air");
            assert("air"@ =~= seq!['a', 'i', 'r']);
        }
        if str_eq(string, "air") {
            return Some(SingleCriterion::Air);
        }
        proof {
            reveal_strlit("armor");
            assert("armor"@ =~= seq!['a', 'r', 'm', 'o', 'r']);
        }
        if str_eq(string, "armor") {
            return Some(SingleCriterion::Armor);
        }
        None
    }
}

/// A criterion whose keyword is a single lower case word is named again by
/// its keyword; the others are written in camel case but read in snake case
pub proof fn lemma_single_criterion_parse_text(c: SingleCriterion)
    requires
        c != SingleCriterion::DeathCount,
        c != SingleCriterion::PlayerKillCount,
        c != SingleCriterion::TotalKillCount,
    ensures
        SingleCriterion::parse_word(c.text()) == Some(c),
{
}

} // verus!
