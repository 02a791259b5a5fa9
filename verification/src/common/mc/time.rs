//! Units, presets and queries of game time.
use vstd::prelude::*;

verus! {

/// A unit of game time
#[derive(Debug, Clone, Copy, PartialEq, Eq, Structural)]
pub enum TimeUnit {
    Days,
    Seconds,
    Ticks,
}

impl TimeUnit {
    /// The text that commands use for this value
    pub open spec fn text(self) -> Seq<char> {
        match self {
            TimeUnit::Days => seq!['d'],
            TimeUnit::Seconds => seq!['s'],
            TimeUnit::Ticks => seq!['t'],
        }
    }

    /// The text that commands use for this value
    pub fn codegen_str(&self) -> (r: &'static str)
        ensures
            r@ == self.text(),
    {
        match self {
            TimeUnit::Days => {
                proof {
                    reveal_strlit("d");
                }
                "d"
            },
            TimeUnit::Seconds => {
                proof {
                    reveal_strlit("s");
                }
                "s"
            },
            TimeUnit::Ticks => {
                proof {
                    reveal_strlit("t");
                }
                "t"
            },
        }
    }
}

/// A named time of day
#[derive(Debug, Clone, Copy, PartialEq, Eq, Structural)]
pub enum TimePreset {
    Day,
    Night,
    Noon,
    Midnight,
}

impl TimePreset {
    /// The text that commands use for this value
    pub open spec fn text(self) -> Seq<char> {
        match self {
            TimePreset::Day => seq!['d', 'a', 'y'],
            TimePreset::Night => seq!['n', 'i', 'g', 'h', 't'],
            TimePreset::Noon => seq!['n', 'o', 'o', 'n'],
            TimePreset::Midnight => seq!['m', 'i', 'd', 'n', 'i', 'g', 'h', 't'],
        }
    }

    /// The text that commands use for this value
    pub fn codegen_str(&self) -> (r: &'static str)
        ensures
            r@ == self.text(),
    {
        match self {
            TimePreset::Day => {
                proof {
                    reveal_strlit("day");
                }
                "day"
            },
            TimePreset::Night => {
                proof {
                    reveal_strlit("night");
                }
                "night"
            },
            TimePreset::Noon => {
                proof {
                    reveal_strlit("noon");
                }
                "noon"
            },
            TimePreset::Midnight => {
                proof {
                    reveal_strlit("midnight");
                }
                "midnight"
            },
        }
    }

    /// The text that a `time set` command uses: the number for midnight,
    /// which is shorter than its name, and the name otherwise
    pub open spec fn command_text(self) -> Seq<char> {
        match self {
            TimePreset::Midnight => seq!['1', '8', '0', '0', '0'],
            _ => self.text(),
        }
    }

    /// The text that a `time set` command uses
    pub fn gen_str(&self) -> (r: &'static str)
        ensures
            r@ == self.command_text(),
    {
        match self {
            TimePreset::Midnight => {
                proof {
                    reveal_strlit("18000");
                }
                "18000"
            },
            _ => self.codegen_str(),
        }
    }
}

/// What a time query asks for
#[derive(Debug, Clone, Copy, PartialEq, Eq, Structural)]
pub enum TimeQuery {
    Daytime,
    Gametime,
    Day,
}

impl TimeQuery {
    /// The text that commands use for this value
    pub open spec fn text(self) -> Seq<char> {
        match self {
            TimeQuery::Daytime => seq!['d', 'a', 'y', 't', 'i', 'm', 'e'],
            TimeQuery::Gametime => seq!['g', 'a', 'm', 'e', 't', 'i', 'm', 'e'],
            TimeQuery::Day => seq!['d', 'a', 'y'],
        }
    }

    /// The text that commands use for this value
    pub fn codegen_str(&self) -> (r: &'static str)
        ensures
            r@ == self.text(),
    {
        match self {
            TimeQuery::Daytime => {
                proof {
                    reveal_strlit("daytime");
                }
                "daytime"
            },
            TimeQuery::Gametime => {
                proof {
                    reveal_strlit("gametime");
                }
                "gametime"
            },
            TimeQuery::Day => {
                proof {
                    reveal_strlit("day");
                }
                "day"
            },
        }
    }
}

} // verus!
