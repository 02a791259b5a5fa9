//! Blocks: placement modes, block states and biome fills.
use vstd::prelude::*;

use crate::strutil::str_eq;

use super::pos::IntCoordinates;

verus! {

/// The area and biome of a biome fill
#[derive(Debug, Clone)]
pub struct FillBiomeData {
    pub start: IntCoordinates,
    pub end: IntCoordinates,
    pub biome: String,
    pub replace: Option<String>,
}

/// What a block placement does to the block that is there
#[derive(Debug, Clone, Copy, PartialEq, Eq, Structural)]
pub enum SetBlockMode {
    Destroy,
    Keep,
    Replace,
}

impl SetBlockMode {
    /// The text that commands use for this value
    pub open spec fn text(self) -> Seq<char> {
        match self {
            SetBlockMode::Destroy => seq!['d', 'e', 's', 't', 'r', 'o', 'y'],
            SetBlockMode::Keep => seq!['k', 'e', 'e', 'p'],
            SetBlockMode::Replace => seq!['r', 'e', 'p', 'l', 'a', 'c', 'e'],
        }
    }

    /// The text that commands use for this value
    pub fn codegen_str(&self) -> (r: &'static str)
        ensures
            r@ == self.text(),
    {
        match self {
            SetBlockMode::Destroy => {
                proof {
                    reveal_strlit("destroy");
                }
                "destroy"
            },
            SetBlockMode::Keep => {
                proof {
                    reveal_strlit("keep");
                }
                "keep"
            },
            SetBlockMode::Replace => {
                proof {
                    reveal_strlit("replace");
                }
                "replace"
            },
        }
    }

    /// The mode that a word names, if any
    pub open spec fn parse_word(s: Seq<char>) -> Option<SetBlockMode> {
        if s == seq!['d', 'e', 's', 't', 'r', 'o', 'y'] {
            Some(SetBlockMode::Destroy)
        } else if s == seq!['k', 'e', 'e', 'p'] {
            Some(SetBlockMode::Keep)
        } else if s == seq!['r', 'e', 'p', 'l', 'a', 'c', 'e'] {
            Some(SetBlockMode::Replace)
        } else {
            None
        }
    }

    /// The mode that a word names, if any
    pub fn parse(string: &str) -> (r: Option<Self>)
        ensures
            r == Self::parse_word(string@),
    {
        proof {
            reveal_strlit("destroy");
            assert("destroy"@ =~= seq!['d', 'e', 's', 't', 'r', 'o', 'y']);
        }
        if str_eq(string, "destroy") {
            return Some(SetBlockMode::Destroy);
        }
        proof {
            reveal_strlit("keep");
            assert("keep"@ =~= seq!['k', 'e', 'e', 'p']);
        }
        if str_eq(string, "keep") {
            return Some(SetBlockMode::Keep);
        }
        proof {
            reveal_strlit("replace");
            assert("replace"@ =~= seq!['r', 'e', 'p', 'l', 'a', 'c', 'e']);
        }
        if str_eq(string, "replace") {
            return Some(SetBlockMode::Replace);
        }
        None
    }
}

/// What a clone does with the source area
#[derive(Debug, Clone, Copy, PartialEq, Eq, Structural)]
pub enum CloneMode {
    Force,
    Move,
    Normal,
}

impl CloneMode {
    /// The text that commands use for this value
    pub open spec fn text(self) -> Seq<char> {
        match self {
            CloneMode::Force => seq!['f', 'o', 'r', 'c', 'e'],
            CloneMode::Move => seq!['m', 'o', 'v', 'e'],
            CloneMode::Normal => seq!['n', 'o', 'r', 'm', 'a', 'l'],
        }
    }

    /// The text that commands use for this value
    pub fn codegen_str(&self) -> (r: &'static str)
        ensures
            r@ == self.text(),
    {
        match self {
            CloneMode::Force => {
                proof {
                    reveal_strlit("force");
                }
                "force"
            },
            CloneMode::Move => {
                proof {
                    reveal_strlit("move");
                }
                "move"
            },
            CloneMode::Normal => {
                proof {
                    reveal_strlit("normal");
                }
                "normal"
            },
        }
    }
}

/// The value of one block state
#[derive(Debug, Clone)]
pub enum BlockStateValue {
    String(String),
}

/// The block states of a block, by name; no name occurs twice
#[derive(Debug, Clone)]
pub struct BlockStates(Vec<(String, BlockStateValue)>);

/// No two entries have the same name
pub open spec fn names_distinct(values: Seq<(String, BlockStateValue)>) -> bool {
    forall|i: int, j: int|
        0 <= i < values.len() && 0 <= j < values.len() && i != j ==> #[trigger] values[i].0@
            != #[trigger] values[j].0@
}

impl BlockStates {
    pub closed spec fn entries(&self) -> Seq<(String, BlockStateValue)> {
        self.0@
    }

    pub fn new(values: Vec<(String, BlockStateValue)>) -> (r: Self)
        requires
            names_distinct(values@),
        ensures
            r.entries() == values@,
            names_distinct(r.entries()),
    {
        BlockStates(values)
    }

    /// The states, name and value
    pub fn get(&self) -> (r: &Vec<(String, BlockStateValue)>)
        ensures
            r@ == self.entries(),
    {
        &self.0
    }

    pub fn is_empty(&self) -> (r: bool)
        ensures
            r == (self.entries().len() == 0),
    {
        self.0.len() == 0
    }

    pub fn len(&self) -> (r: usize)
        ensures
            r == self.entries().len(),
    {
        self.0.len()
    }
}

/// A mode's own keyword names it again
pub proof fn lemma_set_block_mode_parse_text(m: SetBlockMode)
    ensures
        SetBlockMode::parse_word(m.text()) == Some(m),
{
}

} // verus!
