//! Conditions of `if` instructions.
use vstd::prelude::*;

use super::mc::pos::IntCoordinates;
use super::mc::EntityTarget;
use super::val::Value;
use crate::strutil::string_views;

verus! {

/// A condition that an instruction runs under
#[derive(Debug)]
pub enum Condition {
    Not(Box<Condition>),
    And(Box<Condition>, Box<Condition>),
    Equal(Value, Value),
    Exists(Value),
    GreaterThan(Value, Value),
    GreaterThanOrEqual(Value, Value),
    LessThan(Value, Value),
    LessThanOrEqual(Value, Value),
    Bool(Value),
    NotBool(Value),
    Entity(EntityTarget),
    Predicate(String),
    Biome(IntCoordinates, String),
    Loaded(IntCoordinates),
    Dimension(String),
}

impl Condition {
    /// The registers that this condition reads, from left to right
    pub open spec fn used_regs(&self) -> Seq<Seq<char>>
        decreases self,
    {
        match self {
            Condition::Equal(l, r) => l.used_regs() + r.used_regs(),
            Condition::GreaterThan(l, r) => l.used_regs() + r.used_regs(),
            Condition::GreaterThanOrEqual(l, r) => l.used_regs() + r.used_regs(),
            Condition::LessThan(l, r) => l.used_regs() + r.used_regs(),
            Condition::LessThanOrEqual(l, r) => l.used_regs() + r.used_regs(),
            Condition::Exists(v) => v.used_regs(),
            Condition::Bool(v) => v.used_regs(),
            Condition::NotBool(v) => v.used_regs(),
            Condition::Not(c) => c.used_regs(),
            Condition::And(l, r) => l.used_regs() + r.used_regs(),
            _ => Seq::empty(),
        }
    }

    /// Appends the registers that this condition reads
    pub fn append_used_regs(&self, regs: &mut Vec<String>)
        ensures
            string_views(final(regs)@) == string_views(old(regs)@) + self.used_regs(),
        decreases self,
    {
        let ghost start = string_views(old(regs)@);
        match self {
            Condition::Equal(l, r) | Condition::GreaterThan(l, r) | Condition::GreaterThanOrEqual(l, r)
            | Condition::LessThan(l, r) | Condition::LessThanOrEqual(l, r) => {
                l.append_used_regs(regs);
                r.append_used_regs(regs);
                assert(start + l.used_regs() + r.used_regs() =~= start + (l.used_regs() + r.used_regs()));
            },
            Condition::Exists(v) | Condition::Bool(v) | Condition::NotBool(v) => v.append_used_regs(regs),
            Condition::Not(c) => {
                assert(decreases_to!(*self => **c));
                c.append_used_regs(regs)
            },
            Condition::And(l, r) => {
                assert(decreases_to!(*self => **l));
                assert(decreases_to!(*self => **r));
                l.append_used_regs(regs);
                r.append_used_regs(regs);
                assert(start + l.used_regs() + r.used_regs() =~= start + (l.used_regs() + r.used_regs()));
            },
            _ => {
                assert(start + Seq::<Seq<char>>::empty() =~= start);
            },
        }
    }
}

} // verus!
