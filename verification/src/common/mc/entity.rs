//! Entity selectors and the other entity vocabulary of commands.
use vstd::prelude::*;

use crate::strutil::{join_strings, push_char, push_decimal, push_str};

use super::Gamemode;

verus! {

/// A target selector: its type and its parameters
#[derive(Debug, Clone)]
pub struct TargetSelector {
    pub selector: SelectorType,
    pub params: Vec<SelectorParameter>,
}

/// The text of one selector parameter
pub open spec fn param_text(p: SelectorParameter) -> Seq<char> {
    match p {
        SelectorParameter::Type { ty, invert } => seq!['t', 'y', 'p', 'e', '='] + invert_text(invert) + ty@,
        SelectorParameter::Tag { tag, invert } => seq!['t', 'a', 'g', '='] + invert_text(invert) + tag@,
        SelectorParameter::NoTags => seq!['t', 'a', 'g', '='],
        SelectorParameter::Predicate { predicate, invert } => seq![
            'p',
            'r',
            'e',
            'd',
            'i',
            'c',
            'a',
            't',
            'e',
            '=',
        ] + invert_text(invert) + predicate@,
        SelectorParameter::Gamemode { gamemode, invert } => seq![
            'g',
            'a',
            'm',
            'e',
            'm',
            'o',
            'd',
            'e',
            '=',
        ] + invert_text(invert) + gamemode.text(),
        SelectorParameter::Name { name, invert } => seq!['g', 'a', 'm', 'e', 'm', 'o', 'd', 'e', '=']
            + invert_text(invert) + seq!['"'] + name@ + seq!['"'],
        SelectorParameter::Limit(n) => seq!['l', 'i', 'm', 'i', 't', '='] + crate::strutil::decimal(
            n as nat,
        ),
        SelectorParameter::Sort(s) => seq!['s', 'o', 'r', 't', '='] + s.text(),
    }
}

/// `!` for an inverted parameter, nothing otherwise
pub open spec fn invert_text(invert: bool) -> Seq<char> {
    if invert {
        seq!['!']
    } else {
        Seq::empty()
    }
}

/// Whether two parameters are the same
pub open spec fn param_eq(a: SelectorParameter, b: SelectorParameter) -> bool {
    match (a, b) {
        (SelectorParameter::Type { ty: t1, invert: i1 }, SelectorParameter::Type { ty: t2, invert: i2 }) =>
            t1@ == t2@ && i1 == i2,
        (SelectorParameter::Tag { tag: t1, invert: i1 }, SelectorParameter::Tag { tag: t2, invert: i2 }) =>
            t1@ == t2@ && i1 == i2,
        (SelectorParameter::NoTags, SelectorParameter::NoTags) => true,
        (
            SelectorParameter::Predicate { predicate: p1, invert: i1 },
            SelectorParameter::Predicate { predicate: p2, invert: i2 },
        ) => p1@ == p2@ && i1 == i2,
        (
            SelectorParameter::Gamemode { gamemode: g1, invert: i1 },
            SelectorParameter::Gamemode { gamemode: g2, invert: i2 },
        ) => g1 == g2 && i1 == i2,
        (SelectorParameter::Name { name: n1, invert: i1 }, SelectorParameter::Name { name: n2, invert: i2 }) =>
            n1@ == n2@ && i1 == i2,
        (SelectorParameter::Limit(l1), SelectorParameter::Limit(l2)) => l1 == l2,
        (SelectorParameter::Sort(s1), SelectorParameter::Sort(s2)) => s1 == s2,
        _ => false,
    }
}

/// Whether two lists of parameters are the same, item by item
pub open spec fn params_eq(a: Seq<SelectorParameter>, b: Seq<SelectorParameter>) -> bool {
    a.len() == b.len() && forall|i: int| 0 <= i < a.len() ==> #[trigger] param_eq(a[i], b[i])
}

/// Whether a list of parameters holds a limit of one
pub open spec fn has_limit_one(params: Seq<SelectorParameter>) -> bool {
    exists|i: int| 0 <= i < params.len() && params[i] == SelectorParameter::Limit(1)
}

/// Whether a list of parameters asks for players and nothing else
pub open spec fn has_player_type(params: Seq<SelectorParameter>) -> bool {
    exists|i: int|
        0 <= i < params.len() && (#[trigger] params[i] matches SelectorParameter::Type { ty, invert }
            && ty@ == seq!['p', 'l', 'a', 'y', 'e', 'r'] && !invert)
}

fn gen_param(p: &SelectorParameter) -> (r: String)
    ensures
        r@ == param_text(*p),
{
    let mut out = String::new();
    match p {
        SelectorParameter::Type { ty, invert } => {
            proof {
                reveal_strlit("type=");
            }
            push_str(&mut out, "type=");
            push_invert(&mut out, *invert);
            push_str(&mut out, ty.as_str());
        },
        SelectorParameter::Tag { tag, invert } => {
            proof {
                reveal_strlit("tag=");
            }
            push_str(&mut out, "tag=");
            push_invert(&mut out, *invert);
            push_str(&mut out, tag.as_str());
        },
        SelectorParameter::NoTags => {
            proof {
                reveal_strlit("tag=");
            }
            push_str(&mut out, "tag=");
        },
        SelectorParameter::Predicate { predicate, invert } => {
            proof {
                reveal_strlit("predicate=");
            }
            push_str(&mut out, "predicate=");
            push_invert(&mut out, *invert);
            push_str(&mut out, predicate.as_str());
        },
        SelectorParameter::Gamemode { gamemode, invert } => {
            proof {
                reveal_strlit("gamemode=");
            }
            push_str(&mut out, "gamemode=");
            push_invert(&mut out, *invert);
            push_str(&mut out, gamemode.codegen_str());
        },
        SelectorParameter::Name { name, invert } => {
            proof {
                reveal_strlit("gamemode=");
            }
            push_str(&mut out, "gamemode=");
            push_invert(&mut out, *invert);
            push_char(&mut out, '"');
            push_str(&mut out, name.as_str());
            push_char(&mut out, '"');
        },
        SelectorParameter::Limit(n) => {
            proof {
                reveal_strlit("limit=");
            }
            push_str(&mut out, "limit=");
            push_decimal(&mut out, *n as u64);
        },
        SelectorParameter::Sort(s) => {
            proof {
                reveal_strlit("sort=");
            }
            push_str(&mut out, "sort=");
            push_str(&mut out, s.codegen_str());
        },
    }
    assert(out@ =~= param_text(*p));
    out
}

fn push_invert(out: &mut String, invert: bool)
    ensures
        final(out)@ == old(out)@ + invert_text(invert),
{
    if invert {
        push_char(out, '!');
        assert(old(out)@.push('!') =~= old(out)@ + seq!['!']);
    } else {
        assert(old(out)@ + Seq::<char>::empty() =~= old(out)@);
    }
}

fn param_is_value_eq(a: &SelectorParameter, b: &SelectorParameter) -> (r: bool)
    ensures
        r == param_eq(*a, *b),
{
    match (a, b) {
        (SelectorParameter::Type { ty: t1, invert: i1 }, SelectorParameter::Type { ty: t2, invert: i2 }) =>
            *t1 == *t2 && *i1 == *i2,
        (SelectorParameter::Tag { tag: t1, invert: i1 }, SelectorParameter::Tag { tag: t2, invert: i2 }) =>
            *t1 == *t2 && *i1 == *i2,
        (SelectorParameter::NoTags, SelectorParameter::NoTags) => true,
        (
            SelectorParameter::Predicate { predicate: p1, invert: i1 },
            SelectorParameter::Predicate { predicate: p2, invert: i2 },
        ) => *p1 == *p2 && *i1 == *i2,
        (
            SelectorParameter::Gamemode { gamemode: g1, invert: i1 },
            SelectorParameter::Gamemode { gamemode: g2, invert: i2 },
        ) => *g1 == *g2 && *i1 == *i2,
        (SelectorParameter::Name { name: n1, invert: i1 }, SelectorParameter::Name { name: n2, invert: i2 }) =>
            *n1 == *n2 && *i1 == *i2,
        (SelectorParameter::Limit(l1), SelectorParameter::Limit(l2)) => *l1 == *l2,
        (SelectorParameter::Sort(s1), SelectorParameter::Sort(s2)) => *s1 == *s2,
        _ => false,
    }
}

impl SelectorParameter {
    /// A copy of this parameter
    pub fn copy(&self) -> (r: Self)
        ensures
            param_text(r) == param_text(*self),
            param_eq(r, *self),
    {
        match self {
            SelectorParameter::Type { ty, invert } => SelectorParameter::Type { ty: ty.clone(), invert: *invert },
            SelectorParameter::Tag { tag, invert } => SelectorParameter::Tag { tag: tag.clone(), invert: *invert },
            SelectorParameter::NoTags => SelectorParameter::NoTags,
            SelectorParameter::Predicate { predicate, invert } => SelectorParameter::Predicate {
                predicate: predicate.clone(),
                invert: *invert,
            },
            SelectorParameter::Gamemode { gamemode, invert } => SelectorParameter::Gamemode {
                gamemode: *gamemode,
                invert: *invert,
            },
            SelectorParameter::Name { name, invert } => SelectorParameter::Name { name: name.clone(), invert: *invert },
            SelectorParameter::Limit(n) => SelectorParameter::Limit(*n),
            SelectorParameter::Sort(s) => SelectorParameter::Sort(*s),
        }
    }
}

impl TargetSelector {
    /// A copy of this selector
    pub fn copy(&self) -> (r: Self)
        ensures
            r.text() == self.text(),
            r.value_eq(self),
    {
        let mut params: Vec<SelectorParameter> = Vec::new();
        let mut i: usize = 0;
        while i < self.params.len()
            invariant
                i <= self.params@.len(),
                params@.len() == i,
                forall|j: int| 0 <= j < i ==> param_text(#[trigger] params@[j]) == param_text(self.params@[j]),
                forall|j: int| 0 <= j < i ==> param_eq(#[trigger] params@[j], self.params@[j]),
            decreases self.params.len() - i,
        {
            params.push(self.params[i].copy());
            i = i + 1;
        }
        let r = TargetSelector { selector: self.selector, params };
        assert(r.params@.map_values(|p: SelectorParameter| param_text(p)) =~= self.params@.map_values(
            |p: SelectorParameter| param_text(p),
        ));
        proof {
            assert forall|j: int| 0 <= j < r.params@.len() implies #[trigger] param_eq(r.params@[j], self.params@[j]) by {}
        }
        r
    }

    pub fn new(selector: SelectorType) -> (r: Self)
        ensures
            r.selector == selector,
            r.params@ == Seq::<SelectorParameter>::empty(),
    {
        TargetSelector { selector, params: Vec::new() }
    }

    pub fn with_params(selector: SelectorType, params: Vec<SelectorParameter>) -> (r: Self)
        ensures
            r.selector == selector,
            r.params@ == params@,
    {
        TargetSelector { selector, params }
    }

    /// Whether this is `@s` with no parameters
    pub open spec fn spec_is_blank_this(&self) -> bool {
        self.selector == SelectorType::This && self.params@.len() == 0
    }

    /// Whether this is `@s` with no parameters
    pub fn is_blank_this(&self) -> (r: bool)
        ensures
            r == self.spec_is_blank_this(),
    {
        self.selector == SelectorType::This && self.params.len() == 0
    }

    /// Whether two selectors are the same
    pub open spec fn value_eq(&self, other: &Self) -> bool {
        self.selector == other.selector && params_eq(self.params@, other.params@)
    }

    /// Whether two selectors are the same
    pub fn is_value_eq(&self, other: &Self) -> (r: bool)
        ensures
            r == self.value_eq(other),
    {
        if self.selector != other.selector || self.params.len() != other.params.len() {
            return false;
        }
        let mut i: usize = 0;
        while i < self.params.len()
            invariant
                self.params.len() == other.params.len(),
                i <= self.params.len(),
                forall|j: int| 0 <= j < i ==> #[trigger] param_eq(self.params@[j], other.params@[j]),
            decreases self.params.len() - i,
        {
            if !param_is_value_eq(&self.params[i], &other.params[i]) {
                return false;
            }
            i = i + 1;
        }
        true
    }

    /// Whether this selector picks at most one entity
    pub open spec fn spec_is_single_type(&self) -> bool {
        ||| self.selector.spec_is_single_type()
        ||| ((self.selector == SelectorType::AllEntities || self.selector == SelectorType::AllPlayers)
            && has_limit_one(self.params@))
    }

    /// Whether this selector picks at most one entity
    pub fn is_single_type(&self) -> (r: bool)
        ensures
            r == self.spec_is_single_type(),
    {
        if self.selector.is_single_type() {
            return true;
        }
        if self.selector != SelectorType::AllEntities && self.selector != SelectorType::AllPlayers {
            return false;
        }
        let mut i: usize = 0;
        while i < self.params.len()
            invariant
                i <= self.params.len(),
                self.selector == SelectorType::AllEntities || self.selector == SelectorType::AllPlayers,
                forall|j: int| 0 <= j < i ==> self.params@[j] != SelectorParameter::Limit(1),
            decreases self.params.len() - i,
        {
            if let SelectorParameter::Limit(n) = &self.params[i] {
                if *n == 1 {
                    return true;
                }
            }
            i = i + 1;
        }
        false
    }

    /// Whether this selector picks players only
    pub open spec fn spec_is_player_type(&self) -> bool {
        ||| self.selector.spec_is_player_type()
        ||| (self.selector == SelectorType::AllEntities && has_player_type(self.params@))
    }

    /// Whether this selector picks players only
    pub fn is_player_type(&self) -> (r: bool)
        ensures
            r == self.spec_is_player_type(),
    {
        if self.selector.is_player_type() {
            return true;
        }
        if self.selector != SelectorType::AllEntities {
            return false;
        }
        let player = String::from_str("player");
        proof {
            reveal_strlit("player");
        }
        let mut i: usize = 0;
        while i < self.params.len()
            invariant
                i <= self.params.len(),
                self.selector == SelectorType::AllEntities,
                player@ == seq!['p', 'l', 'a', 'y', 'e', 'r'],
                forall|j: int|
                    0 <= j < i ==> !(#[trigger] self.params@[j] matches SelectorParameter::Type { ty, invert }
                        && ty@ == seq!['p', 'l', 'a', 'y', 'e', 'r'] && !invert),
            decreases self.params.len() - i,
        {
            if let SelectorParameter::Type { ty, invert } = &self.params[i] {
                if *ty == player && !*invert {
                    assert(self.params@[i as int] matches SelectorParameter::Type { ty, invert } && ty@
                        == seq!['p', 'l', 'a', 'y', 'e', 'r'] && !invert);
                    return true;
                }
            }
            i = i + 1;
        }
        false
    }

    /// Whether the entities picked depend on where the command runs
    pub fn relies_on_position(&self) -> (r: bool)
        ensures
            r == (self.selector == SelectorType::NearestPlayer),
    {
        self.selector == SelectorType::NearestPlayer
    }

    /// Whether the entities picked depend on who runs the command
    pub fn relies_on_executor(&self) -> (r: bool)
        ensures
            r == (self.selector == SelectorType::This),
    {
        self.selector == SelectorType::This
    }

    /// The text of this selector in a command: its type, then its parameters
    /// in brackets, separated by commas, where there are any
    pub open spec fn text(&self) -> Seq<char> {
        if self.params@.len() == 0 {
            self.selector.text()
        } else {
            self.selector.text() + seq!['['] + crate::strutil::join_with(
                self.params@.map_values(|p: SelectorParameter| param_text(p)),
                ',',
            ) + seq![']']
        }
    }

    /// Writes this selector as it appears in a command
    pub fn gen_str(&self) -> (r: String)
        ensures
            r@ == self.text(),
    {
        let mut out = String::new();
        push_str(&mut out, self.selector.codegen_str());
        if self.params.len() == 0 {
            return out;
        }
        let ghost texts = self.params@.map_values(|p: SelectorParameter| param_text(p));
        let mut parts: Vec<String> = Vec::new();
        let mut i: usize = 0;
        while i < self.params.len()
            invariant
                i <= self.params.len(),
                parts@.len() == i,
                forall|k: int| 0 <= k < i ==> #[trigger] parts@[k]@ == param_text(self.params@[k]),
            decreases self.params.len() - i,
        {
            let s = gen_param(&self.params[i]);
            parts.push(s);
            i = i + 1;
        }
        assert(parts@.map_values(|s: String| s@) =~= texts);
        let joined = join_strings(&parts, ',');
        push_char(&mut out, '[');
        push_str(&mut out, joined.as_str());
        push_char(&mut out, ']');
        assert(out@ =~= self.text());
        out
    }
}

/// A parameter of a target selector
#[derive(Debug, Clone)]
pub enum SelectorParameter {
    Type { ty: String, invert: bool },
    Tag { tag: String, invert: bool },
    NoTags,
    Predicate { predicate: String, invert: bool },
    Gamemode { gamemode: Gamemode, invert: bool },
    Name { name: String, invert: bool },
    Limit(u32),
    Sort(SelectorSort),
}



/// The kind of a target selector
#[derive(Debug, Clone, Copy, PartialEq, Eq, Structural)]
pub enum SelectorType {
    This,
    NearestPlayer,
    RandomPlayer,
    AllPlayers,
    AllEntities,
}

impl SelectorType {
    /// The text of this selector type in a command
    pub open spec fn text(self) -> Seq<char> {
        match self {
            SelectorType::This => seq!['@', 's'],
            SelectorType::NearestPlayer => seq!['@', 'p'],
            SelectorType::RandomPlayer => seq!['@', 'r'],
            SelectorType::AllPlayers => seq!['@', 'a'],
            SelectorType::AllEntities => seq!['@', 'e'],
        }
    }

    /// The text of this selector type in a command
    pub fn codegen_str(&self) -> (r: &'static str)
        ensures
            r@ == self.text(),
    {
        match self {
            SelectorType::This => {
                proof {
                    reveal_strlit("@s");
                }
                "@s"
            },
            SelectorType::NearestPlayer => {
                proof {
                    reveal_strlit("@p");
                }
                "@p"
            },
            SelectorType::RandomPlayer => {
                proof {
                    reveal_strlit("@r");
                }
                "@r"
            },
            SelectorType::AllPlayers => {
                proof {
                    reveal_strlit("@a");
                }
                "@a"
            },
            SelectorType::AllEntities => {
                proof {
                    reveal_strlit("@e");
                }
                "@e"
            },
        }
    }

    /// Whether this selector type picks at most one entity
    pub open spec fn spec_is_single_type(&self) -> bool {
        *self == SelectorType::This || *self == SelectorType::NearestPlayer || *self
            == SelectorType::RandomPlayer
    }

    /// Whether this selector type picks at most one entity
    pub fn is_single_type(&self) -> (r: bool)
        ensures
            r == self.spec_is_single_type(),
    {
        matches!(self, SelectorType::This | SelectorType::NearestPlayer | SelectorType::RandomPlayer)
    }

    /// Whether this selector type picks players only
    pub open spec fn spec_is_player_type(&self) -> bool {
        *self == SelectorType::NearestPlayer || *self == SelectorType::AllPlayers || *self
            == SelectorType::RandomPlayer
    }

    /// Whether this selector type picks players only
    pub fn is_player_type(&self) -> (r: bool)
        ensures
            r == self.spec_is_player_type(),
    {
        matches!(self, SelectorType::NearestPlayer | SelectorType::AllPlayers | SelectorType::RandomPlayer)
    }
}

/// The order in which a selector picks entities
#[derive(Debug, Clone, Copy, PartialEq, Eq, Structural)]
pub enum SelectorSort {
    Nearest,
    Furthest,
    Random,
    Arbitrary,
}

impl SelectorSort {
    /// The text that commands use for this value
    pub open spec fn text(self) -> Seq<char> {
        match self {
            SelectorSort::Nearest => seq!['n', 'e', 'a', 'r', 'e', 's', 't'],
            SelectorSort::Furthest => seq!['f', 'u', 'r', 't', 'h', 'e', 's', 't'],
            SelectorSort::Random => seq!['r', 'a', 'n', 'd', 'o', 'm'],
            SelectorSort::Arbitrary => seq!['a', 'r', 'b', 'i', 't', 'r', 'a', 'r', 'y'],
        }
    }

    /// The text that commands use for this value
    pub fn codegen_str(&self) -> (r: &'static str)
        ensures
            r@ == self.text(),
    {
        match self {
            SelectorSort::Nearest => {
                proof {
                    reveal_strlit("nearest");
                }
                "nearest"
            },
            SelectorSort::Furthest => {
                proof {
                    reveal_strlit("furthest");
                }
                "furthest"
            },
            SelectorSort::Random => {
                proof {
                    reveal_strlit("random");
                }
                "random"
            },
            SelectorSort::Arbitrary => {
                proof {
                    reveal_strlit("arbitrary");
                }
                "arbitrary"
            },
        }
    }
}

/// The UUID of an entity, as text
#[derive(Debug, Clone)]
pub struct UUID(pub String);

/// How an attribute modifier applies
#[derive(Debug, Clone, Copy, PartialEq, Eq, Structural)]
pub enum AttributeType {
    Add,
    Multiply,
    MultiplyBase,
}

impl AttributeType {
    /// The text that commands use for this value
    pub open spec fn text(self) -> Seq<char> {
        match self {
            AttributeType::Add => seq!['a', 'd', 'd'],
            AttributeType::Multiply => seq!['m', 'u', 'l', 't', 'i', 'p', 'l', 'y'],
            AttributeType::MultiplyBase => seq!['m', 'u', 'l', 't', 'i', 'p', 'l', 'y', '_', 'b', 'a', 's', 'e'],
        }
    }

    /// The text that commands use for this value
    pub fn codegen_str(&self) -> (r: &'static str)
        ensures
            r@ == self.text(),
    {
        match self {
            AttributeType::Add => {
                proof {
                    reveal_strlit("add");
                }
                "add"
            },
            AttributeType::Multiply => {
                proof {
                    reveal_strlit("multiply");
                }
                "multiply"
            },
            AttributeType::MultiplyBase => {
                proof {
                    reveal_strlit("multiply_base");
                }
                "multiply_base"
            },
        }
    }
}

/// How long an effect lasts
#[derive(Debug, Clone, Copy, PartialEq, Eq, Structural)]
pub enum EffectDuration {
    Seconds(i32),
    Infinite,
}

impl EffectDuration {
    /// Whether this is the duration that commands use when none is given
    pub fn is_default(&self) -> (r: bool)
        ensures
            r == (*self == EffectDuration::Seconds(30)),
    {
        match self {
            EffectDuration::Seconds(amt) => *amt == 30,
            EffectDuration::Infinite => false,
        }
    }

    /// The text of this duration in a command
    pub open spec fn text(self) -> Seq<char> {
        match self {
            EffectDuration::Seconds(s) => crate::strutil::decimal_int(s as int),
            EffectDuration::Infinite => seq!['i', 'n', 'f', 'i', 'n', 'i', 't', 'e'],
        }
    }

    /// Writes this duration as it appears in a command
    pub fn gen_str(&self) -> (r: String)
        ensures
            r@ == self.text(),
    {
        match self {
            EffectDuration::Seconds(s) => crate::strutil::i64_to_string(*s as i64),
            EffectDuration::Infinite => {
                proof {
                    reveal_strlit("infinite");
                }
                String::from_str("infinite")
            },
        }
    }
}

} // verus!
