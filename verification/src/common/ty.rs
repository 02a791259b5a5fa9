//! The data types of the IR and the constant contents of score and
//! array types, with the rules for casting between types.
use vstd::prelude::*;

use crate::strutil::{push_char, str_eq};

verus! {

/// Number of elements of an NBT array
pub type ArraySize = usize;

/// Any type that a value of the IR can have
#[derive(Debug)]
pub enum DataType {
    Score(ScoreType),
    NBT(NBTType),
}

/// Types of scoreboard values
#[derive(Clone, Copy, PartialEq, Eq, Debug, Structural)]
pub enum ScoreType {
    Score,
    UScore,
    Bool,
}

/// Types of NBT values. A compound lists its fields as (name, type) pairs.
#[derive(Debug)]
pub enum NBTType {
    Byte,
    Bool,
    Short,
    Int,
    Long,
    Float,
    Double,
    String,
    Arr(NBTArrayType),
    List(Box<NBTType>),
    Compound(Vec<(String, NBTType)>),
    Any,
}

/// Types of NBT arrays with their lengths
#[derive(Clone, Copy, PartialEq, Eq, Debug, Structural)]
pub enum NBTArrayType {
    Byte(ArraySize),
    Int(ArraySize),
    Long(ArraySize),
}

/// Whether a score of type `this` can be used where `other` is expected
/// without conversion
pub open spec fn score_castable(this: ScoreType, other: ScoreType) -> bool {
    match other {
        ScoreType::Score => true,
        ScoreType::UScore => this != ScoreType::Bool,
        ScoreType::Bool => this == ScoreType::Bool,
    }
}

/// Whether an array of type `this` can be used where `other` is expected
pub open spec fn array_castable(this: NBTArrayType, other: NBTArrayType) -> bool {
    match other {
        NBTArrayType::Byte(o) => this matches NBTArrayType::Byte(t) && t == o,
        NBTArrayType::Int(o) => match this {
            NBTArrayType::Byte(t) => t == o,
            NBTArrayType::Int(t) => t == o,
            NBTArrayType::Long(_) => false,
        },
        NBTArrayType::Long(o) => match this {
            NBTArrayType::Byte(t) => t == o,
            NBTArrayType::Int(t) => t == o,
            NBTArrayType::Long(t) => t == o,
        },
    }
}

/// Index of the first field named `key` in a compound's field list
pub open spec fn first_key_index(fields: Seq<(String, NBTType)>, key: Seq<char>) -> Option<int>
    decreases fields.len(),
{
    if fields.len() == 0 {
        None
    } else if fields[0].0@ == key {
        Some(0)
    } else {
        match first_key_index(fields.drop_first(), key) {
            Some(j) => Some(j + 1),
            None => None,
        }
    }
}

/// `first_key_index` finds the first field with the key, or tells that none has it
pub proof fn lemma_first_key_index(fields: Seq<(String, NBTType)>, key: Seq<char>)
    ensures
        match first_key_index(fields, key) {
            Some(j) => 0 <= j < fields.len() && fields[j].0@ == key && forall|i: int|
                0 <= i < j ==> fields[i].0@ != key,
            None => forall|i: int| 0 <= i < fields.len() ==> fields[i].0@ != key,
        },
    decreases fields.len(),
{
    if fields.len() > 0 && fields[0].0@ != key {
        lemma_first_key_index(fields.drop_first(), key);
        assert forall|i: int| 1 <= i < fields.len() implies fields[i] == fields.drop_first()[i - 1] by {}
    }
}

/// Castability between NBT types, read in the direction that `forward` picks:
/// with `forward` it says that `x` can be used where `y` is expected, otherwise
/// that `y` can be used where `x` is expected. Written this way, every step of
/// the recursion goes into a part of `x`.
pub open spec fn nbt_castable_dir(x: NBTType, y: NBTType, forward: bool) -> bool
    decreases x, 0nat,
{
    let this = if forward { x } else { y };
    let other = if forward { y } else { x };
    match other {
        NBTType::Any => true,
        NBTType::Byte => this is Byte || this is Bool,
        NBTType::Bool => this is Bool,
        NBTType::Short => this is Byte || this is Bool || this is Short,
        NBTType::Int => this is Byte || this is Bool || this is Short || this is Int,
        NBTType::Long => this is Byte || this is Bool || this is Short || this is Int || this is Long,
        NBTType::Float => this is Float,
        NBTType::Double => this is Float || this is Double,
        NBTType::String => this is String,
        NBTType::Arr(o) => this matches NBTType::Arr(t) && array_castable(t, o),
        NBTType::List(_) => match (x, y) {
            (NBTType::List(xi), NBTType::List(yi)) => nbt_castable_dir(*xi, *yi, forward),
            _ => false,
        },
        NBTType::Compound(_) => match (x, y) {
            (NBTType::Compound(xf), NBTType::Compound(yf)) => if forward {
                fields_castable_fwd(xf@, yf@, 0)
            } else {
                fields_castable_bwd(xf@, yf@, 0)
            },
            _ => false,
        },
    }
}

/// Whether field `k` is the first of its name. A compound is read as a map
/// from names to types: where a name repeats, its first field counts.
pub open spec fn first_of_name(fields: Seq<(String, NBTType)>, k: int) -> bool {
    first_key_index(fields, fields[k].0@) == Some(k)
}

/// From field `k` on, every name of `xf` exists in `yf`, and `yf`'s type for
/// it casts to `xf`'s
pub open spec fn fields_castable_fwd(xf: Seq<(String, NBTType)>, yf: Seq<(String, NBTType)>, k: int) -> bool
    decreases xf, xf.len() - k,
{
    if 0 <= k < xf.len() {
        proof {
            assert(decreases_to!(xf => xf[k]));
        }
        &&& (first_of_name(xf, k) ==> match first_key_index(yf, xf[k].0@) {
            Some(j) => nbt_castable_dir(xf[k].1, yf[j].1, false),
            None => false,
        })
        &&& fields_castable_fwd(xf, yf, k + 1)
    } else {
        true
    }
}

/// From field `k` of `yf` on, every name of `yf` exists in `xf`, and `xf`'s
/// type for it casts to `yf`'s
pub open spec fn fields_castable_bwd(xf: Seq<(String, NBTType)>, yf: Seq<(String, NBTType)>, k: int) -> bool
    decreases xf, yf.len() - k,
{
    if 0 <= k < yf.len() {
        &&& (first_of_name(yf, k) ==> match first_key_index(xf, yf[k].0@) {
            Some(j) => {
                proof {
                    lemma_first_key_index(xf, yf[k].0@);
                    assert(decreases_to!(xf => xf[j]));
                }
                nbt_castable_dir(xf[j].1, yf[k].1, true)
            },
            None => false,
        })
        &&& fields_castable_bwd(xf, yf, k + 1)
    } else {
        true
    }
}

/// Whether an NBT value of type `this` can be used where `other` is expected
/// without conversion
pub open spec fn nbt_castable(this: NBTType, other: NBTType) -> bool {
    nbt_castable_dir(this, other, true)
}

/// Whether a value of type `this` can be used where `other` is expected
/// without conversion
pub open spec fn data_castable(this: DataType, other: DataType) -> bool {
    match (this, other) {
        (DataType::Score(t), DataType::Score(o)) => score_castable(t, o),
        (DataType::NBT(t), DataType::NBT(o)) => nbt_castable(t, o),
        _ => false,
    }
}

impl DataType {
    pub fn is_trivially_castable(&self, other: &DataType) -> (r: bool)
        ensures
            r == data_castable(*self, *other),
    {
        match other {
            DataType::Score(other_score) => match self {
                DataType::Score(this_score) => this_score.is_trivially_castable(other_score),
                _ => false,
            },
            DataType::NBT(other_nbt) => match self {
                DataType::NBT(this_nbt) => this_nbt.is_trivially_castable(other_nbt),
                _ => false,
            },
        }
    }
}

impl ScoreType {
    pub fn is_trivially_castable(&self, other: &ScoreType) -> (r: bool)
        ensures
            r == score_castable(*self, *other),
    {
        match other {
            ScoreType::Score => true,
            ScoreType::UScore => match self {
                ScoreType::Score | ScoreType::UScore => true,
                ScoreType::Bool => false,
            },
            ScoreType::Bool => match self {
                ScoreType::Bool => true,
                _ => false,
            },
        }
    }
}

impl NBTArrayType {
    pub fn is_trivially_castable(&self, other: &NBTArrayType) -> (r: bool)
        ensures
            r == array_castable(*self, *other),
    {
        match other {
            NBTArrayType::Byte(o) => match self {
                NBTArrayType::Byte(t) => *t == *o,
                _ => false,
            },
            NBTArrayType::Int(o) => match self {
                NBTArrayType::Byte(t) | NBTArrayType::Int(t) => *t == *o,
                _ => false,
            },
            NBTArrayType::Long(o) => match self {
                NBTArrayType::Byte(t) | NBTArrayType::Int(t) | NBTArrayType::Long(t) => *t == *o,
            },
        }
    }
}

/// The first field of `fields` named `key`
fn find_field(fields: &Vec<(String, NBTType)>, key: &String) -> (r: Option<usize>)
    ensures
        match r {
            Some(j) => first_key_index(fields@, key@) == Some(j as int),
            None => first_key_index(fields@, key@) is None,
        },
{
    proof {
        lemma_first_key_index(fields@, key@);
    }
    let mut j: usize = 0;
    while j < fields.len()
        invariant
            j <= fields@.len(),
            forall|i: int| 0 <= i < j ==> fields@[i].0@ != key@,
            match first_key_index(fields@, key@) {
                Some(k) => 0 <= k < fields@.len() && fields@[k].0@ == key@ && forall|i: int|
                    0 <= i < k ==> fields@[i].0@ != key@,
                None => forall|i: int| 0 <= i < fields@.len() ==> fields@[i].0@ != key@,
            },
        decreases fields.len() - j,
    {
        if str_eq(fields[j].0.as_str(), key.as_str()) {
            proof {
                match first_key_index(fields@, key@) {
                    Some(k) => {
                        if k < j {
                        } else if j < k {
                            assert(fields@[j as int].0@ != key@);
                        }
                    },
                    None => {
                        assert(fields@[j as int].0@ != key@);
                    },
                }
            }
            return Some(j);
        }
        j = j + 1;
    }
    proof {
        if let Some(k) = first_key_index(fields@, key@) {
            assert(fields@[k].0@ != key@);
        }
    }
    None
}

fn nbt_castable_dir_exec(x: &NBTType, y: &NBTType, forward: bool) -> (r: bool)
    ensures
        r == nbt_castable_dir(*x, *y, forward),
    decreases x, 0nat,
{
    let this = if forward { x } else { y };
    let other = if forward { y } else { x };
    match other {
        NBTType::Any => true,
        NBTType::Byte => matches!(this, NBTType::Byte | NBTType::Bool),
        NBTType::Bool => matches!(this, NBTType::Bool),
        NBTType::Short => matches!(this, NBTType::Byte | NBTType::Bool | NBTType::Short),
        NBTType::Int => matches!(this, NBTType::Byte | NBTType::Bool | NBTType::Short | NBTType::Int),
        NBTType::Long => matches!(
            this,
            NBTType::Byte | NBTType::Bool | NBTType::Short | NBTType::Int | NBTType::Long
        ),
        NBTType::Float => matches!(this, NBTType::Float),
        NBTType::Double => matches!(this, NBTType::Float | NBTType::Double),
        NBTType::String => matches!(this, NBTType::String),
        NBTType::Arr(o) => match this {
            NBTType::Arr(t) => t.is_trivially_castable(o),
            _ => false,
        },
        NBTType::List(_) => match (x, y) {
            (NBTType::List(xi), NBTType::List(yi)) => nbt_castable_dir_exec(&**xi, &**yi, forward),
            _ => false,
        },
        NBTType::Compound(_) => match (x, y) {
            (NBTType::Compound(xf), NBTType::Compound(yf)) => {
                proof {
                    assert(decreases_to!(*x => (*x)->Compound_0));
                }
                if forward {
                    fields_castable_fwd_exec(xf, yf)
                } else {
                    fields_castable_bwd_exec(xf, yf)
                }
            },
            _ => false,
        },
    }
}

fn fields_castable_fwd_exec(xf: &Vec<(String, NBTType)>, yf: &Vec<(String, NBTType)>) -> (r: bool)
    ensures
        r == fields_castable_fwd(xf@, yf@, 0),
    decreases xf, 0nat,
{
    let mut i: usize = 0;
    while i < xf.len()
        invariant
            i <= xf@.len(),
            fields_castable_fwd(xf@, yf@, 0) == fields_castable_fwd(xf@, yf@, i as int),
        decreases xf.len() - i,
    {
        proof {
            assert(decreases_to!(*xf => xf@));
            assert(decreases_to!(xf@ => xf@[i as int]));
            assert(decreases_to!(xf@[i as int] => xf@[i as int].1));
        }
        let first = match find_field(xf, &xf[i].0) {
            Some(f) => f == i,
            None => false,
        };
        proof {
            lemma_first_key_index(xf@, xf@[i as int].0@);
        }
        if first {
            match find_field(yf, &xf[i].0) {
                None => {
                    return false;
                },
                Some(j) => {
                    proof {
                        lemma_first_key_index(yf@, xf@[i as int].0@);
                    }
                    if !nbt_castable_dir_exec(&xf[i].1, &yf[j].1, false) {
                        return false;
                    }
                },
            }
        }
        i = i + 1;
    }
    true
}

fn fields_castable_bwd_exec(xf: &Vec<(String, NBTType)>, yf: &Vec<(String, NBTType)>) -> (r: bool)
    ensures
        r == fields_castable_bwd(xf@, yf@, 0),
    decreases xf, yf@.len(),
{
    let mut i: usize = 0;
    while i < yf.len()
        invariant
            i <= yf@.len(),
            fields_castable_bwd(xf@, yf@, 0) == fields_castable_bwd(xf@, yf@, i as int),
        decreases yf.len() - i,
    {
        let first = match find_field(yf, &yf[i].0) {
            Some(f) => f == i,
            None => false,
        };
        proof {
            lemma_first_key_index(yf@, yf@[i as int].0@);
        }
        if first {
            match find_field(xf, &yf[i].0) {
                None => {
                    return false;
                },
                Some(j) => {
                    proof {
                        lemma_first_key_index(xf@, yf@[i as int].0@);
                        assert(decreases_to!(*xf => xf@));
                        assert(decreases_to!(xf@ => xf@[j as int]));
                        assert(decreases_to!(xf@[j as int] => xf@[j as int].1));
                    }
                    if !nbt_castable_dir_exec(&xf[j].1, &yf[i].1, true) {
                        return false;
                    }
                },
            }
        }
        i = i + 1;
    }
    true
}

impl NBTType {
    pub fn is_trivially_castable(&self, other: &NBTType) -> (r: bool)
        ensures
            r == nbt_castable(*self, *other),
    {
        nbt_castable_dir_exec(self, other, true)
    }

    pub fn is_int_type(&self) -> (r: bool)
        ensures
            r == (self is Byte || self is Bool || self is Short || self is Int || self is Long),
    {
        matches!(self, NBTType::Byte | NBTType::Bool | NBTType::Short | NBTType::Int | NBTType::Long)
    }

    /// Any integer NBT type can be cast to any score type
    pub fn is_castable_to_score(&self, other: &ScoreType) -> (r: bool)
        ensures
            r == (self is Byte || self is Bool || self is Short || self is Int || self is Long),
    {
        if self.is_int_type() {
            match other {
                ScoreType::Score => true,
                ScoreType::UScore => true,
                ScoreType::Bool => true,
            }
        } else {
            false
        }
    }
}

} // verus!

verus! {

proof fn lemma_fields_fwd_refl(fields: Seq<(String, NBTType)>, k: int)
    requires
        0 <= k <= fields.len(),
    ensures
        fields_castable_fwd(fields, fields, k),
    decreases fields, fields.len() - k,
{
    if k < fields.len() {
        lemma_first_key_index(fields, fields[k].0@);
        assert(decreases_to!(fields => fields[k]));
        lemma_nbt_castable_dir_refl(fields[k].1, false);
        lemma_fields_fwd_refl(fields, k + 1);
    }
}

proof fn lemma_fields_bwd_refl(fields: Seq<(String, NBTType)>, k: int)
    requires
        0 <= k <= fields.len(),
    ensures
        fields_castable_bwd(fields, fields, k),
    decreases fields, fields.len() - k,
{
    if k < fields.len() {
        lemma_first_key_index(fields, fields[k].0@);
        assert(decreases_to!(fields => fields[k]));
        lemma_nbt_castable_dir_refl(fields[k].1, true);
        lemma_fields_bwd_refl(fields, k + 1);
    }
}

proof fn lemma_nbt_castable_dir_refl(t: NBTType, forward: bool)
    ensures
        nbt_castable_dir(t, t, forward),
    decreases t, 0nat,
{
    match t {
        NBTType::List(inner) => {
            lemma_nbt_castable_dir_refl(*inner, forward);
        },
        NBTType::Compound(fields) => {
            assert(decreases_to!(t => t->Compound_0));
            if forward {
                lemma_fields_fwd_refl(fields@, 0);
            } else {
                lemma_fields_bwd_refl(fields@, 0);
            }
        },
        _ => {},
    }
}

/// Every NBT type can be used where that same type is expected, and where
/// any NBT is expected
pub proof fn lemma_nbt_castable_reflexive(t: NBTType)
    ensures
        nbt_castable(t, t),
        nbt_castable(t, NBTType::Any),
{
    lemma_nbt_castable_dir_refl(t, true);
}

/// Every type can be used where that same type is expected
pub proof fn lemma_castable_reflexive(t: DataType)
    ensures
        data_castable(t, t),
{
    if let DataType::NBT(n) = t {
        lemma_nbt_castable_dir_refl(n, true);
    }
}

} // verus!

verus! {

/// Constant contents of a score type
#[derive(Clone, Copy, PartialEq, Eq, Debug, Structural)]
pub enum ScoreTypeContents {
    Score(i32),
    UScore(u16),
    Bool(bool),
}

/// The number that a score constant stands for
pub open spec fn score_contents_value(c: ScoreTypeContents) -> int {
    match c {
        ScoreTypeContents::Score(s) => s as int,
        ScoreTypeContents::UScore(u) => u as int,
        ScoreTypeContents::Bool(b) => if b { 1 } else { 0 },
    }
}

impl ScoreTypeContents {
    pub fn get_ty(&self) -> (r: DataType)
        ensures
            r == DataType::Score(match *self {
                ScoreTypeContents::Score(_) => ScoreType::Score,
                ScoreTypeContents::UScore(_) => ScoreType::UScore,
                ScoreTypeContents::Bool(_) => ScoreType::Bool,
            }),
    {
        match self {
            ScoreTypeContents::Score(..) => DataType::Score(ScoreType::Score),
            ScoreTypeContents::UScore(..) => DataType::Score(ScoreType::UScore),
            ScoreTypeContents::Bool(..) => DataType::Score(ScoreType::Bool),
        }
    }

    pub fn get_i32(&self) -> (r: i32)
        ensures
            r as int == score_contents_value(*self),
    {
        match self {
            ScoreTypeContents::Score(score) => *score,
            ScoreTypeContents::UScore(score) => *score as i32,
            ScoreTypeContents::Bool(score) => if *score {
                1
            } else {
                0
            },
        }
    }

    /// The constant as it is written in a command
    pub fn get_literal_str(&self) -> (r: String)
        ensures
            r@ == crate::strutil::decimal_int(score_contents_value(*self)),
    {
        crate::strutil::i64_to_string(self.get_i32() as i64)
    }

    /// Whether two constants stand for the same number
    pub fn is_value_eq(&self, other: &Self) -> (r: bool)
        ensures
            r == (score_contents_value(*self) == score_contents_value(*other)),
    {
        self.get_i32() == other.get_i32()
    }
}

/// Constant contents of an NBT value
#[derive(Debug)]
pub enum NBTTypeContents {
    Byte(i8),
    Bool(bool),
    Short(i16),
    Int(i32),
    Long(i64),
    String(String),
    Arr(NBTArrayTypeContents),
    List(NBTType, Vec<NBTTypeContents>),
}

/// How an NBT constant is written in a command: numbers in decimal with their
/// type suffix, booleans as `1b` or `0b`, strings in quotes, and the items of a
/// list one after another, separated by commas
pub open spec fn nbt_literal(c: NBTTypeContents) -> Seq<char>
    decreases c, 1nat,
{
    match c {
        NBTTypeContents::Byte(v) => crate::strutil::decimal_int(v as int) + seq!['b'],
        NBTTypeContents::Bool(b) => if b {
            seq!['1', 'b']
        } else {
            seq!['0', 'b']
        },
        NBTTypeContents::Short(v) => crate::strutil::decimal_int(v as int) + seq!['s'],
        NBTTypeContents::Int(v) => crate::strutil::decimal_int(v as int),
        NBTTypeContents::Long(v) => crate::strutil::decimal_int(v as int) + seq!['l'],
        NBTTypeContents::String(s) => seq!['"'] + escape_quotes(s@) + seq!['"'],
        NBTTypeContents::Arr(a) => array_literal(a),
        NBTTypeContents::List(_, items) => crate::strutil::join_with(nbt_literals(items@), ','),
    }
}

/// The literal of each item of a list
pub open spec fn nbt_literals(items: Seq<NBTTypeContents>) -> Seq<Seq<char>>
    decreases items, 0nat,
{
    if items.len() == 0 {
        Seq::empty()
    } else {
        nbt_literals(items.drop_last()).push(nbt_literal(items.last()))
    }
}

fn push_suffixed(out: &mut String, v: i64, suffix: char)
    ensures
        final(out)@ == old(out)@ + crate::strutil::decimal_int(v as int) + seq![suffix],
{
    crate::strutil::push_decimal_i64(out, v);
    push_char(out, suffix);
    assert(final(out)@ =~= old(out)@ + crate::strutil::decimal_int(v as int) + seq![suffix]);
}

impl NBTTypeContents {
    /// The constant as it is written in a command
    pub fn get_literal_str(&self) -> (r: String)
        ensures
            r@ == nbt_literal(*self),
        decreases self,
    {
        match self {
            NBTTypeContents::Byte(v) => {
                let mut out = String::new();
                push_suffixed(&mut out, *v as i64, 'b');
                assert(out@ =~= nbt_literal(*self));
                out
            },
            NBTTypeContents::Bool(b) => {
                let mut out = String::new();
                push_char(&mut out, if *b { '1' } else { '0' });
                push_char(&mut out, 'b');
                assert(out@ =~= nbt_literal(*self));
                out
            },
            NBTTypeContents::Short(v) => {
                let mut out = String::new();
                push_suffixed(&mut out, *v as i64, 's');
                assert(out@ =~= nbt_literal(*self));
                out
            },
            NBTTypeContents::Int(v) => crate::strutil::i64_to_string(*v as i64),
            NBTTypeContents::Long(v) => {
                let mut out = String::new();
                push_suffixed(&mut out, *v, 'l');
                assert(out@ =~= nbt_literal(*self));
                out
            },
            NBTTypeContents::String(s) => write_string(s.clone()),
            NBTTypeContents::Arr(a) => a.get_literal_str(),
            NBTTypeContents::List(_, items) => {
                let mut strs: Vec<String> = Vec::new();
                let mut i: usize = 0;
                while i < items.len()
                    invariant
                        i <= items@.len(),
                        *self is List && (*self)->List_1 == *items,
                        strs@.map_values(|s: String| s@) == nbt_literals(items@.take(i as int)),
                    decreases items.len() - i,
                {
                    assert(decreases_to!(*self => items@[i as int])) by {
                        assert(decreases_to!(*self => (*self)->List_1));
                        assert(decreases_to!(*items => items@));
                        assert(decreases_to!(items@ => items@[i as int]));
                    }
                    let s = items[i].get_literal_str();
                    strs.push(s);
                    assert(items@.take(i as int + 1).drop_last() =~= items@.take(i as int));
                    assert(strs@.map_values(|s: String| s@) =~= nbt_literals(
                        items@.take(i as int + 1),
                    ));
                    i = i + 1;
                }
                assert(items@.take(items@.len() as int) =~= items@);
                fmt_arr(&strs)
            },
        }
    }
}

/// Constant contents of an NBT array, with the declared length
#[derive(Clone, PartialEq, Eq, Debug)]
pub enum NBTArrayTypeContents {
    Byte(Vec<i8>, ArraySize),
    Int(Vec<i32>, ArraySize),
    Long(Vec<i64>, ArraySize),
}

/// Each number written in decimal and followed by `suffix`
pub open spec fn number_items(vals: Seq<int>, suffix: Seq<char>) -> Seq<Seq<char>> {
    vals.map_values(|v: int| crate::strutil::decimal_int(v) + suffix)
}

/// How an array constant is written in a command: `[B;1b,2b]`, `[I;1,2]`, `[L;1l,2l]`
pub open spec fn array_literal(c: NBTArrayTypeContents) -> Seq<char> {
    match c {
        NBTArrayTypeContents::Byte(v, _) => seq!['[', 'B', ';'] + crate::strutil::join_with(
            number_items(v@.map_values(|x: i8| x as int), seq!['b']),
            ',',
        ) + seq![']'],
        NBTArrayTypeContents::Int(v, _) => seq!['[', 'I', ';'] + crate::strutil::join_with(
            number_items(v@.map_values(|x: i32| x as int), Seq::empty()),
            ',',
        ) + seq![']'],
        NBTArrayTypeContents::Long(v, _) => seq!['[', 'L', ';'] + crate::strutil::join_with(
            number_items(v@.map_values(|x: i64| x as int), seq!['l']),
            ',',
        ) + seq![']'],
    }
}

/// The elements of an array constant as numbers
pub open spec fn array_values(c: NBTArrayTypeContents) -> Seq<int> {
    match c {
        NBTArrayTypeContents::Byte(v, _) => v@.map_values(|x: i8| x as int),
        NBTArrayTypeContents::Int(v, _) => v@.map_values(|x: i32| x as int),
        NBTArrayTypeContents::Long(v, _) => v@.map_values(|x: i64| x as int),
    }
}

/// The declared length of an array constant
pub open spec fn array_size(c: NBTArrayTypeContents) -> ArraySize {
    match c {
        NBTArrayTypeContents::Byte(_, s) => s,
        NBTArrayTypeContents::Int(_, s) => s,
        NBTArrayTypeContents::Long(_, s) => s,
    }
}

/// Writes each number followed by `suffix`, one string per number
fn number_strings(vals: &Vec<i64>, suffix: &str) -> (r: Vec<String>)
    ensures
        r@.map_values(|s: String| s@) == number_items(vals@.map_values(|x: i64| x as int), suffix@),
{
    let mut out: Vec<String> = Vec::new();
    let mut i: usize = 0;
    while i < vals.len()
        invariant
            i <= vals@.len(),
            out@.len() == i,
            forall|k: int|
                0 <= k < i ==> #[trigger] out@[k]@ == crate::strutil::decimal_int(vals@[k] as int) + suffix@,
        decreases vals.len() - i,
    {
        let mut s = crate::strutil::i64_to_string(vals[i]);
        crate::strutil::push_str(&mut s, suffix);
        out.push(s);
        i = i + 1;
    }
    assert(out@.map_values(|s: String| s@) =~= number_items(
        vals@.map_values(|x: i64| x as int),
        suffix@,
    ));
    out
}

fn widen_i8(v: &Vec<i8>) -> (r: Vec<i64>)
    ensures
        r@.map_values(|x: i64| x as int) == v@.map_values(|x: i8| x as int),
{
    let mut out: Vec<i64> = Vec::new();
    let mut i: usize = 0;
    while i < v.len()
        invariant
            i <= v@.len(),
            out@.len() == i,
            forall|k: int| 0 <= k < i ==> #[trigger] out@[k] as int == v@[k] as int,
        decreases v.len() - i,
    {
        out.push(v[i] as i64);
        i = i + 1;
    }
    assert(out@.map_values(|x: i64| x as int) =~= v@.map_values(|x: i8| x as int));
    out
}

fn widen_i32(v: &Vec<i32>) -> (r: Vec<i64>)
    ensures
        r@.map_values(|x: i64| x as int) == v@.map_values(|x: i32| x as int),
{
    let mut out: Vec<i64> = Vec::new();
    let mut i: usize = 0;
    while i < v.len()
        invariant
            i <= v@.len(),
            out@.len() == i,
            forall|k: int| 0 <= k < i ==> #[trigger] out@[k] as int == v@[k] as int,
        decreases v.len() - i,
    {
        out.push(v[i] as i64);
        i = i + 1;
    }
    assert(out@.map_values(|x: i64| x as int) =~= v@.map_values(|x: i32| x as int));
    out
}

fn copy_i64(v: &Vec<i64>) -> (r: Vec<i64>)
    ensures
        r@ == v@,
{
    let mut out: Vec<i64> = Vec::new();
    let mut i: usize = 0;
    while i < v.len()
        invariant
            i <= v@.len(),
            out@ == v@.take(i as int),
        decreases v.len() - i,
    {
        out.push(v[i]);
        assert(out@ =~= v@.take(i as int + 1));
        i = i + 1;
    }
    assert(out@ =~= v@);
    out
}

/// Joins items with commas, as in an NBT list or array
pub fn fmt_arr(items: &Vec<String>) -> (r: String)
    ensures
        r@ == crate::strutil::join_with(items@.map_values(|s: String| s@), ','),
{
    crate::strutil::join_strings(items, ',')
}


fn eq_i8(a: &Vec<i8>, b: &Vec<i8>) -> (r: bool)
    ensures
        r == (a@ == b@),
{
    if a.len() != b.len() {
        return false;
    }
    let mut i: usize = 0;
    while i < a.len()
        invariant
            i <= a@.len(),
            a@.len() == b@.len(),
            forall|k: int| 0 <= k < i ==> a@[k] == b@[k],
        decreases a.len() - i,
    {
        if a[i] != b[i] {
            return false;
        }
        i = i + 1;
    }
    assert(a@ =~= b@);
    true
}

fn eq_i32(a: &Vec<i32>, b: &Vec<i32>) -> (r: bool)
    ensures
        r == (a@ == b@),
{
    if a.len() != b.len() {
        return false;
    }
    let mut i: usize = 0;
    while i < a.len()
        invariant
            i <= a@.len(),
            a@.len() == b@.len(),
            forall|k: int| 0 <= k < i ==> a@[k] == b@[k],
        decreases a.len() - i,
    {
        if a[i] != b[i] {
            return false;
        }
        i = i + 1;
    }
    assert(a@ =~= b@);
    true
}

fn eq_i64(a: &Vec<i64>, b: &Vec<i64>) -> (r: bool)
    ensures
        r == (a@ == b@),
{
    if a.len() != b.len() {
        return false;
    }
    let mut i: usize = 0;
    while i < a.len()
        invariant
            i <= a@.len(),
            a@.len() == b@.len(),
            forall|k: int| 0 <= k < i ==> a@[k] == b@[k],
        decreases a.len() - i,
    {
        if a[i] != b[i] {
            return false;
        }
        i = i + 1;
    }
    assert(a@ =~= b@);
    true
}

impl NBTArrayTypeContents {
    pub fn get_ty(&self) -> (r: DataType)
        ensures
            r == DataType::NBT(NBTType::Arr(match *self {
                NBTArrayTypeContents::Byte(_, n) => NBTArrayType::Byte(n),
                NBTArrayTypeContents::Int(_, n) => NBTArrayType::Int(n),
                NBTArrayTypeContents::Long(_, n) => NBTArrayType::Long(n),
            })),
    {
        match self {
            NBTArrayTypeContents::Byte(_, len) => DataType::NBT(NBTType::Arr(NBTArrayType::Byte(*len))),
            NBTArrayTypeContents::Int(_, len) => DataType::NBT(NBTType::Arr(NBTArrayType::Int(*len))),
            NBTArrayTypeContents::Long(_, len) => DataType::NBT(NBTType::Arr(NBTArrayType::Long(*len))),
        }
    }

    pub fn get_size(&self) -> (r: &ArraySize)
        ensures
            *r == array_size(*self),
    {
        match self {
            NBTArrayTypeContents::Byte(_, size) => size,
            NBTArrayTypeContents::Int(_, size) => size,
            NBTArrayTypeContents::Long(_, size) => size,
        }
    }

    /// The constant as it is written in a command
    pub fn get_literal_str(&self) -> (r: String)
        ensures
            r@ == array_literal(*self),
    {
        let (prefix, vals, suffix): (&str, Vec<i64>, &str) = match self {
            NBTArrayTypeContents::Byte(val, ..) => ("[B;", widen_i8(val), "b"),
            NBTArrayTypeContents::Int(val, ..) => ("[I;", widen_i32(val), ""),
            NBTArrayTypeContents::Long(val, ..) => ("[L;", copy_i64(val), "l"),
        };
        proof {
            reveal_strlit("[B;");
            reveal_strlit("[I;");
            reveal_strlit("[L;");
            reveal_strlit("b");
            reveal_strlit("");
            reveal_strlit("l");
        }
        let items = number_strings(&vals, suffix);
        let mut out = String::new();
        crate::strutil::push_str(&mut out, prefix);
        let joined = fmt_arr(&items);
        crate::strutil::push_str(&mut out, joined.as_str());
        push_char(&mut out, ']');
        proof {
            let mid = crate::strutil::join_with(items@.map_values(|s: String| s@), ',');
            assert(out@ =~= prefix@ + mid + seq![']']);
            match self {
                NBTArrayTypeContents::Byte(..) => {
                    assert(prefix@ =~= seq!['[', 'B', ';']);
                    assert(suffix@ =~= seq!['b']);
                },
                NBTArrayTypeContents::Int(..) => {
                    assert(prefix@ =~= seq!['[', 'I', ';']);
                    assert(suffix@ =~= Seq::<char>::empty());
                },
                NBTArrayTypeContents::Long(..) => {
                    assert(prefix@ =~= seq!['[', 'L', ';']);
                    assert(suffix@ =~= seq!['l']);
                },
            }
        }
        out
    }

    /// The element at `index` written in decimal, if there is one
    pub fn const_index(&self, index: ArraySize) -> (r: Option<String>)
        ensures
            match r {
                Some(s) => index < array_values(*self).len() && s@ == crate::strutil::decimal_int(
                    array_values(*self)[index as int],
                ),
                None => index >= array_values(*self).len(),
            },
    {
        match self {
            NBTArrayTypeContents::Byte(val, ..) => if index < val.len() {
                Some(crate::strutil::i64_to_string(val[index] as i64))
            } else {
                None
            },
            NBTArrayTypeContents::Int(val, ..) => if index < val.len() {
                Some(crate::strutil::i64_to_string(val[index] as i64))
            } else {
                None
            },
            NBTArrayTypeContents::Long(val, ..) => if index < val.len() {
                Some(crate::strutil::i64_to_string(val[index]))
            } else {
                None
            },
        }
    }

    /// Whether two arrays have the same kind and the same elements
    pub fn is_value_eq(&self, other: &Self) -> (r: bool)
        ensures
            r == match (*self, *other) {
                (NBTArrayTypeContents::Byte(l, _), NBTArrayTypeContents::Byte(r, _)) => l@ == r@,
                (NBTArrayTypeContents::Int(l, _), NBTArrayTypeContents::Int(r, _)) => l@ == r@,
                (NBTArrayTypeContents::Long(l, _), NBTArrayTypeContents::Long(r, _)) => l@ == r@,
                _ => false,
            },
    {
        match (self, other) {
            (NBTArrayTypeContents::Byte(l, ..), NBTArrayTypeContents::Byte(r, ..)) => eq_i8(l, r),
            (NBTArrayTypeContents::Int(l, ..), NBTArrayTypeContents::Int(r, ..)) => eq_i32(l, r),
            (NBTArrayTypeContents::Long(l, ..), NBTArrayTypeContents::Long(r, ..)) => eq_i64(l, r),
            _ => false,
        }
    }
}

} // verus!

verus! {

/// A byte array constant whose declared length is its number of elements
pub fn create_nbyte_array(contents: Vec<i8>) -> (r: NBTArrayTypeContents)
    ensures
        r == NBTArrayTypeContents::Byte(contents, contents@.len() as usize),
{
    let len = contents.len();
    NBTArrayTypeContents::Byte(contents, len)
}

/// An int array constant whose declared length is its number of elements
pub fn create_nint_array(contents: Vec<i32>) -> (r: NBTArrayTypeContents)
    ensures
        r == NBTArrayTypeContents::Int(contents, contents@.len() as usize),
{
    let len = contents.len();
    NBTArrayTypeContents::Int(contents, len)
}

/// A long array constant whose declared length is its number of elements
pub fn create_nlong_array(contents: Vec<i64>) -> (r: NBTArrayTypeContents)
    ensures
        r == NBTArrayTypeContents::Long(contents, contents@.len() as usize),
{
    let len = contents.len();
    NBTArrayTypeContents::Long(contents, len)
}

/// The characters of `s` with a backslash put before every double quote
pub open spec fn escape_quotes(s: Seq<char>) -> Seq<char>
    decreases s.len(),
{
    if s.len() == 0 {
        Seq::empty()
    } else if s.last() == '"' {
        escape_quotes(s.drop_last()) + seq!['\\', '"']
    } else {
        escape_quotes(s.drop_last()).push(s.last())
    }
}

/// Writes a string constant in double quotes, escaping the quotes inside it
pub fn write_string(string: String) -> (r: String)
    ensures
        r@ == seq!['"'] + escape_quotes(string@) + seq!['"'],
{
    let mut out = String::new();
    push_char(&mut out, '"');
    let n = string.as_str().unicode_len();
    let mut i: usize = 0;
    while i < n
        invariant
            n == string@.len(),
            i <= n,
            out@ == seq!['"'] + escape_quotes(string@.take(i as int)),
        decreases n - i,
    {
        let c = string.as_str().get_char(i);
        if c == '"' {
            push_char(&mut out, '\\');
        }
        push_char(&mut out, c);
        proof {
            let t = string@.take(i as int + 1);
            assert(t.drop_last() =~= string@.take(i as int));
            assert(t.last() == c);
        }
        assert(out@ =~= seq!['"'] + escape_quotes(string@.take(i as int + 1)));
        i = i + 1;
    }
    push_char(&mut out, '"');
    assert(string@.take(n as int) =~= string@);
    assert(out@ =~= seq!['"'] + escape_quotes(string@) + seq!['"']);
    out
}


/// Two NBT types that are the same type: the same shape, with the same
/// field names in the same order
pub open spec fn nbt_same(a: NBTType, b: NBTType) -> bool
    decreases a, 1nat,
{
    match a {
        NBTType::List(x) => match b {
            NBTType::List(y) => nbt_same(*x, *y),
            _ => false,
        },
        NBTType::Compound(xf) => match b {
            NBTType::Compound(yf) => fields_same(xf@, yf@),
            _ => false,
        },
        _ => a == b,
    }
}

/// Two field lists with the same names and the same types, in order
pub open spec fn fields_same(xf: Seq<(String, NBTType)>, yf: Seq<(String, NBTType)>) -> bool
    decreases xf, 0nat,
{
    if xf.len() == 0 {
        yf.len() == 0
    } else {
        &&& yf.len() > 0
        &&& fields_same(xf.drop_last(), yf.drop_last())
        &&& xf.last().0@ == yf.last().0@
        &&& nbt_same(xf.last().1, yf.last().1)
    }
}

/// Two data types that are the same type
pub open spec fn ty_same(a: DataType, b: DataType) -> bool {
    match (a, b) {
        (DataType::Score(x), DataType::Score(y)) => x == y,
        (DataType::NBT(x), DataType::NBT(y)) => nbt_same(x, y),
        _ => false,
    }
}

/// Every NBT type is the same as itself
pub proof fn lemma_nbt_same_reflexive(a: NBTType)
    ensures
        nbt_same(a, a),
    decreases a, 1nat,
{
    match a {
        NBTType::List(x) => {
            lemma_nbt_same_reflexive(*x);
        },
        NBTType::Compound(xf) => {
            lemma_fields_same_reflexive(xf@);
        },
        _ => {},
    }
}

proof fn lemma_fields_same_reflexive(xf: Seq<(String, NBTType)>)
    ensures
        fields_same(xf, xf),
    decreases xf, 0nat,
{
    if xf.len() > 0 {
        lemma_fields_same_reflexive(xf.drop_last());
        lemma_nbt_same_reflexive(xf.last().1);
    }
}

/// Sameness of NBT types is transitive
pub proof fn lemma_nbt_same_transitive(a: NBTType, b: NBTType, c: NBTType)
    requires
        nbt_same(a, b),
        nbt_same(b, c),
    ensures
        nbt_same(a, c),
    decreases a, 1nat,
{
    match (a, b, c) {
        (NBTType::List(x), NBTType::List(y), NBTType::List(z)) => lemma_nbt_same_transitive(*x, *y, *z),
        (NBTType::Compound(xf), NBTType::Compound(yf), NBTType::Compound(zf)) => lemma_fields_same_transitive(
            xf@,
            yf@,
            zf@,
        ),
        _ => {},
    }
}

proof fn lemma_fields_same_transitive(
    xf: Seq<(String, NBTType)>,
    yf: Seq<(String, NBTType)>,
    zf: Seq<(String, NBTType)>,
)
    requires
        fields_same(xf, yf),
        fields_same(yf, zf),
    ensures
        fields_same(xf, zf),
    decreases xf, 0nat,
{
    if xf.len() > 0 {
        lemma_fields_same_transitive(xf.drop_last(), yf.drop_last(), zf.drop_last());
        lemma_nbt_same_transitive(xf.last().1, yf.last().1, zf.last().1);
    }
}

/// Sameness of data types is transitive
pub proof fn lemma_ty_same_transitive(a: DataType, b: DataType, c: DataType)
    requires
        ty_same(a, b),
        ty_same(b, c),
    ensures
        ty_same(a, c),
{
    if let (DataType::NBT(x), DataType::NBT(y), DataType::NBT(z)) = (a, b, c) {
        lemma_nbt_same_transitive(x, y, z);
    }
}

/// Field lists that are the same, field by field
pub open spec fn fields_pointwise_same(xf: Seq<(String, NBTType)>, yf: Seq<(String, NBTType)>) -> bool {
    &&& xf.len() == yf.len()
    &&& forall|i: int| 0 <= i < xf.len() ==> #[trigger] xf[i].0@ == yf[i].0@ && nbt_same(xf[i].1, yf[i].1)
}

proof fn lemma_fields_same_pointwise(xf: Seq<(String, NBTType)>, yf: Seq<(String, NBTType)>)
    requires
        fields_same(xf, yf),
    ensures
        fields_pointwise_same(xf, yf),
    decreases xf.len(),
{
    if xf.len() > 0 {
        lemma_fields_same_pointwise(xf.drop_last(), yf.drop_last());
        assert forall|i: int| 0 <= i < xf.len() implies #[trigger] xf[i].0@ == yf[i].0@ && nbt_same(xf[i].1, yf[i].1) by {
            if i < xf.len() - 1 {
                assert(xf.drop_last()[i] == xf[i] && yf.drop_last()[i] == yf[i]);
            }
        }
    }
}

proof fn lemma_first_key_index_same(xf: Seq<(String, NBTType)>, yf: Seq<(String, NBTType)>, key: Seq<char>)
    requires
        fields_pointwise_same(xf, yf),
    ensures
        first_key_index(xf, key) == first_key_index(yf, key),
    decreases xf.len(),
{
    if xf.len() > 0 {
        assert(xf[0].0@ == yf[0].0@);
        assert(fields_pointwise_same(xf.drop_first(), yf.drop_first())) by {
            assert forall|i: int| 0 <= i < xf.drop_first().len() implies #[trigger] xf.drop_first()[i].0@
                == yf.drop_first()[i].0@ && nbt_same(xf.drop_first()[i].1, yf.drop_first()[i].1) by {
                assert(xf[i + 1].0@ == yf[i + 1].0@);
            }
        }
        lemma_first_key_index_same(xf.drop_first(), yf.drop_first(), key);
    }
}

/// Castability does not tell apart types that are the same
pub proof fn lemma_castable_same(x: NBTType, x2: NBTType, y: NBTType, forward: bool)
    requires
        nbt_same(x, x2),
    ensures
        nbt_castable_dir(x, y, forward) == nbt_castable_dir(x2, y, forward),
    decreases x, 1nat,
{
    match (x, x2) {
        (NBTType::List(xi), NBTType::List(xi2)) => {
            if let NBTType::List(yi) = y {
                lemma_castable_same(*xi, *xi2, *yi, forward);
            }
        },
        (NBTType::Compound(xf), NBTType::Compound(xf2)) => {
            if let NBTType::Compound(yf) = y {
                lemma_fields_same_pointwise(xf@, xf2@);
                if forward {
                    lemma_fields_fwd_same(xf@, xf2@, yf@, 0);
                } else {
                    lemma_fields_bwd_same(xf@, xf2@, yf@, 0);
                }
            }
        },
        _ => {},
    }
}

proof fn lemma_fields_fwd_same(xf: Seq<(String, NBTType)>, xf2: Seq<(String, NBTType)>, yf: Seq<(String, NBTType)>, k: int)
    requires
        0 <= k <= xf.len(),
        fields_pointwise_same(xf, xf2),
    ensures
        fields_castable_fwd(xf, yf, k) == fields_castable_fwd(xf2, yf, k),
    decreases xf, xf.len() - k,
{
    if k < xf.len() {
        assert(xf[k].0@ == xf2[k].0@ && nbt_same(xf[k].1, xf2[k].1));
        lemma_first_key_index_same(xf, xf2, xf[k].0@);
        assert(decreases_to!(xf => xf[k]));
        if let Some(j) = first_key_index(yf, xf[k].0@) {
            lemma_castable_same(xf[k].1, xf2[k].1, yf[j].1, false);
        }
        lemma_fields_fwd_same(xf, xf2, yf, k + 1);
    }
}

proof fn lemma_fields_bwd_same(xf: Seq<(String, NBTType)>, xf2: Seq<(String, NBTType)>, yf: Seq<(String, NBTType)>, k: int)
    requires
        0 <= k <= yf.len(),
        fields_pointwise_same(xf, xf2),
    ensures
        fields_castable_bwd(xf, yf, k) == fields_castable_bwd(xf2, yf, k),
    decreases xf, yf.len() - k,
{
    if k < yf.len() {
        lemma_first_key_index_same(xf, xf2, yf[k].0@);
        if let Some(j) = first_key_index(xf, yf[k].0@) {
            lemma_first_key_index(xf, yf[k].0@);
            assert(nbt_same(xf[j].1, xf2[j].1));
            assert(decreases_to!(xf => xf[j]));
            lemma_castable_same(xf[j].1, xf2[j].1, yf[k].1, true);
        }
        lemma_fields_bwd_same(xf, xf2, yf, k + 1);
    }
}

/// Castability of data types does not tell apart types that are the same
pub proof fn lemma_data_castable_same(x: DataType, x2: DataType, y: DataType)
    requires
        ty_same(x, x2),
    ensures
        data_castable(x, y) == data_castable(x2, y),
{
    if let (DataType::NBT(a), DataType::NBT(b)) = (x, x2) {
        if let DataType::NBT(c) = y {
            lemma_castable_same(a, b, c, true);
        }
    }
}

/// Every data type is the same as itself
pub proof fn lemma_ty_same_reflexive(a: DataType)
    ensures
        ty_same(a, a),
{
    if let DataType::NBT(n) = a {
        lemma_nbt_same_reflexive(n);
    }
}

impl NBTType {
    /// A copy of this type
    pub fn copy(&self) -> (r: NBTType)
        ensures
            nbt_same(*self, r),
        decreases self,
    {
        match self {
            NBTType::Byte => NBTType::Byte,
            NBTType::Bool => NBTType::Bool,
            NBTType::Short => NBTType::Short,
            NBTType::Int => NBTType::Int,
            NBTType::Long => NBTType::Long,
            NBTType::Float => NBTType::Float,
            NBTType::Double => NBTType::Double,
            NBTType::String => NBTType::String,
            NBTType::Arr(a) => NBTType::Arr(*a),
            NBTType::Any => NBTType::Any,
            NBTType::List(inner) => NBTType::List(Box::new(inner.copy())),
            NBTType::Compound(fields) => {
                let mut out: Vec<(String, NBTType)> = Vec::new();
                let mut i: usize = 0;
                assert(fields@.take(0) =~= Seq::<(String, NBTType)>::empty());
                while i < fields.len()
                    invariant
                        i <= fields@.len(),
                        *self is Compound && (*self)->Compound_0 == *fields,
                        fields_same(fields@.take(i as int), out@),
                    decreases fields.len() - i,
                {
                    assert(decreases_to!(*self => fields@[i as int].1)) by {
                        assert(decreases_to!(*self => (*self)->Compound_0));
                        assert(decreases_to!(*fields => fields@));
                        assert(decreases_to!(fields@ => fields@[i as int]));
                        assert(decreases_to!(fields@[i as int] => fields@[i as int].1));
                    }
                    let field = (fields[i].0.clone(), fields[i].1.copy());
                    let ghost before = out@;
                    out.push(field);
                    assert(fields@.take(i as int + 1).drop_last() =~= fields@.take(i as int));
                    assert(out@.drop_last() =~= before);
                    i = i + 1;
                }
                assert(fields@.take(fields@.len() as int) =~= fields@);
                NBTType::Compound(out)
            },
        }
    }
}

impl DataType {
    /// A copy of this type
    pub fn copy(&self) -> (r: DataType)
        ensures
            ty_same(*self, r),
    {
        match self {
            DataType::Score(s) => DataType::Score(*s),
            DataType::NBT(n) => DataType::NBT(n.copy()),
        }
    }
}

/// The type of an NBT constant
pub open spec fn nbt_contents_ty(c: NBTTypeContents) -> NBTType {
    match c {
        NBTTypeContents::Byte(_) => NBTType::Byte,
        NBTTypeContents::Bool(_) => NBTType::Bool,
        NBTTypeContents::Short(_) => NBTType::Short,
        NBTTypeContents::Int(_) => NBTType::Int,
        NBTTypeContents::Long(_) => NBTType::Long,
        NBTTypeContents::String(_) => NBTType::String,
        NBTTypeContents::Arr(a) => NBTType::Arr(match a {
            NBTArrayTypeContents::Byte(_, n) => NBTArrayType::Byte(n),
            NBTArrayTypeContents::Int(_, n) => NBTArrayType::Int(n),
            NBTArrayTypeContents::Long(_, n) => NBTArrayType::Long(n),
        }),
        NBTTypeContents::List(t, _) => NBTType::List(Box::new(t)),
    }
}

impl NBTTypeContents {
    /// The type of this constant
    pub fn get_ty(&self) -> (r: DataType)
        ensures
            ty_same(DataType::NBT(nbt_contents_ty(*self)), r),
    {
        match self {
            NBTTypeContents::Byte(..) => DataType::NBT(NBTType::Byte),
            NBTTypeContents::Bool(..) => DataType::NBT(NBTType::Bool),
            NBTTypeContents::Short(..) => DataType::NBT(NBTType::Short),
            NBTTypeContents::Int(..) => DataType::NBT(NBTType::Int),
            NBTTypeContents::Long(..) => DataType::NBT(NBTType::Long),
            NBTTypeContents::String(..) => DataType::NBT(NBTType::String),
            NBTTypeContents::Arr(arr) => arr.get_ty(),
            NBTTypeContents::List(ty, ..) => DataType::NBT(NBTType::List(Box::new(ty.copy()))),
        }
    }
}

/// Constant contents of any type
#[derive(Debug)]
pub enum DataTypeContents {
    Score(ScoreTypeContents),
    NBT(NBTTypeContents),
}

/// The type of a constant
pub open spec fn contents_ty(c: DataTypeContents) -> DataType {
    match c {
        DataTypeContents::Score(s) => DataType::Score(match s {
            ScoreTypeContents::Score(_) => ScoreType::Score,
            ScoreTypeContents::UScore(_) => ScoreType::UScore,
            ScoreTypeContents::Bool(_) => ScoreType::Bool,
        }),
        DataTypeContents::NBT(n) => DataType::NBT(nbt_contents_ty(n)),
    }
}

/// The number of a constant, where it is an integer that fits in an `i32`
pub open spec fn contents_i32(c: DataTypeContents) -> Option<i32> {
    match c {
        DataTypeContents::Score(s) => Some(score_contents_value(s) as i32),
        DataTypeContents::NBT(n) => match n {
            NBTTypeContents::Byte(v) => Some(v as i32),
            NBTTypeContents::Bool(b) => Some(if b { 1i32 } else { 0i32 }),
            NBTTypeContents::Short(v) => Some(v as i32),
            NBTTypeContents::Int(v) => Some(v),
            NBTTypeContents::Long(v) => if i32::MIN <= v <= i32::MAX { Some(v as i32) } else { None },
            _ => None,
        },
    }
}

impl DataTypeContents {
    /// The number of this constant, where it is an integer that fits in an
    /// `i32`
    pub fn try_get_i32(&self) -> (r: Option<i32>)
        ensures
            r == contents_i32(*self),
    {
        match self {
            DataTypeContents::Score(s) => Some(s.get_i32()),
            DataTypeContents::NBT(n) => match n {
                NBTTypeContents::Byte(v) => Some(*v as i32),
                NBTTypeContents::Bool(b) => Some(if *b { 1 } else { 0 }),
                NBTTypeContents::Short(v) => Some(*v as i32),
                NBTTypeContents::Int(v) => Some(*v),
                NBTTypeContents::Long(v) => if i32::MIN as i64 <= *v && *v <= i32::MAX as i64 {
                    Some(*v as i32)
                } else {
                    None
                },
                _ => None,
            },
        }
    }

    /// The type of this constant
    pub fn get_ty(&self) -> (r: DataType)
        ensures
            ty_same(contents_ty(*self), r),
    {
        match self {
            DataTypeContents::Score(score) => score.get_ty(),
            DataTypeContents::NBT(nbt) => nbt.get_ty(),
        }
    }
}

} // verus!
