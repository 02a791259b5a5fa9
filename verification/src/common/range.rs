//! Inclusive integer ranges, as used in score checks and selector arguments.
use vstd::prelude::*;

verus! {

/// One end of a range: a number, or no bound
#[derive(Clone, Copy, PartialEq, Eq, Debug, Structural)]
pub enum RangeEnd {
    Value(i32),
    Infinite,
}

/// Which side of a range an end is on
#[derive(Clone, Copy, PartialEq, Eq, Debug, Structural)]
pub enum RangeSide {
    Left,
    Right,
}

/// An inclusive integer range with the ability to have
/// an infinite value on both sides
#[derive(Clone, Copy, PartialEq, Eq, Debug, Structural)]
pub struct Range {
    pub left: RangeEnd,
    pub right: RangeEnd,
}

/// Ranges over scores
pub type IntRange = Range;

/// `a` lies to the right of `b`, for `a` on the right of a range and `b` on its left
pub open spec fn end_larger(a: RangeEnd, b: RangeEnd) -> bool {
    match (a, b) {
        (_, RangeEnd::Infinite) => true,
        (RangeEnd::Infinite, _) => true,
        (RangeEnd::Value(r), RangeEnd::Value(l)) => r > l,
    }
}

/// The number that an end stands for on a given side
pub open spec fn end_value(e: RangeEnd, side: RangeSide) -> int {
    match e {
        RangeEnd::Value(v) => v as int,
        RangeEnd::Infinite => match side {
            RangeSide::Left => -(i32::MAX as int),
            RangeSide::Right => i32::MAX as int,
        },
    }
}

/// An end that has no bound, or whose number is as large as a bound can be
pub open spec fn end_infinite(e: RangeEnd) -> bool {
    match e {
        RangeEnd::Infinite => true,
        RangeEnd::Value(v) => v == i32::MAX || v == -i32::MAX,
    }
}

/// An end whose magnitude can be computed, which is every end but `i32::MIN`
pub open spec fn end_ok(e: RangeEnd) -> bool {
    e != RangeEnd::Value(i32::MIN)
}

/// A range whose ends are both well formed
pub open spec fn range_ok(r: Range) -> bool {
    end_ok(r.left) && end_ok(r.right)
}

/// The range with its ends swapped
pub open spec fn flipped(r: Range) -> Range {
    Range { left: r.right, right: r.left }
}

/// The range with its smaller end on the left
pub open spec fn canonical(r: Range) -> Range {
    if end_larger(r.right, r.left) {
        r
    } else {
        flipped(r)
    }
}

/// The range with a double infinite turned into `..i32::MAX`
pub open spec fn single_infinite(r: Range) -> Range {
    if end_infinite(r.left) && end_infinite(r.right) {
        Range { left: RangeEnd::Infinite, right: RangeEnd::Value(i32::MAX) }
    } else {
        r
    }
}

impl RangeSide {
    /// Gets the sign of this side for infinite
    pub fn sign(&self) -> (r: i32)
        ensures
            r == (match *self {
                RangeSide::Left => -1i32,
                RangeSide::Right => 1i32,
            }),
    {
        match self {
            RangeSide::Left => -1,
            RangeSide::Right => 1,
        }
    }
}

impl RangeEnd {
    /// Creates a new RangeEnd with the infinite value
    pub fn infinite_val() -> (r: Self)
        ensures
            r == RangeEnd::Value(i32::MAX),
    {
        RangeEnd::Value(i32::MAX)
    }

    /// Checks if larger than the other end. This end must be on the right
    pub fn larger(&self, other: &Self) -> (r: bool)
        ensures
            r == end_larger(*self, *other),
    {
        match (self, other) {
            (RangeEnd::Value(..) | RangeEnd::Infinite, RangeEnd::Infinite) => true,
            (RangeEnd::Value(r), RangeEnd::Value(l)) => *r > *l,
            (RangeEnd::Infinite, ..) => true,
        }
    }

    /// Gets the value of this end
    pub fn get_val(&self, side: RangeSide) -> (r: i32)
        ensures
            r as int == end_value(*self, side),
    {
        match self {
            RangeEnd::Value(val) => *val,
            RangeEnd::Infinite => i32::MAX * side.sign(),
        }
    }

    /// Checks whether this end is infinite or effectively infinite
    pub fn is_infinite(&self) -> (r: bool)
        requires
            end_ok(*self),
        ensures
            r == end_infinite(*self),
    {
        match self {
            RangeEnd::Infinite => true,
            RangeEnd::Value(val) => {
                let magnitude = if *val < 0 {
                    -*val
                } else {
                    *val
                };
                magnitude == i32::MAX
            },
        }
    }

    /// The end as it is written in a range: its number, or nothing
    pub fn gen_str(&self) -> (r: String)
        ensures
            r@ == (match *self {
                RangeEnd::Value(v) => crate::strutil::decimal_int(v as int),
                RangeEnd::Infinite => Seq::empty(),
            }),
    {
        match self {
            RangeEnd::Value(val) => crate::strutil::i64_to_string(*val as i64),
            RangeEnd::Infinite => String::new(),
        }
    }
}

/// How a range is written in a command: a single number when the range,
/// once canonical, holds one number; otherwise `left..right` with an
/// infinite end left out
pub open spec fn range_text(r: Range) -> Seq<char> {
    let c = single_infinite(canonical(r));
    if c.left == c.right {
        crate::strutil::decimal_int(end_value(c.left, RangeSide::Left))
    } else {
        end_text(r.left) + seq!['.', '.'] + end_text(r.right)
    }
}

/// How one end of a range is written
pub open spec fn end_text(e: RangeEnd) -> Seq<char> {
    match e {
        RangeEnd::Value(v) => crate::strutil::decimal_int(v as int),
        RangeEnd::Infinite => Seq::empty(),
    }
}

impl Range {
    /// Canonicalize this range so that the smaller number is on the left
    pub fn canonicalize(self) -> (r: Self)
        ensures
            r == canonical(self),
    {
        if self.right.larger(&self.left) {
            self
        } else {
            self.flip()
        }
    }

    /// Prepare this range for codegen by changing a double infinite into a single infinite
    pub fn make_single_infinite(self) -> (r: Self)
        requires
            range_ok(self),
        ensures
            r == single_infinite(self),
    {
        if self.is_infinite() {
            Range { left: RangeEnd::Infinite, right: RangeEnd::infinite_val() }
        } else {
            self
        }
    }

    /// Flip this range
    pub fn flip(self) -> (r: Self)
        ensures
            r == flipped(self),
    {
        Range { left: self.right, right: self.left }
    }

    /// Tries to get a single number from this range if it is exactly one long
    pub fn get_single(&self) -> (r: Option<i32>)
        ensures
            r == (if self.left == self.right {
                Some(end_value(self.left, RangeSide::Left) as i32)
            } else {
                None
            }),
    {
        if self.left == self.right {
            Some(self.left.get_val(RangeSide::Left))
        } else {
            None
        }
    }

    /// Checks if this range is fully infinite
    pub fn is_infinite(&self) -> (r: bool)
        requires
            range_ok(*self),
        ensures
            r == (end_infinite(self.left) && end_infinite(self.right)),
    {
        self.left.is_infinite() && self.right.is_infinite()
    }

    /// Get the amount of integers in this range
    pub fn len(&self) -> (r: i32)
        requires
            i32::MIN < end_value(self.right, RangeSide::Right) - end_value(self.left, RangeSide::Left)
                + 1 <= i32::MAX,
            end_value(self.right, RangeSide::Right) - end_value(self.left, RangeSide::Left)
                >= i32::MIN,
        ensures
            ({
                let n = end_value(self.right, RangeSide::Right) - end_value(self.left, RangeSide::Left)
                    + 1;
                r as int == if n < 0 {
                    -n
                } else {
                    n
                }
            }),
    {
        // Add one since its inclusive on both sides
        let n = self.right.get_val(RangeSide::Right) - self.left.get_val(RangeSide::Left) + 1;
        if n < 0 {
            -n
        } else {
            n
        }
    }

    /// The range as it is written in a command
    pub fn gen_str(&self) -> (r: String)
        requires
            range_ok(*self),
        ensures
            r@ == range_text(*self),
    {
        let range = self.canonicalize().make_single_infinite();
        if let Some(single) = range.get_single() {
            crate::strutil::i64_to_string(single as i64)
        } else {
            let mut out = self.left.gen_str();
            crate::strutil::push_char(&mut out, '.');
            crate::strutil::push_char(&mut out, '.');
            let right = self.right.gen_str();
            crate::strutil::push_str(&mut out, right.as_str());
            assert(out@ =~= end_text(self.left) + seq!['.', '.'] + end_text(self.right));
            out
        }
    }
}

/// Flipping a range twice gives it back
pub proof fn lemma_flip_involution(r: Range)
    ensures
        flipped(flipped(r)) == r,
{
}

/// A canonical range stays as it is when canonicalized again
pub proof fn lemma_canonicalize_idempotent(r: Range)
    ensures
        canonical(canonical(r)) == canonical(r),
{
}

/// After canonicalization, the number on the left is at most the number on the right
pub proof fn lemma_canonical_ordered(r: Range)
    ensures
        ({
            let c = canonical(r);
            c.left is Value && c.right is Value ==> c.left->0 <= c.right->0
        }),
{
}

/// Turning a double infinite into a single infinite twice is the same as doing it once
pub proof fn lemma_single_infinite_idempotent(r: Range)
    ensures
        single_infinite(single_infinite(r)) == single_infinite(r),
{
}

} // verus!
