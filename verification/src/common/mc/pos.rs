//! Block positions: absolute, relative and local coordinates.
use vstd::prelude::*;

use crate::strutil::{push_char, push_decimal_i64};

verus! {

/// One coordinate, either absolute or relative to where the command runs
#[derive(Debug, Clone, Copy, PartialEq, Eq, Structural)]
pub enum AbsOrRelCoord {
    Abs(i64),
    Rel(i64),
}

impl AbsOrRelCoord {
    pub fn is_rel(&self) -> (r: bool)
        ensures
            r == (*self is Rel),
    {
        matches!(self, AbsOrRelCoord::Rel(..))
    }

    /// Whether this is a relative coordinate of zero; absolute zero is not
    pub open spec fn spec_is_relative_zero(self) -> bool {
        self == AbsOrRelCoord::Rel(0)
    }

    /// Whether this is a relative coordinate of zero; absolute zero is not
    pub fn is_relative_zero(&self) -> (r: bool)
        ensures
            r == self.spec_is_relative_zero(),
    {
        matches!(self, AbsOrRelCoord::Rel(val) if *val == 0)
    }

    pub fn is_value_eq(&self, other: &Self) -> (r: bool)
        ensures
            r == (*self == *other),
    {
        match (self, other) {
            (AbsOrRelCoord::Abs(l), AbsOrRelCoord::Abs(r)) => *l == *r,
            (AbsOrRelCoord::Rel(l), AbsOrRelCoord::Rel(r)) => *l == *r,
            _ => false,
        }
    }

    /// The text of this coordinate in a command: the number, or `~` and the
    /// offset where it is not zero
    pub open spec fn text(self) -> Seq<char> {
        match self {
            AbsOrRelCoord::Abs(v) => crate::strutil::decimal_int(v as int),
            AbsOrRelCoord::Rel(v) => seq!['~'] + offset_text(v),
        }
    }

    /// Appends this coordinate as it appears in a command
    pub fn push_codegen(&self, out: &mut String)
        ensures
            final(out)@ == old(out)@ + self.text(),
    {
        match self {
            AbsOrRelCoord::Abs(v) => push_decimal_i64(out, *v),
            AbsOrRelCoord::Rel(v) => {
                push_char(out, '~');
                push_offset(out, *v);
                assert(final(out)@ =~= old(out)@ + self.text());
            },
        }
    }

    /// Writes this coordinate as it appears in a command
    pub fn codegen_str(&self) -> (r: String)
        ensures
            r@ == self.text(),
    {
        let mut out = String::new();
        self.push_codegen(&mut out);
        assert(out@ =~= self.text());
        out
    }
}

/// An offset after `~` or `^`: nothing for zero, else the number
pub open spec fn offset_text(v: i64) -> Seq<char> {
    if v == 0 {
        Seq::empty()
    } else {
        crate::strutil::decimal_int(v as int)
    }
}

fn push_offset(out: &mut String, v: i64)
    ensures
        final(out)@ == old(out)@ + offset_text(v),
{
    if v != 0 {
        push_decimal_i64(out, v);
    } else {
        assert(old(out)@ + offset_text(v) =~= old(out)@);
    }
}

/// A position in the world
#[derive(Debug, Clone, Copy, PartialEq, Eq, Structural)]
pub enum Coordinates {
    XYZ(AbsOrRelCoord, AbsOrRelCoord, AbsOrRelCoord),
    Local(i64, i64, i64),
}

/// Block coordinates
pub type IntCoordinates = Coordinates;

impl Coordinates {
    /// Absolute coordinates at 0 0 0
    pub fn origin() -> (r: Self)
        ensures
            r == Coordinates::XYZ(AbsOrRelCoord::Abs(0), AbsOrRelCoord::Abs(0), AbsOrRelCoord::Abs(0)),
    {
        Self::absolute(0, 0, 0)
    }

    /// Fully absolute coordinates
    pub fn absolute(x: i64, y: i64, z: i64) -> (r: Self)
        ensures
            r == Coordinates::XYZ(AbsOrRelCoord::Abs(x), AbsOrRelCoord::Abs(y), AbsOrRelCoord::Abs(z)),
    {
        Coordinates::XYZ(AbsOrRelCoord::Abs(x), AbsOrRelCoord::Abs(y), AbsOrRelCoord::Abs(z))
    }

    /// Relative coordinates at ~ ~ ~
    pub fn here() -> (r: Self)
        ensures
            r == Coordinates::XYZ(AbsOrRelCoord::Rel(0), AbsOrRelCoord::Rel(0), AbsOrRelCoord::Rel(0)),
    {
        Self::relative(0, 0, 0)
    }

    /// Fully relative coordinates
    pub fn relative(x: i64, y: i64, z: i64) -> (r: Self)
        ensures
            r == Coordinates::XYZ(AbsOrRelCoord::Rel(x), AbsOrRelCoord::Rel(y), AbsOrRelCoord::Rel(z)),
    {
        Coordinates::XYZ(AbsOrRelCoord::Rel(x), AbsOrRelCoord::Rel(y), AbsOrRelCoord::Rel(z))
    }

    /// Whether these coordinates name the place where the command runs
    pub open spec fn spec_are_zero(self) -> bool {
        match self {
            Coordinates::XYZ(x, y, z) => x.spec_is_relative_zero() && y.spec_is_relative_zero()
                && z.spec_is_relative_zero(),
            Coordinates::Local(a, b, c) => a == 0 && b == 0 && c == 0,
        }
    }

    /// Whether these coordinates name the place where the command runs
    pub fn are_zero(&self) -> (r: bool)
        ensures
            r == self.spec_are_zero(),
    {
        match self {
            Coordinates::XYZ(x, y, z) => x.is_relative_zero() && y.is_relative_zero()
                && z.is_relative_zero(),
            Coordinates::Local(a, b, c) => *a == 0 && *b == 0 && *c == 0,
        }
    }

    pub open spec fn value_eq(&self, other: &Self) -> bool {
        *self == *other
    }

    pub fn is_value_eq(&self, other: &Self) -> (r: bool)
        ensures
            r == self.value_eq(other),
    {
        match (self, other) {
            (Coordinates::XYZ(x1, y1, z1), Coordinates::XYZ(x2, y2, z2)) => x1.is_value_eq(x2)
                && y1.is_value_eq(y2) && z1.is_value_eq(z2),
            (Coordinates::Local(x1, y1, z1), Coordinates::Local(x2, y2, z2)) => *x1 == *x2 && *y1
                == *y2 && *z1 == *z2,
            _ => false,
        }
    }

    /// The text of these coordinates in a command
    pub open spec fn text(self) -> Seq<char> {
        match self {
            Coordinates::XYZ(x, y, z) => x.text() + seq![' '] + y.text() + seq![' '] + z.text(),
            Coordinates::Local(a, b, c) => seq!['^'] + offset_text(a) + seq![' ', '^'] + offset_text(
                b,
            ) + seq![' ', '^'] + offset_text(c),
        }
    }

    /// Writes these coordinates as they appear in a command
    pub fn codegen_str(&self) -> (r: String)
        ensures
            r@ == self.text(),
    {
        let mut out = String::new();
        match self {
            Coordinates::XYZ(x, y, z) => {
                x.push_codegen(&mut out);
                push_char(&mut out, ' ');
                y.push_codegen(&mut out);
                push_char(&mut out, ' ');
                z.push_codegen(&mut out);
            },
            Coordinates::Local(a, b, c) => {
                push_char(&mut out, '^');
                push_offset(&mut out, *a);
                push_char(&mut out, ' ');
                push_char(&mut out, '^');
                push_offset(&mut out, *b);
                push_char(&mut out, ' ');
                push_char(&mut out, '^');
                push_offset(&mut out, *c);
            },
        }
        assert(out@ =~= self.text());
        out
    }
}

/// A position on the horizontal plane
#[derive(Debug, Clone, Copy, PartialEq, Eq, Structural)]
pub struct Coordinates2D(pub AbsOrRelCoord, pub AbsOrRelCoord);

/// Block coordinates on the horizontal plane
pub type IntCoordinates2D = Coordinates2D;

impl Coordinates2D {
    pub fn new(x: AbsOrRelCoord, y: AbsOrRelCoord) -> (r: Self)
        ensures
            r == Coordinates2D(x, y),
    {
        Coordinates2D(x, y)
    }

    /// Whether these coordinates name the place where the command runs
    pub fn are_zero(&self) -> (r: bool)
        ensures
            r == (self.0.spec_is_relative_zero() && self.1.spec_is_relative_zero()),
    {
        self.0.is_relative_zero() && self.1.is_relative_zero()
    }

    pub fn is_value_eq(&self, other: &Self) -> (r: bool)
        ensures
            r == (*self == *other),
    {
        self.0.is_value_eq(&other.0) && self.1.is_value_eq(&other.1)
    }

    /// The text of these coordinates in a command
    pub open spec fn text(self) -> Seq<char> {
        self.0.text() + seq![' '] + self.1.text()
    }

    /// Writes these coordinates as they appear in a command
    pub fn codegen_str(&self) -> (r: String)
        ensures
            r@ == self.text(),
    {
        let mut out = String::new();
        self.0.push_codegen(&mut out);
        push_char(&mut out, ' ');
        self.1.push_codegen(&mut out);
        assert(out@ =~= self.text());
        out
    }
}

/// An axis of the world
#[derive(Debug, Clone, Copy, PartialEq, Eq, Structural)]
pub enum Axis {
    X,
    Y,
    Z,
}

impl Axis {
    /// The text that commands use for this value
    pub open spec fn text(self) -> Seq<char> {
        match self {
            Axis::X => seq!['x'],
            Axis::Y => seq!['y'],
            Axis::Z => seq!['z'],
        }
    }

    /// The text that commands use for this value
    pub fn codegen_str(&self) -> (r: &'static str)
        ensures
            r@ == self.text(),
    {
        match self {
            Axis::X => {
                proof {
                    reveal_strlit("x");
                }
                "x"
            },
            Axis::Y => {
                proof {
                    reveal_strlit("y");
                }
                "y"
            },
            Axis::Z => {
                proof {
                    reveal_strlit("z");
                }
                "z"
            },
        }
    }
}

} // verus!
