//! Places and sizes on a canvas.
//!
//! A coordinate is a single-precision number. It is held by its bits, which
//! are enough to keep it and to compare it; who computes with coordinates
//! turns the bits into numbers and back.
use vstd::prelude::*;

verus! {

/// A single-precision number, by its bits.
#[derive(Clone, Copy, Debug, PartialEq, Eq, Structural)]
pub struct Scalar {
    pub bits: u32,
}

/// The bits without the sign.
pub open spec fn unsigned_bits(bits: u32) -> int {
    if bits >= 0x8000_0000 {
        bits - 0x8000_0000
    } else {
        bits as int
    }
}

impl Scalar {
    /// It is no number.
    pub open spec fn nan(self) -> bool {
        unsigned_bits(self.bits) > 0x7f80_0000
    }

    /// Numbers are ordered as their ranks are. The two zeros have one rank.
    pub open spec fn rank(self) -> int {
        if self.bits >= 0x8000_0000 {
            -unsigned_bits(self.bits)
        } else {
            unsigned_bits(self.bits)
        }
    }

    /// Neither is a NaN, and `self` is not above `other`.
    pub open spec fn le_spec(self, other: Scalar) -> bool {
        !self.nan() && !other.nan() && self.rank() <= other.rank()
    }

    /// The number raised to `low` if it is below, and lowered to `high` if it
    /// is above. A NaN stays one.
    pub open spec fn clamp_spec(self, low: Scalar, high: Scalar) -> Scalar {
        if self.nan() {
            self
        } else if self.rank() < low.rank() {
            low
        } else if self.rank() > high.rank() {
            high
        } else {
            self
        }
    }

    /// The number raised to `low` if it is below or a NaN.
    pub open spec fn at_least_spec(self, low: Scalar) -> Scalar {
        if self.nan() || self.rank() < low.rank() {
            low
        } else {
            self
        }
    }

    fn magnitude_bits(self) -> (m: u32)
        ensures
            m == unsigned_bits(self.bits),
    {
        if self.bits >= 0x8000_0000 {
            self.bits - 0x8000_0000
        } else {
            self.bits
        }
    }

    /// Whether it is no number.
    pub fn is_nan(self) -> (r: bool)
        ensures
            r == self.nan(),
    {
        self.magnitude_bits() > 0x7f80_0000
    }

    fn order(self) -> (r: i64)
        ensures
            r == self.rank(),
    {
        if self.bits >= 0x8000_0000 {
            -(self.magnitude_bits() as i64)
        } else {
            self.bits as i64
        }
    }

    /// Whether neither is a NaN and `self` is not above `other`.
    pub fn le(self, other: Scalar) -> (r: bool)
        ensures
            r == self.le_spec(other),
    {
        !self.is_nan() && !other.is_nan() && self.order() <= other.order()
    }

    /// Brings a number between `low` and `high`.
    pub fn clamp(self, low: Scalar, high: Scalar) -> (r: Scalar)
        requires
            !low.nan(),
            !high.nan(),
            low.rank() <= high.rank(),
        ensures
            r == self.clamp_spec(low, high),
    {
        if self.is_nan() {
            self
        } else if self.order() < low.order() {
            low
        } else if self.order() > high.order() {
            high
        } else {
            self
        }
    }

    /// Raises a number to `low`.
    pub fn at_least(self, low: Scalar) -> (r: Scalar)
        requires
            !low.nan(),
        ensures
            r == self.at_least_spec(low),
    {
        if self.is_nan() || self.order() < low.order() {
            low
        } else {
            self
        }
    }
}

/// A clamped number lies in the range unless it is a NaN, and clamping it
/// again changes nothing.
pub proof fn clamp_stays_in_range(x: Scalar, low: Scalar, high: Scalar)
    requires
        !low.nan(),
        !high.nan(),
        low.rank() <= high.rank(),
    ensures
        ({
            let r = x.clamp_spec(low, high);
            &&& r.nan() || low.le_spec(r) && r.le_spec(high)
            &&& r.clamp_spec(low, high) == r
        }),
{
}

/// A place on a canvas or on the screen.
#[derive(Clone, Copy, Debug, PartialEq, Eq, Structural)]
pub struct Point {
    pub x: Scalar,
    pub y: Scalar,
}

/// A width and a height, or a shift.
#[derive(Clone, Copy, Debug, PartialEq, Eq, Structural)]
pub struct Extent {
    pub x: Scalar,
    pub y: Scalar,
}

/// The place with these bits.
pub open spec fn point(x: u32, y: u32) -> Point {
    Point { x: Scalar { bits: x }, y: Scalar { bits: y } }
}

/// The extent with these bits.
pub open spec fn extent(x: u32, y: u32) -> Extent {
    Extent { x: Scalar { bits: x }, y: Scalar { bits: y } }
}

/// The place with these bits.
pub fn point_of(x: u32, y: u32) -> (p: Point)
    ensures
        p == point(x, y),
{
    Point { x: Scalar { bits: x }, y: Scalar { bits: y } }
}

/// The extent with these bits.
pub fn extent_of(x: u32, y: u32) -> (e: Extent)
    ensures
        e == extent(x, y),
{
    Extent { x: Scalar { bits: x }, y: Scalar { bits: y } }
}

/// An upright rectangle, with its edges.
#[derive(Clone, Copy, Debug, PartialEq, Eq, Structural)]
pub struct Area {
    pub min: Point,
    pub max: Point,
}

impl Area {
    /// The place lies in the rectangle.
    pub open spec fn covers(self, p: Point) -> bool {
        &&& self.min.x.le_spec(p.x)
        &&& p.x.le_spec(self.max.x)
        &&& self.min.y.le_spec(p.y)
        &&& p.y.le_spec(self.max.y)
    }

    /// Whether a place lies in the rectangle.
    pub fn contains(&self, p: Point) -> (r: bool)
        ensures
            r == self.covers(p),
    {
        self.min.x.le(p.x) && p.x.le(self.max.x) && self.min.y.le(p.y) && p.y.le(self.max.y)
    }
}

/// The order of the numbers by their bits: of two that are not negative the one
/// with the greater bits is greater, of two negative ones it is less, negative
/// ones are not above the others, and only the two zeros are equal with
/// different bits. Bits past infinity are no number.
pub proof fn bits_order_numbers(a: u32, b: u32)
    requires
        a < b <= 0x7f80_0000,
    ensures
        ({
            let x = Scalar { bits: a };
            let y = Scalar { bits: b };
            let minus_x = Scalar { bits: (a + 0x8000_0000) as u32 };
            let minus_y = Scalar { bits: (b + 0x8000_0000) as u32 };
            &&& x.le_spec(y) && !y.le_spec(x)
            &&& minus_y.le_spec(minus_x) && !minus_x.le_spec(minus_y)
            &&& minus_x.le_spec(x) && (x.le_spec(minus_x) <==> a == 0)
            &&& minus_y.le_spec(x) && !x.le_spec(minus_y)
            &&& minus_x.le_spec(y) && !y.le_spec(minus_x)
            &&& x.le_spec(x) && minus_y.le_spec(minus_y)
        }),
        forall|n: u32|
            (Scalar { bits: n }).nan() <==> 0x7f80_0000 < n < 0x8000_0000 || n > 0xff80_0000,
{
}

/// Numbers that are compared are ordered: any two one way or the other, and in
/// a chain. What is no number compares with nothing.
pub proof fn numbers_are_ordered(x: Scalar, y: Scalar, z: Scalar)
    ensures
        !x.nan() && !y.nan() ==> x.le_spec(y) || y.le_spec(x),
        x.le_spec(y) && y.le_spec(z) ==> x.le_spec(z),
        x.nan() || y.nan() ==> !x.le_spec(y),
{
}

/// Clamping leaves a number in the range as it is, and brings one outside to
/// the nearer end. Raising to a least number leaves one above it as it is.
pub proof fn clamping_changes_as_little_as_possible(x: Scalar, low: Scalar, high: Scalar)
    requires
        low.le_spec(high),
    ensures
        low.le_spec(x) && x.le_spec(high) ==> x.clamp_spec(low, high) == x,
        !x.nan() && !low.le_spec(x) ==> x.clamp_spec(low, high) == low,
        !x.nan() && !x.le_spec(high) ==> x.clamp_spec(low, high) == high,
        x.nan() ==> x.clamp_spec(low, high) == x,
        low.le_spec(x) ==> x.at_least_spec(low) == x,
        !low.le_spec(x) ==> x.at_least_spec(low) == low,
{
}

/// A rectangle holds the places between its edges, the edges included, and no
/// others.
pub proof fn areas_hold_what_is_between(area: Area, p: Point)
    ensures
        area.covers(p) <==> {
            &&& area.min.x.le_spec(p.x) && p.x.le_spec(area.max.x)
            &&& area.min.y.le_spec(p.y) && p.y.le_spec(area.max.y)
        },
{
}

/// A place and an extent hold the coordinates that they were made of.
pub proof fn coordinates_are_kept(x: u32, y: u32)
    ensures
        point(x, y).x.bits == x && point(x, y).y.bits == y,
        extent(x, y).x.bits == x && extent(x, y).y.bits == y,
{
}

} // verus!
