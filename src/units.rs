use vstd::prelude::*;

verus! {

/// An angle in degrees, held as the IEEE-754 single-precision pattern read from the product.
#[derive(Debug, Clone, Copy, PartialEq, Eq, Structural)]
pub struct Degrees {
    pub bits: u32,
}

/// A length in meters, held as the IEEE-754 single-precision pattern read from the product.
#[derive(Debug, Clone, Copy, PartialEq, Eq, Structural)]
pub struct Meters {
    pub bits: u32,
}

/// A precipitation rate in thousandths of an inch per hour: exactly the raw sample, so a
/// rate is never negative.
#[derive(Debug, Clone, Copy, PartialEq, Eq, Structural)]
pub struct Velocity {
    pub thousandths_inch_per_hour: u16,
}

/// An angle in thousandths of a degree, the fixed-point form of the product's coordinates.
#[derive(Debug, Clone, Copy, PartialEq, Eq, Structural)]
pub struct MilliDegrees {
    pub thousandths: i32,
}

/// A station position; the horizontal coordinate (longitude) comes first.
#[derive(Debug, Clone, Copy, PartialEq, Eq, Structural)]
pub struct Location {
    pub longitude: MilliDegrees,
    pub latitude: MilliDegrees,
}

/// An absolute UTC instant, in seconds since 1970-01-01T00:00:00Z.
#[derive(Debug, Clone, Copy, PartialEq, Eq, Structural)]
pub struct CaptureTime {
    pub unix_seconds: u32,
}

} // verus!
