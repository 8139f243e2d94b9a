use vstd::prelude::*;

verus! {

/// The bounded fields of the product, named in range failures.
#[derive(Debug, Clone, Copy, PartialEq, Eq, Structural)]
pub enum Field {
    BlockDivider,
    Latitude,
    Longitude,
    OperationalMode,
    PrecipDetected,
    ScanNumber,
    RadialComponentType,
    BinSize,
    NumRadials,
    Azimuth,
    Elevation,
    Width,
    NumBins,
}

/// The value found in a field that failed its check.
#[derive(Debug, Clone, Copy, PartialEq, Eq, Structural)]
pub enum Observed {
    /// An integer field.
    Int(i64),
    /// A single-precision float field, as its IEEE-754 bit pattern.
    Float(u32),
}

/// Why a product could not be decoded.
///
/// Every failure is terminal: decoding yields either one complete product or one of these.
#[derive(Debug, Clone, Copy, PartialEq, Eq, Structural)]
pub enum DiprError {
    /// The operational-mode code is not 0, 1 or 2.
    InvalidOperationalMode(i16),
    /// The capture timestamp is not a representable instant. Every whole number of seconds
    /// that fits in a `u32` is representable, so decoding never fails this way.
    InvalidCaptureTime(u32),
    /// The compressed payload could not be decompressed.
    DecompressionFailed,
    /// A text field is not valid UTF-8.
    InvalidUtf8String,
    /// A bounded field lies outside its inclusive interval.
    ValueOutOfRange(Field, Observed),
    /// The symbology block has a component count other than one.
    Unsupported(i32),
    /// Fewer bytes remain than the next read needs.
    TruncatedInput,
}

/// Another name for [`DiprError`].
pub type DprError = DiprError;

} // verus!
