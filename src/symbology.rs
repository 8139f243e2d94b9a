use vstd::prelude::*;

use crate::error::{DiprError, Field, Observed};
use crate::radials::{radials, radials_view, spec_radials, Radial, RadialView, F32_ZERO};
use crate::reader::{
    be_i32_at, be_u32_at, check_f32_range, check_range_inclusive, check_value, f32_in_range,
    spec_take_string, take_bytes, take_i32, take_string, take_u32,
};
use crate::units::{CaptureTime, Meters};

verus! {

/// Bit pattern of 1000.0.
pub const F32_ONE_THOUSAND: u32 = 0x447a_0000;

/// The largest number of radials in one product.
pub const MAX_RADIALS: i32 = 800;

/// The largest scan number.
pub const MAX_SCAN_NUMBER: i32 = 80;

/// The symbology block: the scan's metadata and its radials.
#[derive(Debug)]
pub struct ProductSymbology {
    /// Distance from the station to the center of the nearest bin.
    pub range_to_first_bin: Meters,
    /// Radial length of one bin, 0 to 1000 meters.
    pub bin_size: Meters,
    /// Counter that tells scans apart, 1 to 80.
    pub scan_number: u8,
    /// When the scan began.
    pub capture_time: CaptureTime,
    pub radials: Vec<Radial>,
}

/// What a [`ProductSymbology`] holds, with its radials as a sequence of views.
pub struct SymbologyView {
    pub range_to_first_bin: Meters,
    pub bin_size: Meters,
    pub scan_number: u8,
    pub capture_time: CaptureTime,
    pub radials: Seq<RadialView>,
}

impl View for ProductSymbology {
    type V = SymbologyView;

    open spec fn view(&self) -> SymbologyView {
        SymbologyView {
            range_to_first_bin: self.range_to_first_bin,
            bin_size: self.bin_size,
            scan_number: self.scan_number,
            capture_time: self.capture_time,
            radials: radials_view(self.radials@),
        }
    }
}

/// The headers in front of the radial component: 24 bytes of headers, the name and
/// description text fields, 12 reserved bytes, the radar-name text field, 12 reserved bytes,
/// the capture time (`u32`, Unix seconds), 8 reserved bytes, the scan number (`i32`,
/// 1..=80), 24 reserved bytes, the component count (`i32`, which must be 1) and one 8-byte
/// component slot. On success, the capture time, the scan number and the position after the
/// slot.
pub open spec fn spec_symbology_header(s: Seq<u8>) -> Result<(CaptureTime, u8, int), DiprError> {
    if s.len() < 24 {
        Err(DiprError::TruncatedInput)
    } else {
        match spec_take_string(s, 24) {
            Err(e) => Err(e),
            Ok((_, q1)) => match spec_take_string(s, q1) {
                Err(e) => Err(e),
                Ok((_, q2)) => if s.len() < q2 + 12 {
                    Err(DiprError::TruncatedInput)
                } else {
                    match spec_take_string(s, q2 + 12) {
                        Err(e) => Err(e),
                        Ok((_, q3)) => {
                            let scan = be_i32_at(s, q3 + 24);
                            let components = be_i32_at(s, q3 + 52);
                            if s.len() < q3 + 28 {
                                Err(DiprError::TruncatedInput)
                            } else if !(1 <= scan <= MAX_SCAN_NUMBER) {
                                Err(
                                    DiprError::ValueOutOfRange(
                                        Field::ScanNumber,
                                        Observed::Int(scan as i64),
                                    ),
                                )
                            } else if s.len() < q3 + 56 {
                                Err(DiprError::TruncatedInput)
                            } else if components != 1 {
                                Err(DiprError::Unsupported(components as i32))
                            } else if s.len() < q3 + 64 {
                                Err(DiprError::TruncatedInput)
                            } else {
                                Ok(
                                    (
                                        CaptureTime {
                                            unix_seconds: be_u32_at(s, q3 + 12) as u32,
                                        },
                                        scan as u8,
                                        q3 + 64,
                                    ),
                                )
                            }
                        },
                    }
                },
            },
        }
    }
}

/// The radial component header at `p`: its type (`i32`, which must be 1), a description
/// text field, the bin size (float, 0 to 1000 meters), the range to the first bin (float,
/// not checked), 8 reserved bytes and the radial count (`i32`, 0..=800). On success, bin
/// size, range, radial count and the position of the first radial.
pub open spec fn spec_component_header(s: Seq<u8>, p: int) -> Result<
    (Meters, Meters, int, int),
    DiprError,
> {
    let component_type = be_i32_at(s, p);
    if s.len() < p + 4 {
        Err(DiprError::TruncatedInput)
    } else if component_type != 1 {
        Err(
            DiprError::ValueOutOfRange(
                Field::RadialComponentType,
                Observed::Int(component_type as i64),
            ),
        )
    } else {
        match spec_take_string(s, p + 4) {
            Err(e) => Err(e),
            Ok((_, q)) => {
                let bin_size = be_u32_at(s, q) as u32;
                let num_radials = be_i32_at(s, q + 16);
                if s.len() < q + 4 {
                    Err(DiprError::TruncatedInput)
                } else if !f32_in_range(bin_size, F32_ZERO, F32_ONE_THOUSAND) {
                    Err(DiprError::ValueOutOfRange(Field::BinSize, Observed::Float(bin_size)))
                } else if s.len() < q + 20 {
                    Err(DiprError::TruncatedInput)
                } else if !(0 <= num_radials <= MAX_RADIALS) {
                    Err(
                        DiprError::ValueOutOfRange(
                            Field::NumRadials,
                            Observed::Int(num_radials as i64),
                        ),
                    )
                } else {
                    Ok(
                        (
                            Meters { bits: bin_size },
                            Meters { bits: be_u32_at(s, q + 4) as u32 },
                            num_radials,
                            q + 20,
                        ),
                    )
                }
            },
        }
    }
}

/// The symbology block that a decompressed payload `s` starts with.
pub open spec fn spec_product_symbology(s: Seq<u8>) -> Result<SymbologyView, DiprError> {
    match spec_symbology_header(s) {
        Err(e) => Err(e),
        Ok((capture_time, scan_number, p)) => match spec_component_header(s, p) {
            Err(e) => Err(e),
            Ok((bin_size, range_to_first_bin, n, q)) => match spec_radials(s, q, n as nat) {
                Err(e) => Err(e),
                Ok((rs, _)) => Ok(
                    SymbologyView {
                        range_to_first_bin,
                        bin_size,
                        scan_number,
                        capture_time,
                        radials: rs,
                    },
                ),
            },
        },
    }
}

/// Relies on `chrono::DateTime::from_timestamp`: it returns `None` only for instants beyond
/// chrono's range of dates (years -262143 to 262142), and whole seconds that fit in a `u32`
/// reach only the year 2106.
#[verifier::external_body]
fn timestamp_is_representable(unix_seconds: u32) -> (r: bool)
    ensures
        r,
{
    chrono::DateTime::from_timestamp(unix_seconds as i64, 0).is_some()
}

/// Decodes the symbology block that the decompressed payload starts with.
pub fn product_symbology(input: &[u8]) -> (r: Result<ProductSymbology, DiprError>)
    ensures
        match r {
            Ok(ps) => spec_product_symbology(input@) == Ok::<_, DiprError>(ps@),
            Err(e) => spec_product_symbology(input@) == Err::<SymbologyView, _>(e),
        },
{
    let tail = take_bytes(input, 0, 16)?;
    let tail = take_bytes(input, tail, 8)?;

    let (_name, tail) = take_string(input, tail)?;
    let (_description, tail) = take_string(input, tail)?;
    let tail = take_bytes(input, tail, 12)?;
    let (_radar_name, tail) = take_string(input, tail)?;
    let tail = take_bytes(input, tail, 12)?;
    let (capture_time, tail) = take_u32(input, tail)?;
    let tail = take_bytes(input, tail, 8)?;
    let (scan_number, tail) = take_i32(input, tail)?;
    check_range_inclusive(1, MAX_SCAN_NUMBER as i64, scan_number as i64, Field::ScanNumber)?;
    let tail = take_bytes(input, tail, 24)?;
    let (number_of_components, tail) = take_i32(input, tail)?;
    if number_of_components != 1 {
        return Err(DiprError::Unsupported(number_of_components));
    }
    let tail = take_bytes(input, tail, 8)?;

    let (component_type, tail) = take_i32(input, tail)?;
    check_value(1, component_type as i64, Field::RadialComponentType)?;
    let (_component_description, tail) = take_string(input, tail)?;
    let (bin_size, tail) = take_u32(input, tail)?;
    check_f32_range(F32_ZERO, F32_ONE_THOUSAND, bin_size, Field::BinSize)?;
    let (range_to_first_bin, tail) = take_u32(input, tail)?;
    let tail = take_bytes(input, tail, 8)?;
    let (num_radials, tail) = take_i32(input, tail)?;
    check_range_inclusive(0, MAX_RADIALS as i64, num_radials as i64, Field::NumRadials)?;

    let (radials, _tail) = radials(input, tail, num_radials as usize)?;

    if !timestamp_is_representable(capture_time) {
        return Err(DiprError::InvalidCaptureTime(capture_time));
    }
    Ok(
        ProductSymbology {
            range_to_first_bin: Meters { bits: range_to_first_bin },
            bin_size: Meters { bits: bin_size },
            scan_number: scan_number as u8,
            capture_time: CaptureTime { unix_seconds: capture_time },
            radials,
        },
    )
}

/// A symbology block with a component count other than one is refused as unsupported,
/// whatever follows it.
pub proof fn lemma_multiple_components_rejected(
    s: Seq<u8>,
    t1: Seq<char>,
    q1: int,
    t2: Seq<char>,
    q2: int,
    t3: Seq<char>,
    q3: int,
)
    requires
        s.len() >= 24,
        spec_take_string(s, 24) == Ok::<_, DiprError>((t1, q1)),
        spec_take_string(s, q1) == Ok::<_, DiprError>((t2, q2)),
        s.len() >= q2 + 12,
        spec_take_string(s, q2 + 12) == Ok::<_, DiprError>((t3, q3)),
        s.len() >= q3 + 56,
        1 <= be_i32_at(s, q3 + 24) <= MAX_SCAN_NUMBER,
        be_i32_at(s, q3 + 52) != 1,
    ensures
        spec_product_symbology(s) == Err::<SymbologyView, _>(
            DiprError::Unsupported(be_i32_at(s, q3 + 52) as i32),
        ),
{
}

} // verus!
