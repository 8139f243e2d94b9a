use vstd::prelude::*;

use crate::error::{DiprError, Field, Observed};
use crate::reader::{
    be_i16_at, be_i32_at, check_range_inclusive, check_value, i8_at, take_bytes, take_i16,
    take_i32, take_i8,
};
use crate::units::{Location, MilliDegrees};

verus! {

/// The condition of the radar station.
#[derive(Debug, Clone, Copy, PartialEq, Eq, Structural)]
pub enum OperationalMode {
    Maintenance,
    CleanAir,
    Precipitation,
}

/// The mode that a code in `0..=2` stands for.
pub open spec fn mode_of_code(code: int) -> Option<OperationalMode> {
    if code == 0 {
        Some(OperationalMode::Maintenance)
    } else if code == 1 {
        Some(OperationalMode::CleanAir)
    } else if code == 2 {
        Some(OperationalMode::Precipitation)
    } else {
        None
    }
}

impl OperationalMode {
    /// Decodes an operational-mode code.
    pub fn from_code(code: i16) -> (r: Result<OperationalMode, DiprError>)
        ensures
            match mode_of_code(code as int) {
                Some(m) => r == Ok::<_, DiprError>(m),
                None => r == Err::<OperationalMode, _>(DiprError::InvalidOperationalMode(code)),
            },
    {
        match code {
            0 => Ok(OperationalMode::Maintenance),
            1 => Ok(OperationalMode::CleanAir),
            2 => Ok(OperationalMode::Precipitation),
            _ => Err(DiprError::InvalidOperationalMode(code)),
        }
    }

    /// The mode's name as shown to people.
    pub fn name(&self) -> (r: &'static str)
        ensures
            r@ == mode_name(*self),
    {
        proof {
            reveal_strlit("Maintenance");
            reveal_strlit("Clean Air");
            reveal_strlit("Precipitation");
        }
        match self {
            OperationalMode::Maintenance => "Maintenance",
            OperationalMode::CleanAir => "Clean Air",
            OperationalMode::Precipitation => "Precipitation",
        }
    }
}

/// The name of each mode.
pub open spec fn mode_name(m: OperationalMode) -> Seq<char> {
    match m {
        OperationalMode::Maintenance => seq!['M', 'a', 'i', 'n', 't', 'e', 'n', 'a', 'n', 'c', 'e'],
        OperationalMode::CleanAir => seq!['C', 'l', 'e', 'a', 'n', ' ', 'A', 'i', 'r'],
        OperationalMode::Precipitation => seq![
            'P', 'r', 'e', 'c', 'i', 'p', 'i', 't', 'a', 't', 'i', 'o', 'n',
        ],
    }
}

/// The fixed-layout block that describes the station and the compressed payload.
#[derive(Debug, Clone, Copy, PartialEq, Eq, Structural)]
pub struct ProductDescription {
    pub location: Location,
    pub operational_mode: OperationalMode,
    /// Whether the station measured precipitation anywhere in its coverage.
    pub precip_detected: bool,
    /// The declared size of the decompressed payload in bytes.
    pub uncompressed_size: i32,
}

/// The number of bytes in the description block.
pub const DESCRIPTION_LEN: usize = 102;

/// The description block at `p`, checked field by field in the order of the layout: block
/// divider (`i16`, must be -1) at `p`, latitude code (`i32`, -90000..=90000) at `p + 2`,
/// longitude code (`i32`, -180000..=180000) at `p + 6`, four reserved bytes, operational
/// mode (`i16`, 0..=2) at `p + 14`, 24 reserved bytes, detection flag (`i8`, 0..=1) at
/// `p + 40`, 43 reserved bytes, payload size (`i32`) at `p + 84`, 14 reserved bytes.
/// Each field is read only after the fields before it passed their checks.
pub open spec fn spec_product_description(s: Seq<u8>, p: int) -> Result<
    (ProductDescription, int),
    DiprError,
> {
    if s.len() < p + 2 {
        Err(DiprError::TruncatedInput)
    } else if be_i16_at(s, p) != -1 {
        Err(DiprError::ValueOutOfRange(Field::BlockDivider, Observed::Int(be_i16_at(s, p) as i64)))
    } else if s.len() < p + 6 {
        Err(DiprError::TruncatedInput)
    } else if !(-90000 <= be_i32_at(s, p + 2) <= 90000) {
        Err(DiprError::ValueOutOfRange(Field::Latitude, Observed::Int(be_i32_at(s, p + 2) as i64)))
    } else if s.len() < p + 10 {
        Err(DiprError::TruncatedInput)
    } else if !(-180000 <= be_i32_at(s, p + 6) <= 180000) {
        Err(
            DiprError::ValueOutOfRange(Field::Longitude, Observed::Int(be_i32_at(s, p + 6) as i64)),
        )
    } else if s.len() < p + 16 {
        Err(DiprError::TruncatedInput)
    } else if !(0 <= be_i16_at(s, p + 14) <= 2) {
        Err(
            DiprError::ValueOutOfRange(
                Field::OperationalMode,
                Observed::Int(be_i16_at(s, p + 14) as i64),
            ),
        )
    } else if s.len() < p + 41 {
        Err(DiprError::TruncatedInput)
    } else if !(0 <= i8_at(s, p + 40) <= 1) {
        Err(DiprError::ValueOutOfRange(Field::PrecipDetected, Observed::Int(i8_at(s, p + 40) as i64)))
    } else if s.len() < p + 102 {
        Err(DiprError::TruncatedInput)
    } else {
        Ok(
            (
                ProductDescription {
                    location: Location {
                        longitude: MilliDegrees { thousandths: be_i32_at(s, p + 6) as i32 },
                        latitude: MilliDegrees { thousandths: be_i32_at(s, p + 2) as i32 },
                    },
                    operational_mode: mode_of_code(be_i16_at(s, p + 14)).unwrap(),
                    precip_detected: i8_at(s, p + 40) == 1,
                    uncompressed_size: be_i32_at(s, p + 84) as i32,
                },
                p + 102,
            ),
        )
    }
}

/// Decodes the description block at `pos`.
pub fn product_description(input: &[u8], pos: usize) -> (r: Result<
    (ProductDescription, usize),
    DiprError,
>)
    requires
        pos <= input@.len(),
    ensures
        match r {
            Ok((d, q)) => spec_product_description(input@, pos as int) == Ok::<_, DiprError>(
                (d, q as int),
            ),
            Err(e) => spec_product_description(input@, pos as int) == Err::<
                (ProductDescription, int),
                _,
            >(e),
        },
{
    let (block_divider, tail) = take_i16(input, pos)?;
    check_value(-1, block_divider as i64, Field::BlockDivider)?;

    let (latitude, tail) = take_i32(input, tail)?;
    check_range_inclusive(-90_000, 90_000, latitude as i64, Field::Latitude)?;

    let (longitude, tail) = take_i32(input, tail)?;
    check_range_inclusive(-180_000, 180_000, longitude as i64, Field::Longitude)?;

    let tail = take_bytes(input, tail, 4)?;

    let (mode_code, tail) = take_i16(input, tail)?;
    check_range_inclusive(0, 2, mode_code as i64, Field::OperationalMode)?;

    let tail = take_bytes(input, tail, 24)?;

    let (precip_flag, tail) = take_i8(input, tail)?;
    check_range_inclusive(0, 1, precip_flag as i64, Field::PrecipDetected)?;

    let tail = take_bytes(input, tail, 43)?;
    let (uncompressed_size, tail) = take_i32(input, tail)?;
    let tail = take_bytes(input, tail, 14)?;

    let operational_mode = OperationalMode::from_code(mode_code)?;
    let location = Location {
        longitude: MilliDegrees { thousandths: longitude },
        latitude: MilliDegrees { thousandths: latitude },
    };
    Ok(
        (
            ProductDescription {
                location,
                operational_mode,
                precip_detected: precip_flag != 0,
                uncompressed_size,
            },
            tail,
        ),
    )
}

/// Decoding keeps the fixed-point coordinates exactly: re-encoded as thousandths of a degree,
/// the decoded location gives back the latitude and longitude codes that were read.
pub proof fn lemma_location_round_trip(s: Seq<u8>, p: int)
    requires
        spec_product_description(s, p) is Ok,
    ensures
        ({
            let loc = spec_product_description(s, p)->Ok_0.0.location;
            &&& loc.latitude.thousandths as int == be_i32_at(s, p + 2)
            &&& loc.longitude.thousandths as int == be_i32_at(s, p + 6)
        }),
{
}

} // verus!
