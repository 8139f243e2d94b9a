use vstd::prelude::*;

use crate::error::{DiprError, Field, Observed};
use crate::reader::{
    be_i32_at, be_u16_at, be_u32_at, check_f32_range, check_range_inclusive, f32_in_range,
    spec_take_string, take_bytes, take_i32, take_string, take_u32,
};
use crate::units::{Degrees, Velocity};

verus! {

/// Bit pattern of 0.0.
pub const F32_ZERO: u32 = 0x0000_0000;

/// Bit pattern of 2.0.
pub const F32_TWO: u32 = 0x4000_0000;

/// Bit pattern of -1.0.
pub const F32_MINUS_ONE: u32 = 0xbf80_0000;

/// Bit pattern of 45.0.
pub const F32_FORTY_FIVE: u32 = 0x4234_0000;

/// Bit pattern of 360.0.
pub const F32_THREE_SIXTY: u32 = 0x43b4_0000;

/// The largest number of bins in one radial.
pub const MAX_BINS: i32 = 1840;

/// One angular sector of a scan, with its samples ordered outward by range.
#[derive(Debug)]
pub struct Radial {
    /// Center bearing, 0 to 360 degrees.
    pub azimuth: Degrees,
    /// Antenna elevation, -1 to 45 degrees.
    pub elevation: Degrees,
    /// Angular width, 0 to 2 degrees.
    pub width: Degrees,
    /// One rate per range bin, nearest first.
    pub precip_rates: Vec<Velocity>,
}

/// What a [`Radial`] holds, with its rates as a sequence.
pub struct RadialView {
    pub azimuth: Degrees,
    pub elevation: Degrees,
    pub width: Degrees,
    pub precip_rates: Seq<Velocity>,
}

impl View for Radial {
    type V = RadialView;

    open spec fn view(&self) -> RadialView {
        RadialView {
            azimuth: self.azimuth,
            elevation: self.elevation,
            width: self.width,
            precip_rates: self.precip_rates@,
        }
    }
}

/// The views of a sequence of radials.
pub open spec fn radials_view(rs: Seq<Radial>) -> Seq<RadialView> {
    rs.map_values(|r: Radial| r@)
}

/// The rate held in the sample slot `i` of the array at `base`: each slot has four bytes,
/// of which the last two hold the rate as a big-endian `u16`.
pub open spec fn sample_at(s: Seq<u8>, base: int, i: int) -> Velocity {
    Velocity { thousandths_inch_per_hour: be_u16_at(s, base + 4 * i + 2) as u16 }
}

/// The radial at `p`: azimuth, elevation and width (single-precision floats, each checked
/// against its interval as soon as it is read), the bin count (`i32`, 0..=1840), an
/// attributes text field that is skipped, four reserved bytes, then four bytes per bin.
pub open spec fn spec_radial(s: Seq<u8>, p: int) -> Result<(RadialView, int), DiprError> {
    let azimuth = be_u32_at(s, p) as u32;
    let elevation = be_u32_at(s, p + 4) as u32;
    let width = be_u32_at(s, p + 8) as u32;
    let num_bins = be_i32_at(s, p + 12);
    if s.len() < p + 4 {
        Err(DiprError::TruncatedInput)
    } else if !f32_in_range(azimuth, F32_ZERO, F32_THREE_SIXTY) {
        Err(DiprError::ValueOutOfRange(Field::Azimuth, Observed::Float(azimuth)))
    } else if s.len() < p + 8 {
        Err(DiprError::TruncatedInput)
    } else if !f32_in_range(elevation, F32_MINUS_ONE, F32_FORTY_FIVE) {
        Err(DiprError::ValueOutOfRange(Field::Elevation, Observed::Float(elevation)))
    } else if s.len() < p + 12 {
        Err(DiprError::TruncatedInput)
    } else if !f32_in_range(width, F32_ZERO, F32_TWO) {
        Err(DiprError::ValueOutOfRange(Field::Width, Observed::Float(width)))
    } else if s.len() < p + 16 {
        Err(DiprError::TruncatedInput)
    } else if !(0 <= num_bins <= MAX_BINS) {
        Err(DiprError::ValueOutOfRange(Field::NumBins, Observed::Int(num_bins as i64)))
    } else {
        match spec_take_string(s, p + 16) {
            Err(e) => Err(e),
            Ok((_, q)) => if s.len() < q + 4 + 4 * num_bins {
                Err(DiprError::TruncatedInput)
            } else {
                Ok(
                    (
                        RadialView {
                            azimuth: Degrees { bits: azimuth },
                            elevation: Degrees { bits: elevation },
                            width: Degrees { bits: width },
                            precip_rates: Seq::new(
                                num_bins as nat,
                                |i: int| sample_at(s, q + 4, i),
                            ),
                        },
                        q + 4 + 4 * num_bins,
                    ),
                )
            },
        }
    }
}

/// Decodes the radial at `pos`.
pub fn radial(input: &[u8], pos: usize) -> (r: Result<(Radial, usize), DiprError>)
    requires
        pos <= input@.len(),
    ensures
        match r {
            Ok((rad, q)) => spec_radial(input@, pos as int) == Ok::<_, DiprError>(
                (rad@, q as int),
            ),
            Err(e) => spec_radial(input@, pos as int) == Err::<(RadialView, int), _>(e),
        },
{
    let (azimuth, tail) = take_u32(input, pos)?;
    check_f32_range(F32_ZERO, F32_THREE_SIXTY, azimuth, Field::Azimuth)?;

    let (elevation, tail) = take_u32(input, tail)?;
    check_f32_range(F32_MINUS_ONE, F32_FORTY_FIVE, elevation, Field::Elevation)?;

    let (width, tail) = take_u32(input, tail)?;
    check_f32_range(F32_ZERO, F32_TWO, width, Field::Width)?;

    let (num_bins, tail) = take_i32(input, tail)?;
    check_range_inclusive(0, MAX_BINS as i64, num_bins as i64, Field::NumBins)?;

    let (_attributes, tail) = take_string(input, tail)?;
    let base = take_bytes(input, tail, 4)?;
    let n = num_bins as usize;
    let end = take_bytes(input, base, 4 * n)?;

    let mut precip_rates: Vec<Velocity> = Vec::new();
    let mut i: usize = 0;
    while i < n
        invariant
            i <= n,
            n == num_bins as int,
            base + 4 * n == end,
            end <= input@.len(),
            precip_rates@.len() == i,
            forall|j: int| 0 <= j < i ==> precip_rates@[j] == sample_at(input@, base as int, j),
        decreases n - i,
    {
        let k = base + 4 * i + 2;
        let raw: u16 = (input[k] as u16) * 0x100 + (input[k + 1] as u16);
        precip_rates.push(Velocity { thousandths_inch_per_hour: raw });
        i = i + 1;
    }
    let rad = Radial {
        azimuth: Degrees { bits: azimuth },
        elevation: Degrees { bits: elevation },
        width: Degrees { bits: width },
        precip_rates,
    };
    assert(rad@.precip_rates =~= Seq::new(n as nat, |j: int| sample_at(input@, base as int, j)));
    Ok((rad, end))
}

/// Every decoded rate is the raw unsigned 16-bit sample, in thousandths of an inch per hour,
/// taken from the last two bytes of its four-byte slot; so no rate is negative.
pub proof fn lemma_rates_are_raw_samples(s: Seq<u8>, p: int)
    requires
        spec_radial(s, p) is Ok,
    ensures
        ({
            let rates = spec_radial(s, p)->Ok_0.0.precip_rates;
            let base = spec_take_string(s, p + 16)->Ok_0.1 + 4;
            forall|i: int|
                0 <= i < rates.len() ==> 0 <= (#[trigger] rates[i]).thousandths_inch_per_hour
                    as int == be_u16_at(s, base + 4 * i + 2)
        }),
{
    let rates = spec_radial(s, p)->Ok_0.0.precip_rates;
    let base = spec_take_string(s, p + 16)->Ok_0.1 + 4;
    assert forall|i: int| 0 <= i < rates.len() implies 0 <= (
    #[trigger] rates[i]).thousandths_inch_per_hour as int == be_u16_at(s, base + 4 * i + 2) by {
        let k = base + 4 * i + 2;
        assert(0 <= be_u16_at(s, k) <= 0xffff);
    }
}

/// The first `n` radials from `p`, one after the other.
pub open spec fn spec_radials(s: Seq<u8>, p: int, n: nat) -> Result<(Seq<RadialView>, int), DiprError>
    decreases n,
{
    if n == 0 {
        Ok((seq![], p))
    } else {
        match spec_radials(s, p, (n - 1) as nat) {
            Err(e) => Err(e),
            Ok((rs, q)) => match spec_radial(s, q) {
                Err(e) => Err(e),
                Ok((r, q2)) => Ok((rs.push(r), q2)),
            },
        }
    }
}

/// Once a radial fails, every longer run of radials fails the same way.
pub proof fn lemma_radials_error_persists(s: Seq<u8>, p: int, k: nat, n: nat)
    requires
        k <= n,
        spec_radials(s, p, k) is Err,
    ensures
        spec_radials(s, p, n) == spec_radials(s, p, k),
    decreases n - k,
{
    if k < n {
        lemma_radials_error_persists(s, p, k, (n - 1) as nat);
    }
}

/// Decodes `num` radials from `pos`.
pub fn radials(input: &[u8], pos: usize, num: usize) -> (r: Result<(Vec<Radial>, usize), DiprError>)
    requires
        pos <= input@.len(),
    ensures
        match r {
            Ok((rs, q)) => spec_radials(input@, pos as int, num as nat) == Ok::<_, DiprError>(
                (radials_view(rs@), q as int),
            ),
            Err(e) => spec_radials(input@, pos as int, num as nat) == Err::<
                (Seq<RadialView>, int),
                _,
            >(e),
        },
{
    let mut out: Vec<Radial> = Vec::new();
    let mut tail = pos;
    let mut i: usize = 0;
    assert(radials_view(out@) =~= seq![]);
    while i < num
        invariant
            i <= num,
            tail <= input@.len(),
            spec_radials(input@, pos as int, i as nat) == Ok::<_, DiprError>(
                (radials_view(out@), tail as int),
            ),
        decreases num - i,
    {
        match radial(input, tail) {
            Ok((rad, t)) => {
                proof {
                    assert(radials_view(out@.push(rad)) =~= radials_view(out@).push(rad@));
                }
                out.push(rad);
                tail = t;
            },
            Err(e) => {
                proof {
                    lemma_radials_error_persists(input@, pos as int, (i + 1) as nat, num as nat);
                }
                return Err(e);
            },
        }
        i = i + 1;
    }
    Ok((out, tail))
}

} // verus!
