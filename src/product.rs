use vstd::prelude::*;
use vstd::utf8::{decode_utf8, valid_utf8};

use crate::description::{
    product_description, spec_product_description, OperationalMode, ProductDescription,
    DESCRIPTION_LEN,
};
use crate::error::DiprError;
use crate::radials::{radials_view, Radial, RadialView};
use crate::reader::{be_i16_at, be_i32_at, i8_at, take_bytes, take_text};
use crate::symbology::{product_symbology, spec_product_symbology, SymbologyView};
use crate::units::{CaptureTime, Location, Meters, Velocity};

verus! {

/// The number of bytes in the text header.
pub const TEXT_HEADER_LEN: usize = 30;

/// The number of bytes in the text header and the message header together.
pub const HEADERS_LEN: usize = 48;

/// A decoded precipitation-rate product.
#[derive(Debug)]
pub struct PrecipRate {
    /// The radar station, usually four letters.
    pub station_code: String,
    /// When the scan began.
    pub capture_time: CaptureTime,
    /// Counter that tells scans apart, 1 to 80.
    pub scan_number: u8,
    /// The station's position, longitude first.
    pub location: Location,
    pub operational_mode: OperationalMode,
    /// Whether the station measured precipitation anywhere in its coverage.
    pub precip_detected: bool,
    /// The highest rate over all bins of all radials; zero when there are none.
    pub max_precip_rate: Velocity,
    /// Radial length of one bin.
    pub bin_size: Meters,
    /// Distance from the station to the center of the nearest bin.
    pub range_to_first_bin: Meters,
    /// The radials in the order of the product.
    pub radials: Vec<Radial>,
}

/// What a [`PrecipRate`] holds, with its text and radials as sequences.
pub struct PrecipRateView {
    pub station_code: Seq<char>,
    pub capture_time: CaptureTime,
    pub scan_number: u8,
    pub location: Location,
    pub operational_mode: OperationalMode,
    pub precip_detected: bool,
    pub max_precip_rate: Velocity,
    pub bin_size: Meters,
    pub range_to_first_bin: Meters,
    pub radials: Seq<RadialView>,
}

impl View for PrecipRate {
    type V = PrecipRateView;

    open spec fn view(&self) -> PrecipRateView {
        PrecipRateView {
            station_code: self.station_code@,
            capture_time: self.capture_time,
            scan_number: self.scan_number,
            location: self.location,
            operational_mode: self.operational_mode,
            precip_detected: self.precip_detected,
            max_precip_rate: self.max_precip_rate,
            bin_size: self.bin_size,
            range_to_first_bin: self.range_to_first_bin,
            radials: radials_view(self.radials@),
        }
    }
}

/// The highest rate in a sequence of rates, 0 for none.
pub open spec fn max_rate_in(rates: Seq<Velocity>) -> int
    decreases rates.len(),
{
    if rates.len() == 0 {
        0
    } else {
        let last = rates.last().thousandths_inch_per_hour as int;
        let rest = max_rate_in(rates.drop_last());
        if last > rest {
            last
        } else {
            rest
        }
    }
}

/// The highest rate over all bins of all radials, 0 for none.
pub open spec fn max_rate(rs: Seq<RadialView>) -> int
    decreases rs.len(),
{
    if rs.len() == 0 {
        0
    } else {
        let last = max_rate_in(rs.last().precip_rates);
        let rest = max_rate(rs.drop_last());
        if last > rest {
            last
        } else {
            rest
        }
    }
}

/// The product that a station code, a description block and the symbology block make.
pub open spec fn assemble(
    station_code: Seq<char>,
    d: ProductDescription,
    sym: SymbologyView,
) -> PrecipRateView {
    PrecipRateView {
        station_code,
        capture_time: sym.capture_time,
        scan_number: sym.scan_number,
        location: d.location,
        operational_mode: d.operational_mode,
        precip_detected: d.precip_detected,
        max_precip_rate: Velocity { thousandths_inch_per_hour: max_rate(sym.radials) as u16 },
        bin_size: sym.bin_size,
        range_to_first_bin: sym.range_to_first_bin,
        radials: sym.radials,
    }
}

/// The product that follows from the headers once the payload is decompressed.
pub open spec fn spec_decode_payload(
    station_code: Seq<char>,
    d: ProductDescription,
    payload: Seq<u8>,
) -> Result<PrecipRateView, DiprError> {
    match spec_product_symbology(payload) {
        Err(e) => Err(e),
        Ok(sym) => Ok(assemble(station_code, d, sym)),
    }
}

/// The station code: bytes 7 to 11 of the text header, as UTF-8.
pub open spec fn station_bytes(s: Seq<u8>) -> Seq<u8> {
    s.subrange(7, 11)
}

/// What the bzip2 decompressor makes of `compressed`: the decompressed bytes, or `None`
/// where it fails.
pub uninterp spec fn bzip2_decompressed(compressed: Seq<u8>) -> Option<Seq<u8>>;

/// A whole product file: the 30-byte text header (7 bytes, the station code in 4 bytes of
/// UTF-8, 19 bytes), the 18-byte message header, the description block, and the bzip2
/// payload that holds the symbology block.
pub open spec fn spec_parse_dipr(s: Seq<u8>) -> Result<PrecipRateView, DiprError> {
    if s.len() < TEXT_HEADER_LEN {
        Err(DiprError::TruncatedInput)
    } else if !valid_utf8(station_bytes(s)) {
        Err(DiprError::InvalidUtf8String)
    } else if s.len() < HEADERS_LEN {
        Err(DiprError::TruncatedInput)
    } else {
        match spec_product_description(s, HEADERS_LEN as int) {
            Err(e) => Err(e),
            Ok((d, q)) => match bzip2_decompressed(s.subrange(q, s.len() as int)) {
                None => Err(DiprError::DecompressionFailed),
                Some(payload) => spec_decode_payload(decode_utf8(station_bytes(s)), d, payload),
            },
        }
    }
}

/// Relies on `bzip2_rs::DecoderReader`, read to its end by `std::io::copy`: what it yields,
/// bytes or a failure, depends on the compressed bytes alone. The capacity only sizes the
/// first allocation.
#[verifier::external_body]
fn bzip2_decompress(compressed: &[u8], capacity: usize) -> (r: Option<Vec<u8>>)
    ensures
        match r {
            Some(v) => bzip2_decompressed(compressed@) == Some(v@),
            None => bzip2_decompressed(compressed@) is None,
        },
{
    let mut out = Vec::with_capacity(capacity);
    let mut reader = bzip2_rs::DecoderReader::new(compressed);
    match std::io::copy(&mut reader, &mut out) {
        Ok(_) => Some(out),
        Err(_) => None,
    }
}

/// The highest rate over all bins of all radials, zero when there are none.
pub fn max_precip_rate(radials: &Vec<Radial>) -> (r: Velocity)
    ensures
        r.thousandths_inch_per_hour as int == max_rate(radials_view(radials@)),
{
    let ghost rs = radials_view(radials@);
    let mut best: u16 = 0;
    let mut i: usize = 0;
    assert(rs.take(0) =~= seq![]);
    while i < radials.len()
        invariant
            i <= radials@.len(),
            rs == radials_view(radials@),
            best as int == max_rate(rs.take(i as int)),
        decreases radials@.len() - i,
    {
        let rates = &radials[i].precip_rates;
        let ghost before = best as int;
        let mut j: usize = 0;
        assert(rates@.take(0) =~= seq![]);
        while j < rates.len()
            invariant
                j <= rates@.len(),
                best as int == if max_rate_in(rates@.take(j as int)) > before {
                    max_rate_in(rates@.take(j as int))
                } else {
                    before
                },
            decreases rates@.len() - j,
        {
            assert(rates@.take(j + 1).drop_last() =~= rates@.take(j as int));
            if rates[j].thousandths_inch_per_hour > best {
                best = rates[j].thousandths_inch_per_hour;
            }
            j = j + 1;
        }
        assert(rates@.take(j as int) =~= rates@);
        assert(rs.take(i + 1).drop_last() =~= rs.take(i as int));
        assert(rs.take(i + 1).last() == radials@[i as int]@);
        i = i + 1;
    }
    assert(rs.take(i as int) =~= rs);
    Velocity { thousandths_inch_per_hour: best }
}

/// Decodes the symbology block of a decompressed `payload` and joins it with the station
/// code and the description block into a product.
pub fn decode_payload(
    station_code: String,
    description: &ProductDescription,
    payload: &[u8],
) -> (r: Result<PrecipRate, DiprError>)
    ensures
        match r {
            Ok(p) => spec_decode_payload(station_code@, *description, payload@) == Ok::<
                _,
                DiprError,
            >(p@),
            Err(e) => spec_decode_payload(station_code@, *description, payload@) == Err::<
                PrecipRateView,
                _,
            >(e),
        },
{
    let symbology = product_symbology(payload)?;
    let max_precip_rate = max_precip_rate(&symbology.radials);
    Ok(
        PrecipRate {
            station_code,
            capture_time: symbology.capture_time,
            scan_number: symbology.scan_number,
            location: description.location,
            operational_mode: description.operational_mode,
            precip_detected: description.precip_detected,
            max_precip_rate,
            bin_size: symbology.bin_size,
            range_to_first_bin: symbology.range_to_first_bin,
            radials: symbology.radials,
        },
    )
}

/// Reads the text header: on success, the station code and the position after the header.
pub fn text_header(input: &[u8]) -> (r: Result<(String, usize), DiprError>)
    ensures
        match r {
            Ok((code, q)) => input@.len() >= TEXT_HEADER_LEN && valid_utf8(station_bytes(input@))
                && code@ == decode_utf8(station_bytes(input@)) && q == TEXT_HEADER_LEN,
            Err(e) => if input@.len() < TEXT_HEADER_LEN {
                e == DiprError::TruncatedInput
            } else {
                !valid_utf8(station_bytes(input@)) && e == DiprError::InvalidUtf8String
            },
        },
{
    let code_start = take_bytes(input, 0, 7)?;
    let code_end = take_bytes(input, code_start, 4)?;
    let tail = take_bytes(input, code_end, 19)?;
    match take_text(input, code_start, code_end) {
        Some(code) => Ok((code, tail)),
        None => Err(DiprError::InvalidUtf8String),
    }
}

/// Skips the message header at `pos`.
pub fn message_header(input: &[u8], pos: usize) -> (r: Result<usize, DiprError>)
    requires
        pos <= input@.len(),
    ensures
        match r {
            Ok(q) => pos + 18 <= input@.len() && q == pos + 18,
            Err(e) => pos + 18 > input@.len() && e == DiprError::TruncatedInput,
        },
{
    take_bytes(input, pos, 18)
}

/// Decodes a whole product file.
pub fn parse_dipr(input: &[u8]) -> (r: Result<PrecipRate, DiprError>)
    ensures
        match r {
            Ok(p) => spec_parse_dipr(input@) == Ok::<_, DiprError>(p@),
            Err(e) => spec_parse_dipr(input@) == Err::<PrecipRateView, _>(e),
        },
{
    let (station_code, tail) = text_header(input)?;
    let tail = message_header(input, tail)?;
    let (description, tail) = product_description(input, tail)?;
    let compressed = vstd::slice::slice_subrange(input, tail, input.len());
    // the declared size only sizes the first allocation
    let capacity: usize = if description.uncompressed_size < 0 {
        0
    } else {
        description.uncompressed_size as usize
    };
    let payload = match bzip2_decompress(compressed, capacity) {
        Some(p) => p,
        None => return Err(DiprError::DecompressionFailed),
    };
    decode_payload(station_code, &description, payload.as_slice())
}

/// Decodes a whole product file; the same as [`parse_dipr`].
pub fn parse_dpr(input: &[u8]) -> (r: Result<PrecipRate, DiprError>)
    ensures
        match r {
            Ok(p) => spec_parse_dipr(input@) == Ok::<_, DiprError>(p@),
            Err(e) => spec_parse_dipr(input@) == Err::<PrecipRateView, _>(e),
        },
{
    parse_dipr(input)
}

/// A file too short for its headers fails as truncated, and a file that decodes holds at
/// least the headers and the description block.
pub proof fn lemma_short_input_truncated(s: Seq<u8>)
    ensures
        s.len() < TEXT_HEADER_LEN ==> spec_parse_dipr(s) == Err::<PrecipRateView, _>(
            DiprError::TruncatedInput,
        ),
        s.len() < HEADERS_LEN && valid_utf8(station_bytes(s)) ==> spec_parse_dipr(s) == Err::<
            PrecipRateView,
            _,
        >(DiprError::TruncatedInput),
        spec_parse_dipr(s) is Ok ==> s.len() >= HEADERS_LEN + DESCRIPTION_LEN,
{
}

/// Cutting a file that decodes anywhere inside its headers or its description block gives
/// a truncation failure, never another failure or a product.
pub proof fn lemma_cut_file_truncated(s: Seq<u8>, k: int)
    requires
        spec_parse_dipr(s) is Ok,
        0 <= k < HEADERS_LEN + DESCRIPTION_LEN,
    ensures
        spec_parse_dipr(s.take(k)) == Err::<PrecipRateView, _>(DiprError::TruncatedInput),
{
    let t = s.take(k);
    if k >= TEXT_HEADER_LEN {
        assert(station_bytes(t) =~= station_bytes(s));
    }
    if k >= HEADERS_LEN {
        let p = HEADERS_LEN as int;
        assert(forall|i: int| 0 <= i < k ==> t[i] == s[i]);
        if k >= p + 2 {
            assert(be_i16_at(t, p) == be_i16_at(s, p));
        }
        if k >= p + 6 {
            assert(be_i32_at(t, p + 2) == be_i32_at(s, p + 2));
        }
        if k >= p + 10 {
            assert(be_i32_at(t, p + 6) == be_i32_at(s, p + 6));
        }
        if k >= p + 16 {
            assert(be_i16_at(t, p + 14) == be_i16_at(s, p + 14));
        }
        if k >= p + 41 {
            assert(i8_at(t, p + 40) == i8_at(s, p + 40));
        }
    }
}

} // verus!
