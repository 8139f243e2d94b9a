//! Decoder for the Digital Instantaneous Precipitation Rate (DIPR) weather-radar product.
//!
//! [`parse_dipr`] turns a product file into a validated [`PrecipRate`]; [`PrecipRate::bins`]
//! and [`bin_ring`] choose the range bins to draw and the shape of each outline; the
//! [`predict_two`] family extrapolates the motion of precipitation on a grid.
mod description;
mod error;
mod predict;
mod product;
mod projection;
mod radials;
mod reader;
mod status;
mod symbology;
mod units;

pub use description::{
    lemma_location_round_trip, mode_name, mode_of_code, product_description,
    spec_product_description, OperationalMode, ProductDescription, DESCRIPTION_LEN,
};
pub use error::{DiprError, DprError, Field, Observed};
pub use predict::{
    compute_sse_for_offset, find_best_offset, find_pixel_by_lat_long, grid_sse, in_window,
    is_best_offset, is_grid, is_shift, lex_before, overlap, pixel_at, predict_two, row_sse,
    same_shape, scaled_step, scanned, search_radius, shift, shifted_value, sq_diff, sse,
    step_seconds, Cell, GridData,
};
pub use product::{
    assemble, bzip2_decompressed, decode_payload, lemma_cut_file_truncated,
    lemma_short_input_truncated, max_precip_rate, max_rate, max_rate_in, message_header,
    parse_dipr, parse_dpr, spec_decode_payload, spec_parse_dipr, station_bytes, text_header,
    PrecipRate, PrecipRateView, HEADERS_LEN, TEXT_HEADER_LEN,
};
pub use projection::{
    all_bins, bin_count, bin_ring, radial_bins, wet_count, wet_count_in, BinRef,
};
pub use radials::{
    lemma_radials_error_persists, lemma_rates_are_raw_samples, radial, radials, radials_view,
    sample_at, spec_radial, spec_radials, Radial, RadialView, F32_FORTY_FIVE, F32_MINUS_ONE,
    F32_THREE_SIXTY, F32_TWO, F32_ZERO, MAX_BINS,
};
pub use reader::{
    be_i16_at, be_i32_at, be_u16_at, be_u32_at, f32_in_range, f32_is_nan, f32_magnitude,
    f32_order_key, i8_at, spec_take_string, xdr_padding,
};
pub use status::{
    pairs_view, regex_pairs, station_statuses, statuses_from_matches, ONLINE_COLOR,
    STATUS_PATTERN,
};
pub use symbology::{
    lemma_multiple_components_rejected, product_symbology, spec_component_header,
    spec_product_symbology, spec_symbology_header, ProductSymbology, SymbologyView,
    F32_ONE_THOUSAND, MAX_RADIALS, MAX_SCAN_NUMBER,
};
pub use units::{CaptureTime, Degrees, Location, Meters, MilliDegrees, Velocity};
