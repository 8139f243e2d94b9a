use dipr::{
    decode_payload, message_header, parse_dipr, parse_dpr, product_description,
    product_symbology, radial, text_header, DiprError, Field, Observed, OperationalMode,
    ProductDescription,
};

const PAYLOAD_BZ2: [u8; 119] = [
    0x42, 0x5a, 0x68, 0x39, 0x31, 0x41, 0x59, 0x26, 0x53, 0x59, 0xa1, 0x49, 0x0d, 0x26, 0x00, 0x00,
    0x05, 0xef, 0xcb, 0xfe, 0xf0, 0x80, 0x80, 0x00, 0x00, 0xba, 0x03, 0x08, 0x00, 0x02, 0x00, 0x00,
    0x50, 0x40, 0x00, 0x05, 0x00, 0x40, 0x00, 0x00, 0x40, 0x24, 0x00, 0xa0, 0x00, 0x54, 0x42, 0x09,
    0xe8, 0x99, 0x30, 0x21, 0x88, 0xc0, 0x32, 0x44, 0x1e, 0xa0, 0x01, 0xa6, 0xd4, 0x1b, 0x50, 0x8c,
    0x27, 0x0f, 0x29, 0xc2, 0xcb, 0x0a, 0x5e, 0x55, 0x03, 0xa1, 0x32, 0x08, 0x09, 0x77, 0x81, 0x74,
    0x24, 0x0d, 0xd9, 0x62, 0x67, 0xcc, 0x5b, 0xea, 0xec, 0xd0, 0x90, 0x20, 0x31, 0xc7, 0xf6, 0xea,
    0xe5, 0x83, 0x71, 0x7d, 0x66, 0x3f, 0x50, 0x39, 0x02, 0x76, 0x8a, 0x68, 0xd8, 0xbb, 0x92, 0x29,
    0xc2, 0x84, 0x85, 0x0a, 0x48, 0x69, 0x30,
];

fn xdr(text: &[u8]) -> Vec<u8> {
    let mut out = (text.len() as u32).to_be_bytes().to_vec();
    out.extend_from_slice(text);
    while out.len() % 4 != 0 {
        out.push(0);
    }
    out
}

fn f32_bytes(x: f32) -> [u8; 4] {
    x.to_be_bytes()
}

fn text_header_bytes(code: &[u8; 4]) -> Vec<u8> {
    let mut out = b"SDUS51 ".to_vec();
    out.extend_from_slice(code);
    out.extend_from_slice(&[b' '; 19]);
    out
}

fn description_bytes(divider: i16, lat: i32, lon: i32, mode: i16, flag: i8, size: i32) -> Vec<u8> {
    let mut out = divider.to_be_bytes().to_vec();
    out.extend_from_slice(&lat.to_be_bytes());
    out.extend_from_slice(&lon.to_be_bytes());
    out.extend_from_slice(&[0; 4]);
    out.extend_from_slice(&mode.to_be_bytes());
    out.extend_from_slice(&[0; 24]);
    out.push(flag as u8);
    out.extend_from_slice(&[0; 43]);
    out.extend_from_slice(&size.to_be_bytes());
    out.extend_from_slice(&[0; 14]);
    out
}

fn radial_bytes(az: f32, el: f32, width: f32, attrs: &[u8], samples: &[[u8; 4]]) -> Vec<u8> {
    let mut out = f32_bytes(az).to_vec();
    out.extend_from_slice(&f32_bytes(el));
    out.extend_from_slice(&f32_bytes(width));
    out.extend_from_slice(&(samples.len() as i32).to_be_bytes());
    out.extend_from_slice(&xdr(attrs));
    out.extend_from_slice(&[0; 4]);
    for s in samples {
        out.extend_from_slice(s);
    }
    out
}

fn symbology_bytes(scan: i32, components: i32, bin_size: f32, radials: &[Vec<u8>]) -> Vec<u8> {
    let mut out = vec![0u8; 24];
    out.extend_from_slice(&xdr(b"NAME"));
    out.extend_from_slice(&xdr(b""));
    out.extend_from_slice(&[0; 12]);
    out.extend_from_slice(&xdr(b"ABC"));
    out.extend_from_slice(&[0; 12]);
    out.extend_from_slice(&1_700_000_000u32.to_be_bytes());
    out.extend_from_slice(&[0; 8]);
    out.extend_from_slice(&scan.to_be_bytes());
    out.extend_from_slice(&[0; 24]);
    out.extend_from_slice(&components.to_be_bytes());
    out.extend_from_slice(&[0; 8]);
    out.extend_from_slice(&1i32.to_be_bytes());
    out.extend_from_slice(&xdr(b""));
    out.extend_from_slice(&f32_bytes(bin_size));
    out.extend_from_slice(&f32_bytes(2125.0));
    out.extend_from_slice(&[0; 8]);
    out.extend_from_slice(&(radials.len() as i32).to_be_bytes());
    for r in radials {
        out.extend_from_slice(r);
    }
    out
}

fn sample_radials() -> Vec<Vec<u8>> {
    vec![
        radial_bytes(90.0, 0.5, 1.0, b"", &[[0, 0, 0, 0], [0, 0, 1, 0xf4], [0, 0, 0, 7]]),
        radial_bytes(91.0, 0.5, 1.0, b"x", &[[0xff, 0xff, 3, 0xe8]]),
    ]
}

fn sample_file() -> Vec<u8> {
    let mut file = text_header_bytes(b"KGYX");
    file.extend_from_slice(&[0; 18]);
    file.extend_from_slice(&description_bytes(-1, 43_891, -70_256, 2, 1, 216));
    file.extend_from_slice(&PAYLOAD_BZ2);
    file
}

#[test]
fn sample_payload_matches_compressed_payload() {
    assert_eq!(symbology_bytes(5, 1, 250.0, &sample_radials()).len(), 216);
}

#[test]
fn parses_whole_file() {
    let p = parse_dipr(&sample_file()).unwrap();
    assert_eq!(p.station_code, "KGYX");
    assert_eq!(p.capture_time.unix_seconds, 1_700_000_000);
    assert_eq!(p.scan_number, 5);
    assert_eq!(p.location.longitude.thousandths, -70_256);
    assert_eq!(p.location.latitude.thousandths, 43_891);
    assert_eq!(p.operational_mode, OperationalMode::Precipitation);
    assert!(p.precip_detected);
    assert_eq!(p.max_precip_rate.thousandths_inch_per_hour, 1000);
    assert_eq!(f32::from_bits(p.bin_size.bits), 250.0);
    assert_eq!(f32::from_bits(p.range_to_first_bin.bits), 2125.0);
    assert_eq!(p.radials.len(), 2);
    assert_eq!(f32::from_bits(p.radials[0].azimuth.bits), 90.0);
    assert_eq!(f32::from_bits(p.radials[0].elevation.bits), 0.5);
    assert_eq!(f32::from_bits(p.radials[1].width.bits), 1.0);
    let rates: Vec<u16> =
        p.radials[0].precip_rates.iter().map(|v| v.thousandths_inch_per_hour).collect();
    assert_eq!(rates, vec![0, 500, 7]);
    assert_eq!(p.radials[1].precip_rates[0].thousandths_inch_per_hour, 1000);
}

#[test]
fn parse_dpr_agrees_with_parse_dipr() {
    let a = parse_dpr(&sample_file()).unwrap();
    let b = parse_dipr(&sample_file()).unwrap();
    assert_eq!(a.scan_number, b.scan_number);
    assert_eq!(a.radials.len(), b.radials.len());
}

#[test]
fn station_code_scenario() {
    let mut file = b"SDUS51 KGYX ".to_vec();
    file.extend_from_slice(&[b'.'; 18]);
    let (code, pos) = text_header(&file).unwrap();
    assert_eq!(code, "KGYX");
    assert_eq!(pos, 30);
}

#[test]
fn station_code_invalid_utf8() {
    let mut file = text_header_bytes(&[0xff, 0xfe, b'A', b'B']);
    file.extend_from_slice(&[0; 200]);
    assert_eq!(text_header(&file).unwrap_err(), DiprError::InvalidUtf8String);
    assert_eq!(parse_dipr(&file).unwrap_err(), DiprError::InvalidUtf8String);
}

#[test]
fn block_divider_zero_fails_before_further_reads() {
    let mut file = text_header_bytes(b"KGYX");
    file.extend_from_slice(&[0; 18]);
    file.extend_from_slice(&[0, 0]);
    assert_eq!(
        parse_dipr(&file).unwrap_err(),
        DiprError::ValueOutOfRange(Field::BlockDivider, Observed::Int(0))
    );
}

#[test]
fn truncated_inputs() {
    let file = sample_file();
    for k in [0usize, 1, 10, 29, 30, 47, 48, 49, 60, 149] {
        assert_eq!(parse_dipr(&file[..k]).unwrap_err(), DiprError::TruncatedInput, "cut at {k}");
    }
    assert_eq!(message_header(&file[..40], 30).unwrap_err(), DiprError::TruncatedInput);
    assert_eq!(message_header(&file, 30).unwrap(), 48);
}

#[test]
fn truncated_compressed_payload_fails_decompression() {
    let file = sample_file();
    let cut = &file[..file.len() - 40];
    assert_eq!(parse_dipr(cut).unwrap_err(), DiprError::DecompressionFailed);
}

#[test]
fn garbage_payload_fails_decompression() {
    let mut file = text_header_bytes(b"KGYX");
    file.extend_from_slice(&[0; 18]);
    file.extend_from_slice(&description_bytes(-1, 0, 0, 0, 0, 10));
    file.extend_from_slice(b"not compressed at all");
    assert_eq!(parse_dipr(&file).unwrap_err(), DiprError::DecompressionFailed);
}

#[test]
fn description_fields() {
    let bytes = description_bytes(-1, -90_000, 180_000, 1, 0, 1234);
    let (d, pos) = product_description(&bytes, 0).unwrap();
    assert_eq!(pos, 102);
    assert_eq!(d.location.latitude.thousandths, -90_000);
    assert_eq!(d.location.longitude.thousandths, 180_000);
    assert_eq!(d.operational_mode, OperationalMode::CleanAir);
    assert!(!d.precip_detected);
    assert_eq!(d.uncompressed_size, 1234);
}

#[test]
fn location_round_trip() {
    for (lat, lon) in [(43_891, -70_256), (0, 0), (-1, 1), (90_000, -180_000)] {
        let bytes = description_bytes(-1, lat, lon, 0, 0, 0);
        let (d, _) = product_description(&bytes, 0).unwrap();
        assert_eq!(d.location.latitude.thousandths.to_be_bytes(), lat.to_be_bytes());
        assert_eq!(d.location.longitude.thousandths.to_be_bytes(), lon.to_be_bytes());
    }
}

#[test]
fn description_range_errors() {
    let cases = [
        (description_bytes(-1, 90_001, 0, 0, 0, 0), Field::Latitude, 90_001i64),
        (description_bytes(-1, 0, -180_001, 0, 0, 0), Field::Longitude, -180_001),
        (description_bytes(-1, 0, 0, 3, 0, 0), Field::OperationalMode, 3),
        (description_bytes(-1, 0, 0, -1, 0, 0), Field::OperationalMode, -1),
        (description_bytes(-1, 0, 0, 0, 2, 0), Field::PrecipDetected, 2),
        (description_bytes(-1, 0, 0, 0, -1, 0), Field::PrecipDetected, -1),
        (description_bytes(7, 0, 0, 0, 0, 0), Field::BlockDivider, 7),
    ];
    for (bytes, field, value) in cases {
        assert_eq!(
            product_description(&bytes, 0).unwrap_err(),
            DiprError::ValueOutOfRange(field, Observed::Int(value))
        );
    }
}

#[test]
fn operational_mode_codes() {
    assert_eq!(OperationalMode::from_code(0), Ok(OperationalMode::Maintenance));
    assert_eq!(OperationalMode::from_code(1), Ok(OperationalMode::CleanAir));
    assert_eq!(OperationalMode::from_code(2), Ok(OperationalMode::Precipitation));
    for code in [3i16, -1, 100, i16::MIN, i16::MAX] {
        assert_eq!(
            OperationalMode::from_code(code),
            Err(DiprError::InvalidOperationalMode(code))
        );
    }
    assert_eq!(OperationalMode::CleanAir.name(), "Clean Air");
}

#[test]
fn radial_samples_use_last_two_bytes() {
    let bytes = radial_bytes(
        359.5,
        -1.0,
        2.0,
        b"attr",
        &[[0xab, 0xcd, 0xff, 0xff], [0, 0, 0, 1], [0x12, 0x34, 0, 0]],
    );
    let (r, pos) = radial(&bytes, 0).unwrap();
    assert_eq!(pos, bytes.len());
    let rates: Vec<u16> = r.precip_rates.iter().map(|v| v.thousandths_inch_per_hour).collect();
    assert_eq!(rates, vec![65535, 1, 0]);
    assert_eq!(f32::from_bits(r.azimuth.bits), 359.5);
    assert_eq!(f32::from_bits(r.elevation.bits), -1.0);
}

#[test]
fn radial_range_errors() {
    let bad_az = radial_bytes(360.5, 0.0, 1.0, b"", &[]);
    assert_eq!(
        radial(&bad_az, 0).unwrap_err(),
        DiprError::ValueOutOfRange(Field::Azimuth, Observed::Float(360.5f32.to_bits()))
    );
    let nan_az = radial_bytes(f32::NAN, 0.0, 1.0, b"", &[]);
    assert!(matches!(
        radial(&nan_az, 0).unwrap_err(),
        DiprError::ValueOutOfRange(Field::Azimuth, _)
    ));
    let bad_el = radial_bytes(10.0, -1.5, 1.0, b"", &[]);
    assert_eq!(
        radial(&bad_el, 0).unwrap_err(),
        DiprError::ValueOutOfRange(Field::Elevation, Observed::Float((-1.5f32).to_bits()))
    );
    let neg_zero = radial_bytes(-0.0, 45.0, 0.0, b"", &[]);
    assert!(radial(&neg_zero, 0).is_ok());
    let bad_width = radial_bytes(10.0, 0.0, 2.5, b"", &[]);
    assert_eq!(
        radial(&bad_width, 0).unwrap_err(),
        DiprError::ValueOutOfRange(Field::Width, Observed::Float(2.5f32.to_bits()))
    );
    let mut bad_bins = radial_bytes(10.0, 0.0, 1.0, b"", &[]);
    bad_bins[12..16].copy_from_slice(&1841i32.to_be_bytes());
    assert_eq!(
        radial(&bad_bins, 0).unwrap_err(),
        DiprError::ValueOutOfRange(Field::NumBins, Observed::Int(1841))
    );
    let mut short = radial_bytes(10.0, 0.0, 1.0, b"", &[[0, 0, 0, 1]]);
    short.pop();
    assert_eq!(radial(&short, 0).unwrap_err(), DiprError::TruncatedInput);
}

#[test]
fn text_field_padding() {
    let mut bytes = radial_bytes(10.0, 0.0, 1.0, b"abcde", &[]);
    assert_eq!(bytes.len(), 16 + 4 + 8 + 4);
    assert!(radial(&bytes, 0).is_ok());
    bytes.truncate(16 + 4 + 5);
    assert_eq!(radial(&bytes, 0).unwrap_err(), DiprError::TruncatedInput);
    let mut bad_text = radial_bytes(10.0, 0.0, 1.0, b"ab", &[]);
    bad_text[20] = 0xc3;
    bad_text[21] = 0x28;
    assert_eq!(radial(&bad_text, 0).unwrap_err(), DiprError::InvalidUtf8String);
}

#[test]
fn symbology_decodes() {
    let s = product_symbology(&symbology_bytes(80, 1, 1000.0, &sample_radials())).unwrap();
    assert_eq!(s.scan_number, 80);
    assert_eq!(s.capture_time.unix_seconds, 1_700_000_000);
    assert_eq!(s.radials.len(), 2);
}

#[test]
fn multiple_components_unsupported() {
    for n in [0, 2, 5, -1] {
        let bytes = symbology_bytes(5, n, 250.0, &sample_radials());
        assert_eq!(product_symbology(&bytes).unwrap_err(), DiprError::Unsupported(n));
    }
}

#[test]
fn symbology_range_errors() {
    let bytes = symbology_bytes(0, 1, 250.0, &[]);
    assert_eq!(
        product_symbology(&bytes).unwrap_err(),
        DiprError::ValueOutOfRange(Field::ScanNumber, Observed::Int(0))
    );
    let bytes = symbology_bytes(81, 1, 250.0, &[]);
    assert_eq!(
        product_symbology(&bytes).unwrap_err(),
        DiprError::ValueOutOfRange(Field::ScanNumber, Observed::Int(81))
    );
    let bytes = symbology_bytes(1, 1, 1000.5, &[]);
    assert_eq!(
        product_symbology(&bytes).unwrap_err(),
        DiprError::ValueOutOfRange(Field::BinSize, Observed::Float(1000.5f32.to_bits()))
    );
    let mut bytes = symbology_bytes(1, 1, 250.0, &[]);
    let n = bytes.len();
    bytes[n - 4..].copy_from_slice(&801i32.to_be_bytes());
    assert_eq!(
        product_symbology(&bytes).unwrap_err(),
        DiprError::ValueOutOfRange(Field::NumRadials, Observed::Int(801))
    );
    let mut bytes = symbology_bytes(1, 1, 250.0, &[]);
    let type_at = bytes.len() - 4 - 8 - 8 - 4 - 4;
    bytes[type_at..type_at + 4].copy_from_slice(&2i32.to_be_bytes());
    assert_eq!(
        product_symbology(&bytes).unwrap_err(),
        DiprError::ValueOutOfRange(Field::RadialComponentType, Observed::Int(2))
    );
    let mut bytes = symbology_bytes(1, 1, 250.0, &sample_radials());
    bytes.pop();
    assert_eq!(product_symbology(&bytes).unwrap_err(), DiprError::TruncatedInput);
}

#[test]
fn decode_payload_joins_blocks() {
    let d = ProductDescription {
        location: dipr::Location {
            longitude: dipr::MilliDegrees { thousandths: 1 },
            latitude: dipr::MilliDegrees { thousandths: 2 },
        },
        operational_mode: OperationalMode::Maintenance,
        precip_detected: false,
        uncompressed_size: 0,
    };
    let p = decode_payload(
        "KABC".to_string(),
        &d,
        &symbology_bytes(7, 1, 250.0, &sample_radials()),
    )
    .unwrap();
    assert_eq!(p.station_code, "KABC");
    assert_eq!(p.max_precip_rate.thousandths_inch_per_hour, 1000);
    assert_eq!(p.operational_mode, OperationalMode::Maintenance);
    assert_eq!(p.scan_number, 7);
    let none = decode_payload("KABC".to_string(), &d, &symbology_bytes(7, 1, 250.0, &[])).unwrap();
    assert_eq!(none.max_precip_rate.thousandths_inch_per_hour, 0);
    assert_eq!(
        decode_payload("KABC".to_string(), &d, &symbology_bytes(7, 3, 250.0, &[])).unwrap_err(),
        DiprError::Unsupported(3)
    );
}

#[test]
fn bins_in_order_with_and_without_zeros() {
    let p = parse_dipr(&sample_file()).unwrap();
    let all: Vec<(usize, usize, u16)> = p
        .bins(false)
        .iter()
        .map(|b| (b.radial, b.bin, b.rate.thousandths_inch_per_hour))
        .collect();
    assert_eq!(all, vec![(0, 0, 0), (0, 1, 500), (0, 2, 7), (1, 0, 1000)]);
    let wet: Vec<(usize, usize)> = p.bins(true).iter().map(|b| (b.radial, b.bin)).collect();
    assert_eq!(wet, vec![(0, 1), (0, 2), (1, 0)]);
    assert_eq!(p.bin_counts(), (3, 4));
}

#[test]
fn negative_declared_size_is_only_a_hint() {
    let mut file = text_header_bytes(b"KGYX");
    file.extend_from_slice(&[0; 18]);
    file.extend_from_slice(&description_bytes(-1, 43_891, -70_256, 0, 0, -5));
    file.extend_from_slice(&PAYLOAD_BZ2);
    let p = parse_dipr(&file).unwrap();
    assert_eq!(p.radials.len(), 2);
    assert_eq!(p.operational_mode, OperationalMode::Maintenance);
    assert!(!p.precip_detected);
}
