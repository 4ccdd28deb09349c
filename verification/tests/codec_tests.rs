//! Tests of the coordinate, time and date codecs.

use gps_to_mqtt::codec::{
    parse_date, parse_dec, parse_dec_or_zero, parse_latitude, parse_longitude, parse_uint_or_zero,
    parse_utc_time, format_dec, Coordinate, Dec,
};

/// The floating-point value a decimal denotes, computed the way the bridge's
/// consumers do: mantissa over the power of ten, negated when negative.
fn dec_to_f64(d: &Dec) -> f64 {
    let sign: f64 = if d.neg { -1.0 } else { 1.0 };
    sign * (d.mantissa as f64) / 10f64.powi(d.scale as i32)
}

/// The floating-point value a coordinate denotes: degrees plus minutes over
/// sixty, negated for the southern and western hemispheres.
fn coord_to_f64(c: &Coordinate) -> f64 {
    let v: f64 = dec_to_f64(&c.deg) + dec_to_f64(&c.min) / 60.0;
    if c.neg {
        -v
    } else {
        v
    }
}

#[test]
fn test_parse_latitude() {
    assert_eq!(coord_to_f64(&parse_latitude("4916.45", "N")), 49.274166666666666);
    assert_eq!(coord_to_f64(&parse_latitude("4916.45", "S")), -49.274166666666666);
    assert_eq!(coord_to_f64(&parse_latitude("0000.00", "N")), 0.0);
    assert_eq!(coord_to_f64(&parse_latitude("0000.00", "S")), -0.0);
}

#[test]
fn test_parse_longitude() {
    assert_eq!(coord_to_f64(&parse_longitude("12311.12", "E")), 123.18533333333333);
    assert_eq!(coord_to_f64(&parse_longitude("12311.12", "W")), -123.18533333333333);
    assert_eq!(coord_to_f64(&parse_longitude("00000.00", "E")), 0.0);
    assert_eq!(coord_to_f64(&parse_longitude("00000.00", "W")), -0.0);
}

#[test]
fn test_parse_utc_time() {
    assert_eq!(parse_utc_time("123519"), (12, 35, 19));
    assert_eq!(parse_utc_time("000000"), (0, 0, 0));
    assert_eq!(parse_utc_time("235959"), (23, 59, 59));
}

#[test]
fn test_parse_date() {
    assert_eq!(parse_date("230394"), (23, 3, 94));
    assert_eq!(parse_date("010100"), (1, 1, 0));
    assert_eq!(parse_date("311299"), (31, 12, 99));
}

#[test]
fn test_coordinate_parsing_edge_cases() {
    // Empty inputs
    assert_eq!(coord_to_f64(&parse_latitude("", "N")), 0.0);
    assert_eq!(coord_to_f64(&parse_longitude("", "E")), 0.0);

    // Invalid directions
    assert_eq!(coord_to_f64(&parse_latitude("4916.45", "X")), 0.0);
    assert_eq!(coord_to_f64(&parse_longitude("12311.12", "Y")), 0.0);

    // Invalid number formats
    assert_eq!(coord_to_f64(&parse_latitude("abc.de", "N")), 0.0);
    assert_eq!(coord_to_f64(&parse_longitude("xyz.wq", "E")), 0.0);

    // Valid boundary values
    assert_eq!(coord_to_f64(&parse_latitude("9000.00", "N")), 90.0);
    assert_eq!(coord_to_f64(&parse_longitude("18000.00", "E")), 180.0);

    // Too-short inputs
    assert_eq!(coord_to_f64(&parse_latitude("1", "N")), 0.0);
    assert_eq!(coord_to_f64(&parse_longitude("1", "E")), 0.0);
}

#[test]
fn test_time_parsing_edge_cases() {
    // Empty string
    assert_eq!(parse_utc_time(""), (0, 0, 0));

    // Invalid formats
    assert_eq!(parse_utc_time("abc"), (0, 0, 0));
    assert_eq!(parse_utc_time("12"), (0, 0, 0));

    // Invalid values
    assert_eq!(parse_utc_time("246101"), (0, 0, 0));

    // Valid values
    assert_eq!(parse_utc_time("235959"), (23, 59, 59));
    assert_eq!(parse_utc_time("000000"), (0, 0, 0));
}

#[test]
fn test_date_parsing_edge_cases() {
    // Empty string
    assert_eq!(parse_date(""), (0, 0, 0));

    // Invalid formats
    assert_eq!(parse_date("abc"), (0, 0, 0));
    assert_eq!(parse_date("12"), (0, 0, 0));

    // Invalid values
    assert_eq!(parse_date("326599"), (0, 0, 0));

    // Valid values
    assert_eq!(parse_date("311299"), (31, 12, 99));
    assert_eq!(parse_date("010100"), (1, 1, 0));
}

#[test]
fn test_time_rejects_partial_garbage() {
    // A single unparsable group rejects the whole reading.
    assert_eq!(parse_utc_time("12xx19"), (0, 0, 0));
    assert_eq!(parse_utc_time("ab3519"), (0, 0, 0));
    assert_eq!(parse_utc_time("1235x9"), (0, 0, 0));
}

#[test]
fn test_date_rejects_partial_garbage() {
    // A single unparsable group rejects the whole reading.
    assert_eq!(parse_date("2303xx"), (0, 0, 0));
    assert_eq!(parse_date("xx0394"), (0, 0, 0));
    assert_eq!(parse_date("23x394"), (0, 0, 0));
}

#[test]
fn test_hemisphere_negates_value() {
    let north = parse_latitude("4807.038", "N");
    let south = parse_latitude("4807.038", "S");
    assert!(!north.neg);
    assert!(south.neg);
    assert_eq!(north.deg, south.deg);
    assert_eq!(north.min, south.min);
    assert_eq!(coord_to_f64(&south), -coord_to_f64(&north));

    let east = parse_longitude("01131.000", "E");
    let west = parse_longitude("01131.000", "W");
    assert_eq!(coord_to_f64(&west), -coord_to_f64(&east));
}

#[test]
fn test_decimal_parse_and_format() {
    // Leading zeros drop, the fraction stays exact.
    let d = parse_dec_or_zero("054.7");
    assert!(!d.neg);
    assert_eq!(d.mantissa, 547);
    assert_eq!(d.scale, 1);
    assert_eq!(format_dec(&d).as_str(), "54.7");

    assert_eq!(format_dec(&parse_dec_or_zero("545.4")).as_str(), "545.4");
    assert_eq!(format_dec(&parse_dec_or_zero("022.4")).as_str(), "22.4");

    // Trailing fraction zeros drop, a bare integer keeps no dot.
    assert_eq!(format_dec(&parse_dec_or_zero("5.50")).as_str(), "5.5");
    assert_eq!(format_dec(&parse_dec_or_zero("12.00")).as_str(), "12");

    // Signed values keep their sign.
    assert_eq!(format_dec(&parse_dec_or_zero("-46.9")).as_str(), "-46.9");

    // Unparsable input reads as zero.
    assert_eq!(format_dec(&parse_dec_or_zero("")).as_str(), "0");
    assert_eq!(format_dec(&parse_dec_or_zero("abc")).as_str(), "0");
    assert_eq!(format_dec(&parse_dec_or_zero("1.2.3")).as_str(), "0");

    // The strict parser reports failure instead.
    assert!(parse_dec("1.2.3").is_none());
    assert!(parse_dec("").is_none());
    assert!(parse_dec("10.25").is_some());
}

#[test]
fn test_uint_parse() {
    assert_eq!(parse_uint_or_zero("11"), 11);
    assert_eq!(parse_uint_or_zero("0"), 0);
    assert_eq!(parse_uint_or_zero(""), 0);
    assert_eq!(parse_uint_or_zero("4x"), 0);
    assert_eq!(parse_uint_or_zero("007"), 7);
}
