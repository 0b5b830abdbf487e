//! Terrain-profile row and file parsing.

use lfmf_coverage::parse::parse_milli;
use lfmf_coverage::profile::{parse_profile, parse_to_line, ParseError};
use lfmf_coverage::terrain::defaults::Terrain;

#[test]
fn parse_milli_reads_plain_decimals() {
    assert_eq!(parse_milli(b"0"), Some(0));
    assert_eq!(parse_milli(b"12"), Some(12_000));
    assert_eq!(parse_milli(b"12.7"), Some(12_700));
    assert_eq!(parse_milli(b"12."), Some(12_000));
    assert_eq!(parse_milli(b".5"), Some(500));
    assert_eq!(parse_milli(b"1.2345"), Some(1_234));
    assert_eq!(parse_milli(b"9999999999999"), Some(9_999_999_999_999_000));
}

#[test]
fn parse_milli_rejects_what_is_not_a_decimal() {
    assert_eq!(parse_milli(b""), None);
    assert_eq!(parse_milli(b"."), None);
    assert_eq!(parse_milli(b"1.2.3"), None);
    assert_eq!(parse_milli(b"12a"), None);
    assert_eq!(parse_milli(b"-5"), None);
    assert_eq!(parse_milli(b"10000000000000"), None);
}

#[test]
fn parse_row_with_two_markers_sums_to_declared_total() {
    let line = parse_to_line(b"0,,12.7,x,25.4,y").unwrap();
    assert_eq!(line.angle(), 0);
    let segments = line.segments();
    assert_eq!(segments.len(), 2);
    // 12.7 px and 25.4 px are 10 km and 20 km from the transmitter, so
    // the segment lengths sum exactly to the last marker's distance.
    assert_eq!(segments[0].length_mm(), 10_000_000);
    assert_eq!(segments[1].length_mm(), 10_000_000);
    assert_eq!(line.max_distance(), 20_000_000);
}

#[test]
fn parse_row_alternates_ground_and_sea_from_ground() {
    let line = parse_to_line(b"0,,12.7,x,25.4,y,38.1,z").unwrap();
    let segments = line.segments();
    assert_eq!(segments.len(), 3);
    let ground = Terrain::Ground.parameters();
    let sea = Terrain::Sea.parameters();
    assert_eq!(segments[0].lfmf_parameters().sigma_micro, ground.sigma_micro);
    assert_eq!(segments[1].lfmf_parameters().sigma_micro, sea.sigma_micro);
    assert_eq!(segments[2].lfmf_parameters().sigma_micro, ground.sigma_micro);
}

#[test]
fn parse_row_with_border_closes_at_boundary() {
    let line = parse_to_line(b"5.5,20,10,x,border").unwrap();
    assert_eq!(line.angle(), 5_500);
    let segments = line.segments();
    assert_eq!(segments.len(), 2);
    // 10 px is 7874015 mm; the boundary of 20 lies at 25.4 km.
    assert_eq!(segments[0].length_mm(), 7_874_015);
    assert_eq!(segments[1].length_mm(), 25_400_000 - 7_874_015);
    assert_eq!(line.max_distance(), 25_400_000);
}

#[test]
fn parse_row_without_markers_is_an_empty_path() {
    let line = parse_to_line(b"271.25,").unwrap();
    assert_eq!(line.angle(), 271_250);
    assert!(line.is_empty());
}

#[test]
fn parse_row_with_negative_angle() {
    let line = parse_to_line(b"-12.5,").unwrap();
    assert_eq!(line.angle(), -12_500);
}

#[test]
fn parse_row_with_malformed_angle_fails() {
    let result = parse_to_line(b"abc,");
    assert_eq!(result.unwrap_err(), ParseError::MalformedNumber { column: 0 });
}

#[test]
fn parse_row_without_boundary_column_fails() {
    let result = parse_to_line(b"42");
    assert_eq!(result.unwrap_err(), ParseError::MissingColumn { column: 1 });
}

#[test]
fn parse_row_with_malformed_boundary_fails() {
    let result = parse_to_line(b"0,xyz");
    assert_eq!(result.unwrap_err(), ParseError::MalformedNumber { column: 1 });
}

#[test]
fn parse_row_with_non_increasing_marker_fails() {
    let result = parse_to_line(b"0,,5,x,3,y");
    assert_eq!(result.unwrap_err(), ParseError::NonPositiveLength { column: 4 });
}

#[test]
fn parse_row_with_border_but_no_boundary_fails() {
    let result = parse_to_line(b"0,,border");
    assert_eq!(result.unwrap_err(), ParseError::BorderWithoutBoundary);
}

#[test]
fn parse_row_trims_spaces_around_columns() {
    let line = parse_to_line(b" 7.5 , , 12.7 ,x").unwrap();
    assert_eq!(line.angle(), 7_500);
    assert_eq!(line.segments().len(), 1);
    assert_eq!(line.segments()[0].length_mm(), 10_000_000);
}

#[test]
fn parse_profile_skips_header_and_reads_each_row() {
    let contents = b"angle,border,label,px\n0,,12.7,x\n90.5,,25.4,y\n";
    let lines = parse_profile(contents).unwrap();
    assert_eq!(lines.len(), 2);
    assert_eq!(lines[0].angle(), 0);
    assert_eq!(lines[0].max_distance(), 10_000_000);
    assert_eq!(lines[1].angle(), 90_500);
    assert_eq!(lines[1].max_distance(), 20_000_000);
}

#[test]
fn parse_profile_handles_carriage_returns() {
    let contents = b"angle,border\r\n1,\r\n";
    let lines = parse_profile(contents).unwrap();
    assert_eq!(lines.len(), 1);
    assert_eq!(lines[0].angle(), 1_000);
    assert!(lines[0].is_empty());
}

#[test]
fn parse_profile_of_empty_input_is_empty() {
    let lines = parse_profile(b"").unwrap();
    assert_eq!(lines.len(), 0);
}

#[test]
fn parse_profile_reports_the_failing_row() {
    let contents = b"header\n0,,12.7,x\nbad,,\n";
    let error = parse_profile(contents).unwrap_err();
    assert_eq!(error.row, 2);
    assert_eq!(error.error, ParseError::MalformedNumber { column: 0 });
}
