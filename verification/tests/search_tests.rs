//! The terrain-bounded max-distance search.

use lfmf_coverage::evaluate::calc_field_strength_for_line_at_km;
use lfmf_coverage::model::SyntheticModel;
use lfmf_coverage::search::find_max_distance_for_line;
use lfmf_coverage::terrain::defaults::Terrain;
use lfmf_coverage::terrain::{Line, LineSegment};

/// Ten metres, in millimetres.
const DISTANCE_TOLERANCE: i64 = 10_000;

/// 61.9 dB(uV)/m in micro-decibels.
const OLD_MIN_STRENGTH: i64 = 61_900_000;

/// 43.2 dB(uV)/m in micro-decibels.
const NEW_MIN_STRENGTH: i64 = 43_200_000;

fn assert_close(max_distance: u64, expected: u64) {
    let error = max_distance as i64 - expected as i64;
    assert!(
        error.abs() < DISTANCE_TOLERANCE,
        "Expected max distance of {} +-{} mm, got {} mm",
        expected,
        DISTANCE_TOLERANCE,
        max_distance
    );
}

#[test]
fn find_max_distance_for_old_min_strength_on_small_ground_line() {
    let model = SyntheticModel;
    let segment = LineSegment::with_length(Terrain::Ground.parameters(), 100_000_000);
    let line = Line::with_segments(0, vec![segment]);
    let max_distance = find_max_distance_for_line(&model, OLD_MIN_STRENGTH, &line)
        .unwrap()
        .distance_mm();
    assert_close(max_distance, 48_700_000);
}

#[test]
fn find_max_distance_for_old_min_strength_on_medium_ground_line() {
    let model = SyntheticModel;
    let segment = LineSegment::with_length(Terrain::Ground.parameters(), 500_000_000);
    let line = Line::with_segments(0, vec![segment]);
    let max_distance = find_max_distance_for_line(&model, OLD_MIN_STRENGTH, &line)
        .unwrap()
        .distance_mm();
    assert_close(max_distance, 48_700_000);
}

#[test]
fn find_max_distance_for_old_min_strength_on_biggest_ground_line() {
    let model = SyntheticModel;
    let segment = LineSegment::with_length(Terrain::Ground.parameters(), 10_000_000_000);
    let line = Line::with_segments(0, vec![segment]);
    let max_distance = find_max_distance_for_line(&model, OLD_MIN_STRENGTH, &line)
        .unwrap()
        .distance_mm();
    assert_close(max_distance, 48_700_000);
}

#[test]
fn find_max_distance_for_old_min_strength_on_small_sea_line() {
    let model = SyntheticModel;
    let segment = LineSegment::with_length(Terrain::Sea.parameters(), 100_000_000);
    let line = Line::with_segments(0, vec![segment]);
    let max_distance = find_max_distance_for_line(&model, OLD_MIN_STRENGTH, &line);
    assert!(max_distance.is_err());
}

#[test]
fn find_max_distance_for_old_min_strength_on_medium_sea_line() {
    let model = SyntheticModel;
    let segment = LineSegment::with_length(Terrain::Sea.parameters(), 500_000_000);
    let line = Line::with_segments(0, vec![segment]);
    let max_distance = find_max_distance_for_line(&model, OLD_MIN_STRENGTH, &line)
        .unwrap()
        .distance_mm();
    assert_close(max_distance, 353_830_000);
}

#[test]
fn find_max_distance_for_old_min_strength_on_biggest_sea_line() {
    let model = SyntheticModel;
    let segment = LineSegment::with_length(Terrain::Sea.parameters(), 10_000_000_000);
    let line = Line::with_segments(0, vec![segment]);
    let max_distance = find_max_distance_for_line(&model, OLD_MIN_STRENGTH, &line)
        .unwrap()
        .distance_mm();
    assert_close(max_distance, 353_830_000);
}

#[test]
fn find_max_distance_for_new_min_strength_on_small_ground_line() {
    let model = SyntheticModel;
    let segment = LineSegment::with_length(Terrain::Ground.parameters(), 100_000_000);
    let line = Line::with_segments(0, vec![segment]);
    let max_distance = find_max_distance_for_line(&model, NEW_MIN_STRENGTH, &line);
    assert!(max_distance.is_err());
}

#[test]
fn find_max_distance_for_new_min_strength_on_medium_ground_line() {
    let model = SyntheticModel;
    let segment = LineSegment::with_length(Terrain::Ground.parameters(), 500_000_000);
    let line = Line::with_segments(0, vec![segment]);
    let max_distance = find_max_distance_for_line(&model, NEW_MIN_STRENGTH, &line)
        .unwrap()
        .distance_mm();
    assert_close(max_distance, 123_283_000);
}

#[test]
fn find_max_distance_for_new_min_strength_on_biggest_ground_line() {
    let model = SyntheticModel;
    let segment = LineSegment::with_length(Terrain::Ground.parameters(), 10_000_000_000);
    let line = Line::with_segments(0, vec![segment]);
    let max_distance = find_max_distance_for_line(&model, NEW_MIN_STRENGTH, &line)
        .unwrap()
        .distance_mm();
    assert_close(max_distance, 123_283_000);
}

#[test]
fn find_max_distance_for_new_min_strength_on_small_sea_line() {
    let model = SyntheticModel;
    let segment = LineSegment::with_length(Terrain::Sea.parameters(), 100_000_000);
    let line = Line::with_segments(0, vec![segment]);
    let max_distance = find_max_distance_for_line(&model, NEW_MIN_STRENGTH, &line);
    assert!(max_distance.is_err());
}

#[test]
fn find_max_distance_for_new_min_strength_on_medium_sea_line() {
    let model = SyntheticModel;
    let segment = LineSegment::with_length(Terrain::Sea.parameters(), 500_000_000);
    let line = Line::with_segments(0, vec![segment]);
    let max_distance = find_max_distance_for_line(&model, NEW_MIN_STRENGTH, &line);
    assert!(max_distance.is_err());
}

#[test]
fn find_max_distance_for_new_min_strength_on_biggest_sea_line() {
    let model = SyntheticModel;
    let segment = LineSegment::with_length(Terrain::Sea.parameters(), 10_000_000_000);
    let line = Line::with_segments(0, vec![segment]);
    let max_distance = find_max_distance_for_line(&model, NEW_MIN_STRENGTH, &line)
        .unwrap()
        .distance_mm();
    assert_close(max_distance, 749_350_000);
}

#[test]
fn find_max_distance_for_ground_sea_line_far() {
    let model = SyntheticModel;
    let segments = vec![
        LineSegment::with_length(Terrain::Ground.parameters(), 50_000_000),
        LineSegment::with_length(Terrain::Sea.parameters(), 200_000_000),
    ];
    let line = Line::with_segments(0, segments);
    let expected_distance = 193_920_300;
    let field_strength =
        calc_field_strength_for_line_at_km(&model, &line, expected_distance).unwrap();
    let max_distance = find_max_distance_for_line(&model, field_strength as i64, &line)
        .expect("The distance it should find is within the bounds and has already been calculated to be valid.")
        .distance_mm();
    assert_close(max_distance, expected_distance);
}

#[test]
fn find_max_distance_for_ground_sea_line_near() {
    let model = SyntheticModel;
    let segments = vec![
        LineSegment::with_length(Terrain::Ground.parameters(), 50_000_000),
        LineSegment::with_length(Terrain::Sea.parameters(), 200_000_000),
    ];
    let line = Line::with_segments(0, segments);
    let expected_distance = 42_356_000;
    let field_strength =
        calc_field_strength_for_line_at_km(&model, &line, expected_distance).unwrap();
    let max_distance = find_max_distance_for_line(&model, field_strength as i64, &line)
        .expect("The distance it should find is within the bounds and has already been calculated to be valid.")
        .distance_mm();
    assert_close(max_distance, expected_distance);
}

#[test]
fn find_max_distance_for_ground_sea_ground_line_far() {
    let model = SyntheticModel;
    let segments = vec![
        LineSegment::with_length(Terrain::Ground.parameters(), 100_000_000),
        LineSegment::with_length(Terrain::Sea.parameters(), 50_000_000),
        LineSegment::with_length(Terrain::Ground.parameters(), 200_000_000),
    ];
    let line = Line::with_segments(0, segments);
    let expected_distance = 180_000_000;
    let field_strength =
        calc_field_strength_for_line_at_km(&model, &line, expected_distance).unwrap();
    let max_distance = find_max_distance_for_line(&model, field_strength as i64, &line)
        .expect("The distance it should find is within the bounds and has already been calculated to be valid.")
        .distance_mm();
    assert_close(max_distance, expected_distance);
}

#[test]
fn find_max_distance_for_ground_sea_ground_line_medium() {
    let model = SyntheticModel;
    let segments = vec![
        LineSegment::with_length(Terrain::Ground.parameters(), 100_000_000),
        LineSegment::with_length(Terrain::Sea.parameters(), 50_000_000),
        LineSegment::with_length(Terrain::Ground.parameters(), 200_000_000),
    ];
    let line = Line::with_segments(0, segments);
    let expected_distance = 82_096_000;
    let field_strength =
        calc_field_strength_for_line_at_km(&model, &line, expected_distance).unwrap();
    let max_distance = find_max_distance_for_line(&model, field_strength as i64, &line)
        .expect("The distance it should find is within the bounds and has already been calculated to be valid.")
        .distance_mm();
    assert_close(max_distance, expected_distance);
}

#[test]
fn find_max_distance_for_ground_sea_ground_line_near() {
    let model = SyntheticModel;
    let segments = vec![
        LineSegment::with_length(Terrain::Ground.parameters(), 100_000_000),
        LineSegment::with_length(Terrain::Sea.parameters(), 50_000_000),
        LineSegment::with_length(Terrain::Ground.parameters(), 200_000_000),
    ];
    let line = Line::with_segments(0, segments);
    let expected_distance = 32_637_000;
    let field_strength =
        calc_field_strength_for_line_at_km(&model, &line, expected_distance).unwrap();
    let max_distance = find_max_distance_for_line(&model, field_strength as i64, &line)
        .expect("The distance it should find is within the bounds and has already been calculated to be valid.")
        .distance_mm();
    assert_close(max_distance, expected_distance);
}

#[test]
fn find_max_distance_for_long_4_segment_line() {
    let model = SyntheticModel;
    let segments = vec![
        LineSegment::with_length(Terrain::Ground.parameters(), 100_000_000),
        LineSegment::with_length(Terrain::Sea.parameters(), 300_000_000),
        LineSegment::with_length(Terrain::Ground.parameters(), 100_000_000),
        LineSegment::with_length(Terrain::Sea.parameters(), 500_000_000),
    ];
    let line = Line::with_segments(0, segments);
    let expected_distance = 932_259_400;
    let field_strength =
        calc_field_strength_for_line_at_km(&model, &line, expected_distance).unwrap();
    let max_distance = find_max_distance_for_line(&model, field_strength as i64, &line)
        .expect("The distance it should find is within the bounds and has already been calculated to be valid.")
        .distance_mm();
    assert_close(max_distance, expected_distance);
}

#[test]
fn find_max_distance_is_invariant_under_segment_truncation() {
    // A single ground segment of 100 km, 500 km and 10000 km must all
    // settle on the same maximum usable distance.
    let model = SyntheticModel;
    let mut distances = Vec::new();
    for length in [100_000_000u64, 500_000_000, 10_000_000_000] {
        let segment = LineSegment::with_length(Terrain::Ground.parameters(), length);
        let line = Line::with_segments(0, vec![segment]);
        let max_distance = find_max_distance_for_line(&model, OLD_MIN_STRENGTH, &line)
            .unwrap()
            .distance_mm();
        distances.push(max_distance);
    }
    assert_close(distances[1], distances[0]);
    assert_close(distances[2], distances[0]);
}

#[test]
fn find_max_distance_for_empty_line() {
    let model = SyntheticModel;
    let line = Line::new(0);
    let max_distance = find_max_distance_for_line(&model, OLD_MIN_STRENGTH, &line);
    assert!(max_distance.is_err());
}
