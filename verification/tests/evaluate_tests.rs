//! Field-strength evaluation over terrain paths.

use lfmf_coverage::evaluate::{calc_field_strength_for_line_at_km, EvalError};
use lfmf_coverage::model::SyntheticModel;
use lfmf_coverage::params::FieldStrengthModel;
use lfmf_coverage::terrain::defaults::Terrain;
use lfmf_coverage::terrain::{Line, LineSegment};

#[test]
fn calc_field_strength_for_line_at_km_with_no_segments() {
    let model = SyntheticModel;
    let line = Line::new(0);
    let result = calc_field_strength_for_line_at_km(&model, &line, 1_000_000_000);
    assert!(result.is_err());
}

#[test]
fn calc_field_strength_beyond_the_path_end_is_out_of_range() {
    let model = SyntheticModel;
    let segment = LineSegment::with_length(Terrain::Ground.parameters(), 100_000_000);
    let line = Line::with_segments(0, vec![segment]);
    let result = calc_field_strength_for_line_at_km(&model, &line, 100_000_001);
    assert_eq!(
        result.unwrap_err(),
        EvalError::OutOfRange { distance_mm: 100_000_001, total_mm: 100_000_000 }
    );
}

#[test]
fn calc_field_strength_reports_the_rejecting_segment() {
    let model = SyntheticModel;
    // The second segment reaches past the model's distance cap, so the
    // first query that touches it is rejected with its index and the
    // boundary at which it was queried.
    let segments = vec![
        LineSegment::with_length(Terrain::Ground.parameters(), 50_000_000),
        LineSegment::with_length(Terrain::Sea.parameters(), 10_000_000_000),
    ];
    let line = Line::with_segments(0, segments);
    let error = calc_field_strength_for_line_at_km(&model, &line, 10_050_000_000).unwrap_err();
    match error {
        EvalError::Model { segment_index, boundary_mm, error } => {
            assert_eq!(segment_index, 1);
            assert_eq!(boundary_mm, 10_050_000_000);
            assert_eq!(error.status, 1005);
        }
        other => panic!("expected a model rejection, got {:?}", other),
    }
}

#[test]
fn calc_field_strength_for_line_at_km_with_one_ground_segment_whole() {
    let model = SyntheticModel;
    let distance = 142_092_000;
    let segment = LineSegment::with_length(Terrain::Ground.parameters(), distance);
    let line = Line::with_segments(0, vec![segment]);
    let result = calc_field_strength_for_line_at_km(&model, &line, distance).unwrap();
    let expected = model.evaluate(&segment.lfmf_parameters()).unwrap().e_udbuvm;
    assert_eq!(result, expected as i128);
}

#[test]
fn calc_field_strength_for_line_at_km_with_one_ground_segment_cut_short() {
    let model = SyntheticModel;
    let distance = 203_539_000;
    let shorter_distance = 95_280_000;
    let segment = LineSegment::with_length(Terrain::Ground.parameters(), distance);
    let line = Line::with_segments(0, vec![segment]);
    let result = calc_field_strength_for_line_at_km(&model, &line, shorter_distance).unwrap();
    let mut parameters = segment.lfmf_parameters();
    parameters.d_mm = shorter_distance;
    let expected = model.evaluate(&parameters).unwrap().e_udbuvm;
    assert_eq!(result, expected as i128);
}

#[test]
fn calc_field_strength_for_line_at_km_with_one_sea_segment_whole() {
    let model = SyntheticModel;
    let distance = 402_230_000;
    let segment = LineSegment::with_length(Terrain::Sea.parameters(), distance);
    let line = Line::with_segments(0, vec![segment]);
    let result = calc_field_strength_for_line_at_km(&model, &line, distance).unwrap();
    let expected = model.evaluate(&segment.lfmf_parameters()).unwrap().e_udbuvm;
    assert_eq!(result, expected as i128);
}

#[test]
fn calc_field_strength_for_line_at_km_with_one_sea_segment_cut_short() {
    let model = SyntheticModel;
    let distance = 523_500_000;
    let shorter_distance = 235_740_000;
    let segment = LineSegment::with_length(Terrain::Sea.parameters(), distance);
    let line = Line::with_segments(0, vec![segment]);
    let result = calc_field_strength_for_line_at_km(&model, &line, shorter_distance).unwrap();
    let mut parameters = segment.lfmf_parameters();
    parameters.d_mm = shorter_distance;
    let expected = model.evaluate(&parameters).unwrap().e_udbuvm;
    assert_eq!(result, expected as i128);
}

#[test]
fn calc_field_strength_for_line_at_km_with_two_segments() {
    let model = SyntheticModel;
    let distance = 193_920_300;
    let segments = vec![
        LineSegment::with_length(Terrain::Ground.parameters(), 50_000_000),
        LineSegment::with_length(Terrain::Sea.parameters(), 200_000_000),
    ];
    let line = Line::with_segments(0, segments);
    let result = calc_field_strength_for_line_at_km(&model, &line, distance).unwrap();
    let expected_field_strength = {
        let mut ground_parameters = Terrain::Ground.parameters();
        let mut sea_parameters = Terrain::Sea.parameters();

        let mut field_strength1: i128 = 0;
        ground_parameters.d_mm = 50_000_000;
        field_strength1 += model.evaluate(&ground_parameters).unwrap().e_udbuvm as i128;
        sea_parameters.d_mm = 50_000_000;
        field_strength1 -= model.evaluate(&sea_parameters).unwrap().e_udbuvm as i128;
        sea_parameters.d_mm = distance;
        field_strength1 += model.evaluate(&sea_parameters).unwrap().e_udbuvm as i128;

        let mut field_strength2: i128 = 0;
        sea_parameters.d_mm = distance - 50_000_000;
        field_strength2 += model.evaluate(&sea_parameters).unwrap().e_udbuvm as i128;
        ground_parameters.d_mm = distance - 50_000_000;
        field_strength2 -= model.evaluate(&ground_parameters).unwrap().e_udbuvm as i128;
        ground_parameters.d_mm = distance;
        field_strength2 += model.evaluate(&ground_parameters).unwrap().e_udbuvm as i128;

        (field_strength1 + field_strength2) / 2
    };
    assert_eq!(
        result, expected_field_strength,
        "Expected field strength of {} udBuVm, got {} udBuVm.",
        expected_field_strength, result
    );
}

#[test]
fn calc_field_strength_for_line_at_km_with_three_segments() {
    let model = SyntheticModel;
    let distance = 180_000_000;
    let segments = vec![
        LineSegment::with_length(Terrain::Ground.parameters(), 100_000_000),
        LineSegment::with_length(Terrain::Sea.parameters(), 50_000_000),
        LineSegment::with_length(Terrain::Ground.parameters(), 200_000_000),
    ];
    let line = Line::with_segments(0, segments);
    let result = calc_field_strength_for_line_at_km(&model, &line, distance).unwrap();
    let expected_field_strength = {
        let mut ground_parameters = Terrain::Ground.parameters();
        let mut sea_parameters = Terrain::Sea.parameters();

        let mut field_strength1: i128 = 0;
        ground_parameters.d_mm = 100_000_000;
        field_strength1 += model.evaluate(&ground_parameters).unwrap().e_udbuvm as i128;
        sea_parameters.d_mm = 100_000_000;
        field_strength1 -= model.evaluate(&sea_parameters).unwrap().e_udbuvm as i128;
        sea_parameters.d_mm = 150_000_000;
        field_strength1 += model.evaluate(&sea_parameters).unwrap().e_udbuvm as i128;
        ground_parameters.d_mm = 150_000_000;
        field_strength1 -= model.evaluate(&ground_parameters).unwrap().e_udbuvm as i128;
        ground_parameters.d_mm = 180_000_000;
        field_strength1 += model.evaluate(&ground_parameters).unwrap().e_udbuvm as i128;

        let mut field_strength2: i128 = 0;
        ground_parameters.d_mm = 30_000_000;
        field_strength2 += model.evaluate(&ground_parameters).unwrap().e_udbuvm as i128;
        sea_parameters.d_mm = 30_000_000;
        field_strength2 -= model.evaluate(&sea_parameters).unwrap().e_udbuvm as i128;
        sea_parameters.d_mm = 80_000_000;
        field_strength2 += model.evaluate(&sea_parameters).unwrap().e_udbuvm as i128;
        ground_parameters.d_mm = 80_000_000;
        field_strength2 -= model.evaluate(&ground_parameters).unwrap().e_udbuvm as i128;
        ground_parameters.d_mm = 180_000_000;
        field_strength2 += model.evaluate(&ground_parameters).unwrap().e_udbuvm as i128;

        (field_strength1 + field_strength2) / 2
    };
    assert_eq!(
        result, expected_field_strength,
        "Expected field strength of {} udBuVm, got {} udBuVm.",
        expected_field_strength, result
    );
}
