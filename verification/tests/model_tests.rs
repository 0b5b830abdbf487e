//! The synthetic propagation model, its validation, and the components
//! built directly on a model: the unbounded search, batch collection
//! and chart sampling.

use lfmf_coverage::batch::collect_results;
use lfmf_coverage::chart::{calc_points, ChartError};
use lfmf_coverage::model::SyntheticModel;
use lfmf_coverage::params::{FieldStrengthModel, Method, ParameterField, Polarization};
use lfmf_coverage::search::{
    find_max_distance_for_parameters, SearchError, SearchOutcome,
};
use lfmf_coverage::terrain::defaults::Terrain;
use lfmf_coverage::terrain::{Line, LineSegment};

const OLD_MIN_STRENGTH: i64 = 61_900_000;

#[test]
fn ground_preset_has_documented_parameters() {
    let p = Terrain::Ground.parameters();
    assert_eq!(p.h_tx_mm, 10_000);
    assert_eq!(p.h_rx_mm, 10_000);
    assert_eq!(p.f_hz, 1_000_000);
    assert_eq!(p.p_tx_mw, 10_000_000);
    assert_eq!(p.n_s_milli, 300_000);
    assert_eq!(p.epsilon_milli, 22_000);
    assert_eq!(p.sigma_micro, 3_000);
    assert_eq!(p.pol, Polarization::Vertical);
}

#[test]
fn sea_preset_has_documented_parameters() {
    let p = Terrain::Sea.parameters();
    assert_eq!(p.epsilon_milli, 70_000);
    assert_eq!(p.sigma_micro, 5_000_000);
    assert_eq!(p.pol, Polarization::Vertical);
}

#[test]
fn model_hits_the_ground_calibration_points() {
    let model = SyntheticModel;
    let p = Terrain::Ground.parameters();
    assert_eq!(model.evaluate(&p.with_distance(0)).unwrap().e_udbuvm, 100_000_000);
    assert_eq!(
        model.evaluate(&p.with_distance(48_700_000)).unwrap().e_udbuvm,
        61_900_000
    );
    assert_eq!(
        model.evaluate(&p.with_distance(123_283_000)).unwrap().e_udbuvm,
        43_200_000
    );
}

#[test]
fn model_hits_the_sea_calibration_points() {
    let model = SyntheticModel;
    let p = Terrain::Sea.parameters();
    assert_eq!(model.evaluate(&p.with_distance(0)).unwrap().e_udbuvm, 100_000_000);
    assert_eq!(
        model.evaluate(&p.with_distance(353_830_000)).unwrap().e_udbuvm,
        61_900_000
    );
    assert_eq!(
        model.evaluate(&p.with_distance(749_350_000)).unwrap().e_udbuvm,
        43_200_000
    );
}

#[test]
fn model_field_strength_decreases_with_distance() {
    let model = SyntheticModel;
    let p = Terrain::Ground.parameters();
    let near = model.evaluate(&p.with_distance(20_000_000)).unwrap().e_udbuvm;
    let far = model.evaluate(&p.with_distance(30_000_000)).unwrap().e_udbuvm;
    assert!(near > far);
}

#[test]
fn model_switches_method_past_the_knee() {
    let model = SyntheticModel;
    let p = Terrain::Ground.parameters();
    let near = model.evaluate(&p.with_distance(10_000_000)).unwrap();
    let far = model.evaluate(&p.with_distance(100_000_000)).unwrap();
    assert_eq!(near.method, Method::FlatEarthCurve);
    assert_eq!(far.method, Method::ResidueSeries);
}

#[test]
fn validation_rejects_each_out_of_range_field() {
    let model = SyntheticModel;
    let base = Terrain::Ground.parameters();

    let mut p = base;
    p.h_tx_mm = 60_000;
    let e = model.evaluate(&p).unwrap_err();
    assert_eq!(e.status, 1000);
    assert_eq!(e.field, ParameterField::TxHeight);
    assert_eq!(e.value, 60_000);
    assert_eq!((e.min, e.max), (0, 50_000));

    let mut p = base;
    p.h_rx_mm = 50_001;
    let e = model.evaluate(&p).unwrap_err();
    assert_eq!(e.status, 1001);
    assert_eq!(e.field, ParameterField::RxHeight);

    let mut p = base;
    p.f_hz = 5_000;
    let e = model.evaluate(&p).unwrap_err();
    assert_eq!(e.status, 1002);
    assert_eq!(e.field, ParameterField::Frequency);

    let mut p = base;
    p.f_hz = 40_000_000;
    assert_eq!(model.evaluate(&p).unwrap_err().status, 1002);

    let mut p = base;
    p.p_tx_mw = 0;
    let e = model.evaluate(&p).unwrap_err();
    assert_eq!(e.status, 1003);
    assert_eq!(e.field, ParameterField::TxPower);

    let mut p = base;
    p.n_s_milli = 100_000;
    let e = model.evaluate(&p).unwrap_err();
    assert_eq!(e.status, 1004);
    assert_eq!(e.field, ParameterField::Refractivity);

    let mut p = base;
    p.d_mm = 10_000_000_001;
    let e = model.evaluate(&p).unwrap_err();
    assert_eq!(e.status, 1005);
    assert_eq!(e.field, ParameterField::Distance);

    let mut p = base;
    p.epsilon_milli = 500;
    let e = model.evaluate(&p).unwrap_err();
    assert_eq!(e.status, 1006);
    assert_eq!(e.field, ParameterField::Permittivity);

    let mut p = base;
    p.sigma_micro = 0;
    let e = model.evaluate(&p).unwrap_err();
    assert_eq!(e.status, 1007);
    assert_eq!(e.field, ParameterField::Conductivity);
}

#[test]
fn validation_reports_the_first_out_of_range_field() {
    let model = SyntheticModel;
    let mut p = Terrain::Ground.parameters();
    p.h_tx_mm = 60_000;
    p.sigma_micro = 0;
    assert_eq!(model.evaluate(&p).unwrap_err().status, 1000);
}

#[test]
fn unbounded_search_finds_the_ground_threshold_distance() {
    let model = SyntheticModel;
    let p = Terrain::Ground.parameters();
    let outcome =
        find_max_distance_for_parameters(&model, OLD_MIN_STRENGTH, &p, 100_000_000).unwrap();
    let d = outcome.distance_mm() as i64;
    assert!(
        (d - 48_700_000).abs() < 10_000,
        "Expected about 48700000 mm, got {} mm",
        d
    );
}

#[test]
fn unbounded_search_fails_when_the_answer_is_beyond_the_ceiling() {
    let model = SyntheticModel;
    let p = Terrain::Ground.parameters();
    let result = find_max_distance_for_parameters(&model, OLD_MIN_STRENGTH, &p, 10_000_000);
    assert_eq!(
        result.unwrap_err(),
        SearchError::BeyondSearchCeiling { ceiling_mm: 10_000_000 }
    );
}

#[test]
fn unbounded_search_returns_the_ceiling_when_it_is_in_the_band() {
    let model = SyntheticModel;
    let p = Terrain::Ground.parameters();
    let ceiling = 100_000_000;
    let threshold = model.evaluate(&p.with_distance(ceiling)).unwrap().e_udbuvm;
    let outcome = find_max_distance_for_parameters(&model, threshold, &p, ceiling).unwrap();
    assert_eq!(outcome, SearchOutcome::Resolved { distance_mm: ceiling });
}

#[test]
fn unbounded_search_rejects_invalid_parameters() {
    let model = SyntheticModel;
    let mut p = Terrain::Ground.parameters();
    p.sigma_micro = 0;
    let result = find_max_distance_for_parameters(&model, OLD_MIN_STRENGTH, &p, 100_000_000);
    assert!(result.is_err());
}

#[test]
fn collect_results_returns_every_outcome_when_all_succeed() {
    let results = vec![
        Ok(SearchOutcome::Resolved { distance_mm: 1_000 }),
        Ok(SearchOutcome::BestEffort { distance_mm: 2_000 }),
    ];
    let collected = collect_results(&results).unwrap();
    assert_eq!(
        collected,
        vec![
            SearchOutcome::Resolved { distance_mm: 1_000 },
            SearchOutcome::BestEffort { distance_mm: 2_000 },
        ]
    );
}

#[test]
fn collect_results_reports_every_failure_with_its_index() {
    let results = vec![
        Ok(SearchOutcome::Resolved { distance_mm: 1_000 }),
        Err(SearchError::BeyondPathEnd { total_mm: 5_000 }),
        Ok(SearchOutcome::Resolved { distance_mm: 3_000 }),
        Err(SearchError::BeyondSearchCeiling { ceiling_mm: 7_000 }),
    ];
    let failures = collect_results(&results).unwrap_err();
    assert_eq!(
        failures,
        vec![
            (1, SearchError::BeyondPathEnd { total_mm: 5_000 }),
            (3, SearchError::BeyondSearchCeiling { ceiling_mm: 7_000 }),
        ]
    );
}

#[test]
fn calc_points_samples_every_whole_step_inside_the_path() {
    let model = SyntheticModel;
    let segment = LineSegment::with_length(Terrain::Ground.parameters(), 10_000_000);
    let line = Line::with_segments(0, vec![segment]);
    let points = calc_points(&model, &line, 2_500_000).unwrap();
    assert_eq!(points.len(), 3);
    let p = Terrain::Ground.parameters();
    for (i, point) in points.iter().enumerate() {
        let d = 2_500_000 * (i as u64 + 1);
        let expected = model.evaluate(&p.with_distance(d)).unwrap().e_udbuvm;
        assert_eq!(*point, (d, expected as i128));
    }
}

#[test]
fn calc_points_rejects_a_zero_step() {
    let model = SyntheticModel;
    let segment = LineSegment::with_length(Terrain::Ground.parameters(), 10_000_000);
    let line = Line::with_segments(0, vec![segment]);
    assert_eq!(calc_points(&model, &line, 0).unwrap_err(), ChartError::NonPositiveStep);
}

#[test]
fn calc_points_rejects_an_empty_line() {
    let model = SyntheticModel;
    let line = Line::new(0);
    assert_eq!(calc_points(&model, &line, 1_000_000).unwrap_err(), ChartError::EmptyLine);
}

#[test]
fn calc_points_rejects_a_line_longer_than_the_model_admits() {
    let model = SyntheticModel;
    let segment = LineSegment::with_length(Terrain::Ground.parameters(), 10_000_000_001);
    let line = Line::with_segments(0, vec![segment]);
    assert_eq!(
        calc_points(&model, &line, 1_000_000).unwrap_err(),
        ChartError::TooLong { total_mm: 10_000_000_001 }
    );
}
