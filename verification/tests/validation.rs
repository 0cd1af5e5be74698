use splotrs::validation::{dimensions_agree, first_repeated_name, InputError, InputSummary};

fn accepted_summary() -> InputSummary {
    InputSummary {
        event_dimensions: vec![1, 1, 1],
        n_pdfs: 2,
        coordinates_finite: true,
        max_steps: Some(1000),
        tolerance_valid: true,
        event_weight_count: None,
        event_weights_finite: true,
        shape_parameter_names: vec!["mean".to_string(), "width".to_string()],
        shape_parameter_values_valid: vec![true, true],
        initial_yield_count: None,
        initial_yields_valid: true,
    }
}

#[test]
fn well_formed_request_is_accepted() {
    assert_eq!(accepted_summary().validate(), Ok(()));
}

#[test]
fn request_without_step_limit_or_shapes_is_accepted() {
    let mut summary = accepted_summary();
    summary.max_steps = None;
    summary.shape_parameter_names = Vec::new();
    summary.shape_parameter_values_valid = Vec::new();
    summary.event_weight_count = Some(3);
    summary.initial_yield_count = Some(2);
    assert_eq!(summary.validate(), Ok(()));
}

#[test]
fn empty_data_is_refused_first() {
    let mut summary = accepted_summary();
    summary.event_dimensions = Vec::new();
    summary.n_pdfs = 0;
    summary.tolerance_valid = false;
    assert_eq!(summary.validate(), Err(InputError::EmptyData));
}

#[test]
fn missing_pdfs_are_refused() {
    let mut summary = accepted_summary();
    summary.n_pdfs = 0;
    summary.coordinates_finite = false;
    assert_eq!(summary.validate(), Err(InputError::NoPdfs));
}

#[test]
fn inconsistent_dimensions_are_refused() {
    let mut summary = accepted_summary();
    summary.event_dimensions = vec![2, 2, 3];
    assert_eq!(summary.validate(), Err(InputError::InconsistentDimension));
}

#[test]
fn zero_dimension_is_refused() {
    let mut summary = accepted_summary();
    summary.event_dimensions = vec![0, 0];
    assert_eq!(summary.validate(), Err(InputError::InconsistentDimension));
}

#[test]
fn non_finite_coordinates_are_refused() {
    let mut summary = accepted_summary();
    summary.coordinates_finite = false;
    summary.max_steps = Some(0);
    assert_eq!(summary.validate(), Err(InputError::NonFiniteCoordinate));
}

#[test]
fn zero_step_limit_is_refused() {
    let mut summary = accepted_summary();
    summary.max_steps = Some(0);
    summary.tolerance_valid = false;
    assert_eq!(summary.validate(), Err(InputError::ZeroMaxSteps));
}

#[test]
fn invalid_tolerance_is_refused() {
    let mut summary = accepted_summary();
    summary.tolerance_valid = false;
    summary.event_weight_count = Some(1);
    assert_eq!(summary.validate(), Err(InputError::InvalidTolerance));
}

#[test]
fn wrong_weight_count_is_refused_with_both_lengths() {
    let mut summary = accepted_summary();
    summary.event_weight_count = Some(2);
    summary.event_weights_finite = false;
    assert_eq!(
        summary.validate(),
        Err(InputError::EventWeightCount { found: 2, expected: 3 })
    );
}

#[test]
fn non_finite_weights_are_refused() {
    let mut summary = accepted_summary();
    summary.event_weight_count = Some(3);
    summary.event_weights_finite = false;
    assert_eq!(summary.validate(), Err(InputError::NonFiniteEventWeight));
}

#[test]
fn weight_finiteness_is_ignored_without_weights() {
    let mut summary = accepted_summary();
    summary.event_weight_count = None;
    summary.event_weights_finite = false;
    assert_eq!(summary.validate(), Ok(()));
}

#[test]
fn duplicate_shape_names_are_refused_at_the_repeat() {
    let mut summary = accepted_summary();
    summary.shape_parameter_names = vec![
        "mean".to_string(),
        "width".to_string(),
        "slope".to_string(),
        "width".to_string(),
        "mean".to_string(),
    ];
    summary.shape_parameter_values_valid = vec![false; 5];
    summary.initial_yields_valid = false;
    assert_eq!(
        summary.validate(),
        Err(InputError::DuplicateShapeParameter { index: 3 })
    );
}

#[test]
fn wrong_initial_yield_count_is_refused() {
    let mut summary = accepted_summary();
    summary.initial_yield_count = Some(3);
    assert_eq!(summary.validate(), Err(InputError::InvalidInitialYields));
}

#[test]
fn invalid_initial_yield_values_are_refused() {
    let mut summary = accepted_summary();
    summary.initial_yields_valid = false;
    assert_eq!(summary.validate(), Err(InputError::InvalidInitialYields));
}

#[test]
fn dimensions_agree_on_examples() {
    assert!(dimensions_agree(&vec![3]));
    assert!(dimensions_agree(&vec![2, 2, 2]));
    assert!(!dimensions_agree(&vec![0]));
    assert!(!dimensions_agree(&vec![2, 2, 1]));
}

#[test]
fn first_repeated_name_finds_smallest_repeating_index() {
    let names: Vec<String> = ["a", "b", "c", "b", "a"].iter().map(|s| s.to_string()).collect();
    assert_eq!(first_repeated_name(&names), Some(3));
    let distinct: Vec<String> = ["a", "b", "c"].iter().map(|s| s.to_string()).collect();
    assert_eq!(first_repeated_name(&distinct), None);
    assert_eq!(first_repeated_name(&Vec::new()), None);
    let same: Vec<String> = vec!["x".to_string(), "x".to_string()];
    assert_eq!(first_repeated_name(&same), Some(1));
}

#[test]
fn shape_parameter_with_invalid_values_is_refused_at_its_index() {
    let mut summary = accepted_summary();
    summary.shape_parameter_values_valid = vec![true, false];
    summary.initial_yields_valid = false;
    assert_eq!(
        summary.validate(),
        Err(InputError::InvalidShapeParameter { index: 1 })
    );
}

#[test]
fn shape_parameter_with_empty_name_is_refused() {
    let mut summary = accepted_summary();
    summary.shape_parameter_names = vec!["mean".to_string(), String::new()];
    assert_eq!(
        summary.validate(),
        Err(InputError::InvalidShapeParameter { index: 1 })
    );
}

#[test]
fn shape_parameter_without_a_values_entry_is_refused() {
    let mut summary = accepted_summary();
    summary.shape_parameter_values_valid = vec![true];
    assert_eq!(
        summary.validate(),
        Err(InputError::InvalidShapeParameter { index: 1 })
    );
}

#[test]
fn first_malformed_shape_parameter_is_the_smallest_index() {
    let mut summary = accepted_summary();
    summary.shape_parameter_names =
        vec!["a".to_string(), "b".to_string(), String::new(), "d".to_string()];
    summary.shape_parameter_values_valid = vec![true, true, true, false];
    assert_eq!(summary.first_malformed_shape_parameter(), Some(2));
    summary.shape_parameter_names[2] = "c".to_string();
    assert_eq!(summary.first_malformed_shape_parameter(), Some(3));
    summary.shape_parameter_values_valid[3] = true;
    assert_eq!(summary.first_malformed_shape_parameter(), None);
}
