use ai_model_service::model::{
    get_model, FpOp, LinearRegressionModel, ValidationError, EXPECTED_FEATURES,
};

fn fpu(op: FpOp, a: u64, b: u64) -> u64 {
    let x = f64::from_bits(a);
    let y = f64::from_bits(b);
    let r = match op {
        FpOp::Add => x + y,
        FpOp::Sub => x - y,
        FpOp::Mul => x * y,
        FpOp::Div => x / y,
    };
    r.to_bits()
}

fn to_bits(xs: &[f64]) -> Vec<u64> {
    let mut v = Vec::new();
    for x in xs {
        v.push(x.to_bits());
    }
    v
}

#[test]
fn test_model_creation() {
    let model = LinearRegressionModel::new();
    assert_eq!(model.weights.len(), EXPECTED_FEATURES);
    assert_eq!(model.bias, (2.5f64).to_bits());
}

#[test]
fn test_valid_prediction() {
    let model = LinearRegressionModel::new();
    let features = to_bits(&[1.0; 10]);
    let result = model.predict(&features, fpu);

    assert!(result.is_ok());
    let response = result.unwrap();
    let confidence = f64::from_bits(response.confidence_bits);
    assert!(confidence >= 0.85 && confidence <= 1.0);
    assert_eq!(response.model_version, "v1.0.0");
}

#[test]
fn test_invalid_feature_count() {
    let model = LinearRegressionModel::new();
    let features = to_bits(&[1.0; 5]);
    let result = model.predict(&features, fpu);

    assert!(result.is_err());
}

#[test]
fn test_invalid_feature_values() {
    let model = LinearRegressionModel::new();
    let mut raw = [1.0f64; 10];
    raw[0] = f64::NAN;
    let features = to_bits(&raw);
    let result = model.predict(&features, fpu);

    assert!(result.is_err());
}

#[test]
fn test_shared_model_identical_parameters() {
    let model1 = get_model();
    let model2 = get_model();
    assert_eq!(model1.weights, model2.weights);
    assert_eq!(model1.bias, model2.bias);
}

#[test]
fn test_linear_regression_model_creation() {
    let model = LinearRegressionModel::new();
    assert!(std::mem::size_of_val(&model) > 0);
}

#[test]
fn test_prediction_with_valid_input() {
    let model = LinearRegressionModel::new();
    let features = to_bits(&[1.0, 2.0, 3.0, 4.0, 5.0, 6.0, 7.0, 8.0, 9.0, 10.0]);

    let result = model.predict(&features, fpu);
    assert!(result.is_ok());

    let response = result.unwrap();
    let confidence = f64::from_bits(response.confidence_bits);
    assert!(confidence >= 0.85 && confidence <= 1.0);
    assert_eq!(response.model_version, "v1.0.0");
    assert!(f64::from_bits(response.prediction_bits).is_finite());
}

#[test]
fn test_prediction_with_invalid_feature_count() {
    let model = LinearRegressionModel::new();
    let features = to_bits(&[1.0, 2.0, 3.0]);

    let result = model.predict(&features, fpu);
    assert!(result.is_err());
}

#[test]
fn test_prediction_with_infinite_values() {
    let model = LinearRegressionModel::new();
    let mut raw = [1.0f64; 10];
    raw[0] = f64::INFINITY;

    let result = model.predict(&to_bits(&raw), fpu);
    assert!(result.is_err());
}

#[test]
fn test_prediction_with_nan_values() {
    let model = LinearRegressionModel::new();
    let mut raw = [1.0f64; 10];
    raw[5] = f64::NAN;

    let result = model.predict(&to_bits(&raw), fpu);
    assert!(result.is_err());
}

#[test]
fn test_confidence_score_range() {
    let model = LinearRegressionModel::new();
    let test_cases = vec![
        vec![0.0; 10],
        vec![1.0; 10],
        vec![-1.0; 10],
        vec![10.0; 10],
        vec![-10.0; 10],
    ];

    for features in test_cases {
        let result = model.predict(&to_bits(&features), fpu);
        assert!(result.is_ok());
        let response = result.unwrap();
        let confidence = f64::from_bits(response.confidence_bits);
        assert!(
            confidence >= 0.85 && confidence <= 1.0,
            "Confidence {} not in range [0.85, 1.0]",
            confidence
        );
    }
}

#[test]
fn test_prediction_deterministic() {
    let model = LinearRegressionModel::new();
    let features = to_bits(&[1.0, 2.0, 3.0, 4.0, 5.0, 6.0, 7.0, 8.0, 9.0, 10.0]);

    let result1 = model.predict(&features, fpu).unwrap();
    let result2 = model.predict(&features, fpu).unwrap();

    assert_eq!(result1.prediction_bits, result2.prediction_bits);
    assert_eq!(result1.confidence_bits, result2.confidence_bits);
    assert_eq!(result1.model_version, result2.model_version);
}

#[test]
fn test_model_version_constant() {
    let model = LinearRegressionModel::new();
    let features = to_bits(&[1.0; 10]);
    let result = model.predict(&features, fpu).unwrap();

    assert_eq!(result.model_version, "v1.0.0");
}

#[test]
fn test_known_scenario_exact_prediction() {
    // the dot product of the fixed weights with 1..=10, plus the bias,
    // evaluated left to right as the engine does
    let model = LinearRegressionModel::new();
    let raw = [1.0f64, 2.0, 3.0, 4.0, 5.0, 6.0, 7.0, 8.0, 9.0, 10.0];
    let weights = [0.15f64, -0.23, 0.87, -0.45, 0.67, 0.34, -0.12, 0.89, -0.56, 0.78];

    let mut acc = 0.0f64;
    for i in 0..10 {
        acc += weights[i] * raw[i];
    }
    let expected_prediction = acc + 2.5;

    let distance = (expected_prediction - 2.5).abs();
    let normalized = (distance / 50.0).min(1.0);
    let expected_confidence = 0.85 + (1.0 - normalized) * 0.15;

    let response = model.predict(&to_bits(&raw), fpu).unwrap();
    assert_eq!(response.prediction_bits, expected_prediction.to_bits());
    assert_eq!(response.confidence_bits, expected_confidence.to_bits());
    assert!(expected_confidence >= 0.85 && expected_confidence <= 1.0);
}

#[test]
fn test_wrong_count_error_reports_actual_length() {
    let model = LinearRegressionModel::new();
    let features = to_bits(&[1.0, 2.0, 3.0]);
    let err = model.validate_features(&features).unwrap_err();
    assert_eq!(err, ValidationError::WrongFeatureCount { expected: 10, actual: 3 });
}

#[test]
fn test_non_finite_error_reports_first_index() {
    let model = LinearRegressionModel::new();
    let mut raw = [1.0f64; 10];
    raw[2] = f64::NEG_INFINITY;
    raw[7] = f64::NAN;
    let err = model.validate_features(&to_bits(&raw)).unwrap_err();
    assert_eq!(
        err,
        ValidationError::NonFiniteValue { index: 2, value_bits: f64::NEG_INFINITY.to_bits() }
    );
}

#[test]
fn test_validate_accepts_exact_length() {
    let model = LinearRegressionModel::new();
    let features = to_bits(&[0.5; 10]);
    assert!(model.validate_features(&features).is_ok());
}

#[test]
fn test_empty_features_rejected() {
    let model = LinearRegressionModel::new();
    let features: Vec<u64> = Vec::new();
    let err = model.validate_features(&features).unwrap_err();
    assert_eq!(err, ValidationError::WrongFeatureCount { expected: 10, actual: 0 });
}
