use enclave::aggregate::{
    aggregate, calculate_majority, calculate_mean, calculate_median, evaluate_condition,
    parse_aggregator, parse_operator, Aggregator, Operator,
};
use enclave::types::{
    ClaimParams, ClaimSpec, DataSource, Fraction, PriceThresholdParams, ResolveError,
    SourceResponse, WeatherThresholdParams, SCALE,
};
use enclave::weather::{
    failed_response, resolve_weather_claim, successful_response, successful_values,
    truncate_response,
};

fn reading(name: &str, value: i64) -> SourceResponse {
    SourceResponse {
        source: name.to_string(),
        value,
        timestamp: "".to_string(),
        raw_response: None,
        success: true,
        error: None,
    }
}

fn as_units(f: Fraction) -> f64 {
    f.num as f64 / f.den as f64 / SCALE as f64
}

fn source(name: &str) -> DataSource {
    DataSource {
        name: name.to_string(),
        url_template: "https://example.com/{date}".to_string(),
        extraction_path: "value".to_string(),
    }
}

fn claim(sources: Vec<DataSource>, aggregator: &str, operator: &str, threshold: i64) -> ClaimSpec {
    ClaimSpec {
        claim_id: "claim-7".to_string(),
        claim_type: "weather_threshold".to_string(),
        description: "Temperature above threshold".to_string(),
        params: ClaimParams::WeatherThreshold(WeatherThresholdParams {
            latitude: 51_507_400,
            longitude: -127_800,
            location: "London".to_string(),
            metric: "temperature_2m".to_string(),
            operator: operator.to_string(),
            threshold,
            time_window_minutes: 10,
        }),
        sources,
        aggregator: aggregator.to_string(),
        deadline: "2025-11-15T12:00:00Z".to_string(),
        policy_version: "v1".to_string(),
    }
}

#[test]
fn test_evaluate_condition() {
    assert!(evaluate_condition(Fraction::whole(15 * SCALE), ">", 10 * SCALE).unwrap());
    assert!(!evaluate_condition(Fraction::whole(5 * SCALE), ">", 10 * SCALE).unwrap());
    assert!(evaluate_condition(Fraction::whole(10 * SCALE), ">=", 10 * SCALE).unwrap());
    assert!(evaluate_condition(Fraction::whole(5 * SCALE), "<", 10 * SCALE).unwrap());
}

#[test]
fn test_median() {
    let responses = vec![
        SourceResponse {
            source: "a".to_string(),
            value: 10 * SCALE,
            timestamp: "".to_string(),
            raw_response: None,
            success: true,
            error: None,
        },
        SourceResponse {
            source: "b".to_string(),
            value: 20 * SCALE,
            timestamp: "".to_string(),
            raw_response: None,
            success: true,
            error: None,
        },
        SourceResponse {
            source: "c".to_string(),
            value: 15 * SCALE,
            timestamp: "".to_string(),
            raw_response: None,
            success: true,
            error: None,
        },
    ];
    assert_eq!(as_units(calculate_median(&responses)), 15.0);
}

#[test]
fn median_of_even_count_is_mean_of_middle_pair() {
    let rs = vec![reading("a", 10 * SCALE), reading("b", 20 * SCALE)];
    assert_eq!(calculate_median(&rs), Fraction { num: 30 * SCALE as i128, den: 2 });
    assert_eq!(as_units(calculate_median(&rs)), 15.0);
    let rs = vec![
        reading("a", 4),
        reading("b", -3),
        reading("c", 9),
        reading("d", 1),
    ];
    assert_eq!(calculate_median(&rs), Fraction { num: 5, den: 2 });
}

#[test]
fn median_with_equal_values() {
    let rs = vec![reading("a", 7), reading("b", 7), reading("c", 2)];
    assert_eq!(calculate_median(&rs), Fraction { num: 7, den: 1 });
}

#[test]
fn mean_is_arithmetic_average() {
    let rs = vec![
        reading("a", 10 * SCALE),
        reading("b", 20 * SCALE),
        reading("c", 15 * SCALE),
    ];
    let m = calculate_mean(&rs);
    assert_eq!(m, Fraction { num: 45 * SCALE as i128, den: 3 });
    assert_eq!(as_units(m), 15.0);
}

#[test]
fn mean_of_extreme_readings_does_not_overflow() {
    let rs = vec![reading("a", i64::MAX), reading("b", i64::MAX)];
    assert_eq!(calculate_mean(&rs), Fraction { num: 2 * i64::MAX as i128, den: 2 });
}

#[test]
fn majority_sentinel() {
    let rs = vec![
        reading("a", 12 * SCALE),
        reading("b", 11 * SCALE),
        reading("c", 3 * SCALE),
    ];
    assert_eq!(
        calculate_majority(&rs, Operator::Gt, 10 * SCALE),
        Fraction::whole(11 * SCALE)
    );
    // a tie is no majority
    let rs = vec![reading("a", 12 * SCALE), reading("b", 3 * SCALE)];
    assert_eq!(
        calculate_majority(&rs, Operator::Gt, 10 * SCALE),
        Fraction::whole(9 * SCALE)
    );
}

#[test]
fn condition_scenarios() {
    assert!(evaluate_condition(Fraction::whole(15 * SCALE), ">", 10 * SCALE).unwrap());
    assert!(!evaluate_condition(Fraction::whole(5 * SCALE), ">", 10 * SCALE).unwrap());
    assert!(evaluate_condition(Fraction::whole(10 * SCALE), ">=", 10 * SCALE).unwrap());
    assert!(evaluate_condition(Fraction::whole(10_000_500), "==", 10 * SCALE).unwrap());
    assert!(!evaluate_condition(Fraction::whole(10_010_000), "==", 10 * SCALE).unwrap());
    assert!(evaluate_condition(Fraction::whole(10 * SCALE), "<=", 10 * SCALE).unwrap());
    assert!(!evaluate_condition(Fraction::whole(10 * SCALE), "<", 10 * SCALE).unwrap());
    // 0.001 apart is not equal
    assert!(!evaluate_condition(Fraction::whole(10_001_000), "==", 10 * SCALE).unwrap());
    // 20000001 / 2 millionths is 10.0000005
    assert!(evaluate_condition(Fraction { num: 20_000_001, den: 2 }, ">", 10 * SCALE).unwrap());
}

#[test]
fn unknown_operator_is_an_error() {
    assert_eq!(
        evaluate_condition(Fraction::whole(1), "=>", 0),
        Err(ResolveError::UnknownOperator)
    );
    assert_eq!(parse_operator("!="), None);
    assert_eq!(parse_operator("<="), Some(Operator::Le));
    assert_eq!(parse_aggregator("majority"), Some(Aggregator::Majority));
    assert_eq!(parse_aggregator("Median"), None);
}

#[test]
fn aggregation_errors() {
    let empty: Vec<i64> = vec![];
    for name in ["median", "mean", "majority", "mode"] {
        assert_eq!(
            aggregate(&empty, name, ">", 0),
            Err(ResolveError::NoSuccessfulResponses)
        );
    }
    assert_eq!(aggregate(&[1, 2], "mode", ">", 0), Err(ResolveError::UnknownAggregator));
    assert_eq!(aggregate(&[1, 2], "majority", "~", 0), Err(ResolveError::UnknownOperator));
    assert_eq!(aggregate(&[1, 2], "mean", ">", 0), Ok(Fraction { num: 3, den: 2 }));
}

#[test]
fn all_failed_sources_are_fatal() {
    for name in ["median", "mean", "majority"] {
        let spec = claim(vec![source("a"), source("b")], name, ">", 10 * SCALE);
        let responses = vec![
            failed_response(&spec.sources[0], "network error".to_string(), "t".to_string()),
            failed_response(&spec.sources[1], "HTTP error: 500".to_string(), "t".to_string()),
        ];
        assert!(successful_values(&responses).is_empty());
        let r = resolve_weather_claim(&spec, responses, "t".to_string(), "00".to_string());
        assert_eq!(r.err(), Some(ResolveError::NoSuccessfulResponses));
    }
}

#[test]
fn end_to_end_median_scenario() {
    let spec = claim(vec![source("a"), source("b"), source("c")], "median", ">", 10 * SCALE);
    let responses = vec![
        successful_response(&spec.sources[0], 10 * SCALE, "{\"value\": 10.0}", "t".to_string()),
        successful_response(&spec.sources[1], 20 * SCALE, "{\"value\": 20.0}", "t".to_string()),
        successful_response(&spec.sources[2], 15 * SCALE, "{\"value\": 15.0}", "t".to_string()),
    ];
    let result =
        resolve_weather_claim(&spec, responses, "now".to_string(), "ab".to_string()).unwrap();
    assert_eq!(as_units(result.aggregated_value), 15.0);
    assert!(result.verdict);
    assert_eq!(result.claim_id, "claim-7");
    assert_eq!(result.operator, ">");
    assert_eq!(result.threshold, 10 * SCALE);
    let names: Vec<&str> = result.source_responses.iter().map(|r| r.source.as_str()).collect();
    assert_eq!(names, vec!["a", "b", "c"]);
}

#[test]
fn end_to_end_mean_with_failed_source() {
    let spec = claim(vec![source("a"), source("b")], "mean", ">", 10 * SCALE);
    let responses = vec![
        failed_response(&spec.sources[0], "network error".to_string(), "t".to_string()),
        successful_response(&spec.sources[1], 5 * SCALE, "{\"value\": 5}", "t".to_string()),
    ];
    let result =
        resolve_weather_claim(&spec, responses, "now".to_string(), "ab".to_string()).unwrap();
    assert_eq!(as_units(result.aggregated_value), 5.0);
    assert!(!result.verdict);
    assert_eq!(result.source_responses.len(), 2);
    assert_eq!(result.source_responses[0].source, "a");
    assert!(!result.source_responses[0].success);
    assert_eq!(result.source_responses[0].error.as_deref(), Some("network error"));
    assert_eq!(result.source_responses[1].source, "b");
}

#[test]
fn resolution_configuration_errors() {
    let mut spec = claim(vec![source("a")], "median", ">", 0);
    spec.claim_type = "price_threshold".to_string();
    let r = resolve_weather_claim(&spec, vec![reading("a", 1)], "t".to_string(), "".to_string());
    assert_eq!(r.err(), Some(ResolveError::UnsupportedClaimType));

    let mut spec = claim(vec![source("a")], "median", ">", 0);
    spec.params = ClaimParams::PriceThreshold(PriceThresholdParams {
        symbol: "SUI".to_string(),
        operator: ">".to_string(),
        threshold: 0,
        time_window_minutes: 5,
    });
    let r = resolve_weather_claim(&spec, vec![reading("a", 1)], "t".to_string(), "".to_string());
    assert_eq!(r.err(), Some(ResolveError::InvalidParams));

    let spec = claim(vec![source("a")], "median", "=>", 0);
    let r = resolve_weather_claim(&spec, vec![reading("a", 1)], "t".to_string(), "".to_string());
    assert_eq!(r.err(), Some(ResolveError::UnknownOperator));

    let spec = claim(vec![source("a")], "average", ">", 0);
    let r = resolve_weather_claim(&spec, vec![reading("a", 1)], "t".to_string(), "".to_string());
    assert_eq!(r.err(), Some(ResolveError::UnknownAggregator));
}

#[test]
fn majority_end_to_end() {
    let spec = claim(vec![source("a"), source("b"), source("c")], "majority", ">", 10 * SCALE);
    let responses = vec![reading("a", 11 * SCALE), reading("b", 2 * SCALE), reading("c", 12 * SCALE)];
    let result = resolve_weather_claim(&spec, responses, "t".to_string(), "".to_string()).unwrap();
    assert_eq!(result.aggregated_value, Fraction::whole(11 * SCALE));
    assert!(result.verdict);
}

#[test]
fn truncation_keeps_short_bodies() {
    assert_eq!(truncate_response("short", 500), "short");
    let long = "x".repeat(501);
    let t = truncate_response(&long, 500);
    assert_eq!(t, format!("{}... (truncated)", "x".repeat(500)));
    assert_eq!(truncate_response(&"y".repeat(500), 500), "y".repeat(500));
    assert_eq!(truncate_response("héllo", 2), "hé... (truncated)");
}

#[test]
fn successful_response_truncates_body() {
    let s = source("a");
    let body = "z".repeat(600);
    let r = successful_response(&s, 42, &body, "t".to_string());
    assert_eq!(r.raw_response.unwrap().len(), 500 + "... (truncated)".len());
    assert!(r.success);
    assert_eq!(r.value, 42);
}
