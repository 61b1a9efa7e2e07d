use enclave::extract::{extract_value, ExtractError, Json, Member};
use enclave::number::parse_decimal_micros;
use enclave::types::{DataSource, WeatherThresholdParams, SCALE};
use enclave::url::{build_url, format_date, format_micros};
use enclave::weather::response_from_body;

fn member(key: &str, value: Json) -> Member {
    Member { key: key.to_string(), value }
}

fn forecast() -> Json {
    Json::Object(vec![
        member("latitude", Json::Number("51.5".to_string())),
        member(
            "hourly",
            Json::Object(vec![
                member(
                    "temperature_2m",
                    Json::Array(vec![
                        Json::Number("12.5".to_string()),
                        Json::Number("-3".to_string()),
                    ]),
                ),
                member("pressure", Json::Array(vec![Json::Str("1013.25".to_string())])),
                member("flag", Json::Array(vec![Json::Bool(true), Json::Null])),
            ]),
        ),
    ])
}

#[test]
fn extracts_nested_numbers() {
    let j = forecast();
    assert_eq!(extract_value(&j, "hourly.temperature_2m.[0]"), Ok(12_500_000));
    assert_eq!(extract_value(&j, "hourly.temperature_2m.[1]"), Ok(-3 * SCALE));
    assert_eq!(extract_value(&j, "hourly.pressure.[0]"), Ok(1_013_250_000));
    assert_eq!(extract_value(&j, "latitude"), Ok(51_500_000));
}

#[test]
fn extraction_failures() {
    let j = forecast();
    assert_eq!(extract_value(&j, "hourly.temperature_2m.[2]"), Err(ExtractError::IndexOutOfBounds));
    assert_eq!(extract_value(&j, "hourly.humidity"), Err(ExtractError::KeyNotFound));
    assert_eq!(extract_value(&j, "hourly.temperature_2m.[x]"), Err(ExtractError::BadIndex));
    assert_eq!(extract_value(&j, "hourly.flag.[0]"), Err(ExtractError::NotANumber));
    assert_eq!(extract_value(&j, "hourly"), Err(ExtractError::NotANumber));
    assert_eq!(extract_value(&j, "latitude.[0]"), Err(ExtractError::IndexOutOfBounds));
    assert_eq!(extract_value(&j, "hourly.temperature_2m.x"), Err(ExtractError::KeyNotFound));
}

#[test]
fn decimal_text_to_millionths() {
    assert_eq!(parse_decimal_micros("15"), Some(15 * SCALE));
    assert_eq!(parse_decimal_micros("10.0005"), Some(10_000_500));
    assert_eq!(parse_decimal_micros("-0.1278"), Some(-127_800));
    assert_eq!(parse_decimal_micros("+2."), Some(2 * SCALE));
    assert_eq!(parse_decimal_micros(".5"), Some(500_000));
    assert_eq!(parse_decimal_micros("1.23456789"), Some(1_234_567));
    assert_eq!(parse_decimal_micros("-1.23456789"), Some(-1_234_567));
    assert_eq!(parse_decimal_micros("9223372036854.775807"), Some(i64::MAX));
    assert_eq!(parse_decimal_micros("-9223372036854.775808"), Some(i64::MIN));
    assert_eq!(parse_decimal_micros("9223372036854.775808"), None);
    assert_eq!(parse_decimal_micros("abc"), None);
    assert_eq!(parse_decimal_micros(""), None);
    assert_eq!(parse_decimal_micros("."), None);
    assert_eq!(parse_decimal_micros("1.2.3"), None);
    assert_eq!(parse_decimal_micros("-"), None);
}

#[test]
fn response_from_body_records_failure() {
    let s = DataSource {
        name: "open-meteo".to_string(),
        url_template: "".to_string(),
        extraction_path: "hourly.temperature_2m.[0]".to_string(),
    };
    let r = response_from_body(&s, &forecast(), "{}", "t".to_string());
    assert!(r.success);
    assert_eq!(r.value, 12_500_000);
    assert_eq!(r.raw_response.as_deref(), Some("{}"));
    let bad = DataSource { extraction_path: "hourly.missing".to_string(), ..s };
    let r = response_from_body(&bad, &forecast(), "{}", "t".to_string());
    assert!(!r.success);
    assert_eq!(r.value, 0);
    assert!(r.error.is_some());
    assert_eq!(r.source, "open-meteo");
}

#[test]
fn coordinates_as_text() {
    assert_eq!(format_micros(51_507_400), "51.5074");
    assert_eq!(format_micros(-127_800), "-0.1278");
    assert_eq!(format_micros(10 * SCALE), "10");
    assert_eq!(format_micros(0), "0");
    assert_eq!(format_micros(-1), "-0.000001");
    assert_eq!(format_micros(i64::MIN), "-9223372036854.775808");
    assert_eq!(format_date(2025, 3, 7), "2025-03-07");
}

#[test]
fn url_from_template() {
    let params = WeatherThresholdParams {
        latitude: 51_507_400,
        longitude: -127_800,
        location: "London".to_string(),
        metric: "temperature_2m".to_string(),
        operator: ">".to_string(),
        threshold: 10 * SCALE,
        time_window_minutes: 10,
    };
    let t = "https://api.example.com/v1?lat={latitude}&lon={longitude}&date={date}&hour={hour}";
    assert_eq!(
        build_url(t, &params, "2025-11-15T12:00:00Z").unwrap(),
        "https://api.example.com/v1?lat=51.5074&lon=-0.1278&date=2025-11-15&hour=12"
    );
    assert_eq!(
        build_url("d={date}T{hour}", &params, "2025-11-15T23:30:00-02:00").unwrap(),
        "d=2025-11-16T01"
    );
    assert_eq!(
        build_url("{unknown}/{date}/{date}", &params, "2025-01-02T03:04:05Z").unwrap(),
        "{unknown}/2025-01-02/2025-01-02"
    );
    assert_eq!(build_url(t, &params, "yesterday"), None);
}

#[test]
fn extraction_error_messages() {
    assert_eq!(ExtractError::KeyNotFound.message(), "key not found");
    assert_eq!(ExtractError::BadIndex.message(), "index is not a number");
}
