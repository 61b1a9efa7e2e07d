use vstd::prelude::*;

verus! {

/// Millionths per unit: every reading, threshold and coordinate is a
/// fixed-point integer at this scale.
pub const SCALE: i64 = 1_000_000;

/// A named external data provider.
#[derive(Clone, Debug)]
pub struct DataSource {
    /// Source name, such as "open-meteo".
    pub name: String,
    /// Endpoint template with `{latitude}`, `{longitude}`, `{date}` and `{hour}` placeholders.
    pub url_template: String,
    /// Dot-separated path of object keys and bracketed array indices.
    pub extraction_path: String,
}

/// The outcome of querying one data source.
#[derive(Clone, Debug)]
pub struct SourceResponse {
    /// Source name.
    pub source: String,
    /// Extracted reading, in millionths of the metric's unit.
    pub value: i64,
    /// Time the data point was taken (ISO 8601).
    pub timestamp: String,
    /// Raw response body, truncated for storage.
    pub raw_response: Option<String>,
    /// Whether a reading was obtained.
    pub success: bool,
    /// Why no reading was obtained.
    pub error: Option<String>,
}

/// Parameters of a weather threshold claim.
#[derive(Clone, Debug)]
pub struct WeatherThresholdParams {
    /// Latitude, in millionths of a degree.
    pub latitude: i64,
    /// Longitude, in millionths of a degree.
    pub longitude: i64,
    /// Location name, for display.
    pub location: String,
    /// Metric to check, such as "temperature_2m".
    pub metric: String,
    /// Relational operator: ">", "<", ">=", "<=" or "==".
    pub operator: String,
    /// Threshold, in millionths of the metric's unit.
    pub threshold: i64,
    /// Time window in minutes around the deadline.
    pub time_window_minutes: u32,
}

/// Parameters of a price threshold claim.
#[derive(Clone, Debug)]
pub struct PriceThresholdParams {
    pub symbol: String,
    pub operator: String,
    /// Threshold, in millionths of the price unit.
    pub threshold: i64,
    pub time_window_minutes: u32,
}

/// Claim-specific parameters, one variant per claim type.
#[derive(Clone, Debug)]
pub enum ClaimParams {
    WeatherThreshold(WeatherThresholdParams),
    PriceThreshold(PriceThresholdParams),
}

/// What to resolve.
#[derive(Clone, Debug)]
pub struct ClaimSpec {
    /// Claim object identifier.
    pub claim_id: String,
    /// Type of claim, such as "weather_threshold".
    pub claim_type: String,
    /// Human-readable description.
    pub description: String,
    /// Claim-specific parameters.
    pub params: ClaimParams,
    /// Data sources to query, in order.
    pub sources: Vec<DataSource>,
    /// Aggregation strategy: "median", "mean" or "majority".
    pub aggregator: String,
    /// Point in time the claim concerns (ISO 8601).
    pub deadline: String,
    /// Version of the resolution policy.
    pub policy_version: String,
}

/// An exact fraction `num / den` of millionths: the aggregate of a set of
/// readings.
#[derive(Clone, Copy, Debug, PartialEq, Eq, Structural)]
pub struct Fraction {
    pub num: i128,
    pub den: i128,
}

impl Fraction {
    /// A positive denominator that fits an `i64`, and a value within twice the
    /// range of an `i64`.
    pub open spec fn wf(self) -> bool {
        &&& 1 <= self.den <= i64::MAX
        &&& -self.den * 0x1_0000_0000_0000_0000 <= self.num <= self.den
            * 0x1_0000_0000_0000_0000
    }

    /// The fraction `value / 1`.
    pub fn whole(value: i64) -> (r: Fraction)
        ensures
            r.wf(),
            r.num == value,
            r.den == 1,
    {
        Fraction { num: value as i128, den: 1 }
    }
}

/// The computed outcome of a claim resolution.
#[derive(Clone, Debug)]
pub struct ResolutionResult {
    pub claim_id: String,
    /// Final verdict (true = YES, false = NO).
    pub verdict: bool,
    /// One response per data source, in declaration order.
    pub source_responses: Vec<SourceResponse>,
    /// Aggregated value, in millionths.
    pub aggregated_value: Fraction,
    /// Threshold used, in millionths.
    pub threshold: i64,
    /// Operator used.
    pub operator: String,
    /// Resolution timestamp (ISO 8601).
    pub resolved_at: String,
    /// Hex-encoded enclave measurement.
    pub enclave_measurement: String,
}

/// A fatal error: no result and no attestation are produced.
#[derive(Clone, Copy, Debug, PartialEq, Eq, Structural)]
pub enum ResolveError {
    /// Every source failed.
    NoSuccessfulResponses,
    /// The aggregator name is not "median", "mean" or "majority".
    UnknownAggregator,
    /// The operator is not ">", "<", ">=", "<=" or "==".
    UnknownOperator,
    /// The claim type is not "weather_threshold".
    UnsupportedClaimType,
    /// The parameters do not belong to the claim type.
    InvalidParams,
    /// The measurement is not 32 bytes or the signature is not 64 bytes.
    MalformedAttestation,
}

} // verus!
