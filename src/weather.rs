use vstd::prelude::*;
use crate::aggregate::{
    aggregate, aggregate_spec, evaluate_condition, holds, operator_of, str_eq, values_of,
};
use crate::extract::{extract_value, extraction_of, Json};
use crate::types::{
    ClaimParams, ClaimSpec, DataSource, ResolutionResult, ResolveError, SourceResponse,
};

verus! {

/// Characters of a raw response body that a `SourceResponse` keeps.
pub const RAW_RESPONSE_LIMIT: usize = 500;

/// The responses that carry a reading, in order.
pub open spec fn successful_of(rs: Seq<SourceResponse>) -> Seq<SourceResponse>
    decreases rs.len(),
{
    if rs.len() == 0 {
        Seq::empty()
    } else if rs.last().success {
        successful_of(rs.drop_last()).push(rs.last())
    } else {
        successful_of(rs.drop_last())
    }
}

/// The claim type that this resolver handles.
pub open spec fn weather_claim_type() -> Seq<char> {
    seq!['w', 'e', 'a', 't', 'h', 'e', 'r', '_', 't', 'h', 'r', 'e', 's', 'h', 'o', 'l', 'd']
}

/// The outcome of resolving a weather claim from its source responses: the
/// aggregate as (numerator, denominator) and the verdict, or the fatal error.
pub open spec fn resolution_of(spec: ClaimSpec, responses: Seq<SourceResponse>) -> Result<
    (int, int, bool),
    ResolveError,
> {
    if spec.claim_type@ != weather_claim_type() {
        Err(ResolveError::UnsupportedClaimType)
    } else {
        match spec.params {
            ClaimParams::PriceThreshold(_) => Err(ResolveError::InvalidParams),
            ClaimParams::WeatherThreshold(p) => match aggregate_spec(
                values_of(successful_of(responses)),
                spec.aggregator@,
                p.operator@,
                p.threshold as int,
            ) {
                Err(e) => Err(e),
                Ok(a) => match operator_of(p.operator@) {
                    None => Err(ResolveError::UnknownOperator),
                    Some(op) => Ok((a.0, a.1, holds(op, a.0, a.1, p.threshold as int))),
                },
            },
        }
    }
}

/// The text kept of a response body: the whole of it when it has at most
/// `max_len` characters, else its first `max_len` characters and a marker.
pub open spec fn truncated(s: Seq<char>, max_len: nat) -> Seq<char> {
    if s.len() <= max_len {
        s
    } else {
        s.take(max_len as int) + "... (truncated)"@
    }
}

/// Bounds a response body for storage.
pub fn truncate_response(s: &str, max_len: usize) -> (r: String)
    ensures
        r@ == truncated(s@, max_len as nat),
{
    if s.unicode_len() <= max_len {
        String::from_str(s)
    } else {
        let head = String::from_str(s.substring_char(0, max_len));
        head.concat("... (truncated)")
    }
}

/// The response of a source that gave `value`.
pub fn successful_response(source: &DataSource, value: i64, body: &str, timestamp: String) -> (r:
    SourceResponse)
    ensures
        r.source@ == source.name@,
        r.value == value,
        r.timestamp == timestamp,
        r.raw_response.is_some() && r.raw_response->Some_0@ == truncated(
            body@,
            RAW_RESPONSE_LIMIT as nat,
        ),
        r.success,
        r.error.is_none(),
{
    SourceResponse {
        source: source.name.clone(),
        value,
        timestamp,
        raw_response: Some(truncate_response(body, RAW_RESPONSE_LIMIT)),
        success: true,
        error: None,
    }
}

/// The response of a source that failed: recorded, with no reading.
pub fn failed_response(source: &DataSource, error: String, timestamp: String) -> (r:
    SourceResponse)
    ensures
        r.source@ == source.name@,
        r.value == 0,
        r.timestamp == timestamp,
        r.raw_response.is_none(),
        !r.success,
        r.error == Some(error),
{
    SourceResponse {
        source: source.name.clone(),
        value: 0,
        timestamp,
        raw_response: None,
        success: false,
        error: Some(error),
    }
}

/// The response of a source whose body was parsed: successful with the
/// reading extracted at the source's path, failed with the reason otherwise.
pub fn response_from_body(source: &DataSource, json: &Json, body: &str, timestamp: String) -> (r:
    SourceResponse)
    ensures
        r.source@ == source.name@,
        r.timestamp == timestamp,
        r.success == extraction_of(*json, source.extraction_path@).is_ok(),
        r.success ==> r.value == extraction_of(*json, source.extraction_path@)->Ok_0,
        r.success ==> r.raw_response.is_some() && r.raw_response->Some_0@ == truncated(
            body@,
            RAW_RESPONSE_LIMIT as nat,
        ),
        !r.success ==> r.value == 0 && r.raw_response.is_none() && r.error.is_some(),
{
    match extract_value(json, source.extraction_path.as_str()) {
        Ok(v) => successful_response(source, v, body, timestamp),
        Err(e) => failed_response(source, e.message(), timestamp),
    }
}

/// The readings of the successful responses, in order.
pub fn successful_values(responses: &[SourceResponse]) -> (r: Vec<i64>)
    ensures
        r@ == values_of(successful_of(responses@)),
        r@.len() <= responses@.len(),
{
    let mut out: Vec<i64> = Vec::new();
    let mut i: usize = 0;
    while i < responses.len()
        invariant
            i <= responses@.len(),
            out@ == values_of(successful_of(responses@.subrange(0, i as int))),
            out@.len() <= i,
        decreases responses@.len() - i,
    {
        let ghost prev = responses@.subrange(0, i as int);
        assert(responses@.subrange(0, i + 1).drop_last() =~= prev);
        if responses[i].success {
            out.push(responses[i].value);
            assert(values_of(successful_of(prev).push(responses@[i as int])) =~= values_of(
                successful_of(prev),
            ).push(responses@[i as int].value));
        }
        i += 1;
    }
    assert(responses@.subrange(0, i as int) =~= responses@);
    out
}

/// Resolves a weather claim from one response per declared source, in
/// declaration order: aggregates the successful readings, evaluates the
/// condition, and records every response, failed ones included.
pub fn resolve_weather_claim(
    spec: &ClaimSpec,
    responses: Vec<SourceResponse>,
    resolved_at: String,
    enclave_measurement: String,
) -> (r: Result<ResolutionResult, ResolveError>)
    requires
        responses@.len() == spec.sources@.len(),
        responses@.len() <= i64::MAX,
        forall|i: int|
            0 <= i < responses@.len() ==> #[trigger] responses@[i].source@ == spec.sources@[i].name@,
    ensures
        r.is_ok() <==> resolution_of(*spec, responses@).is_ok(),
        r.is_err() ==> r->Err_0 == resolution_of(*spec, responses@)->Err_0,
        r.is_ok() ==> {
            let res = r->Ok_0;
            let out = resolution_of(*spec, responses@)->Ok_0;
            &&& res.aggregated_value.wf()
            &&& res.aggregated_value.num == out.0
            &&& res.aggregated_value.den == out.1
            &&& res.verdict == out.2
            &&& res.claim_id@ == spec.claim_id@
            &&& res.source_responses@ == responses@
            &&& res.resolved_at == resolved_at
            &&& res.enclave_measurement == enclave_measurement
            &&& spec.params matches ClaimParams::WeatherThreshold(p) && res.threshold == p.threshold
                && res.operator@ == p.operator@
        },
        r.is_ok() ==> r->Ok_0.source_responses@.len() == spec.sources@.len() && forall|i: int|
            0 <= i < spec.sources@.len() ==> #[trigger] r->Ok_0.source_responses@[i].source@
                == spec.sources@[i].name@,
{
    proof {
        reveal_strlit("weather_threshold");
        assert("weather_threshold"@ =~= weather_claim_type());
    }
    if !str_eq(spec.claim_type.as_str(), "weather_threshold") {
        return Err(ResolveError::UnsupportedClaimType);
    }
    let params = match &spec.params {
        ClaimParams::WeatherThreshold(p) => p,
        ClaimParams::PriceThreshold(_) => {
            return Err(ResolveError::InvalidParams);
        },
    };
    let values = successful_values(responses.as_slice());
    let aggregated_value = match aggregate(
        values.as_slice(),
        spec.aggregator.as_str(),
        params.operator.as_str(),
        params.threshold,
    ) {
        Ok(a) => a,
        Err(e) => {
            return Err(e);
        },
    };
    let verdict = match evaluate_condition(
        aggregated_value,
        params.operator.as_str(),
        params.threshold,
    ) {
        Ok(v) => v,
        Err(e) => {
            return Err(e);
        },
    };
    Ok(
        ResolutionResult {
            claim_id: spec.claim_id.clone(),
            verdict,
            source_responses: responses,
            aggregated_value,
            threshold: params.threshold,
            operator: params.operator.clone(),
            resolved_at,
            enclave_measurement,
        },
    )
}

/// When every source failed, aggregation is fatal whatever the strategy and
/// the operator.
pub proof fn lemma_all_failed_is_fatal(
    responses: Seq<SourceResponse>,
    aggregator: Seq<char>,
    operator: Seq<char>,
    threshold: int,
)
    requires
        forall|i: int| 0 <= i < responses.len() ==> !(#[trigger] responses[i]).success,
    ensures
        aggregate_spec(values_of(successful_of(responses)), aggregator, operator, threshold)
            == Err::<(int, int), ResolveError>(ResolveError::NoSuccessfulResponses),
    decreases responses.len(),
{
    if responses.len() > 0 {
        let rest = responses.drop_last();
        assert forall|i: int| 0 <= i < rest.len() implies !(#[trigger] rest[i]).success by {
            assert(rest[i] == responses[i]);
        }
        lemma_all_failed_is_fatal(rest, aggregator, operator, threshold);
        assert(!responses[responses.len() - 1].success);
    }
}

} // verus!
