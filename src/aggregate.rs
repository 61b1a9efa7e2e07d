use vstd::prelude::*;
use vstd::relations::{sorted_by, total_ordering};
use vstd::seq_lib::lemma_sorted_unique;
use crate::types::{Fraction, ResolveError, SourceResponse, SCALE};

verus! {

/// Equality tolerance, in millionths: two values are equal when they differ
/// by less than 0.001.
pub const EQ_TOLERANCE: i64 = 1_000;

/// A relational operator of a threshold condition.
#[derive(Clone, Copy, Debug, PartialEq, Eq, Structural)]
pub enum Operator {
    Gt,
    Lt,
    Ge,
    Le,
    Eq,
}

/// An aggregation strategy.
#[derive(Clone, Copy, Debug, PartialEq, Eq, Structural)]
pub enum Aggregator {
    Median,
    Mean,
    Majority,
}

/// The operator that a name denotes, if any.
pub open spec fn operator_of(s: Seq<char>) -> Option<Operator> {
    if s == seq!['>'] {
        Some(Operator::Gt)
    } else if s == seq!['<'] {
        Some(Operator::Lt)
    } else if s == seq!['>', '='] {
        Some(Operator::Ge)
    } else if s == seq!['<', '='] {
        Some(Operator::Le)
    } else if s == seq!['=', '='] {
        Some(Operator::Eq)
    } else {
        None
    }
}

/// The aggregation strategy that a name denotes, if any.
pub open spec fn aggregator_of(s: Seq<char>) -> Option<Aggregator> {
    if s == seq!['m', 'e', 'd', 'i', 'a', 'n'] {
        Some(Aggregator::Median)
    } else if s == seq!['m', 'e', 'a', 'n'] {
        Some(Aggregator::Mean)
    } else if s == seq!['m', 'a', 'j', 'o', 'r', 'i', 't', 'y'] {
        Some(Aggregator::Majority)
    } else {
        None
    }
}

/// Whether the value `num / den` stands in relation `op` to `threshold`
/// (`den > 0`); `Eq` holds when they differ by less than `EQ_TOLERANCE`.
pub open spec fn holds(op: Operator, num: int, den: int, threshold: int) -> bool {
    match op {
        Operator::Gt => num > threshold * den,
        Operator::Lt => num < threshold * den,
        Operator::Ge => num >= threshold * den,
        Operator::Le => num <= threshold * den,
        Operator::Eq => (threshold - EQ_TOLERANCE) * den < num < (threshold + EQ_TOLERANCE)
            * den,
    }
}

/// The readings of a list of responses.
pub open spec fn values_of(rs: Seq<SourceResponse>) -> Seq<i64> {
    rs.map_values(|r: SourceResponse| r.value)
}

/// The ascending order on readings.
pub open spec fn ascending() -> spec_fn(i64, i64) -> bool {
    |a: i64, b: i64| a <= b
}

/// The readings in ascending order.
pub open spec fn sorted_values(s: Seq<i64>) -> Seq<i64> {
    s.sort_by(ascending())
}

/// The median as a fraction (numerator, denominator): the middle reading for
/// an odd count, the mean of the two middle readings for an even count.
pub open spec fn median_of(s: Seq<i64>) -> (int, int) {
    let t = sorted_values(s);
    let n = s.len() as int;
    if n % 2 == 1 {
        (t[n / 2] as int, 1)
    } else {
        (t[n / 2 - 1] + t[n / 2], 2)
    }
}

/// The sum of the readings.
pub open spec fn sum_of(s: Seq<i64>) -> int
    decreases s.len(),
{
    if s.len() == 0 {
        0
    } else {
        sum_of(s.drop_last()) + s.last()
    }
}

/// How many readings, each taken on its own, meet the condition.
pub open spec fn count_passing(s: Seq<i64>, op: Operator, threshold: int) -> int
    decreases s.len(),
{
    if s.len() == 0 {
        0
    } else {
        count_passing(s.drop_last(), op, threshold) + if holds(op, s.last() as int, 1, threshold) {
            1int
        } else {
            0int
        }
    }
}

/// The majority sentinel: one unit above the threshold when a strict majority
/// of the readings meet the condition, one unit below otherwise.
pub open spec fn majority_of(s: Seq<i64>, op: Operator, threshold: int) -> int {
    if count_passing(s, op, threshold) > s.len() / 2 {
        threshold + SCALE
    } else {
        threshold - SCALE
    }
}

/// What aggregating non-empty readings gives, as a fraction, or the error.
pub open spec fn aggregate_spec(s: Seq<i64>, aggregator: Seq<char>, operator: Seq<char>, threshold: int)
    -> Result<(int, int), ResolveError>
{
    if s.len() == 0 {
        Err(ResolveError::NoSuccessfulResponses)
    } else {
        match aggregator_of(aggregator) {
            None => Err(ResolveError::UnknownAggregator),
            Some(Aggregator::Median) => Ok(median_of(s)),
            Some(Aggregator::Mean) => Ok((sum_of(s), s.len() as int)),
            Some(Aggregator::Majority) => match operator_of(operator) {
                None => Err(ResolveError::UnknownOperator),
                Some(op) => Ok((majority_of(s, op, threshold), 1)),
            },
        }
    }
}

/// Whether two strings hold the same characters.
pub fn str_eq(a: &str, b: &str) -> (r: bool)
    ensures
        r == (a@ == b@),
{
    let n = a.unicode_len();
    if n != b.unicode_len() {
        return false;
    }
    let mut i: usize = 0;
    while i < n
        invariant
            n == a@.len(),
            n == b@.len(),
            i <= n,
            a@.subrange(0, i as int) == b@.subrange(0, i as int),
        decreases n - i,
    {
        if a.get_char(i) != b.get_char(i) {
            return false;
        }
        assert(a@.subrange(0, i + 1) == a@.subrange(0, i as int).push(a@[i as int]));
        assert(b@.subrange(0, i + 1) == b@.subrange(0, i as int).push(b@[i as int]));
        i += 1;
    }
    assert(a@ == a@.subrange(0, n as int));
    assert(b@ == b@.subrange(0, n as int));
    true
}

/// Reads an operator name.
pub fn parse_operator(s: &str) -> (r: Option<Operator>)
    ensures
        r == operator_of(s@),
{
    proof {
        reveal_strlit(">");
        assert(">"@ =~= seq!['>']);
        reveal_strlit("<");
        assert("<"@ =~= seq!['<']);
        reveal_strlit(">=");
        assert(">="@ =~= seq!['>', '=']);
        reveal_strlit("<=");
        assert("<="@ =~= seq!['<', '=']);
        reveal_strlit("==");
        assert("=="@ =~= seq!['=', '=']);
    }
    if str_eq(s, ">") {
        Some(Operator::Gt)
    } else if str_eq(s, "<") {
        Some(Operator::Lt)
    } else if str_eq(s, ">=") {
        Some(Operator::Ge)
    } else if str_eq(s, "<=") {
        Some(Operator::Le)
    } else if str_eq(s, "==") {
        Some(Operator::Eq)
    } else {
        None
    }
}

/// Reads an aggregation strategy name.
pub fn parse_aggregator(s: &str) -> (r: Option<Aggregator>)
    ensures
        r == aggregator_of(s@),
{
    proof {
        reveal_strlit("median");
        assert("median"@ =~= seq!['m', 'e', 'd', 'i', 'a', 'n']);
        reveal_strlit("mean");
        assert("mean"@ =~= seq!['m', 'e', 'a', 'n']);
        reveal_strlit("majority");
        assert("majority"@ =~= seq!['m', 'a', 'j', 'o', 'r', 'i', 't', 'y']);
    }
    if str_eq(s, "median") {
        Some(Aggregator::Median)
    } else if str_eq(s, "mean") {
        Some(Aggregator::Mean)
    } else if str_eq(s, "majority") {
        Some(Aggregator::Majority)
    } else {
        None
    }
}

/// Whether `value` stands in relation `op` to `threshold`.
pub fn check_condition(value: Fraction, op: Operator, threshold: i64) -> (r: bool)
    requires
        value.wf(),
    ensures
        r == holds(op, value.num as int, value.den as int, threshold as int),
{
    let den = value.den;
    let t = threshold as i128;
    let lo = t - EQ_TOLERANCE as i128;
    let hi = t + EQ_TOLERANCE as i128;
    proof {
        let d = den as int;
        assert(-0x8000_0000_0000_0000 * d <= (t as int) * d <= 0x8000_0000_0000_0000 * d)
            by (nonlinear_arith)
            requires
                1 <= d,
                -0x8000_0000_0000_0000 <= t <= 0x8000_0000_0000_0000,
        ;
        assert(-0x8000_0000_0000_1000 * d <= (lo as int) * d <= 0x8000_0000_0000_1000 * d)
            by (nonlinear_arith)
            requires
                1 <= d,
                -0x8000_0000_0000_1000 <= lo <= 0x8000_0000_0000_1000,
        ;
        assert(-0x8000_0000_0000_1000 * d <= (hi as int) * d <= 0x8000_0000_0000_1000 * d)
            by (nonlinear_arith)
            requires
                1 <= d,
                -0x8000_0000_0000_1000 <= hi <= 0x8000_0000_0000_1000,
        ;
    }
    match op {
        Operator::Gt => value.num > t * den,
        Operator::Lt => value.num < t * den,
        Operator::Ge => value.num >= t * den,
        Operator::Le => value.num <= t * den,
        Operator::Eq => lo * den < value.num && value.num < hi * den,
    }
}

/// Compares `value` with `threshold` under the named operator; an unknown
/// operator is an error.
pub fn evaluate_condition(value: Fraction, operator: &str, threshold: i64) -> (r: Result<
    bool,
    ResolveError,
>)
    requires
        value.wf(),
    ensures
        r == match operator_of(operator@) {
            Some(op) => Ok::<bool, ResolveError>(
                holds(op, value.num as int, value.den as int, threshold as int),
            ),
            None => Err(ResolveError::UnknownOperator),
        },
{
    match parse_operator(operator) {
        Some(op) => Ok(check_condition(value, op, threshold)),
        None => Err(ResolveError::UnknownOperator),
    }
}

/// Relies on `slice::sort_unstable`: afterwards the vector holds the same
/// readings, in ascending order.
#[verifier::external_body]
fn sort_ascending(v: &mut Vec<i64>)
    ensures
        final(v)@.to_multiset() == old(v)@.to_multiset(),
        sorted_by(final(v)@, ascending()),
{
    v.sort_unstable();
}

proof fn lemma_ascending_total()
    ensures
        total_ordering(ascending()),
{
}

/// The sorted readings are `sorted_values`.
proof fn lemma_sorted_is_sorted_values(s: Seq<i64>, t: Seq<i64>)
    requires
        t.to_multiset() == s.to_multiset(),
        sorted_by(t, ascending()),
    ensures
        t == sorted_values(s),
        t.len() == s.len(),
{
    lemma_ascending_total();
    s.lemma_sort_by_ensures(ascending());
    lemma_sorted_unique(t, sorted_values(s), ascending());
    vstd::seq_lib::to_multiset_len(t);
    vstd::seq_lib::to_multiset_len(s);
}

/// The readings of the responses, in order.
pub fn values_vec(responses: &[SourceResponse]) -> (r: Vec<i64>)
    ensures
        r@ == values_of(responses@),
{
    let mut out: Vec<i64> = Vec::new();
    let mut i: usize = 0;
    while i < responses.len()
        invariant
            i <= responses@.len(),
            out@ == values_of(responses@.subrange(0, i as int)),
        decreases responses@.len() - i,
    {
        out.push(responses[i].value);
        assert(values_of(responses@.subrange(0, i + 1)) =~= values_of(
            responses@.subrange(0, i as int),
        ).push(responses@[i as int].value));
        i += 1;
    }
    assert(responses@.subrange(0, i as int) =~= responses@);
    out
}

/// The median of non-empty readings.
pub fn median_of_values(values: &[i64]) -> (r: Fraction)
    requires
        values@.len() > 0,
    ensures
        r.wf(),
        r.num == median_of(values@).0,
        r.den == median_of(values@).1,
{
    let mut sorted = vstd::slice::slice_to_vec(values);
    sort_ascending(&mut sorted);
    proof {
        lemma_sorted_is_sorted_values(values@, sorted@);
    }
    let n = sorted.len();
    if n % 2 == 0 {
        Fraction { num: sorted[n / 2 - 1] as i128 + sorted[n / 2] as i128, den: 2 }
    } else {
        Fraction { num: sorted[n / 2] as i128, den: 1 }
    }
}

/// The median of the readings of non-empty responses.
pub fn calculate_median(responses: &[SourceResponse]) -> (r: Fraction)
    requires
        responses@.len() > 0,
    ensures
        r.wf(),
        r.num == median_of(values_of(responses@)).0,
        r.den == median_of(values_of(responses@)).1,
{
    let values = values_vec(responses);
    median_of_values(values.as_slice())
}

proof fn lemma_sum_bound(s: Seq<i64>)
    ensures
        -0x8000_0000_0000_0000 * s.len() <= sum_of(s) <= 0x8000_0000_0000_0000 * s.len(),
    decreases s.len(),
{
    if s.len() > 0 {
        lemma_sum_bound(s.drop_last());
    }
}

/// The mean of non-empty readings, as their sum over their count.
pub fn mean_of_values(values: &[i64]) -> (r: Fraction)
    requires
        0 < values@.len() <= i64::MAX,
    ensures
        r.wf(),
        r.num == sum_of(values@),
        r.den == values@.len(),
{
    let mut sum: i128 = 0;
    let mut i: usize = 0;
    while i < values.len()
        invariant
            i <= values@.len() <= i64::MAX,
            sum == sum_of(values@.subrange(0, i as int)),
        decreases values@.len() - i,
    {
        proof {
            lemma_sum_bound(values@.subrange(0, i as int));
            assert(values@.subrange(0, i + 1).drop_last() =~= values@.subrange(0, i as int));
        }
        sum = sum + values[i] as i128;
        i += 1;
    }
    assert(values@.subrange(0, i as int) =~= values@);
    proof {
        lemma_sum_bound(values@);
    }
    Fraction { num: sum, den: values.len() as i128 }
}

/// The mean of the readings of non-empty responses.
pub fn calculate_mean(responses: &[SourceResponse]) -> (r: Fraction)
    requires
        0 < responses@.len() <= i64::MAX,
    ensures
        r.wf(),
        r.num == sum_of(values_of(responses@)),
        r.den == responses@.len(),
{
    let values = values_vec(responses);
    mean_of_values(values.as_slice())
}

/// The majority sentinel of non-empty readings.
pub fn majority_of_values(values: &[i64], op: Operator, threshold: i64) -> (r: Fraction)
    requires
        values@.len() > 0,
    ensures
        r.wf(),
        r.num == majority_of(values@, op, threshold as int),
        r.den == 1,
{
    let mut passing: usize = 0;
    let mut i: usize = 0;
    while i < values.len()
        invariant
            i <= values@.len(),
            passing <= i,
            passing == count_passing(values@.subrange(0, i as int), op, threshold as int),
        decreases values@.len() - i,
    {
        assert(values@.subrange(0, i + 1).drop_last() =~= values@.subrange(0, i as int));
        if check_condition(Fraction::whole(values[i]), op, threshold) {
            passing += 1;
        }
        i += 1;
    }
    assert(values@.subrange(0, i as int) =~= values@);
    if passing > values.len() / 2 {
        Fraction { num: threshold as i128 + SCALE as i128, den: 1 }
    } else {
        Fraction { num: threshold as i128 - SCALE as i128, den: 1 }
    }
}

/// The majority sentinel of the readings of non-empty responses: one unit
/// above the threshold when a strict majority meet the condition, one unit
/// below otherwise.
pub fn calculate_majority(responses: &[SourceResponse], op: Operator, threshold: i64) -> (r:
    Fraction)
    requires
        responses@.len() > 0,
    ensures
        r.wf(),
        r.num == majority_of(values_of(responses@), op, threshold as int),
        r.den == 1,
{
    let values = values_vec(responses);
    majority_of_values(values.as_slice(), op, threshold)
}

/// Aggregates the successful readings under the named strategy; the
/// operator is read only for "majority".
pub fn aggregate(values: &[i64], aggregator: &str, operator: &str, threshold: i64) -> (r: Result<
    Fraction,
    ResolveError,
>)
    requires
        values@.len() <= i64::MAX,
    ensures
        match (r, aggregate_spec(values@, aggregator@, operator@, threshold as int)) {
            (Ok(f), Ok(p)) => f.wf() && f.num == p.0 && f.den == p.1,
            (Err(e), Err(x)) => e == x,
            _ => false,
        },
{
    if values.len() == 0 {
        return Err(ResolveError::NoSuccessfulResponses);
    }
    match parse_aggregator(aggregator) {
        None => Err(ResolveError::UnknownAggregator),
        Some(Aggregator::Median) => Ok(median_of_values(values)),
        Some(Aggregator::Mean) => Ok(mean_of_values(values)),
        Some(Aggregator::Majority) => match parse_operator(operator) {
            None => Err(ResolveError::UnknownOperator),
            Some(op) => Ok(majority_of_values(values, op, threshold)),
        },
    }
}

} // verus!
