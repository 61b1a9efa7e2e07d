use vstd::prelude::*;
use chrono::{Datelike, Timelike, Utc};
use crate::number::pow10_spec;
use crate::types::WeatherThresholdParams;

verus! {

/// The year, month, day and hour, in UTC, of an RFC 3339 timestamp.
pub uninterp spec fn utc_fields_of(s: Seq<char>) -> Option<(int, int, int, int)>;

/// Relies on chrono's `DateTime::parse_from_rfc3339`, read in UTC: the
/// calendar fields of the instant, month 1 to 12, day 1 to 31, hour 0 to 23.
#[verifier::external_body]
fn parse_rfc3339_utc(s: &str) -> (r: Option<(i32, u32, u32, u32)>)
    ensures
        r.is_some() == utc_fields_of(s@).is_some(),
        r.is_some() ==> {
            let f = r->Some_0;
            let g = utc_fields_of(s@)->Some_0;
            &&& f.0 as int == g.0 && f.1 as int == g.1 && f.2 as int == g.2 && f.3 as int == g.3
            &&& 1 <= f.1 <= 12 && 1 <= f.2 <= 31 && f.3 <= 23
        },
{
    match chrono::DateTime::parse_from_rfc3339(s) {
        Ok(d) => {
            let u = d.with_timezone(&Utc);
            Some((u.year(), u.month(), u.day(), u.hour()))
        },
        Err(_) => None,
    }
}

/// Every non-overlapping match of `from`, left to right, replaced by `to`.
pub open spec fn replace_all(s: Seq<char>, from: Seq<char>, to: Seq<char>) -> Seq<char>
    decreases s.len(),
{
    if from.len() == 0 || s.len() < from.len() {
        s
    } else if s.take(from.len() as int) == from {
        to + replace_all(s.skip(from.len() as int), from, to)
    } else {
        seq![s[0]] + replace_all(s.drop_first(), from, to)
    }
}

/// Relies on `str::replace`: a copy of `s` with every non-overlapping match
/// of the non-empty pattern `from`, found left to right, replaced by `to`.
#[verifier::external_body]
fn replace_text(s: &str, from: &str, to: &str) -> (r: String)
    requires
        from@.len() > 0,
    ensures
        r@ == replace_all(s@, from@, to@),
{
    s.replace(from, to)
}

/// The character of a decimal digit.
pub open spec fn digit_char(d: int) -> char {
    if d == 0 {
        '0'
    } else if d == 1 {
        '1'
    } else if d == 2 {
        '2'
    } else if d == 3 {
        '3'
    } else if d == 4 {
        '4'
    } else if d == 5 {
        '5'
    } else if d == 6 {
        '6'
    } else if d == 7 {
        '7'
    } else if d == 8 {
        '8'
    } else {
        '9'
    }
}

/// Decimal text of a number, with no leading zeros.
pub open spec fn digits_text(n: nat) -> Seq<char>
    decreases n,
{
    if n < 10 {
        seq![digit_char(n as int)]
    } else {
        digits_text(n / 10).push(digit_char((n % 10) as int))
    }
}

/// The lowest `width` decimal digits of a number: zero-padded text of a
/// number below `10^width`.
pub open spec fn padded(n: nat, width: nat) -> Seq<char>
    decreases width,
{
    if width == 0 {
        Seq::empty()
    } else {
        padded(n / 10, (width - 1) as nat).push(digit_char((n % 10) as int))
    }
}

/// Text without its trailing zeros.
pub open spec fn trim_zeros(s: Seq<char>) -> Seq<char>
    decreases s.len(),
{
    if s.len() > 0 && s.last() == '0' {
        trim_zeros(s.drop_last())
    } else {
        s
    }
}

/// Decimal text of a number of millionths: the sign, the whole part, and
/// the fractional digits without trailing zeros, the point left out when
/// there are none (`51507400` gives `51.5074`).
pub open spec fn micros_text(v: int) -> Seq<char> {
    let a = if v < 0 {
        -v
    } else {
        v
    };
    let sign = if v < 0 {
        seq!['-']
    } else {
        Seq::empty()
    };
    let f = a % 1_000_000;
    sign + digits_text((a / 1_000_000) as nat) + if f == 0 {
        Seq::empty()
    } else {
        seq!['.'] + trim_zeros(padded(f as nat, 6))
    }
}

/// `YYYY-MM-DD` of a date.
pub open spec fn date_text(year: int, month: int, day: int) -> Seq<char> {
    padded(year as nat, 4) + seq!['-'] + padded(month as nat, 2) + seq!['-'] + padded(
        day as nat,
        2,
    )
}

/// The URL of a source: the template with `{latitude}`, `{longitude}`,
/// `{date}` and `{hour}` replaced, in that order.
pub open spec fn url_of(
    template: Seq<char>,
    latitude: int,
    longitude: int,
    fields: (int, int, int, int),
) -> Seq<char> {
    replace_all(
        replace_all(
            replace_all(
                replace_all(template, "{latitude}"@, micros_text(latitude)),
                "{longitude}"@,
                micros_text(longitude),
            ),
            "{date}"@,
            date_text(fields.0, fields.1, fields.2),
        ),
        "{hour}"@,
        padded(fields.3 as nat, 2),
    )
}

fn push_digit(out: &mut String, d: u64)
    requires
        d < 10,
    ensures
        final(out)@ == old(out)@.push(digit_char(d as int)),
{
    proof {
        reveal_strlit("0");
        reveal_strlit("1");
        reveal_strlit("2");
        reveal_strlit("3");
        reveal_strlit("4");
        reveal_strlit("5");
        reveal_strlit("6");
        reveal_strlit("7");
        reveal_strlit("8");
        reveal_strlit("9");
    }
    let t = if d == 0 {
        "0"
    } else if d == 1 {
        "1"
    } else if d == 2 {
        "2"
    } else if d == 3 {
        "3"
    } else if d == 4 {
        "4"
    } else if d == 5 {
        "5"
    } else if d == 6 {
        "6"
    } else if d == 7 {
        "7"
    } else if d == 8 {
        "8"
    } else {
        "9"
    };
    assert(t@ =~= seq![digit_char(d as int)]);
    out.append(t);
}

fn push_digits(out: &mut String, n: u64)
    ensures
        final(out)@ == old(out)@ + digits_text(n as nat),
    decreases n,
{
    if n >= 10 {
        push_digits(out, n / 10);
    }
    push_digit(out, n % 10);
    assert(old(out)@ + digits_text(n as nat) =~= if n >= 10 {
        old(out)@ + digits_text((n / 10) as nat) + seq![digit_char((n % 10) as int)]
    } else {
        old(out)@ + seq![digit_char((n % 10) as int)]
    });
}

fn push_padded(out: &mut String, n: u64, width: u64)
    ensures
        final(out)@ == old(out)@ + padded(n as nat, width as nat),
    decreases width,
{
    if width > 0 {
        push_padded(out, n / 10, width - 1);
        push_digit(out, n % 10);
        assert(old(out)@ + padded(n as nat, width as nat) =~= old(out)@ + padded(
            (n / 10) as nat,
            (width - 1) as nat,
        ) + seq![digit_char((n % 10) as int)]);
    } else {
        assert(old(out)@ + padded(n as nat, 0) =~= old(out)@);
    }
}

/// Decimal text of a number of millionths.
pub fn format_micros(v: i64) -> (r: String)
    ensures
        r@ == micros_text(v as int),
{
    proof {
        reveal_strlit("-");
        reveal_strlit(".");
        reveal_strlit("");
    }
    let a: u64 = if v < 0 {
        (0 - v as i128) as u64
    } else {
        v as u64
    };
    let mut out = if v < 0 {
        String::from_str("-")
    } else {
        String::from_str("")
    };
    assert(out@ =~= if v < 0 { seq!['-'] } else { Seq::<char>::empty() });
    push_digits(&mut out, a / 1_000_000);
    let f0 = a % 1_000_000;
    if f0 != 0 {
        out.append(".");
        let mut f = f0;
        let mut w: u64 = 6;
        assert(pow10_spec(6) == 1_000_000) by {
            reveal_with_fuel(pow10_spec, 7);
        }
        while f % 10 == 0
            invariant
                0 < f < pow10_spec(w as nat),
                1 <= w <= 6,
                trim_zeros(padded(f0 as nat, 6)) == trim_zeros(padded(f as nat, w as nat)),
            decreases w,
        {
            let ghost p = padded(f as nat, w as nat);
            assert(p.drop_last() == padded((f / 10) as nat, (w - 1) as nat));
            assert(w >= 2) by {
                if w == 1 {
                    reveal_with_fuel(pow10_spec, 2);
                }
            }
            assert(f / 10 < pow10_spec((w - 1) as nat)) by (nonlinear_arith)
                requires
                    f < pow10_spec(w as nat),
                    pow10_spec(w as nat) == 10 * pow10_spec((w - 1) as nat),
            ;
            f = f / 10;
            w = w - 1;
        }
        let ghost p = padded(f as nat, w as nat);
        assert(trim_zeros(p) == p) by {
            assert(p.last() == digit_char((f % 10) as int));
        }
        push_padded(&mut out, f, w);
    }
    out
}

/// `YYYY-MM-DD` of a date whose year has at most four digits.
pub fn format_date(year: u64, month: u64, day: u64) -> (r: String)
    ensures
        r@ == date_text(year as int, month as int, day as int),
{
    proof {
        reveal_strlit("");
        reveal_strlit("-");
    }
    let mut out = String::from_str("");
    push_padded(&mut out, year, 4);
    out.append("-");
    push_padded(&mut out, month, 2);
    out.append("-");
    push_padded(&mut out, day, 2);
    assert(out@ =~= date_text(year as int, month as int, day as int));
    out
}

/// The URL to query for a source: the template with the claim's coordinates
/// and the date and hour of its deadline, in UTC. `None` where the deadline is
/// not an RFC 3339 timestamp with a year from 0 to 9999.
pub fn build_url(template: &str, params: &WeatherThresholdParams, deadline: &str) -> (r: Option<
    String,
>)
    ensures
        r.is_some() <==> (utc_fields_of(deadline@).is_some() && 0 <= utc_fields_of(
            deadline@,
        )->Some_0.0 <= 9999),
        r.is_some() ==> r->Some_0@ == url_of(
            template@,
            params.latitude as int,
            params.longitude as int,
            utc_fields_of(deadline@)->Some_0,
        ),
{
    proof {
        reveal_strlit("{latitude}");
        reveal_strlit("{longitude}");
        reveal_strlit("{date}");
        reveal_strlit("{hour}");
        reveal_strlit("");
    }
    let (year, month, day, hour) = match parse_rfc3339_utc(deadline) {
        Some(f) => f,
        None => {
            return None;
        },
    };
    if year < 0 || year > 9999 {
        return None;
    }
    let lat = format_micros(params.latitude);
    let lon = format_micros(params.longitude);
    let date = format_date(year as u64, month as u64, day as u64);
    let mut hour_text = String::from_str("");
    push_padded(&mut hour_text, hour as u64, 2);
    assert(hour_text@ =~= padded(hour as nat, 2));
    let url = replace_text(template, "{latitude}", lat.as_str());
    let url = replace_text(url.as_str(), "{longitude}", lon.as_str());
    let url = replace_text(url.as_str(), "{date}", date.as_str());
    let url = replace_text(url.as_str(), "{hour}", hour_text.as_str());
    Some(url)
}

} // verus!
