use vstd::prelude::*;

verus! {

/// Whether a character is an ASCII decimal digit.
pub open spec fn is_digit(c: char) -> bool {
    '0' <= c && c <= '9'
}

/// Whether every character is a decimal digit.
pub open spec fn all_digits(s: Seq<char>) -> bool {
    forall|i: int| 0 <= i < s.len() ==> is_digit(#[trigger] s[i])
}

/// The number that a digit string denotes (0 for the empty string).
pub open spec fn digits_value(s: Seq<char>) -> int
    decreases s.len(),
{
    if s.len() == 0 {
        0
    } else {
        digits_value(s.drop_last()) * 10 + (s.last() as int - '0' as int)
    }
}

/// Position of the first '.', or the length when there is none.
pub open spec fn dot_pos(s: Seq<char>) -> nat
    decreases s.len(),
{
    if s.len() == 0 {
        0
    } else if s[0] == '.' {
        0
    } else {
        1 + dot_pos(s.drop_first())
    }
}

/// The first six fractional digits, padded with zeros.
pub open spec fn six_places(f: Seq<char>) -> Seq<char> {
    if f.len() >= 6 {
        f.take(6)
    } else {
        f + Seq::new((6 - f.len()) as nat, |i: int| '0')
    }
}

/// Millionths denoted by unsigned decimal text `digits[.digits]`, with at
/// least one digit on either side of the point; fractional digits beyond the
/// sixth are dropped.
pub open spec fn unsigned_micros(s: Seq<char>) -> Option<int> {
    let p = dot_pos(s) as int;
    let int_part = s.take(p);
    let frac = if p < s.len() {
        s.skip(p + 1)
    } else {
        Seq::empty()
    };
    if all_digits(int_part) && all_digits(frac) && int_part.len() + frac.len() > 0 {
        Some(digits_value(int_part) * 1_000_000 + digits_value(six_places(frac)))
    } else {
        None
    }
}

/// Millionths denoted by decimal text with an optional sign, rounded toward
/// zero.
pub open spec fn decimal_micros(s: Seq<char>) -> Option<int> {
    if s.len() > 0 && s[0] == '-' {
        match unsigned_micros(s.drop_first()) {
            Some(v) => Some(-v),
            None => None,
        }
    } else if s.len() > 0 && s[0] == '+' {
        unsigned_micros(s.drop_first())
    } else {
        unsigned_micros(s)
    }
}

proof fn lemma_digits_value_prefix(s: Seq<char>, i: int)
    requires
        0 <= i <= s.len(),
        all_digits(s),
    ensures
        0 <= digits_value(s.take(i)) <= digits_value(s),
    decreases s.len(),
{
    if s.len() > 0 {
        let t = s.drop_last();
        assert(all_digits(t)) by {
            assert forall|j: int| 0 <= j < t.len() implies is_digit(#[trigger] t[j]) by {
                assert(t[j] == s[j]);
            }
        }
        assert(is_digit(s[s.len() - 1]));
        if i == s.len() {
            lemma_digits_value_prefix(t, t.len() as int);
            assert(t.take(t.len() as int) =~= t);
            assert(s.take(i) =~= s);
        } else {
            lemma_digits_value_prefix(t, i);
            assert(t.take(i) =~= s.take(i));
        }
    }
}

/// A digit string read into an integer, or `None` once it exceeds `cap`.
pub(crate) fn read_digits(s: &str, from: usize, to: usize, cap: u128) -> (r: Option<u128>)
    requires
        from <= to <= s@.len(),
        cap < 0x1_0000_0000_0000_0000_0000_0000_0000,
        all_digits(s@.subrange(from as int, to as int)),
    ensures
        r.is_some() <==> digits_value(s@.subrange(from as int, to as int)) <= cap,
        r.is_some() ==> r->Some_0 == digits_value(s@.subrange(from as int, to as int)),
{
    let ghost d = s@.subrange(from as int, to as int);
    let mut acc: u128 = 0;
    let mut i: usize = from;
    while i < to
        invariant
            from <= i <= to <= s@.len(),
            cap < 0x1_0000_0000_0000_0000_0000_0000_0000,
            d == s@.subrange(from as int, to as int),
            all_digits(d),
            acc == digits_value(d.take(i - from)),
            acc <= cap,
        decreases to - i,
    {
        let c = s.get_char(i);
        assert(c == d[i - from]);
        assert(d.take(i - from + 1).drop_last() =~= d.take(i - from));
        let digit = (c as u32 - '0' as u32) as u128;
        acc = acc * 10 + digit;
        if acc > cap {
            proof {
                lemma_digits_value_prefix(d, i - from + 1);
            }
            return None;
        }
        i += 1;
    }
    assert(d.take(i - from) =~= d);
    Some(acc)
}

/// Position of the first '.' at or after `from`, or the length.
pub(crate) fn find_point(s: &str, from: usize) -> (p: usize)
    requires
        from <= s@.len(),
    ensures
        from <= p <= s@.len(),
        p - from == dot_pos(s@.skip(from as int)),
{
    let n = s.unicode_len();
    let ghost u = s@.skip(from as int);
    let mut p: usize = from;
    assert(u.skip(0) =~= u);
    while p < n && s.get_char(p) != '.'
        invariant
            from <= p <= n == s@.len(),
            u == s@.skip(from as int),
            dot_pos(u.skip(p - from)) + (p - from) == dot_pos(u),
        decreases n - p,
    {
        assert(u.skip(p - from).drop_first() =~= u.skip(p - from + 1));
        p += 1;
    }
    if p < n {
        assert(u.skip(p - from)[0] == '.');
    } else {
        assert(u.skip(p - from).len() == 0);
    }
    p
}

/// Whether the characters in `[from, to)` are all digits.
pub(crate) fn check_digits(s: &str, from: usize, to: usize) -> (r: bool)
    requires
        from <= to <= s@.len(),
    ensures
        r == all_digits(s@.subrange(from as int, to as int)),
{
    let ghost d = s@.subrange(from as int, to as int);
    let mut k: usize = from;
    while k < to
        invariant
            from <= k <= to <= s@.len(),
            d == s@.subrange(from as int, to as int),
            forall|j: int| 0 <= j < k - from ==> is_digit(#[trigger] d[j]),
        decreases to - k,
    {
        let c = s.get_char(k);
        assert(d[k - from] == c);
        if !('0' <= c && c <= '9') {
            return false;
        }
        k += 1;
    }
    true
}

/// The six fractional places of the digits in `[from, to)`, as millionths.
fn read_six_places(s: &str, from: usize, to: usize) -> (r: u128)
    requires
        from <= to <= s@.len(),
        all_digits(s@.subrange(from as int, to as int)),
    ensures
        r == digits_value(six_places(s@.subrange(from as int, to as int))),
        r < 1_000_000,
{
    let ghost frac = s@.subrange(from as int, to as int);
    let ghost six = six_places(frac);
    let mut fr: u128 = 0;
    let mut i: usize = 0;
    assert(pow10_spec(0) == 1);
    while i < 6
        invariant
            i <= 6,
            from <= to <= s@.len(),
            frac == s@.subrange(from as int, to as int),
            all_digits(frac),
            six == six_places(frac),
            six.len() == 6,
            fr == digits_value(six.take(i as int)),
            fr < pow10_spec(i as nat),
        decreases 6 - i,
    {
        assert(six.take(i + 1).drop_last() =~= six.take(i as int));
        let digit: u128 = if i < to - from {
            assert(six[i as int] == frac[i as int]);
            assert(is_digit(frac[i as int]));
            (s.get_char(from + i) as u32 - '0' as u32) as u128
        } else {
            assert(six[i as int] == '0');
            0
        };
        assert(pow10_spec((i + 1) as nat) == 10 * pow10_spec(i as nat));
        assert(pow10_spec(i as nat) <= 100_000) by {
            reveal_with_fuel(pow10_spec, 7);
        }
        assert(fr * 10 + digit < pow10_spec((i + 1) as nat)) by (nonlinear_arith)
            requires
                fr < pow10_spec(i as nat),
                digit < 10,
                pow10_spec((i + 1) as nat) == 10 * pow10_spec(i as nat),
        ;
        fr = fr * 10 + digit;
        i += 1;
    }
    assert(pow10_spec(6) == 1_000_000) by {
        reveal_with_fuel(pow10_spec, 7);
    }
    assert(six.take(6) =~= six);
    fr
}

/// Reads decimal text into millionths, rounding toward zero: `None` where
/// the text is not a plain decimal number or the value does not fit an
/// `i64`.
pub fn parse_decimal_micros(s: &str) -> (r: Option<i64>)
    ensures
        r.is_some() <==> (decimal_micros(s@).is_some() && i64::MIN <= decimal_micros(s@)->Some_0
            <= i64::MAX),
        r.is_some() ==> r->Some_0 == decimal_micros(s@)->Some_0,
{
    let n = s.unicode_len();
    let mut start: usize = 0;
    let mut negative = false;
    if n > 0 {
        let c = s.get_char(0);
        if c == '-' {
            negative = true;
            start = 1;
        } else if c == '+' {
            start = 1;
        }
    }
    let ghost u = s@.skip(start as int);
    proof {
        if start == 1 {
            assert(u =~= s@.drop_first());
        } else {
            assert(u =~= s@);
        }
    }
    assert(negative ==> decimal_micros(s@) == match unsigned_micros(u) {
        Some(v) => Some(-v),
        None => None,
    });
    assert(!negative ==> decimal_micros(s@) == unsigned_micros(u));
    let p = find_point(s, start);
    let frac_start: usize = if p < n { p + 1 } else { n };
    let ghost int_part = u.take(p - start);
    let ghost frac = if p < n { u.skip(p - start + 1) } else { Seq::<char>::empty() };
    assert(int_part =~= s@.subrange(start as int, p as int));
    assert(frac =~= s@.subrange(frac_start as int, n as int));
    if !check_digits(s, start, p) || !check_digits(s, frac_start, n) {
        return None;
    }
    if p - start + (n - frac_start) == 0 {
        return None;
    }
    proof {
        lemma_digits_value_prefix(int_part, 0);
        assert(all_digits(six_places(frac))) by {
            let sx = six_places(frac);
            assert forall|j: int| 0 <= j < sx.len() implies is_digit(#[trigger] sx[j]) by {
                if j < frac.len() {
                    assert(sx[j] == frac[j]);
                }
            }
        }
        lemma_digits_value_prefix(six_places(frac), 0);
        assert(six_places(frac).take(0) =~= Seq::<char>::empty());
        assert(int_part.take(0) =~= Seq::<char>::empty());
    }
    // whole part, capped just above the largest whole number of millionths
    let whole = match read_digits(s, start, p, 10_000_000_000_000) {
        Some(w) => w,
        None => {
            return None;
        },
    };
    let fr = read_six_places(s, frac_start, n);
    let magnitude: u128 = whole * 1_000_000 + fr;
    if negative {
        if magnitude > 0x8000_0000_0000_0000 {
            return None;
        }
        Some((0 - magnitude as i128) as i64)
    } else {
        if magnitude > 0x7fff_ffff_ffff_ffff {
            return None;
        }
        Some(magnitude as i64)
    }
}

/// `10` to the power `n`.
pub open spec fn pow10_spec(n: nat) -> nat
    decreases n,
{
    if n == 0 {
        1
    } else {
        10 * pow10_spec((n - 1) as nat)
    }
}

} // verus!
